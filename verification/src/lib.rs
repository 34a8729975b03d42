//! Client-side logic for the Lighter exchange: request parameters and
//! queries, nonce bookkeeping, signed payload handling, websocket channel
//! management, and the order execution state machine used by the
//! market-making strategy.
pub mod decimal;
pub mod types;
pub mod errors;
pub mod params;
pub mod queries;
pub mod signer_client;
pub mod nonce_manager;
pub mod tx_executor;
pub mod participation;
pub mod auth;
pub mod pagination;
pub mod timings;
pub mod transactions;
pub mod config;
pub mod execution;
pub mod ws_client;
pub mod volatility;
