//! Signed transaction payloads as the signer returns them. Every field may
//! be absent; encoding and decoding them as JSON is left to the caller.
use vstd::prelude::*;

verus! {

#[derive(Clone, Debug, Default)]
pub struct CreateOrder {
    pub account_index: Option<i64>,
    pub order_book_index: Option<i64>,
    pub base_amount: Option<i64>,
    pub price: Option<i64>,
    pub is_ask: Option<i32>,
    pub order_type: Option<i32>,
    pub expired_at: Option<i64>,
    pub nonce: Option<i64>,
    pub sig: Option<String>,
}

#[derive(Clone, Debug, Default)]
pub struct CancelOrder {
    pub account_index: Option<i64>,
    pub order_book_index: Option<i64>,
    pub order_nonce: Option<i64>,
    pub expired_at: Option<i64>,
    pub nonce: Option<i64>,
    pub sig: Option<String>,
}

#[derive(Clone, Debug, Default)]
pub struct Withdraw {
    pub from_account_index: Option<i64>,
    pub collateral_amount: Option<i64>,
    pub expired_at: Option<i64>,
    pub nonce: Option<i64>,
    pub sig: Option<String>,
}

#[derive(Clone, Debug, Default)]
pub struct UpdateMargin {
    pub account_index: Option<i64>,
    pub market_index: Option<i32>,
    pub base_amount: Option<i64>,
    pub direction: Option<i32>,
    pub expired_at: Option<i64>,
    pub nonce: Option<i64>,
    pub sig: Option<String>,
}

} // verus!
