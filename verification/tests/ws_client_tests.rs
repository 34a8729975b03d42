use lighter_client::errors::WsClientError;
use lighter_client::types::{AccountId, MarketId};
use lighter_client::ws_client::{
    build_url, check_batch_shape, classify_account_message, id_channel_text, numbered, pair_channel_text,
    parse_account_index, parse_market_id, route_message_type, tx_response_verdict, ws_address_text,
    ChannelRequest, ConnectionState, MessageRoute, SubscriptionSet,
};

fn req(channel: &str, private: bool) -> ChannelRequest {
    ChannelRequest { channel: channel.to_string(), private }
}

#[test]
fn empty_set_needs_nothing() {
    let set = SubscriptionSet::default();
    assert!(set.is_empty());
    assert!(!set.requires_auth());
    assert!(set.channel_requests().is_empty());
}

#[test]
fn public_channels_do_not_need_auth() {
    let mut set = SubscriptionSet::default();
    set.add_order_book(MarketId::new(0));
    set.add_bbo(MarketId::new(1));
    set.add_trade(MarketId::new(2));
    set.add_market_stats(MarketId::new(3));
    set.subscribe_height = true;
    assert!(!set.is_empty());
    assert!(!set.requires_auth());
    assert_eq!(
        set.channel_requests(),
        vec![req("order_book/0", false), req("bbo/1", false), req("trade/2", false), req("market_stats/3", false), req("height", false)]
    );
}

#[test]
fn account_channels_are_private_and_in_order() {
    let mut set = SubscriptionSet::default();
    set.add_account(AccountId::new(42));
    set.add_account_all_positions(AccountId::new(1));
    set.add_account_all_trades(AccountId::new(2));
    set.add_account_all_orders(AccountId::new(3));
    set.add_user_stats(AccountId::new(4));
    set.add_account_tx(AccountId::new(5));
    set.pool_data.push(AccountId::new(6));
    set.pool_info.push(AccountId::new(7));
    set.notifications.push(AccountId::new(8));
    set.add_account_market(MarketId::new(1), AccountId::new(9));
    set.add_account_market_orders(MarketId::new(2), AccountId::new(10));
    set.add_account_market_positions(MarketId::new(3), AccountId::new(11));
    set.add_account_market_trades(MarketId::new(4), AccountId::new(-12));
    set.subscribe_transactions = true;
    set.subscribe_executed_transactions = true;
    assert!(set.requires_auth());
    assert_eq!(
        set.channel_requests(),
        vec![
            req("account_all/42", true),
            req("transaction", false),
            req("executed_transaction", false),
            req("account_all_positions/1", true),
            req("account_all_trades/2", true),
            req("account_all_orders/3", true),
            req("user_stats/4", true),
            req("account_tx/5", true),
            req("pool_data/6", true),
            req("pool_info/7", true),
            req("notification/8", true),
            req("account_market/1/9", true),
            req("account_orders/2/10", true),
            req("account_positions/3/11", true),
            req("account_trades/4/-12", true),
        ]
    );
}

#[test]
fn order_books_extend_in_order() {
    let mut set = SubscriptionSet::default();
    set.add_order_book(MarketId::new(5));
    set.extend_order_books(vec![MarketId::new(1), MarketId::new(5)]);
    assert_eq!(set.order_books, vec![MarketId::new(5), MarketId::new(1), MarketId::new(5)]);
}

#[test]
fn channel_texts() {
    assert_eq!(id_channel_text("order_book/", -3), "order_book/-3");
    assert_eq!(pair_channel_text("account_orders/", 1, 77), "account_orders/1/77");
    assert_eq!(numbered("tx_", 12), "tx_12");
    assert_eq!(numbered("batch_", 0), "batch_0");
}

#[test]
fn channel_ids_come_from_the_last_segment() {
    assert_eq!(parse_market_id("order_book/3"), Ok(3));
    assert_eq!(parse_market_id("order_book:17"), Ok(17));
    assert_eq!(parse_market_id("a/b:-2"), Ok(-2));
    assert_eq!(parse_market_id("order_book/x"), Err(WsClientError::InvalidChannel("order_book/x".to_string())));
    assert_eq!(parse_market_id("order_book/"), Err(WsClientError::InvalidChannel("order_book/".to_string())));
    assert_eq!(parse_account_index("account_all/281474976710656"), Ok(281474976710656));
    assert_eq!(parse_account_index("account_all/2147483648"), Ok(2147483648));
    assert!(parse_market_id("order_book/2147483648").is_err());
}

#[test]
fn account_messages_are_recognised() {
    assert_eq!(classify_account_message("subscribed/account_all"), Some(true));
    assert_eq!(classify_account_message("update/account_orders"), Some(false));
    assert_eq!(classify_account_message("update/notification"), Some(false));
    assert_eq!(classify_account_message("update/order_book"), None);
    assert_eq!(classify_account_message("subscribed/account_all_x"), None);
    assert_eq!(classify_account_message("account_all"), None);
}

#[test]
fn messages_are_routed_by_type() {
    assert_eq!(route_message_type("connected"), MessageRoute::Connected);
    assert_eq!(route_message_type("ping"), MessageRoute::Ping);
    assert_eq!(route_message_type("subscribed/order_book"), MessageRoute::OrderBookSnapshot);
    assert_eq!(route_message_type("update/order_book"), MessageRoute::OrderBookUpdate);
    assert_eq!(route_message_type("update/market_stats"), MessageRoute::MarketStats);
    assert_eq!(route_message_type("subscribed/transaction"), MessageRoute::Transaction);
    assert_eq!(route_message_type("update/executed_transaction"), MessageRoute::ExecutedTransaction);
    assert_eq!(route_message_type("update/height"), MessageRoute::Height);
    assert_eq!(route_message_type("subscribed/trade"), MessageRoute::Trade);
    assert_eq!(route_message_type("update/bbo"), MessageRoute::Bbo);
    assert_eq!(route_message_type("subscribed/user_stats"), MessageRoute::Account(true));
    assert_eq!(route_message_type("something"), MessageRoute::Unknown);
}

#[test]
fn transaction_answers_are_judged() {
    assert_eq!(tx_response_verdict(r#"{"type":"pong"}"#), None);
    assert_eq!(tx_response_verdict(r#"{"type":"subscribed/order_book"}"#), None);
    assert_eq!(tx_response_verdict(r#"{"type":"update/orders","x":1}"#), None);
    assert_eq!(tx_response_verdict(r#"{"code":200,"tx_hash":"ab"}"#), Some(true));
    assert_eq!(tx_response_verdict(r#"{"code":21104,"message":"bad"}"#), Some(false));
    assert_eq!(tx_response_verdict(r#"{"type":"error"}"#), Some(false));
    assert_eq!(tx_response_verdict(r#"{"error":"x"}"#), Some(false));
    assert_eq!(tx_response_verdict(r#"{"ok":true}"#), Some(true));
}

#[test]
fn batch_shapes_are_checked() {
    assert_eq!(check_batch_shape(3, 3), Ok(()));
    assert_eq!(check_batch_shape(50, 50), Ok(()));
    assert_eq!(
        check_batch_shape(2, 3),
        Err(WsClientError::InvalidMessage("tx_types and tx_infos must have same length".to_string()))
    );
    assert_eq!(
        check_batch_shape(51, 51),
        Err(WsClientError::InvalidMessage("Batch transaction limit is 50 transactions".to_string()))
    );
}

#[test]
fn server_addresses_become_websocket_urls() {
    assert_eq!(ws_address_text("https://api.example.com"), "wss://api.example.com");
    assert_eq!(ws_address_text("http://localhost:8080"), "ws://localhost:8080");
    assert_eq!(ws_address_text("ws://a"), "ws://a");
    assert_eq!(ws_address_text("wss://a"), "wss://a");
    assert_eq!(ws_address_text("api.example.com"), "wss://api.example.com");
    let url = build_url("https://api.example.com", "/stream").unwrap();
    assert_eq!(url.to_text(), "wss://api.example.com/stream");
    assert_eq!(url.into_url().as_str(), "wss://api.example.com/stream");
    let plain = build_url("api.example.com", "").unwrap();
    assert_eq!(plain.to_text(), "wss://api.example.com/");
    let long_path: String = std::iter::repeat('a').take(70_000).collect();
    assert!(matches!(
        build_url("wss://a", &long_path),
        Err(WsClientError::InvalidMessage(m)) if m == "websocket address too long"
    ));
    assert!(matches!(build_url("https://", "/stream"), Err(WsClientError::Url(_))));
}

#[test]
fn connection_bookkeeping() {
    let mut set = SubscriptionSet::default();
    set.add_order_book(MarketId::new(1));
    set.add_order_book(MarketId::new(2));
    set.add_order_book(MarketId::new(1));
    let mut conn = ConnectionState::new(set);
    assert_eq!(conn.auth_token(), None);
    assert_eq!(
        conn.require_auth_token(),
        Err(WsClientError::InvalidMessage("Authentication token not set".to_string()))
    );
    conn.set_auth_token("tok".to_string());
    assert_eq!(conn.auth_token(), Some("tok"));
    assert_eq!(conn.require_auth_token(), Ok("tok".to_string()));
    assert_eq!(conn.next_message_id(), 1);
    assert_eq!(conn.next_message_id(), 2);
    assert_eq!(conn.start_generation(), 1);

    conn.unsubscribe_order_book(MarketId::new(1));
    assert_eq!(conn.subscriptions().order_books, vec![MarketId::new(2)]);
    conn.subscribe_order_book(MarketId::new(2));
    assert_eq!(conn.subscriptions().order_books, vec![MarketId::new(2)]);
    conn.subscribe_order_book(MarketId::new(3));
    assert_eq!(conn.subscriptions().order_books, vec![MarketId::new(2), MarketId::new(3)]);

    assert!(!conn.record_update_offset(MarketId::new(2), Some(5)));
    assert!(!conn.record_update_offset(MarketId::new(2), Some(6)));
    assert!(conn.record_update_offset(MarketId::new(2), Some(9)));
    assert!(!conn.record_update_offset(MarketId::new(2), None));
    assert_eq!(conn.order_book_offset(MarketId::new(2)), Some(9));
    conn.record_snapshot_offset(MarketId::new(2), None);
    assert_eq!(conn.order_book_offset(MarketId::new(2)), None);
    conn.record_snapshot_offset(MarketId::new(4), Some(100));
    assert!(!conn.record_update_offset(MarketId::new(4), Some(101)));
}
