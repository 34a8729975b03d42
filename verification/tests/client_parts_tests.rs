use lighter_client::auth::{auth_token_expiry, token_deadline_fits, AuthCacheState, AUTH_TTL_MS};
use lighter_client::config::{
    default_false, default_flip_pause_ms, default_flip_threshold, default_flip_widen_duration_ms,
    default_global_pause_secs, default_kill_pause_secs, default_partial_age, default_partial_cooldown_ms,
    default_refresh_tolerance, default_true,
};
use lighter_client::decimal::{i64_text, parse_i32_chars, parse_i64_chars, IntParseError};
use lighter_client::errors::{classify_response_error, is_unauthorized, Error, ServerErr, SignerClientError};
use lighter_client::pagination::{next_cursor, PageStep, PaginationState};
use lighter_client::params::{
    By, CandleResolution, FundingSide, HistoryFilter, OrderFilter, PageCursor, PnlResolution, PoolFilter, SortDir,
    TimeRange, Timestamp, TradeSort,
};
use lighter_client::participation::{push_capped, SideState};
use lighter_client::queries::{HistoryQuery, InactiveOrdersQuery, TradesQuery};
use lighter_client::timings::time_block;
use lighter_client::transactions::{CancelOrder, CreateOrder, UpdateMargin, Withdraw};
use lighter_client::types::{
    AccountId, ApiKeyIndex, BaseQty, Expiry, MarketId, Nonce, Price, MAX_UNIX_TIMESTAMP, MIN_UNIX_TIMESTAMP,
};
use std::collections::VecDeque;

fn chars(s: &str) -> Vec<char> {
    s.chars().collect()
}

#[test]
fn identifiers_round_trip() {
    assert_eq!(MarketId::new(3).into_inner(), 3);
    assert_eq!(AccountId::new(-4).into_inner(), -4);
    assert_eq!(ApiKeyIndex::new(7).into_inner(), 7);
    assert_eq!(Nonce::new(9).into_inner(), 9);
    assert_eq!(Price::ticks(120).into_ticks(), 120);
    assert_eq!(BaseQty::new(5).into_inner(), 5);
    assert_eq!(BaseQty::from_i64(0), None);
    assert_eq!(BaseQty::from_i64(-2), None);
    assert_eq!(BaseQty::from_i64(7).map(|q| q.into_inner()), Some(7));
}

#[test]
fn identifiers_convert_both_ways() {
    assert_eq!(MarketId::from(3), MarketId::new(3));
    assert_eq!(i32::from(MarketId::new(3)), 3);
    assert_eq!(AccountId::from(-4i64), AccountId::new(-4));
    assert_eq!(i64::from(AccountId::new(-4)), -4);
    assert_eq!(ApiKeyIndex::from(7), ApiKeyIndex::new(7));
    assert_eq!(i32::from(ApiKeyIndex::new(7)), 7);
    assert_eq!(Price::from(-120i64), Price::ticks(-120));
    assert_eq!(i64::from(Price::ticks(0)), 0);
    assert_eq!(Nonce::from(9i64), Nonce::new(9));
    assert_eq!(i64::from(Nonce::new(9)), 9);
    assert_eq!(BaseQty::try_from(5i64).map(|q| q.into_inner()), Ok(5));
    assert_eq!(BaseQty::try_from(0i64), Err("quantity must be positive"));
    assert_eq!(BaseQty::try_from(-3i64), Err("quantity must be positive"));
}

#[test]
fn timestamps_convert_like_new() {
    assert_eq!(Timestamp::try_from(12i64).map(|t| t.into_unix()).ok(), Some(12));
    assert!(matches!(
        Timestamp::try_from(-1i64),
        Err(Error::InvalidConfig { field: "timestamp", why: "must be positive unix seconds" })
    ));
    let range = TimeRange::new(Timestamp::new(5).unwrap(), Timestamp::new(5).unwrap()).unwrap();
    assert_eq!(range.bounds(), (5, 5));
}

#[test]
fn parameter_texts() {
    assert_eq!(By::L1Hash.as_str(), "l1_tx_hash");
    assert_eq!(SortDir::Desc.as_str(), "desc");
    assert_eq!(PnlResolution::Week.as_str(), "week");
    assert_eq!(PnlResolution::Custom("2w".to_string()).as_str(), "2w");
    assert_eq!(CandleResolution::FourHours.as_str(), "4h");
    assert_eq!(TradeSort::TradeId.as_str(), "trade_id");
    assert_eq!(FundingSide::Ask.as_str(), "ask");
    assert_eq!(PoolFilter::Inactive.as_str(), "inactive");
    assert_eq!(HistoryFilter::Claimable.as_str(), "claimable");
    assert_eq!(OrderFilter::All.as_query(), None);
    assert_eq!(OrderFilter::Bids.as_query(), Some(0));
    assert_eq!(OrderFilter::Asks.as_query(), Some(1));
    assert_eq!(OrderFilter::Custom(4).as_query(), Some(4));
}

#[test]
fn cursors_and_timestamps_are_validated() {
    assert!(matches!(
        PageCursor::new(String::new()),
        Err(Error::InvalidConfig { field: "cursor", why: "cannot be empty" })
    ));
    let cursor = PageCursor::new("abc".to_string()).unwrap();
    assert_eq!(cursor.as_str(), "abc");
    assert_eq!(cursor.into_owned(), "abc");
    assert!(matches!(Timestamp::new(0), Err(Error::InvalidConfig { field: "timestamp", .. })));
    let a = Timestamp::new(10).unwrap();
    let b = Timestamp::new(20).unwrap();
    assert_eq!(a.into_unix(), 10);
    let range = TimeRange::new(a, b).unwrap();
    assert_eq!(range.bounds(), (10, 20));
    assert_eq!(range.start().into_unix(), 10);
    assert_eq!(range.end().into_unix(), 20);
    assert_eq!(range.as_query(), "10,20");
    assert!(matches!(TimeRange::new(b, a), Err(Error::InvalidConfig { field: "time_range", .. })));
}

#[test]
fn queries_keep_what_was_set() {
    assert!(matches!(TradesQuery::new(TradeSort::Timestamp, 0), Err(Error::InvalidConfig { field: "limit", .. })));
    let q = TradesQuery::new(TradeSort::Timestamp, 25)
        .unwrap()
        .market(MarketId::new(2))
        .order_index(99)
        .direction(SortDir::Asc)
        .from(Timestamp::new(5).unwrap())
        .cursor(PageCursor::new("c".to_string()).unwrap())
        .filter(OrderFilter::Asks);
    assert_eq!(q.limit(), 25);
    assert_eq!(q.sort().as_str(), "timestamp");
    assert_eq!(q.market_id(), Some(MarketId::new(2)));
    assert_eq!(q.order_index_value(), Some(99));
    assert_eq!(q.sort_direction(), Some(SortDir::Asc));
    assert_eq!(q.from_timestamp().map(|t| t.into_unix()), Some(5));
    assert_eq!(q.cursor_ref().map(|c| c.as_str().to_string()), Some("c".to_string()));
    assert_eq!(q.order_filter(), OrderFilter::Asks);

    let range = TimeRange::new(Timestamp::new(1).unwrap(), Timestamp::new(2).unwrap()).unwrap();
    let inactive = InactiveOrdersQuery::new(10).unwrap().market(MarketId::new(1)).between(range).filter(OrderFilter::Bids);
    assert_eq!(inactive.limit(), 10);
    assert_eq!(inactive.market_id(), Some(MarketId::new(1)));
    assert_eq!(inactive.between_range().map(|r| r.bounds()), Some((1, 2)));
    assert_eq!(inactive.order_filter(), OrderFilter::Bids);
    assert!(inactive.cursor_ref().is_none());
    assert!(InactiveOrdersQuery::new(-1).is_err());

    let history = HistoryQuery::new().filter(HistoryFilter::Pending).cursor(PageCursor::new("n".to_string()).unwrap());
    assert_eq!(history.filter_ref().map(|f| f.as_str().to_string()), Some("pending".to_string()));
    assert_eq!(history.cursor_ref().map(|c| c.as_str().to_string()), Some("n".to_string()));
    assert!(HistoryQuery::default().filter_ref().is_none());
}

#[test]
fn http_failures_are_described() {
    assert_eq!(
        SignerClientError::with_http_status("404 Not Found", Some("{\"m\":1}".to_string()), "body"),
        SignerClientError::Http("status code 404 Not Found: {\"m\":1}".to_string())
    );
    assert_eq!(
        SignerClientError::with_http_status("500", None, "oops"),
        SignerClientError::Http("status code 500: oops".to_string())
    );
    assert_eq!(SignerClientError::with_http_status("500", None, ""), SignerClientError::Http("status code 500".to_string()));
}

#[test]
fn rest_errors_are_classified() {
    let server = ServerErr { message: "slow".to_string(), code: Some("E1".to_string()), retry_after: Some(3) };
    assert_eq!(classify_response_error(429, Some(server.clone()), String::new()), Error::RateLimited { retry_after: Some(3) });
    assert_eq!(
        classify_response_error(400, Some(server), String::new()),
        Error::Server { status: 400, message: "slow".to_string(), code: Some("E1".to_string()) }
    );
    let raw = classify_response_error(401, None, "nope".to_string());
    assert_eq!(raw, Error::Http { status: 401, body: "nope".to_string() });
    assert!(is_unauthorized(&raw));
    assert!(!is_unauthorized(&Error::NotAuthenticated));
}

#[test]
fn decimal_texts() {
    assert_eq!(i64_text(0), "0");
    assert_eq!(i64_text(-1234), "-1234");
    assert_eq!(i64_text(i64::MIN), "-9223372036854775808");
    assert_eq!(parse_i64_chars(&chars("+42")), Ok(42));
    assert_eq!(parse_i64_chars(&chars("")), Err(IntParseError::Empty));
    assert_eq!(parse_i64_chars(&chars("-")), Err(IntParseError::InvalidDigit));
    assert_eq!(parse_i64_chars(&chars("-9223372036854775808")), Ok(i64::MIN));
    assert_eq!(parse_i64_chars(&chars("9223372036854775808")), Err(IntParseError::PosOverflow));
    assert_eq!(parse_i32_chars(&chars("-2147483649")), Err(IntParseError::NegOverflow));
    assert_eq!(parse_i32_chars(&chars("2147483647")), Ok(i32::MAX));
    assert_eq!(parse_i64_chars(&chars("9999999999999999999x")), Err(IntParseError::PosOverflow));
    assert_eq!(parse_i64_chars(&chars("-9999999999999999999x")), Err(IntParseError::NegOverflow));
    assert_eq!(parse_i64_chars(&chars("12x99999999999999999999")), Err(IntParseError::InvalidDigit));
    assert_eq!(parse_i32_chars(&chars("3000000000x")), Err(IntParseError::PosOverflow));
}

#[test]
fn auth_cache_lifetime() {
    let mut cache = AuthCacheState::new();
    assert!(!cache.is_valid(0));
    assert_eq!(cache.current_token(0), None);
    assert_eq!(cache.install("t1".to_string(), 100, 10), Ok("t1".to_string()));
    assert!(cache.is_valid(99));
    assert!(!cache.is_valid(100));
    assert_eq!(cache.token(), Some("t1".to_string()));
    // a valid token wins over a freshly issued one
    assert_eq!(cache.install("t2".to_string(), 500, 50), Ok("t1".to_string()));
    assert_eq!(cache.install("t3".to_string(), 500, 150), Ok("t3".to_string()));
    cache.clear();
    assert_eq!(cache.token(), None);
    cache.update("t4".to_string(), 10);
    assert_eq!(cache.current_token(5), Some("t4".to_string()));
    assert_eq!(auth_token_expiry(None, 1_000, 7), 7 + AUTH_TTL_MS);
    assert_eq!(auth_token_expiry(Some(5_000), 1_000, 7), 4_007);
    assert_eq!(auth_token_expiry(Some(500), 1_000, 7), 7 + AUTH_TTL_MS);
}

#[test]
fn pages_are_walked_in_order() {
    let mut pager: PaginationState<u32> = PaginationState::new(None);
    assert!(matches!(pager.next_step(), PageStep::Fetch(None)));
    pager.receive_page(vec![1, 2], Some("next".to_string()));
    assert!(matches!(pager.next_step(), PageStep::Item(1)));
    assert!(matches!(pager.next_step(), PageStep::Item(2)));
    match pager.next_step() {
        PageStep::Fetch(Some(c)) => assert_eq!(c, "next"),
        _ => panic!("expected a fetch at the cursor"),
    }
    pager.receive_page(vec![], Some("more".to_string()));
    assert!(matches!(pager.next_step(), PageStep::Fetch(Some(_))));
    pager.receive_page(vec![3], None);
    assert!(matches!(pager.next_step(), PageStep::Item(3)));
    assert!(matches!(pager.next_step(), PageStep::Fetch(None)));
    pager.receive_page(vec![], None);
    assert!(matches!(pager.next_step(), PageStep::Done));
    assert!(matches!(pager.next_step(), PageStep::Done));
}

#[test]
fn bounded_queues_drop_the_oldest() {
    let mut q: VecDeque<u32> = VecDeque::new();
    push_capped(&mut q, 1, 2);
    push_capped(&mut q, 2, 2);
    push_capped(&mut q, 3, 2);
    assert_eq!(q, VecDeque::from(vec![2, 3]));
    let mut z: VecDeque<u32> = VecDeque::new();
    push_capped(&mut z, 9, 0);
    assert_eq!(z, VecDeque::from(vec![9]));
}

#[test]
fn side_state_windows_and_pauses() {
    let mut side = SideState::new();
    side.record_fill(1_000);
    side.record_fill(1_500);
    side.record_fill(1_900);
    assert_eq!(side.fills_last_sec(), 3);
    side.record_fill(2_600);
    // fills at 1_000 and 1_500 are more than a second older
    assert_eq!(side.fills_last_sec(), 2);
    // the first bucket opened at 1_000 and closed with the fill at 2_600
    assert_eq!(side.rate_samples(), vec![3, 1]);
    side.push_bucket();
    assert_eq!(side.rate_samples(), vec![3, 1]);

    assert!(!side.is_blocked(0));
    side.enforce_pause(5_000);
    side.enforce_pause(4_000);
    assert!(side.is_blocked(4_500));
    assert!(!side.is_blocked(5_000));
    side.enforce_kill(7_000);
    assert!(side.is_kill_active(6_999));
    assert!(!side.is_kill_active(7_000));
    assert!(side.is_blocked(6_000));
}

#[test]
fn timed_blocks_return_their_value() {
    assert_eq!(time_block("sum", || 2 + 3), 5);
}

#[test]
fn configuration_defaults() {
    assert!(default_true());
    assert!(!default_false());
    assert_eq!(default_partial_age(), 8);
    assert_eq!(default_partial_cooldown_ms(), 2000);
    assert_eq!(default_flip_threshold(), 8);
    assert_eq!(default_flip_pause_ms(), 600);
    assert_eq!(default_flip_widen_duration_ms(), 1200);
    assert_eq!(default_kill_pause_secs(), 5);
    assert_eq!(default_global_pause_secs(), 10);
    assert_eq!(default_refresh_tolerance(), 2);
}

#[test]
fn transaction_payloads_default_to_empty() {
    let order = CreateOrder { nonce: Some(3), ..Default::default() };
    assert_eq!(order.nonce, Some(3));
    assert!(order.sig.is_none());
    assert!(CancelOrder::default().order_nonce.is_none());
    assert!(Withdraw::default().collateral_amount.is_none());
    assert!(UpdateMargin::default().direction.is_none());
}

#[test]
fn expiries_from_unix_seconds() {
    let e = Expiry::unix(1_700_000_000).unwrap();
    assert_eq!(e.into_unix(), 1_700_000_000);
    assert_eq!(e.into_unix_millis(), Some(1_700_000_000_000));
    assert_eq!(e.as_datetime().unix_timestamp(), 1_700_000_000);
    assert!(Expiry::unix(MIN_UNIX_TIMESTAMP).is_ok());
    assert!(Expiry::unix(MAX_UNIX_TIMESTAMP).is_ok());
    assert!(Expiry::unix(i64::MAX).is_err());
    let at = time::OffsetDateTime::from_unix_timestamp(5).unwrap() + time::Duration::milliseconds(250);
    let e = Expiry::from_datetime(at);
    assert_eq!(e.into_unix(), 5);
    assert_eq!(e.into_unix_millis(), Some(5_250));
}

#[test]
fn empty_cursors_end_a_listing() {
    assert_eq!(next_cursor(String::new()), None);
    assert_eq!(next_cursor("abc".to_string()), Some("abc".to_string()));
}

#[test]
fn token_deadlines_must_fit() {
    assert!(token_deadline_fits(None, 0, 0));
    assert!(!token_deadline_fits(None, 0, u64::MAX));
    assert!(!token_deadline_fits(Some(u64::MAX), 0, 1));
    assert!(token_deadline_fits(Some(10), 20, 5));
}

#[test]
fn bucket_counts_are_visible() {
    let mut side = SideState::new();
    assert_eq!(side.bucket_count(), 0);
    side.record_fill(10);
    side.record_fill(20);
    assert_eq!(side.bucket_count(), 2);
}

#[test]
fn estimator_warms_up_at_half_the_lookback() {
    assert!(!lighter_client::volatility::is_warmed_up(4, 10));
    assert!(lighter_client::volatility::is_warmed_up(5, 10));
    assert!(lighter_client::volatility::is_warmed_up(5, 11));
    assert!(lighter_client::volatility::is_warmed_up(0, 1));
}

#[test]
fn query_builders_keep_the_limit() {
    let q = TradesQuery::new(TradeSort::Timestamp, 25)
        .unwrap()
        .market(MarketId::new(1))
        .order_index(7)
        .filter(OrderFilter::All)
        .cursor(PageCursor::new("abc".to_string()).unwrap());
    assert_eq!(q.limit(), 25);
    let c = q.clone();
    assert_eq!(c.limit(), 25);
    let i = InactiveOrdersQuery::new(3).unwrap().market(MarketId::new(2)).filter(OrderFilter::All);
    assert_eq!(i.limit(), 3);
    assert!(TradesQuery::new(TradeSort::Timestamp, 0).is_err());
}
