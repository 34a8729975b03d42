use lighter_client::errors::WsClientError;
use lighter_client::tx_executor::{
    batch_chunk_count, batch_chunks, chunk_results, chunk_wait_ms, close_order_expiry, close_order_is_ask,
    signed_close_payload, single_tx_success, AckOutcome, BatchAckMode, Position, MAX_BATCH_SIZE,
};

#[test]
fn test_position_direction_long() {
    let sign: i8 = 1;
    let _position = "0.5";
    let is_long = sign > 0;
    let is_ask = close_order_is_ask(sign);
    assert!(is_long);
    assert!(is_ask);
}

#[test]
fn test_position_direction_short() {
    let sign: i8 = -1;
    let _position = "0.5";
    let is_long = sign > 0;
    let is_ask = close_order_is_ask(sign);
    assert!(!is_long);
    assert!(!is_ask);
}

#[test]
fn test_position_always_positive() {
    let positions = vec![(1, "0.5"), (-1, "0.5"), (1, "1.234"), (-1, "1.234")];
    for (sign, position_str) in positions {
        let position = Position { market_id: 0, sign, position: position_str.to_string() };
        let pos_abs: f64 = position.position.parse().unwrap();
        assert!(pos_abs > 0.0);
        let signed_position = pos_abs * position.sign as f64;
        if position.sign > 0 {
            assert!(signed_position > 0.0);
        } else {
            assert!(signed_position < 0.0);
        }
    }
}

#[test]
fn test_close_order_direction_critical() {
    let test_cases = vec![
        (1i8, true, "Long position should close with SELL"),
        (-1i8, false, "Short position should close with BUY"),
    ];
    for (sign, expected_is_ask, description) in test_cases {
        let is_ask = close_order_is_ask(sign);
        assert_eq!(
            is_ask, expected_is_ask,
            "Failed: {} (sign={}, is_ask={}, expected={})",
            description, sign, is_ask, expected_is_ask
        );
    }
}

#[test]
fn tx_executor_test_price_scaling() {
    let mark_price = 4000.0;
    let price_decimals = 2;
    let sell_price = mark_price * 0.985;
    let price_multiplier = 10_i64.pow(price_decimals as u32);
    let sell_scaled = (sell_price * price_multiplier as f64).round() as i64;
    assert_eq!(sell_scaled, 394000);
    let buy_price = mark_price * 1.015;
    let buy_scaled = (buy_price * price_multiplier as f64).round() as i64;
    assert_eq!(buy_scaled, 406000);
}

#[test]
fn tx_executor_test_size_scaling() {
    let size_decimals = 4;
    let size_multiplier = 10_f64.powi(size_decimals as i32);
    let test_cases = vec![(0.005, 50), (0.5, 5000), (1.0, 10000), (1.2345, 12345)];
    for (size, expected_scaled) in test_cases {
        let size_scaled = (size * size_multiplier).round() as i64;
        assert_eq!(size_scaled, expected_scaled, "Size {} should scale to {}", size, expected_scaled);
    }
}

#[test]
fn test_batch_chunking() {
    let test_cases = vec![(10usize, 1usize), (50, 1), (51, 2), (100, 2), (101, 3), (150, 3)];
    for (tx_count, expected_chunks) in test_cases {
        let actual_chunks = batch_chunk_count(tx_count);
        assert_eq!(actual_chunks, expected_chunks, "{} txs should create {} chunks", tx_count, expected_chunks);
        assert_eq!(batch_chunks(tx_count).len(), expected_chunks);
    }
}

#[test]
fn batch_chunks_cover_the_batch_in_order() {
    assert_eq!(batch_chunks(0), vec![]);
    assert_eq!(batch_chunks(50), vec![(0, 50)]);
    assert_eq!(batch_chunks(101), vec![(0, 50), (50, 100), (100, 101)]);
    assert_eq!(batch_chunks(120), vec![(0, 50), (50, 100), (100, 120)]);
    assert_eq!(MAX_BATCH_SIZE, 50);
}

#[test]
fn chunk_wait_depends_on_mode() {
    assert_eq!(chunk_wait_ms(BatchAckMode::Strict, 7), 7000);
    assert_eq!(chunk_wait_ms(BatchAckMode::Optimistic { wait_timeout_ms: 100 }, 7), 100);
}

#[test]
fn chunk_results_follow_mode_and_outcome() {
    let strict = BatchAckMode::Strict;
    let optimistic = BatchAckMode::Optimistic { wait_timeout_ms: 100 };
    assert_eq!(chunk_results(strict, AckOutcome::Answered(true), 3), vec![true, true, true]);
    assert_eq!(chunk_results(optimistic, AckOutcome::Answered(false), 2), vec![false, false]);
    assert_eq!(chunk_results(strict, AckOutcome::TimedOut, 2), vec![false, false]);
    assert_eq!(chunk_results(strict, AckOutcome::Failed, 1), vec![false]);
    assert_eq!(chunk_results(optimistic, AckOutcome::TimedOut, 2), vec![true, true]);
    assert_eq!(chunk_results(optimistic, AckOutcome::Failed, 1), vec![true]);
    assert!(chunk_results(strict, AckOutcome::Answered(true), 0).is_empty());
}

#[test]
fn single_tx_needs_a_successful_answer() {
    assert!(single_tx_success(AckOutcome::Answered(true)));
    assert!(!single_tx_success(AckOutcome::Answered(false)));
    assert!(!single_tx_success(AckOutcome::TimedOut));
    assert!(!single_tx_success(AckOutcome::Failed));
}

#[test]
fn close_order_expires_after_seven_days() {
    assert_eq!(close_order_expiry(1_700_000_000_000), 1_700_604_800_000);
    assert_eq!(close_order_expiry(0), 604_800_000);
}

#[test]
fn signed_close_payload_reports_signer_problems() {
    assert_eq!(signed_close_payload(Some("{\"a\":1}".to_string()), None), Ok("{\"a\":1}".to_string()));
    assert_eq!(
        signed_close_payload(Some("x".to_string()), Some("bad key".to_string())),
        Err(WsClientError::InvalidMessage("Signing failed: bad key".to_string()))
    );
    assert_eq!(
        signed_close_payload(None, None),
        Err(WsClientError::InvalidMessage("No transaction info returned from signer".to_string()))
    );
}
