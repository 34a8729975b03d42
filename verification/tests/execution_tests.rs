use lighter_client::execution::{
    batch_transactions, order_status_class, AccountOrderSnapshot, BreakerStatus, ExecutionError, ExecutionState,
    LiveOrder, OrderOperation, OrderSide, OrderStatusClass, PendingAction, PendingOrder, SignedDirective,
    SignedOperation, TickDecision, INITIAL_BACKOFF_MS, MAX_RETRY_ATTEMPTS,
};
use lighter_client::signer_client::BatchEntry;
use lighter_client::tx_executor::BatchAckMode;
use lighter_client::types::{BaseQty, MarketId};
use lighter_client::ws_client::TransactionData;

fn state() -> ExecutionState {
    ExecutionState::new(MarketId::new(1), BaseQty::new(10), 5, 2, false, false, false)
}

fn place_of(op: &OrderOperation) -> (OrderSide, i64, i64) {
    match op {
        OrderOperation::Place(p) => (p.side, p.price_ticks, p.client_order_id),
        OrderOperation::Cancel(_) => panic!("expected a placement"),
    }
}

fn cancel_of(op: &OrderOperation) -> (OrderSide, u64, i64) {
    match op {
        OrderOperation::Cancel(c) => (c.side, c.order_index, c.client_order_id),
        OrderOperation::Place(_) => panic!("expected a cancel"),
    }
}

fn tx(nonce: u64, status: u32) -> TransactionData {
    TransactionData {
        hash: String::new(),
        tx_type: 14,
        info: String::new(),
        event_info: String::new(),
        status,
        transaction_index: 0,
        l1_address: String::new(),
        account_index: 0,
        nonce,
        expire_at: 0,
        block_height: 0,
        queued_at: 0,
        executed_at: 0,
        sequence_index: 0,
        parent_hash: String::new(),
    }
}

fn snapshot(order_index: u64, client: i64, status: &str, price: Option<i64>) -> AccountOrderSnapshot {
    AccountOrderSnapshot {
        order_index: Some(order_index),
        client_order_index: Some(client),
        market_index: Some(1),
        price_ticks: price,
        is_ask: Some(false),
        status: Some(status.to_string()),
    }
}

#[test]
fn side_helpers() {
    assert_eq!(OrderSide::Bid.as_str(), "bid");
    assert_eq!(OrderSide::Ask.as_str(), "ask");
    assert!(OrderSide::Ask.is_ask());
    assert_eq!(OrderSide::from_is_ask(true), OrderSide::Ask);
    assert_eq!(OrderSide::from_is_ask(false), OrderSide::Bid);
    assert_eq!(PendingAction::Create { price_ticks: 5 }.price_ticks(), Some(5));
    assert_eq!(PendingAction::Cancel { order_index: 5 }.price_ticks(), None);
}

#[test]
fn pending_order_attempts_double_the_backoff() {
    let mut p = PendingOrder::new(7, OrderSide::Bid, 1, PendingAction::Create { price_ticks: 10 }, 100);
    assert_eq!((p.backoff_ms, p.retry_budget, p.attempts), (INITIAL_BACKOFF_MS, MAX_RETRY_ATTEMPTS, 0));
    p.record_attempt(200);
    assert_eq!((p.backoff_ms, p.retry_budget, p.attempts, p.last_attempt_ms), (100, 4, 1, Some(200)));
    for _ in 0..3 {
        p.record_attempt(300);
    }
    assert_eq!((p.backoff_ms, p.retry_budget), (800, 1));
    assert!(!p.exhausted());
    p.record_attempt(400);
    assert_eq!((p.backoff_ms, p.retry_budget), (1000, 0));
    assert!(p.exhausted());
}

#[test]
fn new_state_clamps_its_settings() {
    let s = state();
    assert_eq!(s.market(), MarketId::new(1));
    assert_eq!(s.live_count(), 0);
    assert!(!s.emergency_cancel_required());
    assert!(!s.optimistic_mode());
}

#[test]
fn client_ids_are_minted_from_the_wall_clock() {
    let mut s = state();
    assert_eq!(s.next_client_order_id(1000), 16000);
    assert_eq!(s.next_client_order_id(1000), 16001);
    assert_eq!(s.next_client_order_id(2000), 32000);
    assert_eq!(s.high_water(), 32000);
}

#[test]
fn planning_places_then_waits_then_replaces() {
    let mut s = state();
    let ops = s.plan_side(OrderSide::Bid, Some(100), 1000, 1000);
    assert_eq!(ops.len(), 1);
    assert_eq!(place_of(&ops[0]), (OrderSide::Bid, 100, 16000));
    let pending = s.pending_order(16000).unwrap();
    assert_eq!(pending.action, PendingAction::Create { price_ticks: 100 });

    // the same target is already pending
    assert!(s.plan_side(OrderSide::Bid, Some(100), 1001, 1001).is_empty());

    s.mark_live(LiveOrder { order_index: 7, client_order_id: 16000, side: OrderSide::Bid, price_ticks: 100 });
    assert_eq!(s.live_count(), 1);
    // within tolerance of the live order
    assert!(s.plan_side(OrderSide::Bid, Some(101), 2000, 2000).is_empty());

    let ops = s.plan_side(OrderSide::Bid, Some(110), 3000, 3000);
    assert_eq!(ops.len(), 2);
    assert_eq!(cancel_of(&ops[0]), (OrderSide::Bid, 7, 16000));
    assert_eq!(place_of(&ops[1]), (OrderSide::Bid, 110, 48000));
}

#[test]
fn no_target_cancels_the_live_order() {
    let mut s = state();
    s.mark_live(LiveOrder { order_index: 9, client_order_id: 5, side: OrderSide::Ask, price_ticks: 200 });
    let ops = s.plan_side(OrderSide::Ask, None, 10, 10);
    assert_eq!(ops.len(), 1);
    assert_eq!(cancel_of(&ops[0]), (OrderSide::Ask, 9, 5));
}

#[test]
fn cancel_all_cancels_every_live_order_without_a_pending_cancel() {
    let mut s = state();
    s.mark_live(LiveOrder { order_index: 1, client_order_id: 11, side: OrderSide::Bid, price_ticks: 90 });
    s.mark_live(LiveOrder { order_index: 2, client_order_id: 12, side: OrderSide::Ask, price_ticks: 110 });
    let dirs = s.plan_cancel_all();
    assert_eq!(dirs.len(), 1);
    let mut cancelled: Vec<(OrderSide, u64, i64)> = dirs[0].operations.iter().map(cancel_of).collect();
    cancelled.sort_by_key(|c| c.1);
    assert_eq!(cancelled, vec![(OrderSide::Bid, 1, 11), (OrderSide::Ask, 2, 12)]);
    // the ask side now has a pending cancel of its own: it is skipped
    let ops = s.plan_side(OrderSide::Ask, None, 10, 10);
    assert_eq!(ops.len(), 1);
    let again = s.plan_cancel_all();
    assert_eq!(again.len(), 1);
    let ids: Vec<i64> = again[0].operations.iter().map(|op| cancel_of(op).2).collect();
    assert_eq!(ids, vec![11]);
    // nothing live: no directive
    let mut empty = state();
    assert!(empty.plan_cancel_all().is_empty());
}

#[test]
fn breaker_fires_on_too_many_live_orders() {
    let mut s = state();
    for i in 0..11u64 {
        s.mark_live(LiveOrder { order_index: i, client_order_id: i as i64, side: OrderSide::Bid, price_ticks: 1 });
    }
    assert!(s.emergency_cancel_required());
    assert_eq!(s.check_breaker(1_000_000), BreakerStatus::Triggered);
    assert_eq!(s.check_breaker(1_000_001), BreakerStatus::CoolingDown);
}

#[test]
fn decisions_schedule_quotes() {
    let mut s = state();
    let dirs = s.handle_decision(TickDecision::Quote { bid_ticks: 99, ask_ticks: 101 }, 5000, 5000);
    let ops: Vec<&OrderOperation> = dirs.iter().flat_map(|d| d.operations.iter()).collect();
    assert_eq!(ops.len(), 2);
    assert!(s.handle_decision(TickDecision::Skip, 5001, 5001).is_empty());
}

#[test]
fn failed_submissions_are_retried_after_the_initial_backoff() {
    let mut s = state();
    let ops = s.plan_side(OrderSide::Bid, Some(100), 1000, 1000);
    let entry = BatchEntry::new(14, "{}".to_string());
    let signed = s.record_signed(ops[0], entry, Some(77), Some(2), 1001);
    assert_eq!(signed.tx_type, 14);
    assert_eq!(s.pending_by_nonce(77).unwrap().client_id, 16000);
    let batch = SignedDirective::new(3, 0, vec![signed]);
    let retry = s.handle_batch_result(&batch, &vec![false], 1002).unwrap().unwrap();
    assert_eq!(retry.1, INITIAL_BACKOFF_MS);
    assert_eq!(retry.0.attempt, 1);
    assert_eq!(retry.0.operations.len(), 1);
    assert_eq!(place_of(&retry.0.operations[0]), (OrderSide::Bid, 100, 16000));
    assert!(s.pending_by_nonce(77).is_none());
}

#[test]
fn too_many_results_is_an_error() {
    let mut s = state();
    let batch = SignedDirective::new(1, 0, vec![]);
    assert_eq!(s.handle_batch_result(&batch, &vec![true], 10).unwrap_err(), ExecutionError::ResultLengthMismatch);
}

#[test]
fn acknowledged_transactions_settle_pending_orders() {
    let mut s = state();
    let ops = s.plan_side(OrderSide::Bid, Some(100), 1000, 1000);
    let signed = s.record_signed(ops[0], BatchEntry::new(14, "{}".to_string()), Some(5), Some(0), 1001);
    let _ = signed;
    assert!(s.attempts_room());
    let dirs = s.process_transaction_ack(&vec![tx(5, 1)], 1002);
    assert!(dirs.is_empty());
    assert!(s.pending_order(16000).is_none());
}

#[test]
fn submission_mode_follows_the_settings() {
    let s = ExecutionState::new(MarketId::new(1), BaseQty::new(1), 10, 0, false, true, true);
    let op = SignedOperation::new(
        OrderOperation::Cancel(lighter_client::execution::OrderCancel { side: OrderSide::Bid, order_index: 1, client_order_id: 2 }),
        BatchEntry::new(15, "c".to_string()),
        15,
        None,
    );
    let batch = SignedDirective::new(1, 0, vec![op]);
    assert_eq!(s.submission_mode(&batch), Some(BatchAckMode::Optimistic { wait_timeout_ms: 100 }));
    assert_eq!(batch_transactions(&batch), vec![(15u8, "c".to_string())]);
    let empty = SignedDirective::new(2, 0, vec![]);
    assert_eq!(s.submission_mode(&empty), None);
    let dry = ExecutionState::new(MarketId::new(1), BaseQty::new(1), 10, 0, true, false, false);
    assert_eq!(dry.submission_mode(&batch), None);
    let strict = state();
    assert_eq!(strict.submission_mode(&batch), Some(BatchAckMode::Strict));
}

#[test]
fn statuses_are_classified_ignoring_case() {
    assert_eq!(order_status_class(&Some("OPEN".to_string())), OrderStatusClass::Open);
    assert_eq!(order_status_class(&Some("partially_filled".to_string())), OrderStatusClass::Open);
    assert_eq!(order_status_class(&Some("Canceled".to_string())), OrderStatusClass::Closed);
    assert_eq!(order_status_class(&Some("filled".to_string())), OrderStatusClass::Closed);
    assert_eq!(order_status_class(&Some("pending".to_string())), OrderStatusClass::Other);
    assert_eq!(order_status_class(&None), OrderStatusClass::Other);
}

#[test]
fn account_updates_reconcile_live_and_pending_orders() {
    let mut s = state();
    let ops = s.plan_side(OrderSide::Bid, Some(100), 1000, 1000);
    let cid = place_of(&ops[0]).2;
    s.reconcile_account_orders(&vec![snapshot(42, cid, "open", Some(100))]);
    let live = s.live_order(42).unwrap();
    assert_eq!((live.client_order_id, live.side, live.price_ticks), (cid, OrderSide::Bid, 100));
    let pending = s.pending_order(cid).unwrap();
    assert_eq!((pending.nonce, pending.backoff_ms, pending.retry_budget), (None, INITIAL_BACKOFF_MS, MAX_RETRY_ATTEMPTS));

    s.reconcile_account_orders(&vec![snapshot(42, cid, "FILLED", None)]);
    assert!(s.live_order(42).is_none());
    assert_eq!(s.live_count(), 0);
}

#[test]
fn account_updates_for_other_markets_are_ignored() {
    let mut s = state();
    let mut other = snapshot(1, 2, "open", Some(5));
    other.market_index = Some(9);
    s.reconcile_account_orders(&vec![other]);
    assert_eq!(s.live_count(), 0);
    let mut missing = snapshot(1, 2, "open", Some(5));
    missing.order_index = None;
    s.reconcile_account_orders(&vec![missing]);
    assert_eq!(s.live_count(), 0);
}
