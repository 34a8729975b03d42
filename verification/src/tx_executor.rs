//! Transaction submission over the websocket: how batches are cut into
//! chunks of at most 50, how long each chunk waits for its answer, what each
//! transaction of a chunk is taken to have done, and the direction and
//! expiry of the order that closes a position. Sending and waiting are the
//! caller's part.
use crate::errors::WsClientError;
use vstd::prelude::*;
use vstd::string::StringExecFns;

verus! {

pub const TX_TYPE_CHANGE_PUB_KEY: u8 = 8;
pub const TX_TYPE_CREATE_SUB_ACCOUNT: u8 = 9;
pub const TX_TYPE_CREATE_PUBLIC_POOL: u8 = 10;
pub const TX_TYPE_UPDATE_PUBLIC_POOL: u8 = 11;
pub const TX_TYPE_TRANSFER: u8 = 12;
pub const TX_TYPE_WITHDRAW: u8 = 13;
pub const TX_TYPE_CREATE_ORDER: u8 = 14;
pub const TX_TYPE_CANCEL_ORDER: u8 = 15;
pub const TX_TYPE_CANCEL_ALL_ORDERS: u8 = 16;
pub const TX_TYPE_MODIFY_ORDER: u8 = 17;
pub const TX_TYPE_MINT_SHARES: u8 = 18;
pub const TX_TYPE_BURN_SHARES: u8 = 19;
pub const TX_TYPE_UPDATE_LEVERAGE: u8 = 20;
pub const TX_TYPE_UPDATE_MARGIN: u8 = 21;

pub const ORDER_TYPE_LIMIT: i32 = 0;
pub const ORDER_TYPE_MARKET: i32 = 1;
pub const ORDER_TYPE_STOP_LOSS: i32 = 2;
pub const ORDER_TYPE_STOP_LOSS_LIMIT: i32 = 3;
pub const ORDER_TYPE_TAKE_PROFIT: i32 = 4;
pub const ORDER_TYPE_TAKE_PROFIT_LIMIT: i32 = 5;

pub const ORDER_TIME_IN_FORCE_IOC: i32 = 0;
pub const ORDER_TIME_IN_FORCE_GTT: i32 = 1;
pub const ORDER_TIME_IN_FORCE_POST_ONLY: i32 = 2;

/// Most transactions sent in one websocket batch.
pub const MAX_BATCH_SIZE: usize = 50;

/// Lifetime of a position-closing order: seven days in milliseconds.
pub const CLOSE_ORDER_LIFETIME_MS: i64 = 604_800_000;

/// How the answer to a batch is awaited.
#[derive(Clone, Copy, Debug, PartialEq, Eq, Structural)]
pub enum BatchAckMode {
    /// Wait one second per transaction; no answer means failure.
    Strict,
    /// Wait the given time; no answer, or an error while waiting, is taken
    /// as success.
    Optimistic { wait_timeout_ms: u64 },
}

/// A position as the exchange reports it: the size is always positive, the
/// sign tells the direction (`1` long, `-1` short).
#[derive(Clone, Debug)]
pub struct Position {
    pub market_id: u32,
    pub sign: i8,
    pub position: String,
}

/// What came of waiting for the answer to a sent chunk.
#[derive(Clone, Copy, Debug, PartialEq, Eq, Structural)]
pub enum AckOutcome {
    /// The exchange answered: success or not.
    Answered(bool),
    /// Reading the connection failed while waiting.
    Failed,
    /// No answer in time.
    TimedOut,
}

/// A long position (positive sign) is closed by selling, any other by
/// buying.
pub open spec fn closes_with_ask(sign: i8) -> bool {
    sign > 0
}

/// Whether the order closing a position with the given sign sells.
pub fn close_order_is_ask(sign: i8) -> (r: bool)
    ensures
        r == closes_with_ask(sign),
{
    sign > 0
}

/// Expiry of a position-closing order created at `now_ms`.
pub fn close_order_expiry(now_ms: i64) -> (r: i64)
    requires
        now_ms <= i64::MAX - CLOSE_ORDER_LIFETIME_MS,
    ensures
        r == now_ms + CLOSE_ORDER_LIFETIME_MS,
{
    now_ms + CLOSE_ORDER_LIFETIME_MS
}

/// Number of chunks a batch of `n` transactions is cut into.
pub open spec fn chunk_count(n: nat) -> nat {
    ((n + MAX_BATCH_SIZE - 1) / (MAX_BATCH_SIZE as int)) as nat
}

/// Number of chunks of at most 50 transactions needed for `n` of them.
pub fn batch_chunk_count(n: usize) -> (r: usize)
    ensures
        r == chunk_count(n as nat),
{
    n / MAX_BATCH_SIZE + if n % MAX_BATCH_SIZE == 0 { 0 } else { 1 }
}

/// The chunks of a batch of `n` transactions, as half-open index ranges:
/// chunk `i` runs from `50 * i` to `50 * (i + 1)`, or to `n` for the last.
pub open spec fn chunk_ranges(n: nat) -> Seq<(usize, usize)> {
    Seq::new(
        chunk_count(n),
        |i: int|
            (
                (i * MAX_BATCH_SIZE) as usize,
                (if (i + 1) * MAX_BATCH_SIZE <= n { (i + 1) * MAX_BATCH_SIZE } else { n as int }) as usize,
            ),
    )
}

/// The index ranges of the chunks of a batch of `n` transactions, in order.
pub fn batch_chunks(n: usize) -> (r: Vec<(usize, usize)>)
    ensures
        r@ == chunk_ranges(n as nat),
{
    let count = batch_chunk_count(n);
    let mut out: Vec<(usize, usize)> = Vec::new();
    let mut i: usize = 0;
    let mut start: usize = 0;
    while i < count
        invariant
            count == chunk_count(n as nat),
            i <= count,
            i < count ==> start == i * MAX_BATCH_SIZE,
            out@ == chunk_ranges(n as nat).take(i as int),
        decreases count - i,
    {
        assert(start < n) by (nonlinear_arith)
            requires
                start == i * 50,
                i < count,
                count == (n + 49) / 50,
        ;
        let end: usize = if n - start >= MAX_BATCH_SIZE { start + MAX_BATCH_SIZE } else { n };
        out.push((start, end));
        assert(i + 1 < count ==> end == (i + 1) * 50) by (nonlinear_arith)
            requires
                i < count,
                count == (n + 49) / 50,
                end == (if i * 50 + 50 <= n { i * 50 + 50 } else { n as int }),
        ;
        i = i + 1;
        start = end;
    }
    out
}

/// How long a chunk of `len` transactions waits for its answer, in
/// milliseconds.
pub open spec fn chunk_wait(mode: BatchAckMode, len: nat) -> int {
    match mode {
        BatchAckMode::Strict => (len * 1000) as int,
        BatchAckMode::Optimistic { wait_timeout_ms } => wait_timeout_ms as int,
    }
}

pub fn chunk_wait_ms(mode: BatchAckMode, len: usize) -> (r: u64)
    requires
        len <= MAX_BATCH_SIZE,
    ensures
        r == chunk_wait(mode, len as nat),
{
    match mode {
        BatchAckMode::Strict => (len as u64) * 1000,
        BatchAckMode::Optimistic { wait_timeout_ms } => wait_timeout_ms,
    }
}

/// Whether the transactions of a chunk are taken to have succeeded: as the
/// exchange answered, else failure when strict and success when optimistic.
pub open spec fn ack_success(mode: BatchAckMode, outcome: AckOutcome) -> bool {
    match outcome {
        AckOutcome::Answered(ok) => ok,
        _ => mode is Optimistic,
    }
}

/// One result per transaction of a chunk of `len`, all alike.
pub fn chunk_results(mode: BatchAckMode, outcome: AckOutcome, len: usize) -> (r: Vec<bool>)
    ensures
        r@ == Seq::new(len as nat, |i: int| ack_success(mode, outcome)),
{
    let ok: bool = match outcome {
        AckOutcome::Answered(b) => b,
        _ => match mode {
            BatchAckMode::Strict => false,
            BatchAckMode::Optimistic { .. } => true,
        },
    };
    let mut out: Vec<bool> = Vec::new();
    for i in 0..len
        invariant
            out@ == Seq::new(i as nat, |k: int| ack_success(mode, outcome)),
            ok == ack_success(mode, outcome),
    {
        out.push(ok);
    }
    out
}

/// Whether a single transaction sent alone succeeded: only an answer of
/// success counts.
pub fn single_tx_success(outcome: AckOutcome) -> (r: bool)
    ensures
        r == ack_success(BatchAckMode::Strict, outcome),
{
    match outcome {
        AckOutcome::Answered(b) => b,
        _ => false,
    }
}

/// The signed payload of a closing order, from what the signer returned:
/// a reported error, or no payload, fails the close.
pub fn signed_close_payload(tx_info: Option<String>, error: Option<String>) -> (r: Result<String, WsClientError>)
    ensures
        match error {
            Some(e) => r matches Err(WsClientError::InvalidMessage(m)) && m@ == "Signing failed: "@ + e@,
            None => match tx_info {
                Some(t) => r == Ok::<String, WsClientError>(t),
                None => r matches Err(WsClientError::InvalidMessage(m)) && m@
                    == "No transaction info returned from signer"@,
            },
        },
{
    if let Some(e) = error {
        let mut m = String::from_str("Signing failed: ");
        m.append(e.as_str());
        return Err(WsClientError::InvalidMessage(m));
    }
    match tx_info {
        Some(t) => Ok(t),
        None => Err(WsClientError::InvalidMessage(String::from_str("No transaction info returned from signer"))),
    }
}

/// Every transaction of a batch lies in exactly one chunk, the chunks follow
/// each other without gap, and none holds more than 50.
pub proof fn law_chunks_cover_batch(n: nat, i: int)
    requires
        n <= usize::MAX,
        0 <= i < chunk_count(n),
    ensures
        chunk_ranges(n)[i].0 == i * MAX_BATCH_SIZE,
        chunk_ranges(n)[i].0 < chunk_ranges(n)[i].1 <= n,
        chunk_ranges(n)[i].1 - chunk_ranges(n)[i].0 <= MAX_BATCH_SIZE,
        i + 1 < chunk_count(n) ==> chunk_ranges(n)[i].1 == chunk_ranges(n)[i + 1].0,
        i + 1 == chunk_count(n) ==> chunk_ranges(n)[i].1 == n,
{
    assert(i * 50 < n) by (nonlinear_arith)
        requires
            0 <= i < (n + 49) / 50,
    ;
    assert((i + 1) * 50 <= n <==> i + 1 < (n + 49) / 50 || (i + 1) * 50 == n) by (nonlinear_arith)
        requires
            0 <= i < (n + 49) / 50,
    ;
}

} // verus!
