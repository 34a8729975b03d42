//! Order execution state: pending and live orders per side, the planning of
//! placements and cancels from the strategy's decisions, and the handling of
//! submission results, transaction acknowledgements and account updates.
//!
//! Time enters as plain milliseconds: `now_ms` from a monotonic clock and
//! `wall_ms` from the wall clock (used to mint client order ids).
use crate::signer_client::BatchEntry;
use crate::signer_client::{lower_code, lower_code_exec};
use crate::decimal::str_chars;
use crate::tx_executor::{BatchAckMode, TX_TYPE_CANCEL_ORDER, TX_TYPE_CREATE_ORDER};
use crate::types::{BaseQty, MarketId};
use crate::ws_client::TransactionData;
use std::collections::HashMap;
use vstd::prelude::*;
use vstd::std_specs::iter::IteratorSpec;

verus! {

broadcast use vstd::std_specs::hash::group_hash_axioms;

pub const INITIAL_BACKOFF_MS: u64 = 50;
pub const MAX_BACKOFF_MS: u64 = 1_000;
pub const MAX_RETRY_ATTEMPTS: u8 = 5;
pub const FAST_MODE_TIMEOUT_MS: u64 = 100;
pub const MAX_SAFE_LIVE_ORDERS: usize = 10;
pub const EMERGENCY_COOLDOWN_MIN_MS: u64 = 5_000;
pub const EMERGENCY_COOLDOWN_MAX_MS: u64 = 60_000;
pub const MIN_REFRESH_INTERVAL_MS: u64 = 10;
/// Wall-clock milliseconds below this bound turn into client ids without
/// overflow (`wall_ms * 16` fits an `i64`).
pub const WALL_MS_LIMIT: u64 = 576_460_752_303_423_488;

/// Side of the book an order rests on.
#[derive(Clone, Copy, Debug, PartialEq, Eq, Hash, Structural)]
pub enum OrderSide {
    Bid,
    Ask,
}

impl OrderSide {
    pub fn as_str(self) -> (r: &'static str)
        ensures
            r@ == (match self {
                OrderSide::Bid => "bid"@,
                OrderSide::Ask => "ask"@,
            }),
    {
        match self {
            OrderSide::Bid => "bid",
            OrderSide::Ask => "ask",
        }
    }

    pub fn is_ask(self) -> (r: bool)
        ensures
            r == (self is Ask),
    {
        match self {
            OrderSide::Bid => false,
            OrderSide::Ask => true,
        }
    }

    pub fn from_is_ask(value: bool) -> (r: Self)
        ensures
            r is Ask <==> value,
    {
        if value {
            OrderSide::Ask
        } else {
            OrderSide::Bid
        }
    }
}

/// What a pending order is about to do.
#[derive(Clone, Copy, Debug, PartialEq, Eq, Structural)]
pub enum PendingAction {
    Create { price_ticks: i64 },
    Cancel { order_index: u64 },
}

impl PendingAction {
    pub fn price_ticks(&self) -> (r: Option<i64>)
        ensures
            r == (match *self {
                PendingAction::Create { price_ticks } => Some(price_ticks),
                PendingAction::Cancel { .. } => None,
            }),
    {
        match self {
            PendingAction::Create { price_ticks } => Some(*price_ticks),
            PendingAction::Cancel { .. } => None,
        }
    }
}

/// A placement or cancel that was scheduled and is not yet confirmed.
#[derive(Clone, Copy, Debug, PartialEq, Eq, Structural)]
pub struct PendingOrder {
    pub client_order_id: i64,
    pub side: OrderSide,
    pub version: u64,
    pub action: PendingAction,
    pub created_at_ms: u64,
    pub submitted_at_ms: Option<u64>,
    pub last_attempt_ms: Option<u64>,
    pub attempts: u8,
    pub retry_budget: u8,
    pub backoff_ms: u64,
    pub nonce: Option<i64>,
    pub api_key_index: Option<i32>,
    pub superseded: bool,
}

/// A newly scheduled order: full retry budget, initial backoff, not yet
/// submitted.
pub open spec fn fresh_pending(
    client_order_id: i64,
    side: OrderSide,
    version: u64,
    action: PendingAction,
    now_ms: u64,
) -> PendingOrder {
    PendingOrder {
        client_order_id,
        side,
        version,
        action,
        created_at_ms: now_ms,
        submitted_at_ms: None,
        last_attempt_ms: None,
        attempts: 0,
        retry_budget: MAX_RETRY_ATTEMPTS,
        backoff_ms: INITIAL_BACKOFF_MS,
        nonce: None,
        api_key_index: None,
        superseded: false,
    }
}

/// The order after one more failed attempt: the attempt count grows (without
/// wrapping), the backoff doubles up to its cap and one retry is spent.
pub open spec fn after_attempt(o: PendingOrder, now_ms: u64) -> PendingOrder {
    PendingOrder {
        attempts: if o.attempts == u8::MAX { u8::MAX } else { (o.attempts + 1) as u8 },
        last_attempt_ms: Some(now_ms),
        backoff_ms: if o.backoff_ms * 2 < MAX_BACKOFF_MS { (o.backoff_ms * 2) as u64 } else { MAX_BACKOFF_MS },
        retry_budget: if o.retry_budget > 0 { (o.retry_budget - 1) as u8 } else { 0 },
        ..o
    }
}

impl PendingOrder {
    pub open spec fn wf(self) -> bool {
        self.backoff_ms <= MAX_BACKOFF_MS && self.retry_budget <= MAX_RETRY_ATTEMPTS
    }

    pub fn new(client_order_id: i64, side: OrderSide, version: u64, action: PendingAction, now_ms: u64) -> (r: Self)
        ensures
            r == fresh_pending(client_order_id, side, version, action, now_ms),
            r.wf(),
    {
        PendingOrder {
            client_order_id,
            side,
            version,
            action,
            created_at_ms: now_ms,
            submitted_at_ms: None,
            last_attempt_ms: None,
            attempts: 0,
            retry_budget: MAX_RETRY_ATTEMPTS,
            backoff_ms: INITIAL_BACKOFF_MS,
            nonce: None,
            api_key_index: None,
            superseded: false,
        }
    }

    pub fn mark_superseded(&mut self)
        ensures
            *final(self) == (PendingOrder { superseded: true, ..*old(self) }),
    {
        self.superseded = true;
    }

    pub fn record_attempt(&mut self, now_ms: u64)
        requires
            old(self).wf(),
        ensures
            *final(self) == after_attempt(*old(self), now_ms),
            final(self).wf(),
    {
        self.attempts = if self.attempts == u8::MAX { u8::MAX } else { self.attempts + 1 };
        self.last_attempt_ms = Some(now_ms);
        let doubled: u64 = self.backoff_ms * 2;
        self.backoff_ms = if doubled < MAX_BACKOFF_MS { doubled } else { MAX_BACKOFF_MS };
        if self.retry_budget > 0 {
            self.retry_budget = self.retry_budget - 1;
        }
    }

    pub fn mark_submitted(&mut self, now_ms: u64)
        ensures
            *final(self) == (PendingOrder { submitted_at_ms: Some(now_ms), ..*old(self) }),
    {
        self.submitted_at_ms = Some(now_ms);
    }

    pub fn set_nonce(&mut self, nonce: Option<i64>)
        ensures
            *final(self) == (PendingOrder { nonce, ..*old(self) }),
    {
        self.nonce = nonce;
    }

    pub fn set_api_key(&mut self, api_key: Option<i32>)
        ensures
            *final(self) == (PendingOrder { api_key_index: api_key, ..*old(self) }),
    {
        self.api_key_index = api_key;
    }

    /// No retry is left.
    pub fn exhausted(&self) -> (r: bool)
        ensures
            r == (self.retry_budget == 0),
    {
        self.retry_budget == 0
    }
}

/// An order the exchange reports as resting on the book.
#[derive(Clone, Copy, Debug, PartialEq, Eq, Structural)]
pub struct LiveOrder {
    pub order_index: u64,
    pub client_order_id: i64,
    pub side: OrderSide,
    pub price_ticks: i64,
}

/// `s` with `id` appended unless it is already there.
pub open spec fn with_id(s: Seq<i64>, id: i64) -> Seq<i64> {
    if s.contains(id) {
        s
    } else {
        s.push(id)
    }
}

/// `s` with every occurrence of `id` removed, order kept.
pub open spec fn without_id(s: Seq<i64>, id: i64) -> Seq<i64> {
    s.filter(other_than(id))
}

pub open spec fn other_than(id: i64) -> spec_fn(i64) -> bool {
    |x: i64| x != id
}

/// Per-side bookkeeping: the latest quote version, the price the strategy
/// wants, the live order and the client ids of pending placements and
/// cancels (each list free of duplicates).
#[derive(Debug, Default)]
pub struct SideSlot {
    latest_version: u64,
    desired_ticks: Option<i64>,
    desired_updated_at_ms: Option<u64>,
    live_order_index: Option<u64>,
    pending_creates: Vec<i64>,
    pending_cancels: Vec<i64>,
    last_submission_ms: Option<u64>,
}

/// Abstract content of a [`SideSlot`].
pub struct SlotView {
    pub latest_version: u64,
    pub desired_ticks: Option<i64>,
    pub desired_updated_at_ms: Option<u64>,
    pub live_order_index: Option<u64>,
    pub pending_creates: Seq<i64>,
    pub pending_cancels: Seq<i64>,
    pub last_submission_ms: Option<u64>,
}

impl SlotView {
    pub open spec fn wf(self) -> bool {
        self.pending_creates.no_duplicates() && self.pending_cancels.no_duplicates()
    }
}

impl View for SideSlot {
    type V = SlotView;

    closed spec fn view(&self) -> SlotView {
        SlotView {
            latest_version: self.latest_version,
            desired_ticks: self.desired_ticks,
            desired_updated_at_ms: self.desired_updated_at_ms,
            live_order_index: self.live_order_index,
            pending_creates: self.pending_creates@,
            pending_cancels: self.pending_cancels@,
            last_submission_ms: self.last_submission_ms,
        }
    }
}

/// The slot of a fresh state: version 0, nothing desired, live or pending.
pub open spec fn empty_slot() -> SlotView {
    SlotView {
        latest_version: 0,
        desired_ticks: None,
        desired_updated_at_ms: None,
        live_order_index: None,
        pending_creates: Seq::empty(),
        pending_cancels: Seq::empty(),
        last_submission_ms: None,
    }
}

fn vec_contains(v: &Vec<i64>, id: i64) -> (r: bool)
    ensures
        r == v@.contains(id),
{
    let mut i: usize = 0;
    while i < v.len()
        invariant
            i <= v@.len(),
            forall|k: int| 0 <= k < i ==> v@[k] != id,
        decreases v@.len() - i,
    {
        if v[i] == id {
            return true;
        }
        i = i + 1;
    }
    false
}

fn vec_without(v: &Vec<i64>, id: i64) -> (r: Vec<i64>)
    ensures
        r@ == without_id(v@, id),
{
    let mut out: Vec<i64> = Vec::new();
    let mut i: usize = 0;
    while i < v.len()
        invariant
            i <= v@.len(),
            out@ == v@.take(i as int).filter(other_than(id)),
        decreases v@.len() - i,
    {
        proof {
            reveal_with_fuel(Seq::<i64>::filter, 1);
            assert(v@.take(i + 1).drop_last() =~= v@.take(i as int));
        }
        if v[i] != id {
            out.push(v[i]);
        }
        i = i + 1;
    }
    assert(v@.take(v@.len() as int) =~= v@);
    out
}

proof fn lemma_push_contains(s: Seq<i64>, a: i64, x: i64)
    ensures
        s.push(a).contains(x) <==> (s.contains(x) || a == x),
{
    let t = s.push(a);
    if t.contains(x) {
        let k = choose|k: int| 0 <= k < t.len() && t[k] == x;
    }
    if s.contains(x) {
        let k = choose|k: int| 0 <= k < s.len() && s[k] == x;
        assert(t[k] == x);
    }
    if a == x {
        assert(t[s.len() as int] == x);
    }
}

pub proof fn lemma_without_no_duplicates(s: Seq<i64>, id: i64)
    requires
        s.no_duplicates(),
    ensures
        without_id(s, id).no_duplicates(),
        !without_id(s, id).contains(id),
        forall|x: i64| x != id ==> (without_id(s, id).contains(x) <==> s.contains(x)),
    decreases s.len(),
{
    reveal_with_fuel(Seq::<i64>::filter, 1);
    if s.len() > 0 {
        let rest = s.drop_last();
        let last = s.last();
        assert(s =~= rest.push(last));
        lemma_without_no_duplicates(rest, id);
        let fr = without_id(rest, id);
        assert(!rest.contains(last)) by {
            if rest.contains(last) {
                let k = choose|k: int| 0 <= k < rest.len() && rest[k] == last;
            }
        }
        assert forall|x: i64| #![auto] s.contains(x) <==> (rest.contains(x) || last == x) by {
            lemma_push_contains(rest, last, x);
        }
        if last != id {
            assert forall|x: i64| #![auto] fr.push(last).contains(x) <==> (fr.contains(x) || last == x) by {
                lemma_push_contains(fr, last, x);
            }
            assert(fr.push(last).no_duplicates()) by {
                assert forall|a: int, b: int| 0 <= a < b < fr.len() + 1 implies fr.push(last)[a]
                    != fr.push(last)[b] by {}
            }
        }
    }
}

impl SideSlot {
    pub fn new() -> (r: Self)
        ensures
            r@ == empty_slot(),
    {
        let r = SideSlot {
            latest_version: 0,
            desired_ticks: None,
            desired_updated_at_ms: None,
            live_order_index: None,
            pending_creates: Vec::new(),
            pending_cancels: Vec::new(),
            last_submission_ms: None,
        };
        r
    }

    /// Starts a new quote version (saturating) and returns it.
    pub fn bump_version(&mut self) -> (r: u64)
        ensures
            r == (if old(self)@.latest_version == u64::MAX { u64::MAX } else { (old(self)@.latest_version + 1) as u64 }),
            final(self)@ == (SlotView { latest_version: r, ..old(self)@ }),
    {
        self.latest_version = if self.latest_version == u64::MAX { u64::MAX } else { self.latest_version + 1 };
        self.latest_version
    }

    pub fn register_pending_create(&mut self, client_id: i64)
        requires
            old(self)@.wf(),
        ensures
            final(self)@ == (SlotView { pending_creates: with_id(old(self)@.pending_creates, client_id), ..old(self)@ }),
            final(self)@.wf(),
    {
        if !vec_contains(&self.pending_creates, client_id) {
            self.pending_creates.push(client_id);
            proof {
                let s = old(self)@.pending_creates;
                assert forall|a: int, b: int| 0 <= a < b < s.len() + 1 implies s.push(client_id)[a]
                    != s.push(client_id)[b] by {}
            }
        }
    }

    pub fn register_pending_cancel(&mut self, client_id: i64)
        requires
            old(self)@.wf(),
        ensures
            final(self)@ == (SlotView { pending_cancels: with_id(old(self)@.pending_cancels, client_id), ..old(self)@ }),
            final(self)@.wf(),
    {
        if !vec_contains(&self.pending_cancels, client_id) {
            self.pending_cancels.push(client_id);
            proof {
                let s = old(self)@.pending_cancels;
                assert forall|a: int, b: int| 0 <= a < b < s.len() + 1 implies s.push(client_id)[a]
                    != s.push(client_id)[b] by {}
            }
        }
    }

    pub fn clear_pending_create(&mut self, client_id: i64)
        requires
            old(self)@.wf(),
        ensures
            final(self)@ == (SlotView { pending_creates: without_id(old(self)@.pending_creates, client_id), ..old(self)@ }),
            final(self)@.wf(),
    {
        proof {
            lemma_without_no_duplicates(self.pending_creates@, client_id);
        }
        self.pending_creates = vec_without(&self.pending_creates, client_id);
    }

    pub fn clear_pending_cancel(&mut self, client_id: i64)
        requires
            old(self)@.wf(),
        ensures
            final(self)@ == (SlotView { pending_cancels: without_id(old(self)@.pending_cancels, client_id), ..old(self)@ }),
            final(self)@.wf(),
    {
        proof {
            lemma_without_no_duplicates(self.pending_cancels@, client_id);
        }
        self.pending_cancels = vec_without(&self.pending_cancels, client_id);
    }

    fn set_desired(&mut self, ticks: Option<i64>, now_ms: u64)
        ensures
            final(self)@ == (SlotView { desired_ticks: ticks, desired_updated_at_ms: Some(now_ms), ..old(self)@ }),
    {
        self.desired_ticks = ticks;
        self.desired_updated_at_ms = Some(now_ms);
    }

    fn set_live_index(&mut self, index: Option<u64>)
        ensures
            final(self)@ == (SlotView { live_order_index: index, ..old(self)@ }),
    {
        self.live_order_index = index;
    }

    fn set_last_submission(&mut self, now_ms: u64)
        ensures
            final(self)@ == (SlotView { last_submission_ms: Some(now_ms), ..old(self)@ }),
    {
        self.last_submission_ms = Some(now_ms);
    }

    fn pending_creates(&self) -> (r: &Vec<i64>)
        ensures
            r@ == self@.pending_creates,
    {
        &self.pending_creates
    }

    fn live_order_index(&self) -> (r: Option<u64>)
        ensures
            r == self@.live_order_index,
    {
        self.live_order_index
    }

    fn latest_version(&self) -> (r: u64)
        ensures
            r == self@.latest_version,
    {
        self.latest_version
    }

    fn last_submission_ms(&self) -> (r: Option<u64>)
        ensures
            r == self@.last_submission_ms,
    {
        self.last_submission_ms
    }

    pub fn desired_ticks(&self) -> (r: Option<i64>)
        ensures
            r == self@.desired_ticks,
    {
        self.desired_ticks
    }
}

/// Registering a client id twice has the same effect as registering it once.
pub proof fn law_registration_idempotent(s: Seq<i64>, id: i64)
    ensures
        with_id(with_id(s, id), id) == with_id(s, id),
        with_id(s, id).contains(id),
{
    if !s.contains(id) {
        assert(s.push(id)[s.len() as int] == id);
    }
}

/// Clearing a client id removes every occurrence of it, whatever was
/// registered before.
pub proof fn law_clear_after_register(s: Seq<i64>, id: i64)
    requires
        s.no_duplicates(),
    ensures
        !without_id(with_id(s, id), id).contains(id),
        forall|x: i64| x != id ==> (without_id(with_id(s, id), id).contains(x) <==> s.contains(x)),
{
    let t = with_id(s, id);
    assert(t.no_duplicates()) by {
        if !s.contains(id) {
            assert forall|a: int, b: int| 0 <= a < b < t.len() implies t[a] != t[b] by {}
        }
    }
    lemma_without_no_duplicates(t, id);
    assert forall|x: i64| x != id implies (t.contains(x) <==> s.contains(x)) by {
        if t.contains(x) && !s.contains(id) {
            let k = choose|k: int| 0 <= k < t.len() && t[k] == x;
        }
        if s.contains(x) && !s.contains(id) {
            let k = choose|k: int| 0 <= k < s.len() && s[k] == x;
            assert(t[k] == x);
        }
    }
}

/// Nonce bookkeeping for a submitted pending order.
#[derive(Clone, Copy, Debug, PartialEq, Eq, Structural)]
pub struct PendingNonce {
    pub client_id: i64,
    pub api_key_index: Option<i32>,
}

/// Execution state of one market.
pub struct ExecutionState {
    market: MarketId,
    base_qty: BaseQty,
    refresh_interval_ms: u64,
    refresh_tolerance_ticks: i64,
    dry_run: bool,
    fast_execution: bool,
    optimistic_acks: bool,
    pending_by_client: HashMap<i64, PendingOrder>,
    pending_by_nonce: HashMap<i64, PendingNonce>,
    live_by_order: HashMap<u64, LiveOrder>,
    live_by_client: HashMap<i64, u64>,
    bid: SideSlot,
    ask: SideSlot,
    directive_seq: u64,
    client_id_high_water: i64,
    emergency_last_triggered_ms: Option<u64>,
    emergency_cooldown_ms: u64,
}

/// Abstract content of an [`ExecutionState`].
pub struct ExecutionView {
    pub market: MarketId,
    pub base_qty: BaseQty,
    pub refresh_interval_ms: u64,
    pub refresh_tolerance_ticks: i64,
    pub dry_run: bool,
    pub fast_execution: bool,
    pub optimistic_acks: bool,
    pub pending: Map<i64, PendingOrder>,
    pub by_nonce: Map<i64, PendingNonce>,
    pub live: Map<u64, LiveOrder>,
    pub live_by_client: Map<i64, u64>,
    pub bid: SlotView,
    pub ask: SlotView,
    pub directive_seq: u64,
    pub high_water: i64,
    pub emergency_last_ms: Option<u64>,
    pub emergency_cooldown_ms: u64,
}

impl ExecutionView {
    pub open spec fn slot(self, side: OrderSide) -> SlotView {
        match side {
            OrderSide::Bid => self.bid,
            OrderSide::Ask => self.ask,
        }
    }

    pub open spec fn with_slot(self, side: OrderSide, slot: SlotView) -> ExecutionView {
        match side {
            OrderSide::Bid => ExecutionView { bid: slot, ..self },
            OrderSide::Ask => ExecutionView { ask: slot, ..self },
        }
    }

    pub open spec fn wf(self) -> bool {
        &&& forall|k: i64| #[trigger] self.pending.contains_key(k) ==> self.pending[k].wf() && self.pending[k].client_order_id == k
        &&& forall|i: u64| #[trigger] self.live.contains_key(i) ==> self.live[i].order_index == i
        &&& self.bid.wf()
        &&& self.ask.wf()
        &&& EMERGENCY_COOLDOWN_MIN_MS <= self.emergency_cooldown_ms <= EMERGENCY_COOLDOWN_MAX_MS
        &&& self.refresh_interval_ms >= MIN_REFRESH_INTERVAL_MS
        &&& self.refresh_tolerance_ticks >= 0
    }

    /// A fresh client id can be minted at `wall_ms` without overflow.
    pub open spec fn can_mint_id(self, wall_ms: u64) -> bool {
        wall_ms < WALL_MS_LIMIT && self.high_water < i64::MAX
    }
}

/// The slot after registering a pending action's client id.
pub open spec fn slot_registered(slot: SlotView, action: PendingAction, id: i64) -> SlotView {
    match action {
        PendingAction::Create { .. } => SlotView { pending_creates: with_id(slot.pending_creates, id), ..slot },
        PendingAction::Cancel { .. } => SlotView { pending_cancels: with_id(slot.pending_cancels, id), ..slot },
    }
}

/// The slot after clearing a pending action's client id.
pub open spec fn slot_cleared(slot: SlotView, action: PendingAction, id: i64) -> SlotView {
    match action {
        PendingAction::Create { .. } => SlotView { pending_creates: without_id(slot.pending_creates, id), ..slot },
        PendingAction::Cancel { .. } => SlotView { pending_cancels: without_id(slot.pending_cancels, id), ..slot },
    }
}

/// Next client id: the wall clock in milliseconds times 16, or one more
/// than the last id when the clock has not moved past it.
pub open spec fn minted_id(high_water: i64, wall_ms: u64) -> i64 {
    if wall_ms * 16 <= high_water {
        (high_water + 1) as i64
    } else {
        (wall_ms * 16) as i64
    }
}

impl View for ExecutionState {
    type V = ExecutionView;

    closed spec fn view(&self) -> ExecutionView {
        ExecutionView {
            market: self.market,
            base_qty: self.base_qty,
            refresh_interval_ms: self.refresh_interval_ms,
            refresh_tolerance_ticks: self.refresh_tolerance_ticks,
            dry_run: self.dry_run,
            fast_execution: self.fast_execution,
            optimistic_acks: self.optimistic_acks,
            pending: self.pending_by_client@,
            by_nonce: self.pending_by_nonce@,
            live: self.live_by_order@,
            live_by_client: self.live_by_client@,
            bid: self.bid@,
            ask: self.ask@,
            directive_seq: self.directive_seq,
            high_water: self.client_id_high_water,
            emergency_last_ms: self.emergency_last_triggered_ms,
            emergency_cooldown_ms: self.emergency_cooldown_ms,
        }
    }
}

impl ExecutionState {
    /// A fresh state: the refresh interval is at least 10 ms, the tolerance
    /// at least 0, nothing pending or live, cooldown at its minimum.
    pub fn new(
        market: MarketId,
        base_qty: BaseQty,
        refresh_interval_ms: u64,
        refresh_tolerance_ticks: i64,
        dry_run: bool,
        fast_execution: bool,
        optimistic_acks: bool,
    ) -> (r: Self)
        ensures
            r@.wf(),
            r@ == (ExecutionView {
                market,
                base_qty,
                refresh_interval_ms: if refresh_interval_ms < MIN_REFRESH_INTERVAL_MS { MIN_REFRESH_INTERVAL_MS } else { refresh_interval_ms },
                refresh_tolerance_ticks: if refresh_tolerance_ticks < 0 { 0 } else { refresh_tolerance_ticks },
                dry_run,
                fast_execution,
                optimistic_acks,
                pending: Map::empty(),
                by_nonce: Map::empty(),
                live: Map::empty(),
                live_by_client: Map::empty(),
                bid: empty_slot(),
                ask: empty_slot(),
                directive_seq: 0,
                high_water: 0,
                emergency_last_ms: None,
                emergency_cooldown_ms: EMERGENCY_COOLDOWN_MIN_MS,
            }),
    {
        ExecutionState {
            market,
            base_qty,
            refresh_interval_ms: if refresh_interval_ms < MIN_REFRESH_INTERVAL_MS { MIN_REFRESH_INTERVAL_MS } else { refresh_interval_ms },
            refresh_tolerance_ticks: if refresh_tolerance_ticks < 0 { 0 } else { refresh_tolerance_ticks },
            dry_run,
            fast_execution,
            optimistic_acks,
            pending_by_client: HashMap::new(),
            pending_by_nonce: HashMap::new(),
            live_by_order: HashMap::new(),
            live_by_client: HashMap::new(),
            bid: SideSlot::new(),
            ask: SideSlot::new(),
            directive_seq: 0,
            client_id_high_water: 0,
            emergency_last_triggered_ms: None,
            emergency_cooldown_ms: EMERGENCY_COOLDOWN_MIN_MS,
        }
    }

    pub fn market(&self) -> (r: MarketId)
        ensures
            r == self@.market,
    {
        self.market
    }

    pub fn base_qty(&self) -> (r: BaseQty)
        ensures
            r == self@.base_qty,
    {
        self.base_qty
    }

    pub fn dry_run(&self) -> (r: bool)
        ensures
            r == self@.dry_run,
    {
        self.dry_run
    }

    /// Acknowledgements of batches may be assumed only in fast mode with
    /// optimistic acknowledgements switched on.
    pub fn optimistic_mode(&self) -> (r: bool)
        ensures
            r == (self@.fast_execution && self@.optimistic_acks),
    {
        self.fast_execution && self.optimistic_acks
    }

    pub fn live_count(&self) -> (r: usize)
        ensures
            r == self@.live.len(),
    {
        self.live_by_order.len()
    }

    pub fn high_water(&self) -> (r: i64)
        ensures
            r == self@.high_water,
    {
        self.client_id_high_water
    }

    pub fn pending_order(&self, client_id: i64) -> (r: Option<PendingOrder>)
        ensures
            r == (if self@.pending.contains_key(client_id) { Some(self@.pending[client_id]) } else { None }),
    {
        match self.pending_by_client.get(&client_id) {
            Some(o) => Some(*o),
            None => None,
        }
    }

    pub fn live_order(&self, order_index: u64) -> (r: Option<LiveOrder>)
        ensures
            r == (if self@.live.contains_key(order_index) { Some(self@.live[order_index]) } else { None }),
    {
        match self.live_by_order.get(&order_index) {
            Some(o) => Some(*o),
            None => None,
        }
    }

    pub fn pending_by_nonce(&self, nonce: i64) -> (r: Option<PendingNonce>)
        ensures
            r == (if self@.by_nonce.contains_key(nonce) { Some(self@.by_nonce[nonce]) } else { None }),
    {
        match self.pending_by_nonce.get(&nonce) {
            Some(o) => Some(*o),
            None => None,
        }
    }

    pub fn slot(&self, side: OrderSide) -> (r: &SideSlot)
        ensures
            r@ == self@.slot(side),
    {
        match side {
            OrderSide::Bid => &self.bid,
            OrderSide::Ask => &self.ask,
        }
    }

    /// Next directive id, wrapping around at `u64::MAX`.
    pub fn next_directive_id(&mut self) -> (r: u64)
        ensures
            r == (if old(self)@.directive_seq == u64::MAX { 0 } else { (old(self)@.directive_seq + 1) as u64 }),
            final(self)@ == (ExecutionView { directive_seq: r, ..old(self)@ }),
    {
        self.directive_seq = if self.directive_seq == u64::MAX { 0 } else { self.directive_seq + 1 };
        self.directive_seq
    }

    /// More live orders than the safe maximum call for cancelling everything.
    pub fn emergency_cancel_required(&self) -> (r: bool)
        ensures
            r == (self@.live.len() > MAX_SAFE_LIVE_ORDERS),
    {
        self.live_by_order.len() > MAX_SAFE_LIVE_ORDERS
    }

    /// A new client order id, strictly above every id minted before.
    pub fn next_client_order_id(&mut self, wall_ms: u64) -> (r: i64)
        requires
            old(self)@.can_mint_id(wall_ms),
        ensures
            r == minted_id(old(self)@.high_water, wall_ms),
            r > old(self)@.high_water,
            final(self)@ == (ExecutionView { high_water: r, ..old(self)@ }),
    {
        let candidate: i64 = (wall_ms as i64) * 16;
        if candidate <= self.client_id_high_water {
            self.client_id_high_water = self.client_id_high_water + 1;
        } else {
            self.client_id_high_water = candidate;
        }
        self.client_id_high_water
    }

    fn slot_register(&mut self, side: OrderSide, action: PendingAction, id: i64)
        requires
            old(self)@.wf(),
        ensures
            final(self)@ == old(self)@.with_slot(side, slot_registered(old(self)@.slot(side), action, id)),
            final(self)@.wf(),
    {
        match side {
            OrderSide::Bid => match action {
                PendingAction::Create { .. } => self.bid.register_pending_create(id),
                PendingAction::Cancel { .. } => self.bid.register_pending_cancel(id),
            },
            OrderSide::Ask => match action {
                PendingAction::Create { .. } => self.ask.register_pending_create(id),
                PendingAction::Cancel { .. } => self.ask.register_pending_cancel(id),
            },
        }
    }

    fn slot_clear(&mut self, side: OrderSide, action: PendingAction, id: i64)
        requires
            old(self)@.wf(),
        ensures
            final(self)@ == old(self)@.with_slot(side, slot_cleared(old(self)@.slot(side), action, id)),
            final(self)@.wf(),
    {
        match side {
            OrderSide::Bid => match action {
                PendingAction::Create { .. } => self.bid.clear_pending_create(id),
                PendingAction::Cancel { .. } => self.bid.clear_pending_cancel(id),
            },
            OrderSide::Ask => match action {
                PendingAction::Create { .. } => self.ask.clear_pending_create(id),
                PendingAction::Cancel { .. } => self.ask.clear_pending_cancel(id),
            },
        }
    }

    fn slot_set_live_index(&mut self, side: OrderSide, index: Option<u64>)
        requires
            old(self)@.wf(),
        ensures
            final(self)@ == old(self)@.with_slot(side, SlotView { live_order_index: index, ..old(self)@.slot(side) }),
            final(self)@.wf(),
    {
        match side {
            OrderSide::Bid => self.bid.set_live_index(index),
            OrderSide::Ask => self.ask.set_live_index(index),
        }
    }

    /// Records a new pending order under its client id (the given one, or a
    /// freshly minted one) and lists that id on its side; an earlier pending
    /// order under the same id is replaced.
    pub fn register_pending(
        &mut self,
        side: OrderSide,
        version: u64,
        action: PendingAction,
        client_id_override: Option<i64>,
        now_ms: u64,
        wall_ms: u64,
    ) -> (r: i64)
        requires
            old(self)@.wf(),
            client_id_override is None ==> old(self)@.can_mint_id(wall_ms),
        ensures
            final(self)@.wf(),
            r == (match client_id_override {
                Some(c) => c,
                None => minted_id(old(self)@.high_water, wall_ms),
            }),
            final(self)@ == (ExecutionView {
                pending: old(self)@.pending.insert(r, fresh_pending(r, side, version, action, now_ms)),
                high_water: if client_id_override is None { r } else { old(self)@.high_water },
                ..old(self)@.with_slot(side, slot_registered(old(self)@.slot(side), action, r))
            }),
    {
        let client_id: i64 = match client_id_override {
            Some(c) => c,
            None => self.next_client_order_id(wall_ms),
        };
        let order = PendingOrder::new(client_id, side, version, action, now_ms);
        self.slot_register(side, action, client_id);
        self.pending_by_client.insert(client_id, order);
        client_id
    }

    /// Notes that a pending order was signed and sent: its submission time,
    /// nonce and key; a nonce also indexes the order for acknowledgements.
    /// Unknown client ids change nothing.
    pub fn track_signed_signature(&mut self, client_id: i64, nonce: Option<i64>, api_key_index: Option<i32>, now_ms: u64)
        requires
            old(self)@.wf(),
        ensures
            final(self)@.wf(),
            final(self)@ == signature_tracked(old(self)@, client_id, nonce, api_key_index, now_ms),
    {
        let found: Option<PendingOrder> = match self.pending_by_client.get(&client_id) {
            Some(o) => Some(*o),
            None => None,
        };
        if let Some(mut order) = found {
            order.mark_submitted(now_ms);
            order.set_nonce(nonce);
            order.set_api_key(api_key_index);
            self.pending_by_client.insert(client_id, order);
            if let Some(value) = nonce {
                self.pending_by_nonce.insert(value, PendingNonce { client_id, api_key_index });
            }
        }
    }

    /// A failed submission: the pending order leaves the pending table (and
    /// its nonce index) and spends one attempt. With retries left it is
    /// returned for a retry and stays listed on its side; exhausted, it is
    /// dropped from its side's list and `None` is returned.
    pub fn record_submission_failure(&mut self, client_id: i64, now_ms: u64) -> (r: Option<PendingOrder>)
        requires
            old(self)@.wf(),
        ensures
            final(self)@.wf(),
            (final(self)@, r) == failure_step(old(self)@, client_id, now_ms),
    {
        let removed: Option<PendingOrder> = self.pending_by_client.remove(&client_id);
        match removed {
            Some(mut order) => {
                if let Some(nonce) = order.nonce {
                    self.pending_by_nonce.remove(&nonce);
                }
                order.record_attempt(now_ms);
                if order.exhausted() {
                    self.slot_clear(order.side, order.action, client_id);
                    None
                } else {
                    self.slot_register(order.side, order.action, client_id);
                    Some(order)
                }
            },
            None => {
                assert(self.pending_by_client@ =~= old(self).pending_by_client@);
                None
            },
        }
    }

    /// Records an order reported live: indexed by order and by client id, and
    /// recorded as its side's live order.
    pub fn mark_live(&mut self, live: LiveOrder)
        requires
            old(self)@.wf(),
        ensures
            final(self)@.wf(),
            final(self)@ == live_marked(old(self)@, live),
    {
        self.slot_set_live_index(live.side, Some(live.order_index));
        self.live_by_client.insert(live.client_order_id, live.order_index);
        self.live_by_order.insert(live.order_index, live);
    }

    /// Forgets the live order known under a client id; the side of that order
    /// (bid when the order itself is unknown) loses its live order.
    pub fn remove_live_by_client(&mut self, client_id: i64) -> (r: Option<LiveOrder>)
        requires
            old(self)@.wf(),
        ensures
            final(self)@.wf(),
            final(self)@ == live_removed_by_client(old(self)@, client_id),
            r == (if old(self)@.live_by_client.contains_key(client_id)
                && old(self)@.live.contains_key(old(self)@.live_by_client[client_id]) {
                Some(old(self)@.live[old(self)@.live_by_client[client_id]])
            } else {
                None
            }),
    {
        match self.live_by_client.remove(&client_id) {
            Some(order_index) => {
                let side: OrderSide = match self.live_by_order.get(&order_index) {
                    Some(order) => order.side,
                    None => OrderSide::Bid,
                };
                self.slot_set_live_index(side, None);
                self.live_by_order.remove(&order_index)
            },
            None => {
                assert(self.live_by_client@ =~= old(self).live_by_client@);
                None
            },
        }
    }

    /// Forgets a live order by its order index, with its client index and its
    /// side's live order.
    pub fn remove_live_by_index(&mut self, order_index: u64) -> (r: Option<LiveOrder>)
        requires
            old(self)@.wf(),
        ensures
            final(self)@.wf(),
            final(self)@ == live_removed_by_index(old(self)@, order_index),
            r == (if old(self)@.live.contains_key(order_index) { Some(old(self)@.live[order_index]) } else { None }),
    {
        match self.live_by_order.remove(&order_index) {
            Some(live) => {
                self.slot_set_live_index(live.side, None);
                self.live_by_client.remove(&live.client_order_id);
                Some(live)
            },
            None => {
                assert(self.live_by_order@ =~= old(self).live_by_order@);
                None
            },
        }
    }

    /// Notes a successful submission on a side at `now_ms`.
    pub fn record_submission(&mut self, side: OrderSide, now_ms: u64)
        requires
            old(self)@.wf(),
        ensures
            final(self)@.wf(),
            final(self)@ == old(self)@.with_slot(side, SlotView { last_submission_ms: Some(now_ms), ..old(self)@.slot(side) }),
    {
        match side {
            OrderSide::Bid => self.bid.set_last_submission(now_ms),
            OrderSide::Ask => self.ask.set_last_submission(now_ms),
        }
    }

    /// Time since the side's last successful submission (zero if the clock
    /// reads earlier), if there was one.
    pub fn last_submission_elapsed(&self, side: OrderSide, now_ms: u64) -> (r: Option<u64>)
        ensures
            r == (match self@.slot(side).last_submission_ms {
                Some(last) => Some(if now_ms >= last { (now_ms - last) as u64 } else { 0u64 }),
                None => None,
            }),
    {
        match self.slot(side).last_submission_ms() {
            Some(last) => Some(if now_ms >= last { now_ms - last } else { 0 }),
            None => None,
        }
    }

    /// A side may be refreshed when it never submitted or its last
    /// submission is at least one refresh interval old.
    pub fn compute_refresh_guard(&self, side: OrderSide, now_ms: u64) -> (r: bool)
        ensures
            r == refresh_allowed(self@, side, now_ms),
    {
        match self.last_submission_elapsed(side, now_ms) {
            Some(elapsed) => elapsed >= self.refresh_interval_ms,
            None => true,
        }
    }
}

/// The state after recording a live order: indexed by order and by client
/// id, and recorded as its side's live order.
pub open spec fn live_marked(v: ExecutionView, live: LiveOrder) -> ExecutionView {
    ExecutionView {
        live: v.live.insert(live.order_index, live),
        live_by_client: v.live_by_client.insert(live.client_order_id, live.order_index),
        ..v.with_slot(live.side, SlotView { live_order_index: Some(live.order_index), ..v.slot(live.side) })
    }
}

/// The state after forgetting the live order under a client id: both
/// indexes lose it and its side (bid when the order itself is unknown) has no
/// live order; an unknown client id changes nothing.
pub open spec fn live_removed_by_client(v: ExecutionView, client_id: i64) -> ExecutionView {
    if !v.live_by_client.contains_key(client_id) {
        v
    } else {
        let idx = v.live_by_client[client_id];
        let side = if v.live.contains_key(idx) { v.live[idx].side } else { OrderSide::Bid };
        ExecutionView {
            live: v.live.remove(idx),
            live_by_client: v.live_by_client.remove(client_id),
            ..v.with_slot(side, SlotView { live_order_index: None, ..v.slot(side) })
        }
    }
}

/// The state after forgetting a live order by its order index: both indexes
/// lose it and its side has no live order; an unknown index changes nothing.
pub open spec fn live_removed_by_index(v: ExecutionView, order_index: u64) -> ExecutionView {
    if !v.live.contains_key(order_index) {
        v
    } else {
        let l = v.live[order_index];
        ExecutionView {
            live: v.live.remove(order_index),
            live_by_client: v.live_by_client.remove(l.client_order_id),
            ..v.with_slot(l.side, SlotView { live_order_index: None, ..v.slot(l.side) })
        }
    }
}

/// The state after a pending order was signed and sent at `now_ms` with a
/// nonce and key: the order notes them, and a nonce indexes the order;
/// unknown client ids change nothing.
pub open spec fn signature_tracked(v: ExecutionView, client_id: i64, nonce: Option<i64>, api_key_index: Option<i32>, now_ms: u64) -> ExecutionView {
    if !v.pending.contains_key(client_id) {
        v
    } else {
        ExecutionView {
            pending: v.pending.insert(client_id, PendingOrder {
                submitted_at_ms: Some(now_ms),
                nonce,
                api_key_index,
                ..v.pending[client_id]
            }),
            by_nonce: match nonce {
                Some(n) => v.by_nonce.insert(n, PendingNonce { client_id, api_key_index }),
                None => v.by_nonce,
            },
            ..v
        }
    }
}

pub open spec fn refresh_allowed(v: ExecutionView, side: OrderSide, now_ms: u64) -> bool {
    match v.slot(side).last_submission_ms {
        Some(last) => (if now_ms >= last { now_ms - last } else { 0 }) >= v.refresh_interval_ms,
        None => true,
    }
}

fn live_keys(m: &HashMap<u64, LiveOrder>) -> (r: Vec<u64>)
    ensures
        r@.to_set() == m@.dom(),
        r@.no_duplicates(),
{
    let mut out: Vec<u64> = Vec::new();
    for k in it: m.keys()
        invariant
            out@ == it.seq().take(it.index() as int).unref(),
            it.seq() == vstd::std_specs::hash::spec_keys_iter(m).remaining(),
    {
        out.push(*k);
    }
    proof {
        let sq = vstd::std_specs::hash::spec_keys_iter(m).remaining();
        assert(out@ =~= sq.unref());
    }
    out
}

/// A placement to sign and submit.
#[derive(Clone, Copy, Debug, PartialEq, Eq, Structural)]
pub struct OrderPlacement {
    pub side: OrderSide,
    pub price_ticks: i64,
    pub client_order_id: i64,
}

/// A cancel to sign and submit.
#[derive(Clone, Copy, Debug, PartialEq, Eq, Structural)]
pub struct OrderCancel {
    pub side: OrderSide,
    pub order_index: u64,
    pub client_order_id: i64,
}

#[derive(Clone, Copy, Debug, PartialEq, Eq, Structural)]
pub enum OrderOperation {
    Place(OrderPlacement),
    Cancel(OrderCancel),
}

pub open spec fn op_side(op: OrderOperation) -> OrderSide {
    match op {
        OrderOperation::Place(p) => p.side,
        OrderOperation::Cancel(c) => c.side,
    }
}

pub open spec fn op_client_id(op: OrderOperation) -> i64 {
    match op {
        OrderOperation::Place(p) => p.client_order_id,
        OrderOperation::Cancel(c) => c.client_order_id,
    }
}

impl OrderOperation {
    pub fn side(&self) -> (r: OrderSide)
        ensures
            r == op_side(*self),
    {
        match self {
            OrderOperation::Place(op) => op.side,
            OrderOperation::Cancel(op) => op.side,
        }
    }

    pub fn client_order_id(&self) -> (r: i64)
        ensures
            r == op_client_id(*self),
    {
        match self {
            OrderOperation::Place(op) => op.client_order_id,
            OrderOperation::Cancel(op) => op.client_order_id,
        }
    }
}

/// A batch of operations planned together.
#[derive(Clone, Debug)]
pub struct OrderDirective {
    pub id: u64,
    pub attempt: u8,
    pub operations: Vec<OrderOperation>,
}

impl OrderDirective {
    pub fn new(id: u64, operations: Vec<OrderOperation>) -> (r: Self)
        ensures
            r.id == id,
            r.attempt == 0,
            r.operations@ == operations@,
    {
        OrderDirective { id, attempt: 0, operations }
    }

    pub fn with_attempt(self, attempt: u8) -> (r: Self)
        ensures
            r.id == self.id,
            r.attempt == attempt,
            r.operations@ == self.operations@,
    {
        OrderDirective { attempt, ..self }
    }
}

/// An operation with its signed transaction.
#[derive(Clone, Debug)]
pub struct SignedOperation {
    pub operation: OrderOperation,
    pub batch_entry: BatchEntry,
    pub tx_type: u8,
    pub api_key_index: Option<i32>,
}

impl SignedOperation {
    pub fn new(operation: OrderOperation, batch_entry: BatchEntry, tx_type: u8, api_key_index: Option<i32>) -> (r: Self)
        ensures
            r.operation == operation,
            r.batch_entry == batch_entry,
            r.tx_type == tx_type,
            r.api_key_index == api_key_index,
    {
        SignedOperation { operation, batch_entry, tx_type, api_key_index }
    }
}

/// A directive whose operations are all signed.
#[derive(Clone, Debug)]
pub struct SignedDirective {
    pub id: u64,
    pub attempt: u8,
    pub operations: Vec<SignedOperation>,
}

impl SignedDirective {
    pub fn new(id: u64, attempt: u8, operations: Vec<SignedOperation>) -> (r: Self)
        ensures
            r.id == id,
            r.attempt == attempt,
            r.operations@ == operations@,
    {
        SignedDirective { id, attempt, operations }
    }
}

/// Distance between two prices in ticks.
pub open spec fn tick_gap(a: i64, b: i64) -> int {
    if a >= b {
        a - b
    } else {
        b - a
    }
}

/// The side's live order, when its index is known and the order recorded.
pub open spec fn side_live(v: ExecutionView, side: OrderSide) -> Option<LiveOrder> {
    match v.slot(side).live_order_index {
        Some(i) => if v.live.contains_key(i) { Some(v.live[i]) } else { None },
        None => None,
    }
}

/// The state after registering a pending order (see `register_pending`).
pub open spec fn registered_view(
    v: ExecutionView,
    side: OrderSide,
    version: u64,
    action: PendingAction,
    id: i64,
    now_ms: u64,
    minted: bool,
) -> ExecutionView {
    ExecutionView {
        pending: v.pending.insert(id, fresh_pending(id, side, version, action, now_ms)),
        high_water: if minted { id } else { v.high_water },
        ..v.with_slot(side, slot_registered(v.slot(side), action, id))
    }
}

/// Some pending placement on the side already aims at `ticks`.
pub open spec fn pending_targets(v: ExecutionView, side: OrderSide, ticks: i64) -> bool {
    exists|k: int|
        0 <= k < v.slot(side).pending_creates.len() && {
            let id = #[trigger] v.slot(side).pending_creates[k];
            v.pending.contains_key(id) && v.pending[id].action == (PendingAction::Create { price_ticks: ticks })
        }
}

/// The live order is kept: the target is within tolerance of it and the side
/// may be refreshed.
pub open spec fn holds_live(v: ExecutionView, side: OrderSide, target: Option<i64>, now_ms: u64) -> bool {
    match (target, side_live(v, side)) {
        (Some(t), Some(l)) => tick_gap(l.price_ticks, t) <= v.refresh_tolerance_ticks && refresh_allowed(v, side, now_ms),
        _ => false,
    }
}

/// The live order to cancel: any live order when nothing is wanted, or one
/// priced beyond tolerance from the target.
pub open spec fn live_to_cancel(v: ExecutionView, side: OrderSide, target: Option<i64>) -> Option<LiveOrder> {
    match (target, side_live(v, side)) {
        (None, Some(l)) => Some(l),
        (Some(t), Some(l)) => if tick_gap(l.price_ticks, t) > v.refresh_tolerance_ticks { Some(l) } else { None },
        _ => None,
    }
}

/// Planning one side toward a target price: the resulting state and the
/// operations to submit.
pub open spec fn plan_side_result(
    v: ExecutionView,
    side: OrderSide,
    target: Option<i64>,
    now_ms: u64,
    wall_ms: u64,
) -> (ExecutionView, Seq<OrderOperation>) {
    let v1 = v.with_slot(side, SlotView { desired_ticks: target, desired_updated_at_ms: Some(now_ms), ..v.slot(side) });
    if holds_live(v1, side, target, now_ms) {
        (v1, Seq::empty())
    } else {
        let (v2, ops1) = match live_to_cancel(v1, side, target) {
            Some(l) => (
                registered_view(v1, side, v1.slot(side).latest_version, PendingAction::Cancel { order_index: l.order_index }, l.client_order_id, now_ms, false),
                seq![OrderOperation::Cancel(OrderCancel { side, order_index: l.order_index, client_order_id: l.client_order_id })],
            ),
            None => (v1, Seq::empty()),
        };
        match target {
            None => (v2, ops1),
            Some(t) => if pending_targets(v2, side, t) {
                (v2, ops1)
            } else {
                let old_version = v2.slot(side).latest_version;
                let version: u64 = if old_version == u64::MAX { u64::MAX } else { (old_version + 1) as u64 };
                let v3 = v2.with_slot(side, SlotView { latest_version: version, ..v2.slot(side) });
                let id = minted_id(v3.high_water, wall_ms);
                (
                    registered_view(v3, side, version, PendingAction::Create { price_ticks: t }, id, now_ms, true),
                    ops1.push(OrderOperation::Place(OrderPlacement { side, price_ticks: t, client_order_id: id })),
                )
            },
        }
    }
}

/// A live order may be cancelled by a cancel-all: no cancel is pending for
/// its client id.
pub open spec fn cancelable(v: ExecutionView, idx: u64) -> bool {
    &&& v.live.contains_key(idx)
    &&& !(v.pending.contains_key(v.live[idx].client_order_id) && v.pending[v.live[idx].client_order_id].action is Cancel)
}

pub open spec fn cancel_of(l: LiveOrder) -> OrderOperation {
    OrderOperation::Cancel(OrderCancel { side: l.side, order_index: l.order_index, client_order_id: l.client_order_id })
}

/// `ops` cancels exactly the cancelable live orders, each once.
pub open spec fn cancels_exactly(v: ExecutionView, ops: Seq<OrderOperation>) -> bool {
    &&& ops.no_duplicates()
    &&& forall|k: int| 0 <= k < ops.len() ==> exists|idx: u64| cancelable(v, idx) && #[trigger] ops[k] == cancel_of(v.live[idx])
    &&& forall|idx: u64| cancelable(v, idx) ==> ops.contains(#[trigger] cancel_of(v.live[idx]))
}

pub open spec fn next_seq(seq: u64) -> u64 {
    if seq == u64::MAX { 0 } else { (seq + 1) as u64 }
}

/// Outcome of a cancel-all from state `v`: nothing when no live order is
/// cancelable, else one directive (with the next id) cancelling each of them.
pub open spec fn cancel_all_outcome(v: ExecutionView, v2: ExecutionView, dirs: Seq<OrderDirective>) -> bool {
    if forall|idx: u64| !cancelable(v, idx) {
        dirs.len() == 0 && v2 == v
    } else {
        &&& dirs.len() == 1
        &&& v2 == (ExecutionView { directive_seq: next_seq(v.directive_seq), ..v })
        &&& dirs[0].id == v2.directive_seq
        &&& dirs[0].attempt == 0
        &&& cancels_exactly(v, dirs[0].operations@)
    }
}

impl ExecutionState {
    fn pending_creates_target(&self, side: OrderSide, ticks: i64) -> (r: bool)
        ensures
            r == pending_targets(self@, side, ticks),
    {
        let ids = self.slot(side).pending_creates();
        let mut i: usize = 0;
        while i < ids.len()
            invariant
                i <= ids@.len(),
                ids@ == self@.slot(side).pending_creates,
                forall|k: int| 0 <= k < i ==> {
                    let id = #[trigger] ids@[k];
                    !(self@.pending.contains_key(id) && self@.pending[id].action == (PendingAction::Create { price_ticks: ticks }))
                },
            decreases ids@.len() - i,
        {
            let id: i64 = ids[i];
            match self.pending_order(id) {
                Some(p) => {
                    if p.action.price_ticks() == Some(ticks) {
                        return true;
                    }
                },
                None => {},
            }
            i = i + 1;
        }
        false
    }

    fn set_desired(&mut self, side: OrderSide, ticks: Option<i64>, now_ms: u64)
        requires
            old(self)@.wf(),
        ensures
            final(self)@.wf(),
            final(self)@ == old(self)@.with_slot(side, SlotView { desired_ticks: ticks, desired_updated_at_ms: Some(now_ms), ..old(self)@.slot(side) }),
    {
        match side {
            OrderSide::Bid => self.bid.set_desired(ticks, now_ms),
            OrderSide::Ask => self.ask.set_desired(ticks, now_ms),
        }
    }

    fn bump_version(&mut self, side: OrderSide) -> (r: u64)
        requires
            old(self)@.wf(),
        ensures
            final(self)@.wf(),
            r == (if old(self)@.slot(side).latest_version == u64::MAX { u64::MAX } else { (old(self)@.slot(side).latest_version + 1) as u64 }),
            final(self)@ == old(self)@.with_slot(side, SlotView { latest_version: r, ..old(self)@.slot(side) }),
    {
        match side {
            OrderSide::Bid => self.bid.bump_version(),
            OrderSide::Ask => self.ask.bump_version(),
        }
    }

    /// Plans one side toward `target` (a price in ticks, or nothing): keeps
    /// a live order within tolerance when the side may refresh, otherwise
    /// cancels a live order that is not wanted or too far off, and places a
    /// new order at the target unless a pending placement already aims there.
    pub fn plan_side(&mut self, side: OrderSide, target: Option<i64>, now_ms: u64, wall_ms: u64) -> (r: Vec<OrderOperation>)
        requires
            old(self)@.wf(),
            old(self)@.can_mint_id(wall_ms),
        ensures
            final(self)@.wf(),
            (final(self)@, r@) == plan_side_result(old(self)@, side, target, now_ms, wall_ms),
            old(self)@.high_water <= final(self)@.high_water,
            final(self)@.high_water <= old(self)@.high_water + 1 || final(self)@.high_water == wall_ms * 16,
            forall|k: int| 0 <= k < r@.len() ==> op_side(#[trigger] r@[k]) == side,
    {
        let mut operations: Vec<OrderOperation> = Vec::new();
        self.set_desired(side, target, now_ms);
        let allow_refresh: bool = self.compute_refresh_guard(side, now_ms);
        let live_snapshot: Option<LiveOrder> = match self.slot(side).live_order_index() {
            Some(i) => self.live_order(i),
            None => None,
        };
        let tolerance: i64 = self.refresh_tolerance_ticks;
        if let Some(t) = target {
            if let Some(l) = live_snapshot {
                let diff: i128 = if l.price_ticks >= t { l.price_ticks as i128 - t as i128 } else { t as i128 - l.price_ticks as i128 };
                if diff <= tolerance as i128 && allow_refresh {
                    return operations;
                }
            }
        }
        let cancel: Option<LiveOrder> = match target {
            None => live_snapshot,
            Some(t) => match live_snapshot {
                Some(l) => {
                    let diff: i128 = if l.price_ticks >= t { l.price_ticks as i128 - t as i128 } else { t as i128 - l.price_ticks as i128 };
                    if diff > tolerance as i128 { Some(l) } else { None }
                },
                None => None,
            },
        };
        if let Some(live) = cancel {
            let version: u64 = self.slot(side).latest_version();
            let client_id: i64 = self.register_pending(
                side,
                version,
                PendingAction::Cancel { order_index: live.order_index },
                Some(live.client_order_id),
                now_ms,
                wall_ms,
            );
            operations.push(OrderOperation::Cancel(OrderCancel { side, order_index: live.order_index, client_order_id: client_id }));
        }
        if let Some(t) = target {
            if self.pending_creates_target(side, t) {
                return operations;
            }
            let version: u64 = self.bump_version(side);
            let client_id: i64 = self.register_pending(side, version, PendingAction::Create { price_ticks: t }, None, now_ms, wall_ms);
            operations.push(OrderOperation::Place(OrderPlacement { side, price_ticks: t, client_order_id: client_id }));
        }
        operations
    }

    /// Plans cancelling every live order that has no cancel pending: nothing
    /// when there is none, else a single directive with the next id.
    pub fn plan_cancel_all(&mut self) -> (r: Vec<OrderDirective>)
        requires
            old(self)@.wf(),
        ensures
            final(self)@.wf(),
            cancel_all_outcome(old(self)@, final(self)@, r@),
    {
        let keys = live_keys(&self.live_by_order);
        let mut operations: Vec<OrderOperation> = Vec::new();
        let mut i: usize = 0;
        while i < keys.len()
            invariant
                i <= keys@.len(),
                self@.wf(),
                keys@.to_set() == self@.live.dom(),
                keys@.no_duplicates(),
                forall|k: int| 0 <= k < operations@.len() ==> exists|t: int|
                    0 <= t < i && cancelable(self@, keys@[t]) && #[trigger] operations@[k] == cancel_of(self@.live[keys@[t]]),
                forall|t: int| 0 <= t < i && cancelable(self@, #[trigger] keys@[t]) ==> operations@.contains(cancel_of(self@.live[keys@[t]])),
                forall|k1: int, k2: int| 0 <= k1 < k2 < operations@.len() ==> #[trigger] operations@[k1] != #[trigger] operations@[k2],
            decreases keys@.len() - i,
        {
            let idx: u64 = keys[i];
            let ghost before: Seq<OrderOperation> = operations@;
            assert(self@.live.dom().contains(idx));
            match self.live_order(idx) {
                Some(live) => {
                    let already: bool = match self.pending_order(live.client_order_id) {
                        Some(p) => p.action.price_ticks().is_none(),
                        None => false,
                    };
                    if !already {
                        operations.push(OrderOperation::Cancel(OrderCancel {
                            side: live.side,
                            order_index: live.order_index,
                            client_order_id: live.client_order_id,
                        }));
                        proof {
                            assert(operations@[before.len() as int] == cancel_of(self@.live[keys@[i as int]]));
                            assert forall|k: int| 0 <= k < before.len() implies #[trigger] operations@[k] != operations@[before.len() as int] by {
                                let t = choose|t: int| 0 <= t < i && cancelable(self@, keys@[t]) && before[k] == cancel_of(self@.live[keys@[t]]);
                            }
                            assert forall|t: int| 0 <= t < i + 1 && cancelable(self@, #[trigger] keys@[t]) implies operations@.contains(cancel_of(self@.live[keys@[t]])) by {
                                if t < i {
                                    let k = choose|k: int| 0 <= k < before.len() && before[k] == cancel_of(self@.live[keys@[t]]);
                                    assert(operations@[k] == before[k]);
                                }
                            }
                            assert forall|k: int| 0 <= k < operations@.len() implies exists|t: int|
                                0 <= t < i + 1 && cancelable(self@, keys@[t]) && #[trigger] operations@[k] == cancel_of(self@.live[keys@[t]]) by {}
                        }
                    }
                },
                None => {},
            }
            i = i + 1;
        }
        proof {
            assert forall|idx: u64| cancelable(self@, idx) implies operations@.contains(#[trigger] cancel_of(self@.live[idx])) by {
                let t = choose|t: int| 0 <= t < keys@.len() && keys@[t] == idx;
            }
            assert forall|k: int| 0 <= k < operations@.len() implies exists|idx: u64| cancelable(self@, idx) && #[trigger] operations@[k] == cancel_of(self@.live[idx]) by {
                let t = choose|t: int| 0 <= t < i && cancelable(self@, keys@[t]) && operations@[k] == cancel_of(self@.live[keys@[t]]);
            }
        }
        if operations.len() == 0 {
            proof {
                assert forall|idx: u64| !cancelable(self@, idx) by {}
            }
            return Vec::new();
        }
        proof {
            let k: int = 0;
            let idx = choose|idx: u64| cancelable(self@, idx) && operations@[k] == cancel_of(self@.live[idx]);
        }
        let ghost before_seq: ExecutionView = self@;
        let id: u64 = self.next_directive_id();
        let mut out: Vec<OrderDirective> = Vec::new();
        out.push(OrderDirective::new(id, operations));
        out
    }
}

/// A strategy decision with its prices already converted to ticks.
#[derive(Clone, Copy, Debug, PartialEq, Eq, Structural)]
pub enum TickDecision {
    Skip,
    Cancel,
    Quote { bid_ticks: i64, ask_ticks: i64 },
    QuoteBidOnly(i64),
    QuoteAskOnly(i64),
}

/// State of the emergency breaker when a decision arrives.
#[derive(Clone, Copy, Debug, PartialEq, Eq, Structural)]
pub enum BreakerStatus {
    /// Live orders are within the safe maximum: the decision is carried out.
    Clear,
    /// Too many live orders, but the breaker fired less than a cooldown ago:
    /// nothing is done.
    CoolingDown,
    /// Too many live orders: everything is cancelled and the cooldown doubles.
    Triggered,
}

/// The breaker step: with more live orders than the safe maximum it fires
/// when it never fired or its cooldown has passed (then the cooldown doubles,
/// up to its cap); with few enough live orders a fired breaker is reset.
pub open spec fn breaker_step(v: ExecutionView, now_ms: u64) -> (ExecutionView, BreakerStatus) {
    if v.live.len() > MAX_SAFE_LIVE_ORDERS {
        let fire = match v.emergency_last_ms {
            Some(last) => (if now_ms >= last { now_ms - last } else { 0 }) >= v.emergency_cooldown_ms,
            None => true,
        };
        if !fire {
            (v, BreakerStatus::CoolingDown)
        } else {
            let doubled = v.emergency_cooldown_ms * 2;
            (
                ExecutionView {
                    emergency_last_ms: Some(now_ms),
                    emergency_cooldown_ms: if doubled < EMERGENCY_COOLDOWN_MAX_MS { doubled as u64 } else { EMERGENCY_COOLDOWN_MAX_MS },
                    ..v
                },
                BreakerStatus::Triggered,
            )
        }
    } else if v.emergency_last_ms is Some {
        (ExecutionView { emergency_last_ms: None, emergency_cooldown_ms: EMERGENCY_COOLDOWN_MIN_MS, ..v }, BreakerStatus::Clear)
    } else {
        (v, BreakerStatus::Clear)
    }
}

/// Outcome of quoting one side: a directive with the next id when planning
/// produced operations.
pub open spec fn one_side_outcome(
    v: ExecutionView,
    side: OrderSide,
    ticks: i64,
    now_ms: u64,
    wall_ms: u64,
    v2: ExecutionView,
    dirs: Seq<OrderDirective>,
) -> bool {
    let (vp, ops) = plan_side_result(v, side, Some(ticks), now_ms, wall_ms);
    if ops.len() == 0 {
        dirs.len() == 0 && v2 == vp
    } else {
        &&& dirs.len() == 1
        &&& v2 == (ExecutionView { directive_seq: next_seq(vp.directive_seq), ..vp })
        &&& dirs[0].id == v2.directive_seq
        &&& dirs[0].attempt == 0
        &&& dirs[0].operations@ == ops
    }
}

/// Outcome of quoting both sides: bid planned first, then ask, and one
/// directive holding both sides' operations when there are any.
pub open spec fn quote_outcome(
    v: ExecutionView,
    bid_ticks: i64,
    ask_ticks: i64,
    now_ms: u64,
    wall_ms: u64,
    v2: ExecutionView,
    dirs: Seq<OrderDirective>,
) -> bool {
    let (vb, ob) = plan_side_result(v, OrderSide::Bid, Some(bid_ticks), now_ms, wall_ms);
    let (va, oa) = plan_side_result(vb, OrderSide::Ask, Some(ask_ticks), now_ms, wall_ms);
    if ob.len() + oa.len() == 0 {
        dirs.len() == 0 && v2 == va
    } else {
        &&& dirs.len() == 1
        &&& v2 == (ExecutionView { directive_seq: next_seq(va.directive_seq), ..va })
        &&& dirs[0].id == v2.directive_seq
        &&& dirs[0].attempt == 0
        &&& dirs[0].operations@ == ob + oa
    }
}

pub open spec fn decision_outcome(
    v: ExecutionView,
    decision: TickDecision,
    now_ms: u64,
    wall_ms: u64,
    v2: ExecutionView,
    dirs: Seq<OrderDirective>,
) -> bool {
    match decision {
        TickDecision::Skip => dirs.len() == 0 && v2 == v,
        TickDecision::Cancel => cancel_all_outcome(v, v2, dirs),
        TickDecision::Quote { bid_ticks, ask_ticks } => quote_outcome(v, bid_ticks, ask_ticks, now_ms, wall_ms, v2, dirs),
        TickDecision::QuoteBidOnly(t) => one_side_outcome(v, OrderSide::Bid, t, now_ms, wall_ms, v2, dirs),
        TickDecision::QuoteAskOnly(t) => one_side_outcome(v, OrderSide::Ask, t, now_ms, wall_ms, v2, dirs),
    }
}

proof fn lemma_plan_side_ops(v: ExecutionView, side: OrderSide, target: Option<i64>, now_ms: u64, wall_ms: u64)
    ensures
        forall|k: int|
            0 <= k < plan_side_result(v, side, target, now_ms, wall_ms).1.len() ==> {
                let op = #[trigger] plan_side_result(v, side, target, now_ms, wall_ms).1[k];
                &&& op_side(op) == side
                &&& op matches OrderOperation::Place(p) ==> target == Some(p.price_ticks)
            },
{
}

/// Quoting both sides places bids only at the bid price and asks only at
/// the ask price, whatever the state.
pub proof fn law_quote_places_at_targets(
    v: ExecutionView,
    bid_ticks: i64,
    ask_ticks: i64,
    now_ms: u64,
    wall_ms: u64,
    v2: ExecutionView,
    dirs: Seq<OrderDirective>,
)
    requires
        quote_outcome(v, bid_ticks, ask_ticks, now_ms, wall_ms, v2, dirs),
    ensures
        forall|d: int, j: int|
            0 <= d < dirs.len() && 0 <= j < dirs[d].operations@.len() ==> (#[trigger] dirs[d].operations@[j] matches OrderOperation::Place(p) ==> p.price_ticks == (
                match p.side {
                    OrderSide::Bid => bid_ticks,
                    OrderSide::Ask => ask_ticks,
                }
            )),
{
    let (vb, ob) = plan_side_result(v, OrderSide::Bid, Some(bid_ticks), now_ms, wall_ms);
    let (va, oa) = plan_side_result(vb, OrderSide::Ask, Some(ask_ticks), now_ms, wall_ms);
    lemma_plan_side_ops(v, OrderSide::Bid, Some(bid_ticks), now_ms, wall_ms);
    lemma_plan_side_ops(vb, OrderSide::Ask, Some(ask_ticks), now_ms, wall_ms);
    assert forall|d: int, j: int|
        0 <= d < dirs.len() && 0 <= j < dirs[d].operations@.len() implies (#[trigger] dirs[d].operations@[j] matches OrderOperation::Place(p) ==> p.price_ticks == (
            match p.side {
                OrderSide::Bid => bid_ticks,
                OrderSide::Ask => ask_ticks,
            }
        )) by {
        let op = dirs[d].operations@[j];
        if j < ob.len() {
            assert(op == ob[j]);
        } else {
            assert(op == oa[j - ob.len()]);
        }
    }
}

/// Quoting one side touches only that side, and places only at its price.
pub proof fn law_one_side_places_at_target(
    v: ExecutionView,
    side: OrderSide,
    ticks: i64,
    now_ms: u64,
    wall_ms: u64,
    v2: ExecutionView,
    dirs: Seq<OrderDirective>,
)
    requires
        one_side_outcome(v, side, ticks, now_ms, wall_ms, v2, dirs),
    ensures
        forall|d: int, j: int|
            0 <= d < dirs.len() && 0 <= j < dirs[d].operations@.len() ==> op_side(#[trigger] dirs[d].operations@[j]) == side
                && (dirs[d].operations@[j] matches OrderOperation::Place(p) ==> p.price_ticks == ticks),
{
    lemma_plan_side_ops(v, side, Some(ticks), now_ms, wall_ms);
}

/// On a state with no live order and no pending placement on either side,
/// quoting both sides sends one directive placing exactly a bid at the bid
/// price and then an ask at the ask price.
pub proof fn law_quote_from_idle_places_both(
    v: ExecutionView,
    bid_ticks: i64,
    ask_ticks: i64,
    now_ms: u64,
    wall_ms: u64,
    v2: ExecutionView,
    dirs: Seq<OrderDirective>,
)
    requires
        v.bid.live_order_index is None,
        v.ask.live_order_index is None,
        v.bid.pending_creates.len() == 0,
        v.ask.pending_creates.len() == 0,
        quote_outcome(v, bid_ticks, ask_ticks, now_ms, wall_ms, v2, dirs),
    ensures
        dirs.len() == 1,
        dirs[0].operations@.len() == 2,
        dirs[0].operations@[0] matches OrderOperation::Place(p) && p.side == OrderSide::Bid && p.price_ticks == bid_ticks,
        dirs[0].operations@[1] matches OrderOperation::Place(p) && p.side == OrderSide::Ask && p.price_ticks == ask_ticks,
{
    let (vb, ob) = plan_side_result(v, OrderSide::Bid, Some(bid_ticks), now_ms, wall_ms);
    let (va, oa) = plan_side_result(vb, OrderSide::Ask, Some(ask_ticks), now_ms, wall_ms);
    assert(ob.len() == 1);
    assert(vb.ask.live_order_index is None);
    assert(vb.ask.pending_creates.len() == 0);
    assert(oa.len() == 1);
}

impl ExecutionState {
    /// Room to mint the client ids of one decision (two at most).
    pub open spec fn decision_ready(v: ExecutionView, wall_ms: u64) -> bool {
        wall_ms < WALL_MS_LIMIT && v.high_water < i64::MAX - 2
    }

    /// Whether a decision can be planned at `wall_ms` without the client id
    /// counter overflowing.
    pub fn ready_for_decision(&self, wall_ms: u64) -> (r: bool)
        ensures
            r == Self::decision_ready(self@, wall_ms),
    {
        wall_ms < WALL_MS_LIMIT && self.client_id_high_water < i64::MAX - 2
    }

    /// Runs the emergency breaker (see [`breaker_step`]).
    pub fn check_breaker(&mut self, now_ms: u64) -> (r: BreakerStatus)
        requires
            old(self)@.wf(),
        ensures
            final(self)@.wf(),
            (final(self)@, r) == breaker_step(old(self)@, now_ms),
    {
        if self.emergency_cancel_required() {
            let fire: bool = match self.emergency_last_triggered_ms {
                Some(last) => (if now_ms >= last { now_ms - last } else { 0 }) >= self.emergency_cooldown_ms,
                None => true,
            };
            if !fire {
                return BreakerStatus::CoolingDown;
            }
            self.emergency_last_triggered_ms = Some(now_ms);
            let doubled: u64 = self.emergency_cooldown_ms * 2;
            self.emergency_cooldown_ms = if doubled < EMERGENCY_COOLDOWN_MAX_MS { doubled } else { EMERGENCY_COOLDOWN_MAX_MS };
            BreakerStatus::Triggered
        } else {
            if self.emergency_last_triggered_ms.is_some() {
                self.emergency_last_triggered_ms = None;
                self.emergency_cooldown_ms = EMERGENCY_COOLDOWN_MIN_MS;
            }
            BreakerStatus::Clear
        }
    }

    fn schedule_one_side(&mut self, side: OrderSide, ticks: i64, now_ms: u64, wall_ms: u64) -> (r: Vec<OrderDirective>)
        requires
            old(self)@.wf(),
            old(self)@.can_mint_id(wall_ms),
        ensures
            final(self)@.wf(),
            one_side_outcome(old(self)@, side, ticks, now_ms, wall_ms, final(self)@, r@),
    {
        let operations = self.plan_side(side, Some(ticks), now_ms, wall_ms);
        let mut out: Vec<OrderDirective> = Vec::new();
        if operations.len() == 0 {
            return out;
        }
        let id: u64 = self.next_directive_id();
        out.push(OrderDirective::new(id, operations));
        out
    }

    fn schedule_quotes(&mut self, bid_ticks: i64, ask_ticks: i64, now_ms: u64, wall_ms: u64) -> (r: Vec<OrderDirective>)
        requires
            old(self)@.wf(),
            Self::decision_ready(old(self)@, wall_ms),
        ensures
            final(self)@.wf(),
            quote_outcome(old(self)@, bid_ticks, ask_ticks, now_ms, wall_ms, final(self)@, r@),
    {
        let mut bid_ops = self.plan_side(OrderSide::Bid, Some(bid_ticks), now_ms, wall_ms);
        assert(wall_ms * 16 <= i64::MAX - 15) by (nonlinear_arith)
            requires
                wall_ms < WALL_MS_LIMIT,
        ;
        let ask_ops = self.plan_side(OrderSide::Ask, Some(ask_ticks), now_ms, wall_ms);
        let mut out: Vec<OrderDirective> = Vec::new();
        if bid_ops.len() == 0 && ask_ops.len() == 0 {
            return out;
        }
        let id: u64 = self.next_directive_id();
        let ghost ob: Seq<OrderOperation> = bid_ops@;
        let mut ask_ops = ask_ops;
        bid_ops.append(&mut ask_ops);
        out.push(OrderDirective::new(id, bid_ops));
        out
    }

    /// Carries out a strategy decision: first the emergency breaker, then
    /// skip, cancel everything, quote both sides or quote one side.
    pub fn handle_decision(&mut self, decision: TickDecision, now_ms: u64, wall_ms: u64) -> (r: Vec<OrderDirective>)
        requires
            old(self)@.wf(),
            Self::decision_ready(old(self)@, wall_ms),
        ensures
            final(self)@.wf(),
            ({
                let (v1, status) = breaker_step(old(self)@, now_ms);
                match status {
                    BreakerStatus::CoolingDown => r@.len() == 0 && final(self)@ == v1,
                    BreakerStatus::Triggered => cancel_all_outcome(v1, final(self)@, r@),
                    BreakerStatus::Clear => decision_outcome(v1, decision, now_ms, wall_ms, final(self)@, r@),
                }
            }),
    {
        let status = self.check_breaker(now_ms);
        match status {
            BreakerStatus::CoolingDown => Vec::new(),
            BreakerStatus::Triggered => self.plan_cancel_all(),
            BreakerStatus::Clear => match decision {
                TickDecision::Skip => Vec::new(),
                TickDecision::Cancel => self.plan_cancel_all(),
                TickDecision::Quote { bid_ticks, ask_ticks } => self.schedule_quotes(bid_ticks, ask_ticks, now_ms, wall_ms),
                TickDecision::QuoteBidOnly(t) => self.schedule_one_side(OrderSide::Bid, t, now_ms, wall_ms),
                TickDecision::QuoteAskOnly(t) => self.schedule_one_side(OrderSide::Ask, t, now_ms, wall_ms),
            },
        }
    }
}

/// One failed submission (see `record_submission_failure`): the resulting
/// state and the order to retry, if any.
pub open spec fn failure_step(v: ExecutionView, client_id: i64, now_ms: u64) -> (ExecutionView, Option<PendingOrder>) {
    if !v.pending.contains_key(client_id) {
        (v, None)
    } else {
        let o = v.pending[client_id];
        let o2 = after_attempt(o, now_ms);
        let base = ExecutionView {
            pending: v.pending.remove(client_id),
            by_nonce: match o.nonce {
                Some(n) => v.by_nonce.remove(n),
                None => v.by_nonce,
            },
            ..v
        };
        if o2.retry_budget == 0 {
            (base.with_slot(o.side, slot_cleared(base.slot(o.side), o.action, client_id)), None)
        } else {
            (base.with_slot(o.side, slot_registered(base.slot(o.side), o.action, client_id)), Some(o2))
        }
    }
}

/// The operations of a signed directive, in order.
pub open spec fn batch_ops(b: SignedDirective) -> Seq<OrderOperation> {
    b.operations@.map_values(|s: SignedOperation| s.operation)
}

/// Errors of the execution state machine.
#[derive(Clone, Copy, Debug, PartialEq, Eq, Structural)]
pub enum ExecutionError {
    /// More submission results than operations in the batch.
    ResultLengthMismatch,
}

/// The state after the first `n` results: each success marks its side as
/// just submitted.
pub open spec fn successes_applied(v: ExecutionView, ops: Seq<OrderOperation>, results: Seq<bool>, n: int, now_ms: u64) -> ExecutionView
    decreases n,
{
    if n <= 0 {
        v
    } else {
        let p = successes_applied(v, ops, results, n - 1, now_ms);
        if results[n - 1] {
            let side = op_side(ops[n - 1]);
            p.with_slot(side, SlotView { last_submission_ms: Some(now_ms), ..p.slot(side) })
        } else {
            p
        }
    }
}

/// Client ids of the failed operations among the first `n` results, in order.
pub open spec fn failed_ids(ops: Seq<OrderOperation>, results: Seq<bool>, n: int) -> Seq<i64>
    decreases n,
{
    if n <= 0 {
        Seq::empty()
    } else {
        let f = failed_ids(ops, results, n - 1);
        if !results[n - 1] {
            f.push(op_client_id(ops[n - 1]))
        } else {
            f
        }
    }
}

/// Failures recorded one after the other: the state and the orders to retry.
pub open spec fn failures_fold(v: ExecutionView, ids: Seq<i64>, now_ms: u64) -> (ExecutionView, Seq<PendingOrder>)
    decreases ids.len(),
{
    if ids.len() == 0 {
        (v, Seq::empty())
    } else {
        let (v1, rs) = failures_fold(v, ids.drop_last(), now_ms);
        let (v2, r) = failure_step(v1, ids.last(), now_ms);
        (v2, match r {
            Some(p) => rs.push(p),
            None => rs,
        })
    }
}

pub open spec fn without_nonces(m: Map<i64, PendingNonce>, ps: Seq<PendingOrder>) -> Map<i64, PendingNonce>
    decreases ps.len(),
{
    if ps.len() == 0 {
        m
    } else {
        let m1 = without_nonces(m, ps.drop_last());
        match ps.last().nonce {
            Some(n) => m1.remove(n),
            None => m1,
        }
    }
}

/// The operation that retries a pending order.
pub open spec fn retry_op(p: PendingOrder) -> OrderOperation {
    match p.action {
        PendingAction::Create { price_ticks } => OrderOperation::Place(OrderPlacement { side: p.side, price_ticks, client_order_id: p.client_order_id }),
        PendingAction::Cancel { order_index } => OrderOperation::Cancel(OrderCancel { side: p.side, order_index, client_order_id: p.client_order_id }),
    }
}

/// Outcome of retrying failed client ids: when some orders are left to retry,
/// their nonces are dropped and a directive with the next id and the next
/// attempt number retries them after the initial backoff.
pub open spec fn retry_outcome(
    v: ExecutionView,
    ids: Seq<i64>,
    attempt: u8,
    now_ms: u64,
    v2: ExecutionView,
    r: Option<(OrderDirective, u64)>,
) -> bool {
    let (vf, retries) = failures_fold(v, ids, now_ms);
    if retries.len() == 0 {
        r is None && v2 == vf
    } else {
        let v3 = ExecutionView { by_nonce: without_nonces(vf.by_nonce, retries), ..vf };
        &&& v2 == (ExecutionView { directive_seq: next_seq(v3.directive_seq), ..v3 })
        &&& r matches Some(x) && x.0.id == v2.directive_seq && x.0.attempt == attempt + 1
            && x.0.operations@ == retries.map_values(|p: PendingOrder| retry_op(p)) && x.1 == INITIAL_BACKOFF_MS
    }
}

proof fn lemma_failures_fold(v: ExecutionView, ids: Seq<i64>, now_ms: u64)
    requires
        v.wf(),
    ensures
        failures_fold(v, ids, now_ms).0.wf(),
        failures_fold(v, ids, now_ms).0.pending.dom().subset_of(v.pending.dom()),
        forall|k: int| 0 <= k < failures_fold(v, ids, now_ms).1.len() ==>
            !failures_fold(v, ids, now_ms).0.pending.contains_key(#[trigger] failures_fold(v, ids, now_ms).1[k].client_order_id),
        forall|k: int| 0 <= k < failures_fold(v, ids, now_ms).1.len() ==>
            (#[trigger] failures_fold(v, ids, now_ms).1[k]).wf(),
    decreases ids.len(),
{
    if ids.len() > 0 {
        lemma_failures_fold(v, ids.drop_last(), now_ms);
        let (v1, rs) = failures_fold(v, ids.drop_last(), now_ms);
        let cid = ids.last();
        if v1.pending.contains_key(cid) {
            let o = v1.pending[cid];
            let base = ExecutionView {
                pending: v1.pending.remove(cid),
                by_nonce: match o.nonce {
                    Some(n) => v1.by_nonce.remove(n),
                    None => v1.by_nonce,
                },
                ..v1
            };
            lemma_without_no_duplicates(base.slot(o.side).pending_creates, cid);
            lemma_without_no_duplicates(base.slot(o.side).pending_cancels, cid);
            law_registration_idempotent(base.slot(o.side).pending_creates, cid);
            assert(slot_registered(base.slot(o.side), o.action, cid).wf()) by {
                let sc = base.slot(o.side).pending_creates;
                let sx = base.slot(o.side).pending_cancels;
                if !sc.contains(cid) {
                    assert forall|a: int, b: int| 0 <= a < b < sc.len() + 1 implies sc.push(cid)[a] != sc.push(cid)[b] by {}
                }
                if !sx.contains(cid) {
                    assert forall|a: int, b: int| 0 <= a < b < sx.len() + 1 implies sx.push(cid)[a] != sx.push(cid)[b] by {}
                }
            }
        }
    }
}

proof fn lemma_failed_ids_members(ops: Seq<OrderOperation>, results: Seq<bool>, n: int)
    requires
        0 <= n <= results.len(),
        n <= ops.len(),
    ensures
        forall|x: i64|
            #[trigger] failed_ids(ops, results, n).contains(x) <==> exists|k: int|
                0 <= k < n && !results[k] && op_client_id(ops[k]) == x,
    decreases n,
{
    if n > 0 {
        lemma_failed_ids_members(ops, results, n - 1);
        let f = failed_ids(ops, results, n - 1);
        assert forall|x: i64|
            #[trigger] failed_ids(ops, results, n).contains(x) <==> exists|k: int|
                0 <= k < n && !results[k] && op_client_id(ops[k]) == x by {
            let g = failed_ids(ops, results, n);
            if f.contains(x) {
                assert(exists|k: int| 0 <= k < n - 1 && !results[k] && op_client_id(ops[k]) == x);
                let k = choose|k: int| 0 <= k < n - 1 && !results[k] && op_client_id(ops[k]) == x;
                assert(0 <= k < n && !results[k] && op_client_id(ops[k]) == x);
            }
            if exists|k: int| 0 <= k < n && !results[k] && op_client_id(ops[k]) == x {
                let k = choose|k: int| 0 <= k < n && !results[k] && op_client_id(ops[k]) == x;
                if k < n - 1 {
                    assert(exists|k2: int| 0 <= k2 < n - 1 && !results[k2] && op_client_id(ops[k2]) == x);
                    assert(f.contains(x));
                    let j = choose|j: int| 0 <= j < f.len() && f[j] == x;
                    if !results[n - 1] {
                        assert(g[j] == x);
                    } else {
                        assert(g == f);
                    }
                } else {
                    assert(g == f.push(op_client_id(ops[n - 1])));
                    assert(g[f.len() as int] == x);
                }
            }
            if g.contains(x) {
                let j = choose|j: int| 0 <= j < g.len() && g[j] == x;
                if j < f.len() {
                    if !results[n - 1] {
                        assert(f[j] == g[j]);
                    }
                    assert(f.contains(x));
                } else {
                    assert(!results[n - 1] && op_client_id(ops[n - 1]) == x);
                }
            }
        }
    }
}

proof fn lemma_successes_applied(v: ExecutionView, ops: Seq<OrderOperation>, results: Seq<bool>, n: int, now_ms: u64)
    requires
        v.wf(),
        0 <= n <= results.len(),
        n <= ops.len(),
    ensures
        successes_applied(v, ops, results, n, now_ms).wf(),
        successes_applied(v, ops, results, n, now_ms).pending == v.pending,
        forall|side: OrderSide|
            #[trigger] successes_applied(v, ops, results, n, now_ms).slot(side).last_submission_ms == if exists|k: int|
                0 <= k < n && results[k] && op_side(ops[k]) == side {
                Some(now_ms)
            } else {
                v.slot(side).last_submission_ms
            },
    decreases n,
{
    if n > 0 {
        lemma_successes_applied(v, ops, results, n - 1, now_ms);
        assert forall|side: OrderSide|
            #[trigger] successes_applied(v, ops, results, n, now_ms).slot(side).last_submission_ms == if exists|k: int|
                0 <= k < n && results[k] && op_side(ops[k]) == side {
                Some(now_ms)
            } else {
                v.slot(side).last_submission_ms
            } by {
            if exists|k: int| 0 <= k < n - 1 && results[k] && op_side(ops[k]) == side {
                let k = choose|k: int| 0 <= k < n - 1 && results[k] && op_side(ops[k]) == side;
                assert(0 <= k < n && results[k] && op_side(ops[k]) == side);
            }
            if exists|k: int| 0 <= k < n && results[k] && op_side(ops[k]) == side {
                let k = choose|k: int| 0 <= k < n && results[k] && op_side(ops[k]) == side;
                if k < n - 1 {
                    assert(exists|k: int| 0 <= k < n - 1 && results[k] && op_side(ops[k]) == side);
                }
            }
        }
    }
}

proof fn lemma_failures_fold_retries(v: ExecutionView, ids: Seq<i64>, now_ms: u64)
    requires
        v.wf(),
    ensures
        forall|x: i64|
            ids.contains(x) && v.pending.contains_key(x) && v.pending[x].retry_budget > 1 ==> exists|j: int|
                0 <= j < failures_fold(v, ids, now_ms).1.len() && (#[trigger] failures_fold(v, ids, now_ms).1[j]).client_order_id == x
                    && failures_fold(v, ids, now_ms).1[j].action == v.pending[x].action
                    && failures_fold(v, ids, now_ms).1[j].side == v.pending[x].side,
        forall|x: i64| !ids.contains(x) ==> (#[trigger] failures_fold(v, ids, now_ms).0.pending.contains_key(x)) == v.pending.contains_key(x),
        forall|x: i64|
            !ids.contains(x) && v.pending.contains_key(x) ==> #[trigger] failures_fold(v, ids, now_ms).0.pending[x] == v.pending[x],
    decreases ids.len(),
{
    if ids.len() > 0 {
        let pre = ids.drop_last();
        let last = ids.last();
        lemma_failures_fold_retries(v, pre, now_ms);
        lemma_failures_fold(v, pre, now_ms);
        let (v1, rs) = failures_fold(v, pre, now_ms);
        let (v2, r) = failure_step(v1, last, now_ms);
        let rs2 = failures_fold(v, ids, now_ms).1;
        assert(failures_fold(v, ids, now_ms).0 == v2);
        assert forall|x: i64|
            ids.contains(x) && v.pending.contains_key(x) && v.pending[x].retry_budget > 1 implies exists|j: int|
                0 <= j < rs2.len() && (#[trigger] rs2[j]).client_order_id == x && rs2[j].action == v.pending[x].action
                    && rs2[j].side == v.pending[x].side by {
            if pre.contains(x) {
                let j = choose|j: int|
                    0 <= j < rs.len() && (#[trigger] rs[j]).client_order_id == x && rs[j].action == v.pending[x].action
                        && rs[j].side == v.pending[x].side;
                assert(rs2[j] == rs[j]);
            } else {
                let k = choose|k: int| 0 <= k < ids.len() && ids[k] == x;
                if k < pre.len() {
                    assert(pre[k] == x);
                }
                assert(x == last);
                assert(v1.pending[x] == v.pending[x]);
                assert(rs2[rs.len() as int] == after_attempt(v.pending[x], now_ms));
            }
        }
        assert forall|x: i64| !ids.contains(x) implies (#[trigger] v2.pending.contains_key(x)) == v.pending.contains_key(x)
            && (v.pending.contains_key(x) ==> v2.pending[x] == v.pending[x]) by {
            assert(ids[ids.len() - 1] == last);
            assert(x != last);
            if pre.contains(x) {
                let k = choose|k: int| 0 <= k < pre.len() && pre[k] == x;
                assert(ids[k] == x);
            }
            assert(v1.pending.contains_key(x) == v.pending.contains_key(x));
            assert(v2.pending.contains_key(x) == v1.pending.contains_key(x));
            if v1.pending.contains_key(x) {
                assert(v2.pending[x] == v1.pending[x]);
            }
        }
        assert(failures_fold(v, ids, now_ms).0.pending == v2.pending);
    } else {
        assert(failures_fold(v, ids, now_ms).0 == v);
    }
}

/// After a batch result, the client ids taken for retry are exactly those of
/// the operations whose own result (at the same index) is false; a side is
/// marked as just submitted exactly when one of its operations succeeded;
/// and each failed operation whose order is still pending with retries left
/// after this attempt is among the orders retried, with its side and action.
pub proof fn law_batch_result_retries_failures(v: ExecutionView, ops: Seq<OrderOperation>, results: Seq<bool>, now_ms: u64)
    requires
        v.wf(),
        results.len() <= ops.len(),
    ensures
        ({
            let n = results.len() as int;
            let ids = failed_ids(ops, results, n);
            let vs = successes_applied(v, ops, results, n, now_ms);
            let retries = failures_fold(vs, ids, now_ms).1;
            &&& forall|x: i64|
                #[trigger] ids.contains(x) <==> exists|k: int| 0 <= k < n && !results[k] && op_client_id(ops[k]) == x
            &&& forall|side: OrderSide|
                #[trigger] vs.slot(side).last_submission_ms == if exists|k: int|
                    0 <= k < n && results[k] && op_side(ops[k]) == side {
                    Some(now_ms)
                } else {
                    v.slot(side).last_submission_ms
                }
            &&& forall|k: int|
                0 <= k < n && !results[k] && v.pending.contains_key(#[trigger] op_client_id(ops[k]))
                    && v.pending[op_client_id(ops[k])].retry_budget > 1 ==> exists|j: int|
                    0 <= j < retries.len() && retries[j].client_order_id == op_client_id(ops[k])
                        && retries[j].action == v.pending[op_client_id(ops[k])].action
                        && retries[j].side == v.pending[op_client_id(ops[k])].side
        }),
{
    let n = results.len() as int;
    let ids = failed_ids(ops, results, n);
    let vs = successes_applied(v, ops, results, n, now_ms);
    lemma_failed_ids_members(ops, results, n);
    lemma_successes_applied(v, ops, results, n, now_ms);
    lemma_failures_fold_retries(vs, ids, now_ms);
    assert forall|k: int|
        0 <= k < n && !results[k] && v.pending.contains_key(#[trigger] op_client_id(ops[k]))
            && v.pending[op_client_id(ops[k])].retry_budget > 1 implies ids.contains(op_client_id(ops[k])) by {}
}

impl ExecutionState {
    fn retry_failures(&mut self, ids: &Vec<i64>, attempt: u8, now_ms: u64) -> (r: Option<(OrderDirective, u64)>)
        requires
            old(self)@.wf(),
            attempt < u8::MAX,
        ensures
            final(self)@.wf(),
            retry_outcome(old(self)@, ids@, attempt, now_ms, final(self)@, r),
    {
        let ghost v0: ExecutionView = self@;
        let mut retries: Vec<PendingOrder> = Vec::new();
        let mut i: usize = 0;
        while i < ids.len()
            invariant
                i <= ids@.len(),
                v0.wf(),
                self@.wf(),
                (self@, retries@) == failures_fold(v0, ids@.take(i as int), now_ms),
            decreases ids@.len() - i,
        {
            proof {
                assert(ids@.take(i + 1).drop_last() =~= ids@.take(i as int));
            }
            match self.record_submission_failure(ids[i], now_ms) {
                Some(p) => retries.push(p),
                None => {},
            }
            i = i + 1;
        }
        proof {
            assert(ids@.take(ids@.len() as int) =~= ids@);
            lemma_failures_fold(v0, ids@, now_ms);
        }
        if retries.len() == 0 {
            return None;
        }
        let ghost vf: ExecutionView = self@;
        let mut j: usize = 0;
        while j < retries.len()
            invariant
                j <= retries@.len(),
                vf.wf(),
                self@ == (ExecutionView { by_nonce: without_nonces(vf.by_nonce, retries@.take(j as int)), ..vf }),
            decreases retries@.len() - j,
        {
            proof {
                assert(retries@.take(j + 1).drop_last() =~= retries@.take(j as int));
            }
            match retries[j].nonce {
                Some(n) => {
                    self.pending_by_nonce.remove(&n);
                },
                None => {},
            }
            j = j + 1;
        }
        proof {
            assert(retries@.take(retries@.len() as int) =~= retries@);
        }
        let mut operations: Vec<OrderOperation> = Vec::new();
        let mut k: usize = 0;
        while k < retries.len()
            invariant
                k <= retries@.len(),
                operations@ == retries@.take(k as int).map_values(|p: PendingOrder| retry_op(p)),
            decreases retries@.len() - k,
        {
            let p: PendingOrder = retries[k];
            let op: OrderOperation = match p.action {
                PendingAction::Create { price_ticks } => OrderOperation::Place(OrderPlacement { side: p.side, price_ticks, client_order_id: p.client_order_id }),
                PendingAction::Cancel { order_index } => OrderOperation::Cancel(OrderCancel { side: p.side, order_index, client_order_id: p.client_order_id }),
            };
            operations.push(op);
            k = k + 1;
        }
        // the longest backoff among the retried orders still pending
        let mut longest: Option<u64> = None;
        let mut m: usize = 0;
        while m < operations.len()
            invariant
                m <= operations@.len(),
                operations@ == retries@.map_values(|p: PendingOrder| retry_op(p)),
                forall|t: int| 0 <= t < retries@.len() ==> !self@.pending.contains_key(#[trigger] retries@[t].client_order_id),
                longest is None,
            decreases operations@.len() - m,
        {
            let cid: i64 = operations[m].client_order_id();
            match self.pending_order(cid) {
                Some(p) => {
                    longest = Some(match longest {
                        Some(b) => if p.backoff_ms > b { p.backoff_ms } else { b },
                        None => p.backoff_ms,
                    });
                },
                None => {},
            }
            m = m + 1;
        }
        let backoff: u64 = match longest {
            Some(b) => b,
            None => INITIAL_BACKOFF_MS,
        };
        let id: u64 = self.next_directive_id();
        Some((OrderDirective::new(id, operations).with_attempt(attempt + 1), backoff))
    }

    /// Applies the per-operation results of a submitted batch: each success
    /// marks its side as just submitted; the failures are retried (see
    /// [`retry_outcome`]). More results than operations is an error, raised
    /// once the results that have an operation were applied.
    pub fn handle_batch_result(&mut self, batch: &SignedDirective, results: &Vec<bool>, now_ms: u64) -> (r: Result<Option<(OrderDirective, u64)>, ExecutionError>)
        requires
            old(self)@.wf(),
            batch.attempt < u8::MAX,
        ensures
            final(self)@.wf(),
            ({
                let ops = batch_ops(*batch);
                if results@.len() > ops.len() {
                    r == Err::<Option<(OrderDirective, u64)>, ExecutionError>(ExecutionError::ResultLengthMismatch)
                        && final(self)@ == successes_applied(old(self)@, ops, results@, ops.len() as int, now_ms)
                } else {
                    r matches Ok(x) && retry_outcome(
                        successes_applied(old(self)@, ops, results@, results@.len() as int, now_ms),
                        failed_ids(ops, results@, results@.len() as int),
                        batch.attempt,
                        now_ms,
                        final(self)@,
                        x,
                    )
                }
            }),
    {
        let ghost v0: ExecutionView = self@;
        let ghost ops: Seq<OrderOperation> = batch_ops(*batch);
        let mut failures: Vec<i64> = Vec::new();
        let mut idx: usize = 0;
        while idx < results.len()
            invariant
                idx <= results@.len(),
                idx <= batch.operations@.len(),
                ops == batch_ops(*batch),
                v0 == old(self)@,
                self@.wf(),
                self@ == successes_applied(v0, ops, results@, idx as int, now_ms),
                failures@ == failed_ids(ops, results@, idx as int),
            decreases results@.len() - idx,
        {
            if idx >= batch.operations.len() {
                return Err(ExecutionError::ResultLengthMismatch);
            }
            let op: OrderOperation = batch.operations[idx].operation;
            if results[idx] {
                self.record_submission(op.side(), now_ms);
            } else {
                failures.push(op.client_order_id());
            }
            idx = idx + 1;
        }
        Ok(self.retry_failures(&failures, batch.attempt, now_ms))
    }

    /// A batch that could not be sent at all: every operation failed.
    pub fn handle_batch_failure(&mut self, batch: &SignedDirective, now_ms: u64) -> (r: Option<(OrderDirective, u64)>)
        requires
            old(self)@.wf(),
            batch.attempt < u8::MAX,
        ensures
            final(self)@.wf(),
            retry_outcome(
                old(self)@,
                batch.operations@.map_values(|s: SignedOperation| op_client_id(s.operation)),
                batch.attempt,
                now_ms,
                final(self)@,
                r,
            ),
    {
        let mut ids: Vec<i64> = Vec::new();
        let mut i: usize = 0;
        while i < batch.operations.len()
            invariant
                i <= batch.operations@.len(),
                ids@ == batch.operations@.take(i as int).map_values(|s: SignedOperation| op_client_id(s.operation)),
            decreases batch.operations@.len() - i,
        {
            ids.push(batch.operations[i].operation.client_order_id());
            i = i + 1;
        }
        proof {
            assert(batch.operations@.take(batch.operations@.len() as int) =~= batch.operations@);
        }
        self.retry_failures(&ids, batch.attempt, now_ms)
    }
}

/// Every pending order still has an attempt number that may grow by two.
pub open spec fn attempts_bounded(v: ExecutionView) -> bool {
    forall|k: i64| #[trigger] v.pending.contains_key(k) ==> v.pending[k].attempts < u8::MAX - 1
}

/// One acknowledgement `(nonce, status)` (see `process_transaction_ack`):
/// the resulting state and, for a failed placement still worth retrying, the
/// retry as `(directive id, attempt, operation)`.
pub open spec fn ack_step(v: ExecutionView, nonce: i64, status: u32, now_ms: u64) -> (ExecutionView, Option<(u64, u8, OrderOperation)>) {
    if !v.by_nonce.contains_key(nonce) {
        (v, None)
    } else {
        let client_id = v.by_nonce[nonce].client_id;
        let v1 = ExecutionView { by_nonce: v.by_nonce.remove(nonce), ..v };
        if status != 1 {
            let (v2, r) = failure_step(v1, client_id, now_ms);
            match r {
                None => (v2, None),
                Some(p) => match p.action {
                    PendingAction::Create { price_ticks } => if p.retry_budget == 0 {
                        (v2, None)
                    } else {
                        let id = next_seq(v2.directive_seq);
                        (
                            ExecutionView { directive_seq: id, ..v2 },
                            Some((id, (p.attempts + 1) as u8, OrderOperation::Place(OrderPlacement { side: p.side, price_ticks, client_order_id: p.client_order_id }))),
                        )
                    },
                    PendingAction::Cancel { .. } => (v2.with_slot(p.side, slot_cleared(v2.slot(p.side), p.action, client_id)), None),
                },
            }
        } else if v1.pending.contains_key(client_id) {
            let o = v1.pending[client_id];
            let v2 = ExecutionView { pending: v1.pending.remove(client_id), ..v1 };
            (v2.with_slot(o.side, slot_cleared(v2.slot(o.side), o.action, client_id)), None)
        } else {
            (v1, None)
        }
    }
}

pub open spec fn ack_key(t: TransactionData) -> (i64, u32) {
    (t.nonce as i64, t.status)
}

pub open spec fn ack_fold(v: ExecutionView, acks: Seq<(i64, u32)>, now_ms: u64) -> (ExecutionView, Seq<(u64, u8, OrderOperation)>)
    decreases acks.len(),
{
    if acks.len() == 0 {
        (v, Seq::empty())
    } else {
        let (v1, ds) = ack_fold(v, acks.drop_last(), now_ms);
        let (v2, d) = ack_step(v1, acks.last().0, acks.last().1, now_ms);
        (v2, match d {
            Some(x) => ds.push(x),
            None => ds,
        })
    }
}

/// A failed acknowledgement (any status but 1) of a submitted placement
/// that has retries left after this attempt yields exactly one retry: the
/// next directive, one attempt further, placing the same side and price
/// under the same client id. With no retry left it yields none.
pub proof fn law_failed_ack_retries_placement(v: ExecutionView, nonce: i64, status: u32, now_ms: u64)
    requires
        v.wf(),
        attempts_bounded(v),
        status != 1,
        v.by_nonce.contains_key(nonce),
        v.pending.contains_key(v.by_nonce[nonce].client_id),
        v.pending[v.by_nonce[nonce].client_id].action is Create,
    ensures
        ({
            let cid = v.by_nonce[nonce].client_id;
            let o = v.pending[cid];
            let ds = ack_fold(v, seq![(nonce, status)], now_ms).1;
            &&& o.retry_budget > 1 ==> {
                &&& ds.len() == 1
                &&& ds[0].0 == next_seq(v.directive_seq)
                &&& ds[0].1 == o.attempts + 2
                &&& ds[0].2 == OrderOperation::Place(OrderPlacement {
                    side: o.side,
                    price_ticks: o.action->price_ticks,
                    client_order_id: cid,
                })
            }
            &&& o.retry_budget <= 1 ==> ds.len() == 0
        }),
{
    let acks = seq![(nonce, status)];
    assert(acks.drop_last() =~= Seq::<(i64, u32)>::empty());
    assert(ack_fold(v, acks.drop_last(), now_ms) == (v, Seq::<(u64, u8, OrderOperation)>::empty()));
    let cid = v.by_nonce[nonce].client_id;
    let o = v.pending[cid];
    let v1 = ExecutionView { by_nonce: v.by_nonce.remove(nonce), ..v };
    assert(v1.pending.contains_key(cid) && v1.pending[cid] == o);
    let (v2, r) = failure_step(v1, cid, now_ms);
    assert(o.attempts < u8::MAX - 1);
    if o.retry_budget > 1 {
        assert(r == Some(after_attempt(o, now_ms)));
    } else {
        assert(r is None);
    }
    assert(ack_fold(v, acks, now_ms).1 == match ack_step(v, nonce, status, now_ms).1 {
        Some(x) => Seq::<(u64, u8, OrderOperation)>::empty().push(x),
        None => Seq::<(u64, u8, OrderOperation)>::empty(),
    });
}

/// The directives match the `(id, attempt, operation)` triples one for one.
pub open spec fn directives_match(dirs: Seq<OrderDirective>, ds: Seq<(u64, u8, OrderOperation)>) -> bool {
    &&& dirs.len() == ds.len()
    &&& forall|k: int| 0 <= k < dirs.len() ==> (#[trigger] dirs[k]).id == ds[k].0 && dirs[k].attempt == ds[k].1
        && dirs[k].operations@ == seq![ds[k].2]
}

proof fn lemma_slot_registered_wf(slot: SlotView, action: PendingAction, id: i64)
    requires
        slot.wf(),
    ensures
        slot_registered(slot, action, id).wf(),
        slot_cleared(slot, action, id).wf(),
{
    lemma_without_no_duplicates(slot.pending_creates, id);
    lemma_without_no_duplicates(slot.pending_cancels, id);
    let sc = slot.pending_creates;
    let sx = slot.pending_cancels;
    if !sc.contains(id) {
        assert forall|a: int, b: int| 0 <= a < b < sc.len() + 1 implies sc.push(id)[a] != sc.push(id)[b] by {}
    }
    if !sx.contains(id) {
        assert forall|a: int, b: int| 0 <= a < b < sx.len() + 1 implies sx.push(id)[a] != sx.push(id)[b] by {}
    }
}

impl ExecutionState {
    /// Every pending order's attempt number can still grow by two.
    pub fn attempts_room(&self) -> (r: bool)
        ensures
            r == attempts_bounded(self@),
    {
        let keys = pending_keys(&self.pending_by_client);
        let mut i: usize = 0;
        while i < keys.len()
            invariant
                i <= keys@.len(),
                keys@.to_set() == self@.pending.dom(),
                forall|t: int| 0 <= t < i ==> self@.pending[#[trigger] keys@[t]].attempts < u8::MAX - 1,
            decreases keys@.len() - i,
        {
            match self.pending_order(keys[i]) {
                Some(p) => {
                    if p.attempts >= u8::MAX - 1 {
                        return false;
                    }
                },
                None => {},
            }
            i = i + 1;
        }
        assert forall|k: i64| #[trigger] self@.pending.contains_key(k) implies self@.pending[k].attempts < u8::MAX - 1 by {
            let t = choose|t: int| 0 <= t < keys@.len() && keys@[t] == k;
        }
        true
    }

    fn ack_one(&mut self, nonce: i64, status: u32, now_ms: u64) -> (r: Option<OrderDirective>)
        requires
            old(self)@.wf(),
            attempts_bounded(old(self)@),
        ensures
            final(self)@.wf(),
            attempts_bounded(final(self)@),
            ({
                let (v2, d) = ack_step(old(self)@, nonce, status, now_ms);
                &&& final(self)@ == v2
                &&& match d {
                    None => r is None,
                    Some(x) => r matches Some(dir) && dir.id == x.0 && dir.attempt == x.1 && dir.operations@ == seq![x.2],
                }
            }),
    {
        let entry: Option<PendingNonce> = self.pending_by_nonce.remove(&nonce);
        match entry {
            None => {
                assert(self.pending_by_nonce@ =~= old(self).pending_by_nonce@);
                None
            },
            Some(entry) => {
                let client_id: i64 = entry.client_id;
                if status != 1 {
                    let failed = self.record_submission_failure(client_id, now_ms);
                    match failed {
                        None => None,
                        Some(pending) => match pending.action {
                            PendingAction::Create { price_ticks } => {
                                if pending.exhausted() {
                                    return None;
                                }
                                let op = OrderOperation::Place(OrderPlacement {
                                    side: pending.side,
                                    price_ticks,
                                    client_order_id: pending.client_order_id,
                                });
                                let id: u64 = self.next_directive_id();
                                let mut ops: Vec<OrderOperation> = Vec::new();
                                ops.push(op);
                                Some(OrderDirective::new(id, ops).with_attempt(pending.attempts + 1))
                            },
                            PendingAction::Cancel { .. } => {
                                self.slot_clear(pending.side, pending.action, client_id);
                                None
                            },
                        },
                    }
                } else {
                    let removed: Option<PendingOrder> = self.pending_by_client.remove(&client_id);
                    match removed {
                        Some(order) => {
                            proof {
                                lemma_slot_registered_wf(self@.slot(order.side), order.action, client_id);
                            }
                            self.slot_clear(order.side, order.action, client_id);
                        },
                        None => {
                            assert(self.pending_by_client@ =~= old(self).pending_by_client@);
                        },
                    }
                    None
                }
            },
        }
    }

    /// Transaction acknowledgements, matched to pending orders by nonce. A
    /// success retires the pending order; a failure is recorded and a failed
    /// placement with retries left is planned again right away, while a
    /// failed cancel is dropped from its side's list.
    pub fn process_transaction_ack(&mut self, txs: &Vec<TransactionData>, now_ms: u64) -> (r: Vec<OrderDirective>)
        requires
            old(self)@.wf(),
            attempts_bounded(old(self)@),
        ensures
            final(self)@.wf(),
            ({
                let (v2, ds) = ack_fold(old(self)@, txs@.map_values(|t: TransactionData| ack_key(t)), now_ms);
                final(self)@ == v2 && directives_match(r@, ds)
            }),
    {
        let ghost v0: ExecutionView = self@;
        let ghost acks: Seq<(i64, u32)> = txs@.map_values(|t: TransactionData| ack_key(t));
        let mut out: Vec<OrderDirective> = Vec::new();
        let mut i: usize = 0;
        while i < txs.len()
            invariant
                i <= txs@.len(),
                acks == txs@.map_values(|t: TransactionData| ack_key(t)),
                self@.wf(),
                attempts_bounded(self@),
                ({
                    let (v2, ds) = ack_fold(v0, acks.take(i as int), now_ms);
                    self@ == v2 && directives_match(out@, ds)
                }),
            decreases txs@.len() - i,
        {
            proof {
                assert(acks.take(i + 1).drop_last() =~= acks.take(i as int));
            }
            let nonce: i64 = txs[i].nonce as i64;
            let status: u32 = txs[i].status;
            let ghost before: Seq<OrderDirective> = out@;
            match self.ack_one(nonce, status, now_ms) {
                Some(d) => {
                    out.push(d);
                },
                None => {},
            }
            i = i + 1;
        }
        proof {
            assert(acks.take(txs@.len() as int) =~= acks);
        }
        out
    }
}

/// Transaction type of an operation: placements create orders, cancels
/// cancel them.
pub open spec fn op_tx_type(op: OrderOperation) -> u8 {
    match op {
        OrderOperation::Place(_) => TX_TYPE_CREATE_ORDER,
        OrderOperation::Cancel(_) => TX_TYPE_CANCEL_ORDER,
    }
}

pub open spec fn txs_view(s: Seq<(u8, String)>) -> Seq<(u8, Seq<char>)> {
    s.map_values(|t: (u8, String)| (t.0, t.1@))
}

/// The transactions of a signed batch, in order: type and payload.
pub open spec fn batch_transactions_view(b: SignedDirective) -> Seq<(u8, Seq<char>)> {
    b.operations@.map_values(|op: SignedOperation| (op.tx_type, op.batch_entry.tx_info@))
}

impl ExecutionState {
    /// Notes an operation that was signed at `now_ms` with a nonce and key,
    /// and gives the signed operation to submit.
    pub fn record_signed(
        &mut self,
        operation: OrderOperation,
        batch_entry: BatchEntry,
        nonce: Option<i64>,
        api_key_index: Option<i32>,
        now_ms: u64,
    ) -> (r: SignedOperation)
        requires
            old(self)@.wf(),
        ensures
            final(self)@.wf(),
            final(self)@ == signature_tracked(old(self)@, op_client_id(operation), nonce, api_key_index, now_ms),
            r == (SignedOperation { operation, batch_entry, tx_type: op_tx_type(operation), api_key_index }),
    {
        let client_id = operation.client_order_id();
        self.track_signed_signature(client_id, nonce, api_key_index, now_ms);
        let tx_type: u8 = match operation {
            OrderOperation::Place(_) => TX_TYPE_CREATE_ORDER,
            OrderOperation::Cancel(_) => TX_TYPE_CANCEL_ORDER,
        };
        SignedOperation::new(operation, batch_entry, tx_type, api_key_index)
    }

    /// How a signed batch is to be submitted: not at all when it is empty or
    /// the state is a dry run; else awaiting its answer optimistically for
    /// 100 ms in optimistic mode, strictly otherwise.
    pub fn submission_mode(&self, batch: &SignedDirective) -> (r: Option<BatchAckMode>)
        ensures
            r == (if batch.operations@.len() == 0 || self@.dry_run {
                None
            } else if self@.fast_execution && self@.optimistic_acks {
                Some(BatchAckMode::Optimistic { wait_timeout_ms: FAST_MODE_TIMEOUT_MS })
            } else {
                Some(BatchAckMode::Strict)
            }),
    {
        if batch.operations.len() == 0 || self.dry_run {
            None
        } else if self.optimistic_mode() {
            Some(BatchAckMode::Optimistic { wait_timeout_ms: FAST_MODE_TIMEOUT_MS })
        } else {
            Some(BatchAckMode::Strict)
        }
    }
}

/// The transactions of a signed batch to send: type and payload of each
/// operation, in order.
pub fn batch_transactions(batch: &SignedDirective) -> (r: Vec<(u8, String)>)
    ensures
        txs_view(r@) == batch_transactions_view(*batch),
{
    let mut out: Vec<(u8, String)> = Vec::new();
    for i in 0..batch.operations.len()
        invariant
            txs_view(out@) == batch_transactions_view(*batch).take(i as int),
    {
        let op = &batch.operations[i];
        let ghost prev = out@;
        out.push((op.tx_type, op.batch_entry.tx_info.clone()));
        proof {
            assert(batch_transactions_view(*batch).take(i + 1) =~= batch_transactions_view(*batch).take(i as int).push(
                (op.tx_type, op.batch_entry.tx_info@),
            ));
        }
    }
    out
}

fn pending_keys(m: &HashMap<i64, PendingOrder>) -> (r: Vec<i64>)
    ensures
        r@.to_set() == m@.dom(),
        r@.no_duplicates(),
{
    let mut out: Vec<i64> = Vec::new();
    for k in it: m.keys()
        invariant
            out@ == it.seq().take(it.index() as int).unref(),
            it.seq() == vstd::std_specs::hash::spec_keys_iter(m).remaining(),
    {
        out.push(*k);
    }
    proof {
        let sq = vstd::std_specs::hash::spec_keys_iter(m).remaining();
        assert(out@ =~= sq.unref());
    }
    out
}


/// One order of an account orders update, as the exchange reports it. The
/// price is given in ticks of the market, already rounded for its side.
#[derive(Clone, Debug)]
pub struct AccountOrderSnapshot {
    pub order_index: Option<u64>,
    pub client_order_index: Option<i64>,
    pub market_index: Option<u32>,
    pub price_ticks: Option<i64>,
    pub is_ask: Option<bool>,
    pub status: Option<String>,
}

/// How a reported order status is treated.
#[derive(Clone, Copy, Debug, PartialEq, Eq, Structural)]
pub enum OrderStatusClass {
    /// `open`, `partial` or `partially_filled`: the order rests on the book.
    Open,
    /// `filled`, `cancelled` or `canceled`: the order left the book.
    Closed,
    /// Anything else, an absent status included.
    Other,
}

/// `s` equals `lit` once its ASCII capitals are lowered.
pub open spec fn lowered_eq(s: Seq<char>, lit: Seq<char>) -> bool {
    &&& s.len() == lit.len()
    &&& forall|j: int| 0 <= j < s.len() ==> lower_code(#[trigger] s[j]) == (lit[j] as u32) as int
}

pub open spec fn status_chars(status: Option<String>) -> Seq<char> {
    match status {
        Some(t) => t@,
        None => Seq::empty(),
    }
}

pub open spec fn status_class(s: Seq<char>) -> OrderStatusClass {
    if lowered_eq(s, "open"@) || lowered_eq(s, "partial"@) || lowered_eq(s, "partially_filled"@) {
        OrderStatusClass::Open
    } else if lowered_eq(s, "filled"@) || lowered_eq(s, "cancelled"@) || lowered_eq(s, "canceled"@) {
        OrderStatusClass::Closed
    } else {
        OrderStatusClass::Other
    }
}

/// Side of a reported order; ask when the report does not say.
pub open spec fn snapshot_side(o: AccountOrderSnapshot) -> OrderSide {
    match o.is_ask {
        Some(false) => OrderSide::Bid,
        _ => OrderSide::Ask,
    }
}

/// A reported order settles the pending order under its client id: a
/// pending placement, once the report carries a price, is reset (no nonce,
/// not superseded, initial backoff, full budget), leaves the side's pending
/// placements and makes the reported order the side's live order; a pending
/// cancel leaves the side's pending cancels and the pending table.
pub open spec fn pending_reconciled(v: ExecutionView, cid: i64, oi: u64, side: OrderSide, has_price: bool) -> ExecutionView {
    if !v.pending.contains_key(cid) {
        v
    } else {
        let p = v.pending[cid];
        let slot = v.slot(side);
        match p.action {
            PendingAction::Create { .. } => if has_price {
                ExecutionView {
                    pending: v.pending.insert(cid, PendingOrder {
                        nonce: None,
                        superseded: false,
                        backoff_ms: INITIAL_BACKOFF_MS,
                        retry_budget: MAX_RETRY_ATTEMPTS,
                        ..p
                    }),
                    ..v.with_slot(side, SlotView {
                        pending_creates: without_id(slot.pending_creates, cid),
                        live_order_index: Some(oi),
                        ..slot
                    })
                }
            } else {
                v
            },
            PendingAction::Cancel { .. } => ExecutionView {
                pending: v.pending.remove(cid),
                ..v.with_slot(side, SlotView { pending_cancels: without_id(slot.pending_cancels, cid), ..slot })
            },
        }
    }
}

/// The state after one reported order. Reports for another market, or
/// without an order index or a client index, change nothing. An open order
/// is recorded live (at price zero when the report has none), a closed one
/// is forgotten by order index and then by client id; then the pending order
/// under the client id is settled.
pub open spec fn reconcile_step(v: ExecutionView, o: AccountOrderSnapshot) -> ExecutionView {
    if o.market_index is Some && o.market_index->0 != (v.market.0 as u32) {
        v
    } else if o.order_index is None || o.client_order_index is None {
        v
    } else {
        let oi = o.order_index->0;
        let cid = o.client_order_index->0;
        let side = snapshot_side(o);
        let v1 = match status_class(status_chars(o.status)) {
            OrderStatusClass::Open => live_marked(v, LiveOrder {
                order_index: oi,
                client_order_id: cid,
                side,
                price_ticks: match o.price_ticks {
                    Some(t) => t,
                    None => 0,
                },
            }),
            OrderStatusClass::Closed => live_removed_by_client(live_removed_by_index(v, oi), cid),
            OrderStatusClass::Other => v,
        };
        pending_reconciled(v1, cid, oi, side, o.price_ticks is Some)
    }
}

/// The state after the reported orders, taken in order.
pub open spec fn reconcile_fold(v: ExecutionView, orders: Seq<AccountOrderSnapshot>) -> ExecutionView
    decreases orders.len(),
{
    if orders.len() == 0 {
        v
    } else {
        reconcile_step(reconcile_fold(v, orders.drop_last()), orders.last())
    }
}

/// A report that an order is filled or cancelled leaves neither its order
/// index nor its client id among the live orders; a report that it is open
/// makes it the live order under both.
pub proof fn law_reconcile_settles_live(v: ExecutionView, o: AccountOrderSnapshot)
    requires
        v.wf(),
        o.market_index is None || o.market_index->0 == (v.market.0 as u32),
        o.order_index is Some,
        o.client_order_index is Some,
    ensures
        status_class(status_chars(o.status)) is Closed ==> {
            &&& !reconcile_step(v, o).live.contains_key(o.order_index->0)
            &&& !reconcile_step(v, o).live_by_client.contains_key(o.client_order_index->0)
        },
        status_class(status_chars(o.status)) is Open ==> {
            &&& reconcile_step(v, o).live_by_client[o.client_order_index->0] == o.order_index->0
            &&& reconcile_step(v, o).live[o.order_index->0].client_order_id == o.client_order_index->0
            &&& reconcile_step(v, o).live[o.order_index->0].side == snapshot_side(o)
        },
{
}

/// A report carrying a price for the order behind a pending placement
/// settles that placement: its client id leaves the pending placements of
/// the reported side, and the reported order becomes that side's live
/// order, whatever the reported status.
pub proof fn law_reconcile_settles_pending_placement(v: ExecutionView, o: AccountOrderSnapshot)
    requires
        v.wf(),
        o.market_index is None || o.market_index->0 == (v.market.0 as u32),
        o.order_index is Some,
        o.client_order_index is Some,
        o.price_ticks is Some,
        v.pending.contains_key(o.client_order_index->0),
        v.pending[o.client_order_index->0].action is Create,
    ensures
        !reconcile_step(v, o).slot(snapshot_side(o)).pending_creates.contains(o.client_order_index->0),
        reconcile_step(v, o).slot(snapshot_side(o)).live_order_index == Some(o.order_index->0),
{
    let oi = o.order_index->0;
    let cid = o.client_order_index->0;
    let side = snapshot_side(o);
    let v1 = match status_class(status_chars(o.status)) {
        OrderStatusClass::Open => live_marked(v, LiveOrder {
            order_index: oi,
            client_order_id: cid,
            side,
            price_ticks: match o.price_ticks {
                Some(t) => t,
                None => 0,
            },
        }),
        OrderStatusClass::Closed => live_removed_by_client(live_removed_by_index(v, oi), cid),
        OrderStatusClass::Other => v,
    };
    assert(v1.pending == v.pending);
    assert(v1.slot(side).pending_creates == v.slot(side).pending_creates);
    lemma_without_no_duplicates(v1.slot(side).pending_creates, cid);
    assert(reconcile_step(v, o) == pending_reconciled(v1, cid, oi, side, true));
}

fn eq_lowered(s: &Vec<char>, lit: &Vec<char>) -> (r: bool)
    ensures
        r == lowered_eq(s@, lit@),
{
    if s.len() != lit.len() {
        return false;
    }
    let mut j: usize = 0;
    while j < s.len()
        invariant
            s.len() == lit.len(),
            j <= s.len(),
            forall|t: int| 0 <= t < j ==> lower_code(#[trigger] s@[t]) == (lit@[t] as u32) as int,
        decreases s.len() - j,
    {
        if lower_code_exec(s[j]) != lit[j] as u32 {
            return false;
        }
        j = j + 1;
    }
    true
}

/// Classifies a reported order status, ignoring ASCII case.
pub fn order_status_class(status: &Option<String>) -> (r: OrderStatusClass)
    ensures
        r == status_class(status_chars(*status)),
{
    let chars: Vec<char> = match status {
        Some(t) => str_chars(t.as_str()),
        None => Vec::new(),
    };
    if eq_lowered(&chars, &str_chars("open")) || eq_lowered(&chars, &str_chars("partial"))
        || eq_lowered(&chars, &str_chars("partially_filled")) {
        OrderStatusClass::Open
    } else if eq_lowered(&chars, &str_chars("filled")) || eq_lowered(&chars, &str_chars("cancelled"))
        || eq_lowered(&chars, &str_chars("canceled")) {
        OrderStatusClass::Closed
    } else {
        OrderStatusClass::Other
    }
}

impl ExecutionState {
    fn reconcile_pending(&mut self, cid: i64, oi: u64, side: OrderSide, has_price: bool)
        requires
            old(self)@.wf(),
        ensures
            final(self)@.wf(),
            final(self)@ == pending_reconciled(old(self)@, cid, oi, side, has_price),
    {
        let found: Option<PendingOrder> = match self.pending_by_client.get(&cid) {
            Some(p) => Some(*p),
            None => None,
        };
        match found {
            Some(mut p) => {
                match p.action {
                    PendingAction::Create { .. } => {
                        if has_price {
                            p.set_nonce(None);
                            p.superseded = false;
                            p.backoff_ms = INITIAL_BACKOFF_MS;
                            p.retry_budget = MAX_RETRY_ATTEMPTS;
                            self.pending_by_client.insert(cid, p);
                            self.slot_clear(side, p.action, cid);
                            self.slot_set_live_index(side, Some(oi));
                        }
                    },
                    PendingAction::Cancel { .. } => {
                        self.slot_clear(side, p.action, cid);
                        self.pending_by_client.remove(&cid);
                    },
                }
            },
            None => {},
        }
    }

    fn reconcile_one(&mut self, o: &AccountOrderSnapshot)
        requires
            old(self)@.wf(),
        ensures
            final(self)@.wf(),
            final(self)@ == reconcile_step(old(self)@, *o),
    {
        let target: u32 = self.market.0 as u32;
        if let Some(m) = o.market_index {
            if m != target {
                return;
            }
        }
        match (o.order_index, o.client_order_index) {
            (Some(oi), Some(cid)) => {
                let side: OrderSide = match o.is_ask {
                    Some(b) => OrderSide::from_is_ask(b),
                    None => OrderSide::Ask,
                };
                match order_status_class(&o.status) {
                    OrderStatusClass::Open => {
                        let price_ticks: i64 = match o.price_ticks {
                            Some(t) => t,
                            None => 0,
                        };
                        self.mark_live(LiveOrder { order_index: oi, client_order_id: cid, side, price_ticks });
                    },
                    OrderStatusClass::Closed => {
                        self.remove_live_by_index(oi);
                        self.remove_live_by_client(cid);
                    },
                    OrderStatusClass::Other => {},
                }
                self.reconcile_pending(cid, oi, side, o.price_ticks.is_some());
            },
            _ => {},
        }
    }

    /// Brings the state in line with an account orders update, one reported
    /// order after the other.
    pub fn reconcile_account_orders(&mut self, orders: &Vec<AccountOrderSnapshot>)
        requires
            old(self)@.wf(),
        ensures
            final(self)@.wf(),
            final(self)@ == reconcile_fold(old(self)@, orders@),
    {
        let ghost v0 = self@;
        let mut i: usize = 0;
        while i < orders.len()
            invariant
                i <= orders.len(),
                self@.wf(),
                self@ == reconcile_fold(v0, orders@.take(i as int)),
            decreases orders.len() - i,
        {
            self.reconcile_one(&orders[i]);
            proof {
                assert(orders@.take(i + 1).drop_last() =~= orders@.take(i as int));
            }
            i = i + 1;
        }
        proof {
            assert(orders@.take(orders.len() as int) =~= orders@);
        }
    }
}

} // verus!
