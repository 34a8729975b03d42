//! Per-side participation bookkeeping of the market maker: pauses and kill
//! switches with their deadlines, the fills of the last second, and the
//! number of fills in each one-second bucket. Times are milliseconds of a
//! monotonic clock.
use std::collections::VecDeque;
use vstd::prelude::*;

verus! {

/// Side of a fill.
#[derive(Clone, Copy, Debug, PartialEq, Eq, Structural)]
pub enum FillSide {
    Bid,
    Ask,
}

/// Fills older than this, relative to the newest one, leave the window.
pub const SAME_SIDE_WINDOW_MS: u64 = 1_000;
/// Length of a fill-rate bucket.
pub const BUCKET_MS: u64 = 1_000;
/// How many completed buckets are kept.
pub const MAX_FILL_RATE_SAMPLES: usize = 120;

/// `s` with `value` appended, after dropping its oldest entry when it holds
/// `max` entries or more.
pub open spec fn capped_push<T>(s: Seq<T>, value: T, max: nat) -> Seq<T> {
    if s.len() >= max && s.len() > 0 {
        s.drop_first().push(value)
    } else {
        s.push(value)
    }
}

/// Appends to a bounded queue, dropping the oldest entry first when it is
/// full.
pub fn push_capped<T>(deque: &mut VecDeque<T>, value: T, max: usize)
    ensures
        final(deque)@ == capped_push(old(deque)@, value, max as nat),
{
    if deque.len() >= max {
        let _ = deque.pop_front();
    }
    deque.push_back(value);
    proof {
        let o = old(deque)@;
    }
}

/// Milliseconds from `earlier` to `later`, zero when `later` is earlier.
pub open spec fn elapsed(later: u64, earlier: u64) -> int {
    if later >= earlier {
        later - earlier
    } else {
        0
    }
}

/// The fill times still within one second of `now`: older ones are dropped
/// from the front.
pub open spec fn trim_window(s: Seq<u64>, now: u64) -> Seq<u64>
    decreases s.len(),
{
    if s.len() > 0 && elapsed(now, s[0]) > SAME_SIDE_WINDOW_MS {
        trim_window(s.drop_first(), now)
    } else {
        s
    }
}

/// Bookkeeping of one side.
pub struct SideState {
    paused_until: Option<u64>,
    kill_until: Option<u64>,
    fills_last_sec: VecDeque<u64>,
    current_bucket_start: Option<u64>,
    current_bucket_count: u32,
    fills_per_second: VecDeque<u32>,
}

pub struct SideView {
    pub paused_until: Option<u64>,
    pub kill_until: Option<u64>,
    pub fills: Seq<u64>,
    pub bucket_start: Option<u64>,
    pub bucket_count: u32,
    pub rates: Seq<u32>,
}

impl View for SideState {
    type V = SideView;

    closed spec fn view(&self) -> SideView {
        SideView {
            paused_until: self.paused_until,
            kill_until: self.kill_until,
            fills: self.fills_last_sec@,
            bucket_start: self.current_bucket_start,
            bucket_count: self.current_bucket_count,
            rates: self.fills_per_second@,
        }
    }
}

/// A deadline raised to `until` unless it is already later.
pub open spec fn extended(deadline: Option<u64>, until: u64) -> Option<u64> {
    match deadline {
        Some(orig) => if orig > until {
            Some(orig)
        } else {
            Some(until)
        },
        None => Some(until),
    }
}

/// A deadline is still ahead of `now`.
pub open spec fn before(deadline: Option<u64>, now: u64) -> bool {
    match deadline {
        Some(t) => now < t,
        None => false,
    }
}

/// The completed buckets after closing the current one: a non-empty
/// current bucket joins them (the oldest dropped past 120) and the current
/// count restarts at zero.
pub open spec fn bucket_closed(v: SideView) -> SideView {
    SideView {
        rates: if v.bucket_count > 0 {
            capped_push(v.rates, v.bucket_count, MAX_FILL_RATE_SAMPLES as nat)
        } else {
            v.rates
        },
        bucket_count: 0,
        ..v
    }
}

/// The buckets after a fill at `ts`: the first fill opens a bucket, a fill
/// a second or more after the bucket opened closes it and opens a new one,
/// any other fill is counted in the current bucket.
pub open spec fn bucket_after_fill(v: SideView, ts: u64) -> SideView {
    match v.bucket_start {
        Some(start) => if elapsed(ts, start) >= BUCKET_MS {
            SideView { bucket_start: Some(ts), bucket_count: 1, ..bucket_closed(v) }
        } else {
            SideView { bucket_count: (v.bucket_count + 1) as u32, ..v }
        },
        None => SideView { bucket_start: Some(ts), bucket_count: 1, ..v },
    }
}

/// The side after a fill at `ts`.
pub open spec fn after_fill(v: SideView, ts: u64) -> SideView {
    bucket_after_fill(SideView { fills: trim_window(v.fills.push(ts), ts), ..v }, ts)
}

impl SideState {
    pub fn new() -> (r: Self)
        ensures
            r@ == (SideView {
                paused_until: None,
                kill_until: None,
                fills: Seq::empty(),
                bucket_start: None,
                bucket_count: 0,
                rates: Seq::empty(),
            }),
    {
        SideState {
            paused_until: None,
            kill_until: None,
            fills_last_sec: VecDeque::new(),
            current_bucket_start: None,
            current_bucket_count: 0,
            fills_per_second: VecDeque::new(),
        }
    }

    /// Fills counted in the current bucket.
    pub fn bucket_count(&self) -> (r: u32)
        ensures
            r == self@.bucket_count,
    {
        self.current_bucket_count
    }

    /// Number of fills within the last second.
    pub fn fills_last_sec(&self) -> (r: usize)
        ensures
            r == self@.fills.len(),
    {
        self.fills_last_sec.len()
    }

    /// Records a fill at `ts`: it joins the window of the last second (older
    /// fills leave it) and is counted in the fill-rate buckets.
    pub fn record_fill(&mut self, timestamp: u64)
        requires
            old(self)@.bucket_count < u32::MAX,
        ensures
            final(self)@ == after_fill(old(self)@, timestamp),
    {
        self.fills_last_sec.push_back(timestamp);
        loop
            invariant
                trim_window(self.fills_last_sec@, timestamp) == trim_window(old(self)@.fills.push(timestamp), timestamp),
                self.paused_until == old(self)@.paused_until,
                self.kill_until == old(self)@.kill_until,
                self.current_bucket_start == old(self)@.bucket_start,
                self.current_bucket_count == old(self)@.bucket_count,
                self.fills_per_second@ == old(self)@.rates,
            ensures
                self.fills_last_sec@ == trim_window(old(self)@.fills.push(timestamp), timestamp),
                self.paused_until == old(self)@.paused_until,
                self.kill_until == old(self)@.kill_until,
                self.current_bucket_start == old(self)@.bucket_start,
                self.current_bucket_count == old(self)@.bucket_count,
                self.fills_per_second@ == old(self)@.rates,
            decreases self.fills_last_sec@.len(),
        {
            if self.fills_last_sec.len() == 0 {
                break;
            }
            let front: u64 = self.fills_last_sec[0];
            let age: u64 = if timestamp >= front { timestamp - front } else { 0 };
            if age > SAME_SIDE_WINDOW_MS {
                let ghost before = self.fills_last_sec@;
                let _ = self.fills_last_sec.pop_front();
            } else {
                break;
            }
        }
        self.update_per_second(timestamp);
    }

    /// Pauses the side until `until`, unless it is already paused longer.
    pub fn enforce_pause(&mut self, until: u64)
        ensures
            final(self)@ == (SideView { paused_until: extended(old(self)@.paused_until, until), ..old(self)@ }),
    {
        match self.paused_until {
            Some(orig) if orig > until => {},
            _ => self.paused_until = Some(until),
        }
    }

    /// Stops the side until `until`, unless it is already stopped longer.
    pub fn enforce_kill(&mut self, until: u64)
        ensures
            final(self)@ == (SideView { kill_until: extended(old(self)@.kill_until, until), ..old(self)@ }),
    {
        match self.kill_until {
            Some(orig) if orig > until => {},
            _ => self.kill_until = Some(until),
        }
    }

    /// The side may not quote at `now`: stopped or paused.
    pub fn is_blocked(&self, now: u64) -> (r: bool)
        ensures
            r == (before(self@.kill_until, now) || before(self@.paused_until, now)),
    {
        let killed: bool = match self.kill_until {
            Some(t) => now < t,
            None => false,
        };
        let paused: bool = match self.paused_until {
            Some(t) => now < t,
            None => false,
        };
        killed || paused
    }

    pub fn is_kill_active(&self, now: u64) -> (r: bool)
        ensures
            r == before(self@.kill_until, now),
    {
        match self.kill_until {
            Some(t) => now < t,
            None => false,
        }
    }

    /// Counts a fill at `ts` in the fill-rate buckets.
    pub fn update_per_second(&mut self, timestamp: u64)
        requires
            old(self)@.bucket_count < u32::MAX,
        ensures
            final(self)@ == bucket_after_fill(old(self)@, timestamp),
    {
        match self.current_bucket_start {
            Some(start) => {
                let age: u64 = if timestamp >= start { timestamp - start } else { 0 };
                if age >= BUCKET_MS {
                    self.push_bucket();
                    self.current_bucket_start = Some(timestamp);
                    self.current_bucket_count = 1;
                } else {
                    self.current_bucket_count = self.current_bucket_count + 1;
                }
            },
            None => {
                self.current_bucket_start = Some(timestamp);
                self.current_bucket_count = 1;
            },
        }
    }

    /// Closes the current bucket.
    pub fn push_bucket(&mut self)
        ensures
            final(self)@ == bucket_closed(old(self)@),
    {
        if self.current_bucket_count > 0 {
            push_capped(&mut self.fills_per_second, self.current_bucket_count, MAX_FILL_RATE_SAMPLES);
        }
        self.current_bucket_count = 0;
    }

    /// The fill counts per second to take a percentile of: the completed
    /// buckets, then the current one when it holds fills.
    pub fn rate_samples(&self) -> (r: Vec<u32>)
        ensures
            r@ == (if self@.bucket_count > 0 { self@.rates.push(self@.bucket_count) } else { self@.rates }),
    {
        let mut out: Vec<u32> = Vec::new();
        let n: usize = self.fills_per_second.len();
        for i in 0..n
            invariant
                n == self.fills_per_second@.len(),
                out@ == self.fills_per_second@.take(i as int),
        {
            out.push(self.fills_per_second[i]);
        }
        if self.current_bucket_count > 0 {
            out.push(self.current_bucket_count);
        }
        out
    }
}

/// With fill times that never go backwards, the window of the last second
/// after a fill at `now` ends with that fill and holds only fills at most
/// one second older.
pub proof fn law_window_recent(s: Seq<u64>, now: u64)
    requires
        forall|i: int, j: int| 0 <= i <= j < s.len() ==> s[i] <= s[j],
        forall|i: int| 0 <= i < s.len() ==> s[i] <= now,
    ensures
        trim_window(s.push(now), now).len() > 0,
        trim_window(s.push(now), now).last() == now,
        forall|i: int|
            0 <= i < trim_window(s.push(now), now).len() ==> elapsed(now, #[trigger] trim_window(s.push(now), now)[i])
                <= SAME_SIDE_WINDOW_MS,
{
    let t = s.push(now);
    lemma_trim_suffix(t, now);
    let k = lemma_trim_is_suffix(t, now);
    let w = trim_window(t, now);
    assert forall|i: int| 0 <= i < w.len() implies elapsed(now, #[trigger] w[i]) <= SAME_SIDE_WINDOW_MS by {}
}

proof fn lemma_trim_is_suffix(s: Seq<u64>, now: u64) -> (k: int)
    ensures
        0 <= k <= s.len(),
        trim_window(s, now) == s.subrange(k, s.len() as int),
    decreases s.len(),
{
    if s.len() > 0 && elapsed(now, s[0]) > SAME_SIDE_WINDOW_MS {
        let k0 = lemma_trim_is_suffix(s.drop_first(), now);
        k0 + 1
    } else {
        0
    }
}

proof fn lemma_trim_suffix(s: Seq<u64>, now: u64)
    requires
        s.len() > 0,
        s.last() == now,
    ensures
        trim_window(s, now).len() > 0,
        trim_window(s, now).last() == now,
        elapsed(now, trim_window(s, now)[0]) <= SAME_SIDE_WINDOW_MS,
    decreases s.len(),
{
    if s.len() > 0 && elapsed(now, s[0]) > SAME_SIDE_WINDOW_MS {
        lemma_trim_suffix(s.drop_first(), now);
    }
}

/// Pauses only ever lengthen: after enforcing a pause the side is paused at
/// least until the later of the old deadline and the new one.
pub proof fn law_pause_monotone(d: Option<u64>, until: u64, now: u64)
    ensures
        before(d, now) ==> before(extended(d, until), now),
        now < until ==> before(extended(d, until), now),
{
}

} // verus!
