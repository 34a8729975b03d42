//! Nonce bookkeeping per API key. Keys of a range are used in turn; each
//! key's last used nonce is tracked, either counted up locally (optimistic)
//! or taken from the exchange before each use. Fetching from the exchange is
//! the caller's part: the state only records what was fetched.
use crate::decimal::{int_text, push_int_text, str_chars, string_from_chars};
use crate::errors::SignerClientError;
use std::collections::HashMap;
use vstd::prelude::*;

verus! {

broadcast use vstd::std_specs::hash::group_hash_axioms;

/// How nonces are obtained.
#[derive(Clone, Copy, Debug, PartialEq, Eq, Structural)]
pub enum NonceManagerType {
    /// Fetched once per key, then counted up locally.
    Optimistic,
    /// Fetched from the exchange before every use.
    Api,
}

/// Highest API key index plus one.
pub const API_KEY_LIMIT: i32 = 255;

/// A key range the exchange accepts: `0 <= start <= end < 255`.
pub open spec fn valid_key_range(start: i32, end: i32) -> bool {
    0 <= start <= end < API_KEY_LIMIT
}

/// The key used after `current`: the next one, wrapping to `start` past
/// `end`.
pub open spec fn next_key(current: i32, start: i32, end: i32) -> i32 {
    if current + 1 > end {
        start
    } else {
        (current + 1) as i32
    }
}

/// The key reached from `current` after `k` turns.
pub open spec fn key_after(current: i32, start: i32, end: i32, k: nat) -> i32
    decreases k,
{
    if k == 0 {
        current
    } else {
        next_key(key_after(current, start, end, (k - 1) as nat), start, end)
    }
}

pub open spec fn range_error_text(start: i32, end: i32) -> Seq<char> {
    "invalid api key range start="@ + int_text(start as int) + " end="@ + int_text(end as int)
}

/// Checks an API key range before anything is fetched for it.
pub fn validate_key_range(start: i32, end: i32) -> (r: Result<(), SignerClientError>)
    ensures
        valid_key_range(start, end) ==> r is Ok,
        !valid_key_range(start, end) ==> (r matches Err(SignerClientError::Nonce(m)) && m@ == range_error_text(
            start,
            end,
        )),
{
    if start > end || start < 0 || end >= API_KEY_LIMIT {
        let mut text = str_chars("invalid api key range start=");
        push_int_text(start as i128, &mut text);
        let mut tail = str_chars(" end=");
        text.append(&mut tail);
        push_int_text(end as i128, &mut text);
        return Err(SignerClientError::Nonce(string_from_chars(&text)));
    }
    Ok(())
}

/// Nonce state of an account over a range of API keys.
pub struct NonceState {
    account_index: i64,
    start_api_key: i32,
    end_api_key: i32,
    current_api_key: i32,
    nonce: HashMap<i32, i64>,
}

pub struct NonceView {
    pub account_index: i64,
    pub start: i32,
    pub end: i32,
    pub current: i32,
    /// Last nonce used per key.
    pub nonces: Map<i32, i64>,
}

impl NonceView {
    /// The range is valid, the current key lies in it and every key of the
    /// range has a nonce.
    pub open spec fn wf(self) -> bool {
        &&& valid_key_range(self.start, self.end)
        &&& self.start <= self.current <= self.end
        &&& forall|k: i32| self.start <= k <= self.end ==> #[trigger] self.nonces.contains_key(k)
    }
}

impl View for NonceState {
    type V = NonceView;

    closed spec fn view(&self) -> NonceView {
        NonceView {
            account_index: self.account_index,
            start: self.start_api_key,
            end: self.end_api_key,
            current: self.current_api_key,
            nonces: self.nonce@,
        }
    }
}

/// The nonces fetched for the keys `start..=end`, in order, each lowered by
/// one: the value fetched is the next nonce to use, the state keeps the last
/// one used.
pub open spec fn fetched_nonces(start: i32, fetched: Seq<i64>) -> Map<i32, i64> {
    Map::new(
        |k: i32| start <= k < start + fetched.len(),
        |k: i32| (fetched[k - start] - 1) as i64,
    )
}

/// Every fetched nonce can be lowered by one.
pub open spec fn fetched_in_range(fetched: Seq<i64>) -> bool {
    forall|i: int| 0 <= i < fetched.len() ==> #[trigger] fetched[i] > i64::MIN
}

impl NonceState {
    /// The state after fetching the next nonce of every key of a valid
    /// range: each key keeps its fetched nonce minus one, and the current key
    /// is the last of the range, so that the first key used is the first.
    pub fn from_fetched(account_index: i64, start: i32, end: i32, fetched: &Vec<i64>) -> (r: Self)
        requires
            valid_key_range(start, end),
            fetched@.len() == end - start + 1,
            fetched_in_range(fetched@),
        ensures
            r@.wf(),
            r@ == (NonceView {
                account_index,
                start,
                end,
                current: end,
                nonces: fetched_nonces(start, fetched@),
            }),
    {
        let mut nonce: HashMap<i32, i64> = HashMap::new();
        let mut i: usize = 0;
        while i < fetched.len()
            invariant
                valid_key_range(start, end),
                fetched@.len() == end - start + 1,
                fetched_in_range(fetched@),
                i <= fetched@.len(),
                nonce@ == fetched_nonces(start, fetched@.take(i as int)),
            decreases fetched.len() - i,
        {
            let key: i32 = start + i as i32;
            let value: i64 = fetched[i] - 1;
            nonce.insert(key, value);
            i = i + 1;
        }
        proof {
            assert(fetched@.take(fetched@.len() as int) =~= fetched@);
        }
        NonceState { account_index, start_api_key: start, end_api_key: end, current_api_key: end, nonce }
    }

    pub fn account_index(&self) -> (r: i64)
        ensures
            r == self@.account_index,
    {
        self.account_index
    }

    pub fn current_api_key(&self) -> (r: i32)
        ensures
            r == self@.current,
    {
        self.current_api_key
    }

    /// The key the next use will take, without moving to it.
    pub fn peek_next_api_key(&self) -> (r: i32)
        requires
            self@.wf(),
        ensures
            r == next_key(self@.current, self@.start, self@.end),
    {
        if self.current_api_key + 1 > self.end_api_key {
            self.start_api_key
        } else {
            self.current_api_key + 1
        }
    }

    pub fn nonce_of(&self, api_key_index: i32) -> (r: Option<i64>)
        ensures
            r == (if self@.nonces.contains_key(api_key_index) { Some(self@.nonces[api_key_index]) } else { None }),
    {
        match self.nonce.get(&api_key_index) {
            Some(v) => Some(*v),
            None => None,
        }
    }

    /// Moves to the next key of the range, wrapping around, and returns it.
    pub fn increment_current_api_key(&mut self) -> (r: i32)
        requires
            old(self)@.wf(),
        ensures
            r == next_key(old(self)@.current, old(self)@.start, old(self)@.end),
            final(self)@ == (NonceView { current: r, ..old(self)@ }),
            final(self)@.wf(),
    {
        self.current_api_key = self.current_api_key + 1;
        if self.current_api_key > self.end_api_key {
            self.current_api_key = self.start_api_key;
        }
        self.current_api_key
    }

    /// Records a nonce fetched anew for a key: the key's last used nonce is
    /// the fetched one minus one.
    pub fn apply_refreshed_nonce(&mut self, api_key_index: i32, fetched: i64)
        requires
            old(self)@.wf(),
            fetched > i64::MIN,
        ensures
            final(self)@ == (NonceView { nonces: old(self)@.nonces.insert(api_key_index, (fetched - 1) as i64), ..old(self)@ }),
            final(self)@.wf(),
    {
        self.nonce.insert(api_key_index, fetched - 1);
    }

    /// A signed transaction was not accepted: its key's nonce goes back by
    /// one, so the nonce is used again. Unknown keys change nothing.
    pub fn acknowledge_failure(&mut self, api_key_index: i32)
        requires
            old(self)@.wf(),
            old(self)@.nonces.contains_key(api_key_index) ==> old(self)@.nonces[api_key_index] > i64::MIN,
        ensures
            final(self)@ == released(old(self)@, api_key_index),
            final(self)@.wf(),
    {
        let found: Option<i64> = match self.nonce.get(&api_key_index) {
            Some(v) => Some(*v),
            None => None,
        };
        if let Some(v) = found {
            self.nonce.insert(api_key_index, v - 1);
        }
    }

    fn record_nonce(&mut self, api_key_index: i32, value: i64)
        requires
            old(self)@.wf(),
        ensures
            final(self)@ == (NonceView { nonces: old(self)@.nonces.insert(api_key_index, value), ..old(self)@ }),
            final(self)@.wf(),
    {
        self.nonce.insert(api_key_index, value);
    }
}

/// The state after a failure on a key: its nonce goes back by one.
pub open spec fn released(v: NonceView, key: i32) -> NonceView {
    if v.nonces.contains_key(key) {
        NonceView { nonces: v.nonces.insert(key, (v.nonces[key] - 1) as i64), ..v }
    } else {
        v
    }
}

/// One optimistic use: the next key is taken and its nonce counted up by
/// one; that key and nonce are returned.
pub open spec fn optimistic_step(v: NonceView) -> (NonceView, (i32, i64)) {
    let key = next_key(v.current, v.start, v.end);
    let n = (v.nonces[key] + 1) as i64;
    (NonceView { current: key, nonces: v.nonces.insert(key, n), ..v }, (key, n))
}

/// The nonce of the next key can be counted up.
pub open spec fn can_count_up(v: NonceView) -> bool {
    let k = next_key(v.current, v.start, v.end);
    v.nonces.contains_key(k) ==> v.nonces[k] < i64::MAX
}

/// Nonces counted up locally after one fetch per key.
pub struct OptimisticNonceManager {
    state: NonceState,
}

impl View for OptimisticNonceManager {
    type V = NonceView;

    closed spec fn view(&self) -> NonceView {
        self.state@
    }
}

impl OptimisticNonceManager {
    pub fn new(state: NonceState) -> (r: Self)
        requires
            state@.wf(),
        ensures
            r@ == state@,
    {
        OptimisticNonceManager { state }
    }

    pub fn state(&self) -> (r: &NonceState)
        ensures
            r@ == self@,
    {
        &self.state
    }

    /// The next key and its next nonce. The key's nonce is counted up; a key
    /// without a nonce is an error (it cannot happen on a valid state).
    pub fn next_nonce(&mut self) -> (r: Result<(i32, i64), SignerClientError>)
        requires
            old(self)@.wf(),
            can_count_up(old(self)@),
        ensures
            final(self)@.wf(),
            r == Ok::<(i32, i64), SignerClientError>(optimistic_step(old(self)@).1),
            final(self)@ == optimistic_step(old(self)@).0,
    {
        let key = self.state.increment_current_api_key();
        match self.state.nonce_of(key) {
            Some(v) => {
                let n: i64 = v + 1;
                self.state.record_nonce(key, n);
                Ok((key, n))
            },
            None => {
                let mut text = str_chars("missing nonce for api key ");
                push_int_text(key as i128, &mut text);
                Err(SignerClientError::Nonce(string_from_chars(&text)))
            },
        }
    }

    /// Records a nonce fetched anew for a key.
    pub fn apply_hard_refresh(&mut self, api_key_index: i32, fetched: i64)
        requires
            old(self)@.wf(),
            fetched > i64::MIN,
        ensures
            final(self)@ == (NonceView {
                nonces: old(self)@.nonces.insert(api_key_index, (fetched - 1) as i64),
                ..old(self)@
            }),
            final(self)@.wf(),
    {
        self.state.apply_refreshed_nonce(api_key_index, fetched);
    }

    pub fn acknowledge_failure(&mut self, api_key_index: i32)
        requires
            old(self)@.wf(),
            old(self)@.nonces.contains_key(api_key_index) ==> old(self)@.nonces[api_key_index]
                > i64::MIN,
        ensures
            final(self)@ == released(old(self)@, api_key_index),
            final(self)@.wf(),
    {
        self.state.acknowledge_failure(api_key_index);
    }
}

/// Nonces fetched from the exchange before every use.
pub struct ApiNonceManager {
    state: NonceState,
}

impl View for ApiNonceManager {
    type V = NonceView;

    closed spec fn view(&self) -> NonceView {
        self.state@
    }
}

impl ApiNonceManager {
    pub fn new(state: NonceState) -> (r: Self)
        requires
            state@.wf(),
        ensures
            r@ == state@,
    {
        ApiNonceManager { state }
    }

    pub fn state(&self) -> (r: &NonceState)
        ensures
            r@ == self@,
    {
        &self.state
    }

    /// The key whose nonce is to be fetched next.
    pub fn next_api_key(&mut self) -> (r: i32)
        requires
            old(self)@.wf(),
        ensures
            r == next_key(old(self)@.current, old(self)@.start, old(self)@.end),
            final(self)@ == (NonceView { current: r, ..old(self)@ }),
            final(self)@.wf(),
    {
        self.state.increment_current_api_key()
    }

    /// Records the nonce fetched for a key and hands the pair out.
    pub fn record_fetched_nonce(&mut self, api_key_index: i32, nonce: i64) -> (r: (i32, i64))
        requires
            old(self)@.wf(),
        ensures
            r == (api_key_index, nonce),
            final(self)@ == (NonceView { nonces: old(self)@.nonces.insert(api_key_index, nonce), ..old(self)@ }),
            final(self)@.wf(),
    {
        self.state.record_nonce(api_key_index, nonce);
        (api_key_index, nonce)
    }

    /// Records a nonce fetched anew for a key.
    pub fn apply_hard_refresh(&mut self, api_key_index: i32, fetched: i64)
        requires
            old(self)@.wf(),
            fetched > i64::MIN,
        ensures
            final(self)@ == (NonceView {
                nonces: old(self)@.nonces.insert(api_key_index, (fetched - 1) as i64),
                ..old(self)@
            }),
            final(self)@.wf(),
    {
        self.state.apply_refreshed_nonce(api_key_index, fetched);
    }

    pub fn acknowledge_failure(&mut self, api_key_index: i32)
        requires
            old(self)@.wf(),
            old(self)@.nonces.contains_key(api_key_index) ==> old(self)@.nonces[api_key_index]
                > i64::MIN,
        ensures
            final(self)@ == released(old(self)@, api_key_index),
            final(self)@.wf(),
    {
        self.state.acknowledge_failure(api_key_index);
    }
}

/// Keys are used in turn: from any key of the range, after `k` turns the
/// key is the one `k` places further, counting around the range; so every
/// key met lies in the range and after as many turns as the range has keys
/// the same key comes again.
pub proof fn law_keys_cycle(current: i32, start: i32, end: i32, k: nat)
    requires
        valid_key_range(start, end),
        start <= current <= end,
    ensures
        start <= key_after(current, start, end, k) <= end,
        key_after(current, start, end, k) == start + ((current - start + k) % (end - start + 1)),
        key_after(current, start, end, (end - start + 1) as nat) == current,
{
    let n: int = end - start + 1;
    lemma_key_after_mod(current, start, end, k);
    vstd::arithmetic::div_mod::lemma_mod_bound(current - start + k, n);
    lemma_key_after_mod(current, start, end, n as nat);
    vstd::arithmetic::div_mod::lemma_fundamental_div_mod_converse(current - start + n, n, 1, current - start);
}

proof fn lemma_key_after_mod(current: i32, start: i32, end: i32, k: nat)
    requires
        valid_key_range(start, end),
        start <= current <= end,
    ensures
        key_after(current, start, end, k) == start + ((current - start + k) % (end - start + 1)),
    decreases k,
{
    let n: int = end - start + 1;
    if k == 0 {
        vstd::arithmetic::div_mod::lemma_fundamental_div_mod_converse(current - start, n, 0, current - start);
    } else {
        lemma_key_after_mod(current, start, end, (k - 1) as nat);
        let a: int = current - start + k - 1;
        let q: int = a / n;
        let r: int = a % n;
        vstd::arithmetic::div_mod::lemma_fundamental_div_mod(a, n);
        vstd::arithmetic::div_mod::lemma_mod_bound(a, n);
        let prev = key_after(current, start, end, (k - 1) as nat);
        if prev + 1 > end {
            assert(a + 1 == (q + 1) * n + 0) by (nonlinear_arith)
                requires
                    a == n * q + r,
                    r == n - 1,
            ;
            vstd::arithmetic::div_mod::lemma_fundamental_div_mod_converse(a + 1, n, q + 1, 0);
        } else {
            assert(a + 1 == q * n + (r + 1)) by (nonlinear_arith)
                requires
                    a == n * q + r,
            ;
            vstd::arithmetic::div_mod::lemma_fundamental_div_mod_converse(a + 1, n, q, r + 1);
        }
    }
}

/// With a single key, a failure undoes the nonce it was given: the next
/// optimistic use hands out the same nonce again.
pub proof fn law_failure_reuses_nonce(v: NonceView)
    requires
        v.wf(),
        v.start == v.end,
        can_count_up(v),
    ensures
        ({
            let (v1, (key, n)) = optimistic_step(v);
            optimistic_step(released(v1, key)).1 == (key, n)
        }),
{
    let (v1, (key, n)) = optimistic_step(v);
}

/// Optimistic uses count each key's nonce up by exactly one.
pub proof fn law_optimistic_counts_up(v: NonceView)
    requires
        v.wf(),
        can_count_up(v),
    ensures
        ({
            let (v1, (key, n)) = optimistic_step(v);
            &&& v.start <= key <= v.end
            &&& n == v.nonces[key] + 1
            &&& v1.wf()
            &&& forall|k: i32| k != key ==> v1.nonces.contains_key(k) == v.nonces.contains_key(k) && v1.nonces[k] == v.nonces[k]
        }),
{
    let (v1, (key, n)) = optimistic_step(v);
}

} // verus!
