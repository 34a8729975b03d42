//! Signed payloads, batch entries and the pure decisions of the signing
//! client: key bookkeeping, signing contexts, nonce follow-up after a
//! submission, numeric fields of order books and slippage matching.
use crate::decimal::{int_text, parse_i64_chars, parse_i64_spec, push_int_text, str_chars, string_from_chars, IntParseError};
use vstd::std_specs::iter::IteratorSpec;
use crate::errors::SignerClientError;
use crate::ws_client::{contains_chars, contains_text};
use std::collections::HashMap;
use vstd::prelude::*;
use vstd::string::StringExecFns;

verus! {

broadcast use vstd::std_specs::hash::group_hash_axioms;

pub const CODE_OK: i32 = 200;

pub const TX_TYPE_CHANGE_PUB_KEY: i32 = 8;
pub const TX_TYPE_CREATE_SUB_ACCOUNT: i32 = 9;
pub const TX_TYPE_CREATE_PUBLIC_POOL: i32 = 10;
pub const TX_TYPE_UPDATE_PUBLIC_POOL: i32 = 11;
pub const TX_TYPE_TRANSFER: i32 = 12;
pub const TX_TYPE_WITHDRAW: i32 = 13;
pub const TX_TYPE_CREATE_ORDER: i32 = 14;
pub const TX_TYPE_CANCEL_ORDER: i32 = 15;
pub const TX_TYPE_CANCEL_ALL_ORDERS: i32 = 16;
pub const TX_TYPE_MODIFY_ORDER: i32 = 17;
pub const TX_TYPE_MINT_SHARES: i32 = 18;
pub const TX_TYPE_BURN_SHARES: i32 = 19;
pub const TX_TYPE_UPDATE_LEVERAGE: i32 = 20;
pub const TX_TYPE_UPDATE_MARGIN: i32 = 21;

pub const ORDER_TYPE_LIMIT: i32 = 0;
pub const ORDER_TYPE_MARKET: i32 = 1;
pub const ORDER_TYPE_STOP_LOSS: i32 = 2;
pub const ORDER_TYPE_STOP_LOSS_LIMIT: i32 = 3;
pub const ORDER_TYPE_TAKE_PROFIT: i32 = 4;
pub const ORDER_TYPE_TAKE_PROFIT_LIMIT: i32 = 5;

pub const ORDER_TIME_IN_FORCE_IMMEDIATE_OR_CANCEL: i32 = 0;
pub const ORDER_TIME_IN_FORCE_GOOD_TILL_TIME: i32 = 1;
pub const ORDER_TIME_IN_FORCE_POST_ONLY: i32 = 2;

pub const DEFAULT_28_DAY_ORDER_EXPIRY: i64 = -1;
pub const DEFAULT_IOC_EXPIRY: i64 = 0;
pub const DEFAULT_10_MIN_AUTH_EXPIRY: i64 = -1;
pub const NIL_TRIGGER_PRICE: i32 = 0;
pub const MINUTE: i64 = 60;

/// A point in time as seconds and nanoseconds after the unix epoch.
#[derive(Clone, Copy, Debug, PartialEq, Eq, Structural)]
pub struct UnixTime {
    pub secs: u64,
    pub nanos: u64,
}

/// An authentication token and, when the server reported one, its expiry.
#[derive(Clone, Debug)]
pub struct AuthToken {
    pub token: String,
    pub expires_at: Option<UnixTime>,
}

/// A signed transaction: its type, the signed JSON text and its decoded form.
#[derive(Clone, Debug)]
pub struct SignedPayload<T> {
    tx_type: i32,
    payload: String,
    parsed: T,
}

impl<T> SignedPayload<T> {
    pub closed spec fn spec_tx_type(&self) -> i32 {
        self.tx_type
    }

    pub closed spec fn spec_payload(&self) -> Seq<char> {
        self.payload@
    }

    pub closed spec fn spec_parsed(&self) -> T {
        self.parsed
    }

    pub fn new(tx_type: i32, payload: String, parsed: T) -> (r: Self)
        ensures
            r.spec_tx_type() == tx_type,
            r.spec_payload() == payload@,
            r.spec_parsed() == parsed,
    {
        Self { tx_type, payload, parsed }
    }

    pub fn tx_type(&self) -> (r: i32)
        ensures
            r == self.spec_tx_type(),
    {
        self.tx_type
    }

    pub fn payload(&self) -> (r: &str)
        ensures
            r@ == self.spec_payload(),
    {
        self.payload.as_str()
    }

    pub fn parsed(&self) -> (r: &T)
        ensures
            *r == self.spec_parsed(),
    {
        &self.parsed
    }

    pub fn into_parsed(self) -> (r: T)
        ensures
            r == self.spec_parsed(),
    {
        self.parsed
    }

    /// Splits into the batch entry to submit and the decoded transaction.
    pub fn into_parts(self) -> (r: (BatchEntry, T))
        ensures
            r.0.tx_type == self.spec_tx_type(),
            r.0.tx_info@ == self.spec_payload(),
            r.1 == self.spec_parsed(),
    {
        let entry = BatchEntry { tx_type: self.tx_type, tx_info: self.payload };
        (entry, self.parsed)
    }

    /// The batch entry carrying this transaction's type and signed text.
    pub closed spec fn spec_entry(&self) -> BatchEntry {
        BatchEntry { tx_type: self.tx_type, tx_info: self.payload }
    }

    pub fn as_batch_entry(&self) -> (r: BatchEntry)
        ensures
            r.tx_type == self.spec_tx_type(),
            r.tx_info@ == self.spec_payload(),
            r == self.spec_entry(),
    {
        BatchEntry { tx_type: self.tx_type, tx_info: self.payload.clone() }
    }
}

impl<'a, T> From<&'a SignedPayload<T>> for BatchEntry {
    fn from(value: &'a SignedPayload<T>) -> (r: Self)
        ensures
            r.tx_type == value.spec_tx_type(),
            r.tx_info@ == value.spec_payload(),
    {
        value.as_batch_entry()
    }
}

impl<'a, T> vstd::std_specs::convert::FromSpecImpl<&'a SignedPayload<T>> for BatchEntry {
    open spec fn obeys_from_spec() -> bool {
        true
    }

    open spec fn from_spec(v: &'a SignedPayload<T>) -> Self {
        v.spec_entry()
    }
}

/// One transaction of a batch submission.
#[derive(Clone, Debug)]
pub struct BatchEntry {
    pub tx_type: i32,
    pub tx_info: String,
}

impl BatchEntry {
    pub fn new(tx_type: i32, tx_info: String) -> (r: Self)
        ensures
            r.tx_type == tx_type,
            r.tx_info@ == tx_info@,
    {
        Self { tx_type, tx_info }
    }

    pub fn tx_type(&self) -> (r: i32)
        ensures
            r == self.tx_type,
    {
        self.tx_type
    }

    pub fn tx_info(&self) -> (r: &str)
        ensures
            r@ == self.tx_info@,
    {
        self.tx_info.as_str()
    }
}

/// Reads a server expiry: values above 10^12 are milliseconds, others
/// seconds; non-positive values mean no expiry.
pub open spec fn unix_time_of(value: i64) -> Option<UnixTime> {
    if value <= 0 {
        None
    } else if value > 1_000_000_000_000 {
        Some(UnixTime { secs: (value / 1000) as u64, nanos: ((value % 1000) * 1_000_000) as u64 })
    } else {
        Some(UnixTime { secs: value as u64, nanos: 0 })
    }
}

pub fn unix_timestamp_to_system_time(value: i64) -> (r: Option<UnixTime>)
    ensures
        r == unix_time_of(value),
{
    if value <= 0 {
        return None;
    }
    if value > 1_000_000_000_000 {
        let secs: i64 = value / 1000;
        let ms: i64 = value % 1000;
        Some(UnixTime { secs: secs as u64, nanos: (ms * 1_000_000) as u64 })
    } else {
        Some(UnixTime { secs: value as u64, nanos: 0 })
    }
}

/// Output of a signing call: the reported error wins, else the value is
/// required.
pub fn parse_sign_output(value: Option<String>, error: Option<String>, context: &str) -> (r: Result<String, SignerClientError>)
    ensures
        match error {
            Some(e) => r matches Err(SignerClientError::Signer(m)) && m@ == context@ + ": "@ + e@,
            None => match value {
                Some(v) => r matches Ok(s) && s@ == v@,
                None => r == Err::<String, SignerClientError>(SignerClientError::InvalidResponse),
            },
        },
{
    if let Some(err) = error {
        proof {
            reveal_strlit(": ");
        }
        let mut msg = String::from_str(context);
        msg.append(": ");
        msg.append(err.as_str());
        return Err(SignerClientError::Signer(msg));
    }
    match value {
        Some(v) => Ok(v),
        None => Err(SignerClientError::InvalidResponse),
    }
}

/// `Ok` for the success code 200; otherwise an `Http` error carrying the
/// server message or a fixed text.
pub fn ensure_code_ok(code: i32, message: Option<&str>) -> (r: Result<(), SignerClientError>)
    ensures
        code == CODE_OK <==> r is Ok,
        r matches Err(e) ==> (e matches SignerClientError::Http(m) && m@ == (match message {
            Some(t) => t@,
            None => "unexpected response code"@,
        })),
{
    if code == CODE_OK {
        return Ok(());
    }
    let text: &str = match message {
        Some(m) => m,
        None => "unexpected response code",
    };
    Err(SignerClientError::Http(String::from_str(text)))
}

/// A key with every leading `0x` removed.
pub open spec fn strip_hex_prefix(s: Seq<char>) -> Seq<char>
    decreases s.len(),
{
    if s.len() >= 2 && s[0] == '0' && s[1] == 'x' {
        strip_hex_prefix(s.subrange(2, s.len() as int))
    } else {
        s
    }
}

pub fn sanitize_private_key(value: &str) -> (r: String)
    ensures
        r@ == strip_hex_prefix(value@),
{
    let chars = str_chars(value);
    let len: usize = chars.len();
    let mut i: usize = 0;
    assert(chars@.subrange(0, len as int) =~= chars@);
    while i + 1 < len && chars[i] == '0' && chars[i + 1] == 'x'
        invariant
            i <= len,
            len == chars@.len(),
            i % 2 == 0,
            strip_hex_prefix(chars@) == strip_hex_prefix(chars@.subrange(i as int, len as int)),
        decreases len - i,
    {
        let ghost rest: Seq<char> = chars@.subrange(i as int, len as int);
        assert(rest.subrange(2, rest.len() as int) =~= chars@.subrange(i + 2, len as int));
        i = i + 2;
    }
    let mut out: Vec<char> = Vec::new();
    let mut j: usize = i;
    while j < len
        invariant
            i <= j <= len,
            len == chars@.len(),
            out@ == chars@.subrange(i as int, j as int),
        decreases len - j,
    {
        out.push(chars[j]);
        j = j + 1;
    }
    proof {
        let rest: Seq<char> = chars@.subrange(i as int, len as int);
    }
    string_from_chars(&out)
}

fn chars_equal(a: &Vec<char>, b: &Vec<char>) -> (r: bool)
    ensures
        r == (a@ == b@),
{
    if a.len() != b.len() {
        return false;
    }
    let mut i: usize = 0;
    while i < a.len()
        invariant
            a@.len() == b@.len(),
            i <= a@.len(),
            forall|k: int| 0 <= k < i ==> a@[k] == b@[k],
        decreases a@.len() - i,
    {
        if a[i] != b[i] {
            return false;
        }
        i = i + 1;
    }
    assert(a@ =~= b@);
    true
}

/// Two keys are the same key when they agree after the `0x` prefixes go.
pub fn are_keys_equal(a: &str, b: &str) -> (r: bool)
    ensures
        r == (strip_hex_prefix(a@) == strip_hex_prefix(b@)),
{
    let sa = sanitize_private_key(a);
    let sb = sanitize_private_key(b);
    let ca = str_chars(sa.as_str());
    let cb = str_chars(sb.as_str());
    chars_equal(&ca, &cb)
}

/// The decimal text with every '.' removed.
pub open spec fn without_dots(s: Seq<char>) -> Seq<char> {
    s.filter(|c: char| c != '.')
}

pub open spec fn int_parse_error_text(e: IntParseError) -> Seq<char> {
    match e {
        IntParseError::Empty => "cannot parse integer from empty string"@,
        IntParseError::InvalidDigit => "invalid digit found in string"@,
        IntParseError::PosOverflow => "number too large to fit in target type"@,
        IntParseError::NegOverflow => "number too small to fit in target type"@,
    }
}

fn int_parse_error_str(e: IntParseError) -> (r: &'static str)
    ensures
        r@ == int_parse_error_text(e),
{
    match e {
        IntParseError::Empty => "cannot parse integer from empty string",
        IntParseError::InvalidDigit => "invalid digit found in string",
        IntParseError::PosOverflow => "number too large to fit in target type",
        IntParseError::NegOverflow => "number too small to fit in target type",
    }
}

/// Reads a decimal amount such as `"3500.25"` as the integer of its digits
/// (`350025`): the dots are dropped and the rest parsed as an `i64`.
pub fn decimal_str_to_i64(value: &str) -> (r: Result<i64, SignerClientError>)
    ensures
        match parse_i64_spec(without_dots(value@)) {
            Ok(v) => r matches Ok(x) && x as int == v,
            Err(e) => r matches Err(SignerClientError::Signer(m)) && m@ == "invalid numeric value "@
                + value@ + ": "@ + int_parse_error_text(e),
        },
{
    let chars = str_chars(value);
    let mut filtered: Vec<char> = Vec::new();
    let mut i: usize = 0;
    while i < chars.len()
        invariant
            i <= chars@.len(),
            chars@ == value@,
            filtered@ == chars@.take(i as int).filter(|c: char| c != '.'),
        decreases chars@.len() - i,
    {
        proof {
            reveal_with_fuel(Seq::<char>::filter, 1);
            assert(chars@.take(i + 1).drop_last() =~= chars@.take(i as int));
        }
        if chars[i] != '.' {
            filtered.push(chars[i]);
        }
        i = i + 1;
    }
    assert(chars@.take(chars@.len() as int) =~= chars@);
    match parse_i64_chars(&filtered) {
        Ok(v) => Ok(v),
        Err(e) => {
            proof {
                reveal_strlit("invalid numeric value ");
                reveal_strlit(": ");
            }
            let mut msg = String::from_str("invalid numeric value ");
            msg.append(value);
            msg.append(": ");
            msg.append(int_parse_error_str(e));
            Err(SignerClientError::Signer(msg))
        },
    }
}

/// The key and nonce a transaction is signed with, and whether the nonce was
/// taken from the nonce manager (and must be given back if the send fails).
#[derive(Clone, Copy, Debug, PartialEq, Eq, Structural)]
pub struct SigningContext {
    pub api_key_index: i32,
    pub nonce: i64,
    pub nonce_reserved: bool,
}

/// A nonce is reserved from the manager when asked for and neither a key
/// nor a nonce was given (`-1` counts as not given).
pub open spec fn reservation_needed(api_key_index: Option<i32>, nonce: Option<i64>, reserve: bool) -> bool {
    reserve && (match api_key_index {
        Some(k) => k == -1,
        None => true,
    }) && (match nonce {
        Some(n) => n == -1,
        None => true,
    })
}

pub fn needs_nonce_reservation(api_key_index: Option<i32>, nonce: Option<i64>, reserve: bool) -> (r: bool)
    ensures
        r == reservation_needed(api_key_index, nonce, reserve),
{
    let key: i32 = match api_key_index {
        Some(k) => k,
        None => -1,
    };
    let value: i64 = match nonce {
        Some(n) => n,
        None => -1,
    };
    reserve && key == -1 && value == -1
}

/// Error text for a key outside the configured range.
pub open spec fn key_out_of_range_text(key: i32) -> Seq<char> {
    "api key index "@ + int_text(key as int) + " out of range"@
}

/// Builds the signing context: a reserved `(key, nonce)` is used as given;
/// otherwise the given key (the first configured key when none) and the given
/// nonce (`-1` when none). The key must lie within `start..=end`.
pub fn signing_context(
    api_key_index: Option<i32>,
    nonce: Option<i64>,
    reserved: Option<(i32, i64)>,
    start_api_key: i32,
    end_api_key: i32,
) -> (r: Result<SigningContext, SignerClientError>)
    ensures
        ({
            let key: i32 = match reserved {
                Some(p) => p.0,
                None => match api_key_index {
                    Some(k) => if k == -1 { start_api_key } else { k },
                    None => start_api_key,
                },
            };
            let n: i64 = match reserved {
                Some(p) => p.1,
                None => match nonce {
                    Some(v) => v,
                    None => -1i64,
                },
            };
            &&& (start_api_key <= key <= end_api_key) <==> r is Ok
            &&& r matches Ok(c) ==> c == (SigningContext {
                api_key_index: key,
                nonce: n,
                nonce_reserved: reserved is Some,
            })
            &&& !(start_api_key <= key <= end_api_key) ==> (r matches Err(SignerClientError::Signer(m)) && m@
                == key_out_of_range_text(key))
        }),
{
    let mut api_key: i32 = match api_key_index {
        Some(k) => k,
        None => -1,
    };
    let mut nonce_value: i64 = match nonce {
        Some(n) => n,
        None => -1,
    };
    let mut nonce_reserved: bool = false;
    match reserved {
        Some((k, v)) => {
            api_key = k;
            nonce_value = v;
            nonce_reserved = true;
        },
        None => {
            if api_key == -1 {
                api_key = start_api_key;
            }
        },
    }
    if api_key < start_api_key || api_key > end_api_key {
        let mut text = str_chars("api key index ");
        push_int_text(api_key as i128, &mut text);
        let mut tail = str_chars(" out of range");
        text.append(&mut tail);
        return Err(SignerClientError::Signer(string_from_chars(&text)));
    }
    Ok(SigningContext { api_key_index: api_key, nonce: nonce_value, nonce_reserved })
}

/// How a submission ended, as far as nonce bookkeeping cares.
#[derive(Clone, Copy, Debug, PartialEq, Eq, Structural)]
pub enum SendOutcome {
    /// The server answered with this code.
    Response(i32),
    /// The server refused the nonce.
    InvalidNonce,
    /// Any other failure.
    Failed,
}

/// What to do with the nonce manager after a submission.
#[derive(Clone, Copy, Debug, PartialEq, Eq, Structural)]
pub struct NonceFollowUp {
    pub acknowledge_failure: bool,
    pub hard_refresh: bool,
}

/// A reserved nonce is given back when the submission did not succeed, and
/// re-read from the server when the server refused it.
pub fn nonce_follow_up(context: &SigningContext, outcome: SendOutcome) -> (r: NonceFollowUp)
    ensures
        r.acknowledge_failure == (context.nonce_reserved && !(outcome matches SendOutcome::Response(c) && c == CODE_OK)),
        r.hard_refresh == (context.nonce_reserved && outcome is InvalidNonce),
{
    match outcome {
        SendOutcome::Response(code) => NonceFollowUp {
            acknowledge_failure: code != CODE_OK && context.nonce_reserved,
            hard_refresh: false,
        },
        SendOutcome::InvalidNonce => NonceFollowUp {
            acknowledge_failure: context.nonce_reserved,
            hard_refresh: context.nonce_reserved,
        },
        SendOutcome::Failed => NonceFollowUp {
            acknowledge_failure: context.nonce_reserved,
            hard_refresh: false,
        },
    }
}

/// Character code after ASCII lowercasing.
pub open spec fn lower_code(c: char) -> int {
    if 'A' <= c && c <= 'Z' {
        (c as u32) as int + 32
    } else {
        (c as u32) as int
    }
}

/// `needle` occurs in `hay` starting at `i`, comparing `hay` lowercased.
pub open spec fn matches_lowered_at(hay: Seq<char>, needle: Seq<char>, i: int) -> bool {
    &&& 0 <= i
    &&& i + needle.len() <= hay.len()
    &&& forall|j: int| 0 <= j < needle.len() ==> lower_code(#[trigger] hay[i + j]) == (needle[j] as u32) as int
}

pub open spec fn contains_lowered(hay: Seq<char>, needle: Seq<char>) -> bool {
    exists|i: int| matches_lowered_at(hay, needle, i)
}

pub(crate) fn lower_code_exec(c: char) -> (r: u32)
    ensures
        r as int == lower_code(c),
{
    if 'A' <= c && c <= 'Z' {
        c as u32 + 32
    } else {
        c as u32
    }
}

/// Whether `needle` occurs in the ASCII-lowercased `hay`.
pub fn contains_ignore_ascii_case(hay: &Vec<char>, needle: &Vec<char>) -> (r: bool)
    ensures
        r == contains_lowered(hay@, needle@),
{
    let n: usize = needle.len();
    let h: usize = hay.len();
    if n > h {
        assert forall|i: int| !matches_lowered_at(hay@, needle@, i) by {}
        return false;
    }
    let mut i: usize = 0;
    while i <= h - n
        invariant
            n == needle@.len(),
            h == hay@.len(),
            n <= h,
            i <= h - n + 1,
            forall|k: int| 0 <= k < i ==> !matches_lowered_at(hay@, needle@, k),
        decreases h - n + 1 - i,
    {
        let mut j: usize = 0;
        let mut ok: bool = true;
        while j < n
            invariant
                n == needle@.len(),
                h == hay@.len(),
                i + n <= h,
                j <= n,
                ok ==> forall|t: int| 0 <= t < j ==> lower_code(#[trigger] hay@[i + t]) == (needle@[t] as u32) as int,
                !ok ==> !matches_lowered_at(hay@, needle@, i as int),
            decreases n - j,
        {
            if ok {
                let lc: u32 = lower_code_exec(hay[i + j]);
                let nc: char = needle[j];
                if lc != nc as u32 {
                    ok = false;
                }
            }
            j = j + 1;
        }
        if ok {
            assert(matches_lowered_at(hay@, needle@, i as int));
            return true;
        }
        i = i + 1;
    }
    assert forall|k: int| !matches_lowered_at(hay@, needle@, k) by {}
    false
}

/// Whether a send error message reports a refused nonce: it contains
/// `invalid nonce` in any ASCII case.
pub fn is_invalid_nonce_message(message: &str) -> (r: bool)
    ensures
        r == contains_lowered(message@, "invalid nonce"@),
{
    let hay = str_chars(message);
    let needle = str_chars("invalid nonce");
    contains_ignore_ascii_case(&hay, &needle)
}

/// Deadline of an auth token: the given one unless absent or `-1`, else ten
/// minutes after `now_secs`.
pub fn auth_token_deadline(deadline: Option<i64>, now_secs: i64) -> (r: i64)
    requires
        now_secs <= i64::MAX - 10 * MINUTE,
    ensures
        r as int == (match deadline {
            Some(v) => if v != DEFAULT_10_MIN_AUTH_EXPIRY { v as int } else { now_secs + 600 },
            None => now_secs + 600,
        }),
{
    match deadline {
        Some(value) => {
            if value != DEFAULT_10_MIN_AUTH_EXPIRY {
                return value;
            }
        },
        None => {},
    }
    now_secs + 10 * MINUTE
}

/// Liquidity taken from a book side when filling `base` units level by level:
/// `(quote amount, base amount)`.
pub open spec fn book_fill(levels: Seq<(i64, i64)>, base: int) -> (int, int)
    decreases levels.len(),
{
    if levels.len() == 0 {
        (0, 0)
    } else {
        let prev = book_fill(levels.drop_last(), base);
        if prev.1 >= base {
            prev
        } else {
            let level = levels.last();
            let usable: int = if base - prev.1 < level.1 { base - prev.1 } else { level.1 as int };
            (prev.0 + level.0 * usable, prev.1 + usable)
        }
    }
}

proof fn lemma_book_fill_bounds(levels: Seq<(i64, i64)>, base: int)
    requires
        forall|i: int| 0 <= i < levels.len() ==> #[trigger] levels[i].1 >= 0,
        base >= 0,
    ensures
        0 <= book_fill(levels, base).1 <= base,
        book_fill(levels, base).0 <= book_fill(levels, base).1 * (i64::MAX as int),
        book_fill(levels, base).0 >= book_fill(levels, base).1 * (i64::MIN as int),
    decreases levels.len(),
{
    if levels.len() > 0 {
        let sub = levels.drop_last();
        assert forall|i: int| 0 <= i < sub.len() implies #[trigger] sub[i].1 >= 0 by {}
        lemma_book_fill_bounds(sub, base);
        let prev = book_fill(sub, base);
        if prev.1 < base {
            let level = levels.last();
            let usable: int = if base - prev.1 < level.1 { base - prev.1 } else { level.1 as int };
            assert(level.0 * usable <= usable * (i64::MAX as int)) by (nonlinear_arith)
                requires
                    usable >= 0,
                    level.0 <= i64::MAX,
            ;
            assert(level.0 * usable >= usable * (i64::MIN as int)) by (nonlinear_arith)
                requires
                    usable >= 0,
                    level.0 >= i64::MIN,
            ;
            assert((prev.1 + usable) * (i64::MAX as int) == prev.1 * (i64::MAX as int) + usable * (i64::MAX as int)) by (nonlinear_arith);
            assert((prev.1 + usable) * (i64::MIN as int) == prev.1 * (i64::MIN as int) + usable * (i64::MIN as int)) by (nonlinear_arith);
        }
    }
}

/// Walks the book levels `(price, remaining)` best first and takes liquidity
/// until `base_amount` is covered: returns the quote amount and the base
/// amount matched (less than `base_amount` when the book is too thin).
pub fn match_book_liquidity(levels: &Vec<(i64, i64)>, base_amount: i64) -> (r: (i128, i64))
    requires
        base_amount >= 0,
        forall|i: int| 0 <= i < levels@.len() ==> #[trigger] levels@[i].1 >= 0,
    ensures
        r.0 as int == book_fill(levels@, base_amount as int).0,
        r.1 as int == book_fill(levels@, base_amount as int).1,
{
    let mut usd: i128 = 0;
    let mut size: i64 = 0;
    let mut i: usize = 0;
    while i < levels.len()
        invariant
            i <= levels@.len(),
            base_amount >= 0,
            forall|k: int| 0 <= k < levels@.len() ==> #[trigger] levels@[k].1 >= 0,
            (usd as int, size as int) == book_fill(levels@.take(i as int), base_amount as int),
        decreases levels@.len() - i,
    {
        let ghost pre: Seq<(i64, i64)> = levels@.take(i as int);
        let ghost post: Seq<(i64, i64)> = levels@.take(i + 1);
        proof {
            assert(post.drop_last() =~= pre);
            assert forall|k: int| 0 <= k < pre.len() implies #[trigger] pre[k].1 >= 0 by {}
            lemma_book_fill_bounds(pre, base_amount as int);
        }
        if size >= base_amount {
            // no level is needed any more; the fill stays as it is
            i = i + 1;
            continue;
        }
        let (price, remaining) = levels[i];
        let usable: i64 = if base_amount - size < remaining { base_amount - size } else { remaining };
        proof {
            assert(price as int * usable as int <= i64::MAX as int * i64::MAX as int) by (nonlinear_arith)
                requires
                    0 <= usable,
                    usable <= i64::MAX,
                    price <= i64::MAX,
            ;
            assert(price as int * usable as int >= i64::MIN as int * i64::MAX as int) by (nonlinear_arith)
                requires
                    0 <= usable,
                    usable <= i64::MAX,
                    price >= i64::MIN,
            ;
            assert(size as int * (i64::MAX as int) <= i64::MAX as int * i64::MAX as int) by (nonlinear_arith)
                requires
                    0 <= size,
                    size <= i64::MAX,
            ;
            assert(size as int * (i64::MIN as int) >= i64::MAX as int * i64::MIN as int) by (nonlinear_arith)
                requires
                    0 <= size,
                    size <= i64::MAX,
            ;
        }
        usd = usd + (price as i128) * (usable as i128);
        size = size + usable;
        i = i + 1;
    }
    assert(levels@.take(levels@.len() as int) =~= levels@);
    (usd, size)
}

/// The provided keys with their `0x` prefixes removed.
pub open spec fn sanitized_keys(m: Map<i32, String>) -> Map<i32, Seq<char>> {
    Map::new(|k: i32| m.contains_key(k), |k: i32| strip_hex_prefix(m[k]@))
}

pub open spec fn string_map_view(m: Map<i32, String>) -> Map<i32, Seq<char>> {
    Map::new(|k: i32| m.contains_key(k), |k: i32| m[k]@)
}

/// The smallest key from `idx` to `end` that `m` lacks.
pub open spec fn first_missing_key(m: Map<i32, Seq<char>>, idx: int, end: int) -> Option<int>
    decreases end - idx + 1,
{
    if idx > end {
        None
    } else if !m.contains_key(idx as i32) {
        Some(idx)
    } else {
        first_missing_key(m, idx + 1, end)
    }
}

/// The keys before the check that every index of the range has one: with
/// one key per index the key at `start` must be the initial key; with one
/// fewer, or none at all, the initial key is put at `start`; any other
/// count is refused.
pub open spec fn key_map_base(p: Map<i32, Seq<char>>, len: nat, start: i32, end: i32, initial: Seq<char>) -> Result<
    Map<i32, Seq<char>>,
    Seq<char>,
> {
    if end >= start && len == end - start + 1 {
        if p.contains_key(start) && strip_hex_prefix(p[start]) == strip_hex_prefix(initial) {
            Ok(p)
        } else {
            Err("inconsistent private keys"@)
        }
    } else if end >= start && len == end - start {
        Ok(p.insert(start, initial))
    } else if len == 0 {
        Ok(p.insert(start, initial))
    } else {
        Err("unexpected number of private keys provided"@)
    }
}

/// The private key of every API key index from `start` to `end`, or why
/// there is none.
pub open spec fn api_key_map(provided: Map<i32, String>, start: i32, end: i32, initial: Seq<char>) -> Result<
    Map<i32, Seq<char>>,
    Seq<char>,
> {
    match key_map_base(sanitized_keys(provided), provided.len(), start, end, initial) {
        Err(e) => Err(e),
        Ok(m) => match first_missing_key(m, start as int, end as int) {
            Some(idx) => Err("missing private key for api key "@ + int_text(idx)),
            None => Ok(m),
        },
    }
}

fn key_indexes(m: &HashMap<i32, String>) -> (r: Vec<i32>)
    ensures
        r@.to_set() == m@.dom(),
        r@.no_duplicates(),
{
    let mut out: Vec<i32> = Vec::new();
    for k in it: m.keys()
        invariant
            out@ == it.seq().take(it.index() as int).unref(),
            it.seq() == vstd::std_specs::hash::spec_keys_iter(m).remaining(),
    {
        out.push(*k);
    }
    proof {
        let sq = vstd::std_specs::hash::spec_keys_iter(m).remaining();
        assert(out@ =~= sq.unref());
    }
    out
}

/// The private keys of the API key indexes `start..=end`: the provided ones
/// without their `0x` prefixes, completed with the initial key at `start`
/// as `key_map_base` says; every index of the range must end up with a key.
pub fn prepare_api_key_map(
    start_api_key: i32,
    end_api_key: i32,
    initial_private_key: &str,
    provided: HashMap<i32, String>,
) -> (r: Result<HashMap<i32, String>, SignerClientError>)
    requires
        i32::MIN <= end_api_key - start_api_key <= i32::MAX,
        end_api_key - start_api_key != -1,
    ensures
        match api_key_map(provided@, start_api_key, end_api_key, initial_private_key@) {
            Ok(m) => r matches Ok(h) && string_map_view(h@) == m,
            Err(e) => r matches Err(SignerClientError::Signer(t)) && t@ == e,
        },
{
    let keys = key_indexes(&provided);
    let mut out: HashMap<i32, String> = HashMap::new();
    let ghost p = provided@;
    for i in 0..keys.len()
        invariant
            keys@.to_set() == p.dom(),
            keys@.no_duplicates(),
            provided@ == p,
            forall|k: i32| #[trigger] out@.contains_key(k) <==> keys@.take(i as int).contains(k),
            forall|k: i32| #[trigger] out@.contains_key(k) ==> out@[k]@ == strip_hex_prefix(p[k]@),
    {
        let k = keys[i];
        let v = match provided.get(&k) {
            Some(v) => sanitize_private_key(v.as_str()),
            None => String::new(),
        };
        out.insert(k, v);
        proof {
            assert(keys@.take(i + 1) =~= keys@.take(i as int).push(k));
            assert forall|x: i32| #[trigger] out@.contains_key(x) <==> keys@.take(i + 1).contains(x) by {
                assert(keys@.take(i as int).push(k).contains(x) <==> (keys@.take(i as int).contains(x) || x == k)) by {
                    if x == k {
                        assert(keys@.take(i as int).push(k)[i as int] == k);
                    }
                    if keys@.take(i as int).contains(x) {
                        let j = choose|j: int| 0 <= j < i && keys@.take(i as int)[j] == x;
                    }
                }
            }
        }
    }
    proof {
        assert(keys@.take(keys@.len() as int) =~= keys@);
        assert forall|x: i32| out@.contains_key(x) <==> p.contains_key(x) by {}
        assert(string_map_view(out@) =~= sanitized_keys(p));
    }
    let len: usize = provided.len();
    let ordered: bool = end_api_key >= start_api_key;
    let diff: usize = if ordered { (end_api_key as i64 - start_api_key as i64) as usize } else { 0 };
    let same_count: bool = ordered && len == diff + 1;
    let one_fewer: bool = ordered && len == diff;
    if same_count {
        let consistent: bool = match out.get(&start_api_key) {
            Some(existing) => are_keys_equal(existing.as_str(), initial_private_key),
            None => false,
        };
        if !consistent {
            return Err(SignerClientError::Signer(String::from_str("inconsistent private keys")));
        }
    } else if one_fewer || len == 0 {
        out.insert(start_api_key, String::from_str(initial_private_key));
    } else {
        return Err(SignerClientError::Signer(String::from_str("unexpected number of private keys provided")));
    }
    let ghost base = string_map_view(out@);
    proof {
        assert(key_map_base(sanitized_keys(p), p.len(), start_api_key, end_api_key, initial_private_key@) == Ok::<
            Map<i32, Seq<char>>,
            Seq<char>,
        >(base)) by {
            if !same_count && (one_fewer || len == 0) {
                assert(base =~= sanitized_keys(p).insert(start_api_key, initial_private_key@));
            }
        }
    }
    let mut idx: i64 = start_api_key as i64;
    while idx <= end_api_key as i64
        invariant
            start_api_key <= idx <= end_api_key as int + 1 || idx == start_api_key,
            base == string_map_view(out@),
            provided@ == p,
            key_map_base(sanitized_keys(p), p.len(), start_api_key, end_api_key, initial_private_key@) == Ok::<
                Map<i32, Seq<char>>,
                Seq<char>,
            >(base),
            first_missing_key(base, start_api_key as int, end_api_key as int) == first_missing_key(
                base,
                idx as int,
                end_api_key as int,
            ),
        decreases end_api_key as i64 + 1 - idx,
    {
        let key: i32 = idx as i32;
        if !out.contains_key(&key) {
            let mut text = str_chars("missing private key for api key ");
            push_int_text(idx as i128, &mut text);
            return Err(SignerClientError::Signer(string_from_chars(&text)));
        }
        idx = idx + 1;
    }
    Ok(out)
}

/// Chain id for a server: 304 on mainnet (the address mentions
/// `mainnet`), 300 otherwise.
pub fn chain_id_for_url(url: &str) -> (r: i32)
    ensures
        r == (if contains_text(url@, "mainnet"@) { 304i32 } else { 300i32 }),
{
    let u = str_chars(url);
    if contains_chars(&u, &str_chars("mainnet")) {
        304
    } else {
        300
    }
}

/// File name of the signer library for a platform: `signer-amd64.so` on
/// linux/x86_64, `signer-arm64.dylib` on macos/aarch64; other platforms are
/// unsupported, reported as `<os>/<arch>`.
pub fn signer_library_filename(os: &str, arch: &str) -> (r: Result<String, SignerClientError>)
    ensures
        os@ == "linux"@ && arch@ == "x86_64"@ ==> (r matches Ok(f) && f@ == "signer-amd64.so"@),
        os@ == "macos"@ && arch@ == "aarch64"@ ==> (r matches Ok(f) && f@ == "signer-arm64.dylib"@),
        !(os@ == "linux"@ && arch@ == "x86_64"@) && !(os@ == "macos"@ && arch@ == "aarch64"@) ==> (r matches Err(
            SignerClientError::UnsupportedPlatform(m),
        ) && m@ == os@ + "/"@ + arch@),
{
    proof {
        reveal_strlit("linux");
        reveal_strlit("macos");
        reveal_strlit("x86_64");
        reveal_strlit("aarch64");
        assert("macos"@[0] != "linux"@[0]);
    }
    let o = str_chars(os);
    let a = str_chars(arch);
    if chars_equal(&o, &str_chars("linux")) && chars_equal(&a, &str_chars("x86_64")) {
        Ok(String::from_str("signer-amd64.so"))
    } else if chars_equal(&o, &str_chars("macos")) && chars_equal(&a, &str_chars("aarch64")) {
        Ok(String::from_str("signer-arm64.dylib"))
    } else {
        let mut m = String::from_str(os);
        m.append("/");
        m.append(arch);
        Err(SignerClientError::UnsupportedPlatform(m))
    }
}

/// What `decimal_str_to_i64` makes of a text: its value, or the message of
/// its error.
pub open spec fn decimal_result(value: Seq<char>) -> Result<int, Seq<char>> {
    match parse_i64_spec(without_dots(value)) {
        Ok(v) => Ok(v),
        Err(e) => Err("invalid numeric value "@ + value + ": "@ + int_parse_error_text(e)),
    }
}

pub open spec fn text_levels(levels: Seq<(String, String)>) -> Seq<(Seq<char>, Seq<char>)> {
    levels.map_values(|l: (String, String)| (l.0@, l.1@))
}

/// Takes liquidity from book levels given as decimal texts `(price,
/// remaining)`, best first, until `base` is covered: the quote amount and
/// base amount matched, or the message of the first level that does not
/// read as a number. Levels after the amount is covered are not read.
pub open spec fn text_book_fill(levels: Seq<(Seq<char>, Seq<char>)>, base: int) -> Result<(int, int), Seq<char>>
    decreases levels.len(),
{
    if levels.len() == 0 {
        Ok((0, 0))
    } else {
        match text_book_fill(levels.drop_last(), base) {
            Err(e) => Err(e),
            Ok(prev) => if prev.1 >= base {
                Ok(prev)
            } else {
                match decimal_result(levels.last().0) {
                    Err(e) => Err(e),
                    Ok(price) => match decimal_result(levels.last().1) {
                        Err(e) => Err(e),
                        Ok(remaining) => {
                            let usable = if base - prev.1 < remaining { base - prev.1 } else { remaining };
                            Ok((prev.0 + price * usable, prev.1 + usable))
                        },
                    },
                }
            },
        }
    }
}

/// Every running total of the fill stays within the integer types that hold
/// it (quote amount in `i128`, base amount in `i64`), and so does the amount
/// still wanted while the base is not covered; beyond them the arithmetic
/// overflows.
pub open spec fn fill_fits(levels: Seq<(Seq<char>, Seq<char>)>, base: int) -> bool {
    forall|k: int|
        0 <= k <= levels.len() ==> (#[trigger] text_book_fill(levels.take(k), base) matches Ok(p) ==> {
            &&& i128::MIN <= p.0 <= i128::MAX
            &&& i64::MIN <= p.1 <= i64::MAX
            &&& p.1 < base ==> base - p.1 <= i64::MAX
        })
}

proof fn lemma_text_fill_settled(levels: Seq<(Seq<char>, Seq<char>)>, base: int, i: int, j: int)
    requires
        0 <= i <= j <= levels.len(),
        text_book_fill(levels.take(i), base) is Err || (text_book_fill(levels.take(i), base) matches Ok(p) && p.1 >= base),
    ensures
        text_book_fill(levels.take(j), base) == text_book_fill(levels.take(i), base),
    decreases j - i,
{
    if j > i {
        lemma_text_fill_settled(levels, base, i, j - 1);
        assert(levels.take(j).drop_last() =~= levels.take(j - 1));
    }
}

/// Quote and base amounts matched from book levels given as decimal texts,
/// as `text_book_fill` says; a book too thin to cover `base_amount` is an
/// error.
pub fn fill_from_book_text(levels: &Vec<(String, String)>, base_amount: i64) -> (r: Result<(i128, i64), SignerClientError>)
    requires
        fill_fits(text_levels(levels@), base_amount as int),
    ensures
        match text_book_fill(text_levels(levels@), base_amount as int) {
            Err(e) => r matches Err(SignerClientError::Signer(m)) && m@ == e,
            Ok(fill) => if fill.1 < base_amount {
                r matches Err(SignerClientError::Signer(m)) && m@
                    == "Cannot be sure slippage will be acceptable due to the high size"@
            } else {
                r matches Ok(x) && x.0 as int == fill.0 && x.1 as int == fill.1
            },
        },
{
    let ghost tl = text_levels(levels@);
    let mut usd: i128 = 0;
    let mut size: i64 = 0;
    let mut i: usize = 0;
    while i < levels.len() && size < base_amount
        invariant
            tl == text_levels(levels@),
            i <= levels@.len(),
            fill_fits(tl, base_amount as int),
            text_book_fill(tl.take(i as int), base_amount as int) == Ok::<(int, int), Seq<char>>((usd as int, size as int)),
        decreases levels@.len() - i,
    {
        let ghost pre = tl.take(i as int);
        let ghost post = tl.take(i + 1);
        proof {
            assert(post.drop_last() =~= pre);
        }
        let price: i64 = match decimal_str_to_i64(levels[i].0.as_str()) {
            Ok(v) => v,
            Err(e) => {
                proof {
                    lemma_text_fill_settled(tl, base_amount as int, i + 1, tl.len() as int);
                    assert(tl.take(tl.len() as int) =~= tl);
                }
                return Err(e);
            },
        };
        let remaining: i64 = match decimal_str_to_i64(levels[i].1.as_str()) {
            Ok(v) => v,
            Err(e) => {
                proof {
                    lemma_text_fill_settled(tl, base_amount as int, i + 1, tl.len() as int);
                    assert(tl.take(tl.len() as int) =~= tl);
                }
                return Err(e);
            },
        };
        proof {
            assert(text_book_fill(tl.take(i as int), base_amount as int) matches Ok(p) && p.1 < base_amount);
        }
        let usable: i64 = if base_amount - size < remaining { base_amount - size } else { remaining };
        proof {
            assert(post.last() == tl[i as int]);
            assert(tl[i as int] == (levels@[i as int].0@, levels@[i as int].1@));
            assert(text_book_fill(post, base_amount as int) == Ok::<(int, int), Seq<char>>(
                (usd + price * usable, size + usable),
            ));
            assert(tl.len() == levels@.len());
            assert(0 <= i + 1 <= tl.len());
            assert(text_book_fill(tl.take(i + 1), base_amount as int) matches Ok(p) ==> i128::MIN <= p.0 <= i128::MAX
                && i64::MIN <= p.1 <= i64::MAX);
            assert(i128::MIN <= usd + price * usable <= i128::MAX);
            assert(i128::MIN <= price * usable <= i128::MAX) by (nonlinear_arith)
                requires
                    i64::MIN <= price <= i64::MAX,
                    i64::MIN <= usable <= i64::MAX,
            ;
        }
        usd = usd + (price as i128) * (usable as i128);
        size = size + usable;
        i = i + 1;
    }
    proof {
        if size >= base_amount {
            lemma_text_fill_settled(tl, base_amount as int, i as int, tl.len() as int);
        }
        assert(tl.take(tl.len() as int) =~= tl);
    }
    if size < base_amount {
        return Err(SignerClientError::Signer(String::from_str("Cannot be sure slippage will be acceptable due to the high size")));
    }
    Ok((usd, size))
}

/// Whether `alloy_signer_local::PrivateKeySigner`'s `FromStr` accepts a text
/// as a private key (32 bytes of hex); it depends on the text alone.
pub uninterp spec fn signer_key_parses(key: Seq<char>) -> bool;

/// The text (`Display`) of the signature that
/// `SignerSync::sign_message_sync` gives over the UTF-8 bytes of a message,
/// with the signer parsed from a private key text. The signing is
/// deterministic (RFC 6979), so this depends on the key and message alone.
pub uninterp spec fn personal_signature(key: Seq<char>, message: Seq<char>) -> Seq<char>;

/// Calls `str::parse::<alloy_signer_local::PrivateKeySigner>` (its `FromStr`)
/// and gives the text of its error, if any. Claims that it fails exactly on
/// the texts that `signer_key_parses` rejects.
#[verifier::external_body]
fn signer_key_error(key: &str) -> (r: Option<String>)
    ensures
        r is None <==> signer_key_parses(key@),
{
    match key.parse::<alloy_signer_local::PrivateKeySigner>() {
        Ok(_) => None,
        Err(e) => Some(e.to_string()),
    }
}

/// Calls `SignerSync::sign_message_sync` on the signer parsed from `key` and
/// gives the signature's text, or the text of the signing error. The signer
/// is parsed again here, by the same `FromStr` as `signer_key_error` (its
/// key type cannot be declared to Verus, so it cannot be handed over); that
/// parse succeeds on the keys the `requires` admits. Claims that a
/// signature given is the one `personal_signature` names; nothing is said
/// of when signing fails.
#[verifier::external_body]
fn sign_message_with_key(key: &str, message: &str) -> (r: Result<String, String>)
    requires
        signer_key_parses(key@),
    ensures
        r matches Ok(s) ==> s@ == personal_signature(key@, message@),
{
    let signer: alloy_signer_local::PrivateKeySigner = match key.parse() {
        Ok(s) => s,
        Err(e) => return Err(e.to_string()),
    };
    match alloy_signer::SignerSync::sign_message_sync(&signer, message.as_bytes()) {
        Ok(signature) => Ok(signature.to_string()),
        Err(e) => Err(e.to_string()),
    }
}

/// Signs a message with an Ethereum private key (EIP-191 personal message):
/// the key has its `0x` prefixes stripped and is parsed; a key that does not
/// parse, or a failed signing, is a `Signing` error.
pub fn sign_personal_message(private_key: &str, message: &str) -> (r: Result<String, SignerClientError>)
    ensures
        r matches Ok(s) ==> s@ == personal_signature(strip_hex_prefix(private_key@), message@),
        !signer_key_parses(strip_hex_prefix(private_key@)) ==> r is Err,
        r matches Err(e) ==> e is Signing,
{
    let key = sanitize_private_key(private_key);
    match signer_key_error(key.as_str()) {
        Some(text) => Err(SignerClientError::Signing(text)),
        None => match sign_message_with_key(key.as_str(), message) {
            Ok(signature) => Ok(signature),
            Err(text) => Err(SignerClientError::Signing(text)),
        },
    }
}

} // verus!
