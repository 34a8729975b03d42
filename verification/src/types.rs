//! Strongly typed identifiers and amounts shared by the client.
use vstd::prelude::*;

verus! {

/// Identifier for a market.
#[derive(Clone, Copy, Debug, Default, PartialEq, Eq, PartialOrd, Ord, Hash, Structural)]
pub struct MarketId(pub i32);

impl MarketId {
    pub fn new(value: i32) -> (r: Self)
        ensures
            r.0 == value,
    {
        Self(value)
    }

    pub fn into_inner(self) -> (r: i32)
        ensures
            r == self.0,
    {
        self.0
    }
}

impl From<i32> for MarketId {
    fn from(value: i32) -> (r: Self)
        ensures
            r.0 == value,
    {
        MarketId::new(value)
    }
}

impl vstd::std_specs::convert::FromSpecImpl<i32> for MarketId {
    open spec fn obeys_from_spec() -> bool {
        true
    }

    open spec fn from_spec(v: i32) -> Self {
        MarketId(v)
    }
}

impl From<MarketId> for i32 {
    fn from(value: MarketId) -> (r: Self)
        ensures
            r == value.0,
    {
        value.into_inner()
    }
}

impl vstd::std_specs::convert::FromSpecImpl<MarketId> for i32 {
    open spec fn obeys_from_spec() -> bool {
        true
    }

    open spec fn from_spec(v: MarketId) -> Self {
        v.0
    }
}

/// Identifier for an account.
#[derive(Clone, Copy, Debug, Default, PartialEq, Eq, PartialOrd, Ord, Hash, Structural)]
pub struct AccountId(pub i64);

impl AccountId {
    pub fn new(value: i64) -> (r: Self)
        ensures
            r.0 == value,
    {
        Self(value)
    }

    pub fn into_inner(self) -> (r: i64)
        ensures
            r == self.0,
    {
        self.0
    }
}

impl From<i64> for AccountId {
    fn from(value: i64) -> (r: Self)
        ensures
            r.0 == value,
    {
        AccountId::new(value)
    }
}

impl vstd::std_specs::convert::FromSpecImpl<i64> for AccountId {
    open spec fn obeys_from_spec() -> bool {
        true
    }

    open spec fn from_spec(v: i64) -> Self {
        AccountId(v)
    }
}

impl From<AccountId> for i64 {
    fn from(value: AccountId) -> (r: Self)
        ensures
            r == value.0,
    {
        value.into_inner()
    }
}

impl vstd::std_specs::convert::FromSpecImpl<AccountId> for i64 {
    open spec fn obeys_from_spec() -> bool {
        true
    }

    open spec fn from_spec(v: AccountId) -> Self {
        v.0
    }
}

/// Wrapper around an API key index.
#[derive(Clone, Copy, Debug, Default, PartialEq, Eq, PartialOrd, Ord, Hash, Structural)]
pub struct ApiKeyIndex(pub i32);

impl ApiKeyIndex {
    pub fn new(value: i32) -> (r: Self)
        ensures
            r.0 == value,
    {
        Self(value)
    }

    pub fn into_inner(self) -> (r: i32)
        ensures
            r == self.0,
    {
        self.0
    }
}

impl From<i32> for ApiKeyIndex {
    fn from(value: i32) -> (r: Self)
        ensures
            r.0 == value,
    {
        ApiKeyIndex::new(value)
    }
}

impl vstd::std_specs::convert::FromSpecImpl<i32> for ApiKeyIndex {
    open spec fn obeys_from_spec() -> bool {
        true
    }

    open spec fn from_spec(v: i32) -> Self {
        ApiKeyIndex(v)
    }
}

impl From<ApiKeyIndex> for i32 {
    fn from(value: ApiKeyIndex) -> (r: Self)
        ensures
            r == value.0,
    {
        value.into_inner()
    }
}

impl vstd::std_specs::convert::FromSpecImpl<ApiKeyIndex> for i32 {
    open spec fn obeys_from_spec() -> bool {
        true
    }

    open spec fn from_spec(v: ApiKeyIndex) -> Self {
        v.0
    }
}

/// Representation of a price using integer ticks.
#[derive(Clone, Copy, Debug, Default, PartialEq, Eq, PartialOrd, Ord, Hash, Structural)]
pub struct Price(i64);

impl Price {
    pub closed spec fn view_ticks(self) -> i64 {
        self.0
    }

    pub fn ticks(value: i64) -> (r: Self)
        ensures
            r.view_ticks() == value,
    {
        Self(value)
    }

    pub fn into_ticks(self) -> (r: i64)
        ensures
            r == self.view_ticks(),
    {
        self.0
    }
}

impl From<i64> for Price {
    fn from(value: i64) -> (r: Self)
        ensures
            r.view_ticks() == value,
    {
        Price::ticks(value)
    }
}

impl vstd::std_specs::convert::FromSpecImpl<i64> for Price {
    open spec fn obeys_from_spec() -> bool {
        true
    }

    closed spec fn from_spec(v: i64) -> Self {
        Price(v)
    }
}

impl From<Price> for i64 {
    fn from(value: Price) -> (r: Self)
        ensures
            r == value.view_ticks(),
    {
        value.into_ticks()
    }
}

impl vstd::std_specs::convert::FromSpecImpl<Price> for i64 {
    open spec fn obeys_from_spec() -> bool {
        true
    }

    open spec fn from_spec(v: Price) -> Self {
        v.view_ticks()
    }
}

/// Representation of a base quantity, which is always strictly positive.
#[derive(Clone, Copy, Debug, PartialEq, Eq, PartialOrd, Ord, Hash, Structural)]
pub struct BaseQty(i64);

impl BaseQty {
    #[verifier::type_invariant]
    spec fn positive(self) -> bool {
        self.0 > 0
    }

    pub closed spec fn value(self) -> i64 {
        self.0
    }

    /// The quantity holding `v`.
    pub closed spec fn spec_new(v: i64) -> BaseQty {
        BaseQty(v)
    }

    /// Builds a quantity from a value already known to be positive.
    pub fn new(value: i64) -> (r: Self)
        requires
            value > 0,
        ensures
            r.value() == value,
            r == BaseQty::spec_new(value),
    {
        Self(value)
    }

    /// `Some` exactly when `value` is strictly positive.
    pub fn from_i64(value: i64) -> (r: Option<Self>)
        ensures
            value <= 0 ==> r is None,
            value > 0 ==> (r matches Some(q) && q.value() == value && q == BaseQty::spec_new(value)),
    {
        if value <= 0 {
            None
        } else {
            Some(Self(value))
        }
    }

    pub fn into_inner(self) -> (r: i64)
        ensures
            r == self.value(),
            r > 0,
    {
        proof {
            use_type_invariant(&self);
        }
        self.0
    }
}

/// What converting an `i64` to a base quantity gives.
pub open spec fn base_qty_try_from(v: i64) -> Result<BaseQty, &'static str> {
    if v > 0 {
        Ok(BaseQty::spec_new(v))
    } else {
        Err("quantity must be positive")
    }
}

impl TryFrom<i64> for BaseQty {
    type Error = &'static str;

    fn try_from(value: i64) -> (r: Result<Self, Self::Error>)
        ensures
            value > 0 ==> (r matches Ok(q) && q.value() == value),
            value <= 0 ==> r is Err,
    {
        match BaseQty::from_i64(value) {
            Some(q) => Ok(q),
            None => Err("quantity must be positive"),
        }
    }
}

impl vstd::std_specs::convert::TryFromSpecImpl<i64> for BaseQty {
    open spec fn obeys_try_from_spec() -> bool {
        true
    }

    open spec fn try_from_spec(v: i64) -> Result<Self, Self::Error> {
        base_qty_try_from(v)
    }
}

/// Representation of a nonce.
#[derive(Clone, Copy, Debug, Default, PartialEq, Eq, PartialOrd, Ord, Hash, Structural)]
pub struct Nonce(i64);

impl Nonce {
    pub closed spec fn view_value(self) -> i64 {
        self.0
    }

    pub fn new(value: i64) -> (r: Self)
        ensures
            r.view_value() == value,
    {
        Self(value)
    }

    pub fn into_inner(self) -> (r: i64)
        ensures
            r == self.view_value(),
    {
        self.0
    }
}

impl From<i64> for Nonce {
    fn from(value: i64) -> (r: Self)
        ensures
            r.view_value() == value,
    {
        Nonce::new(value)
    }
}

impl vstd::std_specs::convert::FromSpecImpl<i64> for Nonce {
    open spec fn obeys_from_spec() -> bool {
        true
    }

    closed spec fn from_spec(v: i64) -> Self {
        Nonce(v)
    }
}

impl From<Nonce> for i64 {
    fn from(value: Nonce) -> (r: Self)
        ensures
            r == value.view_value(),
    {
        value.into_inner()
    }
}

impl vstd::std_specs::convert::FromSpecImpl<Nonce> for i64 {
    open spec fn obeys_from_spec() -> bool {
        true
    }

    open spec fn from_spec(v: Nonce) -> Self {
        v.view_value()
    }
}

/// `time::OffsetDateTime`, opaque here.
#[verifier::external_type_specification]
#[verifier::external_body]
pub struct ExOffsetDateTime(time::OffsetDateTime);

/// `time::error::ComponentRange`, opaque here.
#[verifier::external_type_specification]
#[verifier::external_body]
pub struct ExComponentRange(time::error::ComponentRange);

/// Earliest Unix timestamp every build of `time` accepts (year -9999).
pub const MIN_UNIX_TIMESTAMP: i64 = -377_705_116_800;
/// Latest Unix timestamp every build of `time` accepts (end of year 9999).
pub const MAX_UNIX_TIMESTAMP: i64 = 253_402_300_799;

/// Calls `time::OffsetDateTime::from_unix_timestamp` and reads the Unix
/// timestamp and nanosecond back from the date-time it builds. Claims that
/// timestamps of the years -9999 to 9999 are accepted (outside them the
/// result depends on how `time` was built) and that an accepted timestamp
/// comes back unchanged, at nanosecond zero.
#[verifier::external_body]
fn datetime_from_unix(timestamp: i64) -> (r: Result<(time::OffsetDateTime, i64, u32), time::error::ComponentRange>)
    ensures
        MIN_UNIX_TIMESTAMP <= timestamp <= MAX_UNIX_TIMESTAMP ==> r is Ok,
        r matches Ok(t) ==> t.1 == timestamp && t.2 == 0,
{
    match time::OffsetDateTime::from_unix_timestamp(timestamp) {
        Ok(datetime) => Ok((datetime, datetime.unix_timestamp(), datetime.nanosecond())),
        Err(e) => Err(e),
    }
}

/// Reads the Unix timestamp and the nanosecond of a `time::OffsetDateTime`
/// (`unix_timestamp` and `nanosecond`). Claims only what `time` documents:
/// the nanosecond is below one billion.
#[verifier::external_body]
fn datetime_parts(datetime: time::OffsetDateTime) -> (r: (i64, u32))
    ensures
        r.1 < 1_000_000_000,
{
    (datetime.unix_timestamp(), datetime.nanosecond())
}

/// An order expiry: a point in time, with its Unix seconds and nanosecond.
#[derive(Clone, Copy, Debug)]
pub struct Expiry {
    datetime: time::OffsetDateTime,
    seconds: i64,
    nanosecond: u32,
}

impl Expiry {
    pub closed spec fn unix_seconds(self) -> i64 {
        self.seconds
    }

    pub closed spec fn nanos(self) -> u32 {
        self.nanosecond
    }

    pub closed spec fn point(self) -> time::OffsetDateTime {
        self.datetime
    }

    #[verifier::type_invariant]
    closed spec fn nanos_in_range(self) -> bool {
        self.nanosecond < 1_000_000_000
    }

    /// The expiry at a Unix timestamp, in whole seconds; the years -9999 to
    /// 9999 are always accepted.
    pub fn unix(timestamp: i64) -> (r: Result<Self, time::error::ComponentRange>)
        ensures
            MIN_UNIX_TIMESTAMP <= timestamp <= MAX_UNIX_TIMESTAMP ==> r is Ok,
            r matches Ok(e) ==> e.unix_seconds() == timestamp && e.nanos() == 0,
    {
        match datetime_from_unix(timestamp) {
            Ok((datetime, seconds, nanosecond)) => Ok(Expiry { datetime, seconds, nanosecond }),
            Err(e) => Err(e),
        }
    }

    /// The expiry at a given date-time.
    pub fn from_datetime(datetime: time::OffsetDateTime) -> (r: Self)
        ensures
            r.point() == datetime,
    {
        let (seconds, nanosecond) = datetime_parts(datetime);
        Expiry { datetime, seconds, nanosecond }
    }

    pub fn into_unix(self) -> (r: i64)
        ensures
            r == self.unix_seconds(),
    {
        self.seconds
    }

    /// Unix milliseconds: the seconds times 1000, then plus the whole
    /// milliseconds of the nanosecond; `None` when either step leaves the
    /// `i64` range.
    pub fn into_unix_millis(self) -> (r: Option<i64>)
        ensures
            ({
                let scaled = self.unix_seconds() * 1000;
                let ms = scaled + self.nanos() / 1_000_000;
                &&& (i64::MIN <= scaled <= i64::MAX && i64::MIN <= ms <= i64::MAX) ==> r == Some(ms as i64)
                &&& !(i64::MIN <= scaled <= i64::MAX && i64::MIN <= ms <= i64::MAX) ==> r is None
            }),
    {
        let millis: i64 = (self.nanosecond / 1_000_000) as i64;
        match self.seconds.checked_mul(1000) {
            Some(scaled) => scaled.checked_add(millis),
            None => None,
        }
    }

    pub fn as_datetime(self) -> (r: time::OffsetDateTime)
        ensures
            r == self.point(),
    {
        self.datetime
    }
}

} // verus!
