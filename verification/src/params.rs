//! Validated parameters accepted by the REST endpoints.
use crate::decimal::{int_text, push_int_text, string_from_chars};
use crate::errors::Error;
use vstd::prelude::*;

verus! {

/// Selector used by block and transaction endpoints.
#[derive(Clone, Copy, Debug, PartialEq, Eq, Structural)]
pub enum By {
    Height,
    Commitment,
    Hash,
    L1Hash,
}

pub open spec fn by_text(by: By) -> Seq<char> {
    match by {
        By::Height => "height"@,
        By::Commitment => "commitment"@,
        By::Hash => "hash"@,
        By::L1Hash => "l1_tx_hash"@,
    }
}

impl By {
    pub fn as_str(self) -> (r: &'static str)
        ensures
            r@ == by_text(self),
    {
        match self {
            By::Height => "height",
            By::Commitment => "commitment",
            By::Hash => "hash",
            By::L1Hash => "l1_tx_hash",
        }
    }
}

/// Sorting direction helper for list endpoints.
#[derive(Clone, Copy, Debug, PartialEq, Eq, Structural)]
pub enum SortDir {
    Asc,
    Desc,
}

impl SortDir {
    /// The text sent to the server: `asc` or `desc`.
    pub fn as_str(self) -> (r: &'static str)
        ensures
            r@ == (match self {
                SortDir::Asc => "asc"@,
                SortDir::Desc => "desc"@,
            }),
    {
        match self {
            SortDir::Asc => "asc",
            SortDir::Desc => "desc",
        }
    }
}

/// Cursor used for pagination parameters; never empty.
#[derive(Debug)]
pub struct PageCursor(pub(crate) String);

impl Clone for PageCursor {
    fn clone(&self) -> (r: Self)
        ensures
            r == *self,
    {
        PageCursor(self.0.clone())
    }
}

impl PageCursor {
    pub closed spec fn view_text(&self) -> Seq<char> {
        self.0@
    }

    /// Rejects the empty cursor with `InvalidConfig { field: "cursor", .. }`.
    pub fn new(value: String) -> (r: Result<Self, Error>)
        ensures
            value@.len() == 0 <==> r is Err,
            r matches Ok(c) ==> c.view_text() == value@,
            r matches Err(e) ==> (e matches Error::InvalidConfig { field, why } && field@
                == "cursor"@ && why@ == "cannot be empty"@),
    {
        if value.as_str().is_empty() {
            return Err(Error::InvalidConfig { field: "cursor", why: "cannot be empty" });
        }
        Ok(Self(value))
    }

    pub fn as_str(&self) -> (r: &str)
        ensures
            r@ == self.view_text(),
    {
        self.0.as_str()
    }

    pub fn into_owned(self) -> (r: String)
        ensures
            r@ == self.view_text(),
    {
        self.0
    }
}

/// Unix timestamp validated to be positive.
#[derive(Clone, Copy, Debug, PartialEq, Eq, PartialOrd, Ord, Structural)]
pub struct Timestamp(i64);

impl Timestamp {
    pub closed spec fn seconds(self) -> i64 {
        self.0
    }

    #[verifier::type_invariant]
    spec fn positive(self) -> bool {
        self.0 > 0
    }

    /// The timestamp at `v` seconds.
    pub closed spec fn spec_at(v: i64) -> Timestamp {
        Timestamp(v)
    }

    /// `Ok` exactly for positive unix seconds.
    pub fn new(unix_seconds: i64) -> (r: Result<Self, Error>)
        ensures
            r == timestamp_from(unix_seconds),
            unix_seconds > 0 <==> r is Ok,
            r matches Ok(t) ==> t.seconds() == unix_seconds,
            r matches Err(e) ==> (e matches Error::InvalidConfig { field, why } && field@
                == "timestamp"@ && why@ == "must be positive unix seconds"@),
    {
        if unix_seconds <= 0 {
            return Err(Error::InvalidConfig { field: "timestamp", why: "must be positive unix seconds" });
        }
        Ok(Self(unix_seconds))
    }

    pub fn into_unix(self) -> (r: i64)
        ensures
            r == self.seconds(),
            r > 0,
    {
        proof {
            use_type_invariant(&self);
        }
        self.0
    }
}

/// What `Timestamp::new` gives for some unix seconds.
pub open spec fn timestamp_from(unix_seconds: i64) -> Result<Timestamp, Error> {
    if unix_seconds > 0 {
        Ok(Timestamp::spec_at(unix_seconds))
    } else {
        Err(Error::InvalidConfig { field: "timestamp", why: "must be positive unix seconds" })
    }
}

impl TryFrom<i64> for Timestamp {
    type Error = Error;

    /// The same as `Timestamp::new`.
    fn try_from(value: i64) -> (r: Result<Self, Error>)
        ensures
            r == timestamp_from(value),
            value > 0 <==> r is Ok,
            r matches Ok(t) ==> t.seconds() == value,
    {
        Timestamp::new(value)
    }
}

impl vstd::std_specs::convert::TryFromSpecImpl<i64> for Timestamp {
    open spec fn obeys_try_from_spec() -> bool {
        true
    }

    open spec fn try_from_spec(v: i64) -> Result<Self, Error> {
        timestamp_from(v)
    }
}

/// Time range with `start <= end`.
#[derive(Clone, Copy, Debug)]
pub struct TimeRange {
    start: Timestamp,
    end: Timestamp,
}

/// Query text of a range: `<start>,<end>`.
pub open spec fn range_query_text(start: i64, end: i64) -> Seq<char> {
    int_text(start as int) + ","@ + int_text(end as int)
}

impl TimeRange {
    pub closed spec fn start_seconds(self) -> i64 {
        self.start.seconds()
    }

    pub closed spec fn end_seconds(self) -> i64 {
        self.end.seconds()
    }

    #[verifier::type_invariant]
    spec fn ordered(self) -> bool {
        self.start.seconds() <= self.end.seconds()
    }

    /// `Ok` exactly when `end` is not before `start`.
    pub fn new(start: Timestamp, end: Timestamp) -> (r: Result<Self, Error>)
        ensures
            (end.seconds() >= start.seconds()) <==> r is Ok,
            r matches Ok(t) ==> t.start_seconds() == start.seconds() && t.end_seconds()
                == end.seconds(),
            r matches Err(e) ==> (e matches Error::InvalidConfig { field, why } && field@
                == "time_range"@ && why@ == "end must be after start"@),
    {
        if end.0 < start.0 {
            return Err(Error::InvalidConfig { field: "time_range", why: "end must be after start" });
        }
        Ok(Self { start, end })
    }

    /// The start; never after the end.
    pub fn start(self) -> (r: Timestamp)
        ensures
            r.seconds() == self.start_seconds(),
            r.seconds() <= self.end_seconds(),
    {
        proof {
            use_type_invariant(&self);
        }
        self.start
    }

    /// The end; never before the start.
    pub fn end(self) -> (r: Timestamp)
        ensures
            r.seconds() == self.end_seconds(),
            self.start_seconds() <= r.seconds(),
    {
        proof {
            use_type_invariant(&self);
        }
        self.end
    }

    /// Start and end seconds, both positive and in order.
    pub fn bounds(self) -> (r: (i64, i64))
        ensures
            r == (self.start_seconds(), self.end_seconds()),
            0 < r.0 <= r.1,
    {
        proof {
            use_type_invariant(&self);
            use_type_invariant(&self.start);
        }
        (self.start.0, self.end.0)
    }

    pub fn as_query(self) -> (r: String)
        ensures
            r@ == range_query_text(self.start_seconds(), self.end_seconds()),
    {
        let (start, end) = self.bounds();
        let mut out: Vec<char> = Vec::new();
        push_int_text(start as i128, &mut out);
        out.push(',');
        push_int_text(end as i128, &mut out);
        proof {
            reveal_strlit(",");
        }
        string_from_chars(&out)
    }
}

/// Resolution options used by PnL and statistics endpoints.
#[derive(Clone, Debug)]
pub enum PnlResolution {
    Hour,
    Day,
    Week,
    Month,
    Custom(String),
}

pub open spec fn pnl_resolution_text(r: PnlResolution) -> Seq<char> {
    match r {
        PnlResolution::Hour => "hour"@,
        PnlResolution::Day => "day"@,
        PnlResolution::Week => "week"@,
        PnlResolution::Month => "month"@,
        PnlResolution::Custom(v) => v@,
    }
}

impl PnlResolution {
    pub fn as_str(&self) -> (r: &str)
        ensures
            r@ == pnl_resolution_text(*self),
    {
        match self {
            PnlResolution::Hour => "hour",
            PnlResolution::Day => "day",
            PnlResolution::Week => "week",
            PnlResolution::Month => "month",
            PnlResolution::Custom(value) => value.as_str(),
        }
    }
}

/// Candle resolution helper used by market data endpoints.
#[derive(Clone, Debug)]
pub enum CandleResolution {
    OneMinute,
    FiveMinutes,
    FifteenMinutes,
    OneHour,
    FourHours,
    OneDay,
    OneWeek,
    Custom(String),
}

pub open spec fn candle_resolution_text(r: CandleResolution) -> Seq<char> {
    match r {
        CandleResolution::OneMinute => "1m"@,
        CandleResolution::FiveMinutes => "5m"@,
        CandleResolution::FifteenMinutes => "15m"@,
        CandleResolution::OneHour => "1h"@,
        CandleResolution::FourHours => "4h"@,
        CandleResolution::OneDay => "1d"@,
        CandleResolution::OneWeek => "1w"@,
        CandleResolution::Custom(v) => v@,
    }
}

impl CandleResolution {
    pub fn as_str(&self) -> (r: &str)
        ensures
            r@ == candle_resolution_text(*self),
    {
        match self {
            CandleResolution::OneMinute => "1m",
            CandleResolution::FiveMinutes => "5m",
            CandleResolution::FifteenMinutes => "15m",
            CandleResolution::OneHour => "1h",
            CandleResolution::FourHours => "4h",
            CandleResolution::OneDay => "1d",
            CandleResolution::OneWeek => "1w",
            CandleResolution::Custom(value) => value.as_str(),
        }
    }
}

/// Sort keys accepted by trade history endpoints.
#[derive(Debug)]
pub enum TradeSort {
    BlockHeight,
    Timestamp,
    TradeId,
    Custom(String),
}

impl Clone for TradeSort {
    fn clone(&self) -> (r: Self)
        ensures
            r == *self,
    {
        match self {
            TradeSort::BlockHeight => TradeSort::BlockHeight,
            TradeSort::Timestamp => TradeSort::Timestamp,
            TradeSort::TradeId => TradeSort::TradeId,
            TradeSort::Custom(s) => TradeSort::Custom(s.clone()),
        }
    }
}

pub open spec fn trade_sort_text(s: TradeSort) -> Seq<char> {
    match s {
        TradeSort::BlockHeight => "block_height"@,
        TradeSort::Timestamp => "timestamp"@,
        TradeSort::TradeId => "trade_id"@,
        TradeSort::Custom(v) => v@,
    }
}

impl TradeSort {
    pub fn as_str(&self) -> (r: &str)
        ensures
            r@ == trade_sort_text(*self),
    {
        match self {
            TradeSort::BlockHeight => "block_height",
            TradeSort::Timestamp => "timestamp",
            TradeSort::TradeId => "trade_id",
            TradeSort::Custom(value) => value.as_str(),
        }
    }
}

/// Order side filter used by inactive order and trade listings.
#[derive(Clone, Copy, Debug, PartialEq, Eq, Structural)]
pub enum OrderFilter {
    All,
    Bids,
    Asks,
    Custom(i32),
}

impl OrderFilter {
    /// The `ask_filter` query value: none for `All`, 0 for bids, 1 for asks.
    pub fn as_query(self) -> (r: Option<i32>)
        ensures
            r == (match self {
                OrderFilter::All => None,
                OrderFilter::Bids => Some(0i32),
                OrderFilter::Asks => Some(1i32),
                OrderFilter::Custom(v) => Some(v),
            }),
    {
        match self {
            OrderFilter::All => None,
            OrderFilter::Bids => Some(0),
            OrderFilter::Asks => Some(1),
            OrderFilter::Custom(value) => Some(value),
        }
    }
}

/// Side selector for funding history endpoints.
#[derive(Clone, Copy, Debug, PartialEq, Eq, Structural)]
pub enum FundingSide {
    Bid,
    Ask,
}

impl FundingSide {
    pub fn as_str(self) -> (r: &'static str)
        ensures
            r@ == (match self {
                FundingSide::Bid => "bid"@,
                FundingSide::Ask => "ask"@,
            }),
    {
        match self {
            FundingSide::Bid => "bid",
            FundingSide::Ask => "ask",
        }
    }
}

/// Filter applied to public pool listings.
#[derive(Clone, Debug)]
pub enum PoolFilter {
    Active,
    Inactive,
    Custom(String),
}

impl PoolFilter {
    pub fn as_str(&self) -> (r: &str)
        ensures
            r@ == (match *self {
                PoolFilter::Active => "active"@,
                PoolFilter::Inactive => "inactive"@,
                PoolFilter::Custom(v) => v@,
            }),
    {
        match self {
            PoolFilter::Active => "active",
            PoolFilter::Inactive => "inactive",
            PoolFilter::Custom(value) => value.as_str(),
        }
    }
}

/// Filter applied to deposit and withdraw history endpoints.
#[derive(Clone, Debug)]
pub enum HistoryFilter {
    All,
    Pending,
    Claimable,
    Custom(String),
}

pub open spec fn history_filter_text(f: HistoryFilter) -> Seq<char> {
    match f {
        HistoryFilter::All => "all"@,
        HistoryFilter::Pending => "pending"@,
        HistoryFilter::Claimable => "claimable"@,
        HistoryFilter::Custom(v) => v@,
    }
}

impl HistoryFilter {
    pub fn as_str(&self) -> (r: &str)
        ensures
            r@ == history_filter_text(*self),
    {
        match self {
            HistoryFilter::All => "all",
            HistoryFilter::Pending => "pending",
            HistoryFilter::Claimable => "claimable",
            HistoryFilter::Custom(value) => value.as_str(),
        }
    }
}

} // verus!
