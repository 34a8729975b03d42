//! Builders for the paginated history queries.
use crate::errors::Error;
use crate::params::{HistoryFilter, OrderFilter, PageCursor, SortDir, TimeRange, Timestamp, TradeSort};
use crate::types::MarketId;
use vstd::prelude::*;

verus! {

/// Query for trade history: a positive page size plus optional filters.
#[derive(Debug)]
pub struct TradesQuery {
    sort: TradeSort,
    limit: i64,
    market: Option<MarketId>,
    order_index: Option<i64>,
    direction: Option<SortDir>,
    from: Option<Timestamp>,
    cursor: Option<PageCursor>,
    filter: OrderFilter,
}

/// Abstract content of a [`TradesQuery`].
pub struct TradesQueryView {
    pub sort: TradeSort,
    pub limit: i64,
    pub market: Option<MarketId>,
    pub order_index: Option<i64>,
    pub direction: Option<SortDir>,
    pub from: Option<Timestamp>,
    pub cursor: Option<PageCursor>,
    pub filter: OrderFilter,
}

impl View for TradesQuery {
    type V = TradesQueryView;

    closed spec fn view(&self) -> TradesQueryView {
        TradesQueryView {
            sort: self.sort,
            limit: self.limit,
            market: self.market,
            order_index: self.order_index,
            direction: self.direction,
            from: self.from,
            cursor: self.cursor,
            filter: self.filter,
        }
    }
}

impl Clone for TradesQuery {
    fn clone(&self) -> (r: Self)
        ensures
            r@ == self@,
    {
        proof {
            use_type_invariant(self);
        }
        TradesQuery {
            sort: self.sort.clone(),
            limit: self.limit,
            market: self.market,
            order_index: self.order_index,
            direction: self.direction,
            from: self.from,
            cursor: match &self.cursor {
                Some(c) => Some(c.clone()),
                None => None,
            },
            filter: self.filter,
        }
    }
}

/// One call of a [`TradesQuery`] builder method, with its argument.
pub enum TradesBuilderStep {
    Market(MarketId),
    OrderIndex(i64),
    Direction(SortDir),
    From(Timestamp),
    Cursor(PageCursor),
    Filter(OrderFilter),
}

/// What one builder call makes of a trades query.
pub open spec fn trades_step(v: TradesQueryView, s: TradesBuilderStep) -> TradesQueryView {
    match s {
        TradesBuilderStep::Market(m) => TradesQueryView { market: Some(m), ..v },
        TradesBuilderStep::OrderIndex(i) => TradesQueryView { order_index: Some(i), ..v },
        TradesBuilderStep::Direction(d) => TradesQueryView { direction: Some(d), ..v },
        TradesBuilderStep::From(t) => TradesQueryView { from: Some(t), ..v },
        TradesBuilderStep::Cursor(c) => TradesQueryView { cursor: Some(c), ..v },
        TradesBuilderStep::Filter(f) => TradesQueryView { filter: f, ..v },
    }
}

/// What a chain of builder calls makes of a trades query, first call first.
pub open spec fn trades_steps(v: TradesQueryView, steps: Seq<TradesBuilderStep>) -> TradesQueryView
    decreases steps.len(),
{
    if steps.len() == 0 {
        v
    } else {
        trades_step(trades_steps(v, steps.drop_last()), steps.last())
    }
}

/// Any chain of builder calls keeps the page size a trades query was made
/// with.
pub proof fn law_trades_builders_keep_limit(v: TradesQueryView, steps: Seq<TradesBuilderStep>)
    ensures
        trades_steps(v, steps).limit == v.limit,
    decreases steps.len(),
{
    if steps.len() > 0 {
        law_trades_builders_keep_limit(v, steps.drop_last());
    }
}

impl TradesQuery {
    #[verifier::type_invariant]
    spec fn limit_positive(self) -> bool {
        self.limit > 0
    }

    /// `Ok` exactly for a positive limit; the new query has no filters set
    /// and the side filter `All`.
    pub fn new(sort: TradeSort, limit: i64) -> (r: Result<Self, Error>)
        ensures
            limit > 0 <==> r is Ok,
            r matches Ok(q) ==> q@ == (TradesQueryView {
                sort,
                limit,
                market: None,
                order_index: None,
                direction: None,
                from: None,
                cursor: None,
                filter: OrderFilter::All,
            }),
            r matches Err(e) ==> (e matches Error::InvalidConfig { field, why } && field@
                == "limit"@ && why@ == "must be positive"@),
    {
        if limit <= 0 {
            return Err(Error::InvalidConfig { field: "limit", why: "must be positive" });
        }
        Ok(Self {
            sort,
            limit,
            market: None,
            order_index: None,
            direction: None,
            from: None,
            cursor: None,
            filter: OrderFilter::All,
        })
    }

    pub fn market(self, market: MarketId) -> (r: Self)
        ensures
            r@ == (TradesQueryView { market: Some(market), ..self@ }),
            r@ == trades_step(self@, TradesBuilderStep::Market(market)),
    {
        proof {
            use_type_invariant(&self);
        }
        Self { market: Some(market), ..self }
    }

    pub fn order_index(self, order_index: i64) -> (r: Self)
        ensures
            r@ == (TradesQueryView { order_index: Some(order_index), ..self@ }),
            r@ == trades_step(self@, TradesBuilderStep::OrderIndex(order_index)),
    {
        proof {
            use_type_invariant(&self);
        }
        Self { order_index: Some(order_index), ..self }
    }

    pub fn direction(self, direction: SortDir) -> (r: Self)
        ensures
            r@ == (TradesQueryView { direction: Some(direction), ..self@ }),
            r@ == trades_step(self@, TradesBuilderStep::Direction(direction)),
    {
        proof {
            use_type_invariant(&self);
        }
        Self { direction: Some(direction), ..self }
    }

    pub fn from(self, timestamp: Timestamp) -> (r: Self)
        ensures
            r@ == (TradesQueryView { from: Some(timestamp), ..self@ }),
            r@ == trades_step(self@, TradesBuilderStep::From(timestamp)),
    {
        proof {
            use_type_invariant(&self);
        }
        Self { from: Some(timestamp), ..self }
    }

    pub fn cursor(self, cursor: PageCursor) -> (r: Self)
        ensures
            r@ == (TradesQueryView { cursor: Some(cursor), ..self@ }),
            r@ == trades_step(self@, TradesBuilderStep::Cursor(cursor)),
    {
        proof {
            use_type_invariant(&self);
        }
        Self { cursor: Some(cursor), ..self }
    }

    pub fn filter(self, filter: OrderFilter) -> (r: Self)
        ensures
            r@ == (TradesQueryView { filter, ..self@ }),
            r@ == trades_step(self@, TradesBuilderStep::Filter(filter)),
    {
        proof {
            use_type_invariant(&self);
        }
        Self { filter, ..self }
    }

    /// The page size; always positive.
    pub fn limit(&self) -> (r: i64)
        ensures
            r == self@.limit,
            r > 0,
    {
        proof {
            use_type_invariant(self);
        }
        self.limit
    }

    pub fn sort(&self) -> (r: &TradeSort)
        ensures
            *r == self@.sort,
    {
        &self.sort
    }

    pub fn market_id(&self) -> (r: Option<MarketId>)
        ensures
            r == self@.market,
    {
        self.market
    }

    pub fn order_index_value(&self) -> (r: Option<i64>)
        ensures
            r == self@.order_index,
    {
        self.order_index
    }

    pub fn sort_direction(&self) -> (r: Option<SortDir>)
        ensures
            r == self@.direction,
    {
        self.direction
    }

    pub fn from_timestamp(&self) -> (r: Option<Timestamp>)
        ensures
            r == self@.from,
    {
        self.from
    }

    pub fn cursor_ref(&self) -> (r: Option<&PageCursor>)
        ensures
            r == (match self@.cursor {
                Some(c) => Some(&c),
                None => None,
            }),
    {
        self.cursor.as_ref()
    }

    pub fn order_filter(&self) -> (r: OrderFilter)
        ensures
            r == self@.filter,
    {
        self.filter
    }
}

/// Query for inactive orders: a positive page size plus optional filters.
#[derive(Debug)]
pub struct InactiveOrdersQuery {
    limit: i64,
    market: Option<MarketId>,
    filter: OrderFilter,
    between: Option<TimeRange>,
    cursor: Option<PageCursor>,
}

/// Abstract content of an [`InactiveOrdersQuery`].
pub struct InactiveOrdersQueryView {
    pub limit: i64,
    pub market: Option<MarketId>,
    pub filter: OrderFilter,
    pub between: Option<TimeRange>,
    pub cursor: Option<PageCursor>,
}

impl View for InactiveOrdersQuery {
    type V = InactiveOrdersQueryView;

    closed spec fn view(&self) -> InactiveOrdersQueryView {
        InactiveOrdersQueryView {
            limit: self.limit,
            market: self.market,
            filter: self.filter,
            between: self.between,
            cursor: self.cursor,
        }
    }
}

impl Clone for InactiveOrdersQuery {
    fn clone(&self) -> (r: Self)
        ensures
            r@ == self@,
    {
        proof {
            use_type_invariant(self);
        }
        InactiveOrdersQuery {
            limit: self.limit,
            market: self.market,
            filter: self.filter,
            between: self.between,
            cursor: match &self.cursor {
                Some(c) => Some(c.clone()),
                None => None,
            },
        }
    }
}

/// One call of an [`InactiveOrdersQuery`] builder method, with its argument.
pub enum InactiveBuilderStep {
    Market(MarketId),
    Filter(OrderFilter),
    Between(TimeRange),
    Cursor(PageCursor),
}

/// What one builder call makes of an inactive-orders query.
pub open spec fn inactive_step(v: InactiveOrdersQueryView, s: InactiveBuilderStep) -> InactiveOrdersQueryView {
    match s {
        InactiveBuilderStep::Market(m) => InactiveOrdersQueryView { market: Some(m), ..v },
        InactiveBuilderStep::Filter(f) => InactiveOrdersQueryView { filter: f, ..v },
        InactiveBuilderStep::Between(r) => InactiveOrdersQueryView { between: Some(r), ..v },
        InactiveBuilderStep::Cursor(c) => InactiveOrdersQueryView { cursor: Some(c), ..v },
    }
}

/// What a chain of builder calls makes of an inactive-orders query, first
/// call first.
pub open spec fn inactive_steps(v: InactiveOrdersQueryView, steps: Seq<InactiveBuilderStep>) -> InactiveOrdersQueryView
    decreases steps.len(),
{
    if steps.len() == 0 {
        v
    } else {
        inactive_step(inactive_steps(v, steps.drop_last()), steps.last())
    }
}

/// Any chain of builder calls keeps the page size an inactive-orders query
/// was made with.
pub proof fn law_inactive_builders_keep_limit(v: InactiveOrdersQueryView, steps: Seq<InactiveBuilderStep>)
    ensures
        inactive_steps(v, steps).limit == v.limit,
    decreases steps.len(),
{
    if steps.len() > 0 {
        law_inactive_builders_keep_limit(v, steps.drop_last());
    }
}

impl InactiveOrdersQuery {
    #[verifier::type_invariant]
    spec fn limit_positive(self) -> bool {
        self.limit > 0
    }

    /// `Ok` exactly for a positive limit.
    pub fn new(limit: i64) -> (r: Result<Self, Error>)
        ensures
            limit > 0 <==> r is Ok,
            r matches Ok(q) ==> q@ == (InactiveOrdersQueryView {
                limit,
                market: None,
                filter: OrderFilter::All,
                between: None,
                cursor: None,
            }),
            r matches Err(e) ==> (e matches Error::InvalidConfig { field, why } && field@
                == "limit"@ && why@ == "must be positive"@),
    {
        if limit <= 0 {
            return Err(Error::InvalidConfig { field: "limit", why: "must be positive" });
        }
        Ok(Self { limit, market: None, filter: OrderFilter::All, between: None, cursor: None })
    }

    pub fn market(self, market: MarketId) -> (r: Self)
        ensures
            r@ == (InactiveOrdersQueryView { market: Some(market), ..self@ }),
            r@ == inactive_step(self@, InactiveBuilderStep::Market(market)),
    {
        proof {
            use_type_invariant(&self);
        }
        Self { market: Some(market), ..self }
    }

    pub fn filter(self, filter: OrderFilter) -> (r: Self)
        ensures
            r@ == (InactiveOrdersQueryView { filter, ..self@ }),
            r@ == inactive_step(self@, InactiveBuilderStep::Filter(filter)),
    {
        proof {
            use_type_invariant(&self);
        }
        Self { filter, ..self }
    }

    pub fn between(self, range: TimeRange) -> (r: Self)
        ensures
            r@ == (InactiveOrdersQueryView { between: Some(range), ..self@ }),
            r@ == inactive_step(self@, InactiveBuilderStep::Between(range)),
    {
        proof {
            use_type_invariant(&self);
        }
        Self { between: Some(range), ..self }
    }

    pub fn cursor(self, cursor: PageCursor) -> (r: Self)
        ensures
            r@ == (InactiveOrdersQueryView { cursor: Some(cursor), ..self@ }),
            r@ == inactive_step(self@, InactiveBuilderStep::Cursor(cursor)),
    {
        proof {
            use_type_invariant(&self);
        }
        Self { cursor: Some(cursor), ..self }
    }

    /// The page size; always positive.
    pub fn limit(&self) -> (r: i64)
        ensures
            r == self@.limit,
            r > 0,
    {
        proof {
            use_type_invariant(self);
        }
        self.limit
    }

    pub fn market_id(&self) -> (r: Option<MarketId>)
        ensures
            r == self@.market,
    {
        self.market
    }

    pub fn order_filter(&self) -> (r: OrderFilter)
        ensures
            r == self@.filter,
    {
        self.filter
    }

    pub fn between_range(&self) -> (r: Option<TimeRange>)
        ensures
            r == self@.between,
    {
        self.between
    }

    pub fn cursor_ref(&self) -> (r: Option<&PageCursor>)
        ensures
            r == (match self@.cursor {
                Some(c) => Some(&c),
                None => None,
            }),
    {
        self.cursor.as_ref()
    }
}

/// Query for deposit, withdraw and transfer histories.
#[derive(Clone, Debug)]
pub struct HistoryQuery {
    cursor: Option<PageCursor>,
    filter: Option<HistoryFilter>,
}

/// Abstract content of a [`HistoryQuery`].
pub struct HistoryQueryView {
    pub cursor: Option<PageCursor>,
    pub filter: Option<HistoryFilter>,
}

impl View for HistoryQuery {
    type V = HistoryQueryView;

    closed spec fn view(&self) -> HistoryQueryView {
        HistoryQueryView { cursor: self.cursor, filter: self.filter }
    }
}

impl HistoryQuery {
    pub fn new() -> (r: Self)
        ensures
            r@ == (HistoryQueryView { cursor: None, filter: None }),
    {
        Self { cursor: None, filter: None }
    }

    pub fn cursor(self, cursor: PageCursor) -> (r: Self)
        ensures
            r@ == (HistoryQueryView { cursor: Some(cursor), ..self@ }),
    {
        Self { cursor: Some(cursor), ..self }
    }

    pub fn filter(self, filter: HistoryFilter) -> (r: Self)
        ensures
            r@ == (HistoryQueryView { filter: Some(filter), ..self@ }),
    {
        Self { filter: Some(filter), ..self }
    }

    pub fn cursor_ref(&self) -> (r: Option<&PageCursor>)
        ensures
            r == (match self@.cursor {
                Some(c) => Some(&c),
                None => None,
            }),
    {
        self.cursor.as_ref()
    }

    pub fn filter_ref(&self) -> (r: Option<&HistoryFilter>)
        ensures
            r == (match self@.filter {
                Some(f) => Some(&f),
                None => None,
            }),
    {
        self.filter.as_ref()
    }
}

impl Default for HistoryQuery {
    fn default() -> (r: Self)
        ensures
            r@ == (HistoryQueryView { cursor: None, filter: None }),
    {
        Self::new()
    }
}

} // verus!
