//! Websocket channel bookkeeping and message classification: the
//! subscription set, the channel names it subscribes to, the events the
//! client emits, and the checks on outgoing transaction batches.
use crate::decimal::{int_text, parse_i32_chars, parse_i32_spec, parse_i64_chars, parse_i64_spec, push_int_text, str_chars, string_from_chars};
use crate::errors::WsClientError;
use crate::types::{AccountId, MarketId};
use std::collections::HashMap;
use vstd::prelude::*;
use vstd::string::StringExecFns;

verus! {

/// Close frame reported by the server.
#[derive(Clone, Debug)]
pub struct CloseFrameInfo {
    pub code: u16,
    pub reason: String,
}

/// One transaction of a transaction channel update.
#[derive(Clone, Debug)]
pub struct TransactionData {
    pub hash: String,
    pub tx_type: u32,
    pub info: String,
    pub event_info: String,
    pub status: u32,
    pub transaction_index: i64,
    pub l1_address: String,
    pub account_index: u64,
    pub nonce: u64,
    pub expire_at: i64,
    pub block_height: i64,
    pub queued_at: i64,
    pub executed_at: i64,
    pub sequence_index: i64,
    pub parent_hash: String,
}

/// Update of the public transaction channel.
#[derive(Clone, Debug)]
pub struct TransactionEvent {
    pub channel: String,
    pub txs: Vec<TransactionData>,
}

/// Update of the executed transaction channel.
#[derive(Clone, Debug)]
pub struct ExecutedTransactionEvent {
    pub channel: String,
    pub executed_txs: Vec<TransactionData>,
}

/// Update of the block height channel.
#[derive(Clone, Debug)]
pub struct HeightEvent {
    pub channel: String,
    pub height: i64,
}

/// Best bid and offer of a market.
#[derive(Clone, Debug)]
pub struct BBOEvent {
    pub channel: String,
    pub market_id: u32,
    pub best_bid: Option<String>,
    pub best_ask: Option<String>,
    pub timestamp: i64,
}


/// Channels to subscribe to once connected. Lists may hold repeats; each
/// entry is subscribed as given.
#[derive(Clone, Debug)]
pub struct SubscriptionSet {
    pub order_books: Vec<MarketId>,
    pub accounts: Vec<AccountId>,
    pub bbo: Vec<MarketId>,
    pub trades: Vec<MarketId>,
    pub market_stats: Vec<MarketId>,
    pub subscribe_transactions: bool,
    pub subscribe_executed_transactions: bool,
    pub subscribe_height: bool,
    pub account_all_positions: Vec<AccountId>,
    pub account_all_trades: Vec<AccountId>,
    pub account_all_orders: Vec<AccountId>,
    pub user_stats: Vec<AccountId>,
    pub account_tx: Vec<AccountId>,
    pub pool_data: Vec<AccountId>,
    pub pool_info: Vec<AccountId>,
    pub notifications: Vec<AccountId>,
    pub account_market: Vec<(MarketId, AccountId)>,
    pub account_market_orders: Vec<(MarketId, AccountId)>,
    pub account_market_positions: Vec<(MarketId, AccountId)>,
    pub account_market_trades: Vec<(MarketId, AccountId)>,
}

/// No channel at all.
pub open spec fn no_subscriptions(s: SubscriptionSet) -> bool {
    &&& s.order_books@.len() == 0
    &&& s.accounts@.len() == 0
    &&& s.bbo@.len() == 0
    &&& s.trades@.len() == 0
    &&& s.market_stats@.len() == 0
    &&& !s.subscribe_transactions
    &&& !s.subscribe_executed_transactions
    &&& !s.subscribe_height
    &&& s.account_all_positions@.len() == 0
    &&& s.account_all_trades@.len() == 0
    &&& s.account_all_orders@.len() == 0
    &&& s.user_stats@.len() == 0
    &&& s.account_tx@.len() == 0
    &&& s.pool_data@.len() == 0
    &&& s.pool_info@.len() == 0
    &&& s.notifications@.len() == 0
    &&& s.account_market@.len() == 0
    &&& s.account_market_orders@.len() == 0
    &&& s.account_market_positions@.len() == 0
    &&& s.account_market_trades@.len() == 0
}

/// Some channel is private to an account and needs authentication.
pub open spec fn has_private_channel(s: SubscriptionSet) -> bool {
    ||| s.accounts@.len() > 0
    ||| s.account_all_positions@.len() > 0
    ||| s.account_all_trades@.len() > 0
    ||| s.account_all_orders@.len() > 0
    ||| s.user_stats@.len() > 0
    ||| s.account_tx@.len() > 0
    ||| s.pool_data@.len() > 0
    ||| s.pool_info@.len() > 0
    ||| s.notifications@.len() > 0
    ||| s.account_market@.len() > 0
    ||| s.account_market_orders@.len() > 0
    ||| s.account_market_positions@.len() > 0
    ||| s.account_market_trades@.len() > 0
}

impl Default for SubscriptionSet {
    fn default() -> (r: Self)
        ensures
            no_subscriptions(r),
    {
        SubscriptionSet {
            order_books: Vec::new(),
            accounts: Vec::new(),
            bbo: Vec::new(),
            trades: Vec::new(),
            market_stats: Vec::new(),
            subscribe_transactions: false,
            subscribe_executed_transactions: false,
            subscribe_height: false,
            account_all_positions: Vec::new(),
            account_all_trades: Vec::new(),
            account_all_orders: Vec::new(),
            user_stats: Vec::new(),
            account_tx: Vec::new(),
            pool_data: Vec::new(),
            pool_info: Vec::new(),
            notifications: Vec::new(),
            account_market: Vec::new(),
            account_market_orders: Vec::new(),
            account_market_positions: Vec::new(),
            account_market_trades: Vec::new(),
        }
    }
}

impl SubscriptionSet {
    pub fn add_order_book(&mut self, market: MarketId)
        ensures
            *final(self) == (SubscriptionSet { order_books: final(self).order_books, ..*old(self) }),
            final(self).order_books@ == old(self).order_books@.push(market),
    {
        self.order_books.push(market);
    }

    pub fn add_account(&mut self, account: AccountId)
        ensures
            *final(self) == (SubscriptionSet { accounts: final(self).accounts, ..*old(self) }),
            final(self).accounts@ == old(self).accounts@.push(account),
    {
        self.accounts.push(account);
    }

    /// Appends the given markets to the order books, in order.
    pub fn extend_order_books(&mut self, markets: Vec<MarketId>)
        ensures
            *final(self) == (SubscriptionSet { order_books: final(self).order_books, ..*old(self) }),
            final(self).order_books@ == old(self).order_books@ + markets@,
    {
        let mut markets = markets;
        self.order_books.append(&mut markets);
    }

    pub fn add_bbo(&mut self, market: MarketId)
        ensures
            *final(self) == (SubscriptionSet { bbo: final(self).bbo, ..*old(self) }),
            final(self).bbo@ == old(self).bbo@.push(market),
    {
        self.bbo.push(market);
    }

    pub fn add_trade(&mut self, market: MarketId)
        ensures
            *final(self) == (SubscriptionSet { trades: final(self).trades, ..*old(self) }),
            final(self).trades@ == old(self).trades@.push(market),
    {
        self.trades.push(market);
    }

    pub fn add_market_stats(&mut self, market: MarketId)
        ensures
            *final(self) == (SubscriptionSet { market_stats: final(self).market_stats, ..*old(self) }),
            final(self).market_stats@ == old(self).market_stats@.push(market),
    {
        self.market_stats.push(market);
    }

    pub fn add_account_all_positions(&mut self, account: AccountId)
        ensures
            *final(self) == (SubscriptionSet { account_all_positions: final(self).account_all_positions, ..*old(self) }),
            final(self).account_all_positions@ == old(self).account_all_positions@.push(account),
    {
        self.account_all_positions.push(account);
    }

    pub fn add_account_all_trades(&mut self, account: AccountId)
        ensures
            *final(self) == (SubscriptionSet { account_all_trades: final(self).account_all_trades, ..*old(self) }),
            final(self).account_all_trades@ == old(self).account_all_trades@.push(account),
    {
        self.account_all_trades.push(account);
    }

    pub fn add_account_all_orders(&mut self, account: AccountId)
        ensures
            *final(self) == (SubscriptionSet { account_all_orders: final(self).account_all_orders, ..*old(self) }),
            final(self).account_all_orders@ == old(self).account_all_orders@.push(account),
    {
        self.account_all_orders.push(account);
    }

    pub fn add_user_stats(&mut self, account: AccountId)
        ensures
            *final(self) == (SubscriptionSet { user_stats: final(self).user_stats, ..*old(self) }),
            final(self).user_stats@ == old(self).user_stats@.push(account),
    {
        self.user_stats.push(account);
    }

    pub fn add_account_tx(&mut self, account: AccountId)
        ensures
            *final(self) == (SubscriptionSet { account_tx: final(self).account_tx, ..*old(self) }),
            final(self).account_tx@ == old(self).account_tx@.push(account),
    {
        self.account_tx.push(account);
    }

    pub fn add_account_market(&mut self, market: MarketId, account: AccountId)
        ensures
            *final(self) == (SubscriptionSet { account_market: final(self).account_market, ..*old(self) }),
            final(self).account_market@ == old(self).account_market@.push((market, account)),
    {
        self.account_market.push((market, account));
    }

    pub fn add_account_market_orders(&mut self, market: MarketId, account: AccountId)
        ensures
            *final(self) == (SubscriptionSet { account_market_orders: final(self).account_market_orders, ..*old(self) }),
            final(self).account_market_orders@ == old(self).account_market_orders@.push((market, account)),
    {
        self.account_market_orders.push((market, account));
    }

    pub fn add_account_market_positions(&mut self, market: MarketId, account: AccountId)
        ensures
            *final(self) == (SubscriptionSet { account_market_positions: final(self).account_market_positions, ..*old(self) }),
            final(self).account_market_positions@ == old(self).account_market_positions@.push((market, account)),
    {
        self.account_market_positions.push((market, account));
    }

    pub fn add_account_market_trades(&mut self, market: MarketId, account: AccountId)
        ensures
            *final(self) == (SubscriptionSet { account_market_trades: final(self).account_market_trades, ..*old(self) }),
            final(self).account_market_trades@ == old(self).account_market_trades@.push((market, account)),
    {
        self.account_market_trades.push((market, account));
    }

    pub fn is_empty(&self) -> (r: bool)
        ensures
            r == no_subscriptions(*self),
    {
        self.order_books.is_empty() && self.accounts.is_empty() && self.bbo.is_empty() && self.trades.is_empty()
            && self.market_stats.is_empty() && !self.subscribe_transactions && !self.subscribe_executed_transactions
            && !self.subscribe_height && self.account_all_positions.is_empty() && self.account_all_trades.is_empty()
            && self.account_all_orders.is_empty() && self.user_stats.is_empty() && self.account_tx.is_empty()
            && self.pool_data.is_empty() && self.pool_info.is_empty() && self.notifications.is_empty()
            && self.account_market.is_empty() && self.account_market_orders.is_empty()
            && self.account_market_positions.is_empty() && self.account_market_trades.is_empty()
    }

    pub fn requires_auth(&self) -> (r: bool)
        ensures
            r == has_private_channel(*self),
    {
        !self.accounts.is_empty() || !self.account_all_positions.is_empty() || !self.account_all_trades.is_empty()
            || !self.account_all_orders.is_empty() || !self.user_stats.is_empty() || !self.account_tx.is_empty()
            || !self.pool_data.is_empty() || !self.pool_info.is_empty() || !self.notifications.is_empty()
            || !self.account_market.is_empty() || !self.account_market_orders.is_empty()
            || !self.account_market_positions.is_empty() || !self.account_market_trades.is_empty()
    }
}

/// A channel to subscribe to, and whether it is private: a private channel
/// carries the auth token when one is set.
#[derive(Clone, Debug, PartialEq, Eq)]
pub struct ChannelRequest {
    pub channel: String,
    pub private: bool,
}

pub open spec fn request_view(r: ChannelRequest) -> (Seq<char>, bool) {
    (r.channel@, r.private)
}

pub open spec fn requests_view(rs: Seq<ChannelRequest>) -> Seq<(Seq<char>, bool)> {
    rs.map_values(|r: ChannelRequest| request_view(r))
}

/// `<prefix><id>`, the id in decimal.
pub open spec fn id_channel(prefix: Seq<char>, id: int) -> Seq<char> {
    prefix + int_text(id)
}

/// `<prefix><market>/<account>`.
pub open spec fn pair_channel(prefix: Seq<char>, market: int, account: int) -> Seq<char> {
    prefix + int_text(market) + "/"@ + int_text(account)
}

pub open spec fn market_request(prefix: Seq<char>, private: bool, m: MarketId) -> (Seq<char>, bool) {
    (id_channel(prefix, m.0 as int), private)
}

pub open spec fn account_request(prefix: Seq<char>, a: AccountId) -> (Seq<char>, bool) {
    (id_channel(prefix, a.0 as int), true)
}

pub open spec fn pair_request(prefix: Seq<char>, p: (MarketId, AccountId)) -> (Seq<char>, bool) {
    (pair_channel(prefix, p.0.0 as int, p.1.0 as int), true)
}

pub open spec fn market_requests(prefix: Seq<char>, private: bool, ms: Seq<MarketId>) -> Seq<(Seq<char>, bool)> {
    ms.map_values(|m: MarketId| market_request(prefix, private, m))
}

pub open spec fn account_requests(prefix: Seq<char>, accounts: Seq<AccountId>) -> Seq<(Seq<char>, bool)> {
    accounts.map_values(|a: AccountId| account_request(prefix, a))
}

pub open spec fn pair_requests(prefix: Seq<char>, pairs: Seq<(MarketId, AccountId)>) -> Seq<(Seq<char>, bool)> {
    pairs.map_values(|p: (MarketId, AccountId)| pair_request(prefix, p))
}

pub open spec fn flag_request(on: bool, channel: Seq<char>) -> Seq<(Seq<char>, bool)> {
    if on {
        seq![(channel, false)]
    } else {
        Seq::empty()
    }
}

/// Every subscription of a set, in the order they are sent: order books,
/// accounts, best bid/offer, trades, market stats, the transaction,
/// executed transaction and height channels, the per-account channels and
/// the per-market account channels.
pub open spec fn subscription_plan(s: SubscriptionSet) -> Seq<(Seq<char>, bool)> {
    market_requests("order_book/"@, false, s.order_books@)
        + account_requests("account_all/"@, s.accounts@)
        + market_requests("bbo/"@, false, s.bbo@)
        + market_requests("trade/"@, false, s.trades@)
        + market_requests("market_stats/"@, false, s.market_stats@)
        + flag_request(s.subscribe_transactions, "transaction"@)
        + flag_request(s.subscribe_executed_transactions, "executed_transaction"@)
        + flag_request(s.subscribe_height, "height"@)
        + account_requests("account_all_positions/"@, s.account_all_positions@)
        + account_requests("account_all_trades/"@, s.account_all_trades@)
        + account_requests("account_all_orders/"@, s.account_all_orders@)
        + account_requests("user_stats/"@, s.user_stats@)
        + account_requests("account_tx/"@, s.account_tx@)
        + account_requests("pool_data/"@, s.pool_data@)
        + account_requests("pool_info/"@, s.pool_info@)
        + account_requests("notification/"@, s.notifications@)
        + pair_requests("account_market/"@, s.account_market@)
        + pair_requests("account_orders/"@, s.account_market_orders@)
        + pair_requests("account_positions/"@, s.account_market_positions@)
        + pair_requests("account_trades/"@, s.account_market_trades@)
}

/// `<prefix><id>` as a string.
pub fn id_channel_text(prefix: &str, id: i64) -> (r: String)
    ensures
        r@ == id_channel(prefix@, id as int),
{
    let mut chars = str_chars(prefix);
    push_int_text(id as i128, &mut chars);
    string_from_chars(&chars)
}

/// `<prefix><market>/<account>` as a string.
pub fn pair_channel_text(prefix: &str, market: i32, account: i64) -> (r: String)
    ensures
        r@ == pair_channel(prefix@, market as int, account as int),
{
    let mut chars = str_chars(prefix);
    push_int_text(market as i128, &mut chars);
    chars.push('/');
    push_int_text(account as i128, &mut chars);
    proof {
        reveal_strlit("/");
    }
    string_from_chars(&chars)
}

fn push_market_requests(out: &mut Vec<ChannelRequest>, prefix: &str, private: bool, ms: &Vec<MarketId>)
    ensures
        requests_view(final(out)@) == requests_view(old(out)@) + market_requests(prefix@, private, ms@),
{
    let ghost start = out@;
    for i in 0..ms.len()
        invariant
            requests_view(out@) == requests_view(start) + market_requests(prefix@, private, ms@.take(i as int)),
    {
        let channel = id_channel_text(prefix, ms[i].0 as i64);
        let ghost prev = out@;
        out.push(ChannelRequest { channel, private });
        proof {
            assert(requests_view(out@) =~= requests_view(prev).push(request_view(out@[prev.len() as int])));
        }
    }
}

fn push_account_requests(out: &mut Vec<ChannelRequest>, prefix: &str, accounts: &Vec<AccountId>)
    ensures
        requests_view(final(out)@) == requests_view(old(out)@) + account_requests(prefix@, accounts@),
{
    let ghost start = out@;
    for i in 0..accounts.len()
        invariant
            requests_view(out@) == requests_view(start) + account_requests(prefix@, accounts@.take(i as int)),
    {
        let channel = id_channel_text(prefix, accounts[i].0);
        let ghost prev = out@;
        out.push(ChannelRequest { channel, private: true });
        proof {
            assert(requests_view(out@) =~= requests_view(prev).push(request_view(out@[prev.len() as int])));
        }
    }
}

fn push_pair_requests(out: &mut Vec<ChannelRequest>, prefix: &str, pairs: &Vec<(MarketId, AccountId)>)
    ensures
        requests_view(final(out)@) == requests_view(old(out)@) + pair_requests(prefix@, pairs@),
{
    let ghost start = out@;
    for i in 0..pairs.len()
        invariant
            requests_view(out@) == requests_view(start) + pair_requests(prefix@, pairs@.take(i as int)),
    {
        let (market, account) = pairs[i];
        let channel = pair_channel_text(prefix, market.0, account.0);
        let ghost prev = out@;
        out.push(ChannelRequest { channel, private: true });
        proof {
            assert(requests_view(out@) =~= requests_view(prev).push(request_view(out@[prev.len() as int])));
        }
    }
}

fn push_flag_request(out: &mut Vec<ChannelRequest>, on: bool, channel: &str)
    ensures
        requests_view(final(out)@) == requests_view(old(out)@) + flag_request(on, channel@),
{
    let ghost start = out@;
    if on {
        out.push(ChannelRequest { channel: String::from_str(channel), private: false });
    }
}

impl SubscriptionSet {
    /// The subscriptions to send after connecting, in order.
    pub fn channel_requests(&self) -> (r: Vec<ChannelRequest>)
        ensures
            requests_view(r@) == subscription_plan(*self),
    {
        let mut out: Vec<ChannelRequest> = Vec::new();
        push_market_requests(&mut out, "order_book/", false, &self.order_books);
        push_account_requests(&mut out, "account_all/", &self.accounts);
        push_market_requests(&mut out, "bbo/", false, &self.bbo);
        push_market_requests(&mut out, "trade/", false, &self.trades);
        push_market_requests(&mut out, "market_stats/", false, &self.market_stats);
        push_flag_request(&mut out, self.subscribe_transactions, "transaction");
        push_flag_request(&mut out, self.subscribe_executed_transactions, "executed_transaction");
        push_flag_request(&mut out, self.subscribe_height, "height");
        push_account_requests(&mut out, "account_all_positions/", &self.account_all_positions);
        push_account_requests(&mut out, "account_all_trades/", &self.account_all_trades);
        push_account_requests(&mut out, "account_all_orders/", &self.account_all_orders);
        push_account_requests(&mut out, "user_stats/", &self.user_stats);
        push_account_requests(&mut out, "account_tx/", &self.account_tx);
        push_account_requests(&mut out, "pool_data/", &self.pool_data);
        push_account_requests(&mut out, "pool_info/", &self.pool_info);
        push_account_requests(&mut out, "notification/", &self.notifications);
        push_pair_requests(&mut out, "account_market/", &self.account_market);
        push_pair_requests(&mut out, "account_orders/", &self.account_market_orders);
        push_pair_requests(&mut out, "account_positions/", &self.account_market_positions);
        push_pair_requests(&mut out, "account_trades/", &self.account_market_trades);
        out
    }
}

pub open spec fn is_channel_sep(c: char) -> bool {
    c == '/' || c == ':'
}

/// What follows the last `/` or `:` of a channel name (all of it when there
/// is none).
pub open spec fn last_segment(s: Seq<char>) -> Seq<char>
    decreases s.len(),
{
    if s.len() == 0 {
        s
    } else if is_channel_sep(s.last()) {
        Seq::empty()
    } else {
        last_segment(s.drop_last()).push(s.last())
    }
}

proof fn lemma_last_segment_from(s: Seq<char>, k: int)
    requires
        0 <= k <= s.len(),
        forall|t: int| k <= t < s.len() ==> !is_channel_sep(#[trigger] s[t]),
        k == 0 || is_channel_sep(s[k - 1]),
    ensures
        last_segment(s) == s.subrange(k, s.len() as int),
    decreases s.len(),
{
    if s.len() > k {
        let t = s.drop_last();
        assert forall|u: int| k <= u < t.len() implies !is_channel_sep(#[trigger] t[u]) by {}
        lemma_last_segment_from(t, k);
    }
}

/// The last segment of a channel name.
pub fn channel_last_segment(s: &Vec<char>) -> (r: Vec<char>)
    ensures
        r@ == last_segment(s@),
{
    let mut j: usize = s.len();
    while j > 0 && !(s[j - 1] == '/' || s[j - 1] == ':')
        invariant
            j <= s.len(),
            forall|t: int| j <= t < s.len() ==> !is_channel_sep(#[trigger] s@[t]),
        decreases j,
    {
        j = j - 1;
    }
    let mut out: Vec<char> = Vec::new();
    let mut i: usize = j;
    while i < s.len()
        invariant
            j <= i <= s.len(),
            out@ == s@.subrange(j as int, i as int),
        decreases s.len() - i,
    {
        out.push(s[i]);
        i = i + 1;
    }
    proof {
        lemma_last_segment_from(s@, j as int);
    }
    out
}

/// Market id at the end of a channel name such as `order_book/3` or
/// `order_book:3`; a name whose last segment is no `i32` is an invalid
/// channel.
pub fn parse_market_id(channel: &str) -> (r: Result<i32, WsClientError>)
    ensures
        match parse_i32_spec(last_segment(channel@)) {
            Ok(v) => r == Ok::<i32, WsClientError>(v as i32),
            Err(_) => r matches Err(WsClientError::InvalidChannel(c)) && c@ == channel@,
        },
{
    let chars = str_chars(channel);
    let seg = channel_last_segment(&chars);
    match parse_i32_chars(&seg) {
        Ok(v) => Ok(v),
        Err(_) => Err(WsClientError::InvalidChannel(String::from_str(channel))),
    }
}

/// Account index at the end of a channel name such as `account_all/42`.
pub fn parse_account_index(channel: &str) -> (r: Result<i64, WsClientError>)
    ensures
        match parse_i64_spec(last_segment(channel@)) {
            Ok(v) => r == Ok::<i64, WsClientError>(v as i64),
            Err(_) => r matches Err(WsClientError::InvalidChannel(c)) && c@ == channel@,
        },
{
    let chars = str_chars(channel);
    let seg = channel_last_segment(&chars);
    match parse_i64_chars(&seg) {
        Ok(v) => Ok(v),
        Err(_) => Err(WsClientError::InvalidChannel(String::from_str(channel))),
    }
}

/// `prefix` starts `s`.
pub open spec fn starts_with(s: Seq<char>, prefix: Seq<char>) -> bool {
    prefix.len() <= s.len() && s.subrange(0, prefix.len() as int) == prefix
}

/// Channels whose messages concern one account.
pub open spec fn is_account_channel(c: Seq<char>) -> bool {
    ||| c == "account"@
    ||| c == "account_all"@
    ||| c == "account_all_orders"@
    ||| c == "account_all_trades"@
    ||| c == "account_all_positions"@
    ||| c == "account_market"@
    ||| c == "account_orders"@
    ||| c == "account_positions"@
    ||| c == "account_trades"@
    ||| c == "account_tx"@
    ||| c == "user_stats"@
    ||| c == "pool_data"@
    ||| c == "pool_info"@
    ||| c == "notification"@
}

/// `Some(true)` for `subscribed/<account channel>` (a snapshot),
/// `Some(false)` for `update/<account channel>`, `None` otherwise.
pub open spec fn account_message_kind(t: Seq<char>) -> Option<bool> {
    if starts_with(t, "subscribed/"@) && is_account_channel(t.subrange(11, t.len() as int)) {
        Some(true)
    } else if starts_with(t, "update/"@) && is_account_channel(t.subrange(7, t.len() as int)) {
        Some(false)
    } else {
        None
    }
}

fn chars_eq(a: &Vec<char>, b: &Vec<char>) -> (r: bool)
    ensures
        r == (a@ == b@),
{
    if a.len() != b.len() {
        return false;
    }
    let mut i: usize = 0;
    while i < a.len()
        invariant
            a.len() == b.len(),
            i <= a.len(),
            forall|t: int| 0 <= t < i ==> a@[t] == b@[t],
        decreases a.len() - i,
    {
        if a[i] != b[i] {
            return false;
        }
        i = i + 1;
    }
    proof {
        assert(a@ =~= b@);
    }
    true
}

fn chars_from(s: &Vec<char>, start: usize) -> (r: Vec<char>)
    requires
        start <= s.len(),
    ensures
        r@ == s@.subrange(start as int, s.len() as int),
{
    let mut out: Vec<char> = Vec::new();
    let mut i: usize = start;
    while i < s.len()
        invariant
            start <= i <= s.len(),
            out@ == s@.subrange(start as int, i as int),
        decreases s.len() - i,
    {
        out.push(s[i]);
        i = i + 1;
    }
    out
}

fn has_prefix(s: &Vec<char>, prefix: &str) -> (r: bool)
    ensures
        r == starts_with(s@, prefix@),
{
    let p = str_chars(prefix);
    if p.len() > s.len() {
        return false;
    }
    let mut i: usize = 0;
    while i < p.len()
        invariant
            p.len() <= s.len(),
            i <= p.len(),
            p@ == prefix@,
            forall|t: int| 0 <= t < i ==> s@[t] == p@[t],
        decreases p.len() - i,
    {
        if s[i] != p[i] {
            return false;
        }
        i = i + 1;
    }
    proof {
        assert(s@.subrange(0, p@.len() as int) =~= p@);
    }
    true
}

fn account_channel(c: &Vec<char>) -> (r: bool)
    ensures
        r == is_account_channel(c@),
{
    chars_eq(c, &str_chars("account")) || chars_eq(c, &str_chars("account_all"))
        || chars_eq(c, &str_chars("account_all_orders")) || chars_eq(c, &str_chars("account_all_trades"))
        || chars_eq(c, &str_chars("account_all_positions")) || chars_eq(c, &str_chars("account_market"))
        || chars_eq(c, &str_chars("account_orders")) || chars_eq(c, &str_chars("account_positions"))
        || chars_eq(c, &str_chars("account_trades")) || chars_eq(c, &str_chars("account_tx"))
        || chars_eq(c, &str_chars("user_stats")) || chars_eq(c, &str_chars("pool_data"))
        || chars_eq(c, &str_chars("pool_info")) || chars_eq(c, &str_chars("notification"))
}

/// Whether a message type is an account snapshot (`Some(true)`), an account
/// update (`Some(false)`) or no account message (`None`).
pub fn classify_account_message(message_type: &str) -> (r: Option<bool>)
    ensures
        r == account_message_kind(message_type@),
{
    proof {
        reveal_strlit("subscribed/");
        reveal_strlit("update/");
    }
    let t = str_chars(message_type);
    if has_prefix(&t, "subscribed/") {
        let rest = chars_from(&t, 11);
        if account_channel(&rest) {
            return Some(true);
        }
    }
    if has_prefix(&t, "update/") {
        let rest = chars_from(&t, 7);
        if account_channel(&rest) {
            return Some(false);
        }
    }
    None
}

/// How an incoming message is handled, by its `type` field.
#[derive(Clone, Copy, Debug, PartialEq, Eq, Structural)]
pub enum MessageRoute {
    /// `connected`: send the subscriptions.
    Connected,
    /// `ping`: answer with a pong.
    Ping,
    /// `subscribed/order_book`: a full book.
    OrderBookSnapshot,
    /// `update/order_book`: changed levels.
    OrderBookUpdate,
    MarketStats,
    Transaction,
    ExecutedTransaction,
    Height,
    Trade,
    Bbo,
    /// An account channel; `true` for a snapshot.
    Account(bool),
    Unknown,
}

pub open spec fn subscribed_or_update(t: Seq<char>, channel: Seq<char>) -> bool {
    t == "subscribed/"@ + channel || t == "update/"@ + channel
}

pub open spec fn message_route(t: Seq<char>) -> MessageRoute {
    if t == "connected"@ {
        MessageRoute::Connected
    } else if t == "ping"@ {
        MessageRoute::Ping
    } else if t == "subscribed/order_book"@ {
        MessageRoute::OrderBookSnapshot
    } else if t == "update/order_book"@ {
        MessageRoute::OrderBookUpdate
    } else if subscribed_or_update(t, "market_stats"@) {
        MessageRoute::MarketStats
    } else if subscribed_or_update(t, "transaction"@) {
        MessageRoute::Transaction
    } else if subscribed_or_update(t, "executed_transaction"@) {
        MessageRoute::ExecutedTransaction
    } else if subscribed_or_update(t, "height"@) {
        MessageRoute::Height
    } else if subscribed_or_update(t, "trade"@) {
        MessageRoute::Trade
    } else if subscribed_or_update(t, "bbo"@) {
        MessageRoute::Bbo
    } else {
        match account_message_kind(t) {
            Some(snapshot) => MessageRoute::Account(snapshot),
            None => MessageRoute::Unknown,
        }
    }
}

/// The public channels whose snapshots and updates are handled alike.
pub open spec fn public_channel(c: Seq<char>) -> bool {
    c == "market_stats"@ || c == "transaction"@ || c == "executed_transaction"@ || c == "height"@ || c == "trade"@
        || c == "bbo"@
}

/// On every public channel, an update routes where the subscription
/// snapshot routes, and neither is dropped as unknown.
pub proof fn law_public_updates_route_like_snapshots(c: Seq<char>)
    requires
        public_channel(c),
    ensures
        message_route("subscribed/"@ + c) == message_route("update/"@ + c),
        message_route("update/"@ + c) != MessageRoute::Unknown,
{
    reveal_strlit("connected");
    reveal_strlit("ping");
    reveal_strlit("subscribed/order_book");
    reveal_strlit("update/order_book");
    reveal_strlit("subscribed/");
    reveal_strlit("update/");
    reveal_strlit("market_stats");
    reveal_strlit("transaction");
    reveal_strlit("executed_transaction");
    reveal_strlit("height");
    reveal_strlit("trade");
    reveal_strlit("bbo");
    assert(("subscribed/"@ + c).len() == 11 + c.len());
    assert(("update/"@ + c).len() == 7 + c.len());
    assert("transaction"@ != "executed_transaction"@);
    assert(("subscribed/"@ + c)[0] == 's');
    assert("update/order_book"@[0] == 'u');
    if c == "market_stats"@ {
        assert(message_route("subscribed/"@ + c) == MessageRoute::MarketStats);
        assert(message_route("update/"@ + c) == MessageRoute::MarketStats);
    } else if c == "transaction"@ {
        assert(message_route("subscribed/"@ + c) == MessageRoute::Transaction);
        assert(message_route("update/"@ + c) == MessageRoute::Transaction);
    } else if c == "executed_transaction"@ {
        assert(message_route("subscribed/"@ + c) == MessageRoute::ExecutedTransaction);
        assert(message_route("update/"@ + c) == MessageRoute::ExecutedTransaction);
    } else if c == "height"@ {
        assert(message_route("subscribed/"@ + c) == MessageRoute::Height);
        assert(message_route("update/"@ + c) == MessageRoute::Height);
    } else if c == "trade"@ {
        assert(message_route("subscribed/"@ + c) == MessageRoute::Trade);
        assert(message_route("update/"@ + c) == MessageRoute::Trade);
    } else if c == "bbo"@ {
        assert(message_route("subscribed/"@ + c) == MessageRoute::Bbo);
        assert(message_route("update/"@ + c) == MessageRoute::Bbo);
    }
}

fn is_text(t: &Vec<char>, lit: &str) -> (r: bool)
    ensures
        r == (t@ == lit@),
{
    chars_eq(t, &str_chars(lit))
}

/// Routes an incoming message by its type.
pub fn route_message_type(message_type: &str) -> (r: MessageRoute)
    ensures
        r == message_route(message_type@),
{
    proof {
        reveal_strlit("subscribed/");
        reveal_strlit("update/");
        reveal_strlit("market_stats");
        reveal_strlit("transaction");
        reveal_strlit("executed_transaction");
        reveal_strlit("height");
        reveal_strlit("trade");
        reveal_strlit("bbo");
        reveal_strlit("subscribed/market_stats");
        reveal_strlit("update/market_stats");
        reveal_strlit("subscribed/transaction");
        reveal_strlit("update/transaction");
        reveal_strlit("subscribed/executed_transaction");
        reveal_strlit("update/executed_transaction");
        reveal_strlit("subscribed/height");
        reveal_strlit("update/height");
        reveal_strlit("subscribed/trade");
        reveal_strlit("update/trade");
        reveal_strlit("subscribed/bbo");
        reveal_strlit("update/bbo");
        assert("subscribed/market_stats"@ =~= "subscribed/"@ + "market_stats"@);
        assert("update/market_stats"@ =~= "update/"@ + "market_stats"@);
        assert("subscribed/transaction"@ =~= "subscribed/"@ + "transaction"@);
        assert("update/transaction"@ =~= "update/"@ + "transaction"@);
        assert("subscribed/executed_transaction"@ =~= "subscribed/"@ + "executed_transaction"@);
        assert("update/executed_transaction"@ =~= "update/"@ + "executed_transaction"@);
        assert("subscribed/height"@ =~= "subscribed/"@ + "height"@);
        assert("update/height"@ =~= "update/"@ + "height"@);
        assert("subscribed/trade"@ =~= "subscribed/"@ + "trade"@);
        assert("update/trade"@ =~= "update/"@ + "trade"@);
        assert("subscribed/bbo"@ =~= "subscribed/"@ + "bbo"@);
        assert("update/bbo"@ =~= "update/"@ + "bbo"@);
    }
    let t = str_chars(message_type);
    if is_text(&t, "connected") {
        MessageRoute::Connected
    } else if is_text(&t, "ping") {
        MessageRoute::Ping
    } else if is_text(&t, "subscribed/order_book") {
        MessageRoute::OrderBookSnapshot
    } else if is_text(&t, "update/order_book") {
        MessageRoute::OrderBookUpdate
    } else if is_text(&t, "subscribed/market_stats") || is_text(&t, "update/market_stats") {
        MessageRoute::MarketStats
    } else if is_text(&t, "subscribed/transaction") || is_text(&t, "update/transaction") {
        MessageRoute::Transaction
    } else if is_text(&t, "subscribed/executed_transaction") || is_text(&t, "update/executed_transaction") {
        MessageRoute::ExecutedTransaction
    } else if is_text(&t, "subscribed/height") || is_text(&t, "update/height") {
        MessageRoute::Height
    } else if is_text(&t, "subscribed/trade") || is_text(&t, "update/trade") {
        MessageRoute::Trade
    } else if is_text(&t, "subscribed/bbo") || is_text(&t, "update/bbo") {
        MessageRoute::Bbo
    } else {
        match classify_account_message(message_type) {
            Some(snapshot) => MessageRoute::Account(snapshot),
            None => MessageRoute::Unknown,
        }
    }
}

/// `needle` occurs in `hay` starting at `i`.
pub open spec fn occurs_at(hay: Seq<char>, needle: Seq<char>, i: int) -> bool {
    0 <= i && i + needle.len() <= hay.len() && hay.subrange(i, i + needle.len()) == needle
}

pub open spec fn contains_text(hay: Seq<char>, needle: Seq<char>) -> bool {
    exists|i: int| #[trigger] occurs_at(hay, needle, i)
}

/// Whether `needle` occurs in `hay`.
pub fn contains_chars(hay: &Vec<char>, needle: &Vec<char>) -> (r: bool)
    ensures
        r == contains_text(hay@, needle@),
{
    let n: usize = needle.len();
    let h: usize = hay.len();
    if n > h {
        assert forall|i: int| !occurs_at(hay@, needle@, i) by {}
        return false;
    }
    if n == 0 {
        assert(hay@.subrange(0, 0) =~= needle@);
        assert(occurs_at(hay@, needle@, 0));
        return true;
    }
    let mut i: usize = 0;
    while i <= h - n
        invariant
            n == needle.len(),
            h == hay.len(),
            0 < n <= h,
            i <= h - n + 1,
            forall|k: int| 0 <= k < i ==> !#[trigger] occurs_at(hay@, needle@, k),
        decreases h - n + 1 - i,
    {
        let mut j: usize = 0;
        let mut ok: bool = true;
        while j < n
            invariant
                n == needle.len(),
                h == hay.len(),
                i + n <= h,
                j <= n,
                ok ==> forall|t: int| 0 <= t < j ==> hay@[i + t] == needle@[t],
                !ok ==> !occurs_at(hay@, needle@, i as int),
            decreases n - j,
        {
            if ok && hay[i + j] != needle[j] {
                ok = false;
            }
            j = j + 1;
        }
        if ok {
            assert(hay@.subrange(i as int, i + n) =~= needle@);
            assert(occurs_at(hay@, needle@, i as int));
            return true;
        }
        i = i + 1;
    }
    assert forall|k: int| !occurs_at(hay@, needle@, k) by {}
    false
}

/// Messages that are not the answer to a sent transaction: connection,
/// subscription and pong notices and market or account updates.
pub open spec fn unrelated_to_tx(t: Seq<char>) -> bool {
    ||| contains_text(t, "\"type\":\"connected\""@)
    ||| contains_text(t, "\"type\":\"subscribed"@)
    ||| contains_text(t, "\"type\":\"unsubscribed\""@)
    ||| contains_text(t, "\"type\":\"pong\""@)
    ||| contains_text(t, "\"type\":\"update/order_book\""@)
    ||| contains_text(t, "\"type\":\"update/bbo\""@)
    ||| contains_text(t, "\"type\":\"update/trade\""@)
    ||| contains_text(t, "\"type\":\"update/account\""@)
    ||| contains_text(t, "\"type\":\"update/fills\""@)
    ||| contains_text(t, "\"type\":\"update/orders\""@)
}

/// An answer reports an error: an error type, an error field, or a code
/// other than 200.
pub open spec fn tx_answer_is_error(t: Seq<char>) -> bool {
    ||| contains_text(t, "\"type\":\"error\""@)
    ||| contains_text(t, "\"error\":"@)
    ||| (contains_text(t, "\"code\":"@) && !contains_text(t, "\"code\":200"@))
}

fn has_text(t: &Vec<char>, lit: &str) -> (r: bool)
    ensures
        r == contains_text(t@, lit@),
{
    contains_chars(t, &str_chars(lit))
}

/// What a text message says of a sent transaction while waiting for its
/// answer: `None` to keep waiting, else whether it succeeded.
pub fn tx_response_verdict(text: &str) -> (r: Option<bool>)
    ensures
        r == (if unrelated_to_tx(text@) { None } else { Some(!tx_answer_is_error(text@)) }),
{
    let t = str_chars(text);
    if has_text(&t, "\"type\":\"connected\"") || has_text(&t, "\"type\":\"subscribed")
        || has_text(&t, "\"type\":\"unsubscribed\"") || has_text(&t, "\"type\":\"pong\"")
        || has_text(&t, "\"type\":\"update/order_book\"") || has_text(&t, "\"type\":\"update/bbo\"")
        || has_text(&t, "\"type\":\"update/trade\"") || has_text(&t, "\"type\":\"update/account\"")
        || has_text(&t, "\"type\":\"update/fills\"") || has_text(&t, "\"type\":\"update/orders\"") {
        return None;
    }
    let is_error = has_text(&t, "\"type\":\"error\"") || has_text(&t, "\"error\":")
        || (has_text(&t, "\"code\":") && !has_text(&t, "\"code\":200"));
    Some(!is_error)
}

/// The most transactions one batch may carry.
pub const MAX_BATCH_TRANSACTIONS: usize = 50;

/// Checks the shape of a transaction batch before it is sent: as many types
/// as payloads, and at most 50 of them.
pub fn check_batch_shape(tx_types_len: usize, tx_infos_len: usize) -> (r: Result<(), WsClientError>)
    ensures
        tx_types_len != tx_infos_len ==> (r matches Err(WsClientError::InvalidMessage(m))
            && m@ == "tx_types and tx_infos must have same length"@),
        tx_types_len == tx_infos_len && tx_types_len > MAX_BATCH_TRANSACTIONS ==> (r matches Err(
            WsClientError::InvalidMessage(m),
        ) && m@ == "Batch transaction limit is 50 transactions"@),
        tx_types_len == tx_infos_len && tx_types_len <= MAX_BATCH_TRANSACTIONS ==> r is Ok,
{
    if tx_types_len != tx_infos_len {
        return Err(WsClientError::InvalidMessage(String::from_str("tx_types and tx_infos must have same length")));
    }
    if tx_types_len > MAX_BATCH_TRANSACTIONS {
        return Err(WsClientError::InvalidMessage(String::from_str("Batch transaction limit is 50 transactions")));
    }
    Ok(())
}

/// `<prefix><n>`, `n` in decimal.
pub fn numbered(prefix: &str, n: u64) -> (r: String)
    ensures
        r@ == prefix@ + int_text(n as int),
{
    let mut chars = str_chars(prefix);
    push_int_text(n as i128, &mut chars);
    string_from_chars(&chars)
}

/// The server address as a websocket URL: `https://` becomes `wss://`,
/// `http://` becomes `ws://`, a `ws://` or `wss://` address stays, and any
/// other text is taken as a host behind `wss://`.
pub open spec fn ws_address(host: Seq<char>) -> Seq<char> {
    if starts_with(host, "https://"@) {
        "wss://"@ + host.subrange(8, host.len() as int)
    } else if starts_with(host, "http://"@) {
        "ws://"@ + host.subrange(7, host.len() as int)
    } else if starts_with(host, "ws://"@) || starts_with(host, "wss://"@) {
        host
    } else {
        "wss://"@ + host
    }
}

/// The websocket address for a server address.
pub fn ws_address_text(host: &str) -> (r: String)
    ensures
        r@ == ws_address(host@),
{
    proof {
        reveal_strlit("https://");
        reveal_strlit("http://");
        reveal_strlit("wss://");
        reveal_strlit("ws://");
    }
    let h = str_chars(host);
    if has_prefix(&h, "https://") {
        let mut out = str_chars("wss://");
        let mut rest = chars_from(&h, 8);
        out.append(&mut rest);
        string_from_chars(&out)
    } else if has_prefix(&h, "http://") {
        let mut out = str_chars("ws://");
        let mut rest = chars_from(&h, 7);
        out.append(&mut rest);
        string_from_chars(&out)
    } else if has_prefix(&h, "ws://") || has_prefix(&h, "wss://") {
        String::from_str(host)
    } else {
        let mut out = str_chars("wss://");
        let mut rest = h;
        out.append(&mut rest);
        string_from_chars(&out)
    }
}

/// `url::Url`, opaque here.
#[verifier::external_type_specification]
#[verifier::external_body]
pub struct ExUrl(url::Url);

/// Whether `url::Url::parse` accepts a text as an absolute URL; it depends
/// on the text alone.
pub uninterp spec fn url_parses(input: Seq<char>) -> bool;

/// The serialized text of the URL that `url::Url::parse` builds from a text
/// it accepts; it depends on the text alone.
pub uninterp spec fn url_text(input: Seq<char>) -> Seq<char>;

/// The serialized text of a URL after `url::Url::set_path` gave it a path;
/// a URL is determined by its serialized text, so this depends on that text
/// and the path alone.
pub uninterp spec fn url_with_path(text: Seq<char>, path: Seq<char>) -> Seq<char>;

/// Longest serialized URL, in characters, whose path is replaced here. With
/// at most four bytes per character, a path of at most `MAX_ADDRESS_CHARS`
/// characters, and `set_path` adding at most three bytes per byte of the
/// path plus a separator, the new URL stays far below `u32::MAX` bytes,
/// beyond which `set_path` panics.
pub const MAX_URL_CHARS: usize = 16_777_216;

/// Longest server address or path accepted when building a websocket URL.
pub const MAX_ADDRESS_CHARS: usize = 65_536;

/// A parsed URL together with its serialized text.
pub struct WsUrl {
    url: url::Url,
    text: Ghost<Seq<char>>,
}

impl WsUrl {
    /// The serialized text of the URL.
    pub closed spec fn text(&self) -> Seq<char> {
        self.text@
    }

    pub closed spec fn url(&self) -> url::Url {
        self.url
    }

    /// The serialized text of the URL, as a `String`.
    pub fn to_text(&self) -> (r: String)
        ensures
            r@ == self.text(),
    {
        url_string(self)
    }

    pub fn into_url(self) -> (r: url::Url)
        ensures
            r == self.url(),
    {
        self.url
    }
}

/// Calls `url::Url::parse`. Claims that it succeeds exactly on the texts
/// that `url_parses` names, and that the URL built serializes to the text
/// that `url_text` names.
#[verifier::external_body]
fn parse_url(input: &str) -> (r: Result<WsUrl, url::ParseError>)
    ensures
        r is Ok <==> url_parses(input@),
        r matches Ok(u) ==> u.text() == url_text(input@),
{
    match url::Url::parse(input) {
        Ok(url) => Ok(WsUrl { url, text: Ghost(url_text(input@)) }),
        Err(e) => Err(e),
    }
}

/// Calls `url::Url::as_str`, the serialized text of the URL.
#[verifier::external_body]
fn url_string(u: &WsUrl) -> (r: String)
    ensures
        r@ == u.text(),
{
    u.url.as_str().to_string()
}

/// Calls `url::Url::set_path`, which replaces the path of the URL
/// (percent-encoding it) and panics only when the new serialization would
/// exceed `u32::MAX` bytes; the bounds on the old text and on the path keep
/// it below that. Claims that the new text is the one `url_with_path`
/// names.
#[verifier::external_body]
fn set_url_path(u: &mut WsUrl, path: &str)
    requires
        old(u).text().len() <= MAX_URL_CHARS,
        path@.len() <= MAX_ADDRESS_CHARS,
    ensures
        final(u).text() == url_with_path(old(u).text(), path@),
{
    u.url.set_path(path);
    u.text = Ghost(url_with_path(u.text@, path@));
}

/// The websocket URL of a server address and path: the address is turned
/// into a websocket address and parsed, then given the path. Fails with the
/// parser's error when the address does not parse, and as too long when the
/// path or the parsed address is longer than this library handles.
pub fn build_url(host: &str, path: &str) -> (r: Result<WsUrl, WsClientError>)
    ensures
        !url_parses(ws_address(host@)) ==> r matches Err(WsClientError::Url(_)),
        url_parses(ws_address(host@)) && (path@.len() > MAX_ADDRESS_CHARS || url_text(ws_address(host@)).len()
            > MAX_URL_CHARS) ==> (r matches Err(WsClientError::InvalidMessage(m)) && m@
            == "websocket address too long"@),
        url_parses(ws_address(host@)) && path@.len() <= MAX_ADDRESS_CHARS && url_text(ws_address(host@)).len()
            <= MAX_URL_CHARS ==> (r matches Ok(u) && u.text() == url_with_path(url_text(ws_address(host@)), path@)),
{
    let candidate = ws_address_text(host);
    match parse_url(candidate.as_str()) {
        Ok(mut url) => {
            let text = url_string(&url);
            if str_chars(path).len() > MAX_ADDRESS_CHARS || str_chars(text.as_str()).len() > MAX_URL_CHARS {
                return Err(WsClientError::InvalidMessage(String::from_str("websocket address too long")));
            }
            set_url_path(&mut url, path);
            Ok(url)
        },
        Err(e) => Err(WsClientError::Url(e)),
    }
}

/// The markets of `s` other than `m`, in order.
pub open spec fn without_market(s: Seq<MarketId>, m: MarketId) -> Seq<MarketId>
    decreases s.len(),
{
    if s.len() == 0 {
        s
    } else if s.last() == m {
        without_market(s.drop_last(), m)
    } else {
        without_market(s.drop_last(), m).push(s.last())
    }
}

/// Bookkeeping of one websocket connection: what it subscribes to, the auth
/// token, the id of the last message sent, how many times it reconnected and
/// the last order book offset seen per market.
#[derive(Debug)]
pub struct ConnectionState {
    subscriptions: SubscriptionSet,
    auth_token: Option<String>,
    message_id: u64,
    generation: u64,
    order_book_offsets: HashMap<i32, i64>,
}

pub struct ConnectionView {
    pub subscriptions: SubscriptionSet,
    pub auth_token: Option<Seq<char>>,
    pub message_id: u64,
    pub generation: u64,
    pub offsets: Map<i32, i64>,
}

impl View for ConnectionState {
    type V = ConnectionView;

    closed spec fn view(&self) -> ConnectionView {
        ConnectionView {
            subscriptions: self.subscriptions,
            auth_token: match self.auth_token {
                Some(t) => Some(t@),
                None => None,
            },
            message_id: self.message_id,
            generation: self.generation,
            offsets: self.order_book_offsets@,
        }
    }
}

/// After an order book update carrying `offset`, whether it does not follow
/// the last offset seen for its market by exactly one.
pub open spec fn offset_gap(offsets: Map<i32, i64>, market: i32, offset: i64) -> bool {
    offsets.contains_key(market) && offsets[market] + 1 != offset
}

impl ConnectionState {
    pub fn new(subscriptions: SubscriptionSet) -> (r: Self)
        ensures
            r@ == (ConnectionView {
                subscriptions,
                auth_token: None,
                message_id: 0,
                generation: 0,
                offsets: Map::empty(),
            }),
    {
        ConnectionState {
            subscriptions,
            auth_token: None,
            message_id: 0,
            generation: 0,
            order_book_offsets: HashMap::new(),
        }
    }

    pub fn subscriptions(&self) -> (r: &SubscriptionSet)
        ensures
            *r == self@.subscriptions,
    {
        &self.subscriptions
    }

    /// Sets the token sent with private subscriptions and transactions.
    pub fn set_auth_token(&mut self, token: String)
        ensures
            final(self)@ == (ConnectionView { auth_token: Some(token@), ..old(self)@ }),
    {
        self.auth_token = Some(token);
    }

    pub fn auth_token(&self) -> (r: Option<&str>)
        ensures
            match r {
                Some(t) => self@.auth_token == Some(t@),
                None => self@.auth_token is None,
            },
    {
        match &self.auth_token {
            Some(t) => Some(t.as_str()),
            None => None,
        }
    }

    /// The token a transaction must carry; sending without one is refused.
    pub fn require_auth_token(&self) -> (r: Result<String, WsClientError>)
        ensures
            match self@.auth_token {
                Some(t) => r matches Ok(s) && s@ == t,
                None => r matches Err(WsClientError::InvalidMessage(m)) && m@ == "Authentication token not set"@,
            },
    {
        match &self.auth_token {
            Some(t) => Ok(t.clone()),
            None => Err(WsClientError::InvalidMessage(String::from_str("Authentication token not set"))),
        }
    }

    pub fn message_id(&self) -> (r: u64)
        ensures
            r == self@.message_id,
    {
        self.message_id
    }

    /// The id of the next message sent: one more than the last.
    pub fn next_message_id(&mut self) -> (r: u64)
        requires
            old(self)@.message_id < u64::MAX,
        ensures
            r == old(self)@.message_id + 1,
            final(self)@ == (ConnectionView { message_id: r, ..old(self)@ }),
    {
        self.message_id = self.message_id + 1;
        self.message_id
    }

    pub fn generation(&self) -> (r: u64)
        ensures
            r == self@.generation,
    {
        self.generation
    }

    /// A new connection replaced the old one: the generation advances,
    /// wrapping around.
    pub fn start_generation(&mut self) -> (r: u64)
        ensures
            r == (if old(self)@.generation == u64::MAX { 0 } else { (old(self)@.generation + 1) as u64 }),
            final(self)@ == (ConnectionView { generation: r, ..old(self)@ }),
    {
        self.generation = self.generation.wrapping_add(1);
        self.generation
    }

    /// Stops following a market's order book: it leaves the order book
    /// subscriptions.
    pub fn unsubscribe_order_book(&mut self, market: MarketId)
        ensures
            final(self)@ == (ConnectionView {
                subscriptions: SubscriptionSet { order_books: final(self)@.subscriptions.order_books, ..old(self)@.subscriptions },
                ..old(self)@
            }),
            final(self)@.subscriptions.order_books@ == without_market(old(self)@.subscriptions.order_books@, market),
    {
        let mut kept: Vec<MarketId> = Vec::new();
        let ghost books = self.subscriptions.order_books@;
        let n: usize = self.subscriptions.order_books.len();
        let mut i: usize = 0;
        while i < n
            invariant
                n == books.len(),
                books == self.subscriptions.order_books@,
                i <= n,
                kept@ == without_market(books.take(i as int), market),
            decreases n - i,
        {
            let m = self.subscriptions.order_books[i];
            proof {
                assert(books.take(i + 1).drop_last() =~= books.take(i as int));
            }
            if m != market {
                kept.push(m);
            }
            i = i + 1;
        }
        proof {
            assert(books.take(n as int) =~= books);
        }
        self.subscriptions.order_books = kept;
    }

    /// Follows a market's order book, adding it to the subscriptions unless
    /// it is there already.
    pub fn subscribe_order_book(&mut self, market: MarketId)
        ensures
            final(self)@ == (ConnectionView {
                subscriptions: SubscriptionSet { order_books: final(self)@.subscriptions.order_books, ..old(self)@.subscriptions },
                ..old(self)@
            }),
            final(self)@.subscriptions.order_books@ == (if old(self)@.subscriptions.order_books@.contains(market) {
                old(self)@.subscriptions.order_books@
            } else {
                old(self)@.subscriptions.order_books@.push(market)
            }),
    {
        let n: usize = self.subscriptions.order_books.len();
        let mut i: usize = 0;
        while i < n
            invariant
                n == self.subscriptions.order_books@.len(),
                i <= n,
                forall|k: int| 0 <= k < i ==> self.subscriptions.order_books@[k] != market,
            decreases n - i,
        {
            if self.subscriptions.order_books[i] == market {
                return;
            }
            i = i + 1;
        }
        self.subscriptions.order_books.push(market);
    }

    pub fn order_book_offset(&self, market: MarketId) -> (r: Option<i64>)
        ensures
            r == (if self@.offsets.contains_key(market.0) { Some(self@.offsets[market.0]) } else { None }),
    {
        match self.order_book_offsets.get(&market.0) {
            Some(o) => Some(*o),
            None => None,
        }
    }

    /// A full book arrived: its offset becomes the market's last offset, or
    /// the market has none when the book carries none.
    pub fn record_snapshot_offset(&mut self, market: MarketId, offset: Option<i64>)
        ensures
            final(self)@ == (ConnectionView {
                offsets: match offset {
                    Some(o) => old(self)@.offsets.insert(market.0, o),
                    None => old(self)@.offsets.remove(market.0),
                },
                ..old(self)@
            }),
    {
        match offset {
            Some(o) => {
                self.order_book_offsets.insert(market.0, o);
            },
            None => {
                self.order_book_offsets.remove(&market.0);
            },
        }
    }

    /// An order book update arrived: an offset it carries becomes the
    /// market's last offset. Returns whether it leaves a gap after the
    /// previous one.
    pub fn record_update_offset(&mut self, market: MarketId, offset: Option<i64>) -> (gap: bool)
        ensures
            match offset {
                Some(o) => {
                    &&& gap == offset_gap(old(self)@.offsets, market.0, o)
                    &&& final(self)@ == (ConnectionView { offsets: old(self)@.offsets.insert(market.0, o), ..old(self)@ })
                },
                None => !gap && final(self)@ == old(self)@,
            },
    {
        match offset {
            Some(o) => {
                let gap: bool = match self.order_book_offsets.get(&market.0) {
                    Some(prev) => *prev == i64::MAX || *prev + 1 != o,
                    None => false,
                };
                self.order_book_offsets.insert(market.0, o);
                gap
            },
            None => false,
        }
    }
}

} // verus!
