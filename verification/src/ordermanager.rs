use rand::Rng;
use vstd::prelude::*;

use crate::clock::utc_now_nanos;
use crate::error::StandxError;
use crate::order_laws::{
    law_cancel_all_keeps_wf, law_gc_keeps_index_sound, law_gc_keeps_wf, law_prepare_keeps_wf,
    law_settle_keeps_wf,
};
use crate::msg::{updated_at_nanos, FillValues, OrderDetail, OrderUpdate};
use crate::text::{starts_with, str_eq};
use crate::types::{is_working, Order, Status};

verus! {

/// A submitted order with the symbol it trades and whether the private stream
/// and the REST interface have each reported it finished.
pub struct OrderEntry {
    pub symbol: String,
    pub order: Order,
    pub removed_by_ws: bool,
    pub removed_by_rest: bool,
}

/// The mathematical value of an [`OrderEntry`].
pub struct OrderEntryView {
    pub symbol: Seq<char>,
    pub order: Order,
    pub removed_by_ws: bool,
    pub removed_by_rest: bool,
}

impl View for OrderEntry {
    type V = OrderEntryView;

    open spec fn view(&self) -> OrderEntryView {
        OrderEntryView {
            symbol: self.symbol@,
            order: self.order,
            removed_by_ws: self.removed_by_ws,
            removed_by_rest: self.removed_by_rest,
        }
    }
}

impl OrderEntry {
    fn duplicate(&self) -> (r: OrderEntry)
        ensures
            r@ == self@,
    {
        OrderEntry {
            symbol: self.symbol.clone(),
            order: self.order,
            removed_by_ws: self.removed_by_ws,
            removed_by_rest: self.removed_by_rest,
        }
    }
}

/// Whether either side has already reported the order finished.
pub open spec fn is_removed(e: OrderEntryView) -> bool {
    e.removed_by_ws || e.removed_by_rest
}

/// The (symbol, order id) pair under which the engine knows an order.
pub open spec fn key_of(e: OrderEntryView) -> (Seq<char>, u64) {
    (e.symbol, e.order.order_id)
}

/// Orders keyed by client order id, held in a `hashbrown::HashMap`.
#[verifier::external_body]
pub struct OrderTable {
    table: hashbrown::HashMap<String, OrderEntry>,
}

/// What an [`OrderTable`] holds: client order id to entry.
pub uninterp spec fn order_table_entries(t: OrderTable) -> Map<Seq<char>, OrderEntryView>;

impl View for OrderTable {
    type V = Map<Seq<char>, OrderEntryView>;

    open spec fn view(&self) -> Map<Seq<char>, OrderEntryView> {
        order_table_entries(*self)
    }
}

impl OrderTable {
    /// `hashbrown::HashMap::new`: an empty map.
    #[verifier::external_body]
    fn new() -> (r: OrderTable)
        ensures
            order_table_entries(r).dom().is_empty(),
    {
        OrderTable { table: hashbrown::HashMap::new() }
    }

    /// `hashbrown::HashMap::get`: the entry stored under the key, if any.
    #[verifier::external_body]
    fn get(&self, client_order_id: &str) -> (r: Option<&OrderEntry>)
        ensures
            r is Some == order_table_entries(*self).contains_key(client_order_id@),
            r matches Some(e) ==> e@ == order_table_entries(*self)[client_order_id@],
    {
        self.table.get(client_order_id)
    }

    /// `hashbrown::HashMap::insert`: stores the entry under the key, replacing
    /// any previous one.
    #[verifier::external_body]
    fn insert(&mut self, client_order_id: String, entry: OrderEntry)
        ensures
            order_table_entries(*final(self)) == order_table_entries(*old(self)).insert(client_order_id@, entry@),
    {
        self.table.insert(client_order_id, entry);
    }

    /// `hashbrown::HashMap::remove`: drops the key and its entry.
    #[verifier::external_body]
    fn remove(&mut self, client_order_id: &str)
        ensures
            order_table_entries(*final(self)) == order_table_entries(*old(self)).remove(client_order_id@),
    {
        self.table.remove(client_order_id);
    }

    /// `hashbrown::HashMap::keys`, copied out: every key once, in the map's
    /// own (unspecified) iteration order.
    #[verifier::external_body]
    fn client_ids(&self) -> (r: Vec<String>)
        ensures
            r.deep_view().no_duplicates(),
            r.deep_view().to_set() == order_table_entries(*self).dom(),
    {
        self.table.keys().cloned().collect()
    }
}

/// Client order ids keyed by (symbol, order id), held in a
/// `hashbrown::HashMap`.
#[verifier::external_body]
pub struct IdIndex {
    table: hashbrown::HashMap<(String, u64), String>,
}

/// What an [`IdIndex`] holds: (symbol, order id) to client order id.
pub uninterp spec fn id_index_entries(t: IdIndex) -> Map<(Seq<char>, u64), Seq<char>>;

impl View for IdIndex {
    type V = Map<(Seq<char>, u64), Seq<char>>;

    open spec fn view(&self) -> Map<(Seq<char>, u64), Seq<char>> {
        id_index_entries(*self)
    }
}

impl IdIndex {
    /// `hashbrown::HashMap::new`: an empty map.
    #[verifier::external_body]
    fn new() -> (r: IdIndex)
        ensures
            id_index_entries(r).dom().is_empty(),
    {
        IdIndex { table: hashbrown::HashMap::new() }
    }

    /// `hashbrown::HashMap::get`: the client order id stored under the key.
    #[verifier::external_body]
    fn get(&self, symbol: &str, order_id: u64) -> (r: Option<&String>)
        ensures
            r is Some == id_index_entries(*self).contains_key((symbol@, order_id)),
            r matches Some(c) ==> c@ == id_index_entries(*self)[(symbol@, order_id)],
    {
        self.table.get(&(symbol.to_string(), order_id))
    }

    /// `hashbrown::HashMap::contains_key`.
    #[verifier::external_body]
    fn contains(&self, symbol: &str, order_id: u64) -> (r: bool)
        ensures
            r == id_index_entries(*self).contains_key((symbol@, order_id)),
    {
        self.table.contains_key(&(symbol.to_string(), order_id))
    }

    /// `hashbrown::HashMap::insert`: stores the client order id under the key,
    /// replacing any previous one.
    #[verifier::external_body]
    fn insert(&mut self, symbol: String, order_id: u64, client_order_id: String)
        ensures
            id_index_entries(*final(self)) == id_index_entries(*old(self)).insert((symbol@, order_id), client_order_id@),
    {
        self.table.insert((symbol, order_id), client_order_id);
    }

    /// `hashbrown::HashMap::remove`: drops the key and its value.
    #[verifier::external_body]
    fn remove(&mut self, symbol: &str, order_id: u64)
        ensures
            id_index_entries(*final(self)) == id_index_entries(*old(self)).remove((symbol@, order_id)),
    {
        self.table.remove(&(symbol.to_string(), order_id));
    }
}

/// rand: `thread_rng().sample_iter(&Alphanumeric).take(len)` collected into a
/// `String`. rand documents `Alphanumeric` as drawing from `A`-`Z`, `a`-`z`
/// and `0`-`9`; which characters come out is left open.
#[verifier::external_body]
fn random_alphanumeric(len: usize) -> (r: String)
    ensures
        r@.len() == len,
        forall|i: int| 0 <= i < len ==> is_ascii_alphanumeric(#[trigger] r@[i]),
{
    rand::thread_rng().sample_iter(&rand::distributions::Alphanumeric).take(len).map(char::from).collect()
}

/// An ASCII letter or digit.
pub open spec fn is_ascii_alphanumeric(c: char) -> bool {
    ('a' <= c && c <= 'z') || ('A' <= c && c <= 'Z') || ('0' <= c && c <= '9')
}

/// The text of an optional symbol.
pub open spec fn symbol_view(symbol: Option<String>) -> Option<Seq<char>> {
    match symbol {
        Some(s) => Some(s@),
        None => None,
    }
}

/// The number of random characters after the prefix of a client order id.
pub const CLIENT_ORDER_ID_RANDOM_LEN: usize = 16;

/// The mathematical state of an [`OrderManager`].
pub struct ManagerView {
    pub prefix: Seq<char>,
    pub orders: Map<Seq<char>, OrderEntryView>,
    pub ids: Map<(Seq<char>, u64), Seq<char>>,
}

/// The timestamp of a report: its readable `updated_at`, else 0.
pub open spec fn report_ts(updated_at: Option<String>) -> i64 {
    match updated_at_nanos(updated_at) {
        Some(t) => t,
        None => 0,
    }
}

/// An order after the exchange reported `status` at `ts` with the given numbers.
pub open spec fn applied(o: Order, status: Status, ts: i64, fill: FillValues) -> Order {
    Order {
        status: status,
        req: Status::NoStatus,
        qty_bits: fill.qty_bits,
        exec_qty_bits: fill.exec_qty_bits,
        exch_timestamp: ts,
        price_tick: fill.price_tick,
        exec_price_tick: fill.exec_price_tick,
        ..o
    }
}

/// An order after a failed REST call: the fallback status, if any, and no
/// pending request.
pub open spec fn fallen_back(o: Order, status: Option<Status>) -> Order {
    Order {
        status: match status {
            Some(s) => s,
            None => o.status,
        },
        req: Status::NoStatus,
        ..o
    }
}

/// How old, in nanoseconds, a finished order must be before it is forgotten.
pub const GC_AGE_NS: i64 = 300_000_000_000;

/// A finished order whose last exchange timestamp is older than `stale_ts`.
pub open spec fn is_stale(e: OrderEntryView, stale_ts: int) -> bool {
    &&& e.order.status != Status::New
    &&& e.order.status != Status::PartiallyFilled
    &&& e.order.status != Status::Unsupported
    &&& e.order.exch_timestamp < stale_ts
}

/// An entry after a cancel-all: reported finished by REST, canceled, and
/// stamped with the clock reading when there is one.
pub open spec fn canceled_entry(e: OrderEntryView, now: Option<i64>) -> OrderEntryView {
    OrderEntryView {
        removed_by_rest: true,
        order: Order {
            status: Status::Canceled,
            exch_timestamp: match now {
                Some(t) => t,
                None => e.order.exch_timestamp,
            },
            ..e.order
        },
        ..e
    }
}

impl ManagerView {
    /// The soundness half of the bookkeeping invariant: every index entry
    /// leads to an unfinished order filed under that very (symbol, order id),
    /// and no order is kept once both sides have reported it finished.
    pub open spec fn index_sound(self) -> bool {
        &&& forall|k: (Seq<char>, u64)| #[trigger]
            self.ids.contains_key(k) ==> {
                &&& self.orders.contains_key(self.ids[k])
                &&& key_of(self.orders[self.ids[k]]) == k
                &&& !is_removed(self.orders[self.ids[k]])
            }
        &&& forall|c: Seq<char>| #[trigger]
            self.orders.contains_key(c) ==> !(self.orders[c].removed_by_ws
                && self.orders[c].removed_by_rest)
    }

    /// The completeness half of the bookkeeping invariant: every unfinished
    /// order is indexed under its (symbol, order id).
    pub open spec fn index_complete(self) -> bool {
        forall|c: Seq<char>| #[trigger]
            self.orders.contains_key(c) && !is_removed(self.orders[c]) ==> {
                &&& self.ids.contains_key(key_of(self.orders[c]))
                &&& self.ids[key_of(self.orders[c])] == c
            }
    }

    /// The bookkeeping invariant: the index maps exactly the unfinished
    /// orders to their client order ids, and no order is kept once both
    /// sides have reported it finished.
    pub open spec fn wf(self) -> bool {
        self.index_sound() && self.index_complete()
    }

    /// The state after order `cid` took the new value `o`, reported by the
    /// private stream (`by_ws`) or by REST.
    pub open spec fn settle(self, cid: Seq<char>, o: Order, by_ws: bool) -> ManagerView {
        let e = self.orders[cid];
        let e1 = OrderEntryView { order: o, ..e };
        if is_working(o.status) {
            ManagerView { orders: self.orders.insert(cid, e1), ..self }
        } else {
            let e2 = if by_ws {
                OrderEntryView { removed_by_ws: true, ..e1 }
            } else {
                OrderEntryView { removed_by_rest: true, ..e1 }
            };
            let ids = if is_removed(e) {
                self.ids
            } else {
                self.ids.remove(key_of(e))
            };
            let orders = if e2.removed_by_ws && e2.removed_by_rest {
                self.orders.remove(cid)
            } else {
                self.orders.insert(cid, e2)
            };
            ManagerView { prefix: self.prefix, orders: orders, ids: ids }
        }
    }

    /// What is handed back to the engine when order `cid` takes the value `o`:
    /// nothing once the order had been reported finished before.
    pub open spec fn settle_result(self, cid: Seq<char>, o: Order) -> Option<Order> {
        if is_removed(self.orders[cid]) {
            None
        } else {
            Some(o)
        }
    }

    /// The client order ids that a collection at time `now` forgets.
    pub open spec fn stale_ids(self, now: int) -> Set<Seq<char>> {
        Set::new(|c: Seq<char>| self.orders.contains_key(c) && is_stale(self.orders[c], now - GC_AGE_NS))
    }

    /// The (symbol, order id) keys of the orders in `cids`.
    pub open spec fn keys_of(self, cids: Set<Seq<char>>) -> Set<(Seq<char>, u64)> {
        Set::new(|k: (Seq<char>, u64)| exists|c: Seq<char>| #[trigger] cids.contains(c) && key_of(self.orders[c]) == k)
    }

    /// The state after forgetting the orders that are stale at time `now`.
    pub open spec fn collected(self, now: int) -> ManagerView {
        ManagerView {
            prefix: self.prefix,
            orders: self.orders.remove_keys(self.stale_ids(now)),
            ids: self.ids.remove_keys(self.keys_of(self.stale_ids(now))),
        }
    }

    /// The orders on `symbol` that a cancel-all reports as canceled: those
    /// not yet reported finished.
    pub open spec fn cancel_reported(self, symbol: Seq<char>) -> Set<Seq<char>> {
        Set::new(
            |c: Seq<char>|
                self.orders.contains_key(c) && self.orders[c].symbol == symbol && !is_removed(self.orders[c]),
        )
    }

    /// The orders on `symbol` that a cancel-all forgets: those the private
    /// stream had already reported finished.
    pub open spec fn cancel_dropped(self, symbol: Seq<char>) -> Set<Seq<char>> {
        Set::new(
            |c: Seq<char>|
                self.orders.contains_key(c) && self.orders[c].symbol == symbol && self.orders[c].removed_by_ws,
        )
    }

    /// The state after every order on `symbol` was canceled through REST.
    pub open spec fn canceled_all(self, symbol: Seq<char>, now: Option<i64>) -> ManagerView {
        ManagerView {
            prefix: self.prefix,
            orders: Map::new(
                |c: Seq<char>| self.orders.contains_key(c) && !self.cancel_dropped(symbol).contains(c),
                |c: Seq<char>|
                    if self.orders[c].symbol == symbol {
                        canceled_entry(self.orders[c], now)
                    } else {
                        self.orders[c]
                    },
            ),
            ids: self.ids.remove_keys(self.keys_of(self.cancel_reported(symbol))),
        }
    }

    /// The orders that are working in the market, on `symbol` when one is given.
    pub open spec fn listed(self, symbol: Option<Seq<char>>) -> Set<Seq<char>> {
        Set::new(
            |c: Seq<char>|
                {
                    &&& self.orders.contains_key(c)
                    &&& match symbol {
                        Some(s) => self.orders[c].symbol == s,
                        None => true,
                    }
                    &&& is_working(self.orders[c].order.status)
                },
        )
    }

    /// The state and the hand-back after a REST reply reported `status` at
    /// `ts` for order `cid`: unknown orders and stale replies change nothing.
    pub open spec fn rest_update(self, cid: Seq<char>, status: Status, ts: i64, fill: FillValues) -> (ManagerView, Option<Order>) {
        if !self.orders.contains_key(cid) {
            (self, None)
        } else {
            let o = applied(self.orders[cid].order, status, ts, fill);
            if ts < self.orders[cid].order.exch_timestamp {
                (self, None)
            } else {
                (self.settle(cid, o, false), self.settle_result(cid, o))
            }
        }
    }

    /// The state and the hand-back after a failed REST call for order `cid`.
    pub open spec fn rest_fail(self, cid: Seq<char>, status: Option<Status>) -> (ManagerView, Option<Order>) {
        if !self.orders.contains_key(cid) {
            (self, None)
        } else {
            let o = fallen_back(self.orders[cid].order, status);
            (self.settle(cid, o, false), self.settle_result(cid, o))
        }
    }

    /// The state after a new order was registered under client order id `cid`.
    pub open spec fn prepared(self, symbol: Seq<char>, order: Order, cid: Seq<char>) -> ManagerView {
        ManagerView {
            prefix: self.prefix,
            orders: self.orders.insert(
                cid,
                OrderEntryView {
                    symbol: symbol,
                    order: order,
                    removed_by_ws: false,
                    removed_by_rest: false,
                },
            ),
            ids: self.ids.insert((symbol, order.order_id), cid),
        }
    }
}

/// The first `i + 1` elements, as a set, are the first `i` and element `i`.
proof fn lemma_take_next_to_set<A>(s: Seq<A>, i: int)
    requires
        0 <= i < s.len(),
    ensures
        s.take(i + 1).to_set() == s.take(i).to_set().insert(s[i]),
{
    assert(s.take(i + 1) == s.take(i) + seq![s[i]]);
    Seq::lemma_to_set_insert_commutes(s.take(i), s[i]);
}

/// In a sequence without duplicates, element `i` is not among the first `i`.
proof fn lemma_no_dup_not_in_prefix<A>(s: Seq<A>, i: int)
    requires
        0 <= i < s.len(),
        s.no_duplicates(),
    ensures
        !s.take(i).to_set().contains(s[i]),
{
    if s.take(i).to_set().contains(s[i]) {
        assert(s.take(i).contains(s[i]));
        let j = choose|j: int| 0 <= j < i && s.take(i)[j] == s[i];
        assert(s[j] == s[i]);
    }
}

impl ManagerView {
    proof fn lemma_keys_of_insert(self, cids: Set<Seq<char>>, c: Seq<char>)
        ensures
            self.keys_of(cids.insert(c)) == self.keys_of(cids).insert(key_of(self.orders[c])),
    {
        assert forall|k: (Seq<char>, u64)| #[trigger] self.keys_of(cids.insert(c)).contains(k) implies self.keys_of(
            cids,
        ).insert(key_of(self.orders[c])).contains(k) by {
            let d = choose|d: Seq<char>| #[trigger] cids.insert(c).contains(d) && key_of(self.orders[d]) == k;
            if d != c {
                assert(cids.contains(d));
            }
        }
        assert forall|k: (Seq<char>, u64)| #[trigger] self.keys_of(cids).insert(key_of(self.orders[c])).contains(k) implies self.keys_of(
            cids.insert(c),
        ).contains(k) by {
            if k == key_of(self.orders[c]) {
                assert(cids.insert(c).contains(c));
            } else {
                let d = choose|d: Seq<char>| #[trigger] cids.contains(d) && key_of(self.orders[d]) == k;
                assert(cids.insert(c).contains(d));
            }
        }
        assert(self.keys_of(cids.insert(c)) =~= self.keys_of(cids).insert(key_of(self.orders[c])));
    }
}

/// Tracks the orders this connector submitted, by client order id and by the
/// engine's (symbol, order id).
pub struct OrderManager {
    prefix: String,
    orders: OrderTable,
    order_id_map: IdIndex,
}

impl View for OrderManager {
    type V = ManagerView;

    closed spec fn view(&self) -> ManagerView {
        ManagerView { prefix: self.prefix@, orders: self.orders@, ids: self.order_id_map@ }
    }
}

impl OrderManager {
    /// An empty manager whose client order ids start with `prefix`.
    pub fn new(prefix: &str) -> (r: OrderManager)
        ensures
            r@.prefix == prefix@,
            r@.orders == Map::<Seq<char>, OrderEntryView>::empty(),
            r@.ids == Map::<(Seq<char>, u64), Seq<char>>::empty(),
            r@.wf(),
    {
        OrderManager { prefix: prefix.to_owned(), orders: OrderTable::new(), order_id_map: IdIndex::new() }
    }

    /// Gives order `cid` (currently `entry`) the value `o` and retires it when
    /// `o` is no longer working.
    fn settle(&mut self, cid: &str, entry: OrderEntry, o: Order, by_ws: bool) -> (r: Option<Order>)
        requires
            old(self)@.orders.contains_key(cid@),
            entry@ == old(self)@.orders[cid@],
            o.order_id == entry.order.order_id,
        ensures
            final(self)@ == old(self)@.settle(cid@, o, by_ws),
            r == old(self)@.settle_result(cid@, o),
            old(self)@.wf() ==> final(self)@.wf(),
    {
        proof {
            if self@.wf() {
                law_settle_keeps_wf(self@, cid@, o, by_ws);
            }
        }
        let already_removed = entry.removed_by_ws || entry.removed_by_rest;
        let result = if already_removed {
            None
        } else {
            Some(o)
        };
        let mut e = OrderEntry {
            symbol: entry.symbol,
            order: o,
            removed_by_ws: entry.removed_by_ws,
            removed_by_rest: entry.removed_by_rest,
        };
        if o.status != Status::New && o.status != Status::PartiallyFilled {
            if by_ws {
                e.removed_by_ws = true;
            } else {
                e.removed_by_rest = true;
            }
            if !already_removed {
                self.order_id_map.remove(e.symbol.as_str(), e.order.order_id);
            }
            if e.removed_by_ws && e.removed_by_rest {
                self.orders.remove(cid);
            } else {
                self.orders.insert(cid.to_owned(), e);
            }
        } else {
            self.orders.insert(cid.to_owned(), e);
        }
        result
    }

    /// Applies an order report from the private stream. `fill` holds the
    /// report's numbers as the engine read them against the stored order.
    pub fn update_from_ws(&mut self, resp: &OrderUpdate, fill: &FillValues) -> (r: Result<
        Option<Order>,
        StandxError,
    >)
        ensures
            match resp.cl_ord_id {
                None => {
                    &&& r matches Err(StandxError::OrderNotFound)
                    &&& final(self)@ == old(self)@
                },
                Some(c) => if !old(self)@.prefix.is_prefix_of(c@) {
                    &&& r matches Err(StandxError::PrefixUnmatched)
                    &&& final(self)@ == old(self)@
                } else if !old(self)@.orders.contains_key(c@) {
                    &&& r matches Err(StandxError::OrderNotFound)
                    &&& final(self)@ == old(self)@
                } else {
                    let e = old(self)@.orders[c@];
                    let ts = report_ts(resp.updated_at);
                    let o = applied(e.order, resp.status, ts, *fill);
                    if ts < e.order.exch_timestamp {
                        &&& r matches Ok(None)
                        &&& final(self)@ == old(self)@
                    } else {
                        &&& r matches Ok(x) && x == old(self)@.settle_result(c@, o)
                        &&& final(self)@ == old(self)@.settle(c@, o, true)
                    }
                },
            },
            old(self)@.wf() ==> final(self)@.wf(),
    {
        let cl_ord_id = match &resp.cl_ord_id {
            Some(id) => id,
            None => {
                return Err(StandxError::OrderNotFound);
            },
        };
        if !starts_with(cl_ord_id.as_str(), self.prefix.as_str()) {
            return Err(StandxError::PrefixUnmatched);
        }
        let entry = match self.orders.get(cl_ord_id.as_str()) {
            Some(e) => e.duplicate(),
            None => {
                return Err(StandxError::OrderNotFound);
            },
        };
        let resp_ts = match resp.updated_at_ns() {
            Some(t) => t,
            None => 0,
        };
        if resp_ts < entry.order.exch_timestamp {
            return Ok(None);
        }
        let o = Order {
            status: resp.status,
            req: Status::NoStatus,
            qty_bits: fill.qty_bits,
            exec_qty_bits: fill.exec_qty_bits,
            exch_timestamp: resp_ts,
            price_tick: fill.price_tick,
            exec_price_tick: fill.exec_price_tick,
            ..entry.order
        };
        Ok(self.settle(cl_ord_id.as_str(), entry, o, true))
    }

    /// Applies the order state returned by a REST call for `client_order_id`.
    /// `fill` holds the reply's numbers as the engine read them against the
    /// stored order.
    pub fn update_from_rest(&mut self, client_order_id: &str, resp: &OrderDetail, fill: &FillValues) -> (r: Option<Order>)
        ensures
            (final(self)@, r) == old(self)@.rest_update(client_order_id@, resp.status, report_ts(resp.updated_at), *fill),
            old(self)@.wf() ==> final(self)@.wf(),
    {
        let entry = match self.orders.get(client_order_id) {
            Some(e) => e.duplicate(),
            None => {
                return None;
            },
        };
        let resp_ts = match resp.updated_at_ns() {
            Some(t) => t,
            None => 0,
        };
        if resp_ts < entry.order.exch_timestamp {
            return None;
        }
        let o = Order {
            status: resp.status,
            req: Status::NoStatus,
            qty_bits: fill.qty_bits,
            exec_qty_bits: fill.exec_qty_bits,
            exch_timestamp: resp_ts,
            price_tick: fill.price_tick,
            exec_price_tick: fill.exec_price_tick,
            ..entry.order
        };
        self.settle(client_order_id, entry, o, false)
    }

    /// Falls back after a failed REST call for `client_order_id`: sets
    /// `status` if one is given and clears the pending request.
    pub fn update_from_rest_fail(&mut self, client_order_id: &str, status: Option<Status>) -> (r: Option<Order>)
        ensures
            (final(self)@, r) == old(self)@.rest_fail(client_order_id@, status),
            old(self)@.wf() ==> final(self)@.wf(),
    {
        let entry = match self.orders.get(client_order_id) {
            Some(e) => e.duplicate(),
            None => {
                return None;
            },
        };
        let new_status = match status {
            Some(s) => s,
            None => entry.order.status,
        };
        let o = Order { status: new_status, req: Status::NoStatus, ..entry.order };
        self.settle(client_order_id, entry, o, false)
    }

    /// A submission failed: the order expires.
    pub fn update_submit_fail(&mut self, client_order_id: &str) -> (r: Option<Order>)
        ensures
            (final(self)@, r) == old(self)@.rest_fail(client_order_id@, Some(Status::Expired)),
            old(self)@.wf() ==> final(self)@.wf(),
    {
        self.update_from_rest_fail(client_order_id, Some(Status::Expired))
    }

    /// A cancellation failed: the order keeps its status.
    pub fn update_cancel_fail(&mut self, client_order_id: &str) -> (r: Option<Order>)
        ensures
            (final(self)@, r) == old(self)@.rest_fail(client_order_id@, None),
            old(self)@.wf() ==> final(self)@.wf(),
    {
        self.update_from_rest_fail(client_order_id, None)
    }

    /// Registers a new order under the client order id made of the prefix and
    /// `suffix`, unless the engine's (symbol, order id) is already registered.
    pub fn prepare_client_order_id_with(&mut self, symbol: String, order: Order, suffix: &str) -> (r: Option<String>)
        ensures
            if old(self)@.ids.contains_key((symbol@, order.order_id)) {
                r is None && final(self)@ == old(self)@
            } else {
                &&& r matches Some(c) && c@ == old(self)@.prefix + suffix@
                &&& final(self)@ == old(self)@.prepared(symbol@, order, old(self)@.prefix + suffix@)
            },
            old(self)@.wf() && !old(self)@.orders.contains_key(old(self)@.prefix + suffix@) ==> final(self)@.wf(),
    {
        if self.order_id_map.contains(symbol.as_str(), order.order_id) {
            return None;
        }
        proof {
            if self@.wf() && !self@.orders.contains_key(self@.prefix + suffix@) {
                law_prepare_keeps_wf(self@, symbol@, order, self@.prefix + suffix@);
            }
        }
        let mut client_order_id = self.prefix.clone();
        client_order_id.append(suffix);
        self.order_id_map.insert(symbol.clone(), order.order_id, client_order_id.clone());
        self.orders.insert(
            client_order_id.clone(),
            OrderEntry { symbol: symbol, order: order, removed_by_ws: false, removed_by_rest: false },
        );
        Some(client_order_id)
    }

    /// Registers a new order under a fresh client order id: the prefix
    /// followed by random ASCII letters and digits.
    pub fn prepare_client_order_id(&mut self, symbol: String, order: Order) -> (r: Option<String>)
        ensures
            if old(self)@.ids.contains_key((symbol@, order.order_id)) {
                r is None && final(self)@ == old(self)@
            } else {
                exists|suffix: Seq<char>|
                    {
                        &&& suffix.len() == CLIENT_ORDER_ID_RANDOM_LEN
                        &&& forall|i: int| 0 <= i < suffix.len() ==> is_ascii_alphanumeric(#[trigger] suffix[i])
                        &&& r matches Some(c) && c@ == old(self)@.prefix + suffix
                        &&& final(self)@ == old(self)@.prepared(symbol@, order, old(self)@.prefix + suffix)
                    }
            },
            r matches Some(c) ==> (old(self)@.wf() && !old(self)@.orders.contains_key(c@)
                ==> final(self)@.wf()),
    {
        let suffix = random_alphanumeric(CLIENT_ORDER_ID_RANDOM_LEN);
        self.prepare_client_order_id_with(symbol, order, suffix.as_str())
    }

    /// The client order id registered for the engine's (symbol, order id).
    pub fn get_client_order_id(&self, symbol: &str, order_id: u64) -> (r: Option<String>)
        ensures
            r is Some == self@.ids.contains_key((symbol@, order_id)),
            r matches Some(c) ==> c@ == self@.ids[(symbol@, order_id)],
    {
        match self.order_id_map.get(symbol, order_id) {
            Some(c) => Some(c.clone()),
            None => None,
        }
    }

    /// The order stored under a client order id.
    pub fn get_order(&self, client_order_id: &str) -> (r: Option<Order>)
        ensures
            r is Some == self@.orders.contains_key(client_order_id@),
            r matches Some(o) ==> o == self@.orders[client_order_id@].order,
    {
        match self.orders.get(client_order_id) {
            Some(e) => Some(e.order),
            None => None,
        }
    }

    /// Forgets the finished orders whose exchange timestamp is more than five
    /// minutes older than `now` (nanoseconds), and their index entries.
    pub fn gc_at(&mut self, now: i64)
        requires
            now >= i64::MIN + GC_AGE_NS,
        ensures
            final(self)@ == old(self)@.collected(now as int),
            ({
                let v = old(self)@;
                v.wf() && (forall|c: Seq<char>, d: Seq<char>|
                    #![trigger v.stale_ids(now as int).contains(c), v.orders.contains_key(d)]
                    v.stale_ids(now as int).contains(c) && v.orders.contains_key(d) && key_of(v.orders[c])
                        == key_of(v.orders[d]) ==> c == d) ==> final(self)@.wf()
            }),
            old(self)@.index_sound() ==> final(self)@.index_sound(),
    {
        let stale_ts = now - GC_AGE_NS;
        let ids = self.orders.client_ids();
        let ghost ks = ids.deep_view();
        let ghost start = self@;
        let ghost gone = start.stale_ids(now as int);
        let mut i: usize = 0;
        while i < ids.len()
            invariant
                0 <= i <= ids.len(),
                ks == ids.deep_view(),
                ks.no_duplicates(),
                ks.to_set() == start.orders.dom(),
                gone == start.stale_ids(now as int),
                stale_ts == now - GC_AGE_NS,
                self@.prefix == start.prefix,
                self@.orders == start.orders.remove_keys(gone.intersect(ks.take(i as int).to_set())),
                self@.ids == start.ids.remove_keys(start.keys_of(gone.intersect(ks.take(i as int).to_set()))),
            decreases ids.len() - i,
        {
            let ghost done = ks.take(i as int).to_set();
            let ghost c = ks[i as int];
            assert(ids[i as int]@ == c);
            assert(start.orders.contains_key(c)) by {
                assert(ks.contains(c));
            }
            proof {
                lemma_no_dup_not_in_prefix(ks, i as int);
            }
            let cid = &ids[i];
            let entry = match self.orders.get(cid.as_str()) {
                Some(e) => e.duplicate(),
                None => {
                    proof {
                        assert(false);
                    }
                    return;
                },
            };
            let stale = entry.order.status != Status::New && entry.order.status != Status::PartiallyFilled
                && entry.order.status != Status::Unsupported && entry.order.exch_timestamp < stale_ts;
            if stale {
                self.order_id_map.remove(entry.symbol.as_str(), entry.order.order_id);
                self.orders.remove(cid.as_str());
            }
            proof {
                let next = ks.take(i + 1).to_set();
                lemma_take_next_to_set(ks, i as int);
                if stale {
                    assert(gone.intersect(next) == gone.intersect(done).insert(c));
                    start.lemma_keys_of_insert(gone.intersect(done), c);
                } else {
                    assert(gone.intersect(next) == gone.intersect(done));
                }
            }
            i = i + 1;
        }
        proof {
            assert(ks.take(ids.len() as int) == ks);
            assert(gone.intersect(ks.to_set()) == gone);
            if start.wf() && (forall|c: Seq<char>, d: Seq<char>|
                #![trigger start.stale_ids(now as int).contains(c), start.orders.contains_key(d)]
                start.stale_ids(now as int).contains(c) && start.orders.contains_key(d) && key_of(start.orders[c])
                    == key_of(start.orders[d]) ==> c == d) {
                law_gc_keeps_wf(start, now as int);
            }
            if start.index_sound() {
                law_gc_keeps_index_sound(start, now as int);
            }
        }
    }

    /// Forgets finished orders older than five minutes by the wall clock. When
    /// the clock reading is unavailable or too close to the start of the
    /// `i64` range to subtract five minutes, nothing is forgotten.
    pub fn gc(&mut self)
        ensures
            final(self)@ == old(self)@ || exists|now: i64|
                now >= i64::MIN + GC_AGE_NS && final(self)@ == old(self)@.collected(now as int),
            old(self)@.index_sound() ==> final(self)@.index_sound(),
    {
        match utc_now_nanos() {
            Some(now) => {
                if now >= i64::MIN + GC_AGE_NS {
                    self.gc_at(now);
                }
            },
            None => {},
        }
    }

    /// Marks every order on `symbol` canceled through REST, stamping it with
    /// `now` when given, and returns the orders not reported finished before,
    /// in the table's iteration order.
    pub fn cancel_all_from_rest_at(&mut self, symbol: &str, now: Option<i64>) -> (r: Vec<Order>)
        ensures
            final(self)@ == old(self)@.canceled_all(symbol@, now),
            exists|cids: Seq<Seq<char>>|
                {
                    &&& cids.no_duplicates()
                    &&& cids.to_set() == old(self)@.cancel_reported(symbol@)
                    &&& r@ == cids.map_values(|c: Seq<char>| canceled_entry(old(self)@.orders[c], now).order)
                },
            old(self)@.wf() ==> final(self)@.wf(),
    {
        let ids = self.orders.client_ids();
        let ghost ks = ids.deep_view();
        let ghost start = self@;
        let ghost s = symbol@;
        let ghost reported = start.cancel_reported(s);
        let ghost dropped = start.cancel_dropped(s);
        let ghost mut picked: Seq<Seq<char>> = Seq::empty();
        let mut out: Vec<Order> = Vec::new();
        let mut i: usize = 0;
        while i < ids.len()
            invariant
                0 <= i <= ids.len(),
                ks == ids.deep_view(),
                ks.no_duplicates(),
                ks.to_set() == start.orders.dom(),
                s == symbol@,
                reported == start.cancel_reported(s),
                dropped == start.cancel_dropped(s),
                self@.prefix == start.prefix,
                self@.orders == Map::new(
                    |c: Seq<char>| start.orders.contains_key(c) && !(ks.take(i as int).to_set().contains(c) && dropped.contains(c)),
                    |c: Seq<char>|
                        if ks.take(i as int).to_set().contains(c) && start.orders[c].symbol == s {
                            canceled_entry(start.orders[c], now)
                        } else {
                            start.orders[c]
                        },
                ),
                self@.ids == start.ids.remove_keys(start.keys_of(reported.intersect(ks.take(i as int).to_set()))),
                picked.no_duplicates(),
                forall|j: int| 0 <= j < picked.len() ==> ks.take(i as int).to_set().contains(#[trigger] picked[j]) && reported.contains(picked[j]),
                forall|c: Seq<char>| ks.take(i as int).to_set().contains(c) && reported.contains(c) ==> #[trigger] picked.contains(c),
                out@ == picked.map_values(|c: Seq<char>| canceled_entry(start.orders[c], now).order),
            decreases ids.len() - i,
        {
            let ghost done = ks.take(i as int).to_set();
            let ghost c = ks[i as int];
            proof {
                assert(ids[i as int]@ == c);
                assert(ks.contains(c));
                lemma_no_dup_not_in_prefix(ks, i as int);
                lemma_take_next_to_set(ks, i as int);
            }
            let ghost next = ks.take(i + 1).to_set();
            let cid = &ids[i];
            let entry = match self.orders.get(cid.as_str()) {
                Some(e) => e.duplicate(),
                None => {
                    proof {
                        assert(false);
                    }
                    return out;
                },
            };
            if str_eq(entry.symbol.as_str(), symbol) {
                let already_removed = entry.removed_by_ws || entry.removed_by_rest;
                let mut e = entry;
                e.removed_by_rest = true;
                e.order.status = Status::Canceled;
                match now {
                    Some(t) => {
                        e.order.exch_timestamp = t;
                    },
                    None => {},
                }
                if !already_removed {
                    self.order_id_map.remove(symbol, e.order.order_id);
                    out.push(e.order);
                    proof {
                        let old_picked = picked;
                        picked = picked.push(c);
                        assert(!old_picked.contains(c));
                        assert forall|j: int| 0 <= j < picked.len() implies next.contains(#[trigger] picked[j]) && reported.contains(picked[j]) by {
                            if j < old_picked.len() {
                                assert(old_picked[j] == picked[j]);
                            }
                        }
                        assert forall|d: Seq<char>| next.contains(d) && reported.contains(d) implies #[trigger] picked.contains(d) by {
                            if d == c {
                                assert(picked[old_picked.len() as int] == c);
                            } else {
                                assert(old_picked.contains(d));
                                let j = choose|j: int| 0 <= j < old_picked.len() && old_picked[j] == d;
                                assert(picked[j] == d);
                            }
                        }
                        assert(reported.intersect(next) == reported.intersect(done).insert(c));
                        start.lemma_keys_of_insert(reported.intersect(done), c);
                    }
                } else {
                    proof {
                        assert(!reported.contains(c));
                        assert(reported.intersect(next) == reported.intersect(done));
                    }
                }
                if e.removed_by_ws && e.removed_by_rest {
                    self.orders.remove(cid.as_str());
                } else {
                    self.orders.insert(cid.clone(), e);
                }
            } else {
                proof {
                    assert(!reported.contains(c));
                    assert(reported.intersect(next) == reported.intersect(done));
                }
            }
            proof {
                let cur = self@.orders;
                let want = Map::new(
                    |d: Seq<char>| start.orders.contains_key(d) && !(next.contains(d) && dropped.contains(d)),
                    |d: Seq<char>|
                        if next.contains(d) && start.orders[d].symbol == s {
                            canceled_entry(start.orders[d], now)
                        } else {
                            start.orders[d]
                        },
                );
                assert(cur =~= want);
            }
            i = i + 1;
        }
        proof {
            assert(ks.take(ids.len() as int) == ks);
            assert(reported.intersect(ks.to_set()) =~= reported);
            assert(self@.orders =~= start.canceled_all(s, now).orders);
            assert(picked.to_set() =~= reported);
            if start.wf() {
                law_cancel_all_keeps_wf(start, s, now);
            }
        }
        out
    }

    /// Marks every order on `symbol` canceled through REST, stamped with the
    /// wall clock, and returns the orders not reported finished before.
    pub fn cancel_all_from_rest(&mut self, symbol: &str) -> (r: Vec<Order>)
        ensures
            exists|now: Option<i64>|
                {
                    &&& final(self)@ == old(self)@.canceled_all(symbol@, now)
                    &&& exists|cids: Seq<Seq<char>>|
                        {
                            &&& cids.no_duplicates()
                            &&& cids.to_set() == old(self)@.cancel_reported(symbol@)
                            &&& r@ == cids.map_values(|c: Seq<char>| canceled_entry(old(self)@.orders[c], now).order)
                        }
                },
            old(self)@.wf() ==> final(self)@.wf(),
    {
        let now = utc_now_nanos();
        self.cancel_all_from_rest_at(symbol, now)
    }

    /// The orders working in the market, on `symbol` when one is given, in the
    /// table's iteration order.
    pub fn orders(&self, symbol: Option<String>) -> (r: Vec<Order>)
        ensures
            exists|cids: Seq<Seq<char>>|
                {
                    &&& cids.no_duplicates()
                    &&& cids.to_set() == self@.listed(symbol_view(symbol))
                    &&& r@ == cids.map_values(|c: Seq<char>| self@.orders[c].order)
                },
    {
        let ghost sym = symbol_view(symbol);
        let ghost want = self@.listed(sym);
        let ids = self.orders.client_ids();
        let ghost ks = ids.deep_view();
        let ghost mut picked: Seq<Seq<char>> = Seq::empty();
        let mut out: Vec<Order> = Vec::new();
        let mut i: usize = 0;
        while i < ids.len()
            invariant
                0 <= i <= ids.len(),
                ks == ids.deep_view(),
                ks.no_duplicates(),
                ks.to_set() == self@.orders.dom(),
                want == self@.listed(sym),
                sym == symbol_view(symbol),
                picked.no_duplicates(),
                forall|j: int| 0 <= j < picked.len() ==> ks.take(i as int).to_set().contains(#[trigger] picked[j]) && want.contains(picked[j]),
                forall|c: Seq<char>| ks.take(i as int).to_set().contains(c) && want.contains(c) ==> #[trigger] picked.contains(c),
                out@ == picked.map_values(|c: Seq<char>| self@.orders[c].order),
            decreases ids.len() - i,
        {
            let ghost c = ks[i as int];
            proof {
                assert(ids[i as int]@ == c);
                assert(ks.contains(c));
                lemma_no_dup_not_in_prefix(ks, i as int);
                lemma_take_next_to_set(ks, i as int);
            }
            let ghost next = ks.take(i + 1).to_set();
            let entry = match self.orders.get(ids[i].as_str()) {
                Some(e) => e,
                None => {
                    proof {
                        assert(false);
                    }
                    return out;
                },
            };
            let symbol_matches = match &symbol {
                Some(s) => str_eq(entry.symbol.as_str(), s.as_str()),
                None => true,
            };
            if symbol_matches && entry.order.active() {
                out.push(entry.order);
                proof {
                    let old_picked = picked;
                    picked = picked.push(c);
                    assert forall|j: int| 0 <= j < picked.len() implies next.contains(#[trigger] picked[j]) && want.contains(picked[j]) by {
                        if j < old_picked.len() {
                            assert(old_picked[j] == picked[j]);
                        }
                    }
                    assert forall|d: Seq<char>| next.contains(d) && want.contains(d) implies #[trigger] picked.contains(d) by {
                        if d == c {
                            assert(picked[old_picked.len() as int] == c);
                        } else {
                            assert(old_picked.contains(d));
                            let j = choose|j: int| 0 <= j < old_picked.len() && old_picked[j] == d;
                            assert(picked[j] == d);
                        }
                    }
                }
            } else {
                proof {
                    assert(!want.contains(c));
                }
            }
            i = i + 1;
        }
        proof {
            assert(ks.take(ids.len() as int) == ks);
            assert(picked.to_set() =~= want);
        }
        out
    }
}

} // verus!
