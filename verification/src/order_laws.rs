use vstd::prelude::*;

use crate::msg::FillValues;
use crate::ordermanager::{is_removed, key_of, ManagerView};
use crate::types::{is_working, Order, Status};

verus! {

/// Giving a tracked order a new value (with its order id unchanged) keeps the
/// bookkeeping invariant.
pub proof fn law_settle_keeps_wf(v: ManagerView, cid: Seq<char>, o: Order, by_ws: bool)
    requires
        v.wf(),
        v.orders.contains_key(cid),
        o.order_id == v.orders[cid].order.order_id,
    ensures
        v.settle(cid, o, by_ws).wf(),
{
    let w = v.settle(cid, o, by_ws);
    let e = v.orders[cid];
    assert forall|k: (Seq<char>, u64)| #[trigger] w.ids.contains_key(k) implies {
        &&& w.orders.contains_key(w.ids[k])
        &&& key_of(w.orders[w.ids[k]]) == k
        &&& !is_removed(w.orders[w.ids[k]])
    } by {
        assert(v.ids.contains_key(k));
        if v.ids[k] == cid {
            assert(k == key_of(e));
        }
    }
    assert forall|c: Seq<char>| #[trigger] w.orders.contains_key(c) && !is_removed(w.orders[c]) implies {
        &&& w.ids.contains_key(key_of(w.orders[c]))
        &&& w.ids[key_of(w.orders[c])] == c
    } by {
        if c != cid {
            assert(v.orders.contains_key(c));
            if !is_removed(e) && key_of(v.orders[c]) == key_of(e) {
                assert(v.ids[key_of(e)] == cid);
            }
        }
    }
}

/// Registering an order under a client order id that is not yet in use, for
/// a (symbol, order id) that is not yet registered, keeps the invariant.
pub proof fn law_prepare_keeps_wf(v: ManagerView, symbol: Seq<char>, order: Order, cid: Seq<char>)
    requires
        v.wf(),
        !v.ids.contains_key((symbol, order.order_id)),
        !v.orders.contains_key(cid),
    ensures
        v.prepared(symbol, order, cid).wf(),
{
    let w = v.prepared(symbol, order, cid);
    assert forall|k: (Seq<char>, u64)| #[trigger] w.ids.contains_key(k) implies {
        &&& w.orders.contains_key(w.ids[k])
        &&& key_of(w.orders[w.ids[k]]) == k
        &&& !is_removed(w.orders[w.ids[k]])
    } by {
        if k != (symbol, order.order_id) {
            assert(v.ids.contains_key(k));
        }
    }
    assert forall|c: Seq<char>| #[trigger] w.orders.contains_key(c) && !is_removed(w.orders[c]) implies {
        &&& w.ids.contains_key(key_of(w.orders[c]))
        &&& w.ids[key_of(w.orders[c])] == c
    } by {
        if c != cid {
            assert(v.orders.contains_key(c));
        }
    }
}

/// Canceling every order on a symbol through REST keeps the invariant.
pub proof fn law_cancel_all_keeps_wf(v: ManagerView, symbol: Seq<char>, now: Option<i64>)
    requires
        v.wf(),
    ensures
        v.canceled_all(symbol, now).wf(),
{
    let w = v.canceled_all(symbol, now);
    let gone = v.keys_of(v.cancel_reported(symbol));
    assert forall|k: (Seq<char>, u64)| #[trigger] w.ids.contains_key(k) implies {
        &&& w.orders.contains_key(w.ids[k])
        &&& key_of(w.orders[w.ids[k]]) == k
        &&& !is_removed(w.orders[w.ids[k]])
    } by {
        assert(v.ids.contains_key(k));
        let c = v.ids[k];
        if v.orders[c].symbol == symbol {
            assert(v.cancel_reported(symbol).contains(c));
            assert(gone.contains(k));
        }
    }
}

/// After every order on a symbol was canceled through REST, no index entry of
/// that symbol is left, so none of its orders can be canceled again.
pub proof fn law_cancel_all_unindexes_symbol(v: ManagerView, symbol: Seq<char>, now: Option<i64>)
    requires
        v.index_sound(),
    ensures
        forall|k: (Seq<char>, u64)| #[trigger]
            v.canceled_all(symbol, now).ids.contains_key(k) ==> k.0 != symbol,
{
    let w = v.canceled_all(symbol, now);
    assert forall|k: (Seq<char>, u64)| #[trigger] w.ids.contains_key(k) implies k.0 != symbol by {
        assert(v.ids.contains_key(k));
        let c = v.ids[k];
        if k.0 == symbol {
            assert(v.cancel_reported(symbol).contains(c));
            assert(v.keys_of(v.cancel_reported(symbol)).contains(k));
        }
    }
}

/// Forgetting stale orders keeps every index entry leading to an unfinished
/// order filed under that entry's (symbol, order id).
pub proof fn law_gc_keeps_index_sound(v: ManagerView, now: int)
    requires
        v.index_sound(),
    ensures
        v.collected(now).index_sound(),
{
    let w = v.collected(now);
    let gone = v.stale_ids(now);
    assert forall|k: (Seq<char>, u64)| #[trigger] w.ids.contains_key(k) implies {
        &&& w.orders.contains_key(w.ids[k])
        &&& key_of(w.orders[w.ids[k]]) == k
        &&& !is_removed(w.orders[w.ids[k]])
    } by {
        assert(v.ids.contains_key(k));
        let c = v.ids[k];
        if gone.contains(c) {
            assert(v.keys_of(gone).contains(k));
        }
    }
    assert forall|c: Seq<char>| #[trigger] w.orders.contains_key(c) implies !(
    w.orders[c].removed_by_ws && w.orders[c].removed_by_rest) by {
        assert(v.orders.contains_key(c));
    }
}

/// Forgetting stale orders keeps the invariant, provided no stale order
/// shares its (symbol, order id) with another tracked order.
pub proof fn law_gc_keeps_wf(v: ManagerView, now: int)
    requires
        v.wf(),
        forall|c: Seq<char>, d: Seq<char>|
            #![trigger v.stale_ids(now).contains(c), v.orders.contains_key(d)]
            v.stale_ids(now).contains(c) && v.orders.contains_key(d) && key_of(v.orders[c]) == key_of(
                v.orders[d],
            ) ==> c == d,
    ensures
        v.collected(now).wf(),
{
    let w = v.collected(now);
    let gone = v.stale_ids(now);
    law_gc_keeps_index_sound(v, now);
    assert forall|c: Seq<char>| #[trigger] w.orders.contains_key(c) && !is_removed(w.orders[c]) implies {
        &&& w.ids.contains_key(key_of(w.orders[c]))
        &&& w.ids[key_of(w.orders[c])] == c
    } by {
        assert(v.orders.contains_key(c));
        let k = key_of(v.orders[c]);
        if v.keys_of(gone).contains(k) {
            let d = choose|d: Seq<char>| #[trigger] gone.contains(d) && key_of(v.orders[d]) == k;
            assert(v.orders.contains_key(d));
        }
    }
}

/// After an order is registered, its (symbol, order id) leads to the new
/// client order id, and that id to the order.
pub proof fn law_prepare_then_lookup(v: ManagerView, symbol: Seq<char>, order: Order, cid: Seq<char>)
    ensures
        v.prepared(symbol, order, cid).ids.contains_key((symbol, order.order_id)),
        v.prepared(symbol, order, cid).ids[(symbol, order.order_id)] == cid,
        v.prepared(symbol, order, cid).orders.contains_key(cid),
        v.prepared(symbol, order, cid).orders[cid].order == order,
        v.prepared(symbol, order, cid).orders[cid].symbol == symbol,
{
}

/// Once an order is reported finished, no (symbol, order id) leads to it any
/// more, so it can no longer be canceled.
pub proof fn law_finished_order_unindexed(v: ManagerView, cid: Seq<char>, o: Order, by_ws: bool)
    requires
        v.wf(),
        v.orders.contains_key(cid),
        o.order_id == v.orders[cid].order.order_id,
        !is_working(o.status),
    ensures
        forall|k: (Seq<char>, u64)| #[trigger]
            v.settle(cid, o, by_ws).ids.contains_key(k) ==> v.settle(cid, o, by_ws).ids[k] != cid,
{
    law_settle_keeps_wf(v, cid, o, by_ws);
}

/// A finished order is handed back to the engine at most once: after it was
/// reported finished, no later report of it is handed back.
pub proof fn law_finished_order_reported_once(
    v: ManagerView,
    cid: Seq<char>,
    o: Order,
    by_ws: bool,
    later: Order,
)
    requires
        v.orders.contains_key(cid),
        !is_working(o.status),
    ensures
        v.settle(cid, o, by_ws).orders.contains_key(cid) ==> v.settle(cid, o, by_ws).settle_result(
            cid,
            later,
        ) is None,
{
}

/// A failed REST call hands an order back only while neither side has
/// reported it finished, with the fallback status (or its own) and no pending
/// request; once it was handed back finished, no later REST outcome hands it
/// back again.
pub proof fn law_rest_fail_hands_back_unfinished_once(
    v: ManagerView,
    cid: Seq<char>,
    status: Option<Status>,
    later_status: Option<Status>,
    reply_status: Status,
    reply_ts: i64,
    reply_fill: FillValues,
)
    ensures
        ({
            let (w, r) = v.rest_fail(cid, status);
            &&& r is Some <==> (v.orders.contains_key(cid) && !v.orders[cid].removed_by_ws
                && !v.orders[cid].removed_by_rest)
            &&& r matches Some(o) ==> w.orders.contains_key(cid) && w.orders[cid].order == o
            &&& w.orders.contains_key(cid) ==> w.orders[cid].order == (Order {
                status: match status {
                    Some(st) => st,
                    None => v.orders[cid].order.status,
                },
                req: Status::NoStatus,
                ..v.orders[cid].order
            })
            &&& !v.orders.contains_key(cid) ==> w == v
            &&& (r is Some && r->0.status != Status::New && r->0.status != Status::PartiallyFilled) ==> (
            w.rest_fail(cid, later_status).1 is None && w.rest_update(
                cid,
                reply_status,
                reply_ts,
                reply_fill,
            ).1 is None)
        }),
{
}

/// A REST reply for a tracked order that is not older than what is stored
/// sets the order's status, quantities, prices and timestamp to the reply's,
/// both in what is stored and in what is handed back; it is handed back only
/// while neither side has reported the order finished. An older reply, or
/// one for an unknown order, changes nothing.
pub proof fn law_rest_reply_carries_its_numbers(
    v: ManagerView,
    cid: Seq<char>,
    status: Status,
    ts: i64,
    fill: FillValues,
)
    ensures
        ({
            let (w, r) = v.rest_update(cid, status, ts, fill);
            if v.orders.contains_key(cid) && ts >= v.orders[cid].order.exch_timestamp {
                &&& r is Some <==> (!v.orders[cid].removed_by_ws && !v.orders[cid].removed_by_rest)
                &&& r matches Some(o) ==> w.orders.contains_key(cid) && w.orders[cid].order == o
                &&& (status == Status::New || status == Status::PartiallyFilled) ==> w.orders.contains_key(cid)
                &&& w.orders.contains_key(cid) ==> {
                    let o = w.orders[cid].order;
                    &&& o.status == status
                    &&& o.req == Status::NoStatus
                    &&& o.qty_bits == fill.qty_bits
                    &&& o.exec_qty_bits == fill.exec_qty_bits
                    &&& o.price_tick == fill.price_tick
                    &&& o.exec_price_tick == fill.exec_price_tick
                    &&& o.exch_timestamp == ts
                    &&& o.order_id == v.orders[cid].order.order_id
                    &&& o.side == v.orders[cid].order.side
                    &&& o.order_type == v.orders[cid].order.order_type
                    &&& o.time_in_force == v.orders[cid].order.time_in_force
                    &&& w.orders[cid].symbol == v.orders[cid].symbol
                }
            } else {
                w == v && r is None
            }
        }),
{
}

/// A REST cancel-all on a symbol reports exactly the orders on that symbol
/// that neither side has reported finished, each as canceled with its own
/// order id and stamped with the clock reading when there is one; under the bookkeeping invariant these are exactly the orders
/// the index leads to under that symbol. Orders the stream had reported
/// finished are forgotten, the others on the symbol are kept as canceled,
/// and orders on other symbols are untouched.
pub proof fn law_cancel_all_reports_only_unfinished(v: ManagerView, symbol: Seq<char>, now: Option<i64>)
    ensures
        forall|c: Seq<char>| #[trigger]
            v.cancel_reported(symbol).contains(c) <==> (v.orders.contains_key(c) && v.orders[c].symbol
                == symbol && !v.orders[c].removed_by_ws && !v.orders[c].removed_by_rest),
        v.wf() ==> forall|c: Seq<char>| #[trigger]
            v.cancel_reported(symbol).contains(c) <==> (v.orders.contains_key(c) && v.ids.contains_key(
                (symbol, v.orders[c].order.order_id),
            ) && v.ids[(symbol, v.orders[c].order.order_id)] == c),
        forall|c: Seq<char>| #[trigger]
            v.cancel_reported(symbol).contains(c) ==> {
                &&& crate::ordermanager::canceled_entry(v.orders[c], now).order.status == Status::Canceled
                &&& crate::ordermanager::canceled_entry(v.orders[c], now).order.order_id
                    == v.orders[c].order.order_id
                &&& crate::ordermanager::canceled_entry(v.orders[c], now).order.exch_timestamp
                    == match now {
                    Some(t) => t,
                    None => v.orders[c].order.exch_timestamp,
                }
            },
        forall|c: Seq<char>| #[trigger]
            v.orders.contains_key(c) ==> {
                let w = v.canceled_all(symbol, now);
                if v.orders[c].symbol == symbol {
                    &&& w.orders.contains_key(c) <==> !v.orders[c].removed_by_ws
                    &&& w.orders.contains_key(c) ==> w.orders[c].order.status == Status::Canceled
                        && w.orders[c].removed_by_rest
                } else {
                    w.orders.contains_key(c) && w.orders[c] == v.orders[c]
                }
            },
        forall|c: Seq<char>| #[trigger]
            v.canceled_all(symbol, now).orders.contains_key(c) ==> v.orders.contains_key(c),
{
    assert forall|c: Seq<char>| #[trigger]
        v.cancel_reported(symbol).contains(c) <==> (v.orders.contains_key(c) && v.orders[c].symbol
            == symbol && !v.orders[c].removed_by_ws && !v.orders[c].removed_by_rest) by {}
    if v.wf() {
        assert forall|c: Seq<char>| #[trigger]
            v.cancel_reported(symbol).contains(c) <==> (v.orders.contains_key(c) && v.ids.contains_key(
                (symbol, v.orders[c].order.order_id),
            ) && v.ids[(symbol, v.orders[c].order.order_id)] == c) by {
            if v.orders.contains_key(c) && v.ids.contains_key((symbol, v.orders[c].order.order_id))
                && v.ids[(symbol, v.orders[c].order.order_id)] == c {
                assert(key_of(v.orders[c]) == (symbol, v.orders[c].order.order_id));
            }
        }
    }
}

/// Collection at any time `now` keeps every order that is working (new or
/// partially filled) or of unsupported status, and every order whose
/// exchange timestamp is within five minutes of `now`, with its entry
/// unchanged; it forgets exactly the other orders, and adds nothing.
pub proof fn law_gc_keeps_working_orders(v: ManagerView, now: int)
    ensures
        forall|c: Seq<char>| #[trigger]
            v.orders.contains_key(c) ==> {
                let w = v.collected(now);
                let st = v.orders[c].order.status;
                if st == Status::New || st == Status::PartiallyFilled || st == Status::Unsupported
                    || v.orders[c].order.exch_timestamp >= now - 300_000_000_000 {
                    w.orders.contains_key(c) && w.orders[c] == v.orders[c]
                } else {
                    !w.orders.contains_key(c)
                }
            },
        forall|c: Seq<char>| #[trigger]
            v.collected(now).orders.contains_key(c) ==> v.orders.contains_key(c),
{
}

/// Listing the working orders of a symbol gives exactly the working orders
/// of the full listing that are on that symbol, and the full listing holds
/// exactly the tracked orders that are new or partially filled; so each such
/// order is listed under its own symbol as well.
pub proof fn law_listing_is_working_orders(v: ManagerView, symbol: Seq<char>)
    ensures
        forall|c: Seq<char>| #[trigger]
            v.listed(Some(symbol)).contains(c) <==> (v.listed(None).contains(c) && v.orders[c].symbol
                == symbol),
        forall|c: Seq<char>| #[trigger]
            v.listed(None).contains(c) <==> (v.orders.contains_key(c) && (v.orders[c].order.status
                == Status::New || v.orders[c].order.status == Status::PartiallyFilled)),
        forall|c: Seq<char>|
            v.orders.contains_key(c) && (v.orders[c].order.status == Status::New
                || v.orders[c].order.status == Status::PartiallyFilled) ==> #[trigger] v.listed(
                Some(v.orders[c].symbol),
            ).contains(c),
{
}

} // verus!
