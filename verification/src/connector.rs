use vstd::prelude::*;

use crate::error::StandxError;
use crate::msg::{FillValues, OrderDetail};
use crate::ordermanager::{report_ts, OrderManager, CLIENT_ORDER_ID_RANDOM_LEN};
use crate::text::str_eq;
use crate::types::{Order, OrdType, Status};

verus! {

/// Something the connector tells the trading engine about a symbol.
pub enum Publication {
    /// The new state of one of its orders.
    Order(Order),
    /// An order-related error.
    OrderError(StandxError),
}

/// The first step of a submission.
pub enum SubmitStart {
    /// Send the order under this client order id; `with_price` tells whether
    /// the request carries a limit price (every type but market orders).
    Send { client_order_id: String, with_price: bool },
    /// The engine's (symbol, order id) is already in use: the order is
    /// handed back expired without being sent.
    Expired(Order),
}

/// An order handed back expired, with no pending request.
pub open spec fn expired(order: Order) -> Order {
    Order { req: Status::NoStatus, status: Status::Expired, ..order }
}

/// Starts submitting `order` on `symbol`: registers it under a fresh client
/// order id, or hands it back expired when its id is already in use.
pub fn start_submit(om: &mut OrderManager, symbol: String, order: Order) -> (r: SubmitStart)
    ensures
        old(om)@.ids.contains_key((symbol@, order.order_id)) ==> {
            &&& r matches SubmitStart::Expired(o) && o == expired(order)
            &&& final(om)@ == old(om)@
        },
        !old(om)@.ids.contains_key((symbol@, order.order_id)) ==> {
            &&& r matches SubmitStart::Send { client_order_id: c, with_price: p } && {
                &&& p == (order.order_type != OrdType::Market)
                &&& old(om)@.prefix.is_prefix_of(c@)
                &&& c@.len() == old(om)@.prefix.len() + CLIENT_ORDER_ID_RANDOM_LEN
                &&& final(om)@ == old(om)@.prepared(symbol@, order, c@)
                &&& old(om)@.wf() && !old(om)@.orders.contains_key(c@) ==> final(om)@.wf()
            }
        },
{
    let order_type = order.order_type;
    match om.prepare_client_order_id(symbol, order) {
        Some(client_order_id) => {
            proof {
                let ghost v = old(om)@;
                let suffix = choose|suffix: Seq<char>| {
                    &&& suffix.len() == CLIENT_ORDER_ID_RANDOM_LEN
                    &&& forall|i: int| 0 <= i < suffix.len() ==> crate::ordermanager::is_ascii_alphanumeric(#[trigger] suffix[i])
                    &&& client_order_id@ == v.prefix + suffix
                    &&& final(om)@ == v.prepared(symbol@, order, v.prefix + suffix)
                };
                assert(v.prefix.is_prefix_of(client_order_id@)) by {
                    assert(client_order_id@.subrange(0, v.prefix.len() as int) == v.prefix);
                }
            }
            SubmitStart::Send { client_order_id, with_price: order_type != OrdType::Market }
        },
        None => SubmitStart::Expired(Order { req: Status::NoStatus, status: Status::Expired, ..order }),
    }
}

/// What the engine is told after a REST reply (or failure) for order `cid`:
/// the order's new state when there is one to hand back, then the error if
/// the call failed.
pub open spec fn rest_publications(order: Option<Order>, error: Option<StandxError>) -> Seq<Publication> {
    let first = match order {
        Some(o) => seq![Publication::Order(o)],
        None => Seq::empty(),
    };
    match error {
        Some(e) => first.push(Publication::OrderError(e)),
        None => first,
    }
}

/// Finishes a submission of order `client_order_id` with the REST outcome:
/// the order's reported state (with its numbers as the engine read them) or
/// the error that ended the call.
pub fn finish_submit(
    om: &mut OrderManager,
    client_order_id: &str,
    outcome: Result<(OrderDetail, FillValues), StandxError>,
) -> (r: Vec<Publication>)
    ensures
        match outcome {
            Ok((resp, fill)) => {
                let (v, o) = old(om)@.rest_update(client_order_id@, resp.status, report_ts(resp.updated_at), fill);
                final(om)@ == v && r@ == rest_publications(o, None)
            },
            Err(e) => {
                let (v, o) = old(om)@.rest_fail(client_order_id@, Some(Status::Expired));
                final(om)@ == v && r@ == rest_publications(o, Some(e))
            },
        },
        old(om)@.wf() ==> final(om)@.wf(),
{
    let mut out: Vec<Publication> = Vec::new();
    match outcome {
        Ok((resp, fill)) => {
            match om.update_from_rest(client_order_id, &resp, &fill) {
                Some(o) => out.push(Publication::Order(o)),
                None => {},
            }
        },
        Err(e) => {
            match om.update_submit_fail(client_order_id) {
                Some(o) => out.push(Publication::Order(o)),
                None => {},
            }
            out.push(Publication::OrderError(e));
        },
    }
    proof {
        assert(out@ =~= match outcome {
            Ok((resp, fill)) => rest_publications(old(om)@.rest_update(client_order_id@, resp.status, report_ts(resp.updated_at), fill).1, None),
            Err(e) => rest_publications(old(om)@.rest_fail(client_order_id@, Some(Status::Expired)).1, Some(e)),
        });
    }
    out
}

/// The first step of a cancellation.
pub enum CancelStart {
    /// Send the cancel for the order registered under this client order id.
    Send { client_order_id: String },
    /// The engine's (symbol, order id) is not registered: nothing is sent.
    NotFound,
}

/// Starts canceling the engine's order `order_id` on `symbol`: the cancel is
/// sent only for an order registered under a client order id.
pub fn start_cancel(om: &OrderManager, symbol: &str, order_id: u64) -> (r: CancelStart)
    ensures
        r is Send <==> om@.ids.contains_key((symbol@, order_id)),
        r matches CancelStart::Send { client_order_id: c } ==> c@ == om@.ids[(symbol@, order_id)],
{
    match om.get_client_order_id(symbol, order_id) {
        Some(client_order_id) => CancelStart::Send { client_order_id },
        None => CancelStart::NotFound,
    }
}

/// Finishes a cancellation of order `client_order_id` with the REST outcome.
pub fn finish_cancel(
    om: &mut OrderManager,
    client_order_id: &str,
    outcome: Result<(OrderDetail, FillValues), StandxError>,
) -> (r: Vec<Publication>)
    ensures
        match outcome {
            Ok((resp, fill)) => {
                let (v, o) = old(om)@.rest_update(client_order_id@, resp.status, report_ts(resp.updated_at), fill);
                final(om)@ == v && r@ == rest_publications(o, None)
            },
            Err(e) => {
                let (v, o) = old(om)@.rest_fail(client_order_id@, None);
                final(om)@ == v && r@ == rest_publications(o, Some(e))
            },
        },
        old(om)@.wf() ==> final(om)@.wf(),
{
    let mut out: Vec<Publication> = Vec::new();
    match outcome {
        Ok((resp, fill)) => {
            match om.update_from_rest(client_order_id, &resp, &fill) {
                Some(o) => out.push(Publication::Order(o)),
                None => {},
            }
        },
        Err(e) => {
            match om.update_cancel_fail(client_order_id) {
                Some(o) => out.push(Publication::Order(o)),
                None => {},
            }
            out.push(Publication::OrderError(e));
        },
    }
    proof {
        assert(out@ =~= match outcome {
            Ok((resp, fill)) => rest_publications(old(om)@.rest_update(client_order_id@, resp.status, report_ts(resp.updated_at), fill).1, None),
            Err(e) => rest_publications(old(om)@.rest_fail(client_order_id@, None).1, Some(e)),
        });
    }
    out
}

/// The symbols whose market data has been asked for, each once.
pub struct SymbolSet {
    symbols: Vec<String>,
}

impl View for SymbolSet {
    type V = Set<Seq<char>>;

    closed spec fn view(&self) -> Set<Seq<char>> {
        self.symbols.deep_view().to_set()
    }
}

impl SymbolSet {
    /// No symbols.
    pub fn new() -> (r: SymbolSet)
        ensures
            r@ == Set::<Seq<char>>::empty(),
    {
        let r = SymbolSet { symbols: Vec::new() };
        proof {
            assert(r.symbols.deep_view() =~= Seq::<Seq<char>>::empty());
        }
        r
    }

    /// Adds `symbol`; true when it was not there yet, so that its
    /// subscription is to be announced.
    pub fn register(&mut self, symbol: String) -> (r: bool)
        ensures
            r == !old(self)@.contains(symbol@),
            final(self)@ == old(self)@.insert(symbol@),
    {
        let ghost s = self.symbols.deep_view();
        let mut i: usize = 0;
        while i < self.symbols.len()
            invariant
                0 <= i <= self.symbols.len(),
                s == self.symbols.deep_view(),
                forall|j: int| 0 <= j < i ==> s[j] != symbol@,
            decreases self.symbols.len() - i,
        {
            if str_eq(self.symbols[i].as_str(), symbol.as_str()) {
                proof {
                    assert(s[i as int] == symbol@);
                    assert(s.to_set().insert(symbol@) =~= s.to_set());
                }
                return false;
            }
            i = i + 1;
        }
        proof {
            assert(!s.contains(symbol@));
        }
        self.symbols.push(symbol);
        proof {
            assert(self.symbols.deep_view() =~= s.push(symbol@));
            assert(s.push(symbol@) =~= s + seq![symbol@]);
            Seq::lemma_to_set_insert_commutes(s, symbol@);
        }
        true
    }
}

/// The wait, in milliseconds, before the first attempt to connect a dropped
/// stream again.
pub const RECONNECT_BACKOFF_INITIAL_MS: u64 = 100;

/// The longest wait, in milliseconds, between two attempts to connect a
/// dropped stream again.
pub const RECONNECT_BACKOFF_MAX_MS: u64 = 60_000;

/// The wait after a failed reconnection attempt that followed a wait of
/// `current_ms`: twice as long, but never more than a minute.
pub fn next_backoff_ms(current_ms: u64) -> (r: u64)
    ensures
        r == if 2 * current_ms <= RECONNECT_BACKOFF_MAX_MS {
            2 * current_ms
        } else {
            RECONNECT_BACKOFF_MAX_MS as int
        },
{
    if current_ms <= RECONNECT_BACKOFF_MAX_MS / 2 {
        current_ms * 2
    } else {
        RECONNECT_BACKOFF_MAX_MS
    }
}

} // verus!
