use vstd::prelude::*;

use crate::connector::Publication;
use crate::error::StandxError;
use crate::msg::{FillValues, OrderUpdate};
use crate::ordermanager::{report_ts, OrderManager};
use crate::text::str_eq;

verus! {

/// The fields of a private-stream message that tell whether it answers the
/// authentication request: its `channel` and its `code` (read from `data`
/// first, else from the top level).
pub struct AuthReply {
    pub channel: Option<String>,
    pub code: Option<i64>,
}

/// An accepted authentication answer: on the `auth` channel with code 0 or 200.
pub open spec fn accepts_auth(reply: AuthReply) -> bool {
    &&& reply.channel matches Some(c) && c@ == "auth"@
    &&& (reply.code == Some(0i64) || reply.code == Some(200i64))
}

/// What to do with a text message of the private stream.
pub enum TextStep {
    /// Still waiting for authentication: drop the message.
    Skip,
    /// Decode and handle the message, after sending the channel
    /// subscriptions first when `subscribe` is set.
    Handle { subscribe: bool },
}

/// The state of a private-stream connection: authenticated yet, and
/// subscribed yet.
pub struct PrivateSession {
    pub authed: bool,
    pub subscribed: bool,
}

/// How long, in milliseconds, the private stream may go without a ping.
pub const PING_TIMEOUT_MS: u64 = 300_000;

/// The channels the private stream subscribes to once authenticated.
pub open spec fn private_channels() -> Seq<Seq<char>> {
    seq!["order"@, "position"@, "balance"@]
}

impl PrivateSession {
    /// A fresh connection: not authenticated, not subscribed.
    pub fn new() -> (r: PrivateSession)
        ensures
            !r.authed,
            !r.subscribed,
    {
        PrivateSession { authed: false, subscribed: false }
    }

    /// Takes a text message. Before authentication only an accepting answer
    /// to the authentication request gets through; the first message handled
    /// afterwards triggers the subscriptions.
    pub fn on_text(&mut self, reply: Option<AuthReply>) -> (r: TextStep)
        ensures
            ({
                let authed = old(self).authed || (reply matches Some(a) && accepts_auth(a));
                &&& final(self).authed == authed
                &&& !authed ==> (r matches TextStep::Skip && final(self).subscribed == old(self).subscribed)
                &&& authed ==> (r matches TextStep::Handle { subscribe } && subscribe == !old(self).subscribed
                    && final(self).subscribed)
            }),
    {
        if !self.authed {
            match &reply {
                Some(a) => {
                    let on_auth = match &a.channel {
                        Some(c) => str_eq(c.as_str(), "auth"),
                        None => false,
                    };
                    if on_auth {
                        match a.code {
                            Some(code) => {
                                if code == 0 || code == 200 {
                                    self.authed = true;
                                }
                            },
                            None => {},
                        }
                    }
                },
                None => {},
            }
            if !self.authed {
                return TextStep::Skip;
            }
        }
        let subscribe = !self.subscribed;
        self.subscribed = true;
        TextStep::Handle { subscribe }
    }
}

/// The channels the private stream subscribes to, in order.
pub fn private_channels_list() -> (r: Vec<&'static str>)
    ensures
        r@.map_values(|c: &str| c@) == private_channels(),
{
    let v = vec!["order", "position", "balance"];
    proof {
        assert(v@.map_values(|c: &str| c@) =~= private_channels());
    }
    v
}

/// Whether the private stream has gone too long without a ping.
pub fn ping_timed_out(since_last_ping_ms: u64) -> (r: bool)
    ensures
        r == (since_last_ping_ms > PING_TIMEOUT_MS),
{
    since_last_ping_ms > PING_TIMEOUT_MS
}

/// Applies an order report of the private stream and tells what to publish:
/// the order's new state when there is one to hand back, the rejection as an
/// order error, or nothing.
pub fn apply_order_update(om: &mut OrderManager, update: &OrderUpdate, fill: &FillValues) -> (r: Option<
    Publication,
>)
    ensures
        ({
            let v = old(om)@;
            match update.cl_ord_id {
                None => final(om)@ == v && r matches Some(Publication::OrderError(StandxError::OrderNotFound)),
                Some(c) => if !v.prefix.is_prefix_of(c@) {
                    final(om)@ == v && r matches Some(Publication::OrderError(StandxError::PrefixUnmatched))
                } else {
                    if !v.orders.contains_key(c@) {
                        final(om)@ == v && r matches Some(Publication::OrderError(StandxError::OrderNotFound))
                    } else if report_ts(update.updated_at) < v.orders[c@].order.exch_timestamp {
                        final(om)@ == v && r is None
                    } else {
                        let o = crate::ordermanager::applied(v.orders[c@].order, update.status, report_ts(update.updated_at), *fill);
                        &&& final(om)@ == v.settle(c@, o, true)
                        &&& match v.settle_result(c@, o) {
                            Some(x) => r == Some(Publication::Order(x)),
                            None => r is None,
                        }
                    }
                },
            }
        }),
        old(om)@.wf() ==> final(om)@.wf(),
{
    match om.update_from_ws(update, fill) {
        Ok(Some(order)) => Some(Publication::Order(order)),
        Ok(None) => None,
        Err(e) => Some(Publication::OrderError(e)),
    }
}

} // verus!
