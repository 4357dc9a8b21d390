use vstd::prelude::*;

use crate::clock::utc_now_nanos;
use crate::text::{ascii_upper_text, str_eq, to_ascii_uppercase};
use crate::types::{OrdType, Side, Status, TimeInForce};

verus! {

/// The nanosecond UNIX timestamp that chrono reads from an RFC 3339 text
/// (`DateTime::parse_from_rfc3339` followed by `timestamp_nanos_opt`), or
/// `None` when the text does not parse or the instant does not fit in an `i64`.
pub uninterp spec fn rfc3339_nanos(text: Seq<char>) -> Option<i64>;

/// Calls `chrono::DateTime::parse_from_rfc3339` and then `timestamp_nanos_opt`
/// on the result; the contract claims only that the outcome depends on the
/// text alone.
#[verifier::external_body]
fn parse_rfc3339_nanos(text: &str) -> (r: Option<i64>)
    ensures
        r == rfc3339_nanos(text@),
{
    chrono::DateTime::parse_from_rfc3339(text).ok().and_then(|dt| dt.timestamp_nanos_opt())
}

/// The exchange timestamp carried by an optional `updated_at` text.
pub open spec fn updated_at_nanos(updated_at: Option<String>) -> Option<i64> {
    match updated_at {
        Some(text) => rfc3339_nanos(text@),
        None => None,
    }
}

/// An order report pushed on the private WebSocket stream.
pub struct OrderUpdate {
    pub cl_ord_id: Option<String>,
    pub symbol: String,
    pub status: Status,
    pub side: Side,
    pub order_type: OrdType,
    pub time_in_force: TimeInForce,
    pub qty: String,
    pub fill_qty: String,
    pub fill_avg_price: Option<String>,
    pub price: Option<String>,
    pub updated_at: Option<String>,
}

impl OrderUpdate {
    /// The report's timestamp in nanoseconds, if it has a readable one.
    pub fn updated_at_ns(&self) -> (r: Option<i64>)
        ensures
            r == updated_at_nanos(self.updated_at),
    {
        match &self.updated_at {
            Some(text) => parse_rfc3339_nanos(text.as_str()),
            None => None,
        }
    }
}

/// The state of an order as the REST interface reports it.
pub struct OrderDetail {
    pub id: Option<i64>,
    pub symbol: String,
    pub side: Side,
    pub order_type: OrdType,
    pub time_in_force: TimeInForce,
    pub status: Status,
    pub price: Option<String>,
    pub qty: String,
    pub fill_qty: String,
    pub fill_avg_price: Option<String>,
    pub updated_at: Option<String>,
    pub cl_ord_id: Option<String>,
}

impl OrderDetail {
    /// The report's timestamp in nanoseconds, if it has a readable one.
    pub fn updated_at_ns(&self) -> (r: Option<i64>)
        ensures
            r == updated_at_nanos(self.updated_at),
    {
        match &self.updated_at {
            Some(text) => parse_rfc3339_nanos(text.as_str()),
            None => None,
        }
    }
}

/// The numbers a report sets on an order once the engine has read them:
/// quantities as IEEE-754 bit patterns and prices in ticks of the order.
#[derive(Clone, Copy, Debug, PartialEq, Eq, Structural)]
pub struct FillValues {
    pub qty_bits: u64,
    pub exec_qty_bits: u64,
    pub price_tick: i64,
    pub exec_price_tick: i64,
}

/// The wire text of a side.
pub open spec fn side_text(side: Side) -> Seq<char> {
    match side {
        Side::Buy => "BUY"@,
        Side::Sell => "SELL"@,
        _ => "NONE"@,
    }
}

/// The wire text of an order type.
pub open spec fn ord_type_text(ord_type: OrdType) -> Seq<char> {
    match ord_type {
        OrdType::Limit => "LIMIT"@,
        OrdType::Market => "MARKET"@,
        _ => "UNSUPPORTED"@,
    }
}

/// The wire text of a time in force.
pub open spec fn tif_text(tif: TimeInForce) -> Seq<char> {
    match tif {
        TimeInForce::GTC => "GTC"@,
        TimeInForce::GTX => "GTX"@,
        TimeInForce::FOK => "FOK"@,
        TimeInForce::IOC => "IOC"@,
        _ => "UNSUPPORTED"@,
    }
}

/// The text a side is written as on the wire.
pub fn serialize_side(side: Side) -> (r: &'static str)
    ensures
        r@ == side_text(side),
{
    match side {
        Side::Buy => "BUY",
        Side::Sell => "SELL",
        _ => "NONE",
    }
}

/// The text an order type is written as on the wire.
pub fn serialize_ord_type(ord_type: OrdType) -> (r: &'static str)
    ensures
        r@ == ord_type_text(ord_type),
{
    match ord_type {
        OrdType::Limit => "LIMIT",
        OrdType::Market => "MARKET",
        _ => "UNSUPPORTED",
    }
}

/// The text a time in force is written as on the wire.
pub fn serialize_tif(tif: TimeInForce) -> (r: &'static str)
    ensures
        r@ == tif_text(tif),
{
    match tif {
        TimeInForce::GTC => "GTC",
        TimeInForce::GTX => "GTX",
        TimeInForce::FOK => "FOK",
        TimeInForce::IOC => "IOC",
        _ => "UNSUPPORTED",
    }
}

/// The side named by an upper-case wire text.
pub open spec fn side_of(upper: Seq<char>) -> Option<Side> {
    if upper == "BUY"@ {
        Some(Side::Buy)
    } else if upper == "SELL"@ {
        Some(Side::Sell)
    } else {
        None
    }
}

/// The status named by an upper-case wire text.
pub open spec fn status_of(upper: Seq<char>) -> Option<Status> {
    if upper == "NEW"@ {
        Some(Status::New)
    } else if upper == "PARTIALLY_FILLED"@ {
        Some(Status::PartiallyFilled)
    } else if upper == "FILLED"@ {
        Some(Status::Filled)
    } else if upper == "CANCELED"@ || upper == "CANCELLED"@ {
        Some(Status::Canceled)
    } else if upper == "EXPIRED"@ {
        Some(Status::Expired)
    } else {
        None
    }
}

/// The order type named by an upper-case wire text.
pub open spec fn ord_type_of(upper: Seq<char>) -> Option<OrdType> {
    if upper == "LIMIT"@ {
        Some(OrdType::Limit)
    } else if upper == "MARKET"@ {
        Some(OrdType::Market)
    } else {
        None
    }
}

/// The time in force named by an upper-case wire text.
pub open spec fn tif_of(upper: Seq<char>) -> Option<TimeInForce> {
    if upper == "GTC"@ {
        Some(TimeInForce::GTC)
    } else if upper == "GTX"@ {
        Some(TimeInForce::GTX)
    } else if upper == "IOC"@ {
        Some(TimeInForce::IOC)
    } else if upper == "FOK"@ {
        Some(TimeInForce::FOK)
    } else {
        None
    }
}

/// Reads a side from its wire text, in any ASCII case; `None` when the text
/// names no side.
pub fn from_str_to_side(s: &str) -> (r: Option<Side>)
    ensures
        r == side_of(ascii_upper_text(s@)),
{
    let upper = to_ascii_uppercase(s);
    let u = upper.as_str();
    if str_eq(u, "BUY") {
        Some(Side::Buy)
    } else if str_eq(u, "SELL") {
        Some(Side::Sell)
    } else {
        None
    }
}

/// Reads an order status from its wire text, in any ASCII case; `None` when
/// the text names no status.
pub fn from_str_to_status(s: &str) -> (r: Option<Status>)
    ensures
        r == status_of(ascii_upper_text(s@)),
{
    let upper = to_ascii_uppercase(s);
    let u = upper.as_str();
    if str_eq(u, "NEW") {
        Some(Status::New)
    } else if str_eq(u, "PARTIALLY_FILLED") {
        Some(Status::PartiallyFilled)
    } else if str_eq(u, "FILLED") {
        Some(Status::Filled)
    } else if str_eq(u, "CANCELED") || str_eq(u, "CANCELLED") {
        Some(Status::Canceled)
    } else if str_eq(u, "EXPIRED") {
        Some(Status::Expired)
    } else {
        None
    }
}

/// Reads an order type from its wire text, in any ASCII case; `None` when
/// the text names no order type.
pub fn from_str_to_ord_type(s: &str) -> (r: Option<OrdType>)
    ensures
        r == ord_type_of(ascii_upper_text(s@)),
{
    let upper = to_ascii_uppercase(s);
    let u = upper.as_str();
    if str_eq(u, "LIMIT") {
        Some(OrdType::Limit)
    } else if str_eq(u, "MARKET") {
        Some(OrdType::Market)
    } else {
        None
    }
}

/// Reads a time in force from its wire text, in any ASCII case; `None` when
/// the text names none.
pub fn from_str_to_tif(s: &str) -> (r: Option<TimeInForce>)
    ensures
        r == tif_of(ascii_upper_text(s@)),
{
    let upper = to_ascii_uppercase(s);
    let u = upper.as_str();
    if str_eq(u, "GTC") {
        Some(TimeInForce::GTC)
    } else if str_eq(u, "GTX") {
        Some(TimeInForce::GTX)
    } else if str_eq(u, "IOC") {
        Some(TimeInForce::IOC)
    } else if str_eq(u, "FOK") {
        Some(TimeInForce::FOK)
    } else {
        None
    }
}

/// A request to cancel an order by client order id.
pub struct CancelOrderRequest {
    pub client_order_id: String,
    pub symbol: String,
}

/// The answer to a cancel-all request: the client order ids canceled.
pub struct CancelAllResponse {
    pub canceled: Vec<String>,
}

/// The body of a new-order request as the REST interface takes it.
pub struct NewOrderRequest {
    pub symbol: String,
    pub side: Side,
    pub order_type: OrdType,
    pub qty: String,
    pub price: Option<String>,
    pub time_in_force: TimeInForce,
    pub cl_ord_id: Option<String>,
    pub reduce_only: bool,
}

/// The body of a cancel request as the REST interface takes it: by exchange
/// order id or by client order id.
pub struct CancelOrderPayload {
    pub order_id: Option<i64>,
    pub cl_ord_id: Option<String>,
}

/// The acknowledgement the REST interface answers order requests with.
pub struct BasicResponse {
    pub code: i64,
    pub message: String,
}

/// A position as the REST interface reports it.
pub struct PositionSnapshot {
    pub symbol: String,
    pub qty: String,
    pub updated_at: Option<String>,
}

impl PositionSnapshot {
    /// The position's exchange timestamp in nanoseconds: its readable
    /// `updated_at`, else the wall clock (0 when that is unavailable).
    pub fn exch_ts(&self) -> (r: i64)
        ensures
            updated_at_nanos(self.updated_at) matches Some(t) ==> r == t,
    {
        match &self.updated_at {
            Some(text) => match parse_rfc3339_nanos(text.as_str()) {
                Some(t) => {
                    return t;
                },
                None => {},
            },
            None => {},
        }
        match utc_now_nanos() {
            Some(t) => t,
            None => 0,
        }
    }
}

/// A depth snapshot as the REST interface reports it: price and quantity
/// texts per level.
pub struct DepthBookSnapshot {
    pub asks: Vec<[String; 2]>,
    pub bids: Vec<[String; 2]>,
}

/// A side written to the wire reads back as itself.
pub proof fn law_side_round_trip(side: Side)
    requires
        side == Side::Buy || side == Side::Sell,
    ensures
        side_of(ascii_upper_text(side_text(side))) == Some(side),
{
    reveal_strlit("BUY");
    reveal_strlit("SELL");
    assert(ascii_upper_text("BUY"@) =~= "BUY"@);
    assert(ascii_upper_text("SELL"@) =~= "SELL"@);
    assert("BUY"@ != "SELL"@) by {
        assert("BUY"@.len() != "SELL"@.len());
    }
}

/// An order type written to the wire reads back as itself.
pub proof fn law_ord_type_round_trip(ord_type: OrdType)
    requires
        ord_type == OrdType::Limit || ord_type == OrdType::Market,
    ensures
        ord_type_of(ascii_upper_text(ord_type_text(ord_type))) == Some(ord_type),
{
    reveal_strlit("LIMIT");
    reveal_strlit("MARKET");
    assert(ascii_upper_text("LIMIT"@) =~= "LIMIT"@);
    assert(ascii_upper_text("MARKET"@) =~= "MARKET"@);
    assert("LIMIT"@ != "MARKET"@) by {
        assert("LIMIT"@.len() != "MARKET"@.len());
    }
}

/// A time in force written to the wire reads back as itself.
pub proof fn law_tif_round_trip(tif: TimeInForce)
    requires
        tif != TimeInForce::Unsupported,
    ensures
        tif_of(ascii_upper_text(tif_text(tif))) == Some(tif),
{
    reveal_strlit("GTC");
    reveal_strlit("GTX");
    reveal_strlit("IOC");
    reveal_strlit("FOK");
    assert(ascii_upper_text("GTC"@) =~= "GTC"@);
    assert(ascii_upper_text("GTX"@) =~= "GTX"@);
    assert(ascii_upper_text("IOC"@) =~= "IOC"@);
    assert(ascii_upper_text("FOK"@) =~= "FOK"@);
    assert("GTC"@ != "GTX"@) by {
        assert("GTC"@[2] != "GTX"@[2]);
    }
    assert("GTC"@ != "IOC"@) by {
        assert("GTC"@[0] != "IOC"@[0]);
    }
    assert("GTX"@ != "IOC"@) by {
        assert("GTX"@[0] != "IOC"@[0]);
    }
    assert("GTC"@ != "FOK"@) by {
        assert("GTC"@[0] != "FOK"@[0]);
    }
    assert("GTX"@ != "FOK"@) by {
        assert("GTX"@[0] != "FOK"@[0]);
    }
    assert("IOC"@ != "FOK"@) by {
        assert("IOC"@[0] != "FOK"@[0]);
    }
}

/// Reading a wire text ignores ASCII case: a text and its upper-case form
/// name the same side, status, order type and time in force.
pub proof fn law_reading_ignores_case(s: Seq<char>)
    ensures
        side_of(ascii_upper_text(ascii_upper_text(s))) == side_of(ascii_upper_text(s)),
        status_of(ascii_upper_text(ascii_upper_text(s))) == status_of(ascii_upper_text(s)),
        ord_type_of(ascii_upper_text(ascii_upper_text(s))) == ord_type_of(ascii_upper_text(s)),
        tif_of(ascii_upper_text(ascii_upper_text(s))) == tif_of(ascii_upper_text(s)),
{
    assert(ascii_upper_text(ascii_upper_text(s)) =~= ascii_upper_text(s));
}

} // verus!
