use vstd::prelude::*;

verus! {

/// Side of an order.
#[derive(Clone, Copy, Debug, PartialEq, Eq, Structural)]
pub enum Side {
    Buy,
    Sell,
    /// No side given (`None` in the engine).
    NoSide,
    Unsupported,
}

/// Order type.
#[derive(Clone, Copy, Debug, PartialEq, Eq, Structural)]
pub enum OrdType {
    Limit,
    Market,
    Unsupported,
}

/// Time in force.
#[derive(Clone, Copy, Debug, PartialEq, Eq, Structural)]
pub enum TimeInForce {
    GTC,
    GTX,
    FOK,
    IOC,
    Unsupported,
}

/// Order (or request) status.
#[derive(Clone, Copy, Debug, PartialEq, Eq, Structural)]
pub enum Status {
    /// No status / no pending request (`None` in the engine).
    NoStatus,
    New,
    Expired,
    Filled,
    Canceled,
    PartiallyFilled,
    Rejected,
    Replaced,
    Unsupported,
}

/// An order as the trading engine sees it.
///
/// Quantities and the tick size are floating-point numbers in the engine; the
/// library never computes with them and carries them as their IEEE-754 bit
/// patterns (`f64::to_bits`), exactly as handed over.
#[derive(Clone, Copy, Debug, PartialEq, Eq, Structural)]
pub struct Order {
    pub qty_bits: u64,
    pub leaves_qty_bits: u64,
    pub exec_qty_bits: u64,
    pub exec_price_tick: i64,
    pub price_tick: i64,
    pub tick_size_bits: u64,
    pub exch_timestamp: i64,
    pub local_timestamp: i64,
    pub order_id: u64,
    pub maker: bool,
    pub order_type: OrdType,
    pub req: Status,
    pub status: Status,
    pub side: Side,
    pub time_in_force: TimeInForce,
}

/// A status in which an order is still working in the market.
pub open spec fn is_working(s: Status) -> bool {
    s == Status::New || s == Status::PartiallyFilled
}

impl Order {
    /// Whether this order is active in the market.
    pub fn active(&self) -> (r: bool)
        ensures
            r == is_working(self.status),
    {
        self.status == Status::New || self.status == Status::PartiallyFilled
    }
}

} // verus!
