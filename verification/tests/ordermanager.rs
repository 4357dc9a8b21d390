use standx_connector::connector::{
    finish_cancel, finish_submit, start_cancel, start_submit, CancelStart, Publication, SubmitStart,
};
use standx_connector::rest::cancel_order_detail;
use standx_connector::error::StandxError;
use standx_connector::msg::{FillValues, OrderDetail, OrderUpdate};
use standx_connector::ordermanager::OrderManager;
use standx_connector::stream::apply_order_update;
use standx_connector::types::{OrdType, Order, Side, Status, TimeInForce};

fn order(order_id: u64) -> Order {
    Order {
        qty_bits: 1.5f64.to_bits(),
        leaves_qty_bits: 1.5f64.to_bits(),
        exec_qty_bits: 0f64.to_bits(),
        exec_price_tick: 0,
        price_tick: 1000,
        tick_size_bits: 0.01f64.to_bits(),
        exch_timestamp: 0,
        local_timestamp: 7,
        order_id,
        maker: false,
        order_type: OrdType::Limit,
        req: Status::New,
        status: Status::NoStatus,
        side: Side::Buy,
        time_in_force: TimeInForce::GTC,
    }
}

fn fill() -> FillValues {
    FillValues { qty_bits: 2.0f64.to_bits(), exec_qty_bits: 0.5f64.to_bits(), price_tick: 1001, exec_price_tick: 999 }
}

fn ws_update(cid: Option<&str>, status: Status, updated_at: Option<&str>) -> OrderUpdate {
    OrderUpdate {
        cl_ord_id: cid.map(|c| c.to_string()),
        symbol: "BTC-USD".to_string(),
        status,
        side: Side::Buy,
        order_type: OrdType::Limit,
        time_in_force: TimeInForce::GTC,
        qty: "2".to_string(),
        fill_qty: "0.5".to_string(),
        fill_avg_price: None,
        price: Some("10.01".to_string()),
        updated_at: updated_at.map(|t| t.to_string()),
    }
}

fn detail(status: Status, updated_at: Option<&str>) -> OrderDetail {
    OrderDetail {
        id: None,
        symbol: "BTC-USD".to_string(),
        side: Side::Buy,
        order_type: OrdType::Limit,
        time_in_force: TimeInForce::GTC,
        status,
        price: None,
        qty: "2".to_string(),
        fill_qty: "0.5".to_string(),
        fill_avg_price: None,
        updated_at: updated_at.map(|t| t.to_string()),
        cl_ord_id: None,
    }
}

const T1: &str = "2024-01-01T00:00:00Z";
const T1_NS: i64 = 1_704_067_200_000_000_000;
const T0: &str = "2023-12-31T23:59:59Z";

#[test]
fn prepared_id_is_prefix_and_sixteen_alphanumerics() {
    let mut om = OrderManager::new("standx");
    let cid = om.prepare_client_order_id("BTC-USD".to_string(), order(1)).unwrap();
    assert!(cid.starts_with("standx"));
    assert_eq!(cid.len(), "standx".len() + 16);
    assert!(cid["standx".len()..].chars().all(|c| c.is_ascii_alphanumeric()));
}

#[test]
fn prepare_then_lookup_gives_the_same_id() {
    let mut om = OrderManager::new("p");
    let cid = om.prepare_client_order_id("BTC-USD".to_string(), order(5)).unwrap();
    assert_eq!(om.get_client_order_id("BTC-USD", 5), Some(cid.clone()));
    assert_eq!(om.get_client_order_id("ETH-USD", 5), None);
    assert_eq!(om.get_client_order_id("BTC-USD", 6), None);
    assert_eq!(om.get_order(&cid), Some(order(5)));
}

#[test]
fn prepare_with_suffix_is_exact() {
    let mut om = OrderManager::new("pre");
    let cid = om.prepare_client_order_id_with("BTC-USD".to_string(), order(3), "abc").unwrap();
    assert_eq!(cid, "preabc");
    assert_eq!(om.get_client_order_id("BTC-USD", 3), Some("preabc".to_string()));
}

#[test]
fn duplicate_order_id_is_refused() {
    let mut om = OrderManager::new("p");
    assert!(om.prepare_client_order_id("BTC-USD".to_string(), order(1)).is_some());
    assert!(om.prepare_client_order_id("BTC-USD".to_string(), order(1)).is_none());
    assert!(om.prepare_client_order_id("ETH-USD".to_string(), order(1)).is_some());
}

#[test]
fn start_submit_of_duplicate_hands_back_expired_order() {
    let mut om = OrderManager::new("p");
    match start_submit(&mut om, "BTC-USD".to_string(), order(1)) {
        SubmitStart::Send { client_order_id, with_price } => {
            assert!(client_order_id.starts_with('p'));
            assert!(with_price);
        }
        SubmitStart::Expired(_) => panic!("first submission must be sent"),
    }
    match start_submit(&mut om, "BTC-USD".to_string(), order(1)) {
        SubmitStart::Expired(o) => {
            assert_eq!(o.status, Status::Expired);
            assert_eq!(o.req, Status::NoStatus);
            assert_eq!(o.order_id, 1);
            assert_eq!(o.price_tick, 1000);
        }
        SubmitStart::Send { .. } => panic!("duplicate must not be sent"),
    }
}

#[test]
fn market_orders_are_sent_without_price() {
    let mut om = OrderManager::new("p");
    let mut o = order(9);
    o.order_type = OrdType::Market;
    match start_submit(&mut om, "BTC-USD".to_string(), o) {
        SubmitStart::Send { with_price, .. } => assert!(!with_price),
        SubmitStart::Expired(_) => panic!("must be sent"),
    }
}

#[test]
fn ws_update_without_client_id_is_order_not_found() {
    let mut om = OrderManager::new("p");
    let r = om.update_from_ws(&ws_update(None, Status::New, Some(T1)), &fill());
    assert!(matches!(r, Err(StandxError::OrderNotFound)));
}

#[test]
fn ws_update_with_foreign_prefix_is_prefix_unmatched() {
    let mut om = OrderManager::new("mine");
    let r = om.update_from_ws(&ws_update(Some("theirs123"), Status::New, Some(T1)), &fill());
    assert!(matches!(r, Err(StandxError::PrefixUnmatched)));
}

#[test]
fn ws_update_for_unknown_id_is_order_not_found() {
    let mut om = OrderManager::new("mine");
    let r = om.update_from_ws(&ws_update(Some("mine123"), Status::New, Some(T1)), &fill());
    assert!(matches!(r, Err(StandxError::OrderNotFound)));
}

#[test]
fn ws_update_applies_report() {
    let mut om = OrderManager::new("p");
    let cid = om.prepare_client_order_id_with("BTC-USD".to_string(), order(1), "x").unwrap();
    let r = om.update_from_ws(&ws_update(Some(&cid), Status::PartiallyFilled, Some(T1)), &fill()).unwrap();
    let o = r.unwrap();
    assert_eq!(o.status, Status::PartiallyFilled);
    assert_eq!(o.req, Status::NoStatus);
    assert_eq!(o.qty_bits, 2.0f64.to_bits());
    assert_eq!(o.exec_qty_bits, 0.5f64.to_bits());
    assert_eq!(o.price_tick, 1001);
    assert_eq!(o.exec_price_tick, 999);
    assert_eq!(o.exch_timestamp, T1_NS);
    assert_eq!(o.local_timestamp, 7);
    assert_eq!(om.get_order(&cid), Some(o));
    assert_eq!(om.get_client_order_id("BTC-USD", 1), Some(cid));
}

#[test]
fn older_report_is_ignored() {
    let mut om = OrderManager::new("p");
    let cid = om.prepare_client_order_id_with("BTC-USD".to_string(), order(1), "x").unwrap();
    om.update_from_ws(&ws_update(Some(&cid), Status::New, Some(T1)), &fill()).unwrap();
    let before = om.get_order(&cid);
    let r = om.update_from_ws(&ws_update(Some(&cid), Status::Filled, Some(T0)), &fill()).unwrap();
    assert!(r.is_none());
    assert_eq!(om.get_order(&cid), before);
    let r = om.update_from_rest(&cid, &detail(Status::Filled, Some(T0)), &fill());
    assert!(r.is_none());
    assert_eq!(om.get_order(&cid), before);
}

#[test]
fn report_without_timestamp_counts_as_time_zero() {
    let mut om = OrderManager::new("p");
    let cid = om.prepare_client_order_id_with("BTC-USD".to_string(), order(1), "x").unwrap();
    let o = om.update_from_ws(&ws_update(Some(&cid), Status::New, None), &fill()).unwrap().unwrap();
    assert_eq!(o.exch_timestamp, 0);
    om.update_from_ws(&ws_update(Some(&cid), Status::New, Some(T1)), &fill()).unwrap();
    assert!(om.update_from_ws(&ws_update(Some(&cid), Status::Filled, Some("not a time")), &fill()).unwrap().is_none());
}

#[test]
fn finished_order_is_unindexed_and_reported_once() {
    let mut om = OrderManager::new("p");
    let cid = om.prepare_client_order_id_with("BTC-USD".to_string(), order(1), "x").unwrap();
    let first = om.update_from_ws(&ws_update(Some(&cid), Status::Filled, Some(T1)), &fill()).unwrap();
    assert_eq!(first.unwrap().status, Status::Filled);
    assert_eq!(om.get_client_order_id("BTC-USD", 1), None);
    assert!(om.get_order(&cid).is_some());
    let second = om.update_from_rest(&cid, &detail(Status::Filled, Some(T1)), &fill());
    assert!(second.is_none());
    assert!(om.get_order(&cid).is_none());
}

#[test]
fn order_id_can_be_reused_after_it_finished() {
    let mut om = OrderManager::new("p");
    let cid = om.prepare_client_order_id_with("BTC-USD".to_string(), order(1), "a").unwrap();
    om.update_from_ws(&ws_update(Some(&cid), Status::Canceled, Some(T1)), &fill()).unwrap();
    let again = om.prepare_client_order_id_with("BTC-USD".to_string(), order(1), "b").unwrap();
    assert_eq!(again, "pb");
    assert_eq!(om.get_client_order_id("BTC-USD", 1), Some("pb".to_string()));
    let late = om.update_from_rest(&cid, &detail(Status::Canceled, Some(T1)), &fill());
    assert!(late.is_none());
    assert_eq!(om.get_client_order_id("BTC-USD", 1), Some("pb".to_string()));
}

#[test]
fn submit_failure_expires_order() {
    let mut om = OrderManager::new("p");
    let cid = om.prepare_client_order_id_with("BTC-USD".to_string(), order(1), "x").unwrap();
    let o = om.update_submit_fail(&cid).unwrap();
    assert_eq!(o.status, Status::Expired);
    assert_eq!(o.req, Status::NoStatus);
    assert_eq!(om.get_client_order_id("BTC-USD", 1), None);
    assert!(om.update_submit_fail("pnothing").is_none());
}

#[test]
fn cancel_failure_keeps_status() {
    let mut om = OrderManager::new("p");
    let cid = om.prepare_client_order_id_with("BTC-USD".to_string(), order(1), "x").unwrap();
    om.update_from_ws(&ws_update(Some(&cid), Status::New, Some(T1)), &fill()).unwrap();
    let o = om.update_cancel_fail(&cid).unwrap();
    assert_eq!(o.status, Status::New);
    assert_eq!(o.req, Status::NoStatus);
    assert_eq!(om.get_client_order_id("BTC-USD", 1), Some(cid));
}

#[test]
fn rest_fail_with_explicit_status() {
    let mut om = OrderManager::new("p");
    let cid = om.prepare_client_order_id_with("BTC-USD".to_string(), order(1), "x").unwrap();
    let o = om.update_from_rest_fail(&cid, Some(Status::Rejected)).unwrap();
    assert_eq!(o.status, Status::Rejected);
    assert_eq!(om.get_client_order_id("BTC-USD", 1), None);
}

#[test]
fn gc_forgets_only_stale_finished_orders() {
    let mut om = OrderManager::new("p");
    let mut filled = order(1);
    filled.status = Status::Filled;
    filled.exch_timestamp = 100;
    let mut fresh = order(2);
    fresh.status = Status::Filled;
    fresh.exch_timestamp = 1_000_000_000_000;
    let mut working = order(3);
    working.status = Status::New;
    let mut unsupported = order(4);
    unsupported.status = Status::Unsupported;
    let a = om.prepare_client_order_id_with("S".to_string(), filled, "a").unwrap();
    let b = om.prepare_client_order_id_with("S".to_string(), fresh, "b").unwrap();
    let c = om.prepare_client_order_id_with("S".to_string(), working, "c").unwrap();
    let d = om.prepare_client_order_id_with("S".to_string(), unsupported, "d").unwrap();
    om.gc_at(1_000_000_000_000);
    assert!(om.get_order(&a).is_none());
    assert_eq!(om.get_client_order_id("S", 1), None);
    assert!(om.get_order(&b).is_some());
    assert!(om.get_order(&c).is_some());
    assert!(om.get_order(&d).is_some());
    assert_eq!(om.get_client_order_id("S", 3), Some(c));
}

#[test]
fn gc_leaves_only_index_entries_that_lead_to_their_orders() {
    let mut om = OrderManager::new("p");
    let a = om.prepare_client_order_id_with("BTC-USD".to_string(), order(1), "a").unwrap();
    om.update_from_ws(&ws_update(Some(&a), Status::Filled, Some(T1)), &fill()).unwrap();
    assert_eq!(om.get_client_order_id("BTC-USD", 1), None);
    // the order id is free again and taken by a new working order
    let mut working = order(1);
    working.status = Status::New;
    let b = om.prepare_client_order_id_with("BTC-USD".to_string(), working, "b").unwrap();
    let mut other = order(2);
    other.status = Status::New;
    let c = om.prepare_client_order_id_with("BTC-USD".to_string(), other, "c").unwrap();
    om.gc_at(i64::MAX);
    assert!(om.get_order(&a).is_none());
    assert!(om.get_order(&b).is_some());
    // forgetting the stale order drops the index entry of its (symbol, order id),
    // which the new order had taken; no entry is left that leads elsewhere
    assert_eq!(om.get_client_order_id("BTC-USD", 1), None);
    let found = om.get_client_order_id("BTC-USD", 2).unwrap();
    assert_eq!(found, c);
    assert_eq!(om.get_order(&found).unwrap().order_id, 2);
}

#[test]
fn gc_boundary_is_exclusive() {
    let mut om = OrderManager::new("p");
    let mut o = order(1);
    o.status = Status::Expired;
    o.exch_timestamp = 0;
    let cid = om.prepare_client_order_id_with("S".to_string(), o, "a").unwrap();
    om.gc_at(300_000_000_000);
    assert!(om.get_order(&cid).is_some());
    om.gc_at(300_000_000_001);
    assert!(om.get_order(&cid).is_none());
}

#[test]
fn cancel_all_marks_symbol_orders_canceled() {
    let mut om = OrderManager::new("p");
    let a = om.prepare_client_order_id_with("BTC".to_string(), order(1), "a").unwrap();
    let b = om.prepare_client_order_id_with("BTC".to_string(), order(2), "b").unwrap();
    let c = om.prepare_client_order_id_with("ETH".to_string(), order(3), "c").unwrap();
    om.update_from_ws(&ws_update(Some(&b), Status::Filled, Some(T1)), &fill()).unwrap();
    let out = om.cancel_all_from_rest_at("BTC", Some(42));
    assert_eq!(out.len(), 1);
    assert_eq!(out[0].order_id, 1);
    assert_eq!(out[0].status, Status::Canceled);
    assert_eq!(out[0].exch_timestamp, 42);
    assert_eq!(om.get_order(&a).unwrap().status, Status::Canceled);
    assert!(om.get_order(&b).is_none());
    assert_eq!(om.get_order(&c).unwrap().status, Status::NoStatus);
    assert_eq!(om.get_client_order_id("BTC", 1), None);
    assert_eq!(om.get_client_order_id("ETH", 3), Some(c));
}

#[test]
fn cancel_all_without_clock_keeps_timestamp() {
    let mut om = OrderManager::new("p");
    let mut o = order(1);
    o.exch_timestamp = 5;
    om.prepare_client_order_id_with("BTC".to_string(), o, "a").unwrap();
    let out = om.cancel_all_from_rest_at("BTC", None);
    assert_eq!(out[0].exch_timestamp, 5);
    let stamped = OrderManager::new("q").cancel_all_from_rest("BTC");
    assert!(stamped.is_empty());
}

#[test]
fn orders_lists_working_orders_by_symbol() {
    let mut om = OrderManager::new("p");
    let a = om.prepare_client_order_id_with("BTC".to_string(), order(1), "a").unwrap();
    let b = om.prepare_client_order_id_with("BTC".to_string(), order(2), "b").unwrap();
    let c = om.prepare_client_order_id_with("ETH".to_string(), order(3), "c").unwrap();
    om.update_from_ws(&ws_update(Some(&a), Status::New, Some(T1)), &fill()).unwrap();
    om.update_from_ws(&ws_update(Some(&c), Status::PartiallyFilled, Some(T1)), &fill()).unwrap();
    let _ = b;
    let mut all: Vec<u64> = om.orders(None).iter().map(|o| o.order_id).collect();
    all.sort();
    assert_eq!(all, vec![1, 3]);
    let btc: Vec<u64> = om.orders(Some("BTC".to_string())).iter().map(|o| o.order_id).collect();
    assert_eq!(btc, vec![1]);
    assert!(om.orders(Some("XRP".to_string())).is_empty());
}

#[test]
fn finish_submit_error_publishes_expired_order_then_error() {
    let mut om = OrderManager::new("p");
    let cid = om.prepare_client_order_id_with("BTC".to_string(), order(1), "a").unwrap();
    let out = finish_submit(&mut om, &cid, Err(StandxError::OrderError("rejected".to_string())));
    assert_eq!(out.len(), 2);
    match &out[0] {
        Publication::Order(o) => assert_eq!(o.status, Status::Expired),
        _ => panic!("order first"),
    }
    match &out[1] {
        Publication::OrderError(StandxError::OrderError(m)) => assert_eq!(m, "rejected"),
        _ => panic!("error second"),
    }
}

#[test]
fn finish_submit_ok_publishes_new_state() {
    let mut om = OrderManager::new("p");
    let cid = om.prepare_client_order_id_with("BTC".to_string(), order(1), "a").unwrap();
    let out = finish_submit(&mut om, &cid, Ok((detail(Status::New, None), fill())));
    assert_eq!(out.len(), 1);
    match &out[0] {
        Publication::Order(o) => {
            assert_eq!(o.status, Status::New);
            assert_eq!(o.price_tick, 1001);
        }
        _ => panic!("order expected"),
    }
    let none = finish_submit(&mut om, "punknown", Ok((detail(Status::New, None), fill())));
    assert!(none.is_empty());
}

#[test]
fn finish_cancel_ok_and_error() {
    let mut om = OrderManager::new("p");
    let cid = om.prepare_client_order_id_with("BTC".to_string(), order(1), "a").unwrap();
    om.update_from_ws(&ws_update(Some(&cid), Status::New, None), &fill()).unwrap();
    let out = finish_cancel(&mut om, &cid, Err(StandxError::InvalidResponse("503".to_string())));
    assert_eq!(out.len(), 2);
    match &out[0] {
        Publication::Order(o) => assert_eq!(o.status, Status::New),
        _ => panic!("order first"),
    }
    assert!(matches!(&out[1], Publication::OrderError(StandxError::InvalidResponse(_))));
    let out = finish_cancel(&mut om, &cid, Ok((detail(Status::Canceled, None), fill())));
    match &out[0] {
        Publication::Order(o) => assert_eq!(o.status, Status::Canceled),
        _ => panic!("order expected"),
    }
    assert_eq!(om.get_client_order_id("BTC", 1), None);
}

#[test]
fn acknowledged_cancel_keeps_the_order_until_it_is_confirmed() {
    let mut om = OrderManager::new("p");
    assert!(matches!(start_cancel(&om, "BTC-USD", 1), CancelStart::NotFound));
    let cid = om.prepare_client_order_id_with("BTC-USD".to_string(), order(1), "a").unwrap();
    om.update_from_ws(&ws_update(Some(&cid), Status::New, Some(T0)), &fill()).unwrap();
    match start_cancel(&om, "BTC-USD", 1) {
        CancelStart::Send { client_order_id } => assert_eq!(client_order_id, cid),
        CancelStart::NotFound => panic!("the order is registered"),
    }
    let ack = cancel_order_detail(
        &cid,
        "BTC-USD",
        Side::Buy,
        OrdType::Limit,
        TimeInForce::GTC,
        Status::New,
        "2".to_string(),
        "0.5".to_string(),
    );
    finish_cancel(&mut om, &cid, Ok((ack, fill())));
    // no terminal state yet: the order is still working and still indexed
    assert_eq!(om.get_order(&cid).unwrap().status, Status::New);
    assert_eq!(om.get_client_order_id("BTC-USD", 1), Some(cid.clone()));
    // the stream's confirmation finishes it
    om.update_from_ws(&ws_update(Some(&cid), Status::Canceled, Some(T1)), &fill()).unwrap();
    assert_eq!(om.get_client_order_id("BTC-USD", 1), None);
    assert!(matches!(start_cancel(&om, "BTC-USD", 1), CancelStart::NotFound));
}

#[test]
fn cancel_failure_of_unacknowledged_order_retires_it() {
    let mut om = OrderManager::new("p");
    let cid = om.prepare_client_order_id_with("BTC".to_string(), order(1), "a").unwrap();
    let o = om.update_cancel_fail(&cid).unwrap();
    assert_eq!(o.status, Status::NoStatus);
    assert_eq!(om.get_client_order_id("BTC", 1), None);
    assert!(om.update_from_rest(&cid, &detail(Status::Canceled, None), &fill()).is_none());
}

#[test]
fn apply_order_update_maps_outcomes() {
    let mut om = OrderManager::new("p");
    let cid = om.prepare_client_order_id_with("BTC".to_string(), order(1), "a").unwrap();
    match apply_order_update(&mut om, &ws_update(Some(&cid), Status::New, Some(T1)), &fill()) {
        Some(Publication::Order(o)) => assert_eq!(o.status, Status::New),
        _ => panic!("order expected"),
    }
    assert!(apply_order_update(&mut om, &ws_update(Some(&cid), Status::New, Some(T0)), &fill()).is_none());
    assert!(matches!(
        apply_order_update(&mut om, &ws_update(Some("q1"), Status::New, Some(T1)), &fill()),
        Some(Publication::OrderError(StandxError::PrefixUnmatched))
    ));
}

#[test]
fn gc_by_wall_clock_forgets_old_finished_orders() {
    let mut om = OrderManager::new("p");
    let mut old = order(1);
    old.status = Status::Canceled;
    old.exch_timestamp = 1;
    let mut working = order(2);
    working.status = Status::New;
    let a = om.prepare_client_order_id_with("S".to_string(), old, "a").unwrap();
    let b = om.prepare_client_order_id_with("S".to_string(), working, "b").unwrap();
    om.gc();
    assert!(om.get_order(&a).is_none());
    assert!(om.get_order(&b).is_some());
}

#[test]
fn active_means_new_or_partially_filled() {
    let mut o = order(1);
    for (status, active) in [
        (Status::New, true),
        (Status::PartiallyFilled, true),
        (Status::NoStatus, false),
        (Status::Filled, false),
        (Status::Canceled, false),
        (Status::Expired, false),
        (Status::Rejected, false),
        (Status::Replaced, false),
        (Status::Unsupported, false),
    ] {
        o.status = status;
        assert_eq!(o.active(), active);
    }
}
