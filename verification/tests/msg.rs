use standx_connector::msg::{
    from_str_to_ord_type, from_str_to_side, from_str_to_status, from_str_to_tif, serialize_ord_type,
    serialize_side, serialize_tif, OrderDetail, OrderUpdate, PositionSnapshot,
};
use standx_connector::types::{OrdType, Side, Status, TimeInForce};

#[test]
fn sides_are_written_upper_case() {
    assert_eq!(serialize_side(Side::Buy), "BUY");
    assert_eq!(serialize_side(Side::Sell), "SELL");
    assert_eq!(serialize_side(Side::NoSide), "NONE");
    assert_eq!(serialize_side(Side::Unsupported), "NONE");
}

#[test]
fn order_types_are_written_upper_case() {
    assert_eq!(serialize_ord_type(OrdType::Limit), "LIMIT");
    assert_eq!(serialize_ord_type(OrdType::Market), "MARKET");
    assert_eq!(serialize_ord_type(OrdType::Unsupported), "UNSUPPORTED");
}

#[test]
fn time_in_force_is_written_upper_case() {
    assert_eq!(serialize_tif(TimeInForce::GTC), "GTC");
    assert_eq!(serialize_tif(TimeInForce::GTX), "GTX");
    assert_eq!(serialize_tif(TimeInForce::FOK), "FOK");
    assert_eq!(serialize_tif(TimeInForce::IOC), "IOC");
    assert_eq!(serialize_tif(TimeInForce::Unsupported), "UNSUPPORTED");
}

#[test]
fn sides_are_read_in_any_case() {
    assert_eq!(from_str_to_side("buy"), Some(Side::Buy));
    assert_eq!(from_str_to_side("Sell"), Some(Side::Sell));
    assert_eq!(from_str_to_side("hold"), None);
    assert_eq!(from_str_to_side(""), None);
}

#[test]
fn statuses_are_read_in_any_case() {
    assert_eq!(from_str_to_status("new"), Some(Status::New));
    assert_eq!(from_str_to_status("partially_filled"), Some(Status::PartiallyFilled));
    assert_eq!(from_str_to_status("FILLED"), Some(Status::Filled));
    assert_eq!(from_str_to_status("canceled"), Some(Status::Canceled));
    assert_eq!(from_str_to_status("Cancelled"), Some(Status::Canceled));
    assert_eq!(from_str_to_status("expired"), Some(Status::Expired));
    assert_eq!(from_str_to_status("rejected"), None);
    assert_eq!(from_str_to_status("partially filled"), None);
}

#[test]
fn order_types_are_read_in_any_case() {
    assert_eq!(from_str_to_ord_type("limit"), Some(OrdType::Limit));
    assert_eq!(from_str_to_ord_type("MARKET"), Some(OrdType::Market));
    assert_eq!(from_str_to_ord_type("stop"), None);
}

#[test]
fn time_in_force_is_read_in_any_case() {
    assert_eq!(from_str_to_tif("gtc"), Some(TimeInForce::GTC));
    assert_eq!(from_str_to_tif("gtx"), Some(TimeInForce::GTX));
    assert_eq!(from_str_to_tif("Ioc"), Some(TimeInForce::IOC));
    assert_eq!(from_str_to_tif("fok"), Some(TimeInForce::FOK));
    assert_eq!(from_str_to_tif("day"), None);
}

#[test]
fn wire_texts_read_back() {
    for side in [Side::Buy, Side::Sell] {
        assert_eq!(from_str_to_side(serialize_side(side)), Some(side));
    }
    for t in [OrdType::Limit, OrdType::Market] {
        assert_eq!(from_str_to_ord_type(serialize_ord_type(t)), Some(t));
    }
    for t in [TimeInForce::GTC, TimeInForce::GTX, TimeInForce::FOK, TimeInForce::IOC] {
        assert_eq!(from_str_to_tif(serialize_tif(t)), Some(t));
    }
}

fn update(updated_at: Option<&str>) -> OrderUpdate {
    OrderUpdate {
        cl_ord_id: None,
        symbol: "BTC-USD".to_string(),
        status: Status::New,
        side: Side::Buy,
        order_type: OrdType::Limit,
        time_in_force: TimeInForce::GTC,
        qty: "1".to_string(),
        fill_qty: "0".to_string(),
        fill_avg_price: None,
        price: None,
        updated_at: updated_at.map(|s| s.to_string()),
    }
}

#[test]
fn update_timestamps_are_read_from_rfc3339() {
    assert_eq!(update(Some("2024-01-01T00:00:00Z")).updated_at_ns(), Some(1_704_067_200_000_000_000));
    assert_eq!(update(Some("2024-01-01T01:00:00.5+01:00")).updated_at_ns(), Some(1_704_067_200_500_000_000));
    assert_eq!(update(Some("yesterday")).updated_at_ns(), None);
    assert_eq!(update(None).updated_at_ns(), None);
}

#[test]
fn detail_timestamps_are_read_from_rfc3339() {
    let d = OrderDetail {
        id: Some(1),
        symbol: "BTC-USD".to_string(),
        side: Side::Sell,
        order_type: OrdType::Market,
        time_in_force: TimeInForce::IOC,
        status: Status::Filled,
        price: None,
        qty: "1".to_string(),
        fill_qty: "1".to_string(),
        fill_avg_price: None,
        updated_at: Some("1970-01-01T00:00:01Z".to_string()),
        cl_ord_id: None,
    };
    assert_eq!(d.updated_at_ns(), Some(1_000_000_000));
}

#[test]
fn position_timestamp_prefers_its_own() {
    let p = PositionSnapshot {
        symbol: "BTC-USD".to_string(),
        qty: "0.1".to_string(),
        updated_at: Some("1970-01-01T00:00:02Z".to_string()),
    };
    assert_eq!(p.exch_ts(), 2_000_000_000);
    let q = PositionSnapshot { symbol: "BTC-USD".to_string(), qty: "0".to_string(), updated_at: None };
    assert!(q.exch_ts() > 1_600_000_000_000_000_000);
}
