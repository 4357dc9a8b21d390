use base64::Engine;
use ed25519_dalek::pkcs8::EncodePrivateKey;
use ed25519_dalek::Signer;
use standx_connector::error::StandxError;
use standx_connector::msg::BasicResponse;
use standx_connector::rest::{
    cancel_order_detail, check_ack, check_http, new_order_detail, new_order_request, parse_signing_key,
    StandxClient,
};
use standx_connector::types::{OrdType, Side, Status, TimeInForce};

const SEED: [u8; 32] = [7u8; 32];

fn client(jwt: &str, key: &str) -> StandxClient {
    StandxClient::new("https://api.example.com//", "wss://m", "wss://o", jwt, key, "sess-1").unwrap()
}

#[test]
fn signing_key_from_hex() {
    let hex_key = hex::encode(SEED);
    assert_eq!(parse_signing_key(&hex_key), Some(SEED.to_vec()));
    assert_eq!(parse_signing_key(&format!("  {}\n", hex_key.to_uppercase())), Some(SEED.to_vec()));
}

#[test]
fn signing_key_from_base64() {
    let b64 = base64::engine::general_purpose::STANDARD.encode(SEED);
    assert_eq!(parse_signing_key(&b64), Some(SEED.to_vec()));
}

#[test]
fn signing_key_from_pem() {
    let key = ed25519_dalek::SigningKey::from_bytes(&[9u8; 32]);
    let pem = key.to_pkcs8_pem(ed25519_dalek::pkcs8::spki::der::pem::LineEnding::LF).unwrap();
    assert_eq!(parse_signing_key(pem.as_str()), Some(vec![9u8; 32]));
}

#[test]
fn signing_key_texts_with_blanks_read_back() {
    let key: Vec<u8> = (0u8..32).map(|i| i.wrapping_mul(37).wrapping_add(11)).collect();
    let b64 = base64::engine::general_purpose::STANDARD.encode(&key);
    assert_eq!(parse_signing_key(&format!(" \t{}\n\u{3000}", b64)), Some(key.clone()));
    assert_eq!(parse_signing_key(&format!("\r\n{}  ", hex::encode(&key))), Some(key.clone()));
    assert_eq!(parse_signing_key(" \u{a0}\n\t"), None);
    // a base64 text of some other length is not a key, and is not read as hexadecimal either
    let long = base64::engine::general_purpose::STANDARD.encode([5u8; 48]);
    assert_eq!(long.len(), 64);
    assert_eq!(parse_signing_key(&long), None);
    // base64 without its padding is refused
    assert_eq!(parse_signing_key(b64.trim_end_matches('=')), None);
}

#[test]
fn unusable_signing_keys_are_none() {
    assert_eq!(parse_signing_key(""), None);
    assert_eq!(parse_signing_key("   \t"), None);
    assert_eq!(parse_signing_key("not a key"), None);
    assert_eq!(parse_signing_key(&hex::encode([1u8; 16])), None);
    assert_eq!(parse_signing_key(&"zz".repeat(32)), None);
    let short = base64::engine::general_purpose::STANDARD.encode([1u8; 31]);
    assert_eq!(parse_signing_key(&short), None);
}

#[test]
fn client_trims_trailing_slashes_of_api_url() {
    let c = client("", "");
    assert_eq!(c.endpoint("new_order"), "https://api.example.com/api/new_order");
    assert_eq!(c.query_order_url("abc"), "https://api.example.com/api/query_order?cl_ord_id=abc");
    assert_eq!(c.market_ws_url(), "wss://m");
    assert_eq!(c.order_ws_url(), "wss://o");
    assert_eq!(c.session_id(), "sess-1");
    assert_eq!(c.jwt_token(), "");
}

#[test]
fn auth_header_only_with_token() {
    assert!(client("", "").auth_headers().is_empty());
    assert_eq!(
        client("tok", "").auth_headers(),
        vec![("authorization".to_string(), "Bearer tok".to_string())]
    );
}

#[test]
fn unsigned_client_sends_only_auth() {
    let c = client("tok", "");
    let h = c.signing_headers("{}").unwrap();
    assert_eq!(h, vec![("authorization".to_string(), "Bearer tok".to_string())]);
}

#[test]
fn signed_headers_carry_ed25519_signature() {
    let c = client("", &hex::encode(SEED));
    let h = c.signed_headers_with("{\"a\":1}", "rid", -42);
    let key = ed25519_dalek::SigningKey::from_bytes(&SEED);
    let sig = key.sign(b"v1,rid,-42,{\"a\":1}");
    let expected = base64::engine::general_purpose::STANDARD.encode(sig.to_bytes());
    assert_eq!(
        h,
        vec![
            ("x-request-sign-version".to_string(), "v1".to_string()),
            ("x-request-id".to_string(), "rid".to_string()),
            ("x-request-timestamp".to_string(), "-42".to_string()),
            ("x-request-signature".to_string(), expected),
        ]
    );
}

#[test]
fn order_headers_end_with_session() {
    let c = client("tok", &hex::encode(SEED));
    let h = c.order_headers("{}").unwrap();
    assert_eq!(h.len(), 6);
    assert_eq!(h[0], ("authorization".to_string(), "Bearer tok".to_string()));
    assert_eq!(h[2].0, "x-request-id");
    assert_eq!(h[2].1.len(), 36);
    assert_eq!(h[5], ("x-session-id".to_string(), "sess-1".to_string()));
    let ts: i64 = h[3].1.parse().unwrap();
    let key = ed25519_dalek::SigningKey::from_bytes(&SEED);
    let msg = format!("v1,{},{},{{}}", h[2].1, ts);
    let expected = base64::engine::general_purpose::STANDARD.encode(key.sign(msg.as_bytes()).to_bytes());
    assert_eq!(h[4].1, expected);
}

#[test]
fn http_failure_is_invalid_response() {
    assert_eq!(check_http(true, "ok".to_string()).unwrap(), "ok");
    match check_http(false, "bad gateway".to_string()) {
        Err(StandxError::InvalidResponse(b)) => assert_eq!(b, "bad gateway"),
        _ => panic!("invalid response expected"),
    }
}

#[test]
fn nonzero_ack_is_order_error() {
    assert!(check_ack(BasicResponse { code: 0, message: "fine".to_string() }).is_ok());
    match check_ack(BasicResponse { code: 400, message: "no margin".to_string() }) {
        Err(StandxError::OrderError(m)) => assert_eq!(m, "no margin"),
        _ => panic!("order error expected"),
    }
}

#[test]
fn new_order_request_and_detail() {
    let req = new_order_request("cid", "BTC-USD", Side::Sell, Some("10.5".to_string()), "0.01".to_string(), OrdType::Limit, TimeInForce::GTX);
    assert_eq!(req.symbol, "BTC-USD");
    assert_eq!(req.cl_ord_id.as_deref(), Some("cid"));
    assert!(!req.reduce_only);
    let d = new_order_detail(&req, "cid");
    assert_eq!(d.status, Status::New);
    assert_eq!(d.price.as_deref(), Some("10.5"));
    assert_eq!(d.qty, "0.01");
    assert_eq!(d.fill_qty, "0");
    assert_eq!(d.side, Side::Sell);
    assert_eq!(d.time_in_force, TimeInForce::GTX);
    assert!(d.id.is_none() && d.updated_at.is_none() && d.fill_avg_price.is_none());
    assert_eq!(d.cl_ord_id.as_deref(), Some("cid"));
}

#[test]
fn cancel_detail_keeps_quantities() {
    let d = cancel_order_detail(
        "cid",
        "ETH-USD",
        Side::Buy,
        OrdType::Limit,
        TimeInForce::GTC,
        Status::PartiallyFilled,
        "2".to_string(),
        "0.5".to_string(),
    );
    assert_eq!(d.status, Status::PartiallyFilled);
    assert_eq!(d.side, Side::Buy);
    assert_eq!(d.order_type, OrdType::Limit);
    assert_eq!(d.time_in_force, TimeInForce::GTC);
    assert!(d.price.is_none());
    assert_eq!(d.qty, "2");
    assert_eq!(d.fill_qty, "0.5");
    assert_eq!(d.symbol, "ETH-USD");
    assert_eq!(d.cl_ord_id.as_deref(), Some("cid"));
}
