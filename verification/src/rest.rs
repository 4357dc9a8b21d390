use ed25519_dalek::pkcs8::DecodePrivateKey;
use ed25519_dalek::Signer;
use vstd::prelude::*;

use crate::clock::utc_now_millis;
use crate::encoding::{
    base64_decoded, base64_encode, base64_standard_decode, base64_standard_encode, hex_decode,
    hex_decoded, hex_lower, is_base64_char, is_lower_hex_char, lemma_base64_decoded,
    lemma_base64_encode_chars, lemma_base64_encode_len, lemma_hex_lower,
};
use crate::error::StandxError;
use crate::msg::{BasicResponse, NewOrderRequest, OrderDetail};
use crate::text::{
    decimal, i64_to_string, is_unicode_whitespace, lemma_trim_ws_around, strip_trailing, trim,
    trim_end_char, trim_ws,
};
use crate::types::{OrdType, Side, Status, TimeInForce};

verus! {

/// The 32-byte secret seed of the Ed25519 key in a PKCS#8 PEM text, as
/// ed25519-dalek reads it, or `None` when it rejects the text.
pub uninterp spec fn pkcs8_pem_secret(text: Seq<char>) -> Option<Seq<u8>>;

/// ed25519-dalek: `SigningKey::from_pkcs8_pem` followed by `to_bytes`. The
/// contract claims that the outcome depends on the text alone, that a key's
/// secret seed is 32 bytes long (the type `SecretKey` is `[u8; 32]`), and
/// that a text it accepts holds a `-` (the PEM decoder of pem-rfc7468 finds
/// no document without its `-----BEGIN ` boundary).
#[verifier::external_body]
fn read_pkcs8_pem(text: &str) -> (r: Option<Vec<u8>>)
    ensures
        match r {
            Some(v) => pkcs8_pem_secret(text@) == Some(v@) && v@.len() == 32,
            None => pkcs8_pem_secret(text@) is None,
        },
        r is Some ==> text@.contains('-'),
{
    match ed25519_dalek::SigningKey::from_pkcs8_pem(text) {
        Ok(key) => Some(key.to_bytes().to_vec()),
        Err(_) => None,
    }
}

/// The Ed25519 signature (RFC 8032) of `message` under the key with secret
/// seed `secret`.
pub uninterp spec fn ed25519_signature(secret: Seq<u8>, message: Seq<u8>) -> Seq<u8>;

/// ed25519-dalek: `SigningKey::from_bytes(secret).sign(message).to_bytes()`.
/// Ed25519 signing is deterministic, so the contract names the result; a
/// signature is 64 bytes long (`Signature::to_bytes` returns `[u8; 64]`).
#[verifier::external_body]
fn ed25519_sign(secret: &[u8], message: &[u8]) -> (r: Vec<u8>)
    requires
        secret@.len() == 32,
    ensures
        r@ == ed25519_signature(secret@, message@),
        r@.len() == 64,
{
    let mut seed = [0u8;32];
    seed.copy_from_slice(secret);
    ed25519_dalek::SigningKey::from_bytes(&seed).sign(message).to_bytes().to_vec()
}

/// uuid: `Uuid::new_v4().to_string()`, a random version-4 UUID in its
/// hyphenated form, which the crate documents as 36 characters long. Which
/// UUID comes out is chance.
#[verifier::external_body]
pub(crate) fn new_uuid_string() -> (r: String)
    ensures
        r@.len() == 36,
{
    uuid::Uuid::new_v4().to_string()
}

/// The secret seed a configured signing key text stands for: a PKCS#8 PEM
/// key (whose text holds the `-` of its boundary lines), else 32 bytes in
/// standard base64, else 64 hexadecimal digits; `None` for an empty (or
/// all-blank) text or one that is none of these.
pub open spec fn signing_key_from(raw: Seq<char>) -> Option<Seq<u8>> {
    let t = trim_ws(raw);
    let b = vstd::utf8::encode_utf8(t);
    if t.len() == 0 {
        None
    } else if pkcs8_pem_secret(t) is Some && t.contains('-') {
        pkcs8_pem_secret(t)
    } else if base64_decoded(b) is Some && base64_decoded(b)->0.len() == 32 {
        base64_decoded(b)
    } else if b.len() == 64 && hex_decoded(b) is Some && hex_decoded(b)->0.len() == 32 {
        hex_decoded(b)
    } else {
        None
    }
}

/// Reads the configured signing key into its 32-byte secret seed.
pub fn parse_signing_key(raw: &str) -> (r: Option<Vec<u8>>)
    ensures
        match r {
            Some(v) => signing_key_from(raw@) == Some(v@),
            None => signing_key_from(raw@) is None,
        },
        r matches Some(v) ==> v@.len() == 32,
{
    let trimmed = trim(raw);
    if trimmed.is_empty() {
        return None;
    }
    match read_pkcs8_pem(trimmed) {
        Some(key) => {
            return Some(key);
        },
        None => {},
    }
    match base64_standard_decode(trimmed.as_bytes()) {
        Some(decoded) => {
            proof {
                lemma_base64_decoded(decoded@, vstd::utf8::encode_utf8(trimmed@));
            }
            if decoded.len() == 32 {
                return Some(decoded);
            }
        },
        None => {},
    }
    let bytes = trimmed.as_bytes();
    if bytes.len() == 64 {
        match hex_decode(bytes) {
            Some(decoded) => {
                if decoded.len() == 32 {
                    return Some(decoded);
                }
            },
            None => {},
        }
    }
    None
}

/// A text of base64 alphabet characters is free of blanks and of `-`, and is
/// ASCII.
proof fn lemma_base64_text_plain(t: Seq<char>)
    requires
        forall|i: int| 0 <= i < t.len() ==> is_base64_char(#[trigger] t[i]),
    ensures
        !t.contains('-'),
        vstd::utf8::is_ascii_chars(t),
        t.len() > 0 ==> !is_unicode_whitespace(t[0]) && !is_unicode_whitespace(t.last()),
{
    assert(t.len() > 0 ==> is_base64_char(t[t.len() - 1]));
}

/// A text of lower-case hexadecimal digits is free of blanks and of `-`, and
/// is ASCII.
proof fn lemma_hex_text_plain(t: Seq<char>)
    requires
        forall|i: int| 0 <= i < t.len() ==> is_lower_hex_char(#[trigger] t[i]),
    ensures
        !t.contains('-'),
        vstd::utf8::is_ascii_chars(t),
        t.len() > 0 ==> !is_unicode_whitespace(t[0]) && !is_unicode_whitespace(t.last()),
{
    assert(t.len() > 0 ==> is_lower_hex_char(t[t.len() - 1]));
}

/// A signing key written as its standard base64 text, or as its lower-case
/// hexadecimal text, with any blanks around it, reads back as that key; a
/// text of blanks alone reads as no key.
pub proof fn law_signing_key_texts(key: Seq<u8>, w1: Seq<char>, w2: Seq<char>)
    requires
        key.len() == 32,
        forall|i: int| 0 <= i < w1.len() ==> is_unicode_whitespace(#[trigger] w1[i]),
        forall|i: int| 0 <= i < w2.len() ==> is_unicode_whitespace(#[trigger] w2[i]),
    ensures
        signing_key_from(w1 + base64_encode(key) + w2) == Some(key),
        signing_key_from(w1 + hex_lower(key) + w2) == Some(key),
        signing_key_from(w1 + w2) is None,
{
    // base64
    let t = base64_encode(key);
    lemma_base64_encode_len(key);
    lemma_base64_encode_chars(key);
    lemma_base64_text_plain(t);
    lemma_trim_ws_around(w1, t, w2);
    lemma_base64_decoded(key, vstd::utf8::encode_utf8(t));
    // hexadecimal
    let h = hex_lower(key);
    let hb = vstd::utf8::encode_utf8(h);
    lemma_hex_lower(key);
    lemma_hex_text_plain(h);
    lemma_trim_ws_around(w1, h, w2);
    vstd::utf8::is_ascii_chars_encode_utf8(h);
    if base64_decoded(hb) is Some {
        let v = base64_decoded(hb)->0;
        assert(vstd::utf8::encode_utf8(base64_encode(v)) == hb);
        lemma_base64_encode_len(v);
        lemma_base64_encode_chars(v);
        lemma_base64_text_plain(base64_encode(v));
        vstd::utf8::is_ascii_chars_encode_utf8(base64_encode(v));
        assert(v.len() != 32);
    }
    // blanks alone
    lemma_trim_ws_around(w1, Seq::empty(), w2);
    assert(w1 + Seq::<char>::empty() + w2 =~= w1 + w2);
}

/// The mathematical value of a [`StandxClient`].
pub struct ClientView {
    pub api_url: Seq<char>,
    pub market_ws_url: Seq<char>,
    pub order_ws_url: Seq<char>,
    pub jwt_token: Seq<char>,
    pub signing_key: Option<Seq<u8>>,
    pub session_id: Seq<char>,
}

/// The endpoints, credentials and signing key of a StandX account.
pub struct StandxClient {
    api_url: String,
    market_ws_url: String,
    order_ws_url: String,
    jwt_token: String,
    signing_key: Option<Vec<u8>>,
    session_id: String,
}

impl StandxClient {
    /// A signing key is a 32-byte secret seed.
    #[verifier::type_invariant]
    spec fn key_is_seed(self) -> bool {
        self.signing_key matches Some(k) ==> k@.len() == 32
    }
}

impl View for StandxClient {
    type V = ClientView;

    closed spec fn view(&self) -> ClientView {
        ClientView {
            api_url: self.api_url@,
            market_ws_url: self.market_ws_url@,
            order_ws_url: self.order_ws_url@,
            jwt_token: self.jwt_token@,
            signing_key: match self.signing_key {
                Some(k) => Some(k@),
                None => None,
            },
            session_id: self.session_id@,
        }
    }
}

/// One HTTP header, name and value.
pub open spec fn header(name: Seq<char>, value: Seq<char>) -> (Seq<char>, Seq<char>) {
    (name, value)
}

/// The bearer-token header, when there is a token.
pub open spec fn auth_headers(c: ClientView) -> Seq<(Seq<char>, Seq<char>)> {
    if c.jwt_token.len() == 0 {
        seq![]
    } else {
        seq![header("authorization"@, "Bearer "@ + c.jwt_token)]
    }
}

/// The text that is signed for a request.
pub open spec fn sign_message(request_id: Seq<char>, timestamp_ms: i64, payload: Seq<char>) -> Seq<char> {
    "v1,"@ + request_id + ","@ + decimal(timestamp_ms as int) + ","@ + payload
}

/// The headers of a request with body `payload`: the bearer token, and with
/// a signing key the request id, timestamp and signature.
pub open spec fn signed_headers(
    c: ClientView,
    payload: Seq<char>,
    request_id: Seq<char>,
    timestamp_ms: i64,
) -> Seq<(Seq<char>, Seq<char>)> {
    match c.signing_key {
        None => auth_headers(c),
        Some(k) => auth_headers(c) + seq![
            header("x-request-sign-version"@, "v1"@),
            header("x-request-id"@, request_id),
            header("x-request-timestamp"@, decimal(timestamp_ms as int)),
            header(
                "x-request-signature"@,
                base64_encode(
                    ed25519_signature(k, vstd::utf8::encode_utf8(sign_message(request_id, timestamp_ms, payload))),
                ),
            ),
        ],
    }
}

fn pair(name: &str, value: String) -> (r: (String, String))
    ensures
        r.0@ == name@,
        r.1@ == value@,
{
    (name.to_owned(), value)
}

impl StandxClient {
    /// A client for the API at `api_url` (without trailing slashes), with the
    /// given stream endpoints, credentials and session.
    pub fn new(
        api_url: &str,
        market_ws_url: &str,
        order_ws_url: &str,
        jwt_token: &str,
        signing_key: &str,
        session_id: &str,
    ) -> (r: Result<StandxClient, StandxError>)
        ensures
            r matches Ok(c) && c@ == (ClientView {
                api_url: strip_trailing(api_url@, '/'),
                market_ws_url: market_ws_url@,
                order_ws_url: order_ws_url@,
                jwt_token: jwt_token@,
                signing_key: signing_key_from(signing_key@),
                session_id: session_id@,
            }),
    {
        Ok(StandxClient {
            api_url: trim_end_char(api_url, '/').to_owned(),
            market_ws_url: market_ws_url.to_owned(),
            order_ws_url: order_ws_url.to_owned(),
            jwt_token: jwt_token.to_owned(),
            signing_key: parse_signing_key(signing_key),
            session_id: session_id.to_owned(),
        })
    }

    /// The market data stream endpoint.
    pub fn market_ws_url(&self) -> (r: &str)
        ensures
            r@ == self@.market_ws_url,
    {
        self.market_ws_url.as_str()
    }

    /// The order stream endpoint.
    pub fn order_ws_url(&self) -> (r: &str)
        ensures
            r@ == self@.order_ws_url,
    {
        self.order_ws_url.as_str()
    }

    /// The session id sent with order requests.
    pub fn session_id(&self) -> (r: &str)
        ensures
            r@ == self@.session_id,
    {
        self.session_id.as_str()
    }

    /// The bearer token.
    pub fn jwt_token(&self) -> (r: &str)
        ensures
            r@ == self@.jwt_token,
    {
        self.jwt_token.as_str()
    }

    /// The URL of the REST endpoint `name`.
    pub fn endpoint(&self, name: &str) -> (r: String)
        ensures
            r@ == self@.api_url + "/api/"@ + name@,
    {
        let mut url = self.api_url.clone();
        url.append("/api/");
        url.append(name);
        url
    }

    /// The URL that looks an order up by client order id.
    pub fn query_order_url(&self, client_order_id: &str) -> (r: String)
        ensures
            r@ == self@.api_url + "/api/query_order?cl_ord_id="@ + client_order_id@,
    {
        let mut url = self.api_url.clone();
        url.append("/api/query_order?cl_ord_id=");
        url.append(client_order_id);
        url
    }

    /// The bearer-token header, when there is a token.
    pub fn auth_headers(&self) -> (r: Vec<(String, String)>)
        ensures
            r.deep_view() == auth_headers(self@),
    {
        let mut headers: Vec<(String, String)> = Vec::new();
        if !self.jwt_token.as_str().is_empty() {
            let mut value = "Bearer ".to_owned();
            value.append(self.jwt_token.as_str());
            headers.push(pair("authorization", value));
        }
        proof {
            assert(headers.deep_view() =~= auth_headers(self@));
        }
        headers
    }

    /// The headers of a request with body `payload`, signed with the given
    /// request id and millisecond timestamp when the client has a key.
    pub fn signed_headers_with(&self, payload: &str, request_id: &str, timestamp_ms: i64) -> (r: Vec<
        (String, String),
    >)
        ensures
            r.deep_view() == signed_headers(self@, payload@, request_id@, timestamp_ms),
    {
        proof {
            use_type_invariant(self);
        }
        let mut headers = self.auth_headers();
        match &self.signing_key {
            None => headers,
            Some(key) => {
                let ts = i64_to_string(timestamp_ms);
                let mut message = "v1,".to_owned();
                message.append(request_id);
                message.append(",");
                message.append(ts.as_str());
                message.append(",");
                message.append(payload);
                let signature = ed25519_sign(key.as_slice(), message.as_str().as_bytes());
                let encoded = base64_standard_encode(signature.as_slice());
                let ghost before = headers.deep_view();
                headers.push(pair("x-request-sign-version", "v1".to_owned()));
                headers.push(pair("x-request-id", request_id.to_owned()));
                headers.push(pair("x-request-timestamp", ts));
                headers.push(pair("x-request-signature", encoded));
                proof {
                    assert(headers.deep_view() =~= signed_headers(self@, payload@, request_id@, timestamp_ms));
                }
                headers
            },
        }
    }

    /// The headers of a request with body `payload`, signed under a fresh
    /// request id and the current time when the client has a key.
    pub fn signing_headers(&self, payload: &str) -> (r: Result<Vec<(String, String)>, StandxError>)
        ensures
            r matches Ok(h) && exists|request_id: Seq<char>, timestamp_ms: i64|
                request_id.len() == 36 && h.deep_view() == signed_headers(self@, payload@, request_id, timestamp_ms),
    {
        match &self.signing_key {
            None => {
                let headers = self.auth_headers();
                proof {
                    assert(headers.deep_view() == signed_headers(self@, payload@, Seq::new(36, |i: int| 'x'), 0));
                }
                Ok(headers)
            },
            Some(_) => {
                let request_id = new_uuid_string();
                let timestamp_ms = utc_now_millis();
                Ok(self.signed_headers_with(payload, request_id.as_str(), timestamp_ms))
            },
        }
    }

    /// The headers of an order request with body `payload`: the signing
    /// headers and the session id.
    pub fn order_headers(&self, payload: &str) -> (r: Result<Vec<(String, String)>, StandxError>)
        ensures
            r matches Ok(h) && exists|request_id: Seq<char>, timestamp_ms: i64|
                request_id.len() == 36 && h.deep_view() == signed_headers(self@, payload@, request_id, timestamp_ms).push(
                    header("x-session-id"@, self@.session_id),
                ),
    {
        let mut headers = match self.signing_headers(payload) {
            Ok(h) => h,
            Err(e) => {
                return Err(e);
            },
        };
        headers.push(pair("x-session-id", self.session_id.clone()));
        Ok(headers)
    }
}

/// The answer to an HTTP status: the body to read on success, else the body
/// as an invalid-response error.
pub fn check_http(success: bool, body: String) -> (r: Result<String, StandxError>)
    ensures
        success ==> (r matches Ok(b) && b@ == body@),
        !success ==> (r matches Err(StandxError::InvalidResponse(b)) && b@ == body@),
{
    if success {
        Ok(body)
    } else {
        Err(StandxError::InvalidResponse(body))
    }
}

/// Accepts an acknowledgement with code 0; any other code rejects the
/// request with the acknowledgement's message.
pub fn check_ack(ack: BasicResponse) -> (r: Result<(), StandxError>)
    ensures
        ack.code == 0 ==> r is Ok,
        ack.code != 0 ==> (r matches Err(StandxError::OrderError(m)) && m@ == ack.message@),
{
    if ack.code != 0 {
        Err(StandxError::OrderError(ack.message))
    } else {
        Ok(())
    }
}

/// The body of a new-order request: never reduce-only, always carrying the
/// client order id.
pub fn new_order_request(
    client_order_id: &str,
    symbol: &str,
    side: Side,
    price: Option<String>,
    qty: String,
    order_type: OrdType,
    time_in_force: TimeInForce,
) -> (r: NewOrderRequest)
    ensures
        r.symbol@ == symbol@,
        r.side == side,
        r.order_type == order_type,
        r.qty@ == qty@,
        r.price == price,
        r.time_in_force == time_in_force,
        r.cl_ord_id matches Some(c) && c@ == client_order_id@,
        !r.reduce_only,
{
    NewOrderRequest {
        symbol: symbol.to_owned(),
        side: side,
        order_type: order_type,
        qty: qty,
        price: price,
        time_in_force: time_in_force,
        cl_ord_id: Some(client_order_id.to_owned()),
        reduce_only: false,
    }
}

/// The state of an order just acknowledged by the exchange: new, with the
/// request's price and quantity and nothing filled.
pub fn new_order_detail(request: &NewOrderRequest, client_order_id: &str) -> (r: OrderDetail)
    ensures
        r.id is None,
        r.symbol@ == request.symbol@,
        r.side == request.side,
        r.order_type == request.order_type,
        r.time_in_force == request.time_in_force,
        r.status == Status::New,
        match (r.price, request.price) {
            (Some(a), Some(b)) => a@ == b@,
            (None, None) => true,
            _ => false,
        },
        r.qty@ == request.qty@,
        r.fill_qty@ == "0"@,
        r.fill_avg_price is None,
        r.updated_at is None,
        r.cl_ord_id matches Some(c) && c@ == client_order_id@,
{
    OrderDetail {
        id: None,
        symbol: request.symbol.clone(),
        side: request.side,
        order_type: request.order_type,
        time_in_force: request.time_in_force,
        status: Status::New,
        price: match &request.price {
            Some(p) => Some(p.clone()),
            None => None,
        },
        qty: request.qty.clone(),
        fill_qty: "0".to_owned(),
        fill_avg_price: None,
        updated_at: None,
        cl_ord_id: Some(client_order_id.to_owned()),
    }
}

/// The state of an order whose cancellation was just acknowledged: the
/// snapshot taken before the cancel, with its status and quantities and no
/// price, so that no terminal state is reported before the exchange confirms
/// it.
pub fn cancel_order_detail(
    client_order_id: &str,
    symbol: &str,
    side: Side,
    order_type: OrdType,
    time_in_force: TimeInForce,
    cur_status: Status,
    qty: String,
    fill_qty: String,
) -> (r: OrderDetail)
    ensures
        r.id is None,
        r.symbol@ == symbol@,
        r.side == side,
        r.order_type == order_type,
        r.time_in_force == time_in_force,
        r.status == cur_status,
        r.price is None,
        r.qty@ == qty@,
        r.fill_qty@ == fill_qty@,
        r.fill_avg_price is None,
        r.updated_at is None,
        r.cl_ord_id matches Some(c) && c@ == client_order_id@,
{
    OrderDetail {
        id: None,
        symbol: symbol.to_owned(),
        side: side,
        order_type: order_type,
        time_in_force: time_in_force,
        status: cur_status,
        price: None,
        qty: qty,
        fill_qty: fill_qty,
        fill_avg_price: None,
        updated_at: None,
        cl_ord_id: Some(client_order_id.to_owned()),
    }
}

} // verus!
