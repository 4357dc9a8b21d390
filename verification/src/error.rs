use vstd::prelude::*;

verus! {

#[verifier::external_type_specification]
#[verifier::external_body]
pub struct ExReqwestError(reqwest::Error);

#[verifier::external_type_specification]
#[verifier::external_body]
pub struct ExTungsteniteError(tokio_tungstenite::tungstenite::Error);

#[verifier::external_type_specification]
#[verifier::external_body]
pub struct ExTomlDeError(toml::de::Error);

#[verifier::external_type_specification]
#[verifier::external_body]
pub struct ExSerdeJsonError(serde_json::Error);

/// Everything that can go wrong while talking to StandX.
#[derive(Debug)]
pub enum StandxError {
    InstrumentNotFound,
    InvalidRequest,
    ListenKeyExpired,
    ConnectionInterrupted,
    ConnectionAbort(String),
    ReqError(reqwest::Error),
    OrderError(String),
    PrefixUnmatched,
    OrderNotFound,
    Tunstenite(tokio_tungstenite::tungstenite::Error),
    Config(toml::de::Error),
    InvalidResponse(String),
    Serde(serde_json::Error),
    InvalidSigningKey,
}

} // verus!
