use vstd::prelude::*;

use crate::error::StandxError;
use crate::ordermanager::OrderManager;
use crate::rest::{new_uuid_string, signing_key_from, ClientView, StandxClient};
use crate::text::strip_trailing;

verus! {

/// The connector's settings.
pub struct Config {
    pub stream_url: String,
    pub order_stream_url: String,
    pub api_url: String,
    pub order_prefix: String,
    pub jwt_token: String,
    pub signing_key: String,
    pub session_id: String,
}

/// The public market data stream used when none is configured.
pub fn default_market_ws_url() -> (r: String)
    ensures
        r@ == "wss://perps.standx.com/ws-stream/v1"@,
{
    "wss://perps.standx.com/ws-stream/v1".to_owned()
}

/// The order stream used when none is configured.
pub fn default_order_ws_url() -> (r: String)
    ensures
        r@ == "wss://perps.standx.com/ws-api/v1"@,
{
    "wss://perps.standx.com/ws-api/v1".to_owned()
}

/// The REST API used when none is configured.
pub fn default_api_url() -> (r: String)
    ensures
        r@ == "https://perps.standx.com"@,
{
    "https://perps.standx.com".to_owned()
}

/// The client a configuration yields when its session id is `session_id`.
pub open spec fn client_for(config: Config, session_id: Seq<char>) -> ClientView {
    ClientView {
        api_url: strip_trailing(config.api_url@, '/'),
        market_ws_url: config.stream_url@,
        order_ws_url: config.order_stream_url@,
        jwt_token: config.jwt_token@,
        signing_key: signing_key_from(config.signing_key@),
        session_id: session_id,
    }
}

impl Config {
    /// Whether the private (user data) stream is to be run: only with a
    /// bearer token.
    pub fn wants_user_data_stream(&self) -> (r: bool)
        ensures
            r == (self.jwt_token@.len() != 0),
    {
        !self.jwt_token.as_str().is_empty()
    }

    /// The session id to use: the configured one, else a fresh random UUID.
    pub fn session_id_or_fresh(&self) -> (r: String)
        ensures
            self.session_id@.len() != 0 ==> r@ == self.session_id@,
            self.session_id@.len() == 0 ==> r@.len() == 36,
    {
        if self.session_id.as_str().is_empty() {
            new_uuid_string()
        } else {
            self.session_id.clone()
        }
    }

    /// The order manager and the client a configuration yields.
    pub fn build_parts(&self) -> (r: Result<(OrderManager, StandxClient), StandxError>)
        ensures
            r matches Ok((om, client)) && {
                &&& om@.prefix == self.order_prefix@
                &&& om@.orders.dom().is_empty()
                &&& om@.ids.dom().is_empty()
                &&& om@.wf()
                &&& self.session_id@.len() != 0 ==> client@ == client_for(*self, self.session_id@)
                &&& self.session_id@.len() == 0 ==> client@.session_id.len() == 36 && client@ == client_for(
                    *self,
                    client@.session_id,
                )
            },
    {
        let order_manager = OrderManager::new(self.order_prefix.as_str());
        let session_id = self.session_id_or_fresh();
        let client = match StandxClient::new(
            self.api_url.as_str(),
            self.stream_url.as_str(),
            self.order_stream_url.as_str(),
            self.jwt_token.as_str(),
            self.signing_key.as_str(),
            session_id.as_str(),
        ) {
            Ok(c) => c,
            Err(e) => {
                return Err(e);
            },
        };
        Ok((order_manager, client))
    }
}

} // verus!
