//! Messages of the streaming endpoints.

use vstd::prelude::*;

verus! {

/// Trade execution status.
#[derive(Debug, Clone, Copy, PartialEq, Eq, Structural)]
pub enum TradeStatus {
    /// Trade has been matched.
    Matched,
    /// Trade has been confirmed.
    Confirmed,
    /// Trade has failed.
    Failed,
    /// Trade has been mined on-chain.
    Mined,
}

/// Subscription message for the market stream.
#[derive(Debug, Clone)]
pub struct MarketSubscription {
    /// List of asset/token IDs to subscribe to.
    pub assets_ids: Vec<String>,
}

/// Authentication credentials for the user stream.
#[derive(Debug, Clone)]
pub struct AuthCredentials {
    /// API key.
    pub api_key: String,
    /// API secret.
    pub secret: String,
    /// API passphrase.
    pub passphrase: String,
}

/// Authentication message for the user stream.
#[derive(Debug, Clone)]
pub struct UserAuthentication {
    /// Message type (always "user").
    pub msg_type: String,
    /// Authentication credentials.
    pub auth: AuthCredentials,
}

impl UserAuthentication {
    /// Create a new authentication message.
    pub fn new(api_key: String, secret: String, passphrase: String) -> (message: Self)
        ensures
            message.msg_type@ == "user"@,
            message.auth.api_key == api_key,
            message.auth.secret == secret,
            message.auth.passphrase == passphrase,
    {
        Self { msg_type: "user".to_owned(), auth: AuthCredentials { api_key, secret, passphrase } }
    }
}

} // verus!
