//! The failures this library reports.

use crate::decimal::Dec;
use vstd::prelude::*;

verus! {

/// Why an operation was refused. Nothing is retried inside the library: a
/// retry would change an order's salt, and with it the order's identity.
#[derive(Debug, Clone)]
pub enum Error {
    /// A required option was left out; the text names it.
    MissingField(String),
    /// An argument is malformed or out of range.
    InvalidParameter(String),
    /// The contract registry has no usable entry.
    Config(String),
    /// The book cannot fill the requested number of shares, which is carried.
    InsufficientLiquidity(Dec),
    /// The signer refused; its message is carried as it came.
    SigningFailure(String),
    /// The tick size, which is carried, is not one the exchange supports.
    UnknownTickSize(Dec),
}

impl Error {
    /// A short description, for logs and messages.
    pub fn describe(&self) -> (text: String)
        ensures
            text@ == (match *self {
                Error::MissingField(name) => "missing field"@,
                Error::InvalidParameter(what) => "invalid parameter"@,
                Error::Config(what) => "configuration error"@,
                Error::InsufficientLiquidity(shares) => "insufficient liquidity"@,
                Error::SigningFailure(what) => "signing failure"@,
                Error::UnknownTickSize(tick) => "unknown tick size"@,
            }),
    {
        match self {
            Error::MissingField(_) => "missing field".to_owned(),
            Error::InvalidParameter(_) => "invalid parameter".to_owned(),
            Error::Config(_) => "configuration error".to_owned(),
            Error::InsufficientLiquidity(_) => "insufficient liquidity".to_owned(),
            Error::SigningFailure(_) => "signing failure".to_owned(),
            Error::UnknownTickSize(_) => "unknown tick size".to_owned(),
        }
    }
}

} // verus!
