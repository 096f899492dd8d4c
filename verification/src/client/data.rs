//! The endpoints for positions and portfolio data.
//!
//! The client holds the address of the service and names the path of each
//! request. Sending the request is left to the caller's transport.

use vstd::prelude::*;
use vstd::string::StringExecFns;

verus! {

/// `prefix` followed by `value`.
pub fn join(prefix: &str, value: &str) -> (text: String)
    ensures
        text@ == prefix@ + value@,
{
    let mut text = prefix.to_owned();
    text.append(value);
    text
}

/// Client for accessing position and portfolio data. It needs no
/// authentication.
#[derive(Debug, Clone)]
pub struct DataClient {
    pub host: String,
}

impl DataClient {
    /// A client for the data service at `host`.
    pub fn new(host: &str) -> (client: Self)
        ensures
            client.host@ == host@,
    {
        Self { host: host.to_owned() }
    }

    /// The path that lists the positions of a user.
    pub fn positions_path(&self, user: &str) -> (path: String)
        ensures
            path@ == "/positions?user="@ + user@,
    {
        join("/positions?user=", user)
    }

    /// The path that gives the total value of a user's positions.
    pub fn positions_value_path(&self, user: &str) -> (path: String)
        ensures
            path@ == "/value?user="@ + user@,
    {
        join("/value?user=", user)
    }

    /// The path that lists the recent trades of a user.
    pub fn trades_path(&self, user: &str) -> (path: String)
        ensures
            path@ == "/trades?user="@ + user@,
    {
        join("/trades?user=", user)
    }

    /// The path that lists the recent activity of a user.
    pub fn activity_path(&self, user: &str) -> (path: String)
        ensures
            path@ == "/activity?user="@ + user@,
    {
        join("/activity?user=", user)
    }

    /// The path that lists the closed positions of a user.
    pub fn closed_positions_path(&self, user: &str) -> (path: String)
        ensures
            path@ == "/closed-positions?user="@ + user@,
    {
        join("/closed-positions?user=", user)
    }
}

} // verus!
