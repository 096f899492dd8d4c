//! The endpoints for market discovery and metadata.
//!
//! All of them are public. The client holds the address of the service and
//! names the path of each request. Sending the request is left to the
//! caller's transport.

use crate::client::data::join;
use vstd::prelude::*;

verus! {

/// Client for market discovery and metadata.
#[derive(Debug, Clone)]
pub struct GammaClient {
    pub host: String,
}

impl GammaClient {
    /// A client for the metadata service at `host`.
    pub fn new(host: &str) -> (client: Self)
        ensures
            client.host@ == host@,
    {
        Self { host: host.to_owned() }
    }

    /// The path that lists markets, with the given query string, which is
    /// empty or starts with `?`.
    pub fn markets_path(&self, query: &str) -> (path: String)
        ensures
            path@ == "/markets"@ + query@,
    {
        join("/markets", query)
    }

    /// The path of one market, by its condition id or its numeric id.
    pub fn market_path(&self, id: &str) -> (path: String)
        ensures
            path@ == "/markets/"@ + id@,
    {
        join("/markets/", id)
    }

    /// The path of one event, by its numeric id.
    pub fn event_path(&self, id: &str) -> (path: String)
        ensures
            path@ == "/events/"@ + id@,
    {
        join("/events/", id)
    }

    /// The path of one series, by its numeric id.
    pub fn series_path(&self, id: &str) -> (path: String)
        ensures
            path@ == "/series/"@ + id@,
    {
        join("/series/", id)
    }
}

} // verus!
