//! Parameters for querying trades.

use crate::text::{decimal_text, u64_to_string};
use crate::types::order::{query_entry, query_text, text_of};
use vstd::prelude::*;

verus! {

/// The decimal text of an optional number.
pub open spec fn number_text(value: Option<u64>) -> Option<Seq<char>> {
    match value {
        Some(n) => Some(decimal_text(n as nat)),
        None => None,
    }
}

/// Parameters for querying trades.
#[derive(Debug, Clone)]
pub struct TradeParams {
    pub id: Option<String>,
    pub maker_address: Option<String>,
    pub market: Option<String>,
    pub asset_id: Option<String>,
    pub before: Option<u64>,
    pub after: Option<u64>,
}

impl Default for TradeParams {
    fn default() -> (params: Self)
        ensures
            params.id is None,
            params.maker_address is None,
            params.market is None,
            params.asset_id is None,
            params.before is None,
            params.after is None,
    {
        Self {
            id: None,
            maker_address: None,
            market: None,
            asset_id: None,
            before: None,
            after: None,
        }
    }
}

impl TradeParams {
    /// The query of these parameters: `id`, `asset_id`, `market`, `before`,
    /// `after` and `maker_address`, in that order, each only if it is set;
    /// the two times in decimal.
    pub open spec fn query(&self) -> Seq<(Seq<char>, Seq<char>)> {
        query_entry("id"@, text_of(self.id)) + query_entry("asset_id"@, text_of(self.asset_id))
            + query_entry("market"@, text_of(self.market)) + query_entry(
            "before"@,
            number_text(self.before),
        ) + query_entry("after"@, number_text(self.after)) + query_entry(
            "maker_address"@,
            text_of(self.maker_address),
        )
    }

    /// No filter.
    pub fn new() -> (params: Self)
        ensures
            params.id is None,
            params.maker_address is None,
            params.market is None,
            params.asset_id is None,
            params.before is None,
            params.after is None,
    {
        Self {
            id: None,
            maker_address: None,
            market: None,
            asset_id: None,
            before: None,
            after: None,
        }
    }

    pub fn id(self, id: &str) -> (params: Self)
        ensures
            text_of(params.id) == Some(id@),
            params.maker_address == self.maker_address,
            params.market == self.market,
            params.asset_id == self.asset_id,
            params.before == self.before,
            params.after == self.after,
    {
        let mut params = self;
        params.id = Some(id.to_owned());
        params
    }

    pub fn maker_address(self, maker_address: &str) -> (params: Self)
        ensures
            params.id == self.id,
            text_of(params.maker_address) == Some(maker_address@),
            params.market == self.market,
            params.asset_id == self.asset_id,
            params.before == self.before,
            params.after == self.after,
    {
        let mut params = self;
        params.maker_address = Some(maker_address.to_owned());
        params
    }

    pub fn market(self, market: &str) -> (params: Self)
        ensures
            params.id == self.id,
            params.maker_address == self.maker_address,
            text_of(params.market) == Some(market@),
            params.asset_id == self.asset_id,
            params.before == self.before,
            params.after == self.after,
    {
        let mut params = self;
        params.market = Some(market.to_owned());
        params
    }

    pub fn asset_id(self, asset_id: &str) -> (params: Self)
        ensures
            params.id == self.id,
            params.maker_address == self.maker_address,
            params.market == self.market,
            text_of(params.asset_id) == Some(asset_id@),
            params.before == self.before,
            params.after == self.after,
    {
        let mut params = self;
        params.asset_id = Some(asset_id.to_owned());
        params
    }

    pub fn before(self, before: u64) -> (params: Self)
        ensures
            params.id == self.id,
            params.maker_address == self.maker_address,
            params.market == self.market,
            params.asset_id == self.asset_id,
            params.before == Some(before),
            params.after == self.after,
    {
        let mut params = self;
        params.before = Some(before);
        params
    }

    pub fn after(self, after: u64) -> (params: Self)
        ensures
            params.id == self.id,
            params.maker_address == self.maker_address,
            params.market == self.market,
            params.asset_id == self.asset_id,
            params.before == self.before,
            params.after == Some(after),
    {
        let mut params = self;
        params.after = Some(after);
        params
    }

    pub fn to_query_params(&self) -> (params: Vec<(&str, String)>)
        ensures
            query_text(params@) == self.query(),
    {
        let mut params: Vec<(&str, String)> = Vec::with_capacity(6);
        assert(query_text(params@) =~= Seq::empty());
        let ghost so_far = params@;
        if let Some(ref id) = self.id {
            params.push(("id", id.clone()));
        }
        assert(query_text(params@) =~= query_text(so_far) + query_entry(
            "id"@,
            text_of(self.id),
        ));
        proof {
            so_far = params@;
        }
        if let Some(ref asset_id) = self.asset_id {
            params.push(("asset_id", asset_id.clone()));
        }
        assert(query_text(params@) =~= query_text(so_far) + query_entry(
            "asset_id"@,
            text_of(self.asset_id),
        ));
        proof {
            so_far = params@;
        }
        if let Some(ref market) = self.market {
            params.push(("market", market.clone()));
        }
        assert(query_text(params@) =~= query_text(so_far) + query_entry(
            "market"@,
            text_of(self.market),
        ));
        proof {
            so_far = params@;
        }
        if let Some(before) = self.before {
            params.push(("before", u64_to_string(before)));
        }
        assert(query_text(params@) =~= query_text(so_far) + query_entry(
            "before"@,
            number_text(self.before),
        ));
        proof {
            so_far = params@;
        }
        if let Some(after) = self.after {
            params.push(("after", u64_to_string(after)));
        }
        assert(query_text(params@) =~= query_text(so_far) + query_entry(
            "after"@,
            number_text(self.after),
        ));
        proof {
            so_far = params@;
        }
        if let Some(ref maker_address) = self.maker_address {
            params.push(("maker_address", maker_address.clone()));
        }
        assert(query_text(params@) =~= query_text(so_far) + query_entry(
            "maker_address"@,
            text_of(self.maker_address),
        ));
        params
    }
}

} // verus!
