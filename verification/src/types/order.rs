//! Orders, their arguments, and the order book.

use crate::decimal::Dec;
use crate::error::Error;
use crate::orders::price::{calculate_market_price, market_price, reports};
use crate::primitives::U256;
use crate::types::enums::{OrderType, Side};
use vstd::prelude::*;

verus! {

/// The taker address that leaves an order open to any taker.
pub const ZERO_ADDRESS: &'static str = "0x0000000000000000000000000000000000000000";

/// Arguments for creating a limit order.
#[derive(Debug, Clone)]
pub struct OrderArgs {
    pub token_id: String,
    pub price: Dec,
    pub size: Dec,
    pub side: Side,
}

impl OrderArgs {
    pub fn new(token_id: &str, price: Dec, size: Dec, side: Side) -> (args: Self)
        ensures
            args.token_id@ == token_id@,
            args.price == price,
            args.size == size,
            args.side == side,
    {
        Self { token_id: token_id.to_owned(), price, size, side }
    }
}

/// Arguments for creating a market order.
#[derive(Debug, Clone)]
pub struct MarketOrderArgs {
    pub token_id: String,
    pub amount: Dec,
    pub side: Side,
}

impl MarketOrderArgs {
    pub fn new(token_id: &str, amount: Dec, side: Side) -> (args: Self)
        ensures
            args.token_id@ == token_id@,
            args.amount == amount,
            args.side == side,
    {
        Self { token_id: token_id.to_owned(), amount, side }
    }
}

/// Extra optional arguments for order creation.
#[derive(Debug, Clone)]
pub struct ExtraOrderArgs {
    pub fee_rate_bps: u32,
    /// Replay protection, chosen by the caller; the library never makes one up.
    pub nonce: U256,
    pub taker: String,
}

impl Default for ExtraOrderArgs {
    fn default() -> (args: Self)
        ensures
            args.fee_rate_bps == 0,
            args.nonce@ == 0,
            args.taker@ == ZERO_ADDRESS@,
    {
        Self { fee_rate_bps: 0, nonce: U256::zero(), taker: ZERO_ADDRESS.to_owned() }
    }
}

impl ExtraOrderArgs {
    /// No fee, nonce zero, any taker.
    pub fn new() -> (args: Self)
        ensures
            args.fee_rate_bps == 0,
            args.nonce@ == 0,
            args.taker@ == ZERO_ADDRESS@,
    {
        Self { fee_rate_bps: 0, nonce: U256::zero(), taker: ZERO_ADDRESS.to_owned() }
    }

    pub fn fee_rate_bps(self, fee_rate_bps: u32) -> (args: Self)
        ensures
            args.fee_rate_bps == fee_rate_bps,
            args.nonce == self.nonce,
            args.taker == self.taker,
    {
        let mut args = self;
        args.fee_rate_bps = fee_rate_bps;
        args
    }

    pub fn nonce(self, nonce: U256) -> (args: Self)
        ensures
            args.fee_rate_bps == self.fee_rate_bps,
            args.nonce == nonce,
            args.taker == self.taker,
    {
        let mut args = self;
        args.nonce = nonce;
        args
    }

    pub fn taker(self, taker: &str) -> (args: Self)
        ensures
            args.fee_rate_bps == self.fee_rate_bps,
            args.nonce == self.nonce,
            args.taker@ == taker@,
    {
        let mut args = self;
        args.taker = taker.to_owned();
        args
    }
}

/// What the caller knows of the market an order is for. Both values must be
/// given, fresh from the market's metadata: an order built on a stale tick
/// size would be rejected on chain.
#[derive(Debug, Clone, Copy)]
pub struct CreateOrderOptions {
    pub tick_size: Option<Dec>,
    pub neg_risk: Option<bool>,
}

impl Default for CreateOrderOptions {
    fn default() -> (options: Self)
        ensures
            options.tick_size is None,
            options.neg_risk is None,
    {
        Self { tick_size: None, neg_risk: None }
    }
}

impl CreateOrderOptions {
    /// Nothing known yet.
    pub fn new() -> (options: Self)
        ensures
            options.tick_size is None,
            options.neg_risk is None,
    {
        Self { tick_size: None, neg_risk: None }
    }

    pub fn tick_size(self, tick_size: Dec) -> (options: Self)
        ensures
            options.tick_size == Some(tick_size),
            options.neg_risk == self.neg_risk,
    {
        let mut options = self;
        options.tick_size = Some(tick_size);
        options
    }

    pub fn neg_risk(self, neg_risk: bool) -> (options: Self)
        ensures
            options.tick_size == self.tick_size,
            options.neg_risk == Some(neg_risk),
    {
        let mut options = self;
        options.neg_risk = Some(neg_risk);
        options
    }
}

/// Signed order request ready to be posted: the order's fields as the
/// submission endpoint reads them, and the signature.
#[derive(Debug, Clone)]
pub struct SignedOrderRequest {
    pub salt: u64,
    pub maker: String,
    pub signer: String,
    pub taker: String,
    pub token_id: String,
    pub maker_amount: String,
    pub taker_amount: String,
    pub expiration: String,
    pub nonce: String,
    pub fee_rate_bps: String,
    pub side: String,
    pub signature_type: u8,
    pub signature: String,
}

/// Order to be posted to the API.
#[derive(Debug)]
pub struct PostOrder {
    order: SignedOrderRequest,
    owner: String,
    order_type: OrderType,
}

impl PostOrder {
    pub closed spec fn order(&self) -> SignedOrderRequest {
        self.order
    }

    pub closed spec fn owner(&self) -> String {
        self.owner
    }

    pub closed spec fn order_type(&self) -> OrderType {
        self.order_type
    }

    pub fn new(order: SignedOrderRequest, owner: String, order_type: OrderType) -> (post: Self)
        ensures
            post.order() == order,
            post.owner() == owner,
            post.order_type() == order_type,
    {
        Self { order, owner, order_type }
    }

    /// The order, its owner and its type, for whoever writes them to the wire.
    pub fn into_parts(self) -> (parts: (SignedOrderRequest, String, OrderType))
        ensures
            parts.0 == self.order(),
            parts.1 == self.owner(),
            parts.2 == self.order_type(),
    {
        (self.order, self.owner, self.order_type)
    }
}

/// One parameter of a query, if its value is there.
pub open spec fn query_entry(name: Seq<char>, value: Option<Seq<char>>) -> Seq<
    (Seq<char>, Seq<char>),
> {
    match value {
        Some(v) => seq![(name, v)],
        None => Seq::empty(),
    }
}

/// The names and values of a query as text.
pub open spec fn query_text(params: Seq<(&str, String)>) -> Seq<(Seq<char>, Seq<char>)> {
    Seq::new(params.len(), |i: int| (params[i].0@, params[i].1@))
}

/// The names and values of a query with borrowed values as text.
pub open spec fn borrowed_query_text(params: Seq<(&str, &String)>) -> Seq<(Seq<char>, Seq<char>)> {
    Seq::new(params.len(), |i: int| (params[i].0@, params[i].1@))
}

/// The text of an optional string.
pub open spec fn text_of(value: Option<String>) -> Option<Seq<char>> {
    match value {
        Some(s) => Some(s@),
        None => None,
    }
}

/// Parameters for querying open orders.
#[derive(Debug, Clone)]
pub struct OpenOrderParams {
    pub id: Option<String>,
    pub asset_id: Option<String>,
    pub market: Option<String>,
}

impl Default for OpenOrderParams {
    fn default() -> (params: Self)
        ensures
            params.id is None,
            params.asset_id is None,
            params.market is None,
    {
        Self { id: None, asset_id: None, market: None }
    }
}

impl OpenOrderParams {
    /// The query of these parameters: `id`, `asset_id` and `market`, in
    /// that order, each only if it is set.
    pub open spec fn query(&self) -> Seq<(Seq<char>, Seq<char>)> {
        query_entry("id"@, text_of(self.id)) + query_entry("asset_id"@, text_of(self.asset_id))
            + query_entry("market"@, text_of(self.market))
    }

    /// No filter.
    pub fn new() -> (params: Self)
        ensures
            params.id is None,
            params.asset_id is None,
            params.market is None,
    {
        Self { id: None, asset_id: None, market: None }
    }

    pub fn id(self, id: &str) -> (params: Self)
        ensures
            text_of(params.id) == Some(id@),
            params.asset_id == self.asset_id,
            params.market == self.market,
    {
        let mut params = self;
        params.id = Some(id.to_owned());
        params
    }

    pub fn asset_id(self, asset_id: &str) -> (params: Self)
        ensures
            params.id == self.id,
            text_of(params.asset_id) == Some(asset_id@),
            params.market == self.market,
    {
        let mut params = self;
        params.asset_id = Some(asset_id.to_owned());
        params
    }

    pub fn market(self, market: &str) -> (params: Self)
        ensures
            params.id == self.id,
            params.asset_id == self.asset_id,
            text_of(params.market) == Some(market@),
    {
        let mut params = self;
        params.market = Some(market.to_owned());
        params
    }

    pub fn to_query_params(&self) -> (params: Vec<(&str, &String)>)
        ensures
            borrowed_query_text(params@) == self.query(),
    {
        let mut params: Vec<(&str, &String)> = Vec::with_capacity(3);
        assert(borrowed_query_text(params@) =~= Seq::empty());
        if let Some(ref id) = self.id {
            params.push(("id", id));
            assert(borrowed_query_text(params@) =~= query_entry("id"@, text_of(self.id)));
        }
        let ghost first = params@;
        if let Some(ref asset_id) = self.asset_id {
            params.push(("asset_id", asset_id));
        }
        assert(borrowed_query_text(params@) =~= borrowed_query_text(first) + query_entry(
            "asset_id"@,
            text_of(self.asset_id),
        ));
        let ghost second = params@;
        if let Some(ref market) = self.market {
            params.push(("market", market));
        }
        assert(borrowed_query_text(params@) =~= borrowed_query_text(second) + query_entry(
            "market"@,
            text_of(self.market),
        ));
        params
    }
}

/// One rung of an order book: a price and the size on offer at it.
#[derive(Debug, Clone, Copy)]
pub struct PriceLevel {
    /// Price at this level.
    pub price: Dec,
    /// Total size available at this price.
    pub size: Dec,
}

/// Order book summary with bids and asks.
#[derive(Debug)]
pub struct OrderBookSummary {
    pub market: String,
    pub asset_id: String,
    pub hash: String,
    pub timestamp: u64,
    pub bids: Vec<PriceLevel>,
    pub asks: Vec<PriceLevel>,
}

impl OrderBookSummary {
    /// The levels that an order of the given side is matched against: a buy
    /// takes from the asks, a sell from the bids.
    pub open spec fn opposite(&self, side: Side) -> Seq<PriceLevel> {
        match side {
            Side::Buy => self.asks@,
            Side::Sell => self.bids@,
        }
    }

    /// The price of a market order for `shares_to_match` against this book.
    pub fn calculate_market_price(&self, side: Side, shares_to_match: Dec) -> (result: Result<
        Dec,
        Error,
    >)
        ensures
            reports(
                result,
                market_price(self.opposite(side), shares_to_match@, side),
                shares_to_match,
            ),
    {
        match side {
            Side::Buy => calculate_market_price(self.asks.as_slice(), shares_to_match, side),
            Side::Sell => calculate_market_price(self.bids.as_slice(), shares_to_match, side),
        }
    }
}

/// Parameters for querying order book.
#[derive(Debug)]
pub struct BookParams {
    pub token_id: String,
    pub side: Side,
}

impl BookParams {
    pub fn new(token_id: &str, side: Side) -> (params: Self)
        ensures
            params.token_id@ == token_id@,
            params.side == side,
    {
        Self { token_id: token_id.to_owned(), side }
    }
}

/// Response from posting an order.
#[derive(Debug)]
pub struct PostOrderResponse {
    pub error_msg: String,
    pub order_id: String,
    pub status: String,
    pub success: bool,
}

/// Arguments for posting multiple orders.
#[derive(Debug, Clone)]
pub struct PostOrderArgs {
    pub order: SignedOrderRequest,
    pub order_type: OrderType,
}

impl PostOrderArgs {
    pub fn new(order: SignedOrderRequest, order_type: OrderType) -> (args: Self)
        ensures
            args.order == order,
            args.order_type == order_type,
    {
        Self { order, order_type }
    }
}

} // verus!
