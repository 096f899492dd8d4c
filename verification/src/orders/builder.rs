//! Assembling and signing orders.
//!
//! An [`OrderBuilder`] holds what stays the same from order to order: the
//! signer, the kind of signature, the account that funds the orders, and the
//! registry of exchange contracts. Each order is checked and computed in
//! full before the clock, chance or the signer are asked for anything, so
//! that an order which cannot be built is refused the same way every time.

use crate::config::ContractRegistry;
use crate::decimal::{Dec, DecimalValue};
use crate::error::Error;
use crate::orders::price::{calculate_market_price, market_price, reports};
use crate::orders::rounding::{scale_amounts, scaled_amounts, tick_config, RoundConfig};
use crate::primitives::{address_bytes, checksum_text, u256_of_text, Address, U256};
use crate::signing::{answers, sign_order_message, EthSigner, Order, OrderView, SigningDomain};
use crate::text::{decimal_text, lemma_only_zero_is_written_zero, u64_to_string};
use crate::types::enums::{Side, SignatureType};
use crate::types::order::{
    CreateOrderOptions, ExtraOrderArgs, MarketOrderArgs, OrderArgs, PriceLevel,
    SignedOrderRequest,
};
use crate::utils::get_current_unix_time_secs;
use vstd::prelude::*;

verus! {

/// The salt for a time and a draw: the time scaled by the draw read as a
/// fraction of `2^64`, rounded down.
pub open spec fn salt_of(timestamp: u64, draw: u64) -> int {
    (timestamp * draw) / 0x1_0000_0000_0000_0000
}

/// The salt for a time in seconds and a 64-bit draw. It never exceeds the
/// time, and so fits 64 bits.
pub fn derive_salt(timestamp: u64, draw: u64) -> (salt: u64)
    ensures
        salt == salt_of(timestamp, draw),
        salt <= timestamp,
{
    proof {
        assert(0 <= timestamp * draw <= timestamp * 0xffff_ffff_ffff_ffff) by (nonlinear_arith)
            requires
                0 <= draw <= 0xffff_ffff_ffff_ffff,
                0 <= timestamp,
        ;
    }
    let wide: u128 = (timestamp as u128) * (draw as u128);
    (wide / 0x1_0000_0000_0000_0000u128) as u64
}

/// The salt for what the clock and the generator gave: the salt of time and
/// draw, or the clock's failure as it came.
pub fn seed_from(clock: Result<u64, Error>, draw: u64) -> (seed: Result<u64, Error>)
    ensures
        match clock {
            Ok(timestamp) => seed matches Ok(salt) && salt == salt_of(timestamp, draw),
            Err(failure) => seed matches Err(e) && e == failure,
        },
{
    match clock {
        Ok(timestamp) => Ok(derive_salt(timestamp, draw)),
        Err(e) => Err(e),
    }
}

/// A fresh salt: the current time scaled by a random fraction. Its only
/// purpose is to set otherwise identical orders apart.
///
/// The salt is [`salt_of`] the time that the clock gave and the number that
/// the generator drew; it fails, with `Config`, only where the clock does.
pub fn generate_seed() -> (seed: Result<u64, Error>)
    ensures
        match seed {
            Ok(salt) => exists|timestamp: u64, draw: u64|
                salt == #[trigger] salt_of(timestamp, draw),
            Err(e) => e matches Error::Config(_),
        },
{
    let draw = random_draw();
    let clock = get_current_unix_time_secs();
    let ghost read = clock;
    let seed = seed_from(clock, draw);
    proof {
        if read is Ok {
            assert(seed->Ok_0 == salt_of(read->Ok_0, draw));
        }
    }
    seed
}

/// A draw from `rand::thread_rng`, the generator that each thread keeps for
/// itself. Nothing is promised of the value: it is chance.
#[verifier::external_body]
fn random_draw() -> u64 {
    rand::Rng::gen::<u64>(&mut rand::thread_rng())
}

/// The kinds of refusal that are decided by the arguments alone.
pub enum Refusal {
    /// The named option was left out.
    MissingField(Seq<char>),
    /// The tick size is unsupported, an amount is out of range, a limit order
    /// has no expiration, or the taker or the token id cannot be read.
    InvalidParameter,
    /// No exchange contract is registered, or its address cannot be read.
    Config,
}

/// Whether an error is of the given kind.
pub open spec fn refused_as(e: Error, kind: Refusal) -> bool {
    match kind {
        Refusal::MissingField(name) => e matches Error::MissingField(n) && n@ == name,
        Refusal::InvalidParameter => e matches Error::InvalidParameter(_),
        Refusal::Config => e matches Error::Config(_),
    }
}

/// An order that is complete but for its salt, and the exchange it is for.
pub struct Plan {
    pub exchange: Seq<u8>,
    pub order: OrderView,
}

/// The order with the given salt.
pub open spec fn salted(order: OrderView, salt: u64) -> OrderView {
    OrderView { salt, ..order }
}

impl SignedOrderRequest {
    /// Whether this request renders the given order: addresses as
    /// checksummed text, numbers in decimal, the side as a word, the token id
    /// as the caller wrote it, and the signature.
    pub open spec fn renders(
        &self,
        order: OrderView,
        token_id: Seq<char>,
        side: Side,
        signature: Seq<char>,
    ) -> bool {
        &&& self.salt == order.salt
        &&& self.maker@ == checksum_text(order.maker)
        &&& self.signer@ == checksum_text(order.signer)
        &&& self.taker@ == checksum_text(order.taker)
        &&& self.token_id@ == token_id
        &&& self.maker_amount@ == decimal_text(order.maker_amount as nat)
        &&& self.taker_amount@ == decimal_text(order.taker_amount as nat)
        &&& self.expiration@ == decimal_text(order.expiration as nat)
        &&& self.nonce@ == decimal_text(order.nonce)
        &&& self.fee_rate_bps@ == decimal_text(order.fee_rate_bps as nat)
        &&& self.side@ == side.word()
        &&& self.signature_type == order.signature_type
        &&& self.signature@ == signature
    }

    /// The request for a signed order. Token id and signature are carried as
    /// they are.
    pub fn from_order(order: &Order, token_id: String, side: Side, signature: String) -> (request:
        SignedOrderRequest)
        ensures
            request.renders(order@, token_id@, side, signature@),
            request.token_id == token_id,
            request.signature == signature,
    {
        SignedOrderRequest {
            salt: order.salt,
            maker: order.maker.to_checksum(),
            signer: order.signer.to_checksum(),
            taker: order.taker.to_checksum(),
            token_id,
            maker_amount: u64_to_string(order.maker_amount as u64),
            taker_amount: u64_to_string(order.taker_amount as u64),
            expiration: u64_to_string(order.expiration),
            nonce: order.nonce.to_decimal_string(),
            fee_rate_bps: u64_to_string(order.fee_rate_bps as u64),
            side: side.as_str().to_owned(),
            signature_type: order.signature_type,
            signature,
        }
    }
}

/// Builder for creating and signing orders, for any kind of signer.
pub struct OrderBuilder<S: EthSigner> {
    signer: S,
    signer_address: Address,
    sig_type: SignatureType,
    funder: Address,
    contracts: ContractRegistry,
}

impl<S: EthSigner> OrderBuilder<S> {
    /// The signer that the builder was made with, and that signs its orders.
    pub closed spec fn signer(&self) -> S {
        self.signer
    }

    /// The address of the signing key, as the signer named it when the
    /// builder was made.
    pub closed spec fn signer_account(&self) -> Address {
        self.signer_address
    }

    /// The kind of signature.
    pub closed spec fn signature_type(&self) -> SignatureType {
        self.sig_type
    }

    /// The account that funds the orders.
    pub closed spec fn funder(&self) -> Address {
        self.funder
    }

    /// The registry of exchange contracts.
    pub closed spec fn contracts(&self) -> ContractRegistry {
        self.contracts
    }

    /// A builder for the given signer, which is asked for its address once,
    /// here: the address it names is the address under which every order is
    /// signed. The signature type is EOA unless given; the funder is the
    /// signer's own address unless given. No exchange contract is known yet.
    pub fn new(signer: S, sig_type: Option<SignatureType>, funder: Option<Address>) -> (builder:
        Self)
        ensures
            builder.signer() == signer,
            call_ensures(S::address, (&signer,), builder.signer_account()),
            builder.signature_type() == (match sig_type {
                Some(kind) => kind,
                None => SignatureType::Eoa,
            }),
            builder.funder() == (match funder {
                Some(account) => account,
                None => builder.signer_account(),
            }),
            builder.contracts().entries@.len() == 0,
    {
        let sig_type = match sig_type {
            Some(kind) => kind,
            None => SignatureType::Eoa,
        };
        let signer_addr = signer.address();
        let funder = match funder {
            Some(account) => account,
            None => signer_addr,
        };
        Self {
            signer,
            signer_address: signer_addr,
            sig_type,
            funder,
            contracts: ContractRegistry::new(),
        }
    }

    /// The same builder with the given registry of exchange contracts.
    pub fn with_contracts(self, contracts: ContractRegistry) -> (builder: Self)
        ensures
            builder.signer() == self.signer(),
            builder.signer_account() == self.signer_account(),
            builder.signature_type() == self.signature_type(),
            builder.funder() == self.funder(),
            builder.contracts() == contracts,
    {
        let mut builder = self;
        builder.contracts = contracts;
        builder
    }

    /// Get the signature type as u8.
    pub fn get_sig_type(&self) -> (code: u8)
        ensures
            code == self.signature_type().code(),
    {
        self.sig_type.to_u8()
    }

    /// Maker and taker amount of a limit order.
    pub fn get_order_amounts(
        &self,
        side: Side,
        size: Dec,
        price: Dec,
        round_config: &RoundConfig,
    ) -> (r: Result<(u32, u32), Error>)
        ensures
            match scaled_amounts(side, size@, price@, *round_config) {
                Some((maker, taker)) => r matches Ok(a) && a.0 == maker && a.1 == taker,
                None => r matches Err(Error::InvalidParameter(_)),
            },
    {
        match scale_amounts(side, size, price, round_config) {
            Ok(amounts) => Ok((amounts.maker_amount, amounts.taker_amount)),
            Err(e) => Err(e),
        }
    }

    /// Maker and taker amount of a market order, whose size is `amount`.
    pub fn get_market_order_amounts(
        &self,
        side: Side,
        amount: Dec,
        price: Dec,
        round_config: &RoundConfig,
    ) -> (r: Result<(u32, u32), Error>)
        ensures
            match scaled_amounts(side, amount@, price@, *round_config) {
                Some((maker, taker)) => r matches Ok(a) && a.0 == maker && a.1 == taker,
                None => r matches Err(Error::InvalidParameter(_)),
            },
    {
        match scale_amounts(side, amount, price, round_config) {
            Ok(amounts) => Ok((amounts.maker_amount, amounts.taker_amount)),
            Err(e) => Err(e),
        }
    }

    /// Calculate the price for a market order based on order book depth.
    pub fn calculate_market_price(
        &self,
        positions: &[PriceLevel],
        amount_to_match: Dec,
        side: Side,
    ) -> (result: Result<Dec, Error>)
        ensures
            reports(result, market_price(positions@, amount_to_match@, side), amount_to_match),
    {
        calculate_market_price(positions, amount_to_match, side)
    }

    /// The order that the arguments call for, but for its salt; or the
    /// refusal that they call for. A limit order comes with `Some` expiration,
    /// a market order with `None`.
    ///
    /// The checks come in this order: the tick size is given; the negative
    /// risk flag is given; the tick size is supported; the amounts are in
    /// range; an exchange is registered for the chain and the market kind;
    /// its address can be read; a limit order's expiration is not 0; the
    /// taker and the token id can be read.
    ///
    /// The planned order has expiration 0 exactly when it is a market order.
    pub open spec fn plan(
        &self,
        chain_id: u64,
        token_id: Seq<char>,
        side: Side,
        size: DecimalValue,
        price: DecimalValue,
        expiration: Option<u64>,
        extras: ExtraOrderArgs,
        options: CreateOrderOptions,
    ) -> Result<Plan, Refusal> {
        if options.tick_size is None {
            Err(Refusal::MissingField("tick_size"@))
        } else if options.neg_risk is None {
            Err(Refusal::MissingField("neg_risk"@))
        } else {
            match tick_config(options.tick_size->0@) {
                None => Err(Refusal::InvalidParameter),
                Some(config) => match scaled_amounts(side, size, price, config) {
                    None => Err(Refusal::InvalidParameter),
                    Some((maker_amount, taker_amount)) => match self.contracts().lookup(
                        chain_id,
                        options.neg_risk->0,
                    ) {
                        None => Err(Refusal::Config),
                        Some(contract) => match address_bytes(contract.exchange@) {
                            None => Err(Refusal::Config),
                            Some(exchange) => if expiration == Some(0u64) {
                                Err(Refusal::InvalidParameter)
                            } else {
                                match (address_bytes(extras.taker@), u256_of_text(token_id)) {
                                    (Some(taker), Some(token)) => Ok(
                                        Plan {
                                            exchange,
                                            order: OrderView {
                                                salt: 0,
                                                maker: self.funder()@,
                                                signer: self.signer_account()@,
                                                taker,
                                                token_id: token,
                                                maker_amount: maker_amount as u32,
                                                taker_amount: taker_amount as u32,
                                                expiration: match expiration {
                                                    Some(at) => at,
                                                    None => 0,
                                                },
                                                nonce: extras.nonce@,
                                                fee_rate_bps: extras.fee_rate_bps,
                                                side: side.code(),
                                                signature_type: self.signature_type().code(),
                                            },
                                        },
                                    ),
                                    _ => Err(Refusal::InvalidParameter),
                                }
                            },
                        },
                    },
                },
            }
        }
    }

    /// Whether the registry names an exchange for the chain and the market
    /// kind, with an address that can be read.
    pub open spec fn resolves_exchange(&self, chain_id: u64, neg_risk: bool) -> bool {
        self.contracts().lookup(chain_id, neg_risk) matches Some(contract) && address_bytes(
            contract.exchange@,
        ) is Some
    }

    /// Whether `answer` is what the builder's signer gave when it was asked
    /// to sign the given order for the exchange at `exchange` on the chain
    /// `chain_id`.
    pub open spec fn was_asked(
        &self,
        chain_id: u64,
        exchange: Seq<u8>,
        order: OrderView,
        answer: Result<String, String>,
    ) -> bool {
        exists|domain: SigningDomain, asked: Order|
            domain.chain_id == chain_id && domain.verifying_contract@ == exchange && asked@
                == order && #[trigger] answers(self.signer(), domain, asked, answer)
    }

    /// What becomes of an order that is complete but for its salt.
    ///
    /// A request renders the order under the request's salt, and carries as
    /// its signature what the signer answered when asked to sign that very
    /// order, salt included, for that chain and that exchange. A
    /// `SigningFailure` carries the refusal that the signer answered when
    /// asked to sign the order under some salt. The only other failure is
    /// `Config`, where the clock cannot be read.
    pub open spec fn signed_or_failed(
        &self,
        result: Result<SignedOrderRequest, Error>,
        chain_id: u64,
        exchange: Seq<u8>,
        order: OrderView,
        token_id: Seq<char>,
        side: Side,
    ) -> bool {
        match result {
            Ok(request) => request.renders(
                salted(order, request.salt),
                token_id,
                side,
                request.signature@,
            ) && self.was_asked(
                chain_id,
                exchange,
                salted(order, request.salt),
                Ok(request.signature),
            ),
            Err(Error::SigningFailure(reason)) => exists|salt: u64| #[trigger]
                self.was_asked(chain_id, exchange, salted(order, salt), Err(reason)),
            Err(e) => e matches Error::Config(_),
        }
    }

    /// What an order creation returns, given what the arguments call for:
    /// the refusal where they call for one, and else what
    /// [`Self::signed_or_failed`] says of the planned order.
    pub open spec fn delivers(
        &self,
        result: Result<SignedOrderRequest, Error>,
        planned: Result<Plan, Refusal>,
        chain_id: u64,
        token_id: Seq<char>,
        side: Side,
    ) -> bool {
        match planned {
            Err(kind) => result matches Err(e) && refused_as(e, kind),
            Ok(plan) => self.signed_or_failed(
                result,
                chain_id,
                plan.exchange,
                plan.order,
                token_id,
                side,
            ),
        }
    }

    /// Create a market order: an order without expiry, for `amount` shares
    /// at the given price, which is usually the outcome of walking the book.
    pub fn create_market_order(
        &self,
        chain_id: u64,
        order_args: &MarketOrderArgs,
        price: Dec,
        extras: &ExtraOrderArgs,
        options: CreateOrderOptions,
    ) -> (result: Result<SignedOrderRequest, Error>)
        ensures
            self.delivers(
                result,
                self.plan(
                    chain_id,
                    order_args.token_id@,
                    order_args.side,
                    order_args.amount@,
                    price@,
                    None,
                    *extras,
                    options,
                ),
                chain_id,
                order_args.token_id@,
                order_args.side,
            ),
            options.tick_size is None || options.neg_risk is None ==> result matches Err(
                Error::MissingField(_),
            ),
            result matches Ok(request) ==> request.expiration@ == seq!['0'],
    {
        let tick_size = match options.tick_size {
            Some(tick_size) => tick_size,
            None => { return Err(Error::MissingField("tick_size".to_owned())); },
        };
        let neg_risk = match options.neg_risk {
            Some(neg_risk) => neg_risk,
            None => { return Err(Error::MissingField("neg_risk".to_owned())); },
        };
        let round_config = match RoundConfig::for_tick_size(tick_size) {
            Ok(config) => config,
            Err(_) => { return Err(Error::InvalidParameter("Invalid tick_size".to_owned())); },
        };
        let (maker_amount, taker_amount) = match self.get_market_order_amounts(
            order_args.side,
            order_args.amount,
            price,
            &round_config,
        ) {
            Ok(amounts) => amounts,
            Err(e) => { return Err(e); },
        };
        let exchange_address = match self.exchange_address(chain_id, neg_risk) {
            Ok(address) => address,
            Err(e) => { return Err(e); },
        };
        proof {
            lemma_only_zero_is_written_zero(0);
        }
        self.build_signed_order(
            order_args.token_id.clone(),
            order_args.side,
            chain_id,
            exchange_address,
            maker_amount,
            taker_amount,
            0,
            extras,
        )
    }

    /// Create a limit order: an order for `size` shares at `price` or
    /// better, which lapses at `expiration`, in seconds since the epoch.
    ///
    /// Expiration 0 is the mark of a market order, which never lapses: a
    /// limit order with expiration 0 is never made. Where an exchange is
    /// found for it, it is refused with `InvalidParameter`; where none is
    /// found, the refusal is `Config`, as for any other order.
    pub fn create_order(
        &self,
        chain_id: u64,
        order_args: &OrderArgs,
        expiration: u64,
        extras: &ExtraOrderArgs,
        options: CreateOrderOptions,
    ) -> (result: Result<SignedOrderRequest, Error>)
        ensures
            self.delivers(
                result,
                self.plan(
                    chain_id,
                    order_args.token_id@,
                    order_args.side,
                    order_args.size@,
                    order_args.price@,
                    Some(expiration),
                    *extras,
                    options,
                ),
                chain_id,
                order_args.token_id@,
                order_args.side,
            ),
            options.tick_size is None || options.neg_risk is None ==> result matches Err(
                Error::MissingField(_),
            ),
            expiration == 0 ==> result is Err,
            expiration == 0 && options.tick_size is Some && options.neg_risk is Some
                && self.resolves_exchange(chain_id, options.neg_risk->0) ==> result matches Err(
                Error::InvalidParameter(_),
            ),
            result matches Ok(request) ==> request.expiration@ != seq!['0'],
    {
        let tick_size = match options.tick_size {
            Some(tick_size) => tick_size,
            None => { return Err(Error::MissingField("tick_size".to_owned())); },
        };
        let neg_risk = match options.neg_risk {
            Some(neg_risk) => neg_risk,
            None => { return Err(Error::MissingField("neg_risk".to_owned())); },
        };
        let round_config = match RoundConfig::for_tick_size(tick_size) {
            Ok(config) => config,
            Err(_) => { return Err(Error::InvalidParameter("Invalid tick_size".to_owned())); },
        };
        let (maker_amount, taker_amount) = match self.get_order_amounts(
            order_args.side,
            order_args.size,
            order_args.price,
            &round_config,
        ) {
            Ok(amounts) => amounts,
            Err(e) => { return Err(e); },
        };
        let exchange_address = match self.exchange_address(chain_id, neg_risk) {
            Ok(address) => address,
            Err(e) => { return Err(e); },
        };
        if expiration == 0 {
            return Err(Error::InvalidParameter("a limit order needs an expiration".to_owned()));
        }
        proof {
            lemma_only_zero_is_written_zero(expiration as nat);
        }
        self.build_signed_order(
            order_args.token_id.clone(),
            order_args.side,
            chain_id,
            exchange_address,
            maker_amount,
            taker_amount,
            expiration,
            extras,
        )
    }

    /// The address of the exchange for a chain and a market kind; `Config`
    /// where none is registered or its address cannot be read.
    fn exchange_address(&self, chain_id: u64, neg_risk: bool) -> (r: Result<Address, Error>)
        ensures
            match self.contracts().lookup(chain_id, neg_risk) {
                None => r matches Err(Error::Config(_)),
                Some(contract) => match address_bytes(contract.exchange@) {
                    None => r matches Err(Error::Config(_)),
                    Some(exchange) => r matches Ok(a) && a@ == exchange,
                },
            },
    {
        let contract_config = match self.contracts.get_contract_config(chain_id, neg_risk) {
            Ok(config) => config,
            Err(e) => { return Err(e); },
        };
        match Address::from_str(contract_config.exchange.as_str()) {
            Some(address) => Ok(address),
            None => Err(Error::Config("Invalid exchange address".to_owned())),
        }
    }

    /// The canonical order of this builder for one salt: funded by the
    /// funder, signed under the signer's address, under this builder's kind
    /// of signature.
    ///
    /// This is the order that is handed to the signer, and the order that
    /// the request renders.
    pub fn assemble_order(
        &self,
        salt: u64,
        taker: Address,
        token_id: U256,
        side: Side,
        maker_amount: u32,
        taker_amount: u32,
        expiration: u64,
        extras: &ExtraOrderArgs,
    ) -> (order: Order)
        ensures
            order == (Order {
                salt,
                maker: self.funder(),
                signer: self.signer_account(),
                taker,
                token_id,
                maker_amount,
                taker_amount,
                expiration,
                nonce: extras.nonce,
                fee_rate_bps: extras.fee_rate_bps,
                side: side.code(),
                signature_type: self.signature_type().code(),
            }),
    {
        Order {
            salt,
            maker: self.funder,
            signer: self.signer_address,
            taker,
            token_id,
            maker_amount,
            taker_amount,
            expiration,
            nonce: extras.nonce,
            fee_rate_bps: extras.fee_rate_bps,
            side: side.to_u8(),
            signature_type: self.sig_type.to_u8(),
        }
    }

    /// Build and sign an order.
    ///
    /// Fails with `InvalidParameter` where the taker or the token id cannot
    /// be read, and this before clock, chance and signer are asked. After
    /// that only the clock (`Config`) and the signer (`SigningFailure`) can
    /// make it fail. The signer is handed the order that `assemble_order`
    /// made with the fresh salt, and the chain and the exchange as given.
    fn build_signed_order(
        &self,
        token_id: String,
        side: Side,
        chain_id: u64,
        exchange: Address,
        maker_amount: u32,
        taker_amount: u32,
        expiration: u64,
        extras: &ExtraOrderArgs,
    ) -> (result: Result<SignedOrderRequest, Error>)
        ensures
            match (address_bytes(extras.taker@), u256_of_text(token_id@)) {
                (Some(taker), Some(token)) => self.signed_or_failed(
                    result,
                    chain_id,
                    exchange@,
                    OrderView {
                        salt: 0,
                        maker: self.funder()@,
                        signer: self.signer_account()@,
                        taker,
                        token_id: token,
                        maker_amount,
                        taker_amount,
                        expiration,
                        nonce: extras.nonce@,
                        fee_rate_bps: extras.fee_rate_bps,
                        side: side.code(),
                        signature_type: self.signature_type().code(),
                    },
                    token_id@,
                    side,
                ),
                _ => result matches Err(Error::InvalidParameter(_)),
            },
    {
        let (taker, token) = match read_taker_and_token(extras.taker.as_str(), token_id.as_str()) {
            Ok(read) => read,
            Err(e) => { return Err(e); },
        };
        let seed = match generate_seed() {
            Ok(seed) => seed,
            Err(e) => { return Err(e); },
        };
        let order = self.assemble_order(
            seed,
            taker,
            token,
            side,
            maker_amount,
            taker_amount,
            expiration,
            extras,
        );
        let ghost unsalted = OrderView { salt: 0, ..order@ };
        let ghost domain = SigningDomain { chain_id, verifying_contract: exchange };
        assert(order@ == salted(unsalted, seed));
        match sign_order_message(&self.signer, &order, chain_id, exchange) {
            Ok(signature) => {
                let request = SignedOrderRequest::from_order(&order, token_id, side, signature);
                proof {
                    assert(answers(self.signer(), domain, order, Ok(request.signature)));
                    assert(self.was_asked(
                        chain_id,
                        exchange@,
                        salted(unsalted, request.salt),
                        Ok(request.signature),
                    ));
                }
                Ok(request)
            },
            Err(e) => {
                proof {
                    let reason = e->SigningFailure_0;
                    assert(answers(self.signer(), domain, order, Err(reason)));
                    assert(self.was_asked(chain_id, exchange@, salted(unsalted, seed), Err(reason)));
                }
                Err(e)
            },
        }
    }
}

/// The taker and the token id that the two texts denote; `InvalidParameter`
/// where either cannot be read.
pub fn read_taker_and_token(taker: &str, token_id: &str) -> (r: Result<(Address, U256), Error>)
    ensures
        match (address_bytes(taker@), u256_of_text(token_id@)) {
            (Some(bytes), Some(number)) => r matches Ok(read) && read.0@ == bytes && read.1@
                == number,
            _ => r matches Err(Error::InvalidParameter(_)),
        },
{
    let taker_address = match Address::from_str(taker) {
        Some(address) => address,
        None => { return Err(Error::InvalidParameter("Invalid taker address".to_owned())); },
    };
    let u256_token_id = match U256::from_decimal_str(token_id) {
        Some(number) => number,
        None => { return Err(Error::InvalidParameter("Invalid token_id".to_owned())); },
    };
    Ok((taker_address, u256_token_id))
}

/// An order has expiration 0 if and only if it is a market order: a planned
/// limit order lapses at the time it was given, which is not 0, and a
/// planned market order has expiration 0.
pub proof fn lemma_only_market_orders_never_expire<S: EthSigner>(
    builder: OrderBuilder<S>,
    chain_id: u64,
    token_id: Seq<char>,
    side: Side,
    size: DecimalValue,
    price: DecimalValue,
    expiration: Option<u64>,
    extras: ExtraOrderArgs,
    options: CreateOrderOptions,
)
    requires
        builder.plan(chain_id, token_id, side, size, price, expiration, extras, options) is Ok,
    ensures
        builder.plan(
            chain_id,
            token_id,
            side,
            size,
            price,
            expiration,
            extras,
            options,
        )->Ok_0.order.expiration == 0 <==> expiration is None,
{
}

} // verus!
