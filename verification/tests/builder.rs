use polymarket_rs::config::{ContractConfig, ContractRegistry};
use polymarket_rs::decimal::Dec;
use polymarket_rs::error::Error;
use polymarket_rs::orders::builder::{
    derive_salt, generate_seed, read_taker_and_token, seed_from, OrderBuilder,
};
use polymarket_rs::orders::rounding::RoundConfig;
use polymarket_rs::primitives::{Address, U256};
use polymarket_rs::signing::{
    sign_order_message, signing_outcome, EthSigner, Order, SigningDomain,
};
use polymarket_rs::types::enums::{Side, SignatureType};
use polymarket_rs::types::order::{
    CreateOrderOptions, ExtraOrderArgs, MarketOrderArgs, OrderArgs, PriceLevel,
    SignedOrderRequest,
};

const SIGNER: &str = "0xd8da6bf26964af9d7eed9e03e53415d37aa96045";
const SIGNER_CHECKSUM: &str = "0xd8dA6BF26964aF9D7eEd9e03E53415D37aA96045";
const FUNDER: &str = "0x5aaeb6053f3e94c9b9a09f33669435e7ef1beaed";
const FUNDER_CHECKSUM: &str = "0x5aAeb6053F3E94C9b9A09f33669435E7Ef1BeAed";
const EXCHANGE: &str = "0xfb6916095ca1df60bb79ce92ce3ea74c37c5d359";
const NEG_RISK_EXCHANGE: &str = "0xdbf03b407c01e7cd3cbea99509d93f8dddc8c6fb";
/// A time at which the limit orders of these tests lapse.
const EXPIRY: u64 = 1_800_000_000;
const TOKEN: &str = "71321045679252212594626385532706912750332728571942532289631379312455583992563";

/// Signs by writing down what it was asked to sign.
struct Recorder {
    account: Address,
    refuse: bool,
}

impl EthSigner for Recorder {
    fn address(&self) -> Address {
        self.account
    }

    fn sign_typed_data(&self, domain: &SigningDomain, order: &Order) -> Result<String, String> {
        if self.refuse {
            return Err("device locked".to_string());
        }
        Ok(format!(
            "{}|{}|{}|{}|{}|{}|{}|{}|{}|{}|{}|{}|{}",
            domain.chain_id,
            domain.verifying_contract.to_checksum(),
            order.maker.to_checksum(),
            order.signer.to_checksum(),
            order.taker.to_checksum(),
            order.token_id.to_decimal_string(),
            order.maker_amount,
            order.taker_amount,
            order.expiration,
            order.nonce.to_decimal_string(),
            order.fee_rate_bps,
            order.side,
            order.signature_type,
        ))
    }
}

fn signer() -> Recorder {
    Recorder { account: Address::from_str(SIGNER).unwrap(), refuse: false }
}

fn contracts() -> ContractRegistry {
    let mut registry = ContractRegistry::new();
    registry.register(
        137,
        false,
        ContractConfig {
            exchange: EXCHANGE.to_string(),
            collateral: "c".to_string(),
            conditional_tokens: "t".to_string(),
        },
    );
    registry.register(
        137,
        true,
        ContractConfig {
            exchange: NEG_RISK_EXCHANGE.to_string(),
            collateral: "c".to_string(),
            conditional_tokens: "t".to_string(),
        },
    );
    registry.register(
        1,
        false,
        ContractConfig {
            exchange: "not an address".to_string(),
            collateral: "c".to_string(),
            conditional_tokens: "t".to_string(),
        },
    );
    registry
}

fn builder() -> OrderBuilder<Recorder> {
    OrderBuilder::new(signer(), None, None).with_contracts(contracts())
}

fn options() -> CreateOrderOptions {
    CreateOrderOptions::new().tick_size(Dec::new(1, 2)).neg_risk(false)
}

fn limit_order() -> OrderArgs {
    OrderArgs::new(TOKEN, Dec::new(536, 3), Dec::new(10_129, 3), Side::Buy)
}

#[test]
fn test_generate_seed() {
    let seed1 = generate_seed().unwrap();
    let seed2 = generate_seed().unwrap();
    // Seeds should be different (very unlikely to be the same)
    assert_ne!(seed1, seed2);
}

#[test]
fn the_salt_is_the_time_scaled_by_the_draw() {
    assert_eq!(derive_salt(1_700_000_000, 0), 0);
    assert_eq!(derive_salt(1_700_000_000, 1 << 63), 850_000_000);
    assert_eq!(derive_salt(1_700_000_000, 1 << 62), 425_000_000);
    assert_eq!(derive_salt(1_700_000_000, u64::MAX), 1_699_999_999);
    assert_eq!(derive_salt(0, u64::MAX), 0);
    assert_eq!(derive_salt(u64::MAX, u64::MAX), u64::MAX - 1);
    assert_eq!(derive_salt(3, 0xc000_0000_0000_0000), 2);
}

#[test]
fn a_builder_defaults_to_eoa_and_to_the_signer_as_funder() {
    let b = OrderBuilder::new(signer(), None, None);
    assert_eq!(b.get_sig_type(), 0);
    let b = OrderBuilder::new(signer(), Some(SignatureType::PolyGnosisSafe), None);
    assert_eq!(b.get_sig_type(), 2);
    let b = OrderBuilder::new(signer(), Some(SignatureType::PolyProxy), None);
    assert_eq!(b.get_sig_type(), 1);
    let request = builder()
        .create_order(137, &limit_order(), EXPIRY, &ExtraOrderArgs::new(), options())
        .unwrap();
    assert_eq!(request.maker, SIGNER_CHECKSUM);
    assert_eq!(request.signer, SIGNER_CHECKSUM);
}

#[test]
fn a_limit_order_is_rendered_field_by_field() {
    let b = OrderBuilder::new(
        signer(),
        Some(SignatureType::PolyProxy),
        Some(Address::from_str(FUNDER).unwrap()),
    )
    .with_contracts(contracts());
    let extras = ExtraOrderArgs::new()
        .fee_rate_bps(25)
        .nonce(U256::from_u64(7))
        .taker("0xFB6916095CA1DF60BB79CE92CE3EA74C37C5D359");
    let request = b.create_order(137, &limit_order(), 1_800_000_000, &extras, options()).unwrap();
    assert_eq!(request.maker, FUNDER_CHECKSUM);
    assert_eq!(request.signer, SIGNER_CHECKSUM);
    assert_eq!(request.taker, "0xfB6916095ca1df60bB79Ce92cE3Ea74c37c5d359");
    assert_eq!(request.token_id, TOKEN);
    assert_eq!(request.maker_amount, "5464800");
    assert_eq!(request.taker_amount, "10120000");
    assert_eq!(request.expiration, "1800000000");
    assert_eq!(request.nonce, "7");
    assert_eq!(request.fee_rate_bps, "25");
    assert_eq!(request.side, "BUY");
    assert_eq!(request.signature_type, 1);
    assert_eq!(
        request.signature,
        format!(
            "137|0xfB6916095ca1df60bB79Ce92cE3Ea74c37c5d359|{}|{}|\
             0xfB6916095ca1df60bB79Ce92cE3Ea74c37c5d359|{}|5464800|10120000|1800000000|7|25|0|1",
            FUNDER_CHECKSUM, SIGNER_CHECKSUM, TOKEN
        )
    );
}

#[test]
fn a_sell_swaps_the_amounts_and_is_signed_as_side_one() {
    let args = OrderArgs::new(TOKEN, Dec::new(536, 3), Dec::new(10_129, 3), Side::Sell);
    let request =
        builder().create_order(137, &args, EXPIRY, &ExtraOrderArgs::new(), options()).unwrap();
    assert_eq!(request.maker_amount, "10120000");
    assert_eq!(request.taker_amount, "5464800");
    assert_eq!(request.side, "SELL");
    assert!(request.signature.ends_with("|10120000|5464800|1800000000|0|0|1|0"));
}

#[test]
fn a_negative_risk_market_is_signed_for_its_own_exchange() {
    let request = builder()
        .create_order(
            137,
            &limit_order(),
            EXPIRY,
            &ExtraOrderArgs::new(),
            CreateOrderOptions::new().tick_size(Dec::new(1, 2)).neg_risk(true),
        )
        .unwrap();
    assert!(request.signature.starts_with("137|0xdbF03B407c01E7cD3CBea99509d93f8DDDC8C6FB|"));
}

#[test]
fn a_later_registration_replaces_an_earlier_one() {
    let mut registry = contracts();
    registry.register(
        137,
        false,
        ContractConfig {
            exchange: NEG_RISK_EXCHANGE.to_string(),
            collateral: "c".to_string(),
            conditional_tokens: "t".to_string(),
        },
    );
    assert_eq!(registry.get_contract_config(137, false).unwrap().exchange, NEG_RISK_EXCHANGE);
    assert_eq!(registry.get_contract_config(137, true).unwrap().exchange, NEG_RISK_EXCHANGE);
    assert_eq!(contracts().get_contract_config(137, false).unwrap().exchange, EXCHANGE);
    assert!(matches!(registry.get_contract_config(138, false), Err(Error::Config(_))));
}

#[test]
fn create_order_needs_the_tick_size() {
    let without = CreateOrderOptions::new().neg_risk(false);
    match builder().create_order(137, &limit_order(), EXPIRY, &ExtraOrderArgs::new(), without) {
        Err(Error::MissingField(name)) => assert_eq!(name, "tick_size"),
        other => panic!("expected MissingField, got {:?}", other),
    }
}

#[test]
fn create_order_needs_the_negative_risk_flag() {
    let without = CreateOrderOptions::new().tick_size(Dec::new(1, 2));
    match builder().create_order(137, &limit_order(), EXPIRY, &ExtraOrderArgs::new(), without) {
        Err(Error::MissingField(name)) => assert_eq!(name, "neg_risk"),
        other => panic!("expected MissingField, got {:?}", other),
    }
}

#[test]
fn a_missing_option_is_reported_before_anything_else() {
    let bad_args = OrderArgs::new("no token", Dec::new(-1, 0), Dec::new(-1, 0), Side::Buy);
    let bad_extras = ExtraOrderArgs::new().taker("nobody");
    let b = OrderBuilder::new(signer(), None, None);
    for without in [
        CreateOrderOptions::new(),
        CreateOrderOptions::new().neg_risk(true),
        CreateOrderOptions::new().tick_size(Dec::new(5, 0)),
    ] {
        assert!(matches!(
            b.create_order(0, &bad_args, 0, &bad_extras, without),
            Err(Error::MissingField(_))
        ));
        let market = MarketOrderArgs::new("no token", Dec::new(-1, 0), Side::Sell);
        assert!(matches!(
            b.create_market_order(0, &market, Dec::new(-1, 0), &bad_extras, without),
            Err(Error::MissingField(_))
        ));
    }
}

#[test]
fn an_unsupported_tick_size_is_an_invalid_parameter() {
    let odd = CreateOrderOptions::new().tick_size(Dec::new(5, 2)).neg_risk(false);
    assert!(matches!(
        builder().create_order(137, &limit_order(), EXPIRY, &ExtraOrderArgs::new(), odd),
        Err(Error::InvalidParameter(_))
    ));
}

#[test]
fn an_amount_out_of_range_is_an_invalid_parameter() {
    let args = OrderArgs::new(TOKEN, Dec::new(5, 1), Dec::new(5000, 0), Side::Buy);
    assert!(matches!(
        builder().create_order(137, &args, EXPIRY, &ExtraOrderArgs::new(), options()),
        Err(Error::InvalidParameter(_))
    ));
}

#[test]
fn an_unregistered_chain_is_a_configuration_error() {
    assert!(matches!(
        builder().create_order(5, &limit_order(), EXPIRY, &ExtraOrderArgs::new(), options()),
        Err(Error::Config(_))
    ));
    let bare = OrderBuilder::new(signer(), None, None);
    assert!(matches!(
        bare.create_order(137, &limit_order(), EXPIRY, &ExtraOrderArgs::new(), options()),
        Err(Error::Config(_))
    ));
}

#[test]
fn a_malformed_exchange_address_is_a_configuration_error() {
    assert!(matches!(
        builder().create_order(1, &limit_order(), EXPIRY, &ExtraOrderArgs::new(), options()),
        Err(Error::Config(_))
    ));
}

#[test]
fn a_malformed_taker_is_an_invalid_parameter() {
    let extras = ExtraOrderArgs::new().taker("0x1234");
    assert!(matches!(
        builder().create_order(137, &limit_order(), EXPIRY, &extras, options()),
        Err(Error::InvalidParameter(_))
    ));
}

#[test]
fn a_malformed_token_id_is_an_invalid_parameter() {
    let args = OrderArgs::new("0xabc", Dec::new(5, 1), Dec::new(10, 0), Side::Buy);
    assert!(matches!(
        builder().create_order(137, &args, EXPIRY, &ExtraOrderArgs::new(), options()),
        Err(Error::InvalidParameter(_))
    ));
}

#[test]
fn a_refusal_of_the_signer_is_handed_on_as_it_came() {
    let refusing = Recorder { account: Address::from_str(SIGNER).unwrap(), refuse: true };
    let b = OrderBuilder::new(refusing, None, None).with_contracts(contracts());
    match b.create_order(137, &limit_order(), EXPIRY, &ExtraOrderArgs::new(), options()) {
        Err(Error::SigningFailure(reason)) => assert_eq!(reason, "device locked"),
        other => panic!("expected SigningFailure, got {:?}", other),
    }
}

#[test]
fn the_outcome_of_signing_keeps_signature_and_reason() {
    assert_eq!(signing_outcome(Ok("0xabc".to_string())).unwrap(), "0xabc");
    match signing_outcome(Err("timeout".to_string())) {
        Err(Error::SigningFailure(reason)) => assert_eq!(reason, "timeout"),
        other => panic!("expected SigningFailure, got {:?}", other),
    }
}

#[test]
fn the_signer_is_given_chain_and_exchange() {
    let order = Order {
        salt: 5,
        maker: Address::zero(),
        signer: Address::zero(),
        taker: Address::zero(),
        token_id: U256::from_u64(1),
        maker_amount: 2,
        taker_amount: 3,
        expiration: 4,
        nonce: U256::zero(),
        fee_rate_bps: 6,
        side: 1,
        signature_type: 2,
    };
    let exchange = Address::from_str(EXCHANGE).unwrap();
    let signature = sign_order_message(&signer(), &order, 80002, exchange).unwrap();
    assert!(signature.starts_with("80002|0xfB6916095ca1df60bB79Ce92cE3Ea74c37c5d359|"));
    assert!(signature.ends_with("|1|2|3|4|0|6|1|2"));
}

#[test]
fn two_orders_from_the_same_arguments_differ_in_their_salt() {
    let b = builder();
    let first = b.create_order(137, &limit_order(), EXPIRY, &ExtraOrderArgs::new(), options()).unwrap();
    let second =
        b.create_order(137, &limit_order(), EXPIRY, &ExtraOrderArgs::new(), options()).unwrap();
    assert_ne!(first.salt, second.salt);
    assert_eq!(first.maker_amount, second.maker_amount);
    assert_eq!(first.taker_amount, second.taker_amount);
}

#[test]
fn a_market_order_never_expires() {
    let b = builder();
    for side in [Side::Buy, Side::Sell] {
        let args = MarketOrderArgs::new(TOKEN, Dec::new(25, 0), side);
        let request = b
            .create_market_order(137, &args, Dec::new(53, 2), &ExtraOrderArgs::new(), options())
            .unwrap();
        assert_eq!(request.expiration, "0");
        assert!(request.signature.contains("|0|0|0|"));
    }
}

#[test]
fn a_market_order_is_scaled_like_a_limit_order() {
    let args = MarketOrderArgs::new(TOKEN, Dec::new(25, 0), Side::Buy);
    let request = builder()
        .create_market_order(137, &args, Dec::new(53, 2), &ExtraOrderArgs::new(), options())
        .unwrap();
    assert_eq!(request.maker_amount, "13250000");
    assert_eq!(request.taker_amount, "25000000");
    assert_eq!(request.side, "BUY");
    assert_eq!(request.taker, "0x0000000000000000000000000000000000000000");
    assert_eq!(request.nonce, "0");
    assert_eq!(request.fee_rate_bps, "0");
    assert_eq!(request.signature_type, 0);
}

#[test]
fn the_builder_prices_a_market_order_by_walking_the_book() {
    let positions = vec![
        PriceLevel { price: Dec::new(50, 2), size: Dec::new(10, 0) },
        PriceLevel { price: Dec::new(55, 2), size: Dec::new(20, 0) },
    ];
    let b = builder();
    let price = b.calculate_market_price(&positions, Dec::new(25, 0), Side::Buy).unwrap();
    assert_eq!(price, Dec::new(53, 2));
    let args = MarketOrderArgs::new(TOKEN, Dec::new(25, 0), Side::Buy);
    let request =
        b.create_market_order(137, &args, price, &ExtraOrderArgs::new(), options()).unwrap();
    assert_eq!(request.maker_amount, "13250000");
}

#[test]
fn the_builder_scales_amounts_by_the_given_configuration() {
    let b = builder();
    let config = RoundConfig::for_tick_size(Dec::new(1, 3)).unwrap();
    assert_eq!(
        b.get_order_amounts(Side::Buy, Dec::new(10_129, 3), Dec::new(5365, 4), &config).unwrap(),
        (5_424_320, 10_120_000)
    );
    assert_eq!(
        b.get_market_order_amounts(Side::Sell, Dec::new(10_129, 3), Dec::new(5365, 4), &config)
            .unwrap(),
        (10_120_000, 5_424_320)
    );
}

#[test]
fn a_request_is_rendered_from_an_order() {
    let order = Order {
        salt: 99,
        maker: Address::from_str(FUNDER).unwrap(),
        signer: Address::from_str(SIGNER).unwrap(),
        taker: Address::zero(),
        token_id: U256::from_u64(1234),
        maker_amount: 4_294_967_295,
        taker_amount: 0,
        expiration: u64::MAX,
        nonce: U256 { limbs: [0, 1, 0, 0] },
        fee_rate_bps: 10_000,
        side: 1,
        signature_type: 2,
    };
    let request: SignedOrderRequest =
        SignedOrderRequest::from_order(&order, "1_234".to_string(), Side::Sell, "0xsig".to_string());
    assert_eq!(request.salt, 99);
    assert_eq!(request.maker, FUNDER_CHECKSUM);
    assert_eq!(request.signer, SIGNER_CHECKSUM);
    assert_eq!(request.taker, "0x0000000000000000000000000000000000000000");
    assert_eq!(request.token_id, "1_234");
    assert_eq!(request.maker_amount, "4294967295");
    assert_eq!(request.taker_amount, "0");
    assert_eq!(request.expiration, "18446744073709551615");
    assert_eq!(request.nonce, "18446744073709551616");
    assert_eq!(request.fee_rate_bps, "10000");
    assert_eq!(request.side, "SELL");
    assert_eq!(request.signature_type, 2);
    assert_eq!(request.signature, "0xsig");
}

#[test]
fn the_seed_is_the_salt_of_clock_and_draw() {
    assert_eq!(seed_from(Ok(1_700_000_000), 1 << 63).unwrap(), 850_000_000);
    assert_eq!(seed_from(Ok(0), 12345).unwrap(), 0);
    match seed_from(Err(Error::Config("no clock".to_string())), 7) {
        Err(Error::Config(reason)) => assert_eq!(reason, "no clock"),
        other => panic!("expected Config, got {:?}", other),
    }
}

#[test]
fn an_order_is_assembled_for_any_salt() {
    let b = OrderBuilder::new(
        signer(),
        Some(SignatureType::PolyGnosisSafe),
        Some(Address::from_str(FUNDER).unwrap()),
    );
    let extras = ExtraOrderArgs::new().fee_rate_bps(3).nonce(U256::from_u64(4));
    let taker = Address::from_str(EXCHANGE).unwrap();
    let order =
        b.assemble_order(99, taker, U256::from_u64(12_345), Side::Sell, 10, 20, 30, &extras);
    assert_eq!(order.salt, 99);
    assert_eq!(order.maker, Address::from_str(FUNDER).unwrap());
    assert_eq!(order.signer, Address::from_str(SIGNER).unwrap());
    assert_eq!(order.taker, taker);
    assert_eq!(order.token_id, U256::from_u64(12_345));
    assert_eq!((order.maker_amount, order.taker_amount), (10, 20));
    assert_eq!(order.expiration, 30);
    assert_eq!(order.nonce, U256::from_u64(4));
    assert_eq!(order.fee_rate_bps, 3);
    assert_eq!(order.side, 1);
    assert_eq!(order.signature_type, 2);
    let bare = OrderBuilder::new(signer(), None, None);
    let order = bare.assemble_order(0, Address::zero(), U256::zero(), Side::Buy, 0, 0, 0, &extras);
    assert_eq!(order.maker, Address::from_str(SIGNER).unwrap());
    assert_eq!(order.signer, Address::from_str(SIGNER).unwrap());
    assert_eq!((order.side, order.signature_type), (0, 0));
}

#[test]
fn taker_and_token_id_are_read_together() {
    let (taker, token) = read_taker_and_token(EXCHANGE, "12_345").unwrap();
    assert_eq!(taker, Address::from_str(EXCHANGE).unwrap());
    assert_eq!(token, U256::from_u64(12_345));
    assert!(matches!(read_taker_and_token(EXCHANGE, "12.5"), Err(Error::InvalidParameter(_))));
    assert!(matches!(read_taker_and_token("0x", "1"), Err(Error::InvalidParameter(_))));
    assert!(matches!(read_taker_and_token("0x", "x"), Err(Error::InvalidParameter(_))));
}

#[test]
fn a_limit_order_without_expiration_is_an_invalid_parameter() {
    assert!(matches!(
        builder().create_order(137, &limit_order(), 0, &ExtraOrderArgs::new(), options()),
        Err(Error::InvalidParameter(_))
    ));
    let request = builder()
        .create_order(137, &limit_order(), 1, &ExtraOrderArgs::new(), options())
        .unwrap();
    assert_eq!(request.expiration, "1");
    let request = builder()
        .create_order(137, &limit_order(), u64::MAX, &ExtraOrderArgs::new(), options())
        .unwrap();
    assert_eq!(request.expiration, "18446744073709551615");
}

#[test]
fn a_missing_option_is_reported_before_a_missing_expiration() {
    let without = CreateOrderOptions::new().tick_size(Dec::new(1, 2));
    assert!(matches!(
        builder().create_order(137, &limit_order(), 0, &ExtraOrderArgs::new(), without),
        Err(Error::MissingField(_))
    ));
}

#[test]
fn a_missing_expiration_is_reported_before_the_signer_is_asked() {
    let refusing = Recorder { account: Address::from_str(SIGNER).unwrap(), refuse: true };
    let b = OrderBuilder::new(refusing, None, None).with_contracts(contracts());
    assert!(matches!(
        b.create_order(137, &limit_order(), 0, &ExtraOrderArgs::new(), options()),
        Err(Error::InvalidParameter(_))
    ));
}

/// Signs by writing down the salt it was asked to sign.
struct SaltRecorder;

impl EthSigner for SaltRecorder {
    fn address(&self) -> Address {
        Address::zero()
    }

    fn sign_typed_data(&self, _domain: &SigningDomain, order: &Order) -> Result<String, String> {
        Ok(order.salt.to_string())
    }
}

#[test]
fn the_salt_of_the_request_is_the_salt_that_was_signed() {
    let b = OrderBuilder::new(SaltRecorder, None, None).with_contracts(contracts());
    for _ in 0..20 {
        let request =
            b.create_order(137, &limit_order(), EXPIRY, &ExtraOrderArgs::new(), options()).unwrap();
        assert_eq!(request.signature, request.salt.to_string());
        let market = MarketOrderArgs::new(TOKEN, Dec::new(25, 0), Side::Sell);
        let request = b
            .create_market_order(137, &market, Dec::new(53, 2), &ExtraOrderArgs::new(), options())
            .unwrap();
        assert_eq!(request.signature, request.salt.to_string());
    }
}

#[test]
fn the_address_of_the_signer_is_the_address_of_every_order() {
    let other = Recorder { account: Address::from_str(FUNDER).unwrap(), refuse: false };
    let request = OrderBuilder::new(other, None, None)
        .with_contracts(contracts())
        .create_order(137, &limit_order(), EXPIRY, &ExtraOrderArgs::new(), options())
        .unwrap();
    assert_eq!(request.signer, FUNDER_CHECKSUM);
    assert_eq!(request.maker, FUNDER_CHECKSUM);
    let funded = Recorder { account: Address::from_str(FUNDER).unwrap(), refuse: false };
    let request =
        OrderBuilder::new(funded, None, Some(Address::from_str(SIGNER).unwrap()))
            .with_contracts(contracts())
            .create_order(137, &limit_order(), EXPIRY, &ExtraOrderArgs::new(), options())
            .unwrap();
    assert_eq!(request.signer, FUNDER_CHECKSUM);
    assert_eq!(request.maker, SIGNER_CHECKSUM);
}

#[test]
fn a_seed_is_below_the_time_it_was_made_at() {
    let before = polymarket_rs::utils::get_current_unix_time_secs().unwrap();
    let seed = generate_seed().unwrap();
    let after = polymarket_rs::utils::get_current_unix_time_secs().unwrap();
    assert!(before <= after);
    assert!(seed <= after);
}

#[test]
fn an_order_without_an_exchange_is_a_configuration_error_whatever_its_expiration() {
    assert!(matches!(
        builder().create_order(5, &limit_order(), 0, &ExtraOrderArgs::new(), options()),
        Err(Error::Config(_))
    ));
    assert!(matches!(
        builder().create_order(1, &limit_order(), 0, &ExtraOrderArgs::new(), options()),
        Err(Error::Config(_))
    ));
    let bare = OrderBuilder::new(signer(), None, None);
    assert!(matches!(
        bare.create_order(137, &limit_order(), 0, &ExtraOrderArgs::new(), options()),
        Err(Error::Config(_))
    ));
}

#[test]
fn a_missing_expiration_is_reported_before_an_unreadable_taker_or_token() {
    let bad_extras = ExtraOrderArgs::new().taker("nobody");
    let bad_args = OrderArgs::new("no token", Dec::new(5, 1), Dec::new(10, 0), Side::Buy);
    assert!(matches!(
        builder().create_order(137, &bad_args, 0, &bad_extras, options()),
        Err(Error::InvalidParameter(_))
    ));
    let odd = CreateOrderOptions::new().tick_size(Dec::new(5, 2)).neg_risk(false);
    assert!(matches!(
        builder().create_order(5, &limit_order(), 0, &ExtraOrderArgs::new(), odd),
        Err(Error::InvalidParameter(_))
    ));
}
