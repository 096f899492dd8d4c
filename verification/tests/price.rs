use polymarket_rs::decimal::Dec;
use polymarket_rs::error::Error;
use polymarket_rs::orders::price::calculate_market_price;
use polymarket_rs::types::enums::Side;
use polymarket_rs::types::order::{OrderBookSummary, PriceLevel};

fn order(price: Dec, size: Dec) -> PriceLevel {
    PriceLevel { price, size }
}

#[test]
fn test_weighted_avg_price_buy() {
    // 10 shares @ 0.50, 20 shares @ 0.55
    let positions = vec![
        order(Dec::new(50, 2), Dec::new(10, 0)),
        order(Dec::new(55, 2), Dec::new(20, 0)),
    ];

    // Buy 25 shares: (10*0.50 + 15*0.55) / 25 = 13.25 / 25 = 0.53
    let price = calculate_market_price(&positions, Dec::new(25, 0), Side::Buy).unwrap();
    assert_eq!(price, Dec::new(53, 2));
}

#[test]
fn test_weighted_avg_price_sell() {
    // Sells walk from highest to lowest
    let positions = vec![
        order(Dec::new(50, 2), Dec::new(10, 0)),
        order(Dec::new(55, 2), Dec::new(20, 0)),
    ];

    // Sell 25 shares: (20*0.55 + 5*0.50) / 25 = 13.50 / 25 = 0.54
    let price = calculate_market_price(&positions, Dec::new(25, 0), Side::Sell).unwrap();
    assert_eq!(price, Dec::new(54, 2));
}

#[test]
fn test_single_tick() {
    let positions = vec![order(Dec::new(50, 2), Dec::new(100, 0))];
    let price = calculate_market_price(&positions, Dec::new(50, 0), Side::Buy).unwrap();
    assert_eq!(price, Dec::new(50, 2));
}

#[test]
fn test_insufficient_liquidity() {
    let positions = vec![order(Dec::new(50, 2), Dec::new(10, 0))];
    let result = calculate_market_price(&positions, Dec::new(20, 0), Side::Buy);
    assert!(result.is_err());
}

#[test]
fn insufficient_liquidity_carries_the_shares_asked_for() {
    let positions = vec![order(Dec::new(50, 2), Dec::new(10, 0))];
    match calculate_market_price(&positions, Dec::new(20, 0), Side::Buy) {
        Err(Error::InsufficientLiquidity(shares)) => assert_eq!(shares, Dec::new(20, 0)),
        other => panic!("expected InsufficientLiquidity, got {:?}", other),
    }
}

#[test]
fn an_empty_book_has_no_price() {
    let positions: Vec<PriceLevel> = Vec::new();
    assert!(matches!(
        calculate_market_price(&positions, Dec::new(1, 0), Side::Sell),
        Err(Error::InsufficientLiquidity(_))
    ));
}

#[test]
fn the_walk_is_the_same_every_time() {
    let positions = vec![
        order(Dec::new(61, 2), Dec::new(7, 0)),
        order(Dec::new(58, 2), Dec::new(3, 0)),
        order(Dec::new(60, 2), Dec::new(5, 0)),
    ];
    let first = calculate_market_price(&positions, Dec::new(9, 0), Side::Buy).unwrap();
    let second = calculate_market_price(&positions, Dec::new(9, 0), Side::Buy).unwrap();
    assert_eq!(first, second);
    assert_eq!(first.mantissa(), second.mantissa());
    assert_eq!(first.scale(), second.scale());
}

#[test]
fn a_buy_takes_the_cheapest_levels_whatever_their_order() {
    // 3 @ 0.58, 5 @ 0.60, 1 @ 0.61: (1.74 + 3.00 + 0.61) / 9 = 5.35 / 9
    let positions = vec![
        order(Dec::new(61, 2), Dec::new(7, 0)),
        order(Dec::new(58, 2), Dec::new(3, 0)),
        order(Dec::new(60, 2), Dec::new(5, 0)),
    ];
    let price = calculate_market_price(&positions, Dec::new(9, 0), Side::Buy).unwrap();
    let expected = Dec::new(535, 2).checked_div(Dec::new(9, 0)).unwrap();
    assert_eq!(price, expected);
}

#[test]
fn a_sell_takes_the_dearest_levels_first() {
    // 7 @ 0.61, 2 @ 0.60: (4.27 + 1.20) / 9 = 5.47 / 9
    let positions = vec![
        order(Dec::new(58, 2), Dec::new(3, 0)),
        order(Dec::new(61, 2), Dec::new(7, 0)),
        order(Dec::new(60, 2), Dec::new(5, 0)),
    ];
    let price = calculate_market_price(&positions, Dec::new(9, 0), Side::Sell).unwrap();
    let expected = Dec::new(547, 2).checked_div(Dec::new(9, 0)).unwrap();
    assert_eq!(price, expected);
}

#[test]
fn a_fill_that_ends_on_a_level_boundary_stops_there() {
    let positions = vec![
        order(Dec::new(40, 2), Dec::new(10, 0)),
        order(Dec::new(90, 2), Dec::new(10, 0)),
    ];
    let price = calculate_market_price(&positions, Dec::new(10, 0), Side::Buy).unwrap();
    assert_eq!(price, Dec::new(40, 2));
}

#[test]
fn sizes_with_fractions_are_filled_exactly() {
    // 1.5 @ 0.20 and 1.0 @ 0.30: (0.30 + 0.30) / 2.5 = 0.24
    let positions = vec![
        order(Dec::new(20, 2), Dec::new(15, 1)),
        order(Dec::new(30, 2), Dec::new(40, 1)),
    ];
    let price = calculate_market_price(&positions, Dec::new(25, 1), Side::Buy).unwrap();
    assert_eq!(price, Dec::new(24, 2));
}

#[test]
fn zero_shares_of_a_book_with_a_level_is_an_invalid_parameter() {
    let positions = vec![order(Dec::new(50, 2), Dec::new(10, 0))];
    assert!(matches!(
        calculate_market_price(&positions, Dec::new(0, 0), Side::Buy),
        Err(Error::InvalidParameter(_))
    ));
}

#[test]
fn a_cost_beyond_the_mantissa_is_an_invalid_parameter() {
    let huge = Dec::from_parts(79_228_162_514_264_337_593_543_950_335, 0).unwrap();
    let positions = vec![order(huge, huge)];
    assert!(matches!(
        calculate_market_price(&positions, huge, Side::Buy),
        Err(Error::InvalidParameter(_))
    ));
}

#[test]
fn the_book_prices_a_buy_on_its_asks_and_a_sell_on_its_bids() {
    let book = OrderBookSummary {
        market: "m".to_string(),
        asset_id: "a".to_string(),
        hash: "h".to_string(),
        timestamp: 1,
        bids: vec![order(Dec::new(40, 2), Dec::new(10, 0))],
        asks: vec![order(Dec::new(60, 2), Dec::new(10, 0))],
    };
    assert_eq!(
        book.calculate_market_price(Side::Buy, Dec::new(5, 0)).unwrap(),
        Dec::new(60, 2)
    );
    assert_eq!(
        book.calculate_market_price(Side::Sell, Dec::new(5, 0)).unwrap(),
        Dec::new(40, 2)
    );
}

fn every_order_of_three(levels: [PriceLevel; 3]) -> Vec<Vec<PriceLevel>> {
    let [a, b, c] = levels;
    vec![
        vec![a, b, c],
        vec![a, c, b],
        vec![b, a, c],
        vec![b, c, a],
        vec![c, a, b],
        vec![c, b, a],
    ]
}

#[test]
fn the_price_does_not_depend_on_the_listing_order() {
    let levels = [
        order(Dec::new(60, 2), Dec::new(5, 0)),
        order(Dec::new(58, 2), Dec::new(3, 0)),
        order(Dec::new(60, 2), Dec::new(7, 0)),
    ];
    for side in [Side::Buy, Side::Sell] {
        for shares in [1i64, 3, 4, 8, 12, 15] {
            let expected =
                calculate_market_price(&levels, Dec::new(shares, 0), side).unwrap();
            for book in every_order_of_three(levels) {
                let price = calculate_market_price(&book, Dec::new(shares, 0), side).unwrap();
                assert_eq!(price, expected);
            }
        }
        for book in every_order_of_three(levels) {
            assert!(matches!(
                calculate_market_price(&book, Dec::new(16, 0), side),
                Err(Error::InsufficientLiquidity(_))
            ));
        }
    }
}

#[test]
fn no_other_fill_is_cheaper_for_a_buy_or_dearer_for_a_sell() {
    // sizes 3 @ 0.58, 5 @ 0.60, 7 @ 0.61; every way to take 9 shares in whole numbers
    let levels = [
        order(Dec::new(61, 2), Dec::new(7, 0)),
        order(Dec::new(58, 2), Dec::new(3, 0)),
        order(Dec::new(60, 2), Dec::new(5, 0)),
    ];
    let buy = calculate_market_price(&levels, Dec::new(9, 0), Side::Buy).unwrap();
    let sell = calculate_market_price(&levels, Dec::new(9, 0), Side::Sell).unwrap();
    let paid = buy.checked_mul(Dec::new(9, 0)).unwrap();
    let received = sell.checked_mul(Dec::new(9, 0)).unwrap();
    for at_61 in 0..=7i64 {
        for at_58 in 0..=3i64 {
            let at_60 = 9 - at_61 - at_58;
            if !(0..=5).contains(&at_60) {
                continue;
            }
            let cost = Dec::new(61 * at_61 + 58 * at_58 + 60 * at_60, 2);
            assert!(!cost.lt(&Dec::new(535, 2)));
            assert!(!cost.gt(&Dec::new(547, 2)));
        }
    }
    // the walk's own costs, up to the rounding of the division
    assert!(!paid.gt(&Dec::new(5351, 3)) && !paid.lt(&Dec::new(5349, 3)));
    assert!(!received.gt(&Dec::new(5471, 3)) && !received.lt(&Dec::new(5469, 3)));
}
