use sikapa_execution::binary64::Binary64;
use sikapa_execution::order::Side;
use sikapa_execution::pricing::{
    ioc_price, lot_size_for_symbol, round_to_lot, stop_limit_factor, Instrument,
};

fn num(x: f64) -> Binary64 {
    Binary64::from_bits(x.to_bits())
}

fn samples() -> Vec<f64> {
    vec![
        0.0,
        -0.0,
        f64::from_bits(1),
        -f64::from_bits(1),
        f64::MIN_POSITIVE,
        0.0001,
        0.5,
        1.0,
        1.05,
        2367.0,
        -2367.0,
        1e300,
        f64::MAX,
        f64::MIN,
        f64::INFINITY,
        f64::NEG_INFINITY,
        f64::NAN,
        -f64::NAN,
    ]
}

#[test]
fn comparisons_agree_with_doubles() {
    for a in samples() {
        for b in samples() {
            assert_eq!(num(a).less_than(&num(b)), a < b, "{} < {}", a, b);
            assert_eq!(num(a).at_most(&num(b)), a <= b, "{} <= {}", a, b);
        }
        assert_eq!(num(a).is_positive(), a > 0.0, "{} > 0", a);
        assert_eq!(num(a).abs().to_bits(), a.abs().to_bits());
        assert_eq!(num(a).to_bits(), a.to_bits());
    }
    assert_eq!(Binary64::zero().to_bits(), 0.0f64.to_bits());
}

#[test]
fn stop_factors() {
    assert_eq!(stop_limit_factor(true), num(1.05));
    assert_eq!(stop_limit_factor(false), num(0.95));
    assert!(num(1.0).less_than(&stop_limit_factor(true)));
    assert!(stop_limit_factor(false).less_than(&num(1.0)));
}

#[test]
fn lot_sizes() {
    let list = vec![
        Instrument { symbol: "BTC".to_string(), lot_size: num(0.001) },
        Instrument { symbol: "ETH".to_string(), lot_size: num(0.01) },
        Instrument { symbol: "ETH".to_string(), lot_size: num(0.5) },
    ];
    assert_eq!(lot_size_for_symbol(&list, "BTC"), num(0.001));
    assert_eq!(lot_size_for_symbol(&list, "ETH"), num(0.01));
    assert_eq!(lot_size_for_symbol(&list, "SOL"), num(0.001));
    assert_eq!(lot_size_for_symbol(&Vec::new(), "BTC"), num(0.001));
}

#[test]
fn lots_that_are_not_positive_round_nothing() {
    assert_eq!(round_to_lot(num(0.2158), num(0.01), num(0.22)), num(0.22));
    assert_eq!(round_to_lot(num(0.2158), num(0.0), num(9.0)), num(0.2158));
    assert_eq!(round_to_lot(num(0.2158), num(-0.01), num(9.0)), num(0.2158));
}

#[test]
fn ioc_price_crosses_the_book() {
    assert_eq!(ioc_price(Side::Buy, num(101.0), num(98.0)), num(101.0));
    assert_eq!(ioc_price(Side::Sell, num(101.0), num(98.0)), num(98.0));
}
