use sikapa_execution::binary64::Binary64;
use sikapa_execution::order::{
    next_order_id, symbol_to_asset_id, unpack_symbol, OrderRequest, Side, FIRST_ORDER_ID,
};

fn num(x: f64) -> Binary64 {
    Binary64::from_bits(x.to_bits())
}

fn request(counter: &mut u64, symbol: &str) -> OrderRequest {
    OrderRequest::new(counter, symbol, Side::Buy, num(0.5), num(100.0), 250)
}

#[test]
fn side_texts() {
    assert_eq!(Side::Buy.as_str(), "BUY");
    assert_eq!(Side::Sell.as_str(), "SELL");
}

#[test]
fn closing_sides() {
    assert!(!Side::Buy.closes_by_buying());
    assert!(Side::Sell.closes_by_buying());
}

#[test]
fn packed_symbols_are_unpacked() {
    assert_eq!(unpack_symbol(b"SOL\0\0\0\0\0"), "SOL");
    assert_eq!(unpack_symbol(b"xyz:SP50"), "xyz:SP50");
    assert_eq!(unpack_symbol(&[0xff; 8]), "BTC");
}

#[test]
fn asset_ids() {
    assert_eq!(symbol_to_asset_id("BTC"), 0);
    assert_eq!(symbol_to_asset_id("ETH"), 1);
    assert_eq!(symbol_to_asset_id("SOL"), 2);
    assert_eq!(symbol_to_asset_id("AVAX"), 3);
    assert_eq!(symbol_to_asset_id("ARB"), 4);
    assert_eq!(symbol_to_asset_id("DOGE"), 0);
    assert_eq!(symbol_to_asset_id("eth"), 0);
    assert_eq!(symbol_to_asset_id(""), 0);
}

#[test]
fn order_ids_count_up_and_wrap() {
    let mut counter = FIRST_ORDER_ID;
    assert_eq!(next_order_id(&mut counter), 1);
    assert_eq!(next_order_id(&mut counter), 2);
    assert_eq!(next_order_id(&mut counter), 3);
    counter = u64::MAX;
    assert_eq!(next_order_id(&mut counter), u64::MAX);
    assert_eq!(next_order_id(&mut counter), 0);
}

#[test]
fn request_fields() {
    let mut counter = 41;
    let req = request(&mut counter, "SOL");
    assert_eq!(counter, 42);
    assert_eq!(req.id, 41);
    assert_eq!(req.symbol_idx, 2);
    assert_eq!(req.symbol, *b"SOL\0\0\0\0\0");
    assert_eq!(req.symbol_name, "SOL");
    assert_eq!(req.side, Side::Buy);
    assert_eq!(req.quantity, num(0.5));
    assert_eq!(req.price, num(100.0));
    assert_eq!(req.timeout_ms, 250);
    assert_eq!(req.tp_price, num(0.0));
    assert_eq!(req.sl_price, num(0.0));
    assert!(!req.has_bracket());
    let req = req.with_bracket(num(110.0), num(95.0));
    assert_eq!(req.tp_price, num(110.0));
    assert_eq!(req.sl_price, num(95.0));
    assert!(req.has_bracket());
    assert!(!req.with_bracket(num(110.0), num(0.0)).has_bracket());
}

#[test]
fn short_symbols_are_read_back() {
    let mut counter = 1;
    for symbol in ["", "A", "BTC", "12345678", "é", "€uro"] {
        let req = request(&mut counter, symbol);
        assert_eq!(req.symbol_str(), symbol);
    }
}

#[test]
fn long_symbols_are_cut() {
    let mut counter = 1;
    let req = request(&mut counter, "xyz:BRENTOIL");
    assert_eq!(req.symbol_str(), "xyz:BREN");
    assert_eq!(req.symbol_name, "xyz:BRENTOIL");
    let req = request(&mut counter, "xyz:SP500");
    assert_eq!(req.symbol_str(), "xyz:SP50");
    assert_eq!(req.symbol_name, "xyz:SP500");
}

#[test]
fn symbol_cut_inside_a_character_reads_as_btc() {
    let mut counter = 1;
    let req = request(&mut counter, "1234567é");
    assert_eq!(req.symbol_str(), "BTC");
    assert_eq!(req.symbol_name, "1234567é");
}

#[test]
fn symbol_ends_at_a_zero_byte() {
    let mut counter = 1;
    let req = request(&mut counter, "AB\0CD");
    assert_eq!(req.symbol_str(), "AB");
}
