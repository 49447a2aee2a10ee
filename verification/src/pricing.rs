//! Prices and quantities: which number applies. The caller does the arithmetic.
use crate::binary64::{lemma_magnitude_order, Binary64};
use crate::order::Side;
use crate::text::same_text;
use vstd::prelude::*;

verus! {

/// An instrument and its lot size.
#[derive(Debug)]
pub struct Instrument {
    pub symbol: String,
    pub lot_size: Binary64,
}

/// 0.001, the lot size of an instrument that is not listed.
pub const DEFAULT_LOT_BITS: u64 = 0x3f50_624d_d2f1_a9fc;

/// The lot size of the first listed instrument of that symbol.
pub open spec fn lot_size_of(instruments: Seq<Instrument>, symbol: Seq<char>) -> Binary64
    decreases instruments.len(),
{
    if instruments.len() == 0 {
        Binary64 { bits: DEFAULT_LOT_BITS }
    } else if instruments[0].symbol@ == symbol {
        instruments[0].lot_size
    } else {
        lot_size_of(instruments.skip(1), symbol)
    }
}

pub fn lot_size_for_symbol(instruments: &Vec<Instrument>, symbol: &str) -> (r: Binary64)
    ensures
        r == lot_size_of(instruments@, symbol@),
{
    let mut i: usize = 0;
    assert(instruments@.skip(0) =~= instruments@);
    while i < instruments.len()
        invariant
            i <= instruments@.len(),
            lot_size_of(instruments@, symbol@) == lot_size_of(
                instruments@.skip(i as int),
                symbol@,
            ),
        decreases instruments@.len() - i,
    {
        assert(instruments@.skip(i as int)[0] == instruments@[i as int]);
        assert(instruments@.skip(i as int).skip(1) =~= instruments@.skip(i + 1));
        if same_text(instruments[i].symbol.as_str(), symbol) {
            return instruments[i].lot_size;
        }
        i += 1;
    }
    Binary64::from_bits(DEFAULT_LOT_BITS)
}

/// The quantity to send: the nearest multiple of the lot size, or the quantity as
/// it is where the lot size is not positive.
pub open spec fn rounded_quantity(
    qty: Binary64,
    lot_size: Binary64,
    nearest_multiple: Binary64,
) -> Binary64 {
    if lot_size.le_spec(Binary64 { bits: 0 }) {
        qty
    } else {
        nearest_multiple
    }
}

pub fn round_to_lot(qty: Binary64, lot_size: Binary64, nearest_multiple: Binary64) -> (r: Binary64)
    ensures
        r == rounded_quantity(qty, lot_size, nearest_multiple),
{
    if lot_size.at_most(&Binary64::zero()) {
        qty
    } else {
        nearest_multiple
    }
}

/// The limit of an immediate-or-cancel order, past the other side of the book: the
/// ask plus the slippage buffer for a buy, the bid minus the buffer for a sale.
pub fn ioc_price(side: Side, ask_plus_buffer: Binary64, bid_minus_buffer: Binary64) -> (r: Binary64)
    ensures
        r == (match side {
            Side::Buy => ask_plus_buffer,
            Side::Sell => bid_minus_buffer,
        }),
{
    match side {
        Side::Buy => ask_plus_buffer,
        Side::Sell => bid_minus_buffer,
    }
}

/// 1.
pub const ONE_BITS: u64 = 0x3ff0_0000_0000_0000;

/// 1.05, which a stop that buys multiplies its trigger price by.
pub const BUY_STOP_FACTOR_BITS: u64 = 0x3ff0_cccc_cccc_cccd;

/// 0.95, which a stop that sells multiplies its trigger price by.
pub const SELL_STOP_FACTOR_BITS: u64 = 0x3fee_6666_6666_6666;

/// The factor that takes a stop's trigger price to its limit price.
pub open spec fn stop_factor(is_buy: bool) -> Binary64 {
    if is_buy {
        Binary64 { bits: BUY_STOP_FACTOR_BITS }
    } else {
        Binary64 { bits: SELL_STOP_FACTOR_BITS }
    }
}

/// The factor from a stop's trigger price to its limit price, which leaves room
/// for a market that jumps past the trigger.
pub fn stop_limit_factor(is_buy: bool) -> (r: Binary64)
    ensures
        r == stop_factor(is_buy),
{
    if is_buy {
        Binary64::from_bits(BUY_STOP_FACTOR_BITS)
    } else {
        Binary64::from_bits(SELL_STOP_FACTOR_BITS)
    }
}

/// The limit lies beyond the trigger: above it for a stop that buys, below it for
/// one that sells.
pub proof fn law_stop_limit_is_wider(is_buy: bool)
    ensures
        is_buy ==> (Binary64 { bits: ONE_BITS }).lt_spec(stop_factor(is_buy)),
        !is_buy ==> stop_factor(is_buy).lt_spec(Binary64 { bits: ONE_BITS }),
        stop_factor(is_buy).positive(),
{
    lemma_magnitude_order(ONE_BITS as nat, BUY_STOP_FACTOR_BITS as nat);
    lemma_magnitude_order(SELL_STOP_FACTOR_BITS as nat, ONE_BITS as nat);
    lemma_magnitude_order(0, BUY_STOP_FACTOR_BITS as nat);
    lemma_magnitude_order(0, SELL_STOP_FACTOR_BITS as nat);
}

} // verus!
