//! Orders, requests and tracked positions.
use crate::binary64::Binary64;
use crate::text::same_text;
use vstd::prelude::*;
use vstd::slice::slice_subrange;
use vstd::utf8::{decode_utf8, encode_utf8, is_char_boundary, valid_utf8};
use vstd::utf8::{length_of_first_scalar, pop_first_scalar};

verus! {

/// The first id that a fresh counter hands out.
pub const FIRST_ORDER_ID: u64 = 1;

/// The id that a counter at `start` hands out on its call number `k`, counted
/// from zero.
pub open spec fn id_at(start: u64, k: nat) -> u64 {
    ((start + k) % 0x1_0000_0000_0000_0000) as u64
}

/// Hands out the counter's value and moves the counter on by one, wrapping
/// after the largest id.
pub fn next_order_id(counter: &mut u64) -> (id: u64)
    ensures
        id == *old(counter),
        *final(counter) == id_at(*old(counter), 1),
{
    let id: u64 = *counter;
    *counter = id.wrapping_add(1);
    id
}

/// Calls of one counter that lie fewer than 2^64 calls apart hand out
/// different ids.
pub proof fn law_order_ids_distinct(start: u64, i: nat, j: nat)
    requires
        i < j,
        j - i < 0x1_0000_0000_0000_0000,
    ensures
        id_at(start, i) != id_at(start, j),
{
}

/// After `k` calls the counter stands at the id of call number `k`.
pub proof fn law_order_ids_consecutive(start: u64, k: nat)
    ensures
        id_at(start, 0) == start,
        id_at(id_at(start, k), 1) == id_at(start, k + 1),
{
}

#[derive(Clone, Copy, Debug, PartialEq, Eq, Structural)]
pub enum Side {
    Buy,
    Sell,
}

impl Side {
    pub fn as_str(&self) -> (r: &'static str)
        ensures
            r@ == (match *self {
                Side::Buy => "BUY"@,
                Side::Sell => "SELL"@,
            }),
    {
        match self {
            Side::Buy => "BUY",
            Side::Sell => "SELL",
        }
    }

    /// Is a position that was opened on this side closed by buying?
    pub fn closes_by_buying(&self) -> (r: bool)
        ensures
            r == (*self == Side::Sell),
    {
        match self {
            Side::Buy => false,
            Side::Sell => true,
        }
    }
}

#[derive(Clone, Copy, Debug, PartialEq, Eq, Structural)]
pub enum OrderStatus {
    Pending,
    Open,
    Filled,
    PartialFill,
    Cancelled,
    Rejected,
    TimedOut,
}

/// The exchange's asset number of a symbol; unknown symbols count as the first.
pub open spec fn asset_id(symbol: Seq<char>) -> u8 {
    if symbol == "ETH"@ {
        1
    } else if symbol == "SOL"@ {
        2
    } else if symbol == "AVAX"@ {
        3
    } else if symbol == "ARB"@ {
        4
    } else {
        0
    }
}

pub fn symbol_to_asset_id(symbol: &str) -> (r: u8)
    ensures
        r == asset_id(symbol@),
{
    if same_text(symbol, "ETH") {
        1
    } else if same_text(symbol, "SOL") {
        2
    } else if same_text(symbol, "AVAX") {
        3
    } else if same_text(symbol, "ARB") {
        4
    } else {
        0
    }
}

/// A symbol in eight bytes: cut off after eight, filled up with zeros.
pub open spec fn packed_symbol(symbol: Seq<char>) -> Seq<u8> {
    let bytes = encode_utf8(symbol);
    Seq::new(
        8,
        |i: int|
            if i < bytes.len() {
                bytes[i]
            } else {
                0u8
            },
    )
}

/// The bytes before the first zero.
pub open spec fn before_zero(bytes: Seq<u8>) -> Seq<u8>
    decreases bytes.len(),
{
    if bytes.len() == 0 || bytes[0] == 0 {
        Seq::empty()
    } else {
        seq![bytes[0]] + before_zero(bytes.skip(1))
    }
}

/// The text of a packed symbol; `BTC` where the bytes are not UTF-8.
pub open spec fn symbol_text(packed: Seq<u8>) -> Seq<char> {
    let bytes = before_zero(packed);
    if valid_utf8(bytes) {
        decode_utf8(bytes)
    } else {
        "BTC"@
    }
}

proof fn lemma_before_zero_prefix(bytes: Seq<u8>, end: int)
    requires
        0 <= end <= bytes.len(),
        forall|j: int| 0 <= j < end ==> bytes[j] != 0,
        end < bytes.len() ==> bytes[end] == 0,
    ensures
        before_zero(bytes) == bytes.take(end),
    decreases bytes.len(),
{
    if end > 0 {
        assert forall|j: int| 0 <= j < end - 1 implies bytes.skip(1)[j] != 0 by {
            assert(bytes.skip(1)[j] == bytes[j + 1]);
        }
        lemma_before_zero_prefix(bytes.skip(1), end - 1);
        assert(seq![bytes[0]] + bytes.skip(1).take(end - 1) =~= bytes.take(end));
    } else {
        assert(bytes.take(0) =~= Seq::<u8>::empty());
    }
}

/// A symbol of at most eight bytes that holds no zero is read back unchanged.
pub proof fn law_short_symbol_round_trip(symbol: Seq<char>)
    requires
        encode_utf8(symbol).len() <= 8,
        !encode_utf8(symbol).contains(0u8),
    ensures
        symbol_text(packed_symbol(symbol)) == symbol,
{
    let bytes = encode_utf8(symbol);
    let packed = packed_symbol(symbol);
    assert forall|j: int| 0 <= j < bytes.len() implies packed[j] != 0 by {
        assert(bytes.contains(bytes[j]));
    }
    lemma_before_zero_prefix(packed, bytes.len() as int);
    assert(packed.take(bytes.len() as int) =~= bytes);
    vstd::utf8::encode_utf8_valid_utf8(symbol);
    vstd::utf8::encode_utf8_decode_utf8(symbol);
}

/// A beginning of valid UTF-8 that is valid itself ends between two characters.
proof fn lemma_valid_prefix_ends_at_boundary(bytes: Seq<u8>, end: int)
    requires
        valid_utf8(bytes),
        0 <= end <= bytes.len(),
        valid_utf8(bytes.subrange(0, end)),
    ensures
        is_char_boundary(bytes, end),
    decreases bytes.len(),
{
    if end > 0 {
        let head = bytes.subrange(0, end);
        let n = length_of_first_scalar(head);
        assert(n == length_of_first_scalar(bytes));
        let rest = pop_first_scalar(bytes);
        assert(pop_first_scalar(head) =~= rest.subrange(0, end - n));
        lemma_valid_prefix_ends_at_boundary(rest, end - n);
    }
}

/// Of a symbol of more than eight bytes the first eight are read back, if they end
/// between two characters; if they end inside one, `BTC` is.
pub proof fn law_long_symbol_is_cut(symbol: Seq<char>)
    requires
        encode_utf8(symbol).len() > 8,
        !encode_utf8(symbol).subrange(0, 8).contains(0u8),
    ensures
        symbol_text(packed_symbol(symbol)) == (if is_char_boundary(encode_utf8(symbol), 8) {
            decode_utf8(encode_utf8(symbol).subrange(0, 8))
        } else {
            "BTC"@
        }),
        is_char_boundary(encode_utf8(symbol), 8) ==> symbol_text(
            packed_symbol(symbol),
        ).is_prefix_of(symbol),
{
    let bytes = encode_utf8(symbol);
    let packed = packed_symbol(symbol);
    let head = bytes.subrange(0, 8);
    assert(packed =~= head);
    assert forall|j: int| 0 <= j < 8 implies packed[j] != 0 by {
        assert(head.contains(head[j]));
    }
    lemma_before_zero_prefix(packed, 8);
    assert(packed.take(8) =~= head);
    vstd::utf8::encode_utf8_valid_utf8(symbol);
    vstd::utf8::encode_utf8_decode_utf8(symbol);
    if is_char_boundary(bytes, 8) {
        vstd::utf8::valid_utf8_split(bytes, 8);
        vstd::utf8::decode_utf8_split(bytes, 8);
    } else if valid_utf8(head) {
        lemma_valid_prefix_ends_at_boundary(bytes, 8);
    }
}

/// A request to trade, as the strategy hands it in.
#[derive(Debug)]
pub struct OrderRequest {
    pub id: u64,
    pub symbol_idx: u8,
    pub symbol: [u8; 8],
    /// The whole symbol, which `symbol` may cut short.
    pub symbol_name: String,
    pub side: Side,
    pub quantity: Binary64,
    pub price: Binary64,
    pub timeout_ms: u64,
    /// Take-profit and stop-loss prices; zero where no bracket is wanted.
    pub tp_price: Binary64,
    pub sl_price: Binary64,
}

/// What an `OrderRequest` says.
#[verifier::ext_equal]
pub struct OrderRequestView {
    pub id: u64,
    pub symbol_idx: u8,
    pub symbol: Seq<u8>,
    pub symbol_name: Seq<char>,
    pub side: Side,
    pub quantity: Binary64,
    pub price: Binary64,
    pub timeout_ms: u64,
    pub tp_price: Binary64,
    pub sl_price: Binary64,
}

impl View for OrderRequest {
    type V = OrderRequestView;

    open spec fn view(&self) -> OrderRequestView {
        OrderRequestView {
            id: self.id,
            symbol_idx: self.symbol_idx,
            symbol: self.symbol@,
            symbol_name: self.symbol_name@,
            side: self.side,
            quantity: self.quantity,
            price: self.price,
            timeout_ms: self.timeout_ms,
            tp_price: self.tp_price,
            sl_price: self.sl_price,
        }
    }
}

impl OrderRequestView {
    /// Both bracket prices are set.
    pub open spec fn has_bracket(self) -> bool {
        self.tp_price.positive() && self.sl_price.positive()
    }

    /// The request with its quantity replaced.
    pub open spec fn with_quantity(self, quantity: Binary64) -> OrderRequestView {
        OrderRequestView { quantity, ..self }
    }
}

/// The first eight bytes of a symbol, filled up with zeros.
fn pack_symbol(symbol: &str) -> (r: [u8; 8])
    ensures
        r@ == packed_symbol(symbol@),
{
    let bytes: &[u8] = symbol.as_bytes();
    let mut packed: [u8; 8] = [0u8; 8];
    let mut i: usize = 0;
    while i < 8 && i < bytes.len()
        invariant
            i <= 8,
            i <= bytes@.len(),
            bytes@ == encode_utf8(symbol@),
            packed@.len() == 8,
            forall|j: int| 0 <= j < i ==> packed@[j] == bytes@[j],
            forall|j: int| i <= j < 8 ==> packed@[j] == 0,
        decreases 8 - i,
    {
        packed[i] = bytes[i];
        i += 1;
    }
    assert(packed@ =~= packed_symbol(symbol@));
    packed
}

/// The text of a packed symbol.
pub fn unpack_symbol(symbol: &[u8; 8]) -> (r: &str)
    ensures
        r@ == symbol_text(symbol@),
{
    let packed: &[u8] = symbol.as_slice();
    let mut end: usize = 0;
    while end < 8 && packed[end] != 0
        invariant
            packed@.len() == 8,
            end <= 8,
            forall|j: int| 0 <= j < end ==> packed@[j] != 0,
        decreases 8 - end,
    {
        end += 1;
    }
    let bytes: &[u8] = slice_subrange(packed, 0, end);
    proof {
        lemma_before_zero_prefix(packed@, end as int);
        assert(packed@.subrange(0, end as int) =~= packed@.take(end as int));
    }
    match std::str::from_utf8(bytes) {
        Ok(text) => {
            proof {
                vstd::utf8::encode_utf8_decode_utf8(text@);
            }
            text
        },
        Err(_) => "BTC",
    }
}

impl OrderRequest {
    /// A request without a bracket, under the counter's next id.
    pub fn new(
        counter: &mut u64,
        symbol: &str,
        side: Side,
        quantity: Binary64,
        price: Binary64,
        timeout_ms: u64,
    ) -> (r: OrderRequest)
        ensures
            *final(counter) == id_at(*old(counter), 1),
            r@ == (OrderRequestView {
                id: *old(counter),
                symbol_idx: asset_id(symbol@),
                symbol: packed_symbol(symbol@),
                symbol_name: symbol@,
                side,
                quantity,
                price,
                timeout_ms,
                tp_price: Binary64 { bits: 0 },
                sl_price: Binary64 { bits: 0 },
            }),
    {
        let id: u64 = next_order_id(counter);
        OrderRequest {
            id,
            symbol_idx: symbol_to_asset_id(symbol),
            symbol: pack_symbol(symbol),
            symbol_name: symbol.to_owned(),
            side,
            quantity,
            price,
            timeout_ms,
            tp_price: Binary64::zero(),
            sl_price: Binary64::zero(),
        }
    }

    /// Sets the take-profit and stop-loss prices.
    pub fn with_bracket(self, tp_price: Binary64, sl_price: Binary64) -> (r: OrderRequest)
        ensures
            r == (OrderRequest { tp_price, sl_price, ..self }),
    {
        let mut r: OrderRequest = self;
        r.tp_price = tp_price;
        r.sl_price = sl_price;
        r
    }

    /// The text of the packed symbol.
    pub fn symbol_str(&self) -> (r: &str)
        ensures
            r@ == symbol_text(self.symbol@),
    {
        unpack_symbol(&self.symbol)
    }

    /// Are both bracket prices set?
    pub fn has_bracket(&self) -> (r: bool)
        ensures
            r == self@.has_bracket(),
    {
        self.tp_price.is_positive() && self.sl_price.is_positive()
    }
}

impl Clone for OrderRequest {
    fn clone(&self) -> (r: Self)
        ensures
            r == *self,
    {
        OrderRequest {
            id: self.id,
            symbol_idx: self.symbol_idx,
            symbol: self.symbol,
            symbol_name: self.symbol_name.clone(),
            side: self.side,
            quantity: self.quantity,
            price: self.price,
            timeout_ms: self.timeout_ms,
            tp_price: self.tp_price,
            sl_price: self.sl_price,
        }
    }
}

/// An order as the engine records it.
#[derive(Debug)]
pub struct Order {
    pub id: u64,
    pub symbol: [u8; 8],
    pub side: Side,
    pub quantity: Binary64,
    pub price: Binary64,
    pub status: OrderStatus,
    pub filled_qty: Binary64,
    pub filled_price: Binary64,
    /// Nanoseconds since the epoch.
    pub created_ns: u64,
    /// Nanoseconds from submission to fill or rejection.
    pub latency_ns: u64,
    pub pnl: Binary64,
    /// Zero until the position is closed.
    pub exit_price: Binary64,
    /// `TP`, `SL`, or empty for an entry alone.
    pub exit_reason: String,
}

/// What an `Order` says.
#[verifier::ext_equal]
pub struct OrderView {
    pub id: u64,
    pub symbol: Seq<u8>,
    pub side: Side,
    pub quantity: Binary64,
    pub price: Binary64,
    pub status: OrderStatus,
    pub filled_qty: Binary64,
    pub filled_price: Binary64,
    pub created_ns: u64,
    pub latency_ns: u64,
    pub pnl: Binary64,
    pub exit_price: Binary64,
    pub exit_reason: Seq<char>,
}

impl View for Order {
    type V = OrderView;

    open spec fn view(&self) -> OrderView {
        OrderView {
            id: self.id,
            symbol: self.symbol@,
            side: self.side,
            quantity: self.quantity,
            price: self.price,
            status: self.status,
            filled_qty: self.filled_qty,
            filled_price: self.filled_price,
            created_ns: self.created_ns,
            latency_ns: self.latency_ns,
            pnl: self.pnl,
            exit_price: self.exit_price,
            exit_reason: self.exit_reason@,
        }
    }
}

impl Clone for Order {
    fn clone(&self) -> (r: Self)
        ensures
            r == *self,
    {
        Order {
            id: self.id,
            symbol: self.symbol,
            side: self.side,
            quantity: self.quantity,
            price: self.price,
            status: self.status,
            filled_qty: self.filled_qty,
            filled_price: self.filled_price,
            created_ns: self.created_ns,
            latency_ns: self.latency_ns,
            pnl: self.pnl,
            exit_price: self.exit_price,
            exit_reason: self.exit_reason.clone(),
        }
    }
}

/// The record of a request that has just gone out.
pub open spec fn open_order(
    req: OrderRequestView,
    filled_qty: Binary64,
    filled_price: Binary64,
    created_ns: u64,
) -> OrderView {
    OrderView {
        id: req.id,
        symbol: req.symbol,
        side: req.side,
        quantity: req.quantity,
        price: req.price,
        status: OrderStatus::Open,
        filled_qty,
        filled_price,
        created_ns,
        latency_ns: 0,
        pnl: Binary64 { bits: 0 },
        exit_price: Binary64 { bits: 0 },
        exit_reason: Seq::empty(),
    }
}

impl Order {
    /// The record of `req` as an open order.
    pub fn opened(
        req: &OrderRequest,
        filled_qty: Binary64,
        filled_price: Binary64,
        created_ns: u64,
    ) -> (r: Order)
        ensures
            r@ == open_order(req@, filled_qty, filled_price, created_ns),
    {
        Order {
            id: req.id,
            symbol: req.symbol,
            side: req.side,
            quantity: req.quantity,
            price: req.price,
            status: OrderStatus::Open,
            filled_qty,
            filled_price,
            created_ns,
            latency_ns: 0,
            pnl: Binary64::zero(),
            exit_price: Binary64::zero(),
            exit_reason: String::new(),
        }
    }
}

/// A bracketed position that is open on the exchange.
#[derive(Debug)]
pub struct RealPosition {
    pub symbol: String,
    pub side: Side,
    pub entry_price: Binary64,
    pub quantity: Binary64,
    pub tp_price: Binary64,
    pub sl_price: Binary64,
    pub entry_ts_ms: u64,
}

/// What a `RealPosition` says.
#[verifier::ext_equal]
pub struct RealPositionView {
    pub symbol: Seq<char>,
    pub side: Side,
    pub entry_price: Binary64,
    pub quantity: Binary64,
    pub tp_price: Binary64,
    pub sl_price: Binary64,
    pub entry_ts_ms: u64,
}

impl View for RealPosition {
    type V = RealPositionView;

    open spec fn view(&self) -> RealPositionView {
        RealPositionView {
            symbol: self.symbol@,
            side: self.side,
            entry_price: self.entry_price,
            quantity: self.quantity,
            tp_price: self.tp_price,
            sl_price: self.sl_price,
            entry_ts_ms: self.entry_ts_ms,
        }
    }
}

impl Clone for RealPosition {
    fn clone(&self) -> (r: Self)
        ensures
            r == *self,
    {
        RealPosition {
            symbol: self.symbol.clone(),
            side: self.side,
            entry_price: self.entry_price,
            quantity: self.quantity,
            tp_price: self.tp_price,
            sl_price: self.sl_price,
            entry_ts_ms: self.entry_ts_ms,
        }
    }
}

} // verus!
