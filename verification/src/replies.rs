//! What the exchange answers: fills, bracket acknowledgements and open positions.
//!
//! Numbers stand in the replies as texts. The caller parses each text to a
//! double and hands the results in, in the order in which the texts came out.
use crate::binary64::Binary64;
use crate::json::{json_document, tree_of, JsonTree};
use crate::json::{json_is_object, json_items, json_member, json_text, parse_json};
use crate::text::{find_bytes, occurs_at, same_text};
use serde_json::Value;
use vstd::prelude::*;
use vstd::string::StringExecFns;
use vstd::utf8::{decode_utf8, encode_utf8, is_char_boundary, valid_utf8};

verus! {

/// Why an order was not filled.
#[derive(Debug)]
pub enum FillError {
    /// The reply is not JSON; the parser's message.
    NotJson(String),
    /// The exchange refused the request as a whole.
    Exchange,
    /// The exchange rejected the order; its message.
    Rejected(String),
    /// The order rests in the book.
    Resting,
    /// Nothing in the reply speaks of a fill.
    NotFilled,
}

/// What a `FillError` says.
pub enum FillErrorView {
    NotJson(Seq<char>),
    Exchange,
    Rejected(Seq<char>),
    Resting,
    NotFilled,
}

impl View for FillError {
    type V = FillErrorView;

    open spec fn view(&self) -> FillErrorView {
        match self {
            FillError::NotJson(cause) => FillErrorView::NotJson(cause@),
            FillError::Exchange => FillErrorView::Exchange,
            FillError::Rejected(message) => FillErrorView::Rejected(message@),
            FillError::Resting => FillErrorView::Resting,
            FillError::NotFilled => FillErrorView::NotFilled,
        }
    }
}

impl FillErrorView {
    /// Does the message quote the reply?
    pub open spec fn quotes_reply(self) -> bool {
        self is NotJson || self is Exchange || self is NotFilled
    }

    /// The error's message; `raw` is the beginning of the reply.
    pub open spec fn message(self, raw: Seq<char>) -> Seq<char> {
        match self {
            FillErrorView::NotJson(cause) => "HL JSON parse error: "@ + cause + " — raw: "@ + raw,
            FillErrorView::Exchange => "HL error: "@ + raw,
            FillErrorView::Rejected(message) => "HL rejected: "@ + message,
            FillErrorView::Resting => "HL order resting (not an IOC fill)"@,
            FillErrorView::NotFilled => "HL IOC not filled — raw: "@ + raw,
        }
    }
}

impl FillError {
    pub fn quotes_reply(&self) -> (r: bool)
        ensures
            r == self@.quotes_reply(),
    {
        match self {
            FillError::NotJson(_) => true,
            FillError::Exchange => true,
            FillError::Rejected(_) => false,
            FillError::Resting => false,
            FillError::NotFilled => true,
        }
    }

    pub fn message(&self, raw: &str) -> (r: String)
        ensures
            r@ == self@.message(raw@),
    {
        match self {
            FillError::NotJson(cause) => {
                let mut out: String = "HL JSON parse error: ".to_owned();
                out.append(cause.as_str());
                out.append(" — raw: ");
                out.append(raw);
                out
            },
            FillError::Exchange => "HL error: ".to_owned().concat(raw),
            FillError::Rejected(message) => "HL rejected: ".to_owned().concat(message.as_str()),
            FillError::Resting => "HL order resting (not an IOC fill)".to_owned(),
            FillError::NotFilled => "HL IOC not filled — raw: ".to_owned().concat(raw),
        }
    }
}

/// How many bytes of a reply an error message quotes.
pub const EXCERPT_BYTES: usize = 200;

/// The excerpt's end falls between two characters.
pub open spec fn excerpt_defined(bytes: Seq<u8>) -> bool {
    valid_utf8(bytes) && bytes.len() > EXCERPT_BYTES ==> is_char_boundary(
        bytes,
        EXCERPT_BYTES as int,
    )
}

/// The beginning of a reply; empty where the reply is not text.
pub open spec fn excerpt(bytes: Seq<u8>) -> Seq<char> {
    if !valid_utf8(bytes) {
        Seq::empty()
    } else if bytes.len() <= EXCERPT_BYTES {
        decode_utf8(bytes)
    } else {
        decode_utf8(bytes.take(EXCERPT_BYTES as int))
    }
}

/// Does the excerpt of a reply end between two characters?
pub fn excerpt_is_defined(bytes: &[u8]) -> (r: bool)
    ensures
        r == excerpt_defined(bytes@),
{
    match std::str::from_utf8(bytes) {
        Ok(raw) => bytes.len() <= EXCERPT_BYTES || raw.is_char_boundary(EXCERPT_BYTES),
        Err(_) => true,
    }
}

/// The beginning of a reply, for an error message.
pub fn raw_excerpt(bytes: &[u8]) -> (r: &str)
    requires
        excerpt_defined(bytes@),
    ensures
        r@ == excerpt(bytes@),
{
    match std::str::from_utf8(bytes) {
        Ok(raw) => {
            proof {
                vstd::utf8::encode_utf8_decode_utf8(raw@);
            }
            if bytes.len() <= EXCERPT_BYTES {
                raw
            } else {
                let head: &str = raw.split_at(EXCERPT_BYTES).0;
                proof {
                    assert(bytes@.subrange(0, EXCERPT_BYTES as int) =~= bytes@.take(
                        EXCERPT_BYTES as int,
                    ));
                    vstd::utf8::encode_utf8_decode_utf8(head@);
                }
                head
            }
        },
        Err(_) => {
            proof {
                reveal_strlit("");
                assert(""@ =~= Seq::<char>::empty());
            }
            ""
        },
    }
}

impl FillError {
    /// The error's message for the reply that it was read from.
    pub fn describe(&self, reply: &[u8]) -> (r: String)
        requires
            self@.quotes_reply() ==> excerpt_defined(reply@),
        ensures
            r@ == self@.message(excerpt(reply@)),
    {
        if self.quotes_reply() {
            self.message(raw_excerpt(reply))
        } else {
            self.message("")
        }
    }
}

/// The statuses of an order reply, one for each order; none where the reply has
/// no such list.
pub open spec fn statuses(reply: JsonTree) -> Seq<JsonTree> {
    match reply.member("response"@).member("data"@).member("statuses"@).items() {
        Some(items) => items,
        None => Seq::empty(),
    }
}

/// The average fill price in a status, as its text.
pub open spec fn avg_px(status: JsonTree) -> Option<Seq<char>> {
    status.member("filled"@).member("avgPx"@).text()
}

/// The number that was parsed for entry `i`, if any.
pub open spec fn number_at(numbers: Seq<Option<Binary64>>, i: int) -> Option<Binary64> {
    if 0 <= i < numbers.len() {
        numbers[i]
    } else {
        None
    }
}

/// What one status settles, if anything: an error message rejects the order, a
/// positive average price fills it, and an order that rests is no fill.
pub open spec fn settles(status: JsonTree, price: Option<Binary64>) -> Option<
    Result<Binary64, FillErrorView>,
> {
    match status.member("error"@).text() {
        Some(message) => Some(Err(FillErrorView::Rejected(message))),
        None => if avg_px(status) is Some && price is Some && price->Some_0.positive() {
            Some(Ok(price->Some_0))
        } else if status.member("resting"@) is Object {
            Some(Err(FillErrorView::Resting))
        } else {
            None
        },
    }
}

/// What the statuses from number `i` on settle: the first one that settles
/// anything decides.
pub open spec fn first_settled(
    list: Seq<JsonTree>,
    prices: Seq<Option<Binary64>>,
    i: int,
) -> Result<Binary64, FillErrorView>
    decreases list.len() - i,
{
    if i < 0 || i >= list.len() {
        Err(FillErrorView::NotFilled)
    } else {
        match settles(list[i], number_at(prices, i)) {
            Some(result) => result,
            None => first_settled(list, prices, i + 1),
        }
    }
}

/// The outcome that a reply reports.
pub open spec fn fill_outcome(reply: JsonTree, prices: Seq<Option<Binary64>>) -> Result<
    Binary64,
    FillErrorView,
> {
    if reply.member("status"@).text() == Some("err"@) {
        Err(FillErrorView::Exchange)
    } else {
        first_settled(statuses(reply), prices, 0)
    }
}

/// A fill result by its view.
pub open spec fn fill_view(r: Result<Binary64, FillError>) -> Result<Binary64, FillErrorView> {
    match r {
        Ok(price) => Ok(price),
        Err(e) => Err(e@),
    }
}

/// An optional text by its view.
pub open spec fn text_view(text: Option<String>) -> Option<Seq<char>> {
    match text {
        Some(s) => Some(s@),
        None => None,
    }
}

fn owned_text(value: &Value) -> (r: Option<String>)
    ensures
        text_view(r) == tree_of(*value).text(),
{
    match json_text(value) {
        Some(text) => Some(text.to_owned()),
        None => None,
    }
}

fn status_list(reply: &Value) -> (r: Option<&Vec<Value>>)
    ensures
        match r {
            Some(items) => statuses(tree_of(*reply)) == items@.map_values(|v: Value| tree_of(v)),
            None => statuses(tree_of(*reply)) == Seq::<JsonTree>::empty(),
        },
{
    json_items(
        json_member(json_member(json_member(reply, "response"), "data"), "statuses"),
    )
}

/// The texts of the average fill prices, one for each status.
pub fn avg_px_texts_in(reply: &Value) -> (r: Vec<Option<String>>)
    ensures
        r@.len() == statuses(tree_of(*reply)).len(),
        forall|i: int|
            0 <= i < r@.len() ==> text_view(#[trigger] r@[i]) == avg_px(
                statuses(tree_of(*reply))[i],
            ),
{
    let mut out: Vec<Option<String>> = Vec::new();
    if let Some(items) = status_list(reply) {
        let ghost list = statuses(tree_of(*reply));
        let mut i: usize = 0;
        while i < items.len()
            invariant
                i <= items@.len(),
                out@.len() == i,
                list == items@.map_values(|v: Value| tree_of(v)),
                forall|j: int|
                    0 <= j < i ==> text_view(#[trigger] out@[j]) == avg_px(list[j]),
            decreases items@.len() - i,
        {
            assert(list[i as int] == tree_of(items@[i as int]));
            out.push(owned_text(json_member(json_member(&items[i], "filled"), "avgPx")));
            i += 1;
        }
    }
    out
}

/// The average price of a fill, from a parsed reply and the numbers that its
/// price texts stand for.
pub fn fill_price_in(reply: &Value, prices: &Vec<Option<Binary64>>) -> (r: Result<
    Binary64,
    FillError,
>)
    ensures
        fill_view(r) == fill_outcome(tree_of(*reply), prices@),
        r matches Ok(price) ==> price.positive(),
{
    if let Some(status) = json_text(json_member(reply, "status")) {
        if same_text(status, "err") {
            return Err(FillError::Exchange);
        }
    }
    let ghost list = statuses(tree_of(*reply));
    if let Some(items) = status_list(reply) {
        let mut i: usize = 0;
        while i < items.len()
            invariant
                i <= items@.len(),
                list == items@.map_values(|v: Value| tree_of(v)),
                fill_outcome(tree_of(*reply), prices@) == first_settled(list, prices@, 0),
                first_settled(list, prices@, 0) == first_settled(list, prices@, i as int),
            decreases items@.len() - i,
        {
            let status: &Value = &items[i];
            assert(list[i as int] == tree_of(*status));
            if let Some(message) = json_text(json_member(status, "error")) {
                return Err(FillError::Rejected(message.to_owned()));
            }
            if let Some(_) = json_text(json_member(json_member(status, "filled"), "avgPx")) {
                if i < prices.len() {
                    if let Some(price) = prices[i] {
                        if price.is_positive() {
                            return Ok(price);
                        }
                    }
                }
            }
            if json_is_object(json_member(status, "resting")) {
                return Err(FillError::Resting);
            }
            i += 1;
        }
    }
    Err(FillError::NotFilled)
}

/// The texts of the average fill prices in a reply, one for each status; none
/// where the reply is not JSON.
pub fn avg_px_texts(bytes: &[u8]) -> (r: Vec<Option<String>>)
    ensures
        match json_document(bytes@) {
            Ok(reply) => r@.len() == statuses(reply).len() && forall|i: int|
                0 <= i < r@.len() ==> text_view(#[trigger] r@[i]) == avg_px(statuses(reply)[i]),
            Err(_) => r@.len() == 0,
        },
{
    match parse_json(bytes) {
        Ok(reply) => avg_px_texts_in(&reply),
        Err(_) => Vec::new(),
    }
}

/// The average price of a fill, from a reply and the numbers that its price texts
/// stand for.
pub fn parse_hl_fill_price(bytes: &[u8], prices: &Vec<Option<Binary64>>) -> (r: Result<
    Binary64,
    FillError,
>)
    ensures
        fill_view(r) == (match json_document(bytes@) {
            Ok(reply) => fill_outcome(reply, prices@),
            Err(cause) => Err(FillErrorView::NotJson(cause)),
        }),
        r matches Ok(price) ==> price.positive(),
{
    match parse_json(bytes) {
        Ok(reply) => fill_price_in(&reply, prices),
        Err(cause) => Err(FillError::NotJson(cause)),
    }
}

/// Whatever the reply and the numbers, a fill is reported at a positive price
/// only.
pub proof fn law_fill_price_is_positive(
    list: Seq<JsonTree>,
    prices: Seq<Option<Binary64>>,
    i: int,
)
    ensures
        first_settled(list, prices, i) matches Ok(price) ==> price.positive(),
    decreases list.len() - i,
{
    if 0 <= i < list.len() && settles(list[i], number_at(prices, i)) is None {
        law_fill_price_is_positive(list, prices, i + 1);
    }
}

/// The reply to a bracket order names an error.
pub open spec fn names_error(bytes: Seq<u8>) -> bool {
    valid_utf8(bytes) && ((exists|at: int| occurs_at(bytes, encode_utf8("\"error\""@), at)) || (
    exists|at: int| occurs_at(bytes, encode_utf8("\"err\""@), at)))
}

/// Has the exchange taken a bracket order on? It has unless its reply is text that
/// names an error.
pub fn bracket_accepted(bytes: &[u8]) -> (r: bool)
    ensures
        r == !names_error(bytes@),
{
    match std::str::from_utf8(bytes) {
        Ok(_) => {
            let error: &[u8] = "\"error\"".as_bytes();
            let err: &[u8] = "\"err\"".as_bytes();
            proof {
                reveal_strlit("\"error\"");
                reveal_strlit("\"err\"");
                vstd::utf8::is_ascii_chars_encode_utf8("\"error\""@);
                vstd::utf8::is_ascii_chars_encode_utf8("\"err\""@);
            }
            match find_bytes(bytes, error) {
                Some(_) => false,
                None => match find_bytes(bytes, err) {
                    Some(_) => false,
                    None => true,
                },
            }
        },
        Err(_) => true,
    }
}

/// The account's positions in a clearing-house reply; none where the reply has no
/// such list.
pub open spec fn asset_positions(reply: JsonTree) -> Seq<JsonTree> {
    match reply.member("assetPositions"@).items() {
        Some(items) => items,
        None => Seq::empty(),
    }
}

/// The signed size of a position, as its text.
pub open spec fn size_text(entry: JsonTree) -> Option<Seq<char>> {
    entry.member("position"@).member("szi"@).text()
}

/// The coin of an entry that is open: it has a name, and a size other than zero.
pub open spec fn open_coin(entry: JsonTree, size: Option<Binary64>) -> Option<Seq<char>> {
    match entry.member("position"@).member("coin"@).text() {
        Some(coin) if size_text(entry) is Some && size is Some
            && size->Some_0.abs_spec().positive() => Some(coin),
        _ => None,
    }
}

/// The coins of the first `n` entries that are open, in order.
pub open spec fn open_coins(
    entries: Seq<JsonTree>,
    sizes: Seq<Option<Binary64>>,
    n: nat,
) -> Seq<Seq<char>>
    decreases n,
{
    if n == 0 {
        Seq::empty()
    } else {
        let before = open_coins(entries, sizes, (n - 1) as nat);
        match open_coin(entries[n - 1], number_at(sizes, n - 1)) {
            Some(coin) => before.push(coin),
            None => before,
        }
    }
}

/// A coin is listed as open exactly if some entry reports it at a size other than
/// zero, however small.
pub proof fn law_reported_coins_are_open(
    entries: Seq<JsonTree>,
    sizes: Seq<Option<Binary64>>,
    n: nat,
    coin: Seq<char>,
)
    requires
        n <= entries.len(),
    ensures
        open_coins(entries, sizes, n).contains(coin) <==> exists|i: int|
            0 <= i < n && open_coin(#[trigger] entries[i], number_at(sizes, i)) == Some(coin),
    decreases n,
{
    if n > 0 {
        let m = (n - 1) as nat;
        law_reported_coins_are_open(entries, sizes, m, coin);
        let before = open_coins(entries, sizes, m);
        let after = open_coins(entries, sizes, n);
        if before.contains(coin) {
            let k = choose|k: int| 0 <= k < before.len() && before[k] == coin;
            assert(after[k] == coin);
        }
        match open_coin(entries[m as int], number_at(sizes, m as int)) {
            Some(last) => {
                assert(after == before.push(last));
                assert(after[before.len() as int] == last);
                if after.contains(coin) && last != coin {
                    let k = choose|k: int| 0 <= k < after.len() && after[k] == coin;
                    assert(before[k] == coin);
                }
            },
            None => {},
        }
    }
}

fn position_list(reply: &Value) -> (r: Option<&Vec<Value>>)
    ensures
        match r {
            Some(items) => asset_positions(tree_of(*reply)) == items@.map_values(
                |v: Value| tree_of(v),
            ),
            None => asset_positions(tree_of(*reply)) == Seq::<JsonTree>::empty(),
        },
{
    json_items(json_member(reply, "assetPositions"))
}

/// The texts of the positions' sizes, one for each position.
pub fn size_texts_in(reply: &Value) -> (r: Vec<Option<String>>)
    ensures
        r@.len() == asset_positions(tree_of(*reply)).len(),
        forall|i: int|
            0 <= i < r@.len() ==> text_view(#[trigger] r@[i]) == size_text(
                asset_positions(tree_of(*reply))[i],
            ),
{
    let mut out: Vec<Option<String>> = Vec::new();
    if let Some(items) = position_list(reply) {
        let ghost list = asset_positions(tree_of(*reply));
        let mut i: usize = 0;
        while i < items.len()
            invariant
                i <= items@.len(),
                out@.len() == i,
                list == items@.map_values(|v: Value| tree_of(v)),
                forall|j: int|
                    0 <= j < i ==> text_view(#[trigger] out@[j]) == size_text(list[j]),
            decreases items@.len() - i,
        {
            assert(list[i as int] == tree_of(items@[i as int]));
            out.push(owned_text(json_member(json_member(&items[i], "position"), "szi")));
            i += 1;
        }
    }
    out
}

/// The coins of the open positions, from a parsed reply and the numbers that its
/// size texts stand for.
pub fn open_symbols_in(reply: &Value, sizes: &Vec<Option<Binary64>>) -> (r: Vec<String>)
    ensures
        r@.map_values(|s: String| s@) == open_coins(
            asset_positions(tree_of(*reply)),
            sizes@,
            asset_positions(tree_of(*reply)).len(),
        ),
{
    let mut out: Vec<String> = Vec::new();
    let ghost list = asset_positions(tree_of(*reply));
    assert(out@.map_values(|s: String| s@) =~= Seq::<Seq<char>>::empty());
    if let Some(items) = position_list(reply) {
        let mut i: usize = 0;
        while i < items.len()
            invariant
                i <= items@.len(),
                list == items@.map_values(|v: Value| tree_of(v)),
                out@.map_values(|s: String| s@) == open_coins(list, sizes@, i as nat),
            decreases items@.len() - i,
        {
            let position: &Value = json_member(&items[i], "position");
            assert(list[i as int] == tree_of(items@[i as int]));
            let ghost before = out@;
            if let Some(coin) = json_text(json_member(position, "coin")) {
                if let Some(_) = json_text(json_member(position, "szi")) {
                    if i < sizes.len() {
                        if let Some(size) = sizes[i] {
                            if size.abs().is_positive() {
                                out.push(coin.to_owned());
                                assert(out@.map_values(|s: String| s@) =~= before.map_values(
                                    |s: String| s@,
                                ).push(coin@));
                            }
                        }
                    }
                }
            }
            i += 1;
        }
    }
    out
}

/// The texts of the positions' sizes in a reply; the parser's message where the
/// reply is not JSON.
pub fn size_texts(bytes: &[u8]) -> (r: Result<Vec<Option<String>>, String>)
    ensures
        match json_document(bytes@) {
            Ok(reply) => r matches Ok(texts) && texts@.len() == asset_positions(reply).len()
                && forall|i: int|
                0 <= i < texts@.len() ==> text_view(#[trigger] texts@[i]) == size_text(
                    asset_positions(reply)[i],
                ),
            Err(cause) => r matches Err(text) && text@ == cause,
        },
{
    match parse_json(bytes) {
        Ok(reply) => Ok(size_texts_in(&reply)),
        Err(cause) => Err(cause),
    }
}

/// The coins of the open positions in a reply; the parser's message where the
/// reply is not JSON.
pub fn open_symbols(bytes: &[u8], sizes: &Vec<Option<Binary64>>) -> (r: Result<
    Vec<String>,
    String,
>)
    ensures
        match json_document(bytes@) {
            Ok(reply) => r matches Ok(coins) && coins@.map_values(|s: String| s@) == open_coins(
                asset_positions(reply),
                sizes@,
                asset_positions(reply).len(),
            ),
            Err(cause) => r matches Err(text) && text@ == cause,
        },
{
    match parse_json(bytes) {
        Ok(reply) => Ok(open_symbols_in(&reply, sizes)),
        Err(cause) => Err(cause),
    }
}

} // verus!
