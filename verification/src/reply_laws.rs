//! What the exchange's replies mean, told from what stands in them.
use crate::binary64::Binary64;
use crate::bracket::{takes_on, BracketRun, BracketStep};
use crate::error::{ExecError, ExecErrorView};
use crate::json::JsonTree;
use crate::replies::{
    asset_positions, avg_px, excerpt, excerpt_defined, fill_outcome, fill_view, first_settled,
    law_reported_coins_are_open, names_error, number_at, open_coin, open_coins, settles, size_text,
    statuses, text_view,
};
use crate::replies::{FillError, FillErrorView};
use crate::text::{decimal, occurs_at};
use vstd::prelude::*;
use vstd::utf8::{encode_utf8, is_char_boundary, valid_utf8};

verus! {

/// The bytes of `"error"` and of `"err"`, quotes included.
proof fn lemma_needles()
    ensures
        encode_utf8("\"error\""@) == seq![0x22u8, 0x65u8, 0x72u8, 0x72u8, 0x6fu8, 0x72u8, 0x22u8],
        encode_utf8("\"err\""@) == seq![0x22u8, 0x65u8, 0x72u8, 0x72u8, 0x22u8],
{
    reveal_strlit("\"error\"");
    reveal_strlit("\"err\"");
    let long = "\"error\""@;
    let short = "\"err\""@;
    vstd::utf8::is_ascii_chars_encode_utf8(long);
    vstd::utf8::is_ascii_chars_encode_utf8(short);
    assert(encode_utf8(long) =~= seq![0x22u8, 0x65u8, 0x72u8, 0x72u8, 0x6fu8, 0x72u8, 0x22u8]) by {
        assert(long[0] as u8 == 0x22 && long[1] as u8 == 0x65 && long[2] as u8 == 0x72);
        assert(long[3] as u8 == 0x72 && long[4] as u8 == 0x6f && long[5] as u8 == 0x72);
        assert(long[6] as u8 == 0x22);
    }
    assert(encode_utf8(short) =~= seq![0x22u8, 0x65u8, 0x72u8, 0x72u8, 0x22u8]) by {
        assert(short[0] as u8 == 0x22 && short[1] as u8 == 0x65 && short[2] as u8 == 0x72);
        assert(short[3] as u8 == 0x72 && short[4] as u8 == 0x22);
    }
}

/// A reply to a bracket order that is text and holds `"error"` or `"err"` anywhere,
/// quotes included, names an error, whatever else stands in it.
pub proof fn law_any_occurrence_names_error(bytes: Seq<u8>, at: int)
    requires
        valid_utf8(bytes),
        0 <= at,
        (at + 7 <= bytes.len() && bytes.subrange(at, at + 7) == seq![
            0x22u8,
            0x65u8,
            0x72u8,
            0x72u8,
            0x6fu8,
            0x72u8,
            0x22u8,
        ]) || (at + 5 <= bytes.len() && bytes.subrange(at, at + 5) == seq![
            0x22u8,
            0x65u8,
            0x72u8,
            0x72u8,
            0x22u8,
        ]),
    ensures
        names_error(bytes),
{
    lemma_needles();
    assert(occurs_at(bytes, encode_utf8("\"error\""@), at) || occurs_at(
        bytes,
        encode_utf8("\"err\""@),
        at,
    ));
}

/// A reply names an error as soon as one of the two words stands between whatever
/// comes before and whatever comes after.
pub proof fn law_surrounded_error_is_named(before: Seq<u8>, after: Seq<u8>)
    ensures
        valid_utf8(
            before + seq![0x22u8, 0x65u8, 0x72u8, 0x72u8, 0x6fu8, 0x72u8, 0x22u8] + after,
        ) ==> names_error(
            before + seq![0x22u8, 0x65u8, 0x72u8, 0x72u8, 0x6fu8, 0x72u8, 0x22u8] + after,
        ),
        valid_utf8(before + seq![0x22u8, 0x65u8, 0x72u8, 0x72u8, 0x22u8] + after) ==> names_error(
            before + seq![0x22u8, 0x65u8, 0x72u8, 0x72u8, 0x22u8] + after,
        ),
{
    let n = before.len() as int;
    let long = seq![0x22u8, 0x65u8, 0x72u8, 0x72u8, 0x6fu8, 0x72u8, 0x22u8];
    let short = seq![0x22u8, 0x65u8, 0x72u8, 0x72u8, 0x22u8];
    let a = before + long + after;
    let b = before + short + after;
    assert(a.subrange(n, n + 7) =~= long);
    assert(b.subrange(n, n + 5) =~= short);
    if valid_utf8(a) {
        law_any_occurrence_names_error(a, n);
    }
    if valid_utf8(b) {
        law_any_occurrence_names_error(b, n);
    }
}

/// A reply that is not text names no error, and neither does one in which neither
/// word stands anywhere.
pub proof fn law_no_occurrence_names_no_error(bytes: Seq<u8>)
    requires
        !valid_utf8(bytes) || forall|at: int|
            #![trigger bytes.subrange(at, at + 7)]
            #![trigger bytes.subrange(at, at + 5)]
            0 <= at ==> {
                &&& at + 7 <= bytes.len() ==> bytes.subrange(at, at + 7) != seq![
                    0x22u8,
                    0x65u8,
                    0x72u8,
                    0x72u8,
                    0x6fu8,
                    0x72u8,
                    0x22u8,
                ]
                &&& at + 5 <= bytes.len() ==> bytes.subrange(at, at + 5) != seq![
                    0x22u8,
                    0x65u8,
                    0x72u8,
                    0x72u8,
                    0x22u8,
                ]
            },
    ensures
        !names_error(bytes),
{
    lemma_needles();
    if names_error(bytes) {
        if exists|at: int| occurs_at(bytes, encode_utf8("\"error\""@), at) {
            let at = choose|at: int| occurs_at(bytes, encode_utf8("\"error\""@), at);
            assert(bytes.subrange(at, at + 7) == encode_utf8("\"error\""@));
        } else {
            let at = choose|at: int| occurs_at(bytes, encode_utf8("\"err\""@), at);
            assert(bytes.subrange(at, at + 5) == encode_utf8("\"err\""@));
        }
    }
}

/// A leg is taken on exactly by a reply that could be read and names no error.
pub proof fn law_reply_takes_leg_on(reply: Option<Vec<u8>>)
    ensures
        reply is None ==> !takes_on(reply),
        reply matches Some(body) ==> (takes_on(reply) <==> !names_error(body@)),
{
}

/// A leg that was sent and whose reply holds an error, among whatever else, is sent
/// again after a tenth of a second, unless this was the third attempt; after that it
/// is reported as failed.
pub proof fn law_rejected_legs_are_sent_again(
    run: BracketRun,
    tp: Option<Vec<u8>>,
    sl: Option<Vec<u8>>,
)
    requires
        run.attempt < 3,
    ensures
        !run.sl_placed && (sl matches Some(body) ==> names_error(body@)) ==> {
            let step = run.after(tp, sl).next_spec();
            &&& run.attempt < 2 ==> (step matches BracketStep::Send { wait_ms, sl: again, .. }
                && wait_ms == 100 && again)
            &&& run.attempt == 2 ==> (step matches BracketStep::Done { sl_failed, .. } && sl_failed)
        },
        !run.tp_placed && (tp matches Some(body) ==> names_error(body@)) ==> {
            let step = run.after(tp, sl).next_spec();
            &&& run.attempt < 2 ==> (step matches BracketStep::Send { wait_ms, tp: again, .. }
                && wait_ms == 100 && again)
            &&& run.attempt == 2 ==> (step matches BracketStep::Done { tp_failed, .. } && tp_failed)
        },
{
}

/// A run waits eighty milliseconds before its first attempt and a hundred before each
/// other; it sends exactly the legs that are not placed; and it ends once both are,
/// or after three attempts, naming the legs that are not.
pub proof fn law_bracket_step(run: BracketRun)
    ensures
        (run.tp_placed && run.sl_placed) || run.attempt >= 3 ==> run.next_spec() == (
        BracketStep::Done { tp_failed: !run.tp_placed, sl_failed: !run.sl_placed }),
        !(run.tp_placed && run.sl_placed) && run.attempt < 3 ==> run.next_spec() == (
        BracketStep::Send {
            wait_ms: if run.attempt == 0 {
                80
            } else {
                100
            },
            tp: !run.tp_placed,
            sl: !run.sl_placed,
        }),
        run.finished() <==> (run.tp_placed && run.sl_placed) || run.attempt >= 3,
        run.wf() <==> run.attempt <= 3,
{
}

/// An attempt is counted; a leg is placed afterwards exactly if it was before or its
/// reply takes it on.
pub proof fn law_bracket_attempt(run: BracketRun, tp: Option<Vec<u8>>, sl: Option<Vec<u8>>)
    requires
        run.attempt < 255,
    ensures
        run.after(tp, sl).attempt == run.attempt + 1,
        run.after(tp, sl).tp_placed <==> run.tp_placed || (tp matches Some(body) && !names_error(
            body@,
        )),
        run.after(tp, sl).sl_placed <==> run.sl_placed || (sl matches Some(body) && !names_error(
            body@,
        )),
{
}

/// A reply whose status is `err` is the exchange's error, whatever else it holds.
pub proof fn law_error_status_decides(reply: JsonTree, prices: Seq<Option<Binary64>>)
    ensures
        reply.member("status"@) == JsonTree::Text("err"@) <==> fill_outcome(reply, prices) == Err::<
            Binary64,
            FillErrorView,
        >(FillErrorView::Exchange),
{
    if reply.member("status"@) != JsonTree::Text("err"@) {
        assert(reply.member("status"@).text() != Some("err"@));
        lemma_settled_is_no_exchange_error(statuses(reply), prices, 0);
    }
}

proof fn lemma_settled_is_no_exchange_error(
    list: Seq<JsonTree>,
    prices: Seq<Option<Binary64>>,
    i: int,
)
    ensures
        first_settled(list, prices, i) != Err::<Binary64, FillErrorView>(FillErrorView::Exchange),
    decreases list.len() - i,
{
    if 0 <= i < list.len() && settles(list[i], number_at(prices, i)) is None {
        lemma_settled_is_no_exchange_error(list, prices, i + 1);
    }
}

proof fn lemma_silent_statuses(
    list: Seq<JsonTree>,
    prices: Seq<Option<Binary64>>,
    i: int,
    k: int,
)
    requires
        0 <= i <= k <= list.len(),
        forall|j: int| i <= j < k ==> settles(#[trigger] list[j], number_at(prices, j)) is None,
    ensures
        first_settled(list, prices, i) == first_settled(list, prices, k),
    decreases k - i,
{
    if i < k {
        assert(settles(list[i], number_at(prices, i)) is None);
        lemma_silent_statuses(list, prices, i + 1, k);
    }
}

/// The first status that says anything decides. One with an error text rejects the
/// order with that text, also where it reports a fill. One without, with an average
/// price that was read as a positive number, fills the order at that number. One
/// with neither, whose `resting` is an object, reports an order that rests. A status
/// with none of the three says nothing.
pub proof fn law_first_telling_status_decides(
    reply: JsonTree,
    list: Seq<JsonTree>,
    prices: Seq<Option<Binary64>>,
    k: int,
)
    requires
        reply.member("status"@) != JsonTree::Text("err"@),
        reply.member("response"@).member("data"@).member("statuses"@) == JsonTree::Array(list),
        prices.len() == list.len(),
        0 <= k < list.len(),
        forall|j: int|
            #![trigger list[j]]
            0 <= j < k ==> {
                &&& !(list[j].member("error"@) is Text)
                &&& !(list[j].member("resting"@) is Object)
                &&& !(list[j].member("filled"@).member("avgPx"@) is Text) || !(
                prices[j] matches Some(p) && p.positive())
            },
    ensures
        list[k].member("error"@) matches JsonTree::Text(message) ==> fill_outcome(reply, prices)
            == Err::<Binary64, FillErrorView>(FillErrorView::Rejected(message)),
        !(list[k].member("error"@) is Text) && list[k].member("filled"@).member("avgPx"@) is Text
            && (prices[k] matches Some(p) && p.positive()) ==> fill_outcome(reply, prices) == Ok::<
            Binary64,
            FillErrorView,
        >(prices[k]->Some_0),
        !(list[k].member("error"@) is Text) && !(list[k].member("filled"@).member("avgPx"@) is Text
            && (prices[k] matches Some(p) && p.positive())) && list[k].member("resting"@) is Object
            ==> fill_outcome(reply, prices) == Err::<Binary64, FillErrorView>(
            FillErrorView::Resting,
        ),
{
    assert(reply.member("status"@).text() != Some("err"@));
    assert(statuses(reply) == list);
    assert forall|j: int| 0 <= j < k implies settles(#[trigger] list[j], number_at(prices, j))
        is None by {
        assert(number_at(prices, j) == prices[j]);
    }
    lemma_silent_statuses(list, prices, 0, k);
    assert(number_at(prices, k) == prices[k]);
}

/// A reply in which no status says anything, or which has no list of statuses, reports
/// no fill.
pub proof fn law_silent_reply_is_no_fill(
    reply: JsonTree,
    list: Seq<JsonTree>,
    prices: Seq<Option<Binary64>>,
)
    requires
        reply.member("status"@) != JsonTree::Text("err"@),
        reply.member("response"@).member("data"@).member("statuses"@) == JsonTree::Array(list)
            || !(reply.member("response"@).member("data"@).member("statuses"@) is Array),
        reply.member("response"@).member("data"@).member("statuses"@) == JsonTree::Array(list)
            ==> forall|j: int|
            #![trigger list[j]]
            0 <= j < list.len() ==> {
                &&& !(list[j].member("error"@) is Text)
                &&& !(list[j].member("resting"@) is Object)
                &&& !(list[j].member("filled"@).member("avgPx"@) is Text) || !(j < prices.len() && (
                prices[j] matches Some(p) && p.positive()))
            },
    ensures
        fill_outcome(reply, prices) == Err::<Binary64, FillErrorView>(FillErrorView::NotFilled),
{
    assert(reply.member("status"@).text() != Some("err"@));
    if reply.member("response"@).member("data"@).member("statuses"@) is Array {
        assert(statuses(reply) == list);
        assert forall|j: int|
            0 <= j < list.len() implies settles(#[trigger] list[j], number_at(prices, j)) is None by {
        }
        lemma_silent_statuses(list, prices, 0, list.len() as int);
    }
}

/// Where the lists and texts stand in the replies.
pub proof fn law_places_in_replies(reply: JsonTree, entry: JsonTree)
    ensures
        reply.member("response"@).member("data"@).member("statuses"@) matches JsonTree::Array(list)
            ==> statuses(reply) == list,
        !(reply.member("response"@).member("data"@).member("statuses"@) is Array) ==> statuses(
            reply,
        ).len() == 0,
        reply.member("assetPositions"@) matches JsonTree::Array(list) ==> asset_positions(reply)
            == list,
        !(reply.member("assetPositions"@) is Array) ==> asset_positions(reply).len() == 0,
        avg_px(entry) is Some <==> entry.member("filled"@).member("avgPx"@) is Text,
        entry.member("filled"@).member("avgPx"@) matches JsonTree::Text(text) ==> avg_px(entry)
            == Some(text),
        size_text(entry) is Some <==> entry.member("position"@).member("szi"@) is Text,
        entry.member("position"@).member("szi"@) matches JsonTree::Text(text) ==> size_text(entry)
            == Some(text),
{
}

/// The numbers parsed for a list stand in the list's order, and none stands beyond.
pub proof fn law_parsed_numbers(numbers: Seq<Option<Binary64>>, i: int)
    ensures
        0 <= i < numbers.len() ==> number_at(numbers, i) == numbers[i],
        i < 0 || i >= numbers.len() ==> number_at(numbers, i) is None,
{
}

/// A coin is reported as open exactly if some entry names it and gives a size that
/// reads as a number other than zero, on either side and however small.
pub proof fn law_open_means_any_size(
    reply: JsonTree,
    list: Seq<JsonTree>,
    sizes: Seq<Option<Binary64>>,
    coin: Seq<char>,
)
    requires
        reply.member("assetPositions"@) == JsonTree::Array(list),
        sizes.len() == list.len(),
    ensures
        open_coins(asset_positions(reply), sizes, asset_positions(reply).len()).contains(coin)
            <==> exists|i: int|
            #![trigger list[i]]
            0 <= i < list.len() && {
                &&& list[i].member("position"@).member("coin"@) == JsonTree::Text(coin)
                &&& list[i].member("position"@).member("szi"@) is Text
                &&& sizes[i] matches Some(size)
                &&& !size.is_nan()
                &&& size.number() != 0
            },
{
    assert(asset_positions(reply) == list);
    law_reported_coins_are_open(list, sizes, list.len(), coin);
    assert forall|i: int| 0 <= i < list.len() implies (open_coin(
        #[trigger] list[i],
        number_at(sizes, i),
    ) == Some(coin) <==> {
        &&& list[i].member("position"@).member("coin"@) == JsonTree::Text(coin)
        &&& list[i].member("position"@).member("szi"@) is Text
        &&& sizes[i] matches Some(size)
        &&& !size.is_nan()
        &&& size.number() != 0
    }) by {
        assert(number_at(sizes, i) == sizes[i]);
        if sizes[i] is Some {
            crate::number_laws::law_absolute_value(sizes[i]->Some_0);
        }
    }
}

/// Coins are reported in the order of their entries, and none twice for one entry.
pub proof fn law_open_coins_grow_by_entry(
    entries: Seq<JsonTree>,
    sizes: Seq<Option<Binary64>>,
    n: nat,
)
    requires
        n < entries.len(),
    ensures
        open_coins(entries, sizes, 0).len() == 0,
        open_coins(entries, sizes, n + 1) == (match open_coin(
            entries[n as int],
            number_at(sizes, n as int),
        ) {
            Some(coin) => open_coins(entries, sizes, n).push(coin),
            None => open_coins(entries, sizes, n),
        }),
{
}

/// The excerpt of a reply that is text has the reply's first two hundred bytes, or all
/// of them; that of any other reply is empty.
pub proof fn law_excerpt_is_the_beginning(bytes: Seq<u8>)
    requires
        excerpt_defined(bytes),
    ensures
        !valid_utf8(bytes) ==> excerpt(bytes).len() == 0,
        valid_utf8(bytes) && bytes.len() <= 200 ==> encode_utf8(excerpt(bytes)) == bytes,
        valid_utf8(bytes) && bytes.len() > 200 ==> encode_utf8(excerpt(bytes)) == bytes.take(200),
{
    if valid_utf8(bytes) {
        if bytes.len() <= 200 {
            vstd::utf8::decode_utf8_encode_utf8(bytes);
        } else {
            vstd::utf8::valid_utf8_split(bytes, 200);
            assert(bytes.subrange(0, 200) =~= bytes.take(200));
            vstd::utf8::decode_utf8_encode_utf8(bytes.take(200));
        }
    }
}

/// An excerpt is undefined exactly for a longer text whose byte two hundred lies inside
/// a character.
pub proof fn law_excerpt_is_defined(bytes: Seq<u8>)
    ensures
        excerpt_defined(bytes) <==> !valid_utf8(bytes) || bytes.len() <= 200 || is_char_boundary(
            bytes,
            200,
        ),
{
}

/// The messages of an order that was not filled, and which of them quote the reply.
pub proof fn law_fill_messages(cause: Seq<char>, raw: Seq<char>)
    ensures
        FillErrorView::NotJson(cause).message(raw) == "HL JSON parse error: "@ + cause
            + " — raw: "@ + raw,
        FillErrorView::Exchange.message(raw) == "HL error: "@ + raw,
        FillErrorView::Rejected(cause).message(raw) == "HL rejected: "@ + cause,
        FillErrorView::Resting.message(raw) == "HL order resting (not an IOC fill)"@,
        FillErrorView::NotFilled.message(raw) == "HL IOC not filled — raw: "@ + raw,
        FillErrorView::NotJson(cause).quotes_reply(),
        FillErrorView::Exchange.quotes_reply(),
        !FillErrorView::Rejected(cause).quotes_reply(),
        !FillErrorView::Resting.quotes_reply(),
        FillErrorView::NotFilled.quotes_reply(),
{
}

/// The messages of a submission that did not go through, and which of them quote the
/// exchange's answer.
pub proof fn law_submission_messages(
    ms: u64,
    text: Seq<char>,
    fill: FillErrorView,
    sign: crate::signing::SignErrorView,
    raw: Seq<char>,
)
    ensures
        ExecErrorView::KillSwitch.message(raw) == "KS"@,
        ExecErrorView::Throttled.message(raw) == "THROTTLE"@,
        ExecErrorView::RiskSize.message(raw) == "RISK_SIZE"@,
        ExecErrorView::InvalidSize(text).message(raw)
            == "INVALID_SIZE: rounded qty is zero for lot_size="@ + text,
        ExecErrorView::ImbalanceFilter.message(raw) == "OB_IMBALANCE_FILTER"@,
        ExecErrorView::SimNoFill.message(raw)
            == "SIM_NO_FILL: max positions or insufficient balance"@,
        ExecErrorView::Timeout(ms).message(raw) == "TIMEOUT_"@ + decimal(ms as nat) + "ms"@,
        ExecErrorView::Sign(sign).message(raw) == sign.message(),
        ExecErrorView::Fill(fill).message(raw) == fill.message(raw),
        ExecErrorView::Transport(text).message(raw) == text,
        ExecErrorView::Fill(fill).quotes_reply() == fill.quotes_reply(),
        !ExecErrorView::Sign(sign).quotes_reply(),
        !ExecErrorView::Transport(text).quotes_reply(),
        !ExecErrorView::Timeout(ms).quotes_reply(),
{
}

/// The views of errors and results show what they hold.
pub proof fn law_error_views(
    text: String,
    price: Binary64,
    fill: FillError,
    ms: u64,
    sign: crate::signing::SignError,
)
    ensures
        FillError::NotJson(text)@ == FillErrorView::NotJson(text@),
        FillError::Exchange@ == FillErrorView::Exchange,
        FillError::Rejected(text)@ == FillErrorView::Rejected(text@),
        FillError::Resting@ == FillErrorView::Resting,
        FillError::NotFilled@ == FillErrorView::NotFilled,
        ExecError::KillSwitch@ == ExecErrorView::KillSwitch,
        ExecError::Throttled@ == ExecErrorView::Throttled,
        ExecError::RiskSize@ == ExecErrorView::RiskSize,
        ExecError::InvalidSize(text)@ == ExecErrorView::InvalidSize(text@),
        ExecError::ImbalanceFilter@ == ExecErrorView::ImbalanceFilter,
        ExecError::SimNoFill@ == ExecErrorView::SimNoFill,
        ExecError::Timeout(ms)@ == ExecErrorView::Timeout(ms),
        ExecError::Sign(sign)@ == ExecErrorView::Sign(sign@),
        ExecError::Fill(fill)@ == ExecErrorView::Fill(fill@),
        ExecError::Transport(text)@ == ExecErrorView::Transport(text@),
        fill_view(Ok(price)) == Ok::<Binary64, FillErrorView>(price),
        fill_view(Err(fill)) == Err::<Binary64, FillErrorView>(fill@),
        text_view(Some(text)) == Some(text@),
        text_view(None) is None,
{
}

} // verus!
