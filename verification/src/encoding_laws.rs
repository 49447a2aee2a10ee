//! The bytes and texts of the encodings, spelled out.
use crate::action::{action_tree, optional_text, order_kind, order_tree};
use crate::signing::be_number;
use crate::text::{decimal, truth_text};
use crate::wire::{
    be_bytes, flag_byte, lemma_dict_of_one, lemma_dict_of_six, lemma_dict_of_three,
    lemma_pack_entries_push, lemma_render_entries_push, lemma_single_item, pack, pack_entries,
    pack_entry, pack_items, quoted, render, render_entries, render_entry, render_items, str_bytes,
    uint_bytes, Wire,
};
use crate::wire_laws::{lemma_be_bytes_len, pow256};
use vstd::prelude::*;
use vstd::utf8::{encode_utf8, is_ascii_chars};

verus! {

/// A row of bytes spells the number whose last byte is its last one and whose other
/// bytes spell the rest.
pub proof fn law_bytes_spell_numbers(bytes: Seq<u8>, last: u8)
    ensures
        be_number(Seq::<u8>::empty()) == 0,
        be_number(bytes.push(last)) == 256 * be_number(bytes) + last,
{
    assert(bytes.push(last).drop_last() =~= bytes);
}

/// The bytes of a number have the length asked for, and spell the number if that
/// length holds it.
pub proof fn law_numbers_have_their_bytes(n: nat, len: nat)
    ensures
        be_bytes(n, len).len() == len,
        n < pow256(len) ==> be_number(be_bytes(n, len)) == n,
    decreases len,
{
    lemma_be_bytes_len(n, len);
    if len > 0 {
        let k = (len - 1) as nat;
        law_numbers_have_their_bytes(n / 256, k);
        law_bytes_spell_numbers(be_bytes(n / 256, k), (n % 256) as u8);
    }
}

/// A length in bytes holds the powers of 256 below it.
pub proof fn law_bytes_hold_powers(len: nat)
    ensures
        pow256(0) == 1,
        pow256(len + 1) == 256 * pow256(len),
        pow256(2) == 0x1_0000,
        pow256(4) == 0x1_0000_0000,
        pow256(8) == 0x1_0000_0000_0000_0000,
{
    reveal_with_fuel(pow256, 9);
}

/// A packed string is a header and the string's bytes. The header is one byte up to 31
/// bytes, and otherwise a marker and the length, in the fewest bytes of one, two and
/// four that hold it.
pub proof fn law_string_format(utf8: Seq<u8>)
    requires
        utf8.len() < 0x1_0000_0000,
    ensures
        ({
            let n = utf8.len();
            let p = str_bytes(utf8);
            &&& n <= 31 ==> p.len() == 1 + n && p[0] == 0xa0 + n && p.skip(1) == utf8
            &&& 31 < n <= 0xff ==> p.len() == 2 + n && p[0] == 0xd9 && p[1] == n && p.skip(2)
                == utf8
            &&& 0xff < n <= 0xffff ==> p.len() == 3 + n && p[0] == 0xda && be_number(
                p.subrange(1, 3),
            ) == n && p.skip(3) == utf8
            &&& n > 0xffff ==> p.len() == 5 + n && p[0] == 0xdb && be_number(p.subrange(1, 5)) == n
                && p.skip(5) == utf8
        }),
{
    let n = utf8.len();
    let p = str_bytes(utf8);
    law_numbers_have_their_bytes(n, 2);
    law_numbers_have_their_bytes(n, 4);
    law_bytes_hold_powers(0);
    if n <= 31 {
        assert(p.skip(1) =~= utf8);
    } else if n <= 0xff {
        assert(p.skip(2) =~= utf8);
    } else if n <= 0xffff {
        assert(p.subrange(1, 3) =~= be_bytes(n, 2));
        assert(p.skip(3) =~= utf8);
    } else {
        assert(p.subrange(1, 5) =~= be_bytes(n, 4));
        assert(p.skip(5) =~= utf8);
    }
}

/// A packed unsigned integer is itself up to 127, and otherwise a marker and the
/// integer in the fewest bytes of one, two, four and eight that hold it.
pub proof fn law_integer_format(n: nat)
    requires
        n < 0x1_0000_0000_0000_0000,
    ensures
        ({
            let p = uint_bytes(n);
            &&& n <= 0x7f ==> p.len() == 1 && p[0] == n
            &&& 0x7f < n <= 0xff ==> p.len() == 2 && p[0] == 0xcc && p[1] == n
            &&& 0xff < n <= 0xffff ==> p.len() == 3 && p[0] == 0xcd && be_number(p.skip(1)) == n
            &&& 0xffff < n <= 0xffff_ffff ==> p.len() == 5 && p[0] == 0xce && be_number(p.skip(1))
                == n
            &&& n > 0xffff_ffff ==> p.len() == 9 && p[0] == 0xcf && be_number(p.skip(1)) == n
        }),
{
    let p = uint_bytes(n);
    law_numbers_have_their_bytes(n, 2);
    law_numbers_have_their_bytes(n, 4);
    law_numbers_have_their_bytes(n, 8);
    law_bytes_hold_powers(0);
    if n > 0xffff_ffff {
        assert(p.skip(1) =~= be_bytes(n, 8));
    } else if n > 0xffff {
        assert(p.skip(1) =~= be_bytes(n, 4));
    } else if n > 0xff {
        assert(p.skip(1) =~= be_bytes(n, 2));
    }
}

/// The packed forms of values: scalars as their formats say, lists and dictionaries as
/// a byte with their number of entries and then the entries.
pub proof fn law_packed_values(n: nat, b: bool, s: Seq<char>, items: Seq<Wire>, entries: Seq<
    (Seq<char>, Wire),
>)
    ensures
        pack(Wire::Uint(n)) == uint_bytes(n),
        pack(Wire::Flag(b)) == seq![if b { 0xc3u8 } else { 0xc2u8 }],
        flag_byte(b) == (if b {
            0xc3u8
        } else {
            0xc2u8
        }),
        pack(Wire::Text(s)) == str_bytes(encode_utf8(s)),
        items.len() <= 15 ==> pack(Wire::List(items)) == seq![(0x90 + items.len()) as u8]
            + pack_items(items),
        entries.len() <= 15 ==> pack(Wire::Dict(entries)) == seq![(0x80 + entries.len()) as u8]
            + pack_entries(entries),
{
}

/// The entries of lists and dictionaries follow one another, packed and rendered.
pub proof fn law_entries_follow_one_another(
    entries: Seq<(Seq<char>, Wire)>,
    key: Seq<char>,
    value: Wire,
)
    ensures
        pack_entries(Seq::<(Seq<char>, Wire)>::empty()).len() == 0,
        pack_entries(entries.push((key, value))) == pack_entries(entries) + str_bytes(
            encode_utf8(key),
        ) + pack(value),
        render_entries(Seq::<(Seq<char>, Wire)>::empty()).len() == 0,
        entries.len() == 0 ==> render_entries(entries.push((key, value))) == seq!['"'] + key
            + seq!['"', ':'] + render(value),
        entries.len() > 0 ==> render_entries(entries.push((key, value))) == render_entries(entries)
            + seq![',', '"'] + key + seq!['"', ':'] + render(value),
        pack_items(seq![value]) == pack(value),
        render_items(seq![value]) == render(value),
{
    lemma_pack_entries_push(entries, (key, value));
    lemma_render_entries_push(entries, (key, value));
    lemma_single_item(value);
    reveal(pack_entry);
    reveal(render_entry);
    assert(pack_entries(entries) + pack_entry((key, value)) =~= pack_entries(entries) + str_bytes(
        encode_utf8(key),
    ) + pack(value));
    assert(render_entry((key, value)) =~= seq!['"'] + key + seq!['"', ':'] + render(value));
    assert(render_entries(entries) + seq![','] + (seq!['"'] + key + seq!['"', ':'] + render(value))
        =~= render_entries(entries) + seq![',', '"'] + key + seq!['"', ':'] + render(value));
}

/// The JSON texts of values.
pub proof fn law_rendered_values(n: nat, b: bool, s: Seq<char>, items: Seq<Wire>, entries: Seq<
    (Seq<char>, Wire),
>)
    ensures
        render(Wire::Uint(n)) == decimal(n),
        render(Wire::Flag(b)) == truth_text(b),
        render(Wire::Text(s)) == seq!['"'] + s + seq!['"'],
        quoted(s) == seq!['"'] + s + seq!['"'],
        render(Wire::List(items)) == seq!['['] + render_items(items) + seq![']'],
        render(Wire::Dict(entries)) == seq!['{'] + render_entries(entries) + seq!['}'],
{
}

proof fn lemma_packed_word(s: Seq<char>, bytes: Seq<u8>)
    requires
        is_ascii_chars(s),
        s.len() <= 31,
        bytes.len() == s.len(),
        forall|i: int| 0 <= i < s.len() ==> #[trigger] bytes[i] == s[i] as u8,
    ensures
        str_bytes(encode_utf8(s)) == seq![(0xa0 + s.len()) as u8] + bytes,
{
    vstd::utf8::is_ascii_chars_encode_utf8(s);
    assert(encode_utf8(s) =~= bytes) by {
        assert forall|i: int| 0 <= i < s.len() implies encode_utf8(s)[i] == bytes[i] by {
            assert(bytes[i] == s[i] as u8);
        }
    }
}

/// The bytes of an order: its six entries in the order `a`, `b`, `p`, `s`, `r`, `t`.
pub proof fn law_order_bytes(
    asset: u8,
    is_buy: bool,
    price: Seq<char>,
    qty: Seq<char>,
    reduce_only: bool,
    kind: Wire,
)
    ensures
        pack(order_tree(asset, is_buy, price, qty, reduce_only, kind)) == seq![
            0x86u8,
            0xa1u8,
            0x61u8,
        ] + uint_bytes(asset as nat) + seq![0xa1u8, 0x62u8, if is_buy { 0xc3u8 } else { 0xc2u8 }]
            + seq![0xa1u8, 0x70u8] + str_bytes(encode_utf8(price)) + seq![0xa1u8, 0x73u8]
            + str_bytes(encode_utf8(qty)) + seq![
            0xa1u8,
            0x72u8,
            if reduce_only { 0xc3u8 } else { 0xc2u8 },
        ] + seq![0xa1u8, 0x74u8] + pack(kind),
{
    reveal_strlit("a");
    reveal_strlit("b");
    reveal_strlit("p");
    reveal_strlit("s");
    reveal_strlit("r");
    reveal_strlit("t");
    lemma_packed_word("a"@, seq![0x61u8]);
    lemma_packed_word("b"@, seq![0x62u8]);
    lemma_packed_word("p"@, seq![0x70u8]);
    lemma_packed_word("s"@, seq![0x73u8]);
    lemma_packed_word("r"@, seq![0x72u8]);
    lemma_packed_word("t"@, seq![0x74u8]);
    let e0 = ("a"@, Wire::Uint(asset as nat));
    let e1 = ("b"@, Wire::Flag(is_buy));
    let e2 = ("p"@, Wire::Text(price));
    let e3 = ("s"@, Wire::Text(qty));
    let e4 = ("r"@, Wire::Flag(reduce_only));
    let e5 = ("t"@, kind);
    lemma_dict_of_six(e0, e1, e2, e3, e4, e5);
    reveal(pack_entry);
    let u = uint_bytes(asset as nat);
    let p = str_bytes(encode_utf8(price));
    let q = str_bytes(encode_utf8(qty));
    let k = pack(kind);
    let fb = seq![0xa1u8, 0x62u8, if is_buy { 0xc3u8 } else { 0xc2u8 }];
    let fr = seq![0xa1u8, 0x72u8, if reduce_only { 0xc3u8 } else { 0xc2u8 }];
    assert(pack_entry(e0) =~= seq![0xa1u8, 0x61u8] + u);
    assert(pack_entry(e1) =~= fb);
    assert(pack_entry(e2) =~= seq![0xa1u8, 0x70u8] + p);
    assert(pack_entry(e3) =~= seq![0xa1u8, 0x73u8] + q);
    assert(pack_entry(e4) =~= fr);
    assert(pack_entry(e5) =~= seq![0xa1u8, 0x74u8] + k);
    let all = pack(order_tree(asset, is_buy, price, qty, reduce_only, kind));
    assert(all == seq![0x86u8] + (seq![0xa1u8, 0x61u8] + u) + fb + (seq![0xa1u8, 0x70u8] + p) + (
    seq![0xa1u8, 0x73u8] + q) + fr + (seq![0xa1u8, 0x74u8] + k));
    assert(all =~= seq![0x86u8, 0xa1u8, 0x61u8] + u + fb + seq![0xa1u8, 0x70u8] + p + seq![
        0xa1u8,
        0x73u8,
    ] + q + fr + seq![0xa1u8, 0x74u8] + k);
}

/// The bytes of an order's type: a stop that trades at the market beyond its trigger
/// price, or a limit order with its time in force.
pub proof fn law_kind_bytes(
    tif_or_trigger: Seq<char>,
    trigger_px: Option<Seq<char>>,
    price: Seq<char>,
)
    ensures
        tif_or_trigger != "trigger"@ ==> pack(order_kind(tif_or_trigger, trigger_px, price))
            == seq![0x81u8, 0xa5u8, 0x6cu8, 0x69u8, 0x6du8, 0x69u8, 0x74u8] + seq![
            0x81u8,
            0xa3u8,
            0x74u8,
            0x69u8,
            0x66u8,
        ] + str_bytes(encode_utf8(tif_or_trigger)),
        tif_or_trigger == "trigger"@ ==> pack(order_kind(tif_or_trigger, trigger_px, price))
            == seq![0x81u8, 0xa7u8, 0x74u8, 0x72u8, 0x69u8, 0x67u8, 0x67u8, 0x65u8, 0x72u8] + seq![
            0x83u8,
            0xa8u8,
            0x69u8,
            0x73u8,
            0x4du8,
            0x61u8,
            0x72u8,
            0x6bu8,
            0x65u8,
            0x74u8,
            0xc3u8,
        ] + seq![0xa9u8, 0x74u8, 0x72u8, 0x69u8, 0x67u8, 0x67u8, 0x65u8, 0x72u8, 0x50u8, 0x78u8]
            + str_bytes(
            encode_utf8(
                match trigger_px {
                    Some(px) => px,
                    None => price,
                },
            ),
        ) + seq![0xa4u8, 0x74u8, 0x70u8, 0x73u8, 0x6cu8, 0xa2u8, 0x73u8, 0x6cu8],
{
    reveal(pack_entry);
    if tif_or_trigger == "trigger"@ {
        let px = match trigger_px {
            Some(px) => px,
            None => price,
        };
        reveal_strlit("trigger");
        reveal_strlit("isMarket");
        reveal_strlit("triggerPx");
        reveal_strlit("tpsl");
        reveal_strlit("sl");
        let w_trigger = seq![0x74u8, 0x72u8, 0x69u8, 0x67u8, 0x67u8, 0x65u8, 0x72u8];
        let w_market = seq![0x69u8, 0x73u8, 0x4du8, 0x61u8, 0x72u8, 0x6bu8, 0x65u8, 0x74u8];
        let w_px = seq![0x74u8, 0x72u8, 0x69u8, 0x67u8, 0x67u8, 0x65u8, 0x72u8, 0x50u8, 0x78u8];
        lemma_packed_word("trigger"@, w_trigger);
        lemma_packed_word("isMarket"@, w_market);
        lemma_packed_word("triggerPx"@, w_px);
        lemma_packed_word("tpsl"@, seq![0x74u8, 0x70u8, 0x73u8, 0x6cu8]);
        lemma_packed_word("sl"@, seq![0x73u8, 0x6cu8]);
        let e0 = ("isMarket"@, Wire::Flag(true));
        let e1 = ("triggerPx"@, Wire::Text(px));
        let e2 = ("tpsl"@, Wire::Text("sl"@));
        let inner = Wire::Dict(seq![e0, e1, e2]);
        lemma_dict_of_three(e0, e1, e2);
        lemma_dict_of_one(("trigger"@, inner));
        let p = str_bytes(encode_utf8(px));
        let tail = seq![0xa4u8, 0x74u8, 0x70u8, 0x73u8, 0x6cu8, 0xa2u8, 0x73u8, 0x6cu8];
        assert(pack_entry(e0) =~= seq![0xa8u8] + w_market + seq![0xc3u8]);
        assert(pack_entry(e1) =~= seq![0xa9u8] + w_px + p);
        assert(pack_entry(e2) =~= tail);
        assert(pack(inner) == seq![0x83u8] + (seq![0xa8u8] + w_market + seq![0xc3u8]) + (seq![0xa9u8]
            + w_px + p) + tail);
        assert(pack_entry(("trigger"@, inner)) == seq![0xa7u8] + w_trigger + pack(inner));
        assert(pack(order_kind(tif_or_trigger, trigger_px, price)) =~= seq![
            0x81u8,
            0xa7u8,
            0x74u8,
            0x72u8,
            0x69u8,
            0x67u8,
            0x67u8,
            0x65u8,
            0x72u8,
        ] + seq![
            0x83u8,
            0xa8u8,
            0x69u8,
            0x73u8,
            0x4du8,
            0x61u8,
            0x72u8,
            0x6bu8,
            0x65u8,
            0x74u8,
            0xc3u8,
        ] + seq![0xa9u8, 0x74u8, 0x72u8, 0x69u8, 0x67u8, 0x67u8, 0x65u8, 0x72u8, 0x50u8, 0x78u8]
            + p + tail);
    } else {
        reveal_strlit("limit");
        reveal_strlit("tif");
        lemma_packed_word("limit"@, seq![0x6cu8, 0x69u8, 0x6du8, 0x69u8, 0x74u8]);
        lemma_packed_word("tif"@, seq![0x74u8, 0x69u8, 0x66u8]);
        let e0 = ("tif"@, Wire::Text(tif_or_trigger));
        let inner = Wire::Dict(seq![e0]);
        lemma_dict_of_one(e0);
        lemma_dict_of_one(("limit"@, inner));
        assert(pack(order_kind(tif_or_trigger, trigger_px, price)) =~= seq![
            0x81u8,
            0xa5u8,
            0x6cu8,
            0x69u8,
            0x6du8,
            0x69u8,
            0x74u8,
        ] + seq![0x81u8, 0xa3u8, 0x74u8, 0x69u8, 0x66u8] + str_bytes(encode_utf8(tif_or_trigger)));
    }
}

/// The bytes of an action: its type, its single order, and that it is not grouped.
pub proof fn law_action_bytes(order: Wire)
    ensures
        pack(action_tree(order)) == seq![0x83u8, 0xa4u8, 0x74u8, 0x79u8, 0x70u8, 0x65u8] + seq![
            0xa5u8,
            0x6fu8,
            0x72u8,
            0x64u8,
            0x65u8,
            0x72u8,
        ] + seq![0xa6u8, 0x6fu8, 0x72u8, 0x64u8, 0x65u8, 0x72u8, 0x73u8, 0x91u8] + pack(order)
            + seq![
            0xa8u8,
            0x67u8,
            0x72u8,
            0x6fu8,
            0x75u8,
            0x70u8,
            0x69u8,
            0x6eu8,
            0x67u8,
            0xa2u8,
            0x6eu8,
            0x61u8,
        ],
{
    reveal_strlit("type");
    reveal_strlit("order");
    reveal_strlit("orders");
    reveal_strlit("grouping");
    reveal_strlit("na");
    let w_order = seq![0x6fu8, 0x72u8, 0x64u8, 0x65u8, 0x72u8];
    let w_orders = seq![0x6fu8, 0x72u8, 0x64u8, 0x65u8, 0x72u8, 0x73u8];
    let w_grouping = seq![0x67u8, 0x72u8, 0x6fu8, 0x75u8, 0x70u8, 0x69u8, 0x6eu8, 0x67u8];
    lemma_packed_word("type"@, seq![0x74u8, 0x79u8, 0x70u8, 0x65u8]);
    lemma_packed_word("order"@, w_order);
    lemma_packed_word("orders"@, w_orders);
    lemma_packed_word("grouping"@, w_grouping);
    lemma_packed_word("na"@, seq![0x6eu8, 0x61u8]);
    let e0 = ("type"@, Wire::Text("order"@));
    let e1 = ("orders"@, Wire::List(seq![order]));
    let e2 = ("grouping"@, Wire::Text("na"@));
    lemma_dict_of_three(e0, e1, e2);
    lemma_single_item(order);
    reveal(pack_entry);
    let o = pack(order);
    assert(pack(Wire::List(seq![order])) =~= seq![0x91u8] + o);
    assert(pack_entry(e0) =~= seq![0xa4u8, 0x74u8, 0x79u8, 0x70u8, 0x65u8] + (seq![0xa5u8]
        + w_order));
    assert(pack_entry(e1) =~= seq![0xa6u8] + w_orders + seq![0x91u8] + o);
    assert(pack_entry(e2) =~= seq![0xa8u8] + w_grouping + seq![0xa2u8, 0x6eu8, 0x61u8]);
    assert(pack(action_tree(order)) =~= seq![0x83u8, 0xa4u8, 0x74u8, 0x79u8, 0x70u8, 0x65u8] + seq![
        0xa5u8,
        0x6fu8,
        0x72u8,
        0x64u8,
        0x65u8,
        0x72u8,
    ] + seq![0xa6u8, 0x6fu8, 0x72u8, 0x64u8, 0x65u8, 0x72u8, 0x73u8, 0x91u8] + o + seq![
        0xa8u8,
        0x67u8,
        0x72u8,
        0x6fu8,
        0x75u8,
        0x70u8,
        0x69u8,
        0x6eu8,
        0x67u8,
        0xa2u8,
        0x6eu8,
        0x61u8,
    ]);
}

proof fn lemma_rendered_words()
    ensures
        "a"@ == seq!['a'],
        "b"@ == seq!['b'],
        "p"@ == seq!['p'],
        "s"@ == seq!['s'],
        "r"@ == seq!['r'],
        "t"@ == seq!['t'],
        "{\"a\":"@ == seq!['{', '"', 'a', '"', ':'],
        ",\"b\":"@ == seq![',', '"', 'b', '"', ':'],
        ",\"p\":\""@ == seq![',', '"', 'p', '"', ':', '"'],
        "\",\"s\":\""@ == seq!['"', ',', '"', 's', '"', ':', '"'],
        "\",\"r\":"@ == seq!['"', ',', '"', 'r', '"', ':'],
        ",\"t\":"@ == seq![',', '"', 't', '"', ':'],
        "}"@ == seq!['}'],
{
    reveal_strlit("a");
    reveal_strlit("b");
    reveal_strlit("p");
    reveal_strlit("s");
    reveal_strlit("r");
    reveal_strlit("t");
    reveal_strlit("{\"a\":");
    reveal_strlit(",\"b\":");
    reveal_strlit(",\"p\":\"");
    reveal_strlit("\",\"s\":\"");
    reveal_strlit("\",\"r\":");
    reveal_strlit(",\"t\":");
    reveal_strlit("}");
}

/// An entry with the character before it.
proof fn lemma_rendered_entry(lead: char, key: char, value: Wire)
    ensures
        seq![lead] + render_entry((seq![key], value)) == seq![lead, '"', key, '"', ':'] + render(
            value,
        ),
{
    reveal(render_entry);
    assert(seq![lead] + render_entry((seq![key], value)) =~= seq![lead, '"', key, '"', ':']
        + render(value));
}

proof fn lemma_weave(
    u: Seq<char>,
    fb: Seq<char>,
    p: Seq<char>,
    q: Seq<char>,
    fr: Seq<char>,
    k: Seq<char>,
)
    ensures
        (seq!['{', '"', 'a', '"', ':'] + u) + (seq![',', '"', 'b', '"', ':'] + fb) + (seq![
            ',',
            '"',
            'p',
            '"',
            ':',
        ] + (seq!['"'] + p + seq!['"'])) + (seq![',', '"', 's', '"', ':'] + (seq!['"'] + q + seq![
            '"',
        ])) + (seq![',', '"', 'r', '"', ':'] + fr) + (seq![',', '"', 't', '"', ':'] + k) + seq!['}']
            == seq!['{', '"', 'a', '"', ':'] + u + seq![',', '"', 'b', '"', ':'] + fb + seq![
            ',',
            '"',
            'p',
            '"',
            ':',
            '"',
        ] + p + seq!['"', ',', '"', 's', '"', ':', '"'] + q + seq!['"', ',', '"', 'r', '"', ':']
            + fr + seq![',', '"', 't', '"', ':'] + k + seq!['}'],
{
    let la = seq!['{', '"', 'a', '"', ':'];
    let lb = seq![',', '"', 'b', '"', ':'];
    let lp = seq![',', '"', 'p', '"', ':', '"'];
    let ls = seq!['"', ',', '"', 's', '"', ':', '"'];
    let lr = seq!['"', ',', '"', 'r', '"', ':'];
    let lt = seq![',', '"', 't', '"', ':'];
    let x1 = (la + u) + (lb + fb);
    assert(x1 =~= la + u + lb + fb);
    let x2 = x1 + (seq![',', '"', 'p', '"', ':'] + (seq!['"'] + p + seq!['"']));
    assert(x2 =~= x1 + lp + p + seq!['"']);
    let y2 = x1 + lp + p;
    let x3 = x2 + (seq![',', '"', 's', '"', ':'] + (seq!['"'] + q + seq!['"']));
    assert(x3 =~= y2 + ls + q + seq!['"']);
    let y3 = y2 + ls + q;
    let x4 = x3 + (seq![',', '"', 'r', '"', ':'] + fr);
    assert(x4 =~= y3 + lr + fr);
    let x5 = x4 + (lt + k);
    assert(x5 =~= x4 + lt + k);
}

/// The JSON text of an order.
pub proof fn law_order_text(
    asset: u8,
    is_buy: bool,
    price: Seq<char>,
    qty: Seq<char>,
    reduce_only: bool,
    kind: Wire,
)
    ensures
        render(order_tree(asset, is_buy, price, qty, reduce_only, kind)) == "{\"a\":"@ + decimal(
            asset as nat,
        ) + ",\"b\":"@ + truth_text(is_buy) + ",\"p\":\""@ + price + "\",\"s\":\""@ + qty
            + "\",\"r\":"@ + truth_text(reduce_only) + ",\"t\":"@ + render(kind) + "}"@,
{
    lemma_rendered_words();
    let v0 = Wire::Uint(asset as nat);
    let v1 = Wire::Flag(is_buy);
    let v2 = Wire::Text(price);
    let v3 = Wire::Text(qty);
    let v4 = Wire::Flag(reduce_only);
    let e0 = (seq!['a'], v0);
    let e1 = (seq!['b'], v1);
    let e2 = (seq!['p'], v2);
    let e3 = (seq!['s'], v3);
    let e4 = (seq!['r'], v4);
    let e5 = (seq!['t'], kind);
    lemma_dict_of_six(e0, e1, e2, e3, e4, e5);
    lemma_rendered_entry('{', 'a', v0);
    lemma_rendered_entry(',', 'b', v1);
    lemma_rendered_entry(',', 'p', v2);
    lemma_rendered_entry(',', 's', v3);
    lemma_rendered_entry(',', 'r', v4);
    lemma_rendered_entry(',', 't', kind);
    let r = render(order_tree(asset, is_buy, price, qty, reduce_only, kind));
    let comma = seq![','];
    lemma_regroup(
        seq!['{'] + render_entry(e0),
        render_entry(e1),
        render_entry(e2),
        render_entry(e3),
        render_entry(e4),
        render_entry(e5),
        comma,
        seq!['}'],
    );
    assert(r == (seq!['{'] + render_entry(e0)) + (comma + render_entry(e1)) + (comma
        + render_entry(e2)) + (comma + render_entry(e3)) + (comma + render_entry(e4)) + (comma
        + render_entry(e5)) + seq!['}']);
    law_rendered_values(asset as nat, is_buy, price, seq![], seq![]);
    law_rendered_values(asset as nat, reduce_only, qty, seq![], seq![]);
    lemma_weave(
        decimal(asset as nat),
        truth_text(is_buy),
        price,
        qty,
        truth_text(reduce_only),
        render(kind),
    );
}

proof fn lemma_regroup(
    a: Seq<char>,
    b: Seq<char>,
    c: Seq<char>,
    d: Seq<char>,
    e: Seq<char>,
    f: Seq<char>,
    comma: Seq<char>,
    end: Seq<char>,
)
    ensures
        a + comma + b + comma + c + comma + d + comma + e + comma + f + end == a + (comma + b) + (
        comma + c) + (comma + d) + (comma + e) + (comma + f) + end,
{
    let x1 = a + comma + b;
    assert(x1 =~= a + (comma + b));
    let x2 = x1 + comma + c;
    assert(x2 =~= x1 + (comma + c));
    let x3 = x2 + comma + d;
    assert(x3 =~= x2 + (comma + d));
    let x4 = x3 + comma + e;
    assert(x4 =~= x3 + (comma + e));
    let x5 = x4 + comma + f;
    assert(x5 =~= x4 + (comma + f));
}

/// The JSON text of an order's type.
pub proof fn law_kind_text(
    tif_or_trigger: Seq<char>,
    trigger_px: Option<Seq<char>>,
    price: Seq<char>,
)
    ensures
        tif_or_trigger != "trigger"@ ==> render(order_kind(tif_or_trigger, trigger_px, price))
            == "{\"limit\":{\"tif\":\""@ + tif_or_trigger + "\"}}"@,
        tif_or_trigger == "trigger"@ ==> render(order_kind(tif_or_trigger, trigger_px, price))
            == "{\"trigger\":{\"isMarket\":true,\"triggerPx\":\""@ + (match trigger_px {
            Some(px) => px,
            None => price,
        }) + "\",\"tpsl\":\"sl\"}}"@,
{
    reveal(render_entry);
    if tif_or_trigger == "trigger"@ {
        let px = match trigger_px {
            Some(px) => px,
            None => price,
        };
        reveal_strlit("trigger");
        reveal_strlit("isMarket");
        reveal_strlit("triggerPx");
        reveal_strlit("tpsl");
        reveal_strlit("sl");
        reveal_strlit("true");
        reveal_strlit("{\"trigger\":{\"isMarket\":true,\"triggerPx\":\"");
        reveal_strlit("\",\"tpsl\":\"sl\"}}");
        let e0 = ("isMarket"@, Wire::Flag(true));
        let e1 = ("triggerPx"@, Wire::Text(px));
        let e2 = ("tpsl"@, Wire::Text("sl"@));
        let inner = Wire::Dict(seq![e0, e1, e2]);
        lemma_dict_of_three(e0, e1, e2);
        lemma_dict_of_one(("trigger"@, inner));
        assert(render_entry(e0) =~= quoted("isMarket"@) + seq![':'] + "true"@);
        assert(render_entry(e1) =~= quoted("triggerPx"@) + seq![':'] + quoted(px));
        assert(render_entry(e2) =~= quoted("tpsl"@) + seq![':'] + quoted("sl"@));
        let head = "{\"trigger\":{\"isMarket\":true,\"triggerPx\":\""@;
        let tail = "\",\"tpsl\":\"sl\"}}"@;
        assert(seq!['{'] + quoted("trigger"@) + seq![':', '{'] + quoted("isMarket"@) + seq![':']
            + "true"@ + seq![','] + quoted("triggerPx"@) + seq![':', '"'] =~= head);
        assert(seq!['"', ','] + quoted("tpsl"@) + seq![':'] + quoted("sl"@) + seq!['}', '}']
            =~= tail);
        assert(render(order_kind(tif_or_trigger, trigger_px, price)) =~= head + px + tail);
    } else {
        reveal_strlit("limit");
        reveal_strlit("tif");
        reveal_strlit("{\"limit\":{\"tif\":\"");
        reveal_strlit("\"}}");
        let e0 = ("tif"@, Wire::Text(tif_or_trigger));
        let inner = Wire::Dict(seq![e0]);
        lemma_dict_of_one(e0);
        lemma_dict_of_one(("limit"@, inner));
        assert(render(order_kind(tif_or_trigger, trigger_px, price)) =~= "{\"limit\":{\"tif\":\""@
            + tif_or_trigger + "\"}}"@);
    }
}

/// The JSON text of an action.
pub proof fn law_action_text(order: Wire)
    ensures
        render(action_tree(order)) == "{\"type\":\"order\",\"orders\":["@ + render(order)
            + "],\"grouping\":\"na\"}"@,
{
    reveal_strlit("type");
    reveal_strlit("order");
    reveal_strlit("orders");
    reveal_strlit("grouping");
    reveal_strlit("na");
    reveal_strlit("{\"type\":\"order\",\"orders\":[");
    reveal_strlit("],\"grouping\":\"na\"}");
    let e0 = ("type"@, Wire::Text("order"@));
    let e1 = ("orders"@, Wire::List(seq![order]));
    let e2 = ("grouping"@, Wire::Text("na"@));
    lemma_dict_of_three(e0, e1, e2);
    lemma_single_item(order);
    reveal(render_entry);
    let head = "{\"type\":\"order\",\"orders\":["@;
    let tail = "],\"grouping\":\"na\"}"@;
    assert(seq!['{'] + quoted("type"@) + seq![':'] + quoted("order"@) + seq![','] + quoted(
        "orders"@,
    ) + seq![':', '['] =~= head);
    assert(seq![']', ','] + quoted("grouping"@) + seq![':'] + quoted("na"@) + seq!['}'] =~= tail);
    assert(render(action_tree(order)) =~= head + render(order) + tail);
}

/// An optional string slice shows its text.
pub proof fn law_optional_text(text: &str)
    ensures
        optional_text(Some(text)) == Some(text@),
        optional_text(None) is None,
{
}

} // verus!
