//! The order action: its MessagePack bytes, which are signed, and its JSON text,
//! which is sent.
use crate::text::{decimal, push_decimal, push_truth, same_text, truth_text};
use crate::wire::{
    be_bytes, flag_byte, lemma_dict_of_one, lemma_dict_of_six, lemma_dict_of_three,
    lemma_single_item, pack, pack_entry, quoted, render, render_entry, str_bytes, uint_bytes, Wire,
};
use vstd::prelude::*;
use vstd::string::StringExecFns;
use vstd::utf8::encode_utf8;

verus! {

/// The text behind an optional string slice.
pub open spec fn optional_text(text: Option<&str>) -> Option<Seq<char>> {
    match text {
        Some(s) => Some(s@),
        None => None,
    }
}

/// The order's type: a stop that triggers at a price of its own (the limit price
/// where none is given), or a limit order with the given time in force.
pub open spec fn order_kind(
    tif_or_trigger: Seq<char>,
    trigger_px: Option<Seq<char>>,
    price: Seq<char>,
) -> Wire {
    if tif_or_trigger == "trigger"@ {
        let px = match trigger_px {
            Some(px) => px,
            None => price,
        };
        Wire::Dict(
            seq![
                (
                    "trigger"@,
                    Wire::Dict(
                        seq![
                            ("isMarket"@, Wire::Flag(true)),
                            ("triggerPx"@, Wire::Text(px)),
                            ("tpsl"@, Wire::Text("sl"@)),
                        ],
                    ),
                ),
            ],
        )
    } else {
        Wire::Dict(
            seq![("limit"@, Wire::Dict(seq![("tif"@, Wire::Text(tif_or_trigger))]))],
        )
    }
}

/// One order of an action.
pub open spec fn order_tree(
    asset_id: u8,
    is_buy: bool,
    price: Seq<char>,
    qty: Seq<char>,
    reduce_only: bool,
    kind: Wire,
) -> Wire {
    Wire::Dict(
        seq![
            ("a"@, Wire::Uint(asset_id as nat)),
            ("b"@, Wire::Flag(is_buy)),
            ("p"@, Wire::Text(price)),
            ("s"@, Wire::Text(qty)),
            ("r"@, Wire::Flag(reduce_only)),
            ("t"@, kind),
        ],
    )
}

/// An action that places one order.
pub open spec fn action_tree(order: Wire) -> Wire {
    Wire::Dict(
        seq![
            ("type"@, Wire::Text("order"@)),
            ("orders"@, Wire::List(seq![order])),
            ("grouping"@, Wire::Text("na"@)),
        ],
    )
}

/// Appends the lowest `len` bytes of `n`, most significant first.
pub(crate) fn push_be(b: &mut Vec<u8>, n: u64, len: u64)
    ensures
        final(b)@ == old(b)@ + be_bytes(n as nat, len as nat),
    decreases len,
{
    if len > 0 {
        push_be(b, n / 256, len - 1);
        b.push((n % 256) as u8);
    }
    assert(b@ =~= old(b)@ + be_bytes(n as nat, len as nat));
}

/// Appends a MessagePack string.
pub fn mp_str(b: &mut Vec<u8>, s: &str)
    ensures
        final(b)@ == old(b)@ + str_bytes(encode_utf8(s@)),
{
    let bytes: &[u8] = s.as_bytes();
    let n: usize = bytes.len();
    if n <= 31 {
        b.push(0xa0 + n as u8);
    } else if n <= 0xff {
        b.push(0xd9);
        b.push(n as u8);
    } else if n <= 0xffff {
        b.push(0xda);
        push_be(b, n as u64, 2);
    } else {
        b.push(0xdb);
        push_be(b, n as u64, 4);
    }
    b.extend_from_slice(bytes);
    assert(b@ =~= old(b)@ + str_bytes(encode_utf8(s@)));
}

/// Appends a MessagePack unsigned integer.
pub fn mp_uint(b: &mut Vec<u8>, n: u64)
    ensures
        final(b)@ == old(b)@ + uint_bytes(n as nat),
{
    if n <= 0x7f {
        b.push(n as u8);
    } else if n <= 0xff {
        b.push(0xcc);
        b.push(n as u8);
    } else if n <= 0xffff {
        b.push(0xcd);
        push_be(b, n, 2);
    } else if n <= 0xffff_ffff {
        b.push(0xce);
        push_be(b, n, 4);
    } else {
        b.push(0xcf);
        push_be(b, n, 8);
    }
    assert(b@ =~= old(b)@ + uint_bytes(n as nat));
}

fn mp_flag(b: &mut Vec<u8>, flag: bool)
    ensures
        final(b)@ == old(b)@.push(flag_byte(flag)),
{
    if flag {
        b.push(0xc3);
    } else {
        b.push(0xc2);
    }
}

fn mp_text_entry(b: &mut Vec<u8>, key: &str, value: &str)
    ensures
        final(b)@ == old(b)@ + pack_entry((key@, Wire::Text(value@))),
{
    reveal(pack_entry);
    mp_str(b, key);
    mp_str(b, value);
    assert(pack(Wire::Text(value@)) == str_bytes(encode_utf8(value@)));
    assert(b@ =~= old(b)@ + pack_entry((key@, Wire::Text(value@))));
}

fn mp_flag_entry(b: &mut Vec<u8>, key: &str, flag: bool)
    ensures
        final(b)@ == old(b)@ + pack_entry((key@, Wire::Flag(flag))),
{
    reveal(pack_entry);
    mp_str(b, key);
    mp_flag(b, flag);
    assert(pack(Wire::Flag(flag)) == seq![flag_byte(flag)]);
    assert(b@ =~= old(b)@ + pack_entry((key@, Wire::Flag(flag))));
}

fn mp_uint_entry(b: &mut Vec<u8>, key: &str, n: u64)
    ensures
        final(b)@ == old(b)@ + pack_entry((key@, Wire::Uint(n as nat))),
{
    reveal(pack_entry);
    mp_str(b, key);
    mp_uint(b, n);
    assert(pack(Wire::Uint(n as nat)) == uint_bytes(n as nat));
    assert(b@ =~= old(b)@ + pack_entry((key@, Wire::Uint(n as nat))));
}

/// Appends the order's type.
fn mp_order_kind(b: &mut Vec<u8>, tif_or_trigger: &str, trigger_px: Option<&str>, price_w: &str)
    ensures
        final(b)@ == old(b)@ + pack(
            order_kind(tif_or_trigger@, optional_text(trigger_px), price_w@),
        ),
{
    b.push(0x81);
    if same_text(tif_or_trigger, "trigger") {
        let px: &str = match trigger_px {
            Some(px) => px,
            None => price_w,
        };
        mp_str(b, "trigger");
        b.push(0x83);
        mp_flag_entry(b, "isMarket", true);
        mp_text_entry(b, "triggerPx", px);
        mp_text_entry(b, "tpsl", "sl");
        proof {
            let e0 = ("isMarket"@, Wire::Flag(true));
            let e1 = ("triggerPx"@, Wire::Text(px@));
            let e2 = ("tpsl"@, Wire::Text("sl"@));
            let inner = Wire::Dict(seq![e0, e1, e2]);
            lemma_dict_of_three(e0, e1, e2);
            lemma_dict_of_one(("trigger"@, inner));
            reveal(pack_entry);
            assert(b@ =~= old(b)@ + pack(Wire::Dict(seq![("trigger"@, inner)])));
        }
    } else {
        mp_str(b, "limit");
        b.push(0x81);
        mp_text_entry(b, "tif", tif_or_trigger);
        proof {
            let e0 = ("tif"@, Wire::Text(tif_or_trigger@));
            let inner = Wire::Dict(seq![e0]);
            lemma_dict_of_one(e0);
            lemma_dict_of_one(("limit"@, inner));
            reveal(pack_entry);
            assert(b@ =~= old(b)@ + pack(Wire::Dict(seq![("limit"@, inner)])));
        }
    }
}

/// Appends one order.
fn mp_order(
    b: &mut Vec<u8>,
    asset_id: u8,
    is_buy: bool,
    price_w: &str,
    qty_w: &str,
    reduce_only: bool,
    tif_or_trigger: &str,
    trigger_px: Option<&str>,
)
    ensures
        final(b)@ == old(b)@ + pack(
            order_tree(
                asset_id,
                is_buy,
                price_w@,
                qty_w@,
                reduce_only,
                order_kind(tif_or_trigger@, optional_text(trigger_px), price_w@),
            ),
        ),
{
    let ghost kind = order_kind(tif_or_trigger@, optional_text(trigger_px), price_w@);
    b.push(0x86);
    mp_uint_entry(b, "a", asset_id as u64);
    mp_flag_entry(b, "b", is_buy);
    mp_text_entry(b, "p", price_w);
    mp_text_entry(b, "s", qty_w);
    mp_flag_entry(b, "r", reduce_only);
    let ghost before_kind = b@;
    mp_str(b, "t");
    mp_order_kind(b, tif_or_trigger, trigger_px, price_w);
    proof {
        let e0 = ("a"@, Wire::Uint(asset_id as nat));
        let e1 = ("b"@, Wire::Flag(is_buy));
        let e2 = ("p"@, Wire::Text(price_w@));
        let e3 = ("s"@, Wire::Text(qty_w@));
        let e4 = ("r"@, Wire::Flag(reduce_only));
        let e5 = ("t"@, kind);
        assert(b@ == before_kind + pack_entry(e5)) by {
            reveal(pack_entry);
            assert(b@ =~= before_kind + pack_entry(e5));
        }
        lemma_dict_of_six(e0, e1, e2, e3, e4, e5);
        assert(b@ =~= old(b)@ + (seq![0x86u8] + pack_entry(e0) + pack_entry(e1) + pack_entry(e2)
            + pack_entry(e3) + pack_entry(e4) + pack_entry(e5)));
    }
}

/// The MessagePack bytes of the action that places one order.
pub fn hl_action_msgpack(
    asset_id: u8,
    is_buy: bool,
    price_w: &str,
    qty_w: &str,
    reduce_only: bool,
    tif_or_trigger: &str,
    trigger_px: Option<&str>,
) -> (r: Vec<u8>)
    ensures
        r@ == pack(
            action_tree(
                order_tree(
                    asset_id,
                    is_buy,
                    price_w@,
                    qty_w@,
                    reduce_only,
                    order_kind(tif_or_trigger@, optional_text(trigger_px), price_w@),
                ),
            ),
        ),
{
    let ghost kind = order_kind(tif_or_trigger@, optional_text(trigger_px), price_w@);
    let ghost order = order_tree(asset_id, is_buy, price_w@, qty_w@, reduce_only, kind);
    let mut b: Vec<u8> = Vec::with_capacity(128);
    b.push(0x83);
    mp_text_entry(&mut b, "type", "order");
    let ghost before_orders = b@;
    mp_str(&mut b, "orders");
    b.push(0x91);
    mp_order(&mut b, asset_id, is_buy, price_w, qty_w, reduce_only, tif_or_trigger, trigger_px);
    let ghost after_orders = b@;
    mp_text_entry(&mut b, "grouping", "na");
    proof {
        let e0 = ("type"@, Wire::Text("order"@));
        let e1 = ("orders"@, Wire::List(seq![order]));
        let e2 = ("grouping"@, Wire::Text("na"@));
        lemma_single_item(order);
        assert(pack(Wire::List(seq![order])) =~= seq![0x91u8] + pack(order));
        assert(after_orders == before_orders + pack_entry(e1)) by {
            reveal(pack_entry);
            assert(after_orders =~= before_orders + pack_entry(e1));
        }
        lemma_dict_of_three(e0, e1, e2);
        assert(b@ =~= seq![0x83u8] + pack_entry(e0) + pack_entry(e1) + pack_entry(e2));
    }
    b
}

pub(crate) fn push_quoted(out: &mut String, s: &str)
    ensures
        final(out)@ == old(out)@ + quoted(s@),
{
    proof {
        reveal_strlit("\"");
    }
    out.append("\"");
    out.append(s);
    out.append("\"");
    assert(out@ =~= old(out)@ + quoted(s@));
}

pub(crate) fn push_key(out: &mut String, key: &str)
    ensures
        final(out)@ == old(out)@ + quoted(key@) + seq![':'],
{
    proof {
        reveal_strlit(":");
    }
    push_quoted(out, key);
    out.append(":");
    assert(out@ =~= old(out)@ + quoted(key@) + seq![':']);
}

pub(crate) fn push_comma(out: &mut String)
    ensures
        final(out)@ == old(out)@ + seq![','],
{
    proof {
        reveal_strlit(",");
    }
    out.append(",");
    assert(out@ =~= old(out)@ + seq![',']);
}

pub(crate) fn push_open(out: &mut String)
    ensures
        final(out)@ == old(out)@ + seq!['{'],
{
    proof {
        reveal_strlit("{");
    }
    out.append("{");
    assert(out@ =~= old(out)@ + seq!['{']);
}

pub(crate) fn push_close(out: &mut String)
    ensures
        final(out)@ == old(out)@ + seq!['}'],
{
    proof {
        reveal_strlit("}");
    }
    out.append("}");
    assert(out@ =~= old(out)@ + seq!['}']);
}

pub(crate) fn push_text_entry(out: &mut String, key: &str, value: &str)
    ensures
        final(out)@ == old(out)@ + render_entry((key@, Wire::Text(value@))),
{
    reveal(render_entry);
    push_key(out, key);
    push_quoted(out, value);
    assert(render(Wire::Text(value@)) == quoted(value@));
    assert(out@ =~= old(out)@ + render_entry((key@, Wire::Text(value@))));
}

pub(crate) fn push_flag_entry(out: &mut String, key: &str, flag: bool)
    ensures
        final(out)@ == old(out)@ + render_entry((key@, Wire::Flag(flag))),
{
    reveal(render_entry);
    push_key(out, key);
    push_truth(out, flag);
    assert(render(Wire::Flag(flag)) == truth_text(flag));
    assert(out@ =~= old(out)@ + render_entry((key@, Wire::Flag(flag))));
}

pub(crate) fn push_uint_entry(out: &mut String, key: &str, n: u64)
    ensures
        final(out)@ == old(out)@ + render_entry((key@, Wire::Uint(n as nat))),
{
    reveal(render_entry);
    push_key(out, key);
    push_decimal(out, n);
    assert(render(Wire::Uint(n as nat)) == decimal(n as nat));
    assert(out@ =~= old(out)@ + render_entry((key@, Wire::Uint(n as nat))));
}

/// Appends the order's type.
fn push_order_kind(
    out: &mut String,
    tif_or_trigger: &str,
    trigger_px: Option<&str>,
    price_w: &str,
)
    ensures
        final(out)@ == old(out)@ + render(
            order_kind(tif_or_trigger@, optional_text(trigger_px), price_w@),
        ),
{
    push_open(out);
    if same_text(tif_or_trigger, "trigger") {
        let px: &str = match trigger_px {
            Some(px) => px,
            None => price_w,
        };
        push_key(out, "trigger");
        push_open(out);
        push_flag_entry(out, "isMarket", true);
        push_comma(out);
        push_text_entry(out, "triggerPx", px);
        push_comma(out);
        push_text_entry(out, "tpsl", "sl");
        push_close(out);
        push_close(out);
        proof {
            let e0 = ("isMarket"@, Wire::Flag(true));
            let e1 = ("triggerPx"@, Wire::Text(px@));
            let e2 = ("tpsl"@, Wire::Text("sl"@));
            let inner = Wire::Dict(seq![e0, e1, e2]);
            lemma_dict_of_three(e0, e1, e2);
            lemma_dict_of_one(("trigger"@, inner));
            assert(render_entry(("trigger"@, inner)) == quoted("trigger"@) + seq![':'] + render(
                inner,
            )) by {
                reveal(render_entry);
            }
            assert(out@ =~= old(out)@ + render(Wire::Dict(seq![("trigger"@, inner)])));
        }
    } else {
        push_key(out, "limit");
        push_open(out);
        push_text_entry(out, "tif", tif_or_trigger);
        push_close(out);
        push_close(out);
        proof {
            let e0 = ("tif"@, Wire::Text(tif_or_trigger@));
            let inner = Wire::Dict(seq![e0]);
            lemma_dict_of_one(e0);
            lemma_dict_of_one(("limit"@, inner));
            assert(render_entry(("limit"@, inner)) == quoted("limit"@) + seq![':'] + render(inner))
                by {
                reveal(render_entry);
            }
            assert(out@ =~= old(out)@ + render(Wire::Dict(seq![("limit"@, inner)])));
        }
    }
}

/// Appends one order.
fn push_order(
    out: &mut String,
    asset_id: u8,
    is_buy: bool,
    price_w: &str,
    qty_w: &str,
    reduce_only: bool,
    tif_or_trigger: &str,
    trigger_px: Option<&str>,
)
    ensures
        final(out)@ == old(out)@ + render(
            order_tree(
                asset_id,
                is_buy,
                price_w@,
                qty_w@,
                reduce_only,
                order_kind(tif_or_trigger@, optional_text(trigger_px), price_w@),
            ),
        ),
{
    let ghost kind = order_kind(tif_or_trigger@, optional_text(trigger_px), price_w@);
    push_open(out);
    push_uint_entry(out, "a", asset_id as u64);
    push_comma(out);
    push_flag_entry(out, "b", is_buy);
    push_comma(out);
    push_text_entry(out, "p", price_w);
    push_comma(out);
    push_text_entry(out, "s", qty_w);
    push_comma(out);
    push_flag_entry(out, "r", reduce_only);
    push_comma(out);
    let ghost before_kind = out@;
    push_key(out, "t");
    push_order_kind(out, tif_or_trigger, trigger_px, price_w);
    proof {
        let e5 = ("t"@, kind);
        assert(out@ == before_kind + render_entry(e5)) by {
            reveal(render_entry);
            assert(out@ =~= before_kind + render_entry(e5));
        }
    }
    push_close(out);
    proof {
        let e0 = ("a"@, Wire::Uint(asset_id as nat));
        let e1 = ("b"@, Wire::Flag(is_buy));
        let e2 = ("p"@, Wire::Text(price_w@));
        let e3 = ("s"@, Wire::Text(qty_w@));
        let e4 = ("r"@, Wire::Flag(reduce_only));
        let e5 = ("t"@, kind);
        lemma_dict_of_six(e0, e1, e2, e3, e4, e5);
        assert(out@ =~= old(out)@ + (seq!['{'] + render_entry(e0) + seq![','] + render_entry(e1)
            + seq![','] + render_entry(e2) + seq![','] + render_entry(e3) + seq![','] + render_entry(
            e4,
        ) + seq![','] + render_entry(e5) + seq!['}']));
    }
}

/// Appends the action that places one order.
pub fn push_action(
    out: &mut String,
    asset_id: u8,
    is_buy: bool,
    price_w: &str,
    qty_w: &str,
    reduce_only: bool,
    tif_or_trigger: &str,
    trigger_px: Option<&str>,
)
    ensures
        final(out)@ == old(out)@ + render(
            action_tree(
                order_tree(
                    asset_id,
                    is_buy,
                    price_w@,
                    qty_w@,
                    reduce_only,
                    order_kind(tif_or_trigger@, optional_text(trigger_px), price_w@),
                ),
            ),
        ),
{
    let ghost kind = order_kind(tif_or_trigger@, optional_text(trigger_px), price_w@);
    let ghost order = order_tree(asset_id, is_buy, price_w@, qty_w@, reduce_only, kind);
    proof {
        reveal_strlit("[");
        reveal_strlit("]");
    }
    push_open(out);
    push_text_entry(out, "type", "order");
    push_comma(out);
    let ghost before_orders = out@;
    push_key(out, "orders");
    out.append("[");
    push_order(out, asset_id, is_buy, price_w, qty_w, reduce_only, tif_or_trigger, trigger_px);
    out.append("]");
    proof {
        let e1 = ("orders"@, Wire::List(seq![order]));
        lemma_single_item(order);
        assert("["@ =~= seq!['[']);
        assert("]"@ =~= seq![']']);
        assert(out@ == before_orders + render_entry(e1)) by {
            reveal(render_entry);
            assert(out@ =~= before_orders + render_entry(e1));
        }
    }
    push_comma(out);
    push_text_entry(out, "grouping", "na");
    push_close(out);
    proof {
        let e0 = ("type"@, Wire::Text("order"@));
        let e1 = ("orders"@, Wire::List(seq![order]));
        let e2 = ("grouping"@, Wire::Text("na"@));
        lemma_dict_of_three(e0, e1, e2);
        assert(out@ =~= old(out)@ + (seq!['{'] + render_entry(e0) + seq![','] + render_entry(e1)
            + seq![','] + render_entry(e2) + seq!['}']));
    }
}

} // verus!
