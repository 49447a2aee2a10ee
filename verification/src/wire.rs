//! The values that go over the wire, and their two encodings: JSON text for the
//! request body and MessagePack bytes for the signature.
use crate::text::{decimal, truth_text};
use vstd::prelude::*;
use vstd::utf8::encode_utf8;

verus! {

/// A value of the exchange's protocol. The entries of a dictionary are ordered.
pub enum Wire {
    Uint(nat),
    Flag(bool),
    Text(Seq<char>),
    List(Seq<Wire>),
    Dict(Seq<(Seq<char>, Wire)>),
}

/// The lowest `len` bytes of `n`, most significant first.
pub open spec fn be_bytes(n: nat, len: nat) -> Seq<u8>
    decreases len,
{
    if len == 0 {
        Seq::empty()
    } else {
        be_bytes(n / 256, (len - 1) as nat).push((n % 256) as u8)
    }
}

/// MessagePack for a string of the given UTF-8 bytes, in the shortest form that
/// holds its length.
pub open spec fn str_bytes(utf8: Seq<u8>) -> Seq<u8> {
    let n = utf8.len();
    if n <= 31 {
        seq![(0xa0 + n) as u8] + utf8
    } else if n <= 0xff {
        seq![0xd9u8, n as u8] + utf8
    } else if n <= 0xffff {
        seq![0xdau8] + be_bytes(n, 2) + utf8
    } else {
        seq![0xdbu8] + be_bytes(n, 4) + utf8
    }
}

/// MessagePack for an unsigned integer below 2^64, in its shortest form.
pub open spec fn uint_bytes(n: nat) -> Seq<u8> {
    if n <= 0x7f {
        seq![n as u8]
    } else if n <= 0xff {
        seq![0xccu8, n as u8]
    } else if n <= 0xffff {
        seq![0xcdu8] + be_bytes(n, 2)
    } else if n <= 0xffff_ffff {
        seq![0xceu8] + be_bytes(n, 4)
    } else {
        seq![0xcfu8] + be_bytes(n, 8)
    }
}

/// MessagePack for a truth value.
pub open spec fn flag_byte(b: bool) -> u8 {
    if b {
        0xc3
    } else {
        0xc2
    }
}

/// MessagePack for a value.
pub open spec fn pack(v: Wire) -> Seq<u8>
    decreases v,
{
    match v {
        Wire::Uint(n) => uint_bytes(n),
        Wire::Flag(b) => seq![flag_byte(b)],
        Wire::Text(s) => str_bytes(encode_utf8(s)),
        Wire::List(items) => seq![(0x90 + items.len()) as u8] + pack_items(items),
        Wire::Dict(entries) => seq![(0x80 + entries.len()) as u8] + pack_entries(entries),
    }
}

pub open spec fn pack_items(items: Seq<Wire>) -> Seq<u8>
    decreases items,
{
    if items.len() == 0 {
        Seq::empty()
    } else {
        pack(items[0]) + pack_items(items.subrange(1, items.len() as int))
    }
}

pub open spec fn pack_entries(entries: Seq<(Seq<char>, Wire)>) -> Seq<u8>
    decreases entries,
{
    if entries.len() == 0 {
        Seq::empty()
    } else {
        str_bytes(encode_utf8(entries[0].0)) + pack(entries[0].1) + pack_entries(
            entries.subrange(1, entries.len() as int),
        )
    }
}

/// A text in double quotes.
pub open spec fn quoted(s: Seq<char>) -> Seq<char> {
    seq!['"'] + s + seq!['"']
}

/// JSON text for a value. Texts stand between quotes as they are.
pub open spec fn render(v: Wire) -> Seq<char>
    decreases v,
{
    match v {
        Wire::Uint(n) => decimal(n),
        Wire::Flag(b) => truth_text(b),
        Wire::Text(s) => quoted(s),
        Wire::List(items) => seq!['['] + render_items(items) + seq![']'],
        Wire::Dict(entries) => seq!['{'] + render_entries(entries) + seq!['}'],
    }
}

pub open spec fn render_items(items: Seq<Wire>) -> Seq<char>
    decreases items,
{
    if items.len() == 0 {
        Seq::empty()
    } else if items.len() == 1 {
        render(items[0])
    } else {
        render(items[0]) + seq![','] + render_items(items.subrange(1, items.len() as int))
    }
}

pub open spec fn render_entries(entries: Seq<(Seq<char>, Wire)>) -> Seq<char>
    decreases entries,
{
    if entries.len() == 0 {
        Seq::empty()
    } else if entries.len() == 1 {
        quoted(entries[0].0) + seq![':'] + render(entries[0].1)
    } else {
        quoted(entries[0].0) + seq![':'] + render(entries[0].1) + seq![','] + render_entries(
            entries.subrange(1, entries.len() as int),
        )
    }
}

/// MessagePack for one entry of a dictionary.
#[verifier::opaque]
pub open spec fn pack_entry(e: (Seq<char>, Wire)) -> Seq<u8> {
    str_bytes(encode_utf8(e.0)) + pack(e.1)
}

/// JSON text for one entry of a dictionary.
#[verifier::opaque]
pub open spec fn render_entry(e: (Seq<char>, Wire)) -> Seq<char> {
    quoted(e.0) + seq![':'] + render(e.1)
}

pub proof fn lemma_pack_entries_push(entries: Seq<(Seq<char>, Wire)>, e: (Seq<char>, Wire))
    ensures
        pack_entries(entries.push(e)) == pack_entries(entries) + pack_entry(e),
    decreases entries.len(),
{
    reveal(pack_entry);
    let all = entries.push(e);
    if entries.len() == 0 {
        assert(all.subrange(1, 1) =~= Seq::empty());
        assert(pack_entries(all.subrange(1, 1)) =~= Seq::empty());
        assert(pack_entries(all) =~= pack_entries(entries) + pack_entry(e));
    } else {
        let rest = entries.subrange(1, entries.len() as int);
        lemma_pack_entries_push(rest, e);
        assert(all.subrange(1, all.len() as int) =~= rest.push(e));
        assert(all[0] == entries[0]);
        assert(pack_entries(all) =~= pack_entries(entries) + pack_entry(e));
    }
}

pub proof fn lemma_render_entries_push(entries: Seq<(Seq<char>, Wire)>, e: (Seq<char>, Wire))
    ensures
        render_entries(entries.push(e)) == (if entries.len() == 0 {
            render_entry(e)
        } else {
            render_entries(entries) + seq![','] + render_entry(e)
        }),
    decreases entries.len(),
{
    reveal(render_entry);
    let all = entries.push(e);
    if entries.len() > 0 {
        let rest = entries.subrange(1, entries.len() as int);
        lemma_render_entries_push(rest, e);
        assert(all.subrange(1, all.len() as int) =~= rest.push(e));
        assert(all[0] == entries[0]);
        if entries.len() == 1 {
            assert(rest =~= Seq::empty());
        }
        assert(render_entries(all) =~= render_entries(entries) + seq![','] + render_entry(e));
    }
}

/// MessagePack and JSON for a list of one value.
pub proof fn lemma_single_item(v: Wire)
    ensures
        pack_items(seq![v]) == pack(v),
        render_items(seq![v]) == render(v),
{
    let items = seq![v];
    assert(items.subrange(1, 1) =~= Seq::empty());
    assert(pack_items(items.subrange(1, 1)) =~= Seq::empty());
    assert(pack_items(items) =~= pack(v));
}

/// Both encodings of a dictionary of one entry.
pub proof fn lemma_dict_of_one(a: (Seq<char>, Wire))
    ensures
        pack(Wire::Dict(seq![a])) == seq![0x81u8] + pack_entry(a),
        render(Wire::Dict(seq![a])) == seq!['{'] + render_entry(a) + seq!['}'],
{
    let none = Seq::<(Seq<char>, Wire)>::empty();
    lemma_pack_entries_push(none, a);
    lemma_render_entries_push(none, a);
    assert(seq![a] =~= none.push(a));
    assert(pack_entries(none) + pack_entry(a) =~= pack_entry(a));
}

/// Both encodings of a dictionary of two entries.
pub proof fn lemma_dict_of_two(a: (Seq<char>, Wire), b: (Seq<char>, Wire))
    ensures
        pack(Wire::Dict(seq![a, b])) == seq![0x82u8] + pack_entry(a) + pack_entry(b),
        render(Wire::Dict(seq![a, b])) == seq!['{'] + render_entry(a) + seq![','] + render_entry(b)
            + seq!['}'],
{
    let none = Seq::<(Seq<char>, Wire)>::empty();
    lemma_pack_entries_push(none, a);
    lemma_pack_entries_push(none.push(a), b);
    lemma_render_entries_push(none, a);
    lemma_render_entries_push(none.push(a), b);
    let all = none.push(a).push(b);
    assert(seq![a, b] =~= all);
    assert(seq![0x82u8] + pack_entries(all) =~= seq![0x82u8] + pack_entry(a) + pack_entry(b));
    assert(seq!['{'] + render_entries(all) + seq!['}'] =~= seq!['{'] + render_entry(a) + seq![',']
        + render_entry(b) + seq!['}']);
}

/// Both encodings of a dictionary of three entries.
pub proof fn lemma_dict_of_three(
    a: (Seq<char>, Wire),
    b: (Seq<char>, Wire),
    c: (Seq<char>, Wire),
)
    ensures
        pack(Wire::Dict(seq![a, b, c])) == seq![0x83u8] + pack_entry(a) + pack_entry(b)
            + pack_entry(c),
        render(Wire::Dict(seq![a, b, c])) == seq!['{'] + render_entry(a) + seq![','] + render_entry(
            b,
        ) + seq![','] + render_entry(c) + seq!['}'],
{
    let none = Seq::<(Seq<char>, Wire)>::empty();
    lemma_pack_entries_push(none, a);
    lemma_pack_entries_push(none.push(a), b);
    lemma_pack_entries_push(none.push(a).push(b), c);
    lemma_render_entries_push(none, a);
    lemma_render_entries_push(none.push(a), b);
    lemma_render_entries_push(none.push(a).push(b), c);
    let all = none.push(a).push(b).push(c);
    assert(seq![a, b, c] =~= all);
    assert(pack_entries(all) =~= pack_entry(a) + pack_entry(b) + pack_entry(c));
    assert(seq![0x83u8] + pack_entries(all) =~= seq![0x83u8] + pack_entry(a) + pack_entry(b)
        + pack_entry(c));
    assert(seq!['{'] + render_entries(all) + seq!['}'] =~= seq!['{'] + render_entry(a) + seq![',']
        + render_entry(b) + seq![','] + render_entry(c) + seq!['}']);
}

/// Both encodings of a dictionary of six entries.
pub proof fn lemma_dict_of_six(
    a: (Seq<char>, Wire),
    b: (Seq<char>, Wire),
    c: (Seq<char>, Wire),
    d: (Seq<char>, Wire),
    e: (Seq<char>, Wire),
    f: (Seq<char>, Wire),
)
    ensures
        pack(Wire::Dict(seq![a, b, c, d, e, f])) == seq![0x86u8] + pack_entry(a) + pack_entry(b)
            + pack_entry(c) + pack_entry(d) + pack_entry(e) + pack_entry(f),
        render(Wire::Dict(seq![a, b, c, d, e, f])) == seq!['{'] + render_entry(a) + seq![',']
            + render_entry(b) + seq![','] + render_entry(c) + seq![','] + render_entry(d) + seq![',']
            + render_entry(e) + seq![','] + render_entry(f) + seq!['}'],
{
    let none = Seq::<(Seq<char>, Wire)>::empty();
    let three = none.push(a).push(b).push(c);
    lemma_pack_entries_push(none, a);
    lemma_pack_entries_push(none.push(a), b);
    lemma_pack_entries_push(none.push(a).push(b), c);
    lemma_pack_entries_push(three, d);
    lemma_pack_entries_push(three.push(d), e);
    lemma_pack_entries_push(three.push(d).push(e), f);
    lemma_render_entries_push(none, a);
    lemma_render_entries_push(none.push(a), b);
    lemma_render_entries_push(none.push(a).push(b), c);
    lemma_render_entries_push(three, d);
    lemma_render_entries_push(three.push(d), e);
    lemma_render_entries_push(three.push(d).push(e), f);
    let all = three.push(d).push(e).push(f);
    assert(seq![a, b, c, d, e, f] =~= all);
    assert(pack_entries(none) + pack_entry(a) =~= pack_entry(a));
    assert(seq![0x86u8] + pack_entries(all) =~= seq![0x86u8] + pack_entry(a) + pack_entry(b)
        + pack_entry(c) + pack_entry(d) + pack_entry(e) + pack_entry(f));
    assert(seq!['{'] + render_entries(all) + seq!['}'] =~= seq!['{'] + render_entry(a) + seq![',']
        + render_entry(b) + seq![','] + render_entry(c) + seq![','] + render_entry(d) + seq![',']
        + render_entry(e) + seq![','] + render_entry(f) + seq!['}']);
}

} // verus!
