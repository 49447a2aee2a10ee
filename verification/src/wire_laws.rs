//! No value's MessagePack bytes begin another's: what is packed can be read back
//! in one way only.
use crate::text::lemma_encode_utf8_injective;
use crate::wire::{
    be_bytes, flag_byte, pack, pack_entries, pack_items, str_bytes, uint_bytes, Wire,
};
use vstd::prelude::*;
use vstd::utf8::encode_utf8;

verus! {

/// A text whose length MessagePack can hold.
pub open spec fn text_fits(s: Seq<char>) -> bool {
    encode_utf8(s).len() < 0x1_0000_0000
}

/// A value within the sizes that its encoding can tell apart.
pub open spec fn fits(v: Wire) -> bool
    decreases v,
{
    match v {
        Wire::Uint(n) => n < 0x1_0000_0000_0000_0000,
        Wire::Flag(_) => true,
        Wire::Text(s) => text_fits(s),
        Wire::List(items) => items.len() <= 15 && items_fit(items),
        Wire::Dict(entries) => entries.len() <= 15 && entries_fit(entries),
    }
}

pub open spec fn items_fit(items: Seq<Wire>) -> bool
    decreases items,
{
    items.len() == 0 || (fits(items[0]) && items_fit(items.subrange(1, items.len() as int)))
}

pub open spec fn entries_fit(entries: Seq<(Seq<char>, Wire)>) -> bool
    decreases entries,
{
    entries.len() == 0 || (text_fits(entries[0].0) && fits(entries[0].1) && entries_fit(
        entries.subrange(1, entries.len() as int),
    ))
}

proof fn lemma_cancel(a: Seq<u8>, b: Seq<u8>, ra: Seq<u8>, rb: Seq<u8>)
    requires
        a + ra == b + rb,
        a.len() == b.len(),
    ensures
        a == b,
        ra == rb,
{
    assert(a =~= (a + ra).take(a.len() as int));
    assert(b =~= (b + rb).take(b.len() as int));
    assert(ra =~= (a + ra).skip(a.len() as int));
    assert(rb =~= (b + rb).skip(b.len() as int));
}

pub proof fn lemma_be_bytes_len(n: nat, len: nat)
    ensures
        be_bytes(n, len).len() == len,
    decreases len,
{
    if len > 0 {
        lemma_be_bytes_len(n / 256, (len - 1) as nat);
    }
}

/// 256 to the power of `len`.
pub open spec fn pow256(len: nat) -> nat
    decreases len,
{
    if len == 0 {
        1
    } else {
        256 * pow256((len - 1) as nat)
    }
}

pub proof fn lemma_be_bytes_injective(m: nat, n: nat, len: nat)
    requires
        m < pow256(len),
        n < pow256(len),
        be_bytes(m, len) == be_bytes(n, len),
    ensures
        m == n,
    decreases len,
{
    if len > 0 {
        let k = (len - 1) as nat;
        let a = be_bytes(m / 256, k);
        let b = be_bytes(n / 256, k);
        lemma_be_bytes_len(m / 256, k);
        lemma_be_bytes_len(n / 256, k);
        assert(be_bytes(m, len).drop_last() =~= a);
        assert(be_bytes(n, len).drop_last() =~= b);
        assert(be_bytes(m, len).last() == (m % 256) as u8);
        assert(be_bytes(n, len).last() == (n % 256) as u8);
        assert(m / 256 < pow256(k) && n / 256 < pow256(k));
        lemma_be_bytes_injective(m / 256, n / 256, k);
    }
}

/// The length header of a packed string: `str_bytes` without the string.
spec fn str_header(n: nat) -> Seq<u8> {
    if n <= 31 {
        seq![(0xa0 + n) as u8]
    } else if n <= 0xff {
        seq![0xd9u8, n as u8]
    } else if n <= 0xffff {
        seq![0xdau8] + be_bytes(n, 2)
    } else {
        seq![0xdbu8] + be_bytes(n, 4)
    }
}

proof fn lemma_str_header_prefix(m: nat, n: nat, rm: Seq<u8>, rn: Seq<u8>)
    requires
        m < 0x1_0000_0000,
        n < 0x1_0000_0000,
        str_header(m) + rm == str_header(n) + rn,
    ensures
        m == n,
        rm == rn,
{
    lemma_be_bytes_len(m, 2);
    lemma_be_bytes_len(n, 2);
    lemma_be_bytes_len(m, 4);
    lemma_be_bytes_len(n, 4);
    let h = str_header(m);
    let k = str_header(n);
    assert((h + rm)[0] == h[0] && (k + rn)[0] == k[0]);
    assert(h.len() == k.len());
    lemma_cancel(h, k, rm, rn);
    reveal_with_fuel(pow256, 5);
    if m > 0xffff {
        lemma_tail_number(m, n, h, k, 4);
    } else if m > 0xff {
        lemma_tail_number(m, n, h, k, 2);
    } else if m > 31 {
        assert(h[1] == k[1]);
    }
}

/// Two sequences of one marker byte and the bytes of a number are equal only for
/// equal numbers.
proof fn lemma_tail_number(m: nat, n: nat, h: Seq<u8>, k: Seq<u8>, len: nat)
    requires
        h == k,
        m < pow256(len),
        n < pow256(len),
        h =~= seq![h[0]] + be_bytes(m, len),
        k =~= seq![k[0]] + be_bytes(n, len),
    ensures
        m == n,
{
    lemma_be_bytes_len(m, len);
    lemma_be_bytes_len(n, len);
    assert(h.skip(1) =~= be_bytes(m, len));
    assert(k.skip(1) =~= be_bytes(n, len));
    lemma_be_bytes_injective(m, n, len);
}

proof fn lemma_str_prefix(a: Seq<u8>, b: Seq<u8>, ra: Seq<u8>, rb: Seq<u8>)
    requires
        a.len() < 0x1_0000_0000,
        b.len() < 0x1_0000_0000,
        str_bytes(a) + ra == str_bytes(b) + rb,
    ensures
        a == b,
        ra == rb,
{
    assert(str_bytes(a) + ra =~= str_header(a.len()) + (a + ra));
    assert(str_bytes(b) + rb =~= str_header(b.len()) + (b + rb));
    lemma_str_header_prefix(a.len(), b.len(), a + ra, b + rb);
    lemma_cancel(a, b, ra, rb);
}

proof fn lemma_text_prefix(a: Seq<char>, b: Seq<char>, ra: Seq<u8>, rb: Seq<u8>)
    requires
        text_fits(a),
        text_fits(b),
        str_bytes(encode_utf8(a)) + ra == str_bytes(encode_utf8(b)) + rb,
    ensures
        a == b,
        ra == rb,
{
    lemma_str_prefix(encode_utf8(a), encode_utf8(b), ra, rb);
    lemma_encode_utf8_injective(a, b);
}

proof fn lemma_uint_prefix(m: nat, n: nat, rm: Seq<u8>, rn: Seq<u8>)
    requires
        m < 0x1_0000_0000_0000_0000,
        n < 0x1_0000_0000_0000_0000,
        uint_bytes(m) + rm == uint_bytes(n) + rn,
    ensures
        m == n,
        rm == rn,
{
    lemma_be_bytes_len(m, 2);
    lemma_be_bytes_len(n, 2);
    lemma_be_bytes_len(m, 4);
    lemma_be_bytes_len(n, 4);
    lemma_be_bytes_len(m, 8);
    lemma_be_bytes_len(n, 8);
    let h = uint_bytes(m);
    let k = uint_bytes(n);
    assert((h + rm)[0] == h[0] && (k + rn)[0] == k[0]);
    assert(h.len() == k.len());
    lemma_cancel(h, k, rm, rn);
    reveal_with_fuel(pow256, 9);
    if m > 0xffff_ffff {
        lemma_tail_number(m, n, h, k, 8);
    } else if m > 0xffff {
        lemma_tail_number(m, n, h, k, 4);
    } else if m > 0xff {
        lemma_tail_number(m, n, h, k, 2);
    } else if m > 0x7f {
        assert(h[1] == k[1]);
    }
}

/// The kind of a value, which its first byte shows.
spec fn kind(v: Wire) -> int {
    match v {
        Wire::Uint(_) => 0,
        Wire::Flag(_) => 1,
        Wire::Text(_) => 2,
        Wire::List(_) => 3,
        Wire::Dict(_) => 4,
    }
}

spec fn kind_of_byte(b: u8) -> int {
    if b <= 0x7f || b == 0xcc || b == 0xcd || b == 0xce || b == 0xcf {
        0
    } else if b == 0xc2 || b == 0xc3 {
        1
    } else if 0xa0 <= b <= 0xbf || b == 0xd9 || b == 0xda || b == 0xdb {
        2
    } else if 0x90 <= b <= 0x9f {
        3
    } else if 0x80 <= b <= 0x8f {
        4
    } else {
        5
    }
}

proof fn lemma_first_byte(v: Wire)
    requires
        fits(v),
    ensures
        pack(v).len() > 0,
        kind_of_byte(pack(v)[0]) == kind(v),
{
    match v {
        Wire::Uint(n) => {
            lemma_be_bytes_len(n, 2);
            lemma_be_bytes_len(n, 4);
            lemma_be_bytes_len(n, 8);
        },
        Wire::Text(s) => {
            let n = encode_utf8(s).len();
            lemma_be_bytes_len(n, 2);
            lemma_be_bytes_len(n, 4);
        },
        _ => {},
    }
}

/// Two values within the sizes, followed by whatever bytes, agree where their
/// bytes agree: equal packings come from equal values.
pub proof fn law_packing_is_prefix_free(a: Wire, b: Wire, ra: Seq<u8>, rb: Seq<u8>)
    requires
        fits(a),
        fits(b),
        pack(a) + ra == pack(b) + rb,
    ensures
        a == b,
        ra == rb,
    decreases a,
{
    lemma_first_byte(a);
    lemma_first_byte(b);
    assert((pack(a) + ra)[0] == pack(a)[0]);
    assert((pack(b) + rb)[0] == pack(b)[0]);
    match (a, b) {
        (Wire::Uint(m), Wire::Uint(n)) => {
            lemma_uint_prefix(m, n, ra, rb);
        },
        (Wire::Flag(x), Wire::Flag(y)) => {
            lemma_cancel(pack(a), pack(b), ra, rb);
            assert(pack(a)[0] == flag_byte(x) && pack(b)[0] == flag_byte(y));
        },
        (Wire::Text(s), Wire::Text(t)) => {
            lemma_text_prefix(s, t, ra, rb);
        },
        (Wire::List(s), Wire::List(t)) => {
            assert(s.len() == t.len());
            let head = seq![(0x90 + s.len()) as u8];
            assert(pack(a) + ra =~= head + (pack_items(s) + ra));
            assert(pack(b) + rb =~= head + (pack_items(t) + rb));
            lemma_cancel(head, head, pack_items(s) + ra, pack_items(t) + rb);
            lemma_items_prefix(s, t, ra, rb);
        },
        (Wire::Dict(s), Wire::Dict(t)) => {
            assert(s.len() == t.len());
            let head = seq![(0x80 + s.len()) as u8];
            assert(pack(a) + ra =~= head + (pack_entries(s) + ra));
            assert(pack(b) + rb =~= head + (pack_entries(t) + rb));
            lemma_cancel(head, head, pack_entries(s) + ra, pack_entries(t) + rb);
            lemma_entries_prefix(s, t, ra, rb);
        },
        _ => {
            assert(false);
        },
    }
}

proof fn lemma_items_prefix(s: Seq<Wire>, t: Seq<Wire>, rs: Seq<u8>, rt: Seq<u8>)
    requires
        s.len() == t.len(),
        items_fit(s),
        items_fit(t),
        pack_items(s) + rs == pack_items(t) + rt,
    ensures
        s == t,
        rs == rt,
    decreases s,
{
    if s.len() == 0 {
        assert(s =~= t);
        assert(pack_items(s) + rs =~= rs);
        assert(pack_items(t) + rt =~= rt);
    } else {
        let s1 = s.subrange(1, s.len() as int);
        let t1 = t.subrange(1, t.len() as int);
        assert(pack_items(s) + rs =~= pack(s[0]) + (pack_items(s1) + rs));
        assert(pack_items(t) + rt =~= pack(t[0]) + (pack_items(t1) + rt));
        law_packing_is_prefix_free(s[0], t[0], pack_items(s1) + rs, pack_items(t1) + rt);
        lemma_items_prefix(s1, t1, rs, rt);
        assert(s =~= seq![s[0]] + s1);
        assert(t =~= seq![t[0]] + t1);
    }
}

proof fn lemma_entries_prefix(
    s: Seq<(Seq<char>, Wire)>,
    t: Seq<(Seq<char>, Wire)>,
    rs: Seq<u8>,
    rt: Seq<u8>,
)
    requires
        s.len() == t.len(),
        entries_fit(s),
        entries_fit(t),
        pack_entries(s) + rs == pack_entries(t) + rt,
    ensures
        s == t,
        rs == rt,
    decreases s,
{
    if s.len() == 0 {
        assert(s =~= t);
        assert(pack_entries(s) + rs =~= rs);
        assert(pack_entries(t) + rt =~= rt);
    } else {
        let s1 = s.subrange(1, s.len() as int);
        let t1 = t.subrange(1, t.len() as int);
        let vs = pack(s[0].1) + (pack_entries(s1) + rs);
        let vt = pack(t[0].1) + (pack_entries(t1) + rt);
        assert(pack_entries(s) + rs =~= str_bytes(encode_utf8(s[0].0)) + vs);
        assert(pack_entries(t) + rt =~= str_bytes(encode_utf8(t[0].0)) + vt);
        lemma_text_prefix(s[0].0, t[0].0, vs, vt);
        law_packing_is_prefix_free(s[0].1, t[0].1, pack_entries(s1) + rs, pack_entries(t1) + rt);
        lemma_entries_prefix(s1, t1, rs, rt);
        assert(s =~= seq![s[0]] + s1);
        assert(t =~= seq![t[0]] + t1);
    }
}

} // verus!
