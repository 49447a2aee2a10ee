//! What is hashed for a signature names one order and one nonce.
use crate::action::{action_tree, order_kind, order_tree};
use crate::signing::{connection_preimage, sign_spec};
use crate::text::strip_0x_spec;
use crate::wire::{be_bytes, pack, Wire};
use crate::wire_laws::{
    entries_fit, fits, items_fit, law_packing_is_prefix_free, lemma_be_bytes_injective,
    lemma_be_bytes_len, pow256, text_fits,
};
use vstd::prelude::*;
use vstd::utf8::encode_utf8;

verus! {

/// A secret signs the same with and without a leading `0x`.
pub proof fn law_secret_prefix_is_optional(secret_hex: Seq<char>, action: Seq<u8>, nonce: u64)
    ensures
        sign_spec("0x"@ + secret_hex, action, nonce) == sign_spec(secret_hex, action, nonce),
{
    reveal_strlit("0x");
    let prefixed = "0x"@ + secret_hex;
    assert(prefixed[0] == '0' && prefixed[1] == 'x');
    assert(prefixed.skip(2) =~= secret_hex);
    assert(strip_0x_spec(prefixed) == strip_0x_spec(secret_hex));
}

/// Two actions within the sizes of their encoding are hashed from the same bytes
/// only if they are the same action under the same nonce.
pub proof fn law_preimage_names_action_and_nonce(a: Wire, b: Wire, m: u64, n: u64)
    requires
        fits(a),
        fits(b),
        connection_preimage(pack(a), m) == connection_preimage(pack(b), n),
    ensures
        a == b,
        m == n,
{
    let ra = be_bytes(m as nat, 8) + seq![0u8];
    let rb = be_bytes(n as nat, 8) + seq![0u8];
    assert(connection_preimage(pack(a), m) =~= pack(a) + ra);
    assert(connection_preimage(pack(b), n) =~= pack(b) + rb);
    law_packing_is_prefix_free(a, b, ra, rb);
    lemma_be_bytes_len(m as nat, 8);
    lemma_be_bytes_len(n as nat, 8);
    assert(ra.take(8) =~= be_bytes(m as nat, 8));
    assert(rb.take(8) =~= be_bytes(n as nat, 8));
    reveal_with_fuel(pow256, 9);
    lemma_be_bytes_injective(m as nat, n as nat, 8);
}

/// Equal actions place equal orders: the asset, the side, the price, the quantity,
/// the reduce-only mark and the order's type all show.
pub proof fn law_action_names_order(
    asset: u8,
    is_buy: bool,
    price: Seq<char>,
    qty: Seq<char>,
    reduce_only: bool,
    kind: Wire,
    asset2: u8,
    is_buy2: bool,
    price2: Seq<char>,
    qty2: Seq<char>,
    reduce_only2: bool,
    kind2: Wire,
)
    requires
        action_tree(order_tree(asset, is_buy, price, qty, reduce_only, kind)) == action_tree(
            order_tree(asset2, is_buy2, price2, qty2, reduce_only2, kind2),
        ),
    ensures
        asset == asset2,
        is_buy == is_buy2,
        price == price2,
        qty == qty2,
        reduce_only == reduce_only2,
        kind == kind2,
{
    let x = order_tree(asset, is_buy, price, qty, reduce_only, kind);
    let y = order_tree(asset2, is_buy2, price2, qty2, reduce_only2, kind2);
    let ex = action_tree(x)->Dict_0;
    let ey = action_tree(y)->Dict_0;
    assert(ex[1].1 == Wire::List(seq![x]));
    assert(ey[1].1 == Wire::List(seq![y]));
    assert(seq![x][0] == seq![y][0]);
    let fx = x->Dict_0;
    let fy = y->Dict_0;
    assert(fx[0].1 == fy[0].1 && fx[1].1 == fy[1].1 && fx[2].1 == fy[2].1);
    assert(fx[3].1 == fy[3].1 && fx[4].1 == fy[4].1 && fx[5].1 == fy[5].1);
}

proof fn lemma_utf8_len(s: Seq<char>)
    ensures
        encode_utf8(s).len() <= 4 * s.len(),
    decreases s.len(),
{
    if s.len() > 0 {
        lemma_utf8_len(s.drop_first());
    }
}

proof fn lemma_first_entry_fits(entries: Seq<(Seq<char>, Wire)>, rest: Seq<(Seq<char>, Wire)>)
    requires
        entries.len() == rest.len() + 1,
        forall|i: int| 0 <= i < rest.len() ==> rest[i] == #[trigger] entries[i + 1],
        entries[0].0.len() <= 16,
        fits(entries[0].1),
        entries_fit(rest),
    ensures
        entries_fit(entries),
{
    lemma_utf8_len(entries[0].0);
    assert(entries.subrange(1, entries.len() as int) =~= rest);
}

proof fn lemma_kind_fits(tif: Seq<char>, trigger_px: Option<Seq<char>>, price: Seq<char>)
    requires
        text_fits(tif),
        text_fits(price),
        trigger_px matches Some(px) ==> text_fits(px),
    ensures
        fits(order_kind(tif, trigger_px, price)),
{
    reveal_strlit("trigger");
    reveal_strlit("isMarket");
    reveal_strlit("triggerPx");
    reveal_strlit("tpsl");
    reveal_strlit("sl");
    reveal_strlit("limit");
    reveal_strlit("tif");
    lemma_utf8_len("sl"@);
    let none = Seq::<(Seq<char>, Wire)>::empty();
    if tif == "trigger"@ {
        let px = match trigger_px {
            Some(px) => px,
            None => price,
        };
        let third = ("tpsl"@, Wire::Text("sl"@));
        let second = ("triggerPx"@, Wire::Text(px));
        let first = ("isMarket"@, Wire::Flag(true));
        lemma_first_entry_fits(seq![third], none);
        lemma_first_entry_fits(seq![second, third], seq![third]);
        lemma_first_entry_fits(seq![first, second, third], seq![second, third]);
        let stop = ("trigger"@, Wire::Dict(seq![first, second, third]));
        lemma_first_entry_fits(seq![stop], none);
    } else {
        let entry = ("tif"@, Wire::Text(tif));
        lemma_first_entry_fits(seq![entry], none);
        let limit = ("limit"@, Wire::Dict(seq![entry]));
        lemma_first_entry_fits(seq![limit], none);
    }
}

proof fn lemma_order_fits(
    asset: u8,
    is_buy: bool,
    price: Seq<char>,
    qty: Seq<char>,
    reduce_only: bool,
    kind: Wire,
)
    requires
        text_fits(price),
        text_fits(qty),
        fits(kind),
    ensures
        fits(order_tree(asset, is_buy, price, qty, reduce_only, kind)),
{
    reveal_strlit("a");
    reveal_strlit("b");
    reveal_strlit("p");
    reveal_strlit("s");
    reveal_strlit("r");
    reveal_strlit("t");
    let e0 = ("a"@, Wire::Uint(asset as nat));
    let e1 = ("b"@, Wire::Flag(is_buy));
    let e2 = ("p"@, Wire::Text(price));
    let e3 = ("s"@, Wire::Text(qty));
    let e4 = ("r"@, Wire::Flag(reduce_only));
    let e5 = ("t"@, kind);
    lemma_first_entry_fits(seq![e5], Seq::empty());
    lemma_first_entry_fits(seq![e4, e5], seq![e5]);
    lemma_first_entry_fits(seq![e3, e4, e5], seq![e4, e5]);
    lemma_first_entry_fits(seq![e2, e3, e4, e5], seq![e3, e4, e5]);
    lemma_first_entry_fits(seq![e1, e2, e3, e4, e5], seq![e2, e3, e4, e5]);
    lemma_first_entry_fits(seq![e0, e1, e2, e3, e4, e5], seq![e1, e2, e3, e4, e5]);
}

proof fn lemma_action_fits(order: Wire)
    requires
        fits(order),
    ensures
        fits(action_tree(order)),
{
    reveal_strlit("type");
    reveal_strlit("order");
    reveal_strlit("orders");
    reveal_strlit("grouping");
    reveal_strlit("na");
    lemma_utf8_len("order"@);
    lemma_utf8_len("na"@);
    let items = seq![order];
    assert(items.subrange(1, 1) =~= Seq::<Wire>::empty());
    assert(items_fit(items.subrange(1, 1)));
    assert(fits(Wire::List(items)));
    let e0 = ("type"@, Wire::Text("order"@));
    let e1 = ("orders"@, Wire::List(items));
    let e2 = ("grouping"@, Wire::Text("na"@));
    lemma_first_entry_fits(seq![e2], Seq::empty());
    lemma_first_entry_fits(seq![e1, e2], seq![e2]);
    lemma_first_entry_fits(seq![e0, e1, e2], seq![e1, e2]);
}

/// What is hashed for a signature fixes the order and the nonce: two orders whose
/// texts MessagePack can hold are hashed from the same bytes only if they agree in
/// every field, in their type and in the nonce.
pub proof fn law_preimage_names_order(
    asset: u8,
    is_buy: bool,
    price: Seq<char>,
    qty: Seq<char>,
    reduce_only: bool,
    tif: Seq<char>,
    trigger_px: Option<Seq<char>>,
    nonce: u64,
    asset2: u8,
    is_buy2: bool,
    price2: Seq<char>,
    qty2: Seq<char>,
    reduce_only2: bool,
    tif2: Seq<char>,
    trigger_px2: Option<Seq<char>>,
    nonce2: u64,
)
    requires
        text_fits(price) && text_fits(qty) && text_fits(tif),
        text_fits(price2) && text_fits(qty2) && text_fits(tif2),
        trigger_px matches Some(px) ==> text_fits(px),
        trigger_px2 matches Some(px) ==> text_fits(px),
        connection_preimage(
            pack(
                action_tree(
                    order_tree(
                        asset,
                        is_buy,
                        price,
                        qty,
                        reduce_only,
                        order_kind(tif, trigger_px, price),
                    ),
                ),
            ),
            nonce,
        ) == connection_preimage(
            pack(
                action_tree(
                    order_tree(
                        asset2,
                        is_buy2,
                        price2,
                        qty2,
                        reduce_only2,
                        order_kind(tif2, trigger_px2, price2),
                    ),
                ),
            ),
            nonce2,
        ),
    ensures
        asset == asset2,
        is_buy == is_buy2,
        price == price2,
        qty == qty2,
        reduce_only == reduce_only2,
        order_kind(tif, trigger_px, price) == order_kind(tif2, trigger_px2, price2),
        nonce == nonce2,
{
    let kind = order_kind(tif, trigger_px, price);
    let kind2 = order_kind(tif2, trigger_px2, price2);
    let order = order_tree(asset, is_buy, price, qty, reduce_only, kind);
    let order2 = order_tree(asset2, is_buy2, price2, qty2, reduce_only2, kind2);
    lemma_kind_fits(tif, trigger_px, price);
    lemma_kind_fits(tif2, trigger_px2, price2);
    lemma_order_fits(asset, is_buy, price, qty, reduce_only, kind);
    lemma_order_fits(asset2, is_buy2, price2, qty2, reduce_only2, kind2);
    lemma_action_fits(order);
    lemma_action_fits(order2);
    law_preimage_names_action_and_nonce(action_tree(order), action_tree(order2), nonce, nonce2);
    law_action_names_order(
        asset,
        is_buy,
        price,
        qty,
        reduce_only,
        kind,
        asset2,
        is_buy2,
        price2,
        qty2,
        reduce_only2,
        kind2,
    );
}

} // verus!
