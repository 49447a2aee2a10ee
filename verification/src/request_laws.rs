//! What goes to the exchange, spelled out: actions, bodies, digests and signatures.
use crate::action::{action_tree, order_tree};
use crate::encoding_laws::{
    law_action_text, law_kind_text, law_numbers_have_their_bytes, law_order_text,
};
use crate::encoding_laws::law_bytes_hold_powers;
use crate::order::{OrderRequestView, Side};
use crate::requests::{
    body_text, bracket_spec, bracket_view, entry_action, leg_action, signed_body_spec,
};
use crate::requests::{BracketBodies, BracketPrices};
use crate::signing::{
    be_number, connection_preimage, ecdsa_signature, hex_char, hex_digit, hex_error_text, hex_text,
    hex_value, is_hex, is_secret_key, keccak_256, sign_spec, signature_tree, signed_view,
    signing_digest,
};
use crate::signing::{SignError, SignErrorView};
use crate::text::{decimal, strip_0x_spec, truth_text, wire_spec};
use crate::wire::{
    be_bytes, lemma_dict_of_three, lemma_dict_of_two, pack, quoted, render, render_entry, Wire,
};
use vstd::prelude::*;
use vstd::utf8::encode_utf8;

verus! {

/// Whatever its side, symbol and prices, an entry may open a position: it is never
/// reduce-only. It is an immediate-or-cancel limit order on the request's side, with
/// price and quantity in the exchange's notation.
pub proof fn law_entries_never_reduce(
    req: OrderRequestView,
    price_fixed: Seq<char>,
    qty_fixed: Seq<char>,
)
    ensures
        entry_action(req, price_fixed, qty_fixed) == action_tree(
            order_tree(
                req.symbol_idx,
                req.side == Side::Buy,
                wire_spec(price_fixed),
                wire_spec(qty_fixed),
                false,
                Wire::Dict(seq![("limit"@, Wire::Dict(seq![("tif"@, Wire::Text("Ioc"@))]))]),
            ),
        ),
{
    reveal_strlit("Ioc");
    reveal_strlit("trigger");
    assert("Ioc"@.len() != "trigger"@.len());
}

/// The text of an entry's action. A sale's differs from a buy's in `b` alone.
pub proof fn law_entry_text(req: OrderRequestView, price_fixed: Seq<char>, qty_fixed: Seq<char>)
    ensures
        render(entry_action(req, price_fixed, qty_fixed))
            == "{\"type\":\"order\",\"orders\":["@ + ("{\"a\":"@ + decimal(req.symbol_idx as nat)
            + ",\"b\":"@ + (if req.side == Side::Buy {
            "true"@
        } else {
            "false"@
        }) + ",\"p\":\""@ + wire_spec(price_fixed) + "\",\"s\":\""@ + wire_spec(qty_fixed)
            + "\",\"r\":"@ + "false"@ + ",\"t\":"@ + ("{\"limit\":{\"tif\":\""@ + "Ioc"@ + "\"}}"@)
            + "}"@) + "],\"grouping\":\"na\"}"@,
{
    let price = wire_spec(price_fixed);
    let kind = Wire::Dict(seq![("limit"@, Wire::Dict(seq![("tif"@, Wire::Text("Ioc"@))]))]);
    law_entries_never_reduce(req, price_fixed, qty_fixed);
    reveal_strlit("Ioc");
    reveal_strlit("trigger");
    assert("Ioc"@.len() != "trigger"@.len());
    law_kind_text("Ioc"@, None, price);
    let order = order_tree(
        req.symbol_idx,
        req.side == Side::Buy,
        price,
        wire_spec(qty_fixed),
        false,
        kind,
    );
    law_action_text(order);
    law_order_text(
        req.symbol_idx,
        req.side == Side::Buy,
        price,
        wire_spec(qty_fixed),
        false,
        kind,
    );
}

/// The text of a bracket leg's action: always reduce-only; a take profit rests at its
/// price, a stop loss is triggered at its price and limited by its limit.
pub proof fn law_leg_text(
    asset_id: u8,
    is_buy: bool,
    price_fixed: Seq<char>,
    limit_fixed: Seq<char>,
    qty_fixed: Seq<char>,
)
    ensures
        render(leg_action(asset_id, is_buy, price_fixed, limit_fixed, qty_fixed, false))
            == "{\"type\":\"order\",\"orders\":["@ + ("{\"a\":"@ + decimal(asset_id as nat)
            + ",\"b\":"@ + truth_text(is_buy) + ",\"p\":\""@ + wire_spec(price_fixed)
            + "\",\"s\":\""@ + wire_spec(qty_fixed) + "\",\"r\":"@ + "true"@ + ",\"t\":"@ + (
        "{\"limit\":{\"tif\":\""@ + "Gtc"@ + "\"}}"@) + "}"@) + "],\"grouping\":\"na\"}"@,
        render(leg_action(asset_id, is_buy, price_fixed, limit_fixed, qty_fixed, true))
            == "{\"type\":\"order\",\"orders\":["@ + ("{\"a\":"@ + decimal(asset_id as nat)
            + ",\"b\":"@ + truth_text(is_buy) + ",\"p\":\""@ + wire_spec(limit_fixed)
            + "\",\"s\":\""@ + wire_spec(qty_fixed) + "\",\"r\":"@ + "true"@ + ",\"t\":"@ + (
        "{\"trigger\":{\"isMarket\":true,\"triggerPx\":\""@ + wire_spec(price_fixed)
            + "\",\"tpsl\":\"sl\"}}"@) + "}"@) + "],\"grouping\":\"na\"}"@,
{
    let price = wire_spec(price_fixed);
    let limit = wire_spec(limit_fixed);
    let qty = wire_spec(qty_fixed);
    reveal_strlit("Gtc");
    reveal_strlit("trigger");
    assert("Gtc"@.len() != "trigger"@.len());
    law_kind_text("Gtc"@, None, price);
    law_kind_text("trigger"@, Some(price), limit);
    let rest = crate::action::order_kind("Gtc"@, None, price);
    let stop = crate::action::order_kind("trigger"@, Some(price), limit);
    law_action_text(order_tree(asset_id, is_buy, price, qty, true, rest));
    law_order_text(asset_id, is_buy, price, qty, true, rest);
    law_action_text(order_tree(asset_id, is_buy, limit, qty, true, stop));
    law_order_text(asset_id, is_buy, limit, qty, true, stop);
}

/// The text of a signed request.
pub proof fn law_body_text(action: Wire, nonce: u64, signature: Seq<char>)
    ensures
        body_text(action, nonce, signature) == "{\"action\":"@ + render(action) + ",\"nonce\":"@
            + decimal(nonce as nat) + ",\"signature\":"@ + signature + "}"@,
{
    reveal(render_entry);
    reveal_strlit("action");
    reveal_strlit("nonce");
    reveal_strlit("signature");
    reveal_strlit("{\"action\":");
    reveal_strlit(",\"nonce\":");
    reveal_strlit(",\"signature\":");
    reveal_strlit("}");
    let a = render(action);
    let n = decimal(nonce as nat);
    let t0 = "{\"action\":"@;
    let t1 = ",\"nonce\":"@;
    let t2 = ",\"signature\":"@;
    assert(seq!['{'] + quoted("action"@) + seq![':'] =~= t0);
    assert(seq![','] + quoted("nonce"@) + seq![':'] =~= t1);
    assert(seq![','] + quoted("signature"@) + seq![':'] =~= t2);
    assert("}"@ =~= seq!['}']);
    let e0 = render_entry(("action"@, action));
    let e1 = render_entry(("nonce"@, Wire::Uint(nonce as nat)));
    assert(seq!['{'] + e0 =~= t0 + a);
    assert(seq![','] + e1 =~= t1 + n);
    let left = seq!['{'] + e0 + seq![','] + e1;
    assert(left =~= (seq!['{'] + e0) + (seq![','] + e1));
    assert(left =~= t0 + a + t1 + n);
    assert(left + seq![','] + quoted("signature"@) + seq![':'] =~= left + t2);
}

/// A body is built exactly if the action can be signed, and then carries that
/// signature; otherwise it fails as the signing does.
pub proof fn law_bodies_carry_their_signature(secret_hex: Seq<char>, action: Wire, nonce: u64)
    ensures
        sign_spec(secret_hex, pack(action), nonce) matches Ok(signature) ==> signed_body_spec(
            secret_hex,
            action,
            nonce,
        ) == Ok::<Seq<char>, SignErrorView>(body_text(action, nonce, signature)),
        sign_spec(secret_hex, pack(action), nonce) matches Err(e) ==> signed_body_spec(
            secret_hex,
            action,
            nonce,
        ) == Err::<Seq<char>, SignErrorView>(e),
{
}

/// A bracket is built exactly if both legs can be signed, on the side that closes the
/// position, the stop loss under the nonce after the take profit's. The take profit's
/// error comes first.
pub proof fn law_bracket_needs_both_legs(
    secret_hex: Seq<char>,
    req: OrderRequestView,
    prices: BracketPrices,
    nonce: u64,
)
    requires
        nonce < u64::MAX,
    ensures
        ({
            let buy = req.side == Side::Sell;
            let tp = signed_body_spec(
                secret_hex,
                leg_action(
                    req.symbol_idx,
                    buy,
                    prices.tp@,
                    prices.sl_limit@,
                    prices.quantity@,
                    false,
                ),
                nonce,
            );
            let sl = signed_body_spec(
                secret_hex,
                leg_action(
                    req.symbol_idx,
                    buy,
                    prices.sl@,
                    prices.sl_limit@,
                    prices.quantity@,
                    true,
                ),
                (nonce + 1) as u64,
            );
            let both = bracket_spec(secret_hex, req, prices, nonce);
            &&& tp is Ok && sl is Ok ==> both == Ok::<(Seq<char>, Seq<char>), SignErrorView>(
                (tp->Ok_0, sl->Ok_0),
            )
            &&& tp is Err ==> both == Err::<(Seq<char>, Seq<char>), SignErrorView>(tp->Err_0)
            &&& tp is Ok && sl is Err ==> both == Err::<(Seq<char>, Seq<char>), SignErrorView>(
                sl->Err_0,
            )
        }),
{
}

/// The text of the query for an account's positions.
pub proof fn law_account_query_text(account: Seq<char>)
    ensures
        render(
            Wire::Dict(
                seq![
                    ("type"@, Wire::Text("clearinghouseState"@)),
                    ("user"@, Wire::Text(account)),
                ],
            ),
        ) == "{\"type\":\"clearinghouseState\",\"user\":\""@ + account + "\"}"@,
{
    reveal(render_entry);
    reveal_strlit("type");
    reveal_strlit("clearinghouseState");
    reveal_strlit("user");
    reveal_strlit("{\"type\":\"clearinghouseState\",\"user\":\"");
    reveal_strlit("\"}");
    let e0 = ("type"@, Wire::Text("clearinghouseState"@));
    let e1 = ("user"@, Wire::Text(account));
    lemma_dict_of_two(e0, e1);
    let head = "{\"type\":\"clearinghouseState\",\"user\":\""@;
    assert(seq!['{'] + quoted("type"@) + seq![':'] + quoted("clearinghouseState"@) + seq![',']
        + quoted("user"@) + seq![':', '"'] =~= head);
    assert("\"}"@ =~= seq!['"', '}']);
    assert(seq!['{'] + render_entry(e0) + seq![','] + render_entry(e1) + seq!['}'] =~= head + account
        + "\"}"@);
}

/// The text of a signature: both halves as 64 lower-case digits after `0x`, and the
/// recovery id counted from 27.
pub proof fn law_signature_text(signature: Seq<u8>, recovery: u8)
    requires
        signature.len() == 64,
    ensures
        render(signature_tree(signature, recovery)) == "{\"r\":\"0x"@ + hex_text(
            signature.take(32),
        ) + "\",\"s\":\"0x"@ + hex_text(signature.skip(32)) + "\",\"v\":"@ + decimal(
            (27 + recovery) as nat,
        ) + "}"@,
{
    reveal(render_entry);
    reveal_strlit("r");
    reveal_strlit("s");
    reveal_strlit("v");
    reveal_strlit("0x");
    reveal_strlit("{\"r\":\"0x");
    reveal_strlit("\",\"s\":\"0x");
    reveal_strlit("\",\"v\":");
    reveal_strlit("}");
    let h0 = hex_text(signature.take(32));
    let h1 = hex_text(signature.skip(32));
    assert(signature.subrange(0, 32) =~= signature.take(32));
    assert(signature.subrange(32, 64) =~= signature.skip(32));
    let e0 = ("r"@, Wire::Text("0x"@ + h0));
    let e1 = ("s"@, Wire::Text("0x"@ + h1));
    let e2 = ("v"@, Wire::Uint((27 + recovery) as nat));
    lemma_dict_of_three(e0, e1, e2);
    let d = decimal((27 + recovery) as nat);
    let t0 = "{\"r\":\"0x"@;
    let t1 = "\",\"s\":\"0x"@;
    let t2 = "\",\"v\":"@;
    assert(seq!['{'] + quoted("r"@) + seq![':', '"'] + "0x"@ =~= t0);
    assert(seq!['"', ','] + quoted("s"@) + seq![':', '"'] + "0x"@ =~= t1);
    assert(seq!['"', ','] + quoted("v"@) + seq![':'] =~= t2);
    assert("}"@ =~= seq!['}']);
    let x0 = seq!['{'] + render_entry(e0);
    assert(x0 =~= t0 + h0 + seq!['"']);
    let x1 = x0 + seq![','] + render_entry(e1);
    assert(x1 =~= t0 + h0 + t1 + h1 + seq!['"']);
    let x2 = x1 + seq![','] + render_entry(e2);
    assert(x2 =~= t0 + h0 + t1 + h1 + t2 + d);
}

/// The digest that is signed, down to its parts.
pub proof fn law_digest_parts(action: Seq<u8>, nonce: u64)
    ensures
        signing_digest(action, nonce) == keccak_256(
            seq![0x19u8, 0x01u8] + keccak_256(
                keccak_256(
                    encode_utf8(
                        "EIP712Domain(string name,string version,uint256 chainId,address verifyingContract)"@,
                    ),
                ) + keccak_256(encode_utf8("Exchange"@)) + keccak_256(encode_utf8("1"@))
                    + be_bytes(1337, 32) + be_bytes(0, 32),
            ) + keccak_256(
                keccak_256(encode_utf8("Agent(string source,bytes32 connectionId)"@)) + keccak_256(
                    encode_utf8("a"@),
                ) + keccak_256(action + be_bytes(nonce as nat, 8) + seq![0u8]),
            ),
        ),
{
}

/// What the connection id is hashed from: the action, the nonce in eight bytes, most
/// significant first, and a zero.
pub proof fn law_preimage_parts(action: Seq<u8>, nonce: u64)
    ensures
        connection_preimage(action, nonce).len() == action.len() + 9,
        connection_preimage(action, nonce).take(action.len() as int) == action,
        be_number(
            connection_preimage(action, nonce).skip(action.len() as int).take(8),
        ) == nonce,
        connection_preimage(action, nonce).last() == 0,
{
    let n = action.len() as int;
    let p = connection_preimage(action, nonce);
    law_numbers_have_their_bytes(nonce as nat, 8);
    law_bytes_hold_powers(0);
    assert(p.take(n) =~= action);
    assert(p.skip(n).take(8) =~= be_bytes(nonce as nat, 8));
}

/// The hexadecimal digits of either case, and nothing else, have a value.
pub proof fn law_hex_digits(b: u8)
    ensures
        '0' as u8 <= b <= '9' as u8 ==> hex_digit(b) == Some((b - '0' as u8) as nat),
        'a' as u8 <= b <= 'f' as u8 ==> hex_digit(b) == Some((b - 'a' as u8 + 10) as nat),
        'A' as u8 <= b <= 'F' as u8 ==> hex_digit(b) == Some((b - 'A' as u8 + 10) as nat),
        hex_digit(b) is Some ==> ('0' as u8 <= b <= '9' as u8) || ('a' as u8 <= b <= 'f' as u8) || (
        'A' as u8 <= b <= 'F' as u8),
{
}

proof fn lemma_hex_char(n: nat)
    requires
        n < 16,
    ensures
        hex_digit(hex_char(n) as u8) == Some(n),
        ('0' <= hex_char(n) <= '9') || ('a' <= hex_char(n) <= 'f'),
        '\0' <= hex_char(n) <= '\u{7f}',
{
}

/// Bytes written in hexadecimal are two lower-case digits each, and are read back.
pub proof fn law_hex_is_read_back(bytes: Seq<u8>)
    ensures
        hex_text(bytes).len() == 2 * bytes.len(),
        forall|i: int|
            0 <= i < hex_text(bytes).len() ==> ('0' <= #[trigger] hex_text(bytes)[i] <= '9') || (
            'a' <= hex_text(bytes)[i] <= 'f'),
        is_hex(encode_utf8(hex_text(bytes))),
        hex_value(encode_utf8(hex_text(bytes))) == bytes,
{
    let t = hex_text(bytes);
    assert forall|i: int| 0 <= i < t.len() implies (('0' <= #[trigger] t[i] <= '9') || ('a' <= t[i]
        <= 'f')) && '\0' <= t[i] <= '\u{7f}' by {
        lemma_hex_char((bytes[i / 2] / 16) as nat);
        lemma_hex_char((bytes[i / 2] % 16) as nat);
    }
    vstd::utf8::is_ascii_chars_encode_utf8(t);
    let e = encode_utf8(t);
    assert forall|i: int| 0 <= i < e.len() implies hex_digit(#[trigger] e[i]) == Some(
        if i % 2 == 0 {
            (bytes[i / 2] / 16) as nat
        } else {
            (bytes[i / 2] % 16) as nat
        },
    ) by {
        assert(e[i] == t[i] as u8);
        lemma_hex_char((bytes[i / 2] / 16) as nat);
        lemma_hex_char((bytes[i / 2] % 16) as nat);
    }
    assert(hex_value(e) =~= bytes) by {
        assert forall|i: int| 0 <= i < bytes.len() implies hex_value(e)[i] == bytes[i] by {
            assert(hex_digit(e[2 * i]) == Some((bytes[i] / 16) as nat));
            assert(hex_digit(e[2 * i + 1]) == Some((bytes[i] % 16) as nat));
        }
    }
}

/// A text is hexadecimal exactly if it has an even number of bytes and each is a
/// digit; it spells half as many bytes.
pub proof fn law_hex_texts(text: Seq<u8>, i: int)
    ensures
        is_hex(text) ==> text.len() % 2 == 0,
        is_hex(text) && 0 <= i < text.len() ==> hex_digit(text[i]) is Some,
        text.len() % 2 == 0 && (forall|j: int|
            0 <= j < text.len() ==> hex_digit(#[trigger] text[j]) is Some) ==> is_hex(text),
        hex_value(text).len() == text.len() / 2,
        is_hex(text) && 0 <= i < text.len() / 2 ==> hex_value(text)[i] == 16 * hex_digit(
            text[2 * i],
        )->Some_0 + hex_digit(text[2 * i + 1])->Some_0,
{
    if is_hex(text) && 0 <= i < text.len() / 2 {
        let a = hex_digit(text[2 * i]);
        let b = hex_digit(text[2 * i + 1]);
        assert(a is Some && b is Some);
        assert(a->Some_0 < 16 && b->Some_0 < 16);
    }
}

/// A secret key has 32 bytes, and spells a number above zero and below the order of
/// the curve's group.
pub proof fn law_secret_keys(secret: Seq<u8>)
    ensures
        is_secret_key(secret) <==> secret.len() == 32 && 0 < be_number(secret)
            < 0xFFFF_FFFF_FFFF_FFFF_FFFF_FFFF_FFFF_FFFE_BAAE_DCE6_AF48_A03B_BFD2_5E8C_D036_4141nat,
{
}

/// When signing succeeds and each way in which it fails.
pub proof fn law_signing_outcomes(secret_hex: Seq<char>, action: Seq<u8>, nonce: u64)
    ensures
        ({
            let digits = strip_0x_spec(secret_hex);
            let secret = hex_value(encode_utf8(digits));
            let outcome = sign_spec(secret_hex, action, nonce);
            let signed = ecdsa_signature(secret, signing_digest(action, nonce));
            &&& !is_hex(encode_utf8(digits)) <==> outcome == Err::<Seq<char>, SignErrorView>(
                SignErrorView::SecretHex(hex_error_text(digits)),
            )
            &&& is_hex(encode_utf8(digits)) && secret.len() != 32 <==> outcome == Err::<
                Seq<char>,
                SignErrorView,
            >(SignErrorView::SecretLength)
            &&& is_hex(encode_utf8(digits)) && secret.len() == 32 && !is_secret_key(secret)
                <==> outcome == Err::<Seq<char>, SignErrorView>(
                SignErrorView::Key("signature error"@),
            )
            &&& is_hex(encode_utf8(digits)) && is_secret_key(secret) && signed is None <==> outcome
                == Err::<Seq<char>, SignErrorView>(SignErrorView::Sign("signature error"@))
            &&& is_hex(encode_utf8(digits)) && is_secret_key(secret) && signed is Some <==> outcome
                is Ok
            &&& outcome is Ok ==> outcome->Ok_0 == render(
                signature_tree(signed->Some_0.0, signed->Some_0.1),
            )
        }),
{
}

/// Two secrets that spell the same bytes sign alike, in whatever case their digits are.
pub proof fn law_secrets_sign_by_their_bytes(
    secret_hex: Seq<char>,
    other_hex: Seq<char>,
    action: Seq<u8>,
    nonce: u64,
)
    requires
        is_hex(encode_utf8(strip_0x_spec(secret_hex))),
        is_hex(encode_utf8(strip_0x_spec(other_hex))),
        hex_value(encode_utf8(strip_0x_spec(secret_hex))) == hex_value(
            encode_utf8(strip_0x_spec(other_hex)),
        ),
    ensures
        sign_spec(secret_hex, action, nonce) == sign_spec(other_hex, action, nonce),
{
}

/// The messages of a failed signing.
pub proof fn law_signing_messages(cause: Seq<char>)
    ensures
        SignErrorView::SecretHex(cause).message() == "HL secret hex decode: "@ + cause,
        SignErrorView::SecretLength.message() == "HL secret must be 32 bytes"@,
        SignErrorView::Key(cause).message() == "HL signing key: "@ + cause,
        SignErrorView::Sign(cause).message() == "HL sign: "@ + cause,
{
}

/// The views of results show what they hold.
pub proof fn law_signing_views(text: String, e: SignError, bodies: BracketBodies)
    ensures
        SignError::SecretHex(text)@ == SignErrorView::SecretHex(text@),
        SignError::SecretLength@ == SignErrorView::SecretLength,
        SignError::Key(text)@ == SignErrorView::Key(text@),
        SignError::Sign(text)@ == SignErrorView::Sign(text@),
        signed_view(Ok(text)) == Ok::<Seq<char>, SignErrorView>(text@),
        signed_view(Err(e)) == Err::<Seq<char>, SignErrorView>(e@),
        bracket_view(Ok(bodies)) == Ok::<(Seq<char>, Seq<char>), SignErrorView>(
            (bodies.tp@, bodies.sl@),
        ),
        bracket_view(Err(e)) == Err::<(Seq<char>, Seq<char>), SignErrorView>(e@),
{
}

} // verus!
