//! The request bodies that go to the exchange.
use crate::action::{action_tree, optional_text, order_kind, order_tree};
use crate::action::{
    push_action, push_close, push_comma, push_key, push_open, push_text_entry, push_uint_entry,
};
use crate::clock::{now_ms, reading, Clock};
use crate::order::{OrderRequest, OrderRequestView, Side};
use crate::signing::{hl_sign_order, sign_spec, signature_tree, signed_view};
use crate::signing::{SignError, SignErrorView};
use crate::text::{fixed_to_wire, wire_spec};
use crate::wire::{lemma_dict_of_three, lemma_dict_of_two, pack, quoted, render, render_entry, Wire};
use std::time::SystemTime;
use vstd::prelude::*;
use vstd::string::StringExecFns;

verus! {

/// A signed request: the action, its nonce and the signature's JSON text.
pub open spec fn body_text(action: Wire, nonce: u64, signature: Seq<char>) -> Seq<char> {
    seq!['{'] + render_entry(("action"@, action)) + seq![','] + render_entry(
        ("nonce"@, Wire::Uint(nonce as nat)),
    ) + seq![','] + quoted("signature"@) + seq![':'] + signature + seq!['}']
}

/// The body that sends an action: the signature in it is that of the very action
/// in it, under the nonce in it.
pub open spec fn signed_body_spec(secret_hex: Seq<char>, action: Wire, nonce: u64) -> Result<
    Seq<char>,
    SignErrorView,
> {
    match sign_spec(secret_hex, pack(action), nonce) {
        Ok(signature) => Ok(body_text(action, nonce, signature)),
        Err(e) => Err(e),
    }
}

/// Signs an action that places one order, and wraps both into a request body.
pub fn signed_body(
    secret_hex: &str,
    asset_id: u8,
    is_buy: bool,
    price_w: &str,
    qty_w: &str,
    reduce_only: bool,
    tif_or_trigger: &str,
    trigger_px: Option<&str>,
    nonce: u64,
) -> (r: Result<String, SignError>)
    ensures
        signed_view(r) == signed_body_spec(
            secret_hex@,
            action_tree(
                order_tree(
                    asset_id,
                    is_buy,
                    price_w@,
                    qty_w@,
                    reduce_only,
                    order_kind(tif_or_trigger@, optional_text(trigger_px), price_w@),
                ),
            ),
            nonce,
        ),
{
    let ghost kind = order_kind(tif_or_trigger@, optional_text(trigger_px), price_w@);
    let ghost action = action_tree(
        order_tree(asset_id, is_buy, price_w@, qty_w@, reduce_only, kind),
    );
    let signature: String = match hl_sign_order(
        secret_hex,
        asset_id,
        is_buy,
        price_w,
        qty_w,
        reduce_only,
        tif_or_trigger,
        trigger_px,
        nonce,
    ) {
        Ok(signature) => signature,
        Err(e) => {
            return Err(e);
        },
    };
    let mut out: String = String::new();
    push_open(&mut out);
    let ghost before_action = out@;
    push_key(&mut out, "action");
    push_action(
        &mut out,
        asset_id,
        is_buy,
        price_w,
        qty_w,
        reduce_only,
        tif_or_trigger,
        trigger_px,
    );
    assert(out@ == before_action + render_entry(("action"@, action))) by {
        reveal(render_entry);
        assert(out@ =~= before_action + render_entry(("action"@, action)));
    }
    push_comma(&mut out);
    push_uint_entry(&mut out, "nonce", nonce);
    push_comma(&mut out);
    push_key(&mut out, "signature");
    out.append(signature.as_str());
    push_close(&mut out);
    assert(out@ =~= body_text(action, nonce, signature@));
    Ok(out)
}

/// A signed body is the JSON text of one dictionary: the action, the nonce and
/// the signature's two halves and recovery value.
pub proof fn law_body_is_json(action: Wire, nonce: u64, signature: Seq<u8>, recovery: u8)
    ensures
        body_text(action, nonce, render(signature_tree(signature, recovery))) == render(
            Wire::Dict(
                seq![
                    ("action"@, action),
                    ("nonce"@, Wire::Uint(nonce as nat)),
                    ("signature"@, signature_tree(signature, recovery)),
                ],
            ),
        ),
{
    let e0 = ("action"@, action);
    let e1 = ("nonce"@, Wire::Uint(nonce as nat));
    let e2 = ("signature"@, signature_tree(signature, recovery));
    lemma_dict_of_three(e0, e1, e2);
    assert(render_entry(e2) == quoted("signature"@) + seq![':'] + render(e2.1)) by {
        reveal(render_entry);
    }
    assert(body_text(action, nonce, render(e2.1)) =~= seq!['{'] + render_entry(e0) + seq![',']
        + render_entry(e1) + seq![','] + render_entry(e2) + seq!['}']);
}

/// The action of an entry: an immediate-or-cancel limit order, quantity and price
/// in the exchange's notation.
pub open spec fn entry_action(
    req: OrderRequestView,
    price_fixed: Seq<char>,
    qty_fixed: Seq<char>,
) -> Wire {
    let price = wire_spec(price_fixed);
    action_tree(
        order_tree(
            req.symbol_idx,
            req.side == Side::Buy,
            price,
            wire_spec(qty_fixed),
            false,
            order_kind("Ioc"@, None, price),
        ),
    )
}

/// The body that places an entry. Price and quantity come printed with six
/// decimals.
pub fn place_order_body(
    secret_hex: &str,
    req: &OrderRequest,
    price_fixed: &str,
    qty_fixed: &str,
    nonce: u64,
) -> (r: Result<String, SignError>)
    ensures
        signed_view(r) == signed_body_spec(
            secret_hex@,
            entry_action(req@, price_fixed@, qty_fixed@),
            nonce,
        ),
{
    let price_w: String = fixed_to_wire(price_fixed);
    let qty_w: String = fixed_to_wire(qty_fixed);
    let is_buy: bool = req.side == Side::Buy;
    signed_body(
        secret_hex,
        req.symbol_idx,
        is_buy,
        price_w.as_str(),
        qty_w.as_str(),
        false,
        "Ioc",
        None,
        nonce,
    )
}

/// The action of one bracket leg, which only reduces the position. A stop loss
/// triggers at its price and may trade up to its limit; a take profit rests as a
/// limit order at its price.
pub open spec fn leg_action(
    asset_id: u8,
    is_buy: bool,
    price_fixed: Seq<char>,
    limit_fixed: Seq<char>,
    qty_fixed: Seq<char>,
    is_sl: bool,
) -> Wire {
    let trigger = wire_spec(price_fixed);
    let limit = wire_spec(limit_fixed);
    if is_sl {
        action_tree(
            order_tree(
                asset_id,
                is_buy,
                limit,
                wire_spec(qty_fixed),
                true,
                order_kind("trigger"@, Some(trigger), limit),
            ),
        )
    } else {
        action_tree(
            order_tree(
                asset_id,
                is_buy,
                trigger,
                wire_spec(qty_fixed),
                true,
                order_kind("Gtc"@, None, trigger),
            ),
        )
    }
}

/// The body that places one bracket leg. The numbers come printed with six
/// decimals; a take profit has no use for the limit.
pub fn build_bracket_body(
    secret_hex: &str,
    asset_id: u8,
    is_buy: bool,
    price_fixed: &str,
    limit_fixed: &str,
    qty_fixed: &str,
    nonce: u64,
    is_sl: bool,
) -> (r: Result<String, SignError>)
    ensures
        signed_view(r) == signed_body_spec(
            secret_hex@,
            leg_action(asset_id, is_buy, price_fixed@, limit_fixed@, qty_fixed@, is_sl),
            nonce,
        ),
{
    let trigger_w: String = fixed_to_wire(price_fixed);
    let qty_w: String = fixed_to_wire(qty_fixed);
    if is_sl {
        let limit_w: String = fixed_to_wire(limit_fixed);
        signed_body(
            secret_hex,
            asset_id,
            is_buy,
            limit_w.as_str(),
            qty_w.as_str(),
            true,
            "trigger",
            Some(trigger_w.as_str()),
            nonce,
        )
    } else {
        signed_body(
            secret_hex,
            asset_id,
            is_buy,
            trigger_w.as_str(),
            qty_w.as_str(),
            true,
            "Gtc",
            None,
            nonce,
        )
    }
}

/// Whatever its prices, a bracket leg only reduces a position, on the given side
/// and by the given quantity: a take profit rests until it is cancelled, a stop
/// loss trades at the market once its price is reached.
pub proof fn law_legs_only_reduce(
    asset_id: u8,
    is_buy: bool,
    price_fixed: Seq<char>,
    limit_fixed: Seq<char>,
    qty_fixed: Seq<char>,
)
    ensures
        leg_action(asset_id, is_buy, price_fixed, limit_fixed, qty_fixed, false) == action_tree(
            order_tree(
                asset_id,
                is_buy,
                wire_spec(price_fixed),
                wire_spec(qty_fixed),
                true,
                Wire::Dict(seq![("limit"@, Wire::Dict(seq![("tif"@, Wire::Text("Gtc"@))]))]),
            ),
        ),
        leg_action(asset_id, is_buy, price_fixed, limit_fixed, qty_fixed, true) == action_tree(
            order_tree(
                asset_id,
                is_buy,
                wire_spec(limit_fixed),
                wire_spec(qty_fixed),
                true,
                Wire::Dict(
                    seq![
                        (
                            "trigger"@,
                            Wire::Dict(
                                seq![
                                    ("isMarket"@, Wire::Flag(true)),
                                    ("triggerPx"@, Wire::Text(wire_spec(price_fixed))),
                                    ("tpsl"@, Wire::Text("sl"@)),
                                ],
                            ),
                        ),
                    ],
                ),
            ),
        ),
{
    reveal_strlit("Gtc");
    reveal_strlit("trigger");
    assert("Gtc"@.len() != "trigger"@.len());
}

/// The signed bodies of both bracket legs.
#[derive(Debug)]
pub struct BracketBodies {
    pub tp: String,
    pub sl: String,
}

/// The numbers of a bracket, each printed with six decimals.
pub struct BracketPrices<'a> {
    pub tp: &'a str,
    pub sl: &'a str,
    pub sl_limit: &'a str,
    pub quantity: &'a str,
}

/// The bodies of a bracket whose take profit goes out under `nonce`, the stop
/// loss under the next one; both close the position. The take profit's error
/// comes first.
pub open spec fn bracket_spec(
    secret_hex: Seq<char>,
    req: OrderRequestView,
    prices: BracketPrices,
    nonce: u64,
) -> Result<(Seq<char>, Seq<char>), SignErrorView> {
    let closing_buy = req.side == Side::Sell;
    let tp = signed_body_spec(
        secret_hex,
        leg_action(
            req.symbol_idx,
            closing_buy,
            prices.tp@,
            prices.sl_limit@,
            prices.quantity@,
            false,
        ),
        nonce,
    );
    let sl = signed_body_spec(
        secret_hex,
        leg_action(
            req.symbol_idx,
            closing_buy,
            prices.sl@,
            prices.sl_limit@,
            prices.quantity@,
            true,
        ),
        (nonce + 1) as u64,
    );
    match (tp, sl) {
        (Ok(tp), Ok(sl)) => Ok((tp, sl)),
        (Err(e), _) => Err(e),
        (_, Err(e)) => Err(e),
    }
}

/// Both bodies of a bracket close the position: each carries the action of its own
/// leg on the side opposite to the entry, under a nonce of its own, and the
/// signature of that action under that nonce.
pub proof fn law_bracket_bodies_close(
    secret_hex: Seq<char>,
    req: OrderRequestView,
    prices: BracketPrices,
    nonce: u64,
)
    requires
        nonce < u64::MAX,
        bracket_spec(secret_hex, req, prices, nonce) is Ok,
    ensures
        ({
            let (tp, sl) = bracket_spec(secret_hex, req, prices, nonce)->Ok_0;
            let opposite = req.side == Side::Sell;
            let tp_action = leg_action(
                req.symbol_idx,
                opposite,
                prices.tp@,
                prices.sl_limit@,
                prices.quantity@,
                false,
            );
            let sl_action = leg_action(
                req.symbol_idx,
                opposite,
                prices.sl@,
                prices.sl_limit@,
                prices.quantity@,
                true,
            );
            let next = (nonce + 1) as u64;
            &&& next != nonce
            &&& sign_spec(secret_hex, pack(tp_action), nonce) matches Ok(signature) && tp
                == body_text(tp_action, nonce, signature)
            &&& sign_spec(secret_hex, pack(sl_action), next) matches Ok(signature) && sl
                == body_text(sl_action, next, signature)
        }),
{
}

/// A bracket result by its view.
pub open spec fn bracket_view(r: Result<BracketBodies, SignError>) -> Result<
    (Seq<char>, Seq<char>),
    SignErrorView,
> {
    match r {
        Ok(bodies) => Ok((bodies.tp@, bodies.sl@)),
        Err(e) => Err(e@),
    }
}

/// Signs both legs of a bracket, starting at the given nonce.
pub fn plan_bracket_at(
    secret_hex: &str,
    req: &OrderRequest,
    prices: BracketPrices,
    nonce: u64,
) -> (r: Result<BracketBodies, SignError>)
    requires
        nonce < u64::MAX,
    ensures
        bracket_view(r) == bracket_spec(secret_hex@, req@, prices, nonce),
{
    let closing_buy: bool = req.side.closes_by_buying();
    let tp: Result<String, SignError> = build_bracket_body(
        secret_hex,
        req.symbol_idx,
        closing_buy,
        prices.tp,
        prices.sl_limit,
        prices.quantity,
        nonce,
        false,
    );
    let sl: Result<String, SignError> = build_bracket_body(
        secret_hex,
        req.symbol_idx,
        closing_buy,
        prices.sl,
        prices.sl_limit,
        prices.quantity,
        nonce + 1,
        true,
    );
    match tp {
        Ok(tp) => match sl {
            Ok(sl) => Ok(BracketBodies { tp, sl }),
            Err(e) => Err(e),
        },
        Err(e) => Err(e),
    }
}

/// Signs both legs of a bracket under nonces taken from the clock.
pub fn plan_bracket(
    secret_hex: &str,
    req: &OrderRequest,
    prices: BracketPrices,
    clock: &mut Clock,
) -> (r: Result<BracketBodies, SignError>)
    ensures
        exists|instant: SystemTime|
            final(clock).last == #[trigger] reading(old(clock).last, instant),
        bracket_view(r) == bracket_spec(
            secret_hex@,
            req@,
            prices,
            final(clock).last / 1_000_000,
        ),
{
    let nonce: u64 = now_ms(clock);
    plan_bracket_at(secret_hex, req, prices, nonce)
}

/// The query for an account's open positions.
pub fn clearinghouse_request(account: &str) -> (r: String)
    ensures
        r@ == render(
            Wire::Dict(
                seq![
                    ("type"@, Wire::Text("clearinghouseState"@)),
                    ("user"@, Wire::Text(account@)),
                ],
            ),
        ),
{
    let mut out: String = String::new();
    push_open(&mut out);
    push_text_entry(&mut out, "type", "clearinghouseState");
    push_comma(&mut out);
    push_text_entry(&mut out, "user", account);
    push_close(&mut out);
    proof {
        let e0 = ("type"@, Wire::Text("clearinghouseState"@));
        let e1 = ("user"@, Wire::Text(account@));
        lemma_dict_of_two(e0, e1);
        assert(out@ =~= seq!['{'] + render_entry(e0) + seq![','] + render_entry(e1) + seq!['}']);
    }
    out
}

} // verus!
