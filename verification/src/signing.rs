//! Order signatures: the exchange's EIP-712 scheme over secp256k1.
//!
//! The action's MessagePack bytes, the nonce and a zero byte are hashed to a
//! connection id. An `Agent` structure with that id is hashed under the
//! exchange's domain, and the result is signed.
use crate::action::{action_tree, optional_text, order_kind, order_tree};
use crate::action::{hl_action_msgpack, push_be};
use crate::action::{push_close, push_comma, push_open, push_text_entry, push_uint_entry};
use crate::text::{strip_0x, strip_0x_spec};
use crate::wire::{be_bytes, lemma_dict_of_three, pack, render, render_entry, Wire};
use k256::ecdsa::signature::hazmat::PrehashSigner;
use k256::ecdsa::{RecoveryId, Signature, SigningKey};
use sha3::{Digest, Keccak256};
use vstd::prelude::*;
use vstd::slice::slice_subrange;
use vstd::string::StringExecFns;
use vstd::utf8::encode_utf8;

verus! {

/// The Keccak-256 digest of a byte sequence.
pub uninterp spec fn keccak_256(data: Seq<u8>) -> Seq<u8>;

/// `sha3::Keccak256::digest`: the digest of the data.
#[verifier::external_body]
fn keccak256(data: &[u8]) -> (r: [u8; 32])
    ensures
        r@ == keccak_256(data@),
{
    Keccak256::digest(data).into()
}

/// The value of a hexadecimal digit, if `b` is one.
pub open spec fn hex_digit(b: u8) -> Option<nat> {
    if 0x30 <= b <= 0x39 {
        Some((b - 0x30) as nat)
    } else if 0x41 <= b <= 0x46 {
        Some((b - 0x41 + 10) as nat)
    } else if 0x61 <= b <= 0x66 {
        Some((b - 0x61 + 10) as nat)
    } else {
        None
    }
}

/// An even number of hexadecimal digits.
pub open spec fn is_hex(text: Seq<u8>) -> bool {
    text.len() % 2 == 0 && forall|i: int| 0 <= i < text.len() ==> hex_digit(#[trigger] text[i]) is Some
}

/// The bytes that a text of hexadecimal digits spells, two digits each.
pub open spec fn hex_value(text: Seq<u8>) -> Seq<u8> {
    Seq::new(
        text.len() / 2,
        |i: int| (16 * hex_digit(text[2 * i])->Some_0 + hex_digit(text[2 * i + 1])->Some_0) as u8,
    )
}

/// The message of the error that decoding a text ends in.
pub uninterp spec fn hex_error_text(text: Seq<char>) -> Seq<char>;

/// `hex::decode`: succeeds on an even number of hexadecimal digits of either
/// case, and gives the bytes that they spell. The error comes back as its text; an
/// odd number of bytes has a message of its own, whatever the bytes are.
#[verifier::external_body]
fn decode_hex(text: &str) -> (r: Result<Vec<u8>, String>)
    ensures
        match r {
            Ok(bytes) => is_hex(encode_utf8(text@)) && bytes@ == hex_value(encode_utf8(text@)),
            Err(cause) => !is_hex(encode_utf8(text@)) && cause@ == hex_error_text(text@) && (
            encode_utf8(text@).len() % 2 == 1 ==> cause@ == "Odd number of digits"@),
        },
{
    hex::decode(text).map_err(|e| e.to_string())
}

/// The lower-case hexadecimal digit of `n`.
pub open spec fn hex_char(n: nat) -> char {
    if n < 10 {
        ('0' as u8 + n) as char
    } else {
        ('a' as u8 + n - 10) as char
    }
}

/// Two lower-case hexadecimal digits for each byte.
pub open spec fn hex_text(bytes: Seq<u8>) -> Seq<char> {
    Seq::new(
        2 * bytes.len(),
        |i: int|
            if i % 2 == 0 {
                hex_char((bytes[i / 2] / 16) as nat)
            } else {
                hex_char((bytes[i / 2] % 16) as nat)
            },
    )
}

/// `hex::encode`: two lower-case digits for each byte.
#[verifier::external_body]
fn encode_hex(bytes: &[u8]) -> (r: String)
    ensures
        r@ == hex_text(bytes@),
{
    hex::encode(bytes)
}

/// The number that a byte sequence spells, most significant byte first.
pub open spec fn be_number(bytes: Seq<u8>) -> nat
    decreases bytes.len(),
{
    if bytes.len() == 0 {
        0
    } else {
        256 * be_number(bytes.drop_last()) + bytes.last() as nat
    }
}

/// The order of the group that secp256k1 generates.
pub open spec fn group_order() -> nat {
    0xFFFF_FFFF_FFFF_FFFF_FFFF_FFFF_FFFF_FFFE_BAAE_DCE6_AF48_A03B_BFD2_5E8C_D036_4141nat
}

/// A secret key is a number from one up to the group's order, that one left out.
pub open spec fn is_secret_key(secret: Seq<u8>) -> bool {
    secret.len() == 32 && 0 < be_number(secret) < group_order()
}

/// `k256::ecdsa::SigningKey::from_bytes`: accepts exactly the secret keys. The
/// error comes back as its text, which is always the same.
#[verifier::external_body]
fn check_secret_key(secret: &[u8; 32]) -> (r: Result<(), String>)
    ensures
        match r {
            Ok(_) => is_secret_key(secret@),
            Err(cause) => !is_secret_key(secret@) && cause@ == "signature error"@,
        },
{
    SigningKey::from_bytes(secret.into()).map(|_| ()).map_err(|e| e.to_string())
}

/// The deterministic ECDSA signature of a digest under a secret key, and its
/// recovery id; none where the signer gives up.
pub uninterp spec fn ecdsa_signature(secret: Seq<u8>, digest: Seq<u8>) -> Option<(Seq<u8>, u8)>;

/// `PrehashSigner::sign_prehash` of a `k256::ecdsa::SigningKey`: the signature in
/// 64 bytes and a recovery id of at most three. The error comes back as its text,
/// which is always the same.
#[verifier::external_body]
fn sign_digest(secret: &[u8; 32], digest: &[u8; 32]) -> (r: Result<([u8; 64], u8), String>)
    requires
        is_secret_key(secret@),
    ensures
        match r {
            Ok((signature, recovery)) => recovery <= 3 && ecdsa_signature(secret@, digest@)
                == Some((signature@, recovery)),
            Err(cause) => ecdsa_signature(secret@, digest@) is None && cause@ == "signature error"@,
        },
{
    let key = SigningKey::from_bytes(secret.into()).map_err(|e| e.to_string())?;
    let signed: Result<(Signature, RecoveryId), _> = key.sign_prehash(digest);
    let (signature, recovery) = signed.map_err(|e| e.to_string())?;
    Ok((signature.to_bytes().into(), recovery.to_byte()))
}

/// Why an order could not be signed.
#[derive(Debug)]
pub enum SignError {
    /// The secret is not hexadecimal.
    SecretHex(String),
    /// The secret has not 32 bytes.
    SecretLength,
    /// The secret is not a key of the curve.
    Key(String),
    /// The signer gave up.
    Sign(String),
}

/// What a `SignError` says.
pub enum SignErrorView {
    SecretHex(Seq<char>),
    SecretLength,
    Key(Seq<char>),
    Sign(Seq<char>),
}

impl View for SignError {
    type V = SignErrorView;

    open spec fn view(&self) -> SignErrorView {
        match self {
            SignError::SecretHex(cause) => SignErrorView::SecretHex(cause@),
            SignError::SecretLength => SignErrorView::SecretLength,
            SignError::Key(cause) => SignErrorView::Key(cause@),
            SignError::Sign(cause) => SignErrorView::Sign(cause@),
        }
    }
}

impl SignErrorView {
    /// The error's message.
    pub open spec fn message(self) -> Seq<char> {
        match self {
            SignErrorView::SecretHex(cause) => "HL secret hex decode: "@ + cause,
            SignErrorView::SecretLength => "HL secret must be 32 bytes"@,
            SignErrorView::Key(cause) => "HL signing key: "@ + cause,
            SignErrorView::Sign(cause) => "HL sign: "@ + cause,
        }
    }
}

impl SignError {
    pub fn message(&self) -> (r: String)
        ensures
            r@ == self@.message(),
    {
        match self {
            SignError::SecretHex(cause) => "HL secret hex decode: ".to_owned().concat(
                cause.as_str(),
            ),
            SignError::SecretLength => "HL secret must be 32 bytes".to_owned(),
            SignError::Key(cause) => "HL signing key: ".to_owned().concat(cause.as_str()),
            SignError::Sign(cause) => "HL sign: ".to_owned().concat(cause.as_str()),
        }
    }
}

/// The chain id of the exchange's signing domain.
pub const CHAIN_ID: u64 = 1337;

/// The digest of a text's bytes.
pub open spec fn text_digest(text: Seq<char>) -> Seq<u8> {
    keccak_256(encode_utf8(text))
}

/// What the connection id is hashed from: the action, the nonce, and a zero byte
/// for the vault, which takes no part.
pub open spec fn connection_preimage(action: Seq<u8>, nonce: u64) -> Seq<u8> {
    action + be_bytes(nonce as nat, 8) + seq![0u8]
}

/// The connection id of an action under a nonce.
pub open spec fn connection_id(action: Seq<u8>, nonce: u64) -> Seq<u8> {
    keccak_256(connection_preimage(action, nonce))
}

/// The EIP-712 separator of the exchange's domain: name, version, chain id and
/// the zero address.
pub open spec fn domain_separator() -> Seq<u8> {
    keccak_256(
        text_digest(
            "EIP712Domain(string name,string version,uint256 chainId,address verifyingContract)"@,
        ) + text_digest("Exchange"@) + text_digest("1"@) + be_bytes(CHAIN_ID as nat, 32) + be_bytes(
            0,
            32,
        ),
    )
}

/// The EIP-712 hash of the agent with a connection id, on the main network.
pub open spec fn agent_hash(connection: Seq<u8>) -> Seq<u8> {
    keccak_256(
        text_digest("Agent(string source,bytes32 connectionId)"@) + text_digest("a"@) + connection,
    )
}

/// The digest that is signed for an action under a nonce.
pub open spec fn signing_digest(action: Seq<u8>, nonce: u64) -> Seq<u8> {
    keccak_256(
        seq![0x19u8, 0x01u8] + domain_separator() + agent_hash(connection_id(action, nonce)),
    )
}

fn digest_of(text: &str) -> (r: [u8; 32])
    ensures
        r@ == text_digest(text@),
{
    keccak256(text.as_bytes())
}

fn push_digest(b: &mut Vec<u8>, digest: &[u8; 32])
    ensures
        final(b)@ == old(b)@ + digest@,
{
    b.extend_from_slice(digest.as_slice());
    assert(b@ =~= old(b)@ + digest@);
}

/// The digest that is signed for an action's MessagePack bytes under a nonce.
pub fn action_digest(action: &Vec<u8>, nonce: u64) -> (r: [u8; 32])
    ensures
        r@ == signing_digest(action@, nonce),
{
    let mut salted: Vec<u8> = Vec::new();
    salted.extend_from_slice(action.as_slice());
    push_be(&mut salted, nonce, 8);
    salted.push(0);
    assert(salted@ =~= connection_preimage(action@, nonce));
    let connection: [u8; 32] = keccak256(salted.as_slice());

    let mut domain: Vec<u8> = Vec::new();
    push_digest(
        &mut domain,
        &digest_of(
            "EIP712Domain(string name,string version,uint256 chainId,address verifyingContract)",
        ),
    );
    push_digest(&mut domain, &digest_of("Exchange"));
    push_digest(&mut domain, &digest_of("1"));
    push_be(&mut domain, CHAIN_ID, 32);
    push_be(&mut domain, 0, 32);
    let separator: [u8; 32] = keccak256(domain.as_slice());
    proof {
        let w0 = text_digest(
            "EIP712Domain(string name,string version,uint256 chainId,address verifyingContract)"@,
        );
        let w1 = text_digest("Exchange"@);
        let w2 = text_digest("1"@);
        assert(domain@ =~= w0 + w1 + w2 + be_bytes(CHAIN_ID as nat, 32) + be_bytes(0, 32));
    }

    let mut agent: Vec<u8> = Vec::new();
    push_digest(&mut agent, &digest_of("Agent(string source,bytes32 connectionId)"));
    push_digest(&mut agent, &digest_of("a"));
    push_digest(&mut agent, &connection);
    proof {
        let w0 = text_digest("Agent(string source,bytes32 connectionId)"@);
        assert(agent@ =~= w0 + text_digest("a"@) + connection@);
    }
    let structure: [u8; 32] = keccak256(agent.as_slice());

    let mut message: Vec<u8> = Vec::new();
    message.push(0x19);
    message.push(0x01);
    push_digest(&mut message, &separator);
    push_digest(&mut message, &structure);
    assert(message@ =~= seq![0x19u8, 0x01u8] + separator@ + structure@);
    keccak256(message.as_slice())
}

/// The signature object: both halves in hexadecimal, and the recovery value.
pub open spec fn signature_tree(signature: Seq<u8>, recovery: u8) -> Wire {
    Wire::Dict(
        seq![
            ("r"@, Wire::Text("0x"@ + hex_text(signature.subrange(0, 32)))),
            ("s"@, Wire::Text("0x"@ + hex_text(signature.subrange(32, 64)))),
            ("v"@, Wire::Uint((27 + recovery) as nat)),
        ],
    )
}

/// The JSON text of a signature.
pub fn signature_json(signature: &[u8; 64], recovery: u8) -> (r: String)
    requires
        recovery <= 3,
    ensures
        r@ == render(signature_tree(signature@, recovery)),
{
    let r_text: String = "0x".to_owned().concat(
        encode_hex(slice_subrange(signature.as_slice(), 0, 32)).as_str(),
    );
    let s_text: String = "0x".to_owned().concat(
        encode_hex(slice_subrange(signature.as_slice(), 32, 64)).as_str(),
    );
    let mut out: String = String::new();
    push_open(&mut out);
    push_text_entry(&mut out, "r", r_text.as_str());
    push_comma(&mut out);
    push_text_entry(&mut out, "s", s_text.as_str());
    push_comma(&mut out);
    push_uint_entry(&mut out, "v", 27 + recovery as u64);
    push_close(&mut out);
    proof {
        let e0 = ("r"@, Wire::Text(r_text@));
        let e1 = ("s"@, Wire::Text(s_text@));
        let e2 = ("v"@, Wire::Uint((27 + recovery) as nat));
        lemma_dict_of_three(e0, e1, e2);
        assert(out@ =~= seq!['{'] + render_entry(e0) + seq![','] + render_entry(e1) + seq![',']
            + render_entry(e2) + seq!['}']);
    }
    out
}

/// The signature of an action's MessagePack bytes under a nonce, as JSON text, or
/// the reason why there is none.
pub open spec fn sign_spec(secret_hex: Seq<char>, action: Seq<u8>, nonce: u64) -> Result<
    Seq<char>,
    SignErrorView,
> {
    let digits = strip_0x_spec(secret_hex);
    let secret = hex_value(encode_utf8(digits));
    if !is_hex(encode_utf8(digits)) {
        Err(SignErrorView::SecretHex(hex_error_text(digits)))
    } else if secret.len() != 32 {
        Err(SignErrorView::SecretLength)
    } else if !is_secret_key(secret) {
        Err(SignErrorView::Key("signature error"@))
    } else {
        match ecdsa_signature(secret, signing_digest(action, nonce)) {
            Some((signature, recovery)) => Ok(render(signature_tree(signature, recovery))),
            None => Err(SignErrorView::Sign("signature error"@)),
        }
    }
}

fn secret_array(bytes: &Vec<u8>) -> (r: [u8; 32])
    requires
        bytes@.len() == 32,
    ensures
        r@ == bytes@,
{
    let mut out: [u8; 32] = [0u8; 32];
    let mut i: usize = 0;
    while i < 32
        invariant
            i <= 32,
            bytes@.len() == 32,
            out@.len() == 32,
            forall|j: int| 0 <= j < i ==> out@[j] == bytes@[j],
        decreases 32 - i,
    {
        out[i] = bytes[i];
        i += 1;
    }
    assert(out@ =~= bytes@);
    out
}

/// A signing result by its view.
pub open spec fn signed_view(r: Result<String, SignError>) -> Result<Seq<char>, SignErrorView> {
    match r {
        Ok(text) => Ok(text@),
        Err(e) => Err(e@),
    }
}

/// Signs the action that places one order.
pub fn hl_sign_order(
    secret_hex: &str,
    asset_id: u8,
    is_buy: bool,
    price_w: &str,
    qty_w: &str,
    reduce_only: bool,
    tif_or_trigger: &str,
    trigger_px: Option<&str>,
    nonce: u64,
) -> (r: Result<String, SignError>)
    ensures
        signed_view(r) == sign_spec(
            secret_hex@,
            pack(
                action_tree(
                    order_tree(
                        asset_id,
                        is_buy,
                        price_w@,
                        qty_w@,
                        reduce_only,
                        order_kind(tif_or_trigger@, optional_text(trigger_px), price_w@),
                    ),
                ),
            ),
            nonce,
        ),
{
    let action: Vec<u8> = hl_action_msgpack(
        asset_id,
        is_buy,
        price_w,
        qty_w,
        reduce_only,
        tif_or_trigger,
        trigger_px,
    );
    let digest: [u8; 32] = action_digest(&action, nonce);
    let secret_bytes: Vec<u8> = match decode_hex(strip_0x(secret_hex)) {
        Ok(bytes) => bytes,
        Err(cause) => {
            return Err(SignError::SecretHex(cause));
        },
    };
    if secret_bytes.len() != 32 {
        return Err(SignError::SecretLength);
    }
    let secret: [u8; 32] = secret_array(&secret_bytes);
    match check_secret_key(&secret) {
        Ok(_) => {},
        Err(cause) => {
            return Err(SignError::Key(cause));
        },
    }
    match sign_digest(&secret, &digest) {
        Ok((signature, recovery)) => Ok(signature_json(&signature, recovery)),
        Err(cause) => Err(SignError::Sign(cause)),
    }
}

} // verus!
