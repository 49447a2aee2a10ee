use serde_json::Value;
use sikapa_execution::action::{hl_action_msgpack, mp_str, mp_uint};
use sikapa_execution::binary64::Binary64;
use sikapa_execution::clock::Clock;
use sikapa_execution::order::{OrderRequest, Side};
use sikapa_execution::requests::{
    build_bracket_body, clearinghouse_request, place_order_body, plan_bracket, plan_bracket_at,
    BracketPrices,
};
use sikapa_execution::signing::{action_digest, hl_sign_order, signature_json, SignError};

const SECRET: &str = "0123456789abcdef0123456789abcdef0123456789abcdef0123456789abcdef";

const ENTRY_SIGNATURE: &str = "{\"r\":\"0x6456866375a473cdd36af6b65f5ada1bab8ede39ccdb81cf149e799f17964be4\",\"s\":\"0x259bf9f535eb96229e4694258e734b57a186a4dc9eadc8ec27303c3323ffa07a\",\"v\":27}";
const TP_SIGNATURE: &str = "{\"r\":\"0xe491d4cfdc224cfc221c85b798bd18f54fddc3f2bc9292f0301ace32c82f30d6\",\"s\":\"0x3c1dabaa7fa98a5943b9429a0df4b86f1db30e8b72c9ee3cce74027aebab6822\",\"v\":28}";
const SL_SIGNATURE: &str = "{\"r\":\"0x8d6a3a4dc04cdf71e98a8955b6c3f71fe727e601eb2f10bdae9a4d086fc359e7\",\"s\":\"0x1912f378f02080ae8c6e6acac2b7ce8325ed652fe36ad6d0e4432b82ea4413a4\",\"v\":27}";

fn num(x: f64) -> Binary64 {
    Binary64::from_bits(x.to_bits())
}

fn hex(bytes: &[u8]) -> String {
    bytes.iter().map(|b| format!("{:02x}", b)).collect()
}

fn eth(side: Side) -> OrderRequest {
    let mut counter = 1;
    OrderRequest::new(&mut counter, "ETH", side, num(0.22), num(2367.5), 1000)
}

#[test]
fn packed_uints() {
    let cases: Vec<(u64, &str)> = vec![
        (0, "00"),
        (0x7f, "7f"),
        (0x80, "cc80"),
        (0xff, "ccff"),
        (0x100, "cd0100"),
        (0xffff, "cdffff"),
        (0x1_0000, "ce00010000"),
        (0xffff_ffff, "ceffffffff"),
        (0x1_0000_0000, "cf0000000100000000"),
        (u64::MAX, "cfffffffffffffffff"),
    ];
    for (n, expected) in cases {
        let mut b = Vec::new();
        mp_uint(&mut b, n);
        assert_eq!(hex(&b), expected);
    }
}

#[test]
fn packed_strings() {
    let mut b = vec![1u8];
    mp_str(&mut b, "abc");
    assert_eq!(hex(&b), "01a3616263");
    let cases: Vec<(usize, &str)> = vec![
        (0, "a0"),
        (31, "bf"),
        (32, "d920"),
        (255, "d9ff"),
        (256, "da0100"),
        (65535, "daffff"),
        (65536, "db00010000"),
    ];
    for (n, header) in cases {
        let text = "x".repeat(n);
        let mut b = Vec::new();
        mp_str(&mut b, &text);
        let h = header.len() / 2;
        assert_eq!(hex(&b[..h]), header);
        assert_eq!(b.len(), h + n);
        assert!(b[h..].iter().all(|c| *c == b'x'));
    }
    let mut b = Vec::new();
    mp_str(&mut b, "é");
    assert_eq!(hex(&b), "a2c3a9");
}

#[test]
fn packed_limit_action() {
    let b = hl_action_msgpack(1, true, "2367.5", "0.22", false, "Ioc", None);
    assert_eq!(
        hex(&b),
        "83a474797065a56f72646572a66f72646572739186a16101a162c3a170a6323336372e35a173a4302e3232a172c2a17481a56c696d697481a3746966a3496f63a867726f7570696e67a26e61"
    );
}

#[test]
fn packed_trigger_action() {
    let b = hl_action_msgpack(1, false, "2137.5", "0.22", true, "trigger", Some("2250"));
    assert_eq!(
        hex(&b),
        "83a474797065a56f72646572a66f72646572739186a16101a162c2a170a6323133372e35a173a4302e3232a172c3a17481a77472696767657283a869734d61726b6574c3a9747269676765725078a432323530a47470736ca2736ca867726f7570696e67a26e61"
    );
    let own = hl_action_msgpack(1, false, "2137.5", "0.22", true, "trigger", None);
    let same = hl_action_msgpack(1, false, "2137.5", "0.22", true, "trigger", Some("2137.5"));
    assert_eq!(own, same);
}

#[test]
fn packed_actions_differ() {
    let base = hl_action_msgpack(1, true, "1", "2", false, "Ioc", None);
    assert_ne!(base, hl_action_msgpack(2, true, "1", "2", false, "Ioc", None));
    assert_ne!(base, hl_action_msgpack(1, false, "1", "2", false, "Ioc", None));
    assert_ne!(base, hl_action_msgpack(1, true, "2", "1", false, "Ioc", None));
    assert_ne!(base, hl_action_msgpack(1, true, "1", "2", true, "Ioc", None));
    assert_ne!(base, hl_action_msgpack(1, true, "1", "2", false, "Gtc", None));
}

#[test]
fn digest_of_an_action() {
    let b = hl_action_msgpack(1, true, "2367.5", "0.22", false, "Ioc", None);
    let digest = action_digest(&b, 1700000000000);
    assert_eq!(hex(&digest), "cf7660afb604a6dd9bdbd2f0e48a869cf940695e39a889c5b4afc8343c14cbc8");
    assert_ne!(action_digest(&b, 1700000000001), digest);
}

#[test]
fn signature_of_an_order() {
    let plain = hl_sign_order(
        SECRET, 1, true, "2367.5", "0.22", false, "Ioc", None, 1700000000000,
    );
    assert_eq!(plain.unwrap(), ENTRY_SIGNATURE);
    let prefixed = hl_sign_order(
        &format!("0x{}", SECRET.to_uppercase()),
        1,
        true,
        "2367.5",
        "0.22",
        false,
        "Ioc",
        None,
        1700000000000,
    );
    assert_eq!(prefixed.unwrap(), ENTRY_SIGNATURE);
}

fn sign_with(secret: &str) -> Result<String, SignError> {
    hl_sign_order(secret, 1, true, "1", "1", false, "Ioc", None, 1)
}

#[test]
fn secrets_that_are_not_hex() {
    match sign_with("0xabc") {
        Err(e) => {
            assert!(matches!(e, SignError::SecretHex(_)));
            assert_eq!(e.message(), "HL secret hex decode: Odd number of digits");
        }
        Ok(_) => panic!("accepted"),
    }
    match sign_with("zz") {
        Err(e) => {
            assert!(matches!(e, SignError::SecretHex(_)));
            assert_eq!(e.message(), "HL secret hex decode: Invalid character 'z' at position 0");
        }
        Ok(_) => panic!("accepted"),
    }
}

#[test]
fn secrets_of_the_wrong_length() {
    for secret in ["", "0x", "abcd", &format!("{}00", SECRET)] {
        match sign_with(secret) {
            Err(e) => {
                assert!(matches!(e, SignError::SecretLength));
                assert_eq!(e.message(), "HL secret must be 32 bytes");
            }
            Ok(_) => panic!("accepted"),
        }
    }
}

#[test]
fn secrets_that_are_no_keys() {
    let order = "fffffffffffffffffffffffffffffffebaaedce6af48a03bbfd25e8cd0364141";
    for secret in [&"00".repeat(32), order, &"ff".repeat(32)] {
        match sign_with(secret) {
            Err(e) => {
                assert!(matches!(e, SignError::Key(_)));
                assert_eq!(e.message(), "HL signing key: signature error");
            }
            Ok(_) => panic!("accepted"),
        }
    }
    let last = "fffffffffffffffffffffffffffffffebaaedce6af48a03bbfd25e8cd0364140";
    assert!(sign_with(last).is_ok());
}

#[test]
fn sign_failure_message() {
    let e = SignError::Sign("signature error".to_string());
    assert_eq!(e.message(), "HL sign: signature error");
}

#[test]
fn signature_text() {
    let mut signature = [0u8; 64];
    signature[0] = 0xab;
    signature[31] = 0x01;
    signature[32] = 0xf0;
    signature[63] = 0x9e;
    let zeros = "0".repeat(60);
    let expected = format!(
        "{{\"r\":\"0xab{}01\",\"s\":\"0xf0{}9e\",\"v\":28}}",
        zeros, zeros
    );
    assert_eq!(signature_json(&signature, 1), expected);
}

#[test]
fn entry_body() {
    let body = place_order_body(SECRET, &eth(Side::Buy), "2367.500000", "0.220000", 1700000000000);
    let expected = format!(
        "{{\"action\":{{\"type\":\"order\",\"orders\":[{{\"a\":{},\"b\":{},\"p\":\"{}\",\"s\":\"{}\",\"r\":false,\"t\":{{\"limit\":{{\"tif\":\"Ioc\"}}}}}}],\"grouping\":\"na\"}},\"nonce\":{},\"signature\":{}}}",
        1, true, "2367.5", "0.22", 1700000000000u64, ENTRY_SIGNATURE
    );
    assert_eq!(body.unwrap(), expected);
}

#[test]
fn take_profit_body() {
    let body = build_bracket_body(
        SECRET, 1, false, "2400.000000", "ignored", "0.220000", 1700000000001, false,
    );
    let expected = format!(
        "{{\"action\":{{\"type\":\"order\",\"orders\":[{{\"a\":{},\"b\":{},\"p\":\"{}\",\"s\":\"{}\",\"r\":true,\"t\":{{\"limit\":{{\"tif\":\"Gtc\"}}}}}}],\"grouping\":\"na\"}},\"nonce\":{},\"signature\":{}}}",
        1, false, "2400", "0.22", 1700000000001u64, TP_SIGNATURE
    );
    assert_eq!(body.unwrap(), expected);
}

#[test]
fn stop_loss_body() {
    let body = build_bracket_body(
        SECRET, 1, false, "2250.000000", "2137.500000", "0.220000", 1700000000002, true,
    );
    let expected = format!(
        "{{\"action\":{{\"type\":\"order\",\"orders\":[{{\"a\":{},\"b\":{},\"p\":\"{}\",\"s\":\"{}\",\"r\":true,\"t\":{{\"trigger\":{{\"isMarket\":true,\"triggerPx\":\"{}\",\"tpsl\":\"sl\"}}}}}}],\"grouping\":\"na\"}},\"nonce\":{},\"signature\":{}}}",
        1, false, "2137.5", "0.22", "2250", 1700000000002u64, SL_SIGNATURE
    );
    assert_eq!(body.unwrap(), expected);
}

#[test]
fn bracket_closes_the_position() {
    let prices = BracketPrices {
        tp: "2400.000000",
        sl: "2250.000000",
        sl_limit: "2137.500000",
        quantity: "0.220000",
    };
    let bodies = plan_bracket_at(SECRET, &eth(Side::Buy), prices, 1700000000001).unwrap();
    assert!(bodies.tp.contains(TP_SIGNATURE));
    assert!(bodies.tp.contains("\"nonce\":1700000000001,"));
    assert!(bodies.sl.contains(SL_SIGNATURE));
    assert!(bodies.sl.contains("\"nonce\":1700000000002,"));
    let prices = BracketPrices { tp: "2.0", sl: "3.0", sl_limit: "3.15", quantity: "1.0" };
    let bodies = plan_bracket_at(SECRET, &eth(Side::Sell), prices, 5).unwrap();
    assert!(bodies.tp.contains("\"b\":true,\"p\":\"2\","));
    assert!(bodies.sl.contains("\"b\":true,\"p\":\"3.15\","));
    assert!(bodies.sl.contains("\"triggerPx\":\"3\""));
}

#[test]
fn bracket_without_a_key() {
    let prices = BracketPrices { tp: "2.0", sl: "3.0", sl_limit: "3.15", quantity: "1.0" };
    match plan_bracket("abcd", &eth(Side::Buy), prices, &mut Clock::new()) {
        Err(e) => assert_eq!(e.message(), "HL secret must be 32 bytes"),
        Ok(_) => panic!("signed"),
    }
}

#[test]
fn bracket_on_the_clock() {
    let prices = BracketPrices { tp: "2.0", sl: "3.0", sl_limit: "3.15", quantity: "1.0" };
    let mut clock = Clock { last: 1 << 62 };
    let bodies = plan_bracket(SECRET, &eth(Side::Buy), prices, &mut clock).unwrap();
    let nonce = clock.last / 1_000_000;
    assert!(bodies.tp.starts_with("{\"action\":{\"type\":\"order\""));
    assert!(bodies.tp.contains(&format!("\"nonce\":{},", nonce)));
    assert!(bodies.sl.contains(&format!("\"nonce\":{},", nonce + 1)));
    assert!(bodies.sl.ends_with("}}"));
}

#[test]
fn bodies_are_json() {
    let body = place_order_body(SECRET, &eth(Side::Sell), "2367.500000", "0.220000", 12).unwrap();
    let v: Value = serde_json::from_str(&body).unwrap();
    assert_eq!(v["nonce"].as_u64(), Some(12));
    let order = &v["action"]["orders"][0];
    assert_eq!(order["a"].as_u64(), Some(1));
    assert_eq!(order["b"].as_bool(), Some(false));
    assert_eq!(order["p"].as_str(), Some("2367.5"));
    assert_eq!(order["s"].as_str(), Some("0.22"));
    assert_eq!(order["t"]["limit"]["tif"].as_str(), Some("Ioc"));
    assert_eq!(v["action"]["grouping"].as_str(), Some("na"));
    let recovery = v["signature"]["v"].as_u64().unwrap();
    assert!(recovery == 27 || recovery == 28);
    assert_eq!(v["signature"]["r"].as_str().unwrap().len(), 66);
}

#[test]
fn account_query() {
    assert_eq!(
        clearinghouse_request("0xabc"),
        "{\"type\":\"clearinghouseState\",\"user\":\"0xabc\"}"
    );
}
