use sikapa_execution::text::{
    find_byte_after, find_bytes, fixed_to_wire, has_text, push_decimal, push_truth, same_text,
    strip_0x,
};

#[test]
fn wire_notation() {
    assert_eq!(fixed_to_wire("2367.500000"), "2367.5");
    assert_eq!(fixed_to_wire("100.000000"), "100");
    assert_eq!(fixed_to_wire("0.000000"), "0");
    assert_eq!(fixed_to_wire("-0.000001"), "-0.000001");
    assert_eq!(fixed_to_wire("0.220000"), "0.22");
    assert_eq!(fixed_to_wire("inf"), "inf");
    assert_eq!(fixed_to_wire("NaN"), "NaN");
    assert_eq!(fixed_to_wire(""), "");
    for x in [0.2158f64, 12.0, 1e-7, 123456.789, 0.1] {
        let s = format!("{:.6}", x);
        let expected = s.trim_end_matches('0').trim_end_matches('.').to_string();
        assert_eq!(fixed_to_wire(&s), expected);
    }
}

#[test]
fn hex_prefixes_are_dropped() {
    assert_eq!(strip_0x("0xabc"), "abc");
    assert_eq!(strip_0x("abc"), "abc");
    assert_eq!(strip_0x("0x0xabc"), "abc");
    assert_eq!(strip_0x("0Xabc"), "0Xabc");
    assert_eq!(strip_0x("0"), "0");
    assert_eq!(strip_0x("0x"), "");
    assert_eq!(strip_0x(""), "");
}

#[test]
fn decimals() {
    for n in [0u64, 7, 9, 10, 99, 100, 1700000000000, u64::MAX] {
        let mut out = String::from("n=");
        push_decimal(&mut out, n);
        assert_eq!(out, format!("n={}", n));
    }
    let mut out = String::new();
    push_truth(&mut out, true);
    push_truth(&mut out, false);
    assert_eq!(out, "truefalse");
}

#[test]
fn text_equality() {
    assert!(same_text("", ""));
    assert!(same_text("é", "é"));
    assert!(!same_text("BTC", "BTCX"));
    assert!(!same_text("BTC", "BTX"));
    let list = vec!["BTC".to_string(), "ETH".to_string()];
    assert!(has_text(&list, "ETH"));
    assert!(!has_text(&list, "ET"));
    assert!(!has_text(&Vec::new(), ""));
}

#[test]
fn byte_search() {
    assert_eq!(find_bytes(b"hello", b"l"), Some(2));
    assert_eq!(find_bytes(b"hello", b"lo"), Some(3));
    assert_eq!(find_bytes(b"hello", b"hello"), Some(0));
    assert_eq!(find_bytes(b"hello", b"hellos"), None);
    assert_eq!(find_bytes(b"aaab", b"aab"), Some(1));
    assert_eq!(find_bytes(b"", b"a"), None);
    assert_eq!(find_byte_after(b"a,b,c", 0, b','), Some(1));
    assert_eq!(find_byte_after(b"a,b,c", 2, b','), Some(3));
    assert_eq!(find_byte_after(b"a,b,c", 4, b','), None);
    assert_eq!(find_byte_after(b"a,b,c", 5, b','), None);
}
