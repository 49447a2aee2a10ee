use serde_json::Value;
use sikapa_execution::binary64::Binary64;
use sikapa_execution::bracket::{BracketRun, BracketStep};
use sikapa_execution::error::ExecError;
use sikapa_execution::replies::{
    avg_px_texts, avg_px_texts_in, bracket_accepted, excerpt_is_defined, fill_price_in,
    open_symbols, open_symbols_in, parse_hl_fill_price, raw_excerpt, size_texts, FillError,
};

fn num(x: f64) -> Binary64 {
    Binary64::from_bits(x.to_bits())
}

fn numbers(texts: &Vec<Option<String>>) -> Vec<Option<Binary64>> {
    texts
        .iter()
        .map(|t| t.as_ref().and_then(|s| s.parse::<f64>().ok()).map(num))
        .collect()
}

fn fill(reply: &str) -> Result<Binary64, FillError> {
    let prices = numbers(&avg_px_texts(reply.as_bytes()));
    parse_hl_fill_price(reply.as_bytes(), &prices)
}

fn statuses(list: &str) -> String {
    format!(
        "{{\"status\":\"ok\",\"response\":{{\"type\":\"order\",\"data\":{{\"statuses\":[{}]}}}}}}",
        list
    )
}

#[test]
fn fill_at_the_average_price() {
    let reply = statuses("{\"filled\":{\"totalSz\":\"0.21\",\"avgPx\":\"2367.0\",\"oid\":77}}");
    assert_eq!(fill(&reply).unwrap(), num(2367.0));
    assert_eq!(avg_px_texts(reply.as_bytes()), vec![Some("2367.0".to_string())]);
}

#[test]
fn rejection_carries_the_message() {
    let reply = statuses("{\"error\":\"Order has invalid size.\"}");
    match fill(&reply) {
        Err(FillError::Rejected(m)) => assert_eq!(m, "Order has invalid size."),
        other => panic!("{:?}", other),
    }
    assert_eq!(
        fill(&reply).unwrap_err().message(""),
        "HL rejected: Order has invalid size."
    );
}

#[test]
fn resting_is_no_fill() {
    let reply = statuses("{\"resting\":{\"oid\":1}}");
    let e = fill(&reply).unwrap_err();
    assert!(matches!(e, FillError::Resting));
    assert_eq!(e.message("raw"), "HL order resting (not an IOC fill)");
    assert!(!e.quotes_reply());
    assert!(matches!(fill(&statuses("{\"resting\":1}")), Err(FillError::NotFilled)));
}

#[test]
fn first_status_that_settles_decides() {
    let reply = statuses(
        "{\"filled\":{\"avgPx\":\"0.0\"}},{\"filled\":{\"avgPx\":\"abc\"}},{},{\"filled\":{\"avgPx\":\"12.5\"}},{\"error\":\"late\"}",
    );
    assert_eq!(fill(&reply).unwrap(), num(12.5));
    let reply = statuses("{\"error\":\"early\",\"filled\":{\"avgPx\":\"1\"}}");
    assert!(matches!(fill(&reply), Err(FillError::Rejected(_))));
    let reply = statuses("{\"filled\":{\"avgPx\":\"-1\"},\"resting\":{}}");
    assert!(matches!(fill(&reply), Err(FillError::Resting)));
    let reply = statuses("{\"filled\":{\"avgPx\":3.5}}");
    assert!(matches!(fill(&reply), Err(FillError::NotFilled)));
}

#[test]
fn exchange_errors() {
    let reply = "{\"status\":\"err\",\"response\":\"bad\"}";
    let e = fill(reply).unwrap_err();
    assert!(matches!(e, FillError::Exchange));
    assert_eq!(e.message(raw_excerpt(reply.as_bytes())), format!("HL error: {}", reply));
}

#[test]
fn replies_without_a_fill() {
    for reply in ["{}", "[]", "7", "{\"response\":{\"data\":{}}}"] {
        let e = fill(reply).unwrap_err();
        assert!(matches!(e, FillError::NotFilled));
        assert!(e.quotes_reply());
        assert_eq!(e.message(reply), format!("HL IOC not filled — raw: {}", reply));
    }
}

#[test]
fn replies_that_are_not_json() {
    let e = fill("nonsense").unwrap_err();
    assert!(avg_px_texts(b"nonsense").is_empty());
    let cause = serde_json::from_slice::<Value>(b"nonsense").unwrap_err().to_string();
    assert_eq!(
        e.message("nonsense"),
        format!("HL JSON parse error: {} — raw: nonsense", cause)
    );
}

#[test]
fn parsed_replies() {
    let reply: Value = serde_json::from_str(&statuses("{\"filled\":{\"avgPx\":\"5\"}},{}")).unwrap();
    assert_eq!(avg_px_texts_in(&reply), vec![Some("5".to_string()), None]);
    assert_eq!(fill_price_in(&reply, &vec![Some(num(5.0)), None]).unwrap(), num(5.0));
    assert!(matches!(fill_price_in(&reply, &vec![None]), Err(FillError::NotFilled)));
    assert!(matches!(fill_price_in(&reply, &Vec::new()), Err(FillError::NotFilled)));
}

#[test]
fn excerpts() {
    assert_eq!(raw_excerpt(b"short"), "short");
    let long = "x".repeat(300);
    assert!(excerpt_is_defined(long.as_bytes()));
    assert_eq!(raw_excerpt(long.as_bytes()), "x".repeat(200));
    assert_eq!(raw_excerpt(&[0xff, 0xfe]), "");
    assert!(excerpt_is_defined(&[0xffu8; 300]));
    let cut = format!("{}é{}", "x".repeat(199), "y".repeat(50));
    assert!(!excerpt_is_defined(cut.as_bytes()));
    let fits = format!("{}é{}", "x".repeat(198), "y".repeat(50));
    assert!(excerpt_is_defined(fits.as_bytes()));
    assert_eq!(raw_excerpt(fits.as_bytes()), format!("{}é", "x".repeat(198)));
}

#[test]
fn bracket_replies() {
    assert!(bracket_accepted(b"{\"status\":\"ok\"}"));
    assert!(bracket_accepted(b""));
    assert!(!bracket_accepted(b"{\"status\":\"err\"}"));
    assert!(!bracket_accepted(b"{\"error\":\"no position\"}"));
    assert!(bracket_accepted(b"{\"errors\":1}"));
    assert!(bracket_accepted(&[b'"', b'e', b'r', b'r', b'"', 0xff]));
}

fn ok() -> Option<Vec<u8>> {
    Some(b"{\"status\":\"ok\"}".to_vec())
}

fn bad() -> Option<Vec<u8>> {
    Some(b"{\"status\":\"err\"}".to_vec())
}

#[test]
fn bracket_placed_at_once() {
    let mut run = BracketRun::new();
    assert_eq!(run.next(), BracketStep::Send { wait_ms: 80, tp: true, sl: true });
    run.record(&ok(), &ok());
    assert_eq!(run.next(), BracketStep::Done { tp_failed: false, sl_failed: false });
}

#[test]
fn bracket_retries_what_is_missing() {
    let mut run = BracketRun::new();
    run.record(&ok(), &bad());
    assert_eq!(run.next(), BracketStep::Send { wait_ms: 100, tp: false, sl: true });
    run.record(&None, &None);
    assert_eq!(run.next(), BracketStep::Send { wait_ms: 100, tp: false, sl: true });
    run.record(&None, &ok());
    assert_eq!(run.next(), BracketStep::Done { tp_failed: false, sl_failed: false });
}

#[test]
fn bracket_gives_up_after_three_attempts() {
    let mut run = BracketRun::new();
    run.record(&bad(), &None);
    run.record(&bad(), &ok());
    assert_eq!(run.next(), BracketStep::Send { wait_ms: 100, tp: true, sl: false });
    run.record(&None, &None);
    assert_eq!(run.next(), BracketStep::Done { tp_failed: true, sl_failed: false });
}

fn positions(list: &str) -> String {
    format!("{{\"assetPositions\":[{}]}}", list)
}

#[test]
fn open_positions_are_named() {
    let reply = positions(
        "{\"position\":{\"coin\":\"BTC\",\"szi\":\"0.01\"}},{\"position\":{\"coin\":\"ETH\",\"szi\":\"-2\"}},{\"position\":{\"coin\":\"SOL\",\"szi\":\"0.0001\"}},{\"position\":{\"coin\":\"ARB\",\"szi\":\"x\"}},{\"position\":{\"coin\":\"AVAX\",\"szi\":5}},{\"position\":{\"szi\":\"1\"}},{\"position\":{\"coin\":\"OP\"}}",
    );
    let texts = size_texts(reply.as_bytes()).unwrap();
    assert_eq!(texts.len(), 7);
    assert_eq!(texts[1], Some("-2".to_string()));
    assert_eq!(texts[4], None);
    let open = open_symbols(reply.as_bytes(), &numbers(&texts)).unwrap();
    assert_eq!(open, vec!["BTC".to_string(), "ETH".to_string(), "SOL".to_string()]);
}

#[test]
fn zero_size_is_closed() {
    let reply: Value =
        serde_json::from_str(&positions("{\"position\":{\"coin\":\"BTC\",\"szi\":\"?\"}}")).unwrap();
    assert!(open_symbols_in(&reply, &vec![Some(num(0.0))]).is_empty());
    assert!(open_symbols_in(&reply, &vec![Some(num(-0.0))]).is_empty());
    assert_eq!(open_symbols_in(&reply, &vec![Some(num(0.0001))]).len(), 1);
    assert_eq!(open_symbols_in(&reply, &vec![Some(num(-0.0001))]).len(), 1);
    assert_eq!(open_symbols_in(&reply, &vec![Some(num(1e-300))]).len(), 1);
    assert!(open_symbols_in(&reply, &vec![Some(num(f64::NAN))]).is_empty());
    assert!(open_symbols_in(&reply, &vec![None]).is_empty());
    assert!(open_symbols_in(&reply, &Vec::new()).is_empty());
}

#[test]
fn messages_quote_the_reply() {
    let reply = "{\"status\":\"err\",\"response\":\"bad\"}";
    let e = fill(reply).unwrap_err();
    assert_eq!(e.describe(reply.as_bytes()), format!("HL error: {}", reply));
    let e = ExecError::Fill(e);
    assert!(e.quotes_reply());
    assert_eq!(e.describe(reply.as_bytes()), format!("HL error: {}", reply));
    let long = format!("{{\"pad\":\"{}\"}}", "x".repeat(300));
    let e = fill(&long).unwrap_err();
    assert_eq!(
        e.describe(long.as_bytes()),
        format!("HL IOC not filled — raw: {}", &long[..200])
    );
    assert_eq!(FillError::Resting.describe(&[0xff]), "HL order resting (not an IOC fill)");
    assert!(!ExecError::Throttled.quotes_reply());
    assert_eq!(ExecError::Throttled.describe(b"reply"), "THROTTLE");
}

#[test]
fn position_replies_without_a_list() {
    assert!(open_symbols(b"{}", &Vec::new()).unwrap().is_empty());
    let cause = serde_json::from_slice::<Value>(b"{").unwrap_err().to_string();
    assert_eq!(size_texts(b"{").unwrap_err(), cause);
    assert_eq!(open_symbols(b"{", &Vec::new()).unwrap_err(), cause);
}
