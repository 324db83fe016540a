use rbp::codec::{parse_stored_portfolio, render_portfolio};
use rbp::ticker::TickerInfo;

fn ticker(symbol: &str, name: &str, exch_disp: &str, type_disp: &str) -> TickerInfo {
    TickerInfo {
        symbol: symbol.to_string(),
        name: name.to_string(),
        exch_disp: exch_disp.to_string(),
        type_disp: type_disp.to_string(),
    }
}

#[test]
fn renders_the_exact_stored_form() {
    let portfolio = vec![
        ticker("FB", "Facebook, Inc.", "NASDAQ", "Equity"),
        ticker("AAPL", "Apple Inc.", "NASDAQ", "Equity"),
    ];
    let stored = render_portfolio(&portfolio);
    let expected = format!(
        "{}{}",
        "[{\"symbol\":\"FB\",\"name\":\"Facebook, Inc.\",\"exchDisp\":\"NASDAQ\",\"typeDisp\":\"Equity\"},",
        "{\"symbol\":\"AAPL\",\"name\":\"Apple Inc.\",\"exchDisp\":\"NASDAQ\",\"typeDisp\":\"Equity\"}]"
    );
    assert_eq!(stored, expected);
}

#[test]
fn renders_empty_portfolio_as_empty_array() {
    assert_eq!(render_portfolio(&Vec::new()), "[]");
    let parsed = parse_stored_portfolio("[]").unwrap();
    assert!(parsed.is_empty());
}

#[test]
fn parse_inverts_render() {
    let portfolio = vec![
        ticker("FB", "Facebook, Inc.", "NASDAQ", "Equity"),
        ticker("AAPL", "Apple Inc.", "NASDAQ", "Equity"),
    ];
    let stored = render_portfolio(&portfolio);
    let parsed = parse_stored_portfolio(stored.as_str()).unwrap();
    assert!(parsed == portfolio);
}

#[test]
fn escapes_quotes_and_backslashes() {
    let tricky = vec![ticker("X\"Y", "Back\\slash \"quoted\"", "N\\A", "Eq\"")];
    let stored = render_portfolio(&tricky);
    assert!(stored.contains("X\\\"Y"));
    assert!(stored.contains("Back\\\\slash \\\"quoted\\\""));
    let parsed = parse_stored_portfolio(stored.as_str()).unwrap();
    assert!(parsed == tricky);
}

#[test]
fn rendered_form_is_json_for_outside_readers() {
    let portfolio = vec![ticker("AAPL", "Apple \"the fruit\" Inc.", "NAS\\DAQ", "Equity")];
    let stored = render_portfolio(&portfolio);
    let value: serde_json::Value = serde_json::from_str(stored.as_str()).expect("the stored form is valid JSON");
    let items = value.as_array().unwrap();
    assert_eq!(items.len(), 1);
    assert_eq!(items[0].get("symbol").unwrap().as_str().unwrap(), "AAPL");
    assert_eq!(items[0].get("name").unwrap().as_str().unwrap(), "Apple \"the fruit\" Inc.");
    assert_eq!(items[0].get("exchDisp").unwrap().as_str().unwrap(), "NAS\\DAQ");
    assert_eq!(items[0].get("typeDisp").unwrap().as_str().unwrap(), "Equity");
}

#[test]
fn rejects_malformed_stores() {
    for bad in [
        "",
        "[",
        "]",
        "{}",
        "null",
        "[{}]",
        "[{\"symbol\":\"A\"}]",
        "[{\"symbol\":\"A\",\"name\":\"B\",\"exchDisp\":\"C\",\"typeDisp\":\"D\"},]",
        "[{\"symbol\":\"A\",\"name\":\"B\",\"exchDisp\":\"C\",\"typeDisp\":\"D\"}] ",
        " [{\"symbol\":\"A\",\"name\":\"B\",\"exchDisp\":\"C\",\"typeDisp\":\"D\"}]",
        "[{\"symbol\": \"A\",\"name\":\"B\",\"exchDisp\":\"C\",\"typeDisp\":\"D\"}]",
        "[{\"name\":\"B\",\"symbol\":\"A\",\"exchDisp\":\"C\",\"typeDisp\":\"D\"}]",
        "[{\"symbol\":\"A\",\"name\":\"B\",\"exchDisp\":\"C\",\"typeDisp\":\"D\\x\"}]",
        "[{\"symbol\":\"A\",\"name\":\"B\",\"exchDisp\":\"C\",\"typeDisp\":\"D\"}",
    ] {
        assert!(parse_stored_portfolio(bad).is_none(), "must reject: {}", bad);
    }
}

#[test]
fn parses_a_single_record() {
    let stored = "[{\"symbol\":\"GOOG\",\"name\":\"Alphabet Inc.\",\"exchDisp\":\"NASDAQ\",\"typeDisp\":\"Equity\"}]";
    let parsed = parse_stored_portfolio(stored).unwrap();
    assert_eq!(parsed.len(), 1);
    assert_eq!(parsed[0].symbol, "GOOG");
    assert_eq!(parsed[0].name, "Alphabet Inc.");
    assert_eq!(parsed[0].exch_disp, "NASDAQ");
    assert_eq!(parsed[0].type_disp, "Equity");
}

#[test]
fn round_trips_empty_fields() {
    let odd = vec![ticker("", "", "", "")];
    let stored = render_portfolio(&odd);
    assert_eq!(stored, "[{\"symbol\":\"\",\"name\":\"\",\"exchDisp\":\"\",\"typeDisp\":\"\"}]");
    let parsed = parse_stored_portfolio(stored.as_str()).unwrap();
    assert!(parsed == odd);
}
