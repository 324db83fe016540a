use rbp::ticker::{RbpService, SearchParams, TickerInfo};

#[test]
fn prepend_base_joins_with_a_slash() {
    let service = RbpService { base: "https://rbp.example.com/service/v1".to_string() };
    assert_eq!(service.prepend_base("weights"), "https://rbp.example.com/service/v1/weights");
    assert_eq!(service.prepend_base("search"), "https://rbp.example.com/service/v1/search");
}

#[test]
fn search_params_fix_the_language() {
    let params = SearchParams::from("AAPL");
    assert_eq!(params.query, "AAPL");
    assert_eq!(params.lang, "en-US");
}

#[test]
fn ticker_equality_compares_all_fields() {
    let a = TickerInfo {
        symbol: "AAPL".to_string(),
        name: "Apple Inc.".to_string(),
        exch_disp: "NASDAQ".to_string(),
        type_disp: "Equity".to_string(),
    };
    let b = TickerInfo { name: "Apple Incorporated".to_string(), ..a.clone() };
    assert!(a == a.clone());
    assert!(!(a == b));
}
