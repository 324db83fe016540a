use rbp::autocomplete::{AutocompleteInput, SearchFetchError, DEFAULT_DEFER_MS, KEY_DOWN, KEY_ENTER, KEY_UP};
use rbp::ticker::TickerInfo;

fn ticker(symbol: &str, name: &str) -> TickerInfo {
    TickerInfo {
        symbol: symbol.to_string(),
        name: name.to_string(),
        exch_disp: "NASDAQ".to_string(),
        type_disp: "Equity".to_string(),
    }
}

fn three_options() -> AutocompleteInput {
    let mut input = AutocompleteInput::new();
    let request = input.on_query_change("A".to_string()).unwrap();
    input.on_autocomplete_result(
        request.generation,
        Ok(vec![ticker("AAPL", "Apple Inc."), ticker("AMZN", "Amazon.com, Inc."), ticker("A", "Agilent")]),
    );
    input
}

#[test]
fn down_wraps_around_three_options() {
    let mut input = three_options();
    assert_eq!(input.selected_option, -1);
    let cycle = [0, 1, 2, 0];
    for expected in cycle {
        let outcome = input.on_key_down(KEY_DOWN);
        assert!(outcome.prevent_default);
        assert!(outcome.selected.is_none());
        assert_eq!(input.selected_option, expected);
    }
}

#[test]
fn up_from_neutral_lands_on_last() {
    let mut input = three_options();
    assert_eq!(input.selected_option, -1);
    let outcome = input.on_key_down(KEY_UP);
    assert!(outcome.prevent_default);
    assert_eq!(input.selected_option, 2);
}

#[test]
fn up_wraps_from_first_to_last() {
    let mut input = three_options();
    input.on_key_down(KEY_DOWN);
    assert_eq!(input.selected_option, 0);
    input.on_key_down(KEY_UP);
    assert_eq!(input.selected_option, 2);
}

#[test]
fn navigation_echoes_symbol_into_query() {
    let mut input = three_options();
    input.on_key_down(KEY_DOWN);
    assert_eq!(input.query, "AAPL");
    input.on_key_down(KEY_DOWN);
    assert_eq!(input.query, "AMZN");
}

#[test]
fn keys_on_empty_options_keep_neutral_selection() {
    let mut input = AutocompleteInput::new();
    input.on_key_down(KEY_DOWN);
    assert_eq!(input.selected_option, -1);
    input.on_key_down(KEY_UP);
    assert_eq!(input.selected_option, -1);
}

#[test]
fn selection_commit_scenario() {
    let mut input = AutocompleteInput::new();
    let request = input.on_query_change("AA".to_string()).unwrap();
    assert_eq!(request.query.term, "AA");
    input.on_autocomplete_result(
        request.generation,
        Ok(vec![ticker("AAPL", "Apple Inc."), ticker("AA", "Alcoa Corporation")]),
    );
    let outcome = input.on_key_down(KEY_DOWN);
    assert!(outcome.selected.is_none());
    assert_eq!(input.selected_option, 0);
    let outcome = input.on_key_down(KEY_ENTER);
    assert!(outcome.prevent_default);
    let committed = outcome.selected.expect("Enter on a highlighted row commits it");
    assert!(committed == ticker("AAPL", "Apple Inc."));
    assert_eq!(input.query, "");
    assert!(input.options.is_empty());
    assert_eq!(input.selected_option, -1);
}

#[test]
fn enter_without_highlight_is_a_no_op() {
    let mut input = three_options();
    let options_before = input.options.len();
    let outcome = input.on_key_down(KEY_ENTER);
    assert!(outcome.prevent_default);
    assert!(outcome.selected.is_none());
    assert_eq!(input.options.len(), options_before);
}

#[test]
fn other_keys_pass_through() {
    let mut input = three_options();
    let outcome = input.on_key_down(65);
    assert!(!outcome.prevent_default);
    assert!(outcome.selected.is_none());
    assert_eq!(input.selected_option, -1);
    assert_eq!(input.options.len(), 3);
}

#[test]
fn stale_autocomplete_result_is_discarded() {
    let mut input = AutocompleteInput::new();
    let first = input.on_query_change("A".to_string()).unwrap();
    let second = input.on_query_change("AB".to_string()).unwrap();
    assert!(first.generation != second.generation);
    // The superseded response arrives late: it must leave no trace.
    input.on_autocomplete_result(first.generation, Ok(vec![ticker("A", "Agilent")]));
    assert!(input.options.is_empty());
    assert_eq!(input.pending_fetch, Some(second.generation));
    // The current response lands.
    input.on_autocomplete_result(second.generation, Ok(vec![ticker("ABBV", "AbbVie")]));
    assert_eq!(input.options.len(), 1);
    assert_eq!(input.pending_fetch, None);
}

#[test]
fn failed_fetch_keeps_prior_options() {
    let mut input = three_options();
    let request = input.on_focus().unwrap();
    input.on_autocomplete_result(request.generation, Err(SearchFetchError {}));
    assert_eq!(input.options.len(), 3);
    assert_eq!(input.pending_fetch, None);
}

#[test]
fn empty_query_clears_options_and_pending_fetch() {
    let mut input = three_options();
    input.on_query_change("A".to_string());
    assert!(input.pending_fetch.is_some());
    let request = input.on_query_change(String::new());
    assert!(request.is_none());
    assert!(input.options.is_empty());
    assert!(input.pending_fetch.is_none());
    assert_eq!(input.selected_option, -1);
}

#[test]
fn focus_reissues_fetch_only_with_text() {
    let mut input = AutocompleteInput::new();
    assert!(input.on_focus().is_none());
    input.on_query_change("NF".to_string());
    let request = input.on_focus().expect("focus with text re-issues the fetch");
    assert_eq!(request.query.term, "NF");
}

#[test]
fn blur_arms_deferred_hide_and_timer_fires() {
    let mut input = three_options();
    let timer = input.on_blur();
    assert_eq!(timer.delay_ms, DEFAULT_DEFER_MS);
    assert_eq!(input.hide_timer, Some(timer.token));
    input.on_hide_timer(timer.token);
    assert!(input.options.is_empty());
    assert_eq!(input.selected_option, -1);
    assert!(input.hide_timer.is_none());
}

#[test]
fn superseded_hide_timer_is_ignored() {
    let mut input = three_options();
    let first = input.on_blur();
    let second = input.on_blur();
    input.on_hide_timer(first.token);
    assert_eq!(input.options.len(), 3, "a superseded timer must not hide the list");
    input.on_hide_timer(second.token);
    assert!(input.options.is_empty());
}

#[test]
fn pointer_select_cancels_hide_and_commits() {
    let mut input = three_options();
    input.on_blur();
    let picked = input.on_select_via_pointer(1);
    assert!(picked == ticker("AMZN", "Amazon.com, Inc."));
    assert!(input.hide_timer.is_none());
    assert!(input.options.is_empty());
    assert_eq!(input.query, "");
}
