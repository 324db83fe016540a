use rbp::portfolio::{default_tickers, load, DisplayState, LoadError, PortfolioOrchestrator, WeightFetchError};
use rbp::ticker::TickerInfo;

fn ticker(symbol: &str, name: &str) -> TickerInfo {
    TickerInfo {
        symbol: symbol.to_string(),
        name: name.to_string(),
        exch_disp: "NASDAQ".to_string(),
        type_disp: "Equity".to_string(),
    }
}

fn symbols(list: &[TickerInfo]) -> Vec<String> {
    list.iter().map(|t| t.symbol.clone()).collect()
}

#[test]
fn add_ticker_twice_keeps_one_entry() {
    let (mut orch, _) = PortfolioOrchestrator::create(None, Vec::new());
    let first = orch.add_ticker(ticker("AAPL", "Apple Inc."));
    assert!(first.is_some(), "a new symbol triggers a weight fetch");
    let second = orch.add_ticker(ticker("AAPL", "Apple Inc."));
    assert!(second.is_none(), "a duplicate symbol is a no-op");
    let count = orch.picked_tickers.iter().filter(|t| t.symbol == "AAPL").count();
    assert_eq!(count, 1);
}

#[test]
fn add_dedup_goes_by_symbol_alone() {
    let (mut orch, _) = PortfolioOrchestrator::create(None, Vec::new());
    orch.add_ticker(ticker("AAPL", "Apple Inc."));
    let again = orch.add_ticker(ticker("AAPL", "Apple Incorporated"));
    assert!(again.is_none(), "membership for adding is decided by the symbol");
    assert_eq!(orch.picked_tickers.len(), 1);
    assert_eq!(orch.picked_tickers[0].name, "Apple Inc.");
}

#[test]
fn stale_weights_resolving_old_then_new() {
    let (mut orch, first) = PortfolioOrchestrator::create(None, vec![ticker("AAPL", "Apple Inc.")]);
    let request_a = first.expect("a non-empty portfolio triggers the first fetch");
    assert_eq!(request_a.query.tickers, vec!["AAPL".to_string()]);
    let request_b = orch
        .add_ticker(ticker("MSFT", "Microsoft Corporation"))
        .expect("a grown portfolio triggers a fetch");
    assert_eq!(request_b.query.tickers, vec!["AAPL".to_string(), "MSFT".to_string()]);

    let persisted_a = orch.on_weights_result(request_a.generation, Ok(vec![700]));
    assert!(persisted_a.is_none(), "a superseded completion must not persist");
    assert!(orch.snapshot_tickers.is_empty(), "a superseded completion must not install weights");

    let persisted_b = orch.on_weights_result(request_b.generation, Ok(vec![300, 700]));
    assert!(persisted_b.is_some());
    assert_eq!(symbols(&orch.snapshot_tickers), vec!["AAPL".to_string(), "MSFT".to_string()]);
    assert_eq!(orch.fetched_weights, vec![300, 700]);
}

#[test]
fn stale_weights_resolving_new_then_old() {
    let (mut orch, first) = PortfolioOrchestrator::create(None, vec![ticker("AAPL", "Apple Inc.")]);
    let request_a = first.unwrap();
    let request_b = orch.add_ticker(ticker("MSFT", "Microsoft Corporation")).unwrap();

    let persisted_b = orch.on_weights_result(request_b.generation, Ok(vec![300, 700]));
    assert!(persisted_b.is_some());

    let persisted_a = orch.on_weights_result(request_a.generation, Ok(vec![700]));
    assert!(persisted_a.is_none(), "the old completion arrives last and is still discarded");
    assert_eq!(symbols(&orch.snapshot_tickers), vec!["AAPL".to_string(), "MSFT".to_string()]);
    assert_eq!(orch.fetched_weights, vec![300, 700]);
}

#[test]
fn clear_resets_without_fetch() {
    let (mut orch, first) = PortfolioOrchestrator::create(None, vec![ticker("AAPL", "Apple Inc.")]);
    let request = first.unwrap();
    orch.on_weights_result(request.generation, Ok(vec![1000]));
    assert!(!orch.picked_tickers.is_empty());
    assert!(!orch.snapshot_tickers.is_empty());

    let persisted = orch.clear_portfolio();
    assert_eq!(persisted, "[]");
    assert!(orch.picked_tickers.is_empty());
    assert!(orch.snapshot_tickers.is_empty());
    assert!(orch.fetched_weights.is_empty());
    assert!(orch.weight_snapshot().is_empty());
    assert!(orch.pending_fetch.is_none(), "clearing issues no fetch and abandons any in flight");
    assert!(matches!(orch.display_state(), DisplayState::EmptyPrompt));
}

#[test]
fn persistence_round_trip() {
    let portfolio = vec![ticker("FB", "Facebook, Inc."), ticker("AAPL", "Apple Inc.")];
    let (mut writer, first) = PortfolioOrchestrator::create(None, portfolio);
    let request = first.unwrap();
    let stored = writer
        .on_weights_result(request.generation, Ok(vec![520, 480]))
        .expect("a successful fetch persists the portfolio");

    let (restored, fetch) = PortfolioOrchestrator::create(Some(stored.as_str()), default_tickers());
    assert!(restored.picked_tickers == vec![ticker("FB", "Facebook, Inc."), ticker("AAPL", "Apple Inc.")]);
    let fetch = fetch.expect("a restored non-empty portfolio fetches weights at once");
    assert_eq!(fetch.query.tickers, vec!["FB".to_string(), "AAPL".to_string()]);
}

#[test]
fn create_falls_back_to_defaults() {
    let (orch, fetch) = PortfolioOrchestrator::create(None, default_tickers());
    assert_eq!(
        symbols(&orch.picked_tickers),
        vec!["FB".to_string(), "AAPL".to_string(), "AMZN".to_string(), "NFLX".to_string(), "GOOG".to_string()]
    );
    assert_eq!(fetch.unwrap().query.tickers.len(), 5);

    let (orch, fetch) = PortfolioOrchestrator::create(Some("not json"), default_tickers());
    assert_eq!(orch.picked_tickers.len(), 5, "an unparsable store falls back to the default");
    assert!(fetch.is_some());

    let (orch, fetch) = PortfolioOrchestrator::create(Some("[]"), default_tickers());
    assert!(orch.picked_tickers.is_empty(), "an empty stored portfolio is a portfolio");
    assert!(fetch.is_none(), "an empty portfolio needs no weights");
}

#[test]
fn create_rejects_stored_duplicate_symbols() {
    // The codec encodes any list, so a store with two entries for one
    // symbol can be written down; mounting from it must not accept it.
    let portfolio = vec![ticker("AAPL", "Apple Inc."), ticker("AAPL", "Apple Again")];
    let stored = rbp::codec::render_portfolio(&portfolio);
    let (orch, _) = PortfolioOrchestrator::create(Some(stored.as_str()), default_tickers());
    assert_eq!(orch.picked_tickers.len(), 5, "duplicate symbols in the store fall back to the default");
}

#[test]
fn load_distinguishes_missing_and_malformed() {
    assert!(matches!(load(None), Err(LoadError::Missing)));
    assert!(matches!(load(Some("{")), Err(LoadError::Malformed)));
    let loaded = load(Some("[]")).unwrap();
    assert!(loaded.is_empty());
}

#[test]
fn failed_fetch_keeps_last_snapshot_and_flags_error() {
    let (mut orch, first) = PortfolioOrchestrator::create(None, vec![ticker("AAPL", "Apple Inc.")]);
    let request = first.unwrap();
    orch.on_weights_result(request.generation, Ok(vec![1000]));
    assert!(matches!(orch.display_state(), DisplayState::Weights));

    let request = orch.add_ticker(ticker("MSFT", "Microsoft Corporation")).unwrap();
    let persisted = orch.on_weights_result(request.generation, Err(WeightFetchError {}));
    assert!(persisted.is_none(), "a failed fetch persists nothing");
    assert!(orch.fetching_error);
    assert!(matches!(orch.display_state(), DisplayState::FetchError));
    assert_eq!(symbols(&orch.snapshot_tickers), vec!["AAPL".to_string()]);
    assert_eq!(orch.fetched_weights, vec![1000]);

    let request = orch.recompute_weights();
    assert!(matches!(orch.display_state(), DisplayState::Calculating));
    orch.on_weights_result(request.generation, Ok(vec![600, 400]));
    assert!(!orch.fetching_error);
    assert!(matches!(orch.display_state(), DisplayState::Weights));
}

#[test]
fn weight_snapshot_pairs_tickers_with_weights() {
    let (mut orch, first) = PortfolioOrchestrator::create(None, vec![ticker("FB", "Facebook, Inc.")]);
    let request = first.unwrap();
    orch.on_weights_result(request.generation, Ok(vec![1000]));
    let snapshot = orch.weight_snapshot();
    assert_eq!(snapshot.len(), 1);
    assert_eq!(snapshot[0].0.symbol, "FB");
    assert_eq!(snapshot[0].1, 1000);
}

#[test]
fn weight_snapshot_pairs_only_up_to_the_shorter_side() {
    let (mut orch, first) = PortfolioOrchestrator::create(None, vec![ticker("FB", "Facebook, Inc.")]);
    let request = first.unwrap();
    // A miscounted response still lands; the snapshot pairs positionally
    // and stops at the shorter side.
    orch.on_weights_result(request.generation, Ok(vec![600, 400]));
    let snapshot = orch.weight_snapshot();
    assert_eq!(snapshot.len(), 1);
    assert_eq!(snapshot[0].0.symbol, "FB");
    assert_eq!(snapshot[0].1, 600);
}

#[test]
fn remove_ticker_drops_matching_records_and_refetches() {
    let (mut orch, _) = PortfolioOrchestrator::create(None, Vec::new());
    orch.add_ticker(ticker("AAPL", "Apple Inc."));
    orch.add_ticker(ticker("MSFT", "Microsoft Corporation"));
    let request = orch.remove_ticker(&ticker("AAPL", "Apple Inc."));
    assert_eq!(symbols(&orch.picked_tickers), vec!["MSFT".to_string()]);
    assert_eq!(request.query.tickers, vec!["MSFT".to_string()]);
}

#[test]
fn remove_ticker_matches_the_whole_record() {
    let (mut orch, _) = PortfolioOrchestrator::create(None, Vec::new());
    orch.add_ticker(ticker("AAPL", "Apple Inc."));
    orch.remove_ticker(&ticker("AAPL", "Apple Incorporated"));
    assert_eq!(orch.picked_tickers.len(), 1, "removal compares the whole record, not the symbol");
}

#[test]
fn delete_selected_ticker_removes_and_clears_selection() {
    let (mut orch, _) = PortfolioOrchestrator::create(None, Vec::new());
    orch.add_ticker(ticker("AAPL", "Apple Inc."));
    orch.add_ticker(ticker("NFLX", "Netflix, Inc."));
    orch.select_ticker(Some(ticker("NFLX", "Netflix, Inc.")));
    let request = orch.delete_selected_ticker();
    assert!(orch.selected_ticker.is_none());
    assert_eq!(symbols(&orch.picked_tickers), vec!["AAPL".to_string()]);
    assert_eq!(request.query.tickers, vec!["AAPL".to_string()]);

    let request = orch.delete_selected_ticker();
    assert_eq!(orch.picked_tickers.len(), 1, "deleting with nothing selected removes nothing");
    assert_eq!(request.query.tickers, vec!["AAPL".to_string()]);
}

#[test]
fn display_state_starts_empty_then_calculates() {
    let (orch, _) = PortfolioOrchestrator::create(None, Vec::new());
    assert!(matches!(orch.display_state(), DisplayState::EmptyPrompt));
    let (orch, _) = PortfolioOrchestrator::create(None, default_tickers());
    assert!(matches!(orch.display_state(), DisplayState::Calculating));
}
