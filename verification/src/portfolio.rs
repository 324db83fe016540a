//! The portfolio orchestrator: the chosen tickers, the weight fetches they
//! trigger, the generation discipline that discards superseded completions,
//! and loading/persisting the portfolio.
//!
//! The orchestrator performs no effect itself: mutators return the weight
//! fetch the host must issue or the string it must persist, and the host
//! feeds fetch completions back through `on_weights_result`.

use vstd::prelude::*;
use crate::codec;
use crate::ticker::{GetWeightsQuery, TickerInfo, TickerModel};

verus! {

/// A failed weight fetch. It carries nothing: the failure is surfaced as a
/// single error flag while the last good snapshot stays visible.
pub struct WeightFetchError {}

/// Why a stored portfolio could not be loaded.
#[derive(Debug)]
pub enum LoadError {
    /// Nothing is stored under the portfolio key.
    Missing,
    /// The stored text is not the stored form of any portfolio; the caller
    /// falls back to the default portfolio.
    Malformed,
}

/// A weight fetch the host must issue for `query.tickers`. The completion
/// is handed back together with `generation` so that superseded responses
/// can be recognised.
pub struct WeightsRequest {
    pub generation: u64,
    pub query: GetWeightsQuery,
}

/// Some entry of `p` carries this symbol.
pub open spec fn has_symbol(p: Seq<TickerModel>, symbol: Seq<char>) -> bool {
    exists|i: int| 0 <= i < p.len() && p[i].symbol == symbol
}

/// No two entries of `p` share a symbol.
pub open spec fn unique_symbols(p: Seq<TickerModel>) -> bool {
    forall|i: int, j: int| 0 <= i < j < p.len() ==> p[i].symbol != p[j].symbol
}

/// How many entries of `p` carry this symbol.
pub open spec fn count_symbol(p: Seq<TickerModel>, symbol: Seq<char>) -> nat
    decreases p.len(),
{
    if p.len() == 0 {
        0
    } else {
        (if p.last().symbol == symbol {
            1nat
        } else {
            0nat
        }) + count_symbol(p.drop_last(), symbol)
    }
}

/// The symbols of `p`, in order.
pub open spec fn symbol_seq(p: Seq<TickerModel>) -> Seq<Seq<char>> {
    Seq::new(p.len(), |i: int| p[i].symbol)
}

/// What adding a ticker does to the portfolio: nothing if its symbol is
/// already present, otherwise an append.
pub open spec fn spec_add(p: Seq<TickerModel>, t: TickerModel) -> Seq<TickerModel> {
    if has_symbol(p, t.symbol) {
        p
    } else {
        p.push(t)
    }
}

/// What removing a ticker does to the portfolio: every entry equal to the
/// whole record goes, order is kept.
pub open spec fn spec_remove(p: Seq<TickerModel>, t: TickerModel) -> Seq<TickerModel>
    decreases p.len(),
{
    if p.len() == 0 {
        Seq::<TickerModel>::empty()
    } else {
        spec_remove(p.drop_last(), t) + (if p.last() == t {
            Seq::<TickerModel>::empty()
        } else {
            seq![p.last()]
        })
    }
}

/// The displayed weight snapshot: tickers of the last applied fetch paired
/// positionally with its weights.
pub open spec fn spec_zip_weights(ts: Seq<TickerModel>, ws: Seq<u64>) -> Seq<(TickerModel, u64)> {
    let n = if ts.len() <= ws.len() {
        ts.len()
    } else {
        ws.len()
    };
    Seq::new(n, |i: int| (ts[i], ws[i]))
}

/// The mathematical value of the orchestrator.
#[verifier::ext_equal]
pub ghost struct OrchModel {
    /// The portfolio: chosen tickers, insertion order, unique symbols.
    pub picked: Seq<TickerModel>,
    /// The tickers of the last applied (successful) weight fetch.
    pub snapshot_tickers: Seq<TickerModel>,
    /// The weights of that fetch, positionally aligned with its tickers.
    pub weights: Seq<u64>,
    /// Whether the latest resolved weight fetch failed.
    pub error: bool,
    /// The ticker whose details the user is inspecting, if any.
    pub selected: Option<TickerModel>,
    /// Generation of the one weight fetch whose result is still awaited.
    pub pending: Option<int>,
    /// The portfolio as it stood when that fetch was issued.
    pub pending_tickers: Seq<TickerModel>,
    /// Next unused generation; every mint increments it.
    pub next_generation: int,
}

/// What issuing a weight fetch does to the model: the current portfolio is
/// snapshotted as the request's tickers under a fresh generation.
pub open spec fn spec_recompute(m: OrchModel) -> OrchModel {
    OrchModel {
        pending: Some(m.next_generation),
        pending_tickers: m.picked,
        next_generation: m.next_generation + 1,
        ..m
    }
}

/// What a weight-fetch completion does to the model. A completion whose
/// generation is not the outstanding one changes nothing. The outstanding
/// success installs its snapshot and clears the error; the outstanding
/// failure only raises the error flag, keeping the last good snapshot.
pub open spec fn spec_apply_weights(m: OrchModel, generation: int, weights: Option<Seq<u64>>) -> OrchModel {
    if m.pending != Some(generation) {
        m
    } else {
        match weights {
            Some(ws) => OrchModel {
                pending: None,
                error: false,
                snapshot_tickers: m.pending_tickers,
                weights: ws,
                ..m
            },
            None => OrchModel { pending: None, error: true, ..m },
        }
    }
}

/// A fresh orchestrator around a given portfolio, before any fetch.
pub open spec fn spec_initial_model(portfolio: Seq<TickerModel>) -> OrchModel {
    OrchModel {
        picked: portfolio,
        snapshot_tickers: Seq::<TickerModel>::empty(),
        weights: Seq::<u64>::empty(),
        error: false,
        selected: None,
        pending: None,
        pending_tickers: Seq::<TickerModel>::empty(),
        next_generation: 0,
    }
}

/// What the widget starts from: the stored portfolio if it decodes to a
/// well-formed one, otherwise the given default.
pub open spec fn spec_initial_portfolio(
    stored: Option<Seq<char>>,
    defaults: Seq<TickerModel>,
) -> Seq<TickerModel> {
    match stored {
        Some(s) => match codec::spec_parse_portfolio(s) {
            Some(p) => if unique_symbols(p) {
                p
            } else {
                defaults
            },
            None => defaults,
        },
        None => defaults,
    }
}

/// What the consumer shows: exactly one of the empty-portfolio prompt, the
/// in-flight notice, the error notice, or the weight list.
pub enum DisplayState {
    EmptyPrompt,
    Calculating,
    FetchError,
    Weights,
}

/// Which of the four the model calls for.
pub open spec fn spec_display(m: OrchModel) -> DisplayState {
    if m.picked.len() == 0 {
        DisplayState::EmptyPrompt
    } else if m.pending is Some {
        DisplayState::Calculating
    } else if m.error {
        DisplayState::FetchError
    } else {
        DisplayState::Weights
    }
}

/// An exact copy of a ticker list.
fn clone_tickers(list: &Vec<TickerInfo>) -> (r: Vec<TickerInfo>)
    ensures
        r@ == list@,
{
    let mut r: Vec<TickerInfo> = Vec::new();
    let mut i: usize = 0;
    while i < list.len()
        invariant
            i <= list.len(),
            r@ == list@.take(i as int),
        decreases list.len() - i,
    {
        r.push(list[i].clone());
        proof {
            assert(list@.take(i + 1 as int) =~= list@.take(i as int).push(list@[i as int]));
        }
        i += 1;
    }
    proof {
        assert(list@.take(list@.len() as int) =~= list@);
    }
    r
}

/// Whether some entry carries this symbol.
fn contains_symbol(list: &Vec<TickerInfo>, symbol: &String) -> (r: bool)
    ensures
        r == has_symbol(list.deep_view(), symbol@),
{
    let ghost deep = list.deep_view();
    let mut i: usize = 0;
    while i < list.len()
        invariant
            i <= list.len(),
            deep == list.deep_view(),
            forall|k: int| 0 <= k < i ==> deep[k].symbol != symbol@,
        decreases list.len() - i,
    {
        if list[i].symbol == *symbol {
            proof {
                assert(deep[i as int].symbol == symbol@);
            }
            return true;
        }
        i += 1;
    }
    false
}

/// Whether no two entries share a symbol.
fn all_unique(list: &Vec<TickerInfo>) -> (r: bool)
    ensures
        r == unique_symbols(list.deep_view()),
{
    let ghost deep = list.deep_view();
    let mut i: usize = 0;
    while i < list.len()
        invariant
            i <= list.len(),
            deep == list.deep_view(),
            forall|a: int, b: int| 0 <= a < b < i ==> deep[a].symbol != deep[b].symbol,
        decreases list.len() - i,
    {
        let mut j: usize = 0;
        while j < i
            invariant
                j <= i < list.len(),
                deep == list.deep_view(),
                forall|a: int, b: int| 0 <= a < b < i ==> deep[a].symbol != deep[b].symbol,
                forall|a: int| 0 <= a < j ==> deep[a].symbol != deep[i as int].symbol,
            decreases i - j,
        {
            if list[j].symbol == list[i].symbol {
                proof {
                    assert(deep[j as int].symbol == deep[i as int].symbol);
                }
                return false;
            }
            j += 1;
        }
        i += 1;
    }
    true
}

/// The symbols of the list, in order.
fn symbols_of(list: &Vec<TickerInfo>) -> (r: Vec<String>)
    ensures
        r.deep_view() == symbol_seq(list.deep_view()),
{
    let ghost deep = list.deep_view();
    let mut r: Vec<String> = Vec::new();
    let mut i: usize = 0;
    while i < list.len()
        invariant
            i <= list.len(),
            deep == list.deep_view(),
            r@.len() == i,
            forall|k: int| 0 <= k < i ==> #[trigger] r@[k]@ == deep[k].symbol,
        decreases list.len() - i,
    {
        r.push(list[i].symbol.clone());
        proof {
            assert(r@[i as int]@ == deep[i as int].symbol);
        }
        i += 1;
    }
    proof {
        assert(r.deep_view() =~= symbol_seq(deep));
    }
    r
}

/// The list without the entries equal to `t` as a whole record.
fn remove_matching(list: &Vec<TickerInfo>, t: &TickerInfo) -> (r: Vec<TickerInfo>)
    ensures
        r.deep_view() == spec_remove(list.deep_view(), t@),
{
    let ghost deep = list.deep_view();
    let mut r: Vec<TickerInfo> = Vec::new();
    let mut i: usize = 0;
    while i < list.len()
        invariant
            i <= list.len(),
            deep == list.deep_view(),
            r.deep_view() == spec_remove(deep.take(i as int), t@),
        decreases list.len() - i,
    {
        let ghost before = r.deep_view();
        let keep = !(list[i] == *t);
        if keep {
            r.push(list[i].clone());
        }
        proof {
            let prefix = deep.take(i + 1 as int);
            assert(prefix.drop_last() =~= deep.take(i as int));
            assert(prefix.last() == deep[i as int]);
            assert(deep[i as int] == list@[i as int]@);
            if keep {
                assert(r.deep_view() =~= before + seq![deep[i as int]]);
            } else {
                assert(r.deep_view() =~= before + Seq::<TickerModel>::empty());
            }
        }
        i += 1;
    }
    proof {
        assert(deep.take(deep.len() as int) =~= deep);
    }
    r
}

/// Entries kept by a removal come from the original list: their symbols
/// occur there, and a list of unique symbols keeps unique symbols.
pub proof fn lemma_remove_unique(p: Seq<TickerModel>, t: TickerModel)
    requires
        unique_symbols(p),
    ensures
        unique_symbols(spec_remove(p, t)),
        forall|s: Seq<char>| has_symbol(spec_remove(p, t), s) ==> has_symbol(p, s),
    decreases p.len(),
{
    if p.len() > 0 {
        let front = p.drop_last();
        assert(unique_symbols(front)) by {
            assert(forall|i: int, j: int| 0 <= i < j < front.len() ==> front[i] == p[i] && front[j]
                == p[j]);
        }
        lemma_remove_unique(front, t);
        let q = spec_remove(front, t);
        assert(forall|s: Seq<char>| has_symbol(front, s) ==> has_symbol(p, s)) by {
            assert(forall|i: int| 0 <= i < front.len() ==> front[i] == p[i]);
        }
        if p.last() == t {
            assert(spec_remove(p, t) =~= q);
        } else {
            let whole = spec_remove(p, t);
            assert(whole =~= q.push(p.last()));
            assert(forall|s: Seq<char>| has_symbol(whole, s) ==> has_symbol(p, s)) by {
                assert forall|s: Seq<char>| has_symbol(whole, s) implies has_symbol(p, s) by {
                    let k = choose|k: int| 0 <= k < whole.len() && whole[k].symbol == s;
                    if k < q.len() {
                        assert(has_symbol(q, s));
                    } else {
                        assert(whole[k] == p.last());
                        assert(p[p.len() - 1].symbol == s);
                    }
                }
            }
            assert(unique_symbols(whole)) by {
                assert forall|i: int, j: int| 0 <= i < j < whole.len() implies whole[i].symbol
                    != whole[j].symbol by {
                    if j < q.len() {
                        assert(whole[i] == q[i] && whole[j] == q[j]);
                    } else {
                        assert(whole[j] == p.last());
                        assert(whole[i] == q[i]);
                        if q[i].symbol == p.last().symbol {
                            assert(has_symbol(q, p.last().symbol));
                            assert(has_symbol(front, p.last().symbol));
                            let w = choose|w: int| 0 <= w < front.len() && front[w].symbol
                                == p.last().symbol;
                            assert(p[w].symbol == p[p.len() - 1].symbol);
                        }
                    }
                }
            }
        }
    }
}

/// A symbol that occurs nowhere is counted zero times.
pub proof fn lemma_count_absent(p: Seq<TickerModel>, symbol: Seq<char>)
    requires
        !has_symbol(p, symbol),
    ensures
        count_symbol(p, symbol) == 0,
    decreases p.len(),
{
    if p.len() > 0 {
        let front = p.drop_last();
        assert(!has_symbol(front, symbol)) by {
            if has_symbol(front, symbol) {
                let k = choose|k: int| 0 <= k < front.len() && front[k].symbol == symbol;
                assert(p[k].symbol == symbol);
            }
        }
        assert(p[p.len() - 1].symbol != symbol);
        lemma_count_absent(front, symbol);
    }
}

/// In a portfolio with unique symbols, a symbol that occurs, occurs exactly
/// once.
pub proof fn lemma_count_unique_present(p: Seq<TickerModel>, symbol: Seq<char>)
    requires
        unique_symbols(p),
        has_symbol(p, symbol),
    ensures
        count_symbol(p, symbol) == 1,
    decreases p.len(),
{
    let front = p.drop_last();
    assert(unique_symbols(front)) by {
        assert(forall|i: int, j: int| 0 <= i < j < front.len() ==> front[i] == p[i] && front[j]
            == p[j]);
    }
    if p.last().symbol == symbol {
        assert(!has_symbol(front, symbol)) by {
            if has_symbol(front, symbol) {
                let k = choose|k: int| 0 <= k < front.len() && front[k].symbol == symbol;
                assert(p[k].symbol == p[p.len() - 1].symbol);
            }
        }
        lemma_count_absent(front, symbol);
    } else {
        assert(has_symbol(front, symbol)) by {
            let k = choose|k: int| 0 <= k < p.len() && p[k].symbol == symbol;
            assert(k < p.len() - 1);
            assert(front[k].symbol == symbol);
        }
        lemma_count_unique_present(front, symbol);
    }
}

/// Adding a ticker is idempotent: the second add of the same ticker changes
/// nothing, and the portfolio then carries its symbol exactly once.
pub proof fn lemma_add_ticker_dedup(p: Seq<TickerModel>, t: TickerModel)
    requires
        unique_symbols(p),
    ensures
        unique_symbols(spec_add(p, t)),
        spec_add(spec_add(p, t), t) == spec_add(p, t),
        count_symbol(spec_add(p, t), t.symbol) == 1,
{
    let q = spec_add(p, t);
    if has_symbol(p, t.symbol) {
        assert(q == p);
    } else {
        assert(q == p.push(t));
        assert(q[q.len() - 1].symbol == t.symbol);
        assert(has_symbol(q, t.symbol));
        assert(unique_symbols(q)) by {
            assert forall|i: int, j: int| 0 <= i < j < q.len() implies q[i].symbol != q[j].symbol by {
                if j == q.len() - 1 {
                    assert(q[i] == p[i]);
                    if p[i].symbol == t.symbol {
                        assert(has_symbol(p, t.symbol));
                    }
                } else {
                    assert(q[i] == p[i] && q[j] == p[j]);
                }
            }
        }
    }
    assert(has_symbol(q, t.symbol)) by {
        if !has_symbol(p, t.symbol) {
            assert(q[q.len() - 1].symbol == t.symbol);
        } else {
            let k = choose|k: int| 0 <= k < p.len() && p[k].symbol == t.symbol;
            assert(q[k].symbol == t.symbol);
        }
    }
    lemma_count_unique_present(q, t.symbol);
}

/// A completion of a superseded weight fetch can never overwrite what the
/// latest fetch establishes: in whichever order the two resolve, the state
/// ends as if only the latest had resolved.
pub proof fn lemma_stale_result_immunity(
    m: OrchModel,
    g_old: int,
    g_new: int,
    w_old: Option<Seq<u64>>,
    w_new: Option<Seq<u64>>,
)
    requires
        m.pending == Some(g_new),
        g_old < g_new,
    ensures
        spec_apply_weights(spec_apply_weights(m, g_old, w_old), g_new, w_new)
            == spec_apply_weights(m, g_new, w_new),
        spec_apply_weights(spec_apply_weights(m, g_new, w_new), g_old, w_old)
            == spec_apply_weights(m, g_new, w_new),
{
    assert(spec_apply_weights(m, g_old, w_old) == m);
    let applied = spec_apply_weights(m, g_new, w_new);
    assert(applied.pending is None);
    assert(spec_apply_weights(applied, g_old, w_old) == applied);
}

/// Persistence round-trip: a widget mounted from the stored form of any
/// well-formed portfolio starts with exactly that portfolio, whatever the
/// default is.
pub proof fn lemma_persistence_round_trip(ts: Seq<TickerModel>, defaults: Seq<TickerModel>)
    requires
        unique_symbols(ts),
    ensures
        spec_initial_portfolio(Some(codec::spec_render_portfolio(ts)), defaults) == ts,
{
    codec::lemma_codec_round_trip(ts);
}

/// The built-in fallback portfolio: a handful of well-known tickers.
pub open spec fn spec_default_portfolio() -> Seq<TickerModel> {
    seq![
        (TickerModel {
            symbol: "FB"@,
            name: "Facebook, Inc."@,
            exch_disp: "NASDAQ"@,
            type_disp: "Equity"@,
        }),
        (TickerModel {
            symbol: "AAPL"@,
            name: "Apple Inc."@,
            exch_disp: "NASDAQ"@,
            type_disp: "Equity"@,
        }),
        (TickerModel {
            symbol: "AMZN"@,
            name: "Amazon.com, Inc."@,
            exch_disp: "NASDAQ"@,
            type_disp: "Equity"@,
        }),
        (TickerModel {
            symbol: "NFLX"@,
            name: "Netflix, Inc."@,
            exch_disp: "NASDAQ"@,
            type_disp: "Equity"@,
        }),
        (TickerModel {
            symbol: "GOOG"@,
            name: "Alphabet Inc."@,
            exch_disp: "NASDAQ"@,
            type_disp: "Equity"@,
        }),
    ]
}

/// One NASDAQ equity entry of the default portfolio.
fn default_ticker(symbol: &str, name: &str) -> (r: TickerInfo)
    ensures
        r@ == (TickerModel {
            symbol: symbol@,
            name: name@,
            exch_disp: "NASDAQ"@,
            type_disp: "Equity"@,
        }),
{
    let r = TickerInfo {
        symbol: String::from_str(symbol),
        name: String::from_str(name),
        exch_disp: String::from_str("NASDAQ"),
        type_disp: String::from_str("Equity"),
    };
    proof {
        assert(r@ =~= (TickerModel {
            symbol: symbol@,
            name: name@,
            exch_disp: "NASDAQ"@,
            type_disp: "Equity"@,
        }));
    }
    r
}

/// The built-in fallback portfolio, used when no stored portfolio loads.
pub fn default_tickers() -> (r: Vec<TickerInfo>)
    ensures
        r.deep_view() == spec_default_portfolio(),
        unique_symbols(spec_default_portfolio()),
{
    let mut r: Vec<TickerInfo> = Vec::new();
    r.push(default_ticker("FB", "Facebook, Inc."));
    r.push(default_ticker("AAPL", "Apple Inc."));
    r.push(default_ticker("AMZN", "Amazon.com, Inc."));
    r.push(default_ticker("NFLX", "Netflix, Inc."));
    r.push(default_ticker("GOOG", "Alphabet Inc."));
    proof {
        assert(r.deep_view() =~= spec_default_portfolio());
        reveal_strlit("FB");
        reveal_strlit("AAPL");
        reveal_strlit("AMZN");
        reveal_strlit("NFLX");
        reveal_strlit("GOOG");
        assert("FB"@.len() == 2 && "AAPL"@.len() == 4 && "AMZN"@.len() == 4 && "NFLX"@.len() == 4
            && "GOOG"@.len() == 4);
        assert("AAPL"@[1] == 'A' && "AMZN"@[1] == 'M');
        assert("AAPL"@[0] == 'A' && "NFLX"@[0] == 'N' && "GOOG"@[0] == 'G' && "AMZN"@[0] == 'A');
        assert("NFLX"@[1] == 'F' && "GOOG"@[1] == 'O');
        let d = spec_default_portfolio();
        assert(d.len() == 5);
        assert(unique_symbols(d)) by {
            assert forall|i: int, j: int| 0 <= i < j < d.len() implies d[i].symbol != d[j].symbol by {
                assert(d[0].symbol == "FB"@ && d[1].symbol == "AAPL"@ && d[2].symbol == "AMZN"@
                    && d[3].symbol == "NFLX"@ && d[4].symbol == "GOOG"@);
            }
        }
    }
    r
}

/// Load a portfolio from what the store held, if it held the stored form
/// of one.
pub fn load(stored: Option<&str>) -> (r: Result<Vec<TickerInfo>, LoadError>)
    ensures
        match r {
            Ok(v) => stored matches Some(s) && codec::spec_parse_portfolio(s@) == Some(
                v.deep_view(),
            ),
            Err(e) => match e {
                LoadError::Missing => stored is None,
                LoadError::Malformed => stored matches Some(s) && codec::spec_parse_portfolio(s@)
                    is None,
            },
        },
{
    match stored {
        Some(s) => match codec::parse_stored_portfolio(s) {
            Some(v) => Ok(v),
            None => Err(LoadError::Malformed),
        },
        None => Err(LoadError::Missing),
    }
}

/// The portfolio orchestrator. Fields are read by the host for rendering;
/// state changes go through the methods only.
pub struct PortfolioOrchestrator {
    /// The portfolio: chosen tickers in insertion order, symbols unique.
    pub picked_tickers: Vec<TickerInfo>,
    /// Tickers of the last successful weight fetch, as requested then.
    pub snapshot_tickers: Vec<TickerInfo>,
    /// Weights of that fetch, positionally aligned with `snapshot_tickers`.
    pub fetched_weights: Vec<u64>,
    /// Whether the latest resolved weight fetch failed.
    pub fetching_error: bool,
    /// The ticker whose details the user is inspecting, if any.
    pub selected_ticker: Option<TickerInfo>,
    /// Generation of the one weight fetch whose result is still awaited.
    pub pending_fetch: Option<u64>,
    /// The portfolio as it stood when that fetch was issued.
    pub pending_tickers: Vec<TickerInfo>,
    /// Next unused generation; every mint increments it.
    pub next_generation: u64,
}

impl View for PortfolioOrchestrator {
    type V = OrchModel;

    open spec fn view(&self) -> OrchModel {
        OrchModel {
            picked: self.picked_tickers.deep_view(),
            snapshot_tickers: self.snapshot_tickers.deep_view(),
            weights: self.fetched_weights@,
            error: self.fetching_error,
            selected: self.selected_ticker.deep_view(),
            pending: match self.pending_fetch {
                Some(g) => Some(g as int),
                None => None,
            },
            pending_tickers: self.pending_tickers.deep_view(),
            next_generation: self.next_generation as int,
        }
    }
}

impl PortfolioOrchestrator {
    /// The portfolio's symbols are unique and every outstanding generation
    /// was minted earlier than the next one.
    pub open spec fn wf(&self) -> bool {
        &&& unique_symbols(self@.picked)
        &&& (self@.pending matches Some(g) ==> g < self@.next_generation)
        &&& self@.next_generation <= u64::MAX
    }

    /// Issue a weight fetch for the current portfolio: snapshot it under a
    /// fresh generation and hand the host the request to perform.
    pub fn recompute_weights(&mut self) -> (r: WeightsRequest)
        requires
            old(self).wf(),
            old(self).next_generation < u64::MAX,
        ensures
            final(self).wf(),
            final(self)@ == spec_recompute(old(self)@),
            r.generation == old(self).next_generation,
            r.query.tickers.deep_view() == symbol_seq(old(self)@.picked),
    {
        let generation = self.next_generation;
        self.next_generation = self.next_generation + 1;
        self.pending_tickers = clone_tickers(&self.picked_tickers);
        self.pending_fetch = Some(generation);
        let query = GetWeightsQuery { tickers: symbols_of(&self.picked_tickers) };
        proof {
            assert(self.pending_tickers.deep_view() =~= old(self).picked_tickers.deep_view());
            assert(self@ =~= spec_recompute(old(self)@));
        }
        WeightsRequest { generation, query }
    }

    /// A weight fetch completed. A completion that is not the outstanding
    /// one — superseded by a newer fetch, or already resolved — is
    /// discarded without a trace. The outstanding success installs its
    /// snapshot and returns the string under which the host must persist
    /// the portfolio; the outstanding failure raises the error flag and
    /// persists nothing, keeping the last good snapshot visible.
    pub fn on_weights_result(
        &mut self,
        generation: u64,
        result: Result<Vec<u64>, WeightFetchError>,
    ) -> (r: Option<String>)
        requires
            old(self).wf(),
        ensures
            final(self).wf(),
            final(self)@ == spec_apply_weights(
                old(self)@,
                generation as int,
                match result {
                    Ok(w) => Some(w@),
                    Err(_) => None,
                },
            ),
            r is Some <==> old(self)@.pending == Some(generation as int) && result is Ok,
            r matches Some(payload) ==> payload@ == codec::spec_render_portfolio(
                old(self)@.pending_tickers,
            ),
    {
        let applies = match self.pending_fetch {
            Some(g) => g == generation,
            None => false,
        };
        if applies {
            self.pending_fetch = None;
            match result {
                Ok(w) => {
                    self.fetching_error = false;
                    self.fetched_weights = w;
                    self.snapshot_tickers = clone_tickers(&self.pending_tickers);
                    let payload = codec::render_portfolio(&self.snapshot_tickers);
                    proof {
                        assert(self.snapshot_tickers.deep_view() =~= old(
                            self,
                        ).pending_tickers.deep_view());
                        assert(self@ =~= spec_apply_weights(
                            old(self)@,
                            generation as int,
                            Some(self.fetched_weights@),
                        ));
                    }
                    Some(payload)
                },
                Err(_) => {
                    self.fetching_error = true;
                    proof {
                        assert(self@ =~= spec_apply_weights(old(self)@, generation as int, None));
                    }
                    None
                },
            }
        } else {
            None
        }
    }

    /// Add a ticker to the portfolio. A symbol already present makes this a
    /// no-op; otherwise the ticker is appended and a weight fetch for the
    /// grown portfolio is handed to the host.
    pub fn add_ticker(&mut self, ticker: TickerInfo) -> (r: Option<WeightsRequest>)
        requires
            old(self).wf(),
            old(self).next_generation < u64::MAX,
        ensures
            final(self).wf(),
            final(self)@.picked == spec_add(old(self)@.picked, ticker@),
            has_symbol(old(self)@.picked, ticker@.symbol) ==> *final(self) == *old(self) && r
                is None,
            !has_symbol(old(self)@.picked, ticker@.symbol) ==> {
                &&& final(self)@ == spec_recompute(
                    (OrchModel { picked: old(self)@.picked.push(ticker@), ..old(self)@ }),
                )
                &&& r matches Some(w)
                &&& w.generation == old(self).next_generation
                &&& w.query.tickers.deep_view() == symbol_seq(final(self)@.picked)
            },
    {
        if contains_symbol(&self.picked_tickers, &ticker.symbol) {
            None
        } else {
            let ghost before = self.picked_tickers.deep_view();
            self.picked_tickers.push(ticker);
            proof {
                assert(self.picked_tickers.deep_view() =~= before.push(ticker@));
                assert(unique_symbols(self@.picked)) by {
                    assert forall|i: int, j: int|
                        0 <= i < j < self@.picked.len() implies self@.picked[i].symbol
                        != self@.picked[j].symbol by {
                        if j == self@.picked.len() - 1 {
                            assert(self@.picked[i] == before[i]);
                            if before[i].symbol == ticker@.symbol {
                                assert(has_symbol(before, ticker@.symbol));
                            }
                        }
                    }
                }
            }
            Some(self.recompute_weights())
        }
    }

    /// Remove every entry equal to `ticker` as a whole record, then issue a
    /// weight fetch for what remains.
    pub fn remove_ticker(&mut self, ticker: &TickerInfo) -> (r: WeightsRequest)
        requires
            old(self).wf(),
            old(self).next_generation < u64::MAX,
        ensures
            final(self).wf(),
            final(self)@ == spec_recompute(
                (OrchModel {
                    picked: spec_remove(old(self)@.picked, ticker@),
                    ..old(self)@
                }),
            ),
            r.generation == old(self).next_generation,
            r.query.tickers.deep_view() == symbol_seq(final(self)@.picked),
    {
        proof {
            lemma_remove_unique(self@.picked, ticker@);
        }
        self.picked_tickers = remove_matching(&self.picked_tickers, ticker);
        let r = self.recompute_weights();
        proof {
            assert(self@ =~= spec_recompute(
                (OrchModel { picked: spec_remove(old(self)@.picked, ticker@), ..old(self)@ }),
            ));
        }
        r
    }

    /// Remember (or forget) the ticker whose details the user is looking
    /// at.
    pub fn select_ticker(&mut self, ticker: Option<TickerInfo>)
        requires
            old(self).wf(),
        ensures
            final(self).wf(),
            final(self)@ == (OrchModel { selected: ticker.deep_view(), ..old(self)@ }),
    {
        self.selected_ticker = ticker;
        proof {
            assert(self@ =~= (OrchModel { selected: self.selected_ticker.deep_view(), ..old(self)@ }));
        }
    }

    /// Delete the inspected ticker from the portfolio, if one is inspected,
    /// and issue a weight fetch for what remains either way.
    pub fn delete_selected_ticker(&mut self) -> (r: WeightsRequest)
        requires
            old(self).wf(),
            old(self).next_generation < u64::MAX,
        ensures
            final(self).wf(),
            match old(self)@.selected {
                Some(sel) => final(self)@ == spec_recompute(
                    (OrchModel {
                        picked: spec_remove(old(self)@.picked, sel),
                        selected: None,
                        ..old(self)@
                    }),
                ),
                None => final(self)@ == spec_recompute(old(self)@),
            },
            r.generation == old(self).next_generation,
            r.query.tickers.deep_view() == symbol_seq(final(self)@.picked),
    {
        let taken = self.selected_ticker.take();
        match taken {
            Some(sel) => {
                proof {
                    lemma_remove_unique(self@.picked, sel@);
                }
                self.picked_tickers = remove_matching(&self.picked_tickers, &sel);
                let r = self.recompute_weights();
                proof {
                    assert(self@ =~= spec_recompute(
                        (OrchModel {
                            picked: spec_remove(old(self)@.picked, sel@),
                            selected: None,
                            ..old(self)@
                        }),
                    ));
                }
                r
            },
            None => {
                let r = self.recompute_weights();
                proof {
                    assert(self@ =~= spec_recompute(old(self)@));
                }
                r
            },
        }
    }

    /// Empty the portfolio and the weight snapshot without issuing any
    /// fetch; any fetch still in flight is abandoned (its completion will
    /// be discarded). Returns the string under which the host must persist
    /// the now-empty portfolio.
    pub fn clear_portfolio(&mut self) -> (r: String)
        requires
            old(self).wf(),
        ensures
            final(self).wf(),
            final(self)@ == (OrchModel {
                picked: Seq::<TickerModel>::empty(),
                snapshot_tickers: Seq::<TickerModel>::empty(),
                weights: Seq::<u64>::empty(),
                error: false,
                pending: None,
                pending_tickers: Seq::<TickerModel>::empty(),
                ..old(self)@
            }),
            r@ == codec::spec_render_portfolio(Seq::<TickerModel>::empty()),
    {
        self.picked_tickers = Vec::new();
        self.snapshot_tickers = Vec::new();
        self.fetched_weights = Vec::new();
        self.pending_tickers = Vec::new();
        self.fetching_error = false;
        self.pending_fetch = None;
        let payload = codec::render_portfolio(&self.picked_tickers);
        proof {
            assert(self.picked_tickers.deep_view() =~= Seq::<TickerModel>::empty());
            assert(self.snapshot_tickers.deep_view() =~= Seq::<TickerModel>::empty());
            assert(self.pending_tickers.deep_view() =~= Seq::<TickerModel>::empty());
            assert(self@ =~= (OrchModel {
                picked: Seq::<TickerModel>::empty(),
                snapshot_tickers: Seq::<TickerModel>::empty(),
                weights: Seq::<u64>::empty(),
                error: false,
                pending: None,
                pending_tickers: Seq::<TickerModel>::empty(),
                ..old(self)@
            }));
        }
        payload
    }

    /// Mount the widget: take the portfolio from what the store held, or
    /// the given default where nothing stored loads as a well-formed
    /// portfolio, and issue the first weight fetch if the portfolio is
    /// non-empty.
    pub fn create(stored: Option<&str>, defaults: Vec<TickerInfo>) -> (r: (
        Self,
        Option<WeightsRequest>,
    ))
        requires
            unique_symbols(defaults.deep_view()),
        ensures
            ({
                let portfolio = spec_initial_portfolio(
                    match stored {
                        Some(s) => Some(s@),
                        None => None,
                    },
                    defaults.deep_view(),
                );
                &&& r.0.wf()
                &&& portfolio.len() > 0 ==> {
                    &&& r.0@ == spec_recompute(spec_initial_model(portfolio))
                    &&& r.1 matches Some(w)
                    &&& w.generation == 0
                    &&& w.query.tickers.deep_view() == symbol_seq(portfolio)
                }
                &&& portfolio.len() == 0 ==> r.0@ == spec_initial_model(portfolio) && r.1 is None
            }),
    {
        let picked = match load(stored) {
            Ok(v) => if all_unique(&v) {
                v
            } else {
                defaults
            },
            Err(_) => defaults,
        };
        let mut orch = PortfolioOrchestrator {
            picked_tickers: picked,
            snapshot_tickers: Vec::new(),
            fetched_weights: Vec::new(),
            fetching_error: false,
            selected_ticker: None,
            pending_fetch: None,
            pending_tickers: Vec::new(),
            next_generation: 0,
        };
        proof {
            assert(orch@ =~= spec_initial_model(orch.picked_tickers.deep_view()));
        }
        if orch.picked_tickers.len() > 0 {
            let w = orch.recompute_weights();
            (orch, Some(w))
        } else {
            (orch, None)
        }
    }

    /// The displayed weight snapshot: each ticker of the last applied
    /// fetch with its weight, positionally paired.
    pub fn weight_snapshot(&self) -> (r: Vec<(TickerInfo, u64)>)
        ensures
            r.deep_view() == spec_zip_weights(self@.snapshot_tickers, self@.weights),
    {
        let mut r: Vec<(TickerInfo, u64)> = Vec::new();
        let n = if self.snapshot_tickers.len() <= self.fetched_weights.len() {
            self.snapshot_tickers.len()
        } else {
            self.fetched_weights.len()
        };
        let mut i: usize = 0;
        while i < n
            invariant
                i <= n,
                n == spec_zip_weights(self@.snapshot_tickers, self@.weights).len(),
                n <= self.snapshot_tickers@.len(),
                n <= self.fetched_weights@.len(),
                r@.len() == i,
                forall|k: int| 0 <= k < i ==> #[trigger] r@[k].0@ == spec_zip_weights(
                    self@.snapshot_tickers,
                    self@.weights,
                )[k].0 && r@[k].1 == spec_zip_weights(self@.snapshot_tickers, self@.weights)[k].1,
            decreases n - i,
        {
            let ghost prev = r@;
            r.push((self.snapshot_tickers[i].clone(), self.fetched_weights[i]));
            proof {
                assert forall|k: int| 0 <= k < i + 1 implies #[trigger] r@[k].0@
                    == spec_zip_weights(self@.snapshot_tickers, self@.weights)[k].0 && r@[k].1
                    == spec_zip_weights(self@.snapshot_tickers, self@.weights)[k].1 by {
                    if k < i {
                        assert(r@[k] == prev[k]);
                    } else {
                        assert(r@[k].0@ == self@.snapshot_tickers[k]);
                        assert(r@[k].1 == self@.weights[k]);
                    }
                }
            }
            i += 1;
        }
        proof {
            assert(r.deep_view() =~= spec_zip_weights(self@.snapshot_tickers, self@.weights));
        }
        r
    }

    /// Which of the four displays the consumer shows now.
    pub fn display_state(&self) -> (r: DisplayState)
        ensures
            r == spec_display(self@),
    {
        if self.picked_tickers.len() == 0 {
            DisplayState::EmptyPrompt
        } else if self.pending_fetch.is_some() {
            DisplayState::Calculating
        } else if self.fetching_error {
            DisplayState::FetchError
        } else {
            DisplayState::Weights
        }
    }
}

} // verus!
