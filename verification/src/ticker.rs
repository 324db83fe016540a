//! The ticker record and the request payloads exchanged with the weights
//! and symbol-search services.

use vstd::prelude::*;
use vstd::string::StringExecFns;

verus! {

/// One stock symbol with its display metadata, as delivered by the
/// symbol-search service and kept in the portfolio.
pub struct TickerInfo {
    pub symbol: String,
    pub name: String,
    pub exch_disp: String,
    pub type_disp: String,
}

/// The mathematical value of a `TickerInfo`: its four fields as character
/// sequences.
#[verifier::ext_equal]
pub ghost struct TickerModel {
    pub symbol: Seq<char>,
    pub name: Seq<char>,
    pub exch_disp: Seq<char>,
    pub type_disp: Seq<char>,
}

impl View for TickerInfo {
    type V = TickerModel;

    open spec fn view(&self) -> TickerModel {
        TickerModel {
            symbol: self.symbol@,
            name: self.name@,
            exch_disp: self.exch_disp@,
            type_disp: self.type_disp@,
        }
    }
}

impl DeepView for TickerInfo {
    type V = TickerModel;

    open spec fn deep_view(&self) -> TickerModel {
        self@
    }
}

impl Clone for TickerInfo {
    fn clone(&self) -> (r: Self)
        ensures
            r == *self,
    {
        TickerInfo {
            symbol: self.symbol.clone(),
            name: self.name.clone(),
            exch_disp: self.exch_disp.clone(),
            type_disp: self.type_disp.clone(),
        }
    }
}

impl PartialEq for TickerInfo {
    fn eq(&self, other: &Self) -> (r: bool) {
        self.symbol == other.symbol && self.name == other.name
            && self.exch_disp == other.exch_disp && self.type_disp == other.type_disp
    }
}

impl vstd::std_specs::cmp::PartialEqSpecImpl for TickerInfo {
    open spec fn obeys_eq_spec() -> bool {
        true
    }

    open spec fn eq_spec(&self, other: &Self) -> bool {
        self@ == other@
    }
}

/// Request payload for the weights service: the portfolio's symbols, in
/// portfolio order.
pub struct GetWeightsQuery {
    pub tickers: Vec<String>,
}

/// Request payload for this service's symbol-search endpoint.
pub struct SearchQuery {
    pub term: String,
}

/// Query for the third-party autocomplete endpoint; the language is fixed.
pub struct SearchParams {
    pub query: String,
    pub lang: String,
}

impl From<&str> for SearchParams {
    fn from(query: &str) -> (r: Self)
        ensures
            r.query@ == query@,
            r.lang@ == "en-US"@,
    {
        SearchParams { query: String::from_str(query), lang: String::from_str("en-US") }
    }
}

impl vstd::std_specs::convert::FromSpecImpl<&str> for SearchParams {
    open spec fn obeys_from_spec() -> bool {
        false
    }

    open spec fn from_spec(query: &str) -> Self {
        arbitrary()
    }
}

/// Addressing of the weights service: endpoint paths under one base URL.
pub struct RbpService {
    pub base: String,
}

impl RbpService {
    /// The URL of an endpoint under this service's base.
    pub fn prepend_base(&self, sub_path: &str) -> (r: String)
        ensures
            r@ == self.base@ + "/"@ + sub_path@,
    {
        let mut r = self.base.clone();
        r.append("/");
        r.append(sub_path);
        r
    }
}

} // verus!
