//! The storage format of the portfolio: a JSON array of ticker records with
//! camelCase keys, e.g.
//! `[{"symbol":"FB","name":"Facebook, Inc.","exchDisp":"NASDAQ","typeDisp":"Equity"}]`.
//! Quotes and backslashes inside values are escaped with a backslash.
//!
//! The store is written by this library alone, so the reader accepts exactly
//! what the writer produces: no surrounding whitespace, keys in this order.
//! Anything else is malformed and makes the loader fall back to the default
//! portfolio.

use vstd::prelude::*;
use vstd::string::{StrSliceExecFns, StringExecFns};
use crate::text::push_char;
use crate::ticker::{TickerInfo, TickerModel};

verus! {

/// Opening of a record up to its first value: `{"symbol":"`.
pub open spec fn lit_symbol() -> Seq<char> {
    "{\"symbol\":\""@
}

/// Between the first and the second value: `,"name":"`.
pub open spec fn lit_name() -> Seq<char> {
    ",\"name\":\""@
}

/// Between the second and the third value: `,"exchDisp":"`.
pub open spec fn lit_exch() -> Seq<char> {
    ",\"exchDisp\":\""@
}

/// Between the third and the fourth value: `,"typeDisp":"`.
pub open spec fn lit_type() -> Seq<char> {
    ",\"typeDisp\":\""@
}

/// How one character appears inside a quoted value: quotes and backslashes
/// get a backslash in front, everything else stands as it is.
pub open spec fn escape_char(c: char) -> Seq<char> {
    if c == '"' || c == '\\' {
        seq!['\\', c]
    } else {
        seq![c]
    }
}

/// A value with every character escaped.
pub open spec fn spec_escape(s: Seq<char>) -> Seq<char>
    decreases s.len(),
{
    if s.len() == 0 {
        Seq::<char>::empty()
    } else {
        escape_char(s[0]) + spec_escape(s.skip(1))
    }
}

/// The stored form of one ticker record.
pub open spec fn spec_render_ticker(t: TickerModel) -> Seq<char> {
    lit_symbol() + spec_escape(t.symbol) + seq!['"'] + lit_name() + spec_escape(t.name)
        + seq!['"'] + lit_exch() + spec_escape(t.exch_disp) + seq!['"'] + lit_type()
        + spec_escape(t.type_disp) + seq!['"', '}']
}

/// The records joined with commas.
pub open spec fn spec_render_items(ts: Seq<TickerModel>) -> Seq<char>
    decreases ts.len(),
{
    if ts.len() == 0 {
        Seq::<char>::empty()
    } else if ts.len() == 1 {
        spec_render_ticker(ts[0])
    } else {
        spec_render_ticker(ts[0]) + seq![','] + spec_render_items(ts.skip(1))
    }
}

/// The stored form of a whole portfolio.
pub open spec fn spec_render_portfolio(ts: Seq<TickerModel>) -> Seq<char> {
    seq!['['] + spec_render_items(ts) + seq![']']
}

/// Escaping distributes over concatenation.
pub proof fn lemma_escape_concat(a: Seq<char>, b: Seq<char>)
    ensures
        spec_escape(a + b) == spec_escape(a) + spec_escape(b),
    decreases a.len(),
{
    if a.len() == 0 {
        assert(a + b =~= b);
        assert(spec_escape(a) + spec_escape(b) =~= spec_escape(b));
    } else {
        assert((a + b).skip(1) =~= a.skip(1) + b);
        lemma_escape_concat(a.skip(1), b);
        assert(spec_escape(a + b) =~= spec_escape(a) + spec_escape(b));
    }
}

/// Escaping one more character appends its escaped form.
pub proof fn lemma_escape_snoc(s: Seq<char>, c: char)
    ensures
        spec_escape(s.push(c)) == spec_escape(s) + escape_char(c),
{
    assert(s.push(c) =~= s + seq![c]);
    lemma_escape_concat(s, seq![c]);
    assert(seq![c].skip(1) =~= Seq::<char>::empty());
    assert(escape_char(c) + spec_escape(Seq::<char>::empty()) =~= escape_char(c));
    assert(seq![c][0] == c);
}

/// Appending one more record to a non-empty list adds a comma and the
/// record; to an empty list, just the record.
pub proof fn lemma_render_items_snoc(ts: Seq<TickerModel>, t: TickerModel)
    ensures
        ts.len() == 0 ==> spec_render_items(ts.push(t)) == spec_render_ticker(t),
        ts.len() > 0 ==> spec_render_items(ts.push(t)) == spec_render_items(ts) + seq![',']
            + spec_render_ticker(t),
    decreases ts.len(),
{
    if ts.len() == 0 {
        assert(ts.push(t)[0] == t);
    } else {
        lemma_render_items_snoc(ts.skip(1), t);
        assert(ts.push(t).skip(1) =~= ts.skip(1).push(t));
        // The one-record case unfolds without a comma on the right, the
        // longer case with one; both land on the same shape.
        if ts.len() == 1 {
            assert(spec_render_items(ts.push(t)) =~= spec_render_items(ts) + seq![',']
                + spec_render_ticker(t));
        } else {
            assert(spec_render_items(ts.push(t)) =~= spec_render_items(ts) + seq![',']
                + spec_render_ticker(t));
        }
    }
}

/// Append a value to `out` with quotes and backslashes escaped.
fn append_escaped(out: &mut String, value: &str)
    ensures
        final(out)@ == old(out)@ + spec_escape(value@),
{
    let n = value.unicode_len();
    let mut k: usize = 0;
    while k < n
        invariant
            k <= n,
            n == value@.len(),
            out@ == old(out)@ + spec_escape(value@.take(k as int)),
        decreases n - k,
    {
        let c = value.get_char(k);
        if c == '"' || c == '\\' {
            push_char(out, '\\');
            push_char(out, c);
        } else {
            push_char(out, c);
        }
        proof {
            lemma_escape_snoc(value@.take(k as int), c);
            assert(value@.take(k + 1 as int) =~= value@.take(k as int).push(value@[k as int]));
            assert(out@ =~= old(out)@ + spec_escape(value@.take(k + 1 as int)));
        }
        k += 1;
    }
    proof {
        assert(value@.take(n as int) =~= value@);
    }
}

/// Append the stored form of one ticker record to `out`.
fn render_ticker_into(out: &mut String, t: &TickerInfo)
    ensures
        final(out)@ == old(out)@ + spec_render_ticker(t@),
{
    out.append("{\"symbol\":\"");
    append_escaped(out, t.symbol.as_str());
    push_char(out, '"');
    out.append(",\"name\":\"");
    append_escaped(out, t.name.as_str());
    push_char(out, '"');
    out.append(",\"exchDisp\":\"");
    append_escaped(out, t.exch_disp.as_str());
    push_char(out, '"');
    out.append(",\"typeDisp\":\"");
    append_escaped(out, t.type_disp.as_str());
    push_char(out, '"');
    push_char(out, '}');
    proof {
        assert(out@ =~= old(out)@ + spec_render_ticker(t@));
    }
}

/// The string under which a portfolio is persisted.
pub fn render_portfolio(portfolio: &Vec<TickerInfo>) -> (r: String)
    ensures
        r@ == spec_render_portfolio(portfolio.deep_view()),
{
    let ghost all = portfolio.deep_view();
    let mut out = String::new();
    push_char(&mut out, '[');
    let mut i: usize = 0;
    while i < portfolio.len()
        invariant
            i <= portfolio.len(),
            all == portfolio.deep_view(),
            out@ == seq!['['] + spec_render_items(all.take(i as int)),
        decreases portfolio.len() - i,
    {
        if i > 0 {
            push_char(&mut out, ',');
        }
        render_ticker_into(&mut out, &portfolio[i]);
        proof {
            lemma_render_items_snoc(all.take(i as int), all[i as int]);
            assert(all.take(i + 1 as int) =~= all.take(i as int).push(all[i as int]));
            assert(portfolio[i as int]@ == all[i as int]);
            assert(out@ =~= seq!['['] + spec_render_items(all.take(i + 1 as int)));
        }
        i += 1;
    }
    push_char(&mut out, ']');
    proof {
        assert(all.take(portfolio.len() as int) =~= all);
        assert(out@ =~= spec_render_portfolio(all));
    }
    out
}

/// The rest of `s` after a fixed prefix, or nothing if `s` does not start
/// with that prefix.
pub open spec fn spec_take_lit(s: Seq<char>, lit: Seq<char>) -> Option<Seq<char>> {
    if lit.len() <= s.len() && s.subrange(0, lit.len() as int) == lit {
        Some(s.skip(lit.len() as int))
    } else {
        None
    }
}

/// A quoted value read up to its closing quote: the unescaped characters
/// and the rest of the input. The opening quote is already consumed. A
/// backslash must be followed by a quote or a backslash; an unterminated
/// value is malformed.
pub open spec fn spec_parse_jstring(s: Seq<char>) -> Option<(Seq<char>, Seq<char>)>
    decreases s.len(),
{
    if s.len() == 0 {
        None
    } else if s[0] == '"' {
        Some((Seq::<char>::empty(), s.skip(1)))
    } else if s[0] == '\\' {
        if s.len() >= 2 && (s[1] == '"' || s[1] == '\\') {
            match spec_parse_jstring(s.skip(2)) {
                Some(p) => Some((seq![s[1]] + p.0, p.1)),
                None => None,
            }
        } else {
            None
        }
    } else {
        match spec_parse_jstring(s.skip(1)) {
            Some(p) => Some((seq![s[0]] + p.0, p.1)),
            None => None,
        }
    }
}

/// One ticker record read from the front of `s`.
pub open spec fn spec_parse_ticker(s: Seq<char>) -> Option<(TickerModel, Seq<char>)> {
    match spec_take_lit(s, lit_symbol()) {
        None => None,
        Some(s1) => match spec_parse_jstring(s1) {
            None => None,
            Some((symbol, s2)) => match spec_take_lit(s2, lit_name()) {
                None => None,
                Some(s3) => match spec_parse_jstring(s3) {
                    None => None,
                    Some((name, s4)) => match spec_take_lit(s4, lit_exch()) {
                        None => None,
                        Some(s5) => match spec_parse_jstring(s5) {
                            None => None,
                            Some((exch_disp, s6)) => match spec_take_lit(s6, lit_type()) {
                                None => None,
                                Some(s7) => match spec_parse_jstring(s7) {
                                    None => None,
                                    Some((type_disp, s8)) => match spec_take_lit(s8, seq!['}']) {
                                        None => None,
                                        Some(s9) => Some(
                                            ((TickerModel { symbol, name, exch_disp, type_disp }),
                                            s9),
                                        ),
                                    },
                                },
                            },
                        },
                    },
                },
            },
        },
    }
}

/// Reading a quoted value consumes at least its closing quote.
pub proof fn lemma_parse_jstring_shrinks(s: Seq<char>)
    ensures
        spec_parse_jstring(s) matches Some(p) ==> p.1.len() < s.len(),
    decreases s.len(),
{
    if s.len() == 0 {
    } else if s[0] == '"' {
    } else if s[0] == '\\' {
        if s.len() >= 2 && (s[1] == '"' || s[1] == '\\') {
            lemma_parse_jstring_shrinks(s.skip(2));
        }
    } else {
        lemma_parse_jstring_shrinks(s.skip(1));
    }
}

/// Reading a ticker record consumes at least one character.
pub proof fn lemma_parse_ticker_shrinks(s: Seq<char>)
    ensures
        spec_parse_ticker(s) matches Some(p) ==> p.1.len() < s.len(),
{
    match spec_take_lit(s, lit_symbol()) {
        None => {},
        Some(s1) => {
            lemma_parse_jstring_shrinks(s1);
            match spec_parse_jstring(s1) {
                None => {},
                Some((symbol, s2)) => {
                    lemma_parse_jstring_shrinks(s2.skip(lit_name().len() as int));
                    match spec_take_lit(s2, lit_name()) {
                        None => {},
                        Some(s3) => {
                            lemma_parse_jstring_shrinks(s3);
                            match spec_parse_jstring(s3) {
                                None => {},
                                Some((name, s4)) => {
                                    match spec_take_lit(s4, lit_exch()) {
                                        None => {},
                                        Some(s5) => {
                                            lemma_parse_jstring_shrinks(s5);
                                            match spec_parse_jstring(s5) {
                                                None => {},
                                                Some((exch_disp, s6)) => {
                                                    match spec_take_lit(s6, lit_type()) {
                                                        None => {},
                                                        Some(s7) => {
                                                            lemma_parse_jstring_shrinks(s7);
                                                        },
                                                    }
                                                },
                                            }
                                        },
                                    }
                                },
                            }
                        },
                    }
                },
            }
        },
    }
}

/// The records of a comma-separated list, one or more, read from the front
/// of `s`.
pub open spec fn spec_parse_items(s: Seq<char>) -> Option<(Seq<TickerModel>, Seq<char>)>
    decreases s.len(),
    via spec_parse_items_decreases
{
    match spec_parse_ticker(s) {
        None => None,
        Some((t, rest)) => if rest.len() > 0 && rest[0] == ',' {
            match spec_parse_items(rest.skip(1)) {
                None => None,
                Some((ts, rest2)) => Some((seq![t] + ts, rest2)),
            }
        } else {
            Some((seq![t], rest))
        },
    }
}

#[via_fn]
proof fn spec_parse_items_decreases(s: Seq<char>) {
    lemma_parse_ticker_shrinks(s);
}

/// A whole stored portfolio: `[]`, or `[` records `]` with nothing after.
pub open spec fn spec_parse_portfolio(s: Seq<char>) -> Option<Seq<TickerModel>> {
    if s.len() >= 2 && s[0] == '[' {
        if s.len() == 2 && s[1] == ']' {
            Some(Seq::<TickerModel>::empty())
        } else {
            match spec_parse_items(s.skip(1)) {
                None => None,
                Some((ts, rest)) => if rest == seq![']'] {
                    Some(ts)
                } else {
                    None
                },
            }
        }
    } else {
        None
    }
}

/// Match the fixed text `lit` at position `i` of `s`; on success the next
/// position.
fn take_lit(s: &str, i: usize, lit: &str) -> (r: Option<usize>)
    requires
        i <= s@.len(),
    ensures
        match r {
            Some(j) => {
                &&& spec_take_lit(s@.skip(i as int), lit@) == Some(s@.skip(j as int))
                &&& i <= j <= s@.len()
                &&& j == i + lit@.len()
            },
            None => spec_take_lit(s@.skip(i as int), lit@) is None,
        },
{
    let n = s.unicode_len();
    let m = lit.unicode_len();
    if n - i < m {
        return None;
    }
    let mut k: usize = 0;
    while k < m
        invariant
            k <= m,
            i + m <= n,
            n == s@.len(),
            m == lit@.len(),
            forall|x: int| 0 <= x < k ==> s@[i + x] == lit@[x],
        decreases m - k,
    {
        if s.get_char(i + k) != lit.get_char(k) {
            proof {
                let suf = s@.skip(i as int);
                assert(suf.subrange(0, m as int)[k as int] == s@[i + k]);
                assert(suf.subrange(0, m as int) != lit@);
            }
            return None;
        }
        k += 1;
    }
    proof {
        let suf = s@.skip(i as int);
        assert(suf.subrange(0, m as int) =~= lit@);
        assert(suf.skip(m as int) =~= s@.skip(i + m as int));
    }
    Some(i + m)
}

/// Read a quoted value starting at position `i` (just after the opening
/// quote): the unescaped value and the position after the closing quote.
fn parse_jstring(s: &str, i: usize) -> (r: Option<(String, usize)>)
    requires
        i <= s@.len(),
    ensures
        match r {
            Some(p) => {
                &&& spec_parse_jstring(s@.skip(i as int)) matches Some(q)
                &&& q.0 == p.0@
                &&& q.1 == s@.skip(p.1 as int)
                &&& i < p.1 <= s@.len()
            },
            None => spec_parse_jstring(s@.skip(i as int)) is None,
        },
    decreases s@.len() - i,
{
    let n = s.unicode_len();
    if i >= n {
        return None;
    }
    let c = s.get_char(i);
    proof {
        assert(s@.skip(i as int)[0] == s@[i as int]);
    }
    if c == '"' {
        proof {
            assert(s@.skip(i as int).skip(1) =~= s@.skip(i + 1 as int));
        }
        return Some((String::new(), i + 1));
    }
    if c == '\\' {
        if i + 1 < n {
            let c2 = s.get_char(i + 1);
            proof {
                assert(s@.skip(i as int)[1] == s@[i + 1 as int]);
                assert(s@.skip(i as int).skip(2) =~= s@.skip(i + 2 as int));
            }
            if c2 == '"' || c2 == '\\' {
                match parse_jstring(s, i + 2) {
                    Some((rest, j)) => {
                        let mut out = String::new();
                        push_char(&mut out, c2);
                        out.append(rest.as_str());
                        proof {
                            assert(out@ =~= seq![c2] + rest@);
                        }
                        return Some((out, j));
                    },
                    None => {
                        return None;
                    },
                }
            } else {
                return None;
            }
        } else {
            proof {
                assert(s@.skip(i as int).len() < 2);
            }
            return None;
        }
    }
    proof {
        assert(s@.skip(i as int).skip(1) =~= s@.skip(i + 1 as int));
    }
    match parse_jstring(s, i + 1) {
        Some((rest, j)) => {
            let mut out = String::new();
            push_char(&mut out, c);
            out.append(rest.as_str());
            proof {
                assert(out@ =~= seq![c] + rest@);
            }
            Some((out, j))
        },
        None => None,
    }
}

/// Read one ticker record starting at position `i`.
fn parse_ticker(s: &str, i: usize) -> (r: Option<(TickerInfo, usize)>)
    requires
        i <= s@.len(),
    ensures
        match r {
            Some(p) => {
                &&& spec_parse_ticker(s@.skip(i as int)) matches Some(q)
                &&& q.0 == p.0@
                &&& q.1 == s@.skip(p.1 as int)
                &&& i < p.1 <= s@.len()
            },
            None => spec_parse_ticker(s@.skip(i as int)) is None,
        },
{
    let j1 = match take_lit(s, i, "{\"symbol\":\"") {
        Some(j) => j,
        None => {
            return None;
        },
    };
    let (symbol, j2) = match parse_jstring(s, j1) {
        Some(p) => p,
        None => {
            return None;
        },
    };
    let j3 = match take_lit(s, j2, ",\"name\":\"") {
        Some(j) => j,
        None => {
            return None;
        },
    };
    let (name, j4) = match parse_jstring(s, j3) {
        Some(p) => p,
        None => {
            return None;
        },
    };
    let j5 = match take_lit(s, j4, ",\"exchDisp\":\"") {
        Some(j) => j,
        None => {
            return None;
        },
    };
    let (exch_disp, j6) = match parse_jstring(s, j5) {
        Some(p) => p,
        None => {
            return None;
        },
    };
    let j7 = match take_lit(s, j6, ",\"typeDisp\":\"") {
        Some(j) => j,
        None => {
            return None;
        },
    };
    let (type_disp, j8) = match parse_jstring(s, j7) {
        Some(p) => p,
        None => {
            return None;
        },
    };
    proof {
        assert("}"@ =~= seq!['}']) by {
            reveal_strlit("}");
        }
    }
    let j9 = match take_lit(s, j8, "}") {
        Some(j) => j,
        None => {
            return None;
        },
    };
    let t = TickerInfo { symbol, name, exch_disp, type_disp };
    proof {
        assert(spec_parse_ticker(s@.skip(i as int)) matches Some(q) && q.0 == t@ && q.1 == s@.skip(
            j9 as int,
        ));
    }
    Some((t, j9))
}

/// Read one or more comma-separated records starting at position `i`.
fn parse_items(s: &str, i: usize) -> (r: Option<(Vec<TickerInfo>, usize)>)
    requires
        i <= s@.len(),
    ensures
        match r {
            Some(p) => {
                &&& spec_parse_items(s@.skip(i as int)) matches Some(q)
                &&& q.0 == p.0.deep_view()
                &&& q.1 == s@.skip(p.1 as int)
                &&& i < p.1 <= s@.len()
            },
            None => spec_parse_items(s@.skip(i as int)) is None,
        },
    decreases s@.len() - i,
{
    let n = s.unicode_len();
    let (t, j) = match parse_ticker(s, i) {
        Some(p) => p,
        None => {
            return None;
        },
    };
    if j < n && s.get_char(j) == ',' {
        proof {
            assert(s@.skip(j as int)[0] == s@[j as int]);
            assert(s@.skip(j as int).skip(1) =~= s@.skip(j + 1 as int));
        }
        match parse_items(s, j + 1) {
            Some((mut v, k)) => {
                let ghost tail = v.deep_view();
                v.insert(0, t);
                proof {
                    assert(v.deep_view() =~= seq![t@] + tail);
                }
                Some((v, k))
            },
            None => None,
        }
    } else {
        proof {
            let rest = s@.skip(j as int);
            if rest.len() > 0 {
                assert(rest[0] == s@[j as int]);
            }
        }
        let mut v: Vec<TickerInfo> = Vec::new();
        v.push(t);
        proof {
            assert(v.deep_view() =~= seq![t@]);
        }
        Some((v, j))
    }
}

/// A prefixed remainder: taking the prefix off gives the remainder back.
proof fn lemma_take_lit_of_prefixed(lit: Seq<char>, rest: Seq<char>)
    ensures
        spec_take_lit(lit + rest, lit) == Some(rest),
{
    let s = lit + rest;
    assert(s.subrange(0, lit.len() as int) =~= lit);
    assert(s.skip(lit.len() as int) =~= rest);
}

/// Reading a quoted value back from its escaped form gives the value and
/// leaves exactly what follows the closing quote.
proof fn lemma_parse_jstring_of_escaped(m: Seq<char>, suffix: Seq<char>)
    ensures
        spec_parse_jstring(spec_escape(m) + seq!['"'] + suffix) == Some((m, suffix)),
    decreases m.len(),
{
    let s = spec_escape(m) + seq!['"'] + suffix;
    if m.len() == 0 {
        assert(s =~= seq!['"'] + suffix);
        assert(s[0] == '"');
        assert(s.skip(1) =~= suffix);
    } else {
        lemma_parse_jstring_of_escaped(m.skip(1), suffix);
        let tail = spec_escape(m.skip(1)) + seq!['"'] + suffix;
        if m[0] == '"' || m[0] == '\\' {
            assert(s =~= seq!['\\', m[0]] + tail);
            assert(s[0] == '\\' && s[1] == m[0]);
            assert(s.len() >= 2);
            assert(s.skip(2) =~= tail);
            assert(seq![s[1]] + m.skip(1) =~= m);
        } else {
            assert(s =~= seq![m[0]] + tail);
            assert(s[0] == m[0]);
            assert(s.skip(1) =~= tail);
            assert(seq![s[0]] + m.skip(1) =~= m);
        }
    }
}

/// Reading a ticker record back from its stored form gives the record and
/// leaves exactly what follows it.
#[verifier::rlimit(50)]
proof fn lemma_parse_ticker_of_rendered(t: TickerModel, suffix: Seq<char>)
    ensures
        spec_parse_ticker(spec_render_ticker(t) + suffix) == Some((t, suffix)),
{
    let s = spec_render_ticker(t) + suffix;
    let f4 = spec_escape(t.type_disp) + seq!['"'] + (seq!['}'] + suffix);
    let f3 = spec_escape(t.exch_disp) + seq!['"'] + (lit_type() + f4);
    let f2 = spec_escape(t.name) + seq!['"'] + (lit_exch() + f3);
    let f1 = spec_escape(t.symbol) + seq!['"'] + (lit_name() + f2);
    assert(s =~= lit_symbol() + f1);
    lemma_take_lit_of_prefixed(lit_symbol(), f1);
    lemma_parse_jstring_of_escaped(t.symbol, lit_name() + f2);
    lemma_take_lit_of_prefixed(lit_name(), f2);
    lemma_parse_jstring_of_escaped(t.name, lit_exch() + f3);
    lemma_take_lit_of_prefixed(lit_exch(), f3);
    lemma_parse_jstring_of_escaped(t.exch_disp, lit_type() + f4);
    lemma_take_lit_of_prefixed(lit_type(), f4);
    lemma_parse_jstring_of_escaped(t.type_disp, seq!['}'] + suffix);
    lemma_take_lit_of_prefixed(seq!['}'], suffix);
    assert(spec_parse_ticker(s) matches Some(p) && p.0 =~= t && p.1 == suffix);
}

/// Reading a record list back from its stored form gives the records and
/// leaves exactly what follows, provided what follows does not begin with
/// another list entry's comma.
proof fn lemma_parse_items_of_rendered(ts: Seq<TickerModel>, suffix: Seq<char>)
    requires
        ts.len() > 0,
        suffix.len() == 0 || suffix[0] != ',',
    ensures
        spec_parse_items(spec_render_items(ts) + suffix) == Some((ts, suffix)),
    decreases ts.len(),
{
    let s = spec_render_items(ts) + suffix;
    if ts.len() == 1 {
        assert(s =~= spec_render_ticker(ts[0]) + suffix);
        lemma_parse_ticker_of_rendered(ts[0], suffix);
        assert(seq![ts[0]] =~= ts);
    } else {
        let rest_items = spec_render_items(ts.skip(1));
        let after_first = seq![','] + rest_items + suffix;
        assert(s =~= spec_render_ticker(ts[0]) + after_first);
        lemma_parse_ticker_of_rendered(ts[0], after_first);
        assert(after_first[0] == ',');
        assert(after_first.skip(1) =~= rest_items + suffix);
        lemma_parse_items_of_rendered(ts.skip(1), suffix);
        assert(seq![ts[0]] + ts.skip(1) =~= ts);
    }
}

/// The stored form of a record begins with its opening brace, so it is
/// never empty.
proof fn lemma_render_items_nonempty(ts: Seq<TickerModel>)
    requires
        ts.len() > 0,
    ensures
        spec_render_items(ts).len() > 0,
{
    reveal_strlit("{\"symbol\":\"");
    assert(lit_symbol().len() == 11);
}

/// Decoding inverts encoding: every portfolio is read back exactly from
/// its stored form.
pub proof fn lemma_codec_round_trip(ts: Seq<TickerModel>)
    ensures
        spec_parse_portfolio(spec_render_portfolio(ts)) == Some(ts),
{
    let s = spec_render_portfolio(ts);
    if ts.len() == 0 {
        assert(s =~= seq!['[', ']']);
        assert(s.len() == 2 && s[0] == '[' && s[1] == ']');
        assert(spec_parse_portfolio(s) == Some(Seq::<TickerModel>::empty()));
    } else {
        lemma_render_items_nonempty(ts);
        assert(s.len() >= 3);
        assert(s[0] == '[');
        assert(s.skip(1) =~= spec_render_items(ts) + seq![']']);
        lemma_parse_items_of_rendered(ts, seq![']']);
        assert(spec_parse_items(s.skip(1)) == Some((ts, seq![']'])));
    }
}

/// Decode a stored portfolio; anything but the exact stored form of some
/// portfolio is refused.
pub fn parse_stored_portfolio(s: &str) -> (r: Option<Vec<TickerInfo>>)
    ensures
        match r {
            Some(v) => spec_parse_portfolio(s@) == Some(v.deep_view()),
            None => spec_parse_portfolio(s@) is None,
        },
{
    let n = s.unicode_len();
    if n < 2 || s.get_char(0) != '[' {
        return None;
    }
    if n == 2 && s.get_char(1) == ']' {
        let v: Vec<TickerInfo> = Vec::new();
        proof {
            assert(v.deep_view() =~= Seq::<TickerModel>::empty());
        }
        return Some(v);
    }
    let (v, j) = match parse_items(s, 1) {
        Some(p) => p,
        None => {
            return None;
        },
    };
    if j == n - 1 && s.get_char(j) == ']' {
        proof {
            assert(s@.skip(j as int) =~= seq![']']);
        }
        Some(v)
    } else {
        proof {
            let rest = s@.skip(j as int);
            if rest == seq![']'] {
                assert(rest.len() == 1);
                assert(rest[0] == s@[j as int]);
                assert(rest[0] == ']');
            }
        }
        None
    }
}

} // verus!
