//! Character-level string building and searching on top of vstd's string
//! support, and the origin rewrite for the development setup.

use vstd::prelude::*;
use vstd::string::{StrSliceExecFns, StringExecFns};

verus! {

/// Relies on String::push: appends exactly the one character.
#[verifier::external_body]
pub(crate) fn push_char(s: &mut String, c: char)
    ensures
        final(s)@ == old(s)@.push(c),
{
    s.push(c);
}

/// The pattern stands in `s` at position `i`.
pub open spec fn match_at(s: Seq<char>, pat: Seq<char>, i: int) -> bool {
    0 <= i && i + pat.len() <= s.len() && s.subrange(i, i + pat.len()) == pat
}

/// The pattern stands somewhere in `s`.
pub open spec fn contains_pat(s: Seq<char>, pat: Seq<char>) -> bool {
    exists|i: int| match_at(s, pat, i)
}

/// `s` with every occurrence of `pat` replaced by `to`, scanning left to
/// right without overlap.
pub open spec fn spec_replace(s: Seq<char>, pat: Seq<char>, to: Seq<char>) -> Seq<char>
    recommends
        pat.len() > 0,
    decreases s.len(),
{
    if s.len() == 0 {
        Seq::<char>::empty()
    } else if pat.len() > 0 && pat.len() <= s.len() && s.subrange(0, pat.len() as int) == pat {
        to + spec_replace(s.skip(pat.len() as int), pat, to)
    } else {
        seq![s[0]] + spec_replace(s.skip(1), pat, to)
    }
}

/// Whether the pattern stands at position `i`.
fn match_at_pos(s: &str, i: usize, pat: &str) -> (r: bool)
    requires
        i <= s@.len(),
    ensures
        r == match_at(s@, pat@, i as int),
{
    let n = s.unicode_len();
    let m = pat.unicode_len();
    if n - i < m {
        return false;
    }
    let mut k: usize = 0;
    while k < m
        invariant
            k <= m,
            i + m <= n,
            n == s@.len(),
            m == pat@.len(),
            forall|x: int| 0 <= x < k ==> s@[i + x] == pat@[x],
        decreases m - k,
    {
        if s.get_char(i + k) != pat.get_char(k) {
            proof {
                assert(s@.subrange(i as int, i + m)[k as int] == s@[i + k]);
            }
            return false;
        }
        k += 1;
    }
    proof {
        assert(s@.subrange(i as int, i + m) =~= pat@);
    }
    true
}

/// Whether the pattern stands somewhere in `s`.
pub fn contains_sub(s: &str, pat: &str) -> (r: bool)
    ensures
        r == contains_pat(s@, pat@),
{
    let n = s.unicode_len();
    let m = pat.unicode_len();
    if m > n {
        proof {
            if contains_pat(s@, pat@) {
                let w = choose|w: int| match_at(s@, pat@, w);
            }
        }
        return false;
    }
    if m == 0 {
        proof {
            assert(s@.subrange(0, 0) =~= pat@);
            assert(match_at(s@, pat@, 0));
        }
        return true;
    }
    let mut i: usize = 0;
    while i <= n - m
        invariant
            0 < m <= n,
            n == s@.len(),
            m == pat@.len(),
            i <= n - m + 1,
            forall|k: int| 0 <= k < i ==> !match_at(s@, pat@, k),
        decreases n - i,
    {
        if match_at_pos(s, i, pat) {
            return true;
        }
        i += 1;
    }
    proof {
        if contains_pat(s@, pat@) {
            let w = choose|w: int| match_at(s@, pat@, w);
            assert(w <= n - m);
        }
    }
    false
}

/// `s` with every occurrence of `pat` replaced by `to`, scanning left to
/// right without overlap.
pub fn replace_all(s: &str, pat: &str, to: &str) -> (r: String)
    requires
        pat@.len() > 0,
    ensures
        r@ == spec_replace(s@, pat@, to@),
{
    let n = s.unicode_len();
    let m = pat.unicode_len();
    let mut out = String::new();
    proof {
        assert(s@.skip(0) =~= s@);
        assert(out@ + spec_replace(s@, pat@, to@) =~= spec_replace(s@, pat@, to@));
    }
    let mut i: usize = 0;
    while i < n
        invariant
            i <= n,
            n == s@.len(),
            m == pat@.len(),
            m > 0,
            out@ + spec_replace(s@.skip(i as int), pat@, to@) == spec_replace(s@, pat@, to@),
        decreases n - i,
    {
        let ghost suffix = s@.skip(i as int);
        if match_at_pos(s, i, pat) {
            out.append(to);
            proof {
                assert(suffix.subrange(0, m as int) =~= s@.subrange(i as int, i + m));
                assert(suffix.skip(m as int) =~= s@.skip(i + m as int));
                assert(spec_replace(suffix, pat@, to@) == to@ + spec_replace(
                    s@.skip(i + m as int),
                    pat@,
                    to@,
                ));
                assert(out@ + spec_replace(s@.skip(i + m as int), pat@, to@) =~= spec_replace(
                    s@,
                    pat@,
                    to@,
                ));
            }
            i += m;
        } else {
            let c = s.get_char(i);
            push_char(&mut out, c);
            proof {
                assert(suffix[0] == s@[i as int]);
                if m <= suffix.len() && suffix.subrange(0, m as int) == pat@ {
                    assert(suffix.subrange(0, m as int) =~= s@.subrange(i as int, i + m));
                    assert(match_at(s@, pat@, i as int));
                }
                assert(spec_replace(suffix, pat@, to@) == seq![s@[i as int]] + spec_replace(
                    suffix.skip(1),
                    pat@,
                    to@,
                ));
                assert(suffix.skip(1) =~= s@.skip(i + 1 as int));
                assert(out@ + spec_replace(s@.skip(i + 1 as int), pat@, to@) =~= spec_replace(
                    s@,
                    pat@,
                    to@,
                ));
            }
            i += 1;
        }
    }
    proof {
        assert(s@.skip(n as int) =~= Seq::<char>::empty());
        assert(out@ =~= out@ + spec_replace(s@.skip(n as int), pat@, to@));
    }
    out
}

/// Where the widget reaches its weights service: a development origin (one
/// naming `localhost` or a `.local.` host) answers the UI on one port and
/// the service on another, so the UI port is rewritten to the service
/// port; any other origin serves both and stands unchanged.
pub fn api_origin(window_origin: &str) -> (r: String)
    ensures
        contains_pat(window_origin@, "localhost"@) || contains_pat(window_origin@, ".local."@)
            ==> r@ == spec_replace(window_origin@, "8080"@, "9090"@),
        !(contains_pat(window_origin@, "localhost"@) || contains_pat(window_origin@, ".local."@))
            ==> r@ == window_origin@,
{
    if contains_sub(window_origin, "localhost") || contains_sub(window_origin, ".local.") {
        proof {
            reveal_strlit("8080");
        }
        replace_all(window_origin, "8080", "9090")
    } else {
        window_origin.to_owned()
    }
}

} // verus!
