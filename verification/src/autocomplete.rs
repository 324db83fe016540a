//! The autocomplete input state machine: text entry, suggestion fetches with
//! stale-response protection, keyboard navigation with wraparound, selection
//! commit, and the deferred hide that tolerates the blur/click race.
//!
//! The machine never performs an effect itself: methods return the fetch or
//! timer the host must start, and the host feeds completions back through
//! `on_autocomplete_result` and `on_hide_timer`.

use vstd::prelude::*;
use crate::ticker::{SearchQuery, TickerInfo};

verus! {

/// Key code for moving the highlight up.
pub const KEY_UP: u32 = 38;

/// Key code for moving the highlight down.
pub const KEY_DOWN: u32 = 40;

/// Key code for committing the highlighted suggestion.
pub const KEY_ENTER: u32 = 13;

/// Delay of the deferred hide after blur, in milliseconds: long enough for a
/// click on a suggestion (which blurs the input first) to land.
pub const DEFAULT_DEFER_MS: u64 = 200;

/// A suggestion fetch the host must issue. The completion, when it arrives,
/// is handed back together with `generation` so that superseded responses
/// can be recognised.
pub struct FetchRequest {
    pub generation: u64,
    pub query: SearchQuery,
}

/// A one-shot timer the host must start; on firing it hands `token` back to
/// `on_hide_timer`.
pub struct TimerRequest {
    pub token: u64,
    pub delay_ms: u64,
}

/// A failed suggestion fetch. It carries nothing: search failures are
/// swallowed and never shown to the user.
pub struct SearchFetchError {}

/// What a key press produced: whether the host must suppress the browser's
/// default handling, and the suggestion committed by Enter, if any.
pub struct KeyOutcome {
    pub prevent_default: bool,
    pub selected: Option<TickerInfo>,
}

/// Where the highlight moves: one step from `selected` by `delta` with
/// wraparound over `n` options. `-1` is the neutral position: the first step
/// down lands on the first option, the first step up on the last one. With
/// no options the highlight stays neutral.
pub open spec fn spec_move(selected: int, delta: int, n: int) -> int {
    if n == 0 {
        -1
    } else if selected == -1 {
        if delta >= 0 {
            0
        } else {
            n - 1
        }
    } else {
        let raw = selected + delta;
        if raw < 0 {
            n - 1
        } else if raw >= n {
            0
        } else {
            raw
        }
    }
}

/// Away from the neutral position, one step with wraparound is plain
/// modular arithmetic over the number of options.
pub proof fn lemma_move_wraparound(selected: int, delta: int, n: int)
    requires
        n > 0,
        0 <= selected < n,
        delta == 1 || delta == -1,
    ensures
        spec_move(selected, delta, n) == (selected + delta) % n,
{
    if selected + delta < 0 {
        assert((selected + delta) % n == n - 1) by {
            assert(selected + delta == -1);
            assert(-1 % n == n - 1) by (nonlinear_arith)
                requires
                    n > 0,
            ;
        }
    } else if selected + delta >= n {
        assert((selected + delta) % n == 0) by {
            assert(selected + delta == n);
            assert(n % n == 0) by (nonlinear_arith)
                requires
                    n > 0,
            ;
        }
    } else {
        assert((selected + delta) % n == selected + delta) by (nonlinear_arith)
            requires
                n > 0,
                0 <= selected + delta < n,
        ;
    }
}

/// The autocomplete input. Fields are read by the host for rendering;
/// state changes go through the event methods only.
pub struct AutocompleteInput {
    /// Current text of the input box.
    pub query: String,
    /// Suggestions currently offered.
    pub options: Vec<TickerInfo>,
    /// Index of the highlighted suggestion; `-1` means none.
    pub selected_option: i32,
    /// Generation of the one suggestion fetch whose result is still awaited.
    pub pending_fetch: Option<u64>,
    /// Token of the armed deferred-hide timer, if any.
    pub hide_timer: Option<u64>,
    /// Next unused generation/timer token; every mint increments it.
    pub next_token: u64,
}

impl AutocompleteInput {
    /// All outstanding tokens were minted earlier than the next one.
    pub open spec fn tokens_wf(&self) -> bool {
        &&& (self.pending_fetch matches Some(g) ==> g < self.next_token)
        &&& (self.hide_timer matches Some(t) ==> t < self.next_token)
    }

    /// The highlight is a real index or neutral, the option list fits an
    /// `i32` index, and the tokens are well-formed.
    pub open spec fn wf(&self) -> bool {
        &&& self.selected_option == -1 || (0 <= self.selected_option
            && (self.selected_option as int) < self.options@.len())
        &&& self.options@.len() <= i32::MAX as int
        &&& self.tokens_wf()
    }

    /// A fresh input: empty text, no suggestions, nothing outstanding.
    pub fn new() -> (r: Self)
        ensures
            r.wf(),
            r.query@ == Seq::<char>::empty(),
            r.options@ == Seq::<TickerInfo>::empty(),
            r.selected_option == -1,
            r.pending_fetch is None,
            r.hide_timer is None,
            r.next_token == 0,
    {
        AutocompleteInput {
            query: String::new(),
            options: Vec::new(),
            selected_option: -1,
            pending_fetch: None,
            hide_timer: None,
            next_token: 0,
        }
    }

    /// Drop the suggestion list: no options, neutral highlight, and any
    /// armed hide timer is disarmed. The text is kept.
    pub fn hide_options(&mut self)
        ensures
            old(self).tokens_wf() ==> final(self).wf(),
            final(self).options@ == Seq::<TickerInfo>::empty(),
            final(self).selected_option == -1,
            final(self).hide_timer is None,
            final(self).query == old(self).query,
            final(self).pending_fetch == old(self).pending_fetch,
            final(self).next_token == old(self).next_token,
    {
        self.hide_timer = None;
        self.selected_option = -1;
        self.options.clear();
    }

    /// The user edited the text. Non-empty text supersedes any outstanding
    /// fetch with a new one, which the host must issue; empty text clears
    /// the suggestions and abandons any outstanding fetch.
    pub fn on_query_change(&mut self, text: String) -> (r: Option<FetchRequest>)
        requires
            old(self).wf(),
            old(self).next_token < u64::MAX,
        ensures
            final(self).wf(),
            final(self).query@ == text@,
            final(self).hide_timer == old(self).hide_timer,
            text@.len() > 0 ==> {
                &&& r == Some((FetchRequest {
                    generation: old(self).next_token,
                    query: (SearchQuery { term: text }),
                }))
                &&& final(self).pending_fetch == Some(old(self).next_token)
                &&& final(self).next_token == old(self).next_token + 1
                &&& final(self).options == old(self).options
                &&& final(self).selected_option == old(self).selected_option
            },
            text@.len() == 0 ==> {
                &&& r is None
                &&& final(self).pending_fetch is None
                &&& final(self).next_token == old(self).next_token
                &&& final(self).options@ == Seq::<TickerInfo>::empty()
                &&& final(self).selected_option == -1
            },
    {
        if text.as_str().unicode_len() > 0 {
            let generation = self.next_token;
            self.next_token = self.next_token + 1;
            self.pending_fetch = Some(generation);
            self.query = text.clone();
            Some(FetchRequest { generation, query: SearchQuery { term: text } })
        } else {
            self.query = text;
            self.options.clear();
            self.selected_option = -1;
            self.pending_fetch = None;
            None
        }
    }

    /// The input regained focus: with non-empty text the suggestion fetch is
    /// re-issued (the options may have been hidden since it last ran).
    pub fn on_focus(&mut self) -> (r: Option<FetchRequest>)
        requires
            old(self).wf(),
            old(self).next_token < u64::MAX,
        ensures
            final(self).wf(),
            final(self).query == old(self).query,
            final(self).options == old(self).options,
            final(self).selected_option == old(self).selected_option,
            final(self).hide_timer == old(self).hide_timer,
            old(self).query@.len() > 0 ==> {
                &&& r matches Some(f)
                &&& f.generation == old(self).next_token
                &&& f.query.term@ == old(self).query@
                &&& final(self).pending_fetch == Some(old(self).next_token)
                &&& final(self).next_token == old(self).next_token + 1
            },
            old(self).query@.len() == 0 ==> {
                &&& r is None
                &&& final(self).pending_fetch == old(self).pending_fetch
                &&& final(self).next_token == old(self).next_token
            },
    {
        if self.query.as_str().unicode_len() > 0 {
            let generation = self.next_token;
            self.next_token = self.next_token + 1;
            self.pending_fetch = Some(generation);
            Some(FetchRequest { generation, query: SearchQuery { term: self.query.clone() } })
        } else {
            None
        }
    }

    /// The input lost focus: arm the deferred hide. The returned timer must
    /// be started by the host; a timer armed earlier is superseded (its
    /// firing will be ignored).
    pub fn on_blur(&mut self) -> (r: TimerRequest)
        requires
            old(self).wf(),
            old(self).next_token < u64::MAX,
        ensures
            final(self).wf(),
            r == (TimerRequest { token: old(self).next_token, delay_ms: DEFAULT_DEFER_MS }),
            final(self).hide_timer == Some(old(self).next_token),
            final(self).next_token == old(self).next_token + 1,
            final(self).query == old(self).query,
            final(self).options == old(self).options,
            final(self).selected_option == old(self).selected_option,
            final(self).pending_fetch == old(self).pending_fetch,
    {
        let token = self.next_token;
        self.next_token = self.next_token + 1;
        self.hide_timer = Some(token);
        TimerRequest { token, delay_ms: DEFAULT_DEFER_MS }
    }

    /// A deferred-hide timer fired. Only the timer armed last hides the
    /// list; a superseded one is ignored.
    pub fn on_hide_timer(&mut self, token: u64)
        requires
            old(self).wf(),
        ensures
            final(self).wf(),
            old(self).hide_timer == Some(token) ==> {
                &&& final(self).options@ == Seq::<TickerInfo>::empty()
                &&& final(self).selected_option == -1
                &&& final(self).hide_timer is None
                &&& final(self).query == old(self).query
                &&& final(self).pending_fetch == old(self).pending_fetch
                &&& final(self).next_token == old(self).next_token
            },
            old(self).hide_timer != Some(token) ==> *final(self) == *old(self),
    {
        let fire = match self.hide_timer {
            Some(armed) => armed == token,
            None => false,
        };
        if fire {
            self.hide_options();
        }
    }

    /// A suggestion fetch completed. A response whose generation is not the
    /// outstanding one is stale and is discarded without a trace. The
    /// outstanding response replaces the options on success and resets the
    /// highlight; on failure the previous suggestions stay untouched and the
    /// error is swallowed.
    pub fn on_autocomplete_result(
        &mut self,
        request_id: u64,
        result: Result<Vec<TickerInfo>, SearchFetchError>,
    )
        requires
            old(self).wf(),
            result matches Ok(v) ==> v@.len() <= i32::MAX as int,
        ensures
            final(self).wf(),
            old(self).pending_fetch != Some(request_id) ==> *final(self) == *old(self),
            old(self).pending_fetch == Some(request_id) ==> {
                &&& final(self).pending_fetch is None
                &&& final(self).query == old(self).query
                &&& final(self).hide_timer == old(self).hide_timer
                &&& final(self).next_token == old(self).next_token
                &&& match result {
                    Ok(v) => final(self).options == v && final(self).selected_option == -1,
                    Err(_) => final(self).options == old(self).options
                        && final(self).selected_option == old(self).selected_option,
                }
            },
    {
        let current = match self.pending_fetch {
            Some(g) => g == request_id,
            None => false,
        };
        if current {
            self.pending_fetch = None;
            match result {
                Ok(v) => {
                    self.selected_option = -1;
                    self.options = v;
                },
                Err(_) => {},
            }
        }
    }

    /// Move the highlight one step down (`delta == 1`) or up (`delta == -1`)
    /// with wraparound, and echo the newly highlighted symbol into the text
    /// box. With no options the highlight stays neutral and the text is
    /// kept.
    pub fn move_selected_option(&mut self, delta: i32)
        requires
            old(self).wf(),
            delta == 1i32 || delta == -1i32,
        ensures
            final(self).wf(),
            final(self).selected_option as int == spec_move(
                old(self).selected_option as int,
                delta as int,
                old(self).options@.len() as int,
            ),
            final(self).selected_option >= 0 ==> final(self).query@ == old(self).options@[
                final(self).selected_option as int
            ]@.symbol,
            final(self).selected_option == -1 ==> final(self).query == old(self).query,
            final(self).options == old(self).options,
            final(self).pending_fetch == old(self).pending_fetch,
            final(self).hide_timer == old(self).hide_timer,
            final(self).next_token == old(self).next_token,
    {
        let n = self.options.len();
        if n == 0 {
            self.selected_option = -1;
        } else {
            let last: i32 = (n - 1) as i32;
            let moved: i32 = if self.selected_option == -1 {
                if delta >= 0 {
                    0
                } else {
                    last
                }
            } else {
                let raw = self.selected_option + delta;
                if raw < 0 {
                    last
                } else if raw > last {
                    0
                } else {
                    raw
                }
            };
            self.selected_option = moved;
            self.query = self.options[moved as usize].symbol.clone();
        }
    }

    /// Commit the highlighted suggestion: consume it from the options,
    /// clear the text, hide the list, and hand the ticker to the caller for
    /// the portfolio. With nothing highlighted this is a no-op.
    pub fn use_selected_option(&mut self) -> (r: Option<TickerInfo>)
        requires
            old(self).wf(),
        ensures
            final(self).wf(),
            old(self).selected_option == -1 ==> *final(self) == *old(self) && r is None,
            old(self).selected_option >= 0 ==> {
                &&& r == Some(old(self).options@[old(self).selected_option as int])
                &&& final(self).query@ == Seq::<char>::empty()
                &&& final(self).options@ == Seq::<TickerInfo>::empty()
                &&& final(self).selected_option == -1
                &&& final(self).hide_timer is None
                &&& final(self).pending_fetch == old(self).pending_fetch
                &&& final(self).next_token == old(self).next_token
            },
    {
        if self.selected_option >= 0 {
            let picked = self.options.remove(self.selected_option as usize);
            self.query = String::new();
            self.hide_options();
            Some(picked)
        } else {
            None
        }
    }

    /// The user clicked suggestion `index`: cancel the deferred hide,
    /// highlight that entry, and commit it.
    pub fn on_select_via_pointer(&mut self, index: usize) -> (r: TickerInfo)
        requires
            old(self).wf(),
            index < old(self).options@.len(),
        ensures
            final(self).wf(),
            r == old(self).options@[index as int],
            final(self).query@ == Seq::<char>::empty(),
            final(self).options@ == Seq::<TickerInfo>::empty(),
            final(self).selected_option == -1,
            final(self).hide_timer is None,
            final(self).pending_fetch == old(self).pending_fetch,
            final(self).next_token == old(self).next_token,
    {
        self.hide_timer = None;
        self.selected_option = index as i32;
        let picked = self.use_selected_option();
        match picked {
            Some(t) => t,
            None => unreached(),
        }
    }

    /// A key was pressed. Down and Up move the highlight with wraparound,
    /// Enter commits the highlighted suggestion; those three suppress the
    /// browser's default handling, every other key passes through
    /// untouched.
    pub fn on_key_down(&mut self, key_code: u32) -> (r: KeyOutcome)
        requires
            old(self).wf(),
        ensures
            final(self).wf(),
            r.prevent_default == (key_code == KEY_DOWN || key_code == KEY_UP || key_code
                == KEY_ENTER),
            key_code == KEY_DOWN || key_code == KEY_UP ==> {
                &&& r.selected is None
                &&& final(self).selected_option as int == spec_move(
                    old(self).selected_option as int,
                    if key_code == KEY_DOWN { 1int } else { -1int },
                    old(self).options@.len() as int,
                )
                &&& final(self).selected_option >= 0 ==> final(self).query@ == old(self).options@[
                    final(self).selected_option as int
                ]@.symbol
                &&& final(self).selected_option == -1 ==> final(self).query == old(self).query
                &&& final(self).options == old(self).options
                &&& final(self).pending_fetch == old(self).pending_fetch
                &&& final(self).hide_timer == old(self).hide_timer
                &&& final(self).next_token == old(self).next_token
            },
            key_code == KEY_ENTER ==> {
                &&& old(self).selected_option == -1 ==> *final(self) == *old(self) && r.selected
                    is None
                &&& old(self).selected_option >= 0 ==> {
                    &&& r.selected == Some(old(self).options@[old(self).selected_option as int])
                    &&& final(self).options@ == Seq::<TickerInfo>::empty()
                    &&& final(self).query@ == Seq::<char>::empty()
                    &&& final(self).selected_option == -1
                    &&& final(self).hide_timer is None
                }
            },
            !(key_code == KEY_DOWN || key_code == KEY_UP || key_code == KEY_ENTER)
                ==> *final(self) == *old(self),
    {
        if key_code == KEY_DOWN {
            self.move_selected_option(1);
            KeyOutcome { prevent_default: true, selected: None }
        } else if key_code == KEY_UP {
            self.move_selected_option(-1);
            KeyOutcome { prevent_default: true, selected: None }
        } else if key_code == KEY_ENTER {
            let picked = self.use_selected_option();
            KeyOutcome { prevent_default: true, selected: picked }
        } else {
            KeyOutcome { prevent_default: false, selected: None }
        }
    }
}

} // verus!
