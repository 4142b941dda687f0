//! The decisions of the launcher's event loop: which suggestions to show,
//! which one is highlighted, what the input line becomes, and when to fetch
//! or open a URL. The loop itself (terminal, network, browser) runs outside
//! and feeds events in.
use vstd::prelude::*;
use vstd::string::*;

use crate::config::BindableAction;
use crate::engine::{
    filled_template, line_from_selection, match_engine, match_line, reconstruct, Engine,
    SuggestionAdapterName,
};
use crate::registry::Registry;
use crate::suggestion::Suggestions;
use crate::text::{
    back_word, back_word_at, back_ws, back_ws_at, chars_of, lemma_back_word_bounds,
    lemma_back_ws_bounds, push_char, same_text, slice,
};

verus! {

/// How many suggestions are shown, and so can be selected.
pub const MAX_VISIBLE: usize = 15;

// ---------------------------------------------------------------------------
// Selection
/// The cursor after moving down through `count` suggestions, wrapping to the
/// top after the last one (none when there are no suggestions).
pub open spec fn next_spec(cursor: Option<usize>, count: usize) -> Option<usize> {
    if count == 0 {
        None
    } else {
        match cursor {
            None => Some(0),
            Some(i) => if i + 1 >= count {
                Some(0)
            } else {
                Some((i + 1) as usize)
            },
        }
    }
}

/// The cursor after moving up through `count` suggestions, wrapping to the
/// bottom (to `0` when there are none).
pub open spec fn prev_spec(cursor: Option<usize>, count: usize) -> Option<usize> {
    let last: usize = if count == 0 {
        0
    } else {
        (count - 1) as usize
    };
    match cursor {
        None => Some(last),
        Some(i) => if i == 0 {
            Some(last)
        } else {
            Some((i - 1) as usize)
        },
    }
}

/// Moves the cursor down; see `next_spec`.
pub fn next(cursor: Option<usize>, count: usize) -> (r: Option<usize>)
    ensures
        r == next_spec(cursor, count),
        (cursor matches Some(i) && i < count) ==> r == Some(((cursor->Some_0 + 1) % (count as int)) as usize),
{
    proof {
        if let Some(i) = cursor {
            if i < count {
                lemma_next_advances(count, i, 1);
                assert(next_n(Some(i), count, 0) == Some(i));
            }
        }
    }
    if count == 0 {
        None
    } else {
        match cursor {
            None => Some(0),
            Some(i) => if i >= count - 1 {
                Some(0)
            } else {
                Some(i + 1)
            },
        }
    }
}

/// Moves the cursor up; see `prev_spec`.
pub fn prev(cursor: Option<usize>, count: usize) -> (r: Option<usize>)
    ensures
        r == prev_spec(cursor, count),
{
    let last: usize = if count == 0 {
        0
    } else {
        count - 1
    };
    match cursor {
        None => Some(last),
        Some(i) => if i == 0 {
            Some(last)
        } else {
            Some(i - 1)
        },
    }
}

/// `next_spec` applied `k` times.
pub open spec fn next_n(cursor: Option<usize>, count: usize, k: nat) -> Option<usize>
    decreases k,
{
    if k == 0 {
        cursor
    } else {
        next_spec(next_n(cursor, count, (k - 1) as nat), count)
    }
}

/// From a highlighted suggestion, moving down `k` times advances the cursor
/// by `k`, wrapping around.
pub proof fn lemma_next_advances(count: usize, i: usize, k: nat)
    requires
        i < count,
    ensures
        next_n(Some(i), count, k) == Some(((i + k) % (count as int)) as usize),
    decreases k,
{
    if k == 0 {
        vstd::arithmetic::div_mod::lemma_small_mod(i as nat, count as nat);
    } else {
        lemma_next_advances(count, i, (k - 1) as nat);
        let x = i + k - 1;
        let m = count as int;
        let j = x % m;
        let q = x / m;
        vstd::arithmetic::div_mod::lemma_fundamental_div_mod(x, m);
        vstd::arithmetic::div_mod::lemma_mod_bound(x, m);
        assert(x == q * m + j) by (nonlinear_arith)
            requires
                x == m * q + j,
        ;
        if j + 1 < m {
            vstd::arithmetic::div_mod::lemma_fundamental_div_mod_converse(x + 1, m, q, j + 1);
        } else {
            assert(x + 1 == (q + 1) * m + 0) by (nonlinear_arith)
                requires
                    x == q * m + j,
                    j + 1 == m,
            ;
            vstd::arithmetic::div_mod::lemma_fundamental_div_mod_converse(x + 1, m, q + 1, 0);
        }
        assert(next_n(Some(i), count, k) == next_spec(next_n(Some(i), count, (k - 1) as nat), count));
    }
}

/// Moving down through `count > 0` suggestions is cyclic: from the first
/// suggestion, `count` moves come back to it; from no highlight, the first
/// move highlights the first suggestion, so `count + 1` moves come back to
/// it, and `count` moves end on the last one.
pub proof fn lemma_next_cycles(count: usize)
    requires
        count > 0,
    ensures
        next_n(Some(0), count, count as nat) == Some(0usize),
        next_n(None, count, 1) == Some(0usize),
        next_n(None, count, (count + 1) as nat) == Some(0usize),
        next_n(None, count, count as nat) == Some((count - 1) as usize),
{
    lemma_next_advances(count, 0, count as nat);
    vstd::arithmetic::div_mod::lemma_mod_self_0(count as int);
    lemma_next_from_none(count, 1);
    lemma_next_from_none(count, (count + 1) as nat);
    lemma_next_from_none(count, count as nat);
    lemma_next_advances(count, 0, (count - 1) as nat);
    vstd::arithmetic::div_mod::lemma_small_mod((count - 1) as nat, count as nat);
    assert(next_n(Some(0), count, 0) == Some(0usize));
}

/// From no highlight, `k` moves are one move to the first suggestion and
/// `k - 1` moves from there.
proof fn lemma_next_from_none(count: usize, k: nat)
    requires
        count > 0,
        k >= 1,
    ensures
        next_n(None, count, k) == next_n(Some(0), count, (k - 1) as nat),
    decreases k,
{
    if k > 1 {
        lemma_next_from_none(count, (k - 1) as nat);
        assert(next_n(Some(0), count, (k - 1) as nat) == next_spec(
            next_n(Some(0), count, (k - 2) as nat),
            count,
        ));
    } else {
        assert(next_n(None, count, 0) == None::<usize>);
    }
}

// ---------------------------------------------------------------------------
// Staleness
/// A result for `term` is shown only while it is the term being waited for.
pub open spec fn accepts(term: Seq<char>, waiting_for: Option<String>) -> bool {
    match waiting_for {
        Some(w) => w@ == term,
        None => false,
    }
}

/// Whether suggestions for `term` may replace the shown ones; see `accepts`.
pub fn should_accept(term: &str, waiting_for: &Option<String>) -> (r: bool)
    ensures
        r == accepts(term@, *waiting_for),
{
    match waiting_for {
        Some(w) => same_text(w.as_str(), term),
        None => false,
    }
}

/// The suggestions shown after result `s` arrives.
pub open spec fn after_result(
    shown: Option<Suggestions>,
    waiting_for: Option<String>,
    s: Suggestions,
) -> Option<Suggestions> {
    if accepts(s.term@, waiting_for) {
        Some(s)
    } else {
        shown
    }
}

/// While `waiting_for` is the awaited term, a result for it is shown and a
/// result for any other term is ignored, in whichever order the two arrive.
pub proof fn lemma_stale_result_ignored(
    shown: Option<Suggestions>,
    waiting_for: String,
    fresh: Suggestions,
    stale: Suggestions,
)
    requires
        fresh.term@ == waiting_for@,
        stale.term@ != waiting_for@,
    ensures
        after_result(after_result(shown, Some(waiting_for), fresh), Some(waiting_for), stale)
            == Some(fresh),
        after_result(after_result(shown, Some(waiting_for), stale), Some(waiting_for), fresh)
            == Some(fresh),
{
}

// ---------------------------------------------------------------------------
// The session
/// A message to the event loop.
pub enum UiMsg {
    /// A fetch finished with these suggestions.
    SetSuggestions(Suggestions),
    /// The user asked for an action.
    OnInput(BindableAction),
}

/// A suggestion fetch for the loop to run.
pub struct FetchRequest {
    pub url: String,
    pub term: String,
    pub adapter: SuggestionAdapterName,
}

/// What the loop does after an event.
pub enum Step {
    /// Go on: redraw and wait for the next event.
    Continue,
    /// Open this URL and stop.
    Open(String),
    /// Stop without opening anything.
    Exit,
}

/// The state of one launcher session.
pub struct Session {
    /// What the user has typed (or accepted).
    pub input_line: String,
    /// The suggestions shown.
    pub suggestions: Option<Suggestions>,
    /// The only term whose suggestions would be shown.
    pub waiting_for_term: Option<String>,
    /// The highlighted suggestion.
    pub selected: Option<usize>,
    /// The suggestion URL template of the engine last resolved.
    pub prev_suggestion_url: Option<String>,
    /// Whether the term must be looked at again before the next frame.
    pub refresh: bool,
}

/// How many suggestions can be selected among those shown.
pub open spec fn selectable(s: Option<Suggestions>) -> nat {
    match s {
        Some(x) => if x.sugg_terms@.len() < MAX_VISIBLE {
            x.sugg_terms@.len()
        } else {
            MAX_VISIBLE as nat
        },
        None => 0,
    }
}

/// `s` without its last character, if any.
pub open spec fn without_last(s: Seq<char>) -> Seq<char> {
    if s.len() == 0 {
        s
    } else {
        s.drop_last()
    }
}

/// `s` without trailing whitespace and the word before it.
pub open spec fn without_last_word(s: Seq<char>) -> Seq<char> {
    s.subrange(0, back_word(s, back_ws(s, s.len() as int)))
}

/// A character typed into the line, unless it is a space and the engine
/// takes no spaces.
pub open spec fn typed(s: Seq<char>, c: char, engine: Engine) -> Seq<char> {
    if c == ' ' && engine.space_becomes@.len() == 0 {
        s
    } else {
        s.push(c)
    }
}

impl Session {
    /// A highlight is always on a shown, selectable suggestion.
    pub open spec fn wf(&self) -> bool {
        self.selected matches Some(i) ==> i < selectable(self.suggestions)
    }

    /// A new session with an empty line; the first frame looks at the term.
    pub fn new() -> (r: Session)
        ensures
            r.wf(),
            r.input_line@ == Seq::<char>::empty(),
            r.suggestions is None,
            r.waiting_for_term is None,
            r.selected is None,
            r.prev_suggestion_url is None,
            r.refresh,
    {
        Session {
            input_line: String::new(),
            suggestions: None,
            waiting_for_term: None,
            selected: None,
            prev_suggestion_url: None,
            refresh: true,
        }
    }

    /// Brings the session up to date with its input line before a frame:
    /// when the engine's suggestion source changed the shown suggestions go;
    /// when the term must be looked at, the highlight goes and the term
    /// becomes the awaited one. A fetch is returned only for a term that is
    /// not the one already awaited (or after a change of suggestion source):
    /// none for an empty term, which clears everything, nor for an engine
    /// without suggestions, which clears the shown ones.
    pub fn sync(&mut self, engines: &Registry) -> (r: Option<FetchRequest>)
        requires
            engines.wf(),
            old(self).wf(),
        ensures
            final(self).wf(),
            ({
                let (prefix, term) = match_line(old(self).input_line@, engines@);
                let engine = engines@[prefix];
                let changed = (old(self).prev_suggestion_url matches Some(u) && u@
                    != engine.suggestion_url@);
                let refresh = old(self).refresh || changed;
                &&& final(self).input_line == old(self).input_line
                &&& (final(self).prev_suggestion_url matches Some(u) && u@
                    == engine.suggestion_url@)
                &&& !final(self).refresh
                &&& changed ==> final(self).suggestions is None
                &&& !refresh ==> {
                    &&& r is None
                    &&& final(self).suggestions == old(self).suggestions
                    &&& final(self).waiting_for_term == old(self).waiting_for_term
                    &&& final(self).selected == old(self).selected
                }
                &&& refresh ==> {
                    &&& final(self).selected is None
                    &&& term.len() == 0 ==> {
                        &&& r is None
                        &&& final(self).suggestions is None
                        &&& final(self).waiting_for_term is None
                    }
                    &&& term.len() > 0 ==> (final(self).waiting_for_term matches Some(w) && w@
                        == term)
                    &&& term.len() > 0 && engine.suggestion_url@.len() == 0 ==> {
                        &&& r is None
                        &&& final(self).suggestions is None
                    }
                    &&& term.len() > 0 && engine.suggestion_url@.len() > 0 && !changed
                        && accepts(term, old(self).waiting_for_term) ==> {
                        &&& r is None
                        &&& final(self).suggestions == old(self).suggestions
                    }
                    &&& term.len() > 0 && engine.suggestion_url@.len() > 0 && (changed
                        || !accepts(term, old(self).waiting_for_term)) ==> {
                        &&& (r matches Some(q) && q.url@ == filled_template(
                            engine.suggestion_url@,
                            term,
                            engine.space_becomes@,
                        ) && q.term@ == term && q.adapter == engine.suggestion_adapter)
                        &&& !changed ==> final(self).suggestions == old(self).suggestions
                    }
                }
            }),
    {
        let (engine, _prefix, term) = match_engine(self.input_line.as_str(), engines);
        let changed = match &self.prev_suggestion_url {
            Some(u) => !same_text(u.as_str(), engine.suggestion_url.as_str()),
            None => false,
        };
        if changed {
            self.suggestions = None;
            self.refresh = true;
        }
        self.prev_suggestion_url = Some(engine.suggestion_url.clone());
        if !self.refresh {
            return None;
        }
        self.refresh = false;
        self.selected = None;
        if term.unicode_len() == 0 {
            self.suggestions = None;
            self.waiting_for_term = None;
            return None;
        }
        let fresh = changed || !should_accept(term.as_str(), &self.waiting_for_term);
        self.waiting_for_term = Some(term.clone());
        if engine.suggestion_url.unicode_len() == 0 {
            self.suggestions = None;
            return None;
        }
        if !fresh {
            return None;
        }
        let url = engine.format_suggestion_url(term.as_str());
        let adapter = match &engine.suggestion_adapter {
            SuggestionAdapterName::OpenSearch => SuggestionAdapterName::OpenSearch,
            SuggestionAdapterName::JsonPath(p) => SuggestionAdapterName::JsonPath(p.clone()),
        };
        Some(FetchRequest { url, term, adapter })
    }

    /// Takes one event: shows an awaited result (and drops the highlight),
    /// moves the highlight and puts the highlighted suggestion into the line,
    /// edits the line (dropping the highlight), or says to open the search
    /// URL or to stop. Every input but a move onto a suggestion has the term
    /// looked at again.
    pub fn handle(&mut self, engines: &Registry, msg: UiMsg) -> (r: Step)
        requires
            engines.wf(),
            old(self).wf(),
        ensures
            final(self).wf(),
            final(self).prev_suggestion_url == old(self).prev_suggestion_url,
            final(self).waiting_for_term == old(self).waiting_for_term,
            ({
                let (prefix, term) = match_line(old(self).input_line@, engines@);
                let engine = engines@[prefix];
                match msg {
                    UiMsg::SetSuggestions(s) => {
                        &&& r is Continue
                        &&& final(self).suggestions == after_result(
                            old(self).suggestions,
                            old(self).waiting_for_term,
                            s,
                        )
                        &&& final(self).selected == if accepts(
                            s.term@,
                            old(self).waiting_for_term,
                        ) {
                            None
                        } else {
                            old(self).selected
                        }
                        &&& final(self).input_line == old(self).input_line
                        &&& final(self).refresh == old(self).refresh
                    },
                    UiMsg::OnInput(action) => {
                        &&& final(self).suggestions == old(self).suggestions
                        &&& match action {
                            BindableAction::Submit => {
                                &&& r matches Step::Open(url) && url@ == filled_template(
                                    engine.search_url@,
                                    term,
                                    engine.space_becomes@,
                                )
                            },
                            BindableAction::Exit => r is Exit,
                            BindableAction::SelectNext | BindableAction::SelectPrev => {
                                let count = selectable(old(self).suggestions);
                                &&& r is Continue
                                &&& count == 0 ==> {
                                    &&& final(self).refresh
                                    &&& final(self).selected == old(self).selected
                                    &&& final(self).input_line == old(self).input_line
                                }
                                &&& count > 0 ==> {
                                    let sel = if action is SelectNext {
                                        next_spec(old(self).selected, count as usize)
                                    } else {
                                        prev_spec(old(self).selected, count as usize)
                                    };
                                    let chosen = old(self).suggestions->Some_0.sugg_terms@[sel->Some_0 as int]@;
                                    &&& !final(self).refresh
                                    &&& final(self).selected == sel
                                    &&& final(self).input_line@ == line_from_selection(
                                        match_line(chosen, engines@).0,
                                        prefix,
                                        chosen,
                                    )
                                }
                            },
                            BindableAction::DeleteChar => {
                                &&& r is Continue
                                &&& final(self).refresh
                                &&& final(self).selected is None
                                &&& final(self).input_line@ == without_last(
                                    old(self).input_line@,
                                )
                            },
                            BindableAction::DeleteWord => {
                                &&& r is Continue
                                &&& final(self).refresh
                                &&& final(self).selected is None
                                &&& final(self).input_line@ == without_last_word(
                                    old(self).input_line@,
                                )
                            },
                            BindableAction::AddChar(c) => {
                                &&& r is Continue
                                &&& final(self).refresh
                                &&& final(self).selected is None
                                &&& final(self).input_line@ == typed(
                                    old(self).input_line@,
                                    c,
                                    engine,
                                )
                            },
                            BindableAction::ClearInput => {
                                &&& r is Continue
                                &&& final(self).refresh
                                &&& final(self).selected == old(self).selected
                                &&& final(self).input_line == old(self).input_line
                            },
                        }
                    },
                }
            }),
    {
        match msg {
            UiMsg::SetSuggestions(s) => {
                if should_accept(s.term.as_str(), &self.waiting_for_term) {
                    self.suggestions = Some(s);
                    self.selected = None;
                }
                Step::Continue
            },
            UiMsg::OnInput(action) => {
                let (engine, prefix, term) = match_engine(self.input_line.as_str(), engines);
                match action {
                    BindableAction::Submit => {
                        self.refresh = true;
                        Step::Open(engine.format_search_url(term.as_str()))
                    },
                    BindableAction::Exit => {
                        self.refresh = true;
                        Step::Exit
                    },
                    BindableAction::SelectNext | BindableAction::SelectPrev => {
                        self.refresh = true;
                        let count = match &self.suggestions {
                            Some(s) => if s.sugg_terms.len() < MAX_VISIBLE {
                                s.sugg_terms.len()
                            } else {
                                MAX_VISIBLE
                            },
                            None => 0,
                        };
                        if count > 0 {
                            let sel = match action {
                                BindableAction::SelectNext => next(self.selected, count),
                                _ => prev(self.selected, count),
                            };
                            let i = match sel {
                                Some(i) => i,
                                None => 0,
                            };
                            let line = match &self.suggestions {
                                Some(s) => reconstruct(
                                    s.sugg_terms[i].as_str(),
                                    prefix.as_str(),
                                    engines,
                                ),
                                None => String::new(),
                            };
                            self.selected = sel;
                            self.input_line = line;
                            self.refresh = false;
                        }
                        Step::Continue
                    },
                    BindableAction::DeleteChar => {
                        self.refresh = true;
                        let n = self.input_line.unicode_len();
                        if n > 0 {
                            let shorter = slice(self.input_line.as_str(), 0, n - 1);
                            assert(shorter@ =~= self.input_line@.drop_last());
                            self.input_line = shorter;
                        }
                        self.selected = None;
                        Step::Continue
                    },
                    BindableAction::DeleteWord => {
                        self.refresh = true;
                        let cs = chars_of(self.input_line.as_str());
                        let b = back_ws_at(&cs, cs.len());
                        proof {
                            lemma_back_ws_bounds(cs@, cs@.len() as int);
                        }
                        let w = back_word_at(&cs, b);
                        proof {
                            lemma_back_word_bounds(cs@, b as int);
                        }
                        let shorter = slice(self.input_line.as_str(), 0, w);
                        self.input_line = shorter;
                        self.selected = None;
                        Step::Continue
                    },
                    BindableAction::AddChar(c) => {
                        self.refresh = true;
                        if !(c == ' ' && engine.space_becomes.unicode_len() == 0) {
                            push_char(&mut self.input_line, c);
                        }
                        self.selected = None;
                        Step::Continue
                    },
                    BindableAction::ClearInput => {
                        self.refresh = true;
                        Step::Continue
                    },
                }
            },
        }
    }
}

} // verus!
