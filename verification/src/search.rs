//! Searching in a terminal.

use vstd::prelude::*;
use crate::i18n;
use crate::i18n::Language;
use crate::layout::SessionId;
use crate::text;

verus! {

/// Which way a search goes.
#[derive(Clone, Copy, Debug, PartialEq, Eq, Structural)]
pub enum SearchDirection {
    Forward,
    Backward,
}

/// What the daemon found: the match that is shown, how many there are, and the revision of the
/// picture that their places refer to.
#[derive(Clone, Copy, Debug, PartialEq, Eq, Structural)]
pub struct SearchResult {
    pub index: u32,
    pub total: u32,
    pub revision: u64,
}

/// An open search bar: the session it belongs to, how the query is read, and the last result.
#[derive(Clone, Copy, Debug, PartialEq, Eq, Structural)]
pub struct SearchBar {
    pub session_id: SessionId,
    pub regex: bool,
    pub result: Option<SearchResult>,
}

/// Opens the search bar for the active session. One that is open for it stays as it is, one of
/// another session is replaced, and without an active session nothing changes.
pub fn open_terminal_search(bar: Option<SearchBar>, active: Option<SessionId>) -> (r: Option<
    SearchBar,
>)
    ensures
        r == (match active {
            None => bar,
            Some(s) => if bar is Some && bar->0.session_id == s {
                bar
            } else {
                Some(SearchBar { session_id: s, regex: false, result: None })
            },
        }),
{
    match active {
        None => bar,
        Some(s) => match bar {
            Some(b) => if b.session_id == s {
                bar
            } else {
                Some(SearchBar { session_id: s, regex: false, result: None })
            },
            None => Some(SearchBar { session_id: s, regex: false, result: None }),
        },
    }
}

/// The search bar after another session became the active one: it stays only where it belongs to
/// that session.
pub fn search_after_activation(bar: Option<SearchBar>, active: Option<SessionId>) -> (r: Option<
    SearchBar,
>)
    ensures
        r == (if bar is Some && Some(bar->0.session_id) != active {
            None
        } else {
            bar
        }),
{
    match bar {
        Some(b) => match active {
            Some(s) => if b.session_id == s {
                bar
            } else {
                None
            },
            None => None,
        },
        None => None,
    }
}

/// What the user does in the search bar.
#[derive(Clone, Copy, Debug, PartialEq, Eq, Structural)]
pub enum SearchInput {
    Changed,
    Confirm,
    ConfirmReverse,
    Cancel,
    ToggleRegex,
}

/// What follows.
#[derive(Clone, Copy, Debug, PartialEq, Eq, Structural)]
pub enum SearchAction {
    Nothing,
    Close,
    /// Search; `fresh` starts from what is visible, else from the match that is shown.
    Search { direction: SearchDirection, fresh: bool },
}

/// What follows from what the user does. A changed query, and a changed reading of it, start
/// afresh; moving to another match does nothing without a query.
pub fn search_action(bar: &mut SearchBar, input: SearchInput, query_is_empty: bool) -> (r:
    SearchAction)
    ensures
        *final(bar) == (if input is ToggleRegex {
            SearchBar { regex: !old(bar).regex, ..*old(bar) }
        } else {
            *old(bar)
        }),
        r == (match input {
            SearchInput::Changed => SearchAction::Search {
                direction: SearchDirection::Forward,
                fresh: true,
            },
            SearchInput::ToggleRegex => SearchAction::Search {
                direction: SearchDirection::Forward,
                fresh: true,
            },
            SearchInput::Cancel => SearchAction::Close,
            SearchInput::Confirm => if query_is_empty {
                SearchAction::Nothing
            } else {
                SearchAction::Search { direction: SearchDirection::Forward, fresh: false }
            },
            SearchInput::ConfirmReverse => if query_is_empty {
                SearchAction::Nothing
            } else {
                SearchAction::Search { direction: SearchDirection::Backward, fresh: false }
            },
        }),
{
    match input {
        SearchInput::Changed => SearchAction::Search {
            direction: SearchDirection::Forward,
            fresh: true,
        },
        SearchInput::ToggleRegex => {
            bar.regex = !bar.regex;
            SearchAction::Search { direction: SearchDirection::Forward, fresh: true }
        },
        SearchInput::Cancel => SearchAction::Close,
        SearchInput::Confirm => {
            if query_is_empty {
                SearchAction::Nothing
            } else {
                SearchAction::Search { direction: SearchDirection::Forward, fresh: false }
            }
        },
        SearchInput::ConfirmReverse => {
            if query_is_empty {
                SearchAction::Nothing
            } else {
                SearchAction::Search { direction: SearchDirection::Backward, fresh: false }
            }
        },
    }
}

/// Whether the picture at hand is older than the one that the result refers to.
pub fn needs_newer_snapshot(held: Option<u64>, result: SearchResult) -> (r: bool)
    ensures
        r == (match held {
            Some(revision) => revision < result.revision,
            None => true,
        }),
{
    match held {
        Some(revision) => revision < result.revision,
        None => true,
    }
}

/// The result to highlight in a session: only where the search bar belongs to it.
pub fn terminal_search_matches(bar: Option<SearchBar>, session: SessionId) -> (r: Option<
    SearchResult,
>)
    ensures
        r == (if bar is Some && bar->0.session_id == session {
            bar->0.result
        } else {
            None
        }),
{
    match bar {
        Some(b) => if b.session_id == session {
            b.result
        } else {
            None
        },
        None => None,
    }
}

/// What the search bar shows besides the query.
#[derive(Clone, Debug, PartialEq, Eq)]
pub struct SearchBarView {
    /// What stands in the place of an empty query.
    pub placeholder: &'static str,
    pub counter: String,
    pub no_matches: bool,
    pub regex: bool,
}

/// The match counter: blank without a query, `0/0` without a match, else which of how many.
pub open spec fn counter_text(query_is_empty: bool, result: Option<SearchResult>) -> Seq<char> {
    if query_is_empty {
        seq![]
    } else {
        match result {
            Some(found) => if found.total == 0 {
                "0/0"@
            } else {
                text::decimal((found.index + 1) as nat) + "/"@ + text::decimal(found.total as nat)
            },
            None => "0/0"@,
        }
    }
}

/// What the search bar shows besides the query.
pub fn search_bar_view(bar: &SearchBar, query_is_empty: bool, language: Language) -> (r:
    SearchBarView)
    ensures
        r.placeholder@ == i18n::pick(language, "Find"@, "查找"@),
        r.counter@ == counter_text(query_is_empty, bar.result),
        r.no_matches == (!query_is_empty && (match bar.result {
            Some(found) => found.total == 0,
            None => true,
        })),
        r.regex == bar.regex,
{
    let total: u32 = match bar.result {
        Some(found) => found.total,
        None => 0,
    };
    let counter: String = if query_is_empty {
        String::new()
    } else {
        match bar.result {
            Some(found) => {
                if found.total == 0 {
                    "0/0".to_owned()
                } else {
                    let mut c: String = text::decimal_text(found.index as u64 + 1);
                    c.append("/");
                    text::push_decimal(&mut c, found.total as u64);
                    assert(c@ =~= counter_text(query_is_empty, bar.result));
                    c
                }
            },
            None => "0/0".to_owned(),
        }
    };
    SearchBarView {
        placeholder: language.search_placeholder(),
        counter,
        no_matches: !query_is_empty && total == 0,
        regex: bar.regex,
    }
}

/// What came of a search.
#[derive(Clone, Debug)]
pub enum SearchReply {
    /// What was found.
    Found(SearchResult),
    /// An answer to something else.
    Other,
    /// No answer; why not.
    Failed(String),
}

/// What follows from it.
#[derive(Clone, Debug, PartialEq, Eq)]
pub struct SearchFollowUp {
    /// A newer picture has to be fetched first, so that the matches lie over their text.
    pub fetch_snapshot: bool,
    /// What went wrong.
    pub error: Option<String>,
    /// The window has to be drawn again.
    pub redraw: bool,
}

/// Takes what came of a search. Only a result changes the search bar.
pub fn take_search_reply(bar: &mut Option<SearchBar>, held: Option<u64>, reply: SearchReply) -> (r:
    SearchFollowUp)
    ensures
        r.fetch_snapshot == (reply matches SearchReply::Found(found) && (match held {
            Some(revision) => revision < found.revision,
            None => true,
        })),
        r.redraw == (reply is Found),
        match (reply, r.error) {
            (SearchReply::Failed(why), Some(e)) => e@ == "terminal search failed: "@ + why@,
            (SearchReply::Failed(_), None) => false,
            (_, e) => e is None,
        },
        *final(bar) == (match (reply, *old(bar)) {
            (SearchReply::Found(found), Some(b)) => Some(SearchBar { result: Some(found), ..b }),
            _ => *old(bar),
        }),
{
    match reply {
        SearchReply::Found(found) => {
            match *bar {
                Some(b) => {
                    *bar = Some(
                        SearchBar {
                            session_id: b.session_id,
                            regex: b.regex,
                            result: Some(found),
                        },
                    );
                },
                None => {},
            }
            SearchFollowUp {
                fetch_snapshot: needs_newer_snapshot(held, found),
                error: None,
                redraw: true,
            }
        },
        SearchReply::Other => SearchFollowUp { fetch_snapshot: false, error: None, redraw: false },
        SearchReply::Failed(why) => {
            let mut error: String = "terminal search failed: ".to_owned();
            error.append(why.as_str());
            SearchFollowUp { fetch_snapshot: false, error: Some(error), redraw: false }
        },
    }
}

/// The counter is blank without a query, says that there is nothing where nothing was found, and else
/// which of the matches is shown, counted from one, and how many there are.
pub proof fn the_counter_counts_from_one(found: SearchResult)
    ensures
        counter_text(true, Some(found)).len() == 0,
        counter_text(true, None).len() == 0,
        counter_text(false, None) == seq!['0', '/', '0'],
        found.total == 0 ==> counter_text(false, Some(found)) == seq!['0', '/', '0'],
        found.total > 0 ==> ({
            let shown = counter_text(false, Some(found));
            let place = text::decimal((found.index + 1) as nat);
            &&& shown == place.push('/') + text::decimal(found.total as nat)
            &&& text::number_of(place) == found.index + 1
        }),
{
    reveal_strlit("0/0");
    reveal_strlit("/");
    assert("0/0"@ =~= seq!['0', '/', '0']);
    text::a_decimal_form_reads_as_its_number((found.index + 1) as nat);
    assert(text::decimal((found.index + 1) as nat) + "/"@ =~= text::decimal(
        (found.index + 1) as nat,
    ).push('/'));
}

} // verus!
