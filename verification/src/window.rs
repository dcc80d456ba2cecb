//! What a window keeps of its sessions, and how it follows the list of all sessions.

use vstd::prelude::*;
use std::collections::{HashMap, HashSet};
use crate::layout::{GroupId, ItemId, ItemKind, ProjectId, SessionId, TabItem, WindowId};
use crate::pointer::{forget_hovered_link, HoveredLink};
use crate::processes;
use crate::processes::{same_inspection, SessionInspection};
use crate::projects;
use crate::projects::{
    activate_session, join_active_group, open_in_group, place_session, reconcile_project_views, shows_project,
    tabs_to_prune, terminal_directory, update_terminal_title, Project, WindowProjectView,
};
use crate::sessions;
use crate::sessions::{
    classify_sessions, drop_detached_session, remove_session, same_sessions, set_session_title, vanished_sessions,
    SessionSummary,
};
use crate::terminal_input::TerminalImeState;
use crate::terminals;
use crate::terminals::{FocusState, Resizes};

verus! {

// ---------------------------------------------------------------------------
// Titles
// ---------------------------------------------------------------------------

/// The views with the titles of the session's tabs replaced.
pub open spec fn retitled_views(
    v: Seq<projects::Shown>,
    id: SessionId,
    title: Seq<char>,
) -> Seq<projects::Shown> {
    v.map_values(
        |s: projects::Shown|
            projects::Shown { layout: projects::retitled(s.layout, id, title), ..s },
    )
}

proof fn a_title_changes_the_list(v: Seq<SessionSummary>, id: SessionId, title: Seq<char>)
    ensures
        (sessions::retitled(sessions::session_list(v), id, title) != sessions::session_list(v)) == (
        match sessions::session_with(v, id) {
            Some(s) => s.title@ != title,
            None => false,
        }),
    decreases v.len(),
{
    let l = sessions::session_list(v);
    let next = sessions::retitled(l, id, title);
    if v.len() > 0 {
        assert(l[0] == sessions::session(v[0]));
        assert(l.skip(1) =~= sessions::session_list(v.skip(1)));
        if v[0].id == id {
            if v[0].title@ == title {
                assert(next =~= l);
            } else {
                assert(next[0] != l[0]);
            }
        } else {
            a_title_changes_the_list(v.skip(1), id, title);
            let tail = sessions::retitled(l.skip(1), id, title);
            assert(next.skip(1) =~= tail);
            if tail == l.skip(1) {
                assert(next =~= seq![l[0]] + l.skip(1));
                assert(next =~= l);
            }
        }
    }
}

/// Gives a session its title, on the list and on every tab. Returns whether that changed anything.
pub fn synchronize_session_title(
    list: &mut Vec<SessionSummary>,
    views: &mut Vec<WindowProjectView>,
    id: SessionId,
    title: &str,
) -> (r: bool)
    ensures
        sessions::session_list(final(list)@) == sessions::retitled(
            sessions::session_list(old(list)@),
            id,
            title@,
        ),
        projects::all_shown(final(views)@) == retitled_views(
            projects::all_shown(old(views)@),
            id,
            title@,
        ),
        r == (sessions::session_list(final(list)@) != sessions::session_list(old(list)@)
            || projects::all_shown(final(views)@) != projects::all_shown(old(views)@)),
{
    let ghost before = projects::all_shown(views@);
    let ghost goal = retitled_views(before, id, title@);
    proof {
        a_title_changes_the_list(list@, id, title@);
    }
    let mut changed: bool = set_session_title(list, id, title);
    let ghost on_list = changed;
    let ghost mut differs: int = -1;
    let mut i: usize = 0;
    while i < views.len()
        invariant
            i <= views@.len() == before.len(),
            goal == retitled_views(before, id, title@),
            forall|k: int| 0 <= k < i ==> projects::shown(#[trigger] views@[k]) == goal[k],
            forall|k: int|
                i <= k < views@.len() ==> projects::shown(#[trigger] views@[k]) == before[k],
            differs == -1 ==> (changed == on_list && forall|k: int|
                0 <= k < i ==> goal[k] == #[trigger] before[k]),
            differs != -1 ==> (changed && 0 <= differs < i && goal[differs] != before[differs]),
        decreases views@.len() - i,
    {
        let mut view: WindowProjectView = views.remove(i);
        let renamed: bool = update_terminal_title(&mut view.layout, id, title);
        proof {
            assert(projects::shown(view) == goal[i as int]);
            if renamed {
                differs = i as int;
            }
        }
        views.insert(i, view);
        changed = changed || renamed;
        i = i + 1;
    }
    assert(projects::all_shown(views@) =~= goal);
    proof {
        if differs == -1 {
            assert(goal =~= before);
        } else {
            assert(goal[differs] != before[differs]);
        }
    }
    changed
}

/// The list once each of the named sessions has got its title, in turn.
pub open spec fn synced_list(
    v: Seq<sessions::Session>,
    named: Seq<sessions::Session>,
) -> Seq<sessions::Session>
    decreases named.len(),
{
    if named.len() == 0 {
        v
    } else {
        sessions::retitled(synced_list(v, named.drop_last()), named.last().id, named.last().title)
    }
}

/// The views once each of the named sessions has got its title, in turn.
pub open spec fn synced_views(
    v: Seq<projects::Shown>,
    named: Seq<sessions::Session>,
) -> Seq<projects::Shown>
    decreases named.len(),
{
    if named.len() == 0 {
        v
    } else {
        retitled_views(synced_views(v, named.drop_last()), named.last().id, named.last().title)
    }
}

/// Giving one of the named sessions its title changes something.
pub open spec fn some_title_is_new(
    v: Seq<sessions::Session>,
    w: Seq<projects::Shown>,
    named: Seq<sessions::Session>,
) -> bool
    decreases named.len(),
{
    named.len() > 0 && (some_title_is_new(v, w, named.drop_last()) || synced_list(v, named)
        != synced_list(v, named.drop_last()) || synced_views(w, named) != synced_views(
        w,
        named.drop_last(),
    ))
}

fn synchronize_titles(
    list: &mut Vec<SessionSummary>,
    views: &mut Vec<WindowProjectView>,
    named: &Vec<SessionSummary>,
) -> (r: bool)
    ensures
        sessions::session_list(final(list)@) == synced_list(
            sessions::session_list(old(list)@),
            sessions::session_list(named@),
        ),
        projects::all_shown(final(views)@) == synced_views(
            projects::all_shown(old(views)@),
            sessions::session_list(named@),
        ),
        r == some_title_is_new(
            sessions::session_list(old(list)@),
            projects::all_shown(old(views)@),
            sessions::session_list(named@),
        ),
{
    let ghost all = sessions::session_list(named@);
    let ghost v = sessions::session_list(list@);
    let ghost w = projects::all_shown(views@);
    let mut changed: bool = false;
    let mut i: usize = 0;
    assert(all.take(0) =~= seq![]);
    while i < named.len()
        invariant
            i <= named@.len(),
            all == sessions::session_list(named@),
            sessions::session_list(list@) == synced_list(v, all.take(i as int)),
            projects::all_shown(views@) == synced_views(w, all.take(i as int)),
            changed == some_title_is_new(v, w, all.take(i as int)),
        decreases named@.len() - i,
    {
        assert(all.take(i + 1).drop_last() =~= all.take(i as int));
        assert(all.take(i + 1).last() == sessions::session(named@[i as int]));
        let renamed: bool = synchronize_session_title(
            list,
            views,
            named[i].id,
            named[i].title.as_str(),
        );
        changed = changed || renamed;
        i = i + 1;
    }
    assert(all.take(i as int) =~= all);
    changed
}

// ---------------------------------------------------------------------------
// The list of all sessions
// ---------------------------------------------------------------------------

/// The sessions and the views of a window.
pub struct WindowSessions {
    /// The window's own sessions.
    pub sessions: Vec<SessionSummary>,
    /// The sessions that belong to no window.
    pub detached: Vec<SessionSummary>,
    /// What the window shows of each project.
    pub views: Vec<WindowProjectView>,
}

/// What following the list of all sessions has found.
pub struct SessionListChange {
    /// Sessions whose tabs have to go, since the window no longer has them.
    pub vanished: Vec<SessionId>,
    /// Whether a title or one of the two lists has changed.
    pub changed: bool,
}

/// The ids of the sessions, in order.
pub open spec fn listed_ids(v: Seq<sessions::Session>) -> Seq<SessionId> {
    v.map_values(|s: sessions::Session| s.id)
}

/// The list that is held once the named sessions were reported: where it agrees with them but for
/// the titles it stays, with the titles; else they take its place.
pub open spec fn followed(
    had: Seq<sessions::Session>,
    named: Seq<sessions::Session>,
) -> Seq<sessions::Session> {
    let titled = synced_list(had, named);
    if sessions::alike_lists(titled, named) {
        titled
    } else {
        named
    }
}

impl WindowSessions {
    /// Follows the list of all sessions: the window has those that name it, and the detached ones
    /// are those that name no window. Every tab takes the title of its session.
    pub fn apply_session_list(&mut self, listed: Vec<SessionSummary>, window_id: WindowId) -> (r:
        SessionListChange)
        ensures
            ({
                let own = sessions::session_list(sessions::owned_by(listed@, window_id));
                let free = sessions::session_list(sessions::unowned(listed@));
                let had = sessions::session_list(old(self).sessions@);
                let had_free = sessions::session_list(old(self).detached@);
                let shown = projects::all_shown(old(self).views@);
                &&& sessions::session_list(final(self).sessions@) == followed(had, own)
                &&& sessions::session_list(final(self).detached@) == (if sessions::alike_lists(
                    had_free,
                    free,
                ) {
                    had_free
                } else {
                    free
                })
                &&& projects::all_shown(final(self).views@) == synced_views(shown, own)
                &&& r.vanished@ == sessions::missing(
                    sessions::ids(old(self).sessions@),
                    listed_ids(own),
                )
                &&& r.changed == (some_title_is_new(had, shown, own) || !sessions::alike_lists(
                    synced_list(had, own),
                    own,
                ) || !sessions::alike_lists(had_free, free))
            }),
    {
        let (owned, detached) = classify_sessions(listed, window_id);
        let vanished: Vec<SessionId> = vanished_sessions(&self.sessions, &owned);
        assert(sessions::ids(owned@) =~= listed_ids(sessions::session_list(owned@)));
        let mut changed: bool = synchronize_titles(&mut self.sessions, &mut self.views, &owned);
        if !same_sessions(&self.sessions, &owned) {
            self.sessions = owned;
            changed = true;
        }
        if !same_sessions(&self.detached, &detached) {
            self.detached = detached;
            changed = true;
        }
        SessionListChange { vanished, changed }
    }
}

proof fn the_own_title_is_no_news(v: Seq<sessions::Session>, j: int)
    requires
        0 <= j < v.len(),
        listed_ids(v).no_duplicates(),
    ensures
        sessions::retitled(v, v[j].id, v[j].title) == v,
    decreases v.len(),
{
    let l = listed_ids(v);
    if j == 0 {
        assert(sessions::retitled(v, v[j].id, v[j].title) =~= v);
    } else {
        assert(l[0] != l[j]);
        let rest = v.skip(1);
        assert(listed_ids(rest) =~= l.skip(1));
        assert forall|a: int, b: int|
            0 <= a < rest.len() && 0 <= b < rest.len() && a != b implies listed_ids(rest)[a]
            != listed_ids(rest)[b] by {
            assert(l[a + 1] != l[b + 1]);
        }
        the_own_title_is_no_news(rest, j - 1);
        assert(rest[j - 1] == v[j]);
        assert(sessions::retitled(v, v[j].id, v[j].title) =~= seq![v[0]] + rest);
        assert(seq![v[0]] + rest =~= v);
    }
}

proof fn a_title_stays(t: projects::Tree, id: SessionId, title: Seq<char>)
    ensures
        projects::retitled(projects::retitled(t, id, title), id, title) == projects::retitled(
            t,
            id,
            title,
        ),
    decreases t,
{
    match t {
        projects::Tree::Group(g) => {
            let once = projects::retitled_items(g.items, id, title);
            assert(projects::retitled_items(once, id, title) =~= once);
        },
        projects::Tree::Split(_, _, a, b) => {
            a_title_stays(*a, id, title);
            a_title_stays(*b, id, title);
        },
    }
}

proof fn another_title_leaves_it(
    t: projects::Tree,
    id: SessionId,
    title: Seq<char>,
    other: SessionId,
    other_title: Seq<char>,
)
    requires
        id != other,
        projects::retitled(t, id, title) == t,
    ensures
        ({
            let next = projects::retitled(t, other, other_title);
            projects::retitled(next, id, title) == next
        }),
    decreases t,
{
    match t {
        projects::Tree::Group(g) => {
            let next = projects::retitled_items(g.items, other, other_title);
            let same = projects::retitled_items(g.items, id, title);
            assert(same == g.items);
            assert forall|k: int| 0 <= k < next.len() implies projects::retitled_items(
                next,
                id,
                title,
            )[k] == next[k] by {
                assert(same[k] == g.items[k]);
            }
            assert(projects::retitled_items(next, id, title) =~= next);
        },
        projects::Tree::Split(_, _, a, b) => {
            another_title_leaves_it(*a, id, title, other, other_title);
            another_title_leaves_it(*b, id, title, other, other_title);
        },
    }
}

proof fn synced_views_have_the_titles(
    w: Seq<projects::Shown>,
    named: Seq<sessions::Session>,
    n: int,
    k: int,
)
    requires
        0 <= k < n <= named.len(),
        listed_ids(named).no_duplicates(),
    ensures
        ({
            let v = synced_views(w, named.take(n));
            retitled_views(v, named[k].id, named[k].title) == v
        }),
    decreases n,
{
    let v = synced_views(w, named.take(n));
    let before = synced_views(w, named.take(n - 1));
    assert(named.take(n).drop_last() =~= named.take(n - 1));
    let last = named[n - 1];
    assert(v == retitled_views(before, last.id, last.title));
    let again = retitled_views(v, named[k].id, named[k].title);
    if k < n - 1 {
        synced_views_have_the_titles(w, named, n - 1, k);
        assert(listed_ids(named)[k] != listed_ids(named)[n - 1]);
    }
    assert forall|i: int| 0 <= i < v.len() implies again[i] == v[i] by {
        if k == n - 1 {
            a_title_stays(before[i].layout, last.id, last.title);
        } else {
            assert(retitled_views(before, named[k].id, named[k].title)[i] == before[i]);
            another_title_leaves_it(
                before[i].layout,
                named[k].id,
                named[k].title,
                last.id,
                last.title,
            );
        }
    }
    assert(again =~= v);
}

proof fn known_titles_are_no_news(
    w: Seq<projects::Shown>,
    had: Seq<sessions::Session>,
    own: Seq<sessions::Session>,
    n: int,
)
    requires
        0 <= n <= own.len(),
        listed_ids(own).no_duplicates(),
        sessions::alike_lists(had, own),
    ensures
        synced_list(had, own.take(n)) == had,
        synced_views(synced_views(w, own), own.take(n)) == synced_views(w, own),
        !some_title_is_new(had, synced_views(w, own), own.take(n)),
    decreases n,
{
    if n > 0 {
        known_titles_are_no_news(w, had, own, n - 1);
        assert(own.take(n).drop_last() =~= own.take(n - 1));
        assert forall|i: int| 0 <= i < had.len() implies listed_ids(had)[i] == listed_ids(
            own,
        )[i] by {
            assert(sessions::alike(had[i], own[i]));
        }
        assert(listed_ids(had) =~= listed_ids(own));
        assert(sessions::alike(had[n - 1], own[n - 1]));
        the_own_title_is_no_news(had, n - 1);
        synced_views_have_the_titles(w, own, own.len() as int, n - 1);
        assert(own.take(own.len() as int) =~= own);
    }
}

/// Following the same list of sessions twice is the same as following it once: the second time no
/// title and no list changes, and no session has vanished. The sessions on the list differ in their
/// ids.
pub proof fn the_same_list_changes_nothing(
    listed: Seq<SessionSummary>,
    window_id: WindowId,
    had: Seq<sessions::Session>,
    w: Seq<projects::Shown>,
)
    requires
        listed_ids(
            sessions::session_list(sessions::owned_by(listed, window_id)),
        ).no_duplicates(),
    ensures
        ({
            let own = sessions::session_list(sessions::owned_by(listed, window_id));
            let held = followed(had, own);
            let shown = synced_views(w, own);
            &&& followed(held, own) == held
            &&& synced_views(shown, own) == shown
            &&& !some_title_is_new(held, shown, own)
            &&& sessions::alike_lists(synced_list(held, own), own)
            &&& sessions::missing(listed_ids(held), listed_ids(own)).len() == 0
        }),
{
    let own = sessions::session_list(sessions::owned_by(listed, window_id));
    let held = followed(had, own);
    assert(sessions::alike_lists(held, own));
    known_titles_are_no_news(w, held, own, own.len() as int);
    assert(own.take(own.len() as int) =~= own);
    assert forall|i: int| 0 <= i < held.len() implies listed_ids(held)[i] == listed_ids(
        own,
    )[i] by {
        assert(sessions::alike(held[i], own[i]));
    }
    let l = listed_ids(own);
    assert(listed_ids(held) =~= l);
    let gone = |x: SessionId| !l.contains(x);
    if l.filter(gone).len() > 0 {
        l.filter_lemma(gone);
        let x = l.filter(gone)[0];
        assert(gone(x));
        assert(l.filter(gone).contains(x));
        sessions::filter_comes_from(l, gone, 0);
    }
}

// ---------------------------------------------------------------------------
// The first views of a window
// ---------------------------------------------------------------------------

/// The tab of a session.
pub open spec fn tab_for(s: SessionSummary, id: ItemId) -> projects::Item {
    projects::Item { id, kind: ItemKind::Terminal, title: s.title@, session: Some(s.id) }
}

/// The views once each session has got a tab in its project's view, in turn.
pub open spec fn seated(
    v: Seq<projects::Shown>,
    list: Seq<SessionSummary>,
    items: Seq<ItemId>,
) -> Seq<projects::Shown>
    decreases list.len(),
{
    if list.len() == 0 {
        v
    } else {
        projects::placed(
            seated(v, list.drop_last(), items),
            list.last().project_id,
            tab_for(list.last(), items[list.len() - 1]),
        )
    }
}

/// The views that a window starts with: one for each project, with a tab for each session that the
/// window has taken over. The groups and the tabs get the given ids.
pub fn initial_views(
    all: &Vec<Project>,
    fresh_groups: &Vec<GroupId>,
    list: &Vec<SessionSummary>,
    fresh_items: &Vec<ItemId>,
) -> (r: Vec<WindowProjectView>)
    requires
        fresh_groups@.len() == all@.len(),
        fresh_items@.len() == list@.len(),
    ensures
        projects::all_shown(r@) == seated(
            projects::added_views(seq![], projects::project_ids(all@), fresh_groups@),
            list@,
            fresh_items@,
        ),
{
    let none: Vec<WindowProjectView> = Vec::new();
    proof {
        assert(projects::all_shown(none@) =~= seq![]);
        reveal(Seq::filter);
        assert(projects::kept_views(seq![], projects::project_ids(all@)) =~= seq![]);
    }
    let mut views: Vec<WindowProjectView> = reconcile_project_views(
        none,
        &HashSet::new(),
        0,
        all,
        fresh_groups,
    ).views;
    let ghost start = projects::all_shown(views@);
    let mut i: usize = 0;
    assert(list@.take(0) =~= seq![]);
    while i < list.len()
        invariant
            i <= list@.len() == fresh_items@.len(),
            projects::all_shown(views@) == seated(start, list@.take(i as int), fresh_items@),
        decreases list@.len() - i,
    {
        let tab: TabItem = TabItem {
            id: fresh_items[i],
            kind: ItemKind::Terminal,
            title: list[i].title.clone(),
            session_id: Some(list[i].id),
        };
        place_session(&mut views, list[i].project_id, tab);
        assert(list@.take(i + 1).drop_last() =~= list@.take(i as int));
        i = i + 1;
    }
    assert(list@.take(i as int) =~= list@);
    views
}

proof fn a_pushed_tab_is_found(v: Seq<projects::Item>, x: projects::Item, s: SessionId)
    ensures
        projects::tab_of(v.push(x), s) is Some == (projects::tab_of(v, s) is Some || x.session
            == Some(s)),
    decreases v.len(),
{
    reveal_with_fuel(projects::tab_of, 2);
    let w = v.push(x);
    if v.len() == 0 {
        assert(w.skip(1) =~= seq![]);
    } else {
        assert(w[0] == v[0]);
        assert(w.skip(1) =~= v.skip(1).push(x));
        a_pushed_tab_is_found(v.skip(1), x, s);
    }
}

proof fn an_added_tab_is_found(t: projects::Tree, id: GroupId, new: projects::Item, s: SessionId)
    ensures
        ({
            let found = projects::place_of(projects::leaves(projects::with_item(t, id, new)), s);
            &&& projects::place_of(projects::leaves(t), s) is Some ==> found is Some
            &&& projects::has_group(t, id) && new.session == Some(s) ==> found is Some
        }),
    decreases t,
{
    match t {
        projects::Tree::Group(g) => {
            a_pushed_tab_is_found(g.items, new, s);
            reveal_with_fuel(projects::place_of, 2);
            assert(seq![g].skip(1) =~= seq![]);
        },
        projects::Tree::Split(_, _, a, b) => {
            an_added_tab_is_found(*a, id, new, s);
            an_added_tab_is_found(*b, id, new, s);
            projects::place_of_sum(projects::leaves(*a), projects::leaves(*b), s);
            projects::place_of_sum(
                projects::leaves(projects::with_item(*a, id, new)),
                projects::leaves(*b),
                s,
            );
            projects::place_of_sum(
                projects::leaves(*a),
                projects::leaves(projects::with_item(*b, id, new)),
                s,
            );
        },
    }
}

proof fn a_tab_in_a_view_is_found(v: Seq<projects::Shown>, k: int, s: SessionId)
    requires
        0 <= k < v.len(),
        projects::place_of(projects::leaves(v[k].layout), s) is Some,
    ensures
        projects::first_tab(v, s) is Some,
    decreases v.len(),
{
    if k > 0 {
        a_tab_in_a_view_is_found(v.skip(1), k - 1, s);
    }
}

proof fn a_found_tab_is_in_a_view(v: Seq<projects::Shown>, s: SessionId) -> (k: int)
    requires
        projects::first_tab(v, s) is Some,
    ensures
        0 <= k < v.len(),
        projects::place_of(projects::leaves(v[k].layout), s) is Some,
    decreases v.len(),
{
    if projects::place_of(projects::leaves(v[0].layout), s) is Some {
        0
    } else {
        let k = a_found_tab_is_in_a_view(v.skip(1), s);
        k + 1
    }
}

proof fn the_view_is_found(v: Seq<projects::Shown>, p: ProjectId)
    ensures
        0 <= projects::view_index(v, p) <= v.len(),
        projects::has_view(v, p) ==> projects::view_index(v, p) < v.len(),
    decreases v.len(),
{
    if v.len() > 0 && v[0].project != p {
        the_view_is_found(v.skip(1), p);
        if projects::has_view(v, p) {
            let i = choose|i: int| 0 <= i < v.len() && (#[trigger] v[i]).project == p;
            assert(v.skip(1)[i - 1].project == p);
        }
    }
}

proof fn seating_keeps_the_projects(
    v: Seq<projects::Shown>,
    list: Seq<SessionSummary>,
    items: Seq<ItemId>,
    p: ProjectId,
)
    ensures
        projects::has_view(seated(v, list, items), p) == projects::has_view(v, p),
    decreases list.len(),
{
    if list.len() > 0 {
        let before = seated(v, list.drop_last(), items);
        let after = seated(v, list, items);
        seating_keeps_the_projects(v, list.drop_last(), items, p);
        the_view_is_found(before, list.last().project_id);
        assert(after.len() == before.len());
        assert forall|i: int| 0 <= i < before.len() implies after[i].project
            == before[i].project by {}
        if projects::has_view(before, p) {
            let i = choose|i: int| 0 <= i < before.len() && (#[trigger] before[i]).project == p;
            assert(after[i].project == p);
        }
        if projects::has_view(after, p) {
            let i = choose|i: int| 0 <= i < after.len() && (#[trigger] after[i]).project == p;
            assert(before[i].project == p);
        }
    }
}

/// Every session that a window has taken over has a tab, where the window shows its project.
pub proof fn every_session_taken_over_has_a_tab(
    v: Seq<projects::Shown>,
    list: Seq<SessionSummary>,
    items: Seq<ItemId>,
    i: int,
)
    requires
        0 <= i < list.len(),
        projects::has_view(v, list[i].project_id),
    ensures
        projects::first_tab(seated(v, list, items), list[i].id) is Some,
    decreases list.len(),
{
    let before = seated(v, list.drop_last(), items);
    let after = seated(v, list, items);
    let last = list.last();
    let tab = tab_for(last, items[list.len() - 1]);
    let at = projects::view_index(before, last.project_id);
    the_view_is_found(before, last.project_id);
    if i == list.len() - 1 {
        seating_keeps_the_projects(v, list.drop_last(), items, last.project_id);
        let group = projects::top_left(before[at].layout);
        projects::top_left_is_a_group(before[at].layout);
        an_added_tab_is_found(before[at].layout, group, tab, last.id);
        a_tab_in_a_view_is_found(after, at, last.id);
    } else {
        every_session_taken_over_has_a_tab(v, list.drop_last(), items, i);
        let s = list[i].id;
        let k = a_found_tab_is_in_a_view(before, s);
        if k == at {
            let group = projects::top_left(before[at].layout);
            an_added_tab_is_found(before[at].layout, group, tab, s);
        }
        a_tab_in_a_view_is_found(after, k, s);
    }
}

/// The directory of the first terminal of a window that claimed no session: the project's, where it
/// is listed, else the one that the program was started in. `home` stands in for the directory of a
/// project without one.
pub open spec fn cold_directory(
    all: Seq<Project>,
    project: ProjectId,
    home: Seq<char>,
    project_root: Seq<char>,
) -> Seq<char> {
    if projects::project_ids(all).contains(project) {
        projects::start_directory(all, project, home)
    } else {
        project_root
    }
}

/// The terminal that a window opens first once it has claimed the surviving sessions: none where it
/// got one of them, else one of its project, in the returned directory.
pub fn cold_start_terminal(
    claimed: &Vec<SessionSummary>,
    all: &Vec<Project>,
    active_project: ProjectId,
    home: &str,
    project_root: &str,
) -> (r: Option<(ProjectId, String)>)
    ensures
        r is Some <==> claimed@.len() == 0,
        r matches Some(new) ==> new.0 == active_project && new.1@ == cold_directory(
            all@,
            active_project,
            home@,
            project_root@,
        ),
{
    if claimed.len() > 0 {
        return None;
    }
    let ghost ids = projects::project_ids(all@);
    let mut i: usize = 0;
    while i < all.len()
        invariant
            i <= all@.len(),
            ids == projects::project_ids(all@),
            claimed@.len() == 0,
            forall|j: int| 0 <= j < i ==> #[trigger] ids[j] != active_project,
        decreases all@.len() - i,
    {
        if all[i].id == active_project {
            assert(ids[i as int] == active_project);
            return Some((active_project, terminal_directory(all, active_project, home)));
        }
        i = i + 1;
    }
    Some((active_project, project_root.to_owned()))
}

// ---------------------------------------------------------------------------
// Claiming a detached session
// ---------------------------------------------------------------------------

/// The project that a claimed session lands in: its own where the window shows it, else the active
/// one.
pub open spec fn target(
    v: Seq<projects::Shown>,
    session_project: ProjectId,
    active_project: ProjectId,
) -> ProjectId {
    if projects::has_view(v, session_project) {
        session_project
    } else {
        active_project
    }
}

/// The project that a claimed session lands in.
pub fn claim_target(
    views: &Vec<WindowProjectView>,
    session_project: ProjectId,
    active_project: ProjectId,
) -> (r: ProjectId)
    ensures
        r == target(projects::all_shown(views@), session_project, active_project),
{
    if shows_project(views, session_project) {
        session_project
    } else {
        active_project
    }
}

/// What follows from claiming a session.
pub struct Claimed {
    /// The project that is active from now on.
    pub active_project: ProjectId,
    /// Whether the popover with the detached sessions is open.
    pub popover_open: bool,
    /// Whether a tab of the session is shown now and has the keyboard.
    pub shown: bool,
}

/// The views once the session has got a tab in the project's view, which is shown.
pub open spec fn claimed_views(
    v: Seq<projects::Shown>,
    project: ProjectId,
    s: SessionSummary,
    tab: ItemId,
    id: SessionId,
) -> Seq<projects::Shown> {
    projects::activated(projects::joined(v, project, tab_for(s, tab)), project, id)
}

impl WindowSessions {
    /// The detached session `id` was claimed and is `session` now. It gets a tab, with the given id,
    /// in the active group of its project's view, or of the active project's where the window does
    /// not show its own. It is the window's from now on and no longer detached, and the popover that
    /// lists the detached ones closes with the last. The project becomes the active one, and the
    /// session's tab is shown.
    pub fn claim_detached_session(
        &mut self,
        id: SessionId,
        session: SessionSummary,
        tab: ItemId,
        active_project: ProjectId,
        popover_open: bool,
    ) -> (r: Claimed)
        ensures
            ({
                let shown = projects::all_shown(old(self).views@);
                let project = target(shown, session.project_id, active_project);
                &&& r.active_project == project
                &&& projects::all_shown(final(self).views@) == claimed_views(
                    shown,
                    project,
                    session,
                    tab,
                    id,
                )
                &&& r.shown == projects::is_tabbed(
                    projects::joined(shown, project, tab_for(session, tab)),
                    project,
                    id,
                )
                &&& final(self).sessions@ == old(self).sessions@.push(session)
                &&& sessions::session_list(final(self).detached@) == sessions::session_list(
                    sessions::without(old(self).detached@, id),
                )
                &&& r.popover_open == (popover_open && final(self).detached@.len() > 0)
            }),
    {
        let project: ProjectId = claim_target(&self.views, session.project_id, active_project);
        let new: TabItem = TabItem {
            id: tab,
            kind: ItemKind::Terminal,
            title: session.title.clone(),
            session_id: Some(session.id),
        };
        assert(projects::item(new) == tab_for(session, tab));
        join_active_group(&mut self.views, project, new);
        self.sessions.push(session);
        let open: bool = drop_detached_session(&mut self.detached, id, popover_open);
        let shown: bool = activate_session(&mut self.views, project, id);
        Claimed { active_project: project, popover_open: open, shown }
    }
}

impl WindowSessions {
    /// Takes over a terminal that was newly made in the active project: it gets a tab, with the given
    /// id, at the end of the group, which is shown and has the keyboard, and it is the window's.
    pub fn new_terminal(
        &mut self,
        session: SessionSummary,
        group_id: GroupId,
        tab: ItemId,
        active_project: ProjectId,
    )
        ensures
            projects::all_shown(final(self).views@) == projects::opened(
                projects::all_shown(old(self).views@),
                active_project,
                group_id,
                tab_for(session, tab),
            ),
            final(self).sessions@ == old(self).sessions@.push(session),
            final(self).detached == old(self).detached,
    {
        let new: TabItem = TabItem {
            id: tab,
            kind: ItemKind::Terminal,
            title: session.title.clone(),
            session_id: Some(session.id),
        };
        assert(projects::item(new) == tab_for(session, tab));
        open_in_group(&mut self.views, active_project, group_id, new);
        self.sessions.push(session);
    }
}

/// A claimed session has a tab in the view of the project that becomes active, and it is shown, where
/// the window shows that project and the view's active group is one of its groups. The window no
/// longer lists it as detached.
pub proof fn a_claimed_session_is_shown(
    v: Seq<projects::Shown>,
    project: ProjectId,
    s: SessionSummary,
    tab: ItemId,
    detached: Seq<SessionSummary>,
)
    requires
        projects::has_view(v, project),
        ({
            let i = projects::view_index(v, project);
            projects::has_group(v[i].layout, v[i].active)
        }),
    ensures
        projects::is_tabbed(projects::joined(v, project, tab_for(s, tab)), project, s.id),
        projects::is_tabbed(claimed_views(v, project, s, tab, s.id), project, s.id),
        !sessions::ids(sessions::without(detached, s.id)).contains(s.id),
{
    let i = projects::view_index(v, project);
    the_view_is_found(v, project);
    let new = tab_for(s, tab);
    let with = projects::joined(v, project, new);
    let group = v[i].active;
    an_added_tab_is_found(v[i].layout, group, new, s.id);
    the_same_projects_have_the_same_views(v, with, project);
    let (g, x) = projects::place_of(projects::leaves(with[i].layout), s.id)->0;
    projects::showing_a_tab_moves_none(with[i].layout, g, x, s.id);
    let after = claimed_views(v, project, s, tab, s.id);
    the_same_projects_have_the_same_views(with, after, project);
    let keep = |c: SessionSummary| c.id != s.id;
    let left = sessions::without(detached, s.id);
    if sessions::ids(left).contains(s.id) {
        let k = sessions::ids(left).index_of(s.id);
        sessions::filter_comes_from(detached, keep, k);
    }
}

proof fn the_same_projects_have_the_same_views(
    v: Seq<projects::Shown>,
    w: Seq<projects::Shown>,
    p: ProjectId,
)
    requires
        v.len() == w.len(),
        forall|k: int| 0 <= k < v.len() ==> (#[trigger] v[k]).project == w[k].project,
    ensures
        projects::view_index(v, p) == projects::view_index(w, p),
    decreases v.len(),
{
    if v.len() > 0 && v[0].project != p {
        assert forall|k: int| 0 <= k < v.skip(1).len() implies (#[trigger] v.skip(1)[k]).project
            == w.skip(1)[k].project by {
            assert(v[k + 1].project == w[k + 1].project);
        }
        the_same_projects_have_the_same_views(v.skip(1), w.skip(1), p);
    }
}

// ---------------------------------------------------------------------------
// What is kept of each session
// ---------------------------------------------------------------------------

/// All that a window keeps of its sessions beside their tabs.
pub struct SessionTraces {
    /// The window's own sessions.
    pub sessions: Vec<SessionSummary>,
    /// Who was told of the focus.
    pub focus: FocusState,
    /// The revisions of the screens that are held.
    pub snapshots: HashMap<SessionId, u64>,
    /// The sizes.
    pub resizes: Resizes,
    /// The text that is being composed.
    pub compositions: HashMap<SessionId, TerminalImeState>,
    /// The link under the pointer.
    pub hovered: Option<HoveredLink>,
    /// What was found out about the processes.
    pub inspections: HashMap<SessionId, SessionInspection>,
    /// Why nothing could be found out.
    pub inspection_errors: HashMap<SessionId, String>,
}

/// The session's screen, size, composed text and inspection are forgotten, and nothing else.
pub open spec fn forgets(a: SessionTraces, b: SessionTraces, id: SessionId) -> bool {
    &&& b.focus == (FocusState {
        focused: if a.focus.focused == Some(id) {
            None
        } else {
            a.focus.focused
        },
        ..a.focus
    })
    &&& b.snapshots@ == a.snapshots@.remove(id)
    &&& terminals::others_untouched(a.resizes, b.resizes, id)
    &&& terminals::wanted(b.resizes, id) is None
    &&& terminals::in_flight(b.resizes, id) is None
    &&& b.compositions@ == a.compositions@.remove(id)
    &&& b.inspections@ == a.inspections@.remove(id)
    &&& b.inspection_errors@ == a.inspection_errors@.remove(id)
}

/// The session's summary and a link of it under the pointer are forgotten, and nothing else.
pub open spec fn drops(a: SessionTraces, b: SessionTraces, id: SessionId) -> bool {
    &&& sessions::session_list(b.sessions@) == sessions::session_list(
        sessions::without(a.sessions@, id),
    )
    &&& b.hovered == (match a.hovered {
        Some(h) => if h.session_id == id {
            None
        } else {
            Some(h)
        },
        None => None,
    })
}

impl SessionTraces {
    /// Something is kept of the session.
    pub open spec fn knows(&self, id: SessionId) -> bool {
        ||| sessions::ids(self.sessions@).contains(id)
        ||| self.focus.focused == Some(id)
        ||| self.snapshots@.contains_key(id)
        ||| terminals::wanted(self.resizes, id) is Some
        ||| terminals::in_flight(self.resizes, id) is Some
        ||| self.compositions@.contains_key(id)
        ||| (self.hovered matches Some(h) && h.session_id == id)
        ||| self.inspections@.contains_key(id)
        ||| self.inspection_errors@.contains_key(id)
    }

    fn forget(&mut self, id: SessionId)
        ensures
            forgets(*old(self), *final(self), id),
            final(self).sessions == old(self).sessions,
            final(self).hovered == old(self).hovered,
    {
        self.focus.forget(id);
        let screen: Option<u64> = self.snapshots.remove(&id);
        self.resizes.forget(id);
        let composed: Option<TerminalImeState> = self.compositions.remove(&id);
        let found: Option<SessionInspection> = self.inspections.remove(&id);
        let error: Option<String> = self.inspection_errors.remove(&id);
    }

    /// Finds every tab of a session that the window no longer has; the caller takes them out of the
    /// layouts. Where there is one, what was kept of the session is forgotten: its summary goes
    /// with the list, and a link under the pointer with the next move.
    pub fn prune_session_from_layouts(
        &mut self,
        views: &Vec<WindowProjectView>,
        id: SessionId,
    ) -> (r: Vec<(ProjectId, GroupId, ItemId)>)
        ensures
            r@ == projects::tabs_of_session(projects::all_shown(views@), id),
            r@.len() > 0 ==> forgets(*old(self), *final(self), id) && final(self).sessions
                == old(self).sessions && final(self).hovered == old(self).hovered,
            r@.len() == 0 ==> *final(self) == *old(self),
    {
        let tabs: Vec<(ProjectId, GroupId, ItemId)> = tabs_to_prune(views, id);
        if tabs.len() > 0 {
            self.forget(id);
        }
        tabs
    }

    /// Forgets a session whose tab was closed.
    pub fn close_session(&mut self, id: SessionId)
        ensures
            forgets(*old(self), *final(self), id),
            drops(*old(self), *final(self), id),
    {
        self.forget(id);
        remove_session(&mut self.sessions, id);
        forget_hovered_link(&mut self.hovered, id);
    }
}

/// What came of looking at the processes of a session.
#[derive(Clone, Debug)]
pub enum InspectionReply {
    /// What was found.
    Inspected(SessionInspection),
    /// An answer to something else, in words.
    Unexpected(String),
    /// No answer; why not.
    Failed(String),
}

/// What is shown instead of the processes after such a reply.
pub open spec fn inspection_message(reply: InspectionReply) -> Option<Seq<char>> {
    match reply {
        InspectionReply::Inspected(_) => None,
        InspectionReply::Unexpected(answer) => Some(
            "unexpected session-inspection response: "@ + answer@,
        ),
        InspectionReply::Failed(error) => Some("session inspection failed: "@ + error@),
    }
}

/// The inspection says something new of the session, or an error goes away.
pub open spec fn is_news(t: SessionTraces, id: SessionId, found: SessionInspection) -> bool {
    t.inspection_errors@.contains_key(id) || !(t.inspections@.contains_key(id)
        && processes::same_findings(t.inspections@[id], found))
}

impl SessionTraces {
    /// Takes what came of looking at the processes of a session. What was found replaces what was
    /// known, and takes an earlier error away; an error stays beside what was known. Returns
    /// whether the window has to be drawn again.
    pub fn take_inspection(&mut self, id: SessionId, reply: InspectionReply) -> (r: bool)
        ensures
            final(self).sessions == old(self).sessions,
            final(self).focus == old(self).focus,
            final(self).snapshots == old(self).snapshots,
            final(self).resizes == old(self).resizes,
            final(self).compositions == old(self).compositions,
            final(self).hovered == old(self).hovered,
            match reply {
                InspectionReply::Inspected(found) => {
                    &&& r == is_news(*old(self), id, found)
                    &&& final(self).inspection_errors@ == old(self).inspection_errors@.remove(id)
                    &&& final(self).inspections@ == (if r {
                        old(self).inspections@.insert(id, found)
                    } else {
                        old(self).inspections@
                    })
                },
                _ => {
                    &&& r
                    &&& final(self).inspections@ == old(self).inspections@
                    &&& final(self).inspection_errors@.contains_key(id)
                    &&& Some(final(self).inspection_errors@[id]@) == inspection_message(reply)
                    &&& final(self).inspection_errors@.remove(id)
                        == old(self).inspection_errors@.remove(id)
                },
            },
    {
        let message: String = match reply {
            InspectionReply::Inspected(found) => {
                let error: Option<String> = self.inspection_errors.remove(&id);
                let known: bool = match self.inspections.get(&id) {
                    Some(held) => same_inspection(held, &found),
                    None => false,
                };
                let news: bool = error.is_some() || !known;
                if news {
                    self.inspections.insert(id, found);
                }
                return news;
            },
            InspectionReply::Unexpected(answer) => {
                let mut m: String = "unexpected session-inspection response: ".to_owned();
                m.append(answer.as_str());
                m
            },
            InspectionReply::Failed(error) => {
                let mut m: String = "session inspection failed: ".to_owned();
                m.append(error.as_str());
                m
            },
        };
        self.inspection_errors.insert(id, message);
        assert(self.inspection_errors@.remove(id) =~= old(self).inspection_errors@.remove(id));
        true
    }
}

/// Once the tabs of a session are pruned, neither its screen, size, composed text nor inspection is
/// kept, and it is not the one that was told of the focus. What is kept of another session stays.
pub proof fn a_pruned_session_is_forgotten(
    a: SessionTraces,
    b: SessionTraces,
    id: SessionId,
    other: SessionId,
)
    requires
        forgets(a, b, id),
        other != id,
    ensures
        b.focus.focused != Some(id),
        !b.snapshots@.contains_key(id),
        terminals::wanted(b.resizes, id) is None && terminals::in_flight(b.resizes, id) is None,
        !b.compositions@.contains_key(id),
        !b.inspections@.contains_key(id) && !b.inspection_errors@.contains_key(id),
        a.focus.focused == Some(other) <==> b.focus.focused == Some(other),
        b.snapshots@.contains_key(other) == a.snapshots@.contains_key(other),
        b.snapshots@[other] == a.snapshots@[other],
        terminals::wanted(b.resizes, other) == terminals::wanted(a.resizes, other),
        terminals::in_flight(b.resizes, other) == terminals::in_flight(a.resizes, other),
        b.compositions@.contains_key(other) == a.compositions@.contains_key(other),
        b.compositions@[other] == a.compositions@[other],
        b.inspections@.contains_key(other) == a.inspections@.contains_key(other),
        b.inspections@[other] == a.inspections@[other],
        b.inspection_errors@.contains_key(other) == a.inspection_errors@.contains_key(other),
        b.inspection_errors@[other] == a.inspection_errors@[other],
{
    assert(terminals::wanted(a.resizes, other) == terminals::wanted(b.resizes, other));
}

/// A session whose tab was closed leaves nothing behind, and what is kept of the other sessions
/// stays.
pub proof fn a_closed_session_leaves_no_trace(
    a: SessionTraces,
    b: SessionTraces,
    id: SessionId,
    other: SessionId,
)
    requires
        forgets(a, b, id),
        drops(a, b, id),
        other != id,
    ensures
        !b.knows(id),
        b.knows(other) == a.knows(other),
{
    let keep = |s: SessionSummary| s.id != id;
    let kept = sessions::without(a.sessions@, id);
    assert(sessions::ids(b.sessions@) =~= listed_ids(sessions::session_list(b.sessions@)));
    assert(sessions::ids(kept) =~= listed_ids(sessions::session_list(kept)));
    assert(sessions::ids(b.sessions@) == sessions::ids(kept));
    a.sessions@.filter_lemma(keep);
    if sessions::ids(kept).contains(id) {
        let k = sessions::ids(kept).index_of(id);
        assert(keep(kept[k]));
    }
    if sessions::ids(kept).contains(other) {
        let k = sessions::ids(kept).index_of(other);
        assert(a.sessions@.contains(kept[k])) by {
            sessions::filter_comes_from(a.sessions@, keep, k);
        }
        let j = a.sessions@.index_of(kept[k]);
        assert(sessions::ids(a.sessions@)[j] == other);
    }
    if sessions::ids(a.sessions@).contains(other) {
        let j = sessions::ids(a.sessions@).index_of(other);
        assert(keep(a.sessions@[j]));
        assert(kept.contains(a.sessions@[j]));
        let k = kept.index_of(a.sessions@[j]);
        assert(sessions::ids(kept)[k] == other);
    }
    assert(terminals::wanted(a.resizes, other) == terminals::wanted(b.resizes, other));
}

/// A new title reaches every view; which project a view shows and which group is in front stay.
pub proof fn a_title_reaches_every_view(
    v: Seq<projects::Shown>,
    id: SessionId,
    title: Seq<char>,
    k: int,
)
    requires
        0 <= k < v.len(),
    ensures
        retitled_views(v, id, title).len() == v.len(),
        retitled_views(v, id, title)[k].project == v[k].project,
        retitled_views(v, id, title)[k].active == v[k].active,
        retitled_views(v, id, title)[k].layout == projects::retitled(v[k].layout, id, title),
{
}

/// The titles of a list are handed on one after the other.
pub proof fn titles_are_handed_on_one_by_one(
    v: Seq<sessions::Session>,
    w: Seq<projects::Shown>,
    named: Seq<sessions::Session>,
    s: sessions::Session,
)
    ensures
        synced_list(v, seq![]) == v,
        synced_views(w, seq![]) == w,
        synced_list(v, named.push(s)) == sessions::retitled(synced_list(v, named), s.id, s.title),
        synced_views(w, named.push(s)) == retitled_views(synced_views(w, named), s.id, s.title),
{
    assert(named.push(s).drop_last() =~= named);
    assert(named.push(s).last() == s);
}

/// The window takes over the list that it is handed: its own is like it afterwards, title for title.
pub proof fn the_list_is_taken_over(had: Seq<sessions::Session>, named: Seq<sessions::Session>, i: int)
    ensures
        followed(had, named).len() == named.len(),
        0 <= i < named.len() ==> sessions::alike(followed(had, named)[i], named[i]),
        0 <= i < named.len() ==> followed(had, named)[i].title == named[i].title,
{
    if 0 <= i < named.len() {
        sessions::sessions_are_alike_in_all_parts(named[i], named[i]);
        sessions::sessions_are_alike_in_all_parts(followed(had, named)[i], named[i]);
    }
}

/// Where no title is news, neither the list nor a tab changes; a single title is news exactly where one of
/// them does.
pub proof fn titles_are_news_where_something_changes(
    v: Seq<sessions::Session>,
    w: Seq<projects::Shown>,
    named: Seq<sessions::Session>,
    s: sessions::Session,
)
    ensures
        !some_title_is_new(v, w, named) ==> synced_list(v, named) == v && synced_views(w, named)
            == w,
        some_title_is_new(v, w, seq![s]) <==> sessions::retitled(v, s.id, s.title) != v
            || retitled_views(w, s.id, s.title) != w,
    decreases named.len(),
{
    let one = seq![s];
    assert(one.drop_last() =~= seq![]);
    assert(one.last() == s);
    assert(synced_list(v, one.drop_last()) == v);
    assert(synced_views(w, one.drop_last()) == w);
    assert(!some_title_is_new(v, w, one.drop_last()));
    if named.len() > 0 {
        titles_are_news_where_something_changes(v, w, named.drop_last(), s);
    }
}

/// The ids of a list stand in its order.
pub proof fn listed_ids_stand_in_order(v: Seq<sessions::Session>, i: int)
    requires
        0 <= i < v.len(),
    ensures
        listed_ids(v).len() == v.len(),
        listed_ids(v)[i] == v[i].id,
{
}

/// The tab of a session is a terminal with the title of the session.
pub proof fn a_session_has_a_terminal_tab(s: SessionSummary, id: ItemId)
    ensures
        tab_for(s, id).id == id,
        tab_for(s, id).kind == ItemKind::Terminal,
        tab_for(s, id).title == s.title@,
        tab_for(s, id).session == Some(s.id),
{
}

/// The sessions that are taken over get their tabs one after the other, each in its own project and with
/// its own id.
pub proof fn sessions_are_seated_one_by_one(
    v: Seq<projects::Shown>,
    list: Seq<SessionSummary>,
    items: Seq<ItemId>,
    s: SessionSummary,
)
    ensures
        seated(v, seq![], items) == v,
        seated(v, list.push(s), items) == projects::placed(
            seated(v, list, items),
            s.project_id,
            projects::Item {
                id: items[list.len() as int],
                kind: ItemKind::Terminal,
                title: s.title@,
                session: Some(s.id),
            },
        ),
{
    assert(list.push(s).drop_last() =~= list);
    assert(list.push(s).last() == s);
}

/// The first terminal of a window starts in the directory of its project where that is listed, and else in
/// the directory for which the window was opened.
pub proof fn the_first_terminal_has_a_directory(
    all: Seq<Project>,
    project: ProjectId,
    home: Seq<char>,
    project_root: Seq<char>,
    i: int,
)
    ensures
        0 <= i < all.len() && all[i].id == project ==> cold_directory(
            all,
            project,
            home,
            project_root,
        ) == projects::start_directory(all, project, home),
        (forall|j: int| 0 <= j < all.len() ==> (#[trigger] all[j]).id != project) ==> cold_directory(
            all,
            project,
            home,
            project_root,
        ) == project_root,
{
    let listed = projects::project_ids(all);
    if 0 <= i < all.len() && all[i].id == project {
        assert(listed[i] == project);
    }
    if listed.contains(project) {
        let j = listed.index_of(project);
        assert(all[j].id == project);
    }
}

/// A session is claimed into its own project where the window shows that, and else into the one in front.
pub proof fn a_session_is_claimed_into_its_project(
    v: Seq<projects::Shown>,
    own: ProjectId,
    front: ProjectId,
    i: int,
)
    ensures
        0 <= i < v.len() && v[i].project == own ==> target(v, own, front) == own,
        (forall|j: int| 0 <= j < v.len() ==> (#[trigger] v[j]).project != own) ==> target(
            v,
            own,
            front,
        ) == front,
{
}

/// A claimed session gets a terminal tab in the active group, and is shown.
pub proof fn a_claimed_session_gets_a_tab(
    v: Seq<projects::Shown>,
    project: ProjectId,
    s: SessionSummary,
    tab: ItemId,
    id: SessionId,
)
    ensures
        claimed_views(v, project, s, tab, id) == projects::activated(
            projects::joined(
                v,
                project,
                projects::Item {
                    id: tab,
                    kind: ItemKind::Terminal,
                    title: s.title@,
                    session: Some(s.id),
                },
            ),
            project,
            id,
        ),
{
}

/// An inspection that went wrong is told with the answer or the error; one that went right is not.
pub proof fn a_failed_inspection_is_told(reply: InspectionReply)
    ensures
        reply is Inspected <==> inspection_message(reply) is None,
        reply matches InspectionReply::Unexpected(answer) ==> inspection_message(reply) == Some(
            "unexpected session-inspection response: "@ + answer@,
        ),
        reply matches InspectionReply::Failed(error) ==> inspection_message(reply) == Some(
            "session inspection failed: "@ + error@,
        ),
{
}

/// Findings are news where the last inspection failed, where there was none, or where they differ.
pub proof fn findings_are_news_where_they_differ(
    t: SessionTraces,
    id: SessionId,
    found: SessionInspection,
)
    ensures
        t.inspection_errors@.contains_key(id) ==> is_news(t, id, found),
        !t.inspections@.contains_key(id) ==> is_news(t, id, found),
        !t.inspection_errors@.contains_key(id) && t.inspections@.contains_key(id) ==> (is_news(
            t,
            id,
            found,
        ) <==> !processes::same_findings(t.inspections@[id], found)),
{
}

} // verus!
