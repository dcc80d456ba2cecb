//! The terminal sessions of a window: which are its own, which are detached, and what follows
//! when the list of sessions changes.

use vstd::prelude::*;
use crate::i18n;
use crate::i18n::Language;
use crate::layout::{ProjectId, SessionId, WindowId};
use crate::paths;
use crate::paths::same_path;
use crate::ids;
use crate::text;

verus! {

/// A session as the daemon reports it. `reported_local` says whether the place that the shell
/// reported is on this machine, where it reported one; the process is the one in front.
#[derive(Clone, Debug)]
pub struct SessionSummary {
    pub id: SessionId,
    pub project_id: ProjectId,
    pub window_id: Option<WindowId>,
    pub title: String,
    pub initial_directory: String,
    pub current_directory: String,
    pub reported_local: Option<bool>,
    pub process_name: String,
    pub process_pid: u32,
}

/// A session as a mathematical value.
pub struct Session {
    pub id: SessionId,
    pub project_id: ProjectId,
    pub window_id: Option<WindowId>,
    pub title: Seq<char>,
    pub initial_directory: Seq<char>,
    pub current_directory: Seq<char>,
    pub reported_local: Option<bool>,
    pub process_name: Seq<char>,
    pub process_pid: u32,
}

pub open spec fn session(s: SessionSummary) -> Session {
    Session {
        id: s.id,
        project_id: s.project_id,
        window_id: s.window_id,
        title: s.title@,
        initial_directory: s.initial_directory@,
        current_directory: s.current_directory@,
        reported_local: s.reported_local,
        process_name: s.process_name@,
        process_pid: s.process_pid,
    }
}

pub open spec fn session_list(v: Seq<SessionSummary>) -> Seq<Session> {
    v.map_values(|s: SessionSummary| session(s))
}

/// The ids of the sessions, in order.
pub open spec fn ids(v: Seq<SessionSummary>) -> Seq<SessionId> {
    v.map_values(|s: SessionSummary| s.id)
}

proof fn list_push(v: Seq<SessionSummary>, s: SessionSummary)
    ensures
        session_list(v.push(s)) == session_list(v).push(session(s)),
{
    assert(session_list(v.push(s)) =~= session_list(v).push(session(s)));
}

proof fn filter_push<A>(v: Seq<A>, x: A, keep: spec_fn(A) -> bool)
    ensures
        v.push(x).filter(keep) == (if keep(x) {
            v.filter(keep).push(x)
        } else {
            v.filter(keep)
        }),
{
    reveal(Seq::filter);
    assert(v.push(x).drop_last() =~= v);
}

/// What passes a filter was in the list, and passes.
pub proof fn filter_comes_from<A>(v: Seq<A>, keep: spec_fn(A) -> bool, k: int)
    requires
        0 <= k < v.filter(keep).len(),
    ensures
        keep(v.filter(keep)[k]),
        v.contains(v.filter(keep)[k]),
    decreases v.len(),
{
    v.filter_lemma(keep);
    if v.len() == 0 {
        reveal(Seq::filter);
    } else {
        let head = v.drop_last();
        assert(v =~= head.push(v.last()));
        filter_push(head, v.last(), keep);
        if k < head.filter(keep).len() {
            filter_comes_from(head, keep, k);
            let j = head.index_of(head.filter(keep)[k]);
            assert(v[j] == v.filter(keep)[k]);
        } else {
            assert(v[v.len() - 1] == v.filter(keep)[k]);
        }
    }
}

/// Whether two sessions agree in all that is reported of them. Directories are compared part by
/// part: `/work/` is `/work`.
pub open spec fn alike(a: Session, b: Session) -> bool {
    &&& a.id == b.id
    &&& a.project_id == b.project_id
    &&& a.window_id == b.window_id
    &&& a.title == b.title
    &&& paths::same(a.initial_directory, b.initial_directory)
    &&& paths::same(a.current_directory, b.current_directory)
    &&& a.reported_local == b.reported_local
    &&& a.process_name == b.process_name
    &&& a.process_pid == b.process_pid
}

/// Whether two lists hold sessions that agree, in the same order.
pub open spec fn alike_lists(a: Seq<Session>, b: Seq<Session>) -> bool {
    a.len() == b.len() && forall|i: int| 0 <= i < a.len() ==> alike(#[trigger] a[i], b[i])
}

fn same_session(a: &SessionSummary, b: &SessionSummary) -> (r: bool)
    ensures
        r == alike(session(*a), session(*b)),
{
    a.id == b.id && a.project_id == b.project_id && a.window_id == b.window_id && text::text_eq(
        a.title.as_str(),
        b.title.as_str(),
    ) && same_path(a.initial_directory.as_str(), b.initial_directory.as_str()) && same_path(
        a.current_directory.as_str(),
        b.current_directory.as_str(),
    ) && a.reported_local == b.reported_local && a.process_pid == b.process_pid && text::text_eq(
        a.process_name.as_str(),
        b.process_name.as_str(),
    )
}

/// Whether two lists hold sessions that agree, in the same order.
pub fn same_sessions(a: &Vec<SessionSummary>, b: &Vec<SessionSummary>) -> (r: bool)
    ensures
        r == alike_lists(session_list(a@), session_list(b@)),
{
    let ghost x = session_list(a@);
    let ghost y = session_list(b@);
    if a.len() != b.len() {
        return false;
    }
    let mut i: usize = 0;
    while i < a.len()
        invariant
            i <= a@.len() == b@.len(),
            x == session_list(a@),
            y == session_list(b@),
            forall|j: int| 0 <= j < i ==> alike(#[trigger] x[j], y[j]),
        decreases a@.len() - i,
    {
        if !same_session(&a[i], &b[i]) {
            assert(!alike(x[i as int], y[i as int]));
            return false;
        }
        i = i + 1;
    }
    true
}

/// The ids of the sessions, in order.
pub fn window_session_ids(sessions: &Vec<SessionSummary>) -> (r: Vec<SessionId>)
    ensures
        r@ == ids(sessions@),
{
    let mut r: Vec<SessionId> = Vec::new();
    let mut i: usize = 0;
    while i < sessions.len()
        invariant
            i <= sessions@.len(),
            r@ == ids(sessions@.take(i as int)),
        decreases sessions@.len() - i,
    {
        r.push(sessions[i].id);
        assert(r@ =~= ids(sessions@.take(i + 1)));
        i = i + 1;
    }
    assert(sessions@.take(i as int) =~= sessions@);
    r
}

/// The sessions that belong to the window.
pub open spec fn owned_by(v: Seq<SessionSummary>, window: WindowId) -> Seq<SessionSummary> {
    v.filter(|s: SessionSummary| s.window_id == Some(window))
}

/// The sessions that belong to no window.
pub open spec fn unowned(v: Seq<SessionSummary>) -> Seq<SessionSummary> {
    v.filter(|s: SessionSummary| s.window_id is None)
}

/// Sorts the sessions into those of the window and the detached ones, each in order. Sessions of
/// other windows are left out.
pub fn classify_sessions(sessions: Vec<SessionSummary>, window_id: WindowId) -> (r: (
    Vec<SessionSummary>,
    Vec<SessionSummary>,
))
    ensures
        session_list(r.0@) == session_list(owned_by(sessions@, window_id)),
        session_list(r.1@) == session_list(unowned(sessions@)),
{
    let mut owned: Vec<SessionSummary> = Vec::new();
    let mut detached: Vec<SessionSummary> = Vec::new();
    let ghost mine = |s: SessionSummary| s.window_id == Some(window_id);
    let ghost free = |s: SessionSummary| s.window_id is None;
    let mut i: usize = 0;
    assert(session_list(owned@) =~= session_list(sessions@.take(0).filter(mine)));
    assert(session_list(detached@) =~= session_list(sessions@.take(0).filter(free)));
    while i < sessions.len()
        invariant
            i <= sessions@.len(),
            mine == (|s: SessionSummary| s.window_id == Some(window_id)),
            free == (|s: SessionSummary| s.window_id is None),
            session_list(owned@) == session_list(sessions@.take(i as int).filter(mine)),
            session_list(detached@) == session_list(sessions@.take(i as int).filter(free)),
        decreases sessions@.len() - i,
    {
        let ghost prev = sessions@.take(i as int);
        let copy: SessionSummary = copy_session(&sessions[i]);
        proof {
            assert(sessions@.take(i + 1) =~= prev.push(sessions@[i as int]));
            filter_push(prev, sessions@[i as int], mine);
            filter_push(prev, sessions@[i as int], free);
            list_push(prev.filter(mine), sessions@[i as int]);
            list_push(prev.filter(free), sessions@[i as int]);
            list_push(owned@, copy);
            list_push(detached@, copy);
        }
        match sessions[i].window_id {
            Some(w) => {
                if w == window_id {
                    owned.push(copy);
                }
            },
            None => {
                detached.push(copy);
            },
        }
        i = i + 1;
    }
    assert(sessions@.take(i as int) =~= sessions@);
    (owned, detached)
}

/// A copy of the session.
pub fn copy_session(s: &SessionSummary) -> (r: SessionSummary)
    ensures
        session(r) == session(*s),
        r.id == s.id,
{
    SessionSummary {
        id: s.id,
        project_id: s.project_id,
        window_id: s.window_id,
        title: s.title.clone(),
        initial_directory: s.initial_directory.clone(),
        current_directory: s.current_directory.clone(),
        reported_local: s.reported_local,
        process_name: s.process_name.clone(),
        process_pid: s.process_pid,
    }
}

/// The ids in `a` that are not in `b`, in order.
pub open spec fn missing(a: Seq<SessionId>, b: Seq<SessionId>) -> Seq<SessionId> {
    a.filter(|x: SessionId| !b.contains(x))
}

/// The sessions that the window had and no longer has, in order.
pub fn vanished_sessions(before: &Vec<SessionSummary>, owned: &Vec<SessionSummary>) -> (r: Vec<
    SessionId,
>)
    ensures
        r@ == missing(ids(before@), ids(owned@)),
{
    let had: Vec<SessionId> = window_session_ids(before);
    let has: Vec<SessionId> = window_session_ids(owned);
    ids_missing(&had, &has)
}

/// The ids in `a` that are not in `b`, in order.
pub fn ids_missing(a: &Vec<SessionId>, b: &Vec<SessionId>) -> (r: Vec<SessionId>)
    ensures
        r@ == missing(a@, b@),
{
    let mut r: Vec<SessionId> = Vec::new();
    let ghost keep = |x: SessionId| !b@.contains(x);
    let mut i: usize = 0;
    assert(r@ =~= a@.take(0).filter(keep));
    while i < a.len()
        invariant
            i <= a@.len(),
            keep == (|x: SessionId| !b@.contains(x)),
            r@ == a@.take(i as int).filter(keep),
        decreases a@.len() - i,
    {
        let ghost now = a@.take(i + 1);
        proof {
            reveal(Seq::filter);
            assert(now.drop_last() =~= a@.take(i as int));
        }
        if !ids::contains_id(b, a[i]) {
            r.push(a[i]);
        }
        i = i + 1;
    }
    assert(a@.take(i as int) =~= a@);
    r
}

/// A session is the window's own, detached, or another window's: never two of these. Every
/// session that comes out as the window's own is on the list and belongs to the window, and
/// every detached one is on the list and belongs to none.
pub proof fn classification_is_sound(v: Seq<SessionSummary>, window: WindowId)
    ensures
        forall|k: int|
            0 <= k < owned_by(v, window).len() ==> v.contains(#[trigger] owned_by(v, window)[k])
                && owned_by(v, window)[k].window_id == Some(window),
        forall|k: int|
            0 <= k < unowned(v).len() ==> v.contains(#[trigger] unowned(v)[k])
                && unowned(v)[k].window_id is None,
        forall|k: int|
            0 <= k < v.len() && v[k].window_id == Some(window) ==> owned_by(v, window).contains(
                #[trigger] v[k],
            ),
        forall|k: int|
            0 <= k < v.len() && v[k].window_id is None ==> unowned(v).contains(#[trigger] v[k]),
{
    let mine = |s: SessionSummary| s.window_id == Some(window);
    let free = |s: SessionSummary| s.window_id is None;
    assert forall|k: int| 0 <= k < owned_by(v, window).len() implies v.contains(
        #[trigger] owned_by(v, window)[k],
    ) && owned_by(v, window)[k].window_id == Some(window) by {
        filter_comes_from(v, mine, k);
    }
    assert forall|k: int| 0 <= k < unowned(v).len() implies v.contains(#[trigger] unowned(v)[k])
        && unowned(v)[k].window_id is None by {
        filter_comes_from(v, free, k);
    }
    v.filter_lemma(mine);
    v.filter_lemma(free);
}

/// A session that the window keeps is not among the vanished ones, and every session that it
/// had and does not keep is.
pub proof fn vanished_are_those_not_kept(before: Seq<SessionId>, kept: Seq<SessionId>, x: SessionId)
    ensures
        missing(before, kept).contains(x) <==> before.contains(x) && !kept.contains(x),
{
    let keep = |y: SessionId| !kept.contains(y);
    before.filter_lemma(keep);
    if missing(before, kept).contains(x) {
        let k = missing(before, kept).index_of(x);
        filter_comes_from(before, keep, k);
    }
    if before.contains(x) && !kept.contains(x) {
        let k = before.index_of(x);
        assert(keep(before[k]));
    }
}

/// The surviving sessions that a starting window claims: those of its project, and those that
/// started in the launch directory.
pub open spec fn claimable(
    v: Seq<SessionSummary>,
    project: ProjectId,
    root: Seq<char>,
) -> Seq<SessionId>
    decreases v.len(),
{
    if v.len() == 0 {
        seq![]
    } else {
        let s = v.last();
        if s.project_id == project || paths::same(s.initial_directory@, root) {
            claimable(v.drop_last(), project, root).push(s.id)
        } else {
            claimable(v.drop_last(), project, root)
        }
    }
}

/// The surviving sessions that a starting window claims, in order.
pub fn sessions_to_claim(
    sessions: &Vec<SessionSummary>,
    active_project: ProjectId,
    project_root: &str,
) -> (r: Vec<SessionId>)
    ensures
        r@ == claimable(sessions@, active_project, project_root@),
{
    let mut r: Vec<SessionId> = Vec::new();
    let mut i: usize = 0;
    assert(sessions@.take(0) =~= seq![]);
    while i < sessions.len()
        invariant
            i <= sessions@.len(),
            r@ == claimable(sessions@.take(i as int), active_project, project_root@),
        decreases sessions@.len() - i,
    {
        let ghost now = sessions@.take(i + 1);
        assert(now.drop_last() =~= sessions@.take(i as int));
        if sessions[i].project_id == active_project || same_path(
            sessions[i].initial_directory.as_str(),
            project_root,
        ) {
            r.push(sessions[i].id);
        }
        i = i + 1;
    }
    assert(sessions@.take(i as int) =~= sessions@);
    r
}

/// The list without the sessions that have this id.
pub open spec fn without(v: Seq<SessionSummary>, id: SessionId) -> Seq<SessionSummary> {
    v.filter(|s: SessionSummary| s.id != id)
}

/// Takes the sessions with this id off the list.
pub fn remove_session(sessions: &mut Vec<SessionSummary>, id: SessionId)
    ensures
        session_list(final(sessions)@) == session_list(without(old(sessions)@, id)),
{
    let ghost before = sessions@;
    let ghost keep = |s: SessionSummary| s.id != id;
    let mut kept: Vec<SessionSummary> = Vec::new();
    let mut i: usize = 0;
    assert(session_list(kept@) =~= session_list(before.take(0).filter(keep)));
    while i < sessions.len()
        invariant
            i <= sessions@.len(),
            sessions@ == before,
            keep == (|s: SessionSummary| s.id != id),
            session_list(kept@) == session_list(before.take(i as int).filter(keep)),
        decreases sessions@.len() - i,
    {
        let ghost prev = before.take(i as int);
        let copy: SessionSummary = copy_session(&sessions[i]);
        proof {
            assert(before.take(i + 1) =~= prev.push(before[i as int]));
            filter_push(prev, before[i as int], keep);
            list_push(prev.filter(keep), before[i as int]);
            list_push(kept@, copy);
        }
        if sessions[i].id != id {
            kept.push(copy);
        }
        i = i + 1;
    }
    assert(before.take(i as int) =~= before);
    *sessions = kept;
}

/// Takes a detached session off the list, after it was claimed or terminated. The popover that
/// lists them closes with the last one. Returns whether the popover is open.
pub fn drop_detached_session(
    detached: &mut Vec<SessionSummary>,
    id: SessionId,
    popover_open: bool,
) -> (r: bool)
    ensures
        session_list(final(detached)@) == session_list(without(old(detached)@, id)),
        r == (popover_open && final(detached)@.len() > 0),
{
    remove_session(detached, id);
    popover_open && detached.len() > 0
}

/// The first session with this id.
pub open spec fn session_with(v: Seq<SessionSummary>, id: SessionId) -> Option<SessionSummary>
    decreases v.len(),
{
    if v.len() == 0 {
        None
    } else if v[0].id == id {
        Some(v[0])
    } else {
        session_with(v.skip(1), id)
    }
}

/// The first session with this id.
pub fn find_session(sessions: &Vec<SessionSummary>, id: SessionId) -> (r: Option<&SessionSummary>)
    ensures
        session_with(sessions@, id) == (match r {
            Some(s) => Some(*s),
            None => None,
        }),
{
    let mut i: usize = 0;
    assert(sessions@.skip(0) =~= sessions@);
    while i < sessions.len()
        invariant
            i <= sessions@.len(),
            session_with(sessions@, id) == session_with(sessions@.skip(i as int), id),
        decreases sessions@.len() - i,
    {
        if sessions[i].id == id {
            return Some(&sessions[i]);
        }
        assert(sessions@.skip(i as int).skip(1) =~= sessions@.skip(i + 1));
        i = i + 1;
    }
    None
}

/// The directory that receiving a file starts from: where the session is now, unless the shell
/// reported a place on another machine; then where the session started. The current directory of
/// the program where the session is not known.
pub open spec fn receive_directory(v: Seq<SessionSummary>, id: SessionId) -> Seq<char> {
    match session_with(v, id) {
        Some(s) => if s.reported_local == Some(false) {
            s.initial_directory@
        } else {
            s.current_directory@
        },
        None => "."@,
    }
}

/// The directory that receiving a file starts from.
pub fn file_transfer_directory(sessions: &Vec<SessionSummary>, id: SessionId) -> (r: String)
    ensures
        r@ == receive_directory(sessions@, id),
{
    match find_session(sessions, id) {
        Some(s) => match s.reported_local {
            Some(false) => s.initial_directory.clone(),
            _ => s.current_directory.clone(),
        },
        None => ".".to_owned(),
    }
}

/// Gives the first session with this id a title. Returns whether that changed anything.
pub fn set_session_title(sessions: &mut Vec<SessionSummary>, id: SessionId, title: &str) -> (r:
    bool)
    ensures
        final(sessions)@.len() == old(sessions)@.len(),
        r == (match session_with(old(sessions)@, id) {
            Some(s) => s.title@ != title@,
            None => false,
        }),
        session_list(final(sessions)@) == retitled(session_list(old(sessions)@), id, title@),
{
    let ghost before = sessions@;
    let mut i: usize = 0;
    assert(before.skip(0) =~= before);
    assert(retitled(session_list(before), id, title@) =~= session_list(before.take(0)) + retitled(
        session_list(before.skip(0)),
        id,
        title@,
    ));
    while i < sessions.len()
        invariant
            i <= sessions@.len(),
            sessions@ == before,
            before == old(sessions)@,
            session_with(before, id) == session_with(before.skip(i as int), id),
            retitled(session_list(before), id, title@) == session_list(before.take(i as int))
                + retitled(session_list(before.skip(i as int)), id, title@),
        decreases sessions@.len() - i,
    {
        let ghost rest = session_list(before.skip(i as int));
        assert(rest[0] == session(before[i as int]));
        assert(rest.skip(1) =~= session_list(before.skip(i + 1)));
        assert(before.skip(i as int).skip(1) =~= before.skip(i + 1));
        if sessions[i].id == id {
            let changed: bool = !text::text_eq(sessions[i].title.as_str(), title);
            if changed {
                let s: &SessionSummary = &sessions[i];
                let next: SessionSummary = SessionSummary {
                    id: s.id,
                    project_id: s.project_id,
                    window_id: s.window_id,
                    title: title.to_owned(),
                    initial_directory: s.initial_directory.clone(),
                    current_directory: s.current_directory.clone(),
                    reported_local: s.reported_local,
                    process_name: s.process_name.clone(),
                    process_pid: s.process_pid,
                };
                sessions.set(i, next);
            }
            assert(session_list(sessions@) =~= session_list(before.take(i as int)) + retitled(
                rest,
                id,
                title@,
            ));
            return changed;
        }
        assert(session_list(before.take(i + 1)) + retitled(rest.skip(1), id, title@)
            =~= session_list(before.take(i as int)) + retitled(rest, id, title@));
        i = i + 1;
    }
    assert(session_list(before) =~= session_list(before.take(i as int)) + retitled(
        session_list(before.skip(i as int)),
        id,
        title@,
    ));
    false
}

/// The list with the title of the first session that has this id replaced.
pub open spec fn retitled(v: Seq<Session>, id: SessionId, title: Seq<char>) -> Seq<Session>
    decreases v.len(),
{
    if v.len() == 0 {
        v
    } else if v[0].id == id {
        seq![Session { title, ..v[0] }] + v.skip(1)
    } else {
        seq![v[0]] + retitled(v.skip(1), id, title)
    }
}

/// What closing a window asks first.
#[derive(Clone, Copy, Debug, PartialEq, Eq, Structural)]
pub enum CloseChoice {
    TerminateAll,
    Detach,
    Cancel,
}

/// Whether closing the window has to be confirmed: not where it is already closing, nor where it
/// has no sessions.
pub fn close_needs_confirmation(closing: bool, sessions: &Vec<SessionSummary>) -> (r: bool)
    ensures
        r == (!closing && sessions@.len() > 0),
{
    !closing && sessions.len() > 0
}

/// What a choice of the closing dialog means, by its position.
pub fn close_choice(position: usize) -> (r: CloseChoice)
    ensures
        r == (if position == 0 {
            CloseChoice::TerminateAll
        } else if position == 2 {
            CloseChoice::Cancel
        } else {
            CloseChoice::Detach
        }),
{
    if position == 0 {
        CloseChoice::TerminateAll
    } else if position == 2 {
        CloseChoice::Cancel
    } else {
        CloseChoice::Detach
    }
}

/// What is asked before a window with sessions closes. The choices stand in the order of their
/// positions.
#[derive(Clone, Copy, Debug, PartialEq, Eq)]
pub struct CloseDialog {
    pub title: &'static str,
    pub message: &'static str,
    pub terminate_all: &'static str,
    pub detach: &'static str,
    pub cancel: &'static str,
}

/// What is asked before a window with sessions closes.
pub fn close_dialog(language: Language) -> (r: CloseDialog)
    ensures
        r.title@ == i18n::pick(language, "Close this Eggie window?"@, "关闭此 Eggie 窗口？"@),
        r.message@ == i18n::pick(
            language,
            "Choose whether its terminal sessions should terminate or stay attached to the daemon."@,
            "选择其终端会话应终止还是保持连接到守护进程。"@,
        ),
        r.terminate_all@ == i18n::pick(language, "Terminate All"@, "全部终止"@),
        r.detach@ == i18n::pick(language, "Detach"@, "分离"@),
        r.cancel@ == i18n::pick(language, "Cancel"@, "取消"@),
{
    CloseDialog {
        title: language.close_window_title(),
        message: language.close_window_message(),
        terminate_all: language.terminate_all(),
        detach: language.detach(),
        cancel: language.cancel(),
    }
}

/// What follows from a choice of the closing dialog.
#[derive(Clone, Debug)]
pub struct CloseStep {
    /// The sessions to terminate.
    pub terminate: Vec<SessionId>,
    /// Whether the sessions of the window are left without a window.
    pub detach: bool,
    /// Whether the window closes.
    pub close: bool,
}

/// What follows from a choice of the closing dialog: all sessions of the window are terminated, or
/// they are left without a window, and the window closes; or nothing follows.
pub fn close_step(choice: CloseChoice, sessions: &Vec<SessionSummary>) -> (r: CloseStep)
    ensures
        r.terminate@ == (if choice is TerminateAll {
            ids(sessions@)
        } else {
            seq![]
        }),
        r.detach == (choice is Detach),
        r.close == !(choice is Cancel),
{
    match choice {
        CloseChoice::TerminateAll => CloseStep {
            terminate: window_session_ids(sessions),
            detach: false,
            close: true,
        },
        CloseChoice::Detach => CloseStep { terminate: Vec::new(), detach: true, close: true },
        CloseChoice::Cancel => CloseStep { terminate: Vec::new(), detach: false, close: false },
    }
}

/// Whether the watch of a session's progress or requests goes on: as long as the window has it.
pub fn keeps_watching(sessions: &Vec<SessionSummary>, id: SessionId) -> (r: bool)
    ensures
        r == ids(sessions@).contains(id),
{
    let all: Vec<SessionId> = window_session_ids(sessions);
    ids::contains_id(&all, id)
}

/// A session is told by all of its parts: two that are told the same have the same parts.
pub proof fn a_session_is_told_by_its_parts(a: SessionSummary, b: SessionSummary)
    requires
        session(a) == session(b),
    ensures
        a.id == b.id,
        a.project_id == b.project_id,
        a.window_id == b.window_id,
        a.title@ == b.title@,
        a.initial_directory@ == b.initial_directory@,
        a.current_directory@ == b.current_directory@,
        a.reported_local == b.reported_local,
        a.process_name@ == b.process_name@,
        a.process_pid == b.process_pid,
{
}

/// A list of sessions has their ids in its order.
pub proof fn ids_stand_in_order(v: Seq<SessionSummary>, i: int)
    requires
        0 <= i < v.len(),
    ensures
        ids(v).len() == v.len(),
        ids(v)[i] == v[i].id,
        session_list(v).len() == v.len(),
        session_list(v)[i].id == v[i].id,
        session_list(v)[i].title == v[i].title@,
{
}

/// Two sessions are alike only where all of their parts are; only the directories may be written
/// differently. Every session is like itself.
pub proof fn sessions_are_alike_in_all_parts(a: Session, b: Session)
    ensures
        alike(a, b) ==> a.id == b.id && a.project_id == b.project_id && a.window_id == b.window_id
            && a.title == b.title && a.reported_local == b.reported_local && a.process_name
            == b.process_name && a.process_pid == b.process_pid && paths::same(
            a.initial_directory,
            b.initial_directory,
        ) && paths::same(a.current_directory, b.current_directory),
        alike(a, a),
        alike_lists(seq![a], seq![b]) <==> alike(a, b),
        !alike_lists(seq![a], seq![]),
{
    let x = seq![a];
    let y = seq![b];
    assert(x[0] == a && y[0] == b);
}

/// A session can be claimed exactly where it belongs to the project or was started in its directory.
pub proof fn sessions_of_the_project_can_be_claimed(
    v: Seq<SessionSummary>,
    project: ProjectId,
    root: Seq<char>,
    id: SessionId,
)
    ensures
        claimable(v, project, root).contains(id) <==> exists|i: int|
            0 <= i < v.len() && (#[trigger] v[i]).id == id && (v[i].project_id == project
                || paths::same(v[i].initial_directory@, root)),
    decreases v.len(),
{
    let all = claimable(v, project, root);
    if v.len() > 0 {
        let head = v.drop_last();
        let rest = claimable(head, project, root);
        sessions_of_the_project_can_be_claimed(head, project, root, id);
        let s = v.last();
        assert(v[v.len() - 1] == s);
        if rest.contains(id) {
            let k = rest.index_of(id);
            assert(all[k] == id);
            let i = choose|i: int|
                0 <= i < head.len() && (#[trigger] head[i]).id == id && (head[i].project_id
                    == project || paths::same(head[i].initial_directory@, root));
            assert(v[i] == head[i]);
        }
        if all.contains(id) {
            let k = all.index_of(id);
            if k < rest.len() {
                assert(rest[k] == id);
            } else {
                assert(v[v.len() - 1].id == id);
            }
        }
        if exists|i: int|
            0 <= i < v.len() && (#[trigger] v[i]).id == id && (v[i].project_id == project
                || paths::same(v[i].initial_directory@, root)) {
            let i = choose|i: int|
                0 <= i < v.len() && (#[trigger] v[i]).id == id && (v[i].project_id == project
                    || paths::same(v[i].initial_directory@, root));
            if i < head.len() {
                assert(head[i] == v[i]);
            } else {
                assert(all[rest.len() as int] == id);
            }
        }
    }
}

proof fn filter_has<A>(v: Seq<A>, keep: spec_fn(A) -> bool, x: A)
    ensures
        v.filter(keep).contains(x) <==> v.contains(x) && keep(x),
    decreases v.len(),
{
    let f = v.filter(keep);
    reveal(Seq::filter);
    if v.len() > 0 {
        let head = v.drop_last();
        filter_has(head, keep, x);
        let h = head.filter(keep);
        if h.contains(x) {
            let k = h.index_of(x);
            assert(f[k] == x);
            let j = head.index_of(x);
            assert(v[j] == x);
        }
        if f.contains(x) {
            let k = f.index_of(x);
            if k < h.len() {
                assert(h[k] == x);
            } else {
                assert(v[v.len() - 1] == x);
            }
        }
        if v.contains(x) && keep(x) {
            let j = v.index_of(x);
            if j < head.len() {
                assert(head[j] == x);
            } else {
                assert(f[h.len() as int] == x);
            }
        }
    }
}

/// Taking a session off a list takes off all that have its id, and nothing else.
pub proof fn only_the_session_is_taken_off(v: Seq<SessionSummary>, id: SessionId, x: SessionSummary)
    ensures
        without(v, id).contains(x) <==> v.contains(x) && x.id != id,
{
    filter_has(v, |s: SessionSummary| s.id != id, x);
}

/// A session is found by its id: the first that has it, and none where none has it.
pub proof fn a_session_is_found_by_its_id(v: Seq<SessionSummary>, id: SessionId, i: int)
    requires
        0 <= i <= v.len(),
        forall|j: int| 0 <= j < i ==> (#[trigger] v[j]).id != id,
        i < v.len() ==> v[i].id == id,
    ensures
        i < v.len() ==> session_with(v, id) == Some(v[i]),
        i == v.len() ==> session_with(v, id) is None,
    decreases v.len(),
{
    if v.len() > 0 && i > 0 {
        let rest = v.skip(1);
        assert forall|j: int| 0 <= j < i - 1 implies (#[trigger] rest[j]).id != id by {
            assert(rest[j] == v[j + 1]);
        }
        a_session_is_found_by_its_id(rest, id, i - 1);
    }
}

/// A file is received where the session is, unless that is on another machine; then where it started.
pub proof fn a_file_is_received_where_the_session_is(v: Seq<SessionSummary>, id: SessionId)
    ensures
        session_with(v, id) matches Some(s) ==> (s.reported_local == Some(false)
            ==> receive_directory(v, id) == s.initial_directory@) && (s.reported_local
            != Some(false) ==> receive_directory(v, id) == s.current_directory@),
        session_with(v, id) is None ==> receive_directory(v, id) == seq!['.'],
{
    reveal_strlit(".");
    assert("."@ =~= seq!['.']);
}

/// A new title goes to the first session with the id, and nothing else changes.
pub proof fn a_title_goes_to_its_session(v: Seq<Session>, id: SessionId, title: Seq<char>, i: int)
    requires
        0 <= i <= v.len(),
        forall|j: int| 0 <= j < i ==> (#[trigger] v[j]).id != id,
        i < v.len() ==> v[i].id == id,
    ensures
        i == v.len() ==> retitled(v, id, title) == v,
        i < v.len() ==> retitled(v, id, title) == v.update(i, Session { title, ..v[i] }),
    decreases v.len(),
{
    if v.len() > 0 {
        let rest = v.skip(1);
        if i > 0 {
            assert forall|j: int| 0 <= j < i - 1 implies (#[trigger] rest[j]).id != id by {
                assert(rest[j] == v[j + 1]);
            }
            a_title_goes_to_its_session(rest, id, title, i - 1);
            if i < v.len() {
                assert(seq![v[0]] + rest.update(i - 1, Session { title, ..v[i] }) =~= v.update(
                    i,
                    Session { title, ..v[i] },
                ));
            } else {
                assert(seq![v[0]] + rest =~= v);
            }
        } else {
            assert(seq![Session { title, ..v[0] }] + rest =~= v.update(
                0,
                Session { title, ..v[0] },
            ));
        }
    }
}

} // verus!
