//! Which sessions are watched, how far each watch has got, and what its replies do.

use vstd::prelude::*;
use crate::layout::SessionId;
use crate::ids;
use std::collections::HashSet;

verus! {

/// How long a watch waits before it asks again after a failure.
pub const RETRY_DELAY_MS: u64 = 25;

/// The live sessions that are not watched, each once, in order.
pub open spec fn newly_watched(watched: Set<SessionId>, live: Seq<SessionId>) -> Seq<SessionId>
    decreases live.len(),
{
    if live.len() == 0 {
        seq![]
    } else {
        let head = newly_watched(watched, live.drop_last());
        if watched.contains(live.last()) || head.contains(live.last()) {
            head
        } else {
            head.push(live.last())
        }
    }
}

/// A watch is started exactly for the listed sessions that had none.
pub proof fn a_watch_is_started_where_there_was_none(
    watched: Set<SessionId>,
    live: Seq<SessionId>,
    x: SessionId,
)
    ensures
        newly_watched(watched, live).contains(x) <==> live.contains(x) && !watched.contains(x),
    decreases live.len(),
{
    if live.len() > 0 {
        let init = live.drop_last();
        let head = newly_watched(watched, init);
        a_watch_is_started_where_there_was_none(watched, init, x);
        a_watch_is_started_where_there_was_none(watched, init, live.last());
        let all = newly_watched(watched, live);
        if init.contains(x) {
            let k = init.index_of(x);
            assert(live[k] == x);
        }
        if live.contains(x) && !init.contains(x) {
            let k = live.index_of(x);
            if k < init.len() {
                assert(init[k] == x);
            }
        }
        if head.contains(x) {
            let k = head.index_of(x);
            assert(all[k] == x);
        }
        if all.contains(x) {
            let k = all.index_of(x);
            if k < head.len() {
                assert(head[k] == x);
            }
        }
        assert(live[live.len() - 1] == live.last());
        if !watched.contains(live.last()) && !head.contains(live.last()) {
            assert(all[head.len() as int] == live.last());
        }
    }
}

/// No session gets two watches at once.
pub proof fn a_watch_is_started_once(watched: Set<SessionId>, live: Seq<SessionId>)
    ensures
        newly_watched(watched, live).no_duplicates(),
    decreases live.len(),
{
    if live.len() > 0 {
        a_watch_is_started_once(watched, live.drop_last());
    }
}

/// Drops the watches of sessions that are gone and adds one for each live session that has none, so
/// that exactly the live ones are watched. Returns the sessions whose watch has to be started.
pub fn ensure_watchers(watched: &mut HashSet<SessionId>, live: &Vec<SessionId>) -> (r: Vec<
    SessionId,
>)
    ensures
        r@ == newly_watched(old(watched)@, live@),
        final(watched)@ == live@.to_set(),
{
    let ghost before = watched@;
    let mut next: HashSet<SessionId> = HashSet::new();
    let mut fresh: Vec<SessionId> = Vec::new();
    let mut k: usize = 0;
    assert(live@.take(0) =~= seq![]);
    assert(next@ =~= live@.take(0).to_set());
    while k < live.len()
        invariant
            k <= live@.len(),
            watched@ == before,
            next@ == live@.take(k as int).to_set(),
            fresh@ == newly_watched(before, live@.take(k as int)),
        decreases live@.len() - k,
    {
        proof {
            assert(live@.take(k + 1).drop_last() =~= live@.take(k as int));
            a_watch_is_started_where_there_was_none(
                before,
                live@.take(k as int),
                live@[k as int],
            );
            ids::taking_one_more(live@, k as int);
        }
        let id: SessionId = live[k];
        let added: bool = next.insert(id);
        if added && !watched.contains(&id) {
            fresh.push(id);
        }
        k = k + 1;
    }
    assert(live@.take(k as int) =~= live@);
    *watched = next;
    fresh
}

/// Adds a watch of the picture for each visible session that has none. Returns the sessions whose
/// watch has to be started. A session that is no longer visible stays until its watch ends.
pub fn ensure_snapshot_watchers(watched: &mut HashSet<SessionId>, visible: &Vec<SessionId>) -> (r:
    Vec<SessionId>)
    ensures
        r@ == newly_watched(old(watched)@, visible@),
        final(watched)@ == old(watched)@.union(visible@.to_set()),
{
    let ghost before = watched@;
    let mut fresh: Vec<SessionId> = Vec::new();
    let mut k: usize = 0;
    assert(visible@.take(0) =~= seq![]);
    assert(watched@ =~= before.union(visible@.take(0).to_set()));
    while k < visible.len()
        invariant
            k <= visible@.len(),
            watched@ == before.union(visible@.take(k as int).to_set()),
            fresh@ == newly_watched(before, visible@.take(k as int)),
        decreases visible@.len() - k,
    {
        proof {
            assert(visible@.take(k + 1).drop_last() =~= visible@.take(k as int));
            a_watch_is_started_where_there_was_none(
                before,
                visible@.take(k as int),
                visible@[k as int],
            );
            ids::taking_one_more(visible@, k as int);
        }
        let id: SessionId = visible[k];
        let added: bool = watched.insert(id);
        assert(watched@ =~= before.union(visible@.take(k + 1).to_set()));
        if added {
            fresh.push(id);
        }
        k = k + 1;
    }
    assert(visible@.take(k as int) =~= visible@);
    fresh
}

/// What the next request for a session's picture asks for: what follows the revision that is held,
/// or all of it where none is. A session that is not visible is not asked for, and its watch ends.
pub fn next_snapshot_request(visible: bool, held: Option<u64>) -> (r: Option<u64>)
    ensures
        r == (if visible {
            match held {
                Some(revision) => Some(revision),
                None => Some(0),
            }
        } else {
            None
        }),
{
    if visible {
        match held {
            Some(revision) => Some(revision),
            None => Some(0),
        }
    } else {
        None
    }
}

/// The sessions whose watch starts when that of a session ends: all visible ones without a watch,
/// where the session has become visible again, and otherwise none.
pub open spec fn restarted(
    watched: Set<SessionId>,
    session: SessionId,
    visible: Seq<SessionId>,
) -> Seq<SessionId> {
    if visible.contains(session) {
        newly_watched(watched.remove(session), visible)
    } else {
        seq![]
    }
}

/// The sessions that are watched once the watch of a session has ended.
pub open spec fn left_watched(
    watched: Set<SessionId>,
    session: SessionId,
    visible: Seq<SessionId>,
) -> Set<SessionId> {
    if visible.contains(session) {
        watched.union(visible.to_set())
    } else {
        watched.remove(session)
    }
}

/// The watch of a session's picture has ended. Returns the sessions whose watch has to be started:
/// the session can have become visible again meanwhile.
pub fn end_snapshot_watch(
    watched: &mut HashSet<SessionId>,
    session: SessionId,
    visible: &Vec<SessionId>,
) -> (r: Vec<SessionId>)
    ensures
        r@ == restarted(old(watched)@, session, visible@),
        final(watched)@ == left_watched(old(watched)@, session, visible@),
{
    let ghost before = watched@;
    watched.remove(&session);
    if ids::contains_id(visible, session) {
        assert(before.remove(session).union(visible@.to_set()) =~= before.union(visible@.to_set()));
        ensure_snapshot_watchers(watched, visible)
    } else {
        Vec::new()
    }
}

/// A session that is visible when its watch ends gets a new one; one that is not is no longer
/// watched.
pub proof fn a_visible_session_is_not_left_without_a_watch(
    watched: Set<SessionId>,
    session: SessionId,
    visible: Seq<SessionId>,
)
    ensures
        left_watched(watched, session, visible).contains(session) <==> visible.contains(session),
        restarted(watched, session, visible).contains(session) <==> visible.contains(session),
{
    a_watch_is_started_where_there_was_none(watched.remove(session), visible, session);
}

/// What came back of a watch request.
#[derive(Clone, Copy, Debug, PartialEq, Eq, Structural)]
pub enum WatchReply {
    Update { session_id: SessionId, revision: u64 },
    Unchanged { revision: u64 },
    Unexpected,
    Failed,
}

/// What a reply does to a watch: the revision to ask from next, whether the update is taken, and
/// how long to wait first.
#[derive(Clone, Copy, Debug, PartialEq, Eq, Structural)]
pub struct WatchStep {
    pub after_revision: u64,
    pub accepted: bool,
    pub delay_ms: Option<u64>,
}

/// What a reply does to the watch of a session. An update is taken only where it is of that
/// session, and the revision moves to the update's; a reply without a change moves it forward
/// only.
pub fn watch_step(session_id: SessionId, after_revision: u64, reply: WatchReply) -> (r: WatchStep)
    ensures
        r == (match reply {
            WatchReply::Update { session_id: s, revision } => if s == session_id {
                WatchStep { after_revision: revision, accepted: true, delay_ms: None }
            } else {
                WatchStep { after_revision, accepted: false, delay_ms: None }
            },
            WatchReply::Unchanged { revision } => WatchStep {
                after_revision: if revision > after_revision {
                    revision
                } else {
                    after_revision
                },
                accepted: false,
                delay_ms: None,
            },
            WatchReply::Unexpected => WatchStep { after_revision, accepted: false, delay_ms: None },
            WatchReply::Failed => WatchStep {
                after_revision,
                accepted: false,
                delay_ms: Some(RETRY_DELAY_MS),
            },
        }),
{
    match reply {
        WatchReply::Update { session_id: s, revision } => {
            if s == session_id {
                WatchStep { after_revision: revision, accepted: true, delay_ms: None }
            } else {
                WatchStep { after_revision, accepted: false, delay_ms: None }
            }
        },
        WatchReply::Unchanged { revision } => WatchStep {
            after_revision: if revision > after_revision {
                revision
            } else {
                after_revision
            },
            accepted: false,
            delay_ms: None,
        },
        WatchReply::Unexpected => WatchStep { after_revision, accepted: false, delay_ms: None },
        WatchReply::Failed => WatchStep {
            after_revision,
            accepted: false,
            delay_ms: Some(RETRY_DELAY_MS),
        },
    }
}

/// What came back of a request for a terminal's picture. `applies` says whether a delta fits the
/// picture that is there; `error` says what went wrong.
#[derive(Clone, Debug, PartialEq, Eq)]
pub enum SnapshotReply {
    Full { session_id: SessionId, revision: u64 },
    Delta { session_id: SessionId, base_revision: u64, applies: bool },
    Unchanged,
    Unexpected,
    Failed { error: String },
}

/// What becomes of the picture of the session.
#[derive(Clone, Copy, Debug, PartialEq, Eq, Structural)]
pub enum SnapshotChange {
    Keep,
    Store,
    Drop,
}

/// What a picture's reply does: what becomes of the picture, the polling error to show from now
/// on, whether the window has to be redrawn, and how long to wait before the next request. The title
/// of a picture that is stored goes to the session's tabs.
#[derive(Clone, Debug, PartialEq, Eq)]
pub struct SnapshotStep {
    pub change: SnapshotChange,
    pub poll_error: Option<String>,
    pub redraw: bool,
    pub delay_ms: Option<u64>,
}

/// The characters of an optional text.
pub open spec fn opt(t: Option<String>) -> Option<Seq<char>> {
    match t {
        Some(s) => Some(s@),
        None => None,
    }
}

/// The message for a delta whose base is not there.
pub open spec fn lost_base(base: u64) -> Seq<char> {
    "snapshot delta base "@ + crate::text::decimal(base as nat) + " is unavailable"@
}

/// What a reply does to the picture of the session whose current revision is `held`.
pub open spec fn snapshot_change(session: SessionId, held: Option<u64>, reply: SnapshotReply) -> SnapshotChange {
    match reply {
        SnapshotReply::Full { session_id, revision } => if session_id == session && held != Some(
            revision,
        ) {
            SnapshotChange::Store
        } else {
            SnapshotChange::Keep
        },
        SnapshotReply::Delta { session_id, applies, .. } => if session_id != session {
            SnapshotChange::Keep
        } else if applies {
            SnapshotChange::Store
        } else {
            SnapshotChange::Drop
        },
        _ => SnapshotChange::Keep,
    }
}

/// The message for a reply that says something else; `answer` is the reply in words.
pub open spec fn unexpected_reply(answer: Seq<char>) -> Seq<char> {
    "unexpected snapshot response: "@ + answer
}

/// The error that a reply leaves. One that is of another session counts as unexpected.
pub open spec fn snapshot_error(
    session: SessionId,
    reply: SnapshotReply,
    answer: Seq<char>,
) -> Option<Seq<char>> {
    match reply {
        SnapshotReply::Full { session_id, .. } => if session_id == session {
            None
        } else {
            Some(unexpected_reply(answer))
        },
        SnapshotReply::Delta { session_id, base_revision, applies } => if session_id != session {
            Some(unexpected_reply(answer))
        } else if applies {
            None
        } else {
            Some(lost_base(base_revision))
        },
        SnapshotReply::Unchanged => None,
        SnapshotReply::Unexpected => Some(unexpected_reply(answer)),
        SnapshotReply::Failed { error } => Some("snapshot polling failed: "@ + error@),
    }
}

fn unexpected_message(answer: &str) -> (r: String)
    ensures
        r@ == unexpected_reply(answer@),
{
    let mut m: String = "unexpected snapshot response: ".to_owned();
    m.append(answer);
    m
}

/// What a reply does to the picture of a session; `answer` is the reply in words. Every usable reply
/// clears the polling error. The window is redrawn where the picture or the error changed and the
/// session is still visible; a delta always counts as a change.
pub fn snapshot_step(
    session_id: SessionId,
    visible: bool,
    held: Option<u64>,
    poll_error: Option<String>,
    reply: SnapshotReply,
    answer: &str,
) -> (r: SnapshotStep)
    ensures
        r.change == snapshot_change(session_id, held, reply),
        opt(r.poll_error) == snapshot_error(session_id, reply, answer@),
        r.redraw == (visible && (!(r.change is Keep) || opt(poll_error) != opt(r.poll_error))),
        r.delay_ms == (if reply is Failed {
            Some(RETRY_DELAY_MS)
        } else {
            None
        }),
{
    let failed: bool = match &reply {
        SnapshotReply::Failed { .. } => true,
        _ => false,
    };
    let delay_ms: Option<u64> = if failed {
        Some(RETRY_DELAY_MS)
    } else {
        None
    };
    let (change, next): (SnapshotChange, Option<String>) = match reply {
        SnapshotReply::Full { session_id: s, revision } => {
            if s != session_id {
                (SnapshotChange::Keep, Some(unexpected_message(answer)))
            } else {
                let same: bool = match held {
                    Some(h) => h == revision,
                    None => false,
                };
                if same {
                    (SnapshotChange::Keep, None)
                } else {
                    (SnapshotChange::Store, None)
                }
            }
        },
        SnapshotReply::Delta { session_id: s, base_revision, applies } => {
            if s != session_id {
                (SnapshotChange::Keep, Some(unexpected_message(answer)))
            } else if applies {
                (SnapshotChange::Store, None)
            } else {
                let mut m: String = "snapshot delta base ".to_owned();
                crate::text::push_decimal(&mut m, base_revision);
                m.append(" is unavailable");
                assert(m@ =~= lost_base(base_revision));
                (SnapshotChange::Drop, Some(m))
            }
        },
        SnapshotReply::Unchanged => (SnapshotChange::Keep, None),
        SnapshotReply::Unexpected => (SnapshotChange::Keep, Some(unexpected_message(answer))),
        SnapshotReply::Failed { error } => {
            let mut m: String = "snapshot polling failed: ".to_owned();
            m.append(error.as_str());
            (SnapshotChange::Keep, Some(m))
        },
    };
    let same_error: bool = match (&poll_error, &next) {
        (Some(a), Some(b)) => crate::text::text_eq(a.as_str(), b.as_str()),
        (None, None) => true,
        _ => false,
    };
    let kept: bool = match change {
        SnapshotChange::Keep => true,
        _ => false,
    };
    SnapshotStep {
        change,
        poll_error: next,
        redraw: visible && (!kept || !same_error),
        delay_ms,
    }
}

/// Whether a frame is due once all visible pictures are complete: every image of every visible
/// terminal is there.
pub fn frame_is_complete(images_present: &Vec<bool>) -> (r: bool)
    ensures
        r == forall|i: int| 0 <= i < images_present@.len() ==> #[trigger] images_present@[i],
{
    let mut i: usize = 0;
    while i < images_present.len()
        invariant
            i <= images_present@.len(),
            forall|j: int| 0 <= j < i ==> #[trigger] images_present@[j],
        decreases images_present@.len() - i,
    {
        if !images_present[i] {
            return false;
        }
        i = i + 1;
    }
    true
}

/// Whether a frame was asked for that has not come yet.
#[derive(Clone, Copy, Debug, PartialEq, Eq, Structural)]
pub struct FrameSchedule {
    pub scheduled: bool,
}

impl FrameSchedule {
    /// Asks for a frame. Returns whether it has to be scheduled: not where one is already, so that all
    /// changes up to it share it.
    pub fn request(&mut self) -> (r: bool)
        ensures
            r == !old(self).scheduled,
            final(self).scheduled,
    {
        let r: bool = !self.scheduled;
        self.scheduled = true;
        r
    }

    /// The frame has come. Returns whether the window is redrawn: only where every image of every
    /// visible terminal is there, so that the last complete frame stays until then.
    pub fn arrive(&mut self, images_present: &Vec<bool>) -> (r: bool)
        ensures
            !final(self).scheduled,
            r == forall|i: int| 0 <= i < images_present@.len() ==> #[trigger] images_present@[i],
    {
        self.scheduled = false;
        frame_is_complete(images_present)
    }
}

/// A picture is stored where it is of the session and is not the one that is held; a change that fits is
/// stored, and one that does not fit drops the picture, so that all of it is asked for. Everything else
/// leaves it.
pub proof fn a_picture_is_stored_where_it_is_new(session: SessionId, held: Option<u64>, reply: SnapshotReply)
    ensures
        reply matches SnapshotReply::Full { session_id, revision } ==> (snapshot_change(
            session,
            held,
            reply,
        ) == SnapshotChange::Store <==> session_id == session && held != Some(revision)) && !(
        snapshot_change(session, held, reply) is Drop),
        reply matches SnapshotReply::Delta { session_id, applies, .. } ==> (snapshot_change(
            session,
            held,
            reply,
        ) is Store <==> session_id == session && applies) && (snapshot_change(
            session,
            held,
            reply,
        ) is Drop <==> session_id == session && !applies),
        reply is Unchanged || reply is Unexpected || reply is Failed ==> snapshot_change(
            session,
            held,
            reply,
        ) is Keep,
{
}

/// A usable reply clears the error; a reply of another session or of another kind, a failure, and a
/// change that does not fit each leave an error that says so, the last one with the revision that was
/// missing.
pub proof fn an_unusable_reply_leaves_an_error(
    session: SessionId,
    reply: SnapshotReply,
    answer: Seq<char>,
)
    ensures
        reply is Unchanged ==> snapshot_error(session, reply, answer) is None,
        reply matches SnapshotReply::Full { session_id, .. } ==> (snapshot_error(
            session,
            reply,
            answer,
        ) is None <==> session_id == session),
        reply matches SnapshotReply::Delta { session_id, applies, .. } ==> (snapshot_error(
            session,
            reply,
            answer,
        ) is None <==> session_id == session && applies),
        reply matches SnapshotReply::Delta { session_id, base_revision, applies } ==> (session_id
            == session && !applies ==> snapshot_error(session, reply, answer) == Some(
            "snapshot delta base "@ + crate::text::decimal(base_revision as nat)
                + " is unavailable"@,
        )),
        reply is Unexpected ==> snapshot_error(session, reply, answer) == Some(
            "unexpected snapshot response: "@ + answer,
        ),
        reply matches SnapshotReply::Failed { error } ==> snapshot_error(session, reply, answer)
            == Some("snapshot polling failed: "@ + error@),
        reply matches SnapshotReply::Full { session_id, .. } ==> (session_id != session
            ==> snapshot_error(session, reply, answer) == Some(
            "unexpected snapshot response: "@ + answer,
        )),
{
}

/// Watches start in the order of the sessions; a session that is watched, or listed before, is passed
/// over.
pub proof fn watches_start_in_order(watched: Set<SessionId>, live: Seq<SessionId>, x: SessionId)
    ensures
        newly_watched(watched, seq![]).len() == 0,
        watched.contains(x) || live.contains(x) ==> newly_watched(watched, live.push(x))
            == newly_watched(watched, live),
        !watched.contains(x) && !live.contains(x) ==> newly_watched(watched, live.push(x))
            == newly_watched(watched, live).push(x),
{
    assert(live.push(x).drop_last() =~= live);
    a_watch_is_started_where_there_was_none(watched, live, x);
}

/// Where a session has become visible again, all visible sessions are watched and none of the others
/// loses its watch; else only its own watch ends.
pub proof fn only_the_ended_watch_is_lost(
    watched: Set<SessionId>,
    session: SessionId,
    visible: Seq<SessionId>,
    x: SessionId,
)
    ensures
        x != session && watched.contains(x) ==> left_watched(watched, session, visible).contains(x),
        visible.contains(session) && visible.contains(x) ==> left_watched(
            watched,
            session,
            visible,
        ).contains(x),
        !visible.contains(session) && !watched.contains(x) ==> !left_watched(
            watched,
            session,
            visible,
        ).contains(x),
        !visible.contains(session) ==> restarted(watched, session, visible).len() == 0,
        visible.contains(session) ==> (restarted(watched, session, visible).contains(x)
            <==> visible.contains(x) && (x == session || !watched.contains(x))),
{
    a_watch_is_started_where_there_was_none(watched.remove(session), visible, x);
}

} // verus!
