//! The state that a window keeps for its terminals: focus, sizes, progress, bells and cursors.

use vstd::prelude::*;
use std::collections::HashMap;
use crate::i18n;
use crate::i18n::Language;
use crate::icons::IconName;
use crate::layout::{ItemKind, SessionId};
use crate::ids::{keep_listed, keys_of};
use crate::sidebar;
use crate::sidebar::item_kind_icon;
use crate::text;

verus! {

/// Which session has been told that it has the focus, and whether the window's terminals have it
/// at all.
#[derive(Clone, Copy, Debug, PartialEq, Eq, Structural)]
pub struct FocusState {
    pub has_focus: bool,
    pub focused: Option<SessionId>,
}

/// Who is told next: the session that loses the focus, and the one that gets it.
#[derive(Clone, Copy, Debug, PartialEq, Eq, Structural)]
pub struct FocusPlan {
    pub leave: Option<SessionId>,
    pub enter: Option<SessionId>,
}

/// The session that ought to have the focus.
pub open spec fn focus_target(f: FocusState, active: Option<SessionId>) -> Option<SessionId> {
    if f.has_focus {
        active
    } else {
        None
    }
}

/// Who has to be told so that the active session has the focus; nobody where it is told already.
pub open spec fn planned(f: FocusState, active: Option<SessionId>) -> FocusPlan {
    if f.focused == focus_target(f, active) {
        FocusPlan { leave: None, enter: None }
    } else {
        FocusPlan { leave: f.focused, enter: focus_target(f, active) }
    }
}

/// The focus after a plan was carried out; `entered` says whether the session that gets the focus
/// could be told.
pub open spec fn applied(f: FocusState, plan: FocusPlan, entered: bool) -> FocusState {
    FocusState {
        has_focus: f.has_focus,
        focused: if plan.enter is Some && entered {
            plan.enter
        } else if plan.leave is Some || plan.enter is Some {
            None
        } else {
            f.focused
        },
    }
}

impl FocusState {
    /// Who has to be told so that the active session has the focus.
    pub fn plan(&self, active: Option<SessionId>) -> (r: FocusPlan)
        ensures
            r == planned(*self, active),
    {
        let next: Option<SessionId> = if self.has_focus {
            active
        } else {
            None
        };
        if self.focused == next {
            FocusPlan { leave: None, enter: None }
        } else {
            FocusPlan { leave: self.focused, enter: next }
        }
    }

    /// Takes over a plan that was carried out.
    pub fn apply(&mut self, plan: FocusPlan, entered: bool)
        ensures
            *final(self) == applied(*old(self), plan, entered),
    {
        if plan.leave.is_some() || plan.enter.is_some() {
            self.focused = if entered {
                plan.enter
            } else {
                None
            };
        }
    }

    /// Forgets a session that is gone.
    pub fn forget(&mut self, session: SessionId)
        ensures
            *final(self) == (FocusState {
                focused: if old(self).focused == Some(session) {
                    None
                } else {
                    old(self).focused
                },
                ..*old(self)
            }),
    {
        if self.focused == Some(session) {
            self.focused = None;
        }
    }
}

/// Once everyone could be told, the session that ought to have the focus has it, and telling
/// again would tell nobody.
pub proof fn focus_follows_the_active_session(before: FocusState, active: Option<SessionId>)
    ensures
        ({
            let after = applied(before, planned(before, active), true);
            &&& after.focused == focus_target(after, active)
            &&& planned(after, active) == (FocusPlan { leave: None, enter: None })
        }),
{
}

/// A session that could not be told is told again the next time.
pub proof fn a_failed_focus_is_tried_again(before: FocusState, active: Option<SessionId>)
    requires
        before.focused != focus_target(before, active),
    ensures
        ({
            let after = applied(before, planned(before, active), false);
            planned(after, active).enter == focus_target(before, active)
        }),
{
}

/// The size of a terminal in cells, and of a cell in pixels.
#[derive(Clone, Copy, Debug, PartialEq, Eq, Structural)]
pub struct TerminalSize {
    pub columns: u16,
    pub rows: u16,
    pub cell_width: u16,
    pub cell_height: u16,
}

/// The size that each session should have, and the resize request that is under way for it.
pub struct Resizes {
    pub wanted: HashMap<SessionId, TerminalSize>,
    pub in_flight: HashMap<SessionId, TerminalSize>,
}

/// The size that a session should have.
pub open spec fn wanted(r: Resizes, s: SessionId) -> Option<TerminalSize> {
    if r.wanted@.contains_key(s) {
        Some(r.wanted@[s])
    } else {
        None
    }
}

/// The resize request that is under way for a session.
pub open spec fn in_flight(r: Resizes, s: SessionId) -> Option<TerminalSize> {
    if r.in_flight@.contains_key(s) {
        Some(r.in_flight@[s])
    } else {
        None
    }
}

/// The size that one session should have, and the request that is under way for it.
pub struct ResizeState {
    pub wanted: Option<TerminalSize>,
    pub in_flight: Option<TerminalSize>,
}

pub open spec fn resize_state(r: Resizes, s: SessionId) -> ResizeState {
    ResizeState { wanted: wanted(r, s), in_flight: in_flight(r, s) }
}

/// The state once the terminal has room for `size`, and the size to request now. A size that is
/// wanted already changes nothing, and nothing is requested while a request is under way.
pub open spec fn after_room(st: ResizeState, size: TerminalSize) -> (
    ResizeState,
    Option<TerminalSize>,
) {
    if st.wanted == Some(size) {
        (st, None)
    } else if st.in_flight is Some {
        (ResizeState { wanted: Some(size), ..st }, None)
    } else {
        (ResizeState { wanted: Some(size), in_flight: Some(size) }, Some(size))
    }
}

/// The state once the request for `sent` has come back, and the size to request now. A failed
/// size is no longer the wanted one, so that it is tried again. Where the wanted size has changed
/// meanwhile, it is requested. A reply to a request that is not the one under way changes
/// nothing.
pub open spec fn after_reply(st: ResizeState, sent: TerminalSize, succeeded: bool) -> (
    ResizeState,
    Option<TerminalSize>,
) {
    if st.in_flight != Some(sent) {
        (st, None)
    } else if !succeeded {
        (
            ResizeState {
                wanted: if st.wanted == Some(sent) {
                    None
                } else {
                    st.wanted
                },
                in_flight: None,
            },
            None,
        )
    } else if st.wanted == Some(sent) {
        (ResizeState { in_flight: None, ..st }, None)
    } else {
        (ResizeState { in_flight: st.wanted, ..st }, st.wanted)
    }
}

/// Of the sizes that come while a request is under way only the last one is requested, and only
/// where it differs from the one under way.
pub proof fn only_the_last_size_is_requested(
    st: ResizeState,
    sent: TerminalSize,
    a: TerminalSize,
    b: TerminalSize,
)
    requires
        st.in_flight == Some(sent),
    ensures
        after_room(st, a).1 is None,
        after_room(after_room(st, a).0, b).1 is None,
        after_reply(after_room(after_room(st, a).0, b).0, sent, true).1 == (if b == sent {
            None
        } else {
            Some(b)
        }),
{
}

/// Once a request for the wanted size has come back, nothing is under way, and the same size is
/// not requested again; after a failure it is.
pub proof fn a_confirmed_size_is_not_requested_again(st: ResizeState, size: TerminalSize)
    requires
        st.in_flight == Some(size),
        st.wanted == Some(size),
    ensures
        after_reply(st, size, true).0.in_flight is None,
        after_room(after_reply(st, size, true).0, size).1 is None,
        after_room(after_reply(st, size, false).0, size).1 == Some(size),
{
}

/// Nothing changed for the other sessions.
pub open spec fn others_untouched(a: Resizes, b: Resizes, s: SessionId) -> bool {
    forall|x: SessionId|
        x != s ==> #[trigger] wanted(a, x) == wanted(b, x) && in_flight(a, x) == in_flight(b, x)
}

proof fn untouched_in_turn(a: Resizes, b: Resizes, c: Resizes, s: SessionId)
    requires
        others_untouched(a, b, s),
        others_untouched(b, c, s),
    ensures
        others_untouched(a, c, s),
{
    assert forall|x: SessionId| x != s implies #[trigger] wanted(a, x) == wanted(c, x) && in_flight(
        a,
        x,
    ) == in_flight(c, x) by {
        assert(wanted(a, x) == wanted(b, x));
        assert(wanted(b, x) == wanted(c, x));
    }
}

impl Resizes {
    /// No sizes yet.
    pub fn new() -> (r: Resizes)
        ensures
            forall|s: SessionId| wanted(r, s) is None && in_flight(r, s) is None,
    {
        Resizes { wanted: HashMap::new(), in_flight: HashMap::new() }
    }

    /// Sends the wanted size of the session unless a request is under way for it. Returns the
    /// size to send.
    fn send_pending(&mut self, session: SessionId) -> (r: Option<TerminalSize>)
        ensures
            others_untouched(*old(self), *final(self), session),
            wanted(*final(self), session) == wanted(*old(self), session),
            r == (if in_flight(*old(self), session) is Some {
                None
            } else {
                wanted(*old(self), session)
            }),
            in_flight(*final(self), session) == (if r is Some {
                r
            } else {
                in_flight(*old(self), session)
            }),
    {
        if self.in_flight.contains_key(&session) {
            return None;
        }
        let size: TerminalSize = match self.wanted.get(&session) {
            Some(s) => *s,
            None => return None,
        };
        self.in_flight.insert(session, size);
        Some(size)
    }

    /// The session's terminal now has room for `size`. Returns the size to request now.
    pub fn resize_terminal(&mut self, session: SessionId, size: TerminalSize) -> (r: Option<
        TerminalSize,
    >)
        ensures
            others_untouched(*old(self), *final(self), session),
            (resize_state(*final(self), session), r) == after_room(
                resize_state(*old(self), session),
                size,
            ),
    {
        let same: bool = match self.wanted.get(&session) {
            Some(s) => *s == size,
            None => false,
        };
        if same {
            return None;
        }
        let ghost before = *self;
        self.wanted.insert(session, size);
        let ghost mid = *self;
        let r: Option<TerminalSize> = self.send_pending(session);
        proof {
            untouched_in_turn(before, mid, *self, session);
        }
        r
    }

    /// A request has come back. Returns the size to request now.
    pub fn finish_terminal_resize(
        &mut self,
        session: SessionId,
        sent: TerminalSize,
        succeeded: bool,
    ) -> (r: Option<TerminalSize>)
        ensures
            others_untouched(*old(self), *final(self), session),
            (resize_state(*final(self), session), r) == after_reply(
                resize_state(*old(self), session),
                sent,
                succeeded,
            ),
    {
        let current: bool = match self.in_flight.get(&session) {
            Some(s) => *s == sent,
            None => false,
        };
        if !current {
            return None;
        }
        let ghost before = *self;
        let gone: Option<TerminalSize> = self.in_flight.remove(&session);
        let ghost mid = *self;
        let latest: bool = match self.wanted.get(&session) {
            Some(s) => *s == sent,
            None => false,
        };
        if !succeeded {
            if latest {
                let dropped: Option<TerminalSize> = self.wanted.remove(&session);
            }
            return None;
        }
        if latest {
            None
        } else {
            let r: Option<TerminalSize> = self.send_pending(session);
            proof {
                untouched_in_turn(before, mid, *self, session);
            }
            r
        }
    }

    /// Forgets the session.
    pub fn forget(&mut self, session: SessionId)
        ensures
            others_untouched(*old(self), *final(self), session),
            wanted(*final(self), session) is None,
            in_flight(*final(self), session) is None,
    {
        let a: Option<TerminalSize> = self.wanted.remove(&session);
        let b: Option<TerminalSize> = self.in_flight.remove(&session);
    }
}

/// What a program reports of its progress.
#[derive(Clone, Copy, Debug, PartialEq, Eq, Structural)]
pub enum TerminalProgressState {
    Normal,
    Error,
    Indeterminate,
    Paused,
}

/// The progress of a program, and when it was last reported.
#[derive(Clone, Copy, Debug, PartialEq, Eq, Structural)]
pub struct TerminalProgress {
    pub state: TerminalProgressState,
    pub percent: Option<u8>,
    pub updated_at_unix_ms: u64,
}

/// A report of a session's progress; none where it has ended.
#[derive(Clone, Copy, Debug, PartialEq, Eq, Structural)]
pub struct TerminalProgressUpdate {
    pub session_id: SessionId,
    pub revision: u64,
    pub progress: Option<TerminalProgress>,
}

/// How long ago something was reported, in words.
pub open spec fn recency_text(language: Language, elapsed_seconds: nat) -> Seq<char> {
    if elapsed_seconds <= 1 {
        i18n::pick(language, "updated just now"@, "刚刚更新"@)
    } else if elapsed_seconds <= 59 {
        i18n::pick(
            language,
            "updated "@ + text::decimal(elapsed_seconds) + "s ago"@,
            text::decimal(elapsed_seconds) + " 秒前更新"@,
        )
    } else if elapsed_seconds <= 3599 {
        i18n::pick(
            language,
            "updated "@ + text::decimal(elapsed_seconds / 60) + "m ago"@,
            text::decimal(elapsed_seconds / 60) + " 分钟前更新"@,
        )
    } else {
        i18n::pick(
            language,
            "updated "@ + text::decimal(elapsed_seconds / 3600) + "h ago"@,
            text::decimal(elapsed_seconds / 3600) + " 小时前更新"@,
        )
    }
}

/// The state of the progress, in words.
pub open spec fn status_text(language: Language, p: TerminalProgress) -> Seq<char> {
    match p.state {
        TerminalProgressState::Normal => if p.percent == Some(100u8) {
            i18n::pick(language, "Complete"@, "已完成"@)
        } else {
            i18n::pick(language, "Running"@, "运行中"@)
        },
        TerminalProgressState::Error => i18n::pick(language, "Error"@, "错误"@),
        TerminalProgressState::Indeterminate => i18n::pick(language, "Indeterminate"@, "不确定"@),
        TerminalProgressState::Paused => i18n::pick(language, "Paused"@, "已暂停"@),
    }
}

/// The label of a progress ring at the time `now`: state, percentage and how long ago it was
/// reported.
pub open spec fn progress_text(p: TerminalProgress, language: Language, now: u64) -> Seq<char> {
    let elapsed: nat = if now >= p.updated_at_unix_ms {
        ((now - p.updated_at_unix_ms) / 1000) as nat
    } else {
        0
    };
    status_text(language, p) + (match p.percent {
        Some(percent) => " · "@ + text::decimal(percent as nat) + "%"@,
        None => seq![],
    }) + " · "@ + recency_text(language, elapsed)
}

/// The label of a progress ring at the time `now_unix_ms`.
pub fn progress_label(progress: TerminalProgress, language: Language, now_unix_ms: u64) -> (r:
    String)
    ensures
        r@ == progress_text(progress, language, now_unix_ms),
{
    let status: &str = match progress.state {
        TerminalProgressState::Normal => match progress.percent {
            Some(percent) => if percent == 100 {
                language.progress_complete()
            } else {
                language.progress_running()
            },
            None => language.progress_running(),
        },
        TerminalProgressState::Error => language.progress_error(),
        TerminalProgressState::Indeterminate => language.progress_indeterminate(),
        TerminalProgressState::Paused => language.progress_paused(),
    };
    let mut r: String = status.to_owned();
    match progress.percent {
        Some(percent) => {
            r.append(" · ");
            text::push_decimal(&mut r, percent as u64);
            r.append("%");
        },
        None => {},
    }
    r.append(" · ");
    let elapsed: u64 = now_unix_ms.saturating_sub(progress.updated_at_unix_ms) / 1000;
    let recency: String = if elapsed <= 1 {
        language.updated_just_now().to_owned()
    } else if elapsed <= 59 {
        language.updated_seconds_ago(elapsed)
    } else if elapsed <= 3599 {
        language.updated_minutes_ago(elapsed / 60)
    } else {
        language.updated_hours_ago(elapsed / 3600)
    };
    r.append(recency.as_str());
    assert(r@ =~= progress_text(progress, language, now_unix_ms));
    r
}

/// The progress that is shown, and the reports that the next frame will show.
pub struct ProgressBoard {
    pub shown: HashMap<SessionId, TerminalProgressUpdate>,
    pub pending: HashMap<SessionId, TerminalProgressUpdate>,
    pub frame_scheduled: bool,
}

/// The newest report that the window has of a session.
pub open spec fn newest(b: ProgressBoard, s: SessionId) -> Option<TerminalProgressUpdate> {
    if b.pending@.contains_key(s) {
        Some(b.pending@[s])
    } else if b.shown@.contains_key(s) {
        Some(b.shown@[s])
    } else {
        None
    }
}

impl ProgressBoard {
    /// Nothing reported yet.
    pub fn new() -> (r: ProgressBoard)
        ensures
            r.shown@ == Map::<u128, TerminalProgressUpdate>::empty(),
            r.pending@ == Map::<u128, TerminalProgressUpdate>::empty(),
            !r.frame_scheduled,
    {
        ProgressBoard { shown: HashMap::new(), pending: HashMap::new(), frame_scheduled: false }
    }

    /// Takes a report where it is newer than the newest one of its session. Returns whether a
    /// frame has to be scheduled for it: not where one is scheduled already.
    pub fn accept(&mut self, update: TerminalProgressUpdate) -> (r: bool)
        ensures
            final(self).shown == old(self).shown,
            ({
                let newer = match newest(*old(self), update.session_id) {
                    Some(current) => current.revision < update.revision,
                    None => true,
                };
                &&& final(self).pending@ == (if newer {
                    old(self).pending@.insert(update.session_id, update)
                } else {
                    old(self).pending@
                })
                &&& r == (newer && !old(self).frame_scheduled)
                &&& final(self).frame_scheduled == (newer || old(self).frame_scheduled)
            }),
    {
        let id: SessionId = update.session_id;
        let newer: bool = match self.pending.get(&id) {
            Some(current) => current.revision < update.revision,
            None => match self.shown.get(&id) {
                Some(current) => current.revision < update.revision,
                None => true,
            },
        };
        if !newer {
            return false;
        }
        self.pending.insert(id, update);
        let schedule: bool = !self.frame_scheduled;
        self.frame_scheduled = true;
        schedule
    }

    /// Shows the pending reports, each in place of the one that was shown.
    pub fn frame(&mut self)
        ensures
            !final(self).frame_scheduled,
            final(self).pending@ == Map::<u128, TerminalProgressUpdate>::empty(),
            final(self).shown@ == old(self).shown@.union_prefer_right(old(self).pending@),
    {
        let ghost shown = self.shown@;
        let ghost pending = self.pending@;
        self.frame_scheduled = false;
        let ids: Vec<SessionId> = keys_of(&self.pending);
        let mut i: usize = 0;
        while i < ids.len()
            invariant
                i <= ids@.len(),
                !self.frame_scheduled,
                self.pending@ == pending,
                forall|k: SessionId| ids@.contains(k) <==> #[trigger] pending.contains_key(k),
                forall|k: SessionId| #[trigger]
                    self.shown@.contains_key(k) <==> shown.contains_key(k) || ids@.take(
                        i as int,
                    ).contains(k),
                forall|k: SessionId| #[trigger]
                    self.shown@.contains_key(k) ==> self.shown@[k] == (if ids@.take(
                        i as int,
                    ).contains(k) {
                        pending[k]
                    } else {
                        shown[k]
                    }),
            decreases ids@.len() - i,
        {
            let id: SessionId = ids[i];
            let ghost had = ids@.take(i as int);
            let ghost now = ids@.take(i + 1);
            proof {
                assert(now =~= had.push(id));
                assert forall|x: SessionId| now.contains(x) <==> x == id || had.contains(x) by {
                    if now.contains(x) && x != id {
                        let j = now.index_of(x);
                        assert(had[j] == x);
                    }
                    if had.contains(x) {
                        let j = had.index_of(x);
                        assert(now[j] == x);
                    }
                    assert(now[i as int] == id);
                }
                assert(ids@.contains(id));
            }
            match self.pending.get(&id) {
                Some(update) => {
                    let next: TerminalProgressUpdate = *update;
                    self.shown.insert(id, next);
                },
                None => {},
            }
            i = i + 1;
        }
        assert(ids@.take(i as int) =~= ids@);
        assert(self.shown@ =~= shown.union_prefer_right(pending));
        self.pending.clear();
    }

    /// Forgets the reports of sessions that are gone.
    pub fn retain(&mut self, live: &Vec<SessionId>)
        ensures
            final(self).shown@ == old(self).shown@.restrict(live@.to_set()),
            final(self).pending@ == old(self).pending@.restrict(live@.to_set()),
            final(self).frame_scheduled == old(self).frame_scheduled,
    {
        keep_listed(&mut self.shown, live);
        keep_listed(&mut self.pending, live);
    }

    /// Whether some shown progress moves although nothing is reported, so that it has to be
    /// redrawn.
    pub fn has_indeterminate(&self) -> (r: bool)
        ensures
            r == exists|s: SessionId| #[trigger]
                self.shown@.contains_key(s) && is_indeterminate(self.shown@[s]),
    {
        let ids: Vec<SessionId> = keys_of(&self.shown);
        let mut i: usize = 0;
        while i < ids.len()
            invariant
                i <= ids@.len(),
                forall|k: SessionId| ids@.contains(k) <==> #[trigger] self.shown@.contains_key(k),
                forall|j: int| 0 <= j < i ==> !is_indeterminate(self.shown@[#[trigger] ids@[j]]),
            decreases ids@.len() - i,
        {
            let id: SessionId = ids[i];
            assert(ids@.contains(id));
            let moving: bool = match self.shown.get(&id) {
                Some(update) => match update.progress {
                    Some(p) => match p.state {
                        TerminalProgressState::Indeterminate => true,
                        _ => false,
                    },
                    None => false,
                },
                None => false,
            };
            if moving {
                return true;
            }
            i = i + 1;
        }
        proof {
            assert forall|s: SessionId| #[trigger]
                self.shown@.contains_key(s) implies !is_indeterminate(self.shown@[s]) by {
                let k = ids@.index_of(s);
                assert(ids@[k] == s);
            }
        }
        false
    }
}

pub open spec fn is_indeterminate(u: TerminalProgressUpdate) -> bool {
    match u.progress {
        Some(p) => p.state == TerminalProgressState::Indeterminate,
        None => false,
    }
}

/// The colour of a progress ring: the theme's red for an error, its yellow while paused, else the
/// accent colour.
pub open spec fn ring_color(state: TerminalProgressState, palette: Seq<u32>, accent: u32) -> u32 {
    match state {
        TerminalProgressState::Error => palette[1],
        TerminalProgressState::Paused => palette[3],
        _ => accent,
    }
}

/// The colour of a progress ring.
pub fn progress_color(state: TerminalProgressState, palette: &[u32; 16], accent: u32) -> (r: u32)
    ensures
        r == ring_color(state, palette@, accent),
{
    match state {
        TerminalProgressState::Error => palette[1],
        TerminalProgressState::Paused => palette[3],
        _ => accent,
    }
}

/// How long a tab flashes after a bell.
pub const BELL_FLASH_MS: u64 = 420;

/// The sessions whose tab flashes, with the time at which the flash started.
pub struct BellFlashes {
    pub started: HashMap<SessionId, u64>,
    pub running: bool,
}

/// The flash that started at `start` is still going on.
pub open spec fn flashing(start: u64, now: u64) -> bool {
    now - start < BELL_FLASH_MS
}

impl BellFlashes {
    /// No flashes.
    pub fn new() -> (r: BellFlashes)
        ensures
            r.started@ == Map::<u128, u64>::empty(),
            !r.running,
    {
        BellFlashes { started: HashMap::new(), running: false }
    }

    /// Starts a flash. Returns whether the animation has to be started.
    pub fn ring(&mut self, session: SessionId, now: u64) -> (r: bool)
        ensures
            final(self).started@ == old(self).started@.insert(session, now),
            final(self).running,
            r == !old(self).running,
    {
        self.started.insert(session, now);
        let start: bool = !self.running;
        self.running = true;
        start
    }

    /// Drops the flashes that are over. Returns whether the animation goes on.
    pub fn step(&mut self, now: u64) -> (r: bool)
        ensures
            forall|s: SessionId| #[trigger]
                final(self).started@.contains_key(s) <==> old(self).started@.contains_key(s)
                    && flashing(old(self).started@[s], now),
            forall|s: SessionId| #[trigger]
                final(self).started@.contains_key(s) ==> final(self).started@[s]
                    == old(self).started@[s],
            r == !final(self).started@.is_empty(),
            final(self).running == (r && old(self).running),
    {
        let ghost before = self.started@;
        let ids: Vec<SessionId> = keys_of(&self.started);
        let mut i: usize = 0;
        while i < ids.len()
            invariant
                i <= ids@.len(),
                ids@.no_duplicates(),
                self.running == old(self).running,
                forall|k: SessionId| ids@.contains(k) <==> #[trigger] before.contains_key(k),
                forall|j: int| i <= j < ids@.len() ==> self.started@.contains_key(
                    #[trigger] ids@[j],
                ),
                forall|j: int|
                    0 <= j < i ==> (self.started@.contains_key(#[trigger] ids@[j]) <==> flashing(
                        before[ids@[j]],
                        now,
                    )),
                forall|s: SessionId| #[trigger]
                    self.started@.contains_key(s) ==> before.contains_key(s) && self.started@[s]
                        == before[s],
            decreases ids@.len() - i,
        {
            let id: SessionId = ids[i];
            assert(ids@.contains(id));
            assert(self.started@.contains_key(ids@[i as int]));
            let on: bool = match self.started.get(&id) {
                Some(start) => now < *start || now - *start < BELL_FLASH_MS,
                None => false,
            };
            if !on {
                let gone: Option<u64> = self.started.remove(&id);
            }
            i = i + 1;
        }
        proof {
            assert forall|s: SessionId| #[trigger]
                self.started@.contains_key(s) <==> before.contains_key(s) && flashing(
                    before[s],
                    now,
                ) by {
                if before.contains_key(s) {
                    let k = ids@.index_of(s);
                    assert(ids@[k] == s);
                }
            }
        }
        let goes_on: bool = !self.started.is_empty();
        if !goes_on {
            self.running = false;
        }
        goes_on
    }
}

/// What the marks of a session are drawn from, in the tab bar and in the sidebar.
pub struct ItemFacts {
    /// The progress that is shown, by session.
    pub progress: HashMap<SessionId, TerminalProgressUpdate>,
    /// When the flash of a session began.
    pub flashes: HashMap<SessionId, u64>,
    /// The sixteen colours of the terminal theme.
    pub palette: [u32; 16],
    /// The accent colour.
    pub accent: u32,
    /// The language of the interface.
    pub language: Language,
    /// The time of day, in milliseconds.
    pub now_unix_ms: u64,
    /// The time by which flashes are measured, in milliseconds.
    pub now_ms: u64,
}

/// What stands in front of the title of a tab or a session.
#[derive(Clone, Debug, PartialEq, Eq)]
pub enum ItemIcon {
    /// The icon of its kind.
    Kind(IconName),
    /// A ring that shows how far its program has got.
    Ring {
        /// How far that is.
        progress: TerminalProgress,
        /// The colour of the ring.
        color: u32,
        /// What the ring says.
        label: String,
    },
}

/// What stands in front of a title, its text as a sequence of characters.
pub enum IconView {
    /// The icon of its kind.
    Kind(IconName),
    /// A ring.
    Ring {
        /// How far the program has got.
        progress: TerminalProgress,
        /// The colour of the ring.
        color: u32,
        /// What the ring says.
        label: Seq<char>,
    },
}

impl ItemIcon {
    /// The text as a sequence of characters.
    pub open spec fn model(&self) -> IconView {
        match *self {
            ItemIcon::Kind(icon) => IconView::Kind(icon),
            ItemIcon::Ring { progress, color, label } => IconView::Ring {
                progress,
                color,
                label: label@,
            },
        }
    }
}

/// The progress that is shown of a session.
pub open spec fn progress_of(f: ItemFacts, session: Option<SessionId>) -> Option<TerminalProgress> {
    match session {
        Some(s) => if f.progress@.contains_key(s) {
            f.progress@[s].progress
        } else {
            None
        },
        None => None,
    }
}

/// What stands in front of a title: a ring where the session reports progress, else the icon of the
/// kind.
pub open spec fn icon_of(kind: ItemKind, session: Option<SessionId>, f: ItemFacts) -> IconView {
    match progress_of(f, session) {
        Some(progress) => IconView::Ring {
            progress,
            color: ring_color(progress.state, f.palette@, f.accent),
            label: progress_text(progress, f.language, f.now_unix_ms),
        },
        None => IconView::Kind(sidebar::kind_icon(kind)),
    }
}

/// For how long the flash of a session has been going on, where it is.
pub open spec fn flash_age(session: Option<SessionId>, f: ItemFacts) -> Option<u64> {
    match session {
        Some(s) => if f.flashes@.contains_key(s) && flashing(f.flashes@[s], f.now_ms) {
            if f.now_ms >= f.flashes@[s] {
                Some((f.now_ms - f.flashes@[s]) as u64)
            } else {
                Some(0)
            }
        } else {
            None
        },
        None => None,
    }
}

impl ItemFacts {
    /// What stands in front of the title of a tab or a session.
    pub fn icon(&self, kind: ItemKind, session: Option<SessionId>) -> (r: ItemIcon)
        ensures
            r.model() == icon_of(kind, session, *self),
    {
        let progress: Option<TerminalProgress> = match session {
            Some(s) => match self.progress.get(&s) {
                Some(update) => update.progress,
                None => None,
            },
            None => None,
        };
        match progress {
            Some(p) => ItemIcon::Ring {
                progress: p,
                color: progress_color(p.state, &self.palette, self.accent),
                label: progress_label(p, self.language, self.now_unix_ms),
            },
            None => ItemIcon::Kind(item_kind_icon(kind)),
        }
    }

    /// For how long the flash of a session has been going on; none where it does not flash.
    pub fn flash(&self, session: Option<SessionId>) -> (r: Option<u64>)
        ensures
            r == flash_age(session, *self),
    {
        match session {
            Some(s) => match self.flashes.get(&s) {
                Some(start) => {
                    let age: u64 = self.now_ms.saturating_sub(*start);
                    if age < BELL_FLASH_MS {
                        Some(age)
                    } else {
                        None
                    }
                },
                None => None,
            },
            None => None,
        }
    }
}

/// The user's choice about blinking cursors: as the program asks, always, or never.
#[derive(Clone, Copy, Debug, PartialEq, Eq, Structural)]
pub enum CursorBlink {
    Program,
    On,
    Off,
}

/// Half of a blink: the time for which the cursor is solid, and then hidden.
pub const CURSOR_BLINK_HALF_MS: u64 = 500;

/// Whether the cursor blinks.
pub open spec fn blinks(setting: CursorBlink, hidden: bool, program_asks: bool) -> bool {
    !hidden && match setting {
        CursorBlink::Program => program_asks,
        CursorBlink::On => true,
        CursorBlink::Off => false,
    }
}

/// Whether the cursor blinks: a hidden one never does.
pub fn cursor_should_blink(setting: CursorBlink, hidden: bool, program_asks: bool) -> (r: bool)
    ensures
        r == blinks(setting, hidden, program_asks),
{
    !hidden && match setting {
        CursorBlink::Program => program_asks,
        CursorBlink::On => true,
        CursorBlink::Off => false,
    }
}

/// The cursor is painted: always where it does not blink, else in the first half of each cycle.
pub open spec fn cursor_painted(should_blink: bool, elapsed_ms: u64) -> bool {
    !should_blink || elapsed_ms as int % (2 * CURSOR_BLINK_HALF_MS) < CURSOR_BLINK_HALF_MS
}

/// Whether the cursor is painted `elapsed_ms` after the blink started.
pub fn cursor_visible_this_frame(should_blink: bool, elapsed_ms: u64) -> (r: bool)
    ensures
        r == cursor_painted(should_blink, elapsed_ms),
{
    !should_blink || elapsed_ms % 1000 < CURSOR_BLINK_HALF_MS
}

/// Whether an animation is running that goes on only as long as something moves.
#[derive(Clone, Copy, Debug, PartialEq, Eq, Structural)]
pub struct Ticker {
    pub running: bool,
}

impl Ticker {
    /// Starts the animation where something moves. Returns whether it has to be started: not where it
    /// is running already.
    pub fn ensure(&mut self, moves: bool) -> (r: bool)
        ensures
            r == (moves && !old(self).running),
            final(self).running == (moves || old(self).running),
    {
        let r: bool = moves && !self.running;
        self.running = moves || self.running;
        r
    }

    /// A step of the animation has come. Returns whether the window is redrawn and the animation goes
    /// on: only as long as something moves.
    pub fn step(&mut self, moves: bool) -> (r: bool)
        ensures
            r == moves,
            final(self).running == moves,
    {
        self.running = moves;
        moves
    }
}

/// A program is told of the focus only where the window has it; a program that loses it is told first.
/// Where nothing changes nobody is told.
pub proof fn the_focus_goes_from_one_program_to_the_next(f: FocusState, active: Option<SessionId>)
    ensures
        f.has_focus ==> focus_target(f, active) == active,
        !f.has_focus ==> focus_target(f, active) is None,
        f.has_focus && f.focused == active ==> planned(f, active).leave is None && planned(
            f,
            active,
        ).enter is None,
        f.has_focus && f.focused != active ==> planned(f, active).leave == f.focused && planned(
            f,
            active,
        ).enter == active,
        !f.has_focus ==> planned(f, active).leave == f.focused && planned(f, active).enter is None,
{
}

/// After a change the program that was told has the focus; where it could not be told nobody has.
pub proof fn only_a_program_that_was_told_has_the_focus(
    f: FocusState,
    leave: Option<SessionId>,
    enter: Option<SessionId>,
)
    ensures
        applied(f, FocusPlan { leave, enter }, true).has_focus == f.has_focus,
        enter is Some ==> applied(f, FocusPlan { leave, enter }, true).focused == enter && applied(
            f,
            FocusPlan { leave, enter },
            false,
        ).focused is None,
        enter is None && leave is Some ==> applied(f, FocusPlan { leave, enter }, true).focused
            is None,
        enter is None && leave is None ==> applied(f, FocusPlan { leave, enter }, true).focused
            == f.focused,
{
}

/// A new size is asked for at once where no request is under way; while one is, it waits. The size that
/// is wanted anyway is not asked for again.
pub proof fn a_new_size_is_asked_for(st: ResizeState, size: TerminalSize)
    ensures
        st.wanted == Some(size) ==> after_room(st, size) == (st, None::<TerminalSize>),
        st.wanted != Some(size) ==> after_room(st, size).0.wanted == Some(size),
        st.wanted != Some(size) && st.in_flight is None ==> after_room(st, size).1 == Some(size)
            && after_room(st, size).0.in_flight == Some(size),
        st.wanted != Some(size) && st.in_flight is Some ==> after_room(st, size).1 is None
            && after_room(st, size).0.in_flight == st.in_flight,
{
}

/// Once a request is answered the size that is wanted by then is asked for, where it is another; after a
/// failure nothing is, and the size that failed may be asked for again. An answer to an older request
/// changes nothing.
pub proof fn an_answer_lets_the_next_size_go(st: ResizeState, sent: TerminalSize, ok: bool)
    ensures
        st.in_flight != Some(sent) ==> after_reply(st, sent, ok) == (st, None::<TerminalSize>),
        st.in_flight == Some(sent) && ok && st.wanted == Some(sent) ==> after_reply(st, sent, ok).1
            is None && after_reply(st, sent, ok).0.in_flight is None && after_reply(
            st,
            sent,
            ok,
        ).0.wanted == Some(sent),
        st.in_flight == Some(sent) && ok && st.wanted != Some(sent) ==> after_reply(st, sent, ok).1
            == st.wanted && after_reply(st, sent, ok).0.in_flight == st.wanted,
        st.in_flight == Some(sent) && !ok ==> after_reply(st, sent, ok).1 is None && after_reply(
            st,
            sent,
            ok,
        ).0.in_flight is None && after_reply(st, sent, ok).0.wanted != Some(sent) && (st.wanted
            != Some(sent) ==> after_reply(st, sent, ok).0.wanted == st.wanted),
{
}

/// What is known of the size of a session is what is held for it, and for no other session.
pub proof fn sizes_are_held_by_session(r: Resizes, s: SessionId)
    ensures
        r.wanted@.contains_key(s) ==> wanted(r, s) == Some(r.wanted@[s]),
        !r.wanted@.contains_key(s) ==> wanted(r, s) is None,
        r.in_flight@.contains_key(s) ==> in_flight(r, s) == Some(r.in_flight@[s]),
        !r.in_flight@.contains_key(s) ==> in_flight(r, s) is None,
        resize_state(r, s).wanted == wanted(r, s),
        resize_state(r, s).in_flight == in_flight(r, s),
{
}

/// How long ago something was reported is told in seconds, minutes and hours, as many whole ones as have
/// passed.
pub proof fn recency_is_told_in_whole_units(seconds: nat)
    ensures
        seconds <= 1 ==> recency_text(Language::English, seconds) == "updated just now"@,
        2 <= seconds < 60 ==> recency_text(Language::English, seconds) == "updated "@
            + text::decimal(seconds) + "s ago"@,
        60 <= seconds < 3600 ==> recency_text(Language::English, seconds) == "updated "@
            + text::decimal(seconds / 60) + "m ago"@,
        3600 <= seconds ==> recency_text(Language::English, seconds) == "updated "@ + text::decimal(
            seconds / 3600,
        ) + "h ago"@,
        seconds <= 1 ==> recency_text(Language::SimplifiedChinese, seconds) == "刚刚更新"@,
        2 <= seconds < 60 ==> recency_text(Language::SimplifiedChinese, seconds) == text::decimal(
            seconds,
        ) + " 秒前更新"@,
        60 <= seconds < 3600 ==> recency_text(Language::SimplifiedChinese, seconds)
            == text::decimal(seconds / 60) + " 分钟前更新"@,
        3600 <= seconds ==> recency_text(Language::SimplifiedChinese, seconds) == text::decimal(
            seconds / 3600,
        ) + " 小时前更新"@,
{
}

/// Progress is told by its state, complete only where it is normal and all is done; the percentage
/// follows where it is known, and how long ago it was reported, a report from ahead counting as just
/// now.
pub proof fn progress_is_told_by_its_state(p: TerminalProgress, now: u64)
    ensures
        ({
            let told = progress_text(p, Language::English, now);
            let state = match p.state {
                TerminalProgressState::Normal => if p.percent == Some(100u8) {
                    "Complete"@
                } else {
                    "Running"@
                },
                TerminalProgressState::Error => "Error"@,
                TerminalProgressState::Indeterminate => "Indeterminate"@,
                TerminalProgressState::Paused => "Paused"@,
            };
            let recency = if now < p.updated_at_unix_ms {
                "updated just now"@
            } else {
                recency_text(
                    Language::English,
                    ((now - p.updated_at_unix_ms) / 1000) as nat,
                )
            };
            &&& p.percent is None ==> told == state + " · "@ + recency
            &&& p.percent matches Some(percent) ==> told == state + " · "@ + text::decimal(
                percent as nat,
            ) + "%"@ + " · "@ + recency
        }),
{
    let told = progress_text(p, Language::English, now);
    match p.percent {
        None => {
            assert(told =~= status_text(Language::English, p) + " · "@ + recency_text(
                Language::English,
                if now >= p.updated_at_unix_ms {
                    ((now - p.updated_at_unix_ms) / 1000) as nat
                } else {
                    0
                },
            ));
        },
        Some(percent) => {
            assert(told =~= status_text(Language::English, p) + " · "@ + text::decimal(
                percent as nat,
            ) + "%"@ + " · "@ + recency_text(
                Language::English,
                if now >= p.updated_at_unix_ms {
                    ((now - p.updated_at_unix_ms) / 1000) as nat
                } else {
                    0
                },
            ));
        },
    }
}

/// A report that waits to be shown is newer than the one that is shown.
pub proof fn a_waiting_report_is_the_newest(b: ProgressBoard, s: SessionId)
    ensures
        b.pending@.contains_key(s) ==> newest(b, s) == Some(b.pending@[s]),
        !b.pending@.contains_key(s) && b.shown@.contains_key(s) ==> newest(b, s) == Some(b.shown@[s]),
        !b.pending@.contains_key(s) && !b.shown@.contains_key(s) ==> newest(b, s) is None,
{
}

/// Only progress of unknown length moves by itself.
pub proof fn only_unknown_progress_moves(u: TerminalProgressUpdate)
    ensures
        is_indeterminate(u) <==> u.progress is Some && u.progress->0.state
            == TerminalProgressState::Indeterminate,
{
}

/// A ring is red for an error, yellow while paused, and else of the accent color.
pub proof fn a_ring_has_the_color_of_its_state(palette: Seq<u32>, accent: u32)
    ensures
        ring_color(TerminalProgressState::Error, palette, accent) == palette[1],
        ring_color(TerminalProgressState::Paused, palette, accent) == palette[3],
        ring_color(TerminalProgressState::Normal, palette, accent) == accent,
        ring_color(TerminalProgressState::Indeterminate, palette, accent) == accent,
{
}

/// A flash goes on for 420 milliseconds from its start, and its age is the time since then; a session
/// without a flash has none.
pub proof fn a_flash_lasts_its_time(f: ItemFacts, s: SessionId)
    ensures
        !f.flashes@.contains_key(s) ==> flash_age(Some(s), f) is None,
        f.flashes@.contains_key(s) && f.now_ms >= f.flashes@[s] + 420 ==> flash_age(Some(s), f)
            is None,
        f.flashes@.contains_key(s) && f.flashes@[s] <= f.now_ms < f.flashes@[s] + 420 ==> flash_age(
            Some(s),
            f,
        ) == Some((f.now_ms - f.flashes@[s]) as u64),
        f.flashes@.contains_key(s) && f.now_ms < f.flashes@[s] ==> flash_age(Some(s), f) == Some(
            0u64,
        ),
        flash_age(None, f) is None,
        flashing(0, 419),
        !flashing(0, 420),
{
}

/// A tab shows a ring exactly where its session reports progress, with that progress; else the icon of
/// its kind.
pub proof fn a_ring_is_shown_for_reported_progress(
    kind: ItemKind,
    session: Option<SessionId>,
    f: ItemFacts,
)
    ensures
        ({
            let reported = session is Some && f.progress@.contains_key(session->0)
                && f.progress@[session->0].progress is Some;
            &&& reported ==> (icon_of(kind, session, f) matches IconView::Ring {
                progress,
                color,
                label,
            } && f.progress@[session->0].progress == Some(progress) && label == progress_text(
                progress,
                f.language,
                f.now_unix_ms,
            ) && (progress.state is Error ==> color == f.palette@[1]) && (progress.state is Paused
                ==> color == f.palette@[3]) && (progress.state is Normal
                || progress.state is Indeterminate ==> color == f.accent))
            &&& !reported && kind is Terminal ==> icon_of(kind, session, f) == IconView::Kind(
                IconName::Terminal,
            )
            &&& !reported && kind is File ==> icon_of(kind, session, f) == IconView::Kind(
                IconName::File,
            )
            &&& !reported && kind is Browser ==> icon_of(kind, session, f) == IconView::Kind(
                IconName::Browser,
            )
            &&& !reported && kind is Settings ==> icon_of(kind, session, f) == IconView::Kind(
                IconName::Settings,
            )
        }),
{
}

/// An icon is told by all of its parts.
pub proof fn icons_are_told_by_their_parts(a: ItemIcon, b: ItemIcon)
    requires
        a.model() == b.model(),
    ensures
        a matches ItemIcon::Kind(icon) ==> b == ItemIcon::Kind(icon),
        a matches ItemIcon::Ring { progress, color, label } ==> (b matches ItemIcon::Ring {
            progress: p,
            color: c,
            label: l,
        } && p == progress && c == color && l@ == label@),
{
}

/// A hidden cursor does not blink; a shown one does as the user chose, or as the program asks where the
/// user left it to the program.
pub proof fn a_cursor_blinks_as_chosen(hidden: bool, asks: bool)
    ensures
        !blinks(CursorBlink::On, true, asks) && !blinks(CursorBlink::Program, true, asks),
        blinks(CursorBlink::On, false, asks),
        !blinks(CursorBlink::Off, hidden, asks),
        blinks(CursorBlink::Program, false, asks) == asks,
{
}

/// A cursor that does not blink is always painted; one that blinks is painted for half a second and
/// hidden for half a second, over and over.
pub proof fn a_blinking_cursor_comes_and_goes(ms: u64)
    requires
        ms < 0xffff_ffff_ffff_0000,
    ensures
        cursor_painted(false, ms),
        cursor_painted(true, 0),
        cursor_painted(true, 499),
        !cursor_painted(true, 500),
        !cursor_painted(true, 999),
        cursor_painted(true, (ms + 500) as u64) == !cursor_painted(true, ms),
{
}

/// The states of progress have their words in the other language too, and stand there in the same way.
pub proof fn progress_is_told_in_chinese(p: TerminalProgress, now: u64)
    ensures
        ({
            let told = progress_text(p, Language::SimplifiedChinese, now);
            let state = match p.state {
                TerminalProgressState::Normal => if p.percent == Some(100u8) {
                    "已完成"@
                } else {
                    "运行中"@
                },
                TerminalProgressState::Error => "错误"@,
                TerminalProgressState::Indeterminate => "不确定"@,
                TerminalProgressState::Paused => "已暂停"@,
            };
            let seconds = if now >= p.updated_at_unix_ms {
                ((now - p.updated_at_unix_ms) / 1000) as nat
            } else {
                0
            };
            let recency = recency_text(Language::SimplifiedChinese, seconds);
            &&& p.percent is None ==> told == state + " · "@ + recency
            &&& p.percent matches Some(percent) ==> told == state + " · "@ + text::decimal(
                percent as nat,
            ) + "%"@ + " · "@ + recency
        }),
{
    let told = progress_text(p, Language::SimplifiedChinese, now);
    let state = status_text(Language::SimplifiedChinese, p);
    let seconds = if now >= p.updated_at_unix_ms {
        ((now - p.updated_at_unix_ms) / 1000) as nat
    } else {
        0
    };
    let recency = recency_text(Language::SimplifiedChinese, seconds);
    match p.percent {
        None => {
            assert(told =~= state + " · "@ + recency);
        },
        Some(percent) => {
            assert(told =~= state + " · "@ + text::decimal(percent as nat) + "%"@ + " · "@
                + recency);
        },
    }
}

} // verus!
