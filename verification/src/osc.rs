//! What the requests of programs in a terminal (notifications, clipboard, links, bells, files)
//! make the window do.

use vstd::prelude::*;
use crate::clipboard;
use crate::clipboard::{ClipboardEntry, OfferedContent};
use crate::i18n;
use crate::i18n::Language;
use crate::layout::SessionId;
use crate::sessions;
use crate::sessions::SessionSummary;
use crate::text;

verus! {

/// The id in its usual form: groups of hexadecimal digits joined by hyphens.
pub open spec fn id_text(id: u128) -> Seq<char> {
    text::hex(id as nat / 0x1_0000_0000_0000_0000_0000_0000, 8) + "-"@ + text::hex(
        id as nat / 0x1_0000_0000_0000_0000_0000,
        4,
    ) + "-"@ + text::hex(id as nat / 0x1_0000_0000_0000_0000, 4) + "-"@ + text::hex(
        id as nat / 0x1_0000_0000_0000,
        4,
    ) + "-"@ + text::hex(id as nat, 12)
}

/// Appends the id in its usual form.
pub fn push_id(out: &mut String, id: u128)
    ensures
        final(out)@ == old(out)@ + id_text(id),
{
    text::push_hex(out, id / 0x1_0000_0000_0000_0000_0000_0000, 8);
    out.append("-");
    text::push_hex(out, id / 0x1_0000_0000_0000_0000_0000, 4);
    out.append("-");
    text::push_hex(out, id / 0x1_0000_0000_0000_0000, 4);
    out.append("-");
    text::push_hex(out, id / 0x1_0000_0000_0000, 4);
    out.append("-");
    text::push_hex(out, id, 12);
    assert(out@ =~= old(out)@ + id_text(id));
}

/// The tag under which the system knows a notification of a session.
pub open spec fn tag_text(session: SessionId, notification: Seq<char>) -> Seq<char> {
    "eggie:"@ + id_text(session) + ":"@ + notification
}

/// The tag under which the system knows a notification of a session.
pub fn notification_tag(session_id: SessionId, notification_id: &str) -> (r: String)
    ensures
        r@ == tag_text(session_id, notification_id@),
{
    let mut r: String = "eggie:".to_owned();
    push_id(&mut r, session_id);
    r.append(":");
    r.append(notification_id);
    assert(r@ =~= tag_text(session_id, notification_id@));
    r
}

/// What a bell does.
#[derive(Clone, Copy, Debug, PartialEq, Eq, Structural)]
pub enum BellMode {
    Silent,
    Flash,
    Sound,
    FlashAndSound,
}

impl BellMode {
    /// Whether a bell sounds.
    pub fn plays_sound(self) -> (r: bool)
        ensures
            r == (self is Sound || self is FlashAndSound),
    {
        match self {
            BellMode::Sound => true,
            BellMode::FlashAndSound => true,
            _ => false,
        }
    }

    /// Whether a bell makes the tab flash.
    pub fn flashes(self) -> (r: bool)
        ensures
            r == (self is Flash || self is FlashAndSound),
    {
        match self {
            BellMode::Flash => true,
            BellMode::FlashAndSound => true,
            _ => false,
        }
    }
}

/// Which of the system's two clipboards a program means.
#[derive(Clone, Copy, Debug, PartialEq, Eq, Structural)]
pub enum ClipboardSelection {
    Clipboard,
    Primary,
}

/// What a program asks for.
#[derive(Clone, Debug)]
pub enum OscRequest {
    Notification { id: String, title: String, body: String, close_response_requested: bool },
    NotificationClose { id: String },
    ClipboardWrite { selection: ClipboardSelection, contents: Vec<OfferedContent> },
    ClipboardRead { request_id: u64, selection: ClipboardSelection, mime_types: Vec<String> },
    OpenUrl { url: String },
    FocusRequest,
    Bell,
    Attention { cancel: bool },
    FileTransfer { request_id: u64, directory: bool, suggested_name: String },
}

/// What the window is like when a program asks for something.
pub struct OscContext {
    pub session_id: SessionId,
    pub window_active: bool,
    pub bell_mode: BellMode,
    pub language: Language,
    /// Whether the system has a primary selection besides the clipboard.
    pub has_primary: bool,
}

/// What the window does.
#[derive(Debug)]
pub enum OscAction {
    Nothing,
    /// Tell the program that its notification was not activated.
    AnswerNotification { notification_id: String },
    ShowNotification {
        tag: String,
        notification_id: String,
        title: String,
        body: String,
        dismiss_label: Option<String>,
    },
    DismissNotification { tag: String },
    WriteClipboard { to_primary: bool, entries: Vec<ClipboardEntry> },
    ReadClipboard { from_primary: bool, request_id: u64, mime_types: Vec<String> },
    /// Ask the user before opening a link.
    ConfirmUrl { title: String, detail: String, open_label: String, cancel_label: String, url: String },
    ActivateSession,
    Ring { sound: bool, flash: bool, attention: bool },
    RequestAttention,
    PickDirectory { prompt: String, request_id: u64 },
    PickNewFile { directory: String, suggested_name: String, request_id: u64 },
}

/// Whether the primary selection is used: where the program asks for it and the system has one.
pub open spec fn uses_primary(c: OscContext, s: ClipboardSelection) -> bool {
    s is Primary && c.has_primary
}

/// The action that answers the request.
pub open spec fn answers(
    c: OscContext,
    ss: Seq<SessionSummary>,
    request: OscRequest,
    action: OscAction,
) -> bool {
    match request {
        OscRequest::Notification { id, title, body, close_response_requested } => if c.window_active {
            action matches OscAction::AnswerNotification { notification_id } && notification_id@
                == id@
        } else {
            action matches OscAction::ShowNotification {
                tag,
                notification_id,
                title: t,
                body: b,
                dismiss_label,
            } && tag@ == tag_text(c.session_id, id@) && notification_id@ == id@ && t@ == title@
                && b@ == body@ && (match dismiss_label {
                Some(l) => close_response_requested && l@ == i18n::pick(
                    c.language,
                    "Dismiss"@,
                    "关闭"@,
                ),
                None => !close_response_requested,
            })
        },
        OscRequest::NotificationClose { id } => action matches OscAction::DismissNotification {
            tag,
        } && tag@ == tag_text(c.session_id, id@),
        OscRequest::ClipboardWrite { selection, contents } => {
            let made = clipboard::clipboard_entries(contents@);
            if made.len() == 0 {
                action is Nothing
            } else {
                action matches OscAction::WriteClipboard { to_primary, entries } && to_primary
                    == uses_primary(c, selection) && clipboard::entries(entries@) == made
            }
        },
        OscRequest::ClipboardRead { request_id, selection, mime_types } => action
            matches OscAction::ReadClipboard {
            from_primary,
            request_id: r,
            mime_types: m,
        } && from_primary == uses_primary(c, selection) && r == request_id && m == mime_types,
        OscRequest::OpenUrl { url } => action matches OscAction::ConfirmUrl {
            title,
            detail,
            open_label,
            cancel_label,
            url: u,
        } && u@ == url@ && title@ == i18n::pick(
            c.language,
            "Allow terminal to open this URL?"@,
            "允许终端打开此 URL？"@,
        ) && detail@ == i18n::pick(
            c.language,
            "A process in this terminal wants to open:"@,
            "此终端中的某个进程想要打开："@,
        ) + "\n"@ + url@ && open_label@ == i18n::pick(c.language, "Open"@, "打开"@)
            && cancel_label@ == i18n::pick(c.language, "Cancel"@, "取消"@),
        OscRequest::FocusRequest => action is ActivateSession,
        OscRequest::Bell => action == OscAction::Ring {
            sound: c.bell_mode is Sound || c.bell_mode is FlashAndSound,
            flash: c.bell_mode is Flash || c.bell_mode is FlashAndSound,
            attention: (c.bell_mode is Flash || c.bell_mode is FlashAndSound) && !c.window_active,
        },
        OscRequest::Attention { cancel } => if !cancel && !c.window_active {
            action is RequestAttention
        } else {
            action is Nothing
        },
        OscRequest::FileTransfer { request_id, directory, suggested_name } => if directory {
            action matches OscAction::PickDirectory { prompt, request_id: r } && r == request_id
                && prompt@ == i18n::pick(
                c.language,
                "Choose where to receive terminal files"@,
                "选择接收终端文件的位置"@,
            )
        } else {
            action matches OscAction::PickNewFile {
                directory: d,
                suggested_name: n,
                request_id: r,
            } && r == request_id && n@ == suggested_name@ && d@ == sessions::receive_directory(
                ss,
                c.session_id,
            )
        },
    }
}

/// What the window does when a program asks for something. A notification is shown only while
/// the window is not in front, and a link is opened only after the user agreed.
pub fn handle_osc_event(
    context: &OscContext,
    window_sessions: &Vec<SessionSummary>,
    request: OscRequest,
) -> (r: OscAction)
    ensures
        answers(*context, window_sessions@, request, r),
{
    let language: Language = context.language;
    match request {
        OscRequest::Notification { id, title, body, close_response_requested } => {
            if context.window_active {
                return OscAction::AnswerNotification { notification_id: id };
            }
            let tag: String = notification_tag(context.session_id, id.as_str());
            let dismiss_label: Option<String> = if close_response_requested {
                Some(language.dismiss().to_owned())
            } else {
                None
            };
            OscAction::ShowNotification { tag, notification_id: id, title, body, dismiss_label }
        },
        OscRequest::NotificationClose { id } => OscAction::DismissNotification {
            tag: notification_tag(context.session_id, id.as_str()),
        },
        OscRequest::ClipboardWrite { selection, contents } => {
            match clipboard::clipboard_item_from_contents(&contents) {
                Some(entries) => OscAction::WriteClipboard {
                    to_primary: match selection {
                        ClipboardSelection::Primary => context.has_primary,
                        ClipboardSelection::Clipboard => false,
                    },
                    entries,
                },
                None => OscAction::Nothing,
            }
        },
        OscRequest::ClipboardRead { request_id, selection, mime_types } => OscAction::ReadClipboard {
            from_primary: match selection {
                ClipboardSelection::Primary => context.has_primary,
                ClipboardSelection::Clipboard => false,
            },
            request_id,
            mime_types,
        },
        OscRequest::OpenUrl { url } => {
            let mut detail: String = language.url_open_detail().to_owned();
            detail.append("\n");
            detail.append(url.as_str());
            OscAction::ConfirmUrl {
                title: language.allow_url_open_title().to_owned(),
                detail,
                open_label: language.open().to_owned(),
                cancel_label: language.cancel().to_owned(),
                url,
            }
        },
        OscRequest::FocusRequest => OscAction::ActivateSession,
        OscRequest::Bell => {
            let flash: bool = context.bell_mode.flashes();
            OscAction::Ring {
                sound: context.bell_mode.plays_sound(),
                flash,
                attention: flash && !context.window_active,
            }
        },
        OscRequest::Attention { cancel } => {
            if !cancel && !context.window_active {
                OscAction::RequestAttention
            } else {
                OscAction::Nothing
            }
        },
        OscRequest::FileTransfer { request_id, directory, suggested_name } => {
            if directory {
                OscAction::PickDirectory {
                    prompt: language.choose_receive_files_prompt().to_owned(),
                    request_id,
                }
            } else {
                OscAction::PickNewFile {
                    directory: sessions::file_transfer_directory(
                        window_sessions,
                        context.session_id,
                    ),
                    suggested_name,
                    request_id,
                }
            }
        },
    }
}

/// Whether the answer to a notification brings its session to the front: any but its close button
/// does.
pub fn notification_activates(action_id: &Option<String>) -> (r: bool)
    ensures
        r == match *action_id {
            Some(id) => id@ != "close"@,
            None => true,
        },
{
    match action_id {
        Some(id) => !text::text_eq(id.as_str(), "close"),
        None => true,
    }
}

/// While the window is in front, no program's request draws the user's attention: no
/// notification is shown and no attention is requested.
pub proof fn a_window_in_front_is_not_disturbed(
    c: OscContext,
    ss: Seq<SessionSummary>,
    request: OscRequest,
    action: OscAction,
)
    requires
        c.window_active,
        answers(c, ss, request, action),
    ensures
        !(action is ShowNotification),
        !(action is RequestAttention),
        action matches OscAction::Ring { attention, .. } ==> !attention,
{
}

/// Where the answer to a notification that is shown goes: to the program that sent it.
#[derive(Clone, Debug)]
pub struct NotificationRoute {
    pub tag: String,
    pub session_id: SessionId,
    pub notification_id: String,
}

/// The way of an answer, as a mathematical value.
pub struct Route {
    pub tag: Seq<char>,
    pub session_id: SessionId,
    pub notification_id: Seq<char>,
}

pub open spec fn route(r: NotificationRoute) -> Route {
    Route { tag: r.tag@, session_id: r.session_id, notification_id: r.notification_id@ }
}

pub open spec fn routes(v: Seq<NotificationRoute>) -> Seq<Route> {
    v.map_values(|r: NotificationRoute| route(r))
}

/// Tells the ways with another tag from those with this one.
pub open spec fn other_tag(tag: Seq<char>) -> spec_fn(Route) -> bool {
    |r: Route| r.tag != tag
}

/// The ways without those that have this tag.
pub open spec fn without_tag(v: Seq<Route>, tag: Seq<char>) -> Seq<Route> {
    v.filter(other_tag(tag))
}

/// The first way with this tag.
pub open spec fn route_of(v: Seq<Route>, tag: Seq<char>) -> Option<Route>
    decreases v.len(),
{
    if v.len() == 0 {
        None
    } else if v[0].tag == tag {
        Some(v[0])
    } else {
        route_of(v.skip(1), tag)
    }
}

/// Forgets where the answer to a notification goes, once it is dismissed.
pub fn forget_notification(all: &mut Vec<NotificationRoute>, tag: &str)
    ensures
        routes(final(all)@) == without_tag(routes(old(all)@), tag@),
{
    let ghost before = routes(all@);
    let ghost keep = other_tag(tag@);
    let mut kept: Vec<NotificationRoute> = Vec::new();
    let mut i: usize = 0;
    assert(routes(kept@) =~= before.take(0).filter(keep));
    while i < all.len()
        invariant
            i <= all@.len(),
            before == routes(all@),
            keep == other_tag(tag@),
            routes(kept@) == before.take(i as int).filter(keep),
        decreases all@.len() - i,
    {
        let ghost now = before.take(i + 1);
        proof {
            reveal(Seq::filter);
            assert(now.drop_last() =~= before.take(i as int));
            assert(now.last() == route(all@[i as int]));
        }
        if !text::text_eq(all[i].tag.as_str(), tag) {
            let ghost had = kept@;
            let copy: NotificationRoute = NotificationRoute {
                tag: all[i].tag.clone(),
                session_id: all[i].session_id,
                notification_id: all[i].notification_id.clone(),
            };
            assert(route(copy) == route(all@[i as int]));
            kept.push(copy);
            assert(routes(kept@) =~= routes(had).push(route(copy)));
        }
        i = i + 1;
    }
    assert(before.take(i as int) =~= before);
    *all = kept;
}

/// Remembers where the answer to a notification goes that is shown now, in place of an earlier one
/// with the same tag.
pub fn remember_notification(
    all: &mut Vec<NotificationRoute>,
    tag: String,
    session_id: SessionId,
    notification_id: String,
)
    ensures
        routes(final(all)@) == without_tag(routes(old(all)@), tag@).push(
            (Route { tag: tag@, session_id, notification_id: notification_id@ }),
        ),
{
    forget_notification(all, tag.as_str());
    let ghost had = all@;
    let new: NotificationRoute = NotificationRoute { tag, session_id, notification_id };
    all.push(new);
    assert(routes(all@) =~= routes(had).push(route(new)));
}

/// The user's answer to a notification: what the program is told, and whether its session comes to
/// the front.
#[derive(Clone, Debug)]
pub struct NotificationAnswer {
    pub session_id: SessionId,
    pub notification_id: String,
    pub activated: bool,
}

/// Takes the user's answer to a notification. The notification is dismissed, and the way to the
/// program forgotten. Nothing follows where no way is known for the tag.
pub fn answer_notification(
    all: &mut Vec<NotificationRoute>,
    tag: &str,
    action_id: &Option<String>,
) -> (r: Option<NotificationAnswer>)
    ensures
        match route_of(routes(old(all)@), tag@) {
            Some(way) => {
                &&& r matches Some(answer) && answer.session_id == way.session_id
                    && answer.notification_id@ == way.notification_id && answer.activated == (
                match *action_id {
                    Some(id) => id@ != "close"@,
                    None => true,
                })
                &&& routes(final(all)@) == without_tag(routes(old(all)@), tag@)
            },
            None => r is None && final(all)@ == old(all)@,
        },
{
    let ghost before = routes(all@);
    let mut i: usize = 0;
    assert(before.skip(0) =~= before);
    while i < all.len()
        invariant
            i <= all@.len(),
            all@ == old(all)@,
            before == routes(all@),
            route_of(before, tag@) == route_of(before.skip(i as int), tag@),
        decreases all@.len() - i,
    {
        assert(before.skip(i as int)[0] == route(all@[i as int]));
        if text::text_eq(all[i].tag.as_str(), tag) {
            let answer: NotificationAnswer = NotificationAnswer {
                session_id: all[i].session_id,
                notification_id: all[i].notification_id.clone(),
                activated: notification_activates(action_id),
            };
            forget_notification(all, tag);
            return Some(answer);
        }
        assert(before.skip(i as int).skip(1) =~= before.skip(i + 1));
        i = i + 1;
    }
    None
}

proof fn no_way_is_left(v: Seq<Route>, tag: Seq<char>)
    requires
        forall|k: int| 0 <= k < v.len() ==> (#[trigger] v[k]).tag != tag,
    ensures
        route_of(v, tag) is None,
    decreases v.len(),
{
    if v.len() > 0 {
        no_way_is_left(v.skip(1), tag);
    }
}

proof fn the_last_way_is_found(v: Seq<Route>, new: Route)
    requires
        forall|k: int| 0 <= k < v.len() ==> (#[trigger] v[k]).tag != new.tag,
    ensures
        route_of(v.push(new), new.tag) == Some(new),
    decreases v.len(),
{
    let w = v.push(new);
    if v.len() > 0 {
        assert(w.skip(1) =~= v.skip(1).push(new));
        the_last_way_is_found(v.skip(1), new);
    }
}

/// The answer to a notification that is shown goes to the program that sent it, and it is taken once:
/// after it no way is known for its tag any more.
pub proof fn a_notification_is_answered_once(v: Seq<Route>, new: Route)
    ensures
        ({
            let shown = without_tag(v, new.tag).push(new);
            &&& route_of(shown, new.tag) == Some(new)
            &&& route_of(without_tag(shown, new.tag), new.tag) is None
        }),
{
    let keep = other_tag(new.tag);
    let rest = without_tag(v, new.tag);
    assert forall|k: int| 0 <= k < rest.len() implies (#[trigger] rest[k]).tag != new.tag by {
        sessions::filter_comes_from(v, keep, k);
    }
    the_last_way_is_found(rest, new);
    let shown = rest.push(new);
    let left = without_tag(shown, new.tag);
    assert forall|k: int| 0 <= k < left.len() implies (#[trigger] left[k]).tag != new.tag by {
        sessions::filter_comes_from(shown, keep, k);
    }
    no_way_is_left(left, new.tag);
}

proof fn digits_fall_off(n: nat)
    ensures
        text::without_digits(n, 12) == n / 0x1_0000_0000_0000,
        text::without_digits(n, 16) == n / 0x1_0000_0000_0000_0000,
        text::without_digits(n, 20) == n / 0x1_0000_0000_0000_0000_0000,
        text::without_digits(n, 24) == n / 0x1_0000_0000_0000_0000_0000_0000,
        n < 0x1_0000_0000_0000_0000_0000_0000_0000_0000 ==> text::fits_hex(n, 32),
{
    four_digits_fall_off(n, 20);
    four_digits_fall_off(n, 16);
    four_digits_fall_off(n, 12);
    four_digits_fall_off(n, 8);
    four_digits_fall_off(n, 4);
    four_digits_fall_off(n, 0);
    let a = n / 0x1_0000;
    let b = n / 0x1_0000_0000;
    let c = n / 0x1_0000_0000_0000;
    let d = n / 0x1_0000_0000_0000_0000;
    let e = n / 0x1_0000_0000_0000_0000_0000;
    assert(a / 0x1_0000 == b);
    assert(b / 0x1_0000 == c);
    assert(c / 0x1_0000 == d);
    assert(d / 0x1_0000 == e);
    assert(e / 0x1_0000 == n / 0x1_0000_0000_0000_0000_0000_0000);
    assert(text::without_digits(n, 0) == n);
    if n < 0x1_0000_0000_0000_0000_0000_0000_0000_0000 {
        four_digits_fall_off(n, 24);
        four_digits_fall_off(n, 28);
        let f = n / 0x1_0000_0000_0000_0000_0000_0000;
        assert(f < 0x1_0000_0000);
        assert(text::without_digits(n, 32) == 0);
        what_falls_off_fits(n, 32);
    }
}

proof fn four_digits_fall_off(n: nat, width: nat)
    ensures
        text::without_digits(n, width + 4) == text::without_digits(n, width) / 0x1_0000,
    decreases width,
{
    if width == 0 {
        reveal_with_fuel(text::without_digits, 5);
        assert(n / 16 / 16 == n / 256);
        assert(n / 256 / 16 == n / 4096);
        assert(n / 4096 / 16 == n / 0x1_0000);
    } else {
        four_digits_fall_off(n / 16, (width - 1) as nat);
        assert(((width + 4) - 1) as nat == (width - 1) as nat + 4);
    }
}

proof fn what_falls_off_fits(n: nat, width: nat)
    requires
        text::without_digits(n, width) == 0,
    ensures
        text::fits_hex(n, width),
    decreases width,
{
    if width > 0 {
        what_falls_off_fits(n / 16, (width - 1) as nat);
    }
}

/// An id is written as its thirty-two hexadecimal digits, in groups of eight, four, four, four and
/// twelve with hyphens between them.
pub proof fn an_id_is_written_in_five_groups(id: u128)
    ensures
        ({
            let s = id_text(id);
            let digits = s.subrange(0, 8) + s.subrange(9, 13) + s.subrange(14, 18) + s.subrange(
                19,
                23,
            ) + s.subrange(24, 36);
            &&& s.len() == 36
            &&& s[8] == '-' && s[13] == '-' && s[18] == '-' && s[23] == '-'
            &&& digits == text::hex(id as nat, 32)
            &&& text::hex_number_of(digits) == id
        }),
{
    reveal_strlit("-");
    let n = id as nat;
    digits_fall_off(n);
    let g0 = text::hex(n / 0x1_0000_0000_0000_0000_0000_0000, 8);
    let g1 = text::hex(n / 0x1_0000_0000_0000_0000_0000, 4);
    let g2 = text::hex(n / 0x1_0000_0000_0000_0000, 4);
    let g3 = text::hex(n / 0x1_0000_0000_0000, 4);
    let g4 = text::hex(n, 12);
    text::a_hexadecimal_form_reads_as_its_number(n / 0x1_0000_0000_0000_0000_0000_0000, 8);
    text::a_hexadecimal_form_reads_as_its_number(n / 0x1_0000_0000_0000_0000_0000, 4);
    text::a_hexadecimal_form_reads_as_its_number(n / 0x1_0000_0000_0000_0000, 4);
    text::a_hexadecimal_form_reads_as_its_number(n / 0x1_0000_0000_0000, 4);
    text::a_hexadecimal_form_reads_as_its_number(n, 12);
    text::a_hexadecimal_form_reads_as_its_number(n, 32);
    text::digits_stand_one_behind_the_other(n, 20, 12);
    let m3 = n / 0x1_0000_0000_0000;
    text::digits_stand_one_behind_the_other(m3, 16, 4);
    four_digits_fall_off(n, 12);
    four_digits_fall_off(m3, 0);
    assert(text::without_digits(m3, 0) == m3);
    let m2 = n / 0x1_0000_0000_0000_0000;
    assert(m3 / 0x1_0000 == m2);
    text::digits_stand_one_behind_the_other(m2, 12, 4);
    four_digits_fall_off(m2, 0);
    assert(text::without_digits(m2, 0) == m2);
    let m1 = n / 0x1_0000_0000_0000_0000_0000;
    assert(m2 / 0x1_0000 == m1);
    text::digits_stand_one_behind_the_other(m1, 8, 4);
    four_digits_fall_off(m1, 0);
    assert(text::without_digits(m1, 0) == m1);
    let m0 = n / 0x1_0000_0000_0000_0000_0000_0000;
    assert(m1 / 0x1_0000 == m0);
    assert(text::hex(n, 32) =~= g0 + g1 + g2 + g3 + g4);
    let s = id_text(id);
    assert(s.subrange(0, 8) =~= g0);
    assert(s.subrange(9, 13) =~= g1);
    assert(s.subrange(14, 18) =~= g2);
    assert(s.subrange(19, 23) =~= g3);
    assert(s.subrange(24, 36) =~= g4);
}

/// No two notifications have the same tag: neither two of one session, nor any of two sessions.
pub proof fn tags_differ(a: SessionId, x: Seq<char>, b: SessionId, y: Seq<char>)
    requires
        tag_text(a, x) == tag_text(b, y),
    ensures
        a == b,
        x == y,
{
    reveal_strlit("eggie:");
    reveal_strlit(":");
    an_id_is_written_in_five_groups(a);
    an_id_is_written_in_five_groups(b);
    let s = tag_text(a, x);
    let t = tag_text(b, y);
    assert(s.subrange(6, 42) =~= id_text(a));
    assert(t.subrange(6, 42) =~= id_text(b));
    assert(s.skip(43) =~= x);
    assert(t.skip(43) =~= y);
}

/// A notification is shown exactly while the window is not in front, under its own tag and with its own
/// words; else the program is told at once. It can be dismissed where the program asked to be told.
pub proof fn a_notification_is_shown_in_the_background(
    c: OscContext,
    ss: Seq<SessionSummary>,
    request: OscRequest,
    action: OscAction,
)
    requires
        answers(c, ss, request, action),
        request is Notification,
    ensures
        c.window_active ==> (action matches OscAction::AnswerNotification { notification_id }
            && notification_id@ == request->Notification_id@),
        !c.window_active ==> (action matches OscAction::ShowNotification {
            tag,
            notification_id,
            title,
            body,
            dismiss_label,
        } && tag@ == tag_text(c.session_id, request->Notification_id@) && notification_id@
            == request->Notification_id@ && title@ == request->Notification_title@ && body@
            == request->Notification_body@ && (dismiss_label is Some
            <==> request->close_response_requested)),
{
}

/// A program takes back exactly the notification that it showed: the two have the same tag.
pub proof fn a_notification_is_taken_back_by_its_id(
    c: OscContext,
    ss: Seq<SessionSummary>,
    shown: OscRequest,
    taken: OscRequest,
    a: OscAction,
    b: OscAction,
)
    requires
        answers(c, ss, shown, a),
        answers(c, ss, taken, b),
        shown is Notification,
        taken is NotificationClose,
        !c.window_active,
    ensures
        a is ShowNotification,
        b is DismissNotification,
        a->ShowNotification_tag@ == b->DismissNotification_tag@ <==> shown->Notification_id@
            == taken->NotificationClose_id@,
{
    if a->ShowNotification_tag@ == b->DismissNotification_tag@ {
        tags_differ(
            c.session_id,
            shown->Notification_id@,
            c.session_id,
            taken->NotificationClose_id@,
        );
    }
}

/// The primary selection is read and written only where the program asks for it and the system has
/// one; else it is the clipboard. What is offered is written, and nothing where nothing usable is.
pub proof fn clipboards_are_told_apart(
    c: OscContext,
    ss: Seq<SessionSummary>,
    request: OscRequest,
    action: OscAction,
)
    requires
        answers(c, ss, request, action),
    ensures
        request matches OscRequest::ClipboardRead { request_id, selection, mime_types } ==> (
        action matches OscAction::ReadClipboard { from_primary, request_id: r, mime_types: m } && r
            == request_id && m == mime_types && (from_primary <==> selection
            == ClipboardSelection::Primary && c.has_primary)),
        request matches OscRequest::ClipboardWrite { selection, contents } ==> (action is Nothing
            || (action matches OscAction::WriteClipboard { to_primary, entries } && (to_primary
            <==> selection == ClipboardSelection::Primary && c.has_primary) && clipboard::entries(
            entries@,
        ) == clipboard::clipboard_entries(contents@))),
        request matches OscRequest::ClipboardWrite { selection, contents } ==> (action is Nothing
            <==> clipboard::clipboard_entries(contents@).len() == 0),
{
}

/// A program never opens a link by itself: the user is asked, and shown the whole address.
pub proof fn a_link_is_opened_only_after_asking(
    c: OscContext,
    ss: Seq<SessionSummary>,
    request: OscRequest,
    action: OscAction,
)
    requires
        answers(c, ss, request, action),
    ensures
        request matches OscRequest::OpenUrl { url } ==> (action matches OscAction::ConfirmUrl {
            url: shown,
            detail,
            ..
        } && shown@ == url@ && text::has_suffix(detail@, url@)),
        action is ConfirmUrl ==> request is OpenUrl,
{
    if request is OpenUrl {
        let url = request->url@;
        let detail = action->ConfirmUrl_detail@;
        assert(detail.skip(detail.len() - url.len()) =~= url);
    }
}

/// A bell sounds and flashes as the user chose, and asks for attention where it flashes and the window
/// is not in front. A request for focus brings the session to the front; one for attention asks for it
/// unless it is taken back or the window is in front.
pub proof fn a_bell_does_what_the_user_chose(
    c: OscContext,
    ss: Seq<SessionSummary>,
    request: OscRequest,
    action: OscAction,
)
    requires
        answers(c, ss, request, action),
    ensures
        request is Bell ==> (action matches OscAction::Ring { sound, flash, attention } && (
        c.bell_mode == BellMode::Silent ==> !sound && !flash && !attention) && (c.bell_mode
            == BellMode::Sound ==> sound && !flash && !attention) && (c.bell_mode == BellMode::Flash
            ==> !sound && flash && attention == !c.window_active) && (c.bell_mode
            == BellMode::FlashAndSound ==> sound && flash && attention == !c.window_active)),
        request is FocusRequest ==> action is ActivateSession,
        request matches OscRequest::Attention { cancel } ==> (action is RequestAttention <==> !cancel
            && !c.window_active) && (action is RequestAttention || action is Nothing),
        action is ActivateSession ==> request is FocusRequest,
        action is Ring ==> request is Bell,
{
}

/// Files that a program sends go where the user says: into a directory that is picked, or into one new
/// file with the suggested name, looked for where the session is.
pub proof fn files_go_where_the_user_says(
    c: OscContext,
    ss: Seq<SessionSummary>,
    request: OscRequest,
    action: OscAction,
)
    requires
        answers(c, ss, request, action),
        request is FileTransfer,
    ensures
        request->directory ==> (action matches OscAction::PickDirectory { request_id, .. }
            && request_id == request->FileTransfer_request_id),
        !request->directory ==> (action matches OscAction::PickNewFile {
            directory,
            suggested_name,
            request_id,
        } && request_id == request->FileTransfer_request_id && suggested_name@
            == request->suggested_name@ && directory@ == sessions::receive_directory(
            ss,
            c.session_id,
        )),
{
}

/// A question about a link is asked in the language of the window: whether to open it, and what it is, on
/// a line of its own. A notification that is to be answered can be dismissed in the same language.
pub proof fn questions_are_asked_in_the_language_of_the_window(
    c: OscContext,
    ss: Seq<SessionSummary>,
    request: OscRequest,
    action: OscAction,
)
    requires
        answers(c, ss, request, action),
    ensures
        request matches OscRequest::OpenUrl { url } ==> (action matches OscAction::ConfirmUrl {
            title,
            detail,
            open_label,
            cancel_label,
            ..
        } && (c.language == Language::English ==> title@ == "Allow terminal to open this URL?"@
            && detail@ == "A process in this terminal wants to open:"@ + seq!['\n'] + url@
            && open_label@ == "Open"@ && cancel_label@ == "Cancel"@) && (c.language
            == Language::SimplifiedChinese ==> title@ == "允许终端打开此 URL？"@ && detail@
            == "此终端中的某个进程想要打开："@ + seq!['\n'] + url@ && open_label@ == "打开"@
            && cancel_label@ == "取消"@)),
        action matches OscAction::ShowNotification { dismiss_label, .. } ==> (
        dismiss_label matches Some(l) ==> (c.language == Language::English ==> l@ == "Dismiss"@)
            && (c.language == Language::SimplifiedChinese ==> l@ == "关闭"@)),
{
    reveal_strlit("\n");
    assert("\n"@ =~= seq!['\n']);
}

} // verus!
