//! What the pointer does in a terminal: links, reports to the program, and selection.

use vstd::prelude::*;
use crate::i18n;
use crate::i18n::Language;
use crate::layout::{GroupId, SessionId};
use crate::terminal_input::Modifiers;
use crate::text;

verus! {

/// A button of the pointer.
#[derive(Clone, Copy, Debug, PartialEq, Eq, Structural)]
pub enum MouseButton {
    Left,
    Middle,
    Right,
    Navigate,
}

/// A button that a terminal knows.
#[derive(Clone, Copy, Debug, PartialEq, Eq, Structural)]
pub enum TerminalMouseButton {
    Left,
    Middle,
    Right,
}

/// The modifier keys that a terminal knows.
#[derive(Clone, Copy, Debug, PartialEq, Eq, Structural)]
pub struct TerminalModifiers {
    pub shift: bool,
    pub alt: bool,
    pub control: bool,
}

/// A cell of the visible grid.
#[derive(Clone, Copy, Debug, PartialEq, Eq, Structural)]
pub struct TerminalPoint {
    pub line: u16,
    pub column: u16,
}

/// A cell in the form in which the daemon takes it.
#[derive(Clone, Copy, Debug, PartialEq, Eq, Structural)]
pub struct TerminalCellPosition {
    pub line: u16,
    pub column: u16,
}

/// A cell with the link that the program gave it.
#[derive(Clone, Debug)]
pub struct TerminalCell {
    pub line: u16,
    pub column: u16,
    pub hyperlink: Option<String>,
}

/// An address that was recognised in the text of one line.
#[derive(Clone, Debug)]
pub struct TerminalLinkRange {
    pub start: TerminalCellPosition,
    pub end: TerminalCellPosition,
    pub url: String,
}

/// The button that a terminal is told of, if it knows it.
pub fn protocol_mouse_button(button: MouseButton) -> (r: Option<TerminalMouseButton>)
    ensures
        r == (match button {
            MouseButton::Left => Some(TerminalMouseButton::Left),
            MouseButton::Middle => Some(TerminalMouseButton::Middle),
            MouseButton::Right => Some(TerminalMouseButton::Right),
            MouseButton::Navigate => None,
        }),
{
    match button {
        MouseButton::Left => Some(TerminalMouseButton::Left),
        MouseButton::Middle => Some(TerminalMouseButton::Middle),
        MouseButton::Right => Some(TerminalMouseButton::Right),
        MouseButton::Navigate => None,
    }
}

/// Where a touch is.
#[derive(Clone, Copy, Debug, PartialEq, Eq, Structural)]
pub enum TouchPhase {
    Started,
    Moved,
    Ended,
    Cancelled,
}

/// Where scrolling is, as a terminal is told.
#[derive(Clone, Copy, Debug, PartialEq, Eq, Structural)]
pub enum TerminalScrollPhase {
    Started,
    Moved,
    Ended,
}

/// What a terminal is told of a touch: one that was cancelled has ended.
pub fn protocol_scroll_phase(phase: TouchPhase) -> (r: TerminalScrollPhase)
    ensures
        r == (match phase {
            TouchPhase::Started => TerminalScrollPhase::Started,
            TouchPhase::Moved => TerminalScrollPhase::Moved,
            TouchPhase::Ended | TouchPhase::Cancelled => TerminalScrollPhase::Ended,
        }),
{
    match phase {
        TouchPhase::Started => TerminalScrollPhase::Started,
        TouchPhase::Moved => TerminalScrollPhase::Moved,
        TouchPhase::Ended | TouchPhase::Cancelled => TerminalScrollPhase::Ended,
    }
}

/// The modifier keys that a terminal is told of.
pub fn protocol_terminal_modifiers(modifiers: Modifiers) -> (r: TerminalModifiers)
    ensures
        r == (TerminalModifiers {
            shift: modifiers.shift,
            alt: modifiers.alt,
            control: modifiers.control,
        }),
{
    TerminalModifiers { shift: modifiers.shift, alt: modifiers.alt, control: modifiers.control }
}

/// The cell in the form in which the daemon takes it.
pub fn cell_position(point: TerminalPoint) -> (r: TerminalCellPosition)
    ensures
        r == (TerminalCellPosition { line: point.line, column: point.column }),
{
    TerminalCellPosition { line: point.line, column: point.column }
}

/// The link of the first cell at the point.
pub open spec fn link_of_cell(cells: Seq<TerminalCell>, point: TerminalPoint) -> Option<Seq<char>>
    decreases cells.len(),
{
    if cells.len() == 0 {
        None
    } else if cells[0].line == point.line && cells[0].column == point.column {
        match cells[0].hyperlink {
            Some(url) => Some(url@),
            None => None,
        }
    } else {
        link_of_cell(cells.skip(1), point)
    }
}

/// The characters of an optional text.
pub open spec fn opt(t: Option<String>) -> Option<Seq<char>> {
    match t {
        Some(s) => Some(s@),
        None => None,
    }
}

/// The link that the program gave the cell at the point.
pub fn terminal_hyperlink_at(cells: &Vec<TerminalCell>, point: TerminalPoint) -> (r: Option<String>)
    ensures
        opt(r) == link_of_cell(cells@, point),
{
    let mut i: usize = 0;
    assert(cells@.skip(0) =~= cells@);
    while i < cells.len()
        invariant
            i <= cells@.len(),
            link_of_cell(cells@, point) == link_of_cell(cells@.skip(i as int), point),
        decreases cells@.len() - i,
    {
        if cells[i].line == point.line && cells[i].column == point.column {
            return match &cells[i].hyperlink {
                Some(url) => Some(url.clone()),
                None => None,
            };
        }
        assert(cells@.skip(i as int).skip(1) =~= cells@.skip(i + 1));
        i = i + 1;
    }
    None
}

/// The point is in the range.
pub open spec fn in_range(l: TerminalLinkRange, point: TerminalPoint) -> bool {
    l.start.line == point.line && l.start.column <= point.column <= l.end.column
}

/// The index of the first recognised address at the point, or the number of addresses.
pub open spec fn link_index(links: Seq<TerminalLinkRange>, point: TerminalPoint) -> int
    decreases links.len(),
{
    if links.len() == 0 || in_range(links[0], point) {
        0
    } else {
        1 + link_index(links.skip(1), point)
    }
}

/// The recognised address at the point.
pub open spec fn link_at(links: Seq<TerminalLinkRange>, point: TerminalPoint) -> Option<
    TerminalLinkRange,
> {
    if link_index(links, point) < links.len() {
        Some(links[link_index(links, point)])
    } else {
        None
    }
}

/// The recognised address at the point.
pub fn detected_link_at(links: &Vec<TerminalLinkRange>, point: TerminalPoint) -> (r: Option<
    &TerminalLinkRange,
>)
    ensures
        link_at(links@, point) == (match r {
            Some(l) => Some(*l),
            None => None,
        }),
{
    let mut i: usize = 0;
    assert(links@.skip(0) =~= links@);
    while i < links.len()
        invariant
            i <= links@.len(),
            link_index(links@, point) == i + link_index(links@.skip(i as int), point),
        decreases links@.len() - i,
    {
        let l: &TerminalLinkRange = &links[i];
        if l.start.line == point.line && point.column >= l.start.column && point.column
            <= l.end.column {
            assert(in_range(links@.skip(i as int)[0], point));
            return Some(l);
        }
        assert(!in_range(links@.skip(i as int)[0], point));
        assert(links@.skip(i as int).skip(1) =~= links@.skip(i + 1));
        i = i + 1;
    }
    None
}

/// The link at the point: the one that the program gave, else a recognised address.
pub open spec fn any_link(
    cells: Seq<TerminalCell>,
    links: Seq<TerminalLinkRange>,
    point: TerminalPoint,
) -> Option<Seq<char>> {
    match link_of_cell(cells, point) {
        Some(url) => Some(url),
        None => match link_at(links, point) {
            Some(l) => Some(l.url@),
            None => None,
        },
    }
}

/// The link at the point: the one that the program gave, else a recognised address.
pub fn link_under_pointer(
    cells: &Vec<TerminalCell>,
    links: &Vec<TerminalLinkRange>,
    point: TerminalPoint,
) -> (r: Option<String>)
    ensures
        opt(r) == any_link(cells@, links@, point),
{
    match terminal_hyperlink_at(cells, point) {
        Some(url) => Some(url),
        None => match detected_link_at(links, point) {
            Some(l) => Some(l.url.clone()),
            None => None,
        },
    }
}

/// The address may be opened without asking: it is a web or mail address.
pub open spec fn is_safe_url(url: Seq<char>) -> bool {
    let lower = text::lower_ascii(text::trimmed(url));
    text::has_prefix(lower, "https://"@) || text::has_prefix(lower, "http://"@) || text::has_prefix(
        lower,
        "mailto:"@,
    )
}

/// Whether the address may be opened without asking.
pub fn url_has_safe_external_scheme(url: &str) -> (r: bool)
    ensures
        r == is_safe_url(url@),
{
    let trimmed: String = text::trim(url);
    let lower: String = text::to_lower_ascii(trimmed.as_str());
    text::starts_with(lower.as_str(), "https://") || text::starts_with(lower.as_str(), "http://")
        || text::starts_with(lower.as_str(), "mailto:")
}

/// How a selection starts.
#[derive(Clone, Copy, Debug, PartialEq, Eq, Structural)]
pub enum SelectionKind {
    Simple,
    Semantic,
    Lines,
}

/// What a press does to the selection.
#[derive(Clone, Copy, Debug, PartialEq, Eq, Structural)]
pub enum SelectionStep {
    /// Move the end of the selection to the cell.
    Extend,
    Start(SelectionKind),
}

/// What a press in a terminal does.
#[derive(Debug)]
pub enum PressAction {
    /// Nothing: the terminal does not know the button.
    Ignore,
    OpenLink { url: String },
    /// Ask the user before opening a link.
    ConfirmLink { title: String, detail: String, open_label: String, cancel_label: String, url: String },
    /// Tell the program of the press, and nothing more.
    Report { button: TerminalMouseButton, consumed: bool },
    /// Tell the program, which takes the pointer for itself: the selection goes.
    ReportCaptured { button: TerminalMouseButton },
    /// Tell the program and select. `keep` says whether the selection stays if the pointer does
    /// not move.
    ReportAndSelect { step: SelectionStep, keep: bool },
}

/// A press: where the terminal's picture is known, `captures` says whether the program takes the
/// pointer.
pub struct Press {
    pub button: MouseButton,
    pub modifiers: Modifiers,
    pub click_count: usize,
    pub captures: Option<bool>,
}

/// What a press does to the selection: a double click takes a word, a further one lines.
pub open spec fn selection_step(click_count: usize, shift: bool) -> SelectionStep {
    if click_count <= 1 {
        if shift {
            SelectionStep::Extend
        } else {
            SelectionStep::Start(SelectionKind::Simple)
        }
    } else if click_count == 2 {
        SelectionStep::Start(SelectionKind::Semantic)
    } else {
        SelectionStep::Start(SelectionKind::Lines)
    }
}

/// The action of a press where `link` is under the pointer.
pub open spec fn press_does(p: Press, link: Option<Seq<char>>, l: Language, a: PressAction) -> bool {
    if p.button is Left && p.modifiers.platform && link is Some {
        if is_safe_url(link->0) {
            a matches PressAction::OpenLink { url } && url@ == link->0
        } else {
            a matches PressAction::ConfirmLink { title, detail, open_label, cancel_label, url }
                && url@ == link->0 && title@ == i18n::pick(
                l,
                "Open terminal hyperlink?"@,
                "打开终端超链接？"@,
            ) && detail@ == i18n::pick(
                l,
                "A link in this terminal points to:"@,
                "此终端中的链接指向："@,
            ) + "\n"@ + link->0 && open_label@ == i18n::pick(l, "Open"@, "打开"@)
                && cancel_label@ == i18n::pick(l, "Cancel"@, "取消"@)
        }
    } else {
        let button = match p.button {
            MouseButton::Left => Some(TerminalMouseButton::Left),
            MouseButton::Middle => Some(TerminalMouseButton::Middle),
            MouseButton::Right => Some(TerminalMouseButton::Right),
            MouseButton::Navigate => None,
        };
        match button {
            None => a is Ignore,
            Some(b) => match p.captures {
                None => a == PressAction::Report { button: b, consumed: false },
                Some(captures) => if captures && !p.modifiers.shift {
                    a == PressAction::ReportCaptured { button: b }
                } else if b is Left {
                    a == PressAction::ReportAndSelect {
                        step: selection_step(p.click_count, p.modifiers.shift),
                        keep: selection_step(p.click_count, p.modifiers.shift)
                            != SelectionStep::Start(SelectionKind::Simple),
                    }
                } else {
                    a == PressAction::Report { button: b, consumed: true }
                },
            },
        }
    }
}

/// What a press in a terminal does. With the platform key, a left press on a link opens it, and
/// asks first where the link is no web or mail address. Otherwise the program is told, and a left
/// press selects unless the program takes the pointer; Shift keeps the pointer from it.
pub fn terminal_mouse_down(press: &Press, link: Option<String>, language: Language) -> (r:
    PressAction)
    ensures
        press_does(*press, opt(link), language, r),
{
    if press.modifiers.platform && press.button == MouseButton::Left {
        match link {
            Some(url) => {
                if url_has_safe_external_scheme(url.as_str()) {
                    return PressAction::OpenLink { url };
                }
                let mut detail: String = language.hyperlink_open_detail().to_owned();
                detail.append("\n");
                detail.append(url.as_str());
                return PressAction::ConfirmLink {
                    title: language.open_hyperlink_title().to_owned(),
                    detail,
                    open_label: language.open().to_owned(),
                    cancel_label: language.cancel().to_owned(),
                    url,
                };
            },
            None => {},
        }
    }
    let button: TerminalMouseButton = match protocol_mouse_button(press.button) {
        Some(b) => b,
        None => return PressAction::Ignore,
    };
    let captures: bool = match press.captures {
        Some(c) => c,
        None => return PressAction::Report { button, consumed: false },
    };
    if captures && !press.modifiers.shift {
        return PressAction::ReportCaptured { button };
    }
    if press.button != MouseButton::Left {
        return PressAction::Report { button, consumed: true };
    }
    if press.click_count <= 1 {
        if press.modifiers.shift {
            PressAction::ReportAndSelect { step: SelectionStep::Extend, keep: true }
        } else {
            PressAction::ReportAndSelect {
                step: SelectionStep::Start(SelectionKind::Simple),
                keep: false,
            }
        }
    } else if press.click_count == 2 {
        PressAction::ReportAndSelect {
            step: SelectionStep::Start(SelectionKind::Semantic),
            keep: true,
        }
    } else {
        PressAction::ReportAndSelect {
            step: SelectionStep::Start(SelectionKind::Lines),
            keep: true,
        }
    }
}

/// A link that is no web or mail address is never opened without asking.
pub proof fn other_links_are_confirmed(p: Press, link: Option<Seq<char>>, l: Language, a: PressAction)
    requires
        press_does(p, link, l, a),
        a is OpenLink,
    ensures
        link is Some,
        is_safe_url(link->0),
{
}

/// What a release in a terminal does.
#[derive(Clone, Copy, Debug, PartialEq, Eq, Structural)]
pub enum ReleaseAction {
    /// The press opened a link; nothing is reported.
    EndLink,
    /// Nothing: the terminal does not know the button.
    Ignore,
    Report { button: TerminalMouseButton, consumed: bool },
}

/// What a release does. One that ends the opening of a link is not reported. The program gets
/// the release for itself where it takes the pointer and Shift does not keep it from it.
pub fn terminal_mouse_up(
    opened_link: bool,
    button: MouseButton,
    shift: bool,
    captures: Option<bool>,
) -> (r: ReleaseAction)
    ensures
        r == (if opened_link {
            ReleaseAction::EndLink
        } else {
            let consumed = captures == Some(true) && !shift;
            match button {
                MouseButton::Left => ReleaseAction::Report {
                    button: TerminalMouseButton::Left,
                    consumed,
                },
                MouseButton::Middle => ReleaseAction::Report {
                    button: TerminalMouseButton::Middle,
                    consumed,
                },
                MouseButton::Right => ReleaseAction::Report {
                    button: TerminalMouseButton::Right,
                    consumed,
                },
                MouseButton::Navigate => ReleaseAction::Ignore,
            }
        }),
{
    if opened_link {
        return ReleaseAction::EndLink;
    }
    let captured: bool = match captures {
        Some(c) => c,
        None => false,
    };
    match protocol_mouse_button(button) {
        Some(b) => ReleaseAction::Report { button: b, consumed: captured && !shift },
        None => ReleaseAction::Ignore,
    }
}

/// What the program wants to know of the pointer.
#[derive(Clone, Copy, Debug, PartialEq, Eq, Structural)]
pub enum MouseTracking {
    Disabled,
    Click,
    Drag,
    Motion,
}

/// Whether the program is told of a movement: while a button is held where it wants to know of
/// drags, always where it wants to know of motion; but not while Shift and the left or right
/// button select.
pub fn reports_motion(
    tracking: MouseTracking,
    button: Option<TerminalMouseButton>,
    shift: bool,
) -> (r: bool)
    ensures
        r == ((tracking is Motion || (tracking is Drag && button is Some)) && !(shift && (button
            == Some(TerminalMouseButton::Left) || button == Some(TerminalMouseButton::Right)))),
{
    let wanted: bool = match tracking {
        MouseTracking::Disabled => false,
        MouseTracking::Click => false,
        MouseTracking::Drag => button.is_some(),
        MouseTracking::Motion => true,
    };
    let selecting: bool = match button {
        Some(TerminalMouseButton::Left) => true,
        Some(TerminalMouseButton::Right) => true,
        _ => false,
    };
    wanted && !(shift && selecting)
}

/// A selection that is being dragged out.
#[derive(Clone, Copy, Debug, PartialEq, Eq, Structural)]
pub struct SelectionDrag {
    pub group_id: GroupId,
    pub session_id: SessionId,
    pub dragged: bool,
}

/// What a press makes of the selection that is being dragged out: a left press that selects begins a
/// new one, which counts as dragged where it stays without a move; one that opens a link or that the
/// program takes for itself ends it; any other press leaves it.
pub fn drag_after_press(
    drag: Option<SelectionDrag>,
    action: &PressAction,
    group_id: GroupId,
    session_id: SessionId,
) -> (r: Option<SelectionDrag>)
    ensures
        r == (match *action {
            PressAction::Ignore | PressAction::Report { .. } => drag,
            PressAction::OpenLink { .. } | PressAction::ConfirmLink { .. } => None,
            PressAction::ReportCaptured { .. } => None,
            PressAction::ReportAndSelect { keep, .. } => Some(
                SelectionDrag { group_id, session_id, dragged: keep },
            ),
        }),
{
    match action {
        PressAction::Ignore | PressAction::Report { .. } => drag,
        PressAction::OpenLink { .. } | PressAction::ConfirmLink { .. } => None,
        PressAction::ReportCaptured { .. } => None,
        PressAction::ReportAndSelect { keep, .. } => Some(
            SelectionDrag { group_id, session_id, dragged: *keep },
        ),
    }
}

/// Which half of a cell the pointer is in.
#[derive(Clone, Copy, Debug, PartialEq, Eq, Structural)]
pub enum TerminalSelectionSide {
    Left,
    Right,
}

/// Where the pointer is, seen from a terminal: how many lines above its top, or, negative, below its
/// bottom; the nearest cell, where the terminal has cells; and the half of the cell.
#[derive(Clone, Copy, Debug, PartialEq, Eq, Structural)]
pub struct DragPointer {
    pub lines: i32,
    pub point: Option<TerminalPoint>,
    pub side: TerminalSelectionSide,
}

/// The parts of a line that scrolling is counted in.
pub const TERMINAL_SCROLL_DELTA_SCALE: i32 = 1024;

/// A scroll by lines, in the form in which the daemon takes it: cut at the limits of the number.
pub open spec fn scroll_delta(lines: i32) -> int {
    let delta = lines * TERMINAL_SCROLL_DELTA_SCALE;
    if delta < i32::MIN {
        i32::MIN as int
    } else if delta > i32::MAX {
        i32::MAX as int
    } else {
        delta
    }
}

/// Scrolling a terminal by lines while a selection is dragged beyond it.
#[derive(Clone, Copy, Debug, PartialEq, Eq, Structural)]
pub struct DragScroll {
    pub session_id: SessionId,
    pub delta: i32,
    pub point: TerminalPoint,
    pub modifiers: TerminalModifiers,
}

/// Moving the end of a selection to a cell.
#[derive(Clone, Copy, Debug, PartialEq, Eq, Structural)]
pub struct DragExtension {
    pub session_id: SessionId,
    pub position: TerminalCellPosition,
    pub side: TerminalSelectionSide,
}

/// What a move of the pointer does while a selection is dragged out: the terminal scrolls first, and
/// the selection is extended after that; the window is redrawn where it is.
#[derive(Clone, Copy, Debug, PartialEq, Eq, Structural)]
pub struct DragStep {
    pub scroll: Option<DragScroll>,
    pub extend: Option<DragExtension>,
}

/// What a move of the pointer does to the selection that is being dragged out. `pointer` is nothing
/// where the terminal of the drag is not shown.
pub open spec fn drag_step(
    drag: Option<SelectionDrag>,
    held: bool,
    pointer: Option<DragPointer>,
    modifiers: Modifiers,
) -> DragStep {
    match (drag, pointer) {
        (Some(d), Some(at)) => if held {
            DragStep {
                scroll: if at.lines == 0 {
                    None
                } else {
                    Some(
                        DragScroll {
                            session_id: d.session_id,
                            delta: scroll_delta(at.lines) as i32,
                            point: match at.point {
                                Some(p) => p,
                                None => TerminalPoint { line: 0, column: 0 },
                            },
                            modifiers: TerminalModifiers {
                                shift: modifiers.shift,
                                alt: modifiers.alt,
                                control: modifiers.control,
                            },
                        },
                    )
                },
                extend: match at.point {
                    Some(p) => Some(
                        DragExtension {
                            session_id: d.session_id,
                            position: TerminalCellPosition { line: p.line, column: p.column },
                            side: at.side,
                        },
                    ),
                    None => None,
                },
            }
        } else {
            DragStep { scroll: None, extend: None }
        },
        _ => DragStep { scroll: None, extend: None },
    }
}

fn drag_scroll_delta(lines: i32) -> (r: i32)
    ensures
        r == scroll_delta(lines),
{
    let delta: i64 = lines as i64 * TERMINAL_SCROLL_DELTA_SCALE as i64;
    if delta < i32::MIN as i64 {
        i32::MIN
    } else if delta > i32::MAX as i64 {
        i32::MAX
    } else {
        delta as i32
    }
}

/// Takes a move of the pointer while a selection is dragged out. Nothing follows without a drag,
/// without a held button, or where the terminal is not shown. Beyond the terminal's edge it scrolls;
/// on a cell the selection is extended to the cell, and the drag counts as moved.
pub fn update_terminal_selection_drag(
    drag: &mut Option<SelectionDrag>,
    held: bool,
    pointer: Option<DragPointer>,
    modifiers: Modifiers,
) -> (r: DragStep)
    ensures
        r == drag_step(*old(drag), held, pointer, modifiers),
        *final(drag) == (match *old(drag) {
            Some(d) => if r.extend is Some {
                Some(SelectionDrag { dragged: true, ..d })
            } else {
                Some(d)
            },
            None => None,
        }),
{
    let none: DragStep = DragStep { scroll: None, extend: None };
    let d: SelectionDrag = match *drag {
        Some(d) => d,
        None => return none,
    };
    if !held {
        return none;
    }
    let at: DragPointer = match pointer {
        Some(at) => at,
        None => return none,
    };
    let scroll: Option<DragScroll> = if at.lines == 0 {
        None
    } else {
        Some(
            DragScroll {
                session_id: d.session_id,
                delta: drag_scroll_delta(at.lines),
                point: match at.point {
                    Some(p) => p,
                    None => TerminalPoint { line: 0, column: 0 },
                },
                modifiers: protocol_terminal_modifiers(modifiers),
            },
        )
    };
    let extend: Option<DragExtension> = match at.point {
        Some(p) => Some(
            DragExtension { session_id: d.session_id, position: cell_position(p), side: at.side },
        ),
        None => None,
    };
    if extend.is_some() {
        *drag = Some(
            SelectionDrag { group_id: d.group_id, session_id: d.session_id, dragged: true },
        );
    }
    DragStep { scroll, extend }
}

/// A selection that the pointer was dragged over is not cleared when the button comes up: a move to
/// a cell with the button held makes the drag count, and it stays so.
pub proof fn a_dragged_selection_stays(
    d: SelectionDrag,
    pointer: DragPointer,
    modifiers: Modifiers,
    copy_on_select: bool,
)
    requires
        pointer.point is Some,
    ensures
        ({
            let step = drag_step(Some(d), true, Some(pointer), modifiers);
            let moved = SelectionDrag { dragged: true, ..d };
            &&& step.extend is Some
            &&& !(drag_end(Some(moved), copy_on_select) is Clear)
            &&& drag_end(Some(SelectionDrag { dragged: false, ..d }), copy_on_select)
                == DragEnd::Clear { session_id: d.session_id }
        }),
{
}

/// What the end of a drag does.
#[derive(Clone, Copy, Debug, PartialEq, Eq, Structural)]
pub enum DragEnd {
    Nothing,
    Clear { session_id: SessionId },
    Copy { session_id: SessionId },
}

/// What the end of a drag does: a selection that was not dragged goes, another one is copied
/// where selecting copies.
pub open spec fn drag_end(drag: Option<SelectionDrag>, copy_on_select: bool) -> DragEnd {
    match drag {
        None => DragEnd::Nothing,
        Some(d) => if !d.dragged {
            DragEnd::Clear { session_id: d.session_id }
        } else if copy_on_select {
            DragEnd::Copy { session_id: d.session_id }
        } else {
            DragEnd::Nothing
        },
    }
}

/// What the end of a drag does.
pub fn finish_terminal_selection_drag(drag: Option<SelectionDrag>, copy_on_select: bool) -> (r:
    DragEnd)
    ensures
        r == drag_end(drag, copy_on_select),
{
    match drag {
        None => DragEnd::Nothing,
        Some(d) => {
            if !d.dragged {
                DragEnd::Clear { session_id: d.session_id }
            } else if copy_on_select {
                DragEnd::Copy { session_id: d.session_id }
            } else {
                DragEnd::Nothing
            }
        },
    }
}

/// The address under the pointer: the session, and the range.
pub struct HoveredLink {
    pub session_id: SessionId,
    pub link: TerminalLinkRange,
}

/// The two hover the same link.
pub open spec fn same_hover(a: Option<HoveredLink>, b: Option<HoveredLink>) -> bool {
    match (a, b) {
        (Some(x), Some(y)) => x.session_id == y.session_id && x.link.start == y.link.start
            && x.link.end == y.link.end && x.link.url@ == y.link.url@,
        (None, None) => true,
        _ => false,
    }
}

/// Takes over the address under the pointer. Returns whether it is another one than before, so
/// that the window has to be redrawn.
pub fn update_hovered_link(
    hovered: &mut Option<HoveredLink>,
    session_id: SessionId,
    links: &Vec<TerminalLinkRange>,
    point: TerminalPoint,
) -> (r: bool)
    ensures
        same_hover(
            *final(hovered),
            match link_at(links@, point) {
                Some(link) => Some(HoveredLink { session_id, link }),
                None => None,
            },
        ),
        r == !same_hover(*old(hovered), *final(hovered)),
{
    let next: Option<HoveredLink> = match detected_link_at(links, point) {
        Some(l) => Some(
            HoveredLink {
                session_id,
                link: TerminalLinkRange { start: l.start, end: l.end, url: l.url.clone() },
            },
        ),
        None => None,
    };
    let same: bool = match (&*hovered, &next) {
        (Some(x), Some(y)) => x.session_id == y.session_id && x.link.start == y.link.start
            && x.link.end == y.link.end && text::text_eq(x.link.url.as_str(), y.link.url.as_str()),
        (None, None) => true,
        _ => false,
    };
    *hovered = next;
    !same
}

/// Forgets the address under the pointer where its session is gone.
pub fn forget_hovered_link(hovered: &mut Option<HoveredLink>, session_id: SessionId)
    ensures
        *final(hovered) == match *old(hovered) {
            Some(h) => if h.session_id == session_id {
                None
            } else {
                Some(h)
            },
            None => None,
        },
{
    let gone: bool = match &*hovered {
        Some(h) => h.session_id == session_id,
        None => false,
    };
    if gone {
        *hovered = None;
    }
}

/// The selected text that is copied: none where nothing is selected or the selection is empty.
pub fn copied_text(selected: Option<String>) -> (r: Option<String>)
    ensures
        opt(r) == (match selected {
            Some(t) => if t@.len() > 0 {
                Some(t@)
            } else {
                None
            },
            None => None,
        }),
{
    match selected {
        Some(t) => if t.as_str().is_empty() {
            None
        } else {
            Some(t)
        },
        None => None,
    }
}

/// The buttons that a terminal knows are told by their own names.
pub open spec fn told(b: TerminalMouseButton, button: MouseButton) -> bool {
    ||| b == TerminalMouseButton::Left && button == MouseButton::Left
    ||| b == TerminalMouseButton::Middle && button == MouseButton::Middle
    ||| b == TerminalMouseButton::Right && button == MouseButton::Right
}

/// A left press that the program does not take for itself selects: one click begins a selection of
/// characters, which goes again unless the pointer is dragged; with Shift it moves the end of the
/// selection; two clicks take a word, and more take lines.
pub proof fn clicks_choose_what_is_selected(
    p: Press,
    link: Option<Seq<char>>,
    l: Language,
    a: PressAction,
)
    requires
        press_does(p, link, l, a),
        p.button == MouseButton::Left,
        !p.modifiers.platform || link is None,
        p.captures == Some(false) || (p.captures == Some(true) && p.modifiers.shift),
    ensures
        p.click_count <= 1 && !p.modifiers.shift ==> a == (PressAction::ReportAndSelect {
            step: SelectionStep::Start(SelectionKind::Simple),
            keep: false,
        }),
        p.click_count <= 1 && p.modifiers.shift ==> a == (PressAction::ReportAndSelect {
            step: SelectionStep::Extend,
            keep: true,
        }),
        p.click_count == 2 ==> a == (PressAction::ReportAndSelect {
            step: SelectionStep::Start(SelectionKind::Semantic),
            keep: true,
        }),
        p.click_count > 2 ==> a == (PressAction::ReportAndSelect {
            step: SelectionStep::Start(SelectionKind::Lines),
            keep: true,
        }),
{
}

/// A program that takes the pointer gets every press of a button that it knows, unless Shift is held
/// or the press opens a link; the selection goes.
pub proof fn a_program_gets_the_presses_it_asks_for(
    p: Press,
    link: Option<Seq<char>>,
    l: Language,
    a: PressAction,
)
    requires
        press_does(p, link, l, a),
        p.captures == Some(true),
        !p.modifiers.shift,
        !p.modifiers.platform || link is None || p.button != MouseButton::Left,
    ensures
        p.button == MouseButton::Navigate ==> a is Ignore,
        p.button != MouseButton::Navigate ==> (a matches PressAction::ReportCaptured { button }
            && told(button, p.button)),
{
}

/// A press of the middle or right button is only told to the program, where it does not take the
/// pointer; so is every press before the terminal's picture is known. Other buttons do nothing.
pub proof fn other_presses_are_only_told(
    p: Press,
    link: Option<Seq<char>>,
    l: Language,
    a: PressAction,
)
    requires
        press_does(p, link, l, a),
        !p.modifiers.platform || link is None || p.button != MouseButton::Left,
    ensures
        p.button == MouseButton::Navigate ==> a is Ignore,
        p.captures is None && p.button != MouseButton::Navigate ==> (a matches PressAction::Report {
            button,
            consumed,
        } && told(button, p.button) && !consumed),
        (p.captures == Some(false) || (p.captures == Some(true) && p.modifiers.shift)) && (p.button
            == MouseButton::Middle || p.button == MouseButton::Right) ==> (
        a matches PressAction::Report { button, consumed } && told(button, p.button) && consumed),
{
}

/// With the platform key a left press on a link opens exactly that link, at once where it is a web or
/// mail address; else it asks, and shows the link. Without the key or the link nothing is opened.
pub proof fn the_platform_key_opens_links(
    p: Press,
    link: Option<Seq<char>>,
    l: Language,
    a: PressAction,
)
    requires
        press_does(p, link, l, a),
    ensures
        p.button == MouseButton::Left && p.modifiers.platform && link is Some ==> (a is OpenLink
            || a is ConfirmLink),
        p.button != MouseButton::Left || !p.modifiers.platform || link is None ==> !(a is OpenLink)
            && !(a is ConfirmLink),
        a matches PressAction::OpenLink { url } ==> link == Some(url@),
        a matches PressAction::ConfirmLink { url, detail, .. } ==> link == Some(url@)
            && text::has_suffix(detail@, url@),
{
    if a is ConfirmLink {
        let detail = a->detail@;
        let url = link->0;
        let n = detail.len() - url.len();
        assert(detail.skip(n) =~= url);
    }
}

/// A text of small letters, digits and signs without white space at its ends.
pub open spec fn is_plain_address(url: Seq<char>) -> bool {
    &&& url.len() > 0
    &&& !text::is_white(url[0])
    &&& !text::is_white(url.last())
    &&& forall|i: int| 0 <= i < url.len() ==> !('A' <= #[trigger] url[i] <= 'Z')
}

/// An address may be opened without asking exactly where it begins with `https://`, `http://` or
/// `mailto:`; white space around it and the case of its letters do not count.
pub proof fn only_web_and_mail_addresses_are_safe(url: Seq<char>)
    requires
        is_plain_address(url),
    ensures
        is_safe_url(url) <==> ((url.len() >= 8 && url.take(8) == seq![
            'h',
            't',
            't',
            'p',
            's',
            ':',
            '/',
            '/',
        ]) || (url.len() >= 7 && url.take(7) == seq!['h', 't', 't', 'p', ':', '/', '/']) || (
        url.len() >= 7 && url.take(7) == seq!['m', 'a', 'i', 'l', 't', 'o', ':'])),
{
    text::a_trimmed_text_stays(url);
    assert(text::lower_ascii(url) =~= url) by {
        assert forall|i: int| 0 <= i < url.len() implies text::lower_ascii(url)[i] == url[i] by {
            text::lower_case_changes_only_capitals(url, i);
        }
    }
    reveal_strlit("https://");
    reveal_strlit("http://");
    reveal_strlit("mailto:");
    assert("https://"@ =~= seq!['h', 't', 't', 'p', 's', ':', '/', '/']);
    assert("http://"@ =~= seq!['h', 't', 't', 'p', ':', '/', '/']);
    assert("mailto:"@ =~= seq!['m', 'a', 'i', 'l', 't', 'o', ':']);
}

/// White space around an address and the case of its letters do not make it safe or unsafe.
pub proof fn case_and_space_do_not_make_an_address_safe(a: Seq<char>, b: Seq<char>)
    requires
        text::lower_ascii(text::trimmed(a)) == text::lower_ascii(text::trimmed(b)),
    ensures
        is_safe_url(a) == is_safe_url(b),
{
}

/// The first cell at the point decides which link the program gave: where no cell stands there, or
/// that cell has none, there is none.
pub proof fn the_first_cell_decides(cells: Seq<TerminalCell>, point: TerminalPoint, i: int)
    requires
        0 <= i <= cells.len(),
        forall|j: int|
            0 <= j < i ==> !((#[trigger] cells[j]).line == point.line && cells[j].column
                == point.column),
        i < cells.len() ==> cells[i].line == point.line && cells[i].column == point.column,
    ensures
        i == cells.len() ==> link_of_cell(cells, point) is None,
        i < cells.len() ==> link_of_cell(cells, point) == (match cells[i].hyperlink {
            Some(url) => Some(url@),
            None => None,
        }),
    decreases cells.len(),
{
    if cells.len() > 0 && i > 0 {
        let rest = cells.skip(1);
        assert forall|j: int| 0 <= j < i - 1 implies !((#[trigger] rest[j]).line == point.line
            && rest[j].column == point.column) by {
            assert(rest[j] == cells[j + 1]);
        }
        the_first_cell_decides(rest, point, i - 1);
    }
}

/// A recognised address is under the pointer exactly where the pointer is on its line, between its
/// first and its last column; the first one wins.
pub proof fn an_address_is_found_where_it_stands(
    links: Seq<TerminalLinkRange>,
    point: TerminalPoint,
)
    ensures
        link_at(links, point) matches Some(l) ==> links.contains(l) && l.start.line == point.line
            && l.start.column <= point.column && point.column <= l.end.column,
        link_at(links, point) is None ==> forall|i: int|
            0 <= i < links.len() ==> !((#[trigger] links[i]).start.line == point.line
                && links[i].start.column <= point.column && point.column <= links[i].end.column),
        links.len() > 0 && links[0].start.line == point.line && links[0].start.column <= point.column
            && point.column <= links[0].end.column ==> link_at(links, point) == Some(links[0]),
    decreases links.len(),
{
    if links.len() > 0 {
        let rest = links.skip(1);
        an_address_is_found_where_it_stands(rest, point);
        if link_at(links, point) is None {
            assert(link_at(rest, point) is None);
            assert forall|i: int| 0 <= i < links.len() implies !((#[trigger] links[i]).start.line
                == point.line && links[i].start.column <= point.column && point.column
                <= links[i].end.column) by {
                if i > 0 {
                    assert(rest[i - 1] == links[i]);
                }
            }
        } else if !in_range(links[0], point) {
            link_index_is_a_place(rest, point);
            let k = link_index(rest, point);
            assert(rest[k] == links[k + 1]);
        }
    }
}

proof fn link_index_is_a_place(links: Seq<TerminalLinkRange>, point: TerminalPoint)
    ensures
        0 <= link_index(links, point) <= links.len(),
        link_index(links, point) < links.len() ==> in_range(
            links[link_index(links, point)],
            point,
        ),
    decreases links.len(),
{
    if links.len() > 0 && !in_range(links[0], point) {
        link_index_is_a_place(links.skip(1), point);
    }
}

/// The link that the program gave a cell comes before a recognised address.
pub proof fn the_program_s_link_comes_first(
    cells: Seq<TerminalCell>,
    links: Seq<TerminalLinkRange>,
    point: TerminalPoint,
)
    ensures
        link_of_cell(cells, point) is Some ==> any_link(cells, links, point) == link_of_cell(
            cells,
            point,
        ),
        link_of_cell(cells, point) is None && link_at(links, point) is Some ==> any_link(
            cells,
            links,
            point,
        ) == Some(link_at(links, point)->0.url@),
        link_of_cell(cells, point) is None && link_at(links, point) is None ==> any_link(
            cells,
            links,
            point,
        ) is None,
{
}

/// A drag beyond the edge scrolls by whole lines, of 1024 parts each, towards the pointer: up where it
/// is above, down where it is below, and not at all inside. Only what no longer fits is cut.
pub proof fn a_drag_scrolls_towards_the_pointer(
    d: SelectionDrag,
    at: DragPointer,
    modifiers: Modifiers,
)
    ensures
        ({
            let step = drag_step(Some(d), true, Some(at), modifiers);
            &&& at.lines == 0 <==> step.scroll is None
            &&& step.scroll matches Some(s) ==> s.session_id == d.session_id && (at.lines > 0
                ==> s.delta > 0) && (at.lines < 0 ==> s.delta < 0) && (-2_000_000 <= at.lines
                <= 2_000_000 ==> s.delta == 1024 * at.lines) && (at.point matches Some(p)
                ==> s.point == p) && s.modifiers.shift == modifiers.shift && s.modifiers.alt
                == modifiers.alt && s.modifiers.control == modifiers.control
        }),
{
}

/// A drag moves the end of the selection to the cell and the half of it where the pointer is.
pub proof fn a_drag_ends_where_the_pointer_is(
    d: SelectionDrag,
    at: DragPointer,
    modifiers: Modifiers,
)
    ensures
        ({
            let step = drag_step(Some(d), true, Some(at), modifiers);
            &&& step.extend is Some <==> at.point is Some
            &&& step.extend matches Some(e) ==> e.session_id == d.session_id && e.position.line
                == at.point->0.line && e.position.column == at.point->0.column && e.side == at.side
        }),
{
}

/// Without a drag, without a held button or without a terminal, moving the pointer selects nothing.
pub proof fn a_move_without_a_drag_does_nothing(
    drag: Option<SelectionDrag>,
    held: bool,
    at: Option<DragPointer>,
    modifiers: Modifiers,
)
    requires
        drag is None || !held || at is None,
    ensures
        drag_step(drag, held, at, modifiers).scroll is None,
        drag_step(drag, held, at, modifiers).extend is None,
{
}

/// A selection that was dragged out is copied where selecting copies, and else stays as it is; one
/// that was not is cleared; without a drag nothing happens.
pub proof fn a_drag_ends_with_a_copy(d: SelectionDrag, copy_on_select: bool)
    ensures
        drag_end(None, copy_on_select) == DragEnd::Nothing,
        !d.dragged ==> drag_end(Some(d), copy_on_select) == (DragEnd::Clear {
            session_id: d.session_id,
        }),
        d.dragged && copy_on_select ==> drag_end(Some(d), copy_on_select) == (DragEnd::Copy {
            session_id: d.session_id,
        }),
        d.dragged && !copy_on_select ==> drag_end(Some(d), copy_on_select) == DragEnd::Nothing,
{
}

/// Two hovered links are the same only where session, place and address are.
pub proof fn hovered_links_differ_in_any_part(a: HoveredLink, b: HoveredLink)
    ensures
        same_hover(Some(a), Some(b)) ==> a.session_id == b.session_id && a.link.start == b.link.start
            && a.link.end == b.link.end && a.link.url@ == b.link.url@,
        same_hover(Some(a), Some(a)),
        !same_hover(Some(a), None),
        !same_hover(None, Some(a)),
        same_hover(None, None),
{
}

/// A link that is no web or mail address is asked about in the language of the window, with the link on a
/// line of its own.
pub proof fn a_link_is_asked_about_in_words(
    p: Press,
    link: Option<Seq<char>>,
    l: Language,
    a: PressAction,
)
    requires
        press_does(p, link, l, a),
        a is ConfirmLink,
    ensures
        a->ConfirmLink_url@ == link->0,
        l == Language::English ==> a->title@ == "Open terminal hyperlink?"@ && a->detail@
            == "A link in this terminal points to:"@ + seq!['\n'] + link->0 && a->open_label@
            == "Open"@ && a->cancel_label@ == "Cancel"@,
        l == Language::SimplifiedChinese ==> a->title@ == "打开终端超链接？"@ && a->detail@
            == "此终端中的链接指向："@ + seq!['\n'] + link->0 && a->open_label@ == "打开"@
            && a->cancel_label@ == "取消"@,
{
    reveal_strlit("\n");
    assert("\n"@ =~= seq!['\n']);
}

} // verus!
