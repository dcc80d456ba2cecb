//! What the commands of the window do, and what the sessions are told of the settings.

use vstd::prelude::*;
use std::collections::HashMap;

use crate::clipboard;
use crate::clipboard::{clipboard_contents_from_item, ClipboardEntry, TerminalClipboardContent};
use crate::keybindings::Action;
use crate::layout::{Direction, GroupId, SessionId, SplitId};
use crate::pointer;
use crate::pointer::{finish_terminal_selection_drag, DragEnd, SelectionDrag};
use crate::sidebar::SidebarEdge;
use crate::tabs::TabDropTarget;
use crate::terminal_input::{clear_terminal_marked_text, TerminalImeState};
use crate::text;
use crate::text::decimal_text;

verus! {

/// How far to scroll a terminal.
#[derive(Clone, Copy, Debug, PartialEq, Eq, Structural)]
pub enum ScrollCommand {
    /// To its first line.
    Top,
    /// To its last line.
    Bottom,
    /// A page up.
    PageUp,
    /// A page down.
    PageDown,
    /// To the prompt above.
    PrevPrompt,
    /// To the prompt below.
    NextPrompt,
}

/// What a command asks of the window.
#[derive(Clone, Copy, Debug, PartialEq, Eq, Structural)]
pub enum WorkspaceCommand {
    /// Copy what is selected in the terminal in front.
    Copy,
    /// Paste into the terminal in front.
    Paste,
    /// Select all of the terminal in front.
    SelectAll,
    /// Open the search bar.
    Find,
    /// Open a terminal in the group in front.
    NewTab,
    /// Close the tab in front.
    CloseTab,
    /// Show the tab after the one in front, or the one before it.
    StepTab {
        /// Whether it is the one after.
        forward: bool,
    },
    /// Open a terminal in a new group on this side.
    Split(Direction),
    /// Have the shell clear the screen.
    Clear,
    /// Scroll the terminal in front.
    Scroll(ScrollCommand),
    /// Make the text larger or smaller by one step.
    AdjustFont {
        /// Whether it becomes larger.
        larger: bool,
    },
    /// Give the text its usual size.
    ResetFont,
    /// Open the command palette, or close it.
    TogglePalette,
    /// Show the match after the one that is shown, or the one before it.
    StepMatch {
        /// Whether it is the one after.
        forward: bool,
    },
    /// Minimize the window.
    Minimize,
    /// Zoom the window.
    Zoom,
    /// Fill the screen with the window, or no longer.
    ToggleFullScreen,
    /// Close the window at once.
    CloseWindow,
    /// Open a sidebar, or close it.
    ToggleSidebar(SidebarEdge),
    /// Open the settings.
    OpenSettings,
    /// End the program.
    Quit,
}

/// What an action asks of the window.
pub open spec fn command_of(action: Action) -> WorkspaceCommand {
    match action {
        Action::OpenSettings => WorkspaceCommand::OpenSettings,
        Action::Quit => WorkspaceCommand::Quit,
        Action::TerminalCopy => WorkspaceCommand::Copy,
        Action::TerminalPaste => WorkspaceCommand::Paste,
        Action::TerminalSelectAll => WorkspaceCommand::SelectAll,
        Action::TerminalFind => WorkspaceCommand::Find,
        Action::NewTab => WorkspaceCommand::NewTab,
        Action::CloseTab => WorkspaceCommand::CloseTab,
        Action::NextTab => WorkspaceCommand::StepTab { forward: true },
        Action::PrevTab => WorkspaceCommand::StepTab { forward: false },
        Action::SplitRight => WorkspaceCommand::Split(Direction::Right),
        Action::SplitDown => WorkspaceCommand::Split(Direction::Down),
        Action::ClearScreen => WorkspaceCommand::Clear,
        Action::ScrollTop => WorkspaceCommand::Scroll(ScrollCommand::Top),
        Action::ScrollBottom => WorkspaceCommand::Scroll(ScrollCommand::Bottom),
        Action::PageUp => WorkspaceCommand::Scroll(ScrollCommand::PageUp),
        Action::PageDown => WorkspaceCommand::Scroll(ScrollCommand::PageDown),
        Action::FontIncrease => WorkspaceCommand::AdjustFont { larger: true },
        Action::FontDecrease => WorkspaceCommand::AdjustFont { larger: false },
        Action::FontReset => WorkspaceCommand::ResetFont,
        Action::JumpPrevPrompt => WorkspaceCommand::Scroll(ScrollCommand::PrevPrompt),
        Action::JumpNextPrompt => WorkspaceCommand::Scroll(ScrollCommand::NextPrompt),
        Action::CommandPalette => WorkspaceCommand::TogglePalette,
    }
}

/// What an action asks of the window.
pub fn workspace_command(action: Action) -> (r: WorkspaceCommand)
    ensures
        r == command_of(action),
{
    match action {
        Action::OpenSettings => WorkspaceCommand::OpenSettings,
        Action::Quit => WorkspaceCommand::Quit,
        Action::TerminalCopy => WorkspaceCommand::Copy,
        Action::TerminalPaste => WorkspaceCommand::Paste,
        Action::TerminalSelectAll => WorkspaceCommand::SelectAll,
        Action::TerminalFind => WorkspaceCommand::Find,
        Action::NewTab => WorkspaceCommand::NewTab,
        Action::CloseTab => WorkspaceCommand::CloseTab,
        Action::NextTab => WorkspaceCommand::StepTab { forward: true },
        Action::PrevTab => WorkspaceCommand::StepTab { forward: false },
        Action::SplitRight => WorkspaceCommand::Split(Direction::Right),
        Action::SplitDown => WorkspaceCommand::Split(Direction::Down),
        Action::ClearScreen => WorkspaceCommand::Clear,
        Action::ScrollTop => WorkspaceCommand::Scroll(ScrollCommand::Top),
        Action::ScrollBottom => WorkspaceCommand::Scroll(ScrollCommand::Bottom),
        Action::PageUp => WorkspaceCommand::Scroll(ScrollCommand::PageUp),
        Action::PageDown => WorkspaceCommand::Scroll(ScrollCommand::PageDown),
        Action::FontIncrease => WorkspaceCommand::AdjustFont { larger: true },
        Action::FontDecrease => WorkspaceCommand::AdjustFont { larger: false },
        Action::FontReset => WorkspaceCommand::ResetFont,
        Action::JumpPrevPrompt => WorkspaceCommand::Scroll(ScrollCommand::PrevPrompt),
        Action::JumpNextPrompt => WorkspaceCommand::Scroll(ScrollCommand::NextPrompt),
        Action::CommandPalette => WorkspaceCommand::TogglePalette,
    }
}

/// Two actions never ask the same of the window.
pub proof fn actions_ask_different_things(a: Action, b: Action)
    requires
        a != b,
    ensures
        command_of(a) != command_of(b),
{
}

/// An action of the window that only the menus have.
#[derive(Clone, Copy, Debug, PartialEq, Eq, Structural)]
pub enum WindowAction {
    SplitLeft,
    SplitUp,
    FindNext,
    FindPrevious,
    MinimizeWindow,
    ZoomWindow,
    ToggleFullScreen,
    CloseWindow,
    ToggleLeftSidebar,
    ToggleRightSidebar,
}

/// What such an action asks of the window.
pub open spec fn window_command_of(action: WindowAction) -> WorkspaceCommand {
    match action {
        WindowAction::SplitLeft => WorkspaceCommand::Split(Direction::Left),
        WindowAction::SplitUp => WorkspaceCommand::Split(Direction::Up),
        WindowAction::FindNext => WorkspaceCommand::StepMatch { forward: true },
        WindowAction::FindPrevious => WorkspaceCommand::StepMatch { forward: false },
        WindowAction::MinimizeWindow => WorkspaceCommand::Minimize,
        WindowAction::ZoomWindow => WorkspaceCommand::Zoom,
        WindowAction::ToggleFullScreen => WorkspaceCommand::ToggleFullScreen,
        WindowAction::CloseWindow => WorkspaceCommand::CloseWindow,
        WindowAction::ToggleLeftSidebar => WorkspaceCommand::ToggleSidebar(SidebarEdge::Left),
        WindowAction::ToggleRightSidebar => WorkspaceCommand::ToggleSidebar(SidebarEdge::Right),
    }
}

/// What an action of the menus asks of the window.
pub fn window_command(action: WindowAction) -> (r: WorkspaceCommand)
    ensures
        r == window_command_of(action),
{
    match action {
        WindowAction::SplitLeft => WorkspaceCommand::Split(Direction::Left),
        WindowAction::SplitUp => WorkspaceCommand::Split(Direction::Up),
        WindowAction::FindNext => WorkspaceCommand::StepMatch { forward: true },
        WindowAction::FindPrevious => WorkspaceCommand::StepMatch { forward: false },
        WindowAction::MinimizeWindow => WorkspaceCommand::Minimize,
        WindowAction::ZoomWindow => WorkspaceCommand::Zoom,
        WindowAction::ToggleFullScreen => WorkspaceCommand::ToggleFullScreen,
        WindowAction::CloseWindow => WorkspaceCommand::CloseWindow,
        WindowAction::ToggleLeftSidebar => WorkspaceCommand::ToggleSidebar(SidebarEdge::Left),
        WindowAction::ToggleRightSidebar => WorkspaceCommand::ToggleSidebar(SidebarEdge::Right),
    }
}

/// Two actions of the menus never ask the same of the window, nor does one of them ask the same as
/// an action with a shortcut.
pub proof fn menu_actions_ask_different_things(a: WindowAction, b: WindowAction, c: Action)
    ensures
        a != b ==> window_command_of(a) != window_command_of(b),
        window_command_of(a) != command_of(c),
{
}

/// Whether a command ends with the window, so that the keys go no further; `done` says whether the
/// window could do what it asks. Stepping through matches, and what concerns the window itself,
/// always ends there: a key of theirs never reaches a terminal.
pub fn ends_with_the_window(command: WorkspaceCommand, done: bool) -> (r: bool)
    ensures
        r == (done || match command {
            WorkspaceCommand::StepMatch { .. } => true,
            WorkspaceCommand::Minimize => true,
            WorkspaceCommand::Zoom => true,
            WorkspaceCommand::ToggleFullScreen => true,
            WorkspaceCommand::CloseWindow => true,
            WorkspaceCommand::TogglePalette => true,
            WorkspaceCommand::ToggleSidebar(_) => true,
            _ => false,
        }),
{
    match command {
        WorkspaceCommand::StepMatch { .. }
        | WorkspaceCommand::Minimize
        | WorkspaceCommand::Zoom
        | WorkspaceCommand::ToggleFullScreen
        | WorkspaceCommand::CloseWindow
        | WorkspaceCommand::TogglePalette
        | WorkspaceCommand::ToggleSidebar(_) => true,
        _ => done,
    }
}

/// What is being dragged in a window.
#[derive(Clone, Copy, Debug, PartialEq, Eq)]
pub struct Drags {
    /// The edge of a sidebar.
    pub sidebar: Option<SidebarEdge>,
    /// The divider of a split.
    pub split: Option<SplitId>,
    /// The thumb of a scrollbar.
    pub scrollbar: Option<ScrollbarDrag>,
    /// Where a dragged tab would land.
    pub tab: Option<TabDropTarget>,
    /// A selection.
    pub selection: Option<SelectionDrag>,
}

/// Lets go of everything when the button comes up. Returns what follows for a selection.
pub fn release_button(drags: &mut Drags, copy_on_select: bool) -> (r: DragEnd)
    ensures
        *final(drags) == (Drags {
            sidebar: None,
            split: None,
            scrollbar: None,
            tab: None,
            selection: None,
        }),
        r == pointer::drag_end(old(drags).selection, copy_on_select),
{
    let end: DragEnd = finish_terminal_selection_drag(drags.selection, copy_on_select);
    *drags = Drags { sidebar: None, split: None, scrollbar: None, tab: None, selection: None };
    end
}

/// The edge of a sidebar that a move of the pointer drags on. Without a held button the drag ends.
pub fn drag_sidebar(drags: &mut Drags, held: bool) -> (r: Option<SidebarEdge>)
    ensures
        r == (if held {
            old(drags).sidebar
        } else {
            None
        }),
        *final(drags) == (Drags { sidebar: r, ..*old(drags) }),
{
    if !held {
        drags.sidebar = None;
    }
    drags.sidebar
}

/// The divider that a move of the pointer drags on. Without a held button the drag ends.
pub fn drag_split(drags: &mut Drags, held: bool) -> (r: Option<SplitId>)
    ensures
        r == (if held {
            old(drags).split
        } else {
            None
        }),
        *final(drags) == (Drags { split: r, ..*old(drags) }),
{
    if !held {
        drags.split = None;
    }
    drags.split
}

/// What happens in a blank part of the title bar.
#[derive(Clone, Copy, Debug, PartialEq, Eq, Structural)]
pub enum TitleBarEvent {
    Press,
    Release,
    Move,
    /// A click, and how many there were in a row.
    Click { count: usize },
}

/// What follows.
#[derive(Clone, Copy, Debug, PartialEq, Eq, Structural)]
pub enum TitleBarAction {
    Nothing,
    /// The window follows the pointer from now on.
    MoveWindow,
    /// What the system does on a double click.
    DoubleClick,
}

/// What follows from an event in a blank part of the title bar. The first move after a press moves
/// the window; a double click is the system's.
pub fn title_bar_event(pressed: &mut bool, event: TitleBarEvent) -> (r: TitleBarAction)
    ensures
        *final(pressed) == (match event {
            TitleBarEvent::Press => true,
            TitleBarEvent::Click { .. } => *old(pressed),
            _ => false,
        }),
        r == (match event {
            TitleBarEvent::Move => if *old(pressed) {
                TitleBarAction::MoveWindow
            } else {
                TitleBarAction::Nothing
            },
            TitleBarEvent::Click { count } => if count == 2 {
                TitleBarAction::DoubleClick
            } else {
                TitleBarAction::Nothing
            },
            _ => TitleBarAction::Nothing,
        }),
{
    match event {
        TitleBarEvent::Press => {
            *pressed = true;
            TitleBarAction::Nothing
        },
        TitleBarEvent::Release => {
            *pressed = false;
            TitleBarAction::Nothing
        },
        TitleBarEvent::Move => {
            let moves: bool = *pressed;
            *pressed = false;
            if moves {
                TitleBarAction::MoveWindow
            } else {
                TitleBarAction::Nothing
            }
        },
        TitleBarEvent::Click { count } => {
            if count == 2 {
                TitleBarAction::DoubleClick
            } else {
                TitleBarAction::Nothing
            }
        },
    }
}

/// What a command that goes to the terminal in front asks of the background service.
#[derive(Clone, Copy, Debug, PartialEq, Eq, Structural)]
pub enum TerminalRequest {
    /// Copy what is selected.
    CopySelection {
        /// The session.
        session_id: SessionId,
    },
    /// Select all.
    SelectAll {
        /// The session.
        session_id: SessionId,
    },
    /// Type a form feed, on which a shell clears the screen.
    FormFeed {
        /// The session.
        session_id: SessionId,
    },
    /// Scroll.
    Scroll {
        /// The session.
        session_id: SessionId,
        /// How far.
        command: ScrollCommand,
    },
}

/// What a command asks of the background service: nothing where no terminal is in front, and
/// nothing where the command does not go there.
pub fn terminal_request(command: WorkspaceCommand, active: Option<SessionId>) -> (r: Option<
    TerminalRequest,
>)
    ensures
        r == match (command, active) {
            (WorkspaceCommand::Copy, Some(session_id)) => Some(
                TerminalRequest::CopySelection { session_id },
            ),
            (WorkspaceCommand::SelectAll, Some(session_id)) => Some(
                TerminalRequest::SelectAll { session_id },
            ),
            (WorkspaceCommand::Clear, Some(session_id)) => Some(
                TerminalRequest::FormFeed { session_id },
            ),
            (WorkspaceCommand::Scroll(command), Some(session_id)) => Some(
                TerminalRequest::Scroll { session_id, command },
            ),
            _ => None,
        },
{
    match (command, active) {
        (WorkspaceCommand::Copy, Some(session_id)) => Some(
            TerminalRequest::CopySelection { session_id },
        ),
        (WorkspaceCommand::SelectAll, Some(session_id)) => Some(
            TerminalRequest::SelectAll { session_id },
        ),
        (WorkspaceCommand::Clear, Some(session_id)) => Some(
            TerminalRequest::FormFeed { session_id },
        ),
        (WorkspaceCommand::Scroll(command), Some(session_id)) => Some(
            TerminalRequest::Scroll { session_id, command },
        ),
        _ => None,
    }
}

/// What is typed into a terminal that is to be cleared.
pub fn clear_screen_bytes() -> (r: Vec<u8>)
    ensures
        r@ == seq![0x0cu8],
{
    let r: Vec<u8> = vec![0x0c];
    assert(r@ =~= seq![0x0cu8]);
    r
}

/// What pasting sends to the terminal in front.
#[derive(Clone, Debug)]
pub enum PastePlan {
    /// Nothing.
    Nothing,
    /// A text.
    Text {
        /// The session.
        session_id: SessionId,
        /// The text.
        text: String,
    },
    /// All that the clipboard holds, for a program that asked for it.
    Rich {
        /// The session.
        session_id: SessionId,
        /// The contents.
        contents: Vec<TerminalClipboardContent>,
    },
}

/// What pasting sends to the terminal in front: nothing where there is no terminal or nothing to
/// paste; all contents to a program that takes them; else the text, where there is any.
pub fn paste_plan(
    active: Option<SessionId>,
    held: &Option<Vec<ClipboardEntry>>,
    held_text: &Option<String>,
    paste_events: bool,
) -> (r: PastePlan)
    ensures
        match (active, *held) {
            (Some(session), Some(entries)) => if paste_events {
                exists|any: Seq<String>| #[trigger]
                    is_any_type(any) && (r matches PastePlan::Rich { session_id, contents }
                        && session_id == session && clipboard::contents(contents@)
                        == clipboard::all_given(clipboard::entries(entries@), any))
            } else {
                match *held_text {
                    Some(t) => r matches PastePlan::Text { session_id, text } && session_id
                        == session && text@ == t@,
                    None => r is Nothing,
                }
            },
            _ => r is Nothing,
        },
{
    let session_id: SessionId = match active {
        Some(s) => s,
        None => {
            return PastePlan::Nothing;
        },
    };
    let entries: &Vec<ClipboardEntry> = match held {
        Some(e) => e,
        None => {
            return PastePlan::Nothing;
        },
    };
    if paste_events {
        let any: Vec<String> = vec!["*/*".to_owned()];
        assert(is_any_type(any@));
        let contents: Vec<TerminalClipboardContent> = clipboard_contents_from_item(entries, &any);
        PastePlan::Rich { session_id, contents }
    } else {
        match held_text {
            Some(t) => PastePlan::Text { session_id, text: t.clone() },
            None => PastePlan::Nothing,
        }
    }
}

/// The session that something is pasted into.
pub open spec fn pasted_into(plan: PastePlan) -> Option<SessionId> {
    match plan {
        PastePlan::Nothing => None,
        PastePlan::Text { session_id, .. } => Some(session_id),
        PastePlan::Rich { session_id, .. } => Some(session_id),
    }
}

/// What follows once a paste was handed over, or could not be.
#[derive(Clone, Copy, Debug, PartialEq, Eq, Structural)]
pub struct PasteEnd {
    /// Whether the command was carried out, so that nobody else gets it.
    pub done: bool,
    /// The session whose selection is cleared.
    pub clear_selection: Option<SessionId>,
    /// Whether the window has to be redrawn.
    pub redraw: bool,
}

/// Takes what came of a paste; `sent` says whether it was handed over. After one that was, the
/// selection of the session is cleared, and the text that was being composed there is dropped, for
/// which the window is redrawn. Otherwise nothing changes.
pub fn finish_paste(
    plan: &PastePlan,
    sent: bool,
    compositions: &mut HashMap<SessionId, TerminalImeState>,
) -> (r: PasteEnd)
    ensures
        match pasted_into(*plan) {
            Some(s) if sent => {
                &&& r == (PasteEnd {
                    done: true,
                    clear_selection: Some(s),
                    redraw: old(compositions)@.contains_key(s),
                })
                &&& final(compositions)@ == old(compositions)@.remove(s)
            },
            _ => {
                &&& r == (PasteEnd { done: false, clear_selection: None, redraw: false })
                &&& final(compositions)@ == old(compositions)@
            },
        },
{
    let session: Option<SessionId> = match plan {
        PastePlan::Nothing => None,
        PastePlan::Text { session_id, .. } => Some(*session_id),
        PastePlan::Rich { session_id, .. } => Some(*session_id),
    };
    match session {
        Some(s) => {
            if sent {
                let redraw: bool = clear_terminal_marked_text(compositions, s);
                return PasteEnd { done: true, clear_selection: Some(s), redraw };
            }
        },
        None => {},
    }
    PasteEnd { done: false, clear_selection: None, redraw: false }
}

/// The list of types that asks for everything.
pub open spec fn is_any_type(requested: Seq<String>) -> bool {
    requested.len() == 1 && requested[0]@ == "*/*"@
}

// ---------------------------------------------------------------------------
// The menu of a process
// ---------------------------------------------------------------------------

/// A command of the menu of a process.
#[derive(Clone, Copy, Debug, PartialEq, Eq, Structural)]
pub enum ProcessMenuCommand {
    /// Ask it to end.
    Terminate,
    /// End it.
    ForceKill,
    /// Copy its number.
    CopyPid,
    /// Copy the path of its program.
    CopyExecutablePath,
}

/// What a command of the menu does.
#[derive(Clone, Debug)]
pub enum ProcessMenuAction {
    /// Send a signal.
    Signal {
        /// To this process.
        pid: u32,
        /// Whether it is the one that cannot be refused.
        forced: bool,
    },
    /// Put a text on the clipboard.
    CopyText(String),
    /// Nothing.
    Nothing,
}

/// What a command of the menu does. The path is copied where it is known.
pub fn process_menu_action(
    command: ProcessMenuCommand,
    pid: u32,
    executable: &Option<String>,
) -> (r: ProcessMenuAction)
    ensures
        match command {
            ProcessMenuCommand::Terminate => r matches ProcessMenuAction::Signal { pid: p, forced }
                && p == pid && !forced,
            ProcessMenuCommand::ForceKill => r matches ProcessMenuAction::Signal { pid: p, forced }
                && p == pid && forced,
            ProcessMenuCommand::CopyPid => r matches ProcessMenuAction::CopyText(t) && t@
                == text::decimal(pid as nat),
            ProcessMenuCommand::CopyExecutablePath => match *executable {
                Some(path) => r matches ProcessMenuAction::CopyText(t) && t@ == path@,
                None => r is Nothing,
            },
        },
{
    match command {
        ProcessMenuCommand::Terminate => ProcessMenuAction::Signal { pid, forced: false },
        ProcessMenuCommand::ForceKill => ProcessMenuAction::Signal { pid, forced: true },
        ProcessMenuCommand::CopyPid => ProcessMenuAction::CopyText(decimal_text(pid as u64)),
        ProcessMenuCommand::CopyExecutablePath => match executable {
            Some(path) => ProcessMenuAction::CopyText(path.clone()),
            None => ProcessMenuAction::Nothing,
        },
    }
}

// ---------------------------------------------------------------------------
// What sessions are told of the settings
// ---------------------------------------------------------------------------

/// How long finished and silent progress is shown, in milliseconds.
#[derive(Clone, Copy, Debug, PartialEq, Eq, Structural)]
pub struct ProgressTimeouts {
    /// Finished progress.
    pub completed_ms: u64,
    /// Progress that was not heard of again.
    pub stale_ms: u64,
}

/// A thousand times `seconds`, or the greatest number where that is greater.
pub open spec fn in_milliseconds(seconds: u64) -> u64 {
    if seconds * 1000 <= u64::MAX {
        (seconds * 1000) as u64
    } else {
        u64::MAX
    }
}

fn milliseconds(seconds: u64) -> (r: u64)
    ensures
        r == in_milliseconds(seconds),
{
    match seconds.checked_mul(1000) {
        Some(v) => v,
        None => u64::MAX,
    }
}

/// How long progress is shown, from settings in seconds.
pub fn progress_timeouts(complete_secs: u64, stale_secs: u64) -> (r: ProgressTimeouts)
    ensures
        r.completed_ms == in_milliseconds(complete_secs),
        r.stale_ms == in_milliseconds(stale_secs),
{
    ProgressTimeouts {
        completed_ms: milliseconds(complete_secs),
        stale_ms: milliseconds(stale_secs),
    }
}

/// The settings that the sessions are told of. The shape of the cursor is a number of the
/// background service's.
#[derive(Clone, Copy, Debug, PartialEq, Eq, Structural)]
pub struct SessionSettings {
    /// How long progress is shown.
    pub timeouts: ProgressTimeouts,
    /// Whether programs may read the clipboard.
    pub allow_clipboard_read: bool,
    /// Whether links are looked for.
    pub detect_urls: bool,
    /// The shape of the cursor.
    pub cursor_shape: u8,
    /// How many lines are kept above the screen.
    pub scrollback_limit: usize,
}

/// Something that a session is told.
#[derive(Clone, Copy, Debug, PartialEq, Eq, Structural)]
pub enum SessionSetting {
    /// The colors of the theme.
    Appearance,
    /// How long progress is shown.
    ProgressTimeouts(ProgressTimeouts),
    /// Whether programs may read the clipboard.
    OscPolicy(bool),
    /// Whether links are looked for.
    UrlDetection(bool),
    /// The shape of the cursor.
    CursorStyle(u8),
    /// How many lines are kept above the screen.
    ScrollbackLimit(usize),
}

/// What a session that a window starts with is told, in order.
pub open spec fn all_settings(s: SessionSettings) -> Seq<SessionSetting> {
    seq![
        SessionSetting::Appearance,
        SessionSetting::ProgressTimeouts(s.timeouts),
        SessionSetting::OscPolicy(s.allow_clipboard_read),
        SessionSetting::UrlDetection(s.detect_urls),
        SessionSetting::CursorStyle(s.cursor_shape),
        SessionSetting::ScrollbackLimit(s.scrollback_limit),
    ]
}

/// One setting, where it changed.
pub open spec fn where_changed(changed: bool, setting: SessionSetting) -> Seq<SessionSetting> {
    if changed {
        seq![setting]
    } else {
        seq![]
    }
}

/// What the sessions are told after the settings changed: what differs, and nothing else.
pub open spec fn changed_settings(
    old_settings: SessionSettings,
    new_settings: SessionSettings,
    appearance_changed: bool,
) -> Seq<SessionSetting> {
    where_changed(appearance_changed, SessionSetting::Appearance) + where_changed(
        old_settings.timeouts != new_settings.timeouts,
        SessionSetting::ProgressTimeouts(new_settings.timeouts),
    ) + where_changed(
        old_settings.allow_clipboard_read != new_settings.allow_clipboard_read,
        SessionSetting::OscPolicy(new_settings.allow_clipboard_read),
    ) + where_changed(
        old_settings.detect_urls != new_settings.detect_urls,
        SessionSetting::UrlDetection(new_settings.detect_urls),
    ) + where_changed(
        old_settings.cursor_shape != new_settings.cursor_shape,
        SessionSetting::CursorStyle(new_settings.cursor_shape),
    ) + where_changed(
        old_settings.scrollback_limit != new_settings.scrollback_limit,
        SessionSetting::ScrollbackLimit(new_settings.scrollback_limit),
    )
}

/// Each of the first `n` sessions with each of the settings: one session after the other.
pub open spec fn by_session(
    ids: Seq<SessionId>,
    settings: Seq<SessionSetting>,
    n: int,
) -> Seq<(SessionId, SessionSetting)>
    decreases n,
{
    if n <= 0 {
        seq![]
    } else {
        by_session(ids, settings, n - 1) + settings.map_values(
            |s: SessionSetting| (ids[n - 1], s),
        )
    }
}

/// Each of the first `n` settings with each of the sessions: one setting after the other.
pub open spec fn by_setting(
    ids: Seq<SessionId>,
    settings: Seq<SessionSetting>,
    n: int,
) -> Seq<(SessionId, SessionSetting)>
    decreases n,
{
    if n <= 0 {
        seq![]
    } else {
        by_setting(ids, settings, n - 1) + ids.map_values(
            |id: SessionId| (id, settings[n - 1]),
        )
    }
}

/// What the sessions of a new window are told.
pub fn session_setup(ids: &Vec<SessionId>, s: SessionSettings) -> (r: Vec<
    (SessionId, SessionSetting),
>)
    ensures
        r@ == by_session(ids@, all_settings(s), ids@.len() as int),
{
    let mut r: Vec<(SessionId, SessionSetting)> = Vec::new();
    let mut i: usize = 0;
    while i < ids.len()
        invariant
            i <= ids@.len(),
            r@ == by_session(ids@, all_settings(s), i as int),
        decreases ids@.len() - i,
    {
        let ghost had = r@;
        let id: SessionId = ids[i];
        r.push((id, SessionSetting::Appearance));
        r.push((id, SessionSetting::ProgressTimeouts(s.timeouts)));
        r.push((id, SessionSetting::OscPolicy(s.allow_clipboard_read)));
        r.push((id, SessionSetting::UrlDetection(s.detect_urls)));
        r.push((id, SessionSetting::CursorStyle(s.cursor_shape)));
        r.push((id, SessionSetting::ScrollbackLimit(s.scrollback_limit)));
        assert(r@ =~= had + all_settings(s).map_values(
            |x: SessionSetting| (ids@[i as int], x),
        ));
        i = i + 1;
    }
    r
}

/// What a session is told that a window has claimed or newly made, in order. The rest it was told when
/// it was made, or by the window that it was in.
pub open spec fn arrival_settings(s: SessionSettings) -> Seq<SessionSetting> {
    seq![
        SessionSetting::ProgressTimeouts(s.timeouts),
        SessionSetting::OscPolicy(s.allow_clipboard_read),
    ]
}

/// What a session is told that a window has claimed or newly made.
pub fn arrival_setup(id: SessionId, s: SessionSettings) -> (r: Vec<(SessionId, SessionSetting)>)
    ensures
        r@ == by_session(seq![id], arrival_settings(s), 1),
{
    let mut r: Vec<(SessionId, SessionSetting)> = Vec::new();
    r.push((id, SessionSetting::ProgressTimeouts(s.timeouts)));
    r.push((id, SessionSetting::OscPolicy(s.allow_clipboard_read)));
    proof {
        let ids = seq![id];
        reveal_with_fuel(by_session, 2);
        assert(r@ =~= by_session(ids, arrival_settings(s), 1));
    }
    r
}

fn push_changed(out: &mut Vec<SessionSetting>, changed: bool, setting: SessionSetting)
    ensures
        final(out)@ == old(out)@ + where_changed(changed, setting),
{
    if changed {
        out.push(setting);
    }
    assert(out@ =~= old(out)@ + where_changed(changed, setting));
}

/// What the sessions of a window are told after the settings changed.
pub fn settings_changes(
    ids: &Vec<SessionId>,
    old_settings: SessionSettings,
    new_settings: SessionSettings,
    appearance_changed: bool,
) -> (r: Vec<(SessionId, SessionSetting)>)
    ensures
        ({
            let changed = changed_settings(old_settings, new_settings, appearance_changed);
            r@ == by_setting(ids@, changed, changed.len() as int)
        }),
{
    let mut changed: Vec<SessionSetting> = Vec::new();
    push_changed(&mut changed, appearance_changed, SessionSetting::Appearance);
    push_changed(
        &mut changed,
        !(old_settings.timeouts == new_settings.timeouts),
        SessionSetting::ProgressTimeouts(new_settings.timeouts),
    );
    push_changed(
        &mut changed,
        old_settings.allow_clipboard_read != new_settings.allow_clipboard_read,
        SessionSetting::OscPolicy(new_settings.allow_clipboard_read),
    );
    push_changed(
        &mut changed,
        old_settings.detect_urls != new_settings.detect_urls,
        SessionSetting::UrlDetection(new_settings.detect_urls),
    );
    push_changed(
        &mut changed,
        old_settings.cursor_shape != new_settings.cursor_shape,
        SessionSetting::CursorStyle(new_settings.cursor_shape),
    );
    push_changed(
        &mut changed,
        old_settings.scrollback_limit != new_settings.scrollback_limit,
        SessionSetting::ScrollbackLimit(new_settings.scrollback_limit),
    );
    assert(changed@ =~= changed_settings(old_settings, new_settings, appearance_changed));
    let mut r: Vec<(SessionId, SessionSetting)> = Vec::new();
    let mut k: usize = 0;
    while k < changed.len()
        invariant
            k <= changed@.len(),
            r@ == by_setting(ids@, changed@, k as int),
        decreases changed@.len() - k,
    {
        let ghost had = r@;
        let setting: SessionSetting = changed[k];
        let ghost pairs = ids@.map_values(|id: SessionId| (id, changed@[k as int]));
        let mut i: usize = 0;
        assert(r@ =~= had + pairs.take(0));
        while i < ids.len()
            invariant
                i <= ids@.len(),
                pairs == ids@.map_values(|id: SessionId| (id, setting)),
                r@ == had + pairs.take(i as int),
            decreases ids@.len() - i,
        {
            r.push((ids[i], setting));
            assert(r@ =~= had + pairs.take(i + 1));
            i = i + 1;
        }
        assert(pairs.take(i as int) =~= pairs);
        k = k + 1;
    }
    r
}

/// Settings that did not change are not sent again.
pub proof fn unchanged_settings_are_not_sent(s: SessionSettings)
    ensures
        changed_settings(s, s, false).len() == 0,
{
}

/// Every session of a new window is told all settings.
pub proof fn every_session_is_told_all(
    ids: Seq<SessionId>,
    s: SessionSettings,
    n: int,
    i: int,
    k: int,
)
    requires
        0 <= i < n <= ids.len(),
        0 <= k < all_settings(s).len(),
    ensures
        by_session(ids, all_settings(s), n).contains((ids[i], all_settings(s)[k])),
    decreases n,
{
    let settings = all_settings(s);
    let rest = by_session(ids, settings, n - 1);
    let now = by_session(ids, settings, n);
    if i == n - 1 {
        assert(now[rest.len() + k] == (ids[i], settings[k]));
    } else {
        every_session_is_told_all(ids, s, n - 1, i, k);
        let p = choose|p: int| 0 <= p < rest.len() && rest[p] == (ids[i], settings[k]);
        assert(now[p] == (ids[i], settings[k]));
    }
}

// ---------------------------------------------------------------------------
// The scrollbar of a terminal
// ---------------------------------------------------------------------------

/// A thumb that is being dragged.
#[derive(Clone, Copy, Debug, PartialEq, Eq, Structural)]
pub struct ScrollbarDrag {
    /// In which group.
    pub group_id: GroupId,
    /// Of which session.
    pub session_id: SessionId,
    /// How far up the terminal was asked to scroll.
    pub pending_offset: u32,
}

/// Whether the thumb of a group is being dragged.
pub open spec fn drags_in(drag: Option<ScrollbarDrag>, group_id: GroupId) -> bool {
    drag matches Some(d) && d.group_id == group_id
}

/// How strongly the thumb is drawn at rest.
pub const THUMB_ALPHA_IDLE: u32 = 0x59;

/// How strongly it is drawn under the pointer.
pub const THUMB_ALPHA_HOVER: u32 = 0x99;

/// How strongly it is drawn while it is dragged.
pub const THUMB_ALPHA_DRAG: u32 = 0xcc;

/// The scrollbar of a group.
#[derive(Clone, Copy, Debug, PartialEq, Eq, Structural)]
pub struct ScrollbarView {
    /// How far up to draw the thumb.
    pub offset: u32,
    /// The color of the thumb, `0xRRGGBBAA`.
    pub color: u32,
    /// Its color under the pointer; the same while it is dragged.
    pub hover_color: u32,
}

/// A color `0xRRGGBB` with a strength behind it.
pub open spec fn with_alpha(color: u32, alpha: u32) -> int {
    color as int % 0x100_0000 * 256 + alpha
}

fn shaded(color: u32, alpha: u32) -> (r: u32)
    requires
        alpha < 256,
    ensures
        r == with_alpha(color, alpha),
{
    color % 0x100_0000 * 256 + alpha
}

/// The scrollbar of a group: none without lines above the screen. While the thumb is dragged it is
/// drawn where it was dragged to, ahead of the terminal.
pub fn scrollbar_view(
    drag: Option<ScrollbarDrag>,
    group_id: GroupId,
    history: u32,
    offset: u32,
    muted: u32,
) -> (r: Option<ScrollbarView>)
    ensures
        r is Some <==> history > 0,
        r matches Some(v) ==> {
            &&& v.offset == if drags_in(drag, group_id) {
                drag->0.pending_offset
            } else {
                offset
            }
            &&& v.color == with_alpha(
                muted,
                if drags_in(drag, group_id) {
                    THUMB_ALPHA_DRAG
                } else {
                    THUMB_ALPHA_IDLE
                },
            )
            &&& v.hover_color == if drags_in(drag, group_id) {
                v.color as int
            } else {
                with_alpha(muted, THUMB_ALPHA_HOVER)
            }
        },
{
    if history == 0 {
        return None;
    }
    let (dragging, at): (bool, u32) = match drag {
        Some(d) => if d.group_id == group_id {
            (true, d.pending_offset)
        } else {
            (false, offset)
        },
        None => (false, offset),
    };
    let color: u32 = if dragging {
        shaded(muted, THUMB_ALPHA_DRAG)
    } else {
        shaded(muted, THUMB_ALPHA_IDLE)
    };
    Some(
        ScrollbarView {
            offset: at,
            color,
            hover_color: if dragging {
                color
            } else {
                shaded(muted, THUMB_ALPHA_HOVER)
            },
        },
    )
}

/// Where on the track a click fell.
#[derive(Clone, Copy, Debug, PartialEq, Eq, Structural)]
pub enum TrackPart {
    /// Above the thumb.
    Above,
    /// On the thumb.
    Thumb,
    /// Below the thumb.
    Below,
}

/// How far a click on the track scrolls: a page towards the click.
pub fn scrollbar_track_click(part: TrackPart) -> (r: Option<ScrollCommand>)
    ensures
        r == match part {
            TrackPart::Above => Some(ScrollCommand::PageUp),
            TrackPart::Thumb => None,
            TrackPart::Below => Some(ScrollCommand::PageDown),
        },
{
    match part {
        TrackPart::Above => Some(ScrollCommand::PageUp),
        TrackPart::Thumb => None,
        TrackPart::Below => Some(ScrollCommand::PageDown),
    }
}

/// Moves the thumb that is being dragged. `target` is where the pointer would have it, once track
/// and terminal are known. Returns the session to scroll, and how far up.
pub fn drag_scrollbar(drag: &mut Option<ScrollbarDrag>, button_held: bool, target: Option<u32>) -> (r:
    Option<(SessionId, u32)>)
    ensures
        match *old(drag) {
            None => *final(drag) is None && r is None,
            Some(d) => if !button_held {
                *final(drag) is None && r is None
            } else {
                match target {
                    None => *final(drag) == *old(drag) && r is None,
                    Some(offset) => *final(drag) == Some(
                        ScrollbarDrag { pending_offset: offset, ..d },
                    ) && r == Some((d.session_id, offset)),
                }
            },
        },
{
    match *drag {
        None => None,
        Some(d) => if !button_held {
            *drag = None;
            None
        } else {
            match target {
                None => None,
                Some(offset) => {
                    *drag = Some(
                        ScrollbarDrag {
                            group_id: d.group_id,
                            session_id: d.session_id,
                            pending_offset: offset,
                        },
                    );
                    Some((d.session_id, offset))
                },
            }
        },
    }
}

/// An action that names a side splits on that side, whether a shortcut or a menu asks.
pub proof fn a_split_opens_on_the_side_it_names(a: Action, w: WindowAction, d: Direction)
    ensures
        command_of(a) == WorkspaceCommand::Split(d) <==> ((a is SplitRight && d is Right) || (
        a is SplitDown && d is Down)),
        window_command_of(w) == WorkspaceCommand::Split(d) <==> ((w is SplitLeft && d is Left) || (
        w is SplitUp && d is Up)),
{
}

/// The action for the next tab or match goes forward, that for the one before goes back, and no other
/// action steps.
pub proof fn a_step_goes_the_way_it_names(a: Action, w: WindowAction, forward: bool)
    ensures
        command_of(a) == (WorkspaceCommand::StepTab { forward }) <==> ((a is NextTab && forward) || (
        a is PrevTab && !forward)),
        window_command_of(w) == (WorkspaceCommand::StepMatch { forward }) <==> ((w is FindNext
            && forward) || (w is FindPrevious && !forward)),
{
}

/// Each scrolling action scrolls to the place that it names, and no other action scrolls.
pub proof fn scrolling_goes_where_it_names(a: Action, s: ScrollCommand)
    ensures
        command_of(a) == WorkspaceCommand::Scroll(s) <==> ((a is ScrollTop && s is Top) || (
        a is ScrollBottom && s is Bottom) || (a is PageUp && s is PageUp) || (a is PageDown
            && s is PageDown) || (a is JumpPrevPrompt && s is PrevPrompt) || (a is JumpNextPrompt
            && s is NextPrompt)),
{
}

/// The action that makes the text larger does so, and the one that makes it smaller does that; a third
/// one gives it its usual size.
pub proof fn the_font_changes_as_the_action_names(a: Action, larger: bool)
    ensures
        command_of(a) == (WorkspaceCommand::AdjustFont { larger }) <==> ((a is FontIncrease && larger)
            || (a is FontDecrease && !larger)),
        command_of(a) is ResetFont <==> a is FontReset,
{
}

/// Every other action asks for what it names.
pub proof fn actions_ask_for_what_they_name(a: Action)
    ensures
        command_of(a) is Copy <==> a is TerminalCopy,
        command_of(a) is Paste <==> a is TerminalPaste,
        command_of(a) is SelectAll <==> a is TerminalSelectAll,
        command_of(a) is Find <==> a is TerminalFind,
        command_of(a) is NewTab <==> a is NewTab,
        command_of(a) is CloseTab <==> a is CloseTab,
        command_of(a) is Clear <==> a is ClearScreen,
        command_of(a) is TogglePalette <==> a is CommandPalette,
        command_of(a) is OpenSettings <==> a is OpenSettings,
        command_of(a) is Quit <==> a is Quit,
{
}

/// Every other action of the menus asks for what it names, a sidebar on the side that it names.
pub proof fn menu_actions_ask_for_what_they_name(w: WindowAction, edge: SidebarEdge)
    ensures
        window_command_of(w) is Minimize <==> w is MinimizeWindow,
        window_command_of(w) is Zoom <==> w is ZoomWindow,
        window_command_of(w) is ToggleFullScreen <==> w is ToggleFullScreen,
        window_command_of(w) is CloseWindow <==> w is CloseWindow,
        window_command_of(w) == WorkspaceCommand::ToggleSidebar(edge) <==> ((w is ToggleLeftSidebar
            && edge is Left) || (w is ToggleRightSidebar && edge is Right)),
{
}

/// A paste goes to the session that its plan names, and none goes anywhere where there is no plan.
pub proof fn a_paste_goes_to_its_session(plan: PastePlan)
    ensures
        plan is Nothing <==> pasted_into(plan) is None,
        plan matches PastePlan::Text { session_id, .. } ==> pasted_into(plan) == Some(session_id),
        plan matches PastePlan::Rich { session_id, .. } ==> pasted_into(plan) == Some(session_id),
{
}

/// Only the one pattern that stands for every type asks for everything.
pub proof fn only_the_star_asks_for_everything(requested: Seq<String>)
    requires
        is_any_type(requested),
    ensures
        requested.len() == 1,
        requested[0]@ == seq!['*', '/', '*'],
{
    reveal_strlit("*/*");
    assert("*/*"@ =~= seq!['*', '/', '*']);
}

/// A second has a thousand milliseconds, as long as they can be counted.
pub proof fn a_second_has_a_thousand_milliseconds(seconds: u64)
    ensures
        seconds <= 18_446_744_073_709_551 ==> in_milliseconds(seconds) == 1000 * seconds,
        seconds > 18_446_744_073_709_551 ==> in_milliseconds(seconds)
            == 18_446_744_073_709_551_615,
{
}

/// A session that a window starts with is told all of the settings, with the values that they have.
pub proof fn all_settings_are_told(s: SessionSettings, x: SessionSetting)
    ensures
        all_settings(s).contains(x) <==> (x is Appearance || x == SessionSetting::ProgressTimeouts(
            s.timeouts,
        ) || x == SessionSetting::OscPolicy(s.allow_clipboard_read) || x
            == SessionSetting::UrlDetection(s.detect_urls) || x == SessionSetting::CursorStyle(
            s.cursor_shape,
        ) || x == SessionSetting::ScrollbackLimit(s.scrollback_limit)),
{
    let all = all_settings(s);
    assert(all.len() == 6);
    if x is Appearance {
        assert(all[0] == x);
    }
    if x == SessionSetting::ProgressTimeouts(s.timeouts) {
        assert(all[1] == x);
    }
    if x == SessionSetting::OscPolicy(s.allow_clipboard_read) {
        assert(all[2] == x);
    }
    if x == SessionSetting::UrlDetection(s.detect_urls) {
        assert(all[3] == x);
    }
    if x == SessionSetting::CursorStyle(s.cursor_shape) {
        assert(all[4] == x);
    }
    if x == SessionSetting::ScrollbackLimit(s.scrollback_limit) {
        assert(all[5] == x);
    }
    if all.contains(x) {
        let i = all.index_of(x);
        assert(i == 0 || i == 1 || i == 2 || i == 3 || i == 4 || i == 5);
    }
}

/// A session that a window takes in is told how long progress is shown and whether programs may read
/// the clipboard.
pub proof fn a_new_session_is_told_two_settings(s: SessionSettings)
    ensures
        arrival_settings(s) == seq![
            SessionSetting::ProgressTimeouts(s.timeouts),
            SessionSetting::OscPolicy(s.allow_clipboard_read),
        ],
{
}

/// After the settings changed a session is told exactly those that differ, with their new values.
pub proof fn changes_are_told_and_nothing_else(
    a: SessionSettings,
    b: SessionSettings,
    appearance: bool,
    x: SessionSetting,
)
    ensures
        changed_settings(a, b, appearance).contains(x) <==> ((x is Appearance && appearance) || (x
            == SessionSetting::ProgressTimeouts(b.timeouts) && a.timeouts != b.timeouts) || (x
            == SessionSetting::OscPolicy(b.allow_clipboard_read) && a.allow_clipboard_read
            != b.allow_clipboard_read) || (x == SessionSetting::UrlDetection(b.detect_urls)
            && a.detect_urls != b.detect_urls) || (x == SessionSetting::CursorStyle(b.cursor_shape)
            && a.cursor_shape != b.cursor_shape) || (x == SessionSetting::ScrollbackLimit(
            b.scrollback_limit,
        ) && a.scrollback_limit != b.scrollback_limit)),
{
    let p0 = where_changed(appearance, SessionSetting::Appearance);
    let p1 = where_changed(
        a.timeouts != b.timeouts,
        SessionSetting::ProgressTimeouts(b.timeouts),
    );
    let p2 = where_changed(
        a.allow_clipboard_read != b.allow_clipboard_read,
        SessionSetting::OscPolicy(b.allow_clipboard_read),
    );
    let p3 = where_changed(
        a.detect_urls != b.detect_urls,
        SessionSetting::UrlDetection(b.detect_urls),
    );
    let p4 = where_changed(
        a.cursor_shape != b.cursor_shape,
        SessionSetting::CursorStyle(b.cursor_shape),
    );
    let p5 = where_changed(
        a.scrollback_limit != b.scrollback_limit,
        SessionSetting::ScrollbackLimit(b.scrollback_limit),
    );
    one_setting_is_held(appearance, SessionSetting::Appearance, x);
    one_setting_is_held(
        a.timeouts != b.timeouts,
        SessionSetting::ProgressTimeouts(b.timeouts),
        x,
    );
    one_setting_is_held(
        a.allow_clipboard_read != b.allow_clipboard_read,
        SessionSetting::OscPolicy(b.allow_clipboard_read),
        x,
    );
    one_setting_is_held(
        a.detect_urls != b.detect_urls,
        SessionSetting::UrlDetection(b.detect_urls),
        x,
    );
    one_setting_is_held(
        a.cursor_shape != b.cursor_shape,
        SessionSetting::CursorStyle(b.cursor_shape),
        x,
    );
    one_setting_is_held(
        a.scrollback_limit != b.scrollback_limit,
        SessionSetting::ScrollbackLimit(b.scrollback_limit),
        x,
    );
    joined_lists_hold_both(p0, p1, x);
    joined_lists_hold_both(p0 + p1, p2, x);
    joined_lists_hold_both(p0 + p1 + p2, p3, x);
    joined_lists_hold_both(p0 + p1 + p2 + p3, p4, x);
    joined_lists_hold_both(p0 + p1 + p2 + p3 + p4, p5, x);
}

proof fn one_setting_is_held(on: bool, s: SessionSetting, x: SessionSetting)
    ensures
        where_changed(on, s).contains(x) <==> on && x == s,
{
    if on {
        assert(where_changed(on, s)[0] == s);
    }
}

proof fn joined_lists_hold_both<A>(a: Seq<A>, b: Seq<A>, x: A)
    ensures
        (a + b).contains(x) <==> a.contains(x) || b.contains(x),
{
    let all = a + b;
    if a.contains(x) {
        let i = a.index_of(x);
        assert(all[i] == x);
    }
    if b.contains(x) {
        let i = b.index_of(x);
        assert(all[a.len() + i] == x);
    }
    if all.contains(x) {
        let i = all.index_of(x);
        if i < a.len() {
            assert(a[i] == x);
        } else {
            assert(b[i - a.len()] == x);
        }
    }
}

/// Whether one session after the other or one setting after the other is told: exactly the sessions
/// are told exactly the settings.
pub proof fn every_session_is_told_every_setting(
    ids: Seq<SessionId>,
    settings: Seq<SessionSetting>,
    id: SessionId,
    x: SessionSetting,
)
    ensures
        by_session(ids, settings, ids.len() as int).contains((id, x)) <==> ids.contains(id)
            && settings.contains(x),
        by_setting(ids, settings, settings.len() as int).contains((id, x)) <==> ids.contains(id)
            && settings.contains(x),
{
    told_by_session(ids, settings, ids.len() as int, id, x);
    told_by_setting(ids, settings, settings.len() as int, id, x);
    assert(ids.take(ids.len() as int) =~= ids);
    assert(settings.take(settings.len() as int) =~= settings);
}

proof fn told_by_session(
    ids: Seq<SessionId>,
    settings: Seq<SessionSetting>,
    n: int,
    id: SessionId,
    x: SessionSetting,
)
    requires
        0 <= n <= ids.len(),
    ensures
        by_session(ids, settings, n).contains((id, x)) <==> ids.take(n).contains(id)
            && settings.contains(x),
    decreases n,
{
    if n > 0 {
        told_by_session(ids, settings, n - 1, id, x);
        let last = settings.map_values(|s: SessionSetting| (ids[n - 1], s));
        joined_lists_hold_both(by_session(ids, settings, n - 1), last, (id, x));
        assert(ids.take(n) =~= ids.take(n - 1) + seq![ids[n - 1]]);
        joined_lists_hold_both(ids.take(n - 1), seq![ids[n - 1]], id);
        assert(seq![ids[n - 1]].contains(id) <==> id == ids[n - 1]) by {
            assert(seq![ids[n - 1]][0] == ids[n - 1]);
        }
        if last.contains((id, x)) {
            let k = last.index_of((id, x));
            assert(settings[k] == x);
        }
        if settings.contains(x) && id == ids[n - 1] {
            let k = settings.index_of(x);
            assert(last[k] == (id, x));
        }
    }
}

proof fn told_by_setting(
    ids: Seq<SessionId>,
    settings: Seq<SessionSetting>,
    n: int,
    id: SessionId,
    x: SessionSetting,
)
    requires
        0 <= n <= settings.len(),
    ensures
        by_setting(ids, settings, n).contains((id, x)) <==> ids.contains(id) && settings.take(
            n,
        ).contains(x),
    decreases n,
{
    if n > 0 {
        told_by_setting(ids, settings, n - 1, id, x);
        let last = ids.map_values(|i: SessionId| (i, settings[n - 1]));
        joined_lists_hold_both(by_setting(ids, settings, n - 1), last, (id, x));
        assert(settings.take(n) =~= settings.take(n - 1) + seq![settings[n - 1]]);
        joined_lists_hold_both(settings.take(n - 1), seq![settings[n - 1]], x);
        assert(seq![settings[n - 1]].contains(x) <==> x == settings[n - 1]) by {
            assert(seq![settings[n - 1]][0] == settings[n - 1]);
        }
        if last.contains((id, x)) {
            let k = last.index_of((id, x));
            assert(ids[k] == id);
        }
        if ids.contains(id) && x == settings[n - 1] {
            let k = ids.index_of(id);
            assert(last[k] == (id, x));
        }
    }
}

/// The thumb of a group is dragged only where the drag began in that group.
pub proof fn a_thumb_is_dragged_in_its_own_group(d: ScrollbarDrag, group_id: GroupId)
    ensures
        drags_in(Some(d), group_id) <==> d.group_id == group_id,
        !drags_in(None, group_id),
{
}

/// A shade keeps the three parts of its color and puts its strength behind them; a thumb grows
/// stronger from rest to the pointer to a drag.
pub proof fn a_shade_keeps_its_color(r: u8, g: u8, b: u8, alpha: u8)
    ensures
        with_alpha((65536 * r + 256 * g + b) as u32, alpha as u32) == 16777216 * r + 65536 * g + 256 * b
            + alpha,
        THUMB_ALPHA_IDLE == 0x59,
        THUMB_ALPHA_HOVER == 0x99,
        THUMB_ALPHA_DRAG == 0xcc,
{
}

} // verus!
