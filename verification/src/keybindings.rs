//! The actions that the user can bind to keys, and which keys they are bound to.

use vstd::prelude::*;
use crate::i18n;
use crate::i18n::Language;
use crate::terminal_input::{Keystroke, Modifiers};
use crate::text;

verus! {

/// An action that can be bound to a key.
#[derive(Clone, Copy, Debug, PartialEq, Eq, Structural)]
pub enum Action {
    OpenSettings,
    Quit,
    TerminalCopy,
    TerminalPaste,
    TerminalSelectAll,
    TerminalFind,
    NewTab,
    CloseTab,
    NextTab,
    PrevTab,
    SplitRight,
    SplitDown,
    ClearScreen,
    ScrollTop,
    ScrollBottom,
    PageUp,
    PageDown,
    FontIncrease,
    FontDecrease,
    FontReset,
    JumpPrevPrompt,
    JumpNextPrompt,
    CommandPalette,
}

/// A bindable action: the id under which its binding is stored, and its default keystroke.
#[derive(Clone, Copy, Debug)]
pub struct ActionSpec {
    pub id: &'static str,
    pub default_keystroke: &'static str,
    pub action: Action,
}

/// A bindable action as a mathematical value.
pub struct Spec {
    pub id: Seq<char>,
    pub keystroke: Seq<char>,
    pub action: Action,
}

pub open spec fn spec_of(s: ActionSpec) -> Spec {
    Spec { id: s.id@, keystroke: s.default_keystroke@, action: s.action }
}

pub open spec fn specs_of(v: Seq<ActionSpec>) -> Seq<Spec> {
    v.map_values(|s: ActionSpec| spec_of(s))
}

/// All bindable actions, in the order in which the settings list them.
pub open spec fn all_specs() -> Seq<Spec> {
    seq![
        Spec { id: "open_settings"@, keystroke: "cmd-,"@, action: Action::OpenSettings },
        Spec { id: "quit"@, keystroke: "cmd-q"@, action: Action::Quit },
        Spec { id: "terminal_copy"@, keystroke: "cmd-c"@, action: Action::TerminalCopy },
        Spec { id: "terminal_paste"@, keystroke: "cmd-v"@, action: Action::TerminalPaste },
        Spec { id: "terminal_select_all"@, keystroke: "cmd-a"@, action: Action::TerminalSelectAll },
        Spec { id: "terminal_find"@, keystroke: "cmd-f"@, action: Action::TerminalFind },
        Spec { id: "new_tab"@, keystroke: "cmd-t"@, action: Action::NewTab },
        Spec { id: "close_tab"@, keystroke: "cmd-w"@, action: Action::CloseTab },
        Spec { id: "next_tab"@, keystroke: "cmd-shift-]"@, action: Action::NextTab },
        Spec { id: "prev_tab"@, keystroke: "cmd-shift-["@, action: Action::PrevTab },
        Spec { id: "split_right"@, keystroke: "cmd-d"@, action: Action::SplitRight },
        Spec { id: "split_down"@, keystroke: "cmd-shift-d"@, action: Action::SplitDown },
        Spec { id: "clear_screen"@, keystroke: "cmd-k"@, action: Action::ClearScreen },
        Spec { id: "scroll_top"@, keystroke: "cmd-home"@, action: Action::ScrollTop },
        Spec { id: "scroll_bottom"@, keystroke: "cmd-end"@, action: Action::ScrollBottom },
        Spec { id: "page_up"@, keystroke: "cmd-pageup"@, action: Action::PageUp },
        Spec { id: "page_down"@, keystroke: "cmd-pagedown"@, action: Action::PageDown },
        Spec { id: "font_increase"@, keystroke: "cmd-="@, action: Action::FontIncrease },
        Spec { id: "font_decrease"@, keystroke: "cmd--"@, action: Action::FontDecrease },
        Spec { id: "font_reset"@, keystroke: "cmd-0"@, action: Action::FontReset },
        Spec { id: "jump_prev_prompt"@, keystroke: "cmd-up"@, action: Action::JumpPrevPrompt },
        Spec { id: "jump_next_prompt"@, keystroke: "cmd-down"@, action: Action::JumpNextPrompt },
        Spec { id: "command_palette"@, keystroke: "cmd-shift-p"@, action: Action::CommandPalette },
    ]
}

/// All bindable actions, in the order in which the settings list them.
pub fn action_specs() -> (r: Vec<ActionSpec>)
    ensures
        specs_of(r@) == all_specs(),
{
    let mut specs: Vec<ActionSpec> = Vec::new();
    specs.push(ActionSpec { id: "open_settings", default_keystroke: "cmd-,", action: Action::OpenSettings });
    specs.push(ActionSpec { id: "quit", default_keystroke: "cmd-q", action: Action::Quit });
    specs.push(ActionSpec { id: "terminal_copy", default_keystroke: "cmd-c", action: Action::TerminalCopy });
    specs.push(ActionSpec { id: "terminal_paste", default_keystroke: "cmd-v", action: Action::TerminalPaste });
    specs.push(ActionSpec { id: "terminal_select_all", default_keystroke: "cmd-a", action: Action::TerminalSelectAll });
    specs.push(ActionSpec { id: "terminal_find", default_keystroke: "cmd-f", action: Action::TerminalFind });
    specs.push(ActionSpec { id: "new_tab", default_keystroke: "cmd-t", action: Action::NewTab });
    specs.push(ActionSpec { id: "close_tab", default_keystroke: "cmd-w", action: Action::CloseTab });
    specs.push(ActionSpec { id: "next_tab", default_keystroke: "cmd-shift-]", action: Action::NextTab });
    specs.push(ActionSpec { id: "prev_tab", default_keystroke: "cmd-shift-[", action: Action::PrevTab });
    specs.push(ActionSpec { id: "split_right", default_keystroke: "cmd-d", action: Action::SplitRight });
    specs.push(ActionSpec { id: "split_down", default_keystroke: "cmd-shift-d", action: Action::SplitDown });
    specs.push(ActionSpec { id: "clear_screen", default_keystroke: "cmd-k", action: Action::ClearScreen });
    specs.push(ActionSpec { id: "scroll_top", default_keystroke: "cmd-home", action: Action::ScrollTop });
    specs.push(ActionSpec { id: "scroll_bottom", default_keystroke: "cmd-end", action: Action::ScrollBottom });
    specs.push(ActionSpec { id: "page_up", default_keystroke: "cmd-pageup", action: Action::PageUp });
    specs.push(ActionSpec { id: "page_down", default_keystroke: "cmd-pagedown", action: Action::PageDown });
    specs.push(ActionSpec { id: "font_increase", default_keystroke: "cmd-=", action: Action::FontIncrease });
    specs.push(ActionSpec { id: "font_decrease", default_keystroke: "cmd--", action: Action::FontDecrease });
    specs.push(ActionSpec { id: "font_reset", default_keystroke: "cmd-0", action: Action::FontReset });
    specs.push(ActionSpec { id: "jump_prev_prompt", default_keystroke: "cmd-up", action: Action::JumpPrevPrompt });
    specs.push(ActionSpec { id: "jump_next_prompt", default_keystroke: "cmd-down", action: Action::JumpNextPrompt });
    specs.push(ActionSpec { id: "command_palette", default_keystroke: "cmd-shift-p", action: Action::CommandPalette });
    assert(specs_of(specs@) =~= all_specs());
    specs
}

/// The name of an action.
pub open spec fn label_text(a: Action, l: Language) -> Seq<char> {
    match a {
        Action::OpenSettings => i18n::pick(l, "Open Settings"@, "打开设置"@),
        Action::Quit => i18n::pick(l, "Quit Eggie"@, "退出 Eggie"@),
        Action::TerminalCopy => i18n::pick(l, "Copy"@, "复制"@),
        Action::TerminalPaste => i18n::pick(l, "Paste"@, "粘贴"@),
        Action::TerminalSelectAll => i18n::pick(l, "Select All"@, "全选"@),
        Action::TerminalFind => i18n::pick(l, "Find"@, "查找"@),
        Action::NewTab => i18n::pick(l, "New Tab"@, "新建标签页"@),
        Action::CloseTab => i18n::pick(l, "Close Tab"@, "关闭标签页"@),
        Action::NextTab => i18n::pick(l, "Next Tab"@, "下一个标签页"@),
        Action::PrevTab => i18n::pick(l, "Previous Tab"@, "上一个标签页"@),
        Action::SplitRight => i18n::pick(l, "Split Right"@, "向右分屏"@),
        Action::SplitDown => i18n::pick(l, "Split Down"@, "向下分屏"@),
        Action::ClearScreen => i18n::pick(l, "Clear Screen"@, "清屏"@),
        Action::ScrollTop => i18n::pick(l, "Scroll to Top"@, "滚动到顶部"@),
        Action::ScrollBottom => i18n::pick(l, "Scroll to Bottom"@, "滚动到底部"@),
        Action::PageUp => i18n::pick(l, "Page Up"@, "向上翻页"@),
        Action::PageDown => i18n::pick(l, "Page Down"@, "向下翻页"@),
        Action::FontIncrease => i18n::pick(l, "Increase Font Size"@, "增大字号"@),
        Action::FontDecrease => i18n::pick(l, "Decrease Font Size"@, "减小字号"@),
        Action::FontReset => i18n::pick(l, "Reset Font Size"@, "重置字号"@),
        Action::JumpPrevPrompt => i18n::pick(l, "Jump to Previous Command"@, "跳到上一条命令"@),
        Action::JumpNextPrompt => i18n::pick(l, "Jump to Next Command"@, "跳到下一条命令"@),
        Action::CommandPalette => i18n::pick(l, "Command Palette"@, "命令面板"@),
    }
}

impl Action {
    /// The name of the action.
    pub fn label(self, language: Language) -> (r: &'static str)
        ensures
            r@ == label_text(self, language),
    {
        match self {
            Action::OpenSettings => language.action_open_settings(),
            Action::Quit => language.action_quit(),
            Action::TerminalCopy => language.action_terminal_copy(),
            Action::TerminalPaste => language.action_terminal_paste(),
            Action::TerminalSelectAll => language.action_terminal_select_all(),
            Action::TerminalFind => language.action_terminal_find(),
            Action::NewTab => language.action_new_tab(),
            Action::CloseTab => language.action_close_tab(),
            Action::NextTab => language.action_next_tab(),
            Action::PrevTab => language.action_prev_tab(),
            Action::SplitRight => language.action_split_right(),
            Action::SplitDown => language.action_split_down(),
            Action::ClearScreen => language.action_clear_screen(),
            Action::ScrollTop => language.action_scroll_top(),
            Action::ScrollBottom => language.action_scroll_bottom(),
            Action::PageUp => language.action_page_up(),
            Action::PageDown => language.action_page_down(),
            Action::FontIncrease => language.action_font_increase(),
            Action::FontDecrease => language.action_font_decrease(),
            Action::FontReset => language.action_font_reset(),
            Action::JumpPrevPrompt => language.action_jump_prev_prompt(),
            Action::JumpNextPrompt => language.action_jump_next_prompt(),
            Action::CommandPalette => match language {
                Language::English => "Command Palette",
                Language::SimplifiedChinese => "命令面板",
            },
        }
    }
}

/// A keystroke that the user gave an action in place of its default.
#[derive(Clone, Debug)]
pub struct KeyOverride {
    pub id: String,
    pub keystroke: String,
}

/// The keystroke that the user gave the action.
pub open spec fn override_of(v: Seq<KeyOverride>, id: Seq<char>) -> Option<Seq<char>>
    decreases v.len(),
{
    if v.len() == 0 {
        None
    } else if v[0].id@ == id {
        Some(v[0].keystroke@)
    } else {
        override_of(v.skip(1), id)
    }
}

/// The index of the action with this id, or the number of actions.
pub open spec fn spec_index(v: Seq<Spec>, id: Seq<char>) -> int
    decreases v.len(),
{
    if v.len() == 0 || v[0].id == id {
        0
    } else {
        1 + spec_index(v.skip(1), id)
    }
}

/// The action with this id.
pub open spec fn spec_with(id: Seq<char>) -> Option<Spec> {
    if spec_index(all_specs(), id) < all_specs().len() {
        Some(all_specs()[spec_index(all_specs(), id)])
    } else {
        None
    }
}

/// The keystroke in effect for an action: the user's, else the default.
pub open spec fn effective(v: Seq<KeyOverride>, s: Spec) -> Seq<char> {
    match override_of(v, s.id) {
        Some(k) => k,
        None => s.keystroke,
    }
}

/// The action with this id.
pub fn spec_by_id(id: &str) -> (r: Option<ActionSpec>)
    ensures
        spec_with(id@) == (match r {
            Some(s) => Some(spec_of(s)),
            None => None,
        }),
{
    let specs: Vec<ActionSpec> = action_specs();
    let ghost all = all_specs();
    let mut i: usize = 0;
    assert(all.skip(0) =~= all);
    while i < specs.len()
        invariant
            i <= specs@.len(),
            all == all_specs(),
            specs_of(specs@) == all,
            spec_index(all, id@) == i + spec_index(all.skip(i as int), id@),
        decreases specs@.len() - i,
    {
        assert(all.skip(i as int)[0] == spec_of(specs@[i as int]));
        if text::text_eq(specs[i].id, id) {
            return Some(specs[i]);
        }
        assert(all.skip(i as int).skip(1) =~= all.skip(i + 1));
        i = i + 1;
    }
    None
}

/// The default keystroke of the action with this id.
pub fn default_keystroke(id: &str) -> (r: Option<&'static str>)
    ensures
        (match r {
            Some(k) => Some(k@),
            None => None,
        }) == (match spec_with(id@) {
            Some(s) => Some(s.keystroke),
            None => None,
        }),
{
    match spec_by_id(id) {
        Some(s) => Some(s.default_keystroke),
        None => None,
    }
}

/// The keystroke that the user gave the action with this id.
pub fn find_override<'a>(v: &'a Vec<KeyOverride>, id: &str) -> (r: Option<&'a str>)
    ensures
        override_of(v@, id@) == (match r {
            Some(k) => Some(k@),
            None => None,
        }),
{
    let mut i: usize = 0;
    assert(v@.skip(0) =~= v@);
    while i < v.len()
        invariant
            i <= v@.len(),
            override_of(v@, id@) == override_of(v@.skip(i as int), id@),
        decreases v@.len() - i,
    {
        if text::text_eq(v[i].id.as_str(), id) {
            return Some(v[i].keystroke.as_str());
        }
        assert(v@.skip(i as int).skip(1) =~= v@.skip(i + 1));
        i = i + 1;
    }
    None
}

/// The keystroke in effect for the action with this id: the user's, else the default; none where
/// there is no such action.
pub fn effective_keystroke<'a>(overrides: &'a Vec<KeyOverride>, id: &str) -> (r: Option<&'a str>)
    ensures
        (match r {
            Some(k) => Some(k@),
            None => None,
        }) == (match spec_with(id@) {
            Some(s) => Some(effective(overrides@, s)),
            None => None,
        }),
{
    proof {
        spec_with_has_id(id@);
    }
    match spec_by_id(id) {
        Some(s) => match find_override(overrides, id) {
            Some(k) => Some(k),
            None => Some(s.default_keystroke),
        },
        None => None,
    }
}

proof fn spec_index_found(v: Seq<Spec>, id: Seq<char>)
    ensures
        0 <= spec_index(v, id) <= v.len(),
        spec_index(v, id) < v.len() ==> v[spec_index(v, id)].id == id,
    decreases v.len(),
{
    if v.len() > 0 && v[0].id != id {
        spec_index_found(v.skip(1), id);
    }
}

proof fn spec_with_has_id(id: Seq<char>)
    ensures
        spec_with(id) is Some ==> spec_with(id)->0.id == id,
{
    spec_index_found(all_specs(), id);
}

/// The action would be triggered by the keystroke.
pub open spec fn bound_to(v: Seq<KeyOverride>, s: Spec, keystroke: Seq<char>) -> bool {
    effective(v, s) == keystroke
}

/// The index of the first action other than `exclude` that the keystroke triggers, or the number
/// of actions.
pub open spec fn conflict_index(
    v: Seq<KeyOverride>,
    specs: Seq<Spec>,
    keystroke: Seq<char>,
    exclude: Seq<char>,
) -> int
    decreases specs.len(),
{
    if specs.len() == 0 || (specs[0].id != exclude && bound_to(v, specs[0], keystroke)) {
        0
    } else {
        1 + conflict_index(v, specs.skip(1), keystroke, exclude)
    }
}

/// The id of the first action other than `exclude` that the keystroke triggers.
pub open spec fn conflict(v: Seq<KeyOverride>, keystroke: Seq<char>, exclude: Seq<char>) -> Option<
    Seq<char>,
> {
    let i = conflict_index(v, all_specs(), keystroke, exclude);
    if i < all_specs().len() {
        Some(all_specs()[i].id)
    } else {
        None
    }
}

/// The id of the first action other than `exclude_id` that the keystroke triggers.
pub fn find_conflict(overrides: &Vec<KeyOverride>, candidate: &str, exclude_id: &str) -> (r: Option<
    &'static str,
>)
    ensures
        conflict(overrides@, candidate@, exclude_id@) == (match r {
            Some(id) => Some(id@),
            None => None,
        }),
{
    let specs: Vec<ActionSpec> = action_specs();
    let ghost all = all_specs();
    let mut i: usize = 0;
    assert(all.skip(0) =~= all);
    while i < specs.len()
        invariant
            i <= specs@.len(),
            all == all_specs(),
            specs_of(specs@) == all,
            conflict_index(overrides@, all, candidate@, exclude_id@) == i + conflict_index(
                overrides@,
                all.skip(i as int),
                candidate@,
                exclude_id@,
            ),
        decreases specs@.len() - i,
    {
        assert(all.skip(i as int)[0] == spec_of(specs@[i as int]));
        if !text::text_eq(specs[i].id, exclude_id) {
            let current: &str = match find_override(overrides, specs[i].id) {
                Some(k) => k,
                None => specs[i].default_keystroke,
            };
            if text::text_eq(current, candidate) {
                return Some(specs[i].id);
            }
        }
        assert(all.skip(i as int).skip(1) =~= all.skip(i + 1));
        i = i + 1;
    }
    None
}

/// No two actions have the same id.
pub proof fn action_ids_differ(i: int, j: int)
    requires
        0 <= i < j < all_specs().len(),
    ensures
        all_specs()[i].id != all_specs()[j].id,
{
    reveal_strlit("open_settings");
    reveal_strlit("quit");
    reveal_strlit("terminal_copy");
    reveal_strlit("terminal_paste");
    reveal_strlit("terminal_select_all");
    reveal_strlit("terminal_find");
    reveal_strlit("new_tab");
    reveal_strlit("close_tab");
    reveal_strlit("next_tab");
    reveal_strlit("prev_tab");
    reveal_strlit("split_right");
    reveal_strlit("split_down");
    reveal_strlit("clear_screen");
    reveal_strlit("scroll_top");
    reveal_strlit("scroll_bottom");
    reveal_strlit("page_up");
    reveal_strlit("page_down");
    reveal_strlit("font_increase");
    reveal_strlit("font_decrease");
    reveal_strlit("font_reset");
    reveal_strlit("jump_prev_prompt");
    reveal_strlit("jump_next_prompt");
    reveal_strlit("command_palette");
    assert("open_settings"@.len() == 13 && "open_settings"@[0] == 'o' && "open_settings"@[5] == 's' && "open_settings"@[9] == 'i');
    assert("quit"@.len() == 4 && "quit"@[0] == 'q');
    assert("terminal_copy"@.len() == 13 && "terminal_copy"@[0] == 't' && "terminal_copy"@[5] == 'n' && "terminal_copy"@[9] == 'c');
    assert("terminal_paste"@.len() == 14 && "terminal_paste"@[0] == 't' && "terminal_paste"@[5] == 'n' && "terminal_paste"@[9] == 'p');
    assert("terminal_select_all"@.len() == 19 && "terminal_select_all"@[0] == 't' && "terminal_select_all"@[5] == 'n' && "terminal_select_all"@[9] == 's');
    assert("terminal_find"@.len() == 13 && "terminal_find"@[0] == 't' && "terminal_find"@[5] == 'n' && "terminal_find"@[9] == 'f');
    assert("new_tab"@.len() == 7 && "new_tab"@[0] == 'n' && "new_tab"@[5] == 'a');
    assert("close_tab"@.len() == 9 && "close_tab"@[0] == 'c' && "close_tab"@[5] == '_');
    assert("next_tab"@.len() == 8 && "next_tab"@[0] == 'n' && "next_tab"@[5] == 't');
    assert("prev_tab"@.len() == 8 && "prev_tab"@[0] == 'p' && "prev_tab"@[5] == 't');
    assert("split_right"@.len() == 11 && "split_right"@[0] == 's' && "split_right"@[5] == '_' && "split_right"@[9] == 'h');
    assert("split_down"@.len() == 10 && "split_down"@[0] == 's' && "split_down"@[5] == '_' && "split_down"@[9] == 'n');
    assert("clear_screen"@.len() == 12 && "clear_screen"@[0] == 'c' && "clear_screen"@[5] == '_' && "clear_screen"@[9] == 'e');
    assert("scroll_top"@.len() == 10 && "scroll_top"@[0] == 's' && "scroll_top"@[5] == 'l' && "scroll_top"@[9] == 'p');
    assert("scroll_bottom"@.len() == 13 && "scroll_bottom"@[0] == 's' && "scroll_bottom"@[5] == 'l' && "scroll_bottom"@[9] == 't');
    assert("page_up"@.len() == 7 && "page_up"@[0] == 'p' && "page_up"@[5] == 'u');
    assert("page_down"@.len() == 9 && "page_down"@[0] == 'p' && "page_down"@[5] == 'd');
    assert("font_increase"@.len() == 13 && "font_increase"@[0] == 'f' && "font_increase"@[5] == 'i' && "font_increase"@[9] == 'e');
    assert("font_decrease"@.len() == 13 && "font_decrease"@[0] == 'f' && "font_decrease"@[5] == 'd' && "font_decrease"@[9] == 'e');
    assert("font_reset"@.len() == 10 && "font_reset"@[0] == 'f' && "font_reset"@[5] == 'r' && "font_reset"@[9] == 't');
    assert("jump_prev_prompt"@.len() == 16 && "jump_prev_prompt"@[0] == 'j' && "jump_prev_prompt"@[5] == 'p' && "jump_prev_prompt"@[9] == '_');
    assert("jump_next_prompt"@.len() == 16 && "jump_next_prompt"@[0] == 'j' && "jump_next_prompt"@[5] == 'n' && "jump_next_prompt"@[9] == '_');
    assert("command_palette"@.len() == 15 && "command_palette"@[0] == 'c' && "command_palette"@[5] == 'n' && "command_palette"@[9] == 'a');
}

/// No two actions have the same default keystroke.
pub proof fn default_keystrokes_differ(i: int, j: int)
    requires
        0 <= i < j < all_specs().len(),
    ensures
        all_specs()[i].keystroke != all_specs()[j].keystroke,
{
    reveal_strlit("cmd-,");
    reveal_strlit("cmd-q");
    reveal_strlit("cmd-c");
    reveal_strlit("cmd-v");
    reveal_strlit("cmd-a");
    reveal_strlit("cmd-f");
    reveal_strlit("cmd-t");
    reveal_strlit("cmd-w");
    reveal_strlit("cmd-shift-]");
    reveal_strlit("cmd-shift-[");
    reveal_strlit("cmd-d");
    reveal_strlit("cmd-shift-d");
    reveal_strlit("cmd-k");
    reveal_strlit("cmd-home");
    reveal_strlit("cmd-end");
    reveal_strlit("cmd-pageup");
    reveal_strlit("cmd-pagedown");
    reveal_strlit("cmd-=");
    reveal_strlit("cmd--");
    reveal_strlit("cmd-0");
    reveal_strlit("cmd-up");
    reveal_strlit("cmd-down");
    reveal_strlit("cmd-shift-p");
    assert("cmd-,"@.len() == 5 && "cmd-,"@[4] == ',');
    assert("cmd-q"@.len() == 5 && "cmd-q"@[4] == 'q');
    assert("cmd-c"@.len() == 5 && "cmd-c"@[4] == 'c');
    assert("cmd-v"@.len() == 5 && "cmd-v"@[4] == 'v');
    assert("cmd-a"@.len() == 5 && "cmd-a"@[4] == 'a');
    assert("cmd-f"@.len() == 5 && "cmd-f"@[4] == 'f');
    assert("cmd-t"@.len() == 5 && "cmd-t"@[4] == 't');
    assert("cmd-w"@.len() == 5 && "cmd-w"@[4] == 'w');
    assert("cmd-shift-]"@.len() == 11 && "cmd-shift-]"@[4] == 's' && "cmd-shift-]"@[10] == ']');
    assert("cmd-shift-["@.len() == 11 && "cmd-shift-["@[4] == 's' && "cmd-shift-["@[10] == '[');
    assert("cmd-d"@.len() == 5 && "cmd-d"@[4] == 'd');
    assert("cmd-shift-d"@.len() == 11 && "cmd-shift-d"@[4] == 's' && "cmd-shift-d"@[10] == 'd');
    assert("cmd-k"@.len() == 5 && "cmd-k"@[4] == 'k');
    assert("cmd-home"@.len() == 8 && "cmd-home"@[4] == 'h');
    assert("cmd-end"@.len() == 7 && "cmd-end"@[4] == 'e');
    assert("cmd-pageup"@.len() == 10 && "cmd-pageup"@[4] == 'p');
    assert("cmd-pagedown"@.len() == 12 && "cmd-pagedown"@[4] == 'p' && "cmd-pagedown"@[10] == 'w');
    assert("cmd-="@.len() == 5 && "cmd-="@[4] == '=');
    assert("cmd--"@.len() == 5 && "cmd--"@[4] == '-');
    assert("cmd-0"@.len() == 5 && "cmd-0"@[4] == '0');
    assert("cmd-up"@.len() == 6 && "cmd-up"@[4] == 'u');
    assert("cmd-down"@.len() == 8 && "cmd-down"@[4] == 'd');
    assert("cmd-shift-p"@.len() == 11 && "cmd-shift-p"@[4] == 's' && "cmd-shift-p"@[10] == 'p');
}

proof fn conflict_index_is_first(
    v: Seq<KeyOverride>,
    specs: Seq<Spec>,
    keystroke: Seq<char>,
    exclude: Seq<char>,
)
    ensures
        ({
            let i = conflict_index(v, specs, keystroke, exclude);
            &&& 0 <= i <= specs.len()
            &&& i < specs.len() ==> specs[i].id != exclude && bound_to(v, specs[i], keystroke)
            &&& forall|j: int|
                0 <= j < i ==> (#[trigger] specs[j]).id == exclude || !bound_to(
                    v,
                    specs[j],
                    keystroke,
                )
        }),
    decreases specs.len(),
{
    if !(specs.len() == 0 || (specs[0].id != exclude && bound_to(v, specs[0], keystroke))) {
        let rest = specs.skip(1);
        conflict_index_is_first(v, rest, keystroke, exclude);
        let i = conflict_index(v, specs, keystroke, exclude);
        assert forall|j: int| 0 <= j < i implies (#[trigger] specs[j]).id == exclude || !bound_to(
            v,
            specs[j],
            keystroke,
        ) by {
            if j > 0 {
                assert(rest[j - 1] == specs[j]);
            }
        }
    }
}

/// A conflict is reported exactly where some other action is triggered by the keystroke.
pub proof fn conflicts_are_real(
    v: Seq<KeyOverride>,
    keystroke: Seq<char>,
    exclude: Seq<char>,
)
    ensures
        conflict(v, keystroke, exclude) is Some <==> exists|j: int|
            0 <= j < all_specs().len() && (#[trigger] all_specs()[j]).id != exclude && bound_to(
                v,
                all_specs()[j],
                keystroke,
            ),
        conflict(v, keystroke, exclude) != Some(exclude),
{
    conflict_index_is_first(v, all_specs(), keystroke, exclude);
    let i = conflict_index(v, all_specs(), keystroke, exclude);
    if i < all_specs().len() {
        assert(all_specs()[i].id != exclude);
    }
}

/// Without bindings of the user's own, no action's keystroke triggers another action.
pub proof fn the_default_keymap_has_no_conflicts(i: int)
    requires
        0 <= i < all_specs().len(),
    ensures
        conflict(seq![], all_specs()[i].keystroke, all_specs()[i].id) is None,
{
    let v: Seq<KeyOverride> = seq![];
    let s = all_specs()[i];
    conflicts_are_real(v, s.keystroke, s.id);
    if conflict(v, s.keystroke, s.id) is Some {
        let j = choose|j: int|
            0 <= j < all_specs().len() && (#[trigger] all_specs()[j]).id != s.id && bound_to(
                v,
                all_specs()[j],
                s.keystroke,
            );
        if j < i {
            default_keystrokes_differ(j, i);
        }
        if i < j {
            default_keystrokes_differ(i, j);
        }
    }
}

/// Whether the key is only a modifier, as it is while a keystroke is being recorded.
pub fn is_bare_modifier(key: &str) -> (r: bool)
    ensures
        r == (key@ == "shift"@ || key@ == "control"@ || key@ == "alt"@ || key@ == "platform"@ || key@
            == "function"@ || key@ == "cmd"@ || key@ == ""@),
{
    text::text_eq(key, "shift") || text::text_eq(key, "control") || text::text_eq(key, "alt")
        || text::text_eq(key, "platform") || text::text_eq(key, "function") || text::text_eq(
        key,
        "cmd",
    ) || text::text_eq(key, "")
}

/// `word` where `on`, else nothing.
pub open spec fn part(on: bool, word: Seq<char>) -> Seq<char> {
    if on {
        word
    } else {
        seq![]
    }
}

/// What follows the platform modifier in the stored form.
pub open spec fn after_platform(m: Modifiers, key: Seq<char>) -> Seq<char> {
    part(m.shift, "shift-"@) + key
}

/// What follows the Alt modifier in the stored form.
pub open spec fn after_alt(m: Modifiers, key: Seq<char>) -> Seq<char> {
    part(m.platform, "cmd-"@) + after_platform(m, key)
}

/// What follows the Control modifier in the stored form.
pub open spec fn after_control(m: Modifiers, key: Seq<char>) -> Seq<char> {
    part(m.alt, "alt-"@) + after_alt(m, key)
}

/// What follows the Fn modifier in the stored form.
pub open spec fn after_function(m: Modifiers, key: Seq<char>) -> Seq<char> {
    part(m.control, "ctrl-"@) + after_control(m, key)
}

/// The form in which a keystroke is stored: the modifiers in a fixed order, then the key.
pub open spec fn canonical(m: Modifiers, key: Seq<char>) -> Seq<char> {
    part(m.function, "fn-"@) + after_function(m, key)
}

fn with_part(on: bool, word: &str, rest: &str) -> (r: String)
    ensures
        r@ == part(on, word@) + rest@,
{
    let mut r: String = String::new();
    if on {
        r.append(word);
    }
    r.append(rest);
    assert(r@ =~= part(on, word@) + rest@);
    r
}

/// The form in which a keystroke is stored.
pub fn canonical_keystroke(keystroke: &Keystroke) -> (r: String)
    ensures
        r@ == canonical(keystroke.modifiers, keystroke.key@),
{
    let m: Modifiers = keystroke.modifiers;
    let shifted: String = with_part(m.shift, "shift-", keystroke.key.as_str());
    let platform: String = with_part(m.platform, "cmd-", shifted.as_str());
    let alt: String = with_part(m.alt, "alt-", platform.as_str());
    let control: String = with_part(m.control, "ctrl-", alt.as_str());
    with_part(m.function, "fn-", control.as_str())
}

/// The key does not itself begin like a modifier.
pub open spec fn is_plain_key(key: Seq<char>) -> bool {
    !text::has_prefix(key, "fn-"@) && !text::has_prefix(key, "ctrl-"@) && !text::has_prefix(
        key,
        "alt-"@,
    ) && !text::has_prefix(key, "cmd-"@) && !text::has_prefix(key, "shift-"@)
}

proof fn parts_agree(a: bool, x: Seq<char>, b: bool, y: Seq<char>, word: Seq<char>)
    requires
        part(a, word) + x == part(b, word) + y,
        !text::has_prefix(x, word),
        !text::has_prefix(y, word),
    ensures
        a == b,
        x == y,
{
    let left = part(a, word) + x;
    let right = part(b, word) + y;
    if a {
        assert(left.take(word.len() as int) =~= word);
    }
    if b {
        assert(right.take(word.len() as int) =~= word);
    }
    assert(part(false, word) + x =~= x);
    assert(part(false, word) + y =~= y);
    assert(a == b);
    if a {
        assert(left.skip(word.len() as int) =~= x);
        assert(right.skip(word.len() as int) =~= y);
    }
}

proof fn no_prefix_behind(on: bool, first: Seq<char>, rest: Seq<char>, word: Seq<char>)
    requires
        !text::has_prefix(rest, word),
        first.len() > 0,
        word.len() > 0,
        on ==> exists|i: int| 0 <= i < first.len() && 0 <= i < word.len() && #[trigger] first[i] != word[i],
    ensures
        !text::has_prefix(part(on, first) + rest, word),
{
    let s = part(on, first) + rest;
    if on {
        let i = choose|i: int| 0 <= i < first.len() && 0 <= i < word.len() && #[trigger] first[i] != word[i];
        assert(s[i] == first[i]);
        if text::has_prefix(s, word) {
            assert(s.take(word.len() as int)[i] == word[i]);
        }
    } else {
        assert(s =~= rest);
    }
}

proof fn tails_have_no_modifier_prefix(m: Modifiers, key: Seq<char>)
    requires
        is_plain_key(key),
    ensures
        !text::has_prefix(after_platform(m, key), "cmd-"@),
        !text::has_prefix(after_alt(m, key), "alt-"@),
        !text::has_prefix(after_control(m, key), "ctrl-"@),
        !text::has_prefix(after_function(m, key), "fn-"@),
{
    reveal_strlit("fn-");
    reveal_strlit("ctrl-");
    reveal_strlit("alt-");
    reveal_strlit("cmd-");
    reveal_strlit("shift-");
    let f = "fn-"@;
    let c = "ctrl-"@;
    let t = "alt-"@;
    let p = "cmd-"@;
    let s = "shift-"@;
    assert(f[0] == 'f' && c[0] == 'c' && c[1] == 't' && t[0] == 'a' && p[0] == 'c' && p[1] == 'm'
        && s[0] == 's');
    assert(s[0] != p[0] && s[0] != t[0] && s[0] != c[0] && s[0] != f[0]);
    assert(p[0] != t[0] && p[1] != c[1] && p[0] != f[0]);
    assert(t[0] != c[0] && t[0] != f[0]);
    assert(c[0] != f[0]);
    no_prefix_behind(m.shift, s, key, p);
    no_prefix_behind(m.shift, s, key, t);
    no_prefix_behind(m.shift, s, key, c);
    no_prefix_behind(m.shift, s, key, f);
    no_prefix_behind(m.platform, p, after_platform(m, key), t);
    no_prefix_behind(m.platform, p, after_platform(m, key), c);
    no_prefix_behind(m.platform, p, after_platform(m, key), f);
    no_prefix_behind(m.alt, t, after_alt(m, key), c);
    no_prefix_behind(m.alt, t, after_alt(m, key), f);
    no_prefix_behind(m.control, c, after_control(m, key), f);
}

/// Two keystrokes are stored in the same form only where they are the same.
pub proof fn stored_forms_are_unambiguous(
    a: Modifiers,
    key_a: Seq<char>,
    b: Modifiers,
    key_b: Seq<char>,
)
    requires
        is_plain_key(key_a),
        is_plain_key(key_b),
        canonical(a, key_a) == canonical(b, key_b),
    ensures
        a == b,
        key_a == key_b,
{
    tails_have_no_modifier_prefix(a, key_a);
    tails_have_no_modifier_prefix(b, key_b);
    parts_agree(a.function, after_function(a, key_a), b.function, after_function(b, key_b), "fn-"@);
    parts_agree(a.control, after_control(a, key_a), b.control, after_control(b, key_b), "ctrl-"@);
    parts_agree(a.alt, after_alt(a, key_a), b.alt, after_alt(b, key_b), "alt-"@);
    parts_agree(
        a.platform,
        after_platform(a, key_a),
        b.platform,
        after_platform(b, key_b),
        "cmd-"@,
    );
    parts_agree(a.shift, key_a, b.shift, key_b, "shift-"@);
}

/// The upper-case form of a text.
pub uninterp spec fn upper_text(s: Seq<char>) -> Seq<char>;

/// The ASCII upper-case form of a character; others are left as they are.
pub open spec fn upper_char(c: char) -> char {
    if 'a' <= c <= 'z' {
        (c as int - 32) as char
    } else {
        c
    }
}

/// `str::to_uppercase` gives the Unicode upper-case form, which depends on the text alone. Of an
/// ASCII text it is the text with its letters `a` to `z` in upper case; for other texts the form
/// is not stated.
#[verifier::external_body]
fn to_upper(s: &str) -> (r: String)
    ensures
        r@ == upper_text(s@),
        s.is_ascii() ==> r@ == s@.map_values(|c: char| upper_char(c)),
{
    s.to_uppercase()
}

/// How a key is shown: a symbol for the named keys, the upper case of a single character, else
/// its name. `upper` is the upper-case form of the key.
pub open spec fn key_symbol(key: Seq<char>, upper: Seq<char>) -> Seq<char> {
    if key == "up"@ {
        "↑"@
    } else if key == "down"@ {
        "↓"@
    } else if key == "left"@ {
        "←"@
    } else if key == "right"@ {
        "→"@
    } else if key == "tab"@ {
        "⇥"@
    } else if key == "enter"@ {
        "⏎"@
    } else if key == "escape"@ {
        "⎋"@
    } else if key == "backspace"@ {
        "⌫"@
    } else if key == "delete"@ {
        "⌦"@
    } else if key == "space"@ {
        "␣"@
    } else if key == "home"@ {
        "↖"@
    } else if key == "end"@ {
        "↘"@
    } else if key == "pageup"@ {
        "⇞"@
    } else if key == "pagedown"@ {
        "⇟"@
    } else if key.len() == 1 {
        upper
    } else {
        key
    }
}

/// How a key is shown, where `upper` is its upper-case form.
pub fn display_key_with(key: &str, upper: &str) -> (r: String)
    ensures
        r@ == key_symbol(key@, upper@),
{
    if text::text_eq(key, "up") {
        "↑".to_owned()
    } else if text::text_eq(key, "down") {
        "↓".to_owned()
    } else if text::text_eq(key, "left") {
        "←".to_owned()
    } else if text::text_eq(key, "right") {
        "→".to_owned()
    } else if text::text_eq(key, "tab") {
        "⇥".to_owned()
    } else if text::text_eq(key, "enter") {
        "⏎".to_owned()
    } else if text::text_eq(key, "escape") {
        "⎋".to_owned()
    } else if text::text_eq(key, "backspace") {
        "⌫".to_owned()
    } else if text::text_eq(key, "delete") {
        "⌦".to_owned()
    } else if text::text_eq(key, "space") {
        "␣".to_owned()
    } else if text::text_eq(key, "home") {
        "↖".to_owned()
    } else if text::text_eq(key, "end") {
        "↘".to_owned()
    } else if text::text_eq(key, "pageup") {
        "⇞".to_owned()
    } else if text::text_eq(key, "pagedown") {
        "⇟".to_owned()
    } else if key.unicode_len() == 1 {
        upper.to_owned()
    } else {
        key.to_owned()
    }
}

/// How a key is shown.
pub fn display_key(key: &str) -> (r: String)
    ensures
        r@ == key_symbol(key@, upper_text(key@)),
        vstd::string::is_ascii(key) ==> r@ == key_symbol(
            key@,
            key@.map_values(|c: char| upper_char(c)),
        ),
{
    let upper: String = to_upper(key);
    display_key_with(key, upper.as_str())
}

/// How a keystroke is shown: the symbols of the modifiers, then the key. A stored keystroke that
/// could not be read is shown as it is stored.
pub open spec fn shown_keystroke(stored: Seq<char>, parsed: Option<Keystroke>) -> Seq<char> {
    match parsed {
        Some(k) => part(k.modifiers.control, "⌃"@) + part(k.modifiers.alt, "⌥"@) + part(
            k.modifiers.shift,
            "⇧"@,
        ) + part(k.modifiers.platform, "⌘"@) + key_symbol(k.key@, upper_text(k.key@)),
        None => stored,
    }
}

/// How a stored keystroke is shown, where `parsed` is what was read from it.
pub fn display_keystroke(stored: &str, parsed: &Option<Keystroke>) -> (r: String)
    ensures
        r@ == shown_keystroke(stored@, *parsed),
{
    match parsed {
        Some(k) => {
            let m: Modifiers = k.modifiers;
            let mut r: String = String::new();
            if m.control {
                r.append("⌃");
            }
            if m.alt {
                r.append("⌥");
            }
            if m.shift {
                r.append("⇧");
            }
            if m.platform {
                r.append("⌘");
            }
            let key: String = display_key(k.key.as_str());
            r.append(key.as_str());
            assert(r@ =~= shown_keystroke(stored@, *parsed));
            r
        },
        None => stored.to_owned(),
    }
}

/// The keystroke to bind an action to: the one in effect where it can be bound, else the default
/// where that can be, else none.
pub open spec fn binding_of(v: Seq<KeyOverride>, s: Spec, binds: bool, default_binds: bool) -> Option<
    Seq<char>,
> {
    if binds {
        Some(effective(v, s))
    } else if default_binds {
        Some(s.keystroke)
    } else {
        None
    }
}

/// The key bindings of all actions, in order. `binds[i]` says whether the keystroke in effect for
/// the action at index `i` can be bound, and `default_binds[i]` whether its default can.
pub open spec fn bindings(
    v: Seq<KeyOverride>,
    specs: Seq<Spec>,
    binds: Seq<bool>,
    default_binds: Seq<bool>,
) -> Seq<(Action, Seq<char>)>
    decreases specs.len(),
{
    if specs.len() == 0 {
        seq![]
    } else {
        let n = specs.len() - 1;
        let head = bindings(v, specs.drop_last(), binds, default_binds);
        match binding_of(v, specs.last(), binds[n], default_binds[n]) {
            Some(k) => head.push((specs.last().action, k)),
            None => head,
        }
    }
}

/// A keystroke and the action that it triggers.
#[derive(Clone, Debug)]
pub struct Binding {
    pub action: Action,
    pub keystroke: String,
}

pub open spec fn binding_list(v: Seq<Binding>) -> Seq<(Action, Seq<char>)> {
    v.map_values(|b: Binding| (b.action, b.keystroke@))
}

/// The key bindings of all actions, in order.
pub fn rebuild_keymap(
    overrides: &Vec<KeyOverride>,
    binds: &Vec<bool>,
    default_binds: &Vec<bool>,
) -> (r: Vec<Binding>)
    requires
        binds@.len() == all_specs().len(),
        default_binds@.len() == all_specs().len(),
    ensures
        binding_list(r@) == bindings(overrides@, all_specs(), binds@, default_binds@),
{
    let specs: Vec<ActionSpec> = action_specs();
    let ghost all = all_specs();
    let mut r: Vec<Binding> = Vec::new();
    let mut i: usize = 0;
    assert(all.take(0) =~= seq![]);
    assert(binding_list(r@) =~= seq![]);
    while i < specs.len()
        invariant
            i <= specs@.len(),
            all == all_specs(),
            specs_of(specs@) == all,
            binds@.len() == all.len(),
            default_binds@.len() == all.len(),
            binding_list(r@) == bindings(overrides@, all.take(i as int), binds@, default_binds@),
        decreases specs@.len() - i,
    {
        let ghost now = all.take(i + 1);
        assert(now.drop_last() =~= all.take(i as int));
        assert(now.last() == spec_of(specs@[i as int]));
        let ghost had = r@;
        if binds[i] || default_binds[i] {
            let keystroke: &str = if binds[i] {
                match find_override(overrides, specs[i].id) {
                    Some(k) => k,
                    None => specs[i].default_keystroke,
                }
            } else {
                specs[i].default_keystroke
            };
            let b: Binding = Binding { action: specs[i].action, keystroke: keystroke.to_owned() };
            r.push(b);
            assert(binding_list(r@) =~= binding_list(had).push((b.action, b.keystroke@)));
        }
        i = i + 1;
    }
    assert(all.take(i as int) =~= all);
    r
}

/// Each action is listed once, under its own id, with its own default keystroke.
pub proof fn actions_are_known_by_their_ids(i: int)
    requires
        0 <= i < all_specs().len(),
    ensures
        all_specs().len() == 23,
        all_specs()[i].action is OpenSettings ==> all_specs()[i].id == "open_settings"@ && all_specs()[i].keystroke
            == "cmd-,"@,
        all_specs()[i].action is Quit ==> all_specs()[i].id == "quit"@ && all_specs()[i].keystroke
            == "cmd-q"@,
        all_specs()[i].action is TerminalCopy ==> all_specs()[i].id == "terminal_copy"@ && all_specs()[i].keystroke
            == "cmd-c"@,
        all_specs()[i].action is TerminalPaste ==> all_specs()[i].id == "terminal_paste"@ && all_specs()[i].keystroke
            == "cmd-v"@,
        all_specs()[i].action is TerminalSelectAll ==> all_specs()[i].id == "terminal_select_all"@ && all_specs()[i].keystroke
            == "cmd-a"@,
        all_specs()[i].action is TerminalFind ==> all_specs()[i].id == "terminal_find"@ && all_specs()[i].keystroke
            == "cmd-f"@,
        all_specs()[i].action is NewTab ==> all_specs()[i].id == "new_tab"@ && all_specs()[i].keystroke
            == "cmd-t"@,
        all_specs()[i].action is CloseTab ==> all_specs()[i].id == "close_tab"@ && all_specs()[i].keystroke
            == "cmd-w"@,
        all_specs()[i].action is NextTab ==> all_specs()[i].id == "next_tab"@ && all_specs()[i].keystroke
            == "cmd-shift-]"@,
        all_specs()[i].action is PrevTab ==> all_specs()[i].id == "prev_tab"@ && all_specs()[i].keystroke
            == "cmd-shift-["@,
        all_specs()[i].action is SplitRight ==> all_specs()[i].id == "split_right"@ && all_specs()[i].keystroke
            == "cmd-d"@,
        all_specs()[i].action is SplitDown ==> all_specs()[i].id == "split_down"@ && all_specs()[i].keystroke
            == "cmd-shift-d"@,
        all_specs()[i].action is ClearScreen ==> all_specs()[i].id == "clear_screen"@ && all_specs()[i].keystroke
            == "cmd-k"@,
        all_specs()[i].action is ScrollTop ==> all_specs()[i].id == "scroll_top"@ && all_specs()[i].keystroke
            == "cmd-home"@,
        all_specs()[i].action is ScrollBottom ==> all_specs()[i].id == "scroll_bottom"@ && all_specs()[i].keystroke
            == "cmd-end"@,
        all_specs()[i].action is PageUp ==> all_specs()[i].id == "page_up"@ && all_specs()[i].keystroke
            == "cmd-pageup"@,
        all_specs()[i].action is PageDown ==> all_specs()[i].id == "page_down"@ && all_specs()[i].keystroke
            == "cmd-pagedown"@,
        all_specs()[i].action is FontIncrease ==> all_specs()[i].id == "font_increase"@ && all_specs()[i].keystroke
            == "cmd-="@,
        all_specs()[i].action is FontDecrease ==> all_specs()[i].id == "font_decrease"@ && all_specs()[i].keystroke
            == "cmd--"@,
        all_specs()[i].action is FontReset ==> all_specs()[i].id == "font_reset"@ && all_specs()[i].keystroke
            == "cmd-0"@,
        all_specs()[i].action is JumpPrevPrompt ==> all_specs()[i].id == "jump_prev_prompt"@ && all_specs()[i].keystroke
            == "cmd-up"@,
        all_specs()[i].action is JumpNextPrompt ==> all_specs()[i].id == "jump_next_prompt"@ && all_specs()[i].keystroke
            == "cmd-down"@,
        all_specs()[i].action is CommandPalette ==> all_specs()[i].id == "command_palette"@ && all_specs()[i].keystroke
            == "cmd-shift-p"@,
{
    let s = all_specs()[i];
    assert(i == 0 || i == 1 || i == 2 || i == 3 || i == 4 || i == 5 || i == 6 || i == 7 || i == 8 || i == 9 || i == 10 || i == 11 || i == 12 || i == 13 || i == 14 || i == 15 || i == 16 || i == 17 || i == 18 || i == 19 || i == 20 || i == 21 || i == 22);
}

/// Every action is listed.
pub proof fn every_action_can_be_bound(a: Action) -> (i: int)
    ensures
        0 <= i < all_specs().len(),
        all_specs()[i].action == a,
{
    match a {
        Action::OpenSettings => 0,
        Action::Quit => 1,
        Action::TerminalCopy => 2,
        Action::TerminalPaste => 3,
        Action::TerminalSelectAll => 4,
        Action::TerminalFind => 5,
        Action::NewTab => 6,
        Action::CloseTab => 7,
        Action::NextTab => 8,
        Action::PrevTab => 9,
        Action::SplitRight => 10,
        Action::SplitDown => 11,
        Action::ClearScreen => 12,
        Action::ScrollTop => 13,
        Action::ScrollBottom => 14,
        Action::PageUp => 15,
        Action::PageDown => 16,
        Action::FontIncrease => 17,
        Action::FontDecrease => 18,
        Action::FontReset => 19,
        Action::JumpPrevPrompt => 20,
        Action::JumpNextPrompt => 21,
        Action::CommandPalette => 22,
    }
}

/// An action is found by its own id, and under no other text.
pub proof fn an_action_is_found_by_its_id(i: int, id: Seq<char>)
    requires
        0 <= i < all_specs().len(),
    ensures
        spec_with(all_specs()[i].id) == Some(all_specs()[i]),
        spec_with(id) matches Some(s) ==> s.id == id && all_specs().contains(s),
{
    spec_index_found(all_specs(), all_specs()[i].id);
    let k = spec_index(all_specs(), all_specs()[i].id);
    spec_index_is_early(all_specs(), i);
    if k < i {
        action_ids_differ(k, i);
    }
    spec_index_found(all_specs(), id);
}

proof fn spec_index_is_early(v: Seq<Spec>, i: int)
    requires
        0 <= i < v.len(),
    ensures
        0 <= spec_index(v, v[i].id) <= i,
    decreases v.len(),
{
    if v[0].id != v[i].id {
        assert(v.skip(1)[i - 1] == v[i]);
        spec_index_is_early(v.skip(1), i - 1);
    }
}

/// The words for an action are its own, in the language of the interface.
pub proof fn actions_are_called_by_their_names(a: Action)
    ensures
        a is OpenSettings ==> label_text(a, Language::English) == "Open Settings"@ && label_text(
            a,
            Language::SimplifiedChinese,
        ) == "打开设置"@,
        a is Quit ==> label_text(a, Language::English) == "Quit Eggie"@ && label_text(
            a,
            Language::SimplifiedChinese,
        ) == "退出 Eggie"@,
        a is TerminalCopy ==> label_text(a, Language::English) == "Copy"@ && label_text(
            a,
            Language::SimplifiedChinese,
        ) == "复制"@,
        a is TerminalPaste ==> label_text(a, Language::English) == "Paste"@ && label_text(
            a,
            Language::SimplifiedChinese,
        ) == "粘贴"@,
        a is TerminalSelectAll ==> label_text(a, Language::English) == "Select All"@ && label_text(
            a,
            Language::SimplifiedChinese,
        ) == "全选"@,
        a is TerminalFind ==> label_text(a, Language::English) == "Find"@ && label_text(
            a,
            Language::SimplifiedChinese,
        ) == "查找"@,
        a is NewTab ==> label_text(a, Language::English) == "New Tab"@ && label_text(
            a,
            Language::SimplifiedChinese,
        ) == "新建标签页"@,
        a is CloseTab ==> label_text(a, Language::English) == "Close Tab"@ && label_text(
            a,
            Language::SimplifiedChinese,
        ) == "关闭标签页"@,
        a is NextTab ==> label_text(a, Language::English) == "Next Tab"@ && label_text(
            a,
            Language::SimplifiedChinese,
        ) == "下一个标签页"@,
        a is PrevTab ==> label_text(a, Language::English) == "Previous Tab"@ && label_text(
            a,
            Language::SimplifiedChinese,
        ) == "上一个标签页"@,
        a is SplitRight ==> label_text(a, Language::English) == "Split Right"@ && label_text(
            a,
            Language::SimplifiedChinese,
        ) == "向右分屏"@,
        a is SplitDown ==> label_text(a, Language::English) == "Split Down"@ && label_text(
            a,
            Language::SimplifiedChinese,
        ) == "向下分屏"@,
        a is ClearScreen ==> label_text(a, Language::English) == "Clear Screen"@ && label_text(
            a,
            Language::SimplifiedChinese,
        ) == "清屏"@,
        a is ScrollTop ==> label_text(a, Language::English) == "Scroll to Top"@ && label_text(
            a,
            Language::SimplifiedChinese,
        ) == "滚动到顶部"@,
        a is ScrollBottom ==> label_text(a, Language::English) == "Scroll to Bottom"@ && label_text(
            a,
            Language::SimplifiedChinese,
        ) == "滚动到底部"@,
        a is PageUp ==> label_text(a, Language::English) == "Page Up"@ && label_text(
            a,
            Language::SimplifiedChinese,
        ) == "向上翻页"@,
        a is PageDown ==> label_text(a, Language::English) == "Page Down"@ && label_text(
            a,
            Language::SimplifiedChinese,
        ) == "向下翻页"@,
        a is FontIncrease ==> label_text(a, Language::English) == "Increase Font Size"@ && label_text(
            a,
            Language::SimplifiedChinese,
        ) == "增大字号"@,
        a is FontDecrease ==> label_text(a, Language::English) == "Decrease Font Size"@ && label_text(
            a,
            Language::SimplifiedChinese,
        ) == "减小字号"@,
        a is FontReset ==> label_text(a, Language::English) == "Reset Font Size"@ && label_text(
            a,
            Language::SimplifiedChinese,
        ) == "重置字号"@,
        a is JumpPrevPrompt ==> label_text(a, Language::English) == "Jump to Previous Command"@ && label_text(
            a,
            Language::SimplifiedChinese,
        ) == "跳到上一条命令"@,
        a is JumpNextPrompt ==> label_text(a, Language::English) == "Jump to Next Command"@ && label_text(
            a,
            Language::SimplifiedChinese,
        ) == "跳到下一条命令"@,
        a is CommandPalette ==> label_text(a, Language::English) == "Command Palette"@ && label_text(
            a,
            Language::SimplifiedChinese,
        ) == "命令面板"@,
{
}

/// The first keystroke that the user gave an action is in effect; without one it is the default.
pub proof fn the_user_s_key_comes_first(v: Seq<KeyOverride>, s: Spec, i: int)
    requires
        0 <= i <= v.len(),
        forall|j: int| 0 <= j < i ==> (#[trigger] v[j]).id@ != s.id,
        i < v.len() ==> v[i].id@ == s.id,
    ensures
        i < v.len() ==> effective(v, s) == v[i].keystroke@,
        i == v.len() ==> effective(v, s) == s.keystroke,
{
    the_first_override_counts(v, s.id, i);
}

proof fn the_first_override_counts(v: Seq<KeyOverride>, id: Seq<char>, i: int)
    requires
        0 <= i <= v.len(),
        forall|j: int| 0 <= j < i ==> (#[trigger] v[j]).id@ != id,
        i < v.len() ==> v[i].id@ == id,
    ensures
        i < v.len() ==> override_of(v, id) == Some(v[i].keystroke@),
        i == v.len() ==> override_of(v, id) is None,
    decreases v.len(),
{
    if v.len() > 0 && i > 0 {
        let rest = v.skip(1);
        assert forall|j: int| 0 <= j < i - 1 implies (#[trigger] rest[j]).id@ != id by {
            assert(rest[j] == v[j + 1]);
        }
        the_first_override_counts(rest, id, i - 1);
    }
}

/// A reported conflict names an action that the keystroke does trigger.
pub proof fn a_conflict_names_a_bound_action(
    v: Seq<KeyOverride>,
    keystroke: Seq<char>,
    exclude: Seq<char>,
) -> (j: int)
    requires
        conflict(v, keystroke, exclude) is Some,
    ensures
        0 <= j < all_specs().len(),
        conflict(v, keystroke, exclude) == Some(all_specs()[j].id),
        effective(v, all_specs()[j]) == keystroke,
        all_specs()[j].id != exclude,
{
    conflict_index_is_first(v, all_specs(), keystroke, exclude);
    conflict_index(v, all_specs(), keystroke, exclude)
}

/// An action that the keystroke triggers is bound to it in effect.
pub proof fn a_bound_key_is_the_one_in_effect(v: Seq<KeyOverride>, s: Spec, keystroke: Seq<char>)
    ensures
        bound_to(v, s, keystroke) <==> keystroke == effective(v, s),
{
}

/// An action is bound to the keystroke in effect where that can be bound, else to its default where
/// that can be, and else not at all; to nothing else in any case.
pub proof fn an_action_is_bound_to_a_key_that_works(
    v: Seq<KeyOverride>,
    binds: Seq<bool>,
    default_binds: Seq<bool>,
    i: int,
    key: Seq<char>,
)
    requires
        0 <= i < all_specs().len(),
        binds.len() == all_specs().len(),
        default_binds.len() == all_specs().len(),
    ensures
        ({
            let s = all_specs()[i];
            bindings(v, all_specs(), binds, default_binds).contains((s.action, key)) <==> ((binds[i]
                && key == effective(v, s)) || (!binds[i] && default_binds[i] && key == s.keystroke))
        }),
{
    let all = all_specs();
    assert(all.take(all.len() as int) =~= all);
    bindings_up_to(v, all.len() as int, binds, default_binds, i, key);
}

proof fn actions_differ(i: int, j: int)
    requires
        0 <= i < j < all_specs().len(),
    ensures
        all_specs()[i].action != all_specs()[j].action,
{
}

proof fn bindings_up_to(
    v: Seq<KeyOverride>,
    n: int,
    binds: Seq<bool>,
    default_binds: Seq<bool>,
    i: int,
    key: Seq<char>,
)
    requires
        0 <= n <= all_specs().len(),
        0 <= i < all_specs().len(),
    ensures
        ({
            let s = all_specs()[i];
            bindings(v, all_specs().take(n), binds, default_binds).contains((s.action, key)) <==> i
                < n && ((binds[i] && key == effective(v, s)) || (!binds[i] && default_binds[i] && key
                == s.keystroke))
        }),
    decreases n,
{
    let all = all_specs();
    if n > 0 {
        bindings_up_to(v, n - 1, binds, default_binds, i, key);
        assert(all.take(n).drop_last() =~= all.take(n - 1));
        assert(all.take(n).last() == all[n - 1]);
        let head = bindings(v, all.take(n - 1), binds, default_binds);
        let now = bindings(v, all.take(n), binds, default_binds);
        let p = (all[i].action, key);
        if head.contains(p) {
            let k = head.index_of(p);
            assert(now[k] == p);
        }
        if now.contains(p) {
            let k = now.index_of(p);
            if k < head.len() {
                assert(head[k] == p);
            }
        }
        if i < n - 1 {
            actions_differ(i, n - 1);
        }
        if n - 1 < i {
            actions_differ(n - 1, i);
        }
        if i == n - 1 && now.len() > head.len() {
            assert(now[head.len() as int] == (all[i].action, binding_of(
                v,
                all[i],
                binds[i],
                default_binds[i],
            )->0));
        }
    }
}

/// The stored form of a keystroke names its modifiers in one order, Fn, Control, Alt, the platform key
/// and Shift, in front of the key.
pub proof fn the_stored_form_names_the_modifiers_in_order(m: Modifiers, key: Seq<char>)
    ensures
        m.function ==> canonical(m, key) == "fn-"@ + canonical(
            Modifiers { function: false, ..m },
            key,
        ),
        !m.function && m.control ==> canonical(m, key) == "ctrl-"@ + canonical(
            Modifiers { control: false, ..m },
            key,
        ),
        !m.function && !m.control && m.alt ==> canonical(m, key) == "alt-"@ + canonical(
            Modifiers { alt: false, ..m },
            key,
        ),
        !m.function && !m.control && !m.alt && m.platform ==> canonical(m, key) == "cmd-"@
            + canonical(Modifiers { platform: false, ..m }, key),
        !m.function && !m.control && !m.alt && !m.platform && m.shift ==> canonical(m, key)
            == "shift-"@ + key,
        !m.function && !m.control && !m.alt && !m.platform && !m.shift ==> canonical(m, key) == key,
{
    let none = Seq::<char>::empty();
    assert(none + key =~= key);
    assert("shift-"@ + key == after_platform(Modifiers { shift: true, ..m }, key));
    assert(none + after_platform(m, key) =~= after_platform(m, key));
    assert(none + after_alt(m, key) =~= after_alt(m, key));
    assert(none + after_control(m, key) =~= after_control(m, key));
    assert(none + after_function(m, key) =~= after_function(m, key));
}

/// A keystroke that could not be read is shown as it is stored; another one by the signs of its
/// modifiers, Control, Alt, Shift and the platform key in this order, in front of its key.
pub proof fn a_keystroke_is_shown_by_its_signs(stored: Seq<char>, k: Keystroke)
    ensures
        shown_keystroke(stored, None) == stored,
        ({
            let m = k.modifiers;
            let key = key_symbol(k.key@, upper_text(k.key@));
            let shown = shown_keystroke(stored, Some(k));
            &&& shown.len() == key.len() + (if m.control {
                1int
            } else {
                0
            }) + (if m.alt {
                1int
            } else {
                0
            }) + (if m.shift {
                1int
            } else {
                0
            }) + (if m.platform {
                1int
            } else {
                0
            })
            &&& text::has_suffix(shown, key)
            &&& m.control ==> shown[0] == '⌃'
            &&& m.alt ==> shown[if m.control {
                1int
            } else {
                0
            }] == '⌥'
            &&& m.platform ==> shown[shown.len() - key.len() - 1] == '⌘'
            &&& m.shift ==> shown[shown.len() - key.len() - (if m.platform {
                2int
            } else {
                1
            })] == '⇧'
        }),
{
    reveal_strlit("⌃");
    reveal_strlit("⌥");
    reveal_strlit("⇧");
    reveal_strlit("⌘");
    let key = key_symbol(k.key@, upper_text(k.key@));
    let shown = shown_keystroke(stored, Some(k));
    assert(shown.skip(shown.len() - key.len()) =~= key);
}

/// Each key with a sign is shown by its own sign, a key of one character in upper case, and any other by
/// its name.
pub proof fn keys_are_shown_by_their_signs(key: Seq<char>, upper: Seq<char>)
    ensures
        key == "up"@ ==> key_symbol(key, upper) == seq!['↑'],
        key == "down"@ ==> key_symbol(key, upper) == seq!['↓'],
        key == "left"@ ==> key_symbol(key, upper) == seq!['←'],
        key == "right"@ ==> key_symbol(key, upper) == seq!['→'],
        key == "tab"@ ==> key_symbol(key, upper) == seq!['⇥'],
        key == "enter"@ ==> key_symbol(key, upper) == seq!['⏎'],
        key == "escape"@ ==> key_symbol(key, upper) == seq!['⎋'],
        key == "backspace"@ ==> key_symbol(key, upper) == seq!['⌫'],
        key == "delete"@ ==> key_symbol(key, upper) == seq!['⌦'],
        key == "space"@ ==> key_symbol(key, upper) == seq!['␣'],
        key == "home"@ ==> key_symbol(key, upper) == seq!['↖'],
        key == "end"@ ==> key_symbol(key, upper) == seq!['↘'],
        key == "pageup"@ ==> key_symbol(key, upper) == seq!['⇞'],
        key == "pagedown"@ ==> key_symbol(key, upper) == seq!['⇟'],
        key.len() == 1 ==> key_symbol(key, upper) == upper,
        key.len() > 9 ==> key_symbol(key, upper) == key,
{
    reveal_strlit("up");
    reveal_strlit("down");
    reveal_strlit("left");
    reveal_strlit("right");
    reveal_strlit("tab");
    reveal_strlit("enter");
    reveal_strlit("escape");
    reveal_strlit("backspace");
    reveal_strlit("delete");
    reveal_strlit("space");
    reveal_strlit("home");
    reveal_strlit("end");
    reveal_strlit("pageup");
    reveal_strlit("pagedown");
    reveal_strlit("↑");
    reveal_strlit("↓");
    reveal_strlit("←");
    reveal_strlit("→");
    reveal_strlit("⇥");
    reveal_strlit("⏎");
    reveal_strlit("⎋");
    reveal_strlit("⌫");
    reveal_strlit("⌦");
    reveal_strlit("␣");
    reveal_strlit("↖");
    reveal_strlit("↘");
    reveal_strlit("⇞");
    reveal_strlit("⇟");
    assert("↑"@ =~= seq!['↑']);
    assert("↓"@ =~= seq!['↓']);
    assert("←"@ =~= seq!['←']);
    assert("→"@ =~= seq!['→']);
    assert("⇥"@ =~= seq!['⇥']);
    assert("⏎"@ =~= seq!['⏎']);
    assert("⎋"@ =~= seq!['⎋']);
    assert("⌫"@ =~= seq!['⌫']);
    assert("⌦"@ =~= seq!['⌦']);
    assert("␣"@ =~= seq!['␣']);
    assert("↖"@ =~= seq!['↖']);
    assert("↘"@ =~= seq!['↘']);
    assert("⇞"@ =~= seq!['⇞']);
    assert("⇟"@ =~= seq!['⇟']);
    assert("up"@.len() == 2 && "up"@[0] == 'u' && "up"@[1] == 'p');
    assert("down"@.len() == 4 && "down"@[0] == 'd' && "down"@[3] == 'n');
    assert("left"@.len() == 4 && "left"@[0] == 'l' && "left"@[3] == 't');
    assert("right"@.len() == 5 && "right"@[0] == 'r' && "right"@[4] == 't' && "right"@[4] == 't');
    assert("tab"@.len() == 3 && "tab"@[0] == 't' && "tab"@[2] == 'b');
    assert("enter"@.len() == 5 && "enter"@[0] == 'e' && "enter"@[4] == 'r' && "enter"@[4] == 'r');
    assert("escape"@.len() == 6 && "escape"@[0] == 'e' && "escape"@[5] == 'e' && "escape"@[4] == 'p');
    assert("backspace"@.len() == 9 && "backspace"@[0] == 'b' && "backspace"@[8] == 'e' && "backspace"@[4] == 's');
    assert("delete"@.len() == 6 && "delete"@[0] == 'd' && "delete"@[5] == 'e' && "delete"@[4] == 't');
    assert("space"@.len() == 5 && "space"@[0] == 's' && "space"@[4] == 'e' && "space"@[4] == 'e');
    assert("home"@.len() == 4 && "home"@[0] == 'h' && "home"@[3] == 'e');
    assert("end"@.len() == 3 && "end"@[0] == 'e' && "end"@[2] == 'd');
    assert("pageup"@.len() == 6 && "pageup"@[0] == 'p' && "pageup"@[5] == 'p' && "pageup"@[4] == 'u');
    assert("pagedown"@.len() == 8 && "pagedown"@[0] == 'p' && "pagedown"@[7] == 'n' && "pagedown"@[4] == 'd');
}

/// Small letters are shown as capitals, and other characters as they are.
pub proof fn keys_are_shown_as_capitals(c: char)
    ensures
        'a' <= c <= 'z' ==> 'A' <= upper_char(c) <= 'Z' && upper_char(c) as int - 'A' as int
            == c as int - 'a' as int,
        c < 'a' || 'z' < c ==> upper_char(c) == c,
{
}

} // verus!
