//! The command palette: every command that the user can run, found by typing.

use vstd::prelude::*;
use crate::i18n;
use crate::i18n::Language;
use crate::keybindings;
use crate::keybindings::{Action, ActionSpec, KeyOverride};
use crate::terminal_input::Keystroke;
use crate::text;

verus! {

/// The lower-case form of a text.
pub uninterp spec fn lower_text(s: Seq<char>) -> Seq<char>;

/// `str::to_lowercase` gives the Unicode lower-case form, which depends on the text alone. Of an
/// ASCII text it is the text with its letters `A` to `Z` in lower case; for other texts the form
/// is not stated.
#[verifier::external_body]
fn to_lower(s: &str) -> (r: String)
    ensures
        r@ == lower_text(s@),
        s.is_ascii() ==> r@ == text::lower_ascii(s@),
{
    s.to_lowercase()
}

/// A query finds a label where it is empty or stands in the label; both are given in lower case.
pub open spec fn finds(label_lower: Seq<char>, query: Seq<char>, query_lower: Seq<char>) -> bool {
    query.len() == 0 || text::contains_text(label_lower, query_lower)
}

/// Whether a query finds a label, where both are also given in lower case.
pub fn lowered_matches(label_lower: &str, query: &str, query_lower: &str) -> (r: bool)
    ensures
        r == finds(label_lower@, query@, query_lower@),
{
    query.is_empty() || text::contains(label_lower, query_lower)
}

/// Whether a query finds a label, whatever the case of the letters. An empty query finds every
/// label.
pub fn command_matches(label: &str, query: &str) -> (r: bool)
    ensures
        r == finds(lower_text(label@), query@, lower_text(query@)),
        label.is_ascii() && query.is_ascii() ==> r == finds(
            text::lower_ascii(label@),
            query@,
            text::lower_ascii(query@),
        ),
{
    let a: String = to_lower(label);
    let b: String = to_lower(query);
    lowered_matches(a.as_str(), query, b.as_str())
}

/// A command that only the menus have.
#[derive(Clone, Copy, Debug, PartialEq, Eq, Structural)]
pub enum MenuCommand {
    About,
    ToggleSecureKeyboardEntry,
    SplitLeft,
    SplitUp,
    CloseAllWindows,
    ZoomWindow,
    Hide,
    HideOthers,
    ShowAll,
    HelpDocs,
    CheckForUpdates,
}

/// The commands that only the menus have, in the order of the menus.
pub open spec fn all_menu_commands() -> Seq<MenuCommand> {
    seq![
        MenuCommand::About,
        MenuCommand::ToggleSecureKeyboardEntry,
        MenuCommand::SplitLeft,
        MenuCommand::SplitUp,
        MenuCommand::CloseAllWindows,
        MenuCommand::ZoomWindow,
        MenuCommand::Hide,
        MenuCommand::HideOthers,
        MenuCommand::ShowAll,
        MenuCommand::HelpDocs,
        MenuCommand::CheckForUpdates,
    ]
}

/// The commands that only the menus have, in the order of the menus.
pub fn menu_only_commands() -> (r: Vec<MenuCommand>)
    ensures
        r@ == all_menu_commands(),
{
    let r: Vec<MenuCommand> = vec![
        MenuCommand::About,
        MenuCommand::ToggleSecureKeyboardEntry,
        MenuCommand::SplitLeft,
        MenuCommand::SplitUp,
        MenuCommand::CloseAllWindows,
        MenuCommand::ZoomWindow,
        MenuCommand::Hide,
        MenuCommand::HideOthers,
        MenuCommand::ShowAll,
        MenuCommand::HelpDocs,
        MenuCommand::CheckForUpdates,
    ];
    assert(r@ =~= all_menu_commands());
    r
}

/// What a row of the palette runs.
#[derive(Clone, Copy, Debug, PartialEq, Eq, Structural)]
pub enum Command {
    Bound(Action),
    Menu(MenuCommand),
}

/// A row of the palette: label, keystroke where the command has one, and the command.
#[derive(Clone, Debug, PartialEq, Eq)]
pub struct PaletteEntry {
    pub label: String,
    pub keystroke: Option<String>,
    pub command: Command,
}

/// A row of the palette as a mathematical value.
pub struct Entry {
    pub label: Seq<char>,
    pub keystroke: Option<Seq<char>>,
    pub command: Command,
}

pub open spec fn entry(e: PaletteEntry) -> Entry {
    Entry {
        label: e.label@,
        keystroke: match e.keystroke {
            Some(k) => Some(k@),
            None => None,
        },
        command: e.command,
    }
}

pub open spec fn entries(v: Seq<PaletteEntry>) -> Seq<Entry> {
    v.map_values(|e: PaletteEntry| entry(e))
}

/// The rows of the bindable actions, but for the one that opens the palette. `parsed[i]` is what
/// was read from the keystroke in effect for the action at index `i`.
pub open spec fn action_rows(
    v: Seq<KeyOverride>,
    language: Language,
    specs: Seq<keybindings::Spec>,
    parsed: Seq<Option<Keystroke>>,
) -> Seq<Entry>
    decreases specs.len(),
{
    if specs.len() == 0 {
        seq![]
    } else {
        let s = specs.last();
        let head = action_rows(v, language, specs.drop_last(), parsed);
        if s.action is CommandPalette {
            head
        } else {
            head.push(
                Entry {
                    label: keybindings::label_text(s.action, language),
                    keystroke: Some(
                        keybindings::shown_keystroke(
                            keybindings::effective(v, s),
                            parsed[specs.len() - 1],
                        ),
                    ),
                    command: Command::Bound(s.action),
                },
            )
        }
    }
}

/// The labels of the menu commands that the interface's own texts do not name.
#[derive(Clone, Debug)]
pub struct MenuLabels {
    pub about: String,
    pub secure_keyboard_entry: String,
    pub split_left: String,
    pub split_up: String,
    pub close_all_windows: String,
    pub zoom_window: String,
    pub help_docs: String,
    pub check_for_updates: String,
}

/// The label of a command that only the menus have.
pub open spec fn menu_text(c: MenuCommand, labels: MenuLabels, language: Language) -> Seq<char> {
    match c {
        MenuCommand::About => labels.about@,
        MenuCommand::ToggleSecureKeyboardEntry => labels.secure_keyboard_entry@,
        MenuCommand::SplitLeft => labels.split_left@,
        MenuCommand::SplitUp => labels.split_up@,
        MenuCommand::CloseAllWindows => labels.close_all_windows@,
        MenuCommand::ZoomWindow => labels.zoom_window@,
        MenuCommand::Hide => i18n::pick(language, "Hide Eggie"@, "隐藏 Eggie"@),
        MenuCommand::HideOthers => i18n::pick(language, "Hide Others"@, "隐藏其他"@),
        MenuCommand::ShowAll => i18n::pick(language, "Show All"@, "全部显示"@),
        MenuCommand::HelpDocs => labels.help_docs@,
        MenuCommand::CheckForUpdates => labels.check_for_updates@,
    }
}

impl MenuCommand {
    /// The label of the command.
    pub fn label(self, labels: &MenuLabels, language: Language) -> (r: String)
        ensures
            r@ == menu_text(self, *labels, language),
    {
        match self {
            MenuCommand::About => labels.about.clone(),
            MenuCommand::ToggleSecureKeyboardEntry => labels.secure_keyboard_entry.clone(),
            MenuCommand::SplitLeft => labels.split_left.clone(),
            MenuCommand::SplitUp => labels.split_up.clone(),
            MenuCommand::CloseAllWindows => labels.close_all_windows.clone(),
            MenuCommand::ZoomWindow => labels.zoom_window.clone(),
            MenuCommand::Hide => language.hide_eggie().to_owned(),
            MenuCommand::HideOthers => language.hide_others().to_owned(),
            MenuCommand::ShowAll => language.show_all().to_owned(),
            MenuCommand::HelpDocs => labels.help_docs.clone(),
            MenuCommand::CheckForUpdates => labels.check_for_updates.clone(),
        }
    }
}

/// The rows of the first `n` commands that only the menus have.
pub open spec fn menu_rows(labels: MenuLabels, language: Language, n: int) -> Seq<Entry>
    decreases n,
{
    if n <= 0 {
        seq![]
    } else {
        menu_rows(labels, language, n - 1).push(
            Entry {
                label: menu_text(all_menu_commands()[n - 1], labels, language),
                keystroke: None,
                command: Command::Menu(all_menu_commands()[n - 1]),
            },
        )
    }
}

/// All rows of the palette: the bindable actions, each with the keystroke in effect, then the
/// commands that only the menus have. The palette does not list itself.
pub fn palette_entries(
    overrides: &Vec<KeyOverride>,
    language: Language,
    menu_labels: &MenuLabels,
    parsed: &Vec<Option<Keystroke>>,
) -> (r: Vec<PaletteEntry>)
    requires
        parsed@.len() == keybindings::all_specs().len(),
    ensures
        entries(r@) == action_rows(overrides@, language, keybindings::all_specs(), parsed@)
            + menu_rows(*menu_labels, language, all_menu_commands().len() as int),
{
    let specs: Vec<ActionSpec> = keybindings::action_specs();
    let ghost all = keybindings::all_specs();
    let mut r: Vec<PaletteEntry> = Vec::new();
    let mut i: usize = 0;
    assert(all.take(0) =~= seq![]);
    assert(entries(r@) =~= seq![]);
    while i < specs.len()
        invariant
            i <= specs@.len(),
            all == keybindings::all_specs(),
            keybindings::specs_of(specs@) == all,
            parsed@.len() == all.len(),
            entries(r@) == action_rows(overrides@, language, all.take(i as int), parsed@),
        decreases specs@.len() - i,
    {
        let ghost now = all.take(i + 1);
        assert(now.drop_last() =~= all.take(i as int));
        assert(now.last() == keybindings::spec_of(specs@[i as int]));
        let palette: bool = match specs[i].action {
            Action::CommandPalette => true,
            _ => false,
        };
        if !palette {
            let stored: &str = match keybindings::find_override(overrides, specs[i].id) {
                Some(k) => k,
                None => specs[i].default_keystroke,
            };
            let shown: String = keybindings::display_keystroke(stored, &parsed[i]);
            let ghost had = r@;
            let e: PaletteEntry = PaletteEntry {
                label: specs[i].action.label(language).to_owned(),
                keystroke: Some(shown),
                command: Command::Bound(specs[i].action),
            };
            r.push(e);
            assert(entries(r@) =~= entries(had).push(entry(e)));
        }
        i = i + 1;
    }
    assert(all.take(i as int) =~= all);
    let ghost bound = action_rows(overrides@, language, all, parsed@);
    let commands: Vec<MenuCommand> = menu_only_commands();
    let mut k: usize = 0;
    assert(bound + menu_rows(*menu_labels, language, 0) =~= bound);
    while k < commands.len()
        invariant
            k <= commands@.len(),
            commands@ == all_menu_commands(),
            entries(r@) == bound + menu_rows(*menu_labels, language, k as int),
        decreases commands@.len() - k,
    {
        let ghost had = r@;
        let e: PaletteEntry = PaletteEntry {
            label: commands[k].label(menu_labels, language),
            keystroke: None,
            command: Command::Menu(commands[k]),
        };
        r.push(e);
        assert(entries(r@) =~= entries(had).push(entry(e)));
        assert(bound + menu_rows(*menu_labels, language, k + 1) =~= (bound + menu_rows(
            *menu_labels,
            language,
            k as int,
        )).push(entry(e)));
        k = k + 1;
    }
    r
}

proof fn action_rows_skip_the_palette(
    v: Seq<KeyOverride>,
    language: Language,
    specs: Seq<keybindings::Spec>,
    parsed: Seq<Option<Keystroke>>,
)
    ensures
        forall|k: int|
            0 <= k < action_rows(v, language, specs, parsed).len() ==> (
            #[trigger] action_rows(v, language, specs, parsed)[k]).command != Command::Bound(
                Action::CommandPalette,
            ),
    decreases specs.len(),
{
    if specs.len() > 0 {
        action_rows_skip_the_palette(v, language, specs.drop_last(), parsed);
    }
}

proof fn menu_rows_are_menu_commands(labels: MenuLabels, language: Language, n: int)
    requires
        0 <= n,
    ensures
        menu_rows(labels, language, n).len() == n,
        forall|k: int| 0 <= k < n ==> (#[trigger] menu_rows(labels, language, n)[k]).command is Menu,
        forall|k: int| 0 <= k < n ==> (#[trigger] menu_rows(labels, language, n)[k]).keystroke is None,
    decreases n,
{
    if n > 0 {
        menu_rows_are_menu_commands(labels, language, n - 1);
    }
}

/// The palette never lists the command that opens it.
pub proof fn the_palette_does_not_list_itself(
    v: Seq<KeyOverride>,
    language: Language,
    labels: MenuLabels,
    parsed: Seq<Option<Keystroke>>,
    k: int,
)
    requires
        0 <= k < (action_rows(v, language, keybindings::all_specs(), parsed) + menu_rows(
            labels,
            language,
            all_menu_commands().len() as int,
        )).len(),
    ensures
        (action_rows(v, language, keybindings::all_specs(), parsed) + menu_rows(
            labels,
            language,
            all_menu_commands().len() as int,
        ))[k].command != Command::Bound(Action::CommandPalette),
{
    let a = action_rows(v, language, keybindings::all_specs(), parsed);
    let b = menu_rows(labels, language, all_menu_commands().len() as int);
    action_rows_skip_the_palette(v, language, keybindings::all_specs(), parsed);
    menu_rows_are_menu_commands(labels, language, all_menu_commands().len() as int);
    if k < a.len() {
        assert((a + b)[k] == a[k]);
    } else {
        assert((a + b)[k] == b[k - a.len()]);
    }
}

/// The indices of the rows that the query finds, in order.
pub open spec fn found_rows(v: Seq<Entry>, query: Seq<char>) -> Seq<int>
    decreases v.len(),
{
    if v.len() == 0 {
        seq![]
    } else {
        let head = found_rows(v.drop_last(), query);
        if finds(lower_text(v.last().label), query, lower_text(query)) {
            head.push(v.len() - 1)
        } else {
            head
        }
    }
}

/// The indices of the rows that a typed query finds, in order. White space around the query does
/// not count.
pub fn filtered_palette_entries(rows: &Vec<PaletteEntry>, typed: &str) -> (r: Vec<usize>)
    ensures
        r@.map_values(|i: usize| i as int) == found_rows(entries(rows@), text::trimmed(typed@)),
        forall|k: int| 0 <= k < r@.len() ==> (#[trigger] r@[k]) < rows@.len(),
{
    let query: String = text::trim(typed);
    let ghost all = entries(rows@);
    let mut r: Vec<usize> = Vec::new();
    let mut i: usize = 0;
    assert(all.take(0) =~= seq![]);
    assert(r@.map_values(|i: usize| i as int) =~= seq![]);
    while i < rows.len()
        invariant
            i <= rows@.len(),
            all == entries(rows@),
            query@ == text::trimmed(typed@),
            r@.map_values(|i: usize| i as int) == found_rows(all.take(i as int), query@),
            forall|k: int| 0 <= k < r@.len() ==> (#[trigger] r@[k]) < i,
        decreases rows@.len() - i,
    {
        let ghost now = all.take(i + 1);
        assert(now.drop_last() =~= all.take(i as int));
        assert(now.last() == entry(rows@[i as int]));
        if command_matches(rows[i].label.as_str(), query.as_str()) {
            let ghost had = r@;
            r.push(i);
            assert(r@.map_values(|i: usize| i as int) =~= had.map_values(|i: usize| i as int).push(
                i as int,
            ));
        }
        i = i + 1;
    }
    assert(all.take(i as int) =~= all);
    r
}

/// The selected row after moving by `delta` in a list of `count` rows: the move stops at the
/// first and the last row.
pub open spec fn moved_selection(selected: int, delta: int, count: int) -> int {
    if count <= 0 {
        0
    } else {
        let current = if selected < count - 1 {
            selected
        } else {
            count - 1
        };
        let next = current + delta;
        if next < 0 {
            0
        } else if next > count - 1 {
            count - 1
        } else {
            next
        }
    }
}

/// The selected row after moving by `delta` in a list of `count` rows.
pub fn move_palette_selection(selected: usize, delta: isize, count: usize) -> (r: usize)
    ensures
        r == moved_selection(selected as int, delta as int, count as int),
{
    if count == 0 {
        return 0;
    }
    let last: usize = count - 1;
    let current: usize = if selected < last {
        selected
    } else {
        last
    };
    if delta >= 0 {
        let step: usize = delta as usize;
        if step >= last - current {
            last
        } else {
            current + step
        }
    } else {
        let wide: i128 = 0 - (delta as i128);
        let far: u128 = wide as u128;
        if far >= current as u128 {
            0
        } else {
            (current as u128 - far) as usize
        }
    }
}

/// The selection is always a row of the list, as long as the list has any.
pub proof fn the_selection_stays_in_the_list(selected: int, delta: int, count: int)
    requires
        0 <= selected,
        0 < count,
    ensures
        0 <= moved_selection(selected, delta, count) < count,
{
}

/// The row that is highlighted: the selected one, or the last where the list has become shorter.
pub fn highlighted_row(selected: usize, count: usize) -> (r: usize)
    ensures
        r == (if count == 0 {
            0
        } else if selected < count {
            selected as int
        } else {
            count - 1
        }),
{
    if count == 0 {
        0
    } else if selected < count {
        selected
    } else {
        count - 1
    }
}

/// The command that is run: that of the selected row, none where the list has no such row.
pub fn selected_command(rows: &Vec<PaletteEntry>, found: &Vec<usize>, selected: usize) -> (r: Option<
    Command,
>)
    requires
        forall|k: int| 0 <= k < found@.len() ==> (#[trigger] found@[k]) < rows@.len(),
    ensures
        r == (if selected < found@.len() {
            Some(rows@[found@[selected as int] as int].command)
        } else {
            None
        }),
{
    if selected < found.len() {
        Some(rows[found[selected]].command)
    } else {
        None
    }
}

/// What the user does in the query of the palette.
#[derive(Clone, Copy, Debug, PartialEq, Eq, Structural)]
pub enum PaletteInput {
    Changed,
    Confirm,
    ConfirmReverse,
    Cancel,
}

/// What follows.
#[derive(Clone, Copy, Debug, PartialEq, Eq, Structural)]
pub enum PaletteAction {
    /// The palette stays open.
    Nothing,
    /// The palette closes.
    Close,
    /// The palette closes, and the command is run.
    Run(Command),
}

/// What follows from something that the user does in the query. Another query starts at the first
/// row again; confirming runs the command of the selected row, where there is one.
pub fn palette_input(
    selected: &mut usize,
    input: PaletteInput,
    rows: &Vec<PaletteEntry>,
    found: &Vec<usize>,
) -> (r: PaletteAction)
    requires
        forall|k: int| 0 <= k < found@.len() ==> (#[trigger] found@[k]) < rows@.len(),
    ensures
        *final(selected) == (if input is Changed {
            0
        } else {
            *old(selected)
        }),
        r == (match input {
            PaletteInput::Changed => PaletteAction::Nothing,
            PaletteInput::Cancel => PaletteAction::Close,
            _ => if *old(selected) < found@.len() {
                PaletteAction::Run(rows@[found@[*old(selected) as int] as int].command)
            } else {
                PaletteAction::Nothing
            },
        }),
{
    match input {
        PaletteInput::Changed => {
            *selected = 0;
            PaletteAction::Nothing
        },
        PaletteInput::Cancel => PaletteAction::Close,
        PaletteInput::Confirm | PaletteInput::ConfirmReverse => match selected_command(
            rows,
            found,
            *selected,
        ) {
            Some(command) => PaletteAction::Run(command),
            None => PaletteAction::Nothing,
        },
    }
}

/// How far a key moves the selection; `None` where it goes to the query.
pub fn palette_step(key: &str) -> (r: Option<isize>)
    ensures
        r == (if key@ == "up"@ {
            Some(-1isize)
        } else if key@ == "down"@ {
            Some(1isize)
        } else {
            None
        }),
{
    if text::text_eq(key, "up") {
        Some(-1)
    } else if text::text_eq(key, "down") {
        Some(1)
    } else {
        None
    }
}

/// A row of the palette as it is drawn.
#[derive(Clone, Debug, PartialEq, Eq)]
pub struct PaletteRow {
    pub label: String,
    pub keystroke: Option<String>,
    pub highlighted: bool,
}

/// What the palette shows below its query.
#[derive(Clone, Debug, PartialEq, Eq)]
pub enum PaletteView {
    /// That nothing was found.
    Empty,
    /// The rows that were found.
    Rows(Vec<PaletteRow>),
}

/// The row shows the entry.
pub open spec fn draws(row: PaletteRow, e: PaletteEntry, highlighted: bool) -> bool {
    &&& row.label@ == e.label@
    &&& row.highlighted == highlighted
    &&& match (row.keystroke, e.keystroke) {
        (Some(a), Some(b)) => a@ == b@,
        (None, None) => true,
        _ => false,
    }
}

/// What the palette shows: the rows that the query found, one of them highlighted. `selected` is
/// `None` while the palette is closed.
pub fn palette_view(selected: Option<usize>, rows: &Vec<PaletteEntry>, found: &Vec<usize>) -> (r:
    Option<PaletteView>)
    requires
        forall|k: int| 0 <= k < found@.len() ==> (#[trigger] found@[k]) < rows@.len(),
    ensures
        r is None <==> selected is None,
        r matches Some(view) ==> match view {
            PaletteView::Empty => found@.len() == 0,
            PaletteView::Rows(drawn) => {
                &&& found@.len() > 0
                &&& drawn@.len() == found@.len()
                &&& forall|k: int|
                    0 <= k < drawn@.len() ==> draws(
                        #[trigger] drawn@[k],
                        rows@[found@[k] as int],
                        k == (if selected->0 < found@.len() {
                            selected->0 as int
                        } else {
                            found@.len() - 1
                        }),
                    )
            },
        },
{
    let selected: usize = match selected {
        Some(s) => s,
        None => {
            return None;
        },
    };
    if found.len() == 0 {
        return Some(PaletteView::Empty);
    }
    let at: usize = highlighted_row(selected, found.len());
    let mut drawn: Vec<PaletteRow> = Vec::new();
    let mut i: usize = 0;
    while i < found.len()
        invariant
            i <= found@.len(),
            drawn@.len() == i,
            forall|k: int| 0 <= k < found@.len() ==> (#[trigger] found@[k]) < rows@.len(),
            forall|k: int|
                0 <= k < i ==> draws(#[trigger] drawn@[k], rows@[found@[k] as int], k == at),
        decreases found@.len() - i,
    {
        let e: &PaletteEntry = &rows[found[i]];
        let row: PaletteRow = PaletteRow {
            label: e.label.clone(),
            keystroke: match &e.keystroke {
                Some(k) => Some(k.clone()),
                None => None,
            },
            highlighted: i == at,
        };
        drawn.push(row);
        i = i + 1;
    }
    Some(PaletteView::Rows(drawn))
}

/// Without a query every command is found; with one those whose label holds it somewhere, in small
/// letters.
pub proof fn a_command_is_found_by_a_part_of_its_label(
    label_lower: Seq<char>,
    query: Seq<char>,
    query_lower: Seq<char>,
    before: Seq<char>,
    after: Seq<char>,
)
    ensures
        query.len() == 0 ==> finds(label_lower, query, query_lower),
        finds(before + query_lower + after, query, query_lower),
        query.len() > 0 ==> (finds(label_lower, query, query_lower) <==> text::contains_text(
            label_lower,
            query_lower,
        )),
{
    let whole = before + query_lower + after;
    let at = before.len() as int;
    assert(whole.subrange(at, at + query_lower.len()) =~= query_lower);
    assert(text::occurs_at(whole, query_lower, at));
}

/// The commands that only the menu has, in the order of the palette.
pub proof fn menu_commands_stand_in_order()
    ensures
        all_menu_commands().len() == 11,
        all_menu_commands()[0] == MenuCommand::About,
        all_menu_commands()[1] == MenuCommand::ToggleSecureKeyboardEntry,
        all_menu_commands()[2] == MenuCommand::SplitLeft,
        all_menu_commands()[3] == MenuCommand::SplitUp,
        all_menu_commands()[4] == MenuCommand::CloseAllWindows,
        all_menu_commands()[5] == MenuCommand::ZoomWindow,
        all_menu_commands()[6] == MenuCommand::Hide,
        all_menu_commands()[7] == MenuCommand::HideOthers,
        all_menu_commands()[8] == MenuCommand::ShowAll,
        all_menu_commands()[9] == MenuCommand::HelpDocs,
        all_menu_commands()[10] == MenuCommand::CheckForUpdates,
{
}

/// Each menu command has its own label.
pub proof fn menu_commands_have_their_labels(labels: MenuLabels)
    ensures
        forall|l: Language| #[trigger] menu_text(MenuCommand::About, labels, l) == labels.about@,
        forall|l: Language| #[trigger]
            menu_text(MenuCommand::ToggleSecureKeyboardEntry, labels, l)
                == labels.secure_keyboard_entry@,
        forall|l: Language| #[trigger]
            menu_text(MenuCommand::SplitLeft, labels, l) == labels.split_left@,
        forall|l: Language| #[trigger]
            menu_text(MenuCommand::SplitUp, labels, l) == labels.split_up@,
        forall|l: Language| #[trigger]
            menu_text(MenuCommand::CloseAllWindows, labels, l) == labels.close_all_windows@,
        forall|l: Language| #[trigger]
            menu_text(MenuCommand::ZoomWindow, labels, l) == labels.zoom_window@,
        forall|l: Language| #[trigger]
            menu_text(MenuCommand::HelpDocs, labels, l) == labels.help_docs@,
        forall|l: Language| #[trigger]
            menu_text(MenuCommand::CheckForUpdates, labels, l) == labels.check_for_updates@,
        menu_text(MenuCommand::Hide, labels, Language::English) == "Hide Eggie"@,
        menu_text(MenuCommand::HideOthers, labels, Language::English) == "Hide Others"@,
        menu_text(MenuCommand::ShowAll, labels, Language::English) == "Show All"@,
        menu_text(MenuCommand::Hide, labels, Language::SimplifiedChinese) == "隐藏 Eggie"@,
        menu_text(MenuCommand::HideOthers, labels, Language::SimplifiedChinese) == "隐藏其他"@,
        menu_text(MenuCommand::ShowAll, labels, Language::SimplifiedChinese) == "全部显示"@,
{
}

/// A row of the palette is told by its label, its keystroke and its command.
pub proof fn rows_are_told_by_their_parts(e: PaletteEntry)
    ensures
        entry(e).label == e.label@,
        entry(e).command == e.command,
        e.keystroke is None <==> entry(e).keystroke is None,
        e.keystroke matches Some(k) ==> entry(e).keystroke == Some(k@),
{
}

/// Every action but the palette itself has a row, in the order of the actions, with its label and the
/// keystroke that is in force.
pub proof fn every_action_has_a_row(
    v: Seq<KeyOverride>,
    language: Language,
    specs: Seq<keybindings::Spec>,
    s: keybindings::Spec,
    parsed: Seq<Option<Keystroke>>,
)
    ensures
        action_rows(v, language, seq![], parsed).len() == 0,
        s.action is CommandPalette ==> action_rows(v, language, specs.push(s), parsed)
            == action_rows(v, language, specs, parsed),
        !(s.action is CommandPalette) ==> ({
            let rows = action_rows(v, language, specs.push(s), parsed);
            let head = action_rows(v, language, specs, parsed);
            &&& rows.len() == head.len() + 1
            &&& rows.drop_last() == head
            &&& rows.last().label == keybindings::label_text(s.action, language)
            &&& rows.last().keystroke == Some(
                keybindings::shown_keystroke(
                    keybindings::effective(v, s),
                    parsed[specs.len() as int],
                ),
            )
            &&& rows.last().command == Command::Bound(s.action)
        }),
{
    assert(specs.push(s).drop_last() =~= specs);
    assert(specs.push(s).last() == s);
    if !(s.action is CommandPalette) {
        assert(action_rows(v, language, specs.push(s), parsed).drop_last() =~= action_rows(
            v,
            language,
            specs,
            parsed,
        ));
    }
}

/// Every menu command has a row, without a keystroke, in the order of the commands.
pub proof fn every_menu_command_has_a_row(labels: MenuLabels, language: Language, n: int, k: int)
    requires
        0 <= k < n <= all_menu_commands().len(),
    ensures
        menu_rows(labels, language, n).len() == n,
        menu_rows(labels, language, n)[k].label == menu_text(
            all_menu_commands()[k],
            labels,
            language,
        ),
        menu_rows(labels, language, n)[k].keystroke is None,
        menu_rows(labels, language, n)[k].command == Command::Menu(all_menu_commands()[k]),
    decreases n,
{
    if n > 1 {
        if k < n - 1 {
            every_menu_command_has_a_row(labels, language, n - 1, k);
        } else {
            every_menu_command_has_a_row(labels, language, n - 1, 0);
        }
    } else {
        assert(menu_rows(labels, language, 0).len() == 0);
    }
}

/// The rows that are listed are exactly those that are found, in order.
pub proof fn exactly_the_rows_found_are_listed(
    v: Seq<Entry>,
    query: Seq<char>,
    i: int,
    p: int,
    q: int,
)
    ensures
        found_rows(v, query).contains(i) <==> 0 <= i < v.len() && (query.len() == 0
            || text::contains_text(lower_text(v[i].label), lower_text(query))),
        0 <= p < q < found_rows(v, query).len() ==> found_rows(v, query)[p] < found_rows(
            v,
            query,
        )[q],
    decreases v.len(),
{
    if v.len() > 0 {
        let head = v.drop_last();
        exactly_the_rows_found_are_listed(head, query, i, p, q);
        let rest = found_rows(head, query);
        let all = found_rows(v, query);
        if rest.contains(i) {
            assert(all[rest.index_of(i)] == i);
        }
        if all.contains(i) {
            let k = all.index_of(i);
            if k < rest.len() {
                assert(rest[k] == i);
            }
        }
        if i == v.len() - 1 && all.len() > rest.len() {
            assert(all[rest.len() as int] == i);
        }
        if 0 <= p < q < all.len() && q == rest.len() {
            assert(rest[p] == all[p]);
            assert(rest.contains(rest[p]));
            exactly_the_rows_found_are_listed(head, query, rest[p], p, q);
        }
    }
}

/// The selection moves by as many rows as asked for, and stops at the first and at the last.
pub proof fn the_selection_moves_and_stops(selected: int, delta: int, count: int)
    requires
        0 <= selected < count,
    ensures
        0 <= selected + delta < count ==> moved_selection(selected, delta, count) == selected
            + delta,
        selected + delta < 0 ==> moved_selection(selected, delta, count) == 0,
        selected + delta >= count ==> moved_selection(selected, delta, count) == count - 1,
        moved_selection(selected, delta, 0) == 0,
        moved_selection(count + selected, 0, count) == count - 1,
{
}

/// A row that is drawn shows the label and the keystroke of its entry, and whether it is selected.
pub proof fn a_drawn_row_shows_its_entry(row: PaletteRow, e: PaletteEntry, highlighted: bool)
    requires
        draws(row, e, highlighted),
    ensures
        row.label@ == e.label@,
        row.highlighted == highlighted,
        row.keystroke is Some <==> e.keystroke is Some,
        row.keystroke is Some ==> row.keystroke->0@ == e.keystroke->0@,
{
}

} // verus!
