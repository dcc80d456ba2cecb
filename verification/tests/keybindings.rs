use eggie_ui::command_palette::{
    command_matches, filtered_palette_entries, highlighted_row, lowered_matches,
    menu_only_commands, move_palette_selection, palette_entries, palette_input, palette_step,
    palette_view, selected_command, Command, MenuCommand, MenuLabels, PaletteAction, PaletteEntry,
    PaletteInput, PaletteView,
};
use eggie_ui::i18n::Language;
use eggie_ui::keybindings::{
    action_specs, canonical_keystroke, default_keystroke, display_key, display_key_with,
    display_keystroke, effective_keystroke, find_conflict, is_bare_modifier, rebuild_keymap,
    spec_by_id, Action, KeyOverride,
};
use eggie_ui::terminal_input::{Keystroke, Modifiers};
use std::collections::HashSet;

fn make_overrides(pairs: &[(&str, &str)]) -> Vec<KeyOverride> {
    pairs
        .iter()
        .map(|(id, keystroke)| KeyOverride {
            id: (*id).to_string(),
            keystroke: (*keystroke).to_string(),
        })
        .collect()
}

/// Reads the written form of a keystroke: modifiers and a key, joined by hyphens.
fn parse(source: &str) -> Keystroke {
    let mut modifiers = Modifiers::default();
    let (held, key) = match source.strip_suffix("--") {
        Some(held) => (held, "-"),
        None => source.rsplit_once('-').unwrap_or(("", source)),
    };
    for part in held.split('-').filter(|part| !part.is_empty()) {
        match part {
            "ctrl" => modifiers.control = true,
            "alt" => modifiers.alt = true,
            "shift" => modifiers.shift = true,
            "cmd" => modifiers.platform = true,
            "fn" => modifiers.function = true,
            other => panic!("unknown modifier {other}"),
        }
    }
    Keystroke { modifiers, key: key.to_owned(), key_char: None }
}

fn shown(stored: &str) -> String {
    display_keystroke(stored, &Some(parse(stored)))
}

#[test]
fn action_ids_are_unique() {
    let mut seen = HashSet::new();
    for spec in action_specs() {
        assert!(seen.insert(spec.id), "duplicate action id: {}", spec.id);
    }
}

#[test]
fn default_keymap_has_no_internal_conflicts() {
    let config = Vec::new();
    for spec in action_specs() {
        assert_eq!(
            find_conflict(&config, spec.default_keystroke, spec.id),
            None,
            "default keystroke {:?} for {} conflicts with another action",
            spec.default_keystroke,
            spec.id
        );
    }
}

#[test]
fn canonical_roundtrips_through_parse() {
    for source in ["cmd-c", "cmd-shift-d", "ctrl-alt-cmd-shift-k", "cmd-home"] {
        let parsed = parse(source);
        let canonical = canonical_keystroke(&parsed);
        let reparsed = parse(&canonical);
        assert_eq!(parsed.modifiers, reparsed.modifiers, "modifiers for {source}");
        assert_eq!(parsed.key, reparsed.key, "key for {source}");
    }
}

#[test]
fn canonical_uses_fixed_modifier_order() {
    let keystroke = Keystroke {
        modifiers: Modifiers {
            control: true,
            alt: true,
            shift: true,
            platform: true,
            function: false,
        },
        key: "k".to_string(),
        key_char: None,
    };
    assert_eq!(canonical_keystroke(&keystroke), "ctrl-alt-cmd-shift-k");
}

#[test]
fn canonical_matches_default_table_for_shifted_key() {
    let keystroke = Keystroke {
        modifiers: Modifiers {
            control: false,
            alt: false,
            shift: true,
            platform: true,
            function: false,
        },
        key: "d".to_string(),
        key_char: None,
    };
    assert_eq!(canonical_keystroke(&keystroke), "cmd-shift-d");
    assert_eq!(default_keystroke("split_down"), Some("cmd-shift-d"));
}

#[test]
fn display_uses_macos_symbols() {
    assert_eq!(shown("cmd-shift-t"), "⇧⌘T");
    assert_eq!(shown("cmd-home"), "⌘↖");
    assert_eq!(shown("cmd-pageup"), "⌘⇞");
    assert_eq!(shown("cmd-,"), "⌘,");
    assert_eq!(shown("cmd-shift-,"), "⇧⌘,");
    assert_eq!(shown("cmd-shift-]"), "⇧⌘]");
}

#[test]
fn bare_modifier_detection() {
    assert!(is_bare_modifier("cmd"));
    assert!(is_bare_modifier("shift"));
    assert!(is_bare_modifier("platform"));
    assert!(is_bare_modifier(""));
    assert!(!is_bare_modifier("k"));
    assert!(!is_bare_modifier("home"));
}

#[test]
fn conflict_detected_against_default() {
    let config = Vec::new();
    assert_eq!(find_conflict(&config, "cmd-c", "new_tab"), Some("terminal_copy"));
}

#[test]
fn conflict_excludes_self() {
    let config = Vec::new();
    assert_eq!(find_conflict(&config, "cmd-c", "terminal_copy"), None);
}

#[test]
fn no_conflict_for_unused_keystroke() {
    let config = Vec::new();
    assert_eq!(find_conflict(&config, "cmd-shift-y", "new_tab"), None);
}

#[test]
fn override_shadows_default_in_conflict_check() {
    let config = make_overrides(&[("terminal_copy", "cmd-shift-y")]);
    assert_eq!(find_conflict(&config, "cmd-c", "new_tab"), None);
    assert_eq!(find_conflict(&config, "cmd-shift-y", "new_tab"), Some("terminal_copy"));
}

#[test]
fn effective_keystroke_prefers_override() {
    let config = make_overrides(&[("terminal_copy", "cmd-shift-y")]);
    assert_eq!(effective_keystroke(&config, "terminal_copy"), Some("cmd-shift-y"));
    assert_eq!(effective_keystroke(&config, "new_tab"), Some("cmd-t"));
    assert_eq!(effective_keystroke(&config, "unknown"), None);
}

#[test]
fn command_matches_is_case_insensitive_substring() {
    assert!(command_matches("New Tab", "tab"));
    assert!(command_matches("New Tab", "NEW"));
    assert!(command_matches("New Tab", ""));
    assert!(!command_matches("New Tab", "split"));
}

fn menu_labels() -> MenuLabels {
    let menu = |name: &str| format!("menu {name}");
    MenuLabels {
        about: menu("About"),
        secure_keyboard_entry: menu("ToggleSecureKeyboardEntry"),
        split_left: menu("SplitLeft"),
        split_up: menu("SplitUp"),
        close_all_windows: menu("CloseAllWindows"),
        zoom_window: menu("ZoomWindow"),
        help_docs: menu("HelpDocs"),
        check_for_updates: menu("CheckForUpdates"),
    }
}

fn entries(overrides: &Vec<KeyOverride>) -> Vec<PaletteEntry> {
    let parsed = action_specs()
        .iter()
        .map(|spec| Some(parse(effective_keystroke(overrides, spec.id).unwrap())))
        .collect();
    palette_entries(overrides, Language::English, &menu_labels(), &parsed)
}

#[test]
fn palette_lists_configurable_and_menu_only_commands() {
    let entries = entries(&Vec::new());

    assert_eq!(entries.len(), action_specs().len() - 1 + menu_only_commands().len());

    let palette_label = Action::CommandPalette.label(Language::English);
    assert!(entries.iter().all(|entry| entry.label != palette_label));

    let new_tab = entries
        .iter()
        .find(|entry| entry.label == Action::NewTab.label(Language::English))
        .expect("new_tab should be present");
    assert_eq!(new_tab.keystroke.as_deref(), Some("⌘T"));

    let about = entries
        .iter()
        .find(|entry| entry.label == "menu About")
        .expect("about should be present");
    assert_eq!(about.keystroke, None);
}

#[test]
fn menu_commands_have_labels() {
    let labels: Vec<String> = menu_only_commands()
        .iter()
        .map(|command| command.label(&menu_labels(), Language::English))
        .collect();
    assert_eq!(labels[0], "menu About");
    assert_eq!(labels[6..9], ["Hide Eggie", "Hide Others", "Show All"]);
    assert_eq!(labels[10], "menu CheckForUpdates");
    let chinese = MenuCommand::ShowAll.label(&menu_labels(), Language::SimplifiedChinese);
    assert_eq!(chinese, "全部显示");
}

#[test]
fn typing_narrows_the_palette() {
    let rows = entries(&Vec::new());
    let all = filtered_palette_entries(&rows, "");
    assert_eq!(all, (0..rows.len()).collect::<Vec<_>>());
    let found = filtered_palette_entries(&rows, "NEW TAB");
    assert_eq!(found.len(), 1);
    assert_eq!(selected_command(&rows, &found, 0), Some(Command::Bound(Action::NewTab)));
    assert_eq!(filtered_palette_entries(&rows, "no such command").len(), 0);
    let about = filtered_palette_entries(&rows, "menu about");
    assert_eq!(selected_command(&rows, &about, 0), Some(Command::Menu(MenuCommand::About)));
    assert_eq!(selected_command(&rows, &Vec::new(), 0), None);
    assert!(lowered_matches("new tab", "NEW", "new"));
}

#[test]
fn the_palette_follows_its_query() {
    let rows = entries(&Vec::new());
    let found = filtered_palette_entries(&rows, "tab");
    let mut selected = 1;
    let run = palette_input(&mut selected, PaletteInput::Confirm, &rows, &found);
    assert_eq!(run, PaletteAction::Run(rows[found[1]].command));
    assert_eq!(selected, 1);
    let nothing = palette_input(&mut selected, PaletteInput::Changed, &rows, &found);
    assert_eq!((nothing, selected), (PaletteAction::Nothing, 0));
    assert_eq!(
        palette_input(&mut selected, PaletteInput::ConfirmReverse, &rows, &Vec::new()),
        PaletteAction::Nothing
    );
    assert_eq!(
        palette_input(&mut selected, PaletteInput::Cancel, &rows, &found),
        PaletteAction::Close
    );
}

#[test]
fn the_palette_selection_stays_in_the_list() {
    assert_eq!(move_palette_selection(0, -1, 5), 0);
    assert_eq!(move_palette_selection(4, 1, 5), 4);
    assert_eq!(move_palette_selection(9, -1, 5), 3);
    assert_eq!(move_palette_selection(1, 1, 5), 2);
    assert_eq!(move_palette_selection(3, 1, 0), 0);
    assert_eq!(highlighted_row(9, 4), 3);
    assert_eq!(highlighted_row(2, 4), 2);
}

#[test]
fn keys_are_shown_in_capitals() {
    assert_eq!(display_key("ß"), "SS");
    assert_eq!(display_key("t"), "T");
    assert_eq!(display_key("left"), "←");
    assert_eq!(display_key_with("x", "X"), "X");
    // What is no keystroke is shown as it is stored.
    assert_eq!(display_keystroke("nonsense", &None), "nonsense");
}

#[test]
fn actions_are_found_by_id() {
    assert_eq!(spec_by_id("new_tab").unwrap().action, Action::NewTab);
    assert!(spec_by_id("nothing").is_none());
}

#[test]
fn the_keymap_falls_back_to_defaults() {
    let count = action_specs().len();
    let overrides = make_overrides(&[("new_tab", "cmd-y"), ("close_tab", "broken")]);
    let mut binds = vec![true; count];
    let position = action_specs().iter().position(|spec| spec.id == "close_tab").unwrap();
    binds[position] = false;
    let bindings = rebuild_keymap(&overrides, &binds, &vec![true; count]);
    assert_eq!(bindings.len(), count);
    let at = |action: Action| {
        bindings.iter().find(|b| b.action == action).map(|b| b.keystroke.clone())
    };
    assert_eq!(at(Action::NewTab).as_deref(), Some("cmd-y"));
    assert_eq!(at(Action::CloseTab).as_deref(), default_keystroke("close_tab"));
    let bindings = rebuild_keymap(&overrides, &binds, &vec![false; count]);
    assert_eq!(bindings.len(), count - 1);
}

#[test]
fn the_palette_is_drawn_with_one_row_highlighted() {
    let rows = entries(&Vec::new());
    let found = filtered_palette_entries(&rows, "tab");
    assert_eq!(palette_view(None, &rows, &found), None);
    assert_eq!(palette_view(Some(0), &rows, &Vec::new()), Some(PaletteView::Empty));
    match palette_view(Some(99), &rows, &found) {
        Some(PaletteView::Rows(drawn)) => {
            assert_eq!(drawn.len(), found.len());
            let lit: Vec<usize> =
                (0..drawn.len()).filter(|index| drawn[*index].highlighted).collect();
            assert_eq!(lit, vec![found.len() - 1]);
            assert_eq!(drawn[0].label, rows[found[0]].label);
        }
        other => panic!("{other:?}"),
    }
    assert_eq!(palette_step("up"), Some(-1));
    assert_eq!(palette_step("down"), Some(1));
    assert_eq!(palette_step("a"), None);
}
