use eggie_ui::i18n::Language;
use eggie_ui::pointer::{
    cell_position, copied_text, detected_link_at, drag_after_press, finish_terminal_selection_drag,
    forget_hovered_link, link_under_pointer, protocol_mouse_button, protocol_scroll_phase,
    protocol_terminal_modifiers, reports_motion, terminal_hyperlink_at, terminal_mouse_down,
    terminal_mouse_up, update_hovered_link, update_terminal_selection_drag,
    url_has_safe_external_scheme, DragEnd, DragExtension, DragPointer, DragScroll, DragStep,
    MouseButton, MouseTracking, Press, PressAction, ReleaseAction, SelectionDrag, SelectionKind,
    SelectionStep, TerminalCell, TerminalCellPosition, TerminalLinkRange, TerminalModifiers,
    TerminalMouseButton, TerminalPoint, TerminalScrollPhase, TerminalSelectionSide, TouchPhase,
};
use eggie_ui::search::{
    needs_newer_snapshot, open_terminal_search, search_action, search_after_activation,
    search_bar_view, take_search_reply, terminal_search_matches, SearchAction, SearchBar,
    SearchDirection, SearchInput, SearchReply, SearchResult,
};
use eggie_ui::tabs::should_show_content_drop_target;
use eggie_ui::terminal_input::{
    clear_terminal_marked_text, commit_terminal_text, committed_text,
    is_character_palette_shortcut, key_down_action, key_up_action, kitty_key_bytes, marked_text,
    set_terminal_marked_text, terminal_bytes, terminal_bytes_with_mode, terminal_key_char_bytes, terminal_text_bytes,
    KeyAction, KeyDownEvent, Keystroke, Modifiers, TerminalImeState,
    KITTY_DISAMBIGUATE_ESCAPE_CODES, KITTY_REPORT_ALL_KEYS, KITTY_REPORT_ASSOCIATED_TEXT,
    KITTY_REPORT_EVENT_TYPES,
};
use eggie_ui::terminals::{
    cursor_should_blink, cursor_visible_this_frame, progress_color, progress_label, BellFlashes,
    CursorBlink, FocusPlan, FocusState, ProgressBoard, Resizes, TerminalProgress,
    TerminalProgressState, TerminalProgressUpdate, TerminalSize, Ticker, BELL_FLASH_MS,
};
use std::collections::HashMap;

fn plain() -> Modifiers {
    Modifiers { control: false, alt: false, shift: false, platform: false, function: false }
}

fn key_event(key: &str, key_char: Option<&str>, modifiers: Modifiers) -> KeyDownEvent {
    KeyDownEvent {
        keystroke: Keystroke {
            modifiers,
            key: key.to_owned(),
            key_char: key_char.map(str::to_owned),
        },
        is_held: false,
        prefer_character_input: false,
    }
}

#[test]
fn terminal_input_preserves_non_bmp_utf8_text() {
    let text = "你好🙂👩🏽‍💻";
    assert_eq!(terminal_text_bytes(text), text.as_bytes());
    assert_eq!(
        terminal_bytes(&key_event("🙂", Some("🙂"), plain())),
        Some("🙂".as_bytes().to_vec())
    );
}

#[test]
fn terminal_input_does_not_forward_appkit_reserved_characters() {
    for character in ['\u{f700}', '\u{f8ff}', '\u{fdd0}', '\u{fffe}', '\u{ffff}'] {
        let text = character.to_string();
        assert_eq!(
            terminal_bytes(&key_event(&text, Some(&text), plain())),
            None,
            "reserved key character U+{:04X} must stay in AppKit",
            character as u32
        );
    }

    assert_eq!(
        terminal_bytes(&key_event("e", Some("e"), Modifiers { function: true, ..plain() })),
        None
    );
}

#[test]
fn terminal_input_keeps_known_navigation_keys_with_function_modifier() {
    assert_eq!(
        terminal_bytes(&key_event("up", None, Modifiers { function: true, ..plain() })),
        Some(b"\x1b[A".to_vec())
    );
}

#[test]
fn kitty_keyboard_mode_reports_press_repeat_release_and_associated_text() {
    let flags = KITTY_DISAMBIGUATE_ESCAPE_CODES
        | KITTY_REPORT_EVENT_TYPES
        | KITTY_REPORT_ALL_KEYS
        | KITTY_REPORT_ASSOCIATED_TEXT;
    let control_c = key_event("c", Some("c"), Modifiers { control: true, ..plain() });
    assert_eq!(
        terminal_bytes_with_mode(&control_c, flags),
        Some(b"\x1b[99;5:1u".to_vec())
    );
    assert_eq!(
        kitty_key_bytes(&control_c.keystroke, flags, 2),
        Some(b"\x1b[99;5:2u".to_vec())
    );
    assert_eq!(
        kitty_key_bytes(&control_c.keystroke, flags, 3),
        Some(b"\x1b[99;5:3u".to_vec())
    );
    assert_eq!(
        terminal_bytes_with_mode(&key_event("up", None, plain()), flags),
        Some(b"\x1b[1;1:1A".to_vec())
    );
    assert_eq!(
        terminal_bytes_with_mode(
            &key_event("up", None, Modifiers { function: true, ..plain() }),
            flags,
        ),
        Some(b"\x1b[1;1:1A".to_vec())
    );
}

#[test]
fn macos_character_palette_shortcut_is_recognized() {
    assert!(is_character_palette_shortcut(&key_event(
        "space",
        Some(" "),
        Modifiers { control: true, platform: true, ..plain() },
    )));
    assert!(!is_character_palette_shortcut(&key_event(
        "space",
        Some(" "),
        Modifiers { control: true, ..plain() },
    )));
}

#[test]
fn terminal_pointer_protocol_conversion_preserves_buttons_modifiers_and_subpixels() {
    assert_eq!(protocol_mouse_button(MouseButton::Left), Some(TerminalMouseButton::Left));
    assert_eq!(protocol_mouse_button(MouseButton::Middle), Some(TerminalMouseButton::Middle));
    assert_eq!(protocol_mouse_button(MouseButton::Right), Some(TerminalMouseButton::Right));
    assert_eq!(protocol_mouse_button(MouseButton::Navigate), None);
    assert_eq!(
        protocol_terminal_modifiers(Modifiers {
            control: true,
            alt: true,
            shift: true,
            platform: true,
            function: true,
        }),
        TerminalModifiers { control: true, alt: true, shift: true }
    );
}

#[test]
fn a_sole_tab_dragged_over_its_own_content_has_no_drop_target() {
    let group_id = 7;

    assert!(!should_show_content_drop_target(group_id, group_id, 1));
    assert!(should_show_content_drop_target(group_id, group_id, 2));
    assert!(should_show_content_drop_target(group_id, 8, 1));
}

#[test]
fn progress_labels_include_status_percent_and_recency() {
    let now: u64 = 1_700_000_000_000;
    let label = progress_label(
        TerminalProgress {
            state: TerminalProgressState::Paused,
            percent: Some(73),
            updated_at_unix_ms: now.saturating_sub(3_000),
        },
        Language::English,
        now,
    );
    assert_eq!(label, "Paused · 73% · updated 3s ago");

    let completed = progress_label(
        TerminalProgress {
            state: TerminalProgressState::Normal,
            percent: Some(100),
            updated_at_unix_ms: now,
        },
        Language::English,
        now,
    );
    assert!(completed.starts_with("Complete · 100% · updated"));
}

#[test]
fn progress_labels_of_other_states() {
    let at = |state, percent, age: u64| {
        progress_label(
            TerminalProgress { state, percent, updated_at_unix_ms: 0 },
            Language::English,
            age,
        )
    };
    assert_eq!(
        at(TerminalProgressState::Indeterminate, None, 120_000),
        "Indeterminate · updated 2m ago"
    );
    assert_eq!(at(TerminalProgressState::Error, Some(5), 7_200_000), "Error · 5% · updated 2h ago");
}

#[test]
fn keys_have_their_sequences() {
    let at = |key: &str, ch: Option<&str>, m: Modifiers| terminal_bytes(&key_event(key, ch, m));
    assert_eq!(at("enter", None, plain()), Some(b"\r".to_vec()));
    assert_eq!(at("backspace", None, plain()), Some(vec![0x7f]));
    assert_eq!(at("escape", None, plain()), Some(vec![0x1b]));
    assert_eq!(at("left", None, plain()), Some(b"\x1b[D".to_vec()));
    assert_eq!(at("c", Some("c"), Modifiers { control: true, ..plain() }), Some(vec![3]));
    // Alt puts an escape before the text.
    assert_eq!(at("b", Some("b"), Modifiers { alt: true, ..plain() }), Some(b"\x1bb".to_vec()));
    // A chord with the platform key stays with the system.
    assert_eq!(at("c", Some("c"), Modifiers { platform: true, ..plain() }), None);
}

#[test]
fn typed_text_with_a_key_character_is_refused() {
    assert_eq!(terminal_key_char_bytes("ab"), Some(b"ab".to_vec()));
    assert_eq!(terminal_key_char_bytes("a\u{f700}"), None);
    assert_eq!(terminal_key_char_bytes(""), None);
    assert_eq!(terminal_text_bytes("a\u{f700}"), "a\u{f700}".as_bytes());
}

#[test]
fn key_events_are_routed() {
    let palette = key_event("space", None, Modifiers { control: true, platform: true, ..plain() });
    assert!(matches!(key_down_action(&palette, false, true, 0), KeyAction::ShowCharacterPalette));
    let enter = key_event("enter", None, plain());
    assert!(matches!(key_down_action(&enter, true, true, 0), KeyAction::Nothing));
    assert!(matches!(key_down_action(&enter, false, false, 0), KeyAction::Nothing));
    match key_down_action(&enter, false, true, 0) {
        KeyAction::Send { bytes, clear_selection } => {
            assert_eq!(bytes, b"\r".to_vec());
            assert!(clear_selection);
        }
        other => panic!("{other:?}"),
    }
    // A release types nothing where releases are not reported.
    assert!(matches!(key_up_action(&enter.keystroke, false, true, 0), KeyAction::Nothing));
}

#[test]
fn marked_text_selects_its_end() {
    assert_eq!(marked_text("", None), None);
    assert_eq!(
        marked_text("a🙂", None),
        Some(TerminalImeState { text: "a🙂".to_owned(), start: 3, end: 3 })
    );
    assert_eq!(
        marked_text("abc", Some((1, 2))),
        Some(TerminalImeState { text: "abc".to_owned(), start: 1, end: 2 })
    );
}

fn link(line: u16, from: u16, to: u16, url: &str) -> TerminalLinkRange {
    TerminalLinkRange {
        start: TerminalCellPosition { line, column: from },
        end: TerminalCellPosition { line, column: to },
        url: url.to_owned(),
    }
}

#[test]
fn links_are_found_under_the_pointer() {
    let cells = vec![
        TerminalCell { line: 0, column: 1, hyperlink: Some("https://cell".to_owned()) },
        TerminalCell { line: 0, column: 2, hyperlink: None },
    ];
    let links = vec![link(0, 2, 4, "https://range")];
    let at = |line, column| TerminalPoint { line, column };
    assert_eq!(terminal_hyperlink_at(&cells, at(0, 1)).as_deref(), Some("https://cell"));
    assert_eq!(terminal_hyperlink_at(&cells, at(0, 2)), None);
    assert!(detected_link_at(&links, at(0, 1)).is_none());
    assert_eq!(detected_link_at(&links, at(0, 3)).unwrap().url, "https://range");
    assert_eq!(link_under_pointer(&cells, &links, at(0, 1)).as_deref(), Some("https://cell"));
    assert_eq!(link_under_pointer(&cells, &links, at(0, 2)).as_deref(), Some("https://range"));
    assert_eq!(link_under_pointer(&cells, &links, at(3, 0)), None);
    assert_eq!(cell_position(at(3, 9)), TerminalCellPosition { line: 3, column: 9 });
}

#[test]
fn only_some_schemes_open_at_once() {
    assert!(url_has_safe_external_scheme("https://example.org"));
    assert!(url_has_safe_external_scheme("http://example.org"));
    assert!(!url_has_safe_external_scheme("file:///etc/hosts"));
    assert!(!url_has_safe_external_scheme(""));
}

fn press(button: MouseButton, modifiers: Modifiers, clicks: usize, captures: Option<bool>) -> Press {
    Press { button, modifiers, click_count: clicks, captures }
}

#[test]
fn presses_are_routed() {
    let english = Language::English;
    let command = Modifiers { platform: true, ..plain() };
    match terminal_mouse_down(
        &press(MouseButton::Left, command, 1, Some(false)),
        Some("https://a".to_owned()),
        english,
    ) {
        PressAction::OpenLink { url } => assert_eq!(url, "https://a"),
        other => panic!("{other:?}"),
    }
    match terminal_mouse_down(
        &press(MouseButton::Left, command, 1, Some(false)),
        Some("file:///a".to_owned()),
        english,
    ) {
        PressAction::ConfirmLink { url, .. } => assert_eq!(url, "file:///a"),
        other => panic!("{other:?}"),
    }
    assert!(matches!(
        terminal_mouse_down(&press(MouseButton::Navigate, plain(), 1, Some(false)), None, english),
        PressAction::Ignore
    ));
    assert!(matches!(
        terminal_mouse_down(&press(MouseButton::Left, plain(), 2, Some(false)), None, english),
        PressAction::ReportAndSelect {
            step: SelectionStep::Start(SelectionKind::Semantic),
            keep: true
        }
    ));
    assert!(matches!(
        terminal_mouse_down(&press(MouseButton::Left, plain(), 3, Some(false)), None, english),
        PressAction::ReportAndSelect { step: SelectionStep::Start(SelectionKind::Lines), .. }
    ));
    assert!(matches!(
        terminal_mouse_down(&press(MouseButton::Left, plain(), 1, Some(true)), None, english),
        PressAction::ReportCaptured { button: TerminalMouseButton::Left }
    ));
}

#[test]
fn releases_and_motion_are_routed() {
    assert_eq!(
        terminal_mouse_up(true, MouseButton::Left, false, None),
        ReleaseAction::EndLink
    );
    assert_eq!(
        terminal_mouse_up(false, MouseButton::Navigate, false, Some(true)),
        ReleaseAction::Ignore
    );
    assert!(matches!(
        terminal_mouse_up(false, MouseButton::Right, false, Some(true)),
        ReleaseAction::Report { button: TerminalMouseButton::Right, .. }
    ));
    let left = Some(TerminalMouseButton::Left);
    assert!(!reports_motion(MouseTracking::Disabled, left, false));
    assert!(!reports_motion(MouseTracking::Click, left, false));
    assert!(reports_motion(MouseTracking::Drag, left, false));
    assert!(!reports_motion(MouseTracking::Drag, None, false));
    assert!(reports_motion(MouseTracking::Motion, None, false));
    assert!(reports_motion(MouseTracking::Motion, None, true));
    // A button with shift selects instead.
    assert!(!reports_motion(MouseTracking::Motion, left, true));
}

#[test]
fn a_drag_ends_in_a_copy_or_nothing() {
    let drag = SelectionDrag { group_id: 1, session_id: 2, dragged: true };
    assert_eq!(finish_terminal_selection_drag(None, true), DragEnd::Nothing);
    assert_eq!(
        finish_terminal_selection_drag(Some(drag), true),
        DragEnd::Copy { session_id: 2 }
    );
    assert_eq!(finish_terminal_selection_drag(Some(drag), false), DragEnd::Nothing);
    assert_eq!(
        finish_terminal_selection_drag(Some(SelectionDrag { dragged: false, ..drag }), true),
        DragEnd::Clear { session_id: 2 }
    );
    assert_eq!(copied_text(None), None);
    assert_eq!(copied_text(Some(String::new())), None);
    assert_eq!(copied_text(Some("x".to_owned())).as_deref(), Some("x"));
}

#[test]
fn the_hovered_link_follows_the_pointer() {
    let links = vec![link(0, 2, 4, "https://range")];
    let mut hovered = None;
    assert!(update_hovered_link(&mut hovered, 1, &links, TerminalPoint { line: 0, column: 3 }));
    assert_eq!(hovered.as_ref().unwrap().session_id, 1);
    assert!(!update_hovered_link(&mut hovered, 1, &links, TerminalPoint { line: 0, column: 4 }));
    assert!(update_hovered_link(&mut hovered, 1, &links, TerminalPoint { line: 1, column: 4 }));
    assert!(hovered.is_none());
    update_hovered_link(&mut hovered, 1, &links, TerminalPoint { line: 0, column: 3 });
    forget_hovered_link(&mut hovered, 2);
    assert!(hovered.is_some());
    forget_hovered_link(&mut hovered, 1);
    assert!(hovered.is_none());
}

#[test]
fn focus_reports_follow_the_active_session() {
    let mut focus = FocusState { has_focus: true, focused: None };
    let plan = focus.plan(Some(1));
    assert_eq!(plan, FocusPlan { leave: None, enter: Some(1) });
    // A report that failed is tried again.
    focus.apply(plan, false);
    assert_eq!(focus.plan(Some(1)).enter, Some(1));
    focus.apply(plan, true);
    assert_eq!(focus.plan(Some(1)), FocusPlan { leave: None, enter: None });
    assert_eq!(focus.plan(Some(2)), FocusPlan { leave: Some(1), enter: Some(2) });
    focus.has_focus = false;
    assert_eq!(focus.plan(Some(1)), FocusPlan { leave: Some(1), enter: None });
    focus.forget(1);
    assert_eq!(focus.focused, None);
}

fn cells(columns: u16) -> TerminalSize {
    TerminalSize { columns, rows: 24, cell_width: 8, cell_height: 18 }
}

#[test]
fn only_the_last_size_is_asked_for() {
    let mut sizes = Resizes::new();
    assert_eq!(sizes.resize_terminal(1, cells(80)), Some(cells(80)));
    // One request is on its way: the next ones wait.
    assert_eq!(sizes.resize_terminal(1, cells(81)), None);
    assert_eq!(sizes.resize_terminal(1, cells(82)), None);
    assert_eq!(sizes.finish_terminal_resize(1, cells(80), true), Some(cells(82)));
    assert_eq!(sizes.finish_terminal_resize(1, cells(82), true), None);
    assert_eq!(sizes.resize_terminal(1, cells(82)), None);
    // A size that could not be set is asked for again.
    assert_eq!(sizes.resize_terminal(1, cells(90)), Some(cells(90)));
    assert_eq!(sizes.finish_terminal_resize(1, cells(90), false), None);
    assert_eq!(sizes.resize_terminal(1, cells(90)), Some(cells(90)));
    sizes.forget(1);
    assert_eq!(sizes.resize_terminal(1, cells(90)), Some(cells(90)));
}

fn progress(session_id: u128, revision: u64, percent: Option<u8>) -> TerminalProgressUpdate {
    TerminalProgressUpdate {
        session_id,
        revision,
        progress: percent.map(|p| TerminalProgress {
            state: TerminalProgressState::Indeterminate,
            percent: Some(p),
            updated_at_unix_ms: 0,
        }),
    }
}

#[test]
fn progress_is_shown_once_a_frame() {
    let mut board = ProgressBoard::new();
    assert!(board.accept(progress(1, 2, Some(10))));
    assert!(!board.accept(progress(1, 3, Some(20))));
    assert!(!board.has_indeterminate());
    board.frame();
    assert!(board.has_indeterminate());
    assert_eq!(board.shown.get(&1).unwrap().revision, 3);
    // An older revision changes nothing.
    board.accept(progress(1, 1, None));
    board.frame();
    assert_eq!(board.shown.get(&1).unwrap().revision, 3);
    board.retain(&vec![2]);
    assert!(board.shown.get(&1).is_none());
}

#[test]
fn progress_has_the_color_of_its_state() {
    let mut palette = [0u32; 16];
    for (index, color) in palette.iter_mut().enumerate() {
        *color = index as u32;
    }
    assert_eq!(progress_color(TerminalProgressState::Normal, &palette, 99), 99);
    assert_eq!(progress_color(TerminalProgressState::Error, &palette, 99), 1);
    assert_eq!(progress_color(TerminalProgressState::Paused, &palette, 99), 3);
    assert_eq!(progress_color(TerminalProgressState::Indeterminate, &palette, 99), 99);
}

#[test]
fn a_flash_ends_by_itself() {
    let mut flashes = BellFlashes::new();
    assert!(flashes.ring(1, 1000));
    assert!(!flashes.ring(2, 1001));
    assert!(flashes.step(1000 + BELL_FLASH_MS - 1));
    assert!(flashes.started.get(&1).is_some());
    assert!(!flashes.step(1001 + BELL_FLASH_MS));
    assert!(flashes.started.get(&1).is_none());
    assert!(flashes.ring(1, 5000));
}

#[test]
fn the_cursor_blinks_in_halves() {
    assert!(cursor_should_blink(CursorBlink::On, false, false));
    assert!(!cursor_should_blink(CursorBlink::Off, false, true));
    assert!(cursor_should_blink(CursorBlink::Program, false, true));
    assert!(!cursor_should_blink(CursorBlink::On, true, true));
    assert!(cursor_visible_this_frame(false, 12_345));
    assert!(cursor_visible_this_frame(true, 0));
    assert!(!cursor_visible_this_frame(true, 600));
}

#[test]
fn a_search_goes_through_its_steps() {
    let bar = open_terminal_search(None, Some(4)).unwrap();
    assert_eq!(bar, SearchBar { session_id: 4, regex: false, result: None });
    assert_eq!(open_terminal_search(None, None), None);
    assert_eq!(search_after_activation(Some(bar), Some(4)), Some(bar));
    assert_eq!(search_after_activation(Some(bar), Some(5)), None);

    let mut bar = bar;
    assert_eq!(search_action(&mut bar, SearchInput::Cancel, false), SearchAction::Close);
    assert_eq!(
        search_action(&mut bar, SearchInput::Confirm, false),
        SearchAction::Search { direction: SearchDirection::Forward, fresh: false }
    );
    assert_eq!(
        search_action(&mut bar, SearchInput::ConfirmReverse, false),
        SearchAction::Search { direction: SearchDirection::Backward, fresh: false }
    );
    assert_eq!(
        search_action(&mut bar, SearchInput::ToggleRegex, false),
        SearchAction::Search { direction: SearchDirection::Forward, fresh: true }
    );
    assert!(bar.regex);

    bar.result = Some(SearchResult { index: 1, total: 3, revision: 9 });
    assert_eq!(terminal_search_matches(Some(bar), 4), bar.result);
    assert_eq!(terminal_search_matches(Some(bar), 5), None);
    assert!(needs_newer_snapshot(Some(8), bar.result.unwrap()));
    assert!(!needs_newer_snapshot(Some(9), bar.result.unwrap()));
    let shown = search_bar_view(&bar, false, Language::English);
    assert_eq!(shown.counter, "2/3");
    assert_eq!(shown.placeholder, "Find");
    assert!(!shown.no_matches);
    assert!(shown.regex);
}

#[test]
fn a_search_result_reaches_the_bar() {
    let found = SearchResult { index: 0, total: 1, revision: 9 };
    let mut bar = open_terminal_search(None, Some(4));
    let next = take_search_reply(&mut bar, Some(8), SearchReply::Found(found));
    assert!(next.fetch_snapshot && next.redraw && next.error.is_none());
    assert_eq!(bar.unwrap().result, Some(found));
    let next = take_search_reply(&mut bar, Some(8), SearchReply::Failed("gone".to_owned()));
    assert_eq!(next.error.as_deref(), Some("terminal search failed: gone"));
    assert!(!next.redraw);
    assert_eq!(bar.unwrap().result, Some(found));
    assert!(!take_search_reply(&mut bar, None, SearchReply::Other).redraw);
    let mut closed = None;
    take_search_reply(&mut closed, None, SearchReply::Found(found));
    assert_eq!(closed, None);
}

#[test]
fn a_move_drags_the_selection() {
    let held = SelectionDrag { group_id: 1, session_id: 2, dragged: false };
    let nothing = DragStep { scroll: None, extend: None };
    let at = |lines, point| {
        Some(DragPointer { lines, point, side: TerminalSelectionSide::Right })
    };
    let cell = TerminalPoint { line: 3, column: 4 };
    let mut none = None;
    assert_eq!(update_terminal_selection_drag(&mut none, true, at(0, Some(cell)), plain()), nothing);
    assert_eq!(none, None);
    let mut drag = Some(held);
    assert_eq!(update_terminal_selection_drag(&mut drag, false, at(0, Some(cell)), plain()), nothing);
    assert_eq!(update_terminal_selection_drag(&mut drag, true, None, plain()), nothing);
    // Without cells the terminal scrolls, and the drag has not moved.
    let scrolled = update_terminal_selection_drag(
        &mut drag,
        true,
        at(2, None),
        Modifiers { shift: true, ..plain() },
    );
    assert_eq!(
        scrolled,
        DragStep {
            scroll: Some(DragScroll {
                session_id: 2,
                delta: 2048,
                point: TerminalPoint { line: 0, column: 0 },
                modifiers: TerminalModifiers { shift: true, alt: false, control: false },
            }),
            extend: None,
        }
    );
    assert_eq!(drag, Some(held));
    let moved = update_terminal_selection_drag(&mut drag, true, at(-1, Some(cell)), plain());
    assert_eq!(moved.scroll.unwrap().delta, -1024);
    assert_eq!(moved.scroll.unwrap().point, cell);
    assert_eq!(
        moved.extend,
        Some(DragExtension {
            session_id: 2,
            position: TerminalCellPosition { line: 3, column: 4 },
            side: TerminalSelectionSide::Right,
        })
    );
    assert_eq!(drag, Some(SelectionDrag { dragged: true, ..held }));
    let far = update_terminal_selection_drag(&mut drag, true, at(i32::MAX, None), plain());
    assert_eq!(far.scroll.unwrap().delta, i32::MAX);
    let far = update_terminal_selection_drag(&mut drag, true, at(i32::MIN, None), plain());
    assert_eq!(far.scroll.unwrap().delta, i32::MIN);
}

#[test]
fn an_animation_runs_while_something_moves() {
    let mut ticker = Ticker { running: false };
    assert!(!ticker.ensure(false));
    assert!(ticker.ensure(true));
    assert!(!ticker.ensure(true));
    assert!(!ticker.ensure(false) && ticker.running);
    assert!(ticker.step(true) && ticker.running);
    assert!(!ticker.step(false) && !ticker.running);
    assert!(ticker.ensure(true));
}

#[test]
fn a_press_begins_or_ends_a_drag() {
    let held = Some(SelectionDrag { group_id: 9, session_id: 9, dragged: true });
    let after = |action: PressAction| drag_after_press(held, &action, 1, 2);
    assert_eq!(after(PressAction::Ignore), held);
    let button = TerminalMouseButton::Right;
    assert_eq!(after(PressAction::Report { button, consumed: true }), held);
    assert_eq!(after(PressAction::ReportCaptured { button }), None);
    assert_eq!(after(PressAction::OpenLink { url: "https://a".to_owned() }), None);
    let step = SelectionStep::Start(SelectionKind::Simple);
    assert_eq!(
        after(PressAction::ReportAndSelect { step, keep: false }),
        Some(SelectionDrag { group_id: 1, session_id: 2, dragged: false })
    );
}

#[test]
fn compositions_are_kept_by_session() {
    let mut compositions = HashMap::new();
    set_terminal_marked_text(&mut compositions, 1, "ni", None);
    set_terminal_marked_text(&mut compositions, 2, "hao", Some((1, 9)));
    assert_eq!(
        compositions.get(&2),
        Some(&TerminalImeState { text: "hao".to_owned(), start: 1, end: 3 })
    );
    assert_eq!(
        commit_terminal_text(&mut compositions, 2, "好"),
        Some("好".as_bytes().to_vec())
    );
    assert!(compositions.get(&2).is_none());
    assert!(compositions.get(&1).is_some());
    assert!(clear_terminal_marked_text(&mut compositions, 1));
    assert!(!clear_terminal_marked_text(&mut compositions, 1));
    set_terminal_marked_text(&mut compositions, 1, "n", None);
    set_terminal_marked_text(&mut compositions, 1, "", None);
    assert!(compositions.is_empty());
    assert_eq!(commit_terminal_text(&mut compositions, 1, ""), None);
}

#[test]
fn composed_text_is_typed() {
    assert_eq!(committed_text(""), None);
    assert_eq!(committed_text("你"), Some("你".as_bytes().to_vec()));
}

#[test]
fn a_cancelled_touch_has_ended() {
    assert_eq!(protocol_scroll_phase(TouchPhase::Started), TerminalScrollPhase::Started);
    assert_eq!(protocol_scroll_phase(TouchPhase::Cancelled), TerminalScrollPhase::Ended);
}
