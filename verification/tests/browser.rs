use eggie_ui::preview::{preview, Item, Tok};
use eggie_ui::themes::{TerminalTheme, ThemeCatalog};
use eggie_ui::tui::{
    hit_test, key_to_action, palette_color, palette_label, rgb, scroll_window, Action, App, Area,
    Event, Filter, KeyCode, KeyEvent, MouseKind, Rgb, RowMark, UiPalette, LIST_WIDTH, PAGE,
};

fn theme(name: &str, dark: bool) -> TerminalTheme {
    let mut palette = [0u32; 16];
    for (i, color) in palette.iter_mut().enumerate() {
        *color = 0x0a_0000 + i as u32;
    }
    TerminalTheme {
        name: name.to_owned(),
        palette,
        foreground: 0xc0ffee,
        background: 0x101010,
        dark,
    }
}

fn catalog() -> ThemeCatalog {
    ThemeCatalog {
        themes: vec![
            theme("Builtin Dark", true),
            theme("Builtin Light", false),
            theme("Night", true),
            theme("Paper", false),
        ],
    }
}

fn names() -> Vec<String> {
    ["Builtin Dark", "Builtin Light", "Night", "Paper"].iter().map(|n| n.to_string()).collect()
}

#[test]
fn rgb_uses_tuple_variant() {
    assert_eq!(rgb(0x0a141e), Rgb { r: 0x0a, g: 0x14, b: 0x1e });
}

#[test]
fn palette_color_maps_indices() {
    let catalog = catalog();
    let theme = catalog.theme_by_name("Builtin Dark").expect("the theme is there");
    assert_eq!(palette_color(theme, 2), theme.palette[2]);
    assert_eq!(palette_color(theme, 10), theme.palette[10]);
    assert_eq!(palette_color(theme, 12), theme.palette[12]);
    assert_eq!(palette_color(theme, 238), 0x44_4444);
    assert_eq!(palette_color(theme, 200), theme.foreground);
}

#[test]
fn palette_label_dec_and_hex() {
    assert_eq!(palette_label(3, false), "  3");
    assert_eq!(palette_label(3, true), " 03");
    assert_eq!(palette_label(15, true), " 0f");
}

#[test]
fn palette_labels_of_any_size() {
    for index in [0usize, 9, 10, 99, 100, 1000, 255, 256, 65535, 65536, usize::MAX] {
        assert_eq!(palette_label(index, false), format!("{index:3}"));
        assert_eq!(palette_label(index, true), format!(" {index:02x}"));
    }
}

#[test]
fn scroll_window_keeps_current_visible() {
    assert_eq!(scroll_window(0, 5, 10, 100), 0);
    assert_eq!(scroll_window(0, 12, 10, 100), 3);
    assert_eq!(scroll_window(5, 2, 10, 100), 2);
    assert_eq!(scroll_window(3, 0, 10, 0), 0);
}

#[test]
fn scroll_window_at_its_limits() {
    assert_eq!(scroll_window(7, 3, 0, 10), 0);
    assert_eq!(scroll_window(50, 60, 20, 10), 9);
    assert_eq!(scroll_window(usize::MAX, usize::MAX, usize::MAX, usize::MAX), usize::MAX - 1);
    for current in 0..30 {
        let window = scroll_window(11, current, 7, 30);
        assert!(window <= current && current < window + 7);
    }
}

#[test]
fn hit_test_maps_row_to_index() {
    let area = Area { x: 0, y: 0, width: 32, height: 10 };
    assert_eq!(hit_test(area, 5, 100, 10, 3), Some(8));
    assert_eq!(hit_test(area, 0, 100, 40, 3), None);
    assert_eq!(hit_test(area, 0, 2, 10, 5), None);
}

#[test]
fn hit_test_keeps_to_the_area() {
    let area = Area { x: 4, y: 2, width: 3, height: 2 };
    assert_eq!(hit_test(area, 0, 9, 4, 2), Some(0));
    assert_eq!(hit_test(area, 0, 9, 6, 3), Some(1));
    assert_eq!(hit_test(area, 0, 9, 7, 3), None);
    assert_eq!(hit_test(area, 0, 9, 6, 4), None);
    assert_eq!(hit_test(area, 0, 9, 3, 2), None);
    assert_eq!(hit_test(area, usize::MAX, usize::MAX, 4, 3), None);
}

#[test]
fn filter_cycles_all_dark_light() {
    assert_eq!(Filter::All.next(), Filter::Dark);
    assert_eq!(Filter::Dark.next(), Filter::Light);
    assert_eq!(Filter::Light.next(), Filter::All);
}

#[test]
fn key_to_action_maps_navigation() {
    let k = |code| KeyEvent { code, control: false };
    assert_eq!(key_to_action(k(KeyCode::Char('q'))), Action::Quit);
    assert_eq!(key_to_action(k(KeyCode::Esc)), Action::Quit);
    assert_eq!(key_to_action(k(KeyCode::Char('j'))), Action::Down(1));
    assert_eq!(key_to_action(k(KeyCode::Char('k'))), Action::Up(1));
    assert_eq!(key_to_action(k(KeyCode::PageDown)), Action::Down(PAGE));
    assert_eq!(key_to_action(k(KeyCode::Char('g'))), Action::Home);
    assert_eq!(key_to_action(k(KeyCode::Char('G'))), Action::End);
    assert_eq!(key_to_action(k(KeyCode::Char('x'))), Action::Hex(true));
    assert_eq!(key_to_action(k(KeyCode::Char('d'))), Action::Hex(false));
    assert_eq!(key_to_action(k(KeyCode::Char('f'))), Action::CycleFilter);
    assert_eq!(
        key_to_action(KeyEvent { code: KeyCode::Char('c'), control: true }),
        Action::Quit
    );
}

#[test]
fn other_keys_do_nothing() {
    let k = |code| KeyEvent { code, control: false };
    assert_eq!(key_to_action(k(KeyCode::Char('c'))), Action::Nothing);
    assert_eq!(key_to_action(k(KeyCode::Other)), Action::Nothing);
    assert_eq!(key_to_action(KeyEvent { code: KeyCode::Up, control: true }), Action::Up(1));
}

#[test]
fn filter_recompute_partitions_by_darkness() {
    let catalog = catalog();
    let names: Vec<String> =
        catalog.dark_names().into_iter().chain(catalog.light_names()).collect();
    let mut sorted = names.clone();
    sorted.sort_by_key(|n| n.to_ascii_lowercase());
    sorted.dedup();
    let mut app = App::new(sorted.clone(), true, &catalog);
    app.filter = Filter::Dark;
    app.recompute_filtered(&catalog);
    for &i in &app.filtered {
        let theme = catalog.theme_by_name(&sorted[i]).unwrap();
        assert!(theme.is_dark());
    }
    assert_eq!(app.filtered, [0, 2]);
}

#[test]
fn ui_palette_differs_by_mode() {
    let dark = UiPalette::new(true);
    let light = UiPalette::new(false);
    assert_eq!(dark.bg, Rgb { r: 0, g: 0, b: 0 });
    assert_eq!(light.bg, Rgb { r: 0xff, g: 0xff, b: 0xff });
    assert_eq!(dark.sel_fg, light.sel_fg);
    assert_eq!(light.hover_bg, Rgb { r: 0xbb, g: 0xbb, b: 0xbb });
}

#[test]
fn the_browser_moves_and_filters() {
    let catalog = catalog();
    let mut app = App::new(names(), false, &catalog);
    assert_eq!((app.filtered.len(), app.current, app.ui), (4, 0, UiPalette::new(false)));
    app.apply(Action::Down(2), &catalog);
    assert_eq!(app.current, 2);
    app.apply(Action::Down(usize::MAX), &catalog);
    assert_eq!(app.current, 3);
    app.apply(Action::Up(1), &catalog);
    app.apply(Action::CycleFilter, &catalog);
    assert_eq!((app.filter, app.filtered.clone(), app.current), (Filter::Dark, vec![0, 2], 1));
    assert_eq!(app.selected_theme(&catalog).unwrap().name, "Night");
    app.apply(Action::Home, &catalog);
    app.apply(Action::CycleFilter, &catalog);
    assert_eq!((app.filter, app.filtered.clone()), (Filter::Light, vec![1, 3]));
    app.apply(Action::End, &catalog);
    assert_eq!(app.current, 1);
    app.apply(Action::CycleFilter, &catalog);
    assert_eq!(app.filter, Filter::All);
    app.apply(Action::Hex(true), &catalog);
    assert!(app.hex);
    app.apply(Action::Nothing, &catalog);
    app.apply(Action::Up(9), &catalog);
    assert_eq!(app.current, 0);
    app.apply(Action::Quit, &catalog);
    assert!(app.should_quit);
}

#[test]
fn the_browser_follows_the_mouse() {
    let catalog = catalog();
    let mut app = App::new(names(), true, &catalog);
    let preview = app.lay_out(Area { x: 0, y: 0, width: 100, height: 30 });
    assert_eq!(preview, Some(Area { x: LIST_WIDTH, y: 0, width: 68, height: 30 }));
    assert_eq!(app.list_area, Area { x: 0, y: 0, width: 32, height: 30 });
    let at = |kind, row| Event::Mouse { kind, column: 5, row };
    app.handle_event(at(MouseKind::Moved, 2), &catalog);
    assert_eq!((app.hover, app.current), (Some(2), 0));
    assert_eq!(app.list_row(0), Some((0, RowMark::Selected)));
    assert_eq!(app.list_row(1), Some((1, RowMark::Plain)));
    assert_eq!(app.list_row(2), Some((2, RowMark::Hovered)));
    assert_eq!(app.list_row(4), None);
    app.handle_event(at(MouseKind::LeftUp, 2), &catalog);
    assert_eq!((app.hover, app.current), (Some(2), 2));
    assert_eq!(app.list_row(2), Some((2, RowMark::Selected)));
    app.handle_event(at(MouseKind::LeftUp, 20), &catalog);
    assert_eq!(app.current, 2);
    app.handle_event(at(MouseKind::ScrollDown, 2), &catalog);
    assert_eq!((app.hover, app.current), (None, 3));
    app.handle_event(at(MouseKind::ScrollUp, 2), &catalog);
    assert_eq!(app.current, 2);
    app.handle_event(at(MouseKind::Moved, 1), &catalog);
    app.handle_event(Event::Other, &catalog);
    assert_eq!(app.hover, Some(1));
    app.handle_event(Event::Resize, &catalog);
    assert_eq!(app.hover, None);
    app.handle_event(at(MouseKind::Moved, 1), &catalog);
    app.handle_event(Event::Key(KeyEvent { code: KeyCode::Esc, control: false }), &catalog);
    assert_eq!((app.hover, app.should_quit), (None, true));
}

#[test]
fn a_narrow_screen_has_no_room_for_a_sample() {
    let catalog = catalog();
    let mut app = App::new(names(), true, &catalog);
    app.current = 3;
    assert_eq!(app.lay_out(Area { x: 0, y: 0, width: 20, height: 2 }), None);
    assert_eq!(app.list_area.width, 20);
    assert_eq!(app.window, 2);
}

fn lines(items: &[Item]) -> Vec<(u32, u32, String)> {
    items
        .iter()
        .filter_map(|item| match item {
            Item::Line { x, y, spans } => {
                Some((*x, *y, spans.iter().map(|s| s.text.as_str()).collect()))
            }
            Item::Rule { .. } => None,
        })
        .collect()
}

#[test]
fn the_sample_shows_name_palette_code_and_text() {
    let catalog = catalog();
    let theme = catalog.theme_by_name("Night").unwrap();
    let items = preview(theme, Area { x: 32, y: 0, width: 80, height: 60 }, false);
    let lines = lines(&items);
    // The name stands in the middle of the second row.
    assert_eq!(lines[0], (32 + 37, 1, "Night".to_owned()));
    // Sixteen colors, a number and two rows each.
    assert_eq!(lines[1], (32, 4, "  0".to_owned()));
    assert_eq!(lines[2], (36, 4, "████".to_owned()));
    assert_eq!(lines[3], (36, 5, "████".to_owned()));
    assert_eq!(lines[46], (32 + 56, 7, " 15".to_owned()));
    assert_eq!(lines[49], (34, 10, "→ bat fibonacci.ts".to_owned()));
    assert_eq!(lines[50], (34, 12, "       │ File: fibonacci.ts".to_owned()));
    assert_eq!(lines[51], (34, 14, "   1   │ type Fibonacci<".to_owned()));
    assert_eq!(
        lines[60].2,
        "  10   │   : Fibonacci<T, [...No, 1], N_1, [...N_2, ...N_1]>;"
    );
    assert_eq!(lines[61].2, "  11   │ ");
    assert_eq!(lines[62].2, "  12   │ type FibonacciResult2 = Fibonacci<8>; // 21");
    assert_eq!(lines[63].1, 27);
    assert!(lines[63].2.starts_with("Eggie on "));
    assert_eq!(lines[64].2, "✦ at 10:36:15 →");
    assert_eq!(lines[65], (34, 31, "Lorem".to_owned()));
    assert_eq!(lines[66], (40, 31, "ipsum".to_owned()));
    assert!(lines[65..].iter().all(|(x, _, w)| x + w.len() as u32 <= 112));
    let rules = items.iter().filter(|i| matches!(i, Item::Rule { .. })).count();
    assert_eq!(rules, 3);
}

#[test]
fn the_sample_is_colored_by_the_theme() {
    let catalog = catalog();
    let theme = catalog.theme_by_name("Night").unwrap();
    assert_eq!(Tok::Kw.color(theme), theme.palette[6]);
    assert_eq!(Tok::Type.color(theme), theme.palette[2]);
    assert_eq!(Tok::Op.color(theme), theme.palette[5]);
    assert_eq!(Tok::Num.color(theme), theme.palette[4]);
    assert_eq!(Tok::Str.color(theme), theme.palette[3]);
    assert_eq!(Tok::Std.color(theme), theme.foreground);
    assert_eq!(Tok::Comment.color(theme), 0x444444);
    let items = preview(theme, Area { x: 0, y: 0, width: 80, height: 60 }, true);
    let spans: Vec<_> = items
        .iter()
        .filter_map(|i| match i {
            Item::Line { spans, .. } => Some(spans),
            Item::Rule { .. } => None,
        })
        .flatten()
        .collect();
    let find = |text: &str| spans.iter().find(|s| s.text == text).unwrap();
    assert!(find("Night").bold && find("Night").italic);
    assert!(find("consectetur").bold && !find("consectetur").italic);
    assert!(find("reprehenderit,").italic);
    assert!(find("Praesent").bold && find("Praesent").italic);
    assert!(find("enim,").underlined && find("dui").underlined);
    assert_eq!(find("ipsum").fg, theme.palette[2]);
    assert_eq!(find(" 0f").fg, theme.foreground);
}

#[test]
fn a_small_sample_is_cut_short() {
    let catalog = catalog();
    let theme = catalog.theme_by_name("Night").unwrap();
    assert!(preview(theme, Area { x: 0, y: 0, width: 7, height: 60 }, false).is_empty());
    assert!(preview(theme, Area { x: 0, y: 0, width: 80, height: 5 }, false).is_empty());
    let items = preview(theme, Area { x: 0, y: 0, width: 20, height: 16 }, false);
    let code = lines(&items).into_iter().filter(|(_, y, _)| (14..16).contains(y)).count();
    assert_eq!(code, 2);
    // The text wraps before the right edge and stops at the bottom.
    let items = preview(theme, Area { x: 0, y: 0, width: 30, height: 36 }, false);
    let words: Vec<_> = lines(&items).into_iter().filter(|(_, y, _)| *y >= 31).collect();
    assert!(words.iter().all(|(x, y, w)| x + w.len() as u32 <= 30 && *y < 36));
    assert_eq!(words[0].2, "Lorem");
}
