use eggie_ui::cli::{
    parse_invocation, try_run_cli, Action, CliEnvironment, CliError, CliOutcome, Invocation,
};
use eggie_ui::colors::{parse_rgb_line, x11_colors};
use eggie_ui::list_colors::{render_plain, render_pretty, sorted_colors, terminal_width};
use eggie_ui::list_themes::{theme_names, Scope};
use eggie_ui::themes::{TerminalTheme, ThemeCatalog};

fn argv(parts: &[&str]) -> Vec<String> {
    std::iter::once("eggie").chain(parts.iter().copied()).map(str::to_owned).collect()
}

fn theme(name: &str, dark: bool) -> TerminalTheme {
    let mut palette = [0u32; 16];
    for (i, color) in palette.iter_mut().enumerate() {
        *color = 0x10_2030 + i as u32;
    }
    TerminalTheme {
        name: name.to_owned(),
        palette,
        foreground: if dark { 0xeeeeee } else { 0x111111 },
        background: if dark { 0x101010 } else { 0xfefefe },
        dark,
    }
}

fn catalog() -> ThemeCatalog {
    ThemeCatalog {
        themes: vec![
            theme("Zenburn", true),
            theme("Builtin Dark", true),
            theme("ayu", true),
            theme("Builtin Light", false),
            theme("Ayu Light", false),
            theme("dracula", true),
        ],
    }
}

fn environment(terminal: bool) -> CliEnvironment {
    CliEnvironment {
        version: "1.2.3".to_owned(),
        build_id: "dev-0123".to_owned(),
        debug_build: true,
        stdout_is_terminal: terminal,
        terminal_columns: Some(100),
        catalog: catalog(),
    }
}

fn printed(outcome: Option<CliOutcome>) -> (String, String, i32) {
    match outcome {
        Some(CliOutcome::Print { out, err, code }) => (out, err, code),
        other => panic!("expected output, got {other:?}"),
    }
}

#[test]
fn plus_actions_map_to_their_action() {
    assert_eq!(parse_invocation(&argv(&["+help"])), Invocation::Run(Action::Help, vec![]));
    assert_eq!(parse_invocation(&argv(&["+version"])), Invocation::Run(Action::Version, vec![]));
    assert_eq!(
        parse_invocation(&argv(&["+list-colors"])),
        Invocation::Run(Action::ListColors, vec![])
    );
    assert_eq!(
        parse_invocation(&argv(&["+list-themes"])),
        Invocation::Run(Action::ListThemes, vec![])
    );
}

#[test]
fn version_and_help_aliases() {
    assert_eq!(parse_invocation(&argv(&["--version"])), Invocation::Run(Action::Version, vec![]));
    assert_eq!(
        parse_invocation(&argv(&["-h"])),
        Invocation::Run(Action::Help, vec!["-h".to_owned()])
    );
    assert_eq!(
        parse_invocation(&argv(&["--help"])),
        Invocation::Run(Action::Help, vec!["--help".to_owned()])
    );
}

#[test]
fn version_flag_outranks_other_actions() {
    assert_eq!(
        parse_invocation(&argv(&["+list-themes", "--version"])),
        Invocation::Run(Action::Version, vec![])
    );
}

#[test]
fn version_flag_outranks_mistakes() {
    assert_eq!(
        parse_invocation(&argv(&["+bogus", "--version", "x"])),
        Invocation::Run(Action::Version, vec!["x".to_owned()])
    );
    assert_eq!(
        parse_invocation(&argv(&["--version", "+help", "+version"])),
        Invocation::Run(Action::Version, vec![])
    );
}

#[test]
fn action_specific_help_stays_with_the_action() {
    assert_eq!(
        parse_invocation(&argv(&["+list-themes", "--help"])),
        Invocation::Run(Action::ListThemes, vec!["--help".to_owned()])
    );
}

#[test]
fn extra_flags_pass_through_to_the_action() {
    assert_eq!(
        parse_invocation(&argv(&["+list-themes", "--dark"])),
        Invocation::Run(Action::ListThemes, vec!["--dark".to_owned()])
    );
}

#[test]
fn multiple_actions_is_an_error() {
    assert_eq!(
        parse_invocation(&argv(&["+help", "+version"])),
        Invocation::Error(CliError::MultipleActions)
    );
}

#[test]
fn unknown_action_is_an_error() {
    assert_eq!(
        parse_invocation(&argv(&["+bogus"])),
        Invocation::Error(CliError::InvalidAction("bogus".to_owned()))
    );
}

#[test]
fn the_first_mistake_is_reported() {
    assert_eq!(
        parse_invocation(&argv(&["+help", "+version", "+bogus"])),
        Invocation::Error(CliError::MultipleActions)
    );
    assert_eq!(
        parse_invocation(&argv(&["+help", "+bogus", "+version"])),
        Invocation::Error(CliError::InvalidAction("bogus".to_owned()))
    );
    assert_eq!(
        parse_invocation(&argv(&["+"])),
        Invocation::Error(CliError::InvalidAction(String::new()))
    );
}

#[test]
fn no_action_returns_none() {
    assert_eq!(parse_invocation(&argv(&[])), Invocation::Nothing);
    assert_eq!(parse_invocation(&argv(&["foo", "bar"])), Invocation::Nothing);
}

#[test]
fn no_arguments_at_all_ask_for_nothing() {
    assert_eq!(parse_invocation(&[]), Invocation::Nothing);
    assert_eq!(try_run_cli(&[], &environment(true)), None);
}

#[test]
fn from_plus_and_name_round_trip() {
    for action in Action::all() {
        assert_eq!(Action::from_plus(action.name()), Some(action));
    }
    assert_eq!(Action::from_plus("nope"), None);
}

#[test]
fn help_lists_every_action_in_one_column() {
    let (out, err, code) = printed(try_run_cli(&argv(&["-h"]), &environment(true)));
    assert_eq!(
        out,
        "用法: eggie [+action] [选项]\n\n不带 +action 时启动 Eggie 终端;带 +action 时执行对应的辅助命令。\n\n可用 action:\n\n  +help         显示本帮助信息\n  +version      显示版本与构建信息\n  +list-colors  列出内置的 X11 命名颜色\n  +list-themes  列出可用主题(终端下可交互预览)\n\n用 `eggie +<action> --help` 查看具体命令的帮助。\n"
    );
    assert_eq!((err.as_str(), code), ("", 0));
    for action in Action::all() {
        assert!(out.contains(action.summary()));
    }
}

#[test]
fn version_shows_the_build() {
    let (out, _, code) = printed(try_run_cli(&argv(&["--version"]), &environment(true)));
    assert_eq!(
        out,
        "Eggie 1.2.3\n\nVersion\n  - version : 1.2.3\n  - build id: dev-0123\n  - build   : debug\n"
    );
    assert_eq!(code, 0);
    let mut release = environment(false);
    release.debug_build = false;
    let (out, _, _) = printed(try_run_cli(&argv(&["+version"]), &release));
    assert!(out.ends_with("  - build   : release\n"));
}

#[test]
fn mistakes_are_explained_with_a_failing_code() {
    assert_eq!(
        printed(try_run_cli(&argv(&["+help", "+help"]), &environment(true))),
        (String::new(), "错误:一次只能指定一个 +action。\n".to_owned(), 1)
    );
    assert_eq!(
        printed(try_run_cli(&argv(&["+bogus"]), &environment(true))),
        (
            String::new(),
            "错误:未知的 action `+bogus`。运行 `eggie +help` 查看可用命令。\n".to_owned(),
            1
        )
    );
    let (_, err, code) =
        printed(try_run_cli(&argv(&["+list-colors", "--nope", "--help"]), &environment(true)));
    assert_eq!(err, "错误:未知选项 `--nope`。运行 `eggie +list-colors --help` 查看用法。\n");
    assert_eq!(code, 1);
    let (_, err, code) = printed(try_run_cli(&argv(&["+list-themes", "--nope"]), &environment(true)));
    assert_eq!(err, "错误:未知选项 `--nope`。运行 `eggie +list-themes --help` 查看用法。\n");
    assert_eq!(code, 1);
}

#[test]
fn commands_explain_themselves() {
    let (out, _, code) = printed(try_run_cli(&argv(&["+list-colors", "-h"]), &environment(true)));
    assert!(out.starts_with("用法: eggie +list-colors [--plain]\n\n列出内置的 X11 命名颜色。"));
    assert!(out.ends_with("  --plain  强制纯文本列表(即使在终端中)\n"));
    assert_eq!(code, 0);
    // A request for help wins over options that are not known.
    let (out, _, code) =
        printed(try_run_cli(&argv(&["+list-themes", "--nope", "--help"]), &environment(true)));
    assert!(out.starts_with("用法: eggie +list-themes [--dark | --light] [--plain]\n"));
    assert_eq!(code, 0);
}

#[test]
fn colors_are_listed_plainly_or_in_columns() {
    let (plain, _, code) =
        printed(try_run_cli(&argv(&["+list-colors", "--plain"]), &environment(true)));
    assert_eq!(code, 0);
    assert_eq!(plain.lines().count(), 782);
    assert_eq!(plain.lines().next(), Some("alice blue = #f0f8ff"));
    assert_eq!(plain.lines().last(), Some("YellowGreen = #9acd32"));
    let (piped, _, _) = printed(try_run_cli(&argv(&["+list-colors"]), &environment(false)));
    assert_eq!(piped, plain);
    let (pretty, _, _) = printed(try_run_cli(&argv(&["+list-colors"]), &environment(true)));
    assert!(pretty.contains("\x1b[38;2;0;128;128m#008080\x1b[0m"));
    assert!(pretty.lines().count() < 782);
}

#[test]
fn themes_are_listed_or_browsed() {
    let (out, _, code) =
        printed(try_run_cli(&argv(&["+list-themes", "--plain"]), &environment(true)));
    assert_eq!(out, "ayu\nAyu Light\nBuiltin Dark\nBuiltin Light\ndracula\nZenburn\n");
    assert_eq!(code, 0);
    let (out, _, _) =
        printed(try_run_cli(&argv(&["+list-themes", "--dark", "--light"]), &environment(false)));
    assert_eq!(out, "Ayu Light\nBuiltin Light\n");
    match try_run_cli(&argv(&["+list-themes", "--dark"]), &environment(true)) {
        Some(CliOutcome::Preview { names }) => {
            assert_eq!(names, ["ayu", "Builtin Dark", "dracula", "Zenburn"])
        }
        other => panic!("expected the browser, got {other:?}"),
    }
    let mut empty = environment(true);
    empty.catalog.themes.clear();
    assert_eq!(
        printed(try_run_cli(&argv(&["+list-themes"]), &empty)),
        ("(没有可显示的主题)\n".to_owned(), String::new(), 0)
    );
}

#[test]
fn parses_a_simple_line() {
    assert_eq!(
        parse_rgb_line("255 250 250\t\tsnow"),
        Some(("snow".to_owned(), (255, 250, 250)))
    );
}

#[test]
fn parses_a_name_with_spaces() {
    assert_eq!(
        parse_rgb_line("248 248 255\t\tghost white"),
        Some(("ghost white".to_owned(), (248, 248, 255)))
    );
}

#[test]
fn rejects_blank_or_malformed_lines() {
    assert_eq!(parse_rgb_line(""), None);
    assert_eq!(parse_rgb_line("not a color"), None);
    assert_eq!(parse_rgb_line("1 2\t\tmissing-blue"), None);
}

#[test]
fn numbers_of_a_line_are_read_as_bytes() {
    assert_eq!(parse_rgb_line("  0 +7 007\tx "), Some(("x".to_owned(), (0, 7, 7))));
    assert_eq!(parse_rgb_line("1 2 3 4\tx"), Some(("x".to_owned(), (1, 2, 3))));
    assert_eq!(parse_rgb_line("256 0 0\tx"), None);
    assert_eq!(parse_rgb_line("-1 0 0\tx"), None);
    assert_eq!(parse_rgb_line("+ 0 0\tx"), None);
    assert_eq!(parse_rgb_line("1 2 3\t \t"), None);
    assert_eq!(parse_rgb_line("99999999999999999999 0 0\tx"), None);
}

#[test]
fn built_in_table_has_the_full_x11_set() {
    assert_eq!(x11_colors().len(), 782);
}

#[test]
fn known_colors_resolve_to_expected_values() {
    let colors = x11_colors();
    let teal = colors.iter().find(|(name, _)| name == "teal").unwrap();
    assert_eq!(teal.1, (0, 128, 128));
}

#[test]
fn colors_keep_their_order_and_every_name() {
    let colors = x11_colors();
    assert_eq!(colors[0], ("snow".to_owned(), (255, 250, 250)));
    assert_eq!(colors[1], ("ghost white".to_owned(), (248, 248, 255)));
    assert_eq!(colors[2], ("GhostWhite".to_owned(), (248, 248, 255)));
    let mut names: Vec<&str> = colors.iter().map(|(name, _)| name.as_str()).collect();
    names.sort();
    names.dedup();
    assert_eq!(names.len(), 782);
}

fn sample() -> Vec<(String, (u8, u8, u8))> {
    vec![
        ("red".to_owned(), (255, 0, 0)),
        ("green".to_owned(), (0, 128, 0)),
        ("blue".to_owned(), (0, 0, 255)),
    ]
}

#[test]
fn plain_output_is_ansi_free_and_sorted_format() {
    let colors = sample();
    let refs: Vec<&(String, (u8, u8, u8))> = colors.iter().collect();
    let out = render_plain(&refs);
    assert_eq!(out, "red = #ff0000\ngreen = #008000\nblue = #0000ff\n");
    assert!(!out.contains('\x1b'));
}

#[test]
fn pretty_output_carries_truecolor_sequences() {
    let colors = sample();
    let refs: Vec<&(String, (u8, u8, u8))> = colors.iter().collect();
    let out = render_pretty(&refs, 80);
    assert!(out.contains("\x1b[38;2;255;0;0m#ff0000\x1b[0m"));
    assert!(out.contains("\x1b[48;2;0;0;255m  \x1b[0m"));
    for name in ["red", "green", "blue"] {
        assert!(out.contains(name), "{name} is missing");
    }
}

#[test]
fn pretty_output_fills_column_by_column() {
    let colors = sample();
    let refs: Vec<&(String, (u8, u8, u8))> = colors.iter().collect();
    // Two columns of twenty: red and green on the left, blue on the right.
    assert_eq!(
        render_pretty(&refs, 40),
        "red   = \x1b[38;2;255;0;0m#ff0000\x1b[0m \x1b[48;2;255;0;0m  \x1b[0m  blue  = \x1b[38;2;0;0;255m#0000ff\x1b[0m \x1b[48;2;0;0;255m  \x1b[0m\ngreen = \x1b[38;2;0;128;0m#008000\x1b[0m \x1b[48;2;0;128;0m  \x1b[0m\n"
    );
}

#[test]
fn narrow_width_falls_back_to_single_column() {
    let colors = sample();
    let refs: Vec<&(String, (u8, u8, u8))> = colors.iter().collect();
    let out = render_pretty(&refs, 1);
    assert_eq!(out.lines().count(), 3);
}

#[test]
fn wide_width_uses_multiple_columns() {
    let colors = sample();
    let refs: Vec<&(String, (u8, u8, u8))> = colors.iter().collect();
    let out = render_pretty(&refs, 500);
    assert_eq!(out.lines().count(), 1);
}

#[test]
fn every_width_shows_every_color_once() {
    let colors = x11_colors();
    let sorted = sorted_colors(&colors);
    for width in [0, 1, 33, 80, 200, 1000, usize::MAX] {
        let out = render_pretty(&sorted, width);
        assert_eq!(out.matches(" = ").count(), 782, "width {width}");
    }
}

#[test]
fn empty_input_produces_no_output() {
    assert_eq!(render_pretty(&[], 80), "");
    assert_eq!(render_plain(&[]), "");
}

#[test]
fn sorting_keeps_equal_names_in_order() {
    let colors = vec![
        ("b".to_owned(), (1, 0, 0)),
        ("B".to_owned(), (2, 0, 0)),
        ("a".to_owned(), (3, 0, 0)),
        ("b".to_owned(), (4, 0, 0)),
    ];
    let reds: Vec<u8> = sorted_colors(&colors).iter().map(|(_, (r, _, _))| *r).collect();
    assert_eq!(reds, [3, 1, 2, 4]);
}

#[test]
fn an_unknown_width_falls_back() {
    assert_eq!(terminal_width(Some(132)), 132);
    assert_eq!(terminal_width(Some(0)), 80);
    assert_eq!(terminal_width(None), 80);
}

#[test]
fn all_scope_is_sorted_and_deduped() {
    let names = theme_names(&catalog(), Scope::All);
    assert!(!names.is_empty());
    for pair in names.windows(2) {
        assert!(
            pair[0].to_ascii_lowercase() <= pair[1].to_ascii_lowercase(),
            "not sorted: {:?}",
            pair
        );
        assert_ne!(pair[0], pair[1], "repeated: {}", pair[0]);
    }
}

#[test]
fn dark_scope_lists_only_dark_themes() {
    let catalog = catalog();
    for name in theme_names(&catalog, Scope::Dark) {
        let theme = catalog.theme_by_name(&name).expect("the theme is there");
        assert!(theme.is_dark(), "{name} is not dark");
    }
}

#[test]
fn light_scope_lists_only_light_themes() {
    let catalog = catalog();
    for name in theme_names(&catalog, Scope::Light) {
        let theme = catalog.theme_by_name(&name).expect("the theme is there");
        assert!(!theme.is_dark(), "{name} is not light");
    }
}

#[test]
fn dark_and_light_partition_all() {
    let all = theme_names(&catalog(), Scope::All).len();
    let dark = theme_names(&catalog(), Scope::Dark).len();
    let light = theme_names(&catalog(), Scope::Light).len();
    assert!(all <= dark + light);
    assert!(all >= dark);
    assert!(all >= light);
    assert_eq!((all, dark, light), (6, 4, 2));
}

#[test]
fn names_that_differ_in_case_do_not_part_repeated_ones() {
    let mut catalog = catalog();
    catalog.themes = vec![theme("Foo", true), theme("foo", true), theme("Foo", false)];
    assert_eq!(theme_names(&catalog, Scope::All), ["Foo", "foo"]);
    assert_eq!(theme_names(&catalog, Scope::Dark), ["Foo", "foo"]);
    assert_eq!(theme_names(&catalog, Scope::Light), ["Foo"]);
}

#[test]
fn repeated_theme_names_are_listed_once() {
    let mut catalog = catalog();
    catalog.themes.push(theme("Zenburn", false));
    catalog.themes.push(theme("ayu", true));
    assert_eq!(
        theme_names(&catalog, Scope::All),
        ["ayu", "Ayu Light", "Builtin Dark", "Builtin Light", "dracula", "Zenburn"]
    );
    assert_eq!(theme_names(&catalog, Scope::Light), ["Ayu Light", "Builtin Light", "Zenburn"]);
    assert!(catalog.theme_by_name("nobody").is_none());
    assert_eq!(catalog.dark_names(), ["Zenburn", "Builtin Dark", "ayu", "dracula", "ayu"]);
    assert_eq!(catalog.light_names(), ["Builtin Light", "Ayu Light", "Zenburn"]);
}
