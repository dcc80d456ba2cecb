use eggie_ui::clipboard::ClipboardEntry;
use eggie_ui::i18n::Language;
use eggie_ui::icons::IconName;
use eggie_ui::keybindings::{action_specs, Action};
use eggie_ui::layout::{
    first_part_edges, group_edges, layout_has_visible_active_terminal, second_part_edges,
    terminal_container_borders, terminal_container_corners, visible_active_terminal_sessions,
    Direction, ItemKind, LayoutEdges, LayoutNode, SplitAxis, TabGroup, TabItem,
    TerminalContainerBorders, TerminalContainerCorners,
};
use eggie_ui::paths::{path_order_key, path_parts, same_path};
use eggie_ui::pointer::{DragEnd, SelectionDrag};
use eggie_ui::processes::{
    fill_missing_process_metrics, format_cpu_usage, format_memory_usage, format_process_metrics,
    listening_port_owner, pids_without_metrics, ports_section, process_section,
    process_tree_connector, process_tree_rows, Connector, ListeningPort, MetricSample, ProcessInfo,
    ProcessSection, SessionInspection,
};
use eggie_ui::projects::{
    activate_project, activate_session, activate_session_by_id, find_session_tab,
    find_terminal_item, item_count, layout_sessions, new_project_prompt, rename_project_prompt,
    place_session, project_name, reconcile_project_views, replacement_project, seed_window,
    shows_project, tabs_to_prune, terminal_directory, terminal_tabs_to_close,
    toggle_project_collapsed, top_left_group_id, top_right_group_id, update_terminal_title,
    NewWindowInit, Project, SeedStep, WindowProjectView,
};
use eggie_ui::sessions::{
    close_choice, close_dialog, close_needs_confirmation, close_step, drop_detached_session,
    keeps_watching, same_sessions, sessions_to_claim, set_session_title,
    CloseChoice, SessionSummary,
};
use eggie_ui::sidebar::{
    detached_count, detached_panel, directory_actions, dismiss_dropdown, inspection_placeholder,
    item_kind_icon, left_heading, left_sidebar_rows, open_path_arguments, right_content,
    right_tab_icon, right_tab_title, set_open_directory_with, sidebar_sessions_in_layout_order, toggle_dropdown,
    toggle_sidebar, DirectoryField, Findings, OpenWith, RightContent, RightTab, SidebarEdge,
    SidebarRow, SidebarState,
};
use eggie_ui::tabs::{
    after_move, content_drop_target, group_view, handle_tab_drop, move_enabled, relative_tab,
    set_drop_target, tab_bar_drop_target, tab_menu_command, tab_to_close, GroupContent, Pointer,
    ShownTerminal, TabDropTarget, TabDropZone, TabMenuCommand, TabMove, WindowFacts,
};
use eggie_ui::terminal_input::TerminalImeState;
use eggie_ui::terminals::{
    CursorBlink, FocusState, ItemFacts, ItemIcon, Resizes, TerminalProgress, TerminalProgressState,
    TerminalProgressUpdate,
};
use eggie_ui::updates::{
    error_line, indicator_click, panel_button, update_indicator, update_panel, IndicatorClick,
    PanelButton, UpdatePanel, UpdateState, UpdateText, UpdaterRequest,
};
use eggie_ui::window::{
    claim_target, cold_start_terminal, initial_views, synchronize_session_title, InspectionReply,
    SessionTraces, WindowSessions,
};
use eggie_ui::workspace::{
    arrival_setup, clear_screen_bytes, drag_scrollbar, drag_sidebar, drag_split,
    ends_with_the_window, finish_paste, title_bar_event,
    paste_plan, process_menu_action, progress_timeouts, release_button, scrollbar_track_click,
    scrollbar_view, session_setup, settings_changes, terminal_request, window_command,
    workspace_command, Drags, PasteEnd, PastePlan, ProcessMenuAction, ProcessMenuCommand,
    ScrollCommand, TitleBarAction, TitleBarEvent,
    ScrollbarDrag, SessionSetting, SessionSettings, TerminalRequest, TrackPart, WindowAction,
    WorkspaceCommand,
};
use std::collections::{HashMap, HashSet};

fn process(pid: u32, parent_pid: Option<u32>, name: &str) -> ProcessInfo {
    ProcessInfo {
        pid,
        parent_pid,
        name: name.to_owned(),
        cpu_usage_tenths_percent: Some(0),
        memory_bytes: Some(0),
    }
}

#[test]
fn terminal_container_rounding_respects_sidebars_and_split_edges() {
    let all_rounded = TerminalContainerCorners {
        top_left: true,
        top_right: true,
        bottom_left: true,
        bottom_right: true,
    };
    let square_bottom = TerminalContainerCorners {
        top_left: true,
        top_right: true,
        bottom_left: false,
        bottom_right: false,
    };
    let square_left = TerminalContainerCorners {
        top_left: false,
        top_right: true,
        bottom_left: false,
        bottom_right: true,
    };
    let square_right = TerminalContainerCorners {
        top_left: true,
        top_right: false,
        bottom_left: true,
        bottom_right: false,
    };

    // Both sidebars separate the root terminal from the window, but its bottom still touches.
    assert_eq!(terminal_container_corners(true, true, true, false, false), square_bottom);
    // A top group in a vertical split is also separated from the bottom window edge.
    assert_eq!(terminal_container_corners(true, true, false, false, false), all_rounded);
    // A collapsed left sidebar squares both corners on that window edge.
    assert_eq!(terminal_container_corners(true, true, false, true, false), square_left);
    // The two terminal corners meeting at a horizontal split stay square.
    assert_eq!(terminal_container_corners(true, false, false, false, false), square_right);
    assert_eq!(terminal_container_corners(false, true, false, false, false), square_left);
    // With every exposed root edge touching the window, no corner is rounded.
    assert_eq!(
        terminal_container_corners(true, true, true, true, true),
        TerminalContainerCorners {
            top_left: false,
            top_right: false,
            bottom_left: false,
            bottom_right: false,
        },
    );
}

#[test]
fn terminal_container_owns_only_its_content_edge_borders() {
    let no_borders = TerminalContainerBorders { left: false, right: false, bottom: false };

    // A root terminal touching the window on every exposed side has no outer side borders.
    assert_eq!(terminal_container_borders(true, true, true, true, true), no_borders);
    // At a horizontal split, the left-hand terminal owns the internal vertical seam.
    assert_eq!(
        terminal_container_borders(true, false, true, false, false),
        TerminalContainerBorders { left: true, right: true, bottom: false },
    );
    assert_eq!(
        terminal_container_borders(false, true, true, false, false),
        TerminalContainerBorders { left: false, right: true, bottom: false },
    );
    // At a vertical split, the upper terminal owns the internal horizontal seam.
    assert_eq!(
        terminal_container_borders(true, true, false, false, false),
        TerminalContainerBorders { left: true, right: true, bottom: true },
    );
}

fn tab(id: u128, session: u128, title: &str) -> TabItem {
    TabItem { id, kind: ItemKind::Terminal, title: title.to_owned(), session_id: Some(session) }
}

fn group(id: u128, items: Vec<TabItem>) -> LayoutNode {
    let active_item_id = items.last().map(|item| item.id);
    LayoutNode::Group { group: TabGroup { id, items, active_item_id } }
}

fn split(first: LayoutNode, second: LayoutNode) -> LayoutNode {
    LayoutNode::Split {
        id: 500,
        axis: SplitAxis::Horizontal,
        first: Box::new(first),
        second: Box::new(second),
    }
}

#[test]
fn every_split_groups_active_terminal_is_visible() {
    let first_session = 1;
    let hidden_session = 2;
    let right_session = 3;
    let mut first_group =
        TabGroup { id: 100, items: vec![tab(11, first_session, "first")], active_item_id: Some(11) };
    first_group.add_item(tab(12, hidden_session, "hidden"));
    let layout = |first_group: TabGroup| {
        split(
            LayoutNode::Group { group: first_group },
            group(101, vec![tab(13, right_session, "right")]),
        )
    };

    let before = layout(first_group.clone());
    let visible =
        visible_active_terminal_sessions(&before).into_iter().collect::<HashSet<_>>();
    assert_eq!(visible, HashSet::from([hidden_session, right_session]));
    assert!(!layout_has_visible_active_terminal(&before, first_session));
    assert!(layout_has_visible_active_terminal(&before, right_session));

    first_group.active_item_id = Some(11);
    let after = layout(first_group);
    let visible = visible_active_terminal_sessions(&after).into_iter().collect::<HashSet<_>>();
    assert_eq!(visible, HashSet::from([first_session, right_session]));
    assert!(!layout_has_visible_active_terminal(&after, hidden_session));
}

#[test]
fn processes_are_flattened_as_a_stable_parent_child_tree() {
    let processes = vec![
        process(13, Some(11), "worker"),
        process(10, Some(1), "zsh"),
        process(12, Some(10), "bash-b"),
        process(11, Some(10), "bash-a"),
        process(14, Some(12), "ruby"),
    ];

    let rows = process_tree_rows(&processes);
    assert_eq!(
        rows.iter().map(|row| processes[row.process_index].pid).collect::<Vec<_>>(),
        [10, 11, 13, 12, 14]
    );
    assert_eq!(
        rows.iter().map(|row| row.branch_has_next.clone()).collect::<Vec<_>>(),
        [vec![], vec![true], vec![true, false], vec![false], vec![false, false]]
    );
}

#[test]
fn malformed_process_cycles_are_rendered_once_instead_of_recursing_forever() {
    let processes = vec![process(20, Some(21), "a"), process(21, Some(20), "b")];
    let rows = process_tree_rows(&processes);

    assert_eq!(rows.len(), 2);
    assert_eq!(
        rows.iter().map(|row| processes[row.process_index].pid).collect::<HashSet<_>>(),
        HashSet::from([20, 21])
    );
}

#[test]
fn process_metrics_use_compact_sidebar_units() {
    assert_eq!(format_cpu_usage(Some(123)), "12.3%");
    assert_eq!(format_cpu_usage(None), "—");
    assert_eq!(format_memory_usage(Some(512)), "512B");
    assert_eq!(format_memory_usage(Some(12 * 1024)), "12KB");
    assert_eq!(format_memory_usage(Some(12 * 1024 * 1024)), "12.0MB");
    assert_eq!(format_memory_usage(None), "—");

    let mut process = process(42, None, "node");
    process.cpu_usage_tenths_percent = Some(12);
    process.memory_bytes = Some(1536 * 1024);
    assert_eq!(format_process_metrics(&process), "1.2% / 1.5MB");
}

#[test]
fn memory_is_rounded_as_a_float_is() {
    let kib = 1024.0_f64;
    for bytes in [
        0u64,
        1,
        1023,
        1024,
        1535,
        1536,
        1537,
        2560,
        1024 * 1024 - 1,
        1024 * 1024,
        1_153_434,
        1_258_291,
        1_310_720,
        13_000_000,
        1024 * 1024 * 1024 - 1,
        1024 * 1024 * 1024,
        17_179_869_184,
        1_395_864_371,
    ] {
        let value = bytes as f64;
        let expected = if value < kib {
            format!("{bytes}B")
        } else if value < kib * kib {
            format!("{:.0}KB", value / kib)
        } else if value < kib * kib * kib {
            format!("{:.1}MB", value / kib / kib)
        } else {
            format!("{:.1}GB", value / kib / kib / kib)
        };
        assert_eq!(format_memory_usage(Some(bytes)), expected, "{bytes}");
    }
}

#[test]
fn listening_port_owners_use_compact_process_pid_format() {
    assert_eq!(listening_port_owner(41_238, Some("node")), "node(41238)");
    assert_eq!(listening_port_owner(41_238, None), "41238");
}

#[test]
fn ports_section_is_omitted_when_nothing_is_listening() {
    let inspection = SessionInspection { session_id: 0, processes: Vec::new(), ports: Vec::new() };

    assert!(ports_section(&inspection).is_none());
}

#[test]
fn ports_name_their_owners() {
    let inspection = SessionInspection {
        session_id: 0,
        processes: vec![process(7, None, "node")],
        ports: vec![ListeningPort {
            pid: 7,
            protocol: "TCP".to_owned(),
            address: "127.0.0.1".to_owned(),
            port: 8080,
        }],
    };
    let rows = ports_section(&inspection).unwrap();
    assert_eq!(rows.len(), 1);
    assert_eq!(rows[0].owner, "node(7)");
    assert!(rows[0].endpoint.contains("8080"));
    let ProcessSection::Rows(shown) = process_section(&inspection.processes, Language::English)
    else {
        panic!("there is a process");
    };
    assert_eq!(shown.len(), 1);
    assert!(shown[0].is_root);
    assert!(shown[0].pid_text.contains('7'));
    let nothing = |language| process_section(&[], language);
    assert_eq!(nothing(Language::English), ProcessSection::Empty("No running processes."));
    assert_eq!(
        nothing(Language::SimplifiedChinese),
        ProcessSection::Empty("没有正在运行的进程。")
    );
}

#[test]
fn missing_metrics_are_filled() {
    let mut processes = vec![process(1, None, "a"), process(2, None, "b")];
    processes[1].cpu_usage_tenths_percent = None;
    assert_eq!(pids_without_metrics(&processes), vec![2]);
    let sample = MetricSample { cpu_usage_tenths_percent: 5, memory_bytes: 6 };
    fill_missing_process_metrics(&mut processes, &vec![Some(sample), Some(sample)]);
    // What was known stays.
    assert_eq!(processes[0].cpu_usage_tenths_percent, Some(0));
    assert_eq!(processes[1].cpu_usage_tenths_percent, Some(5));
    assert_eq!(processes[1].memory_bytes, Some(0));
}

fn two_groups() -> LayoutNode {
    split(
        group(100, vec![tab(11, 1, "one"), tab(12, 2, "two"), tab(14, 4, "four")]),
        group(101, vec![tab(13, 3, "three")]),
    )
}

fn view(layout: LayoutNode) -> WindowProjectView {
    WindowProjectView { project_id: 1, layout, active_group_id: 100 }
}

#[test]
fn a_layout_is_searched() {
    let mut layout = two_groups();
    assert_eq!(find_terminal_item(&layout, 3), Some((101, 13)));
    assert_eq!(find_terminal_item(&layout, 9), None);
    assert_eq!(item_count(&layout), Some(4));
    assert_eq!(layout.first_group_id(), 100);
    assert_eq!(layout.find_group(101).unwrap().items.len(), 1);
    assert!(layout.find_group(7).is_none());
    assert_eq!(top_left_group_id(&layout), 100);
    assert_eq!(top_right_group_id(&layout), 101);
    assert_eq!(layout_sessions(&layout), vec![1, 2, 4, 3]);
    assert_eq!(terminal_tabs_to_close(&layout).len(), 4);
    assert!(update_terminal_title(&mut layout, 3, "new"));
    assert_eq!(layout.find_group(101).unwrap().items[0].title, "new");
    assert!(!update_terminal_title(&mut layout, 9, "new"));
}

#[test]
fn each_group_knows_its_edges() {
    let edges = group_edges(&two_groups());
    let whole = LayoutEdges { left: true, right: true, top: true, bottom: true };
    assert_eq!(edges, vec![
        LayoutEdges { right: false, ..whole },
        LayoutEdges { left: false, ..whole },
    ]);
    assert_eq!(
        first_part_edges(SplitAxis::Vertical, whole),
        LayoutEdges { bottom: false, ..whole }
    );
    assert_eq!(second_part_edges(SplitAxis::Vertical, whole), LayoutEdges { top: false, ..whole });
}

fn project(id: u128, name: &str, root: Option<&str>) -> Project {
    Project { id, name: name.to_owned(), root: root.map(str::to_owned) }
}

#[test]
fn views_follow_the_list_of_projects() {
    let mut shown = view(two_groups());
    assert_eq!(shown.active_session_id(), Some(4));
    assert!(shown.activate_item(100, 11));
    assert_eq!(shown.active_session_id(), Some(1));
    assert!(shown.focus_group(101));
    assert_eq!(shown.active_session_id(), Some(3));
    assert!(shown.add_terminal(101, tab(15, 5, "five")));
    assert_eq!(shown.active_session_id(), Some(5));

    let projects = vec![project(2, "b", None), project(1, "a", Some("/a"))];
    let after = reconcile_project_views(
        vec![shown, WindowProjectView::empty(9, 900)],
        &HashSet::from([9, 1]),
        9,
        &projects,
        &vec![200, 201],
    );
    assert_eq!(after.views.len(), 2);
    assert!(shows_project(&after.views, 1) && shows_project(&after.views, 2));
    assert!(!shows_project(&after.views, 9));
    assert_eq!(after.collapsed, HashSet::from([1]));
    assert_eq!(after.active_project, 2);
    assert_eq!(find_session_tab(&after.views, 3), Some((1, 101, 13)));
    assert_eq!(tabs_to_prune(&after.views, 3), vec![(1, 101, 13)]);
    assert_eq!(activate_project(&after.views, 2, 1), 1);
    assert_eq!(activate_project(&after.views, 2, 9), 2);
    assert_eq!(terminal_directory(&projects, 1, "/home"), "/a");
    assert_eq!(terminal_directory(&projects, 2, "/home"), "/home");

    let mut views = after.views;
    place_session(&mut views, 2, tab(16, 6, "six"));
    assert_eq!(find_session_tab(&views, 6), Some((2, 200, 16)));
}

#[test]
fn a_closed_group_gives_the_keyboard_away() {
    let left = view(two_groups()).after_close(101, group(100, vec![tab(11, 1, "one")]));
    assert_eq!(left.active_group_id, 100);
    let gone = view(two_groups()).after_close(100, group(101, vec![tab(13, 3, "three")]));
    assert_eq!(gone.active_group_id, 101);
    let kept = view(two_groups()).after_close(101, two_groups());
    assert_eq!(kept.active_group_id, 100);
}

#[test]
fn projects_are_named_and_hidden() {
    assert_eq!(project_name("  x y \n").as_deref(), Some("x y"));
    assert_eq!(project_name(" \t"), None);
    assert_eq!(replacement_project(&Vec::new()).as_deref(), Some("Home"));
    assert_eq!(replacement_project(&vec![project(1, "a", None)]), None);
    let mut collapsed = HashSet::from([3]);
    toggle_project_collapsed(&mut collapsed, 4);
    assert!(collapsed.contains(&4));
    toggle_project_collapsed(&mut collapsed, 4);
    assert_eq!(collapsed, HashSet::from([3]));
}

#[test]
fn a_window_starts_with_a_project() {
    let projects = vec![project(8, "a", None)];
    assert_eq!(
        seed_window(&NewWindowInit::ColdStart { project_root: "/r".to_owned() }, &projects),
        SeedStep::Adopt { project_root: "/r".to_owned() }
    );
    assert_eq!(
        seed_window(&NewWindowInit::OpenDir { project_id: 8 }, &projects),
        SeedStep::OpenTerminal { project_id: 8 }
    );
    assert_eq!(seed_window(&NewWindowInit::Empty, &projects), SeedStep::Show { project_id: 8 });
    assert_eq!(
        seed_window(&NewWindowInit::Empty, &Vec::new()),
        SeedStep::CreateProject { name: "Home".to_owned() }
    );
}

fn session(id: u128, project_id: u128, window_id: Option<u128>, title: &str) -> SessionSummary {
    SessionSummary {
        id,
        project_id,
        window_id,
        title: title.to_owned(),
        initial_directory: format!("/{id}"),
        current_directory: format!("/{id}"),
        reported_local: None,
        process_name: "zsh".to_owned(),
        process_pid: 7,
    }
}

#[test]
fn a_session_list_is_sorted_into_windows() {
    let listed = || {
        vec![
            session(1, 1, Some(50), "new"),
            session(2, 1, None, "b"),
            session(3, 1, Some(51), "c"),
        ]
    };
    let mut window = WindowSessions {
        sessions: vec![session(1, 1, Some(50), "one"), session(4, 1, Some(50), "four")],
        detached: Vec::new(),
        views: vec![view(two_groups())],
    };
    let change = window.apply_session_list(listed(), 50);
    assert_eq!(window.sessions.iter().map(|s| s.id).collect::<Vec<_>>(), vec![1]);
    assert_eq!(window.detached.iter().map(|s| s.id).collect::<Vec<_>>(), vec![2]);
    assert_eq!(change.vanished, vec![4]);
    assert!(change.changed);
    let group = window.views[0].layout.find_group(100).unwrap();
    assert_eq!(group.items[0].title, "new");
    assert_eq!(group.items[1].title, "two");
    // The same list again changes nothing.
    let change = window.apply_session_list(listed(), 50);
    assert!(change.vanished.is_empty());
    assert!(!change.changed);
}

#[test]
fn directories_are_compared_part_by_part() {
    let mut window = WindowSessions {
        sessions: vec![session(1, 1, Some(50), "one")],
        detached: Vec::new(),
        views: vec![view(two_groups())],
    };
    let mut again = session(1, 1, Some(50), "one");
    again.current_directory = "/./1/".to_owned();
    assert!(same_sessions(&window.sessions, &vec![again.clone()]));
    let change = window.apply_session_list(vec![again], 50);
    assert!(!change.changed);
    assert_eq!(window.sessions[0].current_directory, "/1");
    let mut moved = session(1, 1, Some(50), "one");
    moved.current_directory = "/1/sub".to_owned();
    assert!(window.apply_session_list(vec![moved], 50).changed);
    assert_eq!(window.sessions[0].current_directory, "/1/sub");
}

#[test]
fn paths_are_lists_of_parts() {
    assert_eq!(path_parts("/a//b/./c/"), vec!["/", "a", "b", "c"]);
    assert_eq!(path_parts("./a/../b"), vec![".", "a", "..", "b"]);
    assert_eq!(path_parts("a"), vec!["a"]);
    assert!(path_parts("").is_empty());
    assert!(same_path("/work/", "/work"));
    assert!(same_path("/work/./x", "/work//x"));
    assert!(!same_path("/work", "work"));
    assert!(!same_path("./work", "work"));
    assert!(!same_path("/work", "/work/x"));
    assert!(path_order_key("/a") < path_order_key("/a/b"));
    assert!(path_order_key("/z") < path_order_key("a"));
    assert!(path_order_key("..") < path_order_key("a"));
    assert!(path_order_key("./z") < path_order_key("../a"));
    assert_eq!(path_order_key("/a/"), path_order_key("/a"));
}

#[test]
fn every_tab_of_a_session_is_pruned() {
    let twice = || {
        group(100, vec![tab(11, 1, "one"), tab(12, 2, "two"), tab(13, 1, "one again")])
    };
    let other = WindowProjectView {
        project_id: 2,
        layout: group(200, vec![tab(21, 2, "two"), tab(22, 1, "one")]),
        active_group_id: 200,
    };
    let views = vec![view(twice()), other];
    assert_eq!(tabs_to_prune(&views, 1), vec![(1, 100, 11), (1, 100, 13), (2, 200, 22)]);
    assert_eq!(tabs_to_prune(&views, 2), vec![(1, 100, 12), (2, 200, 21)]);
    assert!(tabs_to_prune(&views, 9).is_empty());
    assert_eq!(terminal_tabs_to_close(&twice()), vec![(100, 11), (100, 12), (100, 13)]);
}

#[test]
fn a_claimed_session_gets_a_tab() {
    let claimed = |id, project| session(id, project, Some(50), "claimed");
    let mut window = WindowSessions {
        sessions: vec![session(1, 1, Some(50), "one")],
        detached: vec![session(7, 1, None, "seven"), session(8, 9, None, "eight")],
        views: vec![view(two_groups()), WindowProjectView::empty(2, 200)],
    };
    assert!(window.views[0].focus_group(101));
    let first = window.claim_detached_session(7, claimed(7, 1), 77, 2, true);
    assert_eq!((first.active_project, first.popover_open, first.shown), (1, true, true));
    assert_eq!(find_session_tab(&window.views, 7), Some((1, 101, 77)));
    assert_eq!(window.views[0].active_session_id(), Some(7));
    assert_eq!(window.sessions.iter().map(|s| s.id).collect::<Vec<_>>(), vec![1, 7]);
    assert_eq!(window.detached.iter().map(|s| s.id).collect::<Vec<_>>(), vec![8]);
    // A session of a project that is gone lands in the active one; the popover closes.
    let last = window.claim_detached_session(8, claimed(8, 9), 88, 2, true);
    assert_eq!((last.active_project, last.popover_open, last.shown), (2, false, true));
    assert_eq!(find_session_tab(&window.views, 8), Some((2, 200, 88)));
    assert!(window.detached.is_empty());
    assert!(activate_session(&mut window.views, 1, 1));
    assert_eq!(window.views[0].active_session_id(), Some(1));
    assert!(!activate_session(&mut window.views, 2, 1));
    assert!(!activate_session(&mut window.views, 9, 1));
}

#[test]
fn a_new_terminal_gets_a_tab() {
    let mut window = WindowSessions {
        sessions: Vec::new(),
        detached: vec![session(7, 1, None, "seven")],
        views: vec![view(two_groups()), WindowProjectView::empty(2, 200)],
    };
    window.new_terminal(session(5, 1, Some(50), "five"), 101, 15, 1);
    assert_eq!(find_session_tab(&window.views, 5), Some((1, 101, 15)));
    assert_eq!(window.views[0].active_session_id(), Some(5));
    assert_eq!(window.sessions[0].id, 5);
    assert_eq!(window.detached.len(), 1);
    // Without the group there is no tab.
    window.new_terminal(session(6, 1, Some(50), "six"), 999, 16, 1);
    assert_eq!(find_session_tab(&window.views, 6), None);
    assert_eq!(window.sessions.len(), 2);
    assert_eq!(activate_session_by_id(&mut window.views, 1), Some(1));
    assert_eq!(window.views[0].active_session_id(), Some(1));
    assert_eq!(activate_session_by_id(&mut window.views, 77), None);
}

#[test]
fn projects_are_asked_for_by_name() {
    let projects = vec![project(1, "a", None)];
    let new = new_project_prompt(Language::English);
    assert_eq!((new.title, new.ok, new.cancel), ("New Project", "OK", "Cancel"));
    assert_eq!(new.placeholder, "Project name");
    let rename = rename_project_prompt(&projects, 1, Language::English).unwrap();
    assert_eq!((rename.title, rename.placeholder.as_str()), ("Rename Project", "a"));
    assert_eq!(rename.message, "Enter a new name for the project.");
    assert!(rename_project_prompt(&projects, 2, Language::English).is_none());
}

#[test]
fn edges_follow_a_held_button() {
    let mut drags = Drags {
        sidebar: Some(SidebarEdge::Left),
        split: Some(8),
        scrollbar: None,
        tab: None,
        selection: None,
    };
    assert_eq!(drag_sidebar(&mut drags, true), Some(SidebarEdge::Left));
    assert_eq!(drag_split(&mut drags, true), Some(8));
    assert_eq!(drag_sidebar(&mut drags, false), None);
    assert_eq!(drags.split, Some(8));
    assert_eq!(drag_split(&mut drags, false), None);
    assert_eq!(drags.split, None);
}

#[test]
fn the_title_bar_moves_the_window() {
    let mut pressed = false;
    let mut event = |e| title_bar_event(&mut pressed, e);
    assert_eq!(event(TitleBarEvent::Move), TitleBarAction::Nothing);
    assert_eq!(event(TitleBarEvent::Press), TitleBarAction::Nothing);
    assert_eq!(event(TitleBarEvent::Move), TitleBarAction::MoveWindow);
    assert_eq!(event(TitleBarEvent::Move), TitleBarAction::Nothing);
    event(TitleBarEvent::Press);
    event(TitleBarEvent::Release);
    assert_eq!(event(TitleBarEvent::Move), TitleBarAction::Nothing);
    assert_eq!(event(TitleBarEvent::Click { count: 2 }), TitleBarAction::DoubleClick);
    assert_eq!(event(TitleBarEvent::Click { count: 1 }), TitleBarAction::Nothing);
}

#[test]
fn a_cold_start_leaves_no_window_empty() {
    let projects = vec![project(2, "b", None), project(1, "a", Some("/a"))];
    let none = Vec::new();
    let start = |id| cold_start_terminal(&none, &projects, id, "/home", "/launch");
    assert_eq!(start(1), Some((1, "/a".to_owned())));
    assert_eq!(start(2), Some((2, "/home".to_owned())));
    assert_eq!(start(9), Some((9, "/launch".to_owned())));
    let some = vec![session(1, 1, Some(50), "one")];
    assert_eq!(cold_start_terminal(&some, &projects, 1, "/home", "/launch"), None);
}

#[test]
fn a_title_reaches_the_list_and_the_tabs() {
    let mut sessions = vec![session(1, 1, None, "one")];
    let mut views = vec![view(two_groups())];
    assert!(synchronize_session_title(&mut sessions, &mut views, 1, "uno"));
    assert_eq!(sessions[0].title, "uno");
    assert_eq!(views[0].layout.find_group(100).unwrap().items[0].title, "uno");
    assert!(!synchronize_session_title(&mut sessions, &mut views, 1, "uno"));
    assert!(!synchronize_session_title(&mut sessions, &mut views, 77, "x"));
}

fn traces() -> SessionTraces {
    let mut traces = SessionTraces {
        sessions: vec![session(1, 1, None, "one"), session(2, 1, None, "two")],
        focus: FocusState { has_focus: true, focused: Some(1) },
        snapshots: HashMap::new(),
        resizes: Resizes::new(),
        compositions: HashMap::new(),
        hovered: None,
        inspections: HashMap::new(),
        inspection_errors: HashMap::new(),
    };
    traces.snapshots.insert(1, 10);
    traces.snapshots.insert(2, 20);
    traces
}

fn inspection(name: &str) -> SessionInspection {
    SessionInspection {
        session_id: 1,
        processes: vec![process(7, None, name)],
        ports: Vec::new(),
    }
}

#[test]
fn a_closed_session_is_forgotten() {
    let mut kept = traces();
    let none = kept.prune_session_from_layouts(&Vec::new(), 1);
    assert!(none.is_empty());
    assert!(kept.snapshots.contains_key(&1));
    let tabs = kept.prune_session_from_layouts(&vec![view(two_groups())], 1);
    assert_eq!(tabs, vec![(1, 100, 11)]);
    assert!(!kept.snapshots.contains_key(&1));
    assert_eq!(kept.focus.focused, None);
    assert_eq!(kept.sessions.len(), 2);
    kept.close_session(1);
    assert_eq!(kept.sessions.iter().map(|s| s.id).collect::<Vec<_>>(), vec![2]);
    assert!(kept.snapshots.contains_key(&2));
}

#[test]
fn inspections_replace_each_other() {
    let mut kept = traces();
    assert!(kept.take_inspection(1, InspectionReply::Failed("gone".to_owned())));
    assert_eq!(kept.inspection_errors.get(&1).unwrap(), "session inspection failed: gone");
    assert!(kept.take_inspection(1, InspectionReply::Inspected(inspection("zsh"))));
    assert!(kept.inspection_errors.get(&1).is_none());
    assert!(!kept.take_inspection(1, InspectionReply::Inspected(inspection("zsh"))));
    assert!(kept.take_inspection(1, InspectionReply::Inspected(inspection("vim"))));
    assert!(kept.take_inspection(1, InspectionReply::Unexpected("Ok".to_owned())));
    assert_eq!(
        kept.inspection_errors.get(&1).unwrap(),
        "unexpected session-inspection response: Ok"
    );
    assert_eq!(kept.inspections.get(&1).unwrap().processes[0].name, "vim");
}

#[test]
fn the_right_sidebar_tells_of_the_session() {
    let sessions = vec![session(1, 1, None, "one")];
    let shown = |tab, active, found: &Option<SessionInspection>| {
        right_content(tab, &sessions, active, found, &None, Language::English)
    };
    match shown(RightTab::Info, Some(1), &Some(inspection("zsh"))) {
        RightContent::Info(Some(info)) => {
            assert_eq!(info.process_name, "zsh");
            assert_eq!(info.process_pid, "PID 7");
            assert_eq!(info.current_directory, "/1");
            assert_eq!(info.processes_label, "PROCESSES");
            assert_eq!(info.ports_label, "PORTS");
            assert_eq!(info.current_label, "Current directory");
            assert_eq!(info.initial_label, "Initial directory");
            assert!(matches!(
                info.findings,
                Findings::Known { processes: ProcessSection::Rows(rows), ports: None }
                    if rows.len() == 1
            ));
        }
        other => panic!("{other:?}"),
    }
    match shown(RightTab::Info, Some(1), &None) {
        RightContent::Info(Some(info)) => assert_eq!(
            info.findings,
            Findings::Unknown {
                processes: "Loading process information…".to_owned(),
                ports: "Loading port information…".to_owned(),
            }
        ),
        other => panic!("{other:?}"),
    }
    assert_eq!(shown(RightTab::Info, Some(9), &None), RightContent::Info(None));
    assert_eq!(shown(RightTab::Info, None, &None), RightContent::Info(None));
    assert!(matches!(
        shown(RightTab::Git, None, &None),
        RightContent::Note { heading: "SOURCE CONTROL", .. }
    ));
}

#[test]
fn tree_lines_join_processes() {
    assert!(process_tree_connector(&Vec::new()).is_empty());
    assert_eq!(
        process_tree_connector(&vec![true, false, true]),
        vec![Connector::Through, Connector::Blank, Connector::Tee]
    );
    assert_eq!(process_tree_connector(&vec![false]), vec![Connector::Corner]);
}

#[test]
fn surviving_sessions_are_claimed() {
    let sessions =
        vec![session(1, 5, None, "a"), session(2, 6, None, "b"), session(3, 7, None, "c")];
    assert_eq!(sessions_to_claim(&sessions, 6, "/3"), vec![2, 3]);
    // A separator at the end makes no other directory.
    assert_eq!(sessions_to_claim(&sessions, 9, "/3/"), vec![3]);
    assert!(sessions_to_claim(&sessions, 9, "3").is_empty());
    let views = vec![WindowProjectView::empty(6, 60), WindowProjectView::empty(7, 70)];
    assert_eq!(claim_target(&views, 6, 7), 6);
    assert_eq!(claim_target(&views, 5, 7), 7);
    let mut detached = sessions;
    assert!(drop_detached_session(&mut detached, 2, true));
    assert_eq!(detached.len(), 2);
    assert!(set_session_title(&mut detached, 3, "new"));
    assert_eq!(detached[1].title, "new");
}

#[test]
fn closing_asks_where_sessions_run() {
    let sessions = vec![session(1, 5, None, "a"), session(2, 6, None, "b")];
    assert!(close_needs_confirmation(false, &sessions));
    assert!(!close_needs_confirmation(true, &sessions));
    assert!(!close_needs_confirmation(false, &Vec::new()));
    assert_eq!(close_choice(0), CloseChoice::TerminateAll);
    assert_eq!(close_choice(1), CloseChoice::Detach);
    assert_eq!(close_choice(2), CloseChoice::Cancel);
    let all = close_step(CloseChoice::TerminateAll, &sessions);
    assert_eq!((all.terminate, all.detach, all.close), (vec![1, 2], false, true));
    let kept = close_step(CloseChoice::Detach, &sessions);
    assert_eq!((kept.terminate, kept.detach, kept.close), (Vec::new(), true, true));
    let none = close_step(CloseChoice::Cancel, &sessions);
    assert_eq!((none.terminate, none.detach, none.close), (Vec::new(), false, false));
    let dialog = close_dialog(Language::English);
    assert_eq!(dialog.title, "Close this Eggie window?");
    assert_eq!((dialog.terminate_all, dialog.detach), ("Terminate All", "Detach"));
    assert_eq!(close_dialog(Language::SimplifiedChinese).cancel, "取消");
    assert!(keeps_watching(&sessions, 2));
    assert!(!keeps_watching(&sessions, 3));
}

#[test]
fn tabs_are_stepped_through() {
    let layout = two_groups();
    // The last tab of the group is in front: the next one is the first.
    assert_eq!(relative_tab(&layout, 100, true), Some(11));
    assert_eq!(relative_tab(&layout, 100, false), Some(12));
    assert_eq!(relative_tab(&layout, 101, true), None);
    assert_eq!(tab_to_close(&layout, 100), Some(14));
    assert_eq!(tab_to_close(&layout, 7), None);
}

#[test]
fn a_drop_has_one_target() {
    let layout = two_groups();
    let center = TabDropZone::Center;
    assert_eq!(content_drop_target(&layout, 101, 101, center), None);
    let target = content_drop_target(&layout, 101, 100, center);
    assert_eq!(target, Some(TabDropTarget { group_id: 100, zone: center }));
    let mut current = None;
    assert!(set_drop_target(&mut current, target));
    assert!(!set_drop_target(&mut current, target));
    assert_eq!(handle_tab_drop(&mut current), Some(TabMove::ToGroup { target: 100 }));
    assert_eq!(current, None);
    assert_eq!(handle_tab_drop(&mut current), None);
    current = Some(tab_bar_drop_target(100, 2));
    assert_eq!(
        handle_tab_drop(&mut current),
        Some(TabMove::ToPosition { target: 100, index: 2 })
    );
    current = Some(TabDropTarget { group_id: 100, zone: TabDropZone::Edge(Direction::Up) });
    assert_eq!(
        handle_tab_drop(&mut current),
        Some(TabMove::ToNewGroup { target: 100, direction: Direction::Up })
    );
}

#[test]
fn a_move_shows_its_destination() {
    let moved = after_move(view(two_groups()), two_groups(), Some(101));
    assert_eq!(moved.active_group_id, 101);
    assert_eq!(move_enabled(None, Some(1), None, Some(2)), [false, true, false, true]);
    let layout = two_groups();
    assert_eq!(
        tab_menu_command(&layout, 100, 11, TabMenuCommand::Split(Direction::Left)),
        Some(TabMenuCommand::Split(Direction::Left))
    );
    assert_eq!(
        tab_menu_command(&layout, 100, 99, TabMenuCommand::Split(Direction::Left)),
        None
    );
}

/// Session 1 waits at 40 percent, and session 3 rang a bell 100 milliseconds ago.
fn item_facts() -> ItemFacts {
    let progress = TerminalProgress {
        state: TerminalProgressState::Paused,
        percent: Some(40),
        updated_at_unix_ms: 1_000,
    };
    let update = TerminalProgressUpdate { session_id: 1, revision: 1, progress: Some(progress) };
    let ended = TerminalProgressUpdate { session_id: 3, revision: 1, progress: None };
    ItemFacts {
        progress: HashMap::from([(1, update), (3, ended)]),
        flashes: HashMap::from([(1, 0), (3, 400)]),
        palette: [0, 1, 2, 3, 4, 5, 6, 7, 8, 9, 10, 11, 12, 13, 14, 15],
        accent: 99,
        language: Language::English,
        now_unix_ms: 6_000,
        now_ms: 500,
    }
}

#[test]
fn a_ring_takes_the_place_of_an_icon() {
    let facts = item_facts();
    match facts.icon(ItemKind::Terminal, Some(1)) {
        ItemIcon::Ring { progress, color, label } => {
            assert_eq!(progress.percent, Some(40));
            assert_eq!(color, 3);
            assert_eq!(label, "Paused · 40% · updated 5s ago");
        }
        ItemIcon::Kind(_) => panic!("the session reports progress"),
    }
    assert_eq!(facts.icon(ItemKind::Terminal, Some(3)), ItemIcon::Kind(IconName::Terminal));
    assert_eq!(facts.icon(ItemKind::File, None), ItemIcon::Kind(IconName::File));
    assert_eq!(facts.flash(Some(1)), None);
    assert_eq!(facts.flash(Some(3)), Some(100));
    assert_eq!(facts.flash(Some(4)), None);
    assert_eq!(facts.flash(None), None);
}

fn facts() -> WindowFacts {
    WindowFacts {
        top_left: 100,
        top_right: 100,
        active_group: 100,
        left_sidebar_collapsed: true,
        right_sidebar_collapsed: false,
        drop_target: Some(tab_bar_drop_target(100, 1)),
        hovered_session: Some(2),
        searched_session: None,
        search_answered: true,
        cursor_blink: CursorBlink::Program,
        blink_ms: 700,
        poll_error: None,
    }
}

#[test]
fn a_group_is_drawn_as_it_is() {
    let shown = TabGroup {
        id: 100,
        items: vec![tab(11, 1, "one"), tab(12, 2, "two")],
        active_item_id: Some(12),
    };
    let whole = LayoutEdges { left: true, right: true, top: true, bottom: true };
    let terminal = Some(ShownTerminal {
        captures_mouse: true,
        history_size: 9,
        cursor_hidden: false,
        cursor_blinking: true,
    });
    let drawn = group_view(&shown, whole, terminal, &facts(), &item_facts());
    assert_eq!(drawn.left_sidebar_button, Some("Expand sidebar"));
    assert_eq!(drawn.new_terminal_tooltip, "New terminal");
    assert_eq!(drawn.tabs.iter().map(|t| t.place.active).collect::<Vec<_>>(), vec![false, true]);
    let place = drawn.tabs[1].place;
    assert!(place.mark_before && !place.mark_after && !drawn.mark_first);
    assert_eq!(drawn.tabs.iter().map(|t| t.title.as_str()).collect::<Vec<_>>(), vec!["one", "two"]);
    assert!(matches!(drawn.tabs[0].icon, ItemIcon::Ring { color: 3, .. }));
    assert_eq!(drawn.tabs[1].icon, ItemIcon::Kind(IconName::Terminal));
    assert_eq!(
        drawn.right_sidebar_button,
        Some((IconName::PanelRightClose, "Toggle info panel"))
    );
    assert_eq!(
        drawn.content,
        GroupContent::Terminal {
            session_id: 2,
            takes_input: true,
            cursor_visible: false,
            link_underlined: true,
            matches_marked: false,
        }
    );
    let searched = WindowFacts {
        searched_session: Some(2),
        hovered_session: None,
        cursor_blink: CursorBlink::Off,
        ..facts()
    };
    assert_eq!(
        group_view(&shown, whole, terminal, &searched, &item_facts()).content,
        GroupContent::Terminal {
            session_id: 2,
            takes_input: true,
            cursor_visible: true,
            link_underlined: false,
            matches_marked: true,
        }
    );
    assert_eq!(drawn.pointer, Pointer::Hand);
    assert!(drawn.scrollbar && !drawn.search_bar);
    let waiting = group_view(&shown, whole, None, &facts(), &item_facts());
    assert_eq!(waiting.content, GroupContent::Message("Connecting to terminal…".to_owned()));
    let failed = WindowFacts { poll_error: Some("gone".to_owned()), ..facts() };
    let waiting = group_view(&shown, whole, None, &failed, &item_facts());
    assert_eq!(waiting.content, GroupContent::Message("gone".to_owned()));
}

#[test]
fn the_sidebar_lists_what_is_open() {
    let mut collapsed = false;
    let mut resizing = Some(SidebarEdge::Left);
    toggle_sidebar(&mut collapsed, &mut resizing);
    assert!(collapsed && resizing.is_none());

    let sessions = vec![
        session(9, 1, None, "loose"),
        session(3, 1, None, "three"),
        session(1, 1, None, "one"),
        session(8, 2, None, "other"),
    ];
    let ordered = sidebar_sessions_in_layout_order(&sessions, 1, &two_groups());
    assert_eq!(ordered.iter().map(|s| s.id).collect::<Vec<_>>(), vec![1, 3, 9]);

    let state = SidebarState {
        views: vec![view(two_groups()), WindowProjectView::empty(2, 200)],
        collapsed: HashSet::from([2]),
        active_project: 1,
        active_session: Some(3),
        items: item_facts(),
    };
    let rows = left_sidebar_rows(
        &vec![project(1, "a", None), project(2, "b", None), project(3, "c", None)],
        &sessions,
        &state,
    );
    assert_eq!(rows.len(), 5);
    assert!(matches!(
        &rows[0],
        SidebarRow::Project { project_id: 1, active: true, icon: IconName::FolderOpen, .. }
    ));
    assert!(matches!(
        &rows[2],
        SidebarRow::Session { session_id: 3, active: true, flash: Some(100), .. }
    ));
    assert!(matches!(
        &rows[1],
        SidebarRow::Session { session_id: 1, icon: ItemIcon::Ring { .. }, flash: None, .. }
    ));
    assert!(matches!(
        &rows[4],
        SidebarRow::Project { project_id: 2, icon: IconName::Folder, .. }
    ));
}

#[test]
fn detached_sessions_are_grouped() {
    let sessions = vec![session(1, 7, None, "x"), session(2, 1, None, "y")];
    let panel =
        detached_panel(true, &vec![project(1, "a", None)], &sessions, Language::English).unwrap();
    assert_eq!(panel.claim_tooltip, "Claim to this window");
    assert_eq!(panel.destroy_tooltip, "Destroy session");
    let groups = panel.groups;
    let members: usize = groups.iter().map(|g| g.members.len()).sum();
    assert_eq!(members, 2);
    assert_eq!(groups[0].title, "a");
    assert!(groups.iter().any(|g| g.members == vec![1]));
    assert!(detached_panel(false, &Vec::new(), &sessions, Language::English).is_none());
    assert_eq!(detached_count(&sessions), Some(2));
    assert_eq!(detached_count(&Vec::new()), None);
    assert!(groups.iter().any(|g| g.title == "Other"));
    let heading = left_heading(&sessions, Language::English);
    assert_eq!(heading.label, "PROJECTS");
    assert_eq!(heading.detached, Some((2, "Detached sessions")));
    assert_eq!(left_heading(&Vec::new(), Language::English).detached, None);
    assert_eq!(right_tab_title(RightTab::Files, Language::English), "Files");
    // A component sorts before a longer one that starts with it.
    assert!(path_order_key("/a/b") < path_order_key("/a-b"));
}

#[test]
fn directories_open_as_chosen() {
    assert_eq!(open_path_arguments("/a", OpenWith::Finder), vec!["/a".to_owned()]);
    assert_eq!(open_path_arguments("/a", OpenWith::VsCode).last().unwrap(), "/a");
    let current = DirectoryField::Current;
    assert_eq!(toggle_dropdown(None, current), Some(current));
    assert_eq!(toggle_dropdown(Some(current), current), None);
    assert_eq!(dismiss_dropdown(Some(current), current), None);
    assert_eq!(dismiss_dropdown(Some(DirectoryField::Initial), current), Some(DirectoryField::Initial));
    assert_eq!(set_open_directory_with(OpenWith::Finder, OpenWith::Finder), None);
    assert_eq!(
        set_open_directory_with(OpenWith::Finder, OpenWith::VsCode),
        Some(OpenWith::VsCode)
    );
    let actions = directory_actions(current, OpenWith::Finder, Some(current));
    let entries = actions.entries.unwrap();
    assert_eq!(entries.iter().filter(|e| e.selected).count(), 1);
    assert!(actions.copy_id.contains(current.slug()));
    assert!(directory_actions(current, OpenWith::Finder, None).entries.is_none());
    assert_eq!(inspection_placeholder(&None, "Loading"), "Loading");
    assert_eq!(inspection_placeholder(&Some("gone".to_owned()), "Loading"), "gone");
    assert_ne!(right_tab_icon(RightTab::Git), right_tab_icon(RightTab::Info));
    assert_ne!(item_kind_icon(ItemKind::Terminal), item_kind_icon(ItemKind::Browser));
}

#[test]
fn updates_show_a_mark_and_a_panel() {
    assert_eq!(update_indicator(&UpdateState::Idle), None);
    assert_eq!(update_indicator(&UpdateState::Available).unwrap().icon, IconName::Download);
    let loading =
        UpdateState::Downloading { downloaded: 5, total: Some(0), bytes_per_sec: 7 };
    assert_eq!(update_indicator(&loading).unwrap().progress, Some((5, 1)));
    assert_eq!(
        update_panel(true, &loading),
        Some(UpdatePanel::Downloading {
            heading: UpdateText::Downloading,
            downloaded: 5,
            total: 1,
            bytes_per_sec: 7,
        })
    );
    assert_eq!(indicator_click(&UpdateState::Available, true), IndicatorClick::OpenWindow);
    assert_eq!(indicator_click(&loading, true), IndicatorClick::Panel(false));
    assert_eq!(
        update_panel(true, &UpdateState::Ready { daemon_compatible: false }),
        Some(UpdatePanel::Ready {
            heading: UpdateText::ReadyRestartWithDaemon,
            warning: Some(UpdateText::DaemonWarning),
            later: UpdateText::Later,
            restart: UpdateText::RestartWithDaemon,
        })
    );
    assert_eq!(update_panel(false, &loading), None);
    assert_eq!(error_line("Failed", "no net"), "Failed: no net");
    assert_eq!(panel_button(PanelButton::Retry, true), (UpdaterRequest::Check, false));
    assert_eq!(
        panel_button(PanelButton::Restart, true),
        (UpdaterRequest::InstallAndRestart, true)
    );
}

#[test]
fn actions_reach_the_terminal_in_front() {
    assert_eq!(workspace_command(Action::NextTab), WorkspaceCommand::StepTab { forward: true });
    assert_eq!(
        terminal_request(workspace_command(Action::ClearScreen), Some(3)),
        Some(TerminalRequest::FormFeed { session_id: 3 })
    );
    assert_eq!(
        terminal_request(workspace_command(Action::PageUp), Some(3)),
        Some(TerminalRequest::Scroll { session_id: 3, command: ScrollCommand::PageUp })
    );
    assert_eq!(terminal_request(workspace_command(Action::TerminalCopy), None), None);
    assert_eq!(terminal_request(workspace_command(Action::Quit), Some(3)), None);
    assert_eq!(clear_screen_bytes(), vec![0x0c]);
    let commands: Vec<WorkspaceCommand> =
        action_specs().iter().map(|spec| workspace_command(spec.action)).collect();
    for (index, command) in commands.iter().enumerate() {
        assert!(!commands[..index].contains(command), "{command:?}");
    }
}

#[test]
fn pasting_sends_text_or_all() {
    let held = Some(vec![
        ClipboardEntry::Text("t".to_owned()),
        ClipboardEntry::Image { mime_type: "image/png".to_owned(), bytes: vec![1] },
    ]);
    let text = Some("t".to_owned());
    assert!(matches!(paste_plan(None, &held, &text, false), PastePlan::Nothing));
    assert!(matches!(paste_plan(Some(1), &None, &None, false), PastePlan::Nothing));
    assert!(matches!(
        paste_plan(Some(1), &held, &text, false),
        PastePlan::Text { session_id: 1, text } if text == "t"
    ));
    match paste_plan(Some(1), &held, &text, true) {
        PastePlan::Rich { session_id, contents } => {
            assert_eq!(session_id, 1);
            assert_eq!(contents.len(), 2);
            assert_eq!(contents[1].mime_type, "image/png");
        }
        other => panic!("{other:?}"),
    }
}

#[test]
fn processes_are_signalled_or_copied() {
    let path = Some("/bin/zsh".to_owned());
    assert!(matches!(
        process_menu_action(ProcessMenuCommand::ForceKill, 9, &path),
        ProcessMenuAction::Signal { pid: 9, forced: true }
    ));
    assert!(matches!(
        process_menu_action(ProcessMenuCommand::CopyPid, 9, &path),
        ProcessMenuAction::CopyText(t) if t == "9"
    ));
    assert!(matches!(
        process_menu_action(ProcessMenuCommand::CopyExecutablePath, 9, &path),
        ProcessMenuAction::CopyText(t) if t == "/bin/zsh"
    ));
    assert!(matches!(
        process_menu_action(ProcessMenuCommand::CopyExecutablePath, 9, &None),
        ProcessMenuAction::Nothing
    ));
}

#[test]
fn sessions_hear_of_changed_settings_only() {
    let settings = SessionSettings {
        timeouts: progress_timeouts(3, u64::MAX),
        allow_clipboard_read: false,
        detect_urls: true,
        cursor_shape: 1,
        scrollback_limit: 1000,
    };
    assert_eq!(settings.timeouts.completed_ms, 3000);
    assert_eq!(settings.timeouts.stale_ms, u64::MAX);
    assert!(settings_changes(&vec![1, 2], settings, settings, false).is_empty());
    let changed = SessionSettings { detect_urls: false, ..settings };
    assert_eq!(
        settings_changes(&vec![1, 2], settings, changed, false),
        vec![(1, SessionSetting::UrlDetection(false)), (2, SessionSetting::UrlDetection(false))]
    );
    let told = session_setup(&vec![1, 2], settings);
    assert!(told.contains(&(2, SessionSetting::ScrollbackLimit(1000))));
    // One that comes later is told of two settings only.
    assert_eq!(
        arrival_setup(3, settings),
        vec![
            (3, SessionSetting::ProgressTimeouts(settings.timeouts)),
            (3, SessionSetting::OscPolicy(settings.allow_clipboard_read)),
        ]
    );
}

#[test]
fn a_paste_ends_selection_and_composition() {
    let composed = || TerminalImeState { text: "ni".to_owned(), start: 2, end: 2 };
    let mut compositions = HashMap::new();
    compositions.insert(1, composed());
    compositions.insert(2, composed());
    let plan = PastePlan::Text { session_id: 1, text: "t".to_owned() };
    let nothing = PasteEnd { done: false, clear_selection: None, redraw: false };
    assert_eq!(finish_paste(&plan, false, &mut compositions), nothing);
    assert_eq!(finish_paste(&PastePlan::Nothing, true, &mut compositions), nothing);
    assert_eq!(compositions.len(), 2);
    let end = finish_paste(&plan, true, &mut compositions);
    assert_eq!(end, PasteEnd { done: true, clear_selection: Some(1), redraw: true });
    assert!(!compositions.contains_key(&1) && compositions.contains_key(&2));
    let again = finish_paste(
        &PastePlan::Rich { session_id: 1, contents: Vec::new() },
        true,
        &mut compositions,
    );
    assert_eq!(again, PasteEnd { done: true, clear_selection: Some(1), redraw: false });
}

#[test]
fn the_scrollbar_follows_the_drag() {
    let drag = ScrollbarDrag { group_id: 1, session_id: 2, pending_offset: 7 };
    assert_eq!(scrollbar_view(None, 1, 0, 0, 0x112233), None);
    let idle = scrollbar_view(None, 1, 10, 3, 0x112233).unwrap();
    assert_eq!(idle.offset, 3);
    assert_eq!(idle.color >> 8, 0x112233);
    assert_eq!(scrollbar_view(Some(drag), 1, 10, 3, 0).unwrap().offset, 7);
    assert_eq!(scrollbar_view(Some(drag), 9, 10, 3, 0).unwrap().offset, 3);
    assert_eq!(scrollbar_track_click(TrackPart::Above), Some(ScrollCommand::PageUp));
    assert_eq!(scrollbar_track_click(TrackPart::Thumb), None);
    let mut held = Some(drag);
    assert_eq!(drag_scrollbar(&mut held, true, Some(4)), Some((2, 4)));
    assert_eq!(held.unwrap().pending_offset, 4);
    assert_eq!(drag_scrollbar(&mut held, false, Some(5)), None);
    assert!(held.is_none());
}

#[test]
fn both_languages_have_their_words() {
    assert_eq!(Language::English.cancel(), "Cancel");
    assert_eq!(Language::SimplifiedChinese.cancel(), "取消");
    assert_eq!(Language::English.updated_seconds_ago(3), "updated 3s ago");
}

#[test]
fn a_window_starts_with_a_tab_for_each_session() {
    let views = initial_views(
        &vec![project(1, "a", None), project(2, "b", None)],
        &vec![100, 200],
        &vec![
            session(11, 2, None, "x"),
            session(12, 9, None, "y"),
            session(13, 2, None, "z"),
        ],
        &vec![21, 22, 23],
    );
    assert_eq!(views.len(), 2);
    assert_eq!(find_session_tab(&views, 11), Some((2, 200, 21)));
    assert_eq!(find_session_tab(&views, 13), Some((2, 200, 23)));
    assert_eq!(find_session_tab(&views, 12), None);
    assert_eq!(views[1].active_session_id(), Some(13));
}

#[test]
fn menu_actions_reach_the_window() {
    assert_eq!(
        window_command(WindowAction::SplitUp),
        WorkspaceCommand::Split(Direction::Up)
    );
    let next = window_command(WindowAction::FindNext);
    assert_eq!(next, WorkspaceCommand::StepMatch { forward: true });
    assert!(ends_with_the_window(next, false));
    assert!(!ends_with_the_window(workspace_command(Action::TerminalCopy), false));
    assert!(ends_with_the_window(workspace_command(Action::TerminalCopy), true));
}

#[test]
fn letting_go_ends_every_drag() {
    let mut drags = Drags {
        sidebar: Some(SidebarEdge::Left),
        split: Some(5),
        scrollbar: None,
        tab: Some(tab_bar_drop_target(100, 1)),
        selection: Some(SelectionDrag { group_id: 1, session_id: 2, dragged: true }),
    };
    assert_eq!(release_button(&mut drags, true), DragEnd::Copy { session_id: 2 });
    assert!(drags.sidebar.is_none() && drags.split.is_none() && drags.tab.is_none());
    assert_eq!(release_button(&mut drags, true), DragEnd::Nothing);
}
