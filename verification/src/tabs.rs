//! The tabs of a group: moving between them, dragging them, and what a group shows.

use vstd::prelude::*;

use crate::i18n;
use crate::icons::IconName;
use crate::layout;
use crate::layout::{
    terminal_container_borders, terminal_container_corners, Direction, GroupId, ItemId, LayoutEdges,
    LayoutNode, SessionId, TabGroup, TerminalContainerBorders, TerminalContainerCorners,
};
use crate::projects;
use crate::projects::WindowProjectView;
use crate::terminals;
use crate::terminals::{
    cursor_should_blink, cursor_visible_this_frame, CursorBlink, ItemFacts, ItemIcon,
};

verus! {

/// Where a dragged tab would land in a group.
#[derive(Clone, Copy, Debug, PartialEq, Eq, Structural)]
pub enum TabDropZone {
    /// Among the tabs of the group.
    Center,
    /// In a group of its own at a side of the group.
    Edge(Direction),
    /// In the tab bar, in front of the tab at this position.
    TabBar {
        /// The position.
        insertion_index: usize,
    },
}

/// Where a dragged tab would land.
#[derive(Clone, Copy, Debug, PartialEq, Eq, Structural)]
pub struct TabDropTarget {
    /// In which group.
    pub group_id: GroupId,
    /// Where in it.
    pub zone: TabDropZone,
}

/// Whether a tab that is dragged over the content of a group can be dropped there. The only tab of
/// a group would come to lie where it is.
pub fn should_show_content_drop_target(
    source_group_id: GroupId,
    target_group_id: GroupId,
    source_item_count: usize,
) -> (r: bool)
    ensures
        r == (source_group_id != target_group_id || source_item_count >= 2),
{
    source_group_id != target_group_id || source_item_count >= 2
}

/// How many tabs the group of a dragged tab has; none where the group is gone.
pub open spec fn tabs_in(l: LayoutNode, id: GroupId) -> nat {
    match layout::group_with(layout::groups(l), id) {
        Some(g) => g.items@.len(),
        None => 0,
    }
}

/// The target while a tab is dragged over the content of `group_id`: none where it cannot be
/// dropped there.
pub fn content_drop_target(
    l: &LayoutNode,
    source_group_id: GroupId,
    group_id: GroupId,
    zone: TabDropZone,
) -> (r: Option<TabDropTarget>)
    ensures
        r == if source_group_id != group_id || tabs_in(*l, source_group_id) >= 2 {
            Some(TabDropTarget { group_id, zone })
        } else {
            None
        },
{
    let count: usize = match l.find_group(source_group_id) {
        Some(g) => g.items.len(),
        None => 0,
    };
    if should_show_content_drop_target(source_group_id, group_id, count) {
        Some(TabDropTarget { group_id, zone })
    } else {
        None
    }
}

/// The target while a tab is dragged over the tab bar of `group_id`.
pub fn tab_bar_drop_target(group_id: GroupId, insertion_index: usize) -> (r: TabDropTarget)
    ensures
        r == (TabDropTarget { group_id, zone: TabDropZone::TabBar { insertion_index } }),
{
    TabDropTarget { group_id, zone: TabDropZone::TabBar { insertion_index } }
}

/// Sets the target; says whether it changed and the window is to be drawn anew.
pub fn set_drop_target(current: &mut Option<TabDropTarget>, target: Option<TabDropTarget>) -> (r:
    bool)
    ensures
        *final(current) == target,
        r == (*old(current) != target),
{
    let changed: bool = match (*current, target) {
        (None, None) => false,
        (Some(a), Some(b)) => !(a == b),
        _ => true,
    };
    *current = target;
    changed
}

/// What dropping a tab asks of the layout.
#[derive(Clone, Copy, Debug, PartialEq, Eq, Structural)]
pub enum TabMove {
    /// Move it behind the tabs of a group.
    ToGroup {
        /// The group.
        target: GroupId,
    },
    /// Move it to a new group beside one.
    ToNewGroup {
        /// The group.
        target: GroupId,
        /// On which side of it.
        direction: Direction,
    },
    /// Move it in front of the tab at a position of a group.
    ToPosition {
        /// The group.
        target: GroupId,
        /// The position.
        index: usize,
    },
}

/// What dropping a tab asks of the layout; nothing where there is no target. The target is gone
/// afterwards.
pub fn handle_tab_drop(target: &mut Option<TabDropTarget>) -> (r: Option<TabMove>)
    ensures
        *final(target) is None,
        r == match *old(target) {
            None => None,
            Some(t) => Some(
                match t.zone {
                    TabDropZone::Center => TabMove::ToGroup { target: t.group_id },
                    TabDropZone::Edge(direction) => TabMove::ToNewGroup {
                        target: t.group_id,
                        direction,
                    },
                    TabDropZone::TabBar { insertion_index } => TabMove::ToPosition {
                        target: t.group_id,
                        index: insertion_index,
                    },
                },
            ),
        },
{
    let taken: Option<TabDropTarget> = *target;
    *target = None;
    match taken {
        None => None,
        Some(t) => Some(
            match t.zone {
                TabDropZone::Center => TabMove::ToGroup { target: t.group_id },
                TabDropZone::Edge(direction) => TabMove::ToNewGroup {
                    target: t.group_id,
                    direction,
                },
                TabDropZone::TabBar { insertion_index } => TabMove::ToPosition {
                    target: t.group_id,
                    index: insertion_index,
                },
            },
        ),
    }
}

/// The view after a tab was moved: the layout as it came out, and the group that now holds the tab
/// in front; the layout may also have refused, and then the group in front stays.
pub fn after_move(view: WindowProjectView, moved: LayoutNode, destination: Option<GroupId>) -> (r:
    WindowProjectView)
    ensures
        projects::shown(r).project == projects::shown(view).project,
        projects::shown(r).layout == projects::tree(moved),
        projects::shown(r).active == match destination {
            Some(g) => g,
            None => projects::shown(view).active,
        },
{
    let active_group_id: GroupId = match destination {
        Some(g) => g,
        None => view.active_group_id,
    };
    WindowProjectView { project_id: view.project_id, layout: moved, active_group_id }
}

/// Whether the tab menu offers to move a tab up, down, left and right: where the layout has a
/// neighbor there.
pub fn move_enabled(
    up: Option<GroupId>,
    down: Option<GroupId>,
    left: Option<GroupId>,
    right: Option<GroupId>,
) -> (r: [bool; 4])
    ensures
        r@ == seq![up is Some, down is Some, left is Some, right is Some],
{
    let r: [bool; 4] = [up.is_some(), down.is_some(), left.is_some(), right.is_some()];
    assert(r@ =~= seq![up is Some, down is Some, left is Some, right is Some]);
    r
}

/// A command of the tab menu.
#[derive(Clone, Copy, Debug, PartialEq, Eq, Structural)]
pub enum TabMenuCommand {
    /// Open a terminal in a new group on this side.
    Split(Direction),
    /// Move the tab to the neighbor on this side.
    Move(Direction),
}

/// Whether a group still holds a tab.
pub open spec fn holds_tab(l: LayoutNode, group_id: GroupId, item_id: ItemId) -> bool {
    layout::group_with(layout::groups(l), group_id) matches Some(g) && exists|i: int|
        0 <= i < g.items@.len() && (#[trigger] g.items@[i]).id == item_id
}

/// The command that the tab menu gave, unless the tab is gone by then.
pub fn tab_menu_command(
    l: &LayoutNode,
    group_id: GroupId,
    item_id: ItemId,
    command: TabMenuCommand,
) -> (r: Option<TabMenuCommand>)
    ensures
        r == if holds_tab(*l, group_id, item_id) {
            Some(command)
        } else {
            None
        },
{
    match l.find_group(group_id) {
        None => None,
        Some(g) => {
            let mut i: usize = 0;
            while i < g.items.len()
                invariant
                    i <= g.items@.len(),
                    forall|j: int| 0 <= j < i ==> (#[trigger] g.items@[j]).id != item_id,
                    layout::group_with(layout::groups(*l), group_id) == Some(*g),
                decreases g.items@.len() - i,
            {
                if g.items[i].id == item_id {
                    return Some(command);
                }
                i = i + 1;
            }
            None
        },
    }
}

/// The tab `delta` places from the one in front, counted round; none where a group has fewer than
/// two, or shows none of its tabs.
pub open spec fn tab_at_distance(g: TabGroup, delta: int) -> Option<ItemId> {
    let n = g.items@.len() as int;
    match g.active_item_id {
        None => None,
        Some(active) => {
            let current = layout::item_index(g.items@, active);
            if n < 2 || current >= n {
                None
            } else {
                Some(g.items@[(current + delta) % n].id)
            }
        },
    }
}

/// The tab to show when the user steps forward or back through the tabs of a group.
pub fn relative_tab(l: &LayoutNode, group_id: GroupId, forward: bool) -> (r: Option<ItemId>)
    ensures
        r == match layout::group_with(layout::groups(*l), group_id) {
            Some(g) => tab_at_distance(
                g,
                if forward {
                    1
                } else {
                    -1
                },
            ),
            None => None,
        },
{
    let g: &TabGroup = match l.find_group(group_id) {
        None => {
            return None;
        },
        Some(g) => g,
    };
    let n: usize = g.items.len();
    let active: ItemId = match g.active_item_id {
        None => {
            return None;
        },
        Some(id) => id,
    };
    if n < 2 {
        return None;
    }
    let mut i: usize = 0;
    assert(g.items@.skip(0) =~= g.items@);
    while i < n
        invariant
            i <= n == g.items@.len(),
            n >= 2,
            g.active_item_id == Some(active),
            layout::group_with(layout::groups(*l), group_id) == Some(*g),
            layout::item_index(g.items@, active) == i + layout::item_index(
                g.items@.skip(i as int),
                active,
            ),
        decreases n - i,
    {
        if g.items[i].id == active {
            assert(g.items@.skip(i as int)[0] == g.items@[i as int]);
            let next: usize = if forward {
                if i + 1 == n {
                    0
                } else {
                    i + 1
                }
            } else {
                if i == 0 {
                    n - 1
                } else {
                    i - 1
                }
            };
            proof {
                let d: int = if forward { 1 } else { -1 };
                assert((i + d) % (n as int) == next) by (nonlinear_arith)
                    requires
                        n >= 2,
                        0 <= i < n,
                        d == 1 || d == -1,
                        d == 1 ==> next == (if i + 1 == n { 0 } else { i + 1 }),
                        d == -1 ==> next == (if i == 0 { n - 1 } else { i - 1 }),
                ;
            }
            return Some(g.items[next].id);
        }
        assert(g.items@.skip(i as int).skip(1) =~= g.items@.skip(i + 1));
        i = i + 1;
    }
    None
}

/// The tab that closing the tab in front closes.
pub fn tab_to_close(l: &LayoutNode, group_id: GroupId) -> (r: Option<ItemId>)
    ensures
        r == match layout::group_with(layout::groups(*l), group_id) {
            Some(g) => g.active_item_id,
            None => None,
        },
{
    match l.find_group(group_id) {
        Some(g) => g.active_item_id,
        None => None,
    }
}

/// Stepping forward and then back comes to the tab that was in front, where no two tabs of the
/// group have the same id.
pub proof fn a_step_back_undoes_a_step(g: TabGroup, h: TabGroup)
    requires
        g.items == h.items,
        forall|i: int, j: int|
            0 <= i < j < g.items@.len() ==> (#[trigger] g.items@[i]).id != (#[trigger] g.items@[j]).id,
        tab_at_distance(g, 1) is Some,
        h.active_item_id == tab_at_distance(g, 1),
    ensures
        tab_at_distance(h, -1) == g.active_item_id,
{
    let n = g.items@.len() as int;
    let active = g.active_item_id->0;
    let current = layout::item_index(g.items@, active);
    layout::item_index_bounds(g.items@, active);
    layout::item_index_found(g.items@, active);
    let next = (current + 1) % n;
    assert(0 <= next < n) by (nonlinear_arith)
        requires
            n >= 2,
            next == (current + 1) % n,
    ;
    let shown = g.items@[next].id;
    layout::item_index_is_first(g.items@, shown, next);
    let found = layout::item_index(g.items@, shown);
    assert(found == next);
    assert((next - 1) % n == current) by (nonlinear_arith)
        requires
            n >= 2,
            0 <= current < n,
            next == (current + 1) % n,
    ;
}

/// Where a tab stands in its bar, and what marks it.
#[derive(Clone, Copy, Debug, PartialEq, Eq, Structural)]
pub struct TabPlace {
    /// Which tab.
    pub item_id: ItemId,
    /// Whether it is in front.
    pub active: bool,
    /// Whether there is a gap behind it: the last one has none.
    pub gap_after: bool,
    /// Whether the mark of a drop stands in front of it. In front of the first tab it belongs to
    /// the tab bar.
    pub mark_before: bool,
    /// Whether the mark of a drop stands behind it.
    pub mark_after: bool,
}

/// A tab of a group as it is drawn.
#[derive(Clone, Debug, PartialEq, Eq)]
pub struct TabView {
    /// Where it stands.
    pub place: TabPlace,
    /// What stands in front of its title.
    pub icon: ItemIcon,
    /// Its title.
    pub title: String,
    /// For how long it has been flashing after a bell.
    pub flash: Option<u64>,
}

/// The position in the tab bar of a group where a dragged tab would land.
pub open spec fn bar_position(target: Option<TabDropTarget>, group_id: GroupId) -> Option<usize> {
    match target {
        Some(t) => if t.group_id == group_id {
            match t.zone {
                TabDropZone::TabBar { insertion_index } => Some(insertion_index),
                _ => None,
            }
        } else {
            None
        },
        None => None,
    }
}

/// The part of the content of a group where a dragged tab would land: all of it, or a half.
pub open spec fn content_zone(target: Option<TabDropTarget>, group_id: GroupId) -> Option<
    Option<Direction>,
> {
    match target {
        Some(t) => if t.group_id == group_id {
            match t.zone {
                TabDropZone::Center => Some(None),
                TabDropZone::Edge(d) => Some(Some(d)),
                TabDropZone::TabBar { .. } => None,
            }
        } else {
            None
        },
        None => None,
    }
}

/// Where tab `i` of a group stands.
pub open spec fn tab_place(g: TabGroup, position: Option<usize>, i: int) -> TabPlace {
    let n = g.items@.len();
    TabPlace {
        item_id: g.items@[i].id,
        active: g.active_item_id == Some(g.items@[i].id),
        gap_after: i + 1 < n,
        mark_before: i != 0 && (position matches Some(p) && p == i),
        mark_after: i + 1 == n && (position matches Some(p) && p == n),
    }
}

/// What the mouse pointer looks like over the content of a group.
#[derive(Clone, Copy, Debug, PartialEq, Eq, Structural)]
pub enum Pointer {
    /// Over a link.
    Hand,
    /// Over a program that takes the mouse.
    Arrow,
    /// Over text.
    Text,
}

/// What a group shows below its tabs.
#[derive(Clone, Debug, PartialEq, Eq)]
pub enum GroupContent {
    /// A terminal, which takes what is typed where its group is in front.
    Terminal {
        /// Its session.
        session_id: SessionId,
        /// Whether it takes what is typed.
        takes_input: bool,
        /// Whether the cursor is painted.
        cursor_visible: bool,
        /// Whether the link under the pointer is underlined.
        link_underlined: bool,
        /// Whether what a search found is marked.
        matches_marked: bool,
    },
    /// A sentence, while there is no terminal to show.
    Message(String),
}

/// What a group shows below its tabs, its text as a sequence of characters.
pub enum ContentView {
    /// A terminal.
    Terminal {
        /// Its session.
        session_id: SessionId,
        /// Whether it takes what is typed.
        takes_input: bool,
        /// Whether the cursor is painted.
        cursor_visible: bool,
        /// Whether the link under the pointer is underlined.
        link_underlined: bool,
        /// Whether what a search found is marked.
        matches_marked: bool,
    },
    /// A sentence.
    Message(Seq<char>),
}

impl GroupContent {
    /// The text as a sequence of characters.
    pub open spec fn model(&self) -> ContentView {
        match *self {
            GroupContent::Terminal {
                session_id,
                takes_input,
                cursor_visible,
                link_underlined,
                matches_marked,
            } => ContentView::Terminal {
                session_id,
                takes_input,
                cursor_visible,
                link_underlined,
                matches_marked,
            },
            GroupContent::Message(m) => ContentView::Message(m@),
        }
    }
}

/// What is known of the session that a group shows.
#[derive(Clone, Copy, Debug, PartialEq, Eq, Structural)]
pub struct ShownTerminal {
    /// Whether the program takes the mouse.
    pub captures_mouse: bool,
    /// How many lines lie above the screen.
    pub history_size: u32,
    /// Whether the program hides the cursor.
    pub cursor_hidden: bool,
    /// Whether the program asks for a blinking cursor.
    pub cursor_blinking: bool,
}

/// What is known of the window that a group is drawn in.
#[derive(Clone, Debug)]
pub struct WindowFacts {
    /// The group at the top left of the layout.
    pub top_left: GroupId,
    /// The group at the top right of the layout.
    pub top_right: GroupId,
    /// The group in front.
    pub active_group: GroupId,
    /// Whether the left sidebar is closed.
    pub left_sidebar_collapsed: bool,
    /// Whether the right sidebar is closed.
    pub right_sidebar_collapsed: bool,
    /// Where a dragged tab would land.
    pub drop_target: Option<TabDropTarget>,
    /// The session with a link under the pointer.
    pub hovered_session: Option<SessionId>,
    /// The session that is searched.
    pub searched_session: Option<SessionId>,
    /// Whether that search has a result.
    pub search_answered: bool,
    /// The user's choice about blinking cursors.
    pub cursor_blink: CursorBlink,
    /// How long ago the blink started.
    pub blink_ms: u64,
    /// What went wrong with the connection.
    pub poll_error: Option<String>,
}

/// A group as it is drawn.
#[derive(Clone, Debug)]
pub struct GroupView {
    /// What the button says that opens the left sidebar, where it stands here; room is then left for
    /// the buttons of the window.
    pub left_sidebar_button: Option<&'static str>,
    /// The tabs.
    pub tabs: Vec<TabView>,
    /// Whether the mark of a drop stands in front of the first tab.
    pub mark_first: bool,
    /// Whether the mark of a drop stands in a tab bar without tabs.
    pub mark_empty: bool,
    /// Whether the tab bar moves the window.
    pub moves_window: bool,
    /// What the button says that opens a terminal.
    pub new_terminal_tooltip: &'static str,
    /// The icon of the button for the right sidebar, and what it says, where it stands here.
    pub right_sidebar_button: Option<(IconName, &'static str)>,
    /// What stands below the tabs.
    pub content: GroupContent,
    /// Which corners are rounded.
    pub corners: TerminalContainerCorners,
    /// Which borders are drawn.
    pub borders: TerminalContainerBorders,
    /// Whether the left border goes on beside the tab bar.
    pub tab_border_left: bool,
    /// Whether the right border goes on beside the tab bar.
    pub tab_border_right: bool,
    /// What the mouse pointer looks like.
    pub pointer: Pointer,
    /// The part of the content to mark for a drop: all of it, or a half.
    pub drop_zone: Option<Option<Direction>>,
    /// Whether the search bar lies over the content.
    pub search_bar: bool,
    /// Whether a scrollbar lies over the content.
    pub scrollbar: bool,
}

/// What a group shows below its tabs.
pub open spec fn content_of(
    g: TabGroup,
    terminal: Option<ShownTerminal>,
    w: WindowFacts,
) -> ContentView {
    match (layout::shown_session(g), terminal) {
        (Some(session_id), Some(t)) => ContentView::Terminal {
            session_id,
            takes_input: w.active_group == g.id,
            cursor_visible: terminals::cursor_painted(
                terminals::blinks(w.cursor_blink, t.cursor_hidden, t.cursor_blinking),
                w.blink_ms,
            ),
            link_underlined: w.hovered_session == Some(session_id),
            matches_marked: w.searched_session == Some(session_id) && w.search_answered,
        },
        _ => ContentView::Message(
            match w.poll_error {
                Some(e) => e@,
                None => "Connecting to terminal…"@,
            },
        ),
    }
}

/// Whether an id is that of the session which a group shows.
pub open spec fn is_shown(g: TabGroup, id: Option<SessionId>) -> bool {
    layout::shown_session(g) matches Some(s) && id == Some(s)
}

fn shows_session(g: &TabGroup, id: Option<SessionId>) -> (r: bool)
    ensures
        r == is_shown(*g, id),
{
    match (g.active_session(), id) {
        (Some(a), Some(b)) => a == b,
        _ => false,
    }
}

fn position_in_bar(target: Option<TabDropTarget>, group_id: GroupId) -> (r: Option<usize>)
    ensures
        r == bar_position(target, group_id),
{
    match target {
        Some(t) => if t.group_id == group_id {
            match t.zone {
                TabDropZone::TabBar { insertion_index } => Some(insertion_index),
                _ => None,
            }
        } else {
            None
        },
        None => None,
    }
}

fn zone_in_content(target: Option<TabDropTarget>, group_id: GroupId) -> (r: Option<
    Option<Direction>,
>)
    ensures
        r == content_zone(target, group_id),
{
    match target {
        Some(t) => if t.group_id == group_id {
            match t.zone {
                TabDropZone::Center => Some(None),
                TabDropZone::Edge(d) => Some(Some(d)),
                TabDropZone::TabBar { .. } => None,
            }
        } else {
            None
        },
        None => None,
    }
}

/// A tab is drawn as tab `i` of a group.
pub open spec fn draws_tab(
    v: TabView,
    g: TabGroup,
    position: Option<usize>,
    items: ItemFacts,
    i: int,
) -> bool {
    let item = g.items@[i];
    &&& v.place == tab_place(g, position, i)
    &&& v.icon.model() == terminals::icon_of(item.kind, item.session_id, items)
    &&& v.title@ == item.title@
    &&& v.flash == terminals::flash_age(item.session_id, items)
}

fn tab_views(g: &TabGroup, position: Option<usize>, items: &ItemFacts) -> (r: Vec<TabView>)
    ensures
        r@.len() == g.items@.len(),
        forall|i: int| 0 <= i < r@.len() ==> draws_tab(#[trigger] r@[i], *g, position, *items, i),
{
    let n: usize = g.items.len();
    let mut r: Vec<TabView> = Vec::new();
    let mut i: usize = 0;
    while i < n
        invariant
            i <= n == g.items@.len(),
            r@.len() == i,
            forall|j: int| 0 <= j < i ==> draws_tab(#[trigger] r@[j], *g, position, *items, j),
        decreases n - i,
    {
        let id: ItemId = g.items[i].id;
        let active: bool = match g.active_item_id {
            Some(a) => a == id,
            None => false,
        };
        let (before, after): (bool, bool) = match position {
            Some(p) => (i != 0 && p == i, i + 1 == n && p == n),
            None => (false, false),
        };
        r.push(
            TabView {
                place: TabPlace {
                    item_id: id,
                    active,
                    gap_after: i + 1 < n,
                    mark_before: before,
                    mark_after: after,
                },
                icon: items.icon(g.items[i].kind, g.items[i].session_id),
                title: g.items[i].title.clone(),
                flash: items.flash(g.items[i].session_id),
            },
        );
        i = i + 1;
    }
    r
}

/// A group as it is drawn. `terminal` tells of the session that it shows, once its screen is known.
pub fn group_view(
    g: &TabGroup,
    edges: LayoutEdges,
    terminal: Option<ShownTerminal>,
    w: &WindowFacts,
    items: &ItemFacts,
) -> (r: GroupView)
    ensures
        r.left_sidebar_button is Some <==> w.left_sidebar_collapsed && w.top_left == g.id,
        r.left_sidebar_button matches Some(t) ==> t@ == i18n::pick(
            items.language,
            "Expand sidebar"@,
            "展开侧边栏"@,
        ),
        r.new_terminal_tooltip@ == i18n::pick(items.language, "New terminal"@, "新建终端"@),
        r.tabs@.len() == g.items@.len(),
        forall|i: int|
            0 <= i < r.tabs@.len() ==> draws_tab(
                #[trigger] r.tabs@[i],
                *g,
                bar_position(w.drop_target, g.id),
                *items,
                i,
            ),
        r.mark_first == (g.items@.len() > 0 && bar_position(w.drop_target, g.id) == Some(0usize)),
        r.mark_empty == (g.items@.len() == 0 && bar_position(w.drop_target, g.id) == Some(0usize)),
        r.moves_window == edges.top,
        r.right_sidebar_button is Some <==> w.top_right == g.id,
        r.right_sidebar_button matches Some(button) ==> button.0 == (
        if w.right_sidebar_collapsed {
            IconName::PanelRightOpen
        } else {
            IconName::PanelRightClose
        }) && button.1@ == i18n::pick(items.language, "Toggle info panel"@, "切换信息面板"@),
        r.content.model() == content_of(*g, terminal, *w),
        r.corners.top_left == (edges.left && !w.left_sidebar_collapsed),
        r.corners.top_right == (edges.right && !w.right_sidebar_collapsed),
        r.corners.bottom_left == (r.corners.top_left && !edges.bottom),
        r.corners.bottom_right == (r.corners.top_right && !edges.bottom),
        r.borders.left == (edges.left && !w.left_sidebar_collapsed),
        r.borders.right == (!edges.right || !w.right_sidebar_collapsed),
        r.borders.bottom == !edges.bottom,
        r.tab_border_left == (r.borders.left && !r.corners.top_left),
        r.tab_border_right == (r.borders.right && !r.corners.top_right),
        r.pointer == if is_shown(*g, w.hovered_session) {
            Pointer::Hand
        } else if layout::shown_session(*g) is Some && (terminal matches Some(t)
            && t.captures_mouse) {
            Pointer::Arrow
        } else {
            Pointer::Text
        },
        r.drop_zone == content_zone(w.drop_target, g.id),
        r.search_bar == is_shown(*g, w.searched_session),
        r.scrollbar == (layout::shown_session(*g) is Some && (terminal matches Some(t)
            && t.history_size > 0)),
{
    let position: Option<usize> = position_in_bar(w.drop_target, g.id);
    let at_first: bool = match position {
        Some(p) => p == 0,
        None => false,
    };
    let session: Option<SessionId> = g.active_session();
    let content: GroupContent = match (session, terminal) {
        (Some(session_id), Some(t)) => GroupContent::Terminal {
            session_id,
            takes_input: w.active_group == g.id,
            cursor_visible: cursor_visible_this_frame(
                cursor_should_blink(w.cursor_blink, t.cursor_hidden, t.cursor_blinking),
                w.blink_ms,
            ),
            link_underlined: shows_session(g, w.hovered_session),
            matches_marked: shows_session(g, w.searched_session) && w.search_answered,
        },
        _ => GroupContent::Message(
            match &w.poll_error {
                Some(e) => e.clone(),
                None => "Connecting to terminal…".to_owned(),
            },
        ),
    };
    let (captures, history): (bool, bool) = match (session, terminal) {
        (Some(_), Some(t)) => (t.captures_mouse, t.history_size > 0),
        _ => (false, false),
    };
    let corners: TerminalContainerCorners = terminal_container_corners(
        edges.left,
        edges.right,
        edges.bottom,
        w.left_sidebar_collapsed,
        w.right_sidebar_collapsed,
    );
    let borders: TerminalContainerBorders = terminal_container_borders(
        edges.left,
        edges.right,
        edges.bottom,
        w.left_sidebar_collapsed,
        w.right_sidebar_collapsed,
    );
    GroupView {
        left_sidebar_button: if w.left_sidebar_collapsed && w.top_left == g.id {
            Some(items.language.expand_sidebar_tooltip())
        } else {
            None
        },
        new_terminal_tooltip: items.language.new_terminal_tooltip(),
        tabs: tab_views(g, position, items),
        mark_first: g.items.len() > 0 && at_first,
        mark_empty: g.items.len() == 0 && at_first,
        moves_window: edges.top,
        right_sidebar_button: if w.top_right != g.id {
            None
        } else if w.right_sidebar_collapsed {
            Some((IconName::PanelRightOpen, items.language.toggle_right_sidebar_tooltip()))
        } else {
            Some((IconName::PanelRightClose, items.language.toggle_right_sidebar_tooltip()))
        },
        content,
        corners,
        borders,
        tab_border_left: borders.left && !corners.top_left,
        tab_border_right: borders.right && !corners.top_right,
        pointer: if shows_session(g, w.hovered_session) {
            Pointer::Hand
        } else if captures {
            Pointer::Arrow
        } else {
            Pointer::Text
        },
        drop_zone: zone_in_content(w.drop_target, g.id),
        search_bar: shows_session(g, w.searched_session),
        scrollbar: history,
    }
}

/// Wherever in its tab bar a group is about to take a tab, exactly one mark says so: in front of a
/// tab, behind the last one, in front of the first, or in the empty bar.
pub proof fn one_mark_for_a_drop(g: TabGroup, p: usize)
    requires
        p <= g.items@.len(),
    ensures
        ({
            let n = g.items@.len() as int;
            let position = Some(p);
            &&& p == 0 ==> forall|i: int|
                0 <= i < n ==> !(#[trigger] tab_place(g, position, i)).mark_before && !tab_place(
                    g,
                    position,
                    i,
                ).mark_after
            &&& 0 < p < n ==> forall|i: int|
                0 <= i < n ==> ((#[trigger] tab_place(g, position, i)).mark_before <==> i == p)
                    && !tab_place(g, position, i).mark_after
            &&& 0 < p == n ==> forall|i: int|
                0 <= i < n ==> !(#[trigger] tab_place(g, position, i)).mark_before && (tab_place(
                    g,
                    position,
                    i,
                ).mark_after <==> i == n - 1)
        }),
{
}

/// A drop marks the tab bar or the content, never both.
pub proof fn bar_and_content_are_not_both_marked(target: Option<TabDropTarget>, group_id: GroupId)
    ensures
        !(bar_position(target, group_id) is Some && content_zone(target, group_id) is Some),
{
}

/// A group has as many tabs as it holds, and holds exactly those; a group that is not there has none.
pub proof fn a_group_has_the_tabs_it_holds(l: LayoutNode, id: GroupId, item: ItemId, k: int)
    ensures
        layout::group_with(layout::groups(l), id) matches Some(g) ==> tabs_in(l, id)
            == g.items@.len() && (0 <= k < g.items@.len() ==> holds_tab(l, id, g.items@[k].id)),
        layout::group_with(layout::groups(l), id) is None ==> tabs_in(l, id) == 0 && !holds_tab(
            l,
            id,
            item,
        ),
        tabs_in(l, id) == 0 ==> !holds_tab(l, id, item),
{
}

/// The next tab is the one to the right, and behind the last one the first; the tab before is the one
/// to the left, and before the first one the last. A group with fewer than two tabs has neither.
pub proof fn tabs_follow_one_another(g: TabGroup, k: int)
    requires
        0 <= k < g.items@.len(),
        g.active_item_id == Some(g.items@[k].id),
        forall|i: int, j: int|
            0 <= i < j < g.items@.len() ==> (#[trigger] g.items@[i]).id != (#[trigger] g.items@[j]).id,
    ensures
        ({
            let n = g.items@.len();
            &&& n < 2 ==> tab_at_distance(g, 1) is None && tab_at_distance(g, -1) is None
            &&& n >= 2 && k + 1 < n ==> tab_at_distance(g, 1) == Some(g.items@[k + 1].id)
            &&& n >= 2 && k + 1 == n ==> tab_at_distance(g, 1) == Some(g.items@[0].id)
            &&& n >= 2 && k > 0 ==> tab_at_distance(g, -1) == Some(g.items@[k - 1].id)
            &&& n >= 2 && k == 0 ==> tab_at_distance(g, -1) == Some(g.items@[n - 1].id)
        }),
{
    let n = g.items@.len() as int;
    layout::item_index_is_first(g.items@, g.items@[k].id, k);
    let c = layout::item_index(g.items@, g.items@[k].id);
    if c < k {
        assert(g.items@[c].id != g.items@[k].id);
    }
    assert(c == k);
    if n >= 2 {
        if k + 1 < n {
            assert((k + 1) % n == k + 1) by (nonlinear_arith)
                requires
                    0 <= k,
                    k + 1 < n,
            ;
        } else {
            assert((k + 1) % n == 0) by (nonlinear_arith)
                requires
                    k + 1 == n,
                    n > 0,
            ;
        }
        if k > 0 {
            assert((k - 1) % n == k - 1) by (nonlinear_arith)
                requires
                    0 < k < n,
            ;
        } else {
            assert((k - 1) % n == n - 1) by (nonlinear_arith)
                requires
                    k == 0,
                    n >= 2,
            ;
        }
    }
}

/// A group without an active tab has no tab before or behind it.
pub proof fn without_an_active_tab_there_is_no_next(g: TabGroup, delta: int)
    requires
        g.active_item_id is None,
    ensures
        tab_at_distance(g, delta) is None,
{
}

/// A drop is marked only in the group that it would land in: in the tab bar at the place where it would
/// land, or over the content, all of it or the half on that side.
pub proof fn a_drop_is_marked_where_it_lands(t: TabDropTarget, group_id: GroupId)
    ensures
        bar_position(None, group_id) is None,
        content_zone(None, group_id) is None,
        t.group_id != group_id ==> bar_position(Some(t), group_id) is None && content_zone(
            Some(t),
            group_id,
        ) is None,
        t.group_id == group_id ==> (t.zone matches TabDropZone::TabBar { insertion_index } ==> bar_position(
            Some(t),
            group_id,
        ) == Some(insertion_index)),
        t.group_id == group_id && t.zone is Center ==> content_zone(Some(t), group_id) == Some(
            None::<Direction>,
        ),
        t.group_id == group_id ==> (t.zone matches TabDropZone::Edge(d) ==> content_zone(
            Some(t),
            group_id,
        ) == Some(Some(d))),
{
}

/// Each tab is drawn in its place, the one in front as such; a gap stands behind every tab but the
/// last.
pub proof fn tabs_are_drawn_in_order(g: TabGroup, position: Option<usize>, i: int)
    requires
        0 <= i < g.items@.len(),
    ensures
        tab_place(g, position, i).item_id == g.items@[i].id,
        tab_place(g, position, i).active <==> g.active_item_id == Some(g.items@[i].id),
        tab_place(g, position, i).gap_after <==> i != g.items@.len() - 1,
        position is None ==> !tab_place(g, position, i).mark_before && !tab_place(
            g,
            position,
            i,
        ).mark_after,
{
}

/// A group shows the terminal of its active tab once its picture is known, with the keyboard only where
/// the group is in front, the link under the pointer only where that is its session's, and matches only
/// of a search in it; until then it says what went wrong, or that it is connecting.
pub proof fn a_group_shows_its_terminal(g: TabGroup, terminal: Option<ShownTerminal>, w: WindowFacts)
    ensures
        layout::shown_session(g) is None || terminal is None ==> (content_of(
            g,
            terminal,
            w,
        ) matches ContentView::Message(m) && (w.poll_error matches Some(e) ==> m == e@) && (
        w.poll_error is None ==> m == "Connecting to terminal…"@)),
        layout::shown_session(g) is Some && terminal is Some ==> (content_of(
            g,
            terminal,
            w,
        ) matches ContentView::Terminal {
            session_id,
            takes_input,
            cursor_visible,
            link_underlined,
            matches_marked,
        } && layout::shown_session(g) == Some(session_id) && (takes_input <==> w.active_group == g.id)
            && (link_underlined <==> w.hovered_session == Some(session_id)) && (matches_marked
            <==> w.searched_session == Some(session_id) && w.search_answered) && (
        terminal->0.cursor_hidden ==> cursor_visible)),
        is_shown(g, w.hovered_session) <==> w.hovered_session is Some && layout::shown_session(g)
            == w.hovered_session,
{
}

/// What a group shows is told by all of its parts.
pub proof fn contents_are_told_by_their_parts(a: GroupContent, b: GroupContent)
    requires
        a.model() == b.model(),
    ensures
        a is Terminal <==> b is Terminal,
        a matches GroupContent::Terminal {
            session_id,
            takes_input,
            cursor_visible,
            link_underlined,
            matches_marked,
        } ==> b->session_id == session_id && b->takes_input == takes_input && b->cursor_visible
            == cursor_visible && b->link_underlined == link_underlined && b->matches_marked
            == matches_marked,
        a matches GroupContent::Message(m) ==> b->Message_0@ == m@,
{
}

/// A tab is drawn with its own title, icon and flash.
pub proof fn a_tab_is_drawn_with_its_title(
    v: TabView,
    g: TabGroup,
    position: Option<usize>,
    items: ItemFacts,
    i: int,
)
    requires
        draws_tab(v, g, position, items, i),
    ensures
        v.place == tab_place(g, position, i),
        v.title@ == g.items@[i].title@,
        v.icon.model() == terminals::icon_of(g.items@[i].kind, g.items@[i].session_id, items),
        v.flash == terminals::flash_age(g.items@[i].session_id, items),
{
}

} // verus!
