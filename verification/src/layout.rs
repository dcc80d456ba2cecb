//! The layout of a window: groups of tabs in a tree of splits.

use vstd::prelude::*;

verus! {

pub type SessionId = u128;

pub type ProjectId = u128;

pub type WindowId = u128;

pub type GroupId = u128;

pub type ItemId = u128;

pub type SplitId = u128;

/// What a tab shows.
#[derive(Clone, Copy, Debug, PartialEq, Eq, Structural)]
pub enum ItemKind {
    Terminal,
    File,
    Browser,
    Settings,
}

/// A side of a group.
#[derive(Clone, Copy, Debug, PartialEq, Eq, Structural)]
pub enum Direction {
    Left,
    Right,
    Up,
    Down,
}

/// How a split divides its space: side by side, or one above the other.
#[derive(Clone, Copy, Debug, PartialEq, Eq, Structural)]
pub enum SplitAxis {
    Horizontal,
    Vertical,
}

/// A tab.
#[derive(Clone, Debug)]
pub struct TabItem {
    pub id: ItemId,
    pub kind: ItemKind,
    pub title: String,
    pub session_id: Option<SessionId>,
}

/// Tabs that share one place, of which one is shown.
#[derive(Clone, Debug)]
pub struct TabGroup {
    pub id: GroupId,
    pub items: Vec<TabItem>,
    pub active_item_id: Option<ItemId>,
}

/// A group, or two layouts that divide the space.
#[derive(Debug)]
pub enum LayoutNode {
    Group { group: TabGroup },
    Split { id: SplitId, axis: SplitAxis, first: Box<LayoutNode>, second: Box<LayoutNode> },
}

/// The groups of a layout, from its first to its last.
pub open spec fn groups(layout: LayoutNode) -> Seq<TabGroup>
    decreases layout,
{
    match layout {
        LayoutNode::Group { group } => seq![group],
        LayoutNode::Split { first, second, .. } => groups(*first) + groups(*second),
    }
}

/// Every layout has a group.
pub proof fn a_layout_has_a_group(layout: LayoutNode)
    ensures
        groups(layout).len() > 0,
    decreases layout,
{
    match layout {
        LayoutNode::Group { group } => {},
        LayoutNode::Split { first, second, .. } => {
            a_layout_has_a_group(*first);
        },
    }
}

/// The index of the first group with this id, or the number of groups.
pub open spec fn group_index(gs: Seq<TabGroup>, id: GroupId) -> int
    decreases gs.len(),
{
    if gs.len() == 0 {
        0
    } else if gs[0].id == id {
        0
    } else {
        1 + group_index(gs.skip(1), id)
    }
}

/// The first group with this id.
pub open spec fn group_with(gs: Seq<TabGroup>, id: GroupId) -> Option<TabGroup> {
    if group_index(gs, id) < gs.len() {
        Some(gs[group_index(gs, id)])
    } else {
        None
    }
}

/// The index of the first item with this id, or the number of items.
pub open spec fn item_index(items: Seq<TabItem>, id: ItemId) -> int
    decreases items.len(),
{
    if items.len() == 0 {
        0
    } else if items[0].id == id {
        0
    } else {
        1 + item_index(items.skip(1), id)
    }
}

/// The item that a group shows.
pub open spec fn shown_item(group: TabGroup) -> Option<TabItem> {
    match group.active_item_id {
        Some(id) => if item_index(group.items@, id) < group.items@.len() {
            Some(group.items@[item_index(group.items@, id)])
        } else {
            None
        },
        None => None,
    }
}

/// The session that a group shows.
pub open spec fn shown_session(group: TabGroup) -> Option<SessionId> {
    match shown_item(group) {
        Some(item) => item.session_id,
        None => None,
    }
}

/// The sessions that the groups show, in order.
pub open spec fn shown_sessions(gs: Seq<TabGroup>) -> Seq<SessionId>
    decreases gs.len(),
{
    if gs.len() == 0 {
        seq![]
    } else {
        match shown_session(gs.last()) {
            Some(id) => shown_sessions(gs.drop_last()).push(id),
            None => shown_sessions(gs.drop_last()),
        }
    }
}

pub proof fn item_index_bounds(items: Seq<TabItem>, id: ItemId)
    ensures
        0 <= item_index(items, id) <= items.len(),
    decreases items.len(),
{
    if items.len() > 0 {
        item_index_bounds(items.skip(1), id);
    }
}

/// The index is that of the first item with the id.
pub proof fn item_index_is_first(items: Seq<TabItem>, id: ItemId, k: int)
    requires
        0 <= k < items.len(),
        items[k].id == id,
    ensures
        0 <= item_index(items, id) <= k,
        items[item_index(items, id)].id == id,
    decreases items.len(),
{
    if items[0].id != id {
        item_index_is_first(items.skip(1), id, k - 1);
    }
}

pub proof fn item_index_found(items: Seq<TabItem>, id: ItemId)
    requires
        item_index(items, id) < items.len(),
    ensures
        0 <= item_index(items, id),
        items[item_index(items, id)].id == id,
    decreases items.len(),
{
    if items.len() > 0 && items[0].id != id {
        item_index_found(items.skip(1), id);
    }
}

proof fn group_index_bounds(gs: Seq<TabGroup>, id: GroupId)
    ensures
        0 <= group_index(gs, id) <= gs.len(),
        group_index(gs, id) < gs.len() ==> gs[group_index(gs, id)].id == id,
    decreases gs.len(),
{
    if gs.len() > 0 {
        group_index_bounds(gs.skip(1), id);
    }
}

proof fn group_index_of_sum(a: Seq<TabGroup>, b: Seq<TabGroup>, id: GroupId)
    ensures
        group_with(a + b, id) == (if group_with(a, id) is Some {
            group_with(a, id)
        } else {
            group_with(b, id)
        }),
    decreases a.len(),
{
    group_index_bounds(a, id);
    group_index_bounds(b, id);
    group_index_bounds(a + b, id);
    if a.len() == 0 {
        assert(a + b =~= b);
    } else if a[0].id == id {
        assert((a + b)[0] == a[0]);
    } else {
        assert((a + b).skip(1) =~= a.skip(1) + b);
        group_index_of_sum(a.skip(1), b, id);
        group_index_bounds(a.skip(1), id);
        group_index_bounds((a + b).skip(1), id);
    }
}

proof fn shown_sessions_of_sum(a: Seq<TabGroup>, b: Seq<TabGroup>)
    ensures
        shown_sessions(a + b) == shown_sessions(a) + shown_sessions(b),
    decreases b.len(),
{
    if b.len() == 0 {
        assert(a + b =~= a);
        assert(shown_sessions(a) + shown_sessions(b) =~= shown_sessions(a));
    } else {
        assert((a + b).drop_last() =~= a + b.drop_last());
        shown_sessions_of_sum(a, b.drop_last());
        assert(shown_sessions(a + b) =~= shown_sessions(a) + shown_sessions(b));
    }
}

impl TabGroup {
    /// The item that the group shows.
    pub fn active_item(&self) -> (r: Option<&TabItem>)
        ensures
            shown_item(*self) == (match r {
                Some(item) => Some(*item),
                None => None,
            }),
    {
        match self.active_item_id {
            Some(id) => {
                let mut i: usize = 0;
                assert(self.items@.skip(0) =~= self.items@);
                while i < self.items.len()
                    invariant
                        i <= self.items@.len(),
                        self.active_item_id == Some(id),
                        item_index(self.items@, id) == i + item_index(
                            self.items@.skip(i as int),
                            id,
                        ),
                    decreases self.items@.len() - i,
                {
                    if self.items[i].id == id {
                        assert(self.items@.skip(i as int)[0] == self.items@[i as int]);
                        return Some(&self.items[i]);
                    }
                    assert(self.items@.skip(i as int).skip(1) =~= self.items@.skip(i + 1));
                    i = i + 1;
                }
                None
            },
            None => None,
        }
    }

    /// The session that the group shows.
    pub fn active_session(&self) -> (r: Option<SessionId>)
        ensures
            r == shown_session(*self),
    {
        match self.active_item() {
            Some(item) => item.session_id,
            None => None,
        }
    }

    /// Adds a tab at the end and shows it.
    pub fn add_item(&mut self, item: TabItem)
        ensures
            final(self).items@ == old(self).items@.push(item),
            final(self).active_item_id == Some(item.id),
            final(self).id == old(self).id,
    {
        let id: ItemId = item.id;
        self.items.push(item);
        self.active_item_id = Some(id);
    }
}

impl LayoutNode {
    /// The id of the first group.
    pub fn first_group_id(&self) -> (r: GroupId)
        ensures
            r == groups(*self)[0].id,
        decreases self,
    {
        match self {
            LayoutNode::Group { group } => group.id,
            LayoutNode::Split { first, .. } => {
                proof {
                    a_layout_has_a_group(**first);
                }
                first.first_group_id()
            },
        }
    }

    /// The first group with this id.
    pub fn find_group(&self, id: GroupId) -> (r: Option<&TabGroup>)
        ensures
            group_with(groups(*self), id) == (match r {
                Some(g) => Some(*g),
                None => None,
            }),
        decreases self,
    {
        match self {
            LayoutNode::Group { group } => {
                proof {
                    assert(groups(*self).skip(1) =~= seq![]);
                    assert(group_index(groups(*self).skip(1), id) == 0);
                    assert(groups(*self)[0] == *group);
                }
                if group.id == id {
                    Some(group)
                } else {
                    None
                }
            },
            LayoutNode::Split { first, second, .. } => {
                proof {
                    group_index_of_sum(groups(**first), groups(**second), id);
                }
                match first.find_group(id) {
                    Some(g) => Some(g),
                    None => second.find_group(id),
                }
            },
        }
    }

    fn collect_sessions(&self, out: &mut Vec<SessionId>)
        ensures
            final(out)@ == old(out)@ + shown_sessions(groups(*self)),
        decreases self,
    {
        match self {
            LayoutNode::Group { group } => {
                assert(groups(*self).drop_last() =~= seq![]);
                assert(shown_sessions(groups(*self).drop_last()) =~= seq![]);
                assert(groups(*self).last() == *group);
                match group.active_session() {
                    Some(id) => {
                        out.push(id);
                    },
                    None => {},
                }
                assert(out@ =~= old(out)@ + shown_sessions(groups(*self)));
            },
            LayoutNode::Split { first, second, .. } => {
                proof {
                    shown_sessions_of_sum(groups(**first), groups(**second));
                }
                first.collect_sessions(out);
                second.collect_sessions(out);
                assert(out@ =~= old(out)@ + shown_sessions(groups(*self)));
            },
        }
    }
}

/// The session that each group shows, in order: every split's active terminal is visible.
pub fn visible_active_terminal_sessions(layout: &LayoutNode) -> (r: Vec<SessionId>)
    ensures
        r@ == shown_sessions(groups(*layout)),
{
    let mut out: Vec<SessionId> = Vec::new();
    layout.collect_sessions(&mut out);
    assert(out@ =~= shown_sessions(groups(*layout)));
    out
}

/// Some group shows the session.
pub open spec fn shows(gs: Seq<TabGroup>, session: SessionId) -> bool {
    exists|i: int| 0 <= i < gs.len() && shown_session(#[trigger] gs[i]) == Some(session)
}

/// Whether some group shows the session.
pub fn layout_has_visible_active_terminal(layout: &LayoutNode, session_id: SessionId) -> (r: bool)
    ensures
        r == shows(groups(*layout), session_id),
    decreases layout,
{
    match layout {
        LayoutNode::Group { group } => {
            let r: bool = match group.active_session() {
                Some(id) => id == session_id,
                None => false,
            };
            assert(groups(*layout)[0] == *group);
            r
        },
        LayoutNode::Split { first, second, .. } => {
            let a: bool = layout_has_visible_active_terminal(first, session_id);
            let b: bool = layout_has_visible_active_terminal(second, session_id);
            proof {
                let x = groups(**first);
                let y = groups(**second);
                let gs = groups(*layout);
                if shows(x, session_id) {
                    let i = choose|i: int|
                        0 <= i < x.len() && shown_session(#[trigger] x[i]) == Some(session_id);
                    assert(gs[i] == x[i]);
                }
                if shows(y, session_id) {
                    let i = choose|i: int|
                        0 <= i < y.len() && shown_session(#[trigger] y[i]) == Some(session_id);
                    assert(gs[x.len() + i] == y[i]);
                }
                if shows(gs, session_id) {
                    let i = choose|i: int|
                        0 <= i < gs.len() && shown_session(#[trigger] gs[i]) == Some(session_id);
                    if i < x.len() {
                        assert(x[i] == gs[i]);
                    } else {
                        assert(y[i - x.len()] == gs[i]);
                    }
                }
            }
            a || b
        },
    }
}

/// A session is among the visible ones exactly where some group shows it.
pub proof fn visible_sessions_are_those_shown(gs: Seq<TabGroup>, session: SessionId)
    ensures
        shown_sessions(gs).contains(session) <==> shows(gs, session),
    decreases gs.len(),
{
    if gs.len() > 0 {
        let head = gs.drop_last();
        visible_sessions_are_those_shown(head, session);
        if shown_sessions(gs).contains(session) {
            let k = shown_sessions(gs).index_of(session);
            if shown_session(gs.last()) is Some && k == shown_sessions(head).len() {
                assert(shown_session(gs[gs.len() - 1]) == Some(session));
            } else {
                assert(shown_sessions(head)[k] == session);
                let i = choose|i: int|
                    0 <= i < head.len() && shown_session(#[trigger] head[i]) == Some(session);
                assert(gs[i] == head[i]);
            }
        }
        if shows(gs, session) {
            let i = choose|i: int|
                0 <= i < gs.len() && shown_session(#[trigger] gs[i]) == Some(session);
            if i < head.len() {
                assert(head[i] == gs[i]);
                let k = shown_sessions(head).index_of(session);
                assert(shown_sessions(gs)[k] == session);
            } else {
                assert(shown_sessions(gs)[shown_sessions(head).len() as int] == session);
            }
        }
    }
}

/// Which corners of a terminal are rounded.
#[derive(Clone, Copy, Debug, PartialEq, Eq, Structural)]
pub struct TerminalContainerCorners {
    pub top_left: bool,
    pub top_right: bool,
    pub bottom_left: bool,
    pub bottom_right: bool,
}

/// Which borders a terminal draws.
#[derive(Clone, Copy, Debug, PartialEq, Eq, Structural)]
pub struct TerminalContainerBorders {
    pub left: bool,
    pub right: bool,
    pub bottom: bool,
}

/// A corner is rounded on an outer edge of the layout that an open sidebar keeps away from the
/// window's edge; the lower one only where the terminal does not reach the window's bottom.
pub fn terminal_container_corners(
    touches_left_layout_edge: bool,
    touches_right_layout_edge: bool,
    touches_bottom_layout_edge: bool,
    left_sidebar_collapsed: bool,
    right_sidebar_collapsed: bool,
) -> (r: TerminalContainerCorners)
    ensures
        r.top_left == (touches_left_layout_edge && !left_sidebar_collapsed),
        r.top_right == (touches_right_layout_edge && !right_sidebar_collapsed),
        r.bottom_left == (r.top_left && !touches_bottom_layout_edge),
        r.bottom_right == (r.top_right && !touches_bottom_layout_edge),
{
    let left: bool = touches_left_layout_edge && !left_sidebar_collapsed;
    let right: bool = touches_right_layout_edge && !right_sidebar_collapsed;
    TerminalContainerCorners {
        top_left: left,
        top_right: right,
        bottom_left: left && !touches_bottom_layout_edge,
        bottom_right: right && !touches_bottom_layout_edge,
    }
}

/// The left-hand group owns each inner vertical seam and the upper group each horizontal one.
pub fn terminal_container_borders(
    touches_left_layout_edge: bool,
    touches_right_layout_edge: bool,
    touches_bottom_layout_edge: bool,
    left_sidebar_collapsed: bool,
    right_sidebar_collapsed: bool,
) -> (r: TerminalContainerBorders)
    ensures
        r.left == (touches_left_layout_edge && !left_sidebar_collapsed),
        r.right == (!touches_right_layout_edge || !right_sidebar_collapsed),
        r.bottom == !touches_bottom_layout_edge,
{
    TerminalContainerBorders {
        left: touches_left_layout_edge && !left_sidebar_collapsed,
        right: !touches_right_layout_edge || !right_sidebar_collapsed,
        bottom: !touches_bottom_layout_edge,
    }
}

/// Which outer edges of the layout a part of it touches.
#[derive(Clone, Copy, Debug, PartialEq, Eq, Structural)]
pub struct LayoutEdges {
    pub left: bool,
    pub right: bool,
    pub top: bool,
    pub bottom: bool,
}

/// The edges of the first part of a split: it loses the edge towards the second part.
pub fn first_part_edges(axis: SplitAxis, edges: LayoutEdges) -> (r: LayoutEdges)
    ensures
        r == (match axis {
            SplitAxis::Horizontal => LayoutEdges { right: false, ..edges },
            SplitAxis::Vertical => LayoutEdges { bottom: false, ..edges },
        }),
{
    match axis {
        SplitAxis::Horizontal => LayoutEdges {
            left: edges.left,
            right: false,
            top: edges.top,
            bottom: edges.bottom,
        },
        SplitAxis::Vertical => LayoutEdges {
            left: edges.left,
            right: edges.right,
            top: edges.top,
            bottom: false,
        },
    }
}

/// The edges of the second part of a split: it loses the edge towards the first part.
pub fn second_part_edges(axis: SplitAxis, edges: LayoutEdges) -> (r: LayoutEdges)
    ensures
        r == (match axis {
            SplitAxis::Horizontal => LayoutEdges { left: false, ..edges },
            SplitAxis::Vertical => LayoutEdges { top: false, ..edges },
        }),
{
    match axis {
        SplitAxis::Horizontal => LayoutEdges {
            left: false,
            right: edges.right,
            top: edges.top,
            bottom: edges.bottom,
        },
        SplitAxis::Vertical => LayoutEdges {
            left: edges.left,
            right: edges.right,
            top: false,
            bottom: edges.bottom,
        },
    }
}

/// The edges that each group touches, in the order of the groups, where the whole layout touches
/// `edges`.
pub open spec fn edges_of(layout: LayoutNode, edges: LayoutEdges) -> Seq<LayoutEdges>
    decreases layout,
{
    match layout {
        LayoutNode::Group { .. } => seq![edges],
        LayoutNode::Split { axis, first, second, .. } => match axis {
            SplitAxis::Horizontal => edges_of(*first, LayoutEdges { right: false, ..edges })
                + edges_of(*second, LayoutEdges { left: false, ..edges }),
            SplitAxis::Vertical => edges_of(*first, LayoutEdges { bottom: false, ..edges })
                + edges_of(*second, LayoutEdges { top: false, ..edges }),
        },
    }
}

fn collect_edges(layout: &LayoutNode, edges: LayoutEdges, out: &mut Vec<LayoutEdges>)
    ensures
        final(out)@ == old(out)@ + edges_of(*layout, edges),
    decreases layout,
{
    match layout {
        LayoutNode::Group { .. } => {
            out.push(edges);
            assert(out@ =~= old(out)@ + edges_of(*layout, edges));
        },
        LayoutNode::Split { axis, first, second, .. } => {
            collect_edges(first, first_part_edges(*axis, edges), out);
            collect_edges(second, second_part_edges(*axis, edges), out);
            assert(out@ =~= old(out)@ + edges_of(*layout, edges));
        },
    }
}

/// The outer edges of the layout that each group touches, in the order of the groups.
pub fn group_edges(layout: &LayoutNode) -> (r: Vec<LayoutEdges>)
    ensures
        r@ == edges_of(
            *layout,
            LayoutEdges { left: true, right: true, top: true, bottom: true },
        ),
{
    let mut out: Vec<LayoutEdges> = Vec::new();
    collect_edges(
        layout,
        LayoutEdges { left: true, right: true, top: true, bottom: true },
        &mut out,
    );
    assert(out@ =~= edges_of(
        *layout,
        LayoutEdges { left: true, right: true, top: true, bottom: true },
    ));
    out
}

/// Every group has its edges.
pub proof fn every_group_has_edges(layout: LayoutNode, edges: LayoutEdges)
    ensures
        edges_of(layout, edges).len() == groups(layout).len(),
    decreases layout,
{
    match layout {
        LayoutNode::Group { group } => {},
        LayoutNode::Split { axis, first, second, .. } => match axis {
            SplitAxis::Horizontal => {
                every_group_has_edges(*first, LayoutEdges { right: false, ..edges });
                every_group_has_edges(*second, LayoutEdges { left: false, ..edges });
            },
            SplitAxis::Vertical => {
                every_group_has_edges(*first, LayoutEdges { bottom: false, ..edges });
                every_group_has_edges(*second, LayoutEdges { top: false, ..edges });
            },
        },
    }
}

/// The first group reaches the layout's left and top edge, the last one its right and bottom
/// edge, wherever the layout itself reaches them.
pub proof fn outer_groups_keep_the_outer_edges(layout: LayoutNode, edges: LayoutEdges)
    ensures
        edges_of(layout, edges)[0].left == edges.left,
        edges_of(layout, edges)[0].top == edges.top,
        edges_of(layout, edges).last().right == edges.right,
        edges_of(layout, edges).last().bottom == edges.bottom,
    decreases layout,
{
    every_group_has_edges(layout, edges);
    a_layout_has_a_group(layout);
    match layout {
        LayoutNode::Group { group } => {},
        LayoutNode::Split { axis, first, second, .. } => {
            let (a, b) = match axis {
                SplitAxis::Horizontal => (
                    LayoutEdges { right: false, ..edges },
                    LayoutEdges { left: false, ..edges },
                ),
                SplitAxis::Vertical => (
                    LayoutEdges { bottom: false, ..edges },
                    LayoutEdges { top: false, ..edges },
                ),
            };
            every_group_has_edges(*first, a);
            every_group_has_edges(*second, b);
            a_layout_has_a_group(*first);
            a_layout_has_a_group(*second);
            outer_groups_keep_the_outer_edges(*first, a);
            outer_groups_keep_the_outer_edges(*second, b);
        },
    }
}

/// The groups of a split are those of its first part and then those of its second; a group alone is
/// its only one.
pub proof fn a_split_shows_both_parts(
    g: TabGroup,
    id: SplitId,
    axis: SplitAxis,
    first: LayoutNode,
    second: LayoutNode,
)
    ensures
        groups(LayoutNode::Group { group: g }) == seq![g],
        groups(
            LayoutNode::Split { id, axis, first: Box::new(first), second: Box::new(second) },
        ) == groups(first) + groups(second),
{
}

/// A group is found by its id: the first that has it, and none where none has it.
pub proof fn a_group_is_found_by_its_id(gs: Seq<TabGroup>, id: GroupId, i: int)
    requires
        0 <= i <= gs.len(),
        forall|j: int| 0 <= j < i ==> (#[trigger] gs[j]).id != id,
        i < gs.len() ==> gs[i].id == id,
    ensures
        i < gs.len() ==> group_with(gs, id) == Some(gs[i]),
        i == gs.len() ==> group_with(gs, id) is None,
{
    the_first_group_counts(gs, id, i);
}

proof fn the_first_group_counts(gs: Seq<TabGroup>, id: GroupId, i: int)
    requires
        0 <= i <= gs.len(),
        forall|j: int| 0 <= j < i ==> (#[trigger] gs[j]).id != id,
        i < gs.len() ==> gs[i].id == id,
    ensures
        group_index(gs, id) == i,
    decreases gs.len(),
{
    if gs.len() > 0 && i > 0 {
        let rest = gs.skip(1);
        assert forall|j: int| 0 <= j < i - 1 implies (#[trigger] rest[j]).id != id by {
            assert(rest[j] == gs[j + 1]);
        }
        the_first_group_counts(rest, id, i - 1);
    }
}

/// A group shows its active tab, where it has that tab, and the session of that tab, where it is a
/// terminal; else it shows nothing.
pub proof fn a_group_shows_its_active_tab(g: TabGroup, k: int)
    ensures
        g.active_item_id is None ==> shown_item(g) is None && shown_session(g) is None,
        0 <= k < g.items@.len() && g.active_item_id == Some(g.items@[k].id) ==> (shown_item(
            g,
        ) matches Some(item) && item.id == g.items@[k].id && g.items@.contains(item)
            && shown_session(g) == item.session_id),
        shown_item(g) matches Some(item) ==> g.active_item_id == Some(item.id),
        shown_item(g) is None ==> shown_session(g) is None,
{
    if 0 <= k < g.items@.len() && g.active_item_id == Some(g.items@[k].id) {
        item_index_is_first(g.items@, g.items@[k].id, k);
    }
    match g.active_item_id {
        Some(id) => {
            item_index_bounds(g.items@, id);
            if item_index(g.items@, id) < g.items@.len() {
                item_index_found(g.items@, id);
            }
        },
        None => {},
    }
}

/// The visible sessions stand in the order of the groups that show them.
pub proof fn visible_sessions_stand_in_order(gs: Seq<TabGroup>, g: TabGroup)
    ensures
        shown_session(g) matches Some(id) ==> shown_sessions(gs.push(g)) == shown_sessions(gs).push(
            id,
        ),
        shown_session(g) is None ==> shown_sessions(gs.push(g)) == shown_sessions(gs),
        shown_sessions(seq![]).len() == 0,
{
    assert(gs.push(g).drop_last() =~= gs);
}

/// Side by side, the left part does not touch the right edge, and the right part not the left one; one
/// above the other, the upper part does not touch the bottom, and the lower part not the top. The other
/// edges are those of the whole.
pub proof fn a_split_parts_the_edges(id: SplitId, a: TabGroup, b: TabGroup, e: LayoutEdges)
    ensures
        ({
            let first = Box::new(LayoutNode::Group { group: a });
            let second = Box::new(LayoutNode::Group { group: b });
            let beside = LayoutNode::Split { id, axis: SplitAxis::Horizontal, first, second };
            let below = LayoutNode::Split { id, axis: SplitAxis::Vertical, first, second };
            &&& edges_of(beside, e) == seq![
                LayoutEdges { left: e.left, right: false, top: e.top, bottom: e.bottom },
                LayoutEdges { left: false, right: e.right, top: e.top, bottom: e.bottom },
            ]
            &&& edges_of(below, e) == seq![
                LayoutEdges { left: e.left, right: e.right, top: e.top, bottom: false },
                LayoutEdges { left: e.left, right: e.right, top: false, bottom: e.bottom },
            ]
        }),
{
    let first = Box::new(LayoutNode::Group { group: a });
    let second = Box::new(LayoutNode::Group { group: b });
    let beside = LayoutNode::Split { id, axis: SplitAxis::Horizontal, first, second };
    let below = LayoutNode::Split { id, axis: SplitAxis::Vertical, first, second };
    reveal_with_fuel(edges_of, 3);
    assert(edges_of(beside, e) =~= seq![
        LayoutEdges { left: e.left, right: false, top: e.top, bottom: e.bottom },
        LayoutEdges { left: false, right: e.right, top: e.top, bottom: e.bottom },
    ]);
    assert(edges_of(below, e) =~= seq![
        LayoutEdges { left: e.left, right: e.right, top: e.top, bottom: false },
        LayoutEdges { left: e.left, right: e.right, top: false, bottom: e.bottom },
    ]);
}

/// No group touches an edge that the layout does not touch. In a split side by side no group of the
/// left part touches the right edge and none of the right part the left edge, however the parts are
/// split; likewise one above the other.
pub proof fn inner_groups_touch_no_outer_edge(layout: LayoutNode, e: LayoutEdges, i: int)
    requires
        0 <= i < edges_of(layout, e).len(),
    ensures
        edges_of(layout, e)[i].left ==> e.left,
        edges_of(layout, e)[i].right ==> e.right,
        edges_of(layout, e)[i].top ==> e.top,
        edges_of(layout, e)[i].bottom ==> e.bottom,
        layout matches LayoutNode::Split { axis, first, .. } ==> (i < groups(*first).len() ==> (axis
            == SplitAxis::Horizontal ==> !edges_of(layout, e)[i].right) && (axis
            == SplitAxis::Vertical ==> !edges_of(layout, e)[i].bottom)) && (i >= groups(
            *first,
        ).len() ==> (axis == SplitAxis::Horizontal ==> !edges_of(layout, e)[i].left) && (axis
            == SplitAxis::Vertical ==> !edges_of(layout, e)[i].top)),
    decreases layout,
{
    match layout {
        LayoutNode::Group { .. } => {},
        LayoutNode::Split { axis, first, second, .. } => {
            let (a, b) = match axis {
                SplitAxis::Horizontal => (
                    LayoutEdges { right: false, ..e },
                    LayoutEdges { left: false, ..e },
                ),
                SplitAxis::Vertical => (
                    LayoutEdges { bottom: false, ..e },
                    LayoutEdges { top: false, ..e },
                ),
            };
            let n = edges_of(*first, a).len();
            every_group_has_edges(*first, a);
            if i < n {
                inner_groups_touch_no_outer_edge(*first, a, i);
            } else {
                inner_groups_touch_no_outer_edge(*second, b, i - n);
            }
        },
    }
}

} // verus!
