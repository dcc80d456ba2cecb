//! The projects that a window shows, each with its own layout.

use vstd::prelude::*;
use crate::i18n;
use crate::i18n::Language;
use crate::layout;
use crate::layout::{GroupId, ItemId, ItemKind, LayoutNode, ProjectId, SessionId, SplitAxis, SplitId, TabGroup, TabItem};
use crate::ids;
use crate::text;
use std::collections::HashSet;

verus! {

/// A tab as a mathematical value.
pub struct Item {
    pub id: ItemId,
    pub kind: ItemKind,
    pub title: Seq<char>,
    pub session: Option<SessionId>,
}

/// A group of tabs as a mathematical value.
pub struct Group {
    pub id: GroupId,
    pub items: Seq<Item>,
    pub active: Option<ItemId>,
}

/// A layout as a mathematical value.
pub enum Tree {
    Group(Group),
    Split(SplitId, SplitAxis, Box<Tree>, Box<Tree>),
}

pub open spec fn item(i: TabItem) -> Item {
    Item { id: i.id, kind: i.kind, title: i.title@, session: i.session_id }
}

pub open spec fn items(v: Seq<TabItem>) -> Seq<Item> {
    v.map_values(|i: TabItem| item(i))
}

pub open spec fn group(g: TabGroup) -> Group {
    Group { id: g.id, items: items(g.items@), active: g.active_item_id }
}

pub open spec fn tree(l: LayoutNode) -> Tree
    decreases l,
{
    match l {
        LayoutNode::Group { group: g } => Tree::Group(group(g)),
        LayoutNode::Split { id, axis, first, second } => Tree::Split(
            id,
            axis,
            Box::new(tree(*first)),
            Box::new(tree(*second)),
        ),
    }
}

/// The groups of a layout, from its first to its last.
pub open spec fn leaves(t: Tree) -> Seq<Group>
    decreases t,
{
    match t {
        Tree::Group(g) => seq![g],
        Tree::Split(_, _, a, b) => leaves(*a) + leaves(*b),
    }
}

/// The id of the first tab of the session in the group.
pub open spec fn tab_of(v: Seq<Item>, session: SessionId) -> Option<ItemId>
    decreases v.len(),
{
    if v.len() == 0 {
        None
    } else if v[0].session == Some(session) {
        Some(v[0].id)
    } else {
        tab_of(v.skip(1), session)
    }
}

/// Where the session's first tab is.
pub open spec fn place_of(gs: Seq<Group>, session: SessionId) -> Option<(GroupId, ItemId)>
    decreases gs.len(),
{
    if gs.len() == 0 {
        None
    } else {
        match tab_of(gs[0].items, session) {
            Some(id) => Some((gs[0].id, id)),
            None => place_of(gs.skip(1), session),
        }
    }
}

/// The place of a tab in two rows of groups is that in the first, else that in the second.
pub proof fn place_of_sum(a: Seq<Group>, b: Seq<Group>, session: SessionId)
    ensures
        place_of(a + b, session) == (if place_of(a, session) is Some {
            place_of(a, session)
        } else {
            place_of(b, session)
        }),
    decreases a.len(),
{
    if a.len() == 0 {
        assert(a + b =~= b);
    } else {
        assert((a + b)[0] == a[0]);
        assert((a + b).skip(1) =~= a.skip(1) + b);
        place_of_sum(a.skip(1), b, session);
    }
}

fn find_tab(v: &Vec<TabItem>, session: SessionId) -> (r: Option<ItemId>)
    ensures
        r == tab_of(items(v@), session),
{
    let mut i: usize = 0;
    assert(items(v@).skip(0) =~= items(v@));
    while i < v.len()
        invariant
            i <= v@.len(),
            tab_of(items(v@), session) == tab_of(items(v@).skip(i as int), session),
        decreases v@.len() - i,
    {
        assert(items(v@).skip(i as int)[0] == item(v@[i as int]));
        match v[i].session_id {
            Some(id) => {
                if id == session {
                    return Some(v[i].id);
                }
            },
            None => {},
        }
        assert(items(v@).skip(i as int).skip(1) =~= items(v@).skip(i + 1));
        i = i + 1;
    }
    None
}

/// Where the session's first tab is in the layout.
pub fn find_terminal_item(l: &LayoutNode, session: SessionId) -> (r: Option<(GroupId, ItemId)>)
    ensures
        r == place_of(leaves(tree(*l)), session),
    decreases l,
{
    match l {
        LayoutNode::Group { group: g } => {
            proof {
                assert(leaves(tree(*l)).skip(1) =~= seq![]);
                assert(place_of(leaves(tree(*l)).skip(1), session) is None);
                assert(leaves(tree(*l))[0] == group(*g));
            }
            match find_tab(&g.items, session) {
                Some(id) => Some((g.id, id)),
                None => None,
            }
        },
        LayoutNode::Split { first, second, .. } => {
            proof {
                place_of_sum(leaves(tree(**first)), leaves(tree(**second)), session);
            }
            match find_terminal_item(first, session) {
                Some(place) => Some(place),
                None => find_terminal_item(second, session),
            }
        },
    }
}

/// The tabs with the titles of the session's tabs replaced.
pub open spec fn retitled_items(v: Seq<Item>, session: SessionId, title: Seq<char>) -> Seq<Item> {
    v.map_values(
        |i: Item|
            if i.session == Some(session) {
                Item { title, ..i }
            } else {
                i
            },
    )
}

/// The layout with the titles of the session's tabs replaced.
pub open spec fn retitled(t: Tree, session: SessionId, title: Seq<char>) -> Tree
    decreases t,
{
    match t {
        Tree::Group(g) => Tree::Group(
            Group { items: retitled_items(g.items, session, title), ..g },
        ),
        Tree::Split(id, axis, a, b) => Tree::Split(
            id,
            axis,
            Box::new(retitled(*a, session, title)),
            Box::new(retitled(*b, session, title)),
        ),
    }
}

fn retitle_items(v: &mut Vec<TabItem>, session: SessionId, title: &str) -> (r: bool)
    ensures
        items(final(v)@) == retitled_items(items(old(v)@), session, title@),
        r == (items(final(v)@) != items(old(v)@)),
{
    let ghost before = v@;
    let mut changed: bool = false;
    let mut i: usize = 0;
    while i < v.len()
        invariant
            i <= v@.len(),
            v@.len() == before.len(),
            forall|j: int|
                0 <= j < i ==> item(#[trigger] v@[j]) == retitled_items(
                    items(before),
                    session,
                    title@,
                )[j],
            forall|j: int| i <= j < v@.len() ==> #[trigger] v@[j] == before[j],
            changed == exists|j: int|
                0 <= j < i && retitled_items(items(before), session, title@)[j] != #[trigger] items(
                    before,
                )[j],
        decreases v@.len() - i,
    {
        let mine: bool = match v[i].session_id {
            Some(id) => id == session,
            None => false,
        };
        let ghost next = retitled_items(items(before), session, title@);
        if mine && !text::text_eq(v[i].title.as_str(), title) {
            let t: &TabItem = &v[i];
            let renamed: TabItem = TabItem {
                id: t.id,
                kind: t.kind,
                title: title.to_owned(),
                session_id: t.session_id,
            };
            v.set(i, renamed);
            changed = true;
            assert(next[i as int] != items(before)[i as int]);
        } else {
            assert(next[i as int] == items(before)[i as int]);
        }
        i = i + 1;
    }
    proof {
        let next = retitled_items(items(before), session, title@);
        assert(items(v@) =~= next);
        if changed {
            let j = choose|j: int| 0 <= j < i && next[j] != #[trigger] items(before)[j];
            assert(items(v@)[j] != items(before)[j]);
        } else {
            assert forall|j: int| 0 <= j < before.len() implies next[j] == #[trigger] items(
                before,
            )[j] by {}
            assert(items(v@) =~= items(before));
        }
    }
    changed
}

/// Gives every tab of the session the title. Returns whether that changed anything.
pub fn update_terminal_title(l: &mut LayoutNode, session: SessionId, title: &str) -> (r: bool)
    ensures
        tree(*final(l)) == retitled(tree(*old(l)), session, title@),
        r == (tree(*final(l)) != tree(*old(l))),
    decreases *old(l),
{
    match l {
        LayoutNode::Group { group: g } => retitle_items(&mut g.items, session, title),
        LayoutNode::Split { first, second, .. } => {
            let a: bool = update_terminal_title(first, session, title);
            let b: bool = update_terminal_title(second, session, title);
            a || b
        },
    }
}

/// Some group of the layout has this id.
pub open spec fn has_group(t: Tree, id: GroupId) -> bool
    decreases t,
{
    match t {
        Tree::Group(g) => g.id == id,
        Tree::Split(_, _, a, b) => has_group(*a, id) || has_group(*b, id),
    }
}

/// The layout with the first group that has this id showing another tab.
pub open spec fn with_active(t: Tree, id: GroupId, active: ItemId) -> Tree
    decreases t,
{
    match t {
        Tree::Group(g) => if g.id == id {
            Tree::Group(Group { active: Some(active), ..g })
        } else {
            t
        },
        Tree::Split(s, axis, a, b) => if has_group(*a, id) {
            Tree::Split(s, axis, Box::new(with_active(*a, id, active)), b)
        } else {
            Tree::Split(s, axis, a, Box::new(with_active(*b, id, active)))
        },
    }
}

/// The layout with a tab added at the end of the first group that has this id, and shown there.
pub open spec fn with_item(t: Tree, id: GroupId, i: Item) -> Tree
    decreases t,
{
    match t {
        Tree::Group(g) => if g.id == id {
            Tree::Group(Group { items: g.items.push(i), active: Some(i.id), ..g })
        } else {
            t
        },
        Tree::Split(s, axis, a, b) => if has_group(*a, id) {
            Tree::Split(s, axis, Box::new(with_item(*a, id, i)), b)
        } else {
            Tree::Split(s, axis, a, Box::new(with_item(*b, id, i)))
        },
    }
}

/// Makes the first group with this id show the tab. Returns whether there is such a group.
pub fn set_active_item(l: &mut LayoutNode, id: GroupId, active: ItemId) -> (r: bool)
    ensures
        r == has_group(tree(*old(l)), id),
        tree(*final(l)) == with_active(tree(*old(l)), id, active),
    decreases *old(l),
{
    match l {
        LayoutNode::Group { group: g } => {
            if g.id == id {
                g.active_item_id = Some(active);
                true
            } else {
                false
            }
        },
        LayoutNode::Split { first, second, .. } => {
            if has_group_with(first, id) {
                set_active_item(first, id, active)
            } else {
                set_active_item(second, id, active)
            }
        },
    }
}

/// Whether some group of the layout has this id.
pub fn has_group_with(l: &LayoutNode, id: GroupId) -> (r: bool)
    ensures
        r == has_group(tree(*l), id),
    decreases l,
{
    match l {
        LayoutNode::Group { group: g } => g.id == id,
        LayoutNode::Split { first, second, .. } => has_group_with(first, id) || has_group_with(
            second,
            id,
        ),
    }
}

/// Adds the tab to the first group with this id and shows it. Returns whether there is such a
/// group.
pub fn add_item(l: &mut LayoutNode, id: GroupId, new: TabItem) -> (r: bool)
    ensures
        r == has_group(tree(*old(l)), id),
        tree(*final(l)) == with_item(tree(*old(l)), id, item(new)),
    decreases *old(l),
{
    match l {
        LayoutNode::Group { group: g } => {
            if g.id == id {
                let ghost before = g.items@;
                g.add_item(new);
                assert(items(g.items@) =~= items(before).push(item(new)));
                true
            } else {
                false
            }
        },
        LayoutNode::Split { first, second, .. } => {
            if has_group_with(first, id) {
                add_item(first, id, new)
            } else {
                add_item(second, id, new)
            }
        },
    }
}

/// The number of tabs.
pub open spec fn tab_count(t: Tree) -> nat
    decreases t,
{
    match t {
        Tree::Group(g) => g.items.len(),
        Tree::Split(_, _, a, b) => tab_count(*a) + tab_count(*b),
    }
}

/// The number of tabs, or `None` where it does not fit.
pub fn item_count(l: &LayoutNode) -> (r: Option<usize>)
    ensures
        match r {
            Some(n) => n == tab_count(tree(*l)),
            None => tab_count(tree(*l)) > usize::MAX,
        },
    decreases l,
{
    match l {
        LayoutNode::Group { group: g } => Some(g.items.len()),
        LayoutNode::Split { first, second, .. } => {
            match (item_count(first), item_count(second)) {
                (Some(a), Some(b)) => a.checked_add(b),
                _ => None,
            }
        },
    }
}

/// The group at the top left corner: the first one.
pub open spec fn top_left(t: Tree) -> GroupId
    decreases t,
{
    match t {
        Tree::Group(g) => g.id,
        Tree::Split(_, _, a, _) => top_left(*a),
    }
}

/// The group at the top right corner: on the second side of a split side by side, on the first
/// side of one above the other.
pub open spec fn top_right(t: Tree) -> GroupId
    decreases t,
{
    match t {
        Tree::Group(g) => g.id,
        Tree::Split(_, axis, a, b) => if axis == SplitAxis::Horizontal {
            top_right(*b)
        } else {
            top_right(*a)
        },
    }
}

/// The group at the top left corner.
pub fn top_left_group_id(l: &LayoutNode) -> (r: GroupId)
    ensures
        r == top_left(tree(*l)),
    decreases l,
{
    match l {
        LayoutNode::Group { group: g } => g.id,
        LayoutNode::Split { first, .. } => top_left_group_id(first),
    }
}

/// The group at the top right corner.
pub fn top_right_group_id(l: &LayoutNode) -> (r: GroupId)
    ensures
        r == top_right(tree(*l)),
    decreases l,
{
    match l {
        LayoutNode::Group { group: g } => g.id,
        LayoutNode::Split { axis, first, second, .. } => match axis {
            SplitAxis::Horizontal => top_right_group_id(second),
            SplitAxis::Vertical => top_right_group_id(first),
        },
    }
}

/// The sessions of the tabs, in order.
pub open spec fn sessions_of_items(v: Seq<Item>) -> Seq<SessionId>
    decreases v.len(),
{
    if v.len() == 0 {
        seq![]
    } else {
        match v.last().session {
            Some(id) => sessions_of_items(v.drop_last()).push(id),
            None => sessions_of_items(v.drop_last()),
        }
    }
}

/// The sessions of all tabs of the layout, in order.
pub open spec fn sessions_in(t: Tree) -> Seq<SessionId>
    decreases t,
{
    match t {
        Tree::Group(g) => sessions_of_items(g.items),
        Tree::Split(_, _, a, b) => sessions_in(*a) + sessions_in(*b),
    }
}

fn collect_sessions(l: &LayoutNode, out: &mut Vec<SessionId>)
    ensures
        final(out)@ == old(out)@ + sessions_in(tree(*l)),
    decreases l,
{
    match l {
        LayoutNode::Group { group: g } => {
            let ghost all = items(g.items@);
            let mut i: usize = 0;
            assert(all.take(0) =~= seq![]);
            assert(out@ =~= old(out)@ + sessions_of_items(all.take(0)));
            while i < g.items.len()
                invariant
                    i <= g.items@.len(),
                    all == items(g.items@),
                    out@ == old(out)@ + sessions_of_items(all.take(i as int)),
                decreases g.items@.len() - i,
            {
                let ghost now = all.take(i + 1);
                assert(now.drop_last() =~= all.take(i as int));
                assert(now.last() == item(g.items@[i as int]));
                match g.items[i].session_id {
                    Some(id) => {
                        out.push(id);
                    },
                    None => {},
                }
                assert(out@ =~= old(out)@ + sessions_of_items(now));
                i = i + 1;
            }
            assert(all.take(i as int) =~= all);
        },
        LayoutNode::Split { first, second, .. } => {
            collect_sessions(first, out);
            collect_sessions(second, out);
            assert(out@ =~= old(out)@ + sessions_in(tree(*l)));
        },
    }
}

/// The sessions of all tabs of the layout, in order.
pub fn layout_sessions(l: &LayoutNode) -> (r: Vec<SessionId>)
    ensures
        r@ == sessions_in(tree(*l)),
{
    let mut out: Vec<SessionId> = Vec::new();
    collect_sessions(l, &mut out);
    assert(out@ =~= sessions_in(tree(*l)));
    out
}

/// Whether a tab is one of the session's; of any session's, where none is named.
pub open spec fn is_tab_of(i: Item, session: Option<SessionId>) -> bool {
    match session {
        Some(s) => i.session == Some(s),
        None => i.session is Some,
    }
}

/// The tabs of the session among these of a group, in order.
pub open spec fn tabs_in_group(id: GroupId, v: Seq<Item>, session: Option<SessionId>) -> Seq<
    (GroupId, ItemId),
>
    decreases v.len(),
{
    if v.len() == 0 {
        seq![]
    } else {
        let head = tabs_in_group(id, v.drop_last(), session);
        if is_tab_of(v.last(), session) {
            head.push((id, v.last().id))
        } else {
            head
        }
    }
}

/// The tabs of the session in the layout, in order; those of all sessions, where none is named.
pub open spec fn tabs_in(t: Tree, session: Option<SessionId>) -> Seq<(GroupId, ItemId)>
    decreases t,
{
    match t {
        Tree::Group(g) => tabs_in_group(g.id, g.items, session),
        Tree::Split(_, _, a, b) => tabs_in(*a, session) + tabs_in(*b, session),
    }
}

fn collect_tabs(l: &LayoutNode, session: Option<SessionId>, out: &mut Vec<(GroupId, ItemId)>)
    ensures
        final(out)@ == old(out)@ + tabs_in(tree(*l), session),
    decreases l,
{
    match l {
        LayoutNode::Group { group: g } => {
            let ghost all = items(g.items@);
            let mut i: usize = 0;
            assert(all.take(0) =~= seq![]);
            assert(out@ =~= old(out)@ + tabs_in_group(g.id, all.take(0), session));
            while i < g.items.len()
                invariant
                    i <= g.items@.len(),
                    all == items(g.items@),
                    out@ == old(out)@ + tabs_in_group(g.id, all.take(i as int), session),
                decreases g.items@.len() - i,
            {
                let ghost now = all.take(i + 1);
                assert(now.drop_last() =~= all.take(i as int));
                assert(now.last() == item(g.items@[i as int]));
                let wanted: bool = match (g.items[i].session_id, session) {
                    (Some(has), Some(s)) => has == s,
                    (Some(_), None) => true,
                    (None, _) => false,
                };
                if wanted {
                    out.push((g.id, g.items[i].id));
                }
                assert(out@ =~= old(out)@ + tabs_in_group(g.id, now, session));
                i = i + 1;
            }
            assert(all.take(i as int) =~= all);
        },
        LayoutNode::Split { first, second, .. } => {
            collect_tabs(first, session, out);
            collect_tabs(second, session, out);
            assert(out@ =~= old(out)@ + tabs_in(tree(*l), session));
        },
    }
}

/// The tabs that closing all terminals of a project closes, in order: every tab of a session.
pub fn terminal_tabs_to_close(l: &LayoutNode) -> (r: Vec<(GroupId, ItemId)>)
    ensures
        r@ == tabs_in(tree(*l), None),
{
    let mut r: Vec<(GroupId, ItemId)> = Vec::new();
    collect_tabs(l, None, &mut r);
    assert(r@ =~= tabs_in(tree(*l), None));
    r
}

proof fn tabs_in_group_are_all(id: GroupId, v: Seq<Item>, session: Option<SessionId>, x: ItemId)
    ensures
        tabs_in_group(id, v, session).contains((id, x)) <==> exists|j: int|
            0 <= j < v.len() && (#[trigger] v[j]).id == x && is_tab_of(v[j], session),
        forall|k: int|
            0 <= k < tabs_in_group(id, v, session).len() ==> (#[trigger] tabs_in_group(
                id,
                v,
                session,
            )[k]).0 == id,
    decreases v.len(),
{
    let all = tabs_in_group(id, v, session);
    if v.len() > 0 {
        let n = v.len() as int;
        let front = v.drop_last();
        let head = tabs_in_group(id, front, session);
        tabs_in_group_are_all(id, front, session, x);
        if all.contains((id, x)) {
            let k = all.index_of((id, x));
            if k < head.len() {
                assert(head[k] == (id, x));
                let j = choose|j: int|
                    0 <= j < front.len() && (#[trigger] front[j]).id == x && is_tab_of(
                        front[j],
                        session,
                    );
                assert(v[j] == front[j]);
            } else {
                assert(v[n - 1] == v.last());
            }
        }
        if exists|j: int|
            0 <= j < v.len() && (#[trigger] v[j]).id == x && is_tab_of(v[j], session) {
            let j = choose|j: int|
                0 <= j < v.len() && (#[trigger] v[j]).id == x && is_tab_of(v[j], session);
            if j < n - 1 {
                assert(front[j] == v[j]);
                let k = head.index_of((id, x));
                assert(all[k] == (id, x));
            } else {
                assert(all[head.len() as int] == (id, x));
            }
        }
    }
}

/// The group holds a tab of the session with this id.
pub open spec fn group_has_tab(g: Group, session: Option<SessionId>, x: ItemId) -> bool {
    exists|j: int| 0 <= j < g.items.len() && (#[trigger] g.items[j]).id == x && is_tab_of(
        g.items[j],
        session,
    )
}

/// Some group of the layout with the given id holds a tab of the session with the other.
pub open spec fn has_tab(t: Tree, session: Option<SessionId>, g: GroupId, x: ItemId) -> bool {
    exists|k: int|
        0 <= k < leaves(t).len() && (#[trigger] leaves(t)[k]).id == g && group_has_tab(
            leaves(t)[k],
            session,
            x,
        )
}

/// Every tab of the session in the layout is on the list, and the list holds nothing else; so it
/// is of the tabs of all sessions, where none is named.
pub proof fn every_tab_of_the_session_is_listed(
    t: Tree,
    session: Option<SessionId>,
    g: GroupId,
    x: ItemId,
)
    ensures
        tabs_in(t, session).contains((g, x)) <==> has_tab(t, session, g, x),
    decreases t,
{
    let all = tabs_in(t, session);
    let gs = leaves(t);
    match t {
        Tree::Group(group) => {
            tabs_in_group_are_all(group.id, group.items, session, x);
            if all.contains((g, x)) {
                let k = all.index_of((g, x));
                assert(all[k].0 == group.id);
                assert(group_has_tab(gs[0], session, x));
            }
            if has_tab(t, session, g, x) {
                assert(group_has_tab(group, session, x));
            }
        },
        Tree::Split(_, _, a, b) => {
            every_tab_of_the_session_is_listed(*a, session, g, x);
            every_tab_of_the_session_is_listed(*b, session, g, x);
            let one = tabs_in(*a, session);
            let two = tabs_in(*b, session);
            let n = leaves(*a).len() as int;
            if all.contains((g, x)) {
                let k = all.index_of((g, x));
                if k < one.len() {
                    assert(one[k] == (g, x));
                    let i = choose|i: int|
                        0 <= i < n && (#[trigger] leaves(*a)[i]).id == g && group_has_tab(
                            leaves(*a)[i],
                            session,
                            x,
                        );
                    assert(gs[i] == leaves(*a)[i]);
                } else {
                    assert(two[k - one.len()] == (g, x));
                    let i = choose|i: int|
                        0 <= i < leaves(*b).len() && (#[trigger] leaves(*b)[i]).id == g
                            && group_has_tab(leaves(*b)[i], session, x);
                    assert(gs[n + i] == leaves(*b)[i]);
                }
            }
            if has_tab(t, session, g, x) {
                let i = choose|i: int|
                    0 <= i < gs.len() && (#[trigger] gs[i]).id == g && group_has_tab(
                        gs[i],
                        session,
                        x,
                    );
                if i < n {
                    assert(leaves(*a)[i] == gs[i]);
                    let k = one.index_of((g, x));
                    assert(all[k] == (g, x));
                } else {
                    assert(leaves(*b)[i - n] == gs[i]);
                    let k = two.index_of((g, x));
                    assert(all[one.len() + k] == (g, x));
                }
            }
        },
    }
}

/// One of the groups with this id holds the tab.
pub open spec fn holds(t: Tree, g: GroupId, i: Item) -> bool {
    exists|k: int, j: int|
        0 <= k < leaves(t).len() && 0 <= j < leaves(t)[k].items.len() && leaves(t)[k].id == g && (
        #[trigger] leaves(t)[k].items[j]) == i
}

/// The second layout is what closing the tabs may leave of the first: each of its tabs stood in the
/// first, in the same group, and is none of those that were closed.
pub open spec fn is_left_of(before: Tree, after: Tree, closed: Seq<(GroupId, ItemId)>) -> bool {
    forall|g: GroupId, i: Item| #[trigger]
        holds(after, g, i) ==> holds(before, g, i) && !closed.contains((g, i.id))
}

/// Once the listed tabs are closed, the layout has no tab of the session any more; none of any
/// session, where none is named.
pub proof fn closing_the_listed_tabs_leaves_none(
    before: Tree,
    after: Tree,
    session: Option<SessionId>,
)
    requires
        is_left_of(before, after, tabs_in(before, session)),
    ensures
        tabs_in(after, session).len() == 0,
        forall|g: GroupId, x: ItemId| !has_tab(after, session, g, x),
{
    assert forall|g: GroupId, x: ItemId| !has_tab(after, session, g, x) by {
        if has_tab(after, session, g, x) {
            let gs = leaves(after);
            let k = choose|k: int|
                0 <= k < gs.len() && (#[trigger] gs[k]).id == g && group_has_tab(gs[k], session, x);
            let j = choose|j: int|
                0 <= j < gs[k].items.len() && (#[trigger] gs[k].items[j]).id == x && is_tab_of(
                    gs[k].items[j],
                    session,
                );
            let i = gs[k].items[j];
            assert(holds(after, g, i));
            assert(holds(before, g, i));
            let (m, n) = choose|m: int, n: int|
                0 <= m < leaves(before).len() && 0 <= n < leaves(before)[m].items.len()
                    && leaves(before)[m].id == g && (#[trigger] leaves(before)[m].items[n]) == i;
            assert(group_has_tab(leaves(before)[m], session, x));
            assert(has_tab(before, session, g, x));
            every_tab_of_the_session_is_listed(before, session, g, x);
        }
    }
    let all = tabs_in(after, session);
    if all.len() > 0 {
        let (g, x) = all[0];
        assert(all.contains((g, x)));
        every_tab_of_the_session_is_listed(after, session, g, x);
    }
}

/// What a window shows of a project: a layout and the group that takes the keyboard.
#[derive(Debug)]
pub struct WindowProjectView {
    pub project_id: ProjectId,
    pub layout: LayoutNode,
    pub active_group_id: GroupId,
}

/// What a window shows of a project, as a mathematical value.
pub struct Shown {
    pub project: ProjectId,
    pub layout: Tree,
    pub active: GroupId,
}

pub open spec fn shown(v: WindowProjectView) -> Shown {
    Shown { project: v.project_id, layout: tree(v.layout), active: v.active_group_id }
}

pub open spec fn all_shown(v: Seq<WindowProjectView>) -> Seq<Shown> {
    v.map_values(|x: WindowProjectView| shown(x))
}

pub open spec fn empty_shown(project: ProjectId, group_id: GroupId) -> Shown {
    Shown {
        project,
        layout: Tree::Group(Group { id: group_id, items: seq![], active: None }),
        active: group_id,
    }
}

impl WindowProjectView {
    /// A view of a project without terminals: one empty group, which is the active one.
    pub fn empty(project_id: ProjectId, group_id: GroupId) -> (r: WindowProjectView)
        ensures
            shown(r) == empty_shown(project_id, group_id),
    {
        let items: Vec<TabItem> = Vec::new();
        assert(self::items(items@) =~= seq![]);
        WindowProjectView {
            project_id,
            layout: LayoutNode::Group {
                group: TabGroup { id: group_id, items, active_item_id: None },
            },
            active_group_id: group_id,
        }
    }

    /// The session that takes the keyboard.
    pub fn active_session_id(&self) -> (r: Option<SessionId>)
        ensures
            r == (match layout::group_with(layout::groups(self.layout), self.active_group_id) {
                Some(g) => layout::shown_session(g),
                None => None,
            }),
    {
        match self.layout.find_group(self.active_group_id) {
            Some(g) => g.active_session(),
            None => None,
        }
    }

    /// Takes over the layout that closing a tab of group `closed` has left. Where the group has
    /// gone with its last tab, the first group becomes the active one.
    pub fn after_close(self, closed: GroupId, layout: LayoutNode) -> (r: WindowProjectView)
        ensures
            r.project_id == self.project_id,
            r.layout == layout,
            r.active_group_id == (if has_group(tree(layout), closed) {
                self.active_group_id
            } else {
                layout::groups(layout)[0].id
            }),
    {
        let active: GroupId = if has_group_with(&layout, closed) {
            self.active_group_id
        } else {
            layout.first_group_id()
        };
        WindowProjectView { project_id: self.project_id, layout, active_group_id: active }
    }

    /// Shows the tab and gives its group the keyboard. Nothing changes where there is no such
    /// group. Returns whether there is.
    pub fn activate_item(&mut self, group_id: GroupId, item_id: ItemId) -> (r: bool)
        ensures
            r == has_group(tree(old(self).layout), group_id),
            shown(*final(self)) == (if r {
                Shown {
                    layout: with_active(tree(old(self).layout), group_id, item_id),
                    active: group_id,
                    ..shown(*old(self))
                }
            } else {
                shown(*old(self))
            }),
    {
        if !has_group_with(&self.layout, group_id) {
            return false;
        }
        let found: bool = set_active_item(&mut self.layout, group_id, item_id);
        self.active_group_id = group_id;
        true
    }

    /// Gives the group the keyboard where the layout has it. Returns whether it has.
    pub fn focus_group(&mut self, group_id: GroupId) -> (r: bool)
        ensures
            r == has_group(tree(old(self).layout), group_id),
            shown(*final(self)) == (if r {
                Shown { active: group_id, ..shown(*old(self)) }
            } else {
                shown(*old(self))
            }),
    {
        if has_group_with(&self.layout, group_id) {
            self.active_group_id = group_id;
            true
        } else {
            false
        }
    }

    /// Adds a tab to the group, shows it and gives the group the keyboard. Nothing changes where
    /// there is no such group.
    pub fn add_terminal(&mut self, group_id: GroupId, new: TabItem) -> (r: bool)
        ensures
            r == has_group(tree(old(self).layout), group_id),
            shown(*final(self)) == (if r {
                Shown {
                    layout: with_item(tree(old(self).layout), group_id, item(new)),
                    active: group_id,
                    ..shown(*old(self))
                }
            } else {
                shown(*old(self))
            }),
    {
        if !has_group_with(&self.layout, group_id) {
            return false;
        }
        let found: bool = add_item(&mut self.layout, group_id, new);
        self.active_group_id = group_id;
        true
    }
}

/// A tab that was shown stays where it was: adding a tab to a group leaves the other groups alone
/// and shows the new tab in the group.
pub proof fn adding_a_tab_shows_it(t: Tree, id: GroupId, new: Item, k: int)
    requires
        0 <= k < leaves(t).len(),
    ensures
        leaves(with_item(t, id, new)).len() == leaves(t).len(),
        leaves(with_item(t, id, new))[k] == leaves(t)[k] || (leaves(t)[k].id == id && leaves(
            with_item(t, id, new),
        )[k] == (Group {
            items: leaves(t)[k].items.push(new),
            active: Some(new.id),
            ..leaves(t)[k]
        })),
    decreases t,
{
    match t {
        Tree::Group(g) => {},
        Tree::Split(s, axis, a, b) => {
            let n = leaves(*a).len();
            if has_group(*a, id) {
                if n > 0 {
                    adding_a_tab_shows_it(*a, id, new, if k < n { k } else { 0 });
                }
            } else {
                if leaves(*b).len() > 0 {
                    adding_a_tab_shows_it(*b, id, new, if k >= n { k - n } else { 0 });
                } else {
                    leaves_are_some(*b);
                }
            }
            leaves_are_some(*a);
            leaves_are_some(*b);
        },
    }
}

proof fn leaves_are_some(t: Tree)
    ensures
        leaves(t).len() > 0,
    decreases t,
{
    match t {
        Tree::Group(g) => {},
        Tree::Split(_, _, a, b) => {
            leaves_are_some(*a);
        },
    }
}

/// A project: its id, its name, and its working directory where one is set.
#[derive(Clone, Debug)]
pub struct Project {
    pub id: ProjectId,
    pub name: String,
    pub root: Option<String>,
}

/// The ids of the projects, in order.
pub open spec fn project_ids(v: Seq<Project>) -> Seq<ProjectId> {
    v.map_values(|p: Project| p.id)
}

/// The index of the first view of the project, or the number of views.
pub open spec fn view_index(v: Seq<Shown>, project: ProjectId) -> int
    decreases v.len(),
{
    if v.len() == 0 || v[0].project == project {
        0
    } else {
        1 + view_index(v.skip(1), project)
    }
}

pub open spec fn has_view(v: Seq<Shown>, project: ProjectId) -> bool {
    exists|i: int| 0 <= i < v.len() && (#[trigger] v[i]).project == project
}

fn find_view(views: &Vec<WindowProjectView>, project: ProjectId) -> (r: Option<usize>)
    ensures
        match r {
            Some(i) => i < views@.len() && i == view_index(all_shown(views@), project)
                && views@[i as int].project_id == project,
            None => !has_view(all_shown(views@), project) && view_index(
                all_shown(views@),
                project,
            ) == views@.len(),
        },
{
    let ghost all = all_shown(views@);
    let mut i: usize = 0;
    assert(all.skip(0) =~= all);
    while i < views.len()
        invariant
            i <= views@.len(),
            all == all_shown(views@),
            view_index(all, project) == i + view_index(all.skip(i as int), project),
            forall|j: int| 0 <= j < i ==> (#[trigger] all[j]).project != project,
        decreases views@.len() - i,
    {
        assert(all.skip(i as int)[0] == shown(views@[i as int]));
        if views[i].project_id == project {
            return Some(i);
        }
        assert(all.skip(i as int).skip(1) =~= all.skip(i + 1));
        i = i + 1;
    }
    None
}

/// Whether the window has a view of the project.
pub fn shows_project(views: &Vec<WindowProjectView>, project: ProjectId) -> (r: bool)
    ensures
        r == has_view(all_shown(views@), project),
{
    match find_view(views, project) {
        Some(i) => {
            assert(all_shown(views@)[i as int].project == project);
            true
        },
        None => false,
    }
}

/// The views of the projects that are still listed, in order.
pub open spec fn kept_views(v: Seq<Shown>, live: Seq<ProjectId>) -> Seq<Shown> {
    v.filter(|s: Shown| live.contains(s.project))
}

/// An empty view for each listed project that has none yet; `groups[i]` is the id of the group
/// that the project at index `i` would get.
pub open spec fn added_views(
    have: Seq<Shown>,
    live: Seq<ProjectId>,
    groups: Seq<GroupId>,
) -> Seq<Shown>
    decreases live.len(),
{
    if live.len() == 0 {
        have
    } else {
        let before = added_views(have, live.drop_last(), groups);
        if has_view(before, live.last()) {
            before
        } else {
            before.push(empty_shown(live.last(), groups[live.len() - 1]))
        }
    }
}

fn live_ids(projects: &Vec<Project>) -> (r: Vec<ProjectId>)
    ensures
        r@ == project_ids(projects@),
{
    let mut r: Vec<ProjectId> = Vec::new();
    let mut i: usize = 0;
    while i < projects.len()
        invariant
            i <= projects@.len(),
            r@ == project_ids(projects@.take(i as int)),
        decreases projects@.len() - i,
    {
        r.push(projects[i].id);
        assert(r@ =~= project_ids(projects@.take(i + 1)));
        i = i + 1;
    }
    assert(projects@.take(i as int) =~= projects@);
    r
}

/// What a window shows once the shared list of projects has changed.
pub struct Reconciled {
    pub views: Vec<WindowProjectView>,
    pub collapsed: HashSet<ProjectId>,
    pub active_project: ProjectId,
}

proof fn filter_step<A>(v: Seq<A>, x: A, keep: spec_fn(A) -> bool)
    ensures
        v.push(x).filter(keep) == (if keep(x) {
            v.filter(keep).push(x)
        } else {
            v.filter(keep)
        }),
{
    reveal(Seq::filter);
    assert(v.push(x).drop_last() =~= v);
}

fn keep_views(views: Vec<WindowProjectView>, live: &Vec<ProjectId>) -> (r: Vec<WindowProjectView>)
    ensures
        all_shown(r@) == kept_views(all_shown(views@), live@),
{
    let mut rest: Vec<WindowProjectView> = views;
    let mut kept: Vec<WindowProjectView> = Vec::new();
    let ghost all = all_shown(views@);
    let ghost keep = |s: Shown| live@.contains(s.project);
    let ghost n = views@.len();
    assert(all_shown(kept@) =~= all.take(0).filter(keep));
    assert(all_shown(rest@) =~= all.skip(0));
    while rest.len() > 0
        invariant
            all == all_shown(views@),
            n == views@.len(),
            keep == (|s: Shown| live@.contains(s.project)),
            rest@.len() <= n,
            all_shown(rest@) == all.skip(n - rest@.len()),
            all_shown(kept@) == all.take(n - rest@.len()).filter(keep),
        decreases rest@.len(),
    {
        let ghost at = n - rest@.len();
        let ghost tail = rest@;
        let view: WindowProjectView = rest.remove(0);
        proof {
            assert(all_shown(tail)[0] == shown(view));
            assert(all[at as int] == shown(view));
            assert(all.take(at + 1) =~= all.take(at as int).push(all[at as int]));
            filter_step(all.take(at as int), all[at as int], keep);
            assert forall|k: int| 0 <= k < rest@.len() implies all_shown(rest@)[k] == all.skip(
                at + 1,
            )[k] by {
                assert(rest@[k] == tail[k + 1]);
                assert(all_shown(tail)[k + 1] == all.skip(at as int)[k + 1]);
            }
            assert(all_shown(rest@) =~= all.skip(at + 1));
        }
        if ids::contains_id(live, view.project_id) {
            let ghost had = kept@;
            kept.push(view);
            assert(all_shown(kept@) =~= all_shown(had).push(shown(view)));
        }
    }
    assert(all.take(n as int) =~= all);
    kept
}

/// Follows the shared list of projects: each newly listed project gets an empty view, views of
/// projects that are gone go, and the active project falls back to the first listed one where it
/// is gone.
pub fn reconcile_project_views(
    views: Vec<WindowProjectView>,
    collapsed: &HashSet<ProjectId>,
    active_project: ProjectId,
    projects: &Vec<Project>,
    fresh_groups: &Vec<GroupId>,
) -> (r: Reconciled)
    requires
        fresh_groups@.len() == projects@.len(),
    ensures
        all_shown(r.views@) == added_views(
            kept_views(all_shown(views@), project_ids(projects@)),
            project_ids(projects@),
            fresh_groups@,
        ),
        r.collapsed@ == collapsed@.intersect(project_ids(projects@).to_set()),
        r.active_project == (if projects@.len() > 0 && !project_ids(projects@).contains(
            active_project,
        ) {
            projects@[0].id
        } else {
            active_project
        }),
{
    let live: Vec<ProjectId> = live_ids(projects);
    let mut next: Vec<WindowProjectView> = keep_views(views, &live);
    let ghost have = all_shown(next@);
    let mut i: usize = 0;
    assert(live@.take(0) =~= seq![]);
    while i < live.len()
        invariant
            i <= live@.len(),
            fresh_groups@.len() == live@.len(),
            all_shown(next@) == added_views(have, live@.take(i as int), fresh_groups@),
        decreases live@.len() - i,
    {
        let ghost now = live@.take(i + 1);
        assert(now.drop_last() =~= live@.take(i as int));
        if !shows_project(&next, live[i]) {
            let ghost had = next@;
            let view: WindowProjectView = WindowProjectView::empty(live[i], fresh_groups[i]);
            next.push(view);
            assert(all_shown(next@) =~= all_shown(had).push(shown(view)));
        }
        i = i + 1;
    }
    assert(live@.take(i as int) =~= live@);
    let mut folded: HashSet<ProjectId> = HashSet::new();
    let mut k: usize = 0;
    assert(live@.take(0) =~= seq![]);
    assert(folded@ =~= collapsed@.intersect(live@.take(0).to_set()));
    while k < live.len()
        invariant
            k <= live@.len(),
            folded@ == collapsed@.intersect(live@.take(k as int).to_set()),
        decreases live@.len() - k,
    {
        proof {
            ids::taking_one_more(live@, k as int);
        }
        if collapsed.contains(&live[k]) {
            folded.insert(live[k]);
        }
        assert(folded@ =~= collapsed@.intersect(live@.take(k + 1).to_set()));
        k = k + 1;
    }
    assert(live@.take(k as int) =~= live@);
    let active: ProjectId = if live.len() > 0 && !ids::contains_id(&live, active_project) {
        live[0]
    } else {
        active_project
    };
    Reconciled { views: next, collapsed: folded, active_project: active }
}

proof fn added_views_cover(have: Seq<Shown>, live: Seq<ProjectId>, groups: Seq<GroupId>)
    ensures
        forall|k: int|
            0 <= k < live.len() ==> has_view(added_views(have, live, groups), #[trigger] live[k]),
        added_views(have, live, groups).len() >= have.len(),
        added_views(have, live, groups).take(have.len() as int) == have,
        forall|k: int|
            have.len() <= k < added_views(have, live, groups).len() ==> live.contains(
                (#[trigger] added_views(have, live, groups)[k]).project,
            ),
    decreases live.len(),
{
    let all = added_views(have, live, groups);
    if live.len() == 0 {
        assert(all.take(have.len() as int) =~= have);
    } else {
        let head = live.drop_last();
        let before = added_views(have, head, groups);
        added_views_cover(have, head, groups);
        assert(all.take(have.len() as int) =~= have) by {
            assert forall|k: int| 0 <= k < have.len() implies all[k] == have[k] by {
                assert(before.take(have.len() as int)[k] == have[k]);
            }
        }
        assert forall|k: int| 0 <= k < live.len() implies has_view(all, #[trigger] live[k]) by {
            if k < head.len() {
                assert(has_view(before, head[k]));
                let i = choose|i: int|
                    0 <= i < before.len() && (#[trigger] before[i]).project == live[k];
                assert(all[i].project == live[k]);
            } else if !has_view(before, live.last()) {
                assert(all[before.len() as int].project == live[k]);
            }
        }
        assert forall|k: int| have.len() <= k < all.len() implies live.contains(
            (#[trigger] all[k]).project,
        ) by {
            if k < before.len() {
                assert(head.contains(before[k].project));
                let j = head.index_of(before[k].project);
                assert(live[j] == all[k].project);
            } else {
                assert(live[live.len() - 1] == all[k].project);
            }
        }
    }
}

proof fn kept_views_are_live(v: Seq<Shown>, live: Seq<ProjectId>, k: int)
    requires
        0 <= k < kept_views(v, live).len(),
    ensures
        live.contains(kept_views(v, live)[k].project),
{
    let keep = |s: Shown| live.contains(s.project);
    v.filter_lemma(keep);
    assert(keep(v.filter(keep)[k]));
}

/// After following the list, exactly the listed projects have a view, and the active project is
/// listed as long as any project is.
pub proof fn exactly_the_listed_projects_are_shown(
    v: Seq<Shown>,
    live: Seq<ProjectId>,
    groups: Seq<GroupId>,
    project: ProjectId,
)
    ensures
        has_view(added_views(kept_views(v, live), live, groups), project) <==> live.contains(
            project,
        ),
{
    let kept = kept_views(v, live);
    let all = added_views(kept, live, groups);
    added_views_cover(kept, live, groups);
    if live.contains(project) {
        let k = live.index_of(project);
        assert(has_view(all, live[k]));
    }
    if has_view(all, project) {
        let i = choose|i: int| 0 <= i < all.len() && (#[trigger] all[i]).project == project;
        if i < kept.len() {
            assert(all.take(kept.len() as int)[i] == kept[i]);
            kept_views_are_live(v, live, i);
        } else {
            assert(live.contains(all[i].project));
        }
    }
}

/// The tabs of a view, with its project.
pub open spec fn of_project(project: ProjectId, v: Seq<(GroupId, ItemId)>) -> Seq<
    (ProjectId, GroupId, ItemId),
> {
    v.map_values(|t: (GroupId, ItemId)| (project, t.0, t.1))
}

/// Every tab of a session, view by view: the project, the group and the tab.
pub open spec fn tabs_of_session(v: Seq<Shown>, session: SessionId) -> Seq<(
    ProjectId,
    GroupId,
    ItemId,
)>
    decreases v.len(),
{
    if v.len() == 0 {
        seq![]
    } else {
        tabs_of_session(v.drop_last(), session) + of_project(
            v.last().project,
            tabs_in(v.last().layout, Some(session)),
        )
    }
}

/// Every tab of the session in all views: what goes when the session leaves the window.
pub fn tabs_to_prune(views: &Vec<WindowProjectView>, session: SessionId) -> (r: Vec<
    (ProjectId, GroupId, ItemId),
>)
    ensures
        r@ == tabs_of_session(all_shown(views@), session),
{
    let ghost all = all_shown(views@);
    let mut r: Vec<(ProjectId, GroupId, ItemId)> = Vec::new();
    let mut i: usize = 0;
    assert(all.take(0) =~= seq![]);
    while i < views.len()
        invariant
            i <= views@.len(),
            all == all_shown(views@),
            r@ == tabs_of_session(all.take(i as int), session),
        decreases views@.len() - i,
    {
        let ghost before = r@;
        let project: ProjectId = views[i].project_id;
        let mut found: Vec<(GroupId, ItemId)> = Vec::new();
        collect_tabs(&views[i].layout, Some(session), &mut found);
        let ghost here = tabs_in(tree(views@[i as int].layout), Some(session));
        assert(found@ =~= here);
        let mut k: usize = 0;
        assert(r@ =~= before + of_project(project, here.take(0)));
        while k < found.len()
            invariant
                k <= found@.len(),
                found@ == here,
                r@ == before + of_project(project, here.take(k as int)),
            decreases found@.len() - k,
        {
            r.push((project, found[k].0, found[k].1));
            assert(r@ =~= before + of_project(project, here.take(k + 1)));
            k = k + 1;
        }
        assert(here.take(k as int) =~= here);
        assert(all.take(i + 1).drop_last() =~= all.take(i as int));
        assert(all.take(i + 1).last() == shown(views@[i as int]));
        i = i + 1;
    }
    assert(all.take(i as int) =~= all);
    r
}

/// Every tab of the session in any view is pruned, and no other tab is: what stands on the list is
/// a tab of the session, in the view of the project that stands beside it.
pub proof fn every_tab_of_the_session_is_pruned(
    v: Seq<Shown>,
    session: SessionId,
    p: ProjectId,
    g: GroupId,
    x: ItemId,
)
    ensures
        tabs_of_session(v, session).contains((p, g, x)) <==> exists|i: int|
            0 <= i < v.len() && (#[trigger] v[i]).project == p && has_tab(
                v[i].layout,
                Some(session),
                g,
                x,
            ),
    decreases v.len(),
{
    let all = tabs_of_session(v, session);
    if v.len() > 0 {
        let n = v.len() as int;
        let front = v.drop_last();
        let head = tabs_of_session(front, session);
        let here = tabs_in(v.last().layout, Some(session));
        let last = of_project(v.last().project, here);
        every_tab_of_the_session_is_pruned(front, session, p, g, x);
        every_tab_of_the_session_is_listed(v.last().layout, Some(session), g, x);
        if all.contains((p, g, x)) {
            let k = all.index_of((p, g, x));
            if k < head.len() {
                assert(head[k] == (p, g, x));
                let i = choose|i: int|
                    0 <= i < front.len() && (#[trigger] front[i]).project == p && has_tab(
                        front[i].layout,
                        Some(session),
                        g,
                        x,
                    );
                assert(v[i] == front[i]);
            } else {
                assert(last[k - head.len()] == (p, g, x));
                assert(here[k - head.len()] == (g, x));
                assert(v[n - 1] == v.last());
            }
        }
        if exists|i: int|
            0 <= i < v.len() && (#[trigger] v[i]).project == p && has_tab(
                v[i].layout,
                Some(session),
                g,
                x,
            ) {
            let i = choose|i: int|
                0 <= i < v.len() && (#[trigger] v[i]).project == p && has_tab(
                    v[i].layout,
                    Some(session),
                    g,
                    x,
                );
            if i < n - 1 {
                assert(front[i] == v[i]);
                let k = head.index_of((p, g, x));
                assert(all[k] == (p, g, x));
            } else {
                let k = here.index_of((g, x));
                assert(all[head.len() + k] == (p, g, x));
            }
        }
    }
}

/// The first view that has a tab of the session, and where the tab is.
pub open spec fn first_tab(v: Seq<Shown>, session: SessionId) -> Option<(ProjectId, GroupId, ItemId)>
    decreases v.len(),
{
    if v.len() == 0 {
        None
    } else {
        match place_of(leaves(v[0].layout), session) {
            Some((g, i)) => Some((v[0].project, g, i)),
            None => first_tab(v.skip(1), session),
        }
    }
}

/// The first view that has a tab of the session, and where the tab is.
pub fn find_session_tab(views: &Vec<WindowProjectView>, session: SessionId) -> (r: Option<
    (ProjectId, GroupId, ItemId),
>)
    ensures
        r == first_tab(all_shown(views@), session),
{
    let ghost all = all_shown(views@);
    let mut i: usize = 0;
    assert(all.skip(0) =~= all);
    while i < views.len()
        invariant
            i <= views@.len(),
            all == all_shown(views@),
            first_tab(all, session) == first_tab(all.skip(i as int), session),
        decreases views@.len() - i,
    {
        assert(all.skip(i as int)[0] == shown(views@[i as int]));
        match find_terminal_item(&views[i].layout, session) {
            Some((g, t)) => return Some((views[i].project_id, g, t)),
            None => {},
        }
        assert(all.skip(i as int).skip(1) =~= all.skip(i + 1));
        i = i + 1;
    }
    None
}

/// The set with the project taken out where it is in, and put in where it is not.
pub open spec fn toggled(v: Set<ProjectId>, p: ProjectId) -> Set<ProjectId> {
    if v.contains(p) {
        v.remove(p)
    } else {
        v.insert(p)
    }
}

/// Folds or unfolds a project.
pub fn toggle_project_collapsed(collapsed: &mut HashSet<ProjectId>, project: ProjectId)
    ensures
        final(collapsed)@ == toggled(old(collapsed)@, project),
{
    if collapsed.contains(&project) {
        collapsed.remove(&project);
    } else {
        collapsed.insert(project);
    }
}

/// Folding twice changes nothing.
pub proof fn toggling_twice_restores(v: Set<ProjectId>, p: ProjectId)
    ensures
        toggled(toggled(v, p), p) == v,
{
    assert(toggled(toggled(v, p), p) =~= v);
}

/// The project in front after the user chose one: it, where the window shows it.
pub fn activate_project(
    views: &Vec<WindowProjectView>,
    active: ProjectId,
    chosen: ProjectId,
) -> (r: ProjectId)
    ensures
        r == if has_view(all_shown(views@), chosen) {
            chosen
        } else {
            active
        },
{
    if shows_project(views, chosen) {
        chosen
    } else {
        active
    }
}

/// The name of the project to create after one was deleted, so that there always is one.
pub fn replacement_project(left: &Vec<Project>) -> (r: Option<String>)
    ensures
        r is Some <==> left@.len() == 0,
        r is Some ==> r->0@ == "Home"@,
{
    if left.len() == 0 {
        Some("Home".to_owned())
    } else {
        None
    }
}

/// The name that a typed project name stands for: without white space around it, and none where
/// nothing is left.
pub fn project_name(typed: &str) -> (r: Option<String>)
    ensures
        match r {
            Some(name) => name@ == text::trimmed(typed@) && name@.len() > 0,
            None => text::trimmed(typed@).len() == 0,
        },
{
    let name: String = text::trim(typed);
    if name.as_str().is_empty() {
        None
    } else {
        Some(name)
    }
}

/// Where a starting window gets its project and sessions from.
#[derive(Clone, Debug)]
pub enum NewWindowInit {
    ColdStart { project_root: String },
    Empty,
    OpenDir { project_id: ProjectId },
}

/// What seeding a window does first.
#[derive(Clone, Debug, PartialEq, Eq)]
pub enum SeedStep {
    /// List the daemon's sessions, adopt a project for the directory, and claim what belongs to
    /// it.
    Adopt { project_root: String },
    /// Open a terminal in the project.
    OpenTerminal { project_id: ProjectId },
    /// Show the project without a terminal.
    Show { project_id: ProjectId },
    /// Create a project of this name and show it.
    CreateProject { name: String },
}

/// Seeding starts with this step.
pub open spec fn seeds(init: NewWindowInit, projects: Seq<Project>, step: SeedStep) -> bool {
    match init {
        NewWindowInit::ColdStart { project_root } => step matches SeedStep::Adopt {
            project_root: r,
        } && r@ == project_root@,
        NewWindowInit::OpenDir { project_id } => step == SeedStep::OpenTerminal { project_id },
        NewWindowInit::Empty => if projects.len() > 0 {
            step == SeedStep::Show { project_id: projects[0].id }
        } else {
            step matches SeedStep::CreateProject { name } && name@ == "Home"@
        },
    }
}

/// What seeding a window does first.
pub fn seed_window(init: &NewWindowInit, projects: &Vec<Project>) -> (r: SeedStep)
    ensures
        seeds(*init, projects@, r),
{
    match init {
        NewWindowInit::ColdStart { project_root } => SeedStep::Adopt {
            project_root: project_root.clone(),
        },
        NewWindowInit::OpenDir { project_id } => SeedStep::OpenTerminal { project_id: *project_id },
        NewWindowInit::Empty => {
            if projects.len() > 0 {
                SeedStep::Show { project_id: projects[0].id }
            } else {
                SeedStep::CreateProject { name: "Home".to_owned() }
            }
        },
    }
}

/// The directory that a terminal of the project starts in: the project's own, where it is listed
/// and has one, else the fallback.
pub open spec fn start_directory(
    v: Seq<Project>,
    project: ProjectId,
    fallback: Seq<char>,
) -> Seq<char>
    decreases v.len(),
{
    if v.len() == 0 {
        fallback
    } else if v[0].id == project {
        match v[0].root {
            Some(root) => root@,
            None => fallback,
        }
    } else {
        start_directory(v.skip(1), project, fallback)
    }
}

/// The directory that a terminal of the project starts in.
pub fn terminal_directory(projects: &Vec<Project>, project: ProjectId, fallback: &str) -> (r: String)
    ensures
        r@ == start_directory(projects@, project, fallback@),
{
    let mut i: usize = 0;
    assert(projects@.skip(0) =~= projects@);
    while i < projects.len()
        invariant
            i <= projects@.len(),
            start_directory(projects@, project, fallback@) == start_directory(
                projects@.skip(i as int),
                project,
                fallback@,
            ),
        decreases projects@.len() - i,
    {
        if projects[i].id == project {
            return match &projects[i].root {
                Some(root) => root.clone(),
                None => fallback.to_owned(),
            };
        }
        assert(projects@.skip(i as int).skip(1) =~= projects@.skip(i + 1));
        i = i + 1;
    }
    fallback.to_owned()
}

/// Puts a session into its project's view as a tab of the first group, which becomes the active
/// one. Nothing changes where the window does not show the project.
pub fn place_session(
    views: &mut Vec<WindowProjectView>,
    project: ProjectId,
    tab: TabItem,
)
    ensures
        all_shown(final(views)@) == placed(all_shown(old(views)@), project, item(tab)),
{
    let ghost before = views@;
    match find_view(views, project) {
        Some(i) => {
            let ghost at = i as int;
            let mut view: WindowProjectView = views.remove(i);
            let group_id: GroupId = top_left_group_id(&view.layout);
            proof {
                top_left_is_a_group(tree(view.layout));
            }
            let found: bool = view.add_terminal(group_id, tab);
            let ghost after = shown(view);
            views.insert(i, view);
            assert(all_shown(views@) =~= all_shown(before).update(at, after));
        },
        None => {},
    }
}

/// The group at the top left is one of the layout's.
pub proof fn top_left_is_a_group(t: Tree)
    ensures
        has_group(t, top_left(t)),
    decreases t,
{
    match t {
        Tree::Group(g) => {},
        Tree::Split(_, _, a, _) => {
            top_left_is_a_group(*a);
        },
    }
}

/// The views with a tab added to the first group of the project's view.
pub open spec fn placed(v: Seq<Shown>, project: ProjectId, tab: Item) -> Seq<Shown> {
    let i = view_index(v, project);
    if i < v.len() {
        let group = top_left(v[i].layout);
        v.update(
            i,
            Shown { layout: with_item(v[i].layout, group, tab), active: group, ..v[i] },
        )
    } else {
        v
    }
}

/// The views with a tab added to the active group of the project's view, and shown there.
pub open spec fn joined(v: Seq<Shown>, project: ProjectId, tab: Item) -> Seq<Shown> {
    let i = view_index(v, project);
    if i < v.len() {
        v.update(i, Shown { layout: with_item(v[i].layout, v[i].active, tab), ..v[i] })
    } else {
        v
    }
}

proof fn no_group_takes_no_item(t: Tree, id: GroupId, i: Item)
    requires
        !has_group(t, id),
    ensures
        with_item(t, id, i) == t,
    decreases t,
{
    match t {
        Tree::Group(g) => {},
        Tree::Split(_, _, a, b) => {
            no_group_takes_no_item(*b, id, i);
        },
    }
}

/// Puts a session into the project's view as a tab of the active group. Nothing changes where the
/// window does not show the project, or the view has no such group.
pub fn join_active_group(views: &mut Vec<WindowProjectView>, project: ProjectId, tab: TabItem)
    ensures
        all_shown(final(views)@) == joined(all_shown(old(views)@), project, item(tab)),
{
    let ghost before = views@;
    match find_view(views, project) {
        Some(i) => {
            let ghost at = i as int;
            let mut view: WindowProjectView = views.remove(i);
            let group_id: GroupId = view.active_group_id;
            proof {
                if !has_group(tree(view.layout), group_id) {
                    no_group_takes_no_item(tree(view.layout), group_id, item(tab));
                }
            }
            let found: bool = view.add_terminal(group_id, tab);
            let ghost after = shown(view);
            views.insert(i, view);
            assert(all_shown(views@) =~= all_shown(before).update(at, after));
        },
        None => {},
    }
}

/// The views with the session's first tab in the project's view shown, and its group active.
pub open spec fn activated(v: Seq<Shown>, project: ProjectId, session: SessionId) -> Seq<Shown> {
    let i = view_index(v, project);
    if i < v.len() {
        match place_of(leaves(v[i].layout), session) {
            Some((group, tab)) => v.update(
                i,
                Shown { layout: with_active(v[i].layout, group, tab), active: group, ..v[i] },
            ),
            None => v,
        }
    } else {
        v
    }
}

/// The session has a tab in the project's view.
pub open spec fn is_tabbed(v: Seq<Shown>, project: ProjectId, session: SessionId) -> bool {
    let i = view_index(v, project);
    i < v.len() && place_of(leaves(v[i].layout), session) is Some
}

/// One of the groups has this id.
pub open spec fn has_leaf(gs: Seq<Group>, id: GroupId) -> bool {
    exists|k: int| 0 <= k < gs.len() && (#[trigger] gs[k]).id == id
}

proof fn a_place_is_in_a_group(gs: Seq<Group>, session: SessionId)
    requires
        place_of(gs, session) is Some,
    ensures
        has_leaf(gs, (place_of(gs, session)->0).0),
    decreases gs.len(),
{
    if tab_of(gs[0].items, session) is None {
        a_place_is_in_a_group(gs.skip(1), session);
        let rest = gs.skip(1);
        let id = (place_of(rest, session)->0).0;
        let k = choose|k: int| 0 <= k < rest.len() && (#[trigger] rest[k]).id == id;
        assert(gs[k + 1] == rest[k]);
    }
}

proof fn a_leaf_is_a_group(t: Tree, k: int)
    requires
        0 <= k < leaves(t).len(),
    ensures
        has_group(t, leaves(t)[k].id),
    decreases t,
{
    match t {
        Tree::Group(g) => {},
        Tree::Split(_, _, a, b) => {
            let n = leaves(*a).len();
            if k < n {
                a_leaf_is_a_group(*a, k);
            } else {
                a_leaf_is_a_group(*b, k - n);
            }
        },
    }
}

/// Shows the session's first tab in the project's view and gives its group the keyboard. Nothing
/// changes where it has none there. Returns whether it has one.
pub fn activate_session(
    views: &mut Vec<WindowProjectView>,
    project: ProjectId,
    session: SessionId,
) -> (r: bool)
    ensures
        r == is_tabbed(all_shown(old(views)@), project, session),
        all_shown(final(views)@) == activated(all_shown(old(views)@), project, session),
{
    let ghost before = views@;
    match find_view(views, project) {
        Some(i) => {
            let ghost at = i as int;
            assert(all_shown(before)[at] == shown(before[at]));
            match find_terminal_item(&views[i].layout, session) {
                Some((group, tab)) => {
                    let mut view: WindowProjectView = views.remove(i);
                    proof {
                        let gs = leaves(tree(view.layout));
                        a_place_is_in_a_group(gs, session);
                        let k = choose|k: int| 0 <= k < gs.len() && (#[trigger] gs[k]).id == group;
                        a_leaf_is_a_group(tree(view.layout), k);
                    }
                    let found: bool = view.activate_item(group, tab);
                    let ghost after = shown(view);
                    views.insert(i, view);
                    assert(all_shown(views@) =~= all_shown(before).update(at, after));
                    true
                },
                None => false,
            }
        },
        None => false,
    }
}

/// Showing a tab leaves all tabs where they are.
pub proof fn showing_a_tab_moves_none(t: Tree, id: GroupId, tab: ItemId, session: SessionId)
    ensures
        place_of(leaves(with_active(t, id, tab)), session) == place_of(leaves(t), session),
    decreases t,
{
    match t {
        Tree::Group(g) => {
            reveal_with_fuel(place_of, 2);
            assert(seq![g].skip(1) =~= seq![]);
            assert(seq![Group { active: Some(tab), ..g }].skip(1) =~= seq![]);
        },
        Tree::Split(_, _, a, b) => {
            showing_a_tab_moves_none(*a, id, tab, session);
            showing_a_tab_moves_none(*b, id, tab, session);
            place_of_sum(leaves(*a), leaves(*b), session);
            place_of_sum(leaves(with_active(*a, id, tab)), leaves(*b), session);
            place_of_sum(leaves(*a), leaves(with_active(*b, id, tab)), session);
        },
    }
}

/// Shows a tab of the session, in the first view that has one. Returns the project of that view, which
/// becomes the active one; nothing changes where no view has a tab of the session.
pub fn activate_session_by_id(views: &mut Vec<WindowProjectView>, session: SessionId) -> (r: Option<
    ProjectId,
>)
    ensures
        match first_tab(all_shown(old(views)@), session) {
            Some(place) => r == Some(place.0) && all_shown(final(views)@) == activated(
                all_shown(old(views)@),
                place.0,
                session,
            ),
            None => r is None && final(views)@ == old(views)@,
        },
{
    match find_session_tab(views, session) {
        Some((project, _, _)) => {
            let found: bool = activate_session(views, project, session);
            Some(project)
        },
        None => None,
    }
}

/// A dialog that asks for a text.
#[derive(Clone, Debug)]
pub struct TextPrompt {
    pub title: &'static str,
    pub message: &'static str,
    /// What stands in the field before anything is typed.
    pub placeholder: String,
    pub ok: &'static str,
    pub cancel: &'static str,
}

/// The dialog that asks for the name of a new project.
pub fn new_project_prompt(language: Language) -> (r: TextPrompt)
    ensures
        r.title@ == i18n::pick(language, "New Project"@, "新建项目"@),
        r.message@ == i18n::pick(language, "Enter a name for the project."@, "输入项目名称。"@),
        r.placeholder@ == i18n::pick(language, "Project name"@, "项目名称"@),
        r.ok@ == i18n::pick(language, "OK"@, "确定"@),
        r.cancel@ == i18n::pick(language, "Cancel"@, "取消"@),
{
    TextPrompt {
        title: language.new_project_title(),
        message: language.new_project_message(),
        placeholder: language.project_name_placeholder().to_owned(),
        ok: language.ok(),
        cancel: language.cancel(),
    }
}

/// The name of the first project with this id.
pub open spec fn name_of(v: Seq<Project>, project: ProjectId) -> Option<Seq<char>>
    decreases v.len(),
{
    if v.len() == 0 {
        None
    } else if v[0].id == project {
        Some(v[0].name@)
    } else {
        name_of(v.skip(1), project)
    }
}

/// The dialog that asks for another name of a project, with the name that it has; none where the
/// project is not listed.
pub fn rename_project_prompt(
    projects: &Vec<Project>,
    project: ProjectId,
    language: Language,
) -> (r: Option<TextPrompt>)
    ensures
        r is Some <==> name_of(projects@, project) is Some,
        r matches Some(prompt) ==> {
            &&& prompt.title@ == i18n::pick(language, "Rename Project"@, "重命名项目"@)
            &&& prompt.message@ == i18n::pick(
                language,
                "Enter a new name for the project."@,
                "输入项目的新名称。"@,
            )
            &&& Some(prompt.placeholder@) == name_of(projects@, project)
            &&& prompt.ok@ == i18n::pick(language, "OK"@, "确定"@)
            &&& prompt.cancel@ == i18n::pick(language, "Cancel"@, "取消"@)
        },
{
    let mut i: usize = 0;
    assert(projects@.skip(0) =~= projects@);
    while i < projects.len()
        invariant
            i <= projects@.len(),
            name_of(projects@, project) == name_of(projects@.skip(i as int), project),
        decreases projects@.len() - i,
    {
        if projects[i].id == project {
            return Some(
                TextPrompt {
                    title: language.rename_project_title(),
                    message: language.rename_project_message(),
                    placeholder: projects[i].name.clone(),
                    ok: language.ok(),
                    cancel: language.cancel(),
                },
            );
        }
        assert(projects@.skip(i as int).skip(1) =~= projects@.skip(i + 1));
        i = i + 1;
    }
    None
}

/// The views with a tab added to the group of the project's view and shown there, and the group
/// active.
pub open spec fn opened(v: Seq<Shown>, project: ProjectId, group: GroupId, tab: Item) -> Seq<Shown> {
    let i = view_index(v, project);
    if i < v.len() && has_group(v[i].layout, group) {
        v.update(i, Shown { layout: with_item(v[i].layout, group, tab), active: group, ..v[i] })
    } else {
        v
    }
}

/// Adds a tab to the group of the project's view, shows it and gives the group the keyboard. Nothing
/// changes where the window does not show the project, or the view has no such group.
pub fn open_in_group(
    views: &mut Vec<WindowProjectView>,
    project: ProjectId,
    group_id: GroupId,
    tab: TabItem,
)
    ensures
        all_shown(final(views)@) == opened(all_shown(old(views)@), project, group_id, item(tab)),
{
    let ghost before = views@;
    match find_view(views, project) {
        Some(i) => {
            let ghost at = i as int;
            let mut view: WindowProjectView = views.remove(i);
            let found: bool = view.add_terminal(group_id, tab);
            let ghost after = shown(view);
            views.insert(i, view);
            assert(all_shown(views@) =~= all_shown(before).update(at, after));
            assert(all_shown(before)[at] == shown(before[at]));
            assert(all_shown(views@) =~= opened(
                all_shown(before),
                project,
                group_id,
                item(tab),
            ));
        },
        None => {},
    }
}

/// A tab is told by all of its parts, and so are groups, layouts and views.
pub proof fn layouts_are_told_by_their_parts(
    a: TabItem,
    b: TabItem,
    g: TabGroup,
    l: LayoutNode,
    v: WindowProjectView,
    k: int,
)
    ensures
        item(a) == item(b) <==> a.id == b.id && a.kind == b.kind && a.title@ == b.title@
            && a.session_id == b.session_id,
        group(g).id == g.id,
        group(g).active == g.active_item_id,
        group(g).items.len() == g.items@.len(),
        0 <= k < g.items@.len() ==> group(g).items[k] == item(g.items@[k]),
        l matches LayoutNode::Group { group: x } ==> tree(l) == Tree::Group(group(x)),
        l matches LayoutNode::Split { id, axis, first, second } ==> tree(l) == Tree::Split(
            id,
            axis,
            Box::new(tree(*first)),
            Box::new(tree(*second)),
        ),
        shown(v).project == v.project_id,
        shown(v).layout == tree(v.layout),
        shown(v).active == v.active_group_id,
{
}

/// The groups of a layout are listed from the first part of each split to the second.
pub proof fn groups_are_listed_in_order(g: Group, id: SplitId, axis: SplitAxis, a: Tree, b: Tree)
    ensures
        leaves(Tree::Group(g)) == seq![g],
        leaves(Tree::Split(id, axis, Box::new(a), Box::new(b))) == leaves(a) + leaves(b),
{
}

/// No tab before this one, in this group or an earlier one, is of the session.
pub open spec fn is_first_tab(gs: Seq<Group>, session: SessionId, k: int, j: int) -> bool {
    &&& 0 <= k < gs.len()
    &&& 0 <= j < gs[k].items.len()
    &&& gs[k].items[j].session == Some(session)
    &&& forall|m: int| 0 <= m < j ==> (#[trigger] gs[k].items[m]).session != Some(session)
    &&& forall|h: int, m: int|
        0 <= h < k && 0 <= m < gs[h].items.len() ==> (#[trigger] gs[h].items[m]).session != Some(
            session,
        )
}

proof fn tab_of_is_first(v: Seq<Item>, session: SessionId, j: int)
    requires
        0 <= j <= v.len(),
        forall|m: int| 0 <= m < j ==> (#[trigger] v[m]).session != Some(session),
        j < v.len() ==> v[j].session == Some(session),
    ensures
        tab_of(v, session) == (if j < v.len() {
            Some(v[j].id)
        } else {
            None
        }),
    decreases v.len(),
{
    if v.len() > 0 && j > 0 {
        let rest = v.skip(1);
        assert(v[0].session != Some(session));
        assert forall|m: int| 0 <= m < j - 1 implies (#[trigger] rest[m]).session != Some(
            session,
        ) by {
            assert(rest[m] == v[m + 1]);
        }
        tab_of_is_first(rest, session, j - 1);
    }
}

/// A session is found at the first tab that is of it.
pub proof fn a_session_is_found_at_its_first_tab(
    gs: Seq<Group>,
    session: SessionId,
    k: int,
    j: int,
)
    requires
        is_first_tab(gs, session, k, j),
    ensures
        place_of(gs, session) == Some((gs[k].id, gs[k].items[j].id)),
    decreases gs.len(),
{
    if k == 0 {
        tab_of_is_first(gs[0].items, session, j);
    } else {
        let rest = gs.skip(1);
        assert forall|m: int| 0 <= m < gs[0].items.len() implies (#[trigger] gs[0].items[m]).session
            != Some(session) by {}
        tab_of_is_first(gs[0].items, session, gs[0].items.len() as int);
        assert(rest[k - 1] == gs[k]);
        assert forall|h: int, m: int| 0 <= h < k - 1 && 0 <= m < rest[h].items.len() implies (
        #[trigger] rest[h].items[m]).session != Some(session) by {
            assert(rest[h] == gs[h + 1]);
            assert(gs[h + 1].items[m].session != Some(session));
        }
        a_session_is_found_at_its_first_tab(rest, session, k - 1, j);
    }
}

/// A session without a tab is not found.
pub proof fn a_session_without_a_tab_is_not_found(gs: Seq<Group>, session: SessionId)
    requires
        forall|h: int, m: int|
            0 <= h < gs.len() && 0 <= m < gs[h].items.len() ==> (
            #[trigger] gs[h].items[m]).session != Some(session),
    ensures
        place_of(gs, session) is None,
    decreases gs.len(),
{
    if gs.len() > 0 {
        let rest = gs.skip(1);
        tab_of_is_first(gs[0].items, session, gs[0].items.len() as int);
        assert forall|h: int, m: int| 0 <= h < rest.len() && 0 <= m < rest[h].items.len() implies (
        #[trigger] rest[h].items[m]).session != Some(session) by {
            assert(rest[h] == gs[h + 1]);
            assert(gs[h + 1].items[m].session != Some(session));
        }
        a_session_without_a_tab_is_not_found(rest, session);
    }
}

/// Two layouts split the window in the same way, into the same groups.
pub open spec fn same_shape(t: Tree, u: Tree) -> bool
    decreases t,
{
    match (t, u) {
        (Tree::Group(g), Tree::Group(h)) => g.id == h.id,
        (Tree::Split(i, x, a, b), Tree::Split(j, y, c, d)) => i == j && x == y && same_shape(*a, *c)
            && same_shape(*b, *d),
        _ => false,
    }
}

proof fn a_layout_has_its_own_shape(t: Tree)
    ensures
        same_shape(t, t),
    decreases t,
{
    if let Tree::Split(_, _, a, b) = t {
        a_layout_has_its_own_shape(*a);
        a_layout_has_its_own_shape(*b);
    }
}

/// A new title reaches every tab of the session, and changes nothing else.
pub proof fn a_title_reaches_every_tab_of_its_session(
    t: Tree,
    session: SessionId,
    title: Seq<char>,
    k: int,
    j: int,
)
    ensures
        same_shape(t, retitled(t, session, title)),
        leaves(retitled(t, session, title)).len() == leaves(t).len(),
        0 <= k < leaves(t).len() ==> ({
            let old_group = leaves(t)[k];
            let new_group = leaves(retitled(t, session, title))[k];
            &&& new_group.id == old_group.id
            &&& new_group.active == old_group.active
            &&& new_group.items.len() == old_group.items.len()
            &&& 0 <= j < old_group.items.len() ==> ({
                let before = old_group.items[j];
                let after = new_group.items[j];
                &&& after.id == before.id
                &&& after.kind == before.kind
                &&& after.session == before.session
                &&& before.session == Some(session) ==> after.title == title
                &&& before.session != Some(session) ==> after.title == before.title
            })
        }),
    decreases t,
{
    if let Tree::Split(_, _, a, b) = t {
        a_title_reaches_every_tab_of_its_session(*a, session, title, k, j);
        a_title_reaches_every_tab_of_its_session(
            *b,
            session,
            title,
            k - leaves(*a).len(),
            j,
        );
    }
}

/// The first of the groups with this id.
pub open spec fn is_first_group(gs: Seq<Group>, id: GroupId, k: int) -> bool {
    &&& 0 <= k < gs.len()
    &&& gs[k].id == id
    &&& forall|j: int| 0 <= j < k ==> (#[trigger] gs[j]).id != id
}

proof fn a_group_is_a_leaf(t: Tree, id: GroupId)
    ensures
        has_group(t, id) <==> exists|k: int|
            0 <= k < leaves(t).len() && (#[trigger] leaves(t)[k]).id == id,
    decreases t,
{
    match t {
        Tree::Group(g) => {
            assert(leaves(t)[0] == g);
        },
        Tree::Split(_, _, a, b) => {
            a_group_is_a_leaf(*a, id);
            a_group_is_a_leaf(*b, id);
            let la = leaves(*a);
            let lb = leaves(*b);
            if has_group(*a, id) {
                let k = choose|k: int| 0 <= k < la.len() && (#[trigger] la[k]).id == id;
                assert(leaves(t)[k] == la[k]);
            }
            if has_group(*b, id) {
                let k = choose|k: int| 0 <= k < lb.len() && (#[trigger] lb[k]).id == id;
                assert(leaves(t)[k + la.len()] == lb[k]);
            }
            if exists|k: int| 0 <= k < leaves(t).len() && (#[trigger] leaves(t)[k]).id == id {
                let k = choose|k: int|
                    0 <= k < leaves(t).len() && (#[trigger] leaves(t)[k]).id == id;
                if k < la.len() {
                    assert(la[k].id == id);
                } else {
                    assert(lb[k - la.len()].id == id);
                }
            }
        },
    }
}

/// A layout has a group exactly where it is among the groups that it lists.
pub proof fn a_group_is_there_where_it_is_listed(t: Tree, id: GroupId)
    ensures
        has_group(t, id) <==> exists|k: int|
            0 <= k < leaves(t).len() && (#[trigger] leaves(t)[k]).id == id,
{
    a_group_is_a_leaf(t, id);
}

/// A tab that is shown is the active one of the first group with the id; nothing else changes.
pub proof fn showing_a_tab_changes_one_group(t: Tree, id: GroupId, tab: ItemId, k: int)
    requires
        is_first_group(leaves(t), id, k),
    ensures
        same_shape(t, with_active(t, id, tab)),
        leaves(with_active(t, id, tab)) == leaves(t).update(
            k,
            Group { id, items: leaves(t)[k].items, active: Some(tab) },
        ),
    decreases t,
{
    match t {
        Tree::Group(g) => {},
        Tree::Split(_, _, a, b) => {
            let la = leaves(*a);
            let lb = leaves(*b);
            let whole = leaves(t);
            a_group_is_a_leaf(*a, id);
            a_layout_has_its_own_shape(*a);
            a_layout_has_its_own_shape(*b);
            if k < la.len() {
                assert(la[k].id == id);
                assert forall|j: int| 0 <= j < k implies (#[trigger] la[j]).id != id by {
                    assert(whole[j] == la[j]);
                }
                showing_a_tab_changes_one_group(*a, id, tab, k);
            } else {
                assert forall|j: int| 0 <= j < la.len() implies (#[trigger] la[j]).id != id by {
                    assert(whole[j] == la[j]);
                }
                assert forall|j: int| 0 <= j < k - la.len() implies (#[trigger] lb[j]).id != id by {
                    assert(whole[j + la.len()] == lb[j]);
                }
                assert(lb[k - la.len()] == whole[k]);
                showing_a_tab_changes_one_group(*b, id, tab, k - la.len());
            }
        },
    }
}

/// A new tab comes last in the first group with the id and is shown there; nothing else changes.
pub proof fn a_new_tab_comes_last_in_its_group(t: Tree, id: GroupId, new: Item, k: int)
    requires
        is_first_group(leaves(t), id, k),
    ensures
        same_shape(t, with_item(t, id, new)),
        tab_count(with_item(t, id, new)) == tab_count(t) + 1,
        leaves(with_item(t, id, new)) == leaves(t).update(
            k,
            Group { id, items: leaves(t)[k].items.push(new), active: Some(new.id) },
        ),
    decreases t,
{
    match t {
        Tree::Group(g) => {},
        Tree::Split(_, _, a, b) => {
            let la = leaves(*a);
            let lb = leaves(*b);
            let whole = leaves(t);
            a_group_is_a_leaf(*a, id);
            a_layout_has_its_own_shape(*a);
            a_layout_has_its_own_shape(*b);
            if k < la.len() {
                assert(la[k].id == id);
                assert forall|j: int| 0 <= j < k implies (#[trigger] la[j]).id != id by {
                    assert(whole[j] == la[j]);
                }
                a_new_tab_comes_last_in_its_group(*a, id, new, k);
            } else {
                assert forall|j: int| 0 <= j < la.len() implies (#[trigger] la[j]).id != id by {
                    assert(whole[j] == la[j]);
                }
                assert forall|j: int| 0 <= j < k - la.len() implies (#[trigger] lb[j]).id != id by {
                    assert(whole[j + la.len()] == lb[j]);
                }
                assert(lb[k - la.len()] == whole[k]);
                a_new_tab_comes_last_in_its_group(*b, id, new, k - la.len());
            }
        },
    }
}

/// The tabs of a layout are those of its groups together.
pub proof fn tabs_are_counted_over_all_groups(
    g: Group,
    id: SplitId,
    axis: SplitAxis,
    a: Tree,
    b: Tree,
    t: Tree,
)
    ensures
        tab_count(Tree::Group(g)) == g.items.len(),
        tab_count(Tree::Split(id, axis, Box::new(a), Box::new(b))) == tab_count(a) + tab_count(b),
        tab_count(t) == 0 <==> forall|k: int|
            0 <= k < leaves(t).len() ==> (#[trigger] leaves(t)[k]).items.len() == 0,
{
    no_tabs_in_any_group(t);
}

proof fn no_tabs_in_any_group(t: Tree)
    ensures
        tab_count(t) == 0 <==> forall|k: int|
            0 <= k < leaves(t).len() ==> (#[trigger] leaves(t)[k]).items.len() == 0,
    decreases t,
{
    match t {
        Tree::Group(g) => {
            assert(leaves(t)[0] == g);
        },
        Tree::Split(_, _, a, b) => {
            no_tabs_in_any_group(*a);
            no_tabs_in_any_group(*b);
            let la = leaves(*a);
            let lb = leaves(*b);
            if forall|k: int|
                0 <= k < leaves(t).len() ==> (#[trigger] leaves(t)[k]).items.len() == 0 {
                assert forall|k: int| 0 <= k < la.len() implies (#[trigger] la[k]).items.len()
                    == 0 by {
                    assert(leaves(t)[k] == la[k]);
                }
                assert forall|k: int| 0 <= k < lb.len() implies (#[trigger] lb[k]).items.len()
                    == 0 by {
                    assert(leaves(t)[k + la.len()] == lb[k]);
                }
            }
        },
    }
}

/// The group at the top left is the first that is listed.
pub proof fn the_first_group_is_at_the_top_left(t: Tree)
    ensures
        leaves(t).len() > 0,
        top_left(t) == leaves(t)[0].id,
    decreases t,
{
    if let Tree::Split(_, _, a, b) = t {
        the_first_group_is_at_the_top_left(*a);
        the_first_group_is_at_the_top_left(*b);
    }
}

/// The group at the top right is in the second part where the parts stand side by side, and in the first
/// where they stand one above the other.
pub proof fn the_top_right_is_to_the_right_and_above(g: Group, id: SplitId, a: Tree, b: Tree)
    ensures
        top_right(Tree::Group(g)) == g.id,
        top_right(Tree::Split(id, SplitAxis::Horizontal, Box::new(a), Box::new(b))) == top_right(b),
        top_right(Tree::Split(id, SplitAxis::Vertical, Box::new(a), Box::new(b))) == top_right(a),
{
}

proof fn the_sessions_of_items(v: Seq<Item>, s: SessionId)
    ensures
        sessions_of_items(v).contains(s) <==> exists|j: int|
            0 <= j < v.len() && (#[trigger] v[j]).session == Some(s),
    decreases v.len(),
{
    if v.len() > 0 {
        let head = v.drop_last();
        the_sessions_of_items(head, s);
        let rest = sessions_of_items(head);
        let all = sessions_of_items(v);
        if rest.contains(s) {
            let k = rest.index_of(s);
            assert(all[k] == s);
            let j = choose|j: int| 0 <= j < head.len() && (#[trigger] head[j]).session == Some(s);
            assert(v[j].session == Some(s));
        }
        if v.last().session == Some(s) {
            assert(v[v.len() - 1].session == Some(s));
            assert(all[rest.len() as int] == s);
        }
        if all.contains(s) {
            let k = all.index_of(s);
            if k < rest.len() {
                assert(rest[k] == s);
            } else {
                assert(v[v.len() - 1].session == Some(s));
            }
        }
        if exists|j: int| 0 <= j < v.len() && (#[trigger] v[j]).session == Some(s) {
            let j = choose|j: int| 0 <= j < v.len() && (#[trigger] v[j]).session == Some(s);
            if j < head.len() {
                assert(head[j].session == Some(s));
            }
        }
    }
}

/// The sessions of a layout are exactly those that one of its tabs is of.
pub proof fn every_session_of_a_tab_is_listed(t: Tree, s: SessionId)
    ensures
        sessions_in(t).contains(s) <==> exists|k: int, j: int|
            0 <= k < leaves(t).len() && 0 <= j < leaves(t)[k].items.len() && (
            #[trigger] leaves(t)[k].items[j]).session == Some(s),
    decreases t,
{
    match t {
        Tree::Group(g) => {
            the_sessions_of_items(g.items, s);
            assert(leaves(t)[0] == g);
            if sessions_in(t).contains(s) {
                let j = choose|j: int|
                    0 <= j < g.items.len() && (#[trigger] g.items[j]).session == Some(s);
                assert(leaves(t)[0].items[j].session == Some(s));
            }
        },
        Tree::Split(_, _, a, b) => {
            every_session_of_a_tab_is_listed(*a, s);
            every_session_of_a_tab_is_listed(*b, s);
            let la = leaves(*a);
            let lb = leaves(*b);
            let sa = sessions_in(*a);
            let sb = sessions_in(*b);
            let all = sessions_in(t);
            if sa.contains(s) {
                assert(all[sa.index_of(s)] == s);
                let (k, j) = choose|k: int, j: int|
                    0 <= k < la.len() && 0 <= j < la[k].items.len() && (
                    #[trigger] la[k].items[j]).session == Some(s);
                assert(leaves(t)[k].items[j].session == Some(s));
            }
            if sb.contains(s) {
                assert(all[sa.len() + sb.index_of(s)] == s);
                let (k, j) = choose|k: int, j: int|
                    0 <= k < lb.len() && 0 <= j < lb[k].items.len() && (
                    #[trigger] lb[k].items[j]).session == Some(s);
                assert(leaves(t)[k + la.len()].items[j].session == Some(s));
            }
            if all.contains(s) {
                let q = all.index_of(s);
                if q < sa.len() {
                    assert(sa[q] == s);
                } else {
                    assert(sb[q - sa.len()] == s);
                }
            }
            if exists|k: int, j: int|
                0 <= k < leaves(t).len() && 0 <= j < leaves(t)[k].items.len() && (
                #[trigger] leaves(t)[k].items[j]).session == Some(s) {
                let (k, j) = choose|k: int, j: int|
                    0 <= k < leaves(t).len() && 0 <= j < leaves(t)[k].items.len() && (
                    #[trigger] leaves(t)[k].items[j]).session == Some(s);
                if k < la.len() {
                    assert(la[k].items[j].session == Some(s));
                } else {
                    assert(lb[k - la.len()].items[j].session == Some(s));
                }
            }
        },
    }
}

/// Sessions are listed in the order of their tabs.
pub proof fn sessions_are_listed_in_the_order_of_their_tabs(
    id: SplitId,
    axis: SplitAxis,
    a: Tree,
    b: Tree,
    g: Group,
    new: Item,
)
    ensures
        sessions_in(Tree::Split(id, axis, Box::new(a), Box::new(b))) == sessions_in(a)
            + sessions_in(b),
        new.session matches Some(s) ==> sessions_in(
            Tree::Group(Group { items: g.items.push(new), ..g }),
        ) == sessions_in(Tree::Group(g)).push(s),
        new.session is None ==> sessions_in(Tree::Group(Group { items: g.items.push(new), ..g }))
            == sessions_in(Tree::Group(g)),
        g.items.len() == 0 ==> sessions_in(Tree::Group(g)).len() == 0,
{
    assert(g.items.push(new).drop_last() =~= g.items);
}

/// The first of the views of the project.
pub open spec fn is_first_view(v: Seq<Shown>, project: ProjectId, i: int) -> bool {
    &&& 0 <= i < v.len()
    &&& v[i].project == project
    &&& forall|j: int| 0 <= j < i ==> (#[trigger] v[j]).project != project
}

/// A project is shown by the first view of it.
pub proof fn a_project_is_shown_by_its_first_view(v: Seq<Shown>, project: ProjectId, i: int)
    requires
        is_first_view(v, project, i),
    ensures
        view_index(v, project) == i,
        has_view(v, project),
    decreases v.len(),
{
    if i > 0 {
        let rest = v.skip(1);
        assert(v[0].project != project);
        assert forall|j: int| 0 <= j < i - 1 implies (#[trigger] rest[j]).project != project by {
            assert(rest[j] == v[j + 1]);
        }
        a_project_is_shown_by_its_first_view(rest, project, i - 1);
    }
}

/// A project without a view has none.
pub proof fn a_project_without_a_view_has_no_place(v: Seq<Shown>, project: ProjectId)
    requires
        forall|j: int| 0 <= j < v.len() ==> (#[trigger] v[j]).project != project,
    ensures
        view_index(v, project) == v.len(),
        !has_view(v, project),
    decreases v.len(),
{
    if v.len() > 0 {
        let rest = v.skip(1);
        assert(v[0].project != project);
        assert forall|j: int| 0 <= j < rest.len() implies (#[trigger] rest[j]).project
            != project by {
            assert(rest[j] == v[j + 1]);
        }
        a_project_without_a_view_has_no_place(rest, project);
    }
}

/// A view stays exactly where its project is still listed.
pub proof fn views_of_listed_projects_stay(v: Seq<Shown>, live: Seq<ProjectId>, s: Shown)
    ensures
        kept_views(v, live).contains(s) <==> v.contains(s) && live.contains(s.project),
{
    filter_keeps(v, |x: Shown| live.contains(x.project), s);
}

proof fn filter_keeps<A>(v: Seq<A>, keep: spec_fn(A) -> bool, x: A)
    ensures
        v.filter(keep).contains(x) <==> v.contains(x) && keep(x),
    decreases v.len(),
{
    if v.len() > 0 {
        let head = v.drop_last();
        let h = head.filter(keep);
        let f = v.filter(keep);
        assert(head.push(v.last()) =~= v);
        filter_step(head, v.last(), keep);
        filter_keeps(head, keep, x);
        if h.contains(x) {
            assert(f[h.index_of(x)] == x);
            assert(v[head.index_of(x)] == x);
        }
        if f.contains(x) {
            let k = f.index_of(x);
            if k < h.len() {
                assert(h[k] == x);
            } else {
                assert(v[v.len() - 1] == x);
            }
        }
        if v.contains(x) && keep(x) {
            let j = v.index_of(x);
            if j < head.len() {
                assert(head[j] == x);
            } else {
                assert(f[h.len() as int] == x);
            }
        }
    }
}

/// The views that stay come first, as they were; a new project gets one empty group, which is active.
pub proof fn new_projects_start_empty(
    have: Seq<Shown>,
    live: Seq<ProjectId>,
    groups: Seq<GroupId>,
    k: int,
)
    ensures
        added_views(have, live, groups).len() >= have.len(),
        0 <= k < have.len() ==> added_views(have, live, groups)[k] == have[k],
        have.len() <= k < added_views(have, live, groups).len() ==> exists|i: int|
            0 <= i < live.len() && added_views(have, live, groups)[k].project == #[trigger] live[i]
                && added_views(have, live, groups)[k].active == groups[i] && added_views(
                have,
                live,
                groups,
            )[k].layout == Tree::Group(Group { id: groups[i], items: seq![], active: None }),
    decreases live.len(),
{
    if live.len() > 0 {
        let head = live.drop_last();
        new_projects_start_empty(have, head, groups, k);
        let before = added_views(have, head, groups);
        let after = added_views(have, live, groups);
        if have.len() <= k < after.len() {
            if k < before.len() {
                let i = choose|i: int|
                    0 <= i < head.len() && before[k].project == #[trigger] head[i]
                        && before[k].active == groups[i] && before[k].layout == Tree::Group(
                        Group { id: groups[i], items: seq![], active: None },
                    );
                assert(after[k].project == live[i]);
            } else {
                assert(after[k].project == live[live.len() - 1]);
            }
        }
    }
}

/// The first tab of a session is looked for view by view.
pub proof fn the_first_tab_is_in_the_first_view_with_one(v: Seq<Shown>, session: SessionId, i: int)
    requires
        0 <= i <= v.len(),
        forall|j: int|
            0 <= j < i ==> place_of(leaves((#[trigger] v[j]).layout), session) is None,
        i < v.len() ==> place_of(leaves(v[i].layout), session) is Some,
    ensures
        first_tab(v, session) == (if i < v.len() {
            Some(
                (
                    v[i].project,
                    (place_of(leaves(v[i].layout), session)->0).0,
                    (place_of(leaves(v[i].layout), session)->0).1,
                ),
            )
        } else {
            None
        }),
    decreases v.len(),
{
    if v.len() > 0 && i > 0 {
        let rest = v.skip(1);
        assert(place_of(leaves(v[0].layout), session) is None);
        assert forall|j: int| 0 <= j < i - 1 implies place_of(
            leaves((#[trigger] rest[j]).layout),
            session,
        ) is None by {
            assert(rest[j] == v[j + 1]);
        }
        the_first_tab_is_in_the_first_view_with_one(rest, session, i - 1);
    }
}

/// A project that was folded is unfolded, and the other way round; no other project changes.
pub proof fn folding_changes_one_project(v: Set<ProjectId>, p: ProjectId, q: ProjectId)
    ensures
        toggled(v, p).contains(p) <==> !v.contains(p),
        q != p ==> (toggled(v, p).contains(q) <==> v.contains(q)),
{
}

/// What a new window does first: one for a directory takes over what belongs there, one for a project
/// opens a terminal in it, and an empty one shows the first project, or makes one where there is none.
pub proof fn a_new_window_starts_as_asked(init: NewWindowInit, all: Seq<Project>, step: SeedStep)
    requires
        seeds(init, all, step),
    ensures
        init matches NewWindowInit::ColdStart { project_root } ==> step is Adopt
            && step->project_root@ == project_root@,
        init matches NewWindowInit::OpenDir { project_id } ==> step == (SeedStep::OpenTerminal {
            project_id,
        }),
        init is Empty && all.len() > 0 ==> step == (SeedStep::Show { project_id: all[0].id }),
        init is Empty && all.len() == 0 ==> step is CreateProject && step->name@ == seq![
            'H',
            'o',
            'm',
            'e',
        ],
{
    reveal_strlit("Home");
    assert("Home"@ =~= seq!['H', 'o', 'm', 'e']);
}

/// A terminal starts in the directory of its project: the first of the listed projects with the id. Where
/// that has none, or none has the id, it starts in the other directory. The name is found in the same
/// way.
pub proof fn a_terminal_starts_in_its_project(
    v: Seq<Project>,
    project: ProjectId,
    fallback: Seq<char>,
    i: int,
)
    requires
        0 <= i <= v.len(),
        forall|j: int| 0 <= j < i ==> (#[trigger] v[j]).id != project,
        i < v.len() ==> v[i].id == project,
    ensures
        i == v.len() ==> start_directory(v, project, fallback) == fallback,
        i < v.len() && v[i].root is None ==> start_directory(v, project, fallback) == fallback,
        i < v.len() && v[i].root is Some ==> start_directory(v, project, fallback)
            == v[i].root->0@,
        i < v.len() ==> name_of(v, project) == Some(v[i].name@),
        i == v.len() ==> name_of(v, project) is None,
    decreases v.len(),
{
    if v.len() > 0 && i > 0 {
        let rest = v.skip(1);
        assert(v[0].id != project);
        assert forall|j: int| 0 <= j < i - 1 implies (#[trigger] rest[j]).id != project by {
            assert(rest[j] == v[j + 1]);
        }
        a_terminal_starts_in_its_project(rest, project, fallback, i - 1);
    }
}

/// A tab that is placed comes last in the group at the top left of its project, which becomes the active
/// group. No other project changes.
pub proof fn a_placed_tab_is_at_the_top_left(
    v: Seq<Shown>,
    project: ProjectId,
    tab: Item,
    i: int,
    j: int,
)
    requires
        is_first_view(v, project, i),
    ensures
        placed(v, project, tab).len() == v.len(),
        0 <= j < v.len() && j != i ==> placed(v, project, tab)[j] == v[j],
        placed(v, project, tab)[i].project == project,
        placed(v, project, tab)[i].active == leaves(v[i].layout)[0].id,
        same_shape(v[i].layout, placed(v, project, tab)[i].layout),
        leaves(placed(v, project, tab)[i].layout) == leaves(v[i].layout).update(
            0,
            Group {
                id: leaves(v[i].layout)[0].id,
                items: leaves(v[i].layout)[0].items.push(tab),
                active: Some(tab.id),
            },
        ),
{
    a_project_is_shown_by_its_first_view(v, project, i);
    the_first_group_is_at_the_top_left(v[i].layout);
    a_new_tab_comes_last_in_its_group(v[i].layout, top_left(v[i].layout), tab, 0);
}

/// A tab that joins comes last in the active group of its project, which stays active. No other project
/// changes.
pub proof fn a_joining_tab_is_in_the_active_group(
    v: Seq<Shown>,
    project: ProjectId,
    tab: Item,
    i: int,
    j: int,
    k: int,
)
    requires
        is_first_view(v, project, i),
        is_first_group(leaves(v[i].layout), v[i].active, k),
    ensures
        joined(v, project, tab).len() == v.len(),
        0 <= j < v.len() && j != i ==> joined(v, project, tab)[j] == v[j],
        joined(v, project, tab)[i].project == project,
        joined(v, project, tab)[i].active == v[i].active,
        same_shape(v[i].layout, joined(v, project, tab)[i].layout),
        leaves(joined(v, project, tab)[i].layout) == leaves(v[i].layout).update(
            k,
            Group {
                id: v[i].active,
                items: leaves(v[i].layout)[k].items.push(tab),
                active: Some(tab.id),
            },
        ),
{
    a_project_is_shown_by_its_first_view(v, project, i);
    a_new_tab_comes_last_in_its_group(v[i].layout, v[i].active, tab, k);
}

/// A tab that is opened comes last in the group that was asked for, which becomes the active one, and
/// nothing happens where the project has no such group. No other project changes.
pub proof fn a_tab_is_opened_where_it_was_asked_for(
    v: Seq<Shown>,
    project: ProjectId,
    group: GroupId,
    tab: Item,
    i: int,
    j: int,
    k: int,
)
    requires
        is_first_view(v, project, i),
    ensures
        opened(v, project, group, tab).len() == v.len(),
        0 <= j < v.len() && j != i ==> opened(v, project, group, tab)[j] == v[j],
        is_first_group(leaves(v[i].layout), group, k) ==> ({
            let after = opened(v, project, group, tab)[i];
            &&& after.project == project
            &&& after.active == group
            &&& same_shape(v[i].layout, after.layout)
            &&& leaves(after.layout) == leaves(v[i].layout).update(
                k,
                Group {
                    id: group,
                    items: leaves(v[i].layout)[k].items.push(tab),
                    active: Some(tab.id),
                },
            )
        }),
        (forall|m: int|
            0 <= m < leaves(v[i].layout).len() ==> (#[trigger] leaves(v[i].layout)[m]).id != group)
            ==> opened(v, project, group, tab) == v,
{
    a_project_is_shown_by_its_first_view(v, project, i);
    a_group_is_a_leaf(v[i].layout, group);
    if is_first_group(leaves(v[i].layout), group, k) {
        assert(leaves(v[i].layout)[k].id == group);
        a_new_tab_comes_last_in_its_group(v[i].layout, group, tab, k);
    }
}

/// A session that is activated is shown at its first tab: that tab becomes the active one of its group,
/// and that group the active one of the project. No other project changes.
pub proof fn an_activated_session_is_shown(
    v: Seq<Shown>,
    project: ProjectId,
    session: SessionId,
    i: int,
    j: int,
    k: int,
    m: int,
)
    requires
        is_first_view(v, project, i),
        is_first_tab(leaves(v[i].layout), session, k, m),
        is_first_group(leaves(v[i].layout), leaves(v[i].layout)[k].id, k),
    ensures
        activated(v, project, session).len() == v.len(),
        0 <= j < v.len() && j != i ==> activated(v, project, session)[j] == v[j],
        ({
            let after = activated(v, project, session)[i];
            let g = leaves(v[i].layout)[k];
            &&& after.project == project
            &&& after.active == g.id
            &&& same_shape(v[i].layout, after.layout)
            &&& leaves(after.layout) == leaves(v[i].layout).update(
                k,
                Group { id: g.id, items: g.items, active: Some(g.items[m].id) },
            )
        }),
        is_tabbed(v, project, session),
{
    a_project_is_shown_by_its_first_view(v, project, i);
    a_session_is_found_at_its_first_tab(leaves(v[i].layout), session, k, m);
    showing_a_tab_changes_one_group(
        v[i].layout,
        leaves(v[i].layout)[k].id,
        leaves(v[i].layout)[k].items[m].id,
        k,
    );
}

/// A session without a tab in the project is not shown there, and nothing changes.
pub proof fn a_session_without_a_tab_is_not_activated(
    v: Seq<Shown>,
    project: ProjectId,
    session: SessionId,
    i: int,
)
    requires
        is_first_view(v, project, i),
        forall|h: int, m: int|
            0 <= h < leaves(v[i].layout).len() && 0 <= m < leaves(v[i].layout)[h].items.len() ==> (
            #[trigger] leaves(v[i].layout)[h].items[m]).session != Some(session),
    ensures
        activated(v, project, session) == v,
        !is_tabbed(v, project, session),
{
    a_project_is_shown_by_its_first_view(v, project, i);
    a_session_without_a_tab_is_not_found(leaves(v[i].layout), session);
}

/// A project that the window does not show stays out of it.
pub proof fn a_project_that_is_not_shown_gets_no_tab(
    v: Seq<Shown>,
    project: ProjectId,
    group: GroupId,
    tab: Item,
    session: SessionId,
)
    requires
        forall|j: int| 0 <= j < v.len() ==> (#[trigger] v[j]).project != project,
    ensures
        placed(v, project, tab) == v,
        joined(v, project, tab) == v,
        opened(v, project, group, tab) == v,
        activated(v, project, session) == v,
        !is_tabbed(v, project, session),
{
    a_project_without_a_view_has_no_place(v, project);
}

/// A tab is one of the session that is asked for, or of any where none is.
pub proof fn tabs_of_no_session_in_particular_are_those_of_any(i: Item, s: SessionId)
    ensures
        is_tab_of(i, Some(s)) <==> i.session == Some(s),
        is_tab_of(i, None) <==> i.session is Some,
{
}

} // verus!
