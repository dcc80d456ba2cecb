//! The two sidebars: on the left the projects with their sessions, on the right what is known of
//! the session in front.

use vstd::prelude::*;

use crate::i18n;
use crate::i18n::Language;
use crate::icons::IconName;
use crate::layout::{ItemKind, LayoutNode, ProjectId, SessionId};
use crate::order;
use crate::order::{stable_number_order, stable_text_order};
use crate::paths;
use crate::paths::path_order_key;
use crate::processes;
use crate::processes::{ports_section, process_section, PortRow, ProcessSection, SessionInspection};
use crate::projects;
use crate::projects::{layout_sessions, Project, WindowProjectView};
use crate::sessions;
use crate::sessions::{find_session, SessionSummary};
use crate::terminals;
use crate::terminals::{IconView, ItemFacts, ItemIcon};
use crate::text;
use std::collections::HashSet;

verus! {

/// Opens a closed sidebar, and closes an open one.
pub fn toggle_sidebar(collapsed: &mut bool, resizing: &mut Option<SidebarEdge>)
    ensures
        *final(collapsed) == !*old(collapsed),
        *final(resizing) is None,
{
    *collapsed = !*collapsed;
    *resizing = None;
}

/// An edge of a sidebar that is being dragged.
#[derive(Clone, Copy, Debug, PartialEq, Eq, Structural)]
pub enum SidebarEdge {
    /// Of the left sidebar.
    Left,
    /// Of the right sidebar.
    Right,
}

/// The icon of a kind of tab.
pub open spec fn kind_icon(kind: ItemKind) -> IconName {
    match kind {
        ItemKind::Terminal => IconName::Terminal,
        ItemKind::File => IconName::File,
        ItemKind::Browser => IconName::Browser,
        ItemKind::Settings => IconName::Settings,
    }
}

/// The icon of a kind of tab.
pub fn item_kind_icon(kind: ItemKind) -> (r: IconName)
    ensures
        r == kind_icon(kind),
{
    match kind {
        ItemKind::Terminal => IconName::Terminal,
        ItemKind::File => IconName::File,
        ItemKind::Browser => IconName::Browser,
        ItemKind::Settings => IconName::Settings,
    }
}

// ---------------------------------------------------------------------------
// The sessions of a project
// ---------------------------------------------------------------------------

/// The position of the first `id` in `s`, or the length of `s`.
pub open spec fn first_place(s: Seq<SessionId>, id: SessionId) -> int
    decreases s.len(),
{
    if s.len() == 0 || s[0] == id {
        0
    } else {
        1 + first_place(s.skip(1), id)
    }
}

proof fn first_place_in_range(s: Seq<SessionId>, id: SessionId)
    ensures
        0 <= first_place(s, id) <= s.len(),
    decreases s.len(),
{
    if s.len() > 0 && s[0] != id {
        first_place_in_range(s.skip(1), id);
    }
}

fn place_in(s: &Vec<SessionId>, id: SessionId) -> (r: usize)
    ensures
        r == first_place(s@, id),
        r <= s@.len(),
{
    let mut i: usize = 0;
    assert(s@.skip(0) =~= s@);
    while i < s.len() && s[i] != id
        invariant
            i <= s@.len(),
            i + first_place(s@.skip(i as int), id) == first_place(s@, id),
        decreases s@.len() - i,
    {
        assert(s@.skip(i as int).skip(1) =~= s@.skip(i + 1));
        i = i + 1;
    }
    i
}

/// The sessions among the first `n` that belong to a project, in order.
pub open spec fn members(
    all: Seq<SessionSummary>,
    project: ProjectId,
    n: int,
) -> Seq<SessionSummary>
    decreases n,
{
    if n <= 0 {
        seq![]
    } else if all[n - 1].project_id == project {
        members(all, project, n - 1).push(all[n - 1])
    } else {
        members(all, project, n - 1)
    }
}

/// Where each session first stands in the layout; those that do not come last.
pub open spec fn layout_keys(some: Seq<SessionSummary>, l: LayoutNode) -> Seq<u64> {
    some.map_values(
        |s: SessionSummary| first_place(projects::sessions_in(projects::tree(l)), s.id) as u64,
    )
}

/// The sessions of a project in the order of its layout, group by group and tab by tab. Sessions
/// that the layout does not hold follow in the order in which they stand.
pub open spec fn in_layout_order(
    all: Seq<SessionSummary>,
    project: ProjectId,
    l: LayoutNode,
) -> Seq<SessionSummary> {
    let some = members(all, project, all.len() as int);
    order::stable_order(layout_keys(some, l), order::by_number(), some.len() as int).map_values(
        |i: int| some[i],
    )
}

/// What references stand for.
pub open spec fn referred(s: Seq<&SessionSummary>) -> Seq<SessionSummary> {
    s.map_values(|r: &SessionSummary| *r)
}

fn project_members<'a>(all: &'a Vec<SessionSummary>, project: ProjectId) -> (r: Vec<
    &'a SessionSummary,
>)
    ensures
        referred(r@) == members(all@, project, all@.len() as int),
{
    let mut r: Vec<&SessionSummary> = Vec::new();
    let mut i: usize = 0;
    assert(referred(r@) =~= members(all@, project, 0));
    while i < all.len()
        invariant
            i <= all@.len(),
            referred(r@) == members(all@, project, i as int),
        decreases all@.len() - i,
    {
        let ghost had = r@;
        if all[i].project_id == project {
            r.push(&all[i]);
            assert(referred(r@) =~= referred(had).push(all@[i as int]));
        }
        i = i + 1;
    }
    r
}

/// The sessions of a project in the order of its layout.
pub fn sidebar_sessions_in_layout_order<'a>(
    all: &'a Vec<SessionSummary>,
    project: ProjectId,
    l: &LayoutNode,
) -> (r: Vec<&'a SessionSummary>)
    ensures
        referred(r@) == in_layout_order(all@, project, *l),
{
    let places: Vec<SessionId> = layout_sessions(l);
    let some: Vec<&SessionSummary> = project_members(all, project);
    let ghost ms = referred(some@);
    let mut keys: Vec<u64> = Vec::new();
    let mut i: usize = 0;
    while i < some.len()
        invariant
            i <= some@.len(),
            ms == referred(some@),
            places@ == projects::sessions_in(projects::tree(*l)),
            keys@ == layout_keys(ms, *l).take(i as int),
        decreases some@.len() - i,
    {
        let place: usize = place_in(&places, some[i].id);
        keys.push(place as u64);
        assert(keys@ =~= layout_keys(ms, *l).take(i + 1));
        i = i + 1;
    }
    assert(keys@ =~= layout_keys(ms, *l));
    let order: Vec<usize> = stable_number_order(&keys);
    let ghost sorted = order::positions(order@);
    let mut r: Vec<&SessionSummary> = Vec::new();
    let mut p: usize = 0;
    while p < order.len()
        invariant
            p <= order@.len(),
            order@.len() == some@.len(),
            ms == referred(some@),
            ms == members(all@, project, all@.len() as int),
            sorted == order::positions(order@),
            order::is_permutation(sorted, some@.len() as int),
            sorted == order::stable_order(
                layout_keys(ms, *l),
                order::by_number(),
                ms.len() as int,
            ),
            referred(r@) == in_layout_order(all@, project, *l).take(p as int),
        decreases order@.len() - p,
    {
        let ghost had = r@;
        assert(sorted[p as int] == order@[p as int]);
        r.push(some[order[p]]);
        assert(referred(r@) =~= referred(had).push(ms[sorted[p as int]]));
        assert(in_layout_order(all@, project, *l).take(p + 1) =~= in_layout_order(
            all@,
            project,
            *l,
        ).take(p as int).push(ms[sorted[p as int]]));
        p = p + 1;
    }
    assert(referred(r@) =~= in_layout_order(all@, project, *l));
    r
}

/// A session that the layout holds before another comes before it in the list.
pub proof fn the_list_follows_the_layout(
    all: Seq<SessionSummary>,
    project: ProjectId,
    l: LayoutNode,
    p: int,
    q: int,
)
    requires
        0 <= p < q < in_layout_order(all, project, l).len(),
        projects::sessions_in(projects::tree(l)).len() <= u64::MAX,
    ensures
        ({
            let places = projects::sessions_in(projects::tree(l));
            let list = in_layout_order(all, project, l);
            first_place(places, list[p].id) <= first_place(places, list[q].id)
        }),
{
    let some = members(all, project, all.len() as int);
    let keys = layout_keys(some, l);
    let n = some.len() as int;
    let places = projects::sessions_in(projects::tree(l));
    let order = order::stable_order(keys, order::by_number(), n);
    order::numbers_are_ordered();
    order::a_stable_order_is_a_permutation(keys, order::by_number(), n);
    order::a_stable_order_is_sorted(keys, order::by_number(), n, p, q);
    first_place_in_range(places, some[order[p]].id);
    first_place_in_range(places, some[order[q]].id);
}

/// No session of a project is left out of the list, and no other is in it.
pub proof fn every_session_of_the_project_is_listed(
    all: Seq<SessionSummary>,
    project: ProjectId,
    l: LayoutNode,
    i: int,
)
    requires
        0 <= i < all.len(),
        all[i].project_id == project,
    ensures
        in_layout_order(all, project, l).contains(all[i]),
        in_layout_order(all, project, l).len() == members(all, project, all.len() as int).len(),
{
    let n = all.len() as int;
    let some = members(all, project, n);
    member_is_in(all, project, n, i);
    let k = choose|k: int| 0 <= k < some.len() && some[k] == all[i];
    let keys = layout_keys(some, l);
    order::a_stable_order_is_a_permutation(keys, order::by_number(), some.len() as int);
    order::a_permutation_reaches(keys, order::by_number(), some.len() as int, k);
    let order = order::stable_order(keys, order::by_number(), some.len() as int);
    let p = choose|p: int| 0 <= p < some.len() && order[p] == k;
    assert(in_layout_order(all, project, l)[p] == all[i]);
}

proof fn member_is_in(all: Seq<SessionSummary>, project: ProjectId, n: int, i: int)
    requires
        0 <= i < n <= all.len(),
        all[i].project_id == project,
    ensures
        exists|k: int|
            0 <= k < members(all, project, n).len() && members(all, project, n)[k] == all[i],
    decreases n,
{
    let some = members(all, project, n);
    if i == n - 1 {
        assert(some[some.len() - 1] == all[i]);
    } else {
        member_is_in(all, project, n - 1, i);
        let rest = members(all, project, n - 1);
        let k = choose|k: int| 0 <= k < rest.len() && rest[k] == all[i];
        assert(some[k] == all[i]);
    }
}

// ---------------------------------------------------------------------------
// The rows of the left sidebar
// ---------------------------------------------------------------------------

/// A row of the left sidebar.
#[derive(Clone, Debug, PartialEq, Eq)]
pub enum SidebarRow {
    /// A project.
    Project {
        /// Which one.
        project_id: ProjectId,
        /// Its name.
        name: String,
        /// Whether it is in front.
        active: bool,
        /// A folder, open or closed.
        icon: IconName,
        /// An arrow, down or to the right.
        arrow: IconName,
    },
    /// A session of the project above.
    Session {
        /// Its project.
        project_id: ProjectId,
        /// Which one.
        session_id: SessionId,
        /// Its title.
        title: String,
        /// Whether it is in front.
        active: bool,
        /// What stands in front of the title.
        icon: ItemIcon,
        /// For how long it has been flashing after a bell.
        flash: Option<u64>,
    },
}

/// A row, its text as a sequence of characters.
pub enum RowView {
    /// A project.
    Project {
        /// Which one.
        project_id: ProjectId,
        /// Its name.
        name: Seq<char>,
        /// Whether it is in front.
        active: bool,
        /// A folder, open or closed.
        icon: IconName,
        /// An arrow, down or to the right.
        arrow: IconName,
    },
    /// A session of the project above.
    Session {
        /// Its project.
        project_id: ProjectId,
        /// Which one.
        session_id: SessionId,
        /// Its title.
        title: Seq<char>,
        /// Whether it is in front.
        active: bool,
        /// What stands in front of the title.
        icon: IconView,
        /// For how long it has been flashing after a bell.
        flash: Option<u64>,
    },
}

impl SidebarRow {
    /// The text as a sequence of characters.
    pub open spec fn model(&self) -> RowView {
        match *self {
            SidebarRow::Project { project_id, name, active, icon, arrow } => RowView::Project {
                project_id,
                name: name@,
                active,
                icon,
                arrow,
            },
            SidebarRow::Session { project_id, session_id, title, active, icon, flash } => {
                RowView::Session {
                    project_id,
                    session_id,
                    title: title@,
                    active,
                    icon: icon.model(),
                    flash,
                }
            },
        }
    }
}

/// The rows, their texts as sequences of characters.
pub open spec fn row_views(rows: Seq<SidebarRow>) -> Seq<RowView> {
    rows.map_values(|r: SidebarRow| r.model())
}

/// What the left sidebar shows beside the projects and sessions themselves.
pub struct SidebarState {
    /// What the window shows of each project.
    pub views: Vec<WindowProjectView>,
    /// The projects whose sessions are hidden.
    pub collapsed: HashSet<ProjectId>,
    /// The project in front.
    pub active_project: ProjectId,
    /// The session in front.
    pub active_session: Option<SessionId>,
    /// What the marks of the sessions are drawn from.
    pub items: ItemFacts,
}

/// The row of a project.
pub open spec fn project_row(p: Project, s: SidebarState) -> RowView {
    let collapsed = s.collapsed@.contains(p.id);
    RowView::Project {
        project_id: p.id,
        name: p.name@,
        active: p.id == s.active_project,
        icon: if collapsed {
            IconName::Folder
        } else {
            IconName::FolderOpen
        },
        arrow: if collapsed {
            IconName::ArrowRight
        } else {
            IconName::ArrowDown
        },
    }
}

/// The row of a session. It is in front only where its project is.
pub open spec fn session_row(x: SessionSummary, project: ProjectId, s: SidebarState) -> RowView {
    RowView::Session {
        project_id: project,
        session_id: x.id,
        title: x.title@,
        active: project == s.active_project && s.active_session == Some(x.id),
        icon: terminals::icon_of(ItemKind::Terminal, Some(x.id), s.items),
        flash: terminals::flash_age(Some(x.id), s.items),
    }
}

/// The position of a project's view.
pub open spec fn view_place(views: Seq<WindowProjectView>, project: ProjectId) -> int
    decreases views.len(),
{
    if views.len() == 0 || views[0].project_id == project {
        0
    } else {
        1 + view_place(views.skip(1), project)
    }
}

/// The rows of one project: none where the window has no view of it, and only its own where its
/// sessions are hidden.
pub open spec fn rows_of(p: Project, all: Seq<SessionSummary>, s: SidebarState) -> Seq<RowView> {
    let at = view_place(s.views@, p.id);
    if at >= s.views@.len() {
        seq![]
    } else if s.collapsed@.contains(p.id) {
        seq![project_row(p, s)]
    } else {
        seq![project_row(p, s)] + in_layout_order(all, p.id, s.views@[at].layout).map_values(
            |x: SessionSummary| session_row(x, p.id, s),
        )
    }
}

/// The rows of the first `n` projects.
pub open spec fn rows_up_to(
    ps: Seq<Project>,
    all: Seq<SessionSummary>,
    s: SidebarState,
    n: int,
) -> Seq<RowView>
    decreases n,
{
    if n <= 0 {
        seq![]
    } else {
        rows_up_to(ps, all, s, n - 1) + rows_of(ps[n - 1], all, s)
    }
}

fn find_view(views: &Vec<WindowProjectView>, project: ProjectId) -> (r: usize)
    ensures
        r == view_place(views@, project),
        r <= views@.len(),
{
    let mut i: usize = 0;
    assert(views@.skip(0) =~= views@);
    while i < views.len() && views[i].project_id != project
        invariant
            i <= views@.len(),
            i + view_place(views@.skip(i as int), project) == view_place(views@, project),
        decreases views@.len() - i,
    {
        assert(views@.skip(i as int).skip(1) =~= views@.skip(i + 1));
        i = i + 1;
    }
    i
}

fn push_row(rows: &mut Vec<SidebarRow>, row: SidebarRow)
    ensures
        row_views(final(rows)@) == row_views(old(rows)@).push(row.model()),
{
    let ghost k = row.model();
    rows.push(row);
    assert(row_views(rows@) =~= row_views(old(rows)@).push(k));
}

fn push_project_rows(
    rows: &mut Vec<SidebarRow>,
    p: &Project,
    all: &Vec<SessionSummary>,
    s: &SidebarState,
)
    ensures
        row_views(final(rows)@) == row_views(old(rows)@) + rows_of(*p, all@, *s),
{
    let at: usize = find_view(&s.views, p.id);
    if at >= s.views.len() {
        assert(row_views(rows@) =~= row_views(old(rows)@) + rows_of(*p, all@, *s));
        return ;
    }
    let collapsed: bool = s.collapsed.contains(&p.id);
    let active: bool = p.id == s.active_project;
    push_row(
        rows,
        SidebarRow::Project {
            project_id: p.id,
            name: p.name.clone(),
            active,
            icon: if collapsed {
                IconName::Folder
            } else {
                IconName::FolderOpen
            },
            arrow: if collapsed {
                IconName::ArrowRight
            } else {
                IconName::ArrowDown
            },
        },
    );
    let ghost head = row_views(old(rows)@).push(project_row(*p, *s));
    assert(row_views(rows@) == head);
    if collapsed {
        assert(row_views(rows@) =~= row_views(old(rows)@) + rows_of(*p, all@, *s));
        return ;
    }
    let list: Vec<&SessionSummary> = sidebar_sessions_in_layout_order(
        all,
        p.id,
        &s.views[at].layout,
    );
    let ghost xs = referred(list@);
    let ghost session_rows = xs.map_values(|x: SessionSummary| session_row(x, p.id, *s));
    let mut i: usize = 0;
    assert(row_views(rows@) =~= head + session_rows.take(0));
    while i < list.len()
        invariant
            i <= list@.len(),
            xs == referred(list@),
            active == (p.id == s.active_project),
            session_rows == xs.map_values(|x: SessionSummary| session_row(x, p.id, *s)),
            row_views(rows@) == head + session_rows.take(i as int),
        decreases list@.len() - i,
    {
        let x: &SessionSummary = list[i];
        let in_front: bool = active && match s.active_session {
            Some(id) => id == x.id,
            None => false,
        };
        push_row(
            rows,
            SidebarRow::Session {
                project_id: p.id,
                session_id: x.id,
                title: x.title.clone(),
                active: in_front,
                icon: s.items.icon(ItemKind::Terminal, Some(x.id)),
                flash: s.items.flash(Some(x.id)),
            },
        );
        assert(xs[i as int] == *x);
        assert(row_views(rows@) =~= head + session_rows.take(i + 1));
        i = i + 1;
    }
    assert(session_rows.take(i as int) =~= session_rows);
    assert(row_views(rows@) =~= row_views(old(rows)@) + rows_of(*p, all@, *s));
}

/// The rows of the left sidebar: each project that the window shows, and below it its sessions
/// unless they are hidden.
pub fn left_sidebar_rows(ps: &Vec<Project>, all: &Vec<SessionSummary>, s: &SidebarState) -> (r: Vec<
    SidebarRow,
>)
    ensures
        row_views(r@) == rows_up_to(ps@, all@, *s, ps@.len() as int),
{
    let mut rows: Vec<SidebarRow> = Vec::new();
    let mut i: usize = 0;
    assert(row_views(rows@) =~= rows_up_to(ps@, all@, *s, 0));
    while i < ps.len()
        invariant
            i <= ps@.len(),
            row_views(rows@) == rows_up_to(ps@, all@, *s, i as int),
        decreases ps@.len() - i,
    {
        push_project_rows(&mut rows, &ps[i], all, s);
        i = i + 1;
    }
    rows
}

// ---------------------------------------------------------------------------
// The sessions that belong to no window
// ---------------------------------------------------------------------------

/// The sessions without a window that belong together, under a title.
#[derive(Clone, Debug)]
pub struct DetachedGroup {
    /// The name of the project, or what the rest is called.
    pub title: String,
    /// The sessions.
    pub members: Vec<SessionId>,
}

/// The panel that lists the sessions without a window.
#[derive(Clone, Debug)]
pub struct DetachedPanel {
    /// The groups.
    pub groups: Vec<DetachedGroup>,
    /// What the button says that takes a session into the window.
    pub claim_tooltip: &'static str,
    /// What the button says that ends a session.
    pub destroy_tooltip: &'static str,
}

/// A group of sessions, its title as a sequence of characters.
pub struct DetachedView {
    /// The title.
    pub title: Seq<char>,
    /// The sessions.
    pub members: Seq<SessionId>,
}

/// The groups, their titles as sequences of characters.
pub open spec fn detached_views(gs: Seq<DetachedGroup>) -> Seq<DetachedView> {
    gs.map_values(|g: DetachedGroup| DetachedView { title: g.title@, members: g.members@ })
}

/// The groups of the first `n` projects that have such sessions, in the order of the projects.
pub open spec fn project_groups(
    ps: Seq<Project>,
    all: Seq<SessionSummary>,
    n: int,
) -> Seq<DetachedView>
    decreases n,
{
    if n <= 0 {
        seq![]
    } else {
        let own = members(all, ps[n - 1].id, all.len() as int);
        let rest = project_groups(ps, all, n - 1);
        if own.len() > 0 {
            rest.push(DetachedView { title: ps[n - 1].name@, members: sessions::ids(own) })
        } else {
            rest
        }
    }
}

/// Whether a project is one of a list.
pub open spec fn is_listed(ps: Seq<Project>, project: ProjectId) -> bool {
    exists|i: int| 0 <= i < ps.len() && (#[trigger] ps[i]).id == project
}

/// The sessions among the first `n` whose project is gone.
pub open spec fn orphans(
    ps: Seq<Project>,
    all: Seq<SessionSummary>,
    n: int,
) -> Seq<SessionSummary>
    decreases n,
{
    if n <= 0 {
        seq![]
    } else if is_listed(ps, all[n - 1].project_id) {
        orphans(ps, all, n - 1)
    } else {
        orphans(ps, all, n - 1).push(all[n - 1])
    }
}

/// The keys that order sessions by where they began.
pub open spec fn directory_keys(some: Seq<SessionSummary>) -> Seq<Seq<char>> {
    some.map_values(|s: SessionSummary| paths::path_key(s.initial_directory@))
}

/// The sessions by where they began.
pub open spec fn by_directory(some: Seq<SessionSummary>) -> Seq<SessionSummary> {
    order::stable_order(directory_keys(some), order::by_text(), some.len() as int).map_values(
        |i: int| some[i],
    )
}

/// The sessions without a window, by project; those whose project is gone follow under a title of
/// their own, by where they began.
pub open spec fn grouped(
    ps: Seq<Project>,
    all: Seq<SessionSummary>,
    other: Seq<char>,
) -> Seq<DetachedView> {
    let named = project_groups(ps, all, ps.len() as int);
    let rest = orphans(ps, all, all.len() as int);
    if rest.len() > 0 {
        named.push(DetachedView { title: other, members: sessions::ids(by_directory(rest)) })
    } else {
        named
    }
}

fn ids_of(some: &Vec<&SessionSummary>) -> (r: Vec<SessionId>)
    ensures
        r@ == sessions::ids(referred(some@)),
{
    let mut r: Vec<SessionId> = Vec::new();
    let mut i: usize = 0;
    while i < some.len()
        invariant
            i <= some@.len(),
            r@ == sessions::ids(referred(some@)).take(i as int),
        decreases some@.len() - i,
    {
        r.push(some[i].id);
        assert(r@ =~= sessions::ids(referred(some@)).take(i + 1));
        i = i + 1;
    }
    assert(r@ =~= sessions::ids(referred(some@)));
    r
}

fn lists_project(ps: &Vec<Project>, project: ProjectId) -> (r: bool)
    ensures
        r == is_listed(ps@, project),
{
    let mut i: usize = 0;
    while i < ps.len()
        invariant
            i <= ps@.len(),
            forall|j: int| 0 <= j < i ==> (#[trigger] ps@[j]).id != project,
        decreases ps@.len() - i,
    {
        if ps[i].id == project {
            return true;
        }
        i = i + 1;
    }
    false
}

fn sorted_by_directory<'a>(some: &Vec<&'a SessionSummary>) -> (r: Vec<&'a SessionSummary>)
    ensures
        referred(r@) == by_directory(referred(some@)),
{
    let ghost ms = referred(some@);
    let mut keys: Vec<String> = Vec::new();
    let mut i: usize = 0;
    while i < some.len()
        invariant
            i <= some@.len(),
            keys@.len() == i,
            ms == referred(some@),
            order::texts(keys@) == directory_keys(ms).take(i as int),
        decreases some@.len() - i,
    {
        let ghost had = keys@;
        let key: String = path_order_key(some[i].initial_directory.as_str());
        let ghost k = key@;
        keys.push(key);
        assert(order::texts(keys@) =~= order::texts(had).push(k));
        assert(directory_keys(ms).take(i + 1) =~= directory_keys(ms).take(i as int).push(k));
        i = i + 1;
    }
    assert(order::texts(keys@) =~= directory_keys(ms));
    let order: Vec<usize> = stable_text_order(&keys);
    let ghost sorted = order::positions(order@);
    let mut r: Vec<&SessionSummary> = Vec::new();
    let mut p: usize = 0;
    while p < order.len()
        invariant
            p <= order@.len(),
            order@.len() == some@.len(),
            ms == referred(some@),
            sorted == order::positions(order@),
            order::is_permutation(sorted, some@.len() as int),
            sorted == order::stable_order(directory_keys(ms), order::by_text(), ms.len() as int),
            referred(r@) == by_directory(ms).take(p as int),
        decreases order@.len() - p,
    {
        let ghost had = r@;
        assert(sorted[p as int] == order@[p as int]);
        r.push(some[order[p]]);
        assert(referred(r@) =~= referred(had).push(ms[sorted[p as int]]));
        assert(by_directory(ms).take(p + 1) =~= by_directory(ms).take(p as int).push(
            ms[sorted[p as int]],
        ));
        p = p + 1;
    }
    assert(referred(r@) =~= by_directory(ms));
    r
}

fn push_detached(out: &mut Vec<DetachedGroup>, title: &str, members: Vec<SessionId>)
    ensures
        detached_views(final(out)@) == detached_views(old(out)@).push(
            (DetachedView { title: title@, members: members@ }),
        ),
{
    let ghost k = DetachedView { title: title@, members: members@ };
    out.push(DetachedGroup { title: title.to_owned(), members });
    assert(detached_views(out@) =~= detached_views(old(out)@).push(k));
}

/// What the panel of sessions without a window shows; nothing while it is closed or there are none.
pub fn detached_panel(
    open: bool,
    ps: &Vec<Project>,
    all: &Vec<SessionSummary>,
    language: Language,
) -> (r: Option<DetachedPanel>)
    ensures
        r is Some <==> open && all@.len() > 0,
        r matches Some(panel) ==> {
            &&& detached_views(panel.groups@) == grouped(
                ps@,
                all@,
                i18n::pick(language, "Other"@, "其它"@),
            )
            &&& panel.claim_tooltip@ == i18n::pick(
                language,
                "Claim to this window"@,
                "接管到此窗口"@,
            )
            &&& panel.destroy_tooltip@ == i18n::pick(language, "Destroy session"@, "销毁会话"@)
        },
{
    if !open || all.len() == 0 {
        return None;
    }
    let mut out: Vec<DetachedGroup> = Vec::new();
    let mut i: usize = 0;
    assert(detached_views(out@) =~= project_groups(ps@, all@, 0));
    while i < ps.len()
        invariant
            i <= ps@.len(),
            detached_views(out@) == project_groups(ps@, all@, i as int),
        decreases ps@.len() - i,
    {
        let own: Vec<&SessionSummary> = project_members(all, ps[i].id);
        assert(referred(own@).len() == own@.len());
        if own.len() > 0 {
            push_detached(&mut out, ps[i].name.as_str(), ids_of(&own));
        }
        i = i + 1;
    }
    let mut rest: Vec<&SessionSummary> = Vec::new();
    let mut k: usize = 0;
    assert(referred(rest@) =~= orphans(ps@, all@, 0));
    while k < all.len()
        invariant
            k <= all@.len(),
            referred(rest@) == orphans(ps@, all@, k as int),
        decreases all@.len() - k,
    {
        let ghost had = rest@;
        if !lists_project(ps, all[k].project_id) {
            rest.push(&all[k]);
            assert(referred(rest@) =~= referred(had).push(all@[k as int]));
        }
        k = k + 1;
    }
    assert(referred(rest@).len() == rest@.len());
    if rest.len() > 0 {
        let sorted: Vec<&SessionSummary> = sorted_by_directory(&rest);
        push_detached(&mut out, language.detached_other_group(), ids_of(&sorted));
    }
    Some(
        DetachedPanel {
            groups: out,
            claim_tooltip: language.claim_session_tooltip(),
            destroy_tooltip: language.destroy_session_tooltip(),
        },
    )
}

/// The number beside the button that opens the panel; the button is hidden where there are none.
pub fn detached_count(all: &Vec<SessionSummary>) -> (r: Option<usize>)
    ensures
        match r {
            Some(count) => count == all@.len() && count > 0,
            None => all@.len() == 0,
        },
{
    if all.len() == 0 {
        None
    } else {
        Some(all.len())
    }
}

/// What stands above the projects of the left sidebar.
#[derive(Clone, Debug, PartialEq, Eq)]
pub struct LeftHeading {
    /// The heading.
    pub label: &'static str,
    /// What the button says that adds a project.
    pub add_tooltip: &'static str,
    /// The number on the button that opens the panel, and what the button says; none without such
    /// sessions.
    pub detached: Option<(usize, &'static str)>,
    /// What the button says that closes the sidebar.
    pub collapse_tooltip: &'static str,
}

/// What stands above the projects of the left sidebar.
pub fn left_heading(all: &Vec<SessionSummary>, language: Language) -> (r: LeftHeading)
    ensures
        r.label@ == i18n::pick(language, "PROJECTS"@, "项目"@),
        r.add_tooltip@ == i18n::pick(language, "Add project"@, "添加项目"@),
        r.detached is None <==> all@.len() == 0,
        r.detached matches Some(button) ==> button.0 == all@.len() && button.1@ == i18n::pick(
            language,
            "Detached sessions"@,
            "游离会话"@,
        ),
        r.collapse_tooltip@ == i18n::pick(language, "Collapse sidebar"@, "折叠侧边栏"@),
{
    LeftHeading {
        label: language.projects_label(),
        add_tooltip: language.add_project_tooltip(),
        detached: match detached_count(all) {
            Some(count) => Some((count, language.detached_sessions_tooltip())),
            None => None,
        },
        collapse_tooltip: language.collapse_sidebar_tooltip(),
    }
}

/// Every session without a window stands in some group.
pub proof fn every_detached_session_is_grouped(
    ps: Seq<Project>,
    all: Seq<SessionSummary>,
    other: Seq<char>,
    i: int,
)
    requires
        0 <= i < all.len(),
    ensures
        exists|g: int|
            0 <= g < grouped(ps, all, other).len() && (#[trigger] grouped(
                ps,
                all,
                other,
            )[g]).members.contains(all[i].id),
{
    let n = all.len() as int;
    let named = project_groups(ps, all, ps.len() as int);
    let rest = orphans(ps, all, n);
    let out = grouped(ps, all, other);
    if is_listed(ps, all[i].project_id) {
        let j = choose|j: int| 0 <= j < ps.len() && (#[trigger] ps[j]).id == all[i].project_id;
        project_group_holds(ps, all, ps.len() as int, j, i);
        let g = choose|g: int|
            0 <= g < named.len() && (#[trigger] named[g]).members.contains(all[i].id);
        assert(out[g] == named[g]);
    } else {
        orphan_is_in(ps, all, n, i);
        let k = choose|k: int| 0 <= k < rest.len() && rest[k] == all[i];
        let keys = directory_keys(rest);
        let m = rest.len() as int;
        order::a_stable_order_is_a_permutation(keys, order::by_text(), m);
        order::a_permutation_reaches(keys, order::by_text(), m, k);
        let order = order::stable_order(keys, order::by_text(), m);
        let p = choose|p: int| 0 <= p < m && order[p] == k;
        let listed = sessions::ids(by_directory(rest));
        assert(listed[p] == all[i].id);
        assert(out[named.len() as int].members.contains(all[i].id));
    }
}

proof fn project_group_holds(
    ps: Seq<Project>,
    all: Seq<SessionSummary>,
    n: int,
    j: int,
    i: int,
)
    requires
        0 <= j < n <= ps.len(),
        0 <= i < all.len(),
        ps[j].id == all[i].project_id,
    ensures
        exists|g: int|
            0 <= g < project_groups(ps, all, n).len() && (#[trigger] project_groups(
                ps,
                all,
                n,
            )[g]).members.contains(all[i].id),
    decreases n,
{
    let now = project_groups(ps, all, n);
    if j == n - 1 {
        let own = members(all, ps[j].id, all.len() as int);
        member_is_in(all, ps[j].id, all.len() as int, i);
        let k = choose|k: int| 0 <= k < own.len() && own[k] == all[i];
        assert(sessions::ids(own)[k] == all[i].id);
        assert(now[now.len() - 1].members.contains(all[i].id));
    } else {
        project_group_holds(ps, all, n - 1, j, i);
        let rest = project_groups(ps, all, n - 1);
        let g = choose|g: int|
            0 <= g < rest.len() && (#[trigger] rest[g]).members.contains(all[i].id);
        assert(now[g] == rest[g]);
    }
}

proof fn orphan_is_in(ps: Seq<Project>, all: Seq<SessionSummary>, n: int, i: int)
    requires
        0 <= i < n <= all.len(),
        !is_listed(ps, all[i].project_id),
    ensures
        exists|k: int| 0 <= k < orphans(ps, all, n).len() && orphans(ps, all, n)[k] == all[i],
    decreases n,
{
    let now = orphans(ps, all, n);
    if i == n - 1 {
        assert(now[now.len() - 1] == all[i]);
    } else {
        orphan_is_in(ps, all, n - 1, i);
        let rest = orphans(ps, all, n - 1);
        let k = choose|k: int| 0 <= k < rest.len() && rest[k] == all[i];
        assert(now[k] == all[i]);
    }
}

// ---------------------------------------------------------------------------
// The right sidebar
// ---------------------------------------------------------------------------

/// A page of the right sidebar.
#[derive(Clone, Copy, Debug, PartialEq, Eq, Structural)]
pub enum RightTab {
    /// What is known of the session in front.
    Info,
    /// Files.
    Files,
    /// Source control.
    Git,
}

/// The icon of a page.
pub fn right_tab_icon(tab: RightTab) -> (r: IconName)
    ensures
        r == match tab {
            RightTab::Info => IconName::Info,
            RightTab::Files => IconName::Folder,
            RightTab::Git => IconName::GitBranch,
        },
{
    match tab {
        RightTab::Info => IconName::Info,
        RightTab::Files => IconName::Folder,
        RightTab::Git => IconName::GitBranch,
    }
}

/// The title of a page.
pub fn right_tab_title(tab: RightTab, language: Language) -> (r: &'static str)
    ensures
        r@ == match tab {
            RightTab::Info => i18n::pick(language, "Info"@, "信息"@),
            RightTab::Files => i18n::pick(language, "Files"@, "文件"@),
            RightTab::Git => i18n::pick(language, "Git"@, "Git"@),
        },
{
    match tab {
        RightTab::Info => language.info_tab(),
        RightTab::Files => language.files_tab(),
        RightTab::Git => language.git_tab(),
    }
}

/// What stands in the place of the processes and the ports of a session that was not inspected yet:
/// what went wrong, or that it is being looked at.
pub fn inspection_placeholder(error: &Option<String>, loading: &str) -> (r: String)
    ensures
        r@ == match *error {
            Some(e) => e@,
            None => loading@,
        },
{
    match error {
        Some(e) => e.clone(),
        None => loading.to_owned(),
    }
}

/// What is known of the processes of a session.
#[derive(Clone, Debug, PartialEq, Eq)]
pub enum Findings {
    /// The processes, and the ports where any process listens.
    Known {
        /// The processes, or that none runs.
        processes: ProcessSection,
        /// The ports.
        ports: Option<Vec<PortRow>>,
    },
    /// Nothing yet: what stands in the place of the processes and of the ports.
    Unknown {
        /// In the place of the processes.
        processes: String,
        /// In the place of the ports.
        ports: String,
    },
}

/// What the right sidebar says of the session in front.
#[derive(Clone, Debug, PartialEq, Eq)]
pub struct SessionInfo {
    /// The process in front.
    pub process_name: String,
    /// Its number, in words.
    pub process_pid: String,
    /// What stands above the place where the session is.
    pub current_label: &'static str,
    /// Where the session is.
    pub current_directory: String,
    /// What stands above the place where it began.
    pub initial_label: &'static str,
    /// Where it began.
    pub initial_directory: String,
    /// What stands above the processes.
    pub processes_label: &'static str,
    /// What stands above the ports, where they are shown.
    pub ports_label: &'static str,
    /// Its processes.
    pub findings: Findings,
}

/// What a page of the right sidebar shows.
#[derive(Clone, Debug, PartialEq, Eq)]
pub enum RightContent {
    /// The session in front, where there is one.
    Info(Option<SessionInfo>),
    /// A heading, and a note below it.
    Note {
        /// The heading.
        heading: &'static str,
        /// The note.
        note: &'static str,
    },
}

/// The findings are those of the inspection, or tell that there is none yet.
pub open spec fn tells_findings(
    inspection: Option<SessionInspection>,
    error: Option<String>,
    language: Language,
    f: Findings,
) -> bool {
    match (inspection, f) {
        (Some(i), Findings::Known { processes: section, ports }) => {
            &&& processes::tells_processes(i.processes@, language, section)
            &&& (ports is None <==> i.ports@.len() == 0)
            &&& ports matches Some(p) ==> p@.len() == i.ports@.len() && forall|k: int|
                0 <= k < p@.len() ==> processes::port_row(i, i.ports@[k]) == (
                    (#[trigger] p@[k]).endpoint@,
                    p@[k].owner@,
                )
        },
        (None, Findings::Unknown { processes: first, ports }) => {
            &&& first@ == match error {
                Some(e) => e@,
                None => i18n::pick(
                    language,
                    "Loading process information…"@,
                    "正在加载进程信息…"@,
                ),
            }
            &&& ports@ == i18n::pick(language, "Loading port information…"@, "正在加载端口信息…"@)
        },
        _ => false,
    }
}

/// What a page of the right sidebar shows. `active` is the session in front, and the inspection and
/// the error are those of that session.
pub fn right_content(
    tab: RightTab,
    list: &Vec<SessionSummary>,
    active: Option<SessionId>,
    inspection: &Option<SessionInspection>,
    error: &Option<String>,
    language: Language,
) -> (r: RightContent)
    ensures
        match tab {
            RightTab::Info => {
                &&& r is Info
                &&& match (active, r->Info_0) {
                    (Some(id), Some(info)) => match sessions::session_with(list@, id) {
                        Some(s) => {
                            &&& info.process_name@ == s.process_name@
                            &&& info.process_pid@ == "PID "@ + text::decimal(s.process_pid as nat)
                            &&& info.current_label@ == i18n::pick(
                                language,
                                "Current directory"@,
                                "当前目录"@,
                            )
                            &&& info.current_directory@ == s.current_directory@
                            &&& info.initial_label@ == i18n::pick(
                                language,
                                "Initial directory"@,
                                "初始目录"@,
                            )
                            &&& info.initial_directory@ == s.initial_directory@
                            &&& info.processes_label@ == i18n::pick(
                                language,
                                "PROCESSES"@,
                                "进程"@,
                            )
                            &&& info.ports_label@ == i18n::pick(language, "PORTS"@, "端口"@)
                            &&& tells_findings(*inspection, *error, language, info.findings)
                        },
                        None => false,
                    },
                    (Some(id), None) => sessions::session_with(list@, id) is None,
                    (None, shown) => shown is None,
                }
            },
            RightTab::Files => r matches RightContent::Note { heading, note } && heading@
                == i18n::pick(language, "CURRENT DIRECTORY"@, "当前目录"@) && note@ == i18n::pick(
                language,
                "File-tree service is scaffolded for current, initial, and locked roots."@,
                "文件树服务已为当前、初始和锁定根目录搭建。"@,
            ),
            RightTab::Git => r matches RightContent::Note { heading, note } && heading@
                == i18n::pick(language, "SOURCE CONTROL"@, "源代码管理"@) && note@ == i18n::pick(
                language,
                "Git status, diff, staging, commit, branch, pull, and push services are scaffolded."@,
                "Git 状态、差异、暂存、提交、分支、拉取和推送服务已搭建。"@,
            ),
        },
{
    match tab {
        RightTab::Files => RightContent::Note {
            heading: language.current_directory_label(),
            note: language.file_tree_scaffold_note(),
        },
        RightTab::Git => RightContent::Note {
            heading: language.source_control_label(),
            note: language.git_scaffold_note(),
        },
        RightTab::Info => {
            let found: Option<&SessionSummary> = match active {
                Some(id) => find_session(list, id),
                None => None,
            };
            match found {
                None => RightContent::Info(None),
                Some(s) => {
                    let mut process_pid: String = language.pid_label().to_owned();
                    process_pid.append(" ");
                    text::push_decimal(&mut process_pid, s.process_pid as u64);
                    proof {
                        reveal_strlit("PID");
                        reveal_strlit(" ");
                        reveal_strlit("PID ");
                        assert("PID"@ + " "@ =~= "PID "@);
                    }
                    let findings: Findings = match inspection {
                        Some(i) => Findings::Known {
                            processes: process_section(i.processes.as_slice(), language),
                            ports: ports_section(i),
                        },
                        None => Findings::Unknown {
                            processes: inspection_placeholder(
                                error,
                                language.loading_process_info(),
                            ),
                            ports: language.loading_ports().to_owned(),
                        },
                    };
                    RightContent::Info(
                        Some(
                            SessionInfo {
                                process_name: s.process_name.clone(),
                                process_pid,
                                current_label: language.current_directory(),
                                current_directory: s.current_directory.clone(),
                                initial_label: language.initial_directory(),
                                initial_directory: s.initial_directory.clone(),
                                processes_label: language.processes_label(),
                                ports_label: language.ports_label(),
                                findings,
                            },
                        ),
                    )
                },
            }
        },
    }
}

/// One of the two directories that the right sidebar shows.
#[derive(Clone, Copy, Debug, PartialEq, Eq, Structural)]
pub enum DirectoryField {
    /// Where the session is.
    Current,
    /// Where it began.
    Initial,
}

/// The name of a directory in the ids of its buttons.
pub open spec fn field_slug(field: DirectoryField) -> Seq<char> {
    match field {
        DirectoryField::Current => "current"@,
        DirectoryField::Initial => "initial"@,
    }
}

impl DirectoryField {
    /// The name of the directory in the ids of its buttons.
    pub fn slug(self) -> (r: &'static str)
        ensures
            r@ == field_slug(self),
    {
        match self {
            DirectoryField::Current => "current",
            DirectoryField::Initial => "initial",
        }
    }
}

/// A program that opens directories.
#[derive(Clone, Copy, Debug, PartialEq, Eq, Structural)]
pub enum OpenWith {
    /// The file manager.
    Finder,
    /// The editor.
    VsCode,
}

/// The icon of a program that opens directories.
pub fn icon_for_open_with(opener: OpenWith) -> (r: IconName)
    ensures
        r == match opener {
            OpenWith::Finder => IconName::Finder,
            OpenWith::VsCode => IconName::VsCode,
        },
{
    match opener {
        OpenWith::Finder => IconName::Finder,
        OpenWith::VsCode => IconName::VsCode,
    }
}

/// The arguments that open a directory.
pub open spec fn open_arguments(path: Seq<char>, opener: OpenWith) -> Seq<Seq<char>> {
    match opener {
        OpenWith::Finder => seq![path],
        OpenWith::VsCode => seq!["-a"@, "Visual Studio Code"@, path],
    }
}

/// The arguments with which `/usr/bin/open` opens a directory. The editor goes by its name, so that
/// it is found without a command of its own.
pub fn open_path_arguments(path: &str, opener: OpenWith) -> (r: Vec<String>)
    ensures
        order::texts(r@) == open_arguments(path@, opener),
{
    let mut r: Vec<String> = Vec::new();
    match opener {
        OpenWith::Finder => {},
        OpenWith::VsCode => {
            r.push("-a".to_owned());
            r.push("Visual Studio Code".to_owned());
        },
    }
    r.push(path.to_owned());
    assert(order::texts(r@) =~= open_arguments(path@, opener));
    r
}

/// An entry of the list of programs.
#[derive(Clone, Copy, Debug, PartialEq, Eq, Structural)]
pub struct OpenerEntry {
    /// The program.
    pub opener: OpenWith,
    /// Its icon.
    pub icon: IconName,
    /// Whether it is the one in use.
    pub selected: bool,
}

/// The buttons below a directory.
#[derive(Clone, Debug)]
pub struct DirectoryActions {
    /// The id of the button that copies the path.
    pub copy_id: String,
    /// The id of the button that opens the directory.
    pub open_id: String,
    /// The id of the button that brings up the list.
    pub caret_id: String,
    /// The icon of the program in use.
    pub icon: IconName,
    /// The list, where it is open.
    pub entries: Option<Vec<OpenerEntry>>,
}

fn id_with(prefix: &str, slug: &str) -> (r: String)
    ensures
        r@ == prefix@ + slug@,
{
    let mut r: String = prefix.to_owned();
    r.append(slug);
    r
}

/// The buttons below a directory. The list is open below at most one of them.
pub fn directory_actions(
    field: DirectoryField,
    opener: OpenWith,
    dropdown: Option<DirectoryField>,
) -> (r: DirectoryActions)
    ensures
        r.copy_id@ == "copy-path-"@ + field_slug(field),
        r.open_id@ == "open-with-"@ + field_slug(field),
        r.caret_id@ == "open-with-caret-"@ + field_slug(field),
        r.icon == match opener {
            OpenWith::Finder => IconName::Finder,
            OpenWith::VsCode => IconName::VsCode,
        },
        r.entries is Some <==> dropdown == Some(field),
        r.entries is Some ==> r.entries->0@ == seq![
            OpenerEntry {
                opener: OpenWith::Finder,
                icon: IconName::Finder,
                selected: opener == OpenWith::Finder,
            },
            OpenerEntry {
                opener: OpenWith::VsCode,
                icon: IconName::VsCode,
                selected: opener == OpenWith::VsCode,
            },
        ],
{
    let open: bool = match dropdown {
        Some(f) => f == field,
        None => false,
    };
    let entries: Option<Vec<OpenerEntry>> = if open {
        let list: Vec<OpenerEntry> = vec![
            OpenerEntry {
                opener: OpenWith::Finder,
                icon: icon_for_open_with(OpenWith::Finder),
                selected: opener == OpenWith::Finder,
            },
            OpenerEntry {
                opener: OpenWith::VsCode,
                icon: icon_for_open_with(OpenWith::VsCode),
                selected: opener == OpenWith::VsCode,
            },
        ];
        Some(list)
    } else {
        None
    };
    DirectoryActions {
        copy_id: id_with("copy-path-", field.slug()),
        open_id: id_with("open-with-", field.slug()),
        caret_id: id_with("open-with-caret-", field.slug()),
        icon: icon_for_open_with(opener),
        entries,
    }
}

/// The list after a click on the button of a directory: closed where it was open there, else open
/// there.
pub fn toggle_dropdown(dropdown: Option<DirectoryField>, field: DirectoryField) -> (r: Option<
    DirectoryField,
>)
    ensures
        r == if dropdown == Some(field) {
            None
        } else {
            Some(field)
        },
{
    match dropdown {
        Some(f) => if f == field {
            None
        } else {
            Some(field)
        },
        None => Some(field),
    }
}

/// The list after a click beside that of a directory: the list of the other one stays.
pub fn dismiss_dropdown(dropdown: Option<DirectoryField>, field: DirectoryField) -> (r: Option<
    DirectoryField,
>)
    ensures
        r == if dropdown == Some(field) {
            None
        } else {
            dropdown
        },
{
    match dropdown {
        Some(f) => if f == field {
            None
        } else {
            dropdown
        },
        None => None,
    }
}

/// The program to keep in the settings after one was chosen; none where it is the one in use.
pub fn set_open_directory_with(current: OpenWith, chosen: OpenWith) -> (r: Option<OpenWith>)
    ensures
        r == if current == chosen {
            None
        } else {
            Some(chosen)
        },
{
    if current == chosen {
        None
    } else {
        Some(chosen)
    }
}

/// Each kind of tab has its own icon.
pub proof fn kinds_have_their_icons()
    ensures
        kind_icon(ItemKind::Terminal) == IconName::Terminal,
        kind_icon(ItemKind::File) == IconName::File,
        kind_icon(ItemKind::Browser) == IconName::Browser,
        kind_icon(ItemKind::Settings) == IconName::Settings,
{
}

/// The place of a session in a list is that of the first entry with its id, and the end of the list where
/// there is none.
pub proof fn a_place_is_the_first(s: Seq<SessionId>, id: SessionId, i: int)
    requires
        0 <= i <= s.len(),
        forall|j: int| 0 <= j < i ==> #[trigger] s[j] != id,
        i < s.len() ==> s[i] == id,
    ensures
        first_place(s, id) == i,
    decreases s.len(),
{
    if s.len() > 0 && i > 0 {
        let rest = s.skip(1);
        assert(s[0] != id);
        assert forall|j: int| 0 <= j < i - 1 implies #[trigger] rest[j] != id by {
            assert(rest[j] == s[j + 1]);
        }
        a_place_is_the_first(rest, id, i - 1);
    }
}

/// The members of a project are the sessions that name it, in the order of the list.
pub proof fn members_name_their_project(all: Seq<SessionSummary>, project: ProjectId)
    ensures
        members(all, project, all.len() as int) == all.filter(
            |s: SessionSummary| s.project_id == project,
        ),
{
    members_are_selected(all, project, all.len() as int);
    assert(all.take(all.len() as int) =~= all);
}

proof fn members_are_selected(all: Seq<SessionSummary>, project: ProjectId, n: int)
    requires
        0 <= n <= all.len(),
    ensures
        members(all, project, n) == all.take(n).filter(|s: SessionSummary| s.project_id == project),
    decreases n,
{
    let keep = |s: SessionSummary| s.project_id == project;
    reveal(Seq::filter);
    if n > 0 {
        members_are_selected(all, project, n - 1);
        assert(all.take(n).drop_last() =~= all.take(n - 1));
        assert(all.take(n).last() == all[n - 1]);
    }
}

/// The sessions without a window whose project is not listed, in the order of the list.
pub proof fn orphans_have_no_project(ps: Seq<Project>, all: Seq<SessionSummary>)
    ensures
        orphans(ps, all, all.len() as int) == all.filter(
            |s: SessionSummary|
                forall|i: int| 0 <= i < ps.len() ==> (#[trigger] ps[i]).id != s.project_id,
        ),
{
    orphans_are_selected(ps, all, all.len() as int);
    assert(all.take(all.len() as int) =~= all);
}

proof fn orphans_are_selected(ps: Seq<Project>, all: Seq<SessionSummary>, n: int)
    requires
        0 <= n <= all.len(),
    ensures
        orphans(ps, all, n) == all.take(n).filter(
            |s: SessionSummary|
                forall|i: int| 0 <= i < ps.len() ==> (#[trigger] ps[i]).id != s.project_id,
        ),
    decreases n,
{
    let keep = |s: SessionSummary|
        forall|i: int| 0 <= i < ps.len() ==> (#[trigger] ps[i]).id != s.project_id;
    reveal(Seq::filter);
    if n > 0 {
        orphans_are_selected(ps, all, n - 1);
        assert(all.take(n).drop_last() =~= all.take(n - 1));
        let s = all[n - 1];
        assert(all.take(n).last() == s);
        if is_listed(ps, s.project_id) {
            let i = choose|i: int| 0 <= i < ps.len() && (#[trigger] ps[i]).id == s.project_id;
            assert(ps[i].id == s.project_id);
            assert(!keep(s));
        } else {
            assert(keep(s));
        }
    }
}

/// The row of a project tells its id, its name and whether it is in front; its icons tell whether its
/// sessions are hidden.
pub proof fn the_row_of_a_project(p: Project, s: SidebarState)
    ensures
        s.collapsed@.contains(p.id) ==> project_row(p, s) == (RowView::Project {
            project_id: p.id,
            name: p.name@,
            active: p.id == s.active_project,
            icon: IconName::Folder,
            arrow: IconName::ArrowRight,
        }),
        !s.collapsed@.contains(p.id) ==> project_row(p, s) == (RowView::Project {
            project_id: p.id,
            name: p.name@,
            active: p.id == s.active_project,
            icon: IconName::FolderOpen,
            arrow: IconName::ArrowDown,
        }),
{
}

/// The row of a session tells its project, its id and its title; it is in front where both it and its
/// project are, and has the mark of a terminal.
pub proof fn the_row_of_a_session(x: SessionSummary, project: ProjectId, s: SidebarState)
    ensures
        session_row(x, project, s) is Session,
        session_row(x, project, s)->Session_project_id == project,
        session_row(x, project, s)->session_id == x.id,
        session_row(x, project, s)->title == x.title@,
        session_row(x, project, s)->Session_active <==> s.active_project == project
            && s.active_session == Some(x.id),
        session_row(x, project, s)->Session_icon == terminals::icon_of(
            ItemKind::Terminal,
            Some(x.id),
            s.items,
        ),
        session_row(x, project, s)->flash == terminals::flash_age(Some(x.id), s.items),
{
}

/// A row is told by all of its parts.
pub proof fn rows_are_told_by_their_parts(r: SidebarRow)
    ensures
        r matches SidebarRow::Project { project_id, name, active, icon, arrow } ==> r.model() == (
        RowView::Project { project_id, name: name@, active, icon, arrow }),
        r matches SidebarRow::Session { project_id, session_id, title, active, icon, flash }
            ==> r.model() == (RowView::Session {
            project_id,
            session_id,
            title: title@,
            active,
            icon: icon.model(),
            flash,
        }),
{
}

proof fn the_view_place_is_the_first(views: Seq<WindowProjectView>, project: ProjectId, i: int)
    requires
        0 <= i <= views.len(),
        forall|j: int| 0 <= j < i ==> (#[trigger] views[j]).project_id != project,
        i < views.len() ==> views[i].project_id == project,
    ensures
        view_place(views, project) == i,
    decreases views.len(),
{
    if views.len() > 0 && i > 0 {
        let rest = views.skip(1);
        assert(views[0].project_id != project);
        assert forall|j: int| 0 <= j < i - 1 implies (#[trigger] rest[j]).project_id != project by {
            assert(rest[j] == views[j + 1]);
        }
        the_view_place_is_the_first(rest, project, i - 1);
    }
}

/// A project that the window shows has its row, with those of its sessions below it in the order of its
/// layout, unless they are hidden. A project that the window does not show has no row.
pub proof fn sessions_stand_below_their_project(
    p: Project,
    all: Seq<SessionSummary>,
    s: SidebarState,
    at: int,
    k: int,
)
    requires
        0 <= at <= s.views@.len(),
        forall|j: int| 0 <= j < at ==> (#[trigger] s.views@[j]).project_id != p.id,
        at < s.views@.len() ==> s.views@[at].project_id == p.id,
    ensures
        at == s.views@.len() ==> rows_of(p, all, s).len() == 0,
        at < s.views@.len() ==> rows_of(p, all, s).len() > 0 && rows_of(p, all, s)[0]
            == project_row(p, s),
        at < s.views@.len() && s.collapsed@.contains(p.id) ==> rows_of(p, all, s).len() == 1,
        at < s.views@.len() && !s.collapsed@.contains(p.id) ==> rows_of(p, all, s).len() == 1
            + in_layout_order(all, p.id, s.views@[at].layout).len(),
        1 <= k < rows_of(p, all, s).len() ==> rows_of(p, all, s)[k] == session_row(
            in_layout_order(all, p.id, s.views@[at].layout)[k - 1],
            p.id,
            s,
        ),
{
    the_view_place_is_the_first(s.views@, p.id, at);
}

/// The projects follow each other in the order of the list, each with its sessions.
pub proof fn projects_follow_each_other(
    ps: Seq<Project>,
    all: Seq<SessionSummary>,
    s: SidebarState,
    n: int,
)
    requires
        0 <= n < ps.len(),
    ensures
        rows_up_to(ps, all, s, 0).len() == 0,
        rows_up_to(ps, all, s, n + 1) == rows_up_to(ps, all, s, n) + rows_of(ps[n], all, s),
{
}

/// A project with sessions that have no window has a group with its name and those sessions, in the order
/// of the list; one without has none.
pub proof fn groups_follow_the_projects(ps: Seq<Project>, all: Seq<SessionSummary>, n: int)
    requires
        0 <= n < ps.len(),
    ensures
        project_groups(ps, all, 0).len() == 0,
        all.filter(|s: SessionSummary| s.project_id == ps[n].id).len() == 0 ==> project_groups(
            ps,
            all,
            n + 1,
        ) == project_groups(ps, all, n),
        all.filter(|s: SessionSummary| s.project_id == ps[n].id).len() > 0 ==> project_groups(
            ps,
            all,
            n + 1,
        ) == project_groups(ps, all, n).push(
            DetachedView {
                title: ps[n].name@,
                members: sessions::ids(
                    all.filter(|s: SessionSummary| s.project_id == ps[n].id),
                ),
            },
        ),
{
    members_name_their_project(all, ps[n].id);
}

/// The groups of the projects come first; where sessions are left over, one more group follows them, by
/// its own title.
pub proof fn sessions_left_over_come_last(
    ps: Seq<Project>,
    all: Seq<SessionSummary>,
    other: Seq<char>,
)
    ensures
        orphans(ps, all, all.len() as int).len() == 0 ==> grouped(ps, all, other) == project_groups(
            ps,
            all,
            ps.len() as int,
        ),
        orphans(ps, all, all.len() as int).len() > 0 ==> grouped(ps, all, other)
            == project_groups(ps, all, ps.len() as int).push(
            DetachedView {
                title: other,
                members: sessions::ids(by_directory(orphans(ps, all, all.len() as int))),
            },
        ),
{
}

/// Sessions by directory are the same sessions, those of an earlier directory first, and those of one
/// directory in the order in which they were.
pub proof fn sessions_are_put_by_directory(some: Seq<SessionSummary>, p: int, q: int, i: int)
    requires
        0 <= p < q < some.len(),
        0 <= i < some.len(),
    ensures
        by_directory(some).len() == some.len(),
        by_directory(some).contains(some[i]),
        text::text_le(
            paths::path_key(by_directory(some)[p].initial_directory@),
            paths::path_key(by_directory(some)[q].initial_directory@),
        ),
{
    let keys = directory_keys(some);
    let n = some.len() as int;
    order::texts_are_ordered();
    order::a_stable_order_is_a_permutation(keys, order::by_text(), n);
    order::a_stable_order_is_sorted(keys, order::by_text(), n, p, q);
    order::a_permutation_reaches(keys, order::by_text(), n, i);
    let places = order::stable_order(keys, order::by_text(), n);
    assert(0 <= places[p] < n && 0 <= places[q] < n);
    let w = choose|w: int| 0 <= w < n && places[w] == i;
    assert(by_directory(some)[w] == some[i]);
    assert(order::by_text()(keys[places[p]], keys[places[q]]));
}

/// A group is told by its title and its members.
pub proof fn groups_are_told_by_their_parts(gs: Seq<DetachedGroup>, k: int)
    requires
        0 <= k < gs.len(),
    ensures
        detached_views(gs).len() == gs.len(),
        detached_views(gs)[k].title == gs[k].title@,
        detached_views(gs)[k].members == gs[k].members@,
{
}

/// What is known of a session is shown; until then, what went wrong, or else that it is being looked at.
pub proof fn findings_are_shown_once_known(
    inspection: Option<SessionInspection>,
    error: Option<String>,
    language: Language,
    f: Findings,
    k: int,
)
    requires
        tells_findings(inspection, error, language, f),
    ensures
        inspection is Some <==> f is Known,
        inspection is None && error is Some ==> f->Unknown_processes@ == error->0@,
        inspection is None && error is None && language == Language::English
            ==> f->Unknown_processes@ == "Loading process information…"@,
        inspection is None && language == Language::English ==> f->Unknown_ports@
            == "Loading port information…"@,
        inspection is None && error is None && language == Language::SimplifiedChinese
            ==> f->Unknown_processes@ == "正在加载进程信息…"@,
        inspection is None && language == Language::SimplifiedChinese ==> f->Unknown_ports@
            == "正在加载端口信息…"@,
        inspection is Some ==> processes::tells_processes(
            (inspection->0).processes@,
            language,
            f->Known_processes,
        ),
        inspection is Some ==> (f->Known_ports is None <==> (inspection->0).ports@.len() == 0),
        inspection is Some && f->Known_ports is Some ==> f->Known_ports->0@.len() == (
        inspection->0).ports@.len(),
        inspection is Some && f->Known_ports is Some && 0 <= k < f->Known_ports->0@.len() ==> ({
            let row = f->Known_ports->0@[k];
            processes::port_row(inspection->0, (inspection->0).ports@[k]) == (
                row.endpoint@,
                row.owner@,
            )
        }),
{
}

/// The two directories of a session have different names.
pub proof fn directories_have_their_names()
    ensures
        field_slug(DirectoryField::Current) == "current"@,
        field_slug(DirectoryField::Initial) == "initial"@,
{
}

/// The file manager is handed the directory alone; the editor is asked for by name.
pub proof fn a_directory_is_opened_by_its_program(path: Seq<char>)
    ensures
        open_arguments(path, OpenWith::Finder).len() == 1,
        open_arguments(path, OpenWith::Finder)[0] == path,
        open_arguments(path, OpenWith::VsCode).len() == 3,
        open_arguments(path, OpenWith::VsCode)[0] == "-a"@,
        open_arguments(path, OpenWith::VsCode)[1] == "Visual Studio Code"@,
        open_arguments(path, OpenWith::VsCode)[2] == path,
{
}

} // verus!
