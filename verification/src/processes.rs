//! The process tree and the listening ports of a session.

use vstd::prelude::*;
use crate::i18n;
use crate::i18n::Language;
use crate::text;

verus! {

/// A process of a session, as inspection reports it.
#[derive(Clone, Debug)]
pub struct ProcessInfo {
    pub pid: u32,
    pub parent_pid: Option<u32>,
    pub name: String,
    pub cpu_usage_tenths_percent: Option<u32>,
    pub memory_bytes: Option<u64>,
}

/// A row of the flattened process tree: which process, and for each level above it whether the
/// branch goes on below.
#[derive(Clone, Debug, PartialEq, Eq)]
pub struct ProcessTreeRow {
    pub process_index: usize,
    pub branch_has_next: Vec<bool>,
}

/// What the tree depends on: the process, its parent and its name.
pub struct Node {
    pub pid: u32,
    pub parent: Option<u32>,
    pub name: Seq<char>,
}

/// A row of the tree: the index of the process and its branch marks.
pub struct Row {
    pub index: int,
    pub branch: Seq<bool>,
}

pub open spec fn node(p: ProcessInfo) -> Node {
    Node { pid: p.pid, parent: p.parent_pid, name: p.name@ }
}

/// The processes as the tree sees them.
pub open spec fn nodes(ps: Seq<ProcessInfo>) -> Seq<Node> {
    ps.map_values(|p: ProcessInfo| node(p))
}

pub open spec fn row(r: ProcessTreeRow) -> Row {
    Row { index: r.process_index as int, branch: r.branch_has_next@ }
}

/// The rows as the tree sees them.
pub open spec fn tree_rows(rs: Seq<ProcessTreeRow>) -> Seq<Row> {
    rs.map_values(|r: ProcessTreeRow| row(r))
}

/// Process `i` is shown before process `j`, or is its equal: by pid, then by name.
pub open spec fn shown_before(ps: Seq<Node>, i: int, j: int) -> bool {
    ps[i].pid < ps[j].pid || (ps[i].pid == ps[j].pid && text::text_le(ps[i].name, ps[j].name))
}

/// `s` with `x` put behind the last entry that is shown before it.
pub open spec fn place(ps: Seq<Node>, s: Seq<int>, x: int) -> Seq<int>
    decreases s.len(),
{
    if s.len() == 0 || shown_before(ps, s.last(), x) {
        s.push(x)
    } else {
        place(ps, s.drop_last(), x).push(s.last())
    }
}

/// The indices below `n` that `keep` selects, in the order in which they are shown.
pub open spec fn in_order(ps: Seq<Node>, keep: spec_fn(int) -> bool, n: int) -> Seq<int>
    decreases n,
{
    if n <= 0 {
        seq![]
    } else if keep(n - 1) {
        place(ps, in_order(ps, keep, n - 1), n - 1)
    } else {
        in_order(ps, keep, n - 1)
    }
}

pub open spec fn has_pid(ps: Seq<Node>, pid: u32) -> bool {
    exists|i: int| 0 <= i < ps.len() && #[trigger] ps[i].pid == pid
}

/// Process `i` has no parent among the processes: none is named, it names itself, or the one it
/// names is not listed.
pub open spec fn is_root(ps: Seq<Node>, i: int) -> bool {
    match ps[i].parent {
        Some(parent) => parent == ps[i].pid || !has_pid(ps, parent),
        None => true,
    }
}

/// Process `i` is a child of the processes with id `pid`.
pub open spec fn is_child(ps: Seq<Node>, i: int, pid: u32) -> bool {
    ps[i].parent == Some(pid) && pid != ps[i].pid && has_pid(ps, pid)
}

pub open spec fn roots(ps: Seq<Node>) -> Seq<int> {
    in_order(ps, |i: int| is_root(ps, i), ps.len() as int)
}

pub open spec fn children(ps: Seq<Node>, pid: u32) -> Seq<int> {
    in_order(ps, |i: int| is_child(ps, i, pid), ps.len() as int)
}

/// Process `i` has a row.
pub open spec fn listed(rows: Seq<Row>, i: int) -> bool {
    exists|k: int| 0 <= k < rows.len() && #[trigger] rows[k].index == i
}

/// How many rows can still be added.
pub open spec fn room(ps: Seq<Node>, rows: Seq<Row>) -> nat {
    if rows.len() < ps.len() {
        (ps.len() - rows.len()) as nat
    } else {
        0
    }
}

/// The rows after process `i` and everything below it that has no row yet.
pub open spec fn visit(ps: Seq<Node>, i: int, branch: Seq<bool>, rows: Seq<Row>) -> Seq<Row>
    decreases room(ps, rows), 0nat,
{
    if listed(rows, i) || rows.len() >= ps.len() {
        rows
    } else {
        visit_below(ps, children(ps, ps[i].pid), 0, branch, rows.push(Row { index: i, branch }))
    }
}

/// The rows after the siblings from position `at` on, each with a mark that says whether another
/// sibling follows.
pub open spec fn visit_below(
    ps: Seq<Node>,
    siblings: Seq<int>,
    at: int,
    branch: Seq<bool>,
    rows: Seq<Row>,
) -> Seq<Row>
    decreases room(ps, rows), siblings.len() - at + 1,
{
    if at < 0 || at >= siblings.len() {
        rows
    } else {
        let next = visit(ps, siblings[at], branch.push(at + 1 < siblings.len()), rows);
        if next.len() < rows.len() {
            rows
        } else {
            visit_below(ps, siblings, at + 1, branch, next)
        }
    }
}

/// The rows after the trees that start at `starts`, from position `at` on.
pub open spec fn visit_trees(ps: Seq<Node>, starts: Seq<int>, at: int, rows: Seq<Row>) -> Seq<Row>
    decreases starts.len() - at,
{
    if at < 0 || at >= starts.len() {
        rows
    } else {
        visit_trees(ps, starts, at + 1, visit(ps, starts[at], seq![], rows))
    }
}

/// The rows of the trees that start at a root.
pub open spec fn rooted_rows(ps: Seq<Node>) -> Seq<Row> {
    visit_trees(ps, roots(ps), 0, seq![])
}

/// The rows of the whole process tree. Processes that no root leads to (a cycle of parents) come
/// last, in the same order.
pub open spec fn process_tree(ps: Seq<Node>) -> Seq<Row> {
    let rooted = rooted_rows(ps);
    visit_trees(
        ps,
        in_order(ps, |i: int| !listed(rooted, i), ps.len() as int),
        0,
        rooted,
    )
}

/// Rows that name distinct listed processes.
pub open spec fn well_formed_rows(ps: Seq<Node>, rows: Seq<Row>) -> bool {
    &&& forall|k: int| 0 <= k < rows.len() ==> 0 <= #[trigger] rows[k].index < ps.len()
    &&& forall|j: int, k: int|
        0 <= j < k < rows.len() ==> (#[trigger] rows[j]).index != (#[trigger] rows[k]).index
}

/// `longer` begins with the rows of `shorter`.
pub open spec fn extends(longer: Seq<Row>, shorter: Seq<Row>) -> bool {
    shorter.len() <= longer.len() && longer.take(shorter.len() as int) == shorter
}

proof fn distinct_indices_fit(s: Seq<int>, n: nat)
    requires
        s.no_duplicates(),
        forall|k: int| 0 <= k < s.len() ==> 0 <= #[trigger] s[k] < n,
    ensures
        s.len() <= n,
{
    let all = vstd::set_lib::set_int_range(0, n as int);
    vstd::set_lib::lemma_int_range(0, n as int);
    s.unique_seq_to_set();
    assert(s.to_set().subset_of(all)) by {
        assert forall|x: int| s.to_set().contains(x) implies all.contains(x) by {
            assert(s.contains(x));
        }
    }
    vstd::set_lib::lemma_len_subset(s.to_set(), all);
}

proof fn unlisted_process_fits(ps: Seq<Node>, rows: Seq<Row>, i: int)
    requires
        well_formed_rows(ps, rows),
        0 <= i < ps.len(),
        !listed(rows, i),
    ensures
        rows.len() < ps.len(),
{
    let s = rows.map_values(|r: Row| r.index).push(i);
    assert forall|j: int, k: int| 0 <= j < s.len() && 0 <= k < s.len() && j != k implies s[j]
        != s[k] by {
        if j < rows.len() && k < rows.len() {
            if j < k {
                assert(rows[j].index != rows[k].index);
            } else {
                assert(rows[k].index != rows[j].index);
            }
        } else if j < rows.len() {
            assert(rows[j].index != i);
        } else {
            assert(rows[k].index != i);
        }
    }
    assert forall|k: int| 0 <= k < s.len() implies 0 <= #[trigger] s[k] < ps.len() by {
        if k < rows.len() {
            assert(0 <= rows[k].index < ps.len());
        }
    }
    distinct_indices_fit(s, ps.len());
}

/// Entries stand in the order in which they are shown.
pub open spec fn ordered(ps: Seq<Node>, s: Seq<int>) -> bool {
    forall|j: int, k: int| 0 <= j < k < s.len() ==> shown_before(ps, #[trigger] s[j], #[trigger] s[k])
}

proof fn shown_before_is_total(ps: Seq<Node>, i: int, j: int)
    ensures
        shown_before(ps, i, j) || shown_before(ps, j, i),
{
    text::text_le_total(ps[i].name, ps[j].name);
}

proof fn shown_before_is_transitive(ps: Seq<Node>, i: int, j: int, k: int)
    requires
        shown_before(ps, i, j),
        shown_before(ps, j, k),
    ensures
        shown_before(ps, i, k),
{
    if ps[i].pid == ps[j].pid && ps[j].pid == ps[k].pid {
        text::text_le_transitive(ps[i].name, ps[j].name, ps[k].name);
    }
}

proof fn place_adds_one(ps: Seq<Node>, s: Seq<int>, x: int)
    requires
        ordered(ps, s),
    ensures
        ordered(ps, place(ps, s, x)),
        place(ps, s, x).len() == s.len() + 1,
        forall|y: int| #[trigger] place(ps, s, x).contains(y) <==> (y == x || s.contains(y)),
        s.no_duplicates() && !s.contains(x) ==> place(ps, s, x).no_duplicates(),
    decreases s.len(),
{
    let r = place(ps, s, x);
    if s.len() == 0 || shown_before(ps, s.last(), x) {
        assert forall|j: int, k: int| 0 <= j < k < r.len() implies shown_before(
            ps,
            #[trigger] r[j],
            #[trigger] r[k],
        ) by {
            if k == s.len() && j < s.len() - 1 {
                assert(shown_before(ps, s[j], s[s.len() - 1]));
                shown_before_is_transitive(ps, s[j], s.last(), x);
            }
        }
        assert forall|y: int| #[trigger] r.contains(y) <==> (y == x || s.contains(y)) by {
            if r.contains(y) {
                let k = r.index_of(y);
                if k < s.len() {
                    assert(s[k] == y);
                }
            }
            if s.contains(y) {
                let k = s.index_of(y);
                assert(r[k] == y);
            }
            assert(r[s.len() as int] == x);
        }
    } else {
        let init = s.drop_last();
        let p = place(ps, init, x);
        assert(ordered(ps, init)) by {
            assert forall|j: int, k: int| 0 <= j < k < init.len() implies shown_before(
                ps,
                #[trigger] init[j],
                #[trigger] init[k],
            ) by {
                assert(shown_before(ps, s[j], s[k]));
            }
        }
        place_adds_one(ps, init, x);
        shown_before_is_total(ps, s.last(), x);
        assert forall|j: int, k: int| 0 <= j < k < r.len() implies shown_before(
            ps,
            #[trigger] r[j],
            #[trigger] r[k],
        ) by {
            if k == p.len() {
                assert(p.contains(p[j]));
                if p[j] != x {
                    let m = init.index_of(p[j]);
                    assert(shown_before(ps, s[m], s[s.len() - 1]));
                }
            } else {
                assert(shown_before(ps, p[j], p[k]));
            }
        }
        assert forall|y: int| #[trigger] r.contains(y) <==> (y == x || s.contains(y)) by {
            if r.contains(y) {
                let k = r.index_of(y);
                if k < p.len() {
                    assert(p.contains(p[k]));
                    if y != x {
                        let m = init.index_of(y);
                        assert(s[m] == y);
                    }
                } else {
                    assert(s[s.len() - 1] == y);
                }
            }
            if y == x || s.contains(y) {
                if y == x || init.contains(y) {
                    assert(p.contains(y));
                    let k = p.index_of(y);
                    assert(r[k] == y);
                } else {
                    let m = s.index_of(y);
                    if m < init.len() {
                        assert(init[m] == y);
                    }
                    assert(r[p.len() as int] == y);
                }
            }
        }
        if s.no_duplicates() && !s.contains(x) {
            assert(init.no_duplicates());
            assert(!init.contains(x)) by {
                if init.contains(x) {
                    let m = init.index_of(x);
                    assert(s[m] == x);
                }
            }
            assert forall|j: int, k: int| 0 <= j < r.len() && 0 <= k < r.len() && j != k implies r[j]
                != r[k] by {
                if j == p.len() || k == p.len() {
                    let o = if j == p.len() {
                        k
                    } else {
                        j
                    };
                    assert(p.contains(p[o]));
                    if p[o] == x {
                        assert(s.contains(s[s.len() - 1]));
                    } else {
                        let m = init.index_of(p[o]);
                        assert(s[m] != s[s.len() - 1]);
                    }
                }
            }
        }
    }
}

/// The selected indices come out each once, and in the order in which they are shown.
pub proof fn in_order_is_sorted_selection(ps: Seq<Node>, keep: spec_fn(int) -> bool, n: int)
    ensures
        ordered(ps, in_order(ps, keep, n)),
        in_order(ps, keep, n).no_duplicates(),
        forall|y: int| #[trigger]
            in_order(ps, keep, n).contains(y) <==> (0 <= y < n && keep(y)),
    decreases n,
{
    if n > 0 {
        in_order_is_sorted_selection(ps, keep, n - 1);
        if keep(n - 1) {
            place_adds_one(ps, in_order(ps, keep, n - 1), n - 1);
        }
    }
}

proof fn selection_is_listed(ps: Seq<Node>, keep: spec_fn(int) -> bool, n: int, k: int)
    requires
        0 <= k < in_order(ps, keep, n).len(),
    ensures
        0 <= in_order(ps, keep, n)[k] < n,
        keep(in_order(ps, keep, n)[k]),
{
    in_order_is_sorted_selection(ps, keep, n);
    assert(in_order(ps, keep, n).contains(in_order(ps, keep, n)[k]));
}

proof fn visit_extends(ps: Seq<Node>, i: int, branch: Seq<bool>, rows: Seq<Row>)
    requires
        well_formed_rows(ps, rows),
        0 <= i < ps.len(),
    ensures
        well_formed_rows(ps, visit(ps, i, branch, rows)),
        extends(visit(ps, i, branch, rows), rows),
        listed(visit(ps, i, branch, rows), i),
    decreases room(ps, rows), 0nat,
{
    if listed(rows, i) {
        assert(rows.take(rows.len() as int) =~= rows);
    } else {
        unlisted_process_fits(ps, rows, i);
        let more = rows.push(Row { index: i, branch });
        assert(well_formed_rows(ps, more)) by {
            assert forall|j: int, k: int| 0 <= j < k < more.len() implies (#[trigger] more[j]).index
                != (#[trigger] more[k]).index by {
                if k < rows.len() {
                    assert(rows[j].index != rows[k].index);
                } else {
                    assert(rows[j].index != i);
                }
            }
        }
        let siblings = children(ps, ps[i].pid);
        assert forall|k: int| 0 <= k < siblings.len() implies 0 <= #[trigger] siblings[k]
            < ps.len() by {
            selection_is_listed(ps, |x: int| is_child(ps, x, ps[i].pid), ps.len() as int, k);
        }
        visit_below_extends(ps, siblings, 0, branch, more);
        let r = visit(ps, i, branch, rows);
        assert(r.take(rows.len() as int) =~= rows) by {
            assert(r.take(more.len() as int) == more);
            assert forall|k: int| 0 <= k < rows.len() implies r[k] == rows[k] by {
                assert(r.take(more.len() as int)[k] == more[k]);
            }
        }
        assert(r.take(more.len() as int)[rows.len() as int] == more[rows.len() as int]);
        assert(r[rows.len() as int].index == i);
    }
}

proof fn visit_below_extends(
    ps: Seq<Node>,
    siblings: Seq<int>,
    at: int,
    branch: Seq<bool>,
    rows: Seq<Row>,
)
    requires
        well_formed_rows(ps, rows),
        0 <= at <= siblings.len(),
        forall|k: int| 0 <= k < siblings.len() ==> 0 <= #[trigger] siblings[k] < ps.len(),
    ensures
        well_formed_rows(ps, visit_below(ps, siblings, at, branch, rows)),
        extends(visit_below(ps, siblings, at, branch, rows), rows),
    decreases room(ps, rows), siblings.len() - at + 1,
{
    if at == siblings.len() {
        assert(rows.take(rows.len() as int) =~= rows);
    } else {
        let mark = branch.push(at + 1 < siblings.len());
        visit_extends(ps, siblings[at], mark, rows);
        let next = visit(ps, siblings[at], mark, rows);
        visit_below_extends(ps, siblings, at + 1, branch, next);
        extends_transitively(visit_below(ps, siblings, at, branch, rows), next, rows);
    }
}

proof fn extends_transitively(a: Seq<Row>, b: Seq<Row>, c: Seq<Row>)
    requires
        extends(a, b),
        extends(b, c),
    ensures
        extends(a, c),
{
    assert forall|k: int| 0 <= k < c.len() implies a[k] == c[k] by {
        assert(a.take(b.len() as int)[k] == b[k]);
        assert(b.take(c.len() as int)[k] == c[k]);
    }
    assert(a.take(c.len() as int) =~= c);
}

proof fn extension_keeps_listed(a: Seq<Row>, b: Seq<Row>, i: int)
    requires
        extends(a, b),
        listed(b, i),
    ensures
        listed(a, i),
{
    let k = choose|k: int| 0 <= k < b.len() && #[trigger] b[k].index == i;
    assert(a.take(b.len() as int)[k] == b[k]);
    assert(a[k].index == i);
}

proof fn visit_trees_extends(ps: Seq<Node>, starts: Seq<int>, at: int, rows: Seq<Row>)
    requires
        well_formed_rows(ps, rows),
        0 <= at <= starts.len(),
        forall|k: int| 0 <= k < starts.len() ==> 0 <= #[trigger] starts[k] < ps.len(),
    ensures
        well_formed_rows(ps, visit_trees(ps, starts, at, rows)),
        extends(visit_trees(ps, starts, at, rows), rows),
        forall|k: int|
            at <= k < starts.len() ==> listed(
                visit_trees(ps, starts, at, rows),
                #[trigger] starts[k],
            ),
    decreases starts.len() - at,
{
    if at == starts.len() {
        assert(rows.take(rows.len() as int) =~= rows);
    } else {
        visit_extends(ps, starts[at], seq![], rows);
        let next = visit(ps, starts[at], seq![], rows);
        visit_trees_extends(ps, starts, at + 1, next);
        let r = visit_trees(ps, starts, at, rows);
        extends_transitively(r, next, rows);
        assert forall|k: int| at <= k < starts.len() implies listed(r, #[trigger] starts[k]) by {
            if k == at {
                extension_keeps_listed(r, next, starts[at]);
            }
        }
    }
}

proof fn selections_are_listed(ps: Seq<Node>, keep: spec_fn(int) -> bool)
    ensures
        forall|k: int|
            0 <= k < in_order(ps, keep, ps.len() as int).len() ==> 0 <= #[trigger] in_order(
                ps,
                keep,
                ps.len() as int,
            )[k] < ps.len(),
{
    assert forall|k: int| 0 <= k < in_order(ps, keep, ps.len() as int).len() implies 0
        <= #[trigger] in_order(ps, keep, ps.len() as int)[k] < ps.len() by {
        selection_is_listed(ps, keep, ps.len() as int, k);
    }
}

/// Every process has exactly one row, whatever parents the processes name.
pub proof fn every_process_has_one_row(ps: Seq<Node>)
    ensures
        process_tree(ps).len() == ps.len(),
        well_formed_rows(ps, process_tree(ps)),
        forall|i: int| 0 <= i < ps.len() ==> #[trigger] listed(process_tree(ps), i),
{
    selections_are_listed(ps, |i: int| is_root(ps, i));
    visit_trees_extends(ps, roots(ps), 0, seq![]);
    let rooted = rooted_rows(ps);
    let keep = |i: int| !listed(rooted, i);
    let rest = in_order(ps, keep, ps.len() as int);
    selections_are_listed(ps, keep);
    visit_trees_extends(ps, rest, 0, rooted);
    let r = process_tree(ps);
    assert forall|i: int| 0 <= i < ps.len() implies #[trigger] listed(r, i) by {
        if listed(rooted, i) {
            extension_keeps_listed(r, rooted, i);
        } else {
            in_order_is_sorted_selection(ps, keep, ps.len() as int);
            assert(rest.contains(i));
            let k = rest.index_of(i);
            assert(listed(r, rest[k]));
        }
    }
    let s = r.map_values(|x: Row| x.index);
    assert forall|j: int, k: int| 0 <= j < s.len() && 0 <= k < s.len() && j != k implies s[j]
        != s[k] by {
        if j < k {
            assert(r[j].index != r[k].index);
        } else {
            assert(r[k].index != r[j].index);
        }
    }
    distinct_indices_fit(s, ps.len());
    vstd::set_lib::lemma_int_range(0, ps.len() as int);
    s.unique_seq_to_set();
    assert(vstd::set_lib::set_int_range(0, ps.len() as int).subset_of(s.to_set())) by {
        assert forall|i: int| 0 <= i < ps.len() implies s.to_set().contains(i) by {
            assert(listed(r, i));
            let k = choose|k: int| 0 <= k < r.len() && #[trigger] r[k].index == i;
            assert(s[k] == i);
        }
    }
    vstd::set_lib::lemma_len_subset(
        vstd::set_lib::set_int_range(0, ps.len() as int),
        s.to_set(),
    );
}

/// Some row before row `k` stands one level up and is the parent of the process in row `k`.
pub open spec fn has_parent_above(ps: Seq<Node>, rows: Seq<Row>, i: int, branch: Seq<bool>, k: int) -> bool {
    exists|j: int|
        0 <= j < k && (#[trigger] rows[j]).branch == branch.drop_last() && ps[i].parent == Some(
            ps[rows[j].index].pid,
        )
}

/// Every indented row has its parent above it.
pub open spec fn parents_above(ps: Seq<Node>, rows: Seq<Row>) -> bool {
    forall|k: int|
        0 <= k < rows.len() && rows[k].branch.len() > 0 ==> has_parent_above(
            ps,
            rows,
            (#[trigger] rows[k]).index,
            rows[k].branch,
            k,
        )
}

proof fn visit_keeps_parents(ps: Seq<Node>, i: int, branch: Seq<bool>, rows: Seq<Row>)
    requires
        well_formed_rows(ps, rows),
        0 <= i < ps.len(),
        parents_above(ps, rows),
        branch.len() > 0 ==> has_parent_above(ps, rows, i, branch, rows.len() as int),
    ensures
        parents_above(ps, visit(ps, i, branch, rows)),
    decreases room(ps, rows), 0nat,
{
    if !listed(rows, i) {
        unlisted_process_fits(ps, rows, i);
        let first = rows.push(Row { index: i, branch });
        let siblings = children(ps, ps[i].pid);
        assert(well_formed_rows(ps, first)) by {
            assert forall|j: int, k: int| 0 <= j < k < first.len() implies (#[trigger] first[j]).index
                != (#[trigger] first[k]).index by {
                if k < rows.len() {
                    assert(rows[j].index != rows[k].index);
                } else {
                    assert(rows[j].index != i);
                }
            }
        }
        assert forall|k: int| 0 <= k < first.len() && first[k].branch.len() > 0 implies has_parent_above(
            ps,
            first,
            (#[trigger] first[k]).index,
            first[k].branch,
            k,
        ) by {
            if k < rows.len() {
                assert(has_parent_above(ps, rows, rows[k].index, rows[k].branch, k));
            }
            let j = choose|j: int|
                0 <= j < k && (#[trigger] rows[j]).branch == first[k].branch.drop_last()
                    && ps[first[k].index].parent == Some(ps[rows[j].index].pid);
            assert(first[j] == rows[j]);
        }
        assert forall|k: int| 0 <= k < siblings.len() implies 0 <= #[trigger] siblings[k] < ps.len()
            && ps[siblings[k]].parent == Some(ps[i].pid) by {
            selection_is_listed(ps, |x: int| is_child(ps, x, ps[i].pid), ps.len() as int, k);
        }
        assert(first[rows.len() as int].branch == branch);
        visit_below_keeps_parents(ps, siblings, 0, branch, first, rows.len() as int);
    }
}

proof fn visit_below_keeps_parents(
    ps: Seq<Node>,
    siblings: Seq<int>,
    at: int,
    branch: Seq<bool>,
    rows: Seq<Row>,
    parent: int,
)
    requires
        well_formed_rows(ps, rows),
        0 <= at <= siblings.len(),
        parents_above(ps, rows),
        0 <= parent < rows.len(),
        rows[parent].branch == branch,
        forall|k: int|
            0 <= k < siblings.len() ==> 0 <= #[trigger] siblings[k] < ps.len()
                && ps[siblings[k]].parent == Some(ps[rows[parent].index].pid),
    ensures
        parents_above(ps, visit_below(ps, siblings, at, branch, rows)),
    decreases room(ps, rows), siblings.len() - at + 1,
{
    if at < siblings.len() {
        let mark = branch.push(at + 1 < siblings.len());
        assert(mark.drop_last() =~= branch);
        assert(has_parent_above(ps, rows, siblings[at], mark, rows.len() as int)) by {
            assert(rows[parent].branch == mark.drop_last());
        }
        visit_extends(ps, siblings[at], mark, rows);
        visit_keeps_parents(ps, siblings[at], mark, rows);
        let next = visit(ps, siblings[at], mark, rows);
        assert(next.take(rows.len() as int)[parent] == rows[parent]);
        visit_below_keeps_parents(ps, siblings, at + 1, branch, next, parent);
    }
}

proof fn visit_trees_keeps_parents(ps: Seq<Node>, starts: Seq<int>, at: int, rows: Seq<Row>)
    requires
        well_formed_rows(ps, rows),
        0 <= at <= starts.len(),
        parents_above(ps, rows),
        forall|k: int| 0 <= k < starts.len() ==> 0 <= #[trigger] starts[k] < ps.len(),
    ensures
        parents_above(ps, visit_trees(ps, starts, at, rows)),
    decreases starts.len() - at,
{
    if at < starts.len() {
        visit_extends(ps, starts[at], seq![], rows);
        visit_keeps_parents(ps, starts[at], seq![], rows);
        visit_trees_keeps_parents(ps, starts, at + 1, visit(ps, starts[at], seq![], rows));
    }
}

/// Every indented row has its parent in an earlier row, one level up.
pub proof fn every_indented_row_is_below_its_parent(ps: Seq<Node>)
    ensures
        parents_above(ps, process_tree(ps)),
{
    selections_are_listed(ps, |i: int| is_root(ps, i));
    visit_trees_extends(ps, roots(ps), 0, seq![]);
    visit_trees_keeps_parents(ps, roots(ps), 0, seq![]);
    let rooted = rooted_rows(ps);
    let keep = |i: int| !listed(rooted, i);
    selections_are_listed(ps, keep);
    visit_trees_keeps_parents(ps, in_order(ps, keep, ps.len() as int), 0, rooted);
}

fn is_shown_before(ps: &[ProcessInfo], i: usize, j: usize) -> (r: bool)
    requires
        i < ps@.len(),
        j < ps@.len(),
    ensures
        r == shown_before(nodes(ps@), i as int, j as int),
{
    ps[i].pid < ps[j].pid || (ps[i].pid == ps[j].pid && text::text_at_most(
        ps[i].name.as_str(),
        ps[j].name.as_str(),
    ))
}

/// The indices as mathematical integers.
pub open spec fn ints(v: Seq<usize>) -> Seq<int> {
    v.map_values(|i: usize| i as int)
}

fn place_into(ps: &[ProcessInfo], list: &mut Vec<usize>, x: usize)
    requires
        x < ps@.len(),
        forall|k: int| 0 <= k < old(list)@.len() ==> (#[trigger] old(list)@[k]) < ps@.len(),
    ensures
        ints(final(list)@) == place(nodes(ps@), ints(old(list)@), x as int),
        forall|k: int| 0 <= k < final(list)@.len() ==> (#[trigger] final(list)@[k]) < ps@.len(),
{
    let ghost before = list@;
    let mut at: usize = list.len();
    assert(ints(before).take(at as int) =~= ints(before));
    assert(place(nodes(ps@), ints(before), x as int) + ints(before).skip(at as int) =~= place(
        nodes(ps@),
        ints(before),
        x as int,
    ));
    while at > 0 && !is_shown_before(ps, list[at - 1], x)
        invariant
            at <= list@.len(),
            list@ == before,
            x < ps@.len(),
            forall|k: int| 0 <= k < list@.len() ==> (#[trigger] list@[k]) < ps@.len(),
            place(nodes(ps@), ints(before), x as int) == place(
                nodes(ps@),
                ints(before).take(at as int),
                x as int,
            ) + ints(before).skip(at as int),
        ensures
            at <= list@.len(),
            list@ == before,
            place(nodes(ps@), ints(before), x as int) == place(
                nodes(ps@),
                ints(before).take(at as int),
                x as int,
            ) + ints(before).skip(at as int),
            at > 0 ==> shown_before(nodes(ps@), before[at - 1] as int, x as int),
        decreases at,
    {
        let ghost s = ints(before).take(at as int);
        assert(s.drop_last() =~= ints(before).take(at - 1));
        assert(seq![s.last()] + ints(before).skip(at as int) =~= ints(before).skip(at - 1));
        assert(place(nodes(ps@), s, x as int) + ints(before).skip(at as int) =~= place(
            nodes(ps@),
            s.drop_last(),
            x as int,
        ) + ints(before).skip(at - 1));
        at = at - 1;
    }
    proof {
        let s = ints(before).take(at as int);
        assert(at > 0 ==> s.last() == before[at - 1]);
        assert(place(nodes(ps@), s, x as int) == s.push(x as int));
    }
    list.insert(at, x);
    assert(ints(list@) =~= ints(before).take(at as int).push(x as int) + ints(before).skip(at as int));
}

fn lists_pid(ps: &[ProcessInfo], pid: u32) -> (r: bool)
    ensures
        r == has_pid(nodes(ps@), pid),
{
    let mut i: usize = 0;
    while i < ps.len()
        invariant
            i <= ps@.len(),
            forall|j: int| 0 <= j < i ==> (#[trigger] ps@[j]).pid != pid,
        decreases ps@.len() - i,
    {
        if ps[i].pid == pid {
            assert(nodes(ps@)[i as int].pid == pid);
            return true;
        }
        i = i + 1;
    }
    assert forall|j: int| 0 <= j < nodes(ps@).len() implies #[trigger] nodes(ps@)[j].pid != pid by {
        assert(ps@[j].pid != pid);
    }
    false
}

fn is_tree_root(ps: &[ProcessInfo], i: usize) -> (r: bool)
    requires
        i < ps@.len(),
    ensures
        r == is_root(nodes(ps@), i as int),
{
    match ps[i].parent_pid {
        Some(parent) => parent == ps[i].pid || !lists_pid(ps, parent),
        None => true,
    }
}

fn root_list(ps: &[ProcessInfo]) -> (r: Vec<usize>)
    ensures
        ints(r@) == roots(nodes(ps@)),
        forall|k: int| 0 <= k < r@.len() ==> (#[trigger] r@[k]) < ps@.len(),
{
    let ghost keep = |i: int| is_root(nodes(ps@), i);
    let mut r: Vec<usize> = Vec::new();
    let mut i: usize = 0;
    assert(ints(r@) =~= in_order(nodes(ps@), keep, 0));
    while i < ps.len()
        invariant
            i <= ps@.len(),
            keep == (|i: int| is_root(nodes(ps@), i)),
            ints(r@) == in_order(nodes(ps@), keep, i as int),
            forall|k: int| 0 <= k < r@.len() ==> (#[trigger] r@[k]) < ps@.len(),
        decreases ps@.len() - i,
    {
        if is_tree_root(ps, i) {
            place_into(ps, &mut r, i);
        }
        i = i + 1;
    }
    r
}

fn child_list(ps: &[ProcessInfo], pid: u32) -> (r: Vec<usize>)
    ensures
        ints(r@) == children(nodes(ps@), pid),
        forall|k: int| 0 <= k < r@.len() ==> (#[trigger] r@[k]) < ps@.len(),
{
    let ghost keep = |i: int| is_child(nodes(ps@), i, pid);
    let present: bool = lists_pid(ps, pid);
    let mut r: Vec<usize> = Vec::new();
    let mut i: usize = 0;
    assert(ints(r@) =~= in_order(nodes(ps@), keep, 0));
    while i < ps.len()
        invariant
            i <= ps@.len(),
            present == has_pid(nodes(ps@), pid),
            keep == (|i: int| is_child(nodes(ps@), i, pid)),
            ints(r@) == in_order(nodes(ps@), keep, i as int),
            forall|k: int| 0 <= k < r@.len() ==> (#[trigger] r@[k]) < ps@.len(),
        decreases ps@.len() - i,
    {
        let under: bool = match ps[i].parent_pid {
            Some(parent) => parent == pid && pid != ps[i].pid && present,
            None => false,
        };
        assert(under == is_child(nodes(ps@), i as int, pid));
        if under {
            place_into(ps, &mut r, i);
        }
        i = i + 1;
    }
    r
}

fn rest_list(ps: &[ProcessInfo], marks: &Vec<bool>, rows: &Vec<ProcessTreeRow>) -> (r: Vec<usize>)
    requires
        marks_match(marks@, tree_rows(rows@), ps@.len()),
    ensures
        ints(r@) == in_order(
            nodes(ps@),
            |i: int| !listed(tree_rows(rows@), i),
            ps@.len() as int,
        ),
        forall|k: int| 0 <= k < r@.len() ==> (#[trigger] r@[k]) < ps@.len(),
{
    let ghost keep = |i: int| !listed(tree_rows(rows@), i);
    let mut r: Vec<usize> = Vec::new();
    let mut i: usize = 0;
    assert(ints(r@) =~= in_order(nodes(ps@), keep, 0));
    while i < ps.len()
        invariant
            i <= ps@.len(),
            marks_match(marks@, tree_rows(rows@), ps@.len()),
            keep == (|i: int| !listed(tree_rows(rows@), i)),
            ints(r@) == in_order(nodes(ps@), keep, i as int),
            forall|k: int| 0 <= k < r@.len() ==> (#[trigger] r@[k]) < ps@.len(),
        decreases ps@.len() - i,
    {
        if !marks[i] {
            place_into(ps, &mut r, i);
        }
        i = i + 1;
    }
    r
}

/// `marks` says of each process whether it has a row.
pub open spec fn marks_match(marks: Seq<bool>, rows: Seq<Row>, n: nat) -> bool {
    marks.len() == n && forall|i: int| 0 <= i < n ==> #[trigger] marks[i] == listed(rows, i)
}

fn visit_into(
    i: usize,
    ps: &[ProcessInfo],
    branch: &mut Vec<bool>,
    marks: &mut Vec<bool>,
    rows: &mut Vec<ProcessTreeRow>,
)
    requires
        i < ps@.len(),
        marks_match(old(marks)@, tree_rows(old(rows)@), ps@.len()),
        well_formed_rows(nodes(ps@), tree_rows(old(rows)@)),
    ensures
        final(branch)@ == old(branch)@,
        tree_rows(final(rows)@) == visit(
            nodes(ps@),
            i as int,
            old(branch)@,
            tree_rows(old(rows)@),
        ),
        marks_match(final(marks)@, tree_rows(final(rows)@), ps@.len()),
        well_formed_rows(nodes(ps@), tree_rows(final(rows)@)),
        final(rows)@.len() >= old(rows)@.len(),
    decreases room(nodes(ps@), tree_rows(old(rows)@)),
{
    let ghost start = tree_rows(rows@);
    let ghost ns = nodes(ps@);
    proof {
        visit_extends(ns, i as int, branch@, start);
    }
    if marks[i] {
        return ;
    }
    proof {
        unlisted_process_fits(ns, start, i as int);
    }
    let copy: Vec<bool> = branch.clone();
    assert(copy@ =~= branch@);
    rows.push(ProcessTreeRow { process_index: i, branch_has_next: copy });
    marks.set(i, true);
    let ghost first = start.push(Row { index: i as int, branch: branch@ });
    assert(tree_rows(rows@) =~= first);
    assert(first[start.len() as int].index == i);
    assert forall|k: int| 0 <= k < ps@.len() implies #[trigger] marks@[k] == listed(first, k) by {
        if listed(start, k) {
            let m = choose|m: int| 0 <= m < start.len() && #[trigger] start[m].index == k;
            assert(first[m].index == k);
        }
        if k != i && listed(first, k) {
            let m = choose|m: int| 0 <= m < first.len() && #[trigger] first[m].index == k;
            assert(start[m].index == k);
        }
    }
    assert(well_formed_rows(ns, first)) by {
        assert forall|j: int, k: int| 0 <= j < k < first.len() implies (#[trigger] first[j]).index
            != (#[trigger] first[k]).index by {
            if k < start.len() {
                assert(start[j].index != start[k].index);
            } else {
                assert(start[j].index != i);
            }
        }
    }
    let siblings: Vec<usize> = child_list(ps, ps[i].pid);
    let mut at: usize = 0;
    while at < siblings.len()
        invariant
            i < ps@.len(),
            ns == nodes(ps@),
            at <= siblings@.len(),
            branch@ == old(branch)@,
            start == tree_rows(old(rows)@),
            ints(siblings@) == children(ns, ns[i as int].pid),
            forall|k: int| 0 <= k < siblings@.len() ==> (#[trigger] siblings@[k]) < ps@.len(),
            marks_match(marks@, tree_rows(rows@), ps@.len()),
            well_formed_rows(ns, tree_rows(rows@)),
            rows@.len() > start.len(),
            start.len() < ps@.len(),
            visit(ns, i as int, branch@, start) == visit_below(
                ns,
                ints(siblings@),
                at as int,
                branch@,
                tree_rows(rows@),
            ),
        decreases siblings@.len() - at,
    {
        let ghost now = tree_rows(rows@);
        let ghost mark = branch@.push(at + 1 < siblings@.len());
        proof {
            visit_extends(ns, siblings@[at as int] as int, mark, now);
        }
        branch.push(at + 1 < siblings.len());
        visit_into(siblings[at], ps, branch, marks, rows);
        branch.pop();
        assert(branch@ =~= old(branch)@);
        at = at + 1;
    }
}

/// The rows of the process tree, in the order in which they are shown.
pub fn process_tree_rows(processes: &[ProcessInfo]) -> (r: Vec<ProcessTreeRow>)
    ensures
        tree_rows(r@) == process_tree(nodes(processes@)),
{
    let ghost ns = nodes(processes@);
    let mut rows: Vec<ProcessTreeRow> = Vec::new();
    let mut marks: Vec<bool> = Vec::new();
    let mut n: usize = 0;
    while n < processes.len()
        invariant
            n <= processes@.len(),
            marks@.len() == n,
            forall|k: int| 0 <= k < n ==> !(#[trigger] marks@[k]),
        decreases processes@.len() - n,
    {
        marks.push(false);
        n = n + 1;
    }
    assert(tree_rows(rows@) =~= seq![]);
    let starts: Vec<usize> = root_list(processes);
    let mut at: usize = 0;
    while at < starts.len()
        invariant
            at <= starts@.len(),
            ns == nodes(processes@),
            ints(starts@) == roots(ns),
            forall|k: int| 0 <= k < starts@.len() ==> (#[trigger] starts@[k]) < processes@.len(),
            marks_match(marks@, tree_rows(rows@), processes@.len()),
            well_formed_rows(ns, tree_rows(rows@)),
            rooted_rows(ns) == visit_trees(ns, ints(starts@), at as int, tree_rows(rows@)),
        decreases starts@.len() - at,
    {
        let mut branch: Vec<bool> = Vec::new();
        assert(branch@ =~= seq![]);
        visit_into(starts[at], processes, &mut branch, &mut marks, &mut rows);
        at = at + 1;
    }
    let rest: Vec<usize> = rest_list(processes, &marks, &rows);
    let mut next: usize = 0;
    while next < rest.len()
        invariant
            next <= rest@.len(),
            ns == nodes(processes@),
            forall|k: int| 0 <= k < rest@.len() ==> (#[trigger] rest@[k]) < processes@.len(),
            marks_match(marks@, tree_rows(rows@), processes@.len()),
            well_formed_rows(ns, tree_rows(rows@)),
            process_tree(ns) == visit_trees(ns, ints(rest@), next as int, tree_rows(rows@)),
        decreases rest@.len() - next,
    {
        let mut branch: Vec<bool> = Vec::new();
        assert(branch@ =~= seq![]);
        visit_into(rest[next], processes, &mut branch, &mut marks, &mut rows);
        next = next + 1;
    }
    rows
}

/// A port that a process of the session listens on.
#[derive(Clone, Debug)]
pub struct ListeningPort {
    pub pid: u32,
    pub protocol: String,
    pub address: String,
    pub port: u16,
}

/// What inspection reports of a session.
#[derive(Clone, Debug)]
pub struct SessionInspection {
    pub session_id: u128,
    pub processes: Vec<ProcessInfo>,
    pub ports: Vec<ListeningPort>,
}

/// The share of a processor, in tenths of a percent, as text.
pub open spec fn cpu_text(usage: Option<u32>) -> Seq<char> {
    match usage {
        Some(u) => text::decimal((u / 10) as nat) + "."@ + text::decimal((u % 10) as nat) + "%"@,
        None => "—"@,
    }
}

/// The share of a processor, in tenths of a percent, as text.
pub fn format_cpu_usage(usage_tenths_percent: Option<u32>) -> (r: String)
    ensures
        r@ == cpu_text(usage_tenths_percent),
{
    match usage_tenths_percent {
        Some(u) => {
            let mut r: String = text::decimal_text((u / 10) as u64);
            r.append(".");
            text::push_decimal(&mut r, (u % 10) as u64);
            r.append("%");
            assert(r@ =~= cpu_text(usage_tenths_percent));
            r
        },
        None => "—".to_owned(),
    }
}

/// `n / d` rounded to the nearest integer, a tie to the even one.
pub open spec fn half_even(n: nat, d: nat) -> nat {
    let q = n / d;
    let r = n % d;
    if 2 * r > d || (2 * r == d && q % 2 == 1) {
        q + 1
    } else {
        q
    }
}

/// The distance between neighbouring numbers of 53 significant bits around `n`.
pub open spec fn spacing(n: nat) -> nat
    decreases n,
{
    if n < 0x20_0000_0000_0000 {
        1
    } else {
        2 * spacing(n / 2)
    }
}

/// `n` rounded to 53 significant bits.
pub open spec fn nearest(n: nat) -> nat {
    half_even(n, spacing(n)) * spacing(n)
}

/// A number of tenths as text with one decimal place.
pub open spec fn tenths_text(t: nat) -> Seq<char> {
    text::decimal(t / 10) + "."@ + text::decimal(t % 10)
}

/// An amount of memory, in the largest unit that is not below one: gigabytes and megabytes with
/// one decimal place, kilobytes and bytes without.
pub open spec fn memory_text(bytes: Option<u64>) -> Seq<char> {
    match bytes {
        Some(b) => {
            let n = nearest(b as nat);
            if n >= 0x4000_0000 {
                tenths_text(half_even(10 * n, 0x4000_0000)) + "GB"@
            } else if n >= 0x10_0000 {
                tenths_text(half_even(10 * n, 0x10_0000)) + "MB"@
            } else if n >= 0x400 {
                text::decimal(half_even(n, 0x400)) + "KB"@
            } else {
                text::decimal(n) + "B"@
            }
        },
        None => "—"@,
    }
}

fn half_even_of(n: u128, d: u128) -> (r: u128)
    requires
        0 < d <= 0x4000_0000,
        n < 0x1000_0000_0000_0000_0000,
    ensures
        r == half_even(n as nat, d as nat),
        r <= n + 1,
{
    let q: u128 = n / d;
    let rest: u128 = n % d;
    assert(q <= n) by (nonlinear_arith)
        requires
            d > 0,
            q == n / d,
    ;
    if 2 * rest > d || (2 * rest == d && q % 2 == 1) {
        q + 1
    } else {
        q
    }
}

proof fn spacing_is_small(n: nat)
    requires
        n < 0x1_0000_0000_0000_0000,
    ensures
        1 <= spacing(n) <= 2048,
        half_even(n, spacing(n)) * spacing(n) <= 0x1_0000_0000_0000_0000,
        n < 0x20_0000_0000_0000 ==> nearest(n) == n,
{
    reveal_with_fuel(spacing, 13);
    let d = spacing(n);
    let q = n / d;
    assert(d == 1 || d == 2 || d == 4 || d == 8 || d == 16 || d == 32 || d == 64 || d == 128 || d
        == 256 || d == 512 || d == 1024 || d == 2048);
    assert(n / 1 == n && n % 1 == 0);
    let m: nat = if d == 1 {
        0x1_0000_0000_0000_0000
    } else if d == 2 {
        0x8000_0000_0000_0000
    } else if d == 4 {
        0x4000_0000_0000_0000
    } else if d == 8 {
        0x2000_0000_0000_0000
    } else if d == 16 {
        0x1000_0000_0000_0000
    } else if d == 32 {
        0x800_0000_0000_0000
    } else if d == 64 {
        0x400_0000_0000_0000
    } else if d == 128 {
        0x200_0000_0000_0000
    } else if d == 256 {
        0x100_0000_0000_0000
    } else if d == 512 {
        0x80_0000_0000_0000
    } else if d == 1024 {
        0x40_0000_0000_0000
    } else {
        0x20_0000_0000_0000
    };
    assert(d * m == 0x1_0000_0000_0000_0000);
    assert((q + 1) * d <= 0x1_0000_0000_0000_0000) by (nonlinear_arith)
        requires
            d >= 1,
            d * m == 0x1_0000_0000_0000_0000,
            n < 0x1_0000_0000_0000_0000,
            q == n / d,
    ;
    assert(q * d <= (q + 1) * d) by (nonlinear_arith)
        requires
            d >= 1,
    ;
}

fn nearest_of(n: u64) -> (r: u128)
    ensures
        r == nearest(n as nat),
        r <= 0x1_0000_0000_0000_0000,
{
    let mut rest: u64 = n;
    let mut d: u128 = 1;
    proof {
        spacing_is_small(n as nat);
    }
    while rest >= 0x20_0000_0000_0000
        invariant
            1 <= d <= spacing(n as nat),
            spacing(n as nat) <= 2048,
            d * spacing(rest as nat) == spacing(n as nat),
        decreases rest,
    {
        let ghost half = spacing((rest / 2) as nat);
        assert(half >= 1) by {
            reveal_with_fuel(spacing, 2);
            spacing_is_small((rest / 2) as nat);
        }
        assert(d * (2 * half) == (d * 2) * half && (d * 2) <= (d * 2) * half) by (nonlinear_arith)
            requires
                half >= 1,
                d >= 1,
        ;
        d = d * 2;
        rest = rest / 2;
    }
    assert(d * 1 == d);
    let q: u128 = half_even_of(n as u128, d);
    assert(q * d <= 0x1_0000_0000_0000_0000);
    q * d
}

fn push_tenths(out: &mut String, t: u128)
    requires
        t / 10 <= u64::MAX,
    ensures
        final(out)@ == old(out)@ + tenths_text(t as nat),
{
    text::push_decimal(out, (t / 10) as u64);
    out.append(".");
    text::push_decimal(out, (t % 10) as u64);
    assert(out@ =~= old(out)@ + tenths_text(t as nat));
}

/// An amount of memory as text.
pub fn format_memory_usage(memory_bytes: Option<u64>) -> (r: String)
    ensures
        r@ == memory_text(memory_bytes),
{
    let bytes: u64 = match memory_bytes {
        Some(b) => b,
        None => return "—".to_owned(),
    };
    let n: u128 = nearest_of(bytes);
    let mut r: String = String::new();
    if n >= 0x4000_0000 {
        let t: u128 = half_even_of(10 * n, 0x4000_0000);
        assert(t / 10 <= u64::MAX) by {
            assert(10 * n / 0x4000_0000 <= 10 * n);
        }
        push_tenths(&mut r, t);
        r.append("GB");
    } else if n >= 0x10_0000 {
        let t: u128 = half_even_of(10 * n, 0x10_0000);
        push_tenths(&mut r, t);
        r.append("MB");
    } else if n >= 0x400 {
        let t: u128 = half_even_of(n, 0x400);
        text::push_decimal(&mut r, t as u64);
        r.append("KB");
    } else {
        text::push_decimal(&mut r, n as u64);
        r.append("B");
    }
    assert(r@ =~= memory_text(memory_bytes));
    r
}

/// The metrics column of a process row.
pub open spec fn metrics_text(p: ProcessInfo) -> Seq<char> {
    cpu_text(p.cpu_usage_tenths_percent) + " / "@ + memory_text(p.memory_bytes)
}

/// The metrics column of a process row.
pub fn format_process_metrics(process: &ProcessInfo) -> (r: String)
    ensures
        r@ == metrics_text(*process),
{
    let mut r: String = format_cpu_usage(process.cpu_usage_tenths_percent);
    r.append(" / ");
    let m: String = format_memory_usage(process.memory_bytes);
    r.append(m.as_str());
    assert(r@ =~= metrics_text(*process));
    r
}

/// Who listens: the name with the pid, or the pid alone where the process is not listed.
pub open spec fn owner_text(pid: u32, name: Option<Seq<char>>) -> Seq<char> {
    match name {
        Some(n) => n + "("@ + text::decimal(pid as nat) + ")"@,
        None => text::decimal(pid as nat),
    }
}

/// Who listens on a port.
pub fn listening_port_owner(pid: u32, process_name: Option<&str>) -> (r: String)
    ensures
        r@ == owner_text(
            pid,
            match process_name {
                Some(n) => Some(n@),
                None => None,
            },
        ),
{
    match process_name {
        Some(name) => {
            let mut r: String = name.to_owned();
            r.append("(");
            text::push_decimal(&mut r, pid as u64);
            r.append(")");
            assert(r@ =~= owner_text(pid, Some(name@)));
            r
        },
        None => text::decimal_text(pid as u64),
    }
}

/// A row of the ports section.
#[derive(Clone, Debug, PartialEq, Eq)]
pub struct PortRow {
    pub endpoint: String,
    pub owner: String,
}

/// The name of the first listed process with this pid.
pub open spec fn name_of_pid(ps: Seq<ProcessInfo>, pid: u32) -> Option<Seq<char>>
    decreases ps.len(),
{
    if ps.len() == 0 {
        None
    } else if ps[0].pid == pid {
        Some(ps[0].name@)
    } else {
        name_of_pid(ps.skip(1), pid)
    }
}

/// The texts of a port row: the endpoint, and who listens on it.
pub open spec fn port_row(i: SessionInspection, port: ListeningPort) -> (Seq<char>, Seq<char>) {
    (
        port.protocol@ + " "@ + port.address@ + ":"@ + text::decimal(port.port as nat),
        owner_text(port.pid, name_of_pid(i.processes@, port.pid)),
    )
}

fn find_name(ps: &Vec<ProcessInfo>, pid: u32) -> (r: Option<&str>)
    ensures
        name_of_pid(ps@, pid) == (match r {
            Some(n) => Some(n@),
            None => None,
        }),
{
    let mut i: usize = 0;
    assert(ps@.skip(0) =~= ps@);
    while i < ps.len()
        invariant
            i <= ps@.len(),
            name_of_pid(ps@, pid) == name_of_pid(ps@.skip(i as int), pid),
        decreases ps@.len() - i,
    {
        if ps[i].pid == pid {
            return Some(ps[i].name.as_str());
        }
        assert(ps@.skip(i as int).skip(1) =~= ps@.skip(i + 1));
        i = i + 1;
    }
    None
}

/// The rows of the ports section, or `None` where nothing listens and the section is left out.
pub fn ports_section(inspection: &SessionInspection) -> (r: Option<Vec<PortRow>>)
    ensures
        r is None <==> inspection.ports@.len() == 0,
        r is Some ==> r->0@.len() == inspection.ports@.len() && forall|i: int|
            0 <= i < r->0@.len() ==> port_row(*inspection, inspection.ports@[i]) == (
                (#[trigger] r->0@[i]).endpoint@,
                r->0@[i].owner@,
            ),
{
    if inspection.ports.len() == 0 {
        return None;
    }
    let mut rows: Vec<PortRow> = Vec::new();
    let mut i: usize = 0;
    while i < inspection.ports.len()
        invariant
            i <= inspection.ports@.len(),
            rows@.len() == i,
            forall|j: int|
                0 <= j < i ==> port_row(*inspection, inspection.ports@[j]) == (
                    (#[trigger] rows@[j]).endpoint@,
                    rows@[j].owner@,
                ),
        decreases inspection.ports@.len() - i,
    {
        let port: &ListeningPort = &inspection.ports[i];
        let mut endpoint: String = port.protocol.clone();
        endpoint.append(" ");
        endpoint.append(port.address.as_str());
        endpoint.append(":");
        text::push_decimal(&mut endpoint, port.port as u64);
        assert(endpoint@ =~= port_row(*inspection, *port).0);
        let owner: String = listening_port_owner(port.pid, find_name(&inspection.processes, port.pid));
        rows.push(PortRow { endpoint, owner });
        i = i + 1;
    }
    Some(rows)
}

/// A row of the processes section. A row of a root process has no context menu.
#[derive(Clone, Debug, PartialEq, Eq)]
pub struct ProcessRow {
    pub process_index: usize,
    pub branch_has_next: Vec<bool>,
    pub is_root: bool,
    pub pid_text: String,
    pub metrics: String,
}

/// Some process with this pid is the root of a tree.
pub open spec fn is_root_pid(ps: Seq<Node>, pid: u32) -> bool {
    exists|i: int| 0 <= i < ps.len() && (#[trigger] ps[i]).pid == pid && is_root(ps, i)
}

/// A row of the processes section shows the process at `row.index`.
pub open spec fn shows_process(ps: Seq<ProcessInfo>, row: Row, shown: ProcessRow) -> bool {
    &&& shown.process_index == row.index
    &&& shown.branch_has_next@ == row.branch
    &&& shown.is_root == is_root_pid(nodes(ps), ps[row.index].pid)
    &&& shown.pid_text@ == text::decimal(ps[row.index].pid as nat)
    &&& shown.metrics@ == metrics_text(ps[row.index])
}

fn names_root(ps: &[ProcessInfo], pid: u32) -> (r: bool)
    ensures
        r == is_root_pid(nodes(ps@), pid),
{
    let mut i: usize = 0;
    while i < ps.len()
        invariant
            i <= ps@.len(),
            forall|j: int|
                0 <= j < i && (#[trigger] nodes(ps@)[j]).pid == pid ==> !is_root(nodes(ps@), j),
        decreases ps@.len() - i,
    {
        if ps[i].pid == pid && is_tree_root(ps, i) {
            assert(nodes(ps@)[i as int].pid == pid);
            return true;
        }
        i = i + 1;
    }
    false
}

/// What stands below the heading of the processes section.
#[derive(Clone, Debug, PartialEq, Eq)]
pub enum ProcessSection {
    /// No process runs: what is said then.
    Empty(&'static str),
    /// The rows of the processes.
    Rows(Vec<ProcessRow>),
}

/// The section tells of the processes: a row for each, in the order of the tree, or that none runs.
pub open spec fn tells_processes(
    ps: Seq<ProcessInfo>,
    language: Language,
    section: ProcessSection,
) -> bool {
    match section {
        ProcessSection::Empty(note) => ps.len() == 0 && note@ == i18n::pick(
            language,
            "No running processes."@,
            "没有正在运行的进程。"@,
        ),
        ProcessSection::Rows(rows) => ps.len() > 0 && rows@.len() == ps.len() && forall|k: int|
            0 <= k < rows@.len() ==> shows_process(
                ps,
                process_tree(nodes(ps))[k],
                #[trigger] rows@[k],
            ),
    }
}

/// What stands below the heading of the processes section.
pub fn process_section(processes: &[ProcessInfo], language: Language) -> (r: ProcessSection)
    ensures
        tells_processes(processes@, language, r),
{
    if processes.len() == 0 {
        ProcessSection::Empty(language.no_running_processes())
    } else {
        ProcessSection::Rows(process_rows(processes))
    }
}

fn process_rows(processes: &[ProcessInfo]) -> (r: Vec<ProcessRow>)
    ensures
        r@.len() == processes@.len(),
        forall|k: int|
            0 <= k < r@.len() ==> shows_process(
                processes@,
                process_tree(nodes(processes@))[k],
                #[trigger] r@[k],
            ),
{
    let rows: Vec<ProcessTreeRow> = process_tree_rows(processes);
    proof {
        every_process_has_one_row(nodes(processes@));
    }
    let mut r: Vec<ProcessRow> = Vec::new();
    let mut k: usize = 0;
    while k < rows.len()
        invariant
            k <= rows@.len(),
            r@.len() == k,
            tree_rows(rows@) == process_tree(nodes(processes@)),
            well_formed_rows(nodes(processes@), tree_rows(rows@)),
            forall|j: int|
                0 <= j < k ==> shows_process(
                    processes@,
                    process_tree(nodes(processes@))[j],
                    #[trigger] r@[j],
                ),
        decreases rows@.len() - k,
    {
        assert(0 <= tree_rows(rows@)[k as int].index < processes@.len());
        let index: usize = rows[k].process_index;
        let process: &ProcessInfo = &processes[index];
        let branch: Vec<bool> = rows[k].branch_has_next.clone();
        assert(branch@ =~= rows@[k as int].branch_has_next@);
        r.push(
            ProcessRow {
                process_index: index,
                branch_has_next: branch,
                is_root: names_root(processes, process.pid),
                pid_text: text::decimal_text(process.pid as u64),
                metrics: format_process_metrics(process),
            },
        );
        k = k + 1;
    }
    r
}

/// Some metric of the process is not known yet.
pub open spec fn lacks_metrics(p: ProcessInfo) -> bool {
    p.cpu_usage_tenths_percent is None || p.memory_bytes is None
}

/// The processes whose metrics have to be sampled, in the order in which they are listed.
pub open spec fn unsampled(ps: Seq<ProcessInfo>) -> Seq<u32>
    decreases ps.len(),
{
    if ps.len() == 0 {
        seq![]
    } else if lacks_metrics(ps.last()) {
        unsampled(ps.drop_last()).push(ps.last().pid)
    } else {
        unsampled(ps.drop_last())
    }
}

/// The processes whose metrics have to be sampled.
pub fn pids_without_metrics(processes: &Vec<ProcessInfo>) -> (r: Vec<u32>)
    ensures
        r@ == unsampled(processes@),
{
    let mut r: Vec<u32> = Vec::new();
    let mut i: usize = 0;
    assert(processes@.take(0) =~= seq![]);
    while i < processes.len()
        invariant
            i <= processes@.len(),
            r@ == unsampled(processes@.take(i as int)),
        decreases processes@.len() - i,
    {
        assert(processes@.take(i + 1).drop_last() =~= processes@.take(i as int));
        if processes[i].cpu_usage_tenths_percent.is_none() || processes[i].memory_bytes.is_none() {
            r.push(processes[i].pid);
        }
        i = i + 1;
    }
    assert(processes@.take(i as int) =~= processes@);
    r
}

/// A sample of the metrics of a process: processor share in tenths of a percent, memory in bytes.
#[derive(Clone, Copy, Debug, PartialEq, Eq, Structural)]
pub struct MetricSample {
    pub cpu_usage_tenths_percent: u32,
    pub memory_bytes: u64,
}

/// `p` with its missing metrics taken from the sample; what is known stays.
pub open spec fn filled(p: ProcessInfo, sample: Option<MetricSample>) -> ProcessInfo {
    match sample {
        Some(s) => ProcessInfo {
            cpu_usage_tenths_percent: Some(
                match p.cpu_usage_tenths_percent {
                    Some(u) => u,
                    None => s.cpu_usage_tenths_percent,
                },
            ),
            memory_bytes: Some(
                match p.memory_bytes {
                    Some(b) => b,
                    None => s.memory_bytes,
                },
            ),
            ..p
        },
        None => p,
    }
}

/// Fills in missing metrics; `samples[i]` is the sample of the process at index `i`. Nothing
/// changes where no process lacks a metric.
pub fn fill_missing_process_metrics(
    processes: &mut Vec<ProcessInfo>,
    samples: &Vec<Option<MetricSample>>,
)
    requires
        samples@.len() == old(processes)@.len(),
    ensures
        final(processes)@.len() == old(processes)@.len(),
        forall|i: int|
            0 <= i < final(processes)@.len() ==> #[trigger] final(processes)@[i] == filled(
                old(processes)@[i],
                samples@[i],
            ),
{
    let mut i: usize = 0;
    while i < processes.len()
        invariant
            i <= processes@.len(),
            processes@.len() == old(processes)@.len(),
            samples@.len() == processes@.len(),
            forall|j: int|
                0 <= j < i ==> #[trigger] processes@[j] == filled(old(processes)@[j], samples@[j]),
            forall|j: int| i <= j < processes@.len() ==> #[trigger] processes@[j] == old(processes)@[j],
        decreases processes@.len() - i,
    {
        match samples[i] {
            Some(s) => {
                let p: &ProcessInfo = &processes[i];
                let next: ProcessInfo = ProcessInfo {
                    pid: p.pid,
                    parent_pid: p.parent_pid,
                    name: p.name.clone(),
                    cpu_usage_tenths_percent: Some(p.cpu_usage_tenths_percent.unwrap_or(s.cpu_usage_tenths_percent)),
                    memory_bytes: Some(p.memory_bytes.unwrap_or(s.memory_bytes)),
                };
                processes.set(i, next);
            },
            None => {},
        }
        i = i + 1;
    }
}

/// A process whose metrics are all known is left as it is, whatever was sampled.
pub proof fn known_metrics_stay(p: ProcessInfo, sample: Option<MetricSample>)
    requires
        !lacks_metrics(p),
    ensures
        filled(p, sample) == p,
{
}

/// A piece of the lines that join a process to its parent.
#[derive(Clone, Copy, Debug, PartialEq, Eq, Structural)]
pub enum Connector {
    /// No line.
    Blank,
    /// A line from top to bottom.
    Through,
    /// A line from top to bottom with an arm.
    Tee,
    /// A line from the top that turns into an arm.
    Corner,
}

/// The piece at a level of a row: at the row's own level it has an arm, and above it a line goes on
/// only where another process of that level follows.
pub open spec fn connector_at(branch_has_next: Seq<bool>, depth: int) -> Connector {
    if depth + 1 == branch_has_next.len() {
        if branch_has_next[depth] {
            Connector::Tee
        } else {
            Connector::Corner
        }
    } else if branch_has_next[depth] {
        Connector::Through
    } else {
        Connector::Blank
    }
}

/// The pieces in front of a row, one for each level.
pub fn process_tree_connector(branch_has_next: &Vec<bool>) -> (r: Vec<Connector>)
    ensures
        r@.len() == branch_has_next@.len(),
        forall|k: int|
            0 <= k < r@.len() ==> #[trigger] r@[k] == connector_at(branch_has_next@, k),
{
    let mut r: Vec<Connector> = Vec::new();
    let mut i: usize = 0;
    while i < branch_has_next.len()
        invariant
            i <= branch_has_next@.len(),
            r@.len() == i,
            forall|k: int| 0 <= k < i ==> #[trigger] r@[k] == connector_at(branch_has_next@, k),
        decreases branch_has_next@.len() - i,
    {
        let own: bool = i + 1 == branch_has_next.len();
        let piece: Connector = if own && branch_has_next[i] {
            Connector::Tee
        } else if own {
            Connector::Corner
        } else if branch_has_next[i] {
            Connector::Through
        } else {
            Connector::Blank
        };
        r.push(piece);
        i = i + 1;
    }
    r
}

/// A process as a mathematical value.
pub struct ProcessView {
    pub pid: u32,
    pub parent_pid: Option<u32>,
    pub name: Seq<char>,
    pub cpu_usage_tenths_percent: Option<u32>,
    pub memory_bytes: Option<u64>,
}

pub open spec fn process_view(p: ProcessInfo) -> ProcessView {
    ProcessView {
        pid: p.pid,
        parent_pid: p.parent_pid,
        name: p.name@,
        cpu_usage_tenths_percent: p.cpu_usage_tenths_percent,
        memory_bytes: p.memory_bytes,
    }
}

pub open spec fn process_views(v: Seq<ProcessInfo>) -> Seq<ProcessView> {
    v.map_values(|p: ProcessInfo| process_view(p))
}

/// A listening port as a mathematical value.
pub struct PortView {
    pub pid: u32,
    pub protocol: Seq<char>,
    pub address: Seq<char>,
    pub port: u16,
}

pub open spec fn port_view(p: ListeningPort) -> PortView {
    PortView { pid: p.pid, protocol: p.protocol@, address: p.address@, port: p.port }
}

pub open spec fn port_views(v: Seq<ListeningPort>) -> Seq<PortView> {
    v.map_values(|p: ListeningPort| port_view(p))
}

/// The two say the same of the same session.
pub open spec fn same_findings(a: SessionInspection, b: SessionInspection) -> bool {
    &&& a.session_id == b.session_id
    &&& process_views(a.processes@) == process_views(b.processes@)
    &&& port_views(a.ports@) == port_views(b.ports@)
}

fn same_processes(a: &Vec<ProcessInfo>, b: &Vec<ProcessInfo>) -> (r: bool)
    ensures
        r == (process_views(a@) == process_views(b@)),
{
    if a.len() != b.len() {
        assert(process_views(a@).len() != process_views(b@).len());
        return false;
    }
    let mut i: usize = 0;
    while i < a.len()
        invariant
            i <= a@.len() == b@.len(),
            forall|j: int| 0 <= j < i ==> process_view(a@[j]) == process_view(b@[j]),
        decreases a@.len() - i,
    {
        let x: &ProcessInfo = &a[i];
        let y: &ProcessInfo = &b[i];
        if !(x.pid == y.pid && x.parent_pid == y.parent_pid && x.cpu_usage_tenths_percent
            == y.cpu_usage_tenths_percent && x.memory_bytes == y.memory_bytes && text::text_eq(
            x.name.as_str(),
            y.name.as_str(),
        )) {
            assert(process_views(a@)[i as int] != process_views(b@)[i as int]);
            return false;
        }
        i = i + 1;
    }
    assert(process_views(a@) =~= process_views(b@));
    true
}

fn same_ports(a: &Vec<ListeningPort>, b: &Vec<ListeningPort>) -> (r: bool)
    ensures
        r == (port_views(a@) == port_views(b@)),
{
    if a.len() != b.len() {
        assert(port_views(a@).len() != port_views(b@).len());
        return false;
    }
    let mut i: usize = 0;
    while i < a.len()
        invariant
            i <= a@.len() == b@.len(),
            forall|j: int| 0 <= j < i ==> port_view(a@[j]) == port_view(b@[j]),
        decreases a@.len() - i,
    {
        let x: &ListeningPort = &a[i];
        let y: &ListeningPort = &b[i];
        if !(x.pid == y.pid && x.port == y.port && text::text_eq(
            x.protocol.as_str(),
            y.protocol.as_str(),
        ) && text::text_eq(x.address.as_str(), y.address.as_str())) {
            assert(port_views(a@)[i as int] != port_views(b@)[i as int]);
            return false;
        }
        i = i + 1;
    }
    assert(port_views(a@) =~= port_views(b@));
    true
}

/// Whether two inspections say the same of the same session.
pub fn same_inspection(a: &SessionInspection, b: &SessionInspection) -> (r: bool)
    ensures
        r == same_findings(*a, *b),
{
    a.session_id == b.session_id && same_processes(&a.processes, &b.processes) && same_ports(
        &a.ports,
        &b.ports,
    )
}

/// Row `j` is the parent of row `k`: it stands above it, one level up, all rows between them are at least
/// as deep as row `k`, and those of its depth have a further sibling.
pub open spec fn stands_under(ps: Seq<Node>, rows: Seq<Row>, i: int, branch: Seq<bool>, k: int, j: int) -> bool {
    &&& 0 <= j < k
    &&& rows[j].branch == branch.drop_last()
    &&& ps[i].parent == Some(ps[rows[j].index].pid)
    &&& forall|m: int|
        j < m < k ==> (#[trigger] rows[m]).branch.len() >= branch.len() && (rows[m].branch.len()
            == branch.len() ==> rows[m].branch.last())
}

/// An indented row stands directly in the tree of its parent, and is marked as followed by a sibling
/// exactly where it is not the last child of that parent.
pub open spec fn stands_in_tree(ps: Seq<Node>, rows: Seq<Row>, i: int, branch: Seq<bool>, k: int) -> bool {
    branch.len() > 0 ==> (exists|j: int| #[trigger] stands_under(ps, rows, i, branch, k, j))
        && ps[i].parent is Some && branch.last() == (children(ps, ps[i].parent->0).last() != i)
}

spec fn all_in_tree(ps: Seq<Node>, rows: Seq<Row>) -> bool {
    forall|k: int|
        0 <= k < rows.len() ==> stands_in_tree(
            ps,
            rows,
            (#[trigger] rows[k]).index,
            rows[k].branch,
            k,
        )
}

proof fn standing_under_is_kept(
    ps: Seq<Node>,
    rows: Seq<Row>,
    more: Seq<Row>,
    i: int,
    branch: Seq<bool>,
    k: int,
    j: int,
)
    requires
        extends(more, rows),
        k <= rows.len(),
        stands_under(ps, rows, i, branch, k, j),
    ensures
        stands_under(ps, more, i, branch, k, j),
{
    assert forall|m: int| 0 <= m < rows.len() implies more[m] == rows[m] by {
        assert(more.take(rows.len() as int)[m] == rows[m]);
    }
    assert(more[j] == rows[j]);
    assert forall|m: int| j < m < k implies (#[trigger] more[m]).branch.len() >= branch.len() && (
    more[m].branch.len() == branch.len() ==> more[m].branch.last()) by {
        assert(more[m] == rows[m]);
    }
}

proof fn one_more_row_is_well_formed(ps: Seq<Node>, rows: Seq<Row>, i: int, branch: Seq<bool>)
    requires
        well_formed_rows(ps, rows),
        0 <= i < ps.len(),
        !listed(rows, i),
    ensures
        well_formed_rows(ps, rows.push(Row { index: i, branch })),
        extends(rows.push(Row { index: i, branch }), rows),
{
    let more = rows.push(Row { index: i, branch });
    assert forall|j: int, k: int| 0 <= j < k < more.len() implies (#[trigger] more[j]).index != (
    #[trigger] more[k]).index by {
        if k < rows.len() {
            assert(rows[j].index != rows[k].index);
        } else {
            assert(rows[j].index != i);
        }
    }
    assert(more.take(rows.len() as int) =~= rows);
}

proof fn the_children_are_selected(ps: Seq<Node>, pid: u32)
    ensures
        children(ps, pid).no_duplicates(),
        forall|k: int|
            0 <= k < children(ps, pid).len() ==> 0 <= #[trigger] children(ps, pid)[k] < ps.len()
                && is_child(ps, children(ps, pid)[k], pid),
        forall|y: int|
            0 <= y < ps.len() && is_child(ps, y, pid) ==> #[trigger] children(ps, pid).contains(y),
{
    let keep = |x: int| is_child(ps, x, pid);
    in_order_is_sorted_selection(ps, keep, ps.len() as int);
    assert forall|k: int| 0 <= k < children(ps, pid).len() implies 0 <= #[trigger] children(
        ps,
        pid,
    )[k] < ps.len() && is_child(ps, children(ps, pid)[k], pid) by {
        selection_is_listed(ps, keep, ps.len() as int, k);
    }
}

proof fn visit_stays_in_tree(ps: Seq<Node>, i: int, branch: Seq<bool>, rows: Seq<Row>, parent: int)
    requires
        well_formed_rows(ps, rows),
        0 <= i < ps.len(),
        all_in_tree(ps, rows),
        branch.len() > 0 ==> stands_under(ps, rows, i, branch, rows.len() as int, parent)
            && branch.last() == (children(ps, ps[i].parent->0).last() != i),
    ensures
        ({
            let r = visit(ps, i, branch, rows);
            &&& all_in_tree(ps, r)
            &&& forall|m: int|
                rows.len() <= m < r.len() ==> (#[trigger] r[m]).branch.len() >= branch.len() && (
                r[m].branch.len() == branch.len() ==> r[m] == (Row { index: i, branch }))
            &&& r.len() > rows.len() ==> r[rows.len() as int] == (Row { index: i, branch })
        }),
    decreases room(ps, rows), 0nat,
{
    if !listed(rows, i) {
        unlisted_process_fits(ps, rows, i);
        let first = rows.push(Row { index: i, branch });
        one_more_row_is_well_formed(ps, rows, i, branch);
        let pid = ps[i].pid;
        the_children_are_selected(ps, pid);
        let siblings = children(ps, pid);
        assert forall|k: int| 0 <= k < first.len() implies stands_in_tree(
            ps,
            first,
            (#[trigger] first[k]).index,
            first[k].branch,
            k,
        ) by {
            if k < rows.len() {
                assert(first[k] == rows[k]);
                assert(stands_in_tree(ps, rows, rows[k].index, rows[k].branch, k));
                if rows[k].branch.len() > 0 {
                    let j = choose|j: int| #[trigger]
                        stands_under(ps, rows, rows[k].index, rows[k].branch, k, j);
                    standing_under_is_kept(
                        ps,
                        rows,
                        first,
                        rows[k].index,
                        rows[k].branch,
                        k,
                        j,
                    );
                }
            } else if branch.len() > 0 {
                standing_under_is_kept(ps, rows, first, i, branch, k, parent);
            }
        }
        let p = rows.len() as int;
        visit_below_stays_in_tree(ps, siblings, 0, branch, first, p);
        visit_below_extends(ps, siblings, 0, branch, first);
        let r = visit(ps, i, branch, rows);
        assert(r.take(first.len() as int)[p] == first[p]);
        assert(r[p] == first[p]);
    }
}

proof fn visit_below_stays_in_tree(
    ps: Seq<Node>,
    siblings: Seq<int>,
    at: int,
    branch: Seq<bool>,
    rows: Seq<Row>,
    parent: int,
)
    requires
        well_formed_rows(ps, rows),
        0 <= at <= siblings.len(),
        all_in_tree(ps, rows),
        0 <= parent < rows.len(),
        rows[parent].branch == branch,
        siblings == children(ps, ps[rows[parent].index].pid),
        forall|m: int|
            parent < m < rows.len() ==> (#[trigger] rows[m]).branch.len() > branch.len(),
        at < siblings.len() ==> forall|m: int|
            parent < m < rows.len() && (#[trigger] rows[m]).branch.len() == branch.len() + 1
                ==> rows[m].branch.last(),
    ensures
        ({
            let r = visit_below(ps, siblings, at, branch, rows);
            &&& all_in_tree(ps, r)
            &&& forall|m: int|
                parent < m < r.len() ==> (#[trigger] r[m]).branch.len() > branch.len()
        }),
    decreases room(ps, rows), siblings.len() - at + 1,
{
    let pid = ps[rows[parent].index].pid;
    the_children_are_selected(ps, pid);
    if at < siblings.len() {
        let i = siblings[at];
        let flag = at + 1 < siblings.len();
        let mark = branch.push(flag);
        assert(mark.drop_last() =~= branch);
        assert(is_child(ps, i, pid));
        assert(mark.last() == (siblings.last() != i)) by {
            assert(siblings.last() == siblings[siblings.len() - 1]);
        }
        assert(stands_under(ps, rows, i, mark, rows.len() as int, parent));
        visit_extends(ps, i, mark, rows);
        visit_stays_in_tree(ps, i, mark, rows, parent);
        let next = visit(ps, i, mark, rows);
        assert forall|m: int| 0 <= m < rows.len() implies next[m] == rows[m] by {
            assert(next.take(rows.len() as int)[m] == rows[m]);
        }
        assert(next[parent] == rows[parent]);
        assert forall|m: int| parent < m < next.len() implies (#[trigger] next[m]).branch.len()
            > branch.len() by {
            if m < rows.len() {
                assert(next[m] == rows[m]);
            }
        }
        if at + 1 < siblings.len() {
            assert forall|m: int|
                parent < m < next.len() && (#[trigger] next[m]).branch.len() == branch.len()
                    + 1 implies next[m].branch.last() by {
                if m < rows.len() {
                    assert(next[m] == rows[m]);
                } else {
                    assert(next[m] == Row { index: i, branch: mark });
                }
            }
        }
        visit_below_stays_in_tree(ps, siblings, at + 1, branch, next, parent);
    }
}

proof fn visit_trees_stays_in_tree(ps: Seq<Node>, starts: Seq<int>, at: int, rows: Seq<Row>)
    requires
        well_formed_rows(ps, rows),
        0 <= at <= starts.len(),
        all_in_tree(ps, rows),
        forall|k: int| 0 <= k < starts.len() ==> 0 <= #[trigger] starts[k] < ps.len(),
    ensures
        all_in_tree(ps, visit_trees(ps, starts, at, rows)),
    decreases starts.len() - at,
{
    if at < starts.len() {
        visit_extends(ps, starts[at], seq![], rows);
        visit_stays_in_tree(ps, starts[at], seq![], rows, 0);
        visit_trees_stays_in_tree(ps, starts, at + 1, visit(ps, starts[at], seq![], rows));
    }
}

/// The rows show a tree: every indented row stands below its parent, one level deeper, with nothing but
/// the descendants of that parent between them, and it is marked as followed by a sibling exactly where
/// it is not the last child.
pub proof fn the_rows_show_a_tree(ps: Seq<Node>, k: int)
    requires
        0 <= k < process_tree(ps).len(),
    ensures
        stands_in_tree(ps, process_tree(ps), process_tree(ps)[k].index, process_tree(ps)[k].branch, k),
{
    selections_are_listed(ps, |i: int| is_root(ps, i));
    visit_trees_extends(ps, roots(ps), 0, seq![]);
    visit_trees_stays_in_tree(ps, roots(ps), 0, seq![]);
    let rooted = rooted_rows(ps);
    let keep = |i: int| !listed(rooted, i);
    selections_are_listed(ps, keep);
    visit_trees_stays_in_tree(ps, in_order(ps, keep, ps.len() as int), 0, rooted);
    let r = process_tree(ps);
    assert(r[k].index == r[k].index);
}

/// The children of a process are exactly those that name it as their parent; each is listed once, the
/// smaller number first.
pub proof fn children_name_their_parent(ps: Seq<Node>, pid: u32, y: int, a: int, b: int)
    ensures
        children(ps, pid).contains(y) <==> (0 <= y < ps.len() && ps[y].parent == Some(pid)
            && ps[y].pid != pid && exists|k: int|
            0 <= k < ps.len() && (#[trigger] ps[k]).pid == pid),
        children(ps, pid).no_duplicates(),
        0 <= a < b < children(ps, pid).len() ==> ps[children(ps, pid)[a]].pid
            <= ps[children(ps, pid)[b]].pid,
{
    let keep = |x: int| is_child(ps, x, pid);
    in_order_is_sorted_selection(ps, keep, ps.len() as int);
    if has_pid(ps, pid) {
        let k = choose|k: int| 0 <= k < ps.len() && #[trigger] ps[k].pid == pid;
        assert(ps[k].pid == pid);
    }
    if 0 <= a < b < children(ps, pid).len() {
        let c = children(ps, pid);
        assert(shown_before(ps, c[a], c[b]));
    }
}

/// A process is the root of a tree exactly where it has no parent, is its own, or its parent is not
/// there. The roots are listed once each, the smaller number first.
pub proof fn roots_have_no_parent_there(ps: Seq<Node>, y: int, a: int, b: int)
    ensures
        roots(ps).contains(y) <==> (0 <= y < ps.len() && (ps[y].parent is None || ps[y].parent
            == Some(ps[y].pid) || !exists|k: int|
            0 <= k < ps.len() && (#[trigger] ps[k]).pid == ps[y].parent->0)),
        roots(ps).no_duplicates(),
        0 <= a < b < roots(ps).len() ==> ps[roots(ps)[a]].pid <= ps[roots(ps)[b]].pid,
{
    let keep = |i: int| is_root(ps, i);
    in_order_is_sorted_selection(ps, keep, ps.len() as int);
    if 0 <= y < ps.len() && ps[y].parent is Some {
        let p = ps[y].parent->0;
        if has_pid(ps, p) {
            let k = choose|k: int| 0 <= k < ps.len() && #[trigger] ps[k].pid == p;
            assert(ps[k].pid == p);
        }
    }
    if 0 <= a < b < roots(ps).len() {
        let c = roots(ps);
        assert(shown_before(ps, c[a], c[b]));
    }
}

/// A smaller number comes first; of two with the same number the name decides.
pub proof fn smaller_numbers_come_first(ps: Seq<Node>, i: int, j: int)
    ensures
        ps[i].pid < ps[j].pid ==> shown_before(ps, i, j) && !shown_before(ps, j, i),
        ps[i].pid == ps[j].pid ==> shown_before(ps, i, j) == text::text_le(ps[i].name, ps[j].name),
{
}

spec fn lists_children(ps: Seq<Node>, rows: Seq<Row>, from: int) -> bool {
    forall|k: int, c: int|
        from <= k < rows.len() && 0 <= c < ps.len() && #[trigger] is_child(
            ps,
            c,
            ps[(#[trigger] rows[k]).index].pid,
        ) ==> listed(rows, c)
}

proof fn visit_lists_children(ps: Seq<Node>, i: int, branch: Seq<bool>, rows: Seq<Row>)
    requires
        well_formed_rows(ps, rows),
        0 <= i < ps.len(),
    ensures
        lists_children(ps, visit(ps, i, branch, rows), rows.len() as int),
    decreases room(ps, rows), 0nat,
{
    if !listed(rows, i) {
        unlisted_process_fits(ps, rows, i);
        let first = rows.push(Row { index: i, branch });
        one_more_row_is_well_formed(ps, rows, i, branch);
        let pid = ps[i].pid;
        the_children_are_selected(ps, pid);
        let siblings = children(ps, pid);
        visit_below_lists_children(ps, siblings, 0, branch, first);
        visit_below_extends(ps, siblings, 0, branch, first);
        let r = visit(ps, i, branch, rows);
        assert forall|k: int, c: int|
            rows.len() <= k < r.len() && 0 <= c < ps.len() && #[trigger] is_child(
                ps,
                c,
                ps[(#[trigger] r[k]).index].pid,
            ) implies listed(r, c) by {
            if k == rows.len() {
                assert(r.take(first.len() as int)[k] == first[k]);
                assert(siblings.contains(c));
                let q = siblings.index_of(c);
                assert(listed(r, siblings[q]));
            }
        }
    }
}

proof fn visit_below_lists_children(
    ps: Seq<Node>,
    siblings: Seq<int>,
    at: int,
    branch: Seq<bool>,
    rows: Seq<Row>,
)
    requires
        well_formed_rows(ps, rows),
        0 <= at <= siblings.len(),
        forall|k: int| 0 <= k < siblings.len() ==> 0 <= #[trigger] siblings[k] < ps.len(),
    ensures
        lists_children(ps, visit_below(ps, siblings, at, branch, rows), rows.len() as int),
        forall|k: int|
            at <= k < siblings.len() ==> listed(
                visit_below(ps, siblings, at, branch, rows),
                #[trigger] siblings[k],
            ),
    decreases room(ps, rows), siblings.len() - at + 1,
{
    if at < siblings.len() {
        let mark = branch.push(at + 1 < siblings.len());
        visit_extends(ps, siblings[at], mark, rows);
        visit_lists_children(ps, siblings[at], mark, rows);
        let next = visit(ps, siblings[at], mark, rows);
        visit_below_lists_children(ps, siblings, at + 1, branch, next);
        visit_below_extends(ps, siblings, at + 1, branch, next);
        let r = visit_below(ps, siblings, at, branch, rows);
        extension_keeps_listed(r, next, siblings[at]);
        assert forall|k: int, c: int|
            rows.len() <= k < r.len() && 0 <= c < ps.len() && #[trigger] is_child(
                ps,
                c,
                ps[(#[trigger] r[k]).index].pid,
            ) implies listed(r, c) by {
            if k < next.len() {
                assert(r.take(next.len() as int)[k] == next[k]);
                assert(listed(next, c));
                extension_keeps_listed(r, next, c);
            }
        }
    }
}

proof fn visit_trees_lists_children(ps: Seq<Node>, starts: Seq<int>, at: int, rows: Seq<Row>)
    requires
        well_formed_rows(ps, rows),
        0 <= at <= starts.len(),
        forall|k: int| 0 <= k < starts.len() ==> 0 <= #[trigger] starts[k] < ps.len(),
        lists_children(ps, rows, 0),
    ensures
        lists_children(ps, visit_trees(ps, starts, at, rows), 0),
    decreases starts.len() - at,
{
    if at < starts.len() {
        let next = visit(ps, starts[at], seq![], rows);
        visit_extends(ps, starts[at], seq![], rows);
        visit_lists_children(ps, starts[at], seq![], rows);
        assert forall|k: int, c: int|
            0 <= k < next.len() && 0 <= c < ps.len() && #[trigger] is_child(
                ps,
                c,
                ps[(#[trigger] next[k]).index].pid,
            ) implies listed(next, c) by {
            if k < rows.len() {
                assert(next.take(rows.len() as int)[k] == rows[k]);
                assert(listed(rows, c));
                extension_keeps_listed(next, rows, c);
            }
        }
        visit_trees_lists_children(ps, starts, at + 1, next);
    }
}

/// The process hangs from a root in so many steps: it is one, or its parent hangs from one.
pub open spec fn hangs_from_root(ps: Seq<Node>, i: int, steps: nat) -> bool
    decreases steps,
{
    ||| ps[i].parent is None
    ||| ps[i].parent == Some(ps[i].pid)
    ||| !has_pid(ps, ps[i].parent->0)
    ||| steps > 0 && exists|p: int|
        0 <= p < ps.len() && ps[i].parent == Some((#[trigger] ps[p]).pid) && hangs_from_root(
            ps,
            p,
            (steps - 1) as nat,
        )
}

proof fn what_hangs_from_a_root_is_rooted(ps: Seq<Node>, i: int, steps: nat)
    requires
        0 <= i < ps.len(),
        hangs_from_root(ps, i, steps),
    ensures
        listed(rooted_rows(ps), i),
    decreases steps,
{
    let keep = |x: int| is_root(ps, x);
    selections_are_listed(ps, keep);
    visit_trees_extends(ps, roots(ps), 0, seq![]);
    visit_trees_lists_children(ps, roots(ps), 0, seq![]);
    let rows = rooted_rows(ps);
    if is_root(ps, i) {
        in_order_is_sorted_selection(ps, keep, ps.len() as int);
        assert(roots(ps).contains(i));
        let k = roots(ps).index_of(i);
        assert(listed(rows, roots(ps)[k]));
    } else {
        let p = choose|p: int|
            0 <= p < ps.len() && ps[i].parent == Some((#[trigger] ps[p]).pid) && hangs_from_root(
                ps,
                p,
                (steps - 1) as nat,
            );
        what_hangs_from_a_root_is_rooted(ps, p, (steps - 1) as nat);
        let k = choose|k: int| 0 <= k < rows.len() && #[trigger] rows[k].index == p;
        assert(is_child(ps, i, ps[rows[k].index].pid));
    }
}

spec fn only_starts_are_bare(rows: Seq<Row>, starts: Seq<int>) -> bool {
    forall|k: int|
        0 <= k < rows.len() && (#[trigger] rows[k]).branch.len() == 0 ==> starts.contains(
            rows[k].index,
        )
}

proof fn visit_trees_bares_only_starts(ps: Seq<Node>, starts: Seq<int>, at: int, rows: Seq<Row>)
    requires
        well_formed_rows(ps, rows),
        0 <= at <= starts.len(),
        all_in_tree(ps, rows),
        forall|k: int| 0 <= k < starts.len() ==> 0 <= #[trigger] starts[k] < ps.len(),
        only_starts_are_bare(rows, starts),
    ensures
        only_starts_are_bare(visit_trees(ps, starts, at, rows), starts),
    decreases starts.len() - at,
{
    if at < starts.len() {
        let next = visit(ps, starts[at], seq![], rows);
        visit_extends(ps, starts[at], seq![], rows);
        visit_stays_in_tree(ps, starts[at], seq![], rows, 0);
        assert(starts.contains(starts[at]));
        assert forall|k: int|
            0 <= k < next.len() && (#[trigger] next[k]).branch.len() == 0 implies starts.contains(
            next[k].index,
        ) by {
            if k < rows.len() {
                assert(next.take(rows.len() as int)[k] == rows[k]);
            }
        }
        visit_trees_bares_only_starts(ps, starts, at + 1, next);
    }
}

/// Of the processes that hang from a root, exactly the roots are not indented.
pub proof fn exactly_the_roots_are_not_indented(ps: Seq<Node>, k: int, steps: nat)
    requires
        0 <= k < process_tree(ps).len(),
        0 <= process_tree(ps)[k].index < ps.len(),
        hangs_from_root(ps, process_tree(ps)[k].index, steps),
    ensures
        process_tree(ps)[k].branch.len() == 0 <==> (ps[process_tree(ps)[k].index].parent is None
            || ps[process_tree(ps)[k].index].parent == Some(ps[process_tree(ps)[k].index].pid)
            || !has_pid(ps, ps[process_tree(ps)[k].index].parent->0)),
{
    let r = process_tree(ps);
    let i = r[k].index;
    let keep = |x: int| is_root(ps, x);
    selections_are_listed(ps, keep);
    visit_trees_extends(ps, roots(ps), 0, seq![]);
    visit_trees_stays_in_tree(ps, roots(ps), 0, seq![]);
    visit_trees_bares_only_starts(ps, roots(ps), 0, seq![]);
    in_order_is_sorted_selection(ps, keep, ps.len() as int);
    let rooted = rooted_rows(ps);
    what_hangs_from_a_root_is_rooted(ps, i, steps);
    every_process_has_one_row(ps);
    let rest = in_order(ps, |x: int| !listed(rooted, x), ps.len() as int);
    selections_are_listed(ps, |x: int| !listed(rooted, x));
    visit_trees_extends(ps, rest, 0, rooted);
    let q = choose|q: int| 0 <= q < rooted.len() && #[trigger] rooted[q].index == i;
    assert(r.take(rooted.len() as int)[q] == rooted[q]);
    assert(r[q].index == i);
    if q < k {
        assert(r[q].index != r[k].index);
    } else if k < q {
        assert(r[k].index != r[q].index);
    }
    assert(rooted[q] == r[k]);
    if r[k].branch.len() == 0 {
        assert(roots(ps).contains(rooted[q].index));
    } else {
        assert(stands_in_tree(ps, rooted, rooted[q].index, rooted[q].branch, q));
        let j = choose|j: int| #[trigger]
            stands_under(ps, rooted, rooted[q].index, rooted[q].branch, q, j);
        assert(0 <= rooted[j].index < ps.len());
        the_children_are_selected(ps, ps[rooted[j].index].pid);
        rows_below_are_children(ps, q);
    }
}

spec fn indented_are_children(ps: Seq<Node>, rows: Seq<Row>) -> bool {
    forall|k: int|
        0 <= k < rows.len() && (#[trigger] rows[k]).branch.len() > 0 ==> !is_root(
            ps,
            rows[k].index,
        )
}

proof fn visit_indents_children(ps: Seq<Node>, i: int, branch: Seq<bool>, rows: Seq<Row>)
    requires
        well_formed_rows(ps, rows),
        0 <= i < ps.len(),
        indented_are_children(ps, rows),
        branch.len() > 0 ==> !is_root(ps, i),
    ensures
        indented_are_children(ps, visit(ps, i, branch, rows)),
    decreases room(ps, rows), 0nat,
{
    if !listed(rows, i) {
        unlisted_process_fits(ps, rows, i);
        let first = rows.push(Row { index: i, branch });
        one_more_row_is_well_formed(ps, rows, i, branch);
        the_children_are_selected(ps, ps[i].pid);
        let siblings = children(ps, ps[i].pid);
        assert forall|k: int| 0 <= k < siblings.len() implies 0 <= #[trigger] siblings[k] < ps.len()
            && !is_root(ps, siblings[k]) by {
            assert(is_child(ps, siblings[k], ps[i].pid));
        }
        visit_below_indents_children(ps, siblings, 0, branch, first);
    }
}

proof fn visit_below_indents_children(
    ps: Seq<Node>,
    siblings: Seq<int>,
    at: int,
    branch: Seq<bool>,
    rows: Seq<Row>,
)
    requires
        well_formed_rows(ps, rows),
        0 <= at <= siblings.len(),
        indented_are_children(ps, rows),
        forall|k: int|
            0 <= k < siblings.len() ==> 0 <= #[trigger] siblings[k] < ps.len() && !is_root(
                ps,
                siblings[k],
            ),
    ensures
        indented_are_children(ps, visit_below(ps, siblings, at, branch, rows)),
    decreases room(ps, rows), siblings.len() - at + 1,
{
    if at < siblings.len() {
        let mark = branch.push(at + 1 < siblings.len());
        visit_extends(ps, siblings[at], mark, rows);
        visit_indents_children(ps, siblings[at], mark, rows);
        visit_below_indents_children(
            ps,
            siblings,
            at + 1,
            branch,
            visit(ps, siblings[at], mark, rows),
        );
    }
}

proof fn visit_trees_indents_children(ps: Seq<Node>, starts: Seq<int>, at: int, rows: Seq<Row>)
    requires
        well_formed_rows(ps, rows),
        0 <= at <= starts.len(),
        indented_are_children(ps, rows),
        forall|k: int| 0 <= k < starts.len() ==> 0 <= #[trigger] starts[k] < ps.len(),
    ensures
        indented_are_children(ps, visit_trees(ps, starts, at, rows)),
    decreases starts.len() - at,
{
    if at < starts.len() {
        visit_extends(ps, starts[at], seq![], rows);
        visit_indents_children(ps, starts[at], seq![], rows);
        visit_trees_indents_children(ps, starts, at + 1, visit(ps, starts[at], seq![], rows));
    }
}

proof fn rows_below_are_children(ps: Seq<Node>, q: int)
    requires
        0 <= q < rooted_rows(ps).len(),
        rooted_rows(ps)[q].branch.len() > 0,
    ensures
        !is_root(ps, rooted_rows(ps)[q].index),
{
    selections_are_listed(ps, |x: int| is_root(ps, x));
    visit_trees_indents_children(ps, roots(ps), 0, seq![]);
}

/// A share of the processor is told in percent with one digit behind the point; one that is not known by
/// a dash.
pub proof fn a_share_is_told_in_percent(tenths: u32)
    ensures
        cpu_text(None) == seq!['—'],
        ({
            let told = cpu_text(Some(tenths));
            let n = told.len();
            &&& n >= 4
            &&& told[n - 1] == '%'
            &&& told[n - 3] == '.'
            &&& text::number_of(told.take(n - 3).push(told[n - 2])) == tenths
        }),
{
    reveal_strlit("—");
    reveal_strlit(".");
    reveal_strlit("%");
    assert("—"@ =~= seq!['—']);
    let whole = text::decimal((tenths / 10) as nat);
    let part = text::decimal((tenths % 10) as nat);
    text::a_decimal_form_reads_as_its_number((tenths / 10) as nat);
    text::a_decimal_form_reads_as_its_number((tenths % 10) as nat);
    let told = cpu_text(Some(tenths));
    assert(part.len() == 1);
    let n = told.len();
    let digits = told.take(n - 3).push(told[n - 2]);
    assert(digits =~= whole.push(part[0]));
    assert(digits.drop_last() =~= whole);
    assert(part.drop_last() =~= seq![]);
    assert(text::number_of(part.drop_last()) == 0);
    assert(text::number_of(part) == part.last() as int - '0' as int);
    assert(tenths == 10 * (tenths / 10) + tenths % 10);
}

/// Rounding goes to the nearest whole number, and from the middle to the even one.
pub proof fn rounding_goes_to_the_nearest(n: nat, d: nat)
    requires
        d > 0,
    ensures
        2 * (half_even(n, d) * d) <= 2 * n + d,
        2 * (half_even(n, d) * d) + d >= 2 * n,
        2 * (half_even(n, d) * d) == 2 * n + d || 2 * (half_even(n, d) * d) + d == 2 * n
            ==> half_even(n, d) % 2 == 0,
        n % d == 0 ==> half_even(n, d) * d == n,
{
    let q = n / d;
    let r = n % d;
    vstd::arithmetic::div_mod::lemma_fundamental_div_mod(n as int, d as int);
    assert(d * q == q * d) by (nonlinear_arith);
    assert((q + 1) * d == q * d + d) by (nonlinear_arith);
    assert(r < d);
}

/// Sizes below 2^53 bytes are told exactly: in bytes below 1024, in whole kilobytes below a megabyte, and
/// above that in megabytes or gigabytes with one digit behind the point, rounded to the nearest. A size
/// that is not known is told by a dash.
pub proof fn a_size_is_told_in_its_unit(bytes: u64)
    requires
        bytes < 0x20_0000_0000_0000,
    ensures
        memory_text(None) == seq!['—'],
        bytes < 1024 ==> memory_text(Some(bytes)) == text::decimal(bytes as nat) + "B"@,
        1024 <= bytes < 1048576 ==> memory_text(Some(bytes)) == text::decimal(
            half_even(bytes as nat, 1024),
        ) + "KB"@,
        1048576 <= bytes < 1073741824 ==> ({
            let t = half_even(10 * bytes as nat, 1048576);
            memory_text(Some(bytes)) == text::decimal(t / 10) + "."@ + text::decimal(t % 10) + "MB"@
        }),
        1073741824 <= bytes ==> ({
            let t = half_even(10 * bytes as nat, 1073741824);
            memory_text(Some(bytes)) == text::decimal(t / 10) + "."@ + text::decimal(t % 10) + "GB"@
        }),
{
    reveal_strlit("—");
    assert("—"@ =~= seq!['—']);
    let n = bytes as nat;
    assert(spacing(n) == 1);
    rounding_goes_to_the_nearest(n, 1);
    assert(half_even(n, 1) == n) by {
        assert(n % 1 == 0);
    }
    assert(nearest(n) == n);
}

/// Sizes from 2^53 bytes on are rounded to a multiple of a power of two.
pub proof fn great_sizes_are_rounded(n: nat)
    ensures
        n < 0x20_0000_0000_0000 ==> spacing(n) == 1,
        n >= 0x20_0000_0000_0000 ==> spacing(n) == 2 * spacing(n / 2),
        nearest(n) == half_even(n, spacing(n)) * spacing(n),
{
}

/// The row of a process tells its share of the processor and its size, with a slash between them.
pub proof fn metrics_are_told_side_by_side(p: ProcessInfo)
    ensures
        metrics_text(p) == cpu_text(p.cpu_usage_tenths_percent) + " / "@ + memory_text(
            p.memory_bytes,
        ),
{
}

/// A port is told by its protocol, address and number, and by the process that holds it: its name, where
/// it is known, and its number.
pub proof fn a_port_is_told_with_its_owner(i: SessionInspection, port: ListeningPort)
    ensures
        port_row(i, port).0 == port.protocol@ + " "@ + port.address@ + ":"@ + text::decimal(
            port.port as nat,
        ),
        name_of_pid(i.processes@, port.pid) is None ==> port_row(i, port).1 == text::decimal(
            port.pid as nat,
        ),
        name_of_pid(i.processes@, port.pid) matches Some(name) ==> port_row(i, port).1 == name + "("@
            + text::decimal(port.pid as nat) + ")"@,
{
}

/// A process is named by its number: the first that has it, and none where none has it.
pub proof fn a_process_is_named_by_its_number(ps: Seq<ProcessInfo>, pid: u32, i: int)
    requires
        0 <= i <= ps.len(),
        forall|j: int| 0 <= j < i ==> (#[trigger] ps[j]).pid != pid,
        i < ps.len() ==> ps[i].pid == pid,
    ensures
        i < ps.len() ==> name_of_pid(ps, pid) == Some(ps[i].name@),
        i == ps.len() ==> name_of_pid(ps, pid) is None,
    decreases ps.len(),
{
    if ps.len() > 0 && i > 0 {
        let rest = ps.skip(1);
        assert forall|j: int| 0 <= j < i - 1 implies (#[trigger] rest[j]).pid != pid by {
            assert(rest[j] == ps[j + 1]);
        }
        a_process_is_named_by_its_number(rest, pid, i - 1);
    }
}

/// Exactly the processes that lack a measurement are measured.
pub proof fn what_is_not_measured_is_asked_for(ps: Seq<ProcessInfo>, pid: u32)
    ensures
        unsampled(ps).contains(pid) <==> exists|i: int|
            0 <= i < ps.len() && (#[trigger] ps[i]).pid == pid && (
            ps[i].cpu_usage_tenths_percent is None || ps[i].memory_bytes is None),
    decreases ps.len(),
{
    let all = unsampled(ps);
    if ps.len() > 0 {
        let head = ps.drop_last();
        let rest = unsampled(head);
        what_is_not_measured_is_asked_for(head, pid);
        assert(ps[ps.len() - 1] == ps.last());
        if rest.contains(pid) {
            let k = rest.index_of(pid);
            assert(all[k] == pid);
            let i = choose|i: int|
                0 <= i < head.len() && (#[trigger] head[i]).pid == pid && (
                head[i].cpu_usage_tenths_percent is None || head[i].memory_bytes is None);
            assert(ps[i] == head[i]);
        }
        if all.contains(pid) {
            let k = all.index_of(pid);
            if k < rest.len() {
                assert(rest[k] == pid);
            } else {
                assert(ps[ps.len() - 1].pid == pid);
            }
        }
        if exists|i: int|
            0 <= i < ps.len() && (#[trigger] ps[i]).pid == pid && (
            ps[i].cpu_usage_tenths_percent is None || ps[i].memory_bytes is None) {
            let i = choose|i: int|
                0 <= i < ps.len() && (#[trigger] ps[i]).pid == pid && (
                ps[i].cpu_usage_tenths_percent is None || ps[i].memory_bytes is None);
            if i < head.len() {
                assert(head[i] == ps[i]);
            } else {
                assert(all[rest.len() as int] == pid);
            }
        }
    }
}

/// A measurement fills in exactly what is not known yet, and changes nothing else.
pub proof fn a_measurement_fills_what_is_missing(p: ProcessInfo, s: MetricSample)
    ensures
        filled(p, None) == p,
        filled(p, Some(s)).pid == p.pid,
        filled(p, Some(s)).parent_pid == p.parent_pid,
        filled(p, Some(s)).name == p.name,
        filled(p, Some(s)).cpu_usage_tenths_percent == (if p.cpu_usage_tenths_percent is Some {
            p.cpu_usage_tenths_percent
        } else {
            Some(s.cpu_usage_tenths_percent)
        }),
        filled(p, Some(s)).memory_bytes == (if p.memory_bytes is Some {
            p.memory_bytes
        } else {
            Some(s.memory_bytes)
        }),
        !lacks_metrics(filled(p, Some(s))),
        lacks_metrics(p) <==> p.cpu_usage_tenths_percent is None || p.memory_bytes is None,
{
}

/// The lines of a tree: at the row itself a branch where a sibling follows and else a corner, and to the
/// left of it a line through wherever an ancestor has a further sibling.
pub proof fn lines_lead_to_the_next_sibling(branch: Seq<bool>, depth: int)
    requires
        0 <= depth < branch.len(),
    ensures
        depth == branch.len() - 1 && branch[depth] ==> connector_at(branch, depth) == Connector::Tee,
        depth == branch.len() - 1 && !branch[depth] ==> connector_at(branch, depth)
            == Connector::Corner,
        depth < branch.len() - 1 && branch[depth] ==> connector_at(branch, depth)
            == Connector::Through,
        depth < branch.len() - 1 && !branch[depth] ==> connector_at(branch, depth)
            == Connector::Blank,
{
}

/// Processes, ports and rows are told by all of their parts.
pub proof fn findings_are_told_by_their_parts(
    a: ProcessInfo,
    b: ProcessInfo,
    p: ListeningPort,
    q: ListeningPort,
    x: ProcessTreeRow,
    y: ProcessTreeRow,
)
    ensures
        process_view(a) == process_view(b) ==> a.pid == b.pid && a.parent_pid == b.parent_pid
            && a.name@ == b.name@ && a.cpu_usage_tenths_percent == b.cpu_usage_tenths_percent
            && a.memory_bytes == b.memory_bytes,
        node(a) == node(b) ==> a.pid == b.pid && a.parent_pid == b.parent_pid && a.name@ == b.name@,
        port_view(p) == port_view(q) ==> p.pid == q.pid && p.protocol@ == q.protocol@ && p.address@
            == q.address@ && p.port == q.port,
        row(x) == row(y) ==> x.process_index == y.process_index && x.branch_has_next@
            == y.branch_has_next@,
{
}

/// Two findings are the same only where they are of one session and list the same processes and ports, in
/// the same order.
pub proof fn findings_differ_in_any_part(a: SessionInspection, b: SessionInspection, i: int)
    requires
        same_findings(a, b),
    ensures
        a.session_id == b.session_id,
        a.processes@.len() == b.processes@.len(),
        a.ports@.len() == b.ports@.len(),
        0 <= i < a.processes@.len() ==> process_view(a.processes@[i]) == process_view(
            b.processes@[i],
        ),
        0 <= i < a.ports@.len() ==> port_view(a.ports@[i]) == port_view(b.ports@[i]),
{
    assert(process_views(a.processes@).len() == process_views(b.processes@).len());
    assert(port_views(a.ports@).len() == port_views(b.ports@).len());
    if 0 <= i < a.processes@.len() {
        assert(process_views(a.processes@)[i] == process_views(b.processes@)[i]);
    }
    if 0 <= i < a.ports@.len() {
        assert(port_views(a.ports@)[i] == port_views(b.ports@)[i]);
    }
}

/// A row shows the process that stands there in the tree: its number, its measurements, its lines, and
/// whether it is a root. Without processes there is a sentence instead.
pub proof fn rows_show_their_processes(
    ps: Seq<ProcessInfo>,
    language: Language,
    section: ProcessSection,
    k: int,
)
    requires
        tells_processes(ps, language, section),
    ensures
        ps.len() == 0 <==> section is Empty,
        section matches ProcessSection::Rows(rows) ==> rows@.len() == ps.len() && (0 <= k
            < rows@.len() ==> rows@[k].process_index == process_tree(nodes(ps))[k].index
            && rows@[k].branch_has_next@ == process_tree(nodes(ps))[k].branch && rows@[k].pid_text@
            == text::decimal(ps[rows@[k].process_index as int].pid as nat) && rows@[k].metrics@
            == metrics_text(ps[rows@[k].process_index as int]) && (rows@[k].is_root
            <==> is_root_pid(nodes(ps), ps[rows@[k].process_index as int].pid))),
        section matches ProcessSection::Empty(note) ==> (language == Language::English ==> note@
            == "No running processes."@) && (language == Language::SimplifiedChinese ==> note@
            == "没有正在运行的进程。"@),
{
    match section {
        ProcessSection::Rows(rows) => {
            if 0 <= k < rows@.len() {
                assert(shows_process(ps, process_tree(nodes(ps))[k], rows@[k]));
            }
        },
        ProcessSection::Empty(_) => {},
    }
}

/// A number is that of a root exactly where some process with it is one.
pub proof fn a_root_is_known_by_its_number(ps: Seq<Node>, pid: u32, i: int)
    ensures
        0 <= i < ps.len() && roots(ps).contains(i) ==> is_root_pid(ps, ps[i].pid),
        is_root_pid(ps, pid) ==> exists|k: int|
            0 <= k < ps.len() && (#[trigger] ps[k]).pid == pid && roots(ps).contains(k),
{
    let keep = |x: int| is_root(ps, x);
    in_order_is_sorted_selection(ps, keep, ps.len() as int);
    if is_root_pid(ps, pid) {
        let k = choose|k: int| 0 <= k < ps.len() && (#[trigger] ps[k]).pid == pid && is_root(ps, k);
        assert(roots(ps).contains(k));
    }
}

} // verus!
