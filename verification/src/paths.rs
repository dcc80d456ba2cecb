//! Paths as lists of parts: when two are the same, and which comes first.

use vstd::prelude::*;
use crate::order;
use crate::text;
use crate::text::{chars_of, text_eq, text_of};

verus! {

/// The length of the part at the front of a path.
pub open spec fn part_len(s: Seq<char>) -> int
    decreases s.len(),
{
    if s.len() == 0 || s[0] == '/' {
        0
    } else {
        1 + part_len(s.skip(1))
    }
}

proof fn part_len_in_range(s: Seq<char>)
    ensures
        0 <= part_len(s) <= s.len(),
        s.len() > 0 && s[0] != '/' ==> part_len(s) >= 1,
    decreases s.len(),
{
    if s.len() > 0 && s[0] != '/' {
        part_len_in_range(s.skip(1));
    }
}

/// The parts of a path behind its beginning: separators count for nothing, and neither does `.`.
pub open spec fn rest_parts(s: Seq<char>) -> Seq<Seq<char>>
    decreases s.len(),
    via rest_parts_decreases
{
    if s.len() == 0 {
        seq![]
    } else if s[0] == '/' {
        rest_parts(s.skip(1))
    } else {
        let part = s.take(part_len(s));
        let rest = rest_parts(s.skip(part_len(s)));
        if part == "."@ {
            rest
        } else {
            seq![part] + rest
        }
    }
}

#[via_fn]
proof fn rest_parts_decreases(s: Seq<char>) {
    part_len_in_range(s);
}

/// The parts of a path. The root is a part of its own, written `/`; a `.` is one at the beginning
/// alone.
pub open spec fn parts(s: Seq<char>) -> Seq<Seq<char>> {
    if s.len() > 0 && s[0] == '/' {
        seq!["/"@] + rest_parts(s)
    } else if s.len() > 0 && s.take(part_len(s)) == "."@ {
        seq!["."@] + rest_parts(s.skip(part_len(s)))
    } else {
        rest_parts(s)
    }
}

fn part_end(s: &Vec<char>, from: usize) -> (r: usize)
    requires
        from <= s@.len(),
    ensures
        r == from + part_len(s@.skip(from as int)),
        from <= r <= s@.len(),
{
    let mut i: usize = from;
    while i < s.len() && s[i] != '/'
        invariant
            from <= i <= s@.len(),
            i + part_len(s@.skip(i as int)) == from + part_len(s@.skip(from as int)),
        decreases s@.len() - i,
    {
        assert(s@.skip(i as int).skip(1) =~= s@.skip(i + 1));
        i = i + 1;
    }
    i
}

/// The parts of a path.
pub fn path_parts(path: &str) -> (r: Vec<String>)
    ensures
        order::texts(r@) == parts(path@),
{
    let s: Vec<char> = chars_of(path);
    let mut out: Vec<String> = Vec::new();
    let mut i: usize = 0;
    assert(s@.skip(0) =~= s@);
    assert(order::texts(out@) =~= seq![]);
    if s.len() > 0 {
        if s[0] == '/' {
            out.push("/".to_owned());
            assert(order::texts(out@) =~= seq!["/"@]);
        } else {
            let end: usize = part_end(&s, 0);
            let part: String = text_of(&s, 0, end);
            assert(part@ =~= s@.take(end as int));
            if text_eq(part.as_str(), ".") {
                out.push(part);
                assert(order::texts(out@) =~= seq!["."@]);
                i = end;
            }
        }
    }
    assert(order::texts(out@) + rest_parts(s@.skip(i as int)) =~= parts(path@));
    while i < s.len()
        invariant
            i <= s@.len(),
            order::texts(out@) + rest_parts(s@.skip(i as int)) == parts(path@),
        decreases s@.len() - i,
    {
        let ghost rest = s@.skip(i as int);
        let ghost had = order::texts(out@);
        if s[i] == '/' {
            assert(rest.skip(1) =~= s@.skip(i + 1));
            i = i + 1;
        } else {
            proof {
                part_len_in_range(rest);
            }
            let end: usize = part_end(&s, i);
            let part: String = text_of(&s, i, end);
            assert(part@ =~= rest.take(part_len(rest)));
            assert(rest.skip(part_len(rest)) =~= s@.skip(end as int));
            if !text_eq(part.as_str(), ".") {
                let ghost p = part@;
                out.push(part);
                assert(order::texts(out@) =~= had.push(p));
                assert(had.push(p) + rest_parts(s@.skip(end as int)) =~= had + rest_parts(rest));
            }
            i = end;
        }
    }
    assert(order::texts(out@) =~= parts(path@));
    out
}

/// Whether two texts name the same path: they have the same parts.
pub open spec fn same(a: Seq<char>, b: Seq<char>) -> bool {
    parts(a) == parts(b)
}

/// Whether two texts name the same path.
pub fn same_path(a: &str, b: &str) -> (r: bool)
    ensures
        r == same(a@, b@),
{
    let x: Vec<String> = path_parts(a);
    let y: Vec<String> = path_parts(b);
    if x.len() != y.len() {
        assert(order::texts(x@).len() != order::texts(y@).len());
        return false;
    }
    let mut i: usize = 0;
    while i < x.len()
        invariant
            i <= x@.len() == y@.len(),
            order::texts(x@) == parts(a@),
            order::texts(y@) == parts(b@),
            forall|j: int| 0 <= j < i ==> (#[trigger] x@[j])@ == y@[j]@,
        decreases x@.len() - i,
    {
        if !text_eq(x[i].as_str(), y[i].as_str()) {
            assert(parts(a@)[i as int] != parts(b@)[i as int]);
            return false;
        }
        i = i + 1;
    }
    assert(order::texts(x@) =~= order::texts(y@));
    true
}

/// The mark by which parts are ordered before their names: the root comes before all others, and
/// `..` before names.
pub open spec fn part_mark(part: Seq<char>) -> char {
    if part == "/"@ {
        '1'
    } else if part == "."@ {
        '2'
    } else if part == ".."@ {
        '3'
    } else {
        '4'
    }
}

/// The key of one part. It ends with a character that no path holds and that comes before all
/// others, so that a name comes before those that it begins.
pub open spec fn part_key(part: Seq<char>) -> Seq<char> {
    seq![part_mark(part)] + part + seq!['\0']
}

/// The keys of the parts, one after the other.
pub open spec fn parts_key(v: Seq<Seq<char>>) -> Seq<char>
    decreases v.len(),
{
    if v.len() == 0 {
        seq![]
    } else {
        parts_key(v.drop_last()) + part_key(v.last())
    }
}

/// A key by which paths are ordered part by part.
pub open spec fn path_key(s: Seq<char>) -> Seq<char> {
    parts_key(parts(s))
}

/// A key by which paths are ordered part by part.
pub fn path_order_key(path: &str) -> (r: String)
    ensures
        r@ == path_key(path@),
{
    let all: Vec<String> = path_parts(path);
    let ghost v = parts(path@);
    let mut out: String = String::new();
    let mut i: usize = 0;
    assert(v.take(0) =~= seq![]);
    assert(out@ =~= parts_key(v.take(0)));
    while i < all.len()
        invariant
            i <= all@.len(),
            v == order::texts(all@),
            out@ == parts_key(v.take(i as int)),
        decreases all@.len() - i,
    {
        let ghost had = out@;
        let part: &str = all[i].as_str();
        let mark: char = if text_eq(part, "/") {
            '1'
        } else if text_eq(part, ".") {
            '2'
        } else if text_eq(part, "..") {
            '3'
        } else {
            '4'
        };
        out.push(mark);
        out.append(part);
        out.push('\0');
        assert(out@ =~= had + part_key(v[i as int]));
        assert(v.take(i + 1).drop_last() =~= v.take(i as int));
        i = i + 1;
    }
    assert(v.take(i as int) =~= v);
    out
}

/// Whether one part comes before another or is it: by their marks first, and then by their names.
pub open spec fn part_le(p: Seq<char>, q: Seq<char>) -> bool {
    part_mark(p) < part_mark(q) || (part_mark(p) == part_mark(q) && text::text_le(p, q))
}

/// Whether one list of parts comes before another or is it: the first parts that differ decide, and
/// a list comes before those that it begins.
pub open spec fn parts_le(a: Seq<Seq<char>>, b: Seq<Seq<char>>) -> bool
    decreases a.len(),
{
    if a.len() == 0 {
        true
    } else if b.len() == 0 {
        false
    } else if a[0] == b[0] {
        parts_le(a.skip(1), b.skip(1))
    } else {
        part_le(a[0], b[0])
    }
}

/// The text does not hold the character that no path holds.
pub open spec fn is_path(s: Seq<char>) -> bool {
    !s.contains('\0')
}

proof fn rest_parts_are_clean(s: Seq<char>, k: int)
    requires
        is_path(s),
        0 <= k < rest_parts(s).len(),
    ensures
        is_path(rest_parts(s)[k]),
    decreases s.len(),
{
    if s.len() > 0 && s[0] == '/' {
        assert forall|i: int| 0 <= i < s.skip(1).len() implies s.skip(1)[i] != '\0' by {
            assert(s.contains(s[i + 1]));
        }
        rest_parts_are_clean(s.skip(1), k);
    } else if s.len() > 0 {
        part_len_in_range(s);
        let n = part_len(s);
        let part = s.take(n);
        let rest = s.skip(n);
        assert forall|i: int| 0 <= i < part.len() implies part[i] != '\0' by {
            assert(s.contains(s[i]));
        }
        assert forall|i: int| 0 <= i < rest.len() implies rest[i] != '\0' by {
            assert(s.contains(s[i + n]));
        }
        if part == "."@ {
            rest_parts_are_clean(rest, k);
        } else if k > 0 {
            rest_parts_are_clean(rest, k - 1);
        }
    }
}

proof fn parts_are_clean(s: Seq<char>)
    requires
        is_path(s),
    ensures
        forall|k: int| 0 <= k < parts(s).len() ==> is_path(#[trigger] parts(s)[k]),
{
    reveal_strlit("/");
    reveal_strlit(".");
    assert forall|k: int| 0 <= k < parts(s).len() implies is_path(#[trigger] parts(s)[k]) by {
        if s.len() > 0 && s[0] == '/' {
            if k > 0 {
                rest_parts_are_clean(s, k - 1);
            }
        } else if s.len() > 0 && s.take(part_len(s)) == "."@ {
            part_len_in_range(s);
            let rest = s.skip(part_len(s));
            assert forall|i: int| 0 <= i < rest.len() implies rest[i] != '\0' by {
                assert(s.contains(s[i + part_len(s)]));
            }
            if k > 0 {
                rest_parts_are_clean(rest, k - 1);
            }
        } else {
            rest_parts_are_clean(s, k);
        }
    }
}

proof fn the_first_part_leads(v: Seq<Seq<char>>)
    requires
        v.len() > 0,
    ensures
        parts_key(v) == part_key(v[0]) + parts_key(v.skip(1)),
    decreases v.len(),
{
    let init = v.drop_last();
    if v.len() == 1 {
        assert(init =~= seq![]);
        assert(v.skip(1) =~= seq![]);
        assert(parts_key(v) =~= part_key(v[0]) + parts_key(v.skip(1)));
    } else {
        the_first_part_leads(init);
        assert(v.skip(1).drop_last() =~= init.skip(1));
        assert(parts_key(v) =~= part_key(v[0]) + parts_key(v.skip(1)));
    }
}

proof fn a_common_front_decides_nothing(f: Seq<char>, x: Seq<char>, y: Seq<char>)
    ensures
        text::text_le(f + x, f + y) == text::text_le(x, y),
    decreases f.len(),
{
    if f.len() == 0 {
        assert(f + x =~= x);
        assert(f + y =~= y);
    } else {
        a_common_front_decides_nothing(f.skip(1), x, y);
        assert((f + x).skip(1) =~= f.skip(1) + x);
        assert((f + y).skip(1) =~= f.skip(1) + y);
    }
}

proof fn the_end_comes_first(c: char)
    requires
        c != '\0',
    ensures
        '\0' < c,
{
}

proof fn names_decide(p: Seq<char>, q: Seq<char>, x: Seq<char>, y: Seq<char>)
    requires
        is_path(p),
        is_path(q),
        p != q,
    ensures
        text::text_le(p + seq!['\0'] + x, q + seq!['\0'] + y) == text::text_le(p, q),
    decreases p.len(),
{
    let l = p + seq!['\0'] + x;
    let r = q + seq!['\0'] + y;
    if p.len() == 0 {
        if q.len() == 0 {
            assert(p =~= q);
        }
        assert(l[0] == '\0');
        assert(r[0] == q[0]);
        assert(q.contains(q[0]));
        the_end_comes_first(q[0]);
    } else if q.len() == 0 {
        assert(l[0] == p[0]);
        assert(r[0] == '\0');
        assert(p.contains(p[0]));
        the_end_comes_first(p[0]);
    } else {
        assert(l[0] == p[0] && r[0] == q[0]);
        if p[0] == q[0] {
            let tp = p.skip(1);
            let tq = q.skip(1);
            assert forall|i: int| 0 <= i < tp.len() implies tp[i] != '\0' by {
                assert(p.contains(p[i + 1]));
            }
            assert forall|i: int| 0 <= i < tq.len() implies tq[i] != '\0' by {
                assert(q.contains(q[i + 1]));
            }
            if tp == tq {
                assert(p =~= seq![p[0]] + tp);
                assert(q =~= seq![q[0]] + tq);
            }
            names_decide(tp, tq, x, y);
            assert(l.skip(1) =~= tp + seq!['\0'] + x);
            assert(r.skip(1) =~= tq + seq!['\0'] + y);
        }
    }
}

proof fn parts_decide(a: Seq<Seq<char>>, b: Seq<Seq<char>>)
    requires
        forall|k: int| 0 <= k < a.len() ==> is_path(#[trigger] a[k]),
        forall|k: int| 0 <= k < b.len() ==> is_path(#[trigger] b[k]),
    ensures
        text::text_le(parts_key(a), parts_key(b)) == parts_le(a, b),
    decreases a.len(),
{
    if a.len() > 0 {
        the_first_part_leads(a);
        if b.len() > 0 {
            the_first_part_leads(b);
            let p = a[0];
            let q = b[0];
            let x = parts_key(a.skip(1));
            let y = parts_key(b.skip(1));
            let l = parts_key(a);
            let r = parts_key(b);
            if p == q {
                parts_decide(a.skip(1), b.skip(1));
                a_common_front_decides_nothing(part_key(p), x, y);
            } else {
                assert(l[0] == part_mark(p) && r[0] == part_mark(q));
                assert(l.skip(1) =~= p + seq!['\0'] + x);
                assert(r.skip(1) =~= q + seq!['\0'] + y);
                names_decide(p, q, x, y);
            }
        }
    }
}

/// Paths are ordered part by part.
pub proof fn paths_are_ordered_part_by_part(a: Seq<char>, b: Seq<char>)
    requires
        is_path(a),
        is_path(b),
    ensures
        text::text_le(path_key(a), path_key(b)) <==> parts_le(parts(a), parts(b)),
{
    parts_are_clean(a);
    parts_are_clean(b);
    parts_decide(parts(a), parts(b));
}

proof fn parts_le_both_ways(a: Seq<Seq<char>>, b: Seq<Seq<char>>)
    requires
        parts_le(a, b),
        parts_le(b, a),
    ensures
        a == b,
    decreases a.len(),
{
    if a.len() > 0 && b.len() > 0 {
        if a[0] == b[0] {
            parts_le_both_ways(a.skip(1), b.skip(1));
            assert(a =~= seq![a[0]] + a.skip(1));
            assert(b =~= seq![b[0]] + b.skip(1));
        } else {
            text::text_le_antisymmetric(a[0], b[0]);
        }
    } else {
        assert(a =~= b);
    }
}

/// Two texts have the same place in the order exactly where they name the same path.
pub proof fn a_place_in_the_order_is_of_one_path(a: Seq<char>, b: Seq<char>)
    requires
        is_path(a),
        is_path(b),
    ensures
        path_key(a) == path_key(b) <==> same(a, b),
{
    if path_key(a) == path_key(b) {
        text::text_le_reflexive(path_key(a));
        paths_are_ordered_part_by_part(a, b);
        paths_are_ordered_part_by_part(b, a);
        parts_le_both_ways(parts(a), parts(b));
    }
}

/// A separator at the end of a path counts for nothing.
pub proof fn a_separator_at_the_end_counts_for_nothing(s: Seq<char>)
    requires
        s.len() > 0,
    ensures
        same(s.push('/'), s),
{
    let t = s.push('/');
    rest_parts_of_a_longer_path(s);
    if s[0] != '/' {
        part_len_of_a_longer_path(s);
        part_len_in_range(s);
        let n = part_len(s);
        assert(t.take(n) =~= s.take(n));
        assert(t.skip(n) =~= s.skip(n).push('/'));
        rest_parts_of_a_longer_path(s.skip(n));
    }
}

proof fn part_len_of_a_longer_path(s: Seq<char>)
    ensures
        part_len(s.push('/')) == part_len(s),
    decreases s.len(),
{
    let t = s.push('/');
    if s.len() > 0 && s[0] != '/' {
        part_len_of_a_longer_path(s.skip(1));
        assert(t.skip(1) =~= s.skip(1).push('/'));
    }
}

proof fn rest_parts_of_a_longer_path(s: Seq<char>)
    ensures
        rest_parts(s.push('/')) == rest_parts(s),
    decreases s.len(),
{
    let t = s.push('/');
    if s.len() == 0 {
        assert(t.skip(1) =~= seq![]);
        reveal_with_fuel(rest_parts, 2);
    } else if s[0] == '/' {
        rest_parts_of_a_longer_path(s.skip(1));
        assert(t.skip(1) =~= s.skip(1).push('/'));
    } else {
        part_len_of_a_longer_path(s);
        part_len_in_range(s);
        let n = part_len(s);
        assert(t.take(n) =~= s.take(n));
        assert(t.skip(n) =~= s.skip(n).push('/'));
        rest_parts_of_a_longer_path(s.skip(n));
    }
}

proof fn a_part_ends_at_a_separator(part: Seq<char>, rest: Seq<char>)
    requires
        !part.contains('/'),
    ensures
        part_len(part + seq!['/'] + rest) == part.len(),
        part_len(part) == part.len(),
    decreases part.len(),
{
    let whole = part + seq!['/'] + rest;
    if part.len() > 0 {
        let less = part.skip(1);
        assert(part.contains(part[0]));
        assert forall|i: int| 0 <= i < less.len() implies less[i] != '/' by {
            assert(part.contains(part[i + 1]));
        }
        a_part_ends_at_a_separator(less, rest);
        assert(whole.skip(1) =~= less + seq!['/'] + rest);
        assert(whole[0] == part[0]);
    } else {
        assert(whole[0] == '/');
    }
}

/// A path falls into the parts between its separators; empty parts and points count for nothing.
pub proof fn a_path_falls_into_parts(part: Seq<char>, rest: Seq<char>)
    requires
        !part.contains('/'),
        part.len() > 0,
    ensures
        rest_parts(seq![]).len() == 0,
        rest_parts(seq!['/'] + rest) == rest_parts(rest),
        part == "."@ ==> rest_parts(part + seq!['/'] + rest) == rest_parts(rest),
        part != "."@ ==> rest_parts(part + seq!['/'] + rest) == seq![part] + rest_parts(rest),
        part != "."@ ==> rest_parts(part) == seq![part],
        part == "."@ ==> rest_parts(part).len() == 0,
{
    reveal_with_fuel(rest_parts, 3);
    let whole = part + seq!['/'] + rest;
    let n = part.len() as int;
    a_part_ends_at_a_separator(part, rest);
    assert(part.contains(part[0]));
    assert(whole[0] == part[0]);
    assert(whole.take(n) =~= part);
    assert(whole.skip(n) =~= seq!['/'] + rest);
    let slashed = seq!['/'] + rest;
    assert(slashed[0] == '/');
    assert(slashed.skip(1) =~= rest);
    assert(rest_parts(slashed) == rest_parts(rest));
    assert(part.take(n) =~= part);
    assert(part.skip(n) =~= seq![]);
    assert(seq![part] + Seq::<Seq<char>>::empty() =~= seq![part]);
}

/// A path that starts with a separator starts at the root; a point counts only where the path starts with
/// it.
pub proof fn a_path_starts_at_the_root_or_here(part: Seq<char>, rest: Seq<char>)
    requires
        !part.contains('/'),
        part.len() > 0,
    ensures
        parts(seq!['/'] + rest) == seq!["/"@] + rest_parts(rest),
        part == "."@ ==> parts(part + seq!['/'] + rest) == seq!["."@] + rest_parts(rest),
        part != "."@ ==> parts(part + seq!['/'] + rest) == seq![part] + rest_parts(rest),
        part != "."@ ==> parts(part) == seq![part],
        parts(seq![]).len() == 0,
{
    let whole = part + seq!['/'] + rest;
    let n = part.len() as int;
    a_path_falls_into_parts(part, rest);
    a_part_ends_at_a_separator(part, rest);
    assert(part.contains(part[0]));
    assert(whole[0] == part[0]);
    assert(whole.take(n) =~= part);
    assert(whole.skip(n) =~= seq!['/'] + rest);
    assert(part.take(n) =~= part);
    assert((seq!['/'] + rest)[0] == '/');
}

/// The root comes before the place itself, that before the one above, and all of them before names; names
/// are ordered as texts.
pub proof fn parts_are_ordered_by_kind(p: Seq<char>, q: Seq<char>)
    requires
        p != "/"@ && p != "."@ && p != ".."@,
        q != "/"@ && q != "."@ && q != ".."@,
    ensures
        part_le("/"@, "."@) && !part_le("."@, "/"@),
        part_le("."@, ".."@) && !part_le(".."@, "."@),
        part_le(".."@, p) && !part_le(p, ".."@),
        part_le(p, q) <==> text::text_le(p, q),
{
    reveal_strlit("/");
    reveal_strlit(".");
    reveal_strlit("..");
    assert("/"@[0] == '/' && "."@[0] == '.');
    assert("."@.len() == 1 && ".."@.len() == 2);
}

/// The first parts that differ decide; a path comes before those below it.
pub proof fn the_first_parts_that_differ_decide(
    front: Seq<Seq<char>>,
    a: Seq<Seq<char>>,
    b: Seq<Seq<char>>,
)
    ensures
        parts_le(front, front + b),
        b.len() > 0 ==> !parts_le(front + b, front),
        a.len() > 0 && b.len() > 0 && a[0] != b[0] ==> (parts_le(front + a, front + b) <==> part_le(
            a[0],
            b[0],
        )),
    decreases front.len(),
{
    if front.len() > 0 {
        let less = front.skip(1);
        the_first_parts_that_differ_decide(less, a, b);
        assert((front + a).skip(1) =~= less + a);
        assert((front + b).skip(1) =~= less + b);
        assert((front + a)[0] == front[0] && (front + b)[0] == front[0]);
    } else {
        assert(front + a =~= a);
        assert(front + b =~= b);
    }
}

} // verus!
