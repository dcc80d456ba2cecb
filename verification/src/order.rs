//! Stable sorting, as an order of positions: equal keys keep the order in which they stand.

use vstd::prelude::*;

use crate::text;

verus! {

/// The order of texts by their characters.
pub open spec fn by_text() -> spec_fn(Seq<char>, Seq<char>) -> bool {
    |a: Seq<char>, b: Seq<char>| text::text_le(a, b)
}

/// The order of numbers.
pub open spec fn by_number() -> spec_fn(u64, u64) -> bool {
    |a: u64, b: u64| a <= b
}

/// Where position `i` goes in `order`: behind the last one whose key does not exceed its own.
pub open spec fn insertion_point<K>(
    order: Seq<int>,
    keys: Seq<K>,
    le: spec_fn(K, K) -> bool,
    i: int,
) -> int
    decreases order.len(),
{
    if order.len() == 0 || le(keys[order.last()], keys[i]) {
        order.len() as int
    } else {
        insertion_point(order.drop_last(), keys, le, i)
    }
}

/// The first `n` positions in the order of their keys, equal keys as they stand.
pub open spec fn stable_order<K>(keys: Seq<K>, le: spec_fn(K, K) -> bool, n: int) -> Seq<int>
    decreases n,
{
    if n <= 0 {
        seq![]
    } else {
        let rest = stable_order(keys, le, n - 1);
        rest.insert(insertion_point(rest, keys, le, n - 1), n - 1)
    }
}

proof fn insertion_point_in_range<K>(
    order: Seq<int>,
    keys: Seq<K>,
    le: spec_fn(K, K) -> bool,
    i: int,
)
    ensures
        0 <= insertion_point(order, keys, le, i) <= order.len(),
    decreases order.len(),
{
    if order.len() > 0 && !le(keys[order.last()], keys[i]) {
        insertion_point_in_range(order.drop_last(), keys, le, i);
    }
}

proof fn insertion_point_splits<K>(
    order: Seq<int>,
    keys: Seq<K>,
    le: spec_fn(K, K) -> bool,
    i: int,
)
    ensures
        0 <= insertion_point(order, keys, le, i) <= order.len(),
        insertion_point(order, keys, le, i) > 0 ==> le(
            keys[order[insertion_point(order, keys, le, i) - 1]],
            keys[i],
        ),
        forall|p: int|
            insertion_point(order, keys, le, i) <= p < order.len() ==> !le(
                keys[#[trigger] order[p]],
                keys[i],
            ),
    decreases order.len(),
{
    if order.len() > 0 && !le(keys[order.last()], keys[i]) {
        insertion_point_splits(order.drop_last(), keys, le, i);
        let at = insertion_point(order, keys, le, i);
        assert forall|p: int| at <= p < order.len() implies !le(
            keys[#[trigger] order[p]],
            keys[i],
        ) by {
            if p < order.len() - 1 {
                assert(order.drop_last()[p] == order[p]);
            }
        }
    }
}

/// Every one of the first `n` positions stands in the order, and nothing else does.
pub open spec fn is_permutation(order: Seq<int>, n: int) -> bool {
    &&& order.len() == n
    &&& order.no_duplicates()
    &&& forall|p: int| 0 <= p < order.len() ==> 0 <= #[trigger] order[p] < n
}

/// The order of a stable sort holds each position once.
pub proof fn a_stable_order_is_a_permutation<K>(keys: Seq<K>, le: spec_fn(K, K) -> bool, n: int)
    requires
        0 <= n <= keys.len(),
    ensures
        is_permutation(stable_order(keys, le, n), n),
    decreases n,
{
    if n > 0 {
        let rest = stable_order(keys, le, n - 1);
        a_stable_order_is_a_permutation(keys, le, n - 1);
        insertion_point_in_range(rest, keys, le, n - 1);
        let at = insertion_point(rest, keys, le, n - 1);
        let order = rest.insert(at, n - 1);
        assert forall|p: int| 0 <= p < order.len() implies 0 <= #[trigger] order[p] < n by {
            if p < at {
                assert(order[p] == rest[p]);
            } else if p > at {
                assert(order[p] == rest[p - 1]);
            }
        }
        assert forall|p: int, q: int| 0 <= p < order.len() && 0 <= q < order.len() && p
            != q implies order[p] != order[q] by {
            let p0 = if p < at { p } else { p - 1 };
            let q0 = if q < at { q } else { q - 1 };
            if p != at {
                assert(order[p] == rest[p0]);
            }
            if q != at {
                assert(order[q] == rest[q0]);
            }
        }
    }
}

/// Every position stands somewhere in the order of a stable sort.
pub proof fn a_permutation_reaches<K>(keys: Seq<K>, le: spec_fn(K, K) -> bool, n: int, i: int)
    requires
        0 <= i < n <= keys.len(),
    ensures
        exists|p: int| 0 <= p < n && stable_order(keys, le, n)[p] == i,
    decreases n,
{
    let rest = stable_order(keys, le, n - 1);
    let order = stable_order(keys, le, n);
    let at = insertion_point(rest, keys, le, n - 1);
    a_stable_order_is_a_permutation(keys, le, n - 1);
    a_stable_order_is_a_permutation(keys, le, n);
    insertion_point_in_range(rest, keys, le, n - 1);
    if i == n - 1 {
        assert(order[at] == i);
    } else {
        a_permutation_reaches(keys, le, n - 1, i);
        let p = choose|p: int| 0 <= p < n - 1 && rest[p] == i;
        if p < at {
            assert(order[p] == i);
        } else {
            assert(order[p + 1] == i);
        }
    }
}

/// `le` orders all keys: of two one is at most the other, and it is transitive.
pub open spec fn is_total_preorder<K>(le: spec_fn(K, K) -> bool) -> bool {
    &&& forall|a: K, b: K| #[trigger] le(a, b) || le(b, a)
    &&& forall|a: K, b: K, c: K| #[trigger] le(a, b) && #[trigger] le(b, c) ==> le(a, c)
}

/// The order of texts is one that a stable sort can go by.
pub proof fn texts_are_ordered()
    ensures
        is_total_preorder(by_text()),
{
    let le = by_text();
    assert forall|a: Seq<char>, b: Seq<char>| #[trigger] le(a, b) || le(b, a) by {
        text::text_le_total(a, b);
    }
    assert forall|a: Seq<char>, b: Seq<char>, c: Seq<char>| #[trigger]
        le(a, b) && #[trigger] le(b, c) implies le(a, c) by {
        text::text_le_transitive(a, b, c);
    }
}

/// The order of numbers is one that a stable sort can go by.
pub proof fn numbers_are_ordered()
    ensures
        is_total_preorder(by_number()),
{
}

/// A stable sort puts no key before a smaller one, and leaves equal keys in the order in which
/// they stand.
pub proof fn a_stable_order_is_sorted<K>(
    keys: Seq<K>,
    le: spec_fn(K, K) -> bool,
    n: int,
    p: int,
    q: int,
)
    requires
        is_total_preorder(le),
        0 <= n <= keys.len(),
        0 <= p < q < n,
    ensures
        ({
            let order = stable_order(keys, le, n);
            &&& le(keys[order[p]], keys[order[q]])
            &&& le(keys[order[q]], keys[order[p]]) ==> order[p] < order[q]
        }),
    decreases n,
{
    let rest = stable_order(keys, le, n - 1);
    let at = insertion_point(rest, keys, le, n - 1);
    insertion_point_splits(rest, keys, le, n - 1);
    a_stable_order_is_a_permutation(keys, le, n - 1);
    let order = stable_order(keys, le, n);
    let p0 = if p < at { p } else { p - 1 };
    let q0 = if q < at { q } else { q - 1 };
    if p != at {
        assert(order[p] == rest[p0]);
    }
    if q != at {
        assert(order[q] == rest[q0]);
    }
    if p == at {
        assert(!le(keys[rest[q0]], keys[n - 1]));
        assert(le(keys[n - 1], keys[rest[q0]]) || le(keys[rest[q0]], keys[n - 1]));
    } else if q == at {
        if p < at - 1 {
            a_stable_order_is_sorted(keys, le, n - 1, p, at - 1);
            assert(le(keys[rest[p]], keys[rest[at - 1]]));
        }
        assert(le(keys[rest[p]], keys[n - 1]));
    } else {
        a_stable_order_is_sorted(keys, le, n - 1, p0, q0);
    }
}

/// The positions as mathematical integers.
pub open spec fn positions(order: Seq<usize>) -> Seq<int> {
    order.map_values(|i: usize| i as int)
}

/// The texts as sequences of characters.
pub open spec fn texts(keys: Seq<String>) -> Seq<Seq<char>> {
    keys.map_values(|k: String| k@)
}

/// The positions of `keys` in the order of a stable sort.
pub fn stable_text_order(keys: &Vec<String>) -> (r: Vec<usize>)
    ensures
        positions(r@) == stable_order(texts(keys@), by_text(), keys@.len() as int),
        is_permutation(positions(r@), keys@.len() as int),
{
    let ghost ks = texts(keys@);
    let mut r: Vec<usize> = Vec::new();
    let mut i: usize = 0;
    assert(positions(r@) =~= stable_order(ks, by_text(), 0));
    while i < keys.len()
        invariant
            i <= keys@.len(),
            ks == texts(keys@),
            positions(r@) == stable_order(ks, by_text(), i as int),
        decreases keys@.len() - i,
    {
        let ghost rest = positions(r@);
        proof {
            a_stable_order_is_a_permutation(ks, by_text(), i as int);
            insertion_point_in_range(rest, ks, by_text(), i as int);
        }
        let mut at: usize = r.len();
        assert(rest.take(at as int) =~= rest);
        while at > 0
            invariant_except_break
                insertion_point(rest.take(at as int), ks, by_text(), i as int) == insertion_point(
                    rest,
                    ks,
                    by_text(),
                    i as int,
                ),
            invariant
                at <= r@.len(),
                i < keys@.len(),
                ks == texts(keys@),
                rest == positions(r@),
                is_permutation(rest, i as int),
            ensures
                at == insertion_point(rest, ks, by_text(), i as int),
            decreases at,
        {
            let before: usize = r[at - 1];
            assert(rest[at - 1] == before);
            assert(rest.take(at as int).last() == before as int);
            if text::text_at_most(keys[before].as_str(), keys[i].as_str()) {
                assert(by_text()(ks[before as int], ks[i as int]));
                break;
            }
            assert(!by_text()(ks[before as int], ks[i as int]));
            assert(rest.take(at as int).drop_last() =~= rest.take(at - 1));
            at = at - 1;
        }
        r.insert(at, i);
        assert(positions(r@) =~= rest.insert(at as int, i as int));
        i = i + 1;
    }
    proof {
        a_stable_order_is_a_permutation(ks, by_text(), keys@.len() as int);
    }
    r
}

/// The positions of `keys` in the order of a stable sort.
pub fn stable_number_order(keys: &Vec<u64>) -> (r: Vec<usize>)
    ensures
        positions(r@) == stable_order(keys@, by_number(), keys@.len() as int),
        is_permutation(positions(r@), keys@.len() as int),
{
    let mut r: Vec<usize> = Vec::new();
    let mut i: usize = 0;
    assert(positions(r@) =~= stable_order(keys@, by_number(), 0));
    while i < keys.len()
        invariant
            i <= keys@.len(),
            positions(r@) == stable_order(keys@, by_number(), i as int),
        decreases keys@.len() - i,
    {
        let ghost rest = positions(r@);
        proof {
            a_stable_order_is_a_permutation(keys@, by_number(), i as int);
            insertion_point_in_range(rest, keys@, by_number(), i as int);
        }
        let mut at: usize = r.len();
        assert(rest.take(at as int) =~= rest);
        while at > 0
            invariant_except_break
                insertion_point(rest.take(at as int), keys@, by_number(), i as int)
                    == insertion_point(rest, keys@, by_number(), i as int),
            invariant
                at <= r@.len(),
                i < keys@.len(),
                rest == positions(r@),
                is_permutation(rest, i as int),
            ensures
                at == insertion_point(rest, keys@, by_number(), i as int),
            decreases at,
        {
            let before: usize = r[at - 1];
            assert(rest[at - 1] == before);
            assert(rest.take(at as int).last() == before as int);
            if keys[before] <= keys[i] {
                break;
            }
            assert(rest.take(at as int).drop_last() =~= rest.take(at - 1));
            at = at - 1;
        }
        r.insert(at, i);
        assert(positions(r@) =~= rest.insert(at as int, i as int));
        i = i + 1;
    }
    proof {
        a_stable_order_is_a_permutation(keys@, by_number(), keys@.len() as int);
    }
    r
}

} // verus!
