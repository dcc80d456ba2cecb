//! Lists of ids, and maps that are keyed by them.

use vstd::prelude::*;
use std::collections::HashMap;

verus! {

/// Whether the id is listed.
pub fn contains_id(ids: &Vec<u128>, k: u128) -> (r: bool)
    ensures
        r == ids@.contains(k),
{
    let mut i: usize = 0;
    while i < ids.len()
        invariant
            i <= ids@.len(),
            forall|j: int| 0 <= j < i ==> ids@[j] != k,
        decreases ids@.len() - i,
    {
        if ids[i] == k {
            return true;
        }
        i = i + 1;
    }
    false
}

/// One id more that is taken from a list is one more in the set.
pub(crate) proof fn taking_one_more<A>(v: Seq<A>, k: int)
    requires
        0 <= k < v.len(),
    ensures
        v.take(k + 1).to_set() == v.take(k).to_set().insert(v[k]),
{
    let before = v.take(k);
    let after = v.take(k + 1);
    assert forall|x: A| after.to_set().contains(x) <==> before.to_set().insert(v[k]).contains(x) by {
        if after.contains(x) {
            let i = after.index_of(x);
            if i < k {
                assert(before[i] == x);
            }
        }
        if before.contains(x) {
            let i = before.index_of(x);
            assert(after[i] == x);
        }
        assert(after[k] == v[k]);
    }
    assert(after.to_set() =~= before.to_set().insert(v[k]));
}

/// The ids that have a value, each once. The map leaves their order open.
pub fn keys_of<V>(m: &HashMap<u128, V>) -> (r: Vec<u128>)
    ensures
        forall|k: u128| r@.contains(k) <==> #[trigger] m@.contains_key(k),
        r@.no_duplicates(),
{
    let mut r: Vec<u128> = Vec::new();
    let ghost all = vstd::std_specs::iter::IteratorSpec::remaining(&m.keys()).unref();
    assert(all.to_set() == m@.dom());
    assert(all.no_duplicates());
    for k in it: m.keys()
        invariant
            it.seq().unref() == all,
            r@ == all.take(it.index()),
    {
        r.push(*k);
        assert(r@ =~= all.take(it.index() + 1));
    }
    assert(r@ =~= all);
    assert forall|k: u128| r@.contains(k) <==> #[trigger] m@.contains_key(k) by {
        assert(all.to_set().contains(k) <==> m@.dom().contains(k));
    }
    r
}

/// Keeps only the ids that are listed.
pub fn keep_listed<V>(m: &mut HashMap<u128, V>, live: &Vec<u128>)
    ensures
        final(m)@ == old(m)@.restrict(live@.to_set()),
{
    let ghost before = m@;
    let all: Vec<u128> = keys_of(m);
    let mut i: usize = 0;
    assert(all@.skip(0) =~= all@);
    while i < all.len()
        invariant
            i <= all@.len(),
            all@.no_duplicates(),
            forall|k: u128| all@.contains(k) <==> #[trigger] before.contains_key(k),
            forall|k: u128| #[trigger]
                m@.contains_key(k) <==> before.contains_key(k) && (live@.contains(k) || all@.skip(
                    i as int,
                ).contains(k)),
            forall|k: u128| #[trigger] m@.contains_key(k) ==> m@[k] == before[k],
        decreases all@.len() - i,
    {
        let k: u128 = all[i];
        let ghost rest = all@.skip(i as int);
        let ghost next = all@.skip(i + 1);
        proof {
            assert(rest =~= seq![k] + next);
            assert(!next.contains(k));
            assert forall|x: u128| rest.contains(x) <==> x == k || next.contains(x) by {
                if rest.contains(x) && x != k {
                    let j = rest.index_of(x);
                    assert(next[j - 1] == x);
                }
                if next.contains(x) {
                    let j = next.index_of(x);
                    assert(rest[j + 1] == x);
                }
                assert(rest[0] == k);
            }
            assert(all@.contains(k));
        }
        if !contains_id(live, k) {
            let gone: Option<V> = m.remove(&k);
        }
        i = i + 1;
    }
    proof {
        assert(all@.skip(i as int) =~= seq![]);
        assert(m@ =~= before.restrict(live@.to_set()));
    }
}

} // verus!
