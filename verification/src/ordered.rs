//! Walking an ordered map.

use std::collections::BTreeMap;
use vstd::prelude::*;
use vstd::std_specs::cmp::OrdSpec;
use vstd::std_specs::iter::IteratorSpec;

verus! {

broadcast use vstd::std_specs::btree::group_btree_axioms;

/// The elements of a set of numbers, each once, in increasing order.
pub open spec fn sorted_keys(keys: Seq<u64>, dom: Set<u64>) -> bool {
    &&& forall|i: int, j: int| 0 <= i < j < keys.len() ==> keys[i] < keys[j]
    &&& forall|i: int| 0 <= i < keys.len() ==> dom.contains(#[trigger] keys[i])
    &&& forall|k: u64| #[trigger] dom.contains(k) ==> keys.contains(k)
}

/// The numbers of a set in increasing order.
pub open spec fn in_order(dom: Set<u64>) -> Seq<u64> {
    choose|keys: Seq<u64>| sorted_keys(keys, dom)
}

/// There is one increasing order.
pub proof fn lemma_in_order(keys: Seq<u64>, dom: Set<u64>)
    requires
        sorted_keys(keys, dom),
    ensures
        in_order(dom) == keys,
{
    let other = in_order(dom);
    assert(sorted_keys(other, dom));
    lemma_same_order(keys, other, dom, 0);
    lemma_same_order(other, keys, dom, 0);
    assert(keys =~= other);
}

/// From the `i`th on, the numbers of one increasing order are those of the other.
proof fn lemma_same_order(a: Seq<u64>, b: Seq<u64>, dom: Set<u64>, i: int)
    requires
        sorted_keys(a, dom),
        sorted_keys(b, dom),
        0 <= i <= a.len(),
        i <= b.len(),
        forall|j: int| 0 <= j < i ==> #[trigger] a[j] == b[j],
    ensures
        a.len() <= b.len(),
        forall|j: int| 0 <= j < a.len() ==> #[trigger] a[j] == b[j],
    decreases a.len() - i,
{
    if i < a.len() {
        assert(dom.contains(a[i]));
        assert(b.contains(a[i]));
        let k = choose|k: int| 0 <= k < b.len() && b[k] == a[i];
        if k < i {
            assert(a[k] == b[k]);
            assert(false);
        }
        assert(dom.contains(b[i]));
        assert(a.contains(b[i]));
        let l = choose|l: int| 0 <= l < a.len() && a[l] == b[i];
        if l < i {
            assert(a[l] == b[l]);
            assert(false);
        }
        assert(b[i] <= b[k]);
        assert(a[i] <= a[l]);
        assert(a[i] == b[i]);
        lemma_same_order(a, b, dom, i + 1);
    }
}

/// Every set of numbers has an increasing order.
pub proof fn lemma_has_order(dom: Set<u64>)
    ensures
        sorted_keys(in_order(dom), dom),
{
    let keys = lemma_order_below(dom, 0x1_0000_0000_0000_0000);
    assert(sorted_keys(keys, dom));
}

/// The numbers of a set below `n` in increasing order.
proof fn lemma_order_below(dom: Set<u64>, n: nat) -> (keys: Seq<u64>)
    requires
        n <= 0x1_0000_0000_0000_0000,
    ensures
        forall|i: int, j: int| 0 <= i < j < keys.len() ==> keys[i] < keys[j],
        forall|i: int|
            0 <= i < keys.len() ==> dom.contains(#[trigger] keys[i]) && keys[i] < n,
        forall|k: u64| #[trigger] dom.contains(k) && k < n ==> keys.contains(k),
    decreases n,
{
    if n == 0 {
        Seq::empty()
    } else {
        let last = (n - 1) as u64;
        let before = lemma_order_below(dom, (n - 1) as nat);
        if dom.contains(last) {
            let keys = before.push(last);
            assert forall|k: u64| #[trigger] dom.contains(k) && k < n implies keys.contains(k) by {
                if k == last {
                    assert(keys[before.len() as int] == last);
                } else {
                    let i = choose|i: int| 0 <= i < before.len() && before[i] == k;
                    assert(before.contains(k));
                    assert(keys[i] == k);
                }
            }
            keys
        } else {
            before
        }
    }
}

/// The keys of a map in increasing order.
pub fn keys_in_order<V>(m: &BTreeMap<u64, V>) -> (r: Vec<u64>)
    ensures
        sorted_keys(r@, m@.dom()),
{
    let mut r: Vec<u64> = Vec::new();
    assert(vstd::laws_cmp::obeys_cmp::<u64>());
    let iter = m.iter();
    let ghost all = iter.remaining();
    proof {
        let ks = all.map_values(|kv: (&u64, &V)| *kv.0);
        assert(vstd::std_specs::btree::increasing_seq(ks));
        assert forall|i: int, j: int| 0 <= i < j < all.len() implies *all[i].0 < *all[j].0 by {
            assert(ks[i] == *all[i].0 && ks[j] == *all[j].0);
            assert(ks[i].cmp_spec(&ks[j]) is Less);
        }
    }
    for kv in it: iter
        invariant
            it.seq() == all,
            r@.len() == it.index(),
            forall|j: int| 0 <= j < r@.len() ==> r@[j] == *all[j].0,
    {
        r.push(*kv.0);
    }
    proof {
        assert forall|k: u64| m@.contains_key(k) implies r@.contains(k) by {
            assert(all.contains((&k, &m@[k])));
            let j = choose|j: int| 0 <= j < all.len() && all[j] == (&k, &m@[k]);
            assert(r@[j] == k);
        }
        assert forall|i: int| 0 <= i < r@.len() implies m@.dom().contains(#[trigger] r@[i]) by {
            assert(m@.contains_key(*all[i].0));
        }
    }
    r
}

} // verus!
