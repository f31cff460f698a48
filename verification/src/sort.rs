//! Stable sorting by an integer key.

use vstd::prelude::*;

verus! {

/// The values whose key is `k`.
pub open spec fn keyed<T>(key: spec_fn(T) -> int, k: int) -> spec_fn(T) -> bool {
    |x: T| key(x) == k
}

/// Whether the keys of `s` do not fall.
pub open spec fn ascending<T>(s: Seq<T>, key: spec_fn(T) -> int) -> bool {
    forall|i: int, j: int| 0 <= i < j < s.len() ==> key(#[trigger] s[i]) <= key(#[trigger] s[j])
}

/// Whether `r` holds the values of `s` by rising key, values with one key in the order of `s`.
pub open spec fn is_stable_sort<T>(r: Seq<T>, s: Seq<T>, key: spec_fn(T) -> int) -> bool {
    &&& ascending(r, key)
    &&& r.to_multiset() == s.to_multiset()
    &&& forall|k: int| #![trigger keyed(key, k)] r.filter(keyed(key, k)) == s.filter(keyed(key, k))
}

proof fn lemma_insert<T>(r: Seq<T>, s: Seq<T>, key: spec_fn(T) -> int, p: int, x: T)
    requires
        is_stable_sort(r, s, key),
        0 <= p <= r.len(),
        forall|i: int| 0 <= i < p ==> key(#[trigger] r[i]) < key(x),
        forall|i: int| p <= i < r.len() ==> key(x) <= key(#[trigger] r[i]),
    ensures
        is_stable_sort(r.insert(p, x), seq![x] + s, key),
{
    broadcast use vstd::seq_lib::group_to_multiset_ensures;

    let a = r.take(p);
    let b = r.skip(p);
    let after = r.insert(p, x);
    assert(r =~= a + b);
    assert(after =~= a + (seq![x] + b));
    assert((seq![x] + s) =~= s.insert(0, x));
    assert forall|i: int, j: int| 0 <= i < j < after.len() implies key(#[trigger] after[i]) <= key(
        #[trigger] after[j],
    ) by {
        let i1 = if i < p { i } else { i - 1 };
        let j1 = if j < p { j } else { j - 1 };
        assert(i != p ==> after[i] == r[i1]);
        assert(j != p ==> after[j] == r[j1]);
    }
    assert forall|k: int|
        #![trigger keyed(key, k)]
        after.filter(keyed(key, k)) == (seq![x] + s).filter(keyed(key, k)) by {
        let f = keyed(key, k);
        Seq::filter_distributes_over_add(a, b, f);
        Seq::filter_distributes_over_add(a, seq![x] + b, f);
        b.lemma_filter_prepend(x, f);
        s.lemma_filter_prepend(x, f);
        assert(r.filter(f) == s.filter(f));
        if key(x) == k {
            assert forall|i: int| 0 <= i < a.len() implies !f(#[trigger] a[i]) by {
                assert(a[i] == r[i]);
            }
            lemma_none_kept(a, f);
            assert(a.filter(f) + b.filter(f) =~= b.filter(f));
            assert(after.filter(f) =~= seq![x] + b.filter(f));
        } else {
            assert(after.filter(f) == a.filter(f) + b.filter(f));
        }
    }
}

proof fn lemma_none_kept<T>(s: Seq<T>, f: spec_fn(T) -> bool)
    requires
        forall|i: int| 0 <= i < s.len() ==> !f(#[trigger] s[i]),
    ensures
        s.filter(f) == Seq::<T>::empty(),
    decreases s.len(),
{
    reveal(Seq::filter);
    if s.len() > 0 {
        assert forall|i: int| 0 <= i < s.drop_last().len() implies !f(
            #[trigger] s.drop_last()[i],
        ) by {
            assert(s.drop_last()[i] == s[i]);
        }
        lemma_none_kept(s.drop_last(), f);
    }
}

/// The values of `items` by rising key, values with one key in the order of `items`. Each value
/// comes with its key.
pub(crate) fn stable_sort<T>(items: Vec<(i128, T)>, Ghost(key): Ghost<spec_fn(T) -> int>) -> (r:
    Vec<T>)
    requires
        forall|i: int| 0 <= i < items@.len() ==> (#[trigger] items@[i]).0 == key(items@[i].1),
    ensures
        is_stable_sort(r@, items@.map_values(|p: (i128, T)| p.1), key),
{
    let ghost all = items@.map_values(|p: (i128, T)| p.1);
    let mut rest = items;
    let mut keys: Vec<i128> = Vec::new();
    let mut out: Vec<T> = Vec::new();
    assert(all.skip(all.len() as int) =~= Seq::<T>::empty());
    loop
        invariant
            all == items@.map_values(|p: (i128, T)| p.1),
            rest@.len() <= items@.len(),
            rest@ == items@.take(rest@.len() as int),
            forall|i: int| 0 <= i < items@.len() ==> (#[trigger] items@[i]).0 == key(items@[i].1),
            keys@.len() == out@.len(),
            forall|i: int| 0 <= i < out@.len() ==> #[trigger] keys@[i] == key(out@[i]),
            is_stable_sort(out@, all.skip(rest@.len() as int), key),
        ensures
            is_stable_sort(out@, all, key),
        decreases rest@.len(),
    {
        let ghost m = rest@.len() as int;
        match rest.pop() {
            None => {
                assert(all.skip(0) =~= all);
                break;
            },
            Some((k, x)) => {
                assert(items@[m - 1] == (k, x));
                let n: usize = out.len();
                let mut p: usize = 0;
                while p < n && keys[p] < k
                    invariant
                        p <= n == out@.len() == keys@.len(),
                        forall|i: int| 0 <= i < out@.len() ==> #[trigger] keys@[i] == key(out@[i]),
                        forall|i: int| 0 <= i < p ==> key(#[trigger] out@[i]) < k,
                    decreases n - p,
                {
                    assert(keys@[p as int] == key(out@[p as int]));
                    p = p + 1;
                }
                proof {
                    assert forall|i: int| p <= i < out@.len() implies key(x) <= key(
                        #[trigger] out@[i],
                    ) by {
                        assert(keys@[p as int] == key(out@[p as int]));
                        if p < i {
                            assert(key(out@[p as int]) <= key(out@[i]));
                        }
                    }
                    lemma_insert(out@, all.skip(m), key, p as int, x);
                    assert(seq![x] + all.skip(m) =~= all.skip(m - 1));
                }
                keys.insert(p, k);
                out.insert(p, x);
                assert(rest@ =~= items@.take(rest@.len() as int));
            },
        }
    }
    out
}

}
