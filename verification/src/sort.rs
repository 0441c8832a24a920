use vstd::prelude::*;

verus! {

broadcast use vstd::seq_lib::group_seq_properties;

/// `s` is in nondecreasing order of `key`.
pub open spec fn sorted_by_key<T>(s: Seq<T>, key: spec_fn(T) -> int) -> bool {
    forall|i: int, j: int| 0 <= i < j < s.len() ==> key(s[i]) <= key(s[j])
}

/// The predicate "has key `k`".
pub open spec fn has_key<T>(key: spec_fn(T) -> int, k: int) -> spec_fn(T) -> bool {
    |x: T| key(x) == k
}

/// `out` is the stable sort of `inp` by `key`: it is sorted, and for every key
/// the items that carry it appear in `out` exactly as they appear in `inp`.
/// This determines `out` uniquely.
pub open spec fn stable_sorted<T>(out: Seq<T>, inp: Seq<T>, key: spec_fn(T) -> int) -> bool {
    &&& sorted_by_key(out, key)
    &&& forall|k: int| #[trigger] out.filter(has_key(key, k)) == inp.filter(has_key(key, k))
}

/// Nothing is the stable sort of nothing.
pub proof fn lemma_stable_sorted_empty<T>(key: spec_fn(T) -> int)
    ensures
        stable_sorted(Seq::<T>::empty(), Seq::<T>::empty(), key),
{
    assert forall|k: int| #[trigger] Seq::<T>::empty().filter(has_key(key, k)) == Seq::<T>::empty().filter(has_key(key, k)) by {}
}

/// Inserting the next input item after every item whose key is not greater
/// than its own, and before every item whose key is greater, keeps the result
/// the stable sort of the longer input.
pub proof fn lemma_stable_insert<T>(out: Seq<T>, inp: Seq<T>, x: T, p: int, key: spec_fn(T) -> int)
    requires
        stable_sorted(out, inp, key),
        0 <= p <= out.len(),
        forall|i: int| 0 <= i < p ==> key(#[trigger] out[i]) <= key(x),
        forall|i: int| p <= i < out.len() ==> key(#[trigger] out[i]) > key(x),
    ensures
        stable_sorted(out.insert(p, x), inp.push(x), key),
{
    let res = out.insert(p, x);
    let a = out.subrange(0, p);
    let b = out.subrange(p, out.len() as int);
    assert(out =~= a + b);
    assert(res =~= a.push(x) + b);
    assert forall|i: int, j: int| 0 <= i < j < res.len() implies key(res[i]) <= key(res[j]) by {
        if j < p {
        } else if j == p {
        } else if i < p {
            assert(res[j] == out[j - 1]);
        } else if i == p {
            assert(res[j] == out[j - 1]);
        } else {
            assert(res[i] == out[i - 1]);
            assert(res[j] == out[j - 1]);
        }
    }
    assert forall|k: int| #[trigger] res.filter(has_key(key, k)) == inp.push(x).filter(has_key(key, k)) by {
        let pr = has_key(key, k);
        Seq::filter_distributes_over_add(a.push(x), b, pr);
        Seq::filter_distributes_over_add(a, b, pr);
        a.lemma_filter_push(x, pr);
        inp.lemma_filter_push(x, pr);
        assert(out.filter(pr) == inp.filter(pr));
        if key(x) == k {
            assert forall|i: int| 0 <= i < b.len() implies !pr(#[trigger] b[i]) by {
                assert(b[i] == out[p + i]);
            }
            b.lemma_all_neg_filter_empty(pr);
            assert(b.filter(pr) =~= Seq::<T>::empty());
            assert(a.filter(pr) + b.filter(pr) =~= a.filter(pr));
            assert(a.filter(pr).push(x) + b.filter(pr) =~= a.filter(pr).push(x));
        }
    }
}

/// Every item of a stable sort comes from its input.
pub proof fn lemma_stable_sorted_contains<T>(out: Seq<T>, inp: Seq<T>, key: spec_fn(T) -> int, i: int)
    requires
        stable_sorted(out, inp, key),
        0 <= i < out.len(),
    ensures
        inp.contains(out[i]),
{
    let pr = has_key(key, key(out[i]));
    out.lemma_filter_contains(pr, i);
    assert(out.filter(pr) == inp.filter(pr));
    inp.lemma_filter_contains_rev(pr, out[i]);
}

} // verus!
