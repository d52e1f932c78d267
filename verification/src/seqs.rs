//! Small sequence lemmas used by the cache and the history store.

use vstd::prelude::*;
use vstd::seq_lib::*;

verus! {

/// No two elements of `s` share the same image under `f`.
pub open spec fn distinct_by<A, K>(s: Seq<A>, f: spec_fn(A) -> K) -> bool {
    forall|i: int, j: int| 0 <= i < j < s.len() ==> f(s[i]) != f(s[j])
}

/// Every element of a filtered sequence occurs in the original.
pub proof fn lemma_filter_elements<A>(s: Seq<A>, p: spec_fn(A) -> bool)
    ensures
        forall|i: int| 0 <= i < s.filter(p).len() ==> s.contains(#[trigger] s.filter(p)[i]),
    decreases s.len(),
{
    reveal(Seq::filter);
    if s.len() != 0 {
        let d = s.drop_last();
        lemma_filter_elements(d, p);
        assert forall|i: int| 0 <= i < s.filter(p).len() implies s.contains(
            #[trigger] s.filter(p)[i],
        ) by {
            if i < d.filter(p).len() {
                let x = d.filter(p)[i];
                let j = choose|j: int| 0 <= j < d.len() && d[j] == x;
                assert(s[j] == x);
            } else {
                assert(s.filter(p)[i] == s.last());
                assert(s[s.len() - 1] == s.last());
            }
        }
    }
}

/// Filtering keeps all elements when every element satisfies the predicate.
pub proof fn lemma_filter_all<A>(s: Seq<A>, p: spec_fn(A) -> bool)
    requires
        forall|i: int| 0 <= i < s.len() ==> p(#[trigger] s[i]),
    ensures
        s.filter(p) == s,
    decreases s.len(),
{
    reveal(Seq::filter);
    if s.len() != 0 {
        let d = s.drop_last();
        lemma_filter_all(d, p);
        assert(s.filter(p) =~= s);
    } else {
        assert(s.filter(p) =~= s);
    }
}

/// Filtering preserves pairwise distinctness under any projection.
pub proof fn lemma_filter_distinct_by<A, K>(s: Seq<A>, p: spec_fn(A) -> bool, f: spec_fn(A) -> K)
    requires
        distinct_by(s, f),
    ensures
        distinct_by(s.filter(p), f),
    decreases s.len(),
{
    reveal(Seq::filter);
    if s.len() != 0 {
        let d = s.drop_last();
        assert(distinct_by(d, f)) by {
            assert(forall|i: int| 0 <= i < d.len() ==> d[i] == s[i]);
        }
        lemma_filter_distinct_by(d, p, f);
        if p(s.last()) {
            let df = d.filter(p);
            assert forall|i: int, j: int|
                0 <= i < j < s.filter(p).len() implies f(s.filter(p)[i]) != f(
                s.filter(p)[j],
            ) by {
                if j < df.len() {
                } else {
                    assert(s.filter(p)[j] == s.last());
                    lemma_filter_elements(d, p);
                    let x = df[i];
                    assert(d.contains(x));
                    let m = choose|m: int| 0 <= m < d.len() && d[m] == x;
                    assert(s[m] == x);
                    assert(f(s[m]) != f(s[s.len() - 1]));
                }
            }
        }
    }
}

/// Removing the only element that fails the predicate is the same as
/// filtering by it.
pub proof fn lemma_remove_only_match<A>(s: Seq<A>, i: int, p: spec_fn(A) -> bool)
    requires
        0 <= i < s.len(),
        !p(s[i]),
        forall|j: int| 0 <= j < s.len() && j != i ==> p(#[trigger] s[j]),
    ensures
        s.remove(i) == s.filter(p),
    decreases s.len(),
{
    reveal(Seq::filter);
    let d = s.drop_last();
    if i == s.len() - 1 {
        assert(s.remove(i) =~= d);
        assert(forall|j: int| 0 <= j < d.len() ==> p(#[trigger] d[j]));
        lemma_filter_all(d, p);
    } else {
        assert(p(s.last()));
        assert(!p(d[i]));
        assert(forall|j: int| 0 <= j < d.len() && j != i ==> p(#[trigger] d[j]));
        lemma_remove_only_match(d, i, p);
        assert(s.remove(i) =~= d.remove(i).push(s.last()));
        assert(s.filter(p) == d.filter(p).push(s.last()));
    }
}

} // verus!
