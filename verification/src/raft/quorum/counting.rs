//! Facts about counting and ordering the ids of a set walked as a sequence.
use vstd::prelude::*;

verus! {

broadcast use vstd::set::group_set_axioms, vstd::seq_lib::group_seq_properties;

/// For a sequence that holds nothing twice, counting its elements that
/// satisfy `p` gives the size of the part of its set that satisfies `p`.
pub proof fn lemma_count_distinct(s: Seq<u64>, p: spec_fn(u64) -> bool)
    requires
        s.no_duplicates(),
    ensures
        s.filter(p).len() == s.to_set().filter(p).len(),
    decreases s.len(),
{
    reveal(Seq::filter);
    if s.len() == 0 {
        assert(s.to_set() =~= Set::empty());
        assert(s.to_set().filter(p) =~= Set::empty());
    } else {
        let t = s.drop_last();
        let x = s.last();
        assert(s =~= t.push(x));
        assert(t.no_duplicates());
        lemma_count_distinct(t, p);
        t.lemma_filter_push(x, p);
        assert(s.to_set() =~= t.to_set().insert(x));
        assert(!t.to_set().contains(x)) by {
            if t.to_set().contains(x) {
                let k = choose|k: int| 0 <= k < t.len() && t[k] == x;
                assert(s[k] == s[s.len() - 1]);
            }
        }
        if p(x) {
            assert(s.to_set().filter(p) =~= t.to_set().filter(p).insert(x));
        } else {
            assert(s.to_set().filter(p) =~= t.to_set().filter(p));
        }
    }
}

/// Filtering by two predicates that agree on every element gives the same
/// sequence.
pub proof fn lemma_filter_agree(s: Seq<u64>, p: spec_fn(u64) -> bool, q: spec_fn(u64) -> bool)
    requires
        forall|k: int| 0 <= k < s.len() ==> p(#[trigger] s[k]) == q(s[k]),
    ensures
        s.filter(p) == s.filter(q),
    decreases s.len(),
{
    reveal(Seq::filter);
    if s.len() > 0 {
        let t = s.drop_last();
        assert forall|k: int| 0 <= k < t.len() implies p(#[trigger] t[k]) == q(t[k]) by {
            assert(t[k] == s[k]);
        }
        lemma_filter_agree(t, p, q);
    }
}

/// Among the elements whose key is at least `c`, one has the least key.
pub proof fn lemma_least_at_least(s: Seq<u64>, f: spec_fn(u64) -> u64, c: u64) -> (m: int)
    requires
        exists|k: int| 0 <= k < s.len() && f(s[k]) >= c,
    ensures
        0 <= m < s.len(),
        f(s[m]) >= c,
        forall|k: int| 0 <= k < s.len() && f(s[k]) >= c ==> f(#[trigger] s[k]) >= f(s[m]),
    decreases s.len(),
{
    let t = s.drop_last();
    let x = s.last();
    if exists|k: int| 0 <= k < t.len() && f(t[k]) >= c {
        let m0 = lemma_least_at_least(t, f, c);
        assert(t[m0] == s[m0]);
        if f(x) >= c && f(x) < f(s[m0]) {
            assert forall|k: int| 0 <= k < s.len() && f(s[k]) >= c implies f(
                #[trigger] s[k],
            ) >= f(s[s.len() - 1]) by {
                if k < s.len() - 1 {
                    assert(t[k] == s[k]);
                }
            }
            s.len() - 1
        } else {
            assert forall|k: int| 0 <= k < s.len() && f(s[k]) >= c implies f(#[trigger] s[k])
                >= f(s[m0]) by {
                if k < s.len() - 1 {
                    assert(t[k] == s[k]);
                }
            }
            m0
        }
    } else {
        let k0 = choose|k: int| 0 <= k < s.len() && f(s[k]) >= c;
        if k0 < s.len() - 1 {
            assert(t[k0] == s[k0]);
        }
        assert forall|k: int| 0 <= k < s.len() && f(s[k]) >= c implies f(#[trigger] s[k]) >= f(
            s[s.len() - 1],
        ) by {
            if k < s.len() - 1 {
                assert(t[k] == s[k]);
            }
        }
        s.len() - 1
    }
}

/// Every element of a strictly increasing sequence comes after the ones
/// before it.
pub open spec fn strictly_increasing(s: Seq<u64>) -> bool {
    forall|i: int, j: int| 0 <= i < j < s.len() ==> s[i] < s[j]
}

/// Two strictly increasing sequences with the same elements are equal.
pub proof fn lemma_increasing_unique(a: Seq<u64>, b: Seq<u64>)
    requires
        strictly_increasing(a),
        strictly_increasing(b),
        a.to_set() == b.to_set(),
    ensures
        a == b,
{
    assert(a.no_duplicates());
    assert(b.no_duplicates());
    a.unique_seq_to_set();
    b.unique_seq_to_set();
    assert forall|i: int| 0 <= i < a.len() implies a[i] == b[i] by {
        lemma_increasing_prefix_agree(a, b, i);
    }
    assert(a =~= b);
}

proof fn lemma_increasing_prefix_agree(a: Seq<u64>, b: Seq<u64>, i: int)
    requires
        strictly_increasing(a),
        strictly_increasing(b),
        a.to_set() == b.to_set(),
        a.len() == b.len(),
        0 <= i < a.len(),
    ensures
        a[i] == b[i],
    decreases i,
{
    assert forall|j: int| 0 <= j < i implies a[j] == b[j] by {
        lemma_increasing_prefix_agree(a, b, j);
    }
    assert(a.to_set().contains(a[i]));
    assert(b.to_set().contains(b[i]));
    let k = choose|k: int| 0 <= k < b.len() && b[k] == a[i];
    let l = choose|l: int| 0 <= l < a.len() && a[l] == b[i];
    if k < i {
        assert(a[k] == b[k]);
    }
    if l < i {
        assert(a[l] == b[l]);
    }
}

/// The strictly increasing listing of a finite set of ids.
pub open spec fn sorted_ids(s: Set<u64>) -> Seq<u64> {
    choose|q: Seq<u64>| strictly_increasing(q) && q.to_set() == s
}

/// A strictly increasing listing of a set is the one that `sorted_ids`
/// names.
pub proof fn lemma_sorted_ids(q: Seq<u64>, s: Set<u64>)
    requires
        strictly_increasing(q),
        q.to_set() == s,
    ensures
        sorted_ids(s) == q,
{
    let c = sorted_ids(s);
    assert(strictly_increasing(c) && c.to_set() == s);
    lemma_increasing_unique(c, q);
}

} // verus!
