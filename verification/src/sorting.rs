//! Sorting by a strict key order: the sorted arrangement of a collection
//! whose elements have pairwise distinct identifiers.

use vstd::prelude::*;
use vstd::multiset::Multiset;

verus! {

broadcast use vstd::seq_lib::group_to_multiset_ensures;

/// Elements ordered by a key that includes a unique identifier.
pub trait KeyOrder: Sized {
    /// The identifier that breaks every tie.
    spec fn key_id(&self) -> i64;

    /// `self` sorts strictly before `other`.
    spec fn key_lt(&self, other: &Self) -> bool;

    /// Whether `self` sorts strictly before `other`.
    fn precedes(&self, other: &Self) -> (b: bool)
        ensures
            b == self.key_lt(other),
    ;

    proof fn lemma_irreflexive(a: &Self)
        ensures
            !a.key_lt(a),
    ;

    proof fn lemma_transitive(a: &Self, b: &Self, c: &Self)
        requires
            a.key_lt(b),
            b.key_lt(c),
        ensures
            a.key_lt(c),
    ;

    proof fn lemma_total(a: &Self, b: &Self)
        requires
            a.key_id() != b.key_id(),
        ensures
            a.key_lt(b) || b.key_lt(a),
    ;

    proof fn lemma_asymmetric(a: &Self, b: &Self)
        requires
            a.key_lt(b),
        ensures
            !b.key_lt(a),
    ;
}

/// Every element sorts strictly before the later ones.
pub open spec fn strictly_sorted<T: KeyOrder>(s: Seq<T>) -> bool {
    forall|i: int, j: int| #![trigger s[i], s[j]] 0 <= i < j < s.len() ==> s[i].key_lt(&s[j])
}

/// No two elements share an identifier.
pub open spec fn distinct_ids<T: KeyOrder>(s: Seq<T>) -> bool {
    forall|i: int, j: int|
        0 <= i < s.len() && 0 <= j < s.len() && i != j ==> (#[trigger] s[i]).key_id() != (
        #[trigger] s[j]).key_id()
}

/// `v` in key order.
pub fn sort_by_key<T: KeyOrder>(v: Vec<T>) -> (r: Vec<T>)
    requires
        distinct_ids(v@),
    ensures
        r@.to_multiset() == v@.to_multiset(),
        strictly_sorted(r@),
{
    let ghost orig = v@;
    let mut rest = v;
    let mut out: Vec<T> = Vec::new();
    proof {
        assert(out@.to_multiset() =~= Multiset::empty());
        assert(out@.to_multiset().add(rest@.to_multiset()) =~= orig.to_multiset());
    }
    while rest.len() > 0
        invariant
            out@.to_multiset().add(rest@.to_multiset()) == orig.to_multiset(),
            strictly_sorted(out@),
            distinct_ids(out@),
            distinct_ids(rest@),
            forall|a: int, b: int|
                0 <= a < out@.len() && 0 <= b < rest@.len() ==> (#[trigger] out@[a]).key_id() != (
                #[trigger] rest@[b]).key_id(),
        decreases rest@.len(),
    {
        let ghost r0 = rest@;
        let x = rest.pop().unwrap();
        proof {
            assert(rest@ =~= r0.drop_last());
            assert(r0 =~= rest@.push(x));
            assert forall|b: int| 0 <= b < rest@.len() implies #[trigger] rest@[b].key_id()
                != x.key_id() by {
                assert(r0[b] == rest@[b]);
                assert(r0[r0.len() - 1] == x);
            }
        }
        let mut p: usize = 0;
        while p < out.len() && out[p].precedes(&x)
            invariant
                p <= out@.len(),
                forall|k: int| 0 <= k < p ==> (#[trigger] out@[k]).key_lt(&x),
            decreases out@.len() - p,
        {
            p = p + 1;
        }
        proof {
            if p < out@.len() {
                assert(out@[p as int].key_id() != x.key_id()) by {
                    assert(r0[r0.len() - 1] == x);
                }
                T::lemma_total(&out@[p as int], &x);
                assert forall|k: int| #![trigger out@[k]] p <= k < out@.len() implies x.key_lt(
                    &out@[k],
                ) by {
                    if k > p {
                        T::lemma_transitive(&x, &out@[p as int], &out@[k]);
                    }
                }
            }
        }
        let ghost o0 = out@;
        out.insert(p, x);
        proof {
            assert(out@ =~= o0.insert(p as int, x));
            assert forall|i: int, j: int| #![trigger out@[i], out@[j]]
                0 <= i < j < out@.len() implies out@[i].key_lt(&out@[j]) by {
                if j < p {
                    assert(out@[i] == o0[i] && out@[j] == o0[j]);
                } else if j == p {
                    assert(out@[i] == o0[i]);
                } else if i < p {
                    assert(out@[i] == o0[i] && out@[j] == o0[j - 1]);
                    assert(o0[i].key_lt(&x));
                    assert(x.key_lt(&o0[j - 1]));
                    T::lemma_transitive(&o0[i], &x, &o0[j - 1]);
                } else if i == p {
                    assert(out@[j] == o0[j - 1]);
                } else {
                    assert(out@[i] == o0[i - 1] && out@[j] == o0[j - 1]);
                }
            }
            assert forall|i: int, j: int|
                0 <= i < out@.len() && 0 <= j < out@.len() && i != j implies (
            #[trigger] out@[i]).key_id() != (#[trigger] out@[j]).key_id() by {
                let oi = if i < p {
                    i
                } else {
                    i - 1
                };
                let oj = if j < p {
                    j
                } else {
                    j - 1
                };
                if i != p && j != p {
                    assert(out@[i] == o0[oi] && out@[j] == o0[oj]);
                } else if i == p {
                    assert(out@[j] == o0[oj]);
                    assert(r0[r0.len() - 1] == x);
                    assert(r0.len() - 1 < r0.len());
                } else {
                    assert(out@[i] == o0[oi]);
                    assert(r0[r0.len() - 1] == x);
                }
            }
            assert forall|a: int, b: int|
                0 <= a < out@.len() && 0 <= b < rest@.len() implies (#[trigger] out@[a]).key_id()
                != (#[trigger] rest@[b]).key_id() by {
                assert(rest@[b] == r0[b]);
                if a < p {
                    assert(out@[a] == o0[a]);
                } else if a > p {
                    assert(out@[a] == o0[a - 1]);
                }
            }
            assert(out@.to_multiset() == o0.to_multiset().insert(x));
            assert(r0.to_multiset() == rest@.to_multiset().insert(x));
            assert(out@.to_multiset().add(rest@.to_multiset()) =~= o0.to_multiset().add(
                r0.to_multiset(),
            ));
        }
    }
    proof {
        assert(rest@.to_multiset() =~= Multiset::empty());
        assert(out@.to_multiset() =~= out@.to_multiset().add(rest@.to_multiset()));
    }
    out
}

} // verus!
