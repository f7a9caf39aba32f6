//! Ordering of listed records: a total preorder per record kind and a stable
//! insertion sort over it.

use vstd::prelude::*;
use crate::scan::{lex_lt, lex_le, chars_lt, lemma_lex_total, lemma_lex_transitive, lemma_lex_irreflexive};
use crate::text::chars_of;

verus! {

broadcast use vstd::seq_lib::group_to_multiset_ensures;

/// A total preorder on the values of a type, with an executable test.
pub trait SortKey: Sized {
    spec fn key_le(a: Self, b: Self) -> bool;

    proof fn lemma_key_total(a: Self, b: Self)
        ensures
            Self::key_le(a, b) || Self::key_le(b, a),
    ;

    proof fn lemma_key_transitive(a: Self, b: Self, c: Self)
        requires
            Self::key_le(a, b),
            Self::key_le(b, c),
        ensures
            Self::key_le(a, c),
    ;

    fn key_le_exec(&self, other: &Self) -> (r: bool)
        ensures
            r == Self::key_le(*self, *other),
    ;
}

/// The sequence is in non-decreasing order.
pub open spec fn sorted_by<T: SortKey>(s: Seq<T>) -> bool {
    forall|i: int, j: int| 0 <= i < j < s.len() ==> T::key_le(#[trigger] s[i], #[trigger] s[j])
}

/// The values that compare equal to `e`: each at most and at least `e`.
pub open spec fn key_class<T: SortKey>(e: T) -> spec_fn(T) -> bool {
    |y: T| T::key_le(y, e) && T::key_le(e, y)
}

/// A sequence none of whose values passes `pred` filters to nothing.
proof fn lemma_filter_none<T>(s: Seq<T>, pred: spec_fn(T) -> bool)
    requires
        forall|i: int| 0 <= i < s.len() ==> !pred(#[trigger] s[i]),
    ensures
        s.filter(pred) == Seq::<T>::empty(),
    decreases s.len(),
{
    reveal(Seq::filter);
    if s.len() > 0 {
        assert forall|i: int| 0 <= i < s.drop_last().len() implies !pred(#[trigger] s.drop_last()[i]) by {
            assert(s.drop_last()[i] == s[i]);
        }
        lemma_filter_none(s.drop_last(), pred);
        assert(!pred(s[s.len() - 1]));
    }
}

/// Filtering a sequence with one more value at the end.
proof fn lemma_filter_push<T>(s: Seq<T>, x: T, pred: spec_fn(T) -> bool)
    ensures
        s.push(x).filter(pred) == (if pred(x) {
            s.filter(pred).push(x)
        } else {
            s.filter(pred)
        }),
{
    reveal(Seq::filter);
    assert(s.push(x).drop_last() =~= s);
}

/// Sorts `v` into non-decreasing order; values that compare equal keep their
/// relative order: for every value `e`, the values equal to `e` come out in
/// the order they went in.
pub fn sort_by_key_le<T: SortKey>(v: Vec<T>) -> (r: Vec<T>)
    ensures
        sorted_by(r@),
        r@.to_multiset() == v@.to_multiset(),
        forall|e: T| #[trigger] r@.filter(key_class(e)) == v@.filter(key_class(e)),
{
    let ghost orig = v@;
    let mut rest = v;
    let mut r: Vec<T> = Vec::new();
    proof {
        assert forall|e: T| #[trigger] orig.filter(key_class(e)) == rest@.filter(key_class(e)) + r@.filter(
            key_class(e),
        ) by {
            reveal(Seq::filter);
            assert(r@.filter(key_class(e)) =~= Seq::<T>::empty());
            assert(rest@.filter(key_class(e)) + r@.filter(key_class(e)) =~= rest@.filter(key_class(e)));
        }
    }
    while rest.len() > 0
        invariant
            sorted_by(r@),
            r@.to_multiset().add(rest@.to_multiset()) == orig.to_multiset(),
            forall|e: T| #[trigger] orig.filter(key_class(e)) == rest@.filter(key_class(e)) + r@.filter(
                key_class(e),
            ),
        decreases rest.len(),
    {
        let ghost before = rest@;
        let x = rest.pop().unwrap();
        proof {
            assert(before =~= rest@.push(x));
        }
        let mut p: usize = 0;
        while p < r.len() && !x.key_le_exec(&r[p])
            invariant
                p <= r.len(),
                sorted_by(r@),
                forall|k: int| 0 <= k < p ==> !T::key_le(x, #[trigger] r@[k]),
            decreases r.len() - p,
        {
            p = p + 1;
        }
        let ghost old_r = r@;
        proof {
            assert forall|k: int| 0 <= k < p implies T::key_le(#[trigger] old_r[k], x) by {
                T::lemma_key_total(x, old_r[k]);
            }
            assert forall|q: int| p <= q < old_r.len() implies T::key_le(x, #[trigger] old_r[q]) by {
                if q > p {
                    T::lemma_key_transitive(x, old_r[p as int], old_r[q]);
                }
            }
        }
        r.insert(p, x);
        proof {
            let n = r@;
            assert(n == old_r.insert(p as int, x));
            assert forall|i: int, j: int| 0 <= i < j < n.len() implies T::key_le(#[trigger] n[i], #[trigger] n[j]) by {
                if j < p {
                    assert(n[i] == old_r[i] && n[j] == old_r[j]);
                } else if j == p {
                    assert(n[i] == old_r[i]);
                } else if i < p {
                    assert(n[i] == old_r[i] && n[j] == old_r[j - 1]);
                    T::lemma_key_transitive(old_r[i], x, old_r[j - 1]);
                } else if i == p {
                    assert(n[j] == old_r[j - 1]);
                } else {
                    assert(n[i] == old_r[i - 1] && n[j] == old_r[j - 1]);
                }
            }
            assert forall|e: T| #[trigger] orig.filter(key_class(e)) == rest@.filter(key_class(e))
                + n.filter(key_class(e)) by {
                let pr = key_class(e);
                let a = old_r.take(p as int);
                let b = old_r.skip(p as int);
                assert(n =~= a + seq![x] + b);
                assert(old_r =~= a + b);
                Seq::filter_distributes_over_add(a + seq![x], b, pr);
                Seq::filter_distributes_over_add(a, seq![x], pr);
                Seq::filter_distributes_over_add(a, b, pr);
                lemma_filter_push(Seq::<T>::empty(), x, pr);
                assert(Seq::<T>::empty().push(x) =~= seq![x]);
                assert(Seq::<T>::empty().filter(pr) =~= Seq::<T>::empty()) by {
                    reveal(Seq::filter);
                }
                lemma_filter_push(rest@, x, pr);
                if pr(x) {
                    assert forall|k: int| 0 <= k < a.len() implies !pr(#[trigger] a[k]) by {
                        assert(a[k] == old_r[k]);
                        if pr(a[k]) {
                            T::lemma_key_transitive(x, e, old_r[k]);
                        }
                    }
                    lemma_filter_none(a, pr);
                    assert(a.filter(pr) + seq![x] =~= seq![x]);
                    assert(a.filter(pr) + b.filter(pr) =~= b.filter(pr));
                    assert(rest@.filter(pr) + n.filter(pr) =~= rest@.filter(pr).push(x) + old_r.filter(pr));
                } else {
                    assert(a.filter(pr) + Seq::<T>::empty() =~= a.filter(pr));
                    assert(n.filter(pr) == old_r.filter(pr));
                }
            }
            assert(n.to_multiset() == old_r.to_multiset().insert(x));
            assert(before.to_multiset() == rest@.to_multiset().insert(x));
            assert(r@.to_multiset().add(rest@.to_multiset()) =~= old_r.to_multiset().add(before.to_multiset()));
        }
    }
    proof {
        assert(rest@.to_multiset() =~= vstd::multiset::Multiset::empty());
        assert(r@.to_multiset().add(rest@.to_multiset()) =~= r@.to_multiset());
        assert forall|e: T| #[trigger] r@.filter(key_class(e)) == orig.filter(key_class(e)) by {
            reveal(Seq::filter);
            assert(rest@ =~= Seq::<T>::empty());
            assert(rest@.filter(key_class(e)) =~= Seq::<T>::empty());
            assert(rest@.filter(key_class(e)) + r@.filter(key_class(e)) =~= r@.filter(key_class(e)));
        }
    }
    r
}

impl SortKey for String {
    open spec fn key_le(a: Self, b: Self) -> bool {
        lex_le(a@, b@)
    }

    proof fn lemma_key_total(a: Self, b: Self) {
        lemma_lex_total(a@, b@);
    }

    proof fn lemma_key_transitive(a: Self, b: Self, c: Self) {
        if lex_lt(a@, b@) && lex_lt(b@, c@) {
            lemma_lex_transitive(a@, b@, c@);
        }
    }

    fn key_le_exec(&self, other: &Self) -> (r: bool) {
        let a = chars_of(self.as_str());
        let b = chars_of(other.as_str());
        proof {
            lemma_lex_total(a@, b@);
            if lex_lt(a@, b@) && lex_lt(b@, a@) {
                lemma_lex_transitive(a@, b@, a@);
                lemma_lex_irreflexive(a@);
            }
        }
        !chars_lt(&b, &a)
    }
}

} // verus!
