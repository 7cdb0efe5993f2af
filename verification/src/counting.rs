//! Counting the elements of a sequence that satisfy a predicate.

use vstd::prelude::*;

verus! {

/// The predicate that holds of `v` alone.
pub open spec fn is_value<T>(v: T) -> spec_fn(T) -> bool {
    |x: T| x == v
}

/// One if the predicate holds of the value, zero if not.
pub open spec fn one_if<T>(p: spec_fn(T) -> bool, v: T) -> nat {
    if p(v) {
        1
    } else {
        0
    }
}

/// How many elements of `s` satisfy `p`.
pub open spec fn count_where<T>(s: Seq<T>, p: spec_fn(T) -> bool) -> nat
    decreases s.len(),
{
    if s.len() == 0 {
        0
    } else {
        count_where(s.drop_last(), p) + one_if(p, s.last())
    }
}

/// How many elements of the rows together satisfy `p`.
pub open spec fn count_in_rows<T>(rows: Seq<Seq<T>>, p: spec_fn(T) -> bool) -> nat
    decreases rows.len(),
{
    if rows.len() == 0 {
        0
    } else {
        count_in_rows(rows.drop_last(), p) + count_where(rows.last(), p)
    }
}

/// Replacing one element changes the count by what the old element and the
/// new one add to it.
pub proof fn lemma_count_update<T>(s: Seq<T>, p: spec_fn(T) -> bool, i: int, v: T)
    requires
        0 <= i < s.len(),
    ensures
        count_where(s.update(i, v), p) + one_if(p, s[i]) == count_where(s, p) + one_if(p, v),
    decreases s.len(),
{
    if i == s.len() - 1 {
        assert(s.update(i, v).drop_last() =~= s.drop_last());
    } else {
        assert(s.update(i, v).drop_last() =~= s.drop_last().update(i, v));
        lemma_count_update(s.drop_last(), p, i, v);
    }
}

/// The count of a concatenation is the sum of the counts.
pub proof fn lemma_count_concat<T>(a: Seq<T>, b: Seq<T>, p: spec_fn(T) -> bool)
    ensures
        count_where(a + b, p) == count_where(a, p) + count_where(b, p),
    decreases b.len(),
{
    if b.len() == 0 {
        assert(a + b =~= a);
    } else {
        assert((a + b).drop_last() =~= a + b.drop_last());
        lemma_count_concat(a, b.drop_last(), p);
    }
}

/// Two sequences of one length, of which `p` holds in the first wherever `q`
/// holds in the second, have the same counts.
pub proof fn lemma_count_pointwise<S, T>(
    a: Seq<S>,
    p: spec_fn(S) -> bool,
    b: Seq<T>,
    q: spec_fn(T) -> bool,
)
    requires
        a.len() == b.len(),
        forall|i: int| 0 <= i < a.len() ==> p(#[trigger] a[i]) == q(b[i]),
    ensures
        count_where(a, p) == count_where(b, q),
    decreases a.len(),
{
    if a.len() > 0 {
        lemma_count_pointwise(a.drop_last(), p, b.drop_last(), q);
    }
}

/// A sequence of which `p` holds nowhere counts zero.
pub proof fn lemma_count_none<T>(s: Seq<T>, p: spec_fn(T) -> bool)
    requires
        forall|i: int| 0 <= i < s.len() ==> !p(#[trigger] s[i]),
    ensures
        count_where(s, p) == 0,
    decreases s.len(),
{
    if s.len() > 0 {
        lemma_count_none(s.drop_last(), p);
    }
}

/// The count in a row and the rows after it is the sum of the counts.
pub proof fn lemma_count_in_rows_first<T>(row: Seq<T>, rest: Seq<Seq<T>>, p: spec_fn(T) -> bool)
    ensures
        count_in_rows(seq![row] + rest, p) == count_where(row, p) + count_in_rows(rest, p),
    decreases rest.len(),
{
    let all = seq![row] + rest;
    if rest.len() == 0 {
        assert(all.drop_last() =~= Seq::<Seq<T>>::empty());
        assert(count_in_rows(Seq::<Seq<T>>::empty(), p) == 0);
        assert(all.last() == row);
    } else {
        assert(all.drop_last() =~= seq![row] + rest.drop_last());
        assert(all.last() == rest.last());
        lemma_count_in_rows_first(row, rest.drop_last(), p);
    }
}

} // verus!
