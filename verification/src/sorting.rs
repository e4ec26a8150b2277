//! Stable sorting by a strict "comes before" relation.
use vstd::prelude::*;

verus! {

/// `x` inserted into `s` just before the first element that it comes before
/// (at the end if there is none).
pub open spec fn insert_by<A>(s: Seq<A>, x: A, lt: spec_fn(A, A) -> bool) -> Seq<A>
    decreases s.len(),
{
    if s.len() == 0 {
        seq![x]
    } else if lt(x, s[0]) {
        seq![x] + s
    } else {
        seq![s[0]] + insert_by(s.drop_first(), x, lt)
    }
}

/// The stable sort of `s` by `lt`: elements in order, and elements of which
/// neither comes before the other kept in their original relative order.
pub open spec fn sort_stable_by<A>(s: Seq<A>, lt: spec_fn(A, A) -> bool) -> Seq<A>
    decreases s.len(),
{
    if s.len() == 0 {
        s
    } else {
        insert_by(sort_stable_by(s.drop_last(), lt), s.last(), lt)
    }
}

/// No element comes before an element that precedes it.
pub open spec fn is_sorted_by<A>(s: Seq<A>, lt: spec_fn(A, A) -> bool) -> bool {
    forall|i: int, j: int| 0 <= i < j < s.len() ==> !lt(#[trigger] s[j], #[trigger] s[i])
}

/// `lt` is a strict order: irreflexive and transitive.
pub open spec fn is_strict_order<A>(lt: spec_fn(A, A) -> bool) -> bool {
    &&& forall|a: A| !#[trigger] lt(a, a)
    &&& forall|a: A, b: A, c: A| #[trigger] lt(a, b) && #[trigger] lt(b, c) ==> lt(a, c)
}

/// Records that can be put in order by a strict "comes before" relation.
pub trait Ranked: Sized {
    /// `a` comes strictly before `b`.
    spec fn comes_before(a: Self, b: Self) -> bool;

    /// Executable form of `comes_before`.
    fn before(&self, other: &Self) -> (r: bool)
        ensures
            r == Self::comes_before(*self, *other),
    ;
}

/// The relation of a `Ranked` type.
pub open spec fn rank_lt<T: Ranked>() -> spec_fn(T, T) -> bool {
    |a: T, b: T| T::comes_before(a, b)
}

proof fn lemma_insert_at<A>(s: Seq<A>, x: A, k: int, lt: spec_fn(A, A) -> bool)
    requires
        0 <= k <= s.len(),
        forall|m: int| 0 <= m < k ==> !lt(x, #[trigger] s[m]),
        k < s.len() ==> lt(x, s[k]),
    ensures
        insert_by(s, x, lt) == s.insert(k, x),
    decreases s.len(),
{
    if s.len() == 0 {
        assert(s.insert(k, x) =~= seq![x]);
    } else if k == 0 {
        assert(s.insert(k, x) =~= seq![x] + s);
    } else {
        let t = s.drop_first();
        assert forall|m: int| 0 <= m < k - 1 implies !lt(x, #[trigger] t[m]) by {
            assert(t[m] == s[m + 1]);
        }
        lemma_insert_at(t, x, k - 1, lt);
        assert(s.insert(k, x) =~= seq![s[0]] + t.insert(k - 1, x));
    }
}

/// Inserting into a sorted sequence keeps it sorted and adds exactly `x`.
pub proof fn lemma_insert_by_props<A>(s: Seq<A>, x: A, lt: spec_fn(A, A) -> bool)
    requires
        is_strict_order(lt),
        is_sorted_by(s, lt),
    ensures
        is_sorted_by(insert_by(s, x, lt), lt),
        insert_by(s, x, lt).to_multiset() == s.to_multiset().insert(x),
    decreases s.len(),
{
    broadcast use vstd::seq_lib::group_to_multiset_ensures;

    if s.len() == 0 {
        assert(seq![x] =~= Seq::<A>::empty().push(x));
    } else if lt(x, s[0]) {
        let r = seq![x] + s;
        assert forall|i: int, j: int| 0 <= i < j < r.len() implies !lt(
            #[trigger] r[j],
            #[trigger] r[i],
        ) by {
            if i == 0 {
                if lt(s[j - 1], x) {
                    assert(lt(s[j - 1], s[0]));
                }
            }
        }
        vstd::seq_lib::lemma_multiset_commutative(seq![x], s);
        assert(seq![x] =~= Seq::<A>::empty().push(x));
    } else {
        let t = s.drop_first();
        assert(is_sorted_by(t, lt)) by {
            assert forall|i: int, j: int| 0 <= i < j < t.len() implies !lt(
                #[trigger] t[j],
                #[trigger] t[i],
            ) by {
                assert(t[j] == s[j + 1] && t[i] == s[i + 1]);
            }
        }
        lemma_insert_by_props(t, x, lt);
        let it = insert_by(t, x, lt);
        let r = seq![s[0]] + it;
        assert forall|i: int, j: int| 0 <= i < j < r.len() implies !lt(
            #[trigger] r[j],
            #[trigger] r[i],
        ) by {
            if i == 0 {
                assert(it.to_multiset().count(r[j]) > 0);
                if r[j] != x {
                    assert(t.to_multiset().count(r[j]) > 0);
                    assert(t.contains(r[j]));
                    let m = choose|m: int| 0 <= m < t.len() && t[m] == r[j];
                    assert(s[m + 1] == r[j]);
                }
            } else {
                assert(r[j] == it[j - 1] && r[i] == it[i - 1]);
            }
        }
        vstd::seq_lib::lemma_multiset_commutative(seq![s[0]], it);
        vstd::seq_lib::lemma_multiset_commutative(seq![s[0]], t);
        assert(seq![s[0]] + t =~= s);
    }
}

/// The stable sort by a strict order is in order and holds the same elements.
pub proof fn lemma_sort_stable_by_props<A>(s: Seq<A>, lt: spec_fn(A, A) -> bool)
    requires
        is_strict_order(lt),
    ensures
        is_sorted_by(sort_stable_by(s, lt), lt),
        sort_stable_by(s, lt).to_multiset() == s.to_multiset(),
        sort_stable_by(s, lt).len() == s.len(),
    decreases s.len(),
{
    broadcast use vstd::seq_lib::group_to_multiset_ensures;

    if s.len() > 0 {
        lemma_sort_stable_by_props(s.drop_last(), lt);
        lemma_insert_by_props(sort_stable_by(s.drop_last(), lt), s.last(), lt);
        assert(s.drop_last().push(s.last()) =~= s);
    }
    assert(sort_stable_by(s, lt).to_multiset().len() == s.to_multiset().len());
}

/// Sorting commutes with a map that carries one order onto the other.
pub proof fn lemma_sort_map<A, B>(
    s: Seq<A>,
    f: spec_fn(A) -> B,
    lta: spec_fn(A, A) -> bool,
    ltb: spec_fn(B, B) -> bool,
)
    requires
        forall|a1: A, a2: A| #[trigger] lta(a1, a2) == ltb(f(a1), f(a2)),
    ensures
        sort_stable_by(s, lta).map_values(f) == sort_stable_by(s.map_values(f), ltb),
    decreases s.len(),
{
    if s.len() > 0 {
        lemma_sort_map(s.drop_last(), f, lta, ltb);
        assert(s.map_values(f).drop_last() =~= s.drop_last().map_values(f));
        lemma_insert_map(sort_stable_by(s.drop_last(), lta), s.last(), f, lta, ltb);
    }
}

proof fn lemma_insert_map<A, B>(
    s: Seq<A>,
    x: A,
    f: spec_fn(A) -> B,
    lta: spec_fn(A, A) -> bool,
    ltb: spec_fn(B, B) -> bool,
)
    requires
        forall|a1: A, a2: A| #[trigger] lta(a1, a2) == ltb(f(a1), f(a2)),
    ensures
        insert_by(s, x, lta).map_values(f) == insert_by(s.map_values(f), f(x), ltb),
    decreases s.len(),
{
    if s.len() == 0 {
        assert(seq![x].map_values(f) =~= seq![f(x)]);
    } else if lta(x, s[0]) {
        assert((seq![x] + s).map_values(f) =~= seq![f(x)] + s.map_values(f));
    } else {
        lemma_insert_map(s.drop_first(), x, f, lta, ltb);
        assert(s.map_values(f).drop_first() =~= s.drop_first().map_values(f));
        assert((seq![s[0]] + insert_by(s.drop_first(), x, lta)).map_values(f) =~= seq![f(s[0])]
            + insert_by(s.drop_first(), x, lta).map_values(f));
    }
}

/// Sorts `v` stably by `Ranked::before`.
pub fn stable_sort<T: Ranked>(v: Vec<T>) -> (r: Vec<T>)
    ensures
        r@ == sort_stable_by(v@, rank_lt::<T>()),
{
    let ghost orig = v@;
    let ghost lt = rank_lt::<T>();
    let mut rest = v;
    let mut out: Vec<T> = Vec::new();
    let ghost mut done: int = 0;
    assert(orig.take(0) =~= Seq::<T>::empty());
    while rest.len() > 0
        invariant
            0 <= done <= orig.len(),
            lt == rank_lt::<T>(),
            rest@ == orig.skip(done),
            out@ == sort_stable_by(orig.take(done), lt),
        decreases rest.len(),
    {
        let x = rest.remove(0);
        let mut k: usize = 0;
        while k < out.len() && !x.before(&out[k])
            invariant
                k <= out@.len(),
                lt == rank_lt::<T>(),
                forall|m: int| 0 <= m < k ==> !lt(x, #[trigger] out@[m]),
            decreases out.len() - k,
        {
            k += 1;
        }
        proof {
            lemma_insert_at(out@, x, k as int, lt);
            assert(orig.take(done + 1).drop_last() =~= orig.take(done));
            assert(orig.take(done + 1).last() == x);
            assert(orig.skip(done + 1) =~= orig.skip(done).remove(0));
        }
        out.insert(k, x);
        proof {
            done = done + 1;
        }
    }
    assert(orig.take(done) =~= orig);
    out
}

} // verus!
