//! Stable sorting.

use vstd::prelude::*;

verus! {

/// `x` put behind every element of `s` that is not above it.
pub open spec fn inserted<T>(s: Seq<T>, x: T, le: spec_fn(T, T) -> bool) -> Seq<T>
    decreases s.len(),
{
    if s.len() == 0 || le(s.last(), x) {
        s.push(x)
    } else {
        inserted(s.drop_last(), x, le).push(s.last())
    }
}

/// The elements of `s` in the order `le`; those that are level keep the order
/// in which they stand in `s`.
pub open spec fn sorted<T>(s: Seq<T>, le: spec_fn(T, T) -> bool) -> Seq<T>
    decreases s.len(),
{
    if s.len() == 0 {
        Seq::empty()
    } else {
        inserted(sorted(s.drop_last(), le), s.last(), le)
    }
}

/// No element is above a later one.
pub open spec fn ascends<T>(s: Seq<T>, le: spec_fn(T, T) -> bool) -> bool {
    forall|i: int, j: int| 0 <= i <= j < s.len() ==> #[trigger] le(s[i], s[j])
}

/// `le` compares any two values, and is transitive.
pub open spec fn total_preorder<T>(le: spec_fn(T, T) -> bool) -> bool {
    &&& forall|a: T, b: T| #[trigger] le(a, b) || le(b, a)
    &&& forall|a: T, b: T, c: T| #[trigger] le(a, b) && #[trigger] le(b, c) ==> le(a, c)
}

/// Sorting changes neither which elements there are nor how many.
pub proof fn law_sorted_is_permutation<T>(s: Seq<T>, le: spec_fn(T, T) -> bool)
    ensures
        sorted(s, le).to_multiset() == s.to_multiset(),
        sorted(s, le).len() == s.len(),
        forall|x: T| #[trigger] sorted(s, le).contains(x) <==> s.contains(x),
    decreases s.len(),
{
    broadcast use vstd::seq_lib::group_to_multiset_ensures;

    if s.len() > 0 {
        law_sorted_is_permutation(s.drop_last(), le);
        lemma_inserted(sorted(s.drop_last(), le), s.last(), le);
        assert(s.drop_last().push(s.last()) =~= s);
    }
    assert forall|x: T| #[trigger] sorted(s, le).contains(x) <==> s.contains(x) by {
        assert(sorted(s, le).contains(x) <==> sorted(s, le).to_multiset().count(x) > 0);
        assert(s.contains(x) <==> s.to_multiset().count(x) > 0);
    }
}

proof fn lemma_inserted<T>(s: Seq<T>, x: T, le: spec_fn(T, T) -> bool)
    ensures
        inserted(s, x, le).to_multiset() == s.to_multiset().insert(x),
        inserted(s, x, le).len() == s.len() + 1,
    decreases s.len(),
{
    broadcast use vstd::seq_lib::group_to_multiset_ensures;

    if s.len() > 0 && !le(s.last(), x) {
        lemma_inserted(s.drop_last(), x, le);
        assert(s.drop_last().push(s.last()) =~= s);
        assert(inserted(s, x, le).to_multiset() =~= s.to_multiset().insert(x));
    }
}

/// What has been sorted ascends.
pub proof fn law_sorted_ascends<T>(s: Seq<T>, le: spec_fn(T, T) -> bool)
    requires
        total_preorder(le),
    ensures
        ascends(sorted(s, le), le),
    decreases s.len(),
{
    if s.len() > 0 {
        law_sorted_ascends(s.drop_last(), le);
        lemma_inserted_ascends(sorted(s.drop_last(), le), s.last(), le);
    }
}

proof fn lemma_inserted_ascends<T>(s: Seq<T>, x: T, le: spec_fn(T, T) -> bool)
    requires
        total_preorder(le),
        ascends(s, le),
    ensures
        ascends(inserted(s, x, le), le),
        forall|y: T| (#[trigger] inserted(s, x, le).contains(y)) ==> y == x || s.contains(y),
    decreases s.len(),
{
    let r = inserted(s, x, le);
    assert(le(x, x));
    if s.len() == 0 || le(s.last(), x) {
        assert forall|i: int, j: int| 0 <= i <= j < r.len() implies #[trigger] le(r[i], r[j]) by {
            if j == s.len() && i < s.len() {
                assert(le(s[i], s[s.len() - 1]));
            } else if j < s.len() {
                assert(le(s[i], s[j]));
            }
        }
        assert forall|y: T| #[trigger] r.contains(y) implies y == x || s.contains(y) by {
            let k = choose|k: int| 0 <= k < r.len() && r[k] == y;
            if k < s.len() {
                assert(s[k] == y);
            }
        }
    } else {
        let front = s.drop_last();
        assert(ascends(front, le)) by {
            assert forall|i: int, j: int| 0 <= i <= j < front.len() implies #[trigger] le(
                front[i],
                front[j],
            ) by {
                assert(le(s[i], s[j]));
            }
        }
        lemma_inserted_ascends(front, x, le);
        lemma_inserted(front, x, le);
        let p = inserted(front, x, le);
        assert(le(x, s.last()));
        assert forall|i: int, j: int| 0 <= i <= j < r.len() implies #[trigger] le(r[i], r[j]) by {
            if j < p.len() {
                assert(le(p[i], p[j]));
            } else if i < p.len() {
                assert(p.contains(p[i]));
                if p[i] != x {
                    let k = choose|k: int| 0 <= k < front.len() && front[k] == p[i];
                    assert(le(s[k], s[s.len() - 1]));
                }
            } else {
                assert(le(s.last(), s.last()));
            }
        }
        assert forall|y: T| #[trigger] r.contains(y) implies y == x || s.contains(y) by {
            let k = choose|k: int| 0 <= k < r.len() && r[k] == y;
            if k < p.len() {
                assert(p.contains(p[k]));
                if y != x {
                    let m = choose|m: int| 0 <= m < front.len() && front[m] == y;
                    assert(s[m] == y);
                }
            } else {
                assert(s[s.len() - 1] == y);
            }
        }
    }
}

/// The elements that are level with `k`.
pub open spec fn level_with<T>(k: T, le: spec_fn(T, T) -> bool) -> spec_fn(T) -> bool {
    |x: T| le(x, k) && le(k, x)
}

proof fn lemma_inserted_stable<T>(s: Seq<T>, x: T, le: spec_fn(T, T) -> bool, k: T)
    requires
        total_preorder(le),
    ensures
        inserted(s, x, le).filter(level_with(k, le)) == s.push(x).filter(level_with(k, le)),
    decreases s.len(),
{
    let p = level_with(k, le);
    if s.len() > 0 && !le(s.last(), x) {
        let front = s.drop_last();
        lemma_inserted_stable(front, x, le, k);
        front.lemma_filter_push(x, p);
        inserted(front, x, le).lemma_filter_push(s.last(), p);
        s.lemma_filter_push(x, p);
        front.lemma_filter_push(s.last(), p);
        assert(front.push(s.last()) =~= s);
        // `x` and the last element are not level, so at most one is level with `k`.
        assert(!(p(x) && p(s.last())));
    }
}

/// Elements that are level keep their order.
pub proof fn law_sorted_is_stable<T>(s: Seq<T>, le: spec_fn(T, T) -> bool, k: T)
    requires
        total_preorder(le),
    ensures
        sorted(s, le).filter(level_with(k, le)) == s.filter(level_with(k, le)),
    decreases s.len(),
{
    let p = level_with(k, le);
    if s.len() > 0 {
        let front = s.drop_last();
        law_sorted_is_stable(front, le, k);
        lemma_inserted_stable(sorted(front, le), s.last(), le, k);
        sorted(front, le).lemma_filter_push(s.last(), p);
        front.lemma_filter_push(s.last(), p);
        assert(front.push(s.last()) =~= s);
    }
}

/// Sorting by what a view keeps is sorting the views.
pub proof fn lemma_sorted_views<T, U>(
    s: Seq<T>,
    le: spec_fn(T, T) -> bool,
    f: spec_fn(T) -> U,
    le_view: spec_fn(U, U) -> bool,
)
    requires
        forall|a: T, b: T| #[trigger] le(a, b) == le_view(f(a), f(b)),
    ensures
        sorted(s, le).map_values(f) == sorted(s.map_values(f), le_view),
    decreases s.len(),
{
    let sv = s.map_values(f);
    if s.len() > 0 {
        lemma_sorted_views(s.drop_last(), le, f, le_view);
        assert(sv.drop_last() =~= s.drop_last().map_values(f));
        lemma_inserted_views(sorted(s.drop_last(), le), s.last(), le, f, le_view);
    }
    assert(sorted(s, le).map_values(f) =~= sorted(sv, le_view));
}

proof fn lemma_inserted_views<T, U>(
    s: Seq<T>,
    x: T,
    le: spec_fn(T, T) -> bool,
    f: spec_fn(T) -> U,
    le_view: spec_fn(U, U) -> bool,
)
    requires
        forall|a: T, b: T| #[trigger] le(a, b) == le_view(f(a), f(b)),
    ensures
        inserted(s, x, le).map_values(f) == inserted(s.map_values(f), f(x), le_view),
    decreases s.len(),
{
    let sv = s.map_values(f);
    if s.len() > 0 {
        assert(sv.last() == f(s.last()));
        assert(le(s.last(), x) == le_view(f(s.last()), f(x)));
        assert(sv.drop_last() =~= s.drop_last().map_values(f));
        if !le(s.last(), x) {
            lemma_inserted_views(s.drop_last(), x, le, f, le_view);
        }
    }
    assert(inserted(s, x, le).map_values(f) =~= inserted(sv, f(x), le_view));
}

/// What an insertion does, told by the place at which `x` comes to stand.
proof fn lemma_insert_at<T>(s: Seq<T>, x: T, le: spec_fn(T, T) -> bool, k: int)
    requires
        0 <= k <= s.len(),
        k > 0 ==> le(s[k - 1], x),
        forall|j: int| k <= j < s.len() ==> !le(#[trigger] s[j], x),
    ensures
        inserted(s, x, le) == s.insert(k, x),
    decreases s.len(),
{
    if k < s.len() {
        let front = s.drop_last();
        assert(s[s.len() - 1] == s.last());
        assert forall|j: int| k <= j < front.len() implies !le(#[trigger] front[j], x) by {
            assert(!le(s[j], x));
        }
        lemma_insert_at(front, x, le, k);
        assert(front.insert(k, x).push(s.last()) =~= s.insert(k, x));
    } else {
        assert(s.insert(k, x) =~= s.push(x));
    }
}

/// Sort `v` by `f`, which computes `le`.
pub fn sort_by<T, F: Fn(&T, &T) -> bool>(
    v: Vec<T>,
    f: F,
    Ghost(le): Ghost<spec_fn(T, T) -> bool>,
) -> (r: Vec<T>)
    requires
        forall|a: T, b: T| #[trigger] f.requires((&a, &b)),
        forall|a: T, b: T, o: bool| f.ensures((&a, &b), o) ==> o == le(a, b),
    ensures
        r@ == sorted(v@, le),
{
    let ghost all = v@;
    let mut out: Vec<T> = Vec::new();
    for x in it: v
        invariant
            it.seq() == all,
            forall|a: T, b: T| #[trigger] f.requires((&a, &b)),
            forall|a: T, b: T, o: bool| f.ensures((&a, &b), o) ==> o == le(a, b),
            out@ == sorted(all.take(it.index()), le),
    {
        let ghost before = out@;
        let ghost item = x;
        let n: usize = out.len();
        let mut k: usize = n;
        while k > 0 && !f(&out[k - 1], &x)
            invariant
                k <= n,
                n == out@.len(),
                out@ == before,
                forall|a: T, b: T| #[trigger] f.requires((&a, &b)),
                forall|a: T, b: T, o: bool| f.ensures((&a, &b), o) ==> o == le(a, b),
                forall|j: int| k <= j < n ==> !le(#[trigger] before[j], x),
            ensures
                k <= n,
                n == out@.len(),
                out@ == before,
                k > 0 ==> le(before[k - 1], x),
                forall|j: int| k <= j < n ==> !le(#[trigger] before[j], x),
            decreases k,
        {
            k -= 1;
        }
        proof {
            lemma_insert_at(before, x, le, k as int);
            assert(all.take(it.index() + 1).drop_last() =~= all.take(it.index()));
            assert(all.take(it.index() + 1).last() == x);
        }
        out.insert(k, x);
    }
    assert(all.take(all.len() as int) =~= all);
    out
}

} // verus!
