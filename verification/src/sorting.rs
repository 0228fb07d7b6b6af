//! Stable insertion order: what `sort_by` with a strict comparison gives.
use vstd::prelude::*;

verus! {

/// `x` placed into `s` before the first element it is strictly less than.
pub open spec fn insert_sorted<T>(s: Seq<T>, x: T, lt: spec_fn(T, T) -> bool) -> Seq<T>
    decreases s.len(),
{
    if s.len() == 0 {
        seq![x]
    } else if lt(x, s[0]) {
        seq![x] + s
    } else {
        seq![s[0]] + insert_sorted(s.drop_first(), x, lt)
    }
}

/// `s` sorted by `lt`, elements that compare equal kept in their order.
pub open spec fn sort_by<T>(s: Seq<T>, lt: spec_fn(T, T) -> bool) -> Seq<T>
    decreases s.len(),
{
    if s.len() == 0 {
        Seq::empty()
    } else {
        insert_sorted(sort_by(s.drop_last(), lt), s.last(), lt)
    }
}

/// Inserting at the first position whose element `x` is strictly less than.
pub proof fn lemma_insert_at<T>(s: Seq<T>, x: T, lt: spec_fn(T, T) -> bool, j: int)
    requires
        0 <= j <= s.len(),
        forall|i: int| 0 <= i < j ==> !lt(x, #[trigger] s[i]),
        j < s.len() ==> lt(x, s[j]),
    ensures
        insert_sorted(s, x, lt) == s.take(j).push(x) + s.skip(j),
    decreases j,
{
    if j == 0 {
        if s.len() == 0 {
            assert(s.take(0).push(x) + s.skip(0) == seq![x]);
        } else {
            assert(s.take(0).push(x) + s.skip(0) == seq![x] + s);
        }
    } else {
        assert(!lt(x, s[0]));
        let t = s.drop_first();
        assert forall|i: int| 0 <= i < j - 1 implies !lt(x, #[trigger] t[i]) by {
            assert(t[i] == s[i + 1]);
        }
        if j < s.len() {
            assert(t[j - 1] == s[j]);
        }
        lemma_insert_at(t, x, lt, j - 1);
        assert(seq![s[0]] + (t.take(j - 1).push(x) + t.skip(j - 1)) == s.take(j).push(x) + s.skip(
            j,
        ));
    }
}

/// Sorting keeps exactly the elements it was given.
pub proof fn lemma_sort_contains<T>(s: Seq<T>, lt: spec_fn(T, T) -> bool, x: T)
    ensures
        sort_by(s, lt).contains(x) == s.contains(x),
        sort_by(s, lt).len() == s.len(),
    decreases s.len(),
{
    if s.len() > 0 {
        lemma_sort_contains(s.drop_last(), lt, x);
        lemma_insert_contains(sort_by(s.drop_last(), lt), s.last(), lt, x);
        if s.contains(x) && x != s.last() {
            let i = choose|i: int| 0 <= i < s.len() && s[i] == x;
            assert(s.drop_last()[i] == x);
        }
        if s.drop_last().contains(x) {
            let i = choose|i: int| 0 <= i < s.len() - 1 && s.drop_last()[i] == x;
            assert(s[i] == x);
        }
        assert(s[s.len() - 1] == s.last());
    }
}

pub proof fn lemma_insert_contains<T>(s: Seq<T>, y: T, lt: spec_fn(T, T) -> bool, x: T)
    ensures
        insert_sorted(s, y, lt).contains(x) == (s.contains(x) || x == y),
        insert_sorted(s, y, lt).len() == s.len() + 1,
    decreases s.len(),
{
    if s.len() == 0 {
        assert(seq![y][0] == y);
    } else if lt(y, s[0]) {
        let r = seq![y] + s;
        assert(r[0] == y);
        if s.contains(x) {
            let i = choose|i: int| 0 <= i < s.len() && s[i] == x;
            assert(r[i + 1] == x);
        }
        if r.contains(x) {
            let i = choose|i: int| 0 <= i < r.len() && r[i] == x;
            if i > 0 {
                assert(s[i - 1] == x);
            }
        }
    } else {
        let t = s.drop_first();
        lemma_insert_contains(t, y, lt, x);
        let r = seq![s[0]] + insert_sorted(t, y, lt);
        let u = insert_sorted(t, y, lt);
        if s.contains(x) {
            let i = choose|i: int| 0 <= i < s.len() && s[i] == x;
            if i == 0 {
                assert(r[0] == x);
            } else {
                assert(t[i - 1] == x);
                let k = choose|k: int| 0 <= k < u.len() && u[k] == x;
                assert(r[k + 1] == x);
            }
        }
        if x == y {
            let k = choose|k: int| 0 <= k < u.len() && u[k] == x;
            assert(r[k + 1] == x);
        }
        if r.contains(x) {
            let i = choose|i: int| 0 <= i < r.len() && r[i] == x;
            if i == 0 {
                assert(s[0] == x);
            } else {
                assert(u[i - 1] == x);
                if t.contains(x) {
                    let k = choose|k: int| 0 <= k < t.len() && t[k] == x;
                    assert(s[k + 1] == x);
                }
            }
        }
    }
}

/// A strict order: never `a < a`, and `a < b < c` gives `a < c`.
pub open spec fn strict_order<T>(lt: spec_fn(T, T) -> bool) -> bool {
    &&& forall|a: T| !#[trigger] lt(a, a)
    &&& forall|a: T, b: T, c: T| #[trigger] lt(a, b) && #[trigger] lt(b, c) ==> lt(a, c)
}

/// No element is strictly less than one before it.
pub open spec fn sorted_by<T>(s: Seq<T>, lt: spec_fn(T, T) -> bool) -> bool {
    forall|i: int, j: int| 0 <= i < j < s.len() ==> !lt(#[trigger] s[j], #[trigger] s[i])
}

proof fn lemma_insert_sorted_keeps_order<T>(s: Seq<T>, x: T, lt: spec_fn(T, T) -> bool)
    requires
        strict_order(lt),
        sorted_by(s, lt),
    ensures
        sorted_by(insert_sorted(s, x, lt), lt),
    decreases s.len(),
{
    if s.len() == 0 {
    } else if lt(x, s[0]) {
        let r = seq![x] + s;
        assert forall|i: int, j: int| 0 <= i < j < r.len() implies !lt(#[trigger] r[j], #[trigger] r[i]) by {
            if i == 0 {
                assert(r[j] == s[j - 1]);
                if lt(s[j - 1], x) {
                    assert(lt(s[j - 1], s[0]));
                    if j - 1 == 0 {
                        assert(!lt(s[0], s[0]));
                    } else {
                        assert(!lt(s[j - 1], s[0]));
                    }
                }
            } else {
                assert(r[i] == s[i - 1] && r[j] == s[j - 1]);
            }
        }
    } else {
        let t = s.drop_first();
        assert(sorted_by(t, lt)) by {
            assert forall|i: int, j: int| 0 <= i < j < t.len() implies !lt(#[trigger] t[j], #[trigger] t[i]) by {
                assert(t[i] == s[i + 1] && t[j] == s[j + 1]);
            }
        }
        lemma_insert_sorted_keeps_order(t, x, lt);
        let u = insert_sorted(t, x, lt);
        let r = seq![s[0]] + u;
        assert forall|i: int, j: int| 0 <= i < j < r.len() implies !lt(#[trigger] r[j], #[trigger] r[i]) by {
            if i == 0 {
                assert(r[j] == u[j - 1]);
                lemma_insert_contains(t, x, lt, u[j - 1]);
                assert(u.contains(u[j - 1]));
                if u[j - 1] != x {
                    let k = choose|k: int| 0 <= k < t.len() && t[k] == u[j - 1];
                    assert(t[k] == s[k + 1]);
                }
            } else {
                assert(r[i] == u[i - 1] && r[j] == u[j - 1]);
            }
        }
    }
}

/// Sorting by a strict order gives a sorted sequence.
pub proof fn lemma_sort_sorted<T>(s: Seq<T>, lt: spec_fn(T, T) -> bool)
    requires
        strict_order(lt),
    ensures
        sorted_by(sort_by(s, lt), lt),
    decreases s.len(),
{
    if s.len() > 0 {
        lemma_sort_sorted(s.drop_last(), lt);
        lemma_insert_sorted_keeps_order(sort_by(s.drop_last(), lt), s.last(), lt);
    }
}

/// The sum of `g` over a sequence.
pub open spec fn sum_of<T>(s: Seq<T>, g: spec_fn(T) -> int) -> int
    decreases s.len(),
{
    if s.len() == 0 {
        0
    } else {
        sum_of(s.drop_last(), g) + g(s.last())
    }
}

pub proof fn lemma_sum_front<T>(s: Seq<T>, g: spec_fn(T) -> int)
    requires
        s.len() > 0,
    ensures
        sum_of(s, g) == g(s[0]) + sum_of(s.drop_first(), g),
    decreases s.len(),
{
    if s.len() > 1 {
        lemma_sum_front(s.drop_last(), g);
        assert(s.drop_last().drop_first() == s.drop_first().drop_last());
        assert(s.drop_last()[0] == s[0]);
        assert(s.drop_first().last() == s.last());
    } else {
        reveal_with_fuel(sum_of, 2);
        assert(s.drop_first() == Seq::<T>::empty());
        assert(s.drop_last() == Seq::<T>::empty());
        assert(s.last() == s[0]);
    }
}

proof fn lemma_sum_insert<T>(t: Seq<T>, x: T, lt: spec_fn(T, T) -> bool, g: spec_fn(T) -> int)
    ensures
        sum_of(insert_sorted(t, x, lt), g) == sum_of(t, g) + g(x),
    decreases t.len(),
{
    if t.len() == 0 {
        reveal_with_fuel(sum_of, 2);
        assert(seq![x].drop_last() == Seq::<T>::empty());
        assert(t == Seq::<T>::empty());
    } else {
        lemma_sum_front(t, g);
        if lt(x, t[0]) {
            lemma_sum_front(seq![x] + t, g);
            assert((seq![x] + t).drop_first() == t);
        } else {
            lemma_sum_insert(t.drop_first(), x, lt, g);
            let r = seq![t[0]] + insert_sorted(t.drop_first(), x, lt);
            lemma_insert_contains(t.drop_first(), x, lt, x);
            lemma_sum_front(r, g);
            assert(r.drop_first() == insert_sorted(t.drop_first(), x, lt));
        }
    }
}

/// Sorting does not change a sum.
pub proof fn lemma_sum_sort<T>(s: Seq<T>, lt: spec_fn(T, T) -> bool, g: spec_fn(T) -> int)
    ensures
        sum_of(sort_by(s, lt), g) == sum_of(s, g),
    decreases s.len(),
{
    if s.len() > 0 {
        lemma_sum_sort(s.drop_last(), lt, g);
        lemma_sum_insert(sort_by(s.drop_last(), lt), s.last(), lt, g);
    }
}

/// A sum over mapped values is the sum of the composition.
pub proof fn lemma_sum_map<A, B>(s: Seq<A>, f: spec_fn(A) -> B, g: spec_fn(B) -> int)
    ensures
        sum_of(s.map_values(f), g) == sum_of(s, |a: A| g(f(a))),
    decreases s.len(),
{
    if s.len() > 0 {
        lemma_sum_map(s.drop_last(), f, g);
        assert(s.map_values(f).drop_last() == s.drop_last().map_values(f));
    }
}

} // verus!
