//! Stable insertion sort by a comparison that a spec function describes.
use vstd::prelude::*;

verus! {

/// `s` with `x` inserted after the last element that does not sort after `x`.
pub open spec fn insert_sorted<T>(s: Seq<T>, x: T, lt: spec_fn(T, T) -> bool) -> Seq<T>
    decreases s.len(),
{
    if s.len() == 0 {
        seq![x]
    } else if lt(x, s.last()) {
        insert_sorted(s.drop_last(), x, lt).push(s.last())
    } else {
        s.push(x)
    }
}

/// `s` stably sorted by `lt`: equal elements keep their order.
pub open spec fn sorted_by<T>(s: Seq<T>, lt: spec_fn(T, T) -> bool) -> Seq<T>
    decreases s.len(),
{
    if s.len() == 0 {
        s
    } else {
        insert_sorted(sorted_by(s.drop_last(), lt), s.last(), lt)
    }
}

proof fn lemma_insert_at<T>(s: Seq<T>, x: T, lt: spec_fn(T, T) -> bool, p: int)
    requires
        0 <= p <= s.len(),
        forall|j: int| p <= j < s.len() ==> lt(x, #[trigger] s[j]),
        p == 0 || !lt(x, s[p - 1]),
    ensures
        insert_sorted(s, x, lt) == s.take(p).push(x) + s.skip(p),
    decreases s.len(),
{
    if s.len() == 0 {
        assert(s.take(p).push(x) + s.skip(p) =~= seq![x]);
    } else if p == s.len() {
        assert(s.take(p).push(x) + s.skip(p) =~= s.push(x));
    } else {
        assert(lt(x, s[s.len() - 1]));
        let t = s.drop_last();
        assert forall|j: int| p <= j < t.len() implies lt(x, #[trigger] t[j]) by {
            assert(t[j] == s[j]);
        }
        if p > 0 {
            assert(t[p - 1] == s[p - 1]);
        }
        lemma_insert_at(t, x, lt, p);
        assert(insert_sorted(s, x, lt) == insert_sorted(t, x, lt).push(s.last()));
        assert(t.take(p).push(x) + t.skip(p) + seq![s.last()] =~= s.take(p).push(x) + s.skip(p));
        assert(insert_sorted(t, x, lt).push(s.last()) =~= t.take(p).push(x) + t.skip(p) + seq![s.last()]);
    }
}

/// Stably sorts `v` by the comparison `lt`, which `spec_lt` describes.
pub fn stable_sort<T, F: Fn(&T, &T) -> bool>(v: Vec<T>, lt: F, Ghost(spec_lt): Ghost<spec_fn(T, T) -> bool>) -> (r: Vec<T>)
    requires
        forall|a: &T, b: &T| #[trigger] lt.requires((a, b)),
        forall|a: &T, b: &T, res: bool| lt.ensures((a, b), res) ==> res == spec_lt(*a, *b),
    ensures
        r@ == sorted_by(v@, spec_lt),
{
    let mut rest = v;
    let ghost all = rest@;
    assert(rest@.len() == rest.len());
    let mut out: Vec<T> = Vec::new();
    let mut taken: usize = 0;
    let ghost n = all.len();
    assert(all.take(0) =~= Seq::<T>::empty());
    while rest.len() > 0
        invariant
            forall|a: &T, b: &T| #[trigger] lt.requires((a, b)),
            forall|a: &T, b: &T, res: bool| lt.ensures((a, b), res) ==> res == spec_lt(*a, *b),
            taken + rest@.len() == n,
            n == all.len(),
            n <= usize::MAX,
            rest@ == all.skip(taken as int),
            out@ == sorted_by(all.take(taken as int), spec_lt),
        decreases rest@.len(),
    {
        let x = rest.remove(0);
        assert(x == all[taken as int]);
        let mut pos: usize = out.len();
        while pos > 0 && lt(&x, &out[pos - 1])
            invariant
                forall|a: &T, b: &T| #[trigger] lt.requires((a, b)),
                forall|a: &T, b: &T, res: bool| lt.ensures((a, b), res) ==> res == spec_lt(*a, *b),
                pos <= out@.len(),
                forall|j: int| pos <= j < out@.len() ==> spec_lt(x, #[trigger] out@[j]),
            decreases pos,
        {
            pos -= 1;
        }
        proof {
            lemma_insert_at(out@, x, spec_lt, pos as int);
            let pre = all.take(taken + 1);
            assert(pre.drop_last() =~= all.take(taken as int));
            assert(pre.last() == x);
            assert(all.skip(taken + 1) =~= rest@);
        }
        let ghost before = out@;
        out.insert(pos, x);
        assert(out@ =~= before.take(pos as int).push(x) + before.skip(pos as int));
        taken += 1;
    }
    assert(all.take(n as int) =~= all);
    out
}

proof fn lemma_insert_sorted_map<T, V>(
    s: Seq<T>,
    x: T,
    f: spec_fn(T) -> V,
    ltt: spec_fn(T, T) -> bool,
    ltv: spec_fn(V, V) -> bool,
)
    requires
        forall|a: T, b: T| #[trigger] ltt(a, b) == ltv(f(a), f(b)),
    ensures
        insert_sorted(s, x, ltt).map_values(f) == insert_sorted(s.map_values(f), f(x), ltv),
    decreases s.len(),
{
    if s.len() == 0 {
        assert(insert_sorted(s, x, ltt).map_values(f) =~= seq![f(x)]);
    } else {
        assert(s.map_values(f).last() == f(s.last()));
        assert(s.map_values(f).drop_last() =~= s.drop_last().map_values(f));
        assert(ltt(x, s.last()) == ltv(f(x), f(s.last())));
        if ltt(x, s.last()) {
            lemma_insert_sorted_map(s.drop_last(), x, f, ltt, ltv);
            assert(insert_sorted(s.drop_last(), x, ltt).push(s.last()).map_values(f) =~= insert_sorted(
                s.drop_last(),
                x,
                ltt,
            ).map_values(f).push(f(s.last())));
        } else {
            assert(s.push(x).map_values(f) =~= s.map_values(f).push(f(x)));
        }
    }
}

/// Sorting by a comparison of views and viewing commute.
pub proof fn lemma_sorted_by_map<T, V>(
    s: Seq<T>,
    f: spec_fn(T) -> V,
    ltt: spec_fn(T, T) -> bool,
    ltv: spec_fn(V, V) -> bool,
)
    requires
        forall|a: T, b: T| #[trigger] ltt(a, b) == ltv(f(a), f(b)),
    ensures
        sorted_by(s, ltt).map_values(f) == sorted_by(s.map_values(f), ltv),
    decreases s.len(),
{
    if s.len() == 0 {
        assert(s.map_values(f) =~= Seq::<V>::empty());
    } else {
        lemma_sorted_by_map(s.drop_last(), f, ltt, ltv);
        assert(s.map_values(f).drop_last() =~= s.drop_last().map_values(f));
        assert(s.map_values(f).last() == f(s.last()));
        lemma_insert_sorted_map(sorted_by(s.drop_last(), ltt), s.last(), f, ltt, ltv);
    }
}

proof fn lemma_insert_sorted_contains<T>(s: Seq<T>, x: T, lt: spec_fn(T, T) -> bool)
    ensures
        insert_sorted(s, x, lt).len() == s.len() + 1,
        forall|y: T| #[trigger] insert_sorted(s, x, lt).contains(y) <==> s.contains(y) || y == x,
    decreases s.len(),
{
    if s.len() == 0 {
        assert(insert_sorted(s, x, lt)[0] == x);
    } else {
        lemma_insert_sorted_contains(s.drop_last(), x, lt);
        if lt(x, s.last()) {
            let t = insert_sorted(s.drop_last(), x, lt);
            assert forall|y: T| #[trigger] t.push(s.last()).contains(y) implies s.contains(y) || y == x by {
                let k = choose|k: int| 0 <= k < t.push(s.last()).len() && t.push(s.last())[k] == y;
                if k < t.len() {
                    assert(t.contains(y));
                    if s.drop_last().contains(y) {
                        let m = choose|m: int| 0 <= m < s.drop_last().len() && s.drop_last()[m] == y;
                        assert(s[m] == y);
                    }
                } else {
                    assert(s[s.len() - 1] == y);
                }
            }
            assert forall|y: T| s.contains(y) || y == x implies #[trigger] t.push(s.last()).contains(y) by {
                if y == x {
                    assert(t.contains(y));
                    let k = choose|k: int| 0 <= k < t.len() && t[k] == y;
                    assert(t.push(s.last())[k] == y);
                } else {
                    let m = choose|m: int| 0 <= m < s.len() && s[m] == y;
                    if m < s.len() - 1 {
                        assert(s.drop_last()[m] == y);
                        assert(t.contains(y));
                        let k = choose|k: int| 0 <= k < t.len() && t[k] == y;
                        assert(t.push(s.last())[k] == y);
                    } else {
                        assert(t.push(s.last())[t.len() as int] == y);
                    }
                }
            }
        } else {
            assert forall|y: T| #[trigger] s.push(x).contains(y) implies s.contains(y) || y == x by {
                let k = choose|k: int| 0 <= k < s.push(x).len() && s.push(x)[k] == y;
                if k < s.len() {
                    assert(s[k] == y);
                }
            }
            assert forall|y: T| s.contains(y) || y == x implies #[trigger] s.push(x).contains(y) by {
                if y == x {
                    assert(s.push(x)[s.len() as int] == y);
                } else {
                    let m = choose|m: int| 0 <= m < s.len() && s[m] == y;
                    assert(s.push(x)[m] == y);
                }
            }
        }
    }
}

/// Sorting keeps the length and brings in no new element.
pub proof fn lemma_sorted_by_contains<T>(s: Seq<T>, lt: spec_fn(T, T) -> bool)
    ensures
        sorted_by(s, lt).len() == s.len(),
        forall|y: T| #[trigger] sorted_by(s, lt).contains(y) <==> s.contains(y),
    decreases s.len(),
{
    if s.len() > 0 {
        lemma_sorted_by_contains(s.drop_last(), lt);
        lemma_insert_sorted_contains(sorted_by(s.drop_last(), lt), s.last(), lt);
        assert forall|y: T| #[trigger] sorted_by(s, lt).contains(y) implies s.contains(y) by {
            if sorted_by(s.drop_last(), lt).contains(y) {
                assert(s.drop_last().contains(y));
                let m = choose|m: int| 0 <= m < s.drop_last().len() && s.drop_last()[m] == y;
                assert(s[m] == y);
            } else {
                assert(s[s.len() - 1] == y);
            }
        }
        assert forall|y: T| s.contains(y) implies #[trigger] sorted_by(s, lt).contains(y) by {
            let m = choose|m: int| 0 <= m < s.len() && s[m] == y;
            if m < s.len() - 1 {
                assert(s.drop_last()[m] == y);
                assert(sorted_by(s.drop_last(), lt).contains(y));
            }
        }
    }
}

proof fn lemma_insert_sorted_no_duplicates<T>(s: Seq<T>, x: T, lt: spec_fn(T, T) -> bool)
    requires
        s.no_duplicates(),
        !s.contains(x),
    ensures
        insert_sorted(s, x, lt).no_duplicates(),
    decreases s.len(),
{
    lemma_insert_sorted_contains(s, x, lt);
    if s.len() > 0 {
        if lt(x, s.last()) {
            let d = s.drop_last();
            assert(d.no_duplicates()) by {
                assert forall|i: int, j: int| 0 <= i < d.len() && 0 <= j < d.len() && i != j implies d[i] != d[j] by {
                    assert(d[i] == s[i] && d[j] == s[j]);
                }
            }
            assert(!d.contains(x)) by {
                if d.contains(x) {
                    let k = choose|k: int| 0 <= k < d.len() && d[k] == x;
                    assert(s[k] == x);
                }
            }
            lemma_insert_sorted_no_duplicates(d, x, lt);
            lemma_insert_sorted_contains(d, x, lt);
            let t = insert_sorted(d, x, lt);
            assert(!t.contains(s.last())) by {
                if t.contains(s.last()) {
                    if d.contains(s.last()) {
                        let k = choose|k: int| 0 <= k < d.len() && d[k] == s.last();
                        assert(s[k] == s[s.len() - 1]);
                    } else {
                        assert(s.contains(x)) by {
                            assert(s[s.len() - 1] == x);
                        }
                    }
                }
            }
            assert(t.push(s.last()).no_duplicates()) by {
                let u = t.push(s.last());
                assert forall|i: int, j: int| 0 <= i < u.len() && 0 <= j < u.len() && i != j implies u[i] != u[j] by {
                    if i < t.len() && j < t.len() {
                        assert(u[i] == t[i] && u[j] == t[j]);
                    } else if i < t.len() {
                        assert(u[i] == t[i]);
                        assert(t.contains(t[i]));
                    } else if j < t.len() {
                        assert(u[j] == t[j]);
                        assert(t.contains(t[j]));
                    }
                }
            }
        } else {
            let u = s.push(x);
            assert forall|i: int, j: int| 0 <= i < u.len() && 0 <= j < u.len() && i != j implies u[i] != u[j] by {
                if i < s.len() && j < s.len() {
                    assert(u[i] == s[i] && u[j] == s[j]);
                } else if i < s.len() {
                    assert(u[i] == s[i]);
                } else if j < s.len() {
                    assert(u[j] == s[j]);
                }
            }
        }
    }
}

/// Sorting keeps a sequence free of repeats.
pub proof fn lemma_sorted_by_no_duplicates<T>(s: Seq<T>, lt: spec_fn(T, T) -> bool)
    requires
        s.no_duplicates(),
    ensures
        sorted_by(s, lt).no_duplicates(),
    decreases s.len(),
{
    if s.len() > 0 {
        let d = s.drop_last();
        assert(d.no_duplicates()) by {
            assert forall|i: int, j: int| 0 <= i < d.len() && 0 <= j < d.len() && i != j implies d[i] != d[j] by {
                assert(d[i] == s[i] && d[j] == s[j]);
            }
        }
        lemma_sorted_by_no_duplicates(d, lt);
        lemma_sorted_by_contains(d, lt);
        assert(!sorted_by(d, lt).contains(s.last())) by {
            if sorted_by(d, lt).contains(s.last()) {
                assert(d.contains(s.last()));
                let k = choose|k: int| 0 <= k < d.len() && d[k] == s.last();
                assert(s[k] == s[s.len() - 1]);
            }
        }
        lemma_insert_sorted_no_duplicates(sorted_by(d, lt), s.last(), lt);
    }
}


/// `lt` is a strict weak order: nothing sorts before itself, and both
/// sorting before and not sorting before are transitive.
pub open spec fn strict_weak_order<T>(lt: spec_fn(T, T) -> bool) -> bool {
    &&& forall|a: T| !#[trigger] lt(a, a)
    &&& forall|a: T, b: T, c: T| #![trigger lt(a, b), lt(b, c)] lt(a, b) && lt(b, c) ==> lt(a, c)
    &&& forall|a: T, b: T, c: T| #![trigger lt(a, b), lt(b, c)] !lt(a, b) && !lt(b, c) ==> !lt(a, c)
}

/// No element of `s` sorts before an element before it.
pub open spec fn ordered_by<T>(s: Seq<T>, lt: spec_fn(T, T) -> bool) -> bool {
    forall|i: int, j: int| 0 <= i < j < s.len() ==> !lt(#[trigger] s[j], #[trigger] s[i])
}

proof fn lemma_insert_sorted_ordered<T>(s: Seq<T>, x: T, lt: spec_fn(T, T) -> bool)
    requires
        strict_weak_order(lt),
        ordered_by(s, lt),
    ensures
        ordered_by(insert_sorted(s, x, lt), lt),
    decreases s.len(),
{
    if s.len() == 0 {
    } else if lt(x, s.last()) {
        let t = s.drop_last();
        let l = s.last();
        assert(ordered_by(t, lt)) by {
            assert forall|i: int, j: int| 0 <= i < j < t.len() implies !lt(#[trigger] t[j], #[trigger] t[i]) by {
                assert(t[i] == s[i] && t[j] == s[j]);
            }
        }
        lemma_insert_sorted_ordered(t, x, lt);
        lemma_insert_sorted_contains(t, x, lt);
        let r = insert_sorted(t, x, lt);
        assert(insert_sorted(s, x, lt) == r.push(l));
        assert forall|i: int, j: int| 0 <= i < j < r.push(l).len() implies !lt(#[trigger] r.push(l)[j], #[trigger] r.push(l)[i]) by {
            if j == r.len() {
                let e = r[i];
                assert(r.contains(e));
                if e == x {
                    if lt(l, x) {
                        assert(lt(x, l) && lt(l, x));
                        assert(lt(x, x));
                    }
                } else {
                    assert(t.contains(e));
                    let k = choose|k: int| 0 <= k < t.len() && t[k] == e;
                    assert(s[k] == e);
                    assert(!lt(s[s.len() - 1], s[k]));
                }
            } else {
                assert(r.push(l)[j] == r[j] && r.push(l)[i] == r[i]);
            }
        }
    } else {
        let l = s.last();
        assert forall|i: int, j: int| 0 <= i < j < s.push(x).len() implies !lt(#[trigger] s.push(x)[j], #[trigger] s.push(x)[i]) by {
            if j == s.len() {
                if i < s.len() - 1 {
                    assert(!lt(s[s.len() - 1], s[i]));
                    assert(!lt(x, l));
                    if lt(x, s[i]) {
                        assert(!lt(x, l) && !lt(l, s[i]));
                    }
                }
            } else {
                assert(s.push(x)[j] == s[j] && s.push(x)[i] == s[i]);
            }
        }
    }
}

/// Sorting by a strict weak order leaves no element before one that sorts
/// before it.
pub proof fn lemma_sorted_by_ordered<T>(s: Seq<T>, lt: spec_fn(T, T) -> bool)
    requires
        strict_weak_order(lt),
    ensures
        ordered_by(sorted_by(s, lt), lt),
    decreases s.len(),
{
    if s.len() > 0 {
        lemma_sorted_by_ordered(s.drop_last(), lt);
        lemma_insert_sorted_ordered(sorted_by(s.drop_last(), lt), s.last(), lt);
    }
}

} // verus!
