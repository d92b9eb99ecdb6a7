//! Text comparison and the stable insertion sort used wherever output order
//! must be deterministic.

use vstd::prelude::*;
use crate::text::chars_of;

verus! {

/// Strict lexicographic order on character sequences (code point order,
/// which is also the byte order of their UTF-8 encodings).
pub open spec fn seq_lt(a: Seq<char>, b: Seq<char>) -> bool
    decreases a.len(),
{
    if a.len() == 0 {
        b.len() > 0
    } else if b.len() == 0 {
        false
    } else if a[0] < b[0] {
        true
    } else if a[0] > b[0] {
        false
    } else {
        seq_lt(a.drop_first(), b.drop_first())
    }
}

/// The text order is a strict total order: irreflexive, asymmetric,
/// transitive, and any two different texts are ordered one way or the other.
pub proof fn lemma_seq_lt_strict_total(a: Seq<char>, b: Seq<char>, c: Seq<char>)
    ensures
        !seq_lt(a, a),
        seq_lt(a, b) ==> !seq_lt(b, a),
        seq_lt(a, b) && seq_lt(b, c) ==> seq_lt(a, c),
        a != b ==> seq_lt(a, b) || seq_lt(b, a),
    decreases a.len(),
{
    if a.len() > 0 && b.len() > 0 && c.len() > 0 {
        lemma_seq_lt_strict_total(a.drop_first(), b.drop_first(), c.drop_first());
    } else if a.len() > 0 && b.len() > 0 {
        lemma_seq_lt_strict_total(a.drop_first(), b.drop_first(), b.drop_first());
    } else if a.len() > 0 {
        lemma_seq_lt_strict_total(a.drop_first(), a.drop_first(), a.drop_first());
    }
    if a.len() > 0 && b.len() > 0 && a[0] == b[0] && a.drop_first() == b.drop_first() {
        assert(a =~= seq![a[0]] + a.drop_first());
        assert(b =~= seq![b[0]] + b.drop_first());
    }
    if a.len() == 0 && b.len() == 0 {
        assert(a =~= b);
    }
}

/// The text order's strict-total facts for every ordering of three texts.
pub proof fn lemma_seq_lt_three(a: Seq<char>, b: Seq<char>, c: Seq<char>)
    ensures
        !seq_lt(a, a) && !seq_lt(b, b) && !seq_lt(c, c),
        seq_lt(a, b) ==> !seq_lt(b, a),
        seq_lt(a, c) ==> !seq_lt(c, a),
        seq_lt(b, c) ==> !seq_lt(c, b),
        seq_lt(a, b) && seq_lt(b, c) ==> seq_lt(a, c),
        seq_lt(a, c) && seq_lt(c, b) ==> seq_lt(a, b),
        seq_lt(b, a) && seq_lt(a, c) ==> seq_lt(b, c),
        seq_lt(b, c) && seq_lt(c, a) ==> seq_lt(b, a),
        seq_lt(c, a) && seq_lt(a, b) ==> seq_lt(c, b),
        seq_lt(c, b) && seq_lt(b, a) ==> seq_lt(c, a),
        a != b ==> seq_lt(a, b) || seq_lt(b, a),
        a != c ==> seq_lt(a, c) || seq_lt(c, a),
        b != c ==> seq_lt(b, c) || seq_lt(c, b),
{
    lemma_seq_lt_strict_total(a, b, c);
    lemma_seq_lt_strict_total(a, c, b);
    lemma_seq_lt_strict_total(b, a, c);
    lemma_seq_lt_strict_total(b, c, a);
    lemma_seq_lt_strict_total(c, a, b);
    lemma_seq_lt_strict_total(c, b, a);
}

/// Equality of two string slices by their characters.
pub fn str_eq(a: &str, b: &str) -> (r: bool)
    ensures
        r == (a@ == b@),
{
    let x = chars_of(a);
    let y = chars_of(b);
    if x.len() != y.len() {
        return false;
    }
    for i in 0..x.len()
        invariant
            x@ == a@,
            y@ == b@,
            x@.len() == y@.len(),
            forall|j: int| 0 <= j < i ==> x@[j] == y@[j],
    {
        if x[i] != y[i] {
            return false;
        }
    }
    assert(a@ =~= b@);
    true
}

proof fn lemma_seq_lt_skip(a: Seq<char>, b: Seq<char>, i: int)
    requires
        0 <= i <= a.len(),
        i <= b.len(),
        forall|j: int| 0 <= j < i ==> a[j] == b[j],
    ensures
        seq_lt(a, b) == seq_lt(a.skip(i), b.skip(i)),
    decreases i,
{
    if i > 0 {
        assert(a.skip(1).skip(i - 1) =~= a.skip(i));
        assert(b.skip(1).skip(i - 1) =~= b.skip(i));
        assert(a.drop_first() =~= a.skip(1));
        assert(b.drop_first() =~= b.skip(1));
        lemma_seq_lt_skip(a.drop_first(), b.drop_first(), i - 1);
    } else {
        assert(a.skip(0) =~= a);
        assert(b.skip(0) =~= b);
    }
}

/// Strict lexicographic comparison of two string slices.
pub fn str_lt(a: &str, b: &str) -> (r: bool)
    ensures
        r == seq_lt(a@, b@),
{
    let x = chars_of(a);
    let y = chars_of(b);
    let mut i: usize = 0;
    while i < x.len() && i < y.len()
        invariant
            x@ == a@,
            y@ == b@,
            i <= x@.len(),
            i <= y@.len(),
            forall|j: int| 0 <= j < i ==> a@[j] == b@[j],
        decreases x.len() - i,
    {
        if x[i] != y[i] {
            proof {
                lemma_seq_lt_skip(a@, b@, i as int);
            }
            assert(a@.skip(i as int)[0] == x@[i as int]);
            assert(b@.skip(i as int)[0] == y@[i as int]);
            return x[i] < y[i];
        }
        i += 1;
    }
    proof {
        lemma_seq_lt_skip(a@, b@, i as int);
    }
    i == x.len() && i < y.len()
}

/// Inserts `x` into `s` after every element that `x` is not strictly below.
pub open spec fn spec_insert<T>(s: Seq<T>, x: T, lt: spec_fn(T, T) -> bool) -> Seq<T>
    decreases s.len(),
{
    if s.len() == 0 || !lt(x, s.last()) {
        s.push(x)
    } else {
        spec_insert(s.drop_last(), x, lt).push(s.last())
    }
}

/// Stable insertion sort by a strict order.
pub open spec fn spec_sort<T>(s: Seq<T>, lt: spec_fn(T, T) -> bool) -> Seq<T>
    decreases s.len(),
{
    if s.len() == 0 {
        s
    } else {
        spec_insert(spec_sort(s.drop_last(), lt), s.last(), lt)
    }
}

proof fn lemma_insert_at<T>(s: Seq<T>, x: T, lt: spec_fn(T, T) -> bool, j: int)
    requires
        0 <= j <= s.len(),
        forall|i: int| j <= i < s.len() ==> lt(x, #[trigger] s[i]),
        j > 0 ==> !lt(x, s[j - 1]),
    ensures
        spec_insert(s, x, lt) == s.take(j).push(x) + s.skip(j),
    decreases s.len(),
{
    if s.len() == j {
        assert(s.take(j) =~= s);
        assert(s.skip(j) =~= Seq::<T>::empty());
        assert(s.take(j).push(x) + s.skip(j) =~= s.push(x));
    } else {
        let d = s.drop_last();
        assert(lt(x, s[s.len() - 1]));
        assert forall|i: int| j <= i < d.len() implies lt(x, #[trigger] d[i]) by {
            assert(d[i] == s[i]);
        }
        lemma_insert_at(d, x, lt, j);
        assert(d.take(j) =~= s.take(j));
        assert(d.skip(j).push(s.last()) =~= s.skip(j));
        assert((d.take(j).push(x) + d.skip(j)).push(s.last()) =~= s.take(j).push(x) + s.skip(j));
    }
}

proof fn lemma_insert_elems<T>(s: Seq<T>, x: T, lt: spec_fn(T, T) -> bool)
    ensures
        spec_insert(s, x, lt).len() == s.len() + 1,
        forall|i: int|
            0 <= i < s.len() + 1 ==> spec_insert(s, x, lt)[i] == x || s.contains(
                #[trigger] spec_insert(s, x, lt)[i],
            ),
    decreases s.len(),
{
    if s.len() == 0 || !lt(x, s.last()) {
        assert forall|i: int| 0 <= i < s.len() + 1 implies spec_insert(s, x, lt)[i] == x || s.contains(
            #[trigger] spec_insert(s, x, lt)[i],
        ) by {
            if i < s.len() {
                assert(s[i] == spec_insert(s, x, lt)[i]);
            }
        }
    } else {
        lemma_insert_elems(s.drop_last(), x, lt);
        assert forall|i: int| 0 <= i < s.len() + 1 implies spec_insert(s, x, lt)[i] == x || s.contains(
            #[trigger] spec_insert(s, x, lt)[i],
        ) by {
            if i < s.len() {
                let y = spec_insert(s.drop_last(), x, lt)[i];
                if y != x {
                    let w = choose|w: int| 0 <= w < s.drop_last().len() && s.drop_last()[w] == y;
                    assert(s[w] == y);
                }
            } else {
                assert(spec_insert(s, x, lt)[i] == s[s.len() - 1]);
            }
        }
    }
}

proof fn lemma_insert_permutes<T>(s: Seq<T>, x: T, lt: spec_fn(T, T) -> bool)
    ensures
        spec_insert(s, x, lt).to_multiset() =~= s.to_multiset().insert(x),
    decreases s.len(),
{
    broadcast use vstd::seq_lib::group_to_multiset_ensures;
    if s.len() == 0 || !lt(x, s.last()) {
    } else {
        let d = s.drop_last();
        lemma_insert_permutes(d, x, lt);
        assert(d.push(s.last()) =~= s);
    }
}

/// Sorting only reorders: the sorted sequence holds each element as often
/// as the input does.
pub proof fn lemma_sort_permutes<T>(s: Seq<T>, lt: spec_fn(T, T) -> bool)
    ensures
        spec_sort(s, lt).to_multiset() =~= s.to_multiset(),
    decreases s.len(),
{
    broadcast use vstd::seq_lib::group_to_multiset_ensures;
    if s.len() > 0 {
        lemma_sort_permutes(s.drop_last(), lt);
        lemma_insert_permutes(spec_sort(s.drop_last(), lt), s.last(), lt);
        assert(s.drop_last().push(s.last()) =~= s);
    }
}

/// Whether `lt` orders the elements of `s` strictly and totally.
pub open spec fn strict_total_on<T>(s: Seq<T>, lt: spec_fn(T, T) -> bool) -> bool {
    &&& forall|a: T| #[trigger] s.contains(a) ==> !lt(a, a)
    &&& forall|a: T, b: T, c: T|
        s.contains(a) && s.contains(b) && s.contains(c) && #[trigger] lt(a, b) && #[trigger] lt(b, c) ==> lt(a, c)
    &&& forall|a: T, b: T| #[trigger] s.contains(a) && #[trigger] s.contains(b) && a != b ==> lt(a, b) || lt(b, a)
}

/// Whether no element of `s` is strictly below an earlier one.
pub open spec fn sorted_by<T>(s: Seq<T>, lt: spec_fn(T, T) -> bool) -> bool {
    forall|i: int, j: int| 0 <= i < j < s.len() ==> !lt(#[trigger] s[j], #[trigger] s[i])
}

proof fn lemma_strict_total_sub<T>(s: Seq<T>, t: Seq<T>, lt: spec_fn(T, T) -> bool)
    requires
        strict_total_on(s, lt),
        forall|a: T| #[trigger] t.contains(a) ==> s.contains(a),
    ensures
        strict_total_on(t, lt),
{
}

proof fn lemma_insert_sorted<T>(s: Seq<T>, x: T, lt: spec_fn(T, T) -> bool)
    requires
        sorted_by(s, lt),
        strict_total_on(s.push(x), lt),
    ensures
        sorted_by(spec_insert(s, x, lt), lt),
    decreases s.len(),
{
    let p = s.push(x);
    assert(p.contains(x)) by {
        assert(p[s.len() as int] == x);
    }
    assert forall|i: int| 0 <= i < s.len() implies #[trigger] p.contains(s[i]) by {
        assert(p[i] == s[i]);
    }
    if s.len() == 0 || !lt(x, s.last()) {
        let r = s.push(x);
        assert forall|i: int, j: int| 0 <= i < j < r.len() implies !lt(#[trigger] r[j], #[trigger] r[i]) by {
            if j == s.len() {
                let l = s.last();
                assert(p.contains(l));
                assert(p.contains(r[i]));
                if lt(x, r[i]) {
                    if r[i] != l {
                        assert(!lt(s[s.len() - 1], s[i]));
                        assert(lt(r[i], l));
                    }
                }
            } else {
                assert(r[i] == s[i] && r[j] == s[j]);
            }
        }
    } else {
        let d = s.drop_last();
        let l = s.last();
        assert forall|a: T| #[trigger] d.push(x).contains(a) implies p.contains(a) by {
            let k = choose|k: int| 0 <= k < d.push(x).len() && d.push(x)[k] == a;
            if k < d.len() {
                assert(p[k] == a);
            }
        }
        lemma_strict_total_sub(p, d.push(x), lt);
        assert forall|i: int, j: int| 0 <= i < j < d.len() implies !lt(#[trigger] d[j], #[trigger] d[i]) by {
            assert(d[i] == s[i] && d[j] == s[j]);
        }
        lemma_insert_sorted(d, x, lt);
        lemma_insert_elems(d, x, lt);
        let m = spec_insert(d, x, lt);
        let r = m.push(l);
        assert(p.contains(l));
        assert forall|i: int, j: int| 0 <= i < j < r.len() implies !lt(#[trigger] r[j], #[trigger] r[i]) by {
            if j == m.len() {
                assert(r[j] == l);
                assert(r[i] == m[i]);
                if m[i] == x {
                    assert(!lt(l, x));
                } else {
                    assert(d.contains(m[i]));
                    let k = choose|k: int| 0 <= k < d.len() && d[k] == m[i];
                    assert(s[k] == d[k]);
                    assert(!lt(s[s.len() - 1], s[k]));
                }
            } else {
                assert(r[i] == m[i] && r[j] == m[j]);
            }
        }
    }
}

/// Under an order that is strict and total on the input, the sorted
/// sequence is sorted.
pub proof fn lemma_sort_sorted<T>(s: Seq<T>, lt: spec_fn(T, T) -> bool)
    requires
        strict_total_on(s, lt),
    ensures
        sorted_by(spec_sort(s, lt), lt),
    decreases s.len(),
{
    if s.len() > 0 {
        let d = s.drop_last();
        assert forall|a: T| #[trigger] d.contains(a) implies s.contains(a) by {
            let k = choose|k: int| 0 <= k < d.len() && d[k] == a;
            assert(s[k] == a);
        }
        lemma_strict_total_sub(s, d, lt);
        lemma_sort_sorted(d, lt);
        let sd = spec_sort(d, lt);
        lemma_sort_elems(d, lt);
        assert forall|a: T| #[trigger] sd.push(s.last()).contains(a) implies s.contains(a) by {
            let k = choose|k: int| 0 <= k < sd.push(s.last()).len() && sd.push(s.last())[k] == a;
            if k < sd.len() {
                assert(d.contains(sd[k]));
            } else {
                assert(s[s.len() - 1] == a);
            }
        }
        lemma_strict_total_sub(s, sd.push(s.last()), lt);
        lemma_insert_sorted(sd, s.last(), lt);
    }
}

/// Two sequences that are sorted under an order strict and total on their
/// elements, and that hold the same elements equally often, are equal.
pub proof fn lemma_sorted_unique<T>(s: Seq<T>, t: Seq<T>, lt: spec_fn(T, T) -> bool)
    requires
        sorted_by(s, lt),
        sorted_by(t, lt),
        s.to_multiset() == t.to_multiset(),
        strict_total_on(s, lt),
    ensures
        s == t,
    decreases s.len(),
{
    broadcast use vstd::seq_lib::group_to_multiset_ensures;
    assert(s.len() == s.to_multiset().len() && t.len() == t.to_multiset().len());
    assert(s.len() == t.len());
    if s.len() == 0 {
        assert(s =~= t);
    } else {
        let n = s.len() - 1;
        let a = s[n];
        let b = t[n];
        assert(s.contains(a));
        assert(t.contains(b));
        assert(t.to_multiset().count(a) > 0);
        assert(s.to_multiset().count(b) > 0);
        assert(t.contains(a));
        assert(s.contains(b));
        let k = choose|k: int| 0 <= k < t.len() && t[k] == a;
        let k2 = choose|k2: int| 0 <= k2 < s.len() && s[k2] == b;
        if k < n {
            assert(!lt(t[n], t[k]));
        }
        if k2 < n {
            assert(!lt(s[n], s[k2]));
        }
        assert(a == b);
        let ds = s.drop_last();
        let dt = t.drop_last();
        assert(s.remove(n) =~= ds);
        assert(t.remove(n) =~= dt);
        assert(ds.to_multiset() =~= dt.to_multiset());
        assert forall|i: int, j: int| 0 <= i < j < ds.len() implies !lt(#[trigger] ds[j], #[trigger] ds[i]) by {
            assert(ds[i] == s[i] && ds[j] == s[j]);
        }
        assert forall|i: int, j: int| 0 <= i < j < dt.len() implies !lt(#[trigger] dt[j], #[trigger] dt[i]) by {
            assert(dt[i] == t[i] && dt[j] == t[j]);
        }
        assert forall|x: T| #[trigger] ds.contains(x) implies s.contains(x) by {
            let w = choose|w: int| 0 <= w < ds.len() && ds[w] == x;
            assert(s[w] == x);
        }
        lemma_strict_total_sub(s, ds, lt);
        lemma_sorted_unique(ds, dt, lt);
        assert(s =~= ds.push(a));
        assert(t =~= dt.push(b));
    }
}

/// Under an order strict and total on the input, sorting forgets the
/// input's order: inputs that hold the same elements equally often sort to
/// the same sequence.
pub proof fn lemma_sort_ignores_order<T>(s: Seq<T>, t: Seq<T>, lt: spec_fn(T, T) -> bool)
    requires
        s.to_multiset() == t.to_multiset(),
        strict_total_on(s, lt),
    ensures
        spec_sort(s, lt) == spec_sort(t, lt),
{
    broadcast use vstd::seq_lib::group_to_multiset_ensures;
    assert forall|a: T| #[trigger] t.contains(a) implies s.contains(a) by {
        assert(t.to_multiset().count(a) > 0);
    }
    lemma_strict_total_sub(s, t, lt);
    lemma_sort_sorted(s, lt);
    lemma_sort_sorted(t, lt);
    lemma_sort_permutes(s, lt);
    lemma_sort_permutes(t, lt);
    let ss = spec_sort(s, lt);
    assert forall|a: T| #[trigger] ss.contains(a) implies s.contains(a) by {
        assert(ss.to_multiset().count(a) > 0);
    }
    lemma_strict_total_sub(s, ss, lt);
    lemma_sorted_unique(ss, spec_sort(t, lt), lt);
}

/// Whether `lt` is a strict weak order: irreflexive, transitive, and
/// whenever `a` is below `b`, any `c` is above `a` or below `b`.
pub open spec fn strict_weak<T>(lt: spec_fn(T, T) -> bool) -> bool {
    &&& forall|a: T| !#[trigger] lt(a, a)
    &&& forall|a: T, b: T, c: T| #[trigger] lt(a, b) && #[trigger] lt(b, c) ==> lt(a, c)
    &&& forall|a: T, b: T, c: T| #[trigger] lt(a, b) ==> #[trigger] lt(a, c) || lt(c, b)
}

proof fn lemma_insert_sorted_weak<T>(s: Seq<T>, x: T, lt: spec_fn(T, T) -> bool)
    requires
        sorted_by(s, lt),
        strict_weak(lt),
    ensures
        sorted_by(spec_insert(s, x, lt), lt),
    decreases s.len(),
{
    if s.len() == 0 || !lt(x, s.last()) {
        let r = s.push(x);
        assert forall|i: int, j: int| 0 <= i < j < r.len() implies !lt(#[trigger] r[j], #[trigger] r[i]) by {
            if j == s.len() {
                let l = s.last();
                if lt(x, r[i]) {
                    assert(r[i] == s[i]);
                    assert(lt(x, l) || lt(l, r[i]));
                    if i < s.len() - 1 {
                        assert(!lt(s[s.len() - 1], s[i]));
                    }
                }
            } else {
                assert(r[i] == s[i] && r[j] == s[j]);
            }
        }
    } else {
        let d = s.drop_last();
        let l = s.last();
        assert forall|i: int, j: int| 0 <= i < j < d.len() implies !lt(#[trigger] d[j], #[trigger] d[i]) by {
            assert(d[i] == s[i] && d[j] == s[j]);
        }
        lemma_insert_sorted_weak(d, x, lt);
        lemma_insert_elems(d, x, lt);
        let m = spec_insert(d, x, lt);
        let r = m.push(l);
        assert forall|i: int, j: int| 0 <= i < j < r.len() implies !lt(#[trigger] r[j], #[trigger] r[i]) by {
            if j == m.len() {
                assert(r[j] == l);
                assert(r[i] == m[i]);
                if m[i] == x {
                    if lt(l, x) {
                        assert(lt(x, x));
                    }
                } else {
                    assert(d.contains(m[i]));
                    let k = choose|k: int| 0 <= k < d.len() && d[k] == m[i];
                    assert(s[k] == d[k]);
                    assert(!lt(s[s.len() - 1], s[k]));
                }
            } else {
                assert(r[i] == m[i] && r[j] == m[j]);
            }
        }
    }
}

/// Under a strict weak order, the sorted sequence is sorted.
pub proof fn lemma_sort_sorted_weak<T>(s: Seq<T>, lt: spec_fn(T, T) -> bool)
    requires
        strict_weak(lt),
    ensures
        sorted_by(spec_sort(s, lt), lt),
    decreases s.len(),
{
    if s.len() > 0 {
        lemma_sort_sorted_weak(s.drop_last(), lt);
        lemma_insert_sorted_weak(spec_sort(s.drop_last(), lt), s.last(), lt);
    }
}

/// Every element of the sorted sequence comes from the input.
pub proof fn lemma_sort_elems<T>(s: Seq<T>, lt: spec_fn(T, T) -> bool)
    ensures
        spec_sort(s, lt).len() == s.len(),
        forall|i: int| 0 <= i < s.len() ==> s.contains(#[trigger] spec_sort(s, lt)[i]),
    decreases s.len(),
{
    if s.len() > 0 {
        lemma_sort_elems(s.drop_last(), lt);
        lemma_insert_elems(spec_sort(s.drop_last(), lt), s.last(), lt);
        assert forall|i: int| 0 <= i < s.len() implies s.contains(#[trigger] spec_sort(s, lt)[i]) by {
            let y = spec_sort(s, lt)[i];
            if y == s.last() {
                assert(s[s.len() - 1] == y);
            } else {
                let w = choose|w: int|
                    0 <= w < spec_sort(s.drop_last(), lt).len() && spec_sort(s.drop_last(), lt)[w] == y;
                let w2 = choose|w2: int| 0 <= w2 < s.drop_last().len() && s.drop_last()[w2] == spec_sort(
                    s.drop_last(),
                    lt,
                )[w];
                assert(s[w2] == y);
            }
        }
    }
}

/// Sorts `v` by the strict order `lt`, keeping equal elements in their
/// original order.
pub fn sort_by<T, F: Fn(&T, &T) -> bool>(v: Vec<T>, lt: F, Ghost(slt): Ghost<spec_fn(T, T) -> bool>) -> (r: Vec<T>)
    requires
        forall|a: &T, b: &T| v@.contains(*a) && v@.contains(*b) ==> #[trigger] lt.requires((a, b)),
        forall|a: &T, b: &T, o: bool|
            v@.contains(*a) && v@.contains(*b) && lt.ensures((a, b), o) ==> o == slt(*a, *b),
    ensures
        r@ == spec_sort(v@, slt),
{
    let ghost orig = v@;
    let mut src = v;
    let mut rest: Vec<T> = Vec::new();
    let _n = src.len();
    while src.len() > 0
        invariant
            src@.len() + rest@.len() == orig.len(),
            forall|i: int| 0 <= i < src@.len() ==> #[trigger] src@[i] == orig[i],
            forall|i: int| 0 <= i < rest@.len() ==> #[trigger] rest@[i] == orig[orig.len() - 1 - i],
            orig.len() <= usize::MAX,
        decreases src.len(),
    {
        let x = src.pop().unwrap();
        rest.push(x);
    }
    let mut out: Vec<T> = Vec::new();
    let mut k: usize = 0;
    assert(orig.take(0) =~= Seq::<T>::empty());
    while rest.len() > 0
        invariant
            forall|a: &T, b: &T| orig.contains(*a) && orig.contains(*b) ==> #[trigger] lt.requires((a, b)),
            forall|a: &T, b: &T, o: bool|
                orig.contains(*a) && orig.contains(*b) && lt.ensures((a, b), o) ==> o == slt(*a, *b),
            k + rest@.len() == orig.len(),
            orig.len() <= usize::MAX,
            forall|i: int| 0 <= i < rest@.len() ==> #[trigger] rest@[i] == orig[orig.len() - 1 - i],
            out@ == spec_sort(orig.take(k as int), slt),
        decreases rest.len(),
    {
        let x = rest.pop().unwrap();
        assert(x == orig[k as int]);
        proof {
            lemma_sort_elems(orig.take(k as int), slt);
            assert forall|i: int| 0 <= i < out@.len() implies orig.contains(#[trigger] out@[i]) by {
                let w = choose|w: int| 0 <= w < orig.take(k as int).len() && orig.take(k as int)[w] == out@[i];
                assert(orig[w] == out@[i]);
            }
        }
        let mut j = out.len();
        while j > 0 && lt(&x, &out[j - 1])
            invariant
                forall|a: &T, b: &T| orig.contains(*a) && orig.contains(*b) ==> #[trigger] lt.requires((a, b)),
                forall|a: &T, b: &T, o: bool|
                    orig.contains(*a) && orig.contains(*b) && lt.ensures((a, b), o) ==> o == slt(*a, *b),
                orig.contains(x),
                forall|i: int| 0 <= i < out@.len() ==> orig.contains(#[trigger] out@[i]),
                j <= out@.len(),
                forall|i: int| j <= i < out@.len() ==> slt(x, #[trigger] out@[i]),
            decreases j,
        {
            j -= 1;
        }
        proof {
            lemma_insert_at(out@, x, slt, j as int);
            assert(orig.take(k + 1).drop_last() =~= orig.take(k as int));
        }
        out.insert(j, x);
        assert(out@ =~= spec_sort(orig.take(k + 1), slt));
        k += 1;
    }
    assert(orig.take(k as int) =~= orig);
    out
}

} // verus!

verus! {

proof fn lemma_insert_map<A, B>(s: Seq<A>, x: A, f: spec_fn(A) -> B, lta: spec_fn(A, A) -> bool, ltb: spec_fn(B, B) -> bool)
    requires
        forall|p: A, q: A| #[trigger] lta(p, q) == ltb(f(p), f(q)),
    ensures
        spec_insert(s, x, lta).map_values(f) == spec_insert(s.map_values(f), f(x), ltb),
    decreases s.len(),
{
    if s.len() == 0 || !lta(x, s.last()) {
        assert(s.push(x).map_values(f) =~= s.map_values(f).push(f(x)));
    } else {
        lemma_insert_map(s.drop_last(), x, f, lta, ltb);
        assert(s.drop_last().map_values(f) =~= s.map_values(f).drop_last());
        assert(spec_insert(s.drop_last(), x, lta).push(s.last()).map_values(f) =~= spec_insert(
            s.drop_last(),
            x,
            lta,
        ).map_values(f).push(f(s.last())));
    }
}

/// Sorting commutes with a map that preserves the order.
pub proof fn lemma_sort_map<A, B>(s: Seq<A>, f: spec_fn(A) -> B, lta: spec_fn(A, A) -> bool, ltb: spec_fn(B, B) -> bool)
    requires
        forall|p: A, q: A| #[trigger] lta(p, q) == ltb(f(p), f(q)),
    ensures
        spec_sort(s, lta).map_values(f) == spec_sort(s.map_values(f), ltb),
    decreases s.len(),
{
    if s.len() == 0 {
        assert(s.map_values(f) =~= Seq::<B>::empty());
        assert(spec_sort(s, lta).map_values(f) =~= Seq::<B>::empty());
    } else {
        lemma_sort_map(s.drop_last(), f, lta, ltb);
        lemma_insert_map(spec_sort(s.drop_last(), lta), s.last(), f, lta, ltb);
        assert(s.drop_last().map_values(f) =~= s.map_values(f).drop_last());
    }
}

/// The indices `0..n`.
pub open spec fn indices(n: nat) -> Seq<usize> {
    Seq::new(n, |i: int| i as usize)
}

/// The indices `0..n` as a vector.
pub fn index_vec(n: usize) -> (r: Vec<usize>)
    ensures
        r@ == indices(n as nat),
{
    let mut out: Vec<usize> = Vec::new();
    for i in 0..n
        invariant
            out@ == indices(i as nat),
    {
        out.push(i);
        assert(out@ =~= indices((i + 1) as nat));
    }
    out
}

/// Removes adjacent duplicates.
pub open spec fn spec_dedup<T>(s: Seq<T>) -> Seq<T>
    decreases s.len(),
{
    if s.len() <= 1 {
        s
    } else if s[s.len() - 1] == s[s.len() - 2] {
        spec_dedup(s.drop_last())
    } else {
        spec_dedup(s.drop_last()).push(s.last())
    }
}

pub proof fn lemma_dedup_last<T>(s: Seq<T>)
    requires
        s.len() > 0,
    ensures
        spec_dedup(s).len() > 0,
        spec_dedup(s).last() == s.last(),
    decreases s.len(),
{
    if s.len() > 1 && s[s.len() - 1] == s[s.len() - 2] {
        lemma_dedup_last(s.drop_last());
    }
}

/// The text order on strings, by their characters.
pub open spec fn string_order() -> spec_fn(String, String) -> bool {
    |a: String, b: String| seq_lt(a@, b@)
}

/// The text order on character sequences.
pub open spec fn text_order() -> spec_fn(Seq<char>, Seq<char>) -> bool {
    |a: Seq<char>, b: Seq<char>| seq_lt(a, b)
}

/// Each distinct item once, in increasing text order.
pub open spec fn spec_sorted_set(items: Seq<Seq<char>>) -> Seq<Seq<char>> {
    spec_dedup(spec_sort(items, text_order()))
}

/// Sorts strings by text order and drops repeats, as an ordered set of
/// strings iterates.
pub fn sorted_unique_strings(items: Vec<String>) -> (r: Vec<String>)
    ensures
        crate::ir::strings_view(r@) == spec_sorted_set(crate::ir::strings_view(items@)),
{
    let ghost views = crate::ir::strings_view(items@);
    let lt = |a: &String, b: &String| -> (o: bool)
        ensures
            o == seq_lt(a@, b@),
        { str_lt(a.as_str(), b.as_str()) };
    let sorted = sort_by(items, lt, Ghost(string_order()));
    proof {
        let f = |s: String| s@;
        lemma_sort_map(items@, f, string_order(), text_order());
        assert(items@.map_values(f) =~= views);
        assert(sorted@.map_values(f) =~= crate::ir::strings_view(sorted@));
    }
    let ghost sv = crate::ir::strings_view(sorted@);
    let mut out: Vec<String> = Vec::new();
    for i in 0..sorted.len()
        invariant
            sv == crate::ir::strings_view(sorted@),
            crate::ir::strings_view(out@) == spec_dedup(sv.take(i as int)),
            i > 0 ==> out@.len() > 0 && out@.last()@ == sv[i - 1],
    {
        assert(sv.take(i + 1).drop_last() =~= sv.take(i as int));
        let same = i > 0 && str_eq(out[out.len() - 1].as_str(), sorted[i].as_str());
        if i > 0 {
            proof {
                lemma_dedup_last(sv.take(i as int));
            }
        }
        if !same {
            let ghost before = out@;
            out.push(sorted[i].clone());
            assert(crate::ir::strings_view(out@) =~= crate::ir::strings_view(before).push(sv[i as int]));
        }
        assert(sv.take(i + 1)[i as int] == sv[i as int]);
        if i > 0 {
            assert(sv.take(i + 1)[i - 1] == sv[i - 1]);
        }
    }
    assert(sv.take(sorted@.len() as int) =~= sv);
    out
}

/// The positions of `items` in the stable order `slt` of their views.
pub fn sort_indices<T: View, F: Fn(&T, &T) -> bool>(
    items: &Vec<T>,
    lt: F,
    Ghost(slt): Ghost<spec_fn(T::V, T::V) -> bool>,
) -> (r: Vec<usize>)
    requires
        forall|a: &T, b: &T| #[trigger] lt.requires((a, b)),
        forall|a: &T, b: &T, o: bool| lt.ensures((a, b), o) ==> o == slt(a@, b@),
    ensures
        r@.len() == items@.len(),
        forall|i: int| 0 <= i < r@.len() ==> #[trigger] r@[i] < items@.len(),
        r@.map_values(|i: usize| items@[i as int]@) == spec_sort(
            items@.map_values(|x: T| x@),
            slt,
        ),
{
    let ghost models = items@.map_values(|x: T| x@);
    let ghost ilt = |a: usize, b: usize| slt(models[a as int], models[b as int]);
    let n = items.len();
    let idx = index_vec(n);
    let by_index = |a: &usize, b: &usize| -> (o: bool)
        requires
            *a < items@.len(),
            *b < items@.len(),
        ensures
            o == slt(items@[*a as int]@, items@[*b as int]@),
        { lt(&items[*a], &items[*b]) };
    assert forall|a: &usize, b: &usize|
        idx@.contains(*a) && idx@.contains(*b) implies #[trigger] by_index.requires((a, b)) by {
        let wa = choose|w: int| 0 <= w < idx@.len() && idx@[w] == *a;
        let wb = choose|w: int| 0 <= w < idx@.len() && idx@[w] == *b;
    }
    let r = sort_by(idx, by_index, Ghost(ilt));
    proof {
        lemma_sort_elems(indices(n as nat), ilt);
        assert forall|i: int| 0 <= i < r@.len() implies #[trigger] r@[i] < items@.len() by {
            let w = choose|w: int| 0 <= w < indices(n as nat).len() && indices(n as nat)[w] == r@[i];
        }
        let f = |i: usize| models[i as int];
        lemma_sort_map(indices(n as nat), f, ilt, slt);
        assert(indices(n as nat).map_values(f) =~= models);
        assert(r@.map_values(f) =~= r@.map_values(|i: usize| items@[i as int]@));
    }
    r
}

} // verus!

verus! {

/// The concatenation of `f(x)` over the items of `s`, in order.
pub open spec fn flat_map<T, U>(s: Seq<T>, f: spec_fn(T) -> Seq<U>) -> Seq<U>
    decreases s.len(),
{
    if s.len() == 0 {
        Seq::empty()
    } else {
        flat_map(s.drop_last(), f) + f(s.last())
    }
}

/// One more item of a prefix adds its items at the end.
pub proof fn lemma_flat_map_step<T, U>(s: Seq<T>, f: spec_fn(T) -> Seq<U>, i: int)
    requires
        0 <= i < s.len(),
    ensures
        flat_map(s.take(i + 1), f) == flat_map(s.take(i), f) + f(s[i]),
{
    assert(s.take(i + 1).drop_last() =~= s.take(i));
}

} // verus!
