//! Stable sorting by a key, as `slice::sort_by` / `sort_by_key` perform it:
//! the result is ordered by the key, and items with equivalent keys keep the
//! order they had.

use vstd::prelude::*;

verus! {

/// A total preorder on sort keys, with an executable comparison.
pub trait KeyOrder: Sized {
    /// `self` sorts no later than `other`.
    spec fn key_le(self, other: Self) -> bool;

    proof fn lemma_key_le_total(a: Self, b: Self)
        ensures
            a.key_le(b) || b.key_le(a),
    ;

    proof fn lemma_key_le_trans(a: Self, b: Self, c: Self)
        requires
            a.key_le(b),
            b.key_le(c),
        ensures
            a.key_le(c),
    ;

    fn le(&self, other: &Self) -> (r: bool)
        ensures
            r == self.key_le(*other),
    ;
}

/// Two keys that sort in either order.
pub open spec fn key_equiv<K: KeyOrder>(a: K, b: K) -> bool {
    a.key_le(b) && b.key_le(a)
}

/// Every item's key sorts no later than the keys of the items after it.
pub open spec fn sorted_by_key<K: KeyOrder, T>(s: Seq<(K, T)>) -> bool {
    forall|i: int, j: int| 0 <= i < j < s.len() ==> (#[trigger] s[i]).0.key_le((#[trigger] s[j]).0)
}

/// The items of `s` whose key is equivalent to `k`, in their order in `s`.
pub open spec fn key_class<K: KeyOrder, T>(s: Seq<(K, T)>, k: K) -> Seq<(K, T)> {
    s.filter(|p: (K, T)| key_equiv(p.0, k))
}

/// `out` is `inp` sorted stably by key: ordered by key, and for every key the
/// items with an equivalent key come in the same order as in `inp`. Only one
/// `out` meets this (`lemma_stable_sort_unique`).
pub open spec fn is_stable_sort_of<K: KeyOrder, T>(out: Seq<(K, T)>, inp: Seq<(K, T)>) -> bool {
    &&& sorted_by_key(out)
    &&& forall|k: K| #[trigger] key_class(out, k) == key_class(inp, k)
    &&& out.to_multiset() == inp.to_multiset()
}

proof fn lemma_key_class_single<K: KeyOrder, T>(x: (K, T), k: K)
    ensures
        key_class(seq![x], k) == (if key_equiv(x.0, k) {
            seq![x]
        } else {
            Seq::<(K, T)>::empty()
        }),
{
    reveal(Seq::filter);
    let f = |p: (K, T)| key_equiv(p.0, k);
    assert(seq![x].drop_last() =~= Seq::<(K, T)>::empty());
    assert(Seq::<(K, T)>::empty().filter(f) =~= Seq::<(K, T)>::empty());
    assert(seq![x].last() == x);
    if key_equiv(x.0, k) {
        assert(seq![x].filter(f) =~= seq![x]);
    } else {
        assert(seq![x].filter(f) =~= Seq::<(K, T)>::empty());
    }
}

proof fn lemma_key_class_add<K: KeyOrder, T>(a: Seq<(K, T)>, b: Seq<(K, T)>, k: K)
    ensures
        key_class(a + b, k) == key_class(a, k) + key_class(b, k),
{
    Seq::filter_distributes_over_add(a, b, |p: (K, T)| key_equiv(p.0, k));
}

proof fn lemma_key_class_empty<K: KeyOrder, T>(s: Seq<(K, T)>, k: K)
    requires
        forall|i: int| 0 <= i < s.len() ==> !key_equiv((#[trigger] s[i]).0, k),
    ensures
        key_class(s, k) == Seq::<(K, T)>::empty(),
    decreases s.len(),
{
    reveal(Seq::filter);
    if s.len() > 0 {
        let t = s.drop_last();
        assert forall|i: int| 0 <= i < t.len() implies !key_equiv((#[trigger] t[i]).0, k) by {
            assert(t[i] == s[i]);
        }
        lemma_key_class_empty(t, k);
        assert(!key_equiv(s[s.len() - 1].0, k));
    }
}

/// Inserting `x` right after the items whose key sorts no later than `x`
/// keeps the sequence sorted and adds `x` at the end of its key class.
proof fn lemma_insert_stable<K: KeyOrder, T>(s: Seq<(K, T)>, x: (K, T), p: int)
    requires
        sorted_by_key(s),
        0 <= p <= s.len(),
        forall|q: int| 0 <= q < p ==> (#[trigger] s[q]).0.key_le(x.0),
        p < s.len() ==> !s[p].0.key_le(x.0),
    ensures
        sorted_by_key(s.insert(p, x)),
        forall|k: K| #[trigger]
            key_class(s.insert(p, x), k) == key_class(s, k) + key_class(seq![x], k),
{
    let r = s.insert(p, x);
    if p < s.len() {
        K::lemma_key_le_total(s[p].0, x.0);
    }
    assert forall|i: int, j: int| 0 <= i < j < r.len() implies (#[trigger] r[i]).0.key_le(
        (#[trigger] r[j]).0,
    ) by {
        if i < p && j < p {
            assert(r[i] == s[i] && r[j] == s[j]);
        } else if i < p && j == p {
            assert(r[i] == s[i]);
        } else if i < p && j > p {
            assert(r[i] == s[i] && r[j] == s[j - 1]);
            if i < j - 1 {
            }
        } else if i == p {
            assert(r[j] == s[j - 1]);
            if p < j - 1 {
                K::lemma_key_le_trans(x.0, s[p].0, s[j - 1].0);
            }
        } else {
            assert(r[i] == s[i - 1] && r[j] == s[j - 1]);
        }
    }
    assert forall|k: K| #[trigger]
        key_class(s.insert(p, x), k) == key_class(s, k) + key_class(seq![x], k) by {
        let a = s.subrange(0, p);
        let b = s.subrange(p, s.len() as int);
        assert(s =~= a + b);
        assert(r =~= a + seq![x] + b);
        lemma_key_class_add(a + seq![x], b, k);
        lemma_key_class_add(a, seq![x], k);
        lemma_key_class_add(a, b, k);
        lemma_key_class_single(x, k);
        if key_equiv(x.0, k) {
            assert forall|i: int| 0 <= i < b.len() implies !key_equiv((#[trigger] b[i]).0, k) by {
                assert(b[i] == s[p + i]);
                if key_equiv(b[i].0, k) {
                    K::lemma_key_le_trans(b[i].0, k, x.0);
                    if i > 0 {
                        K::lemma_key_le_trans(s[p].0, b[i].0, x.0);
                    }
                }
            }
            lemma_key_class_empty(b, k);
            assert(key_class(r, k) =~= key_class(a, k) + key_class(seq![x], k));
            assert(key_class(s, k) =~= key_class(a, k));
            assert(key_class(r, k) =~= key_class(s, k) + key_class(seq![x], k));
        } else {
            assert(key_class(r, k) =~= key_class(s, k) + key_class(seq![x], k));
        }
    }
}

/// Sorts `items` stably by key (insertion sort).
pub fn stable_sort_by_key<K: KeyOrder, T>(items: Vec<(K, T)>) -> (out: Vec<(K, T)>)
    ensures
        is_stable_sort_of(out@, items@),
        out@.len() == items@.len(),
{
    let ghost orig = items@;
    let mut rest = items;
    let mut out: Vec<(K, T)> = Vec::new();
    let ghost mut n: int = 0;
    assert(out@ =~= orig.subrange(0, 0));
    while rest.len() > 0
        invariant
            0 <= n <= orig.len(),
            rest@ == orig.subrange(n, orig.len() as int),
            out@.len() == n,
            sorted_by_key(out@),
            forall|k: K| #[trigger] key_class(out@, k) == key_class(orig.subrange(0, n), k),
            out@.to_multiset() == orig.subrange(0, n).to_multiset(),
        decreases rest@.len(),
    {
        let x = rest.remove(0);
        assert(x == orig[n]);
        let mut p: usize = 0;
        while p < out.len() && out[p].0.le(&x.0)
            invariant
                p <= out@.len(),
                forall|q: int| 0 <= q < p ==> (#[trigger] out@[q]).0.key_le(x.0),
            decreases out@.len() - p,
        {
            p += 1;
        }
        let ghost old_out = out@;
        proof {
            lemma_insert_stable(old_out, x, p as int);
        }
        out.insert(p, x);
        proof {
            assert forall|k: K| #[trigger]
                key_class(out@, k) == key_class(orig.subrange(0, n + 1), k) by {
                assert(orig.subrange(0, n + 1) =~= orig.subrange(0, n) + seq![x]);
                lemma_key_class_add(orig.subrange(0, n), seq![x], k);
                assert(key_class(out@, k) == key_class(old_out, k) + key_class(seq![x], k));
            }
            broadcast use vstd::seq_lib::group_to_multiset_ensures;
            assert(out@ == old_out.insert(p as int, x));
            assert(orig.subrange(0, n + 1) =~= orig.subrange(0, n).push(x));
            n = n + 1;
            assert(rest@ =~= orig.subrange(n, orig.len() as int));
        }
    }
    assert(orig.subrange(0, n) =~= orig);
    out
}

/// A stable sort neither loses nor invents items: each item of the output is
/// an item of the input, and each item of the input is one of the output.
pub proof fn lemma_stable_sort_same_items<K: KeyOrder, T>(out: Seq<(K, T)>, inp: Seq<(K, T)>)
    requires
        is_stable_sort_of(out, inp),
    ensures
        forall|i: int| 0 <= i < out.len() ==> inp.contains(#[trigger] out[i]),
        forall|j: int| 0 <= j < inp.len() ==> out.contains(#[trigger] inp[j]),
{
    broadcast use vstd::seq_lib::group_filter_ensures;

    assert forall|i: int| 0 <= i < out.len() implies inp.contains(#[trigger] out[i]) by {
        let x = out[i];
        K::lemma_key_le_total(x.0, x.0);
        let f = |p: (K, T)| key_equiv(p.0, x.0);
        out.lemma_filter_contains(f, i);
        assert(key_class(out, x.0) == key_class(inp, x.0));
        inp.lemma_filter_contains_rev(f, x);
    }
    assert forall|j: int| 0 <= j < inp.len() implies out.contains(#[trigger] inp[j]) by {
        let x = inp[j];
        K::lemma_key_le_total(x.0, x.0);
        let f = |p: (K, T)| key_equiv(p.0, x.0);
        inp.lemma_filter_contains(f, j);
        assert(key_class(out, x.0) == key_class(inp, x.0));
        out.lemma_filter_contains_rev(f, x);
    }
}

proof fn lemma_key_class_cons<K: KeyOrder, T>(s: Seq<(K, T)>, k: K)
    requires
        s.len() > 0,
    ensures
        key_class(s, k) == (if key_equiv(s[0].0, k) {
            seq![s[0]] + key_class(s.drop_first(), k)
        } else {
            key_class(s.drop_first(), k)
        }),
{
    let p = |q: (K, T)| key_equiv(q.0, k);
    assert(s =~= seq![s[0]] + s.drop_first());
    s.drop_first().lemma_filter_prepend(s[0], p);
    if !key_equiv(s[0].0, k) {
        assert(Seq::<(K, T)>::empty() + key_class(s.drop_first(), k) =~= key_class(s.drop_first(), k));
    }
}

proof fn lemma_first_is_least<K: KeyOrder, T>(s: Seq<(K, T)>, x: (K, T))
    requires
        sorted_by_key(s),
        s.contains(x),
    ensures
        s[0].0.key_le(x.0),
{
    let j = choose|j: int| 0 <= j < s.len() && s[j] == x;
    if j == 0 {
        K::lemma_key_le_total(x.0, x.0);
    } else {
        assert(s[0].0.key_le(s[j].0));
    }
}

proof fn lemma_sorted_same_classes_equal<K: KeyOrder, T>(a: Seq<(K, T)>, b: Seq<(K, T)>)
    requires
        sorted_by_key(a),
        sorted_by_key(b),
        forall|k: K| #[trigger] key_class(a, k) == key_class(b, k),
    ensures
        a == b,
    decreases a.len() + b.len(),
{
    broadcast use vstd::seq_lib::group_filter_ensures;

    if a.len() == 0 && b.len() == 0 {
        assert(a =~= b);
    } else if a.len() == 0 || b.len() == 0 {
        let (e, n) = if a.len() == 0 { (a, b) } else { (b, a) };
        let k = n[0].0;
        K::lemma_key_le_total(k, k);
        n.lemma_filter_contains(|q: (K, T)| key_equiv(q.0, k), 0);
        reveal(Seq::filter);
        assert(key_class(e, k).len() == 0);
        assert(key_class(n, k).contains(n[0]));
        assert(key_class(a, k) == key_class(b, k));
        assert(false);
    } else {
        let x = a[0];
        let y = b[0];
        K::lemma_key_le_total(x.0, x.0);
        K::lemma_key_le_total(y.0, y.0);
        let px = |q: (K, T)| key_equiv(q.0, x.0);
        let py = |q: (K, T)| key_equiv(q.0, y.0);
        a.lemma_filter_contains(px, 0);
        assert(key_class(a, x.0) == key_class(b, x.0));
        b.lemma_filter_contains_rev(px, x);
        lemma_first_is_least(b, x);
        b.lemma_filter_contains(py, 0);
        assert(key_class(a, y.0) == key_class(b, y.0));
        a.lemma_filter_contains_rev(py, y);
        lemma_first_is_least(a, y);
        assert(key_equiv(y.0, x.0));
        let a2 = a.drop_first();
        let b2 = b.drop_first();
        lemma_key_class_cons(a, x.0);
        lemma_key_class_cons(b, x.0);
        assert((seq![x] + key_class(a2, x.0))[0] == x);
        assert((seq![y] + key_class(b2, x.0))[0] == y);
        assert(x == y);
        assert forall|k: K| #[trigger] key_class(a2, k) == key_class(b2, k) by {
            lemma_key_class_cons(a, k);
            lemma_key_class_cons(b, k);
            assert(key_class(a, k) == key_class(b, k));
            if key_equiv(x.0, k) {
                assert(key_class(a2, k) =~= key_class(a, k).drop_first());
                assert(key_class(b2, k) =~= key_class(b, k).drop_first());
            }
        }
        assert forall|i: int, j: int| 0 <= i < j < a2.len() implies (#[trigger] a2[i]).0.key_le(
            (#[trigger] a2[j]).0,
        ) by {
            assert(a2[i] == a[i + 1] && a2[j] == a[j + 1]);
        }
        assert forall|i: int, j: int| 0 <= i < j < b2.len() implies (#[trigger] b2[i]).0.key_le(
            (#[trigger] b2[j]).0,
        ) by {
            assert(b2[i] == b[i + 1] && b2[j] == b[j + 1]);
        }
        lemma_sorted_same_classes_equal(a2, b2);
        assert(a =~= seq![x] + a2);
        assert(b =~= seq![y] + b2);
    }
}

/// Sorting stably has one outcome: two stable sorts of the same input are
/// the same sequence.
pub proof fn lemma_stable_sort_unique<K: KeyOrder, T>(a: Seq<(K, T)>, b: Seq<(K, T)>, inp: Seq<(K, T)>)
    requires
        is_stable_sort_of(a, inp),
        is_stable_sort_of(b, inp),
    ensures
        a == b,
{
    assert forall|k: K| #[trigger] key_class(a, k) == key_class(b, k) by {
        assert(key_class(a, k) == key_class(inp, k));
        assert(key_class(b, k) == key_class(inp, k));
    }
    lemma_sorted_same_classes_equal(a, b);
}

/// Mapping a sequence with `f` that `g` undoes: the count of `y` in the mapped
/// sequence is the count of `g(y)` in the sequence.
pub proof fn lemma_map_values_count<A, B>(s: Seq<A>, f: spec_fn(A) -> B, g: spec_fn(B) -> A, y: B)
    requires
        forall|i: int| 0 <= i < s.len() ==> g(f(#[trigger] s[i])) == s[i],
        forall|b: B| #[trigger] f(g(b)) == b,
    ensures
        s.map_values(f).to_multiset().count(y) == s.to_multiset().count(g(y)),
    decreases s.len(),
{
    broadcast use vstd::seq_lib::group_to_multiset_ensures;

    if s.len() == 0 {
        assert(s.map_values(f) =~= Seq::<B>::empty());
        assert(s =~= Seq::<A>::empty());
        assert(Seq::<B>::empty().to_multiset().len() == 0);
        assert(Seq::<A>::empty().to_multiset().len() == 0);
    } else {
        let t = s.drop_last();
        let e = s.last();
        assert forall|i: int| 0 <= i < t.len() implies g(f(#[trigger] t[i])) == t[i] by {
            assert(t[i] == s[i]);
        }
        lemma_map_values_count(t, f, g, y);
        assert(s =~= t.push(e));
        assert(s.map_values(f) =~= t.map_values(f).push(f(e)));
        assert(g(f(s[s.len() - 1])) == s[s.len() - 1]);
        assert(f(g(y)) == y);
    }
}

} // verus!
