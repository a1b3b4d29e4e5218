//! The order of strings: by their characters, from the left.
use vstd::prelude::*;

use crate::text::{chars_of, views};

verus! {

/// Whether `a` comes before `b`: at the first place where they differ, or where
/// `a` ends, `a` has the smaller character or none.
pub open spec fn less(a: Seq<char>, b: Seq<char>) -> bool
    decreases a.len(),
{
    if b.len() == 0 {
        false
    } else if a.len() == 0 {
        true
    } else if a[0] != b[0] {
        a[0] < b[0]
    } else {
        less(a.skip(1), b.skip(1))
    }
}

/// Whether no name of the list comes before one to its left.
pub open spec fn sorted(v: Seq<Seq<char>>) -> bool {
    forall|i: int, j: int| 0 <= i < j < v.len() ==> !less(#[trigger] v[j], #[trigger] v[i])
}

/// Of two different strings one comes before the other.
pub proof fn lemma_less_total(a: Seq<char>, b: Seq<char>)
    ensures
        less(a, b) || less(b, a) || a == b,
        !(less(a, b) && less(b, a)),
        a == b ==> !less(a, b),
    decreases a.len(),
{
    if a.len() > 0 && b.len() > 0 && a[0] == b[0] {
        lemma_less_total(a.skip(1), b.skip(1));
        if a.skip(1) == b.skip(1) {
            assert(a =~= seq![a[0]] + a.skip(1));
            assert(b =~= seq![b[0]] + b.skip(1));
        }
    } else if a.len() == 0 && b.len() == 0 {
        assert(a =~= b);
    }
}

/// What comes before what comes before `c` comes before `c`.
pub proof fn lemma_less_transitive(a: Seq<char>, b: Seq<char>, c: Seq<char>)
    requires
        less(a, b),
        less(b, c),
    ensures
        less(a, c),
    decreases a.len(),
{
    if a.len() > 0 && b.len() > 0 && c.len() > 0 && a[0] == b[0] && b[0] == c[0] {
        lemma_less_transitive(a.skip(1), b.skip(1), c.skip(1));
    }
}

/// Two strings with a common front compare as what follows it.
pub proof fn lemma_less_prefix(p: Seq<char>, a: Seq<char>, b: Seq<char>)
    ensures
        less(p + a, p + b) == less(a, b),
    decreases p.len(),
{
    if p.len() == 0 {
        assert(p + a =~= a);
        assert(p + b =~= b);
    } else {
        lemma_less_prefix(p.skip(1), a, b);
        assert((p + a).skip(1) =~= p.skip(1) + a);
        assert((p + b).skip(1) =~= p.skip(1) + b);
    }
}

/// Where one string of two of the same length comes first, it does so whatever
/// follows them.
pub proof fn lemma_less_front(a: Seq<char>, b: Seq<char>, x: Seq<char>, y: Seq<char>)
    requires
        a.len() == b.len(),
        less(a, b),
    ensures
        less(a + x, b + y),
    decreases a.len(),
{
    if a[0] == b[0] {
        lemma_less_front(a.skip(1), b.skip(1), x, y);
        assert((a + x).skip(1) =~= a.skip(1) + x);
        assert((b + y).skip(1) =~= b.skip(1) + y);
    }
}

/// Texts made of a field, a separator and a rest compare by the field first and by
/// the rest where the fields are equal.
pub proof fn lemma_less_fields(
    a: Seq<char>,
    sep: Seq<char>,
    x: Seq<char>,
    b: Seq<char>,
    y: Seq<char>,
)
    requires
        a.len() == b.len(),
    ensures
        less(a, b) ==> less(a + sep + x, b + sep + y),
        a == b ==> less(a + sep + x, b + sep + y) == less(x, y),
{
    assert(a + sep + x =~= a + (sep + x));
    assert(b + sep + y =~= b + (sep + y));
    if less(a, b) {
        lemma_less_front(a, b, sep + x, sep + y);
    }
    if a == b {
        lemma_less_prefix(a + sep, x, y);
    }
}

/// Whether `a` comes before `b`.
pub fn comes_before(a: &str, b: &str) -> (r: bool)
    ensures
        r == less(a@, b@),
{
    let x = chars_of(a);
    let y = chars_of(b);
    let mut i: usize = 0;
    assert(x@.skip(0) =~= a@);
    assert(y@.skip(0) =~= b@);
    while i < x.len() && i < y.len() && x[i] == y[i]
        invariant
            x@ == a@,
            y@ == b@,
            i <= x.len(),
            i <= y.len(),
            less(a@, b@) == less(x@.skip(i as int), y@.skip(i as int)),
        decreases x.len() - i,
    {
        assert(x@.skip(i as int).skip(1) =~= x@.skip(i + 1));
        assert(y@.skip(i as int).skip(1) =~= y@.skip(i + 1));
        i = i + 1;
    }
    if i == y.len() {
        false
    } else if i == x.len() {
        true
    } else {
        x[i] < y[i]
    }
}

/// The list `v`, which is in order, with `x` put in its place: behind all that do not come
/// after it.
pub open spec fn inserted(v: Seq<Seq<char>>, x: Seq<char>) -> Seq<Seq<char>>
    decreases v.len(),
{
    if v.len() == 0 {
        seq![x]
    } else if less(x, v[0]) {
        seq![x] + v
    } else {
        seq![v[0]] + inserted(v.skip(1), x)
    }
}

/// The names of `v` in order.
pub open spec fn arranged(v: Seq<Seq<char>>) -> Seq<Seq<char>>
    decreases v.len(),
{
    if v.len() == 0 {
        Seq::empty()
    } else {
        inserted(arranged(v.drop_last()), v.last())
    }
}

/// Putting a name in its place keeps the order and adds that name alone.
proof fn lemma_inserted(v: Seq<Seq<char>>, x: Seq<char>)
    requires
        sorted(v),
    ensures
        sorted(inserted(v, x)),
        inserted(v, x).to_multiset() == v.to_multiset().insert(x),
        inserted(v, x).len() == v.len() + 1,
    decreases v.len(),
{
    broadcast use vstd::seq_lib::group_to_multiset_ensures;

    let r = inserted(v, x);
    if v.len() == 0 {
        assert(r =~= v.push(x));
    } else if less(x, v[0]) {
        assert(r =~= v.insert(0, x));
        vstd::seq_lib::to_multiset_insert(v, 0, x);
        assert forall|i: int, j: int| 0 <= i < j < r.len() implies !less(
            #[trigger] r[j],
            #[trigger] r[i],
        ) by {
            assert(r[j] == v[j - 1]);
            if i > 0 {
                assert(r[i] == v[i - 1]);
            } else if less(v[j - 1], x) {
                lemma_less_transitive(v[j - 1], x, v[0]);
                lemma_less_total(v[0], v[0]);
            }
        }
    } else {
        let rest = v.skip(1);
        let s = inserted(rest, x);
        assert(sorted(rest)) by {
            assert forall|i: int, j: int| 0 <= i < j < rest.len() implies !less(
                #[trigger] rest[j],
                #[trigger] rest[i],
            ) by {
                assert(rest[i] == v[i + 1] && rest[j] == v[j + 1]);
            }
        }
        lemma_inserted(rest, x);
        assert(v =~= rest.insert(0, v[0]));
        assert(r =~= s.insert(0, v[0]));
        vstd::seq_lib::to_multiset_insert(rest, 0, v[0]);
        vstd::seq_lib::to_multiset_insert(s, 0, v[0]);
        assert(r.to_multiset() =~= v.to_multiset().insert(x));
        assert forall|i: int, j: int| 0 <= i < j < r.len() implies !less(
            #[trigger] r[j],
            #[trigger] r[i],
        ) by {
            assert(r[j] == s[j - 1]);
            if i > 0 {
                assert(r[i] == s[i - 1]);
            } else {
                assert(s.to_multiset().count(s[j - 1]) > 0) by {
                    assert(s.contains(s[j - 1]));
                }
                if s[j - 1] != x {
                    assert(rest.to_multiset().count(s[j - 1]) > 0);
                    let m = choose|m: int| 0 <= m < rest.len() && rest[m] == s[j - 1];
                    assert(v[m + 1] == s[j - 1]);
                }
            }
        }
    }
}

/// The names of a list in order are the same names, in order.
pub proof fn arranged_is_sorted(v: Seq<Seq<char>>)
    ensures
        sorted(arranged(v)),
        arranged(v).to_multiset() == v.to_multiset(),
        arranged(v).len() == v.len(),
    decreases v.len(),
{
    if v.len() > 0 {
        broadcast use vstd::seq_lib::group_to_multiset_ensures;

        let front = v.drop_last();
        arranged_is_sorted(front);
        lemma_inserted(arranged(front), v.last());
        assert(v =~= front.push(v.last()));
    } else {
        assert(arranged(v) =~= v);
    }
}

/// The names of `v` in order.
pub fn sort(v: Vec<String>) -> (r: Vec<String>)
    ensures
        views(r@) == arranged(views(v@)),
{
    let ghost all = views(v@);
    let mut r: Vec<String> = Vec::new();
    let mut k: usize = 0;
    assert(views(r@) =~= Seq::empty());
    while k < v.len()
        invariant
            k <= v.len(),
            all == views(v@),
            views(r@) == arranged(all.take(k as int)),
        decreases v.len() - k,
    {
        let ghost before = views(r@);
        let ghost x = v@[k as int]@;
        let mut i: usize = 0;
        assert(before.skip(0) =~= before);
        assert(before.take(0) + inserted(before, x) =~= inserted(before, x));
        while i < r.len() && !comes_before(v[k].as_str(), r[i].as_str())
            invariant
                k < v.len(),
                i <= r.len(),
                before == views(r@),
                x == v@[k as int]@,
                before.take(i as int) + inserted(before.skip(i as int), x) == inserted(before, x),
            decreases r.len() - i,
        {
            proof {
                let rest = before.skip(i as int);
                assert(rest[0] == r@[i as int]@);
                assert(rest.skip(1) =~= before.skip(i + 1));
                assert(before.take(i as int) + (seq![rest[0]] + inserted(rest.skip(1), x))
                    =~= before.take(i + 1) + inserted(rest.skip(1), x));
            }
            i = i + 1;
        }
        proof {
            let rest = before.skip(i as int);
            if i < r.len() {
                assert(rest[0] == r@[i as int]@);
            }
            assert(inserted(rest, x) =~= seq![x] + rest);
        }
        r.insert(i, v[k].clone());
        proof {
            assert(views(r@) =~= before.take(i as int) + (seq![x] + before.skip(i as int)));
            assert(all.take(k + 1).drop_last() =~= all.take(k as int));
            assert(all.take(k + 1).last() == x);
        }
        k = k + 1;
    }
    assert(all.take(k as int) =~= all);
    r
}

/// One string comes before another exactly where it is a front of it and shorter, or has the
/// smaller character where the two first differ.
pub proof fn first_difference_decides(a: Seq<char>, b: Seq<char>)
    ensures
        less(a, b) <==> exists|k: int|
            0 <= k <= a.len() && k < b.len() && #[trigger] a.take(k) == b.take(k) && (k == a.len()
                || a[k] < b[k]),
    decreases a.len(),
{
    if b.len() == 0 {
    } else if a.len() == 0 {
        assert(a.take(0) =~= b.take(0));
    } else if a[0] != b[0] {
        assert(a.take(0) =~= b.take(0));
        if exists|k: int|
            0 <= k <= a.len() && k < b.len() && #[trigger] a.take(k) == b.take(k) && (k == a.len()
                || a[k] < b[k]) {
            let k = choose|k: int|
                0 <= k <= a.len() && k < b.len() && #[trigger] a.take(k) == b.take(k) && (k
                    == a.len() || a[k] < b[k]);
            if k > 0 {
                assert(a.take(k)[0] == b.take(k)[0]);
            }
        }
    } else {
        let x = a.skip(1);
        let y = b.skip(1);
        first_difference_decides(x, y);
        if less(x, y) {
            let k = choose|k: int|
                0 <= k <= x.len() && k < y.len() && #[trigger] x.take(k) == y.take(k) && (k
                    == x.len() || x[k] < y[k]);
            assert(a.take(k + 1) =~= seq![a[0]] + x.take(k));
            assert(b.take(k + 1) =~= seq![b[0]] + y.take(k));
            assert(a.take(k + 1) == b.take(k + 1));
        }
        if exists|k: int|
            0 <= k <= a.len() && k < b.len() && #[trigger] a.take(k) == b.take(k) && (k == a.len()
                || a[k] < b[k]) {
            let k = choose|k: int|
                0 <= k <= a.len() && k < b.len() && #[trigger] a.take(k) == b.take(k) && (k
                    == a.len() || a[k] < b[k]);
            assert(k > 0);
            assert(x.take(k - 1) =~= a.take(k).skip(1));
            assert(y.take(k - 1) =~= b.take(k).skip(1));
            assert(x.take(k - 1) == y.take(k - 1));
        }
    }
}

} // verus!
