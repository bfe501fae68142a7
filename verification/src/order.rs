//! The order of strings: by characters, from the first on, a prefix first.
//! `str`'s own order compares UTF-8 bytes, which orders by code points in
//! the same way.

use vstd::prelude::*;
use crate::text::chars_of;

verus! {

/// Whether `a` comes before `b` or equals it.
pub open spec fn chars_le(a: Seq<char>, b: Seq<char>) -> bool
    decreases a.len(),
{
    if a.len() == 0 {
        true
    } else if b.len() == 0 {
        false
    } else if a[0] != b[0] {
        a[0] < b[0]
    } else {
        chars_le(a.drop_first(), b.drop_first())
    }
}

pub proof fn lemma_chars_le_reflexive(a: Seq<char>)
    ensures
        chars_le(a, a),
    decreases a.len(),
{
    if a.len() > 0 {
        lemma_chars_le_reflexive(a.drop_first());
    }
}

pub proof fn lemma_chars_le_total(a: Seq<char>, b: Seq<char>)
    ensures
        chars_le(a, b) || chars_le(b, a),
    decreases a.len(),
{
    if a.len() > 0 && b.len() > 0 && a[0] == b[0] {
        lemma_chars_le_total(a.drop_first(), b.drop_first());
    }
}

pub proof fn lemma_chars_le_antisymmetric(a: Seq<char>, b: Seq<char>)
    requires
        chars_le(a, b),
        chars_le(b, a),
    ensures
        a == b,
    decreases a.len(),
{
    if a.len() == 0 {
        assert(b.len() == 0);
        assert(a =~= b);
    } else {
        assert(b.len() > 0);
        if a[0] == b[0] {
            lemma_chars_le_antisymmetric(a.drop_first(), b.drop_first());
            assert(a =~= seq![a[0]] + a.drop_first());
            assert(b =~= seq![b[0]] + b.drop_first());
        }
    }
}

pub proof fn lemma_chars_le_transitive(a: Seq<char>, b: Seq<char>, c: Seq<char>)
    requires
        chars_le(a, b),
        chars_le(b, c),
    ensures
        chars_le(a, c),
    decreases a.len(),
{
    if a.len() > 0 {
        assert(b.len() > 0);
        assert(c.len() > 0);
        if a[0] == b[0] && b[0] == c[0] {
            lemma_chars_le_transitive(a.drop_first(), b.drop_first(), c.drop_first());
        }
    }
}

/// Whether the strings are in order.
pub open spec fn chars_sorted(s: Seq<Seq<char>>) -> bool {
    forall|i: int, j: int| 0 <= i < j < s.len() ==> chars_le(#[trigger] s[i], #[trigger] s[j])
}

/// Whether the strings are in order, no two of them equal.
pub open spec fn chars_strictly_sorted(s: Seq<Seq<char>>) -> bool {
    forall|i: int, j: int|
        0 <= i < j < s.len() ==> chars_le(#[trigger] s[i], #[trigger] s[j]) && s[i] != s[j]
}

pub fn le_chars(a: &Vec<char>, b: &Vec<char>) -> (r: bool)
    ensures
        r == chars_le(a@, b@),
{
    let mut i: usize = 0;
    assert(a@.skip(0) =~= a@);
    assert(b@.skip(0) =~= b@);
    while i < a.len() && i < b.len()
        invariant
            i <= a.len(),
            i <= b.len(),
            chars_le(a@, b@) == chars_le(a@.skip(i as int), b@.skip(i as int)),
        decreases a.len() - i,
    {
        assert(a@.skip(i as int)[0] == a@[i as int]);
        assert(b@.skip(i as int)[0] == b@[i as int]);
        if a[i] != b[i] {
            return a[i] < b[i];
        }
        assert(a@.skip(i as int).drop_first() =~= a@.skip(i + 1));
        assert(b@.skip(i as int).drop_first() =~= b@.skip(i + 1));
        i = i + 1;
    }
    assert(i == a.len() ==> a@.skip(i as int).len() == 0);
    assert(i < a.len() ==> b@.skip(i as int).len() == 0 && a@.skip(i as int).len() > 0);
    i == a.len()
}

pub fn le_str(a: &str, b: &str) -> (r: bool)
    ensures
        r == chars_le(a@, b@),
{
    let av = chars_of(a);
    let bv = chars_of(b);
    le_chars(&av, &bv)
}

/// The strings in order: the same strings, each as often, sorted.
pub fn sort_strings(v: Vec<String>) -> (r: Vec<String>)
    ensures
        chars_sorted(r.deep_view()),
        r.deep_view().to_multiset() == v.deep_view().to_multiset(),
{
    let ghost src = v.deep_view();
    let mut r: Vec<String> = Vec::new();
    let mut k: usize = 0;
    proof {
        assert(src.subrange(0, 0) =~= Seq::<Seq<char>>::empty());
        assert(r.deep_view() =~= Seq::<Seq<char>>::empty());
    }
    while k < v.len()
        invariant
            k <= v.len(),
            src == v.deep_view(),
            chars_sorted(r.deep_view()),
            r.deep_view().to_multiset() == src.subrange(0, k as int).to_multiset(),
        decreases v.len() - k,
    {
        let x = v[k].clone();
        let ghost xv = x@;
        assert(xv == src[k as int]);
        let ghost rv = r.deep_view();
        let mut p: usize = 0;
        while p < r.len() && !le_str(x.as_str(), r[p].as_str())
            invariant
                p <= r.len(),
                rv == r.deep_view(),
                x@ == xv,
                forall|j: int| 0 <= j < p ==> chars_le(#[trigger] rv[j], xv),
            decreases r.len() - p,
        {
            proof {
                lemma_chars_le_total(xv, rv[p as int]);
            }
            p = p + 1;
        }
        proof {
            assert forall|i: int, j: int|
                0 <= i < j < rv.insert(p as int, xv).len() implies chars_le(
                #[trigger] rv.insert(p as int, xv)[i],
                #[trigger] rv.insert(p as int, xv)[j],
            ) by {
                let s = rv.insert(p as int, xv);
                if j < p {
                    assert(s[i] == rv[i] && s[j] == rv[j]);
                } else if j == p {
                    assert(s[i] == rv[i]);
                } else if i == p {
                    assert(s[j] == rv[j - 1]);
                    if p < rv.len() {
                        assert(chars_le(xv, rv[p as int]));
                        if j - 1 > p {
                            lemma_chars_le_transitive(xv, rv[p as int], rv[j - 1]);
                        }
                    }
                } else if i < p {
                    assert(s[i] == rv[i] && s[j] == rv[j - 1]);
                    if p < rv.len() {
                        lemma_chars_le_transitive(rv[i], xv, rv[p as int]);
                        if j - 1 > p {
                            lemma_chars_le_transitive(rv[i], rv[p as int], rv[j - 1]);
                        }
                    }
                } else {
                    assert(s[i] == rv[i - 1] && s[j] == rv[j - 1]);
                }
            }
        }
        r.insert(p, x);
        proof {
            assert(r.deep_view() =~= rv.insert(p as int, xv));
            vstd::seq_lib::to_multiset_insert(rv, p as int, xv);
            assert(src.subrange(0, k + 1) =~= src.subrange(0, k as int).push(src[k as int]));
            vstd::seq_lib::to_multiset_build(src.subrange(0, k as int), src[k as int]);
        }
        k = k + 1;
    }
    assert(src.subrange(0, src.len() as int) =~= src);
    r
}

/// The strings without the repeats that follow each other.
pub fn dedup_sorted(v: Vec<String>) -> (r: Vec<String>)
    requires
        chars_sorted(v.deep_view()),
    ensures
        chars_strictly_sorted(r.deep_view()),
        r.deep_view().to_set() == v.deep_view().to_set(),
{
    let ghost src = v.deep_view();
    let mut r: Vec<String> = Vec::new();
    let mut k: usize = 0;
    while k < v.len()
        invariant
            k <= v.len(),
            src == v.deep_view(),
            chars_sorted(src),
            chars_strictly_sorted(r.deep_view()),
            r.deep_view().to_set() == src.subrange(0, k as int).to_set(),
            k > 0 ==> r.len() > 0 && r.deep_view().last() == src[k - 1],
            k == 0 ==> r.len() == 0,
        decreases v.len() - k,
    {
        let ghost rv = r.deep_view();
        proof {
            assert(src.subrange(0, k + 1) =~= src.subrange(0, k as int).push(src[k as int]));
            src.subrange(0, k as int).lemma_push_to_set_commute(src[k as int]);
        }
        let same = r.len() > 0 && crate::text::str_eq(r[r.len() - 1].as_str(), v[k].as_str());
        if !same {
            let x = v[k].clone();
            proof {
                if k > 0 {
                    assert(chars_le(src[k - 1], src[k as int]));
                    assert forall|i: int| 0 <= i < rv.len() implies chars_le(#[trigger] rv[i], src[k as int])
                        && rv[i] != src[k as int] by {
                        if i < rv.len() - 1 {
                            assert(chars_le(rv[i], rv[rv.len() - 1]) && rv[i] != rv[rv.len() - 1]);
                            lemma_chars_le_transitive(rv[i], rv[rv.len() - 1], src[k as int]);
                            if rv[i] == src[k as int] {
                                lemma_chars_le_antisymmetric(rv[i], rv[rv.len() - 1]);
                            }
                        }
                    }
                }
            }
            r.push(x);
            proof {
                assert(r.deep_view() =~= rv.push(src[k as int]));
                rv.lemma_push_to_set_commute(src[k as int]);
                assert(r.deep_view().to_set() =~= rv.to_set().insert(src[k as int]));
            }
        } else {
            proof {
                assert(rv.last() == src[k as int]);
                assert(rv.to_set().contains(src[k as int]));
                assert(rv.to_set().insert(src[k as int]) =~= rv.to_set());
            }
        }
        proof {
            assert(src.subrange(0, k + 1).to_set() =~= src.subrange(0, k as int).to_set().insert(src[k as int]));
        }
        k = k + 1;
    }
    assert(src.subrange(0, src.len() as int) =~= src);
    r
}

} // verus!
