//! Strictly ascending lists of names, ordered by code point as Rust orders
//! strings.
use vstd::prelude::*;

verus! {

/// `a` precedes `b` in lexicographic code-point order.
pub open spec fn lex_lt(a: Seq<char>, b: Seq<char>) -> bool
    decreases a.len(),
{
    if a.len() == 0 {
        b.len() > 0
    } else if b.len() == 0 {
        false
    } else if a[0] != b[0] {
        a[0] < b[0]
    } else {
        lex_lt(a.drop_first(), b.drop_first())
    }
}

/// Every name precedes the ones after it.
pub open spec fn strictly_sorted(s: Seq<Seq<char>>) -> bool {
    forall|i: int, j: int| 0 <= i < j < s.len() ==> lex_lt(#[trigger] s[i], #[trigger] s[j])
}

/// The texts of a list of character vectors.
pub open spec fn texts_of(v: Seq<Vec<char>>) -> Seq<Seq<char>> {
    v.map_values(|c: Vec<char>| c@)
}

pub proof fn lemma_lex_irreflexive(a: Seq<char>)
    ensures
        !lex_lt(a, a),
    decreases a.len(),
{
    if a.len() > 0 {
        lemma_lex_irreflexive(a.drop_first());
    }
}

pub proof fn lemma_lex_total(a: Seq<char>, b: Seq<char>)
    ensures
        a == b || lex_lt(a, b) || lex_lt(b, a),
        !(lex_lt(a, b) && lex_lt(b, a)),
    decreases a.len(),
{
    if a.len() > 0 && b.len() > 0 && a[0] == b[0] {
        lemma_lex_total(a.drop_first(), b.drop_first());
        if a.drop_first() == b.drop_first() {
            assert(a =~= seq![a[0]] + a.drop_first());
            assert(b =~= seq![b[0]] + b.drop_first());
        }
    } else if a.len() == 0 && b.len() == 0 {
        assert(a =~= b);
    }
}

pub proof fn lemma_lex_transitive(a: Seq<char>, b: Seq<char>, c: Seq<char>)
    requires
        lex_lt(a, b),
        lex_lt(b, c),
    ensures
        lex_lt(a, c),
    decreases a.len(),
{
    if a.len() > 0 && b.len() > 0 && c.len() > 0 && a[0] == b[0] && b[0] == c[0] {
        lemma_lex_transitive(a.drop_first(), b.drop_first(), c.drop_first());
    }
}

/// Whether `a` precedes `b`.
pub fn lex_less(a: &Vec<char>, b: &Vec<char>) -> (r: bool)
    ensures
        r == lex_lt(a@, b@),
{
    let mut i: usize = 0;
    assert(a@.subrange(0, a@.len() as int) =~= a@);
    assert(b@.subrange(0, b@.len() as int) =~= b@);
    while i < a.len() && i < b.len() && a[i] == b[i]
        invariant
            i <= a@.len(),
            i <= b@.len(),
            lex_lt(a@, b@) == lex_lt(a@.subrange(i as int, a@.len() as int), b@.subrange(i as int, b@.len() as int)),
        decreases a@.len() - i,
    {
        assert(a@.subrange(i as int, a@.len() as int).drop_first() =~= a@.subrange(i + 1, a@.len() as int));
        assert(b@.subrange(i as int, b@.len() as int).drop_first() =~= b@.subrange(i + 1, b@.len() as int));
        i = i + 1;
    }
    if i == a.len() {
        i < b.len()
    } else if i == b.len() {
        false
    } else {
        a[i] < b[i]
    }
}

/// Adds `x` to a strictly ascending list unless it is already there.
pub fn insert_sorted(v: &mut Vec<Vec<char>>, x: Vec<char>)
    requires
        strictly_sorted(texts_of(old(v)@)),
    ensures
        strictly_sorted(texts_of(final(v)@)),
        forall|n: Seq<char>| #[trigger] texts_of(final(v)@).contains(n) <==> (texts_of(old(v)@).contains(n) || n == x@),
{
    let ghost old_s = texts_of(v@);
    let mut i: usize = 0;
    while i < v.len() && lex_less(&v[i], &x)
        invariant
            old_s == texts_of(v@),
            strictly_sorted(old_s),
            i <= v@.len(),
            forall|k: int| 0 <= k < i ==> lex_lt(#[trigger] old_s[k], x@),
        decreases v@.len() - i,
    {
        assert(old_s[i as int] == v@[i as int]@);
        i = i + 1;
    }
    if i < v.len() && !lex_less(&x, &v[i]) {
        proof {
            assert(old_s[i as int] == v@[i as int]@);
            lemma_lex_total(old_s[i as int], x@);
            assert forall|n: Seq<char>| #[trigger] texts_of(v@).contains(n) <==> (old_s.contains(n) || n == x@) by {
                if n == x@ {
                    assert(old_s[i as int] == n);
                }
            }
        }
        return;
    }
    proof {
        if i < v@.len() {
            assert(old_s[i as int] == v@[i as int]@);
            lemma_lex_total(old_s[i as int], x@);
            lemma_lex_irreflexive(x@);
        }
    }
    let ghost xs = x@;
    v.insert(i, x);
    proof {
        let s = texts_of(v@);
        assert(s =~= old_s.insert(i as int, xs));
        assert forall|p: int, q: int| 0 <= p < q < s.len() implies lex_lt(#[trigger] s[p], #[trigger] s[q]) by {
            if q < i {
            } else if q == i {
                assert(s[p] == old_s[p]);
            } else if p == i {
                assert(s[q] == old_s[q - 1]);
                if q - 1 > i {
                    lemma_lex_transitive(xs, old_s[i as int], old_s[q - 1]);
                }
            } else if p < i {
                assert(s[p] == old_s[p]);
                assert(s[q] == old_s[q - 1]);
            } else {
                assert(s[p] == old_s[p - 1]);
                assert(s[q] == old_s[q - 1]);
            }
        }
        assert forall|n: Seq<char>| #[trigger] s.contains(n) <==> (old_s.contains(n) || n == xs) by {
            if s.contains(n) {
                let k = choose|k: int| 0 <= k < s.len() && s[k] == n;
                if k < i {
                    assert(old_s[k] == n);
                } else if k > i {
                    assert(old_s[k - 1] == n);
                }
            }
            if old_s.contains(n) {
                let k = choose|k: int| 0 <= k < old_s.len() && old_s[k] == n;
                if k < i {
                    assert(s[k] == n);
                } else {
                    assert(s[k + 1] == n);
                }
            }
            if n == xs {
                assert(s[i as int] == n);
            }
        }
    }
}

} // verus!
