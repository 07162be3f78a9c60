//! Lexicographic order on character sequences, the order in which `String`
//! keys of an ordered map are walked (UTF-8 byte order and code-point order
//! agree), and on pairs of them.

use vstd::prelude::*;

use crate::text::vecs_view;

verus! {

/// `a < b` in lexicographic code-point order.
pub open spec fn seq_lt(a: Seq<char>, b: Seq<char>) -> bool
    decreases a.len(),
{
    if a.len() == 0 {
        b.len() > 0
    } else if b.len() == 0 {
        false
    } else if a[0] != b[0] {
        a[0] < b[0]
    } else {
        seq_lt(a.drop_first(), b.drop_first())
    }
}

/// Lexicographic order on `(first, second)` pairs.
pub open spec fn pair_lt(a: (Seq<char>, Seq<char>), b: (Seq<char>, Seq<char>)) -> bool {
    seq_lt(a.0, b.0) || (a.0 == b.0 && seq_lt(a.1, b.1))
}

pub proof fn lemma_seq_lt_irreflexive(a: Seq<char>)
    ensures
        !seq_lt(a, a),
    decreases a.len(),
{
    if a.len() > 0 {
        lemma_seq_lt_irreflexive(a.drop_first());
    }
}

pub proof fn lemma_seq_lt_transitive(a: Seq<char>, b: Seq<char>, c: Seq<char>)
    requires
        seq_lt(a, b),
        seq_lt(b, c),
    ensures
        seq_lt(a, c),
    decreases a.len(),
{
    if a.len() > 0 && b.len() > 0 && c.len() > 0 && a[0] == b[0] && b[0] == c[0] {
        lemma_seq_lt_transitive(a.drop_first(), b.drop_first(), c.drop_first());
    }
}

pub proof fn lemma_seq_lt_total(a: Seq<char>, b: Seq<char>)
    ensures
        a == b || seq_lt(a, b) || seq_lt(b, a),
    decreases a.len(),
{
    if a.len() > 0 && b.len() > 0 && a[0] == b[0] {
        lemma_seq_lt_total(a.drop_first(), b.drop_first());
        if a.drop_first() == b.drop_first() {
            assert(a =~= seq![a[0]] + a.drop_first());
            assert(b =~= seq![b[0]] + b.drop_first());
        }
    } else if a.len() > 0 && b.len() > 0 {
    } else if a.len() == 0 && b.len() == 0 {
        assert(a =~= b);
    }
}

pub proof fn lemma_seq_lt_asymmetric(a: Seq<char>, b: Seq<char>)
    requires
        seq_lt(a, b),
    ensures
        !seq_lt(b, a),
{
    if seq_lt(b, a) {
        lemma_seq_lt_transitive(a, b, a);
        lemma_seq_lt_irreflexive(a);
    }
}

pub proof fn lemma_pair_lt_irreflexive(a: (Seq<char>, Seq<char>))
    ensures
        !pair_lt(a, a),
{
    lemma_seq_lt_irreflexive(a.0);
    lemma_seq_lt_irreflexive(a.1);
}

pub proof fn lemma_pair_lt_transitive(
    a: (Seq<char>, Seq<char>),
    b: (Seq<char>, Seq<char>),
    c: (Seq<char>, Seq<char>),
)
    requires
        pair_lt(a, b),
        pair_lt(b, c),
    ensures
        pair_lt(a, c),
{
    if seq_lt(a.0, b.0) && seq_lt(b.0, c.0) {
        lemma_seq_lt_transitive(a.0, b.0, c.0);
    } else if seq_lt(a.0, b.0) {
    } else if seq_lt(b.0, c.0) {
    } else {
        lemma_seq_lt_transitive(a.1, b.1, c.1);
    }
}

pub proof fn lemma_pair_lt_total(a: (Seq<char>, Seq<char>), b: (Seq<char>, Seq<char>))
    ensures
        a == b || pair_lt(a, b) || pair_lt(b, a),
{
    lemma_seq_lt_total(a.0, b.0);
    lemma_seq_lt_total(a.1, b.1);
}

/// `a < b` in lexicographic code-point order.
pub fn chars_lt(a: &Vec<char>, b: &Vec<char>) -> (r: bool)
    ensures
        r == seq_lt(a@, b@),
{
    let mut i: usize = 0;
    assert(a@.skip(0) =~= a@);
    assert(b@.skip(0) =~= b@);
    while i < a.len() && i < b.len() && a[i] == b[i]
        invariant
            i <= a.len(),
            i <= b.len(),
            seq_lt(a@, b@) == seq_lt(a@.skip(i as int), b@.skip(i as int)),
        decreases a.len() - i,
    {
        assert(a@.skip(i as int).drop_first() =~= a@.skip(i + 1));
        assert(b@.skip(i as int).drop_first() =~= b@.skip(i + 1));
        i = i + 1;
    }
    if i == a.len() {
        i < b.len()
    } else if i == b.len() {
        false
    } else {
        a[i] < b[i]
    }
}

/// Order on `(first, second)` pairs of character vectors.
pub fn pair_chars_lt(a0: &Vec<char>, a1: &Vec<char>, b0: &Vec<char>, b1: &Vec<char>) -> (r: bool)
    ensures
        r == pair_lt((a0@, a1@), (b0@, b1@)),
{
    if chars_lt(a0, b0) {
        true
    } else if crate::text::chars_eq(a0, b0) {
        chars_lt(a1, b1)
    } else {
        false
    }
}


/// Strictly ascending, hence free of duplicates.
pub open spec fn strictly_sorted(s: Seq<Seq<char>>) -> bool {
    forall|i: int, j: int| 0 <= i < j < s.len() ==> seq_lt(#[trigger] s[i], #[trigger] s[j])
}

/// Inserts `x` into the strictly ascending `v` unless it is already there.
pub fn insert_sorted_unique(v: &mut Vec<Vec<char>>, x: Vec<char>)
    requires
        strictly_sorted(vecs_view(old(v)@)),
    ensures
        strictly_sorted(vecs_view(final(v)@)),
        forall|y: Seq<char>| #[trigger] vecs_view(final(v)@).contains(y) <==> (vecs_view(old(v)@).contains(y) || y == x@),
{
    let ghost old_v = vecs_view(v@);
    let mut p: usize = 0;
    while p < v.len() && chars_lt(&v[p], &x)
        invariant
            p <= v.len(),
            old_v == vecs_view(v@),
            forall|i: int| 0 <= i < p ==> seq_lt(#[trigger] vecs_view(v@)[i], x@),
        decreases v.len() - p,
    {
        assert(vecs_view(v@)[p as int] == v@[p as int]@);
        p = p + 1;
    }
    assert(old_v.len() == v@.len());
    if p < v.len() && crate::text::chars_eq(&v[p], &x) {
        assert(old_v[p as int] == x@);
        return;
    }
    proof {
        if p < old_v.len() {
            assert(old_v[p as int] == v@[p as int]@);
            lemma_seq_lt_total(old_v[p as int], x@);
        }
    }
    let ghost xv = x@;
    v.insert(p, x);
    let ghost nv = vecs_view(v@);
    proof {
        assert(nv.len() == old_v.len() + 1);
        assert forall|i: int| 0 <= i < nv.len() implies #[trigger] nv[i] == (if i < p { old_v[i] } else if i == p { xv } else { old_v[i - 1] }) by {
            assert(nv[i] == v@[i]@);
        }
        assert forall|i: int, j: int| 0 <= i < j < nv.len() implies seq_lt(#[trigger] nv[i], #[trigger] nv[j]) by {
            if j == p {
            } else if i == p {
                if j > p + 1 {
                    lemma_seq_lt_transitive(xv, old_v[p as int], old_v[j - 1]);
                }
            } else if i < p && j > p {
                assert(seq_lt(old_v[i], old_v[j - 1]));
            } else if i > p {
            }
        }
        assert forall|y: Seq<char>| #[trigger] nv.contains(y) <==> (old_v.contains(y) || y == xv) by {
            if nv.contains(y) {
                let w = choose|w: int| 0 <= w < nv.len() && nv[w] == y;
                if w < p {
                    assert(old_v[w] == y);
                } else if w > p {
                    assert(old_v[w - 1] == y);
                }
            }
            if old_v.contains(y) {
                let w = choose|w: int| 0 <= w < old_v.len() && old_v[w] == y;
                if w < p {
                    assert(nv[w] == y);
                } else {
                    assert(nv[w + 1] == y);
                }
            }
            if y == xv {
                assert(nv[p as int] == y);
            }
        }
    }
}

} // verus!
