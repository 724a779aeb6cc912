//! Lexicographic order on texts and sorting of string lists by it.

use vstd::prelude::*;
use vstd::relations::{sorted_by, total_ordering};
use crate::text::chars_of;

verus! {

/// `a` comes before or equals `b` in lexicographic order of characters.
pub open spec fn lex_le(a: Seq<char>, b: Seq<char>) -> bool
    decreases a.len(),
{
    if a.len() == 0 {
        true
    } else if b.len() == 0 {
        false
    } else if a[0] != b[0] {
        a[0] < b[0]
    } else {
        lex_le(a.skip(1), b.skip(1))
    }
}

/// The lexicographic order as a relation.
pub open spec fn lex_leq() -> spec_fn(Seq<char>, Seq<char>) -> bool {
    |a: Seq<char>, b: Seq<char>| lex_le(a, b)
}

proof fn lemma_lex_refl(a: Seq<char>)
    ensures
        lex_le(a, a),
    decreases a.len(),
{
    if a.len() > 0 {
        lemma_lex_refl(a.skip(1));
    }
}

proof fn lemma_lex_antisym(a: Seq<char>, b: Seq<char>)
    requires
        lex_le(a, b),
        lex_le(b, a),
    ensures
        a == b,
    decreases a.len(),
{
    if a.len() > 0 && b.len() > 0 {
        lemma_lex_antisym(a.skip(1), b.skip(1));
        assert(a =~= seq![a[0]] + a.skip(1));
        assert(b =~= seq![b[0]] + b.skip(1));
    } else {
        assert(a =~= b);
    }
}

proof fn lemma_lex_trans(a: Seq<char>, b: Seq<char>, c: Seq<char>)
    requires
        lex_le(a, b),
        lex_le(b, c),
    ensures
        lex_le(a, c),
    decreases a.len(),
{
    if a.len() > 0 && b.len() > 0 && c.len() > 0 {
        if a[0] == b[0] && b[0] == c[0] {
            lemma_lex_trans(a.skip(1), b.skip(1), c.skip(1));
        }
    }
}

proof fn lemma_lex_total(a: Seq<char>, b: Seq<char>)
    ensures
        lex_le(a, b) || lex_le(b, a),
    decreases a.len(),
{
    if a.len() > 0 && b.len() > 0 && a[0] == b[0] {
        lemma_lex_total(a.skip(1), b.skip(1));
    }
}

/// Lexicographic order is a total order.
pub proof fn lemma_lex_total_ordering()
    ensures
        total_ordering(lex_leq()),
{
    let r = lex_leq();
    assert forall|x: Seq<char>| #[trigger] r(x, x) by {
        lemma_lex_refl(x);
    }
    assert forall|x: Seq<char>, y: Seq<char>| #[trigger] r(x, y) && #[trigger] r(y, x) implies x == y by {
        lemma_lex_antisym(x, y);
    }
    assert forall|x: Seq<char>, y: Seq<char>, z: Seq<char>| #[trigger] r(x, y) && #[trigger] r(y, z) implies r(x, z) by {
        lemma_lex_trans(x, y, z);
    }
    assert forall|x: Seq<char>, y: Seq<char>| #[trigger] r(x, y) || #[trigger] r(y, x) by {
        lemma_lex_total(x, y);
    }
}

/// Whether `a` comes before or equals `b`.
pub fn lex_le_exec(a: &Vec<char>, b: &Vec<char>) -> (r: bool)
    ensures
        r == lex_le(a@, b@),
{
    let mut i: usize = 0;
    assert(a@.skip(0) =~= a@);
    assert(b@.skip(0) =~= b@);
    while i < a.len() && i < b.len() && a[i] == b[i]
        invariant
            i <= a.len(),
            i <= b.len(),
            forall|j: int| 0 <= j < i ==> a@[j] == b@[j],
            lex_le(a@, b@) == lex_le(a@.skip(i as int), b@.skip(i as int)),
        decreases a.len() - i,
    {
        proof {
            assert(a@.skip(i as int).skip(1) =~= a@.skip(i + 1));
            assert(b@.skip(i as int).skip(1) =~= b@.skip(i + 1));
        }
        i = i + 1;
    }
    if i == a.len() {
        true
    } else if i == b.len() {
        false
    } else {
        a[i] < b[i]
    }
}

/// The views of a list of strings.
pub open spec fn views(v: Seq<String>) -> Seq<Seq<char>> {
    v.map_values(|s: String| s@)
}

/// The strings in lexicographic order (`[String]::sort`).
pub fn sort_strings(v: Vec<String>) -> (r: Vec<String>)
    ensures
        sorted_by(views(r@), lex_leq()),
        views(r@).to_multiset() == views(v@).to_multiset(),
        r.len() == v.len(),
{
    broadcast use vstd::seq_lib::group_to_multiset_ensures;
    proof { lemma_lex_total_ordering(); }
    let ghost orig = views(v@);
    let mut rest = v;
    let mut out: Vec<String> = Vec::new();
    let ghost mut taken: int = 0;
    while rest.len() > 0
        invariant
            0 <= taken <= orig.len(),
            views(rest@) == orig.skip(taken),
            sorted_by(views(out@), lex_leq()),
            views(out@).to_multiset() == orig.take(taken).to_multiset(),
            out.len() == taken,
            total_ordering(lex_leq()),
        decreases rest.len(),
    {
        let ghost rest_before = rest@;
        let s = rest.remove(0);
        let sc = chars_of(s.as_str());
        let mut pos: usize = 0;
        while pos < out.len() && lex_le_exec(&chars_of(out[pos].as_str()), &sc)
            invariant
                pos <= out.len(),
                forall|j: int| 0 <= j < pos ==> lex_le(#[trigger] out@[j]@, s@),
                sc@ == s@,
            decreases out.len() - pos,
        {
            pos = pos + 1;
        }
        let ghost out_before = views(out@);
        proof {
            if pos < out.len() {
                lemma_lex_total(out@[pos as int]@, s@);
            }
        }
        out.insert(pos, s);
        proof {
            let ov = views(out@);
            assert(ov =~= out_before.insert(pos as int, s@));
            let r = lex_leq();
            assert forall|i: int, j: int| 0 <= i < j < ov.len() implies #[trigger] r(ov[i], ov[j]) by {
                if j < pos {
                    assert(r(out_before[i], out_before[j]));
                } else if j == pos {
                    assert(ov[i] == out_before[i]);
                } else if i < pos {
                    assert(ov[j] == out_before[j - 1]);
                    assert(r(out_before[i], s@));
                    if pos < out_before.len() {
                        assert(r(s@, out_before[pos as int]));
                        if j - 1 > pos {
                            assert(r(out_before[pos as int], out_before[j - 1]));
                        }
                    }
                } else if i == pos {
                    assert(r(s@, out_before[pos as int]));
                    if j - 1 > pos {
                        assert(r(out_before[pos as int], out_before[j - 1]));
                    }
                } else {
                    assert(r(out_before[i - 1], out_before[j - 1]));
                }
            }
            assert(views(rest_before)[0] == s@);
            assert(views(rest_before).len() == rest_before.len());
            assert(taken < orig.len());
            assert(orig.skip(taken)[0] == orig[taken]);
            assert(orig[taken] == s@);
            assert(orig.take(taken + 1) =~= orig.take(taken).push(s@));
            assert(views(rest@) =~= views(rest_before).skip(1));
            assert(orig.skip(taken + 1) =~= orig.skip(taken).skip(1));
            vstd::seq_lib::to_multiset_insert(out_before, pos as int, s@);
            assert(views(out@).to_multiset() == out_before.to_multiset().insert(s@));
            orig.take(taken).to_multiset_ensures();
            assert(orig.take(taken).push(s@).to_multiset() =~= orig.take(taken).to_multiset().insert(s@));
            assert(views(out@).to_multiset() == orig.take(taken + 1).to_multiset());
            taken = taken + 1;
            assert(views(rest@) =~= orig.skip(taken));
        }
    }
    proof {
        assert(orig.take(taken) =~= orig);
    }
    out
}

} // verus!
