//! The order of strings by their code points, and sorting by it.
use vstd::prelude::*;
use vstd::relations::{sorted_by, total_ordering};
use vstd::seq_lib::{lemma_sorted_unique, to_multiset_build, to_multiset_insert};
use crate::text::{char_views, slice};

verus! {

/// Whether `a` comes no later than `b` in the order of strings: at the first
/// place where the two differ `a` has the smaller code point, or `a` ends
/// there.
pub open spec fn lex_le(a: Seq<char>, b: Seq<char>) -> bool
    decreases a.len(),
{
    if a.len() == 0 {
        true
    } else if b.len() == 0 {
        false
    } else if a[0] == b[0] {
        lex_le(a.skip(1), b.skip(1))
    } else {
        (a[0] as u32) < (b[0] as u32)
    }
}

/// The order of strings as a relation.
pub open spec fn by_code_points() -> spec_fn(Seq<char>, Seq<char>) -> bool {
    |a: Seq<char>, b: Seq<char>| lex_le(a, b)
}

/// The lines in the order of strings.
pub open spec fn sorted_lines(lines: Seq<Seq<char>>) -> Seq<Seq<char>> {
    lines.sort_by(by_code_points())
}

proof fn lemma_lex_reflexive(a: Seq<char>)
    ensures
        lex_le(a, a),
    decreases a.len(),
{
    if a.len() > 0 {
        lemma_lex_reflexive(a.skip(1));
    }
}

proof fn lemma_lex_antisymmetric(a: Seq<char>, b: Seq<char>)
    requires
        lex_le(a, b),
        lex_le(b, a),
    ensures
        a == b,
    decreases a.len(),
{
    if a.len() > 0 && b.len() > 0 {
        vstd::utf8::char_u32_cast(a[0], a[0] as u32);
        vstd::utf8::char_u32_cast(b[0], b[0] as u32);
        lemma_lex_antisymmetric(a.skip(1), b.skip(1));
        assert(b =~= seq![b[0]] + b.skip(1));
    }
}

proof fn lemma_lex_transitive(a: Seq<char>, b: Seq<char>, c: Seq<char>)
    requires
        lex_le(a, b),
        lex_le(b, c),
    ensures
        lex_le(a, c),
    decreases a.len(),
{
    if a.len() > 0 && b.len() > 0 && c.len() > 0 {
        if a[0] == b[0] && b[0] == c[0] {
            lemma_lex_transitive(a.skip(1), b.skip(1), c.skip(1));
        } else {
            vstd::utf8::char_u32_cast(a[0], a[0] as u32);
            vstd::utf8::char_u32_cast(b[0], b[0] as u32);
            vstd::utf8::char_u32_cast(c[0], c[0] as u32);
        }
    }
}

proof fn lemma_lex_connected(a: Seq<char>, b: Seq<char>)
    ensures
        lex_le(a, b) || lex_le(b, a),
    decreases a.len(),
{
    if a.len() > 0 && b.len() > 0 {
        if a[0] == b[0] {
            lemma_lex_connected(a.skip(1), b.skip(1));
        } else {
            vstd::utf8::char_u32_cast(a[0], a[0] as u32);
            vstd::utf8::char_u32_cast(b[0], b[0] as u32);
        }
    }
}

/// The order of strings is a total order.
pub proof fn lemma_lex_total()
    ensures
        total_ordering(by_code_points()),
{
    let r = by_code_points();
    assert forall|x: Seq<char>| #[trigger] r(x, x) by {
        lemma_lex_reflexive(x);
    }
    assert forall|x: Seq<char>, y: Seq<char>| #[trigger] r(x, y) && #[trigger] r(y, x) implies x
        == y by {
        lemma_lex_antisymmetric(x, y);
    }
    assert forall|x: Seq<char>, y: Seq<char>, z: Seq<char>| #[trigger]
        r(x, y) && #[trigger] r(y, z) implies r(x, z) by {
        lemma_lex_transitive(x, y, z);
    }
    assert forall|x: Seq<char>, y: Seq<char>| #[trigger] r(x, y) || #[trigger] r(y, x) by {
        lemma_lex_connected(x, y);
    }
}

/// What `sorted_lines` is: the same lines, each as often as before, in the
/// order of strings.
pub proof fn lemma_sorted_lines(lines: Seq<Seq<char>>)
    ensures
        sorted_lines(lines).to_multiset() == lines.to_multiset(),
        sorted_lines(lines).len() == lines.len(),
        forall|i: int, j: int|
            0 <= i < j < lines.len() ==> lex_le(
                #[trigger] sorted_lines(lines)[i],
                #[trigger] sorted_lines(lines)[j],
            ),
{
    lemma_lex_total();
    lines.lemma_sort_by_ensures(by_code_points());
    vstd::seq_lib::to_multiset_len(lines);
    vstd::seq_lib::to_multiset_len(sorted_lines(lines));
    let sorted = sorted_lines(lines);
    assert forall|i: int, j: int| 0 <= i < j < lines.len() implies lex_le(
        #[trigger] sorted[i],
        #[trigger] sorted[j],
    ) by {
        assert(by_code_points()(sorted[i], sorted[j]));
    }
}

/// Whether `a` comes no later than `b` in the order of strings.
pub fn le(a: &Vec<char>, b: &Vec<char>) -> (r: bool)
    ensures
        r == lex_le(a@, b@),
{
    let mut i: usize = 0;
    assert(a@.skip(0) == a@);
    assert(b@.skip(0) == b@);
    loop
        invariant
            i <= a.len(),
            i <= b.len(),
            lex_le(a@, b@) == lex_le(a@.skip(i as int), b@.skip(i as int)),
        decreases a.len() - i,
    {
        if i == a.len() {
            return true;
        }
        if i == b.len() {
            return false;
        }
        let x: char = a[i];
        let y: char = b[i];
        if x != y {
            return (x as u32) < (y as u32);
        }
        assert(a@.skip(i as int).skip(1) == a@.skip(i + 1));
        assert(b@.skip(i as int).skip(1) == b@.skip(i + 1));
        i += 1;
    }
}

/// Puts the lines in the order of strings.
pub fn sort(lines: &Vec<Vec<char>>) -> (out: Vec<Vec<char>>)
    ensures
        char_views(out@) == sorted_lines(char_views(lines@)),
{
    let ghost leq = by_code_points();
    let ghost all = char_views(lines@);
    let mut out: Vec<Vec<char>> = Vec::new();
    let mut i: usize = 0;
    proof {
        lemma_lex_total();
        assert(char_views(out@) =~= all.take(0));
    }
    while i < lines.len()
        invariant
            i <= lines.len(),
            all == char_views(lines@),
            leq == by_code_points(),
            total_ordering(leq),
            sorted_by(char_views(out@), leq),
            char_views(out@).to_multiset() == all.take(i as int).to_multiset(),
        decreases lines.len() - i,
    {
        let line = slice(&lines[i], 0, lines[i].len());
        assert(line@ == lines@[i as int]@);
        let mut pos: usize = 0;
        while pos < out.len() && le(&out[pos], &line)
            invariant
                pos <= out.len(),
                forall|k: int| 0 <= k < pos ==> lex_le(out@[k]@, line@),
            decreases out.len() - pos,
        {
            pos += 1;
        }
        let ghost before = char_views(out@);
        out.insert(pos, line);
        proof {
            let after = char_views(out@);
            assert(after =~= before.insert(pos as int, line@));
            assert forall|x: int, y: int| 0 <= x < y < after.len() implies #[trigger] leq(
                after[x],
                after[y],
            ) by {
                if x == pos {
                    lemma_lex_connected(before[pos as int], line@);
                    if y - 1 > pos {
                        assert(leq(before[pos as int], before[y - 1]));
                        lemma_lex_transitive(line@, before[pos as int], before[y - 1]);
                    }
                }
            }
            to_multiset_insert(before, pos as int, line@);
            assert(all.take(i + 1) =~= all.take(i as int).push(line@));
            to_multiset_build(all.take(i as int), line@);
        }
        i += 1;
    }
    proof {
        assert(all.take(lines.len() as int) == all);
        all.lemma_sort_by_ensures(leq);
        lemma_sorted_unique(char_views(out@), sorted_lines(all), leq);
    }
    out
}

} // verus!
