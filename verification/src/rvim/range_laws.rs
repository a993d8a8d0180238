//! Laws of edits seen on the whole text: what stands before a place, in a range, and behind it.

use vstd::prelude::*;

use crate::rvim::buffer::{
    after_insert, clamped, framed, inserted, joined, pos_le, range_lines, without_range, Pos, TextV,
};
use crate::rvim::edits::{cut, extracted, lead_spaces, line_shifted, lines_extracted};
use crate::rvim::motion_laws::placed;
use crate::text::{
    is_space, law_join_split, lemma_space_prefix, lemma_split_nonempty, lines_of, space_prefix,
    trim_start_of, unlines,
};

verus! {

/// The text before a place.
pub open spec fn before(ls: Seq<Seq<char>>, p: Pos) -> Seq<char> {
    unlines(ls.take(p.line).push(ls[p.line].take(p.col)))
}

/// The text from a place on.
pub open spec fn behind(ls: Seq<Seq<char>>, p: Pos) -> Seq<char> {
    unlines(seq![ls[p.line].skip(p.col)] + ls.skip(p.line + 1))
}

/// Lines cut inside one of them are two texts, one after the other.
proof fn lemma_cut_line(a: Seq<Seq<char>>, x: Seq<char>, y: Seq<char>, b: Seq<Seq<char>>)
    ensures
        unlines(a.push(x + y) + b) == unlines(a.push(x)) + unlines(seq![y] + b),
    decreases b.len(),
{
    if b.len() == 0 {
        assert(a.push(x + y) + b =~= a.push(x + y));
        assert(seq![y] + b =~= seq![y]);
        assert(a.push(x + y).drop_last() =~= a);
        assert(a.push(x).drop_last() =~= a);
        assert(unlines(seq![y]) == y);
        if a.len() == 0 {
            assert(a.push(x + y)[0] == x + y && a.push(x)[0] == x);
        } else {
            assert(unlines(a).push('\n') + (x + y) =~= unlines(a).push('\n') + x + y);
        }
    } else {
        let c = b.drop_last();
        lemma_cut_line(a, x, y, c);
        let whole = a.push(x + y) + b;
        let right = seq![y] + b;
        assert(whole.drop_last() =~= a.push(x + y) + c);
        assert(right.drop_last() =~= seq![y] + c);
        assert(whole.last() == b.last() && right.last() == b.last());
        assert((unlines(a.push(x)) + unlines(seq![y] + c)).push('\n') + b.last() =~= unlines(
            a.push(x),
        ) + (unlines(seq![y] + c).push('\n') + b.last()));
    }
}

/// The text is what stands before a place and what stands behind it.
pub proof fn law_text_splits(ls: Seq<Seq<char>>, p: Pos)
    requires
        placed(ls, p),
    ensures
        unlines(ls) == before(ls, p) + behind(ls, p),
{
    let l = ls[p.line];
    lemma_cut_line(ls.take(p.line), l.take(p.col), l.skip(p.col), ls.skip(p.line + 1));
    assert(l.take(p.col) + l.skip(p.col) =~= l);
    assert(ls.take(p.line).push(l) + ls.skip(p.line + 1) =~= ls);
}

/// Inserting puts the new text between what stood before the place and what stood behind it,
/// and the place after the new text has both before it.
pub proof fn law_insert_between(v: TextV, p: Pos, t: Seq<char>)
    requires
        placed(v.lines, p),
    ensures
        ({
            let w = v.text_inserted(p, t).lines;
            let e = after_insert(p, t);
            &&& unlines(w) == before(v.lines, p) + t + behind(v.lines, p)
            &&& placed(w, e)
            &&& before(w, e) == before(v.lines, p) + t
            &&& behind(w, e) == behind(v.lines, p)
        }),
{
    reveal(clamped);
    reveal(TextV::text_inserted);
    let ls = v.lines;
    assert(clamped(ls, p, true) == p);
    let w = inserted(ls, p, t);
    let e = after_insert(p, t);
    let segs = lines_of(t);
    lemma_split_nonempty(t, '\n');
    law_join_split(t, '\n');
    let l = ls[p.line];
    let (head, tail) = (l.take(p.col), l.skip(p.col));
    let mid = framed(head, segs, tail);
    let (a, b) = (ls.take(p.line), ls.skip(p.line + 1));
    let n = segs.len() as int;
    assert(w =~= a + mid + b);
    assert forall|i: int| 0 <= i < n implies #[trigger] mid[i] == w[p.line + i] by {}
    let last = if n == 1 {
        head + segs.last()
    } else {
        segs.last()
    };
    assert(mid[n - 1] =~= last + tail);
    assert(w[e.line] == mid[n - 1]);
    assert(w[e.line].take(e.col) =~= last);
    assert(w[e.line].skip(e.col) =~= tail);
    assert(w.skip(e.line + 1) =~= b);
    let up = w.take(e.line).push(last);
    let more = segs.skip(1);
    assert(up =~= a.push(head + segs[0]) + more) by {
        assert forall|i: int| 0 <= i < up.len() implies up[i] == (a.push(head + segs[0])
            + more)[i] by {
            if i >= a.len() && i < up.len() - 1 {
                assert(mid[i - a.len()] =~= if i == a.len() {
                    head + segs[0]
                } else {
                    segs[i - a.len()]
                });
            }
        }
    }
    lemma_cut_line(a, head, segs[0], more);
    assert(seq![segs[0]] + more =~= segs);
    law_text_splits(w, e);
}

/// Deleting leaves what stood before the range and what stood behind it, whichever end is named
/// first.
pub proof fn law_delete_leaves(v: TextV, a: Pos, b: Pos)
    requires
        placed(v.lines, a),
        placed(v.lines, b),
        pos_le(a, b),
    ensures
        unlines(v.range_deleted(a, b).lines) == before(v.lines, a) + behind(v.lines, b),
        v.range_deleted(b, a) == v.range_deleted(a, b),
{
    reveal(clamped);
    reveal(TextV::range_deleted);
    let ls = v.lines;
    if a == b {
        law_text_splits(ls, a);
    } else {
        let (x, y) = (ls[a.line].take(a.col), ls[b.line].skip(b.col));
        lemma_cut_line(ls.take(a.line), x, y, ls.skip(b.line + 1));
        assert(without_range(ls, a, b) =~= ls.take(a.line).push(x + y) + ls.skip(b.line + 1));
    }
}

/// The text of a range is what has to follow the text before it to make the text before its
/// end, whichever end is named first.
pub proof fn law_range_text(v: TextV, a: Pos, b: Pos)
    requires
        placed(v.lines, a),
        placed(v.lines, b),
        pos_le(a, b),
    ensures
        before(v.lines, b) == before(v.lines, a) + v.range_text(a, b),
        v.range_text(b, a) == v.range_text(a, b),
        extracted(v.lines, a, b) == v.range_text(a, b),
        extracted(v.lines, b, a) == v.range_text(a, b),
{
    reveal(clamped);
    reveal(TextV::range_text);
    let ls = v.lines;
    let up = ls.take(a.line);
    let (la, lb) = (ls[a.line], ls[b.line]);
    let r = range_lines(ls, a, b);
    if a.line == b.line {
        let m = la.subrange(a.col, b.col);
        lemma_cut_line(up, la.take(a.col), m, Seq::empty());
        assert(la.take(a.col) + m =~= la.take(b.col));
        assert(up.push(la.take(b.col)) + Seq::<Seq<char>>::empty() =~= up.push(la.take(b.col)));
        assert(seq![m] + Seq::<Seq<char>>::empty() =~= seq![m]);
        assert(r =~= seq![m]);
        assert(unlines(seq![m]) == m);
        assert(cut(la, a.col, b.col) =~= m);
    } else {
        let rest = ls.subrange(a.line + 1, b.line).push(lb.take(b.col));
        lemma_cut_line(up, la.take(a.col), la.skip(a.col), rest);
        assert(la.take(a.col) + la.skip(a.col) =~= la);
        assert(ls.take(b.line).push(lb.take(b.col)) =~= up.push(la) + rest);
        assert(r =~= seq![la.skip(a.col)] + rest) by {
            assert forall|i: int| 0 <= i < r.len() implies r[i] == (seq![la.skip(a.col)]
                + rest)[i] by {
                if i == 0 {
                    assert(r[i] =~= la.skip(a.col));
                } else if i == r.len() - 1 {
                    assert(r[i] =~= lb.take(b.col));
                } else {
                    assert(r[i] =~= ls[a.line + i]);
                }
            }
        }
        let e = seq![cut(la, a.col, la.len() as int)] + ls.subrange(a.line + 1, b.line) + seq![
            cut(lb, 0, b.col),
        ];
        assert(cut(la, a.col, la.len() as int) =~= la.skip(a.col));
        assert(cut(lb, 0, b.col) =~= lb.take(b.col));
        assert(e =~= r);
    }
}

/// Deleting lines leaves the lines above and below them; of a text that loses them all, one
/// empty line stays. What is captured is the lines, with breaks between them.
pub proof fn law_lines_deleted(v: TextV, first: int, last: int)
    requires
        0 <= first <= last < v.lines.len(),
    ensures
        ({
            let rest = v.lines.take(first) + v.lines.skip(last + 1);
            v.lines_deleted(first, last).lines == if first == 0 && last == v.lines.len() - 1 {
                seq![Seq::<char>::empty()]
            } else {
                rest
            }
        }),
        v.lines_text(first, last) == unlines(v.lines.subrange(first, last + 1)),
        lines_extracted(v.lines, first, last) == v.lines_text(first, last),
{
    reveal(TextV::lines_deleted);
    reveal(TextV::lines_text);
    assert(v.lines.take(first) + Seq::<Seq<char>>::empty() + v.lines.skip(last + 1)
        =~= v.lines.take(first) + v.lines.skip(last + 1));
}

/// New lines stand at their place, those above and below as they were.
pub proof fn law_lines_inserted(v: TextV, at: int, new: Seq<Seq<char>>)
    requires
        0 <= at <= v.lines.len(),
    ensures
        v.lines_inserted(at, new).lines == v.lines.take(at) + new + v.lines.skip(at),
{
    reveal(TextV::lines_inserted);
    if new.len() == 0 {
        assert(v.lines.take(at) + new + v.lines.skip(at) =~= v.lines);
    }
}

/// Joining puts the next line behind this one without its leading blanks, with one space
/// between them unless one of the two is then empty; without that, the two just follow one
/// another. Other lines stay.
pub proof fn law_join(v: TextV, i: int, with_space: bool, k: int)
    requires
        0 <= i,
        i + 1 < v.lines.len(),
        0 <= k <= v.lines[i + 1].len(),
        with_space ==> (forall|j: int| 0 <= j < k ==> is_space(#[trigger] v.lines[i + 1][j])) && (k
            == v.lines[i + 1].len() || !is_space(v.lines[i + 1][k])),
        !with_space ==> k == 0,
    ensures
        ({
            let (a, b) = (v.lines[i], v.lines[i + 1].skip(k));
            let mid = if with_space && a.len() > 0 && b.len() > 0 {
                seq![' ']
            } else {
                Seq::<char>::empty()
            };
            v.line_joined(i, with_space).lines == v.lines.take(i).push(a + mid + b) + v.lines.skip(
                i + 2,
            )
        }),
{
    reveal(TextV::line_joined);
    let (a, c) = (v.lines[i], v.lines[i + 1]);
    let b = c.skip(k);
    lemma_space_prefix(c);
    if with_space {
        let j = space_prefix(c);
        if j < k {
            assert(is_space(c[j]));
        }
        assert(j == k);
        assert(trim_start_of(c) =~= b);
        assert(a.push(' ') + b =~= a + seq![' '] + b);
        assert(a + b =~= a + Seq::<char>::empty() + b);
    } else {
        assert(b =~= c);
        assert(a + c =~= a + Seq::<char>::empty() + b);
    }
    assert(v.lines.take(i) + seq![joined(a, c, with_space)] =~= v.lines.take(i).push(
        joined(a, c, with_space),
    ));
}

/// Replacing a char changes it alone.
pub proof fn law_char_replaced(v: TextV, p: Pos, c: char)
    requires
        placed(v.lines, p),
    ensures
        ({
            let w = v.char_replaced(p, c).lines;
            &&& w.len() == v.lines.len()
            &&& forall|l: int|
                0 <= l < w.len() ==> (#[trigger] w[l]).len() == v.lines[l].len() && forall|k: int|
                    0 <= k < w[l].len() ==> #[trigger] w[l][k] == if l == p.line && k == p.col {
                        c
                    } else {
                        v.lines[l][k]
                    }
        }),
{
    reveal(TextV::char_replaced);
}

/// Indenting puts four spaces before a line that has any chars; dedenting takes off as many
/// leading spaces as there are, four at most.
pub proof fn law_line_shift(s: Seq<char>)
    ensures
        s.len() > 0 ==> line_shifted(s, true) == seq![' ', ' ', ' ', ' '] + s,
        s.len() == 0 ==> line_shifted(s, true) == s,
        exists|k: int|
            {
                &&& 0 <= k <= 4 && k <= s.len()
                &&& #[trigger] s.skip(k) == line_shifted(s, false)
                &&& forall|j: int| 0 <= j < k ==> #[trigger] s[j] == ' '
                &&& k == 4 || k == s.len() || s[k] != ' '
            },
{
    lemma_lead(s, 4);
    let k = lead_spaces(s, 4);
    assert(s.skip(k) == line_shifted(s, false));
}

proof fn lemma_lead(s: Seq<char>, n: int)
    requires
        n >= 0,
    ensures
        ({
            let k = lead_spaces(s, n);
            &&& 0 <= k <= n && k <= s.len()
            &&& forall|j: int| 0 <= j < k ==> #[trigger] s[j] == ' '
            &&& k == n || k == s.len() || s[k] != ' '
        }),
    decreases n,
{
    if n > 0 && s.len() > 0 && s[0] == ' ' {
        lemma_lead(s.skip(1), n - 1);
        let k = lead_spaces(s.skip(1), n - 1);
        assert forall|j: int| 0 <= j < k + 1 implies #[trigger] s[j] == ' ' by {
            if j > 0 {
                assert(s.skip(1)[j - 1] == ' ');
            }
        }
    }
}

} // verus!
