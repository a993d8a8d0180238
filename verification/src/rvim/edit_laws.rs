//! Laws of line edits: what one of them undoes of another.

use vstd::prelude::*;

use crate::rvim::buffer::{line_at, min, Pos, TextV};
use crate::rvim::edits::{
    all_commented, any_content, blank_line, case_lines, cased, comment_flipped, comment_lines,
    comment_toggled, four_spaces, is_commented, lead_spaces, line_shifted, shift_lines,
};
use crate::text::{is_space, lemma_space_prefix, space_prefix};
use crate::unicode::{
    all_ascii, ascii, ascii_lower, ascii_lowered, ascii_raised, ascii_upper, lower, upper,
};

verus! {

pub proof fn lemma_shift_lines(t: TextV, first: int, deeper: bool, n: int)
    requires
        0 <= first,
        first + n <= t.lines.len(),
    ensures
        shift_lines(t, first, deeper, n).lines == Seq::new(
            t.lines.len(),
            |i: int|
                if first <= i < first + n {
                    line_shifted(t.lines[i], deeper)
                } else {
                    t.lines[i]
                },
        ),
    decreases n,
{
    reveal(TextV::line_set);
    if n > 0 {
        lemma_shift_lines(t, first, deeper, n - 1);
    }
}

/// Dedenting lines that were just indented gives them back.
pub proof fn law_dedent_undoes_indent(t: TextV, first: int, n: int)
    requires
        0 <= first,
        first + n <= t.lines.len(),
    ensures
        shift_lines(shift_lines(t, first, true, n), first, false, n).lines == t.lines,
{
    let u = shift_lines(t, first, true, n);
    lemma_shift_lines(t, first, true, n);
    lemma_shift_lines(u, first, false, n);
    assert forall|i: int| 0 <= i < t.lines.len() implies line_shifted(
        line_shifted(t.lines[i], true),
        false,
    ) == #[trigger] t.lines[i] by {
        let s = t.lines[i];
        if s.len() == 0 {
            assert(s.skip(0) =~= s);
        } else {
            let p = four_spaces() + s;
            assert(p.skip(1)[0] == ' ' && p.skip(1).skip(1)[0] == ' ' && p.skip(1).skip(1).skip(
                1,
            )[0] == ' ');
            reveal_with_fuel(lead_spaces, 5);
            assert(lead_spaces(p, 4) == 4);
            assert(p.skip(4) =~= s);
        }
    }
    assert(shift_lines(u, first, false, n).lines =~= t.lines);
}

proof fn lemma_comment_lines(t: TextV, first: int, off: bool, n: int)
    requires
        0 <= first,
        first + n <= t.lines.len(),
    ensures
        comment_lines(t, first, off, n).lines == Seq::new(
            t.lines.len(),
            |i: int|
                if first <= i < first + n {
                    comment_flipped(t.lines[i], off)
                } else {
                    t.lines[i]
                },
        ),
    decreases n,
{
    reveal(TextV::line_set);
    if n > 0 {
        lemma_comment_lines(t, first, off, n - 1);
    }
}

/// A comment mark put on a line leads what is not blank in it.
proof fn lemma_marked(s: Seq<char>)
    requires
        !blank_line(s),
    ensures
        is_commented(comment_flipped(s, false)),
        !blank_line(comment_flipped(s, false)),
        comment_flipped(comment_flipped(s, false), true) == s,
{
    lemma_space_prefix(s);
    let k = space_prefix(s);
    let m = comment_flipped(s, false);
    lemma_space_prefix(m);
    let j = space_prefix(m);
    assert(m[k] == '/');
    if j > k {
        assert(is_space(m[k]));
    }
    if j < k {
        assert(is_space(s[j]));
        assert(m[j] == s[j]);
    }
    assert(m.take(k) + m.skip(k + 3) =~= s);
}

/// Toggling comments on and toggling them again gives the lines back. (Taking marks off lines
/// that all have one forgets whether a space followed them.)
pub proof fn law_comment_returns(t: TextV, first: int, last: int)
    requires
        0 <= first,
        !all_commented(t.lines, first, min(last, t.lines.len() - 1)),
    ensures
        comment_toggled(comment_toggled(t, first, last), first, last).lines == t.lines,
{
    let l = min(last, t.lines.len() - 1);
    let n = l - first + 1;
    let i0 = choose|i: int|
        first <= i <= l && !(blank_line(#[trigger] line_at(t.lines, i)) || is_commented(
            line_at(t.lines, i),
        ));
    assert(any_content(t.lines, first, l));
    lemma_comment_lines(t, first, false, n);
    let u = comment_toggled(t, first, last);
    assert forall|i: int| 0 <= i < t.lines.len() && !blank_line(#[trigger] t.lines[i]) implies
        is_commented(comment_flipped(t.lines[i], false)) && !blank_line(
        comment_flipped(t.lines[i], false),
    ) && comment_flipped(comment_flipped(t.lines[i], false), true) == t.lines[i] by {
        lemma_marked(t.lines[i]);
    }
    assert forall|i: int| first <= i <= l implies blank_line(#[trigger] line_at(u.lines, i))
        || is_commented(line_at(u.lines, i)) by {
        assert(u.lines[i] == comment_flipped(t.lines[i], false));
    }
    assert(!blank_line(line_at(u.lines, i0)));
    lemma_comment_lines(u, first, true, n);
    assert(comment_toggled(u, first, last).lines =~= t.lines);
}

proof fn lemma_indent(indent: Seq<char>, x: Seq<char>)
    requires
        forall|i: int| 0 <= i < indent.len() ==> is_space(#[trigger] indent[i]),
        x.len() > 0,
        !is_space(x[0]),
    ensures
        space_prefix(indent + x) == indent.len(),
{
    let s = indent + x;
    lemma_space_prefix(s);
    let k = space_prefix(s);
    let n = indent.len() as int;
    assert(s[n] == x[0]);
    if k < n {
        assert(s[k] == indent[k]);
        assert(is_space(indent[k]));
    } else if k > n {
        assert(is_space(s[n]));
    }
}

/// A comment mark goes between a line's indent and what follows it, with a space; taking it off
/// takes off the mark and one space behind it, if there is one.
pub proof fn law_comment_line(indent: Seq<char>, x: Seq<char>)
    requires
        forall|i: int| 0 <= i < indent.len() ==> is_space(#[trigger] indent[i]),
    ensures
        x.len() > 0 && !is_space(x[0]) ==> comment_flipped(indent + x, false) == indent + seq![
            '/',
            '/',
            ' ',
        ] + x,
        comment_flipped(indent + (seq!['/', '/', ' '] + x), true) == indent + x,
        x.len() == 0 || x[0] != ' ' ==> comment_flipped(indent + (seq!['/', '/'] + x), true)
            == indent + x,
        comment_flipped(indent, true) == indent,
        comment_flipped(indent, false) == indent,
{
    let k = indent.len() as int;
    if x.len() > 0 && !is_space(x[0]) {
        lemma_indent(indent, x);
        let s = indent + x;
        assert(s.take(k) =~= indent);
        assert(s.skip(k) =~= x);
    }
    let y = seq!['/', '/', ' '] + x;
    let s = indent + y;
    assert(y[0] == '/' && y[1] == '/' && y[2] == ' ');
    lemma_indent(indent, y);
    assert(s[k] == '/' && s[k + 1] == '/' && s[k + 2] == ' ');
    assert(s.take(k) + s.skip(k + 3) =~= indent + x);
    let z = seq!['/', '/'] + x;
    let u = indent + z;
    assert(z[0] == '/' && z[1] == '/');
    lemma_indent(indent, z);
    assert(u[k] == '/' && u[k + 1] == '/');
    if x.len() > 0 {
        assert(u[k + 2] == x[0]);
    }
    assert(u.take(k) + u.skip(k + 2) =~= indent + x);
    lemma_space_prefix(indent);
    let j = space_prefix(indent);
    if j < k {
        assert(is_space(indent[j]));
    }
}

/// Toggling takes marks off where every line that is not blank has one, and puts them on each
/// such line otherwise; other lines stay.
pub proof fn law_comment_toggles(t: TextV, first: int, last: int)
    requires
        0 <= first <= last < t.lines.len(),
    ensures
        ({
            let w = comment_toggled(t, first, last).lines;
            let off = forall|i: int|
                first <= i <= last ==> blank_line(#[trigger] t.lines[i]) || is_commented(t.lines[i]);
            &&& w.len() == t.lines.len()
            &&& forall|i: int|
                0 <= i < w.len() ==> #[trigger] w[i] == if first <= i <= last {
                    comment_flipped(t.lines[i], off)
                } else {
                    t.lines[i]
                }
        }),
{
    let off = forall|i: int|
        first <= i <= last ==> blank_line(#[trigger] t.lines[i]) || is_commented(t.lines[i]);
    assert(off == all_commented(t.lines, first, last)) by {
        if off {
            assert forall|i: int| first <= i <= last implies blank_line(
                #[trigger] line_at(t.lines, i),
            ) || is_commented(line_at(t.lines, i)) by {
                assert(line_at(t.lines, i) == t.lines[i]);
            }
        }
        if all_commented(t.lines, first, last) {
            assert forall|i: int| first <= i <= last implies blank_line(#[trigger] t.lines[i])
                || is_commented(t.lines[i]) by {
                assert(line_at(t.lines, i) == t.lines[i]);
            }
        }
    }
    lemma_comment_lines(t, first, off, last - first + 1);
    if !any_content(t.lines, first, last) {
        assert forall|i: int| first <= i <= last implies comment_flipped(
            #[trigger] t.lines[i],
            off,
        ) == t.lines[i] by {
            assert(line_at(t.lines, i) == t.lines[i]);
        }
    }
}

/// Case changes take in the ASCII chars of their columns, one for one, and no others.
pub proof fn law_case_columns(s: Seq<char>, from: int, to: int, up: bool, k: int)
    requires
        forall|i: int| 0 <= i < s.len() ==> ascii(#[trigger] s[i]),
        0 <= k <= s.len(),
    ensures
        cased(s, from, to, up, k).len() == k,
        forall|i: int|
            0 <= i < k ==> #[trigger] cased(s, from, to, up, k)[i] == if !(from <= i < to) {
                s[i]
            } else if up && ascii_lower(s[i]) {
                (s[i] as int - 32) as char
            } else if !up && ascii_upper(s[i]) {
                (s[i] as int + 32) as char
            } else {
                s[i]
            },
    decreases k,
{
    if k > 0 {
        law_case_columns(s, from, to, up, k - 1);
        let c = s[k - 1];
        let one = seq![c];
        assert(ascii(c));
        assert(all_ascii(one));
        assert(upper(one) =~= seq![ascii_raised(c)]);
        assert(lower(one) =~= seq![ascii_lowered(c)]);
    }
}

/// Over a range, the first line changes from its column on, the last up to its column, and those
/// between all along; other lines stay.
pub proof fn law_case_range(t: TextV, a: Pos, b: Pos, up: bool, n: int)
    requires
        0 <= a.line,
        0 <= n,
        a.line + n <= t.lines.len(),
    ensures
        ({
            let w = case_lines(t, a, b, up, n).lines;
            &&& w.len() == t.lines.len()
            &&& forall|l: int|
                0 <= l < w.len() ==> #[trigger] w[l] == if a.line <= l < a.line + n {
                    let s = t.lines[l];
                    cased(
                        s,
                        if l == a.line {
                            a.col
                        } else {
                            0
                        },
                        if l == b.line {
                            b.col
                        } else {
                            s.len() as int
                        },
                        up,
                        s.len() as int,
                    )
                } else {
                    t.lines[l]
                }
        }),
    decreases n,
{
    reveal(TextV::line_set);
    if n > 0 {
        law_case_range(t, a, b, up, n - 1);
        let u = case_lines(t, a, b, up, n - 1);
        assert(u.lines[a.line + n - 1] == t.lines[a.line + n - 1]);
    }
}

} // verus!
