//! Laws of selections: what of the text each kind of them covers.

use vstd::prelude::*;

use crate::rvim::buffer::{clamped, pos, pos_le, range_lines, Pos, TextV};
use crate::rvim::edits::extracted;
use crate::rvim::keys::{Key, Mode, MotionKind, Op, VisualKind};
use crate::rvim::motion_laws::placed;
use crate::rvim::range_laws::{before, behind, law_range_text};
use crate::rvim::state::{BufV, RegKind};
use crate::rvim::vim::change::{block_line, frag_pasted, grown, overwritten, padded};
use crate::rvim::vim::operator_laws::{at_work, captured, law_motion_range};
use crate::rvim::vim::visual::{
    block_taken, frag_cut, frag_of, selected_cols, selection_overwritten, span_of, SpanV,
};
use crate::rvim::vim::{BlockV, Ed};
use crate::text::{law_split_join, lines_of, run_of, times, unlines};

verus! {

/// A block reaches over the lines and the columns of its two corners, whichever they are.
pub proof fn law_block_corners(a: Pos, b: BufV)
    ensures
        ({
            let s = span_of(a, b);
            let c = b.cursor;
            &&& s.top <= s.bot && s.c1 <= s.c2
            &&& (s.top == a.line && s.bot == c.line) || (s.top == c.line && s.bot == a.line)
            &&& (s.c1 == a.col && s.c2 == c.col) || (s.c1 == c.col && s.c2 == a.col)
        }),
{
}

/// The chars of a line that a block leaves out.
pub open spec fn outside(s: SpanV, line: Seq<char>) -> Seq<char> {
    line.take(
        if s.c1 < line.len() {
            s.c1
        } else {
            line.len() as int
        },
    ) + line.skip(
        if !s.to_eol && s.c2 + 1 < line.len() {
            s.c2 + 1
        } else {
            line.len() as int
        },
    )
}

/// The chars of a line that a block covers.
pub open spec fn inside(s: SpanV, line: Seq<char>) -> Seq<char> {
    line.subrange(
        if s.c1 < line.len() {
            s.c1
        } else {
            line.len() as int
        },
        if !s.to_eol && s.c2 + 1 < line.len() {
            s.c2 + 1
        } else {
            line.len() as int
        },
    )
}

proof fn lemma_line_cut(v: TextV, l: int, s: int, e: int)
    requires
        0 <= l < v.lines.len(),
        0 <= s < e <= v.lines[l].len(),
    ensures
        v.range_deleted(pos(l, s), pos(l, e)).lines == v.lines.update(
            l,
            v.lines[l].take(s) + v.lines[l].skip(e),
        ),
        v.range_text(pos(l, s), pos(l, e)) == v.lines[l].subrange(s, e),
        extracted(v.lines, pos(l, s), pos(l, e)) == v.lines[l].subrange(s, e),
{
    let (a, b) = (pos(l, s), pos(l, e));
    law_range_text(v, a, b);
    reveal(clamped);
    reveal(TextV::range_deleted);
    reveal(TextV::range_text);
    let m = v.lines[l].subrange(s, e);
    assert(range_lines(v.lines, a, b) =~= seq![m]);
    assert(unlines(seq![m]) == m);
    assert(v.range_deleted(a, b).lines =~= v.lines.update(
        l,
        v.lines[l].take(s) + v.lines[l].skip(e),
    ));
}

proof fn lemma_frag(t: TextV, span: SpanV, l: int, yank: bool)
    requires
        0 <= l < t.lines.len(),
        0 <= span.c1 <= span.c2,
    ensures
        frag_of(t, span, l, yank) == inside(span, t.lines[l]),
        frag_cut(t, span, l, yank).lines == if yank {
            t.lines
        } else {
            t.lines.update(l, outside(span, t.lines[l]))
        },
{
    let line = t.lines[l];
    match span.cols(line.len() as int) {
        Some((s, e)) => {
            lemma_line_cut(t, l, s, e);
        },
        None => {
            assert(outside(span, line) =~= line);
            assert(t.lines.update(l, line) =~= t.lines);
            assert(inside(span, line) =~= Seq::empty());
        },
    }
}

/// Taking a block takes from each of its lines the chars in its columns, and no others; what it
/// captures is those, one fragment for each line. A yank takes nothing out.
pub proof fn law_block_taken(t: TextV, span: SpanV, top: int, yank: bool, n: int)
    requires
        0 <= top,
        0 <= n,
        top + n <= t.lines.len(),
        0 <= span.c1 <= span.c2,
    ensures
        ({
            let (u, frags) = block_taken(t, span, top, yank, n);
            &&& u.lines.len() == t.lines.len()
            &&& frags.len() == n
            &&& forall|i: int| 0 <= i < n ==> #[trigger] frags[i] == inside(span, t.lines[top + i])
            &&& forall|l: int|
                0 <= l < t.lines.len() ==> #[trigger] u.lines[l] == if !yank && top <= l < top
                    + n {
                    outside(span, t.lines[l])
                } else {
                    t.lines[l]
                }
        }),
    decreases n,
{
    if n > 0 {
        law_block_taken(t, span, top, yank, n - 1);
        let (u, frags) = block_taken(t, span, top, yank, n - 1);
        let l = top + n - 1;
        assert(u.lines[l] == t.lines[l]);
        lemma_frag(u, span, l, yank);
    }
}

/// A selection covers the char at each of its ends and all between: d takes out what stands
/// from the first to behind the last, and linewise all the lines from one to the other.
pub proof fn law_selection_deleted(d: Ed, a: Pos, b: Pos, span: SpanV)
    requires
        at_work(d),
        d.e.op == Some(Op::Delete),
        placed(d.buf().text.lines, a),
        placed(d.buf().text.lines, b),
        pos_le(a, b),
        b.col < d.buf().text.lines[b.line].len(),
    ensures
        ({
            let ls = d.buf().text.lines;
            let x = d.selection_operated(Op::Delete, VisualKind::Char, a, b, span);
            let y = d.selection_operated(Op::Delete, VisualKind::Line, a, b, span);
            &&& unlines(x.buf().text.lines) == before(ls, a) + behind(ls, pos(b.line, b.col + 1))
            &&& b.line - a.line + 1 < ls.len() ==> y.buf().text.lines == ls.take(a.line) + ls.skip(
                b.line + 1,
            )
        }),
{
    law_motion_range(d, a, b);
    assert(d.operated(a, b, MotionKind::Linewise) == d.linewise(Op::Delete, a.line, b.line)) by {
        reveal(Ed::operated);
    }
}

/// A char is selected: between the ends or on them, in one of the lines, or in the block.
pub open spec fn selected(kind: VisualKind, span: SpanV, a: Pos, b: Pos, l: int, k: int) -> bool {
    match kind {
        VisualKind::Line => a.line <= l <= b.line,
        VisualKind::Char => pos_le(a, pos(l, k)) && pos_le(pos(l, k), b),
        VisualKind::Block => a.line <= l <= b.line && span.c1 <= k && (span.to_eol || k <= span.c2),
    }
}

proof fn lemma_overwritten_line(t: TextV, l: int, from: int, c: char, n: int)
    requires
        0 <= l < t.lines.len(),
        0 <= from,
        n > 0 ==> from + n <= t.lines[l].len(),
    ensures
        ({
            let w = overwritten(t, pos(l, from), c, n).lines;
            &&& w.len() == t.lines.len()
            &&& forall|j: int| 0 <= j < w.len() && j != l ==> #[trigger] w[j] == t.lines[j]
            &&& w[l].len() == t.lines[l].len()
            &&& forall|k: int|
                0 <= k < w[l].len() ==> #[trigger] w[l][k] == if from <= k < from + n {
                    c
                } else {
                    t.lines[l][k]
                }
        }),
    decreases n,
{
    reveal(TextV::char_replaced);
    if n > 0 {
        lemma_overwritten_line(t, l, from, c, n - 1);
    }
}

/// r over a selection overwrites every selected char, and no other.
pub proof fn law_selection_overwritten(
    t: TextV,
    kind: VisualKind,
    span: SpanV,
    a: Pos,
    b: Pos,
    c: char,
    n: int,
)
    requires
        0 <= a.line <= b.line,
        0 <= a.col,
        0 <= b.col,
        pos_le(a, b),
        0 <= span.c1 <= span.c2,
        0 <= n <= b.line - a.line + 1,
        a.line + n <= t.lines.len(),
    ensures
        ({
            let w = selection_overwritten(t, kind, span, a, b, c, n).lines;
            &&& w.len() == t.lines.len()
            &&& forall|l: int| 0 <= l < w.len() ==> (#[trigger] w[l]).len() == t.lines[l].len()
            &&& forall|l: int, k: int|
                0 <= l < w.len() && 0 <= k < w[l].len() ==> #[trigger] w[l][k] == if l < a.line + n
                    && selected(kind, span, a, b, l, k) {
                    c
                } else {
                    t.lines[l][k]
                }
        }),
    decreases n,
{
    if n > 0 {
        law_selection_overwritten(t, kind, span, a, b, c, n - 1);
        let u = selection_overwritten(t, kind, span, a, b, c, n - 1);
        let l = a.line + n - 1;
        let len = u.lines[l].len() as int;
        let (from, to) = selected_cols(kind, span, a, b, l, len);
        lemma_overwritten_line(u, l, from, c, to - from);
        assert forall|k: int| 0 <= k < len implies (from <= k < to <==> #[trigger] selected(
            kind,
            span,
            a,
            b,
            l,
            k,
        )) by {}
        let w = selection_overwritten(t, kind, span, a, b, c, n).lines;
        assert forall|j: int, k: int| 0 <= j < w.len() && 0 <= k < w[j].len() implies
            #[trigger] w[j][k] == if j < a.line + n && selected(kind, span, a, b, j, k) {
            c
        } else {
            t.lines[j][k]
        } by {
            if j == l {
                assert(u.lines[j][k] == t.lines[j][k]);
                assert(from <= k < to <==> selected(kind, span, a, b, l, k));
            } else {
                assert(w[j] == u.lines[j]);
                assert(u.lines[j][k] == u.lines[j][k]);
            }
        }
    }
}

/// A text put into a line at a column, which it reaches.
proof fn lemma_put_in_line(t: TextV, l: int, col: int, s: Seq<char>)
    requires
        0 <= l < t.lines.len(),
        0 <= col <= t.lines[l].len(),
        !s.contains('\n'),
    ensures
        t.text_inserted(pos(l, col), s).lines == t.lines.update(
            l,
            t.lines[l].take(col) + s + t.lines[l].skip(col),
        ),
{
    reveal(clamped);
    reveal(TextV::text_inserted);
    law_split_join(seq![s], '\n');
    assert(unlines(seq![s]) == s);
    assert(lines_of(s) == seq![s]);
    let w = t.text_inserted(pos(l, col), s).lines;
    let line = t.lines[l];
    assert(w.len() == t.lines.len());
    assert(w[l] =~= line.take(col) + s + line.skip(col));
    assert(w =~= t.lines.update(l, line.take(col) + s + line.skip(col)));
}

/// A line filled up with spaces to a column.
pub open spec fn filled_to(line: Seq<char>, col: int) -> Seq<char> {
    if line.len() < col {
        line + Seq::new((col - line.len()) as nat, |i: int| ' ')
    } else {
        line
    }
}

proof fn lemma_run_of(c: char, n: int)
    requires
        0 <= n,
    ensures
        run_of(c, n) == Seq::new(n as nat, |i: int| c),
{
    assert(run_of(c, n) =~= Seq::new(n as nat, |i: int| c));
}

proof fn lemma_padded(t: TextV, l: int, col: int)
    requires
        0 <= l < t.lines.len(),
        0 <= col,
    ensures
        padded(t, l, col).lines == t.lines.update(l, filled_to(t.lines[l], col)),
{
    reveal(TextV::line_set);
    if t.lines[l].len() < col {
        lemma_run_of(' ', col - t.lines[l].len());
    } else {
        assert(t.lines.update(l, t.lines[l]) =~= t.lines);
    }
}

/// What was typed on the first line of a block goes onto each other line: at the block's
/// column, at the line's end for a block that reaches there, and not onto a line that ends
/// before the column, unless it was appended: then the line is filled up to it.
pub proof fn law_block_line(t: TextV, bi: BlockV, typed: Seq<char>, l: int)
    requires
        0 <= l < t.lines.len(),
        0 <= bi.col,
        l != bi.start.line,
        !typed.contains('\n'),
    ensures
        ({
            let s = t.lines[l];
            let w = block_line(t, bi, typed, l).lines;
            if bi.to_eol {
                w == t.lines.update(l, s + typed)
            } else if s.len() < bi.col && !bi.pad {
                w == t.lines
            } else {
                let f = filled_to(s, bi.col);
                w == t.lines.update(l, f.take(bi.col) + typed + f.skip(bi.col))
            }
        }),
        block_line(t, bi, typed, bi.start.line) == t,
{
    let s = t.lines[l];
    let n = s.len() as int;
    if bi.to_eol {
        lemma_put_in_line(t, l, n, typed);
        assert(s.take(n) + typed + s.skip(n) =~= s + typed);
    } else if !(s.len() < bi.col && !bi.pad) {
        lemma_padded(t, l, bi.col);
        let u = padded(t, l, bi.col);
        lemma_put_in_line(u, l, bi.col, typed);
        let f = filled_to(s, bi.col);
        assert(t.lines.update(l, f).update(l, f.take(bi.col) + typed + f.skip(bi.col))
            =~= t.lines.update(l, f.take(bi.col) + typed + f.skip(bi.col)));
    }
}

/// A fragment of a block is put at its column of a line there is, filled up to it.
pub proof fn law_fragment_put(t: TextV, l: int, col: int, frag: Seq<char>, n: int)
    requires
        0 <= l < t.lines.len(),
        0 <= col,
        frag.len() > 0,
        !times(frag, n).contains('\n'),
    ensures
        ({
            let f = filled_to(t.lines[l], col);
            frag_pasted(t, l, col, frag, n).lines == t.lines.update(
                l,
                f.take(col) + times(frag, n) + f.skip(col),
            )
        }),
{
    assert(grown(t, l + 1 - t.lines.len()) == t);
    lemma_padded(t, l, col);
    let u = padded(t, l, col);
    lemma_put_in_line(u, l, col, times(frag, n));
    let f = filled_to(t.lines[l], col);
    assert(t.lines.update(l, f).update(l, f.take(col) + times(frag, n) + f.skip(col))
        =~= t.lines.update(l, f.take(col) + times(frag, n) + f.skip(col)));
}

/// x is d, s is c, and the Delete key is d; ~ raises where something can be raised.
pub proof fn law_visual_operators(d: Ed)
    ensures
        d.visual_operator(Key::Char('d')) == Some(Op::Delete),
        d.visual_operator(Key::Char('x')) == d.visual_operator(Key::Char('d')),
        d.visual_operator(Key::Delete) == d.visual_operator(Key::Char('d')),
        d.visual_operator(Key::Char('c')) == Some(Op::Change),
        d.visual_operator(Key::Char('s')) == d.visual_operator(Key::Char('c')),
        d.visual_operator(Key::Char('y')) == Some(Op::Yank),
        d.visual_operator(Key::Char('>')) == Some(Op::Indent),
        d.visual_operator(Key::Char('<')) == Some(Op::Dedent),
        d.visual_operator(Key::Char('u')) == Some(Op::Lower),
        d.visual_operator(Key::Char('U')) == Some(Op::Upper),
        d.selection_has_lower() ==> d.visual_operator(Key::Char('~')) == d.visual_operator(
            Key::Char('U'),
        ),
        !d.selection_has_lower() ==> d.visual_operator(Key::Char('~')) == d.visual_operator(
            Key::Char('u'),
        ),
{
}

/// o changes the ends of a selection and O the columns of a block; twice, both are as before.
pub proof fn law_ends_swap(d: Ed)
    requires
        d.has(),
        0 <= d.s.active(),
    ensures
        d.ends_swapped().buf().cursor == d.e.anchor,
        d.ends_swapped().e.anchor == d.buf().cursor,
        d.ends_swapped().ends_swapped().buf().cursor == d.buf().cursor,
        d.ends_swapped().ends_swapped().e.anchor == d.e.anchor,
        d.cols_swapped().buf().cursor == pos(d.buf().cursor.line, d.e.anchor.col),
        d.cols_swapped().e.anchor == pos(d.e.anchor.line, d.buf().cursor.col),
        d.ends_swapped().buf().text == d.buf().text,
        d.cols_swapped().buf().text == d.buf().text,
{
}

/// A selection's own key ends it, another kind's makes it that kind, and Esc ends any.
pub proof fn law_kind_keys(d: Ed, kind: VisualKind)
    ensures
        ({
            let key = |k: VisualKind|
                match k {
                    VisualKind::Char => Key::Char('v'),
                    VisualKind::Line => Key::Char('V'),
                    VisualKind::Block => Key::Ctrl('v'),
                };
            &&& d.visual_command(key(kind), kind) matches Some(x) && x.e.mode == Mode::Normal
            &&& forall|to: VisualKind|
                to != kind ==> (#[trigger] d.visual_command(key(to), kind) matches Some(x)
                    && x.e.mode == (Mode::Visual { kind: to }))
            &&& d.visual_command(Key::Esc, kind) matches Some(x) && x.e.mode == Mode::Normal
        }),
{
    reveal(Ed::visual_command);
}

/// Over a block, d and c take its columns out of its lines and y leaves them; the cursor is at
/// the block's first corner, and the fragments are captured.
pub proof fn law_blockwise(d: Ed, span: SpanV)
    requires
        at_work(d),
        d.buf().text.group is None,
        0 <= span.top <= span.bot < d.buf().text.lines.len(),
        0 <= span.c1 <= span.c2,
    ensures
        ({
            let ls = d.buf().text.lines;
            let x = d.blockwise(Op::Delete, span);
            let y = d.blockwise(Op::Yank, span);
            let z = d.blockwise(Op::Change, span);
            let frags = Seq::new(
                (span.bot - span.top + 1) as nat,
                |i: int| inside(span, ls[span.top + i]),
            );
            &&& x.buf().text.lines.len() == ls.len()
            &&& forall|l: int|
                0 <= l < ls.len() ==> #[trigger] x.buf().text.lines[l] == if span.top <= l
                    <= span.bot {
                    outside(span, ls[l])
                } else {
                    ls[l]
                }
            &&& z.buf().text.lines == x.buf().text.lines
            &&& y.buf().text == d.buf().text
            &&& x.buf().cursor == clamped(x.buf().text.lines, pos(span.top, span.c1), false)
            &&& y.buf().cursor == clamped(ls, pos(span.top, span.c1), false)
            &&& z.buf().cursor == clamped(z.buf().text.lines, pos(span.top, span.c1), true)
            &&& z.e.mode == Mode::Insert
            &&& captured(x, unlines(frags), RegKind::Block)
            &&& captured(y, unlines(frags), RegKind::Block)
            &&& captured(z, unlines(frags), RegKind::Block)
        }),
{
    let v = d.buf().text;
    let n = span.bot - span.top + 1;
    let frags = Seq::new(n as nat, |i: int| inside(span, v.lines[span.top + i]));
    let g = v.group_begun(d.buf().cursor);
    assert(g.lines == v.lines && g.group is Some) by {
        reveal(TextV::group_begun);
    }
    law_block_taken(g, span, span.top, false, n);
    law_block_taken(v, span, span.top, true, n);
    let (t, f) = block_taken(g, span, span.top, false, n);
    let (u, h) = block_taken(v, span, span.top, true, n);
    assert(f =~= frags);
    assert(h =~= frags);
    lemma_yank_keeps(v, span, span.top, n);
    reveal(TextV::group_ended);
    reveal(Ed::blockwise);
}

proof fn lemma_yank_keeps(t: TextV, span: SpanV, top: int, n: int)
    ensures
        block_taken(t, span, top, true, n).0 == t,
    decreases n,
{
    if n > 0 {
        lemma_yank_keeps(t, span, top, n - 1);
    }
}

} // verus!
