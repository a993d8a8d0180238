//! What the text buffer promises across operations.

use vstd::prelude::*;

use crate::rvim::buffer::{
    after_insert, clamped, framed, inserted, pos_le, range_lines, without_range, Pos, SnapV, TextV,
};
use crate::text::{law_join_split, lemma_split_nonempty, lines_of, unlines};

verus! {

/// The text of a freshly loaded buffer is the text that was loaded.
pub proof fn law_load_keeps_text(t: Seq<char>)
    ensures
        unlines(TextV::fresh(t).lines) == t,
        TextV::fresh(t).wf(),
{
    reveal(TextV::wf);
    law_join_split(t, '\n');
    lemma_split_nonempty(t, '\n');
}

/// A clamped position lies in the text, and clamping again does not move it.
pub proof fn law_clamp_settles(t: TextV, p: Pos, allow_end: bool)
    requires
        t.wf(),
        0 <= p.line,
        0 <= p.col,
    ensures
        ({
            let q = clamped(t.lines, p, allow_end);
            &&& 0 <= q.line < t.lines.len()
            &&& 0 <= q.col <= t.lines[q.line].len()
            &&& !allow_end && t.lines[q.line].len() > 0 ==> q.col < t.lines[q.line].len()
            &&& clamped(t.lines, q, allow_end) == q
        }),
{
    reveal(clamped);
    reveal(TextV::wf);
}

/// A position already in the text is left where it is.
pub proof fn law_clamp_keeps(t: TextV, p: Pos)
    requires
        0 <= p.line < t.lines.len(),
        0 <= p.col <= t.lines[p.line].len(),
    ensures
        clamped(t.lines, p, true) == p,
{
    reveal(clamped);
}

/// Deleting what was just inserted gives the removed text and the lines from before.
pub proof fn law_delete_undoes_insert(v: TextV, p: Pos, t: Seq<char>)
    requires
        v.wf(),
        0 <= p.line,
        0 <= p.col,
    ensures
        ({
            let q = clamped(v.lines, p, true);
            let w = v.text_inserted(p, t);
            let e = after_insert(q, t);
            &&& w.range_deleted(q, e).lines == v.lines
            &&& w.range_text(q, e) == t
        }),
{
    reveal(clamped);
    reveal(TextV::wf);
    reveal(TextV::text_inserted);
    reveal(TextV::range_deleted);
    reveal(TextV::range_text);
    let q = clamped(v.lines, p, true);
    let w = v.text_inserted(p, t);
    let e = after_insert(q, t);
    let segs = lines_of(t);
    lemma_split_nonempty(t, '\n');
    law_join_split(t, '\n');
    let l = v.lines[q.line];
    let (head, tail) = (l.take(q.col), l.skip(q.col));
    let mid = framed(head, segs, tail);
    assert(w.lines == inserted(v.lines, q, t));
    assert forall|i: int| 0 <= i < segs.len() implies w.lines[q.line + i] == mid[i] by {}
    assert(w.lines[e.line] == mid[segs.len() - 1]);
    assert(w.lines[q.line] == mid[0]);
    assert(clamped(w.lines, q, true) == q);
    assert(clamped(w.lines, e, true) == e);
    assert(pos_le(q, e));
    assert(w.range_of(q, e) == (q, e));
    let rl = range_lines(w.lines, q, e);
    assert(rl =~= segs) by {
        assert forall|i: int| 0 <= i < segs.len() implies rl[i] == segs[i] by {
            assert(w.lines[q.line + i] == mid[i]);
            assert(rl[i] =~= segs[i]);
        }
    }
    if q == e {
        assert(segs[0] =~= Seq::empty());
        assert(mid[0] =~= l);
        assert(w.lines =~= v.lines);
    } else {
        let back = without_range(w.lines, q, e);
        assert(w.lines[q.line].take(q.col) =~= head);
        assert(w.lines[e.line].skip(e.col) =~= tail);
        assert(head + tail =~= l);
        assert(back =~= v.lines);
    }
}

/// Outside a group, undoing an edit restores the lines and hands back the cursor recorded
/// with it; redoing then restores what the edit had made.
pub proof fn law_undo_restores(v: TextV, at: Pos, lines: Seq<Seq<char>>, c1: Pos, c2: Pos)
    requires
        v.group is None,
    ensures
        ({
            let w = v.edited(at, lines);
            let u = w.undone(c1);
            &&& u.lines == v.lines
            &&& w.undo_cursor() == Some(at)
            &&& u.redone(c2).lines == lines
            &&& u.redo_cursor() == Some(c1)
        }),
{
    reveal(TextV::group_ended);
    reveal(TextV::undone);
    reveal(TextV::redone);
    reveal(TextV::undo_cursor);
    reveal(TextV::redo_cursor);
    let w = v.edited(at, lines);
    assert(w.undo.last() == v.snap(at));
}

/// However many edits an undo group holds, one undo takes all of them back, to the lines and
/// the cursor at its beginning.
pub proof fn law_group_is_one_step(v: TextV, start: Pos, w: TextV, c: Pos)
    requires
        v.group is None,
        w.group == v.group_begun(start).group,
        w.version != v.version,
    ensures
        w.group_ended().undone(c).lines == v.lines,
        w.group_ended().undo_cursor() == Some(start),
        w.group_ended().undone(c) == w.undone(c),
{
    reveal(TextV::group_begun);
    reveal(TextV::group_ended);
    reveal(TextV::undone);
    reveal(TextV::undo_cursor);
    let e = w.group_ended();
    assert(e.undo.last() == v.snap(start));
}

/// Edits inside a group leave the group and the history as they are.
pub proof fn law_edit_in_group(v: TextV, at: Pos, lines: Seq<Seq<char>>)
    requires
        v.group is Some,
    ensures
        v.edited(at, lines).group == v.group,
        v.edited(at, lines).undo == v.undo,
        v.edited(at, lines).redo == v.redo,
        v.edited(at, lines).lines == lines,
{
}

/// History is bounded: no operation keeps more than the cap of undo steps.
pub proof fn law_undo_is_capped(v: TextV, s: SnapV)
    requires
        v.undo.len() <= crate::rvim::buffer::UNDO_CAP,
    ensures
        v.pushed(s).undo.len() <= crate::rvim::buffer::UNDO_CAP,
        v.group_ended().undo.len() <= crate::rvim::buffer::UNDO_CAP,
        v.undone(s.cursor).undo.len() <= crate::rvim::buffer::UNDO_CAP,
        v.redone(s.cursor).undo.len() <= crate::rvim::buffer::UNDO_CAP,
{
    reveal(TextV::group_ended);
    reveal(TextV::undone);
    reveal(TextV::redone);
}

} // verus!
