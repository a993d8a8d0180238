//! Laws of the editing commands, on the text before the cursor, behind it and between.

use vstd::prelude::*;

use crate::rvim::buffer::{after_insert, clamped, pos, pos_le, range_lines, Pos, TextV};
use crate::rvim::buffer_laws::law_clamp_keeps;
use crate::rvim::edit_laws::lemma_shift_lines;
use crate::rvim::edits::line_shifted;
use crate::rvim::keys::{Key, Mode, MotionKind, Op};
use crate::rvim::motion::{advanced, indent_of, len_at, stepped_back};
use crate::rvim::motion_laws::placed;
use crate::rvim::objects::object_span;
use crate::rvim::range_laws::{
    before, behind, law_delete_leaves, law_insert_between, law_lines_deleted, law_lines_inserted,
    law_range_text,
};
use crate::rvim::state::{BufV, RegKind, RegV};
use crate::rvim::vim::change::{flipped, joins, overwritten, x_range};
use crate::rvim::vim::insert::break_text;
use crate::rvim::vim::Ed;
use crate::text::{
    is_space, join_with, lemma_space_prefix, lemma_split_nonempty, lines_of, lines_times,
    space_prefix, space_suffix, times, unlines,
};
use crate::unicode::{ascii_lower, ascii_upper};

verus! {

/// An editor with a text to work on and no register chosen.
pub open spec fn at_work(d: Ed) -> bool {
    d.has() && 0 <= d.s.active() && d.e.reg is None
}

/// The unnamed register holds `text`.
pub open spec fn captured(d: Ed, text: Seq<char>, kind: RegKind) -> bool {
    d.s.registers.contains_key('"') && d.s.registers['"'] == (RegV { text, kind })
}

/// An operator over `[a, b)`: d and c take the text between out and capture it, y captures it
/// and leaves the text; the cursor is at the start.
pub proof fn law_charwise(d: Ed, from: Pos, a: Pos, b: Pos)
    requires
        at_work(d),
        placed(d.buf().text.lines, a),
        placed(d.buf().text.lines, b),
        pos_le(a, b),
    ensures
        ({
            let ls = d.buf().text.lines;
            let mid = d.buf().text.range_text(a, b);
            let x = d.charwise(Op::Delete, from, a, b);
            let y = d.charwise(Op::Yank, from, a, b);
            let z = d.charwise(Op::Change, from, a, b);
            &&& before(ls, b) == before(ls, a) + mid
            &&& unlines(x.buf().text.lines) == before(ls, a) + behind(ls, b)
            &&& z.buf().text.lines == x.buf().text.lines
            &&& y.buf().text == d.buf().text
            &&& mid.len() > 0 ==> captured(x, mid, RegKind::Char) && captured(y, mid, RegKind::Char)
                && captured(z, mid, RegKind::Char)
            &&& x.buf().cursor == clamped(x.buf().text.lines, a, false)
            &&& y.buf().cursor == clamped(ls, a, false)
            &&& z.buf().cursor == clamped(z.buf().text.lines, a, true)
            &&& z.e.mode == Mode::Insert
        }),
{
    reveal(Ed::charwise);
    reveal(TextV::group_begun);
    let v = d.buf().text;
    law_delete_leaves(v, a, b);
    law_range_text(v, a, b);
    let g = v.group_begun(from);
    assert(g.lines == v.lines);
    reveal(TextV::range_deleted);
    reveal(TextV::range_text);
}

/// A motion's range runs from the earlier end to the later one; an inclusive motion takes in the
/// char it ends on, a linewise one whole lines.
pub proof fn law_motion_range(d: Ed, cur: Pos, target: Pos)
    requires
        at_work(d),
        d.e.op == Some(Op::Delete),
        placed(d.buf().text.lines, cur),
        placed(d.buf().text.lines, target),
    ensures
        ({
            let ls = d.buf().text.lines;
            let (lo, hi) = if pos_le(cur, target) {
                (cur, target)
            } else {
                (target, cur)
            };
            let x = d.operated(cur, target, MotionKind::Exclusive);
            let y = d.operated(cur, target, MotionKind::Inclusive);
            let z = d.operated(cur, target, MotionKind::Linewise);
            &&& unlines(x.buf().text.lines) == before(ls, lo) + behind(ls, hi)
            &&& hi.col < ls[hi.line].len() ==> unlines(y.buf().text.lines) == before(ls, lo)
                + behind(ls, pos(hi.line, hi.col + 1))
            &&& hi.line - lo.line + 1 < ls.len() ==> z.buf().text.lines == ls.take(lo.line)
                + ls.skip(hi.line + 1)
            &&& hi.line - lo.line + 1 == ls.len() ==> z.buf().text.lines == seq![
                Seq::<char>::empty(),
            ]
            &&& captured(z, unlines(ls.subrange(lo.line, hi.line + 1)), RegKind::Line)
        }),
{
    let v = d.buf().text;
    let (lo, hi) = if pos_le(cur, target) {
        (cur, target)
    } else {
        (target, cur)
    };
    law_charwise(d, cur, lo, hi);
    if hi.col < v.lines[hi.line].len() {
        law_charwise(d, cur, lo, pos(hi.line, hi.col + 1));
    }
    law_lines_deleted(v, lo.line, hi.line);
    assert(d.operated(cur, target, MotionKind::Exclusive) == d.charwise(Op::Delete, cur, lo, hi))
        by {
        reveal(Ed::operated);
    }
    assert(d.operated(cur, target, MotionKind::Inclusive) == d.charwise(
        Op::Delete,
        cur,
        lo,
        advanced(v.lines, hi),
    )) by {
        reveal(Ed::operated);
    }
    assert(d.operated(cur, target, MotionKind::Linewise) == d.linewise(
        Op::Delete,
        lo.line,
        hi.line,
    )) by {
        reveal(Ed::operated);
    }
    assert(d.linewise(Op::Delete, lo.line, hi.line).buf().text == v.lines_deleted(
        lo.line,
        hi.line,
    ) && captured(
        d.linewise(Op::Delete, lo.line, hi.line),
        v.lines_text(lo.line, hi.line),
        RegKind::Line,
    )) by {
        reveal(Ed::linewise);
    }
    if hi.line - lo.line + 1 < v.lines.len() {
        assert(!(lo.line == 0 && hi.line == v.lines.len() - 1));
    }
}

/// Over lines, y captures them and leaves the text; c empties them into one line that keeps the
/// first one's indent. (Where they are all but an empty last line, that one line is all that is
/// left.)
pub proof fn law_linewise(d: Ed, first: int, last: int)
    requires
        at_work(d),
        0 <= first <= last < d.buf().text.lines.len(),
    ensures
        ({
            let ls = d.buf().text.lines;
            let y = d.linewise(Op::Yank, first, last);
            let z = d.linewise(Op::Change, first, last);
            let text = unlines(ls.subrange(first, last + 1));
            let indent = ls[first].take(space_prefix(ls[first]));
            &&& y.buf().text == d.buf().text
            &&& captured(y, text, RegKind::Line)
            &&& z.buf().text.lines == if first == 0 && last == ls.len() - 2 && ls[last + 1].len()
                == 0 {
                seq![indent]
            } else {
                ls.take(first).push(indent) + ls.skip(last + 1)
            }
            &&& z.buf().cursor == pos(first, indent.len() as int)
            &&& captured(z, text, RegKind::Line)
            &&& z.e.mode == Mode::Insert
        }),
{
    let v = d.buf().text;
    let ls = v.lines;
    reveal(TextV::group_begun);
    let g = v.group_begun(d.buf().cursor);
    law_lines_deleted(v, first, last);
    law_lines_deleted(g, first, last);
    lemma_space_prefix(ls[first]);
    let t = g.lines_deleted(first, last);
    let indent = ls[first].take(space_prefix(ls[first]));
    reveal(TextV::lines_inserted);
    reveal(Ed::linewise);
    reveal(TextV::line_set);
    let z = d.linewise(Op::Change, first, last);
    if first == 0 && last == ls.len() - 1 {
        assert(z.buf().text.lines =~= ls.take(first).push(indent) + ls.skip(last + 1));
    } else if first == 0 && last == ls.len() - 2 && ls[last + 1].len() == 0 {
        assert(z.buf().text.lines =~= seq![indent]);
    } else {
        assert(t.lines =~= ls.take(first) + ls.skip(last + 1));
        assert(z.buf().text.lines =~= ls.take(first).push(indent) + ls.skip(last + 1));
    }
}

/// x takes out the count's chars from the cursor on, no further than the end of the line, and X
/// those before it, no further than its start; both capture them.
pub proof fn law_x(d: Ed)
    requires
        at_work(d),
        placed(d.buf().text.lines, d.buf().cursor),
        d.e.total() >= 1,
    ensures
        ({
            let ls = d.buf().text.lines;
            let p = d.buf().cursor;
            let n = d.e.total();
            let len = ls[p.line].len();
            let to = pos(
                p.line,
                if p.col + n <= len {
                    p.col + n
                } else {
                    len as int
                },
            );
            let from = pos(
                p.line,
                if n <= p.col {
                    p.col - n
                } else {
                    0
                },
            );
            &&& unlines(d.did_x(true).buf().text.lines) == before(ls, p) + behind(ls, to)
            &&& unlines(d.did_x(false).buf().text.lines) == before(ls, from) + behind(ls, p)
            &&& p.col < len ==> captured(
                d.did_x(true),
                ls[p.line].subrange(p.col, to.col),
                RegKind::Char,
            )
            &&& p.col > 0 ==> captured(
                d.did_x(false),
                ls[p.line].subrange(from.col, p.col),
                RegKind::Char,
            )
        }),
{
    let v = d.buf().text;
    let p = d.buf().cursor;
    let (a, b) = x_range(d.buf(), d.e.total(), true);
    let (x, y) = x_range(d.buf(), d.e.total(), false);
    law_delete_leaves(v, a, b);
    law_delete_leaves(v, x, y);
    lemma_range_in_line(v, a, b);
    lemma_range_in_line(v, x, y);
    assert(v.range_deleted(p, p).lines == v.lines) by {
        reveal(TextV::range_deleted);
    }
    reveal(Ed::did_x);
}

proof fn lemma_range_in_line(v: TextV, a: Pos, b: Pos)
    requires
        placed(v.lines, a),
        placed(v.lines, b),
        a.line == b.line,
        a.col <= b.col,
    ensures
        v.range_text(a, b) == v.lines[a.line].subrange(a.col, b.col),
{
    reveal(clamped);
    reveal(TextV::range_text);
    let m = v.lines[a.line].subrange(a.col, b.col);
    assert(range_lines(v.lines, a, b) =~= seq![m]);
    assert(unlines(seq![m]) == m);
}

/// Chars `[from, to)` of line `l` differ between two texts, and are `c` in the second.
pub open spec fn overwrites(
    a: Seq<Seq<char>>,
    b: Seq<Seq<char>>,
    p: Pos,
    n: int,
    c: char,
) -> bool {
    &&& b.len() == a.len()
    &&& forall|l: int| 0 <= l < a.len() && l != p.line ==> #[trigger] b[l] == a[l]
    &&& b[p.line].len() == a[p.line].len()
    &&& forall|k: int|
        0 <= k < a[p.line].len() ==> #[trigger] b[p.line][k] == if p.col <= k < p.col + n {
            c
        } else {
            a[p.line][k]
        }
}

proof fn lemma_overwritten(t: TextV, p: Pos, c: char, n: int)
    requires
        placed(t.lines, p),
        0 <= n,
        p.col + n <= t.lines[p.line].len(),
    ensures
        overwrites(t.lines, overwritten(t, p, c, n).lines, p, n, c),
    decreases n,
{
    reveal(TextV::char_replaced);
    if n > 0 {
        lemma_overwritten(t, p, c, n - 1);
    }
}

/// r overwrites the count's chars from the cursor on, the cursor on the last of them; where the
/// line has fewer, nothing happens.
pub proof fn law_replace(d: Ed, c: char)
    requires
        at_work(d),
        placed(d.buf().text.lines, d.buf().cursor),
        d.buf().text.group is None,
        d.e.total() >= 1,
    ensures
        ({
            let ls = d.buf().text.lines;
            let p = d.buf().cursor;
            let n = d.e.total();
            let x = d.did_replace(c);
            if p.col + n <= ls[p.line].len() {
                overwrites(ls, x.buf().text.lines, p, n, c) && x.buf().cursor == pos(
                    p.line,
                    p.col + n - 1,
                )
            } else {
                x == d
            }
        }),
{
    reveal(Ed::did_replace);
    reveal(TextV::group_begun);
    reveal(TextV::group_ended);
    reveal(clamped);
    let b = d.buf();
    if b.cursor.col + d.e.total() <= len_at(b.text.lines, b.cursor.line) {
        lemma_overwritten(b.text.group_begun(b.cursor), b.cursor, c, d.e.total());
    }
}

/// ~ flips the count's chars from the cursor on, no further than the end of the line, each by
/// itself, and changes no other.
pub proof fn law_tilde(b: BufV, n: int)
    requires
        placed(b.text.lines, b.cursor),
        0 <= n,
    ensures
        ({
            let ls = b.text.lines;
            let p = b.cursor;
            let w = b.tilded(n).text.lines;
            &&& w.len() == ls.len()
            &&& forall|l: int| 0 <= l < ls.len() && l != p.line ==> #[trigger] w[l] == ls[l]
            &&& w[p.line].len() == ls[p.line].len()
            &&& forall|k: int|
                0 <= k < ls[p.line].len() ==> #[trigger] w[p.line][k] == if p.col <= k < p.col
                    + n {
                    flipped(ls[p.line][k])
                } else {
                    ls[p.line][k]
                }
        }),
    decreases n,
{
    reveal(TextV::char_replaced);
    let ls = b.text.lines;
    let p = b.cursor;
    if n > 0 && b.text.has_char(p) {
        let t = b.text.char_replaced(p, flipped(ls[p.line][p.col]));
        if p.col + 1 < ls[p.line].len() {
            let next = BufV { text: t, cursor: pos(p.line, p.col + 1), ..b };
            law_tilde(next, n - 1);
            assert(b.tilded(n) == next.tilded(n - 1));
        }
    }
}

/// Flipping an ASCII letter gives the letter in the other case, and flipping it again gives it
/// back.
pub proof fn law_flip(c: char)
    ensures
        ascii_lower(c) ==> ascii_upper(flipped(c)) && flipped(c) as int + 32 == c as int,
        ascii_upper(c) ==> ascii_lower(flipped(c)) && flipped(c) as int == c as int + 32,
        ascii_lower(c) || ascii_upper(c) ==> flipped(flipped(c)) == c,
{
}

/// Joining makes one line of as many as the count says, two at least, as far as there are lines.
pub proof fn law_joins_count(t: TextV, line: int, k: int)
    requires
        0 <= line < t.lines.len(),
        0 <= k,
    ensures
        ({
            let left = t.lines.len() - 1 - line;
            let u = joins(t, line, k);
            &&& u.lines.len() == t.lines.len() - if k <= left {
                k
            } else {
                left
            }
            &&& u.lines.take(line) == t.lines.take(line)
            &&& k <= left ==> u.lines.skip(line + 1) == t.lines.skip(line + 1 + k)
            &&& u.lines[line].len() >= t.lines[line].len() && u.lines[line].take(
                t.lines[line].len() as int,
            ) == t.lines[line]
        }),
    decreases k,
{
    reveal(TextV::line_joined);
    if k > 0 && line + 1 < t.lines.len() {
        let u = t.line_joined(line, true);
        law_joins_count(u, line, k - 1);
        assert(u.lines.take(line) =~= t.lines.take(line));
        assert(u.lines.skip(line + 1) =~= t.lines.skip(line + 2));
        if k <= t.lines.len() - 1 - line {
            assert(u.lines.skip(line + k) =~= t.lines.skip(line + 1 + k));
        }
        let j = joins(u, line, k - 1).lines[line];
        lemma_space_prefix(t.lines[line + 1]);
        assert(u.lines[line].take(t.lines[line].len() as int) =~= t.lines[line]);
        assert(j.take(t.lines[line].len() as int) =~= j.take(u.lines[line].len() as int).take(
            t.lines[line].len() as int,
        ));
    } else {
        assert(t.lines[line].take(t.lines[line].len() as int) =~= t.lines[line]);
    }
}

/// A text put several times is that many copies, one after the other.
pub proof fn law_times(s: Seq<char>, n: int, m: int)
    requires
        0 <= n,
        0 <= m,
    ensures
        times(s, 0) == Seq::<char>::empty(),
        times(s, 1) == s,
        times(s, n + m) == times(s, n) + times(s, m),
    decreases m,
{
    reveal_with_fuel(times, 2);
    assert(times(s, 1) =~= s);
    if m > 0 {
        law_times(s, n, m - 1);
        assert(times(s, n + m) =~= times(s, n) + times(s, m));
    } else {
        assert(times(s, n) + times(s, 0) =~= times(s, n));
    }
}

/// p puts a charwise register behind the char under the cursor (on an empty line, in it) and P
/// before it, as often as the count says; the cursor is on the last char put.
pub proof fn law_put_chars(b: BufV, r: RegV, n: int, after: bool)
    requires
        placed(b.text.lines, b.cursor),
        b.text.lines[b.cursor.line].len() > 0 ==> b.cursor.col < b.text.lines[b.cursor.line].len(),
        b.text.group is None,
        r.kind == RegKind::Char,
    ensures
        ({
            let ls = b.text.lines;
            let p = b.cursor;
            let at = if after && ls[p.line].len() > 0 {
                pos(p.line, p.col + 1)
            } else {
                p
            };
            let w = b.pasted(r, n, after);
            let e = after_insert(at, times(r.text, n));
            &&& unlines(w.text.lines) == before(ls, at) + times(r.text, n) + behind(ls, at)
            &&& before(w.text.lines, e) == before(ls, at) + times(r.text, n)
            &&& w.cursor == clamped(w.text.lines, stepped_back(w.text.lines, e), false)
        }),
{
    reveal(TextV::group_begun);
    reveal(TextV::group_ended);
    let g = b.text.group_begun(b.cursor);
    let p = b.cursor;
    let at = if after && b.text.lines[p.line].len() > 0 {
        pos(p.line, p.col + 1)
    } else {
        p
    };
    law_insert_between(g, at, times(r.text, n));
    law_clamp_keeps(g, at);
}

/// p puts the lines of a linewise register below the cursor's line and P above it, the cursor on
/// the first non-blank of the first of them.
pub proof fn law_put_lines(b: BufV, r: RegV, after: bool)
    requires
        0 <= b.cursor.line < b.text.lines.len(),
        b.text.group is None,
        r.kind == RegKind::Line,
    ensures
        ({
            let ls = b.text.lines;
            let at = if after {
                b.cursor.line + 1
            } else {
                b.cursor.line
            };
            let w = b.pasted(r, 1, after);
            &&& w.text.lines == ls.take(at) + lines_of(r.text) + ls.skip(at)
            &&& w.cursor == pos(at, indent_of(lines_of(r.text)[0]))
        }),
{
    reveal(TextV::group_begun);
    reveal(TextV::group_ended);
    let g = b.text.group_begun(b.cursor);
    let at = if after {
        b.cursor.line + 1
    } else {
        b.cursor.line
    };
    let new = lines_of(r.text);
    lemma_split_nonempty(r.text, '\n');
    reveal_with_fuel(lines_times, 2);
    assert(lines_times(new, 1) =~= new);
    law_lines_inserted(g, at, new);
}

/// o opens a line below the cursor's and O one above it, each with the blanks that lead the
/// cursor's line, and typing goes on behind them.
pub proof fn law_open_line(d: Ed, below: bool, k: int)
    requires
        at_work(d),
        0 <= d.buf().cursor.line < d.buf().text.lines.len(),
        ({
            let l = d.buf().text.lines[d.buf().cursor.line];
            &&& 0 <= k <= l.len()
            &&& forall|i: int| 0 <= i < k ==> is_space(#[trigger] l[i])
            &&& k == l.len() || !is_space(l[k])
        }),
    ensures
        ({
            let ls = d.buf().text.lines;
            let x = d.opened_line(below);
            let at = if below {
                d.buf().cursor.line + 1
            } else {
                d.buf().cursor.line
            };
            let indent = ls[d.buf().cursor.line].take(k);
            &&& x.buf().text.lines == ls.take(at).push(indent) + ls.skip(at)
            &&& x.buf().cursor == pos(at, k)
            &&& x.e.mode == Mode::Insert
        }),
{
    let b = d.buf();
    let l = b.text.lines[b.cursor.line];
    lemma_space_prefix(l);
    let j = space_prefix(l);
    if j < k {
        assert(is_space(l[j]));
    } else if j > k {
        assert(is_space(l[k]));
    }
    reveal(TextV::group_begun);
    let at = if below {
        b.cursor.line + 1
    } else {
        b.cursor.line
    };
    law_lines_inserted(b.text.group_begun(b.cursor), at, seq![l.take(k)]);
    reveal(Ed::opened_line);
    assert(b.text.lines.take(at) + seq![l.take(k)] + b.text.lines.skip(at)
        =~= b.text.lines.take(at).push(l.take(k)) + b.text.lines.skip(at));
}

/// The text around the cursor.
pub open spec fn split_at_cursor(b: BufV) -> (Seq<char>, Seq<char>) {
    (before(b.text.lines, b.cursor), behind(b.text.lines, b.cursor))
}

proof fn lemma_put(b: BufV, s: Seq<char>)
    requires
        placed(b.text.lines, b.cursor),
    ensures
        placed(b.put(s).text.lines, b.put(s).cursor),
        split_at_cursor(b.put(s)) == (split_at_cursor(b).0 + s, split_at_cursor(b).1),
{
    law_insert_between(b.text, b.cursor, s);
    law_clamp_keeps(b.text, b.cursor);
}

/// A typed char goes before the cursor. (A closing brace behind spaces alone first takes four of
/// them off.)
pub proof fn law_typed(b: BufV, c: char)
    requires
        placed(b.text.lines, b.cursor),
        c != '}',
    ensures
        split_at_cursor(b.insert_keyed(Key::Char(c))) == (
            split_at_cursor(b).0.push(c),
            split_at_cursor(b).1,
        ),
{
    lemma_put(b, seq![c]);
    assert(split_at_cursor(b).0 + seq![c] =~= split_at_cursor(b).0.push(c));
}

/// A closing brace goes before the cursor, where there are four spaces or more and nothing else
/// before it on the line in place of the last four.
pub proof fn law_typed_brace(b: BufV)
    requires
        placed(b.text.lines, b.cursor),
    ensures
        ({
            let p = b.cursor;
            let l = b.text.lines[p.line];
            let lone = p.col >= 4 && forall|i: int| 0 <= i < p.col ==> #[trigger] l[i] == ' ';
            let from = if lone {
                pos(p.line, p.col - 4)
            } else {
                p
            };
            split_at_cursor(b.insert_keyed(Key::Char('}'))) == (
                before(b.text.lines, from).push('}'),
                split_at_cursor(b).1,
            )
        }),
{
    let p = b.cursor;
    let l = b.text.lines[p.line];
    lemma_put(b, seq!['}']);
    assert(split_at_cursor(b).0 + seq!['}'] =~= split_at_cursor(b).0.push('}'));
    if p.col >= 4 {
        let from = pos(p.line, p.col - 4);
        let c = BufV { text: b.text.range_deleted(from, p), cursor: from, ..b };
        lemma_cut_before(b, from);
        lemma_put(c, seq!['}']);
        assert(split_at_cursor(c).0 + seq!['}'] =~= split_at_cursor(c).0.push('}'));
    }
}

/// Taking out what stands between an earlier place and the cursor.
pub proof fn lemma_cut_before(b: BufV, from: Pos)
    requires
        placed(b.text.lines, b.cursor),
        placed(b.text.lines, from),
        pos_le(from, b.cursor),
    ensures
        ({
            let w = b.text.range_deleted(from, b.cursor).lines;
            &&& placed(w, from)
            &&& before(w, from) == before(b.text.lines, from)
            &&& behind(w, from) == behind(b.text.lines, b.cursor)
        }),
{
    reveal(clamped);
    reveal(TextV::range_deleted);
    let ls = b.text.lines;
    let p = b.cursor;
    let w = b.text.range_deleted(from, p).lines;
    if from != p {
        assert(w[from.line] == ls[from.line].take(from.col) + ls[p.line].skip(p.col));
        assert(w.take(from.line) =~= ls.take(from.line));
        assert(w[from.line].take(from.col) =~= ls[from.line].take(from.col));
        assert(w[from.line].skip(from.col) =~= ls[p.line].skip(p.col));
        assert(w.skip(from.line + 1) =~= ls.skip(p.line + 1));
    }
}

/// Backspace takes out the one char before the cursor, a line break at the start of a line; at
/// the start of the text there is none.
pub proof fn law_backspace(b: BufV)
    requires
        placed(b.text.lines, b.cursor),
    ensures
        ({
            let w = b.insert_keyed(Key::Backspace);
            let p = b.cursor;
            if p == pos(0, 0) {
                w.text == b.text && w.cursor == p
            } else {
                let c = if p.col > 0 {
                    b.text.lines[p.line][p.col - 1]
                } else {
                    '\n'
                };
                split_at_cursor(b) == (split_at_cursor(w).0.push(c), split_at_cursor(w).1)
            }
        }),
{
    let p = b.cursor;
    let ls = b.text.lines;
    if p != pos(0, 0) {
        let q = stepped_back(ls, p);
        lemma_cut_before(b, q);
        law_range_text(b.text, q, p);
        lemma_step_text(b.text, q, p);
    }
}

/// What stands between a place and the one a step before it.
proof fn lemma_step_text(v: TextV, q: Pos, p: Pos)
    requires
        placed(v.lines, p),
        p != pos(0, 0),
        q == stepped_back(v.lines, p),
    ensures
        before(v.lines, p) == before(v.lines, q).push(
            if p.col > 0 {
                v.lines[p.line][p.col - 1]
            } else {
                '\n'
            },
        ),
{
    law_range_text(v, q, p);
    let c = if p.col > 0 {
        v.lines[p.line][p.col - 1]
    } else {
        '\n'
    };
    if p.col > 0 {
        lemma_range_in_line(v, q, p);
        assert(v.lines[p.line].subrange(q.col, p.col) =~= seq![c]);
    } else {
        reveal(clamped);
        reveal(TextV::range_text);
        let e = Seq::<char>::empty();
        let r = range_lines(v.lines, q, p);
        assert(r[0] =~= e && r[1] =~= e);
        assert(r =~= seq![e, e]);
        reveal_with_fuel(join_with, 3);
        assert(r.drop_last() =~= seq![e]);
        assert(unlines(r) =~= seq![c]);
    }
    assert(before(v.lines, q) + seq![c] =~= before(v.lines, q).push(c));
}

/// Delete takes out the one char behind the cursor, a line break at the end of a line; at the
/// end of the text there is none.
pub proof fn law_delete_key(b: BufV)
    requires
        placed(b.text.lines, b.cursor),
    ensures
        ({
            let w = b.insert_keyed(Key::Delete);
            let p = b.cursor;
            let ls = b.text.lines;
            if p == pos(ls.len() - 1, ls[ls.len() - 1].len() as int) {
                w == b
            } else {
                let next = if p.col < ls[p.line].len() {
                    pos(p.line, p.col + 1)
                } else {
                    pos(p.line + 1, 0)
                };
                w.cursor == p && split_at_cursor(w) == (split_at_cursor(b).0, behind(ls, next))
            }
        }),
{
    let p = b.cursor;
    let ls = b.text.lines;
    let next = advanced(ls, p);
    if next != p {
        let c = BufV { cursor: next, ..b };
        lemma_cut_before(c, p);
    }
}

/// Enter puts a line break before the cursor and then the blanks that lead the line, with four
/// spaces more where the last non-blank before the cursor, at `j`, is an opening bracket.
pub proof fn law_enter(b: BufV, k: int, j: int)
    requires
        placed(b.text.lines, b.cursor),
        ({
            let head = b.text.lines[b.cursor.line].take(b.cursor.col);
            &&& 0 <= k <= head.len() && (k == head.len() || !is_space(head[k]))
            &&& forall|i: int| 0 <= i < k ==> is_space(#[trigger] head[i])
            &&& -1 <= j < head.len() && (j == -1 || !is_space(head[j]))
            &&& forall|i: int| j < i < head.len() ==> is_space(#[trigger] head[i])
        }),
    ensures
        ({
            let l = b.text.lines[b.cursor.line];
            let more = if j >= 0 && (l[j] == '{' || l[j] == '(' || l[j] == '[') {
                seq![' ', ' ', ' ', ' ']
            } else {
                Seq::<char>::empty()
            };
            split_at_cursor(b.insert_keyed(Key::Enter)) == (
                split_at_cursor(b).0 + (seq!['\n'] + l.take(k) + more),
                split_at_cursor(b).1,
            )
        }),
{
    let l = b.text.lines[b.cursor.line];
    let head = l.take(b.cursor.col);
    lemma_put(b, break_text(head));
    lemma_space_prefix(head);
    lemma_blank_end(head);
    let i = space_prefix(head);
    if i < k {
        assert(is_space(head[i]));
    } else if i > k {
        assert(is_space(head[k]));
    }
    let n = head.len() - space_suffix(head);
    if j + 1 < n {
        assert(is_space(head[n - 1]));
    } else if j >= n {
        assert(is_space(head[j]));
    }
    assert(head.take(k) =~= l.take(k));
}

proof fn lemma_blank_end(s: Seq<char>)
    ensures
        0 <= space_suffix(s) <= s.len(),
        forall|i: int| s.len() - space_suffix(s) <= i < s.len() ==> is_space(#[trigger] s[i]),
        space_suffix(s) < s.len() ==> !is_space(s[s.len() - space_suffix(s) - 1]),
    decreases s.len(),
{
    if s.len() > 0 && is_space(s.last()) {
        let t = s.drop_last();
        lemma_blank_end(t);
        assert forall|i: int| s.len() - space_suffix(s) <= i < s.len() implies is_space(
            #[trigger] s[i],
        ) by {
            if i < t.len() {
                assert(t[i] == s[i]);
            }
        }
    }
}

/// Tab puts four spaces before the cursor.
pub proof fn law_tab(b: BufV)
    requires
        placed(b.text.lines, b.cursor),
    ensures
        split_at_cursor(b.insert_keyed(Key::Tab)) == (
            split_at_cursor(b).0 + seq![' ', ' ', ' ', ' '],
            split_at_cursor(b).1,
        ),
{
    lemma_put(b, seq![' ', ' ', ' ', ' ']);
}

/// Ctrl-u takes out all that stands before the cursor on its line.
pub proof fn law_erase_to_start(b: BufV)
    requires
        placed(b.text.lines, b.cursor),
    ensures
        ({
            let w = b.insert_keyed(Key::Ctrl('u'));
            w.cursor == pos(b.cursor.line, 0) && split_at_cursor(w) == (
                before(b.text.lines, pos(b.cursor.line, 0)),
                split_at_cursor(b).1,
            )
        }),
{
    lemma_cut_before(b, pos(b.cursor.line, 0));
}

/// In replace mode a char goes in place of the one at the cursor, which moves on; at the end of a
/// line it is inserted. Backspace moves back and changes nothing.
pub proof fn law_replace_mode(b: BufV, c: char)
    requires
        placed(b.text.lines, b.cursor),
    ensures
        ({
            let p = b.cursor;
            let l = b.text.lines[p.line];
            let w = b.replace_keyed(Key::Char(c));
            let back = b.replace_keyed(Key::Backspace);
            &&& p.col < l.len() ==> w.text.lines == b.text.lines.update(p.line, l.update(p.col, c))
                && w.cursor == pos(p.line, p.col + 1)
            &&& p.col == l.len() ==> split_at_cursor(w) == (
                split_at_cursor(b).0.push(c),
                split_at_cursor(b).1,
            )
            &&& back.text == b.text && back.cursor.line == p.line && (back.cursor.col == p.col - 1
                || p.col == 0 && back.cursor.col == 0)
        }),
{
    reveal(TextV::char_replaced);
    lemma_put(b, seq![c]);
    assert(split_at_cursor(b).0 + seq![c] =~= split_at_cursor(b).0.push(c));
}

/// While typing, the arrows, Home and End move the cursor within the text, which stays; up and
/// down keep the column aimed at.
pub proof fn law_edit_arrows(b: BufV)
    requires
        placed(b.text.lines, b.cursor),
        0 <= b.desired_col,
    ensures
        ({
            let p = b.cursor;
            let ls = b.text.lines;
            let len = ls[p.line].len() as int;
            let (l, r) = (b.insert_keyed(Key::Left), b.insert_keyed(Key::Right));
            let (u, d) = (b.insert_keyed(Key::Up), b.insert_keyed(Key::Down));
            let (h, e) = (b.insert_keyed(Key::Home), b.insert_keyed(Key::End));
            &&& l.cursor == pos(
                p.line,
                if p.col > 0 {
                    p.col - 1
                } else {
                    0
                },
            )
            &&& r.cursor == pos(
                p.line,
                if p.col < len {
                    p.col + 1
                } else {
                    len
                },
            )
            &&& u.cursor.line == if p.line > 0 {
                p.line - 1
            } else {
                0
            }
            &&& d.cursor.line == if p.line + 1 < ls.len() {
                p.line + 1
            } else {
                p.line
            }
            &&& u.cursor.col == b.desired_col || u.cursor.col == ls[u.cursor.line].len()
                && u.cursor.col < b.desired_col
            &&& d.cursor.col == b.desired_col || d.cursor.col == ls[d.cursor.line].len()
                && d.cursor.col < b.desired_col
            &&& h.cursor == pos(p.line, 0) && e.cursor == pos(p.line, len)
            &&& u.desired_col == b.desired_col && d.desired_col == b.desired_col
            &&& l.text == b.text && r.text == b.text && u.text == b.text && d.text == b.text
                && h.text == b.text && e.text == b.text
        }),
{
    reveal(clamped);
}

/// Leaving insert mode takes the cursor one char back, not off the line, and keeps the text.
pub proof fn law_insert_left(b: BufV)
    requires
        placed(b.text.lines, b.cursor),
    ensures
        ({
            let w = b.left_insert();
            &&& w.text.lines == b.text.lines
            &&& w.cursor == pos(
                b.cursor.line,
                if b.cursor.col > 0 {
                    b.cursor.col - 1
                } else {
                    0
                },
            )
        }),
{
    reveal(clamped);
    reveal(TextV::group_ended);
}

/// Over lines, > and < shift each of them and no other.
pub proof fn law_lines_shifted(d: Ed, first: int, last: int, deeper: bool)
    requires
        at_work(d),
        d.buf().text.group is None,
        0 <= first <= last < d.buf().text.lines.len(),
    ensures
        ({
            let ls = d.buf().text.lines;
            let x = d.linewise(
                if deeper {
                    Op::Indent
                } else {
                    Op::Dedent
                },
                first,
                last,
            );
            let w = x.buf().text.lines;
            &&& w.len() == ls.len()
            &&& forall|l: int|
                0 <= l < ls.len() ==> #[trigger] w[l] == if first <= l <= last {
                    line_shifted(ls[l], deeper)
                } else {
                    ls[l]
                }
            &&& x.s.registers == d.s.registers
        }),
{
    reveal(TextV::group_begun);
    reveal(TextV::group_ended);
    reveal(Ed::linewise);
    lemma_shift_lines(
        d.buf().text.group_begun(d.buf().cursor),
        first,
        deeper,
        last - first + 1,
    );
}

/// A text object selected in visual mode: from its first char to its last.
pub proof fn law_object_selected(d: Ed, obj: char, around: bool)
    requires
        at_work(d),
        d.e.mode is Visual,
        object_span(d.buf().text.lines, d.buf().cursor, obj, around) is Some,
    ensures
        ({
            let ls = d.buf().text.lines;
            let (a, b) = object_span(ls, d.buf().cursor, obj, around)->0;
            let x = d.did_object(obj, around);
            &&& x.e.anchor == a
            &&& x.buf().text == d.buf().text
            &&& 0 <= b.line < ls.len() && 0 < b.col <= ls[b.line].len() ==> x.buf().cursor == pos(
                b.line,
                b.col - 1,
            )
        }),
{
    reveal(Ed::did_object);
    reveal(clamped);
}

} // verus!
