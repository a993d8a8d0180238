//! Laws of the motion keys: where each of them leads.

use vstd::prelude::*;

use crate::rvim::buffer::{clamped, pos, Pos};
use crate::rvim::keys::{Await, Key, MotionKind, Op};
use crate::rvim::motion::{bracket_partner, indent_of, para_after, para_before};
use crate::rvim::motion_laws::{
    law_find_backward, law_find_forward, lemma_tally_split, placed, tally,
};
use crate::rvim::state::BufV;
use crate::rvim::vim::moves::{find_flipped, nth_char, target_of, word_step, word_steps, WordMove};
use crate::rvim::vim::{Ed, EngV};
use crate::text::is_space;

verus! {

/// The cursor is on a char of the text, or on an empty line.
pub open spec fn on_char(b: BufV) -> bool {
    let ls = b.text.lines;
    0 <= b.cursor.line < ls.len() && 0 <= b.cursor.col && (b.cursor.col < ls[b.cursor.line].len()
        || b.cursor.col == 0)
}

/// h and l go the count's chars left and right, not off the line: under an operator to its end,
/// otherwise to its last char.
pub proof fn law_left_right(e: EngV, b: BufV)
    requires
        on_char(b),
        e.total() >= 1,
    ensures
        ({
            let p = b.cursor;
            let n = e.total();
            let len = b.text.lines[p.line].len() as int;
            let edge = if e.op is Some {
                len
            } else if len == 0 {
                0
            } else {
                len - 1
            };
            &&& target_of(e, b, Key::Char('h')) matches Some((q, k, set)) && q.line == p.line
                && k == MotionKind::Exclusive && set && (q.col == p.col - n || q.col == 0 && p.col
                < n)
            &&& target_of(e, b, Key::Char('l')) matches Some((q, k, set)) && q.line == p.line
                && k == MotionKind::Exclusive && set && (q.col == p.col + n && q.col <= edge
                || q.col == edge && p.col + n > edge)
            &&& target_of(e, b, Key::Left) == target_of(e, b, Key::Char('h'))
            &&& target_of(e, b, Key::Right) == target_of(e, b, Key::Char('l'))
        }),
{
    reveal(target_of);
}

/// j and k go the count's lines down and up, not off the text, and take whole lines; they aim at
/// the column remembered.
pub proof fn law_down_up(e: EngV, b: BufV)
    requires
        on_char(b),
        e.total() >= 1,
    ensures
        ({
            let p = b.cursor;
            let n = e.total();
            let last = b.text.lines.len() - 1;
            &&& target_of(e, b, Key::Char('j')) matches Some((q, k, set)) && q.col == b.desired_col
                && k == MotionKind::Linewise && !set && (q.line == p.line + n && q.line <= last
                || q.line == last && p.line + n > last)
            &&& target_of(e, b, Key::Char('k')) matches Some((q, k, set)) && q.col == b.desired_col
                && k == MotionKind::Linewise && !set && (q.line == p.line - n || q.line == 0
                && p.line < n)
            &&& target_of(e, b, Key::Down) == target_of(e, b, Key::Char('j'))
            &&& target_of(e, b, Key::Up) == target_of(e, b, Key::Char('k'))
        }),
{
    reveal(target_of);
}

/// 0 goes to the start of the line; $ to the last char of the line a count less one further
/// down, and takes it in.
pub proof fn law_line_ends(e: EngV, b: BufV)
    requires
        on_char(b),
        e.total() >= 1,
    ensures
        ({
            let p = b.cursor;
            let n = e.total();
            let last = b.text.lines.len() - 1;
            &&& target_of(e, b, Key::Char('0')) == Some(
                (pos(p.line, 0), MotionKind::Exclusive, true),
            )
            &&& target_of(e, b, Key::Home) == target_of(e, b, Key::Char('0'))
            &&& target_of(e, b, Key::Char('$')) matches Some((q, k, set)) && k
                == MotionKind::Inclusive && set && (q.line == p.line + n - 1 && q.line <= last
                || q.line == last && p.line + n - 1 > last) && (q.col + 1
                == b.text.lines[q.line].len() || q.col == 0 && b.text.lines[q.line].len() == 0)
            &&& target_of(e, b, Key::End) == target_of(e, b, Key::Char('$'))
        }),
{
    reveal(target_of);
}

/// G goes to the line the count names, counted from one, or to the last; on its first non-blank,
/// taking whole lines.
pub proof fn law_go_line(e: EngV, b: BufV)
    requires
        on_char(b),
        e.total() >= 1,
    ensures
        ({
            let len = b.text.lines.len();
            target_of(e, b, Key::Char('G')) matches Some((q, k, set)) && k == MotionKind::Linewise
                && set && (if e.counted() && e.total() <= len {
                q.line == e.total() - 1
            } else {
                q.line == len - 1
            }) && q.col == indent_of(b.text.lines[q.line])
        }),
{
    reveal(target_of);
}

/// cw on a word goes where ce goes, and takes in the char it ends on; on a blank it goes as w
/// does. The same with W.
pub proof fn law_change_word(e: EngV, b: BufV, big: bool)
    requires
        on_char(b),
        b.text.lines[b.cursor.line].len() > 0,
        e.op == Some(Op::Change),
    ensures
        ({
            let w = if big {
                'W'
            } else {
                'w'
            };
            let e_key = if big {
                'E'
            } else {
                'e'
            };
            !is_space(b.text.lines[b.cursor.line][b.cursor.col]) ==> target_of(
                e,
                b,
                Key::Char(w),
            ) == target_of(e, b, Key::Char(e_key))
        }),
{
    reveal(target_of);
}

/// Under an operator w stays on the cursor's line, unless that is empty: it goes no further than
/// its end.
pub proof fn law_operator_word_stays(e: EngV, b: BufV, big: bool)
    requires
        on_char(b),
        b.text.lines[b.cursor.line].len() > 0,
        e.op is Some,
        e.op != Some(Op::Change),
    ensures
        ({
            let w = if big {
                'W'
            } else {
                'w'
            };
            let there = word_steps(b.text.lines, b.cursor, big, WordMove::Next, e.total());
            target_of(e, b, Key::Char(w)) matches Some((q, k, set)) && k == MotionKind::Exclusive
                && (if there.line > b.cursor.line {
                q == pos(b.cursor.line, b.text.lines[b.cursor.line].len() as int)
            } else {
                q == there
            })
        }),
{
    reveal(target_of);
}

/// A count repeats a word motion.
pub proof fn law_word_counts(ls: Seq<Seq<char>>, p: Pos, big: bool, m: WordMove, n: int, k: int)
    requires
        0 <= n,
        0 <= k,
    ensures
        word_steps(ls, p, big, m, 1) == word_step(ls, p, big, m),
        word_steps(ls, p, big, m, n + k) == word_steps(
            ls,
            word_steps(ls, p, big, m, n),
            big,
            m,
            k,
        ),
    decreases k,
{
    reveal_with_fuel(word_steps, 2);
    if k > 0 {
        law_word_counts(ls, p, big, m, n, k - 1);
    }
}

/// f stops on the count's target after the cursor, t just before it, F on the count's before the
/// cursor, T just behind it; where there are too few, nothing moves.
pub proof fn law_find(d: Ed, kind: char, c: char)
    requires
        d.has(),
        on_char(d.buf()),
        d.buf().text.lines[d.buf().cursor.line].len() > 0,
        d.e.total() >= 1,
        kind == 'f' || kind == 't' || kind == 'F' || kind == 'T',
    ensures
        ({
            let p = d.buf().cursor;
            let s = d.buf().text.lines[p.line];
            let n = d.e.total();
            let x = d.did_find(kind, c);
            if kind == 'f' || kind == 't' {
                if tally(s, c, p.col + 1, s.len() as int) < n {
                    x == d.reset()
                } else {
                    exists|i: int|
                        p.col < i < s.len() && s[i] == c && #[trigger] tally(s, c, p.col + 1, i)
                            == n - 1 && x == d.moved(
                            pos(
                                p.line,
                                if kind == 'f' {
                                    i
                                } else {
                                    i - 1
                                },
                            ),
                            MotionKind::Inclusive,
                            true,
                        )
                }
            } else {
                if tally(s, c, 0, p.col) < n {
                    x == d.reset()
                } else {
                    exists|i: int|
                        0 <= i < p.col && s[i] == c && #[trigger] tally(s, c, i + 1, p.col) == n - 1
                            && x == d.moved(
                            pos(
                                p.line,
                                if kind == 'F' {
                                    i
                                } else {
                                    i + 1
                                },
                            ),
                            MotionKind::Exclusive,
                            true,
                        )
                }
            }
        }),
{
    reveal(Ed::did_find);
    let p = d.buf().cursor;
    let s = d.buf().text.lines[p.line];
    let n = d.e.total();
    if kind == 'f' || kind == 't' {
        law_find_forward(s, c, p.col, n);
        if let Some(i) = nth_char(s, c, p.col, true, n) {
            lemma_enough(s, c, p.col + 1, i, s.len() as int);
        }
    } else {
        law_find_backward(s, c, p.col, n);
        if let Some(i) = nth_char(s, c, p.col, false, n) {
            lemma_enough(s, c, 0, i, p.col);
        }
    }
}

/// What is counted on both sides of a target, and the target.
proof fn lemma_enough(s: Seq<char>, c: char, i: int, k: int, j: int)
    requires
        i <= k < j,
        s[k] == c,
    ensures
        tally(s, c, i, j) == tally(s, c, i, k) + 1 + tally(s, c, k + 1, j),
        tally(s, c, i, k) >= 0,
        tally(s, c, k + 1, j) >= 0,
{
    lemma_tally_split(s, c, i, k, j);
    lemma_tally_split(s, c, k, k + 1, j);
    lemma_tally_split(s, c, i, i, k);
    assert(tally(s, c, k, k + 1) == 1 + tally(s, c, k, k));
}

/// , looks the other way round for what ; looks for, and the other way round twice is the same
/// way again.
pub proof fn law_find_flips(kind: char)
    requires
        kind == 'f' || kind == 't' || kind == 'F' || kind == 'T',
    ensures
        find_flipped(find_flipped(kind)) == kind,
        (kind == 'f' || kind == 't') <==> (find_flipped(kind) == 'F' || find_flipped(kind) == 'T'),
        (kind == 'f' || kind == 'F') <==> (find_flipped(kind) == 'f' || find_flipped(kind) == 'F'),
{
}

/// The keys of the word motions, the paragraphs, the indent and the brackets.
pub proof fn law_motion_keys(e: EngV, b: BufV, big: bool)
    requires
        on_char(b),
    ensures
        ({
            let ls = b.text.lines;
            let p = b.cursor;
            let n = e.total();
            let (back, end) = if big {
                ('B', 'E')
            } else {
                ('b', 'e')
            };
            &&& target_of(e, b, Key::Char(back)) == Some(
                (word_steps(ls, p, big, WordMove::Back, n), MotionKind::Exclusive, true),
            )
            &&& target_of(e, b, Key::Char(end)) == Some(
                (word_steps(ls, p, big, WordMove::End, n), MotionKind::Inclusive, true),
            )
            &&& target_of(e, b, Key::Char('{')) == Some(
                (para_before(ls, p.line, n), MotionKind::Exclusive, true),
            )
            &&& target_of(e, b, Key::Char('}')) == Some(
                (para_after(ls, p.line, n), MotionKind::Exclusive, true),
            )
            &&& target_of(e, b, Key::Char('^')) == Some(
                (pos(p.line, indent_of(ls[p.line])), MotionKind::Exclusive, true),
            )
            &&& bracket_partner(ls, p) matches Some(q) ==> target_of(e, b, Key::Char('%')) == Some(
                (q, MotionKind::Inclusive, true),
            )
            &&& e.op is None ==> target_of(
                e,
                b,
                Key::Char(
                    if big {
                        'W'
                    } else {
                        'w'
                    },
                ),
            ) == Some((word_steps(ls, p, big, WordMove::Next, n), MotionKind::Exclusive, true))
        }),
{
    reveal(target_of);
}

/// f, F, t and T wait for their target; ; finds it again and , the other way.
pub proof fn law_find_keys(d: Ed, kind: char, c: char)
    requires
        d.has(),
        kind == 'f' || kind == 'F' || kind == 't' || kind == 'T',
    ensures
        d.motioned(Key::Char(kind)) matches Some(x) && x.e.awaiting == Await::Find(kind) && x.s
            == d.s,
        d.e.last_find == Some((kind, c)) ==> d.motioned(Key::Char(';')) == Some(
            d.did_find(kind, c),
        ) && d.motioned(Key::Char(',')) == Some(d.did_find(find_flipped(kind), c)),
        d.e.last_find is None ==> d.motioned(Key::Char(';')) == Some(d.reset()),
{
    reveal(Ed::motioned);
    reveal(target_of);
}

/// A motion without an operator takes the cursor to its target and leaves the text; with one,
/// the operator takes what lies between.
pub proof fn law_moved(d: Ed, p: Pos, kind: MotionKind, set: bool)
    requires
        d.has(),
        0 <= d.s.active(),
        placed(d.buf().text.lines, p),
        p.col < d.buf().text.lines[p.line].len(),
    ensures
        d.e.op is None ==> ({
            let x = d.moved(p, kind, set);
            &&& x.buf().cursor == p && x.buf().text == d.buf().text
            &&& x.buf().desired_col == if set {
                p.col
            } else {
                d.buf().desired_col
            }
            &&& x.s.registers == d.s.registers
        }),
        d.e.op is Some ==> d.moved(p, kind, set).s == d.operated(d.buf().cursor, p, kind).s,
{
    reveal(Ed::moved);
    reveal(clamped);
}

} // verus!
