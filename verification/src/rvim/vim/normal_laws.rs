//! Laws of normal mode: counts, doubled operators, marks, macros and the ways into insert mode.

use vstd::prelude::*;

use crate::rvim::buffer::{clamped, pos, TextV};
use crate::rvim::keys::{Await, Key, Mode, MotionKind, Op, VisualKind, MAX_COUNT};
use crate::rvim::motion::indent_of;
use crate::rvim::motion_laws::placed;
use crate::rvim::pattern::found;
use crate::rvim::range_laws::{before, behind, law_delete_leaves, law_lines_deleted};
use crate::rvim::state::RegKind;
use crate::rvim::vim::operator_laws::{at_work, captured, law_joins_count, law_motion_range};
use crate::rvim::vim::{Ed, EngV};
use crate::text::{decimal_of, unlines};
use crate::unicode::ascii_lower;

verus! {

/// Digits typed one after the other, with no operator pending.
pub open spec fn digits_typed(e: EngV, s: Seq<char>) -> EngV
    decreases s.len(),
{
    if s.len() == 0 {
        e
    } else {
        digits_typed(e, s.drop_last()).digit_typed(s.last())
    }
}

/// The digits of a number make it the count; behind an operator, the count of its motion.
pub proof fn law_count_typed(e: EngV, n: nat)
    requires
        1 <= n <= MAX_COUNT,
        e.count == 0,
        e.opcount == 0,
    ensures
        ({
            let f = digits_typed(e, decimal_of(n));
            &&& f.op == e.op
            &&& e.op is None ==> f.count == n && f.opcount == 0
            &&& e.op is Some ==> f.opcount == n && f.count == 0
        }),
    decreases n,
{
    let t = decimal_of(n);
    reveal_with_fuel(digits_typed, 2);
    if n >= 10 {
        law_count_typed(e, n / 10);
        assert(t.drop_last() =~= decimal_of(n / 10));
    } else {
        assert(t.drop_last() =~= Seq::empty());
    }
}

/// The counts before and behind an operator multiply, and none given is one; there is a ceiling.
pub proof fn law_counts_multiply(e: EngV, n: int, m: int)
    requires
        1 <= n,
        1 <= m,
        n * m <= MAX_COUNT,
    ensures
        (EngV { count: n, opcount: m, ..e }).total() == n * m,
        (EngV { count: n, opcount: 0, ..e }).total() == n,
        (EngV { count: 0, opcount: m, ..e }).total() == m,
        (EngV { count: 0, opcount: 0, ..e }).total() == 1,
{
    assert(n <= n * m && m <= n * m) by (nonlinear_arith)
        requires
            1 <= n,
            1 <= m,
    ;
    assert(n * 1 == n && 1 * m == m && 1int * 1 == 1);
}

/// A doubled operator takes the count's lines from the cursor's on, as far as there are any.
pub proof fn law_doubled(d: Ed)
    requires
        at_work(d),
        d.e.op == Some(Op::Delete),
        0 <= d.buf().cursor.line < d.buf().text.lines.len(),
        d.e.total() >= 1,
    ensures
        ({
            let ls = d.buf().text.lines;
            let first = d.buf().cursor.line;
            let after = if first + d.e.total() <= ls.len() {
                first + d.e.total()
            } else {
                ls.len() as int
            };
            let x = d.doubled();
            &&& x.buf().text.lines == if first == 0 && after == ls.len() {
                seq![Seq::<char>::empty()]
            } else {
                ls.take(first) + ls.skip(after)
            }
            &&& captured(x, unlines(ls.subrange(first, after)), RegKind::Line)
        }),
{
    let ls = d.buf().text.lines;
    let first = d.buf().cursor.line;
    let after = if first + d.e.total() <= ls.len() {
        first + d.e.total()
    } else {
        ls.len() as int
    };
    law_lines_deleted(d.buf().text, first, after - 1);
    reveal(Ed::doubled);
    reveal(Ed::linewise);
}

/// D takes out all from the cursor to the end of its line, and nothing else.
pub proof fn law_delete_to_end(d: Ed)
    requires
        at_work(d),
        placed(d.buf().text.lines, d.buf().cursor),
    ensures
        ({
            let ls = d.buf().text.lines;
            let p = d.buf().cursor;
            let x = d.op_to_eol(Op::Delete);
            unlines(x.buf().text.lines) == before(ls, p) + behind(
                ls,
                pos(p.line, ls[p.line].len() as int),
            )
        }),
{
    let ls = d.buf().text.lines;
    let p = d.buf().cursor;
    law_motion_range(d.with_op(Op::Delete), p, pos(p.line, ls[p.line].len() as int));
    reveal(Ed::op_to_eol);
}

/// s takes out the count's chars from the cursor on, no further than the end of the line, and
/// typing goes on there.
pub proof fn law_substitute_chars(d: Ed)
    requires
        at_work(d),
        placed(d.buf().text.lines, d.buf().cursor),
        d.e.total() >= 1,
    ensures
        ({
            let ls = d.buf().text.lines;
            let p = d.buf().cursor;
            let len = ls[p.line].len() as int;
            let to = if p.col + d.e.total() <= len {
                p.col + d.e.total()
            } else {
                len
            };
            let x = d.did_s();
            &&& unlines(x.buf().text.lines) == before(ls, p) + behind(ls, pos(p.line, to))
            &&& x.buf().cursor == p
            &&& x.e.mode == Mode::Insert
        }),
{
    let v = d.buf().text;
    let p = d.buf().cursor;
    let len = v.lines[p.line].len() as int;
    let to = if p.col + d.e.total() <= len {
        p.col + d.e.total()
    } else {
        len
    };
    reveal(TextV::group_begun);
    let g = v.group_begun(p);
    assert(g.lines == v.lines);
    law_delete_leaves(g, p, pos(p.line, to));
    reveal(Ed::did_s);
}

/// i types before the cursor's char and a behind it, I before the first non-blank of the line
/// and A behind its last char; the text stays as it is.
pub proof fn law_insert_places(d: Ed, c: char)
    requires
        at_work(d),
        placed(d.buf().text.lines, d.buf().cursor),
        c == 'i' || c == 'a' || c == 'I' || c == 'A',
    ensures
        ({
            let ls = d.buf().text.lines;
            let p = d.buf().cursor;
            let len = ls[p.line].len() as int;
            let x = d.insert_at(c);
            &&& x.buf().text.lines == ls
            &&& x.e.mode == Mode::Insert
            &&& x.buf().cursor.line == p.line
            &&& c == 'i' ==> x.buf().cursor.col == p.col
            &&& c == 'a' && len > 0 ==> x.buf().cursor.col == p.col + 1
            &&& c == 'a' && len == 0 ==> x.buf().cursor.col == p.col
            &&& c == 'I' ==> x.buf().cursor.col == indent_of(ls[p.line])
            &&& c == 'A' ==> x.buf().cursor.col == len
        }),
{
    reveal(TextV::group_begun);
    reveal(Ed::insert_at);
}

/// A mark set is where a backtick leads back to, and a quote to its line's first non-blank;
/// other marks stay.
pub proof fn law_marks(d: Ed, c: char, other: char)
    requires
        at_work(d),
        placed(d.buf().text.lines, d.buf().cursor),
        d.buf().cursor.line <= usize::MAX,
        d.buf().cursor.col <= usize::MAX,
        ascii_lower(c),
        other != c,
    ensures
        ({
            let m = d.marked(Key::Char(c)).buf().marks;
            &&& m.contains_key(c) && m[c]@ == d.buf().cursor
            &&& m.contains_key(other) == d.buf().marks.contains_key(other)
            &&& m[other] == d.buf().marks[other]
            &&& d.marked(Key::Char(c)).buf().text == d.buf().text
        }),
{
}

/// Going to a mark: exactly behind a backtick, or to its line.
pub proof fn law_mark_jump(d: Ed, c: char)
    requires
        at_work(d),
        d.buf().marks.contains_key(c),
        placed(d.buf().text.lines, d.buf().marks[c]@),
        d.e.pending.len() > 0,
    ensures
        ({
            let ls = d.buf().text.lines;
            let p = d.buf().marks[c]@;
            let x = d.mark_jumped(Key::Char(c));
            &&& d.e.pending.last() == '`' ==> x == d.moved(
                clamped(ls, p, false),
                MotionKind::Exclusive,
                true,
            )
            &&& d.e.pending.last() != '`' ==> x == d.moved(
                pos(p.line, indent_of(ls[p.line])),
                MotionKind::Linewise,
                true,
            )
        }),
{
    reveal(Ed::mark_jumped);
}

/// gg goes to the line the count names, counted from one, or to the first; to its first
/// non-blank, taking whole lines.
pub proof fn law_go_first(d: Ed)
    requires
        at_work(d),
        d.buf().text.lines.len() > 0,
        d.e.total() >= 1,
    ensures
        ({
            let ls = d.buf().text.lines;
            let n = if !d.e.counted() {
                1
            } else if d.e.total() <= ls.len() {
                d.e.total()
            } else {
                ls.len() as int
            };
            d.g_keyed(Key::Char('g')) == d.moved(
                pos(n - 1, indent_of(ls[n - 1])),
                MotionKind::Linewise,
                true,
            )
        }),
{
    reveal(Ed::g_keyed);
}

/// Keys pressed while a macro is recorded.
pub open spec fn keys_recorded(e: EngV, keys: Seq<Key>) -> EngV
    decreases keys.len(),
{
    if keys.len() == 0 {
        e
    } else {
        keys_recorded(e, keys.drop_last()).recorded(keys.last())
    }
}

proof fn lemma_keys_recorded(e: EngV, c: char, old_keys: Seq<Key>, keys: Seq<Key>)
    requires
        e.recording == Some((c, old_keys)),
        !e.replaying,
    ensures
        keys_recorded(e, keys) == (EngV { recording: Some((c, old_keys + keys)), ..e }),
    decreases keys.len(),
{
    reveal(EngV::recorded);
    if keys.len() > 0 {
        lemma_keys_recorded(e, c, old_keys, keys.drop_last());
        assert((old_keys + keys.drop_last()).push(keys.last()) =~= old_keys + keys);
    } else {
        assert(old_keys + keys =~= old_keys);
    }
}

/// A macro is the keys pressed from its beginning to the q that ends it, without that; into a
/// capital letter they go behind those that are there. Other macros stay.
pub proof fn law_macro_recorded(d: Ed, c: char, keys: Seq<Key>, other: char)
    requires
        ascii_lower(c),
        !d.e.replaying,
        other != c,
    ensures
        ({
            let begun = d.recording_begun(Key::Char(c));
            let e = keys_recorded(begun.e, keys.push(Key::Char('q')));
            let done = Ed { e, ..begun }.q_keyed();
            &&& done.e.recording is None
            &&& done.e.macros.contains_key(c) && done.e.macros[c] == keys
            &&& done.e.macros.contains_key(other) == d.e.macros.contains_key(other)
            &&& done.e.macros[other] == d.e.macros[other]
        }),
        ({
            let begun = d.recording_begun(Key::Char((c as int - 32) as char));
            let e = keys_recorded(begun.e, keys.push(Key::Char('q')));
            let done = Ed { e, ..begun }.q_keyed();
            d.e.macros.contains_key(c) ==> done.e.macros[c] == d.e.macros[c] + keys
        }),
{
    let begun = d.recording_begun(Key::Char(c));
    let all = keys.push(Key::Char('q'));
    let none = Seq::<Key>::empty();
    lemma_keys_recorded(begun.e, c, none, all);
    assert((none + all).drop_last() =~= keys);
    let more = d.recording_begun(Key::Char((c as int - 32) as char));
    if d.e.macros.contains_key(c) {
        let was = d.e.macros[c];
        lemma_keys_recorded(more.e, c, was, all);
        assert((was + all).drop_last() =~= was + keys);
    }
}

/// The keys of the simple changes. S is cc, Y is yy, and the Delete key is x.
pub proof fn law_change_keys(d: Ed)
    ensures
        d.change_keyed(Key::Char('x')) == Some(d.did_x(true)),
        d.change_keyed(Key::Delete) == Some(d.did_x(true)),
        d.change_keyed(Key::Char('X')) == Some(d.did_x(false)),
        d.change_keyed(Key::Char('s')) == Some(d.did_s()),
        d.change_keyed(Key::Char('S')) == Some(d.with_op(Op::Change).doubled()),
        d.change_keyed(Key::Char('Y')) == Some(d.with_op(Op::Yank).doubled()),
        d.change_keyed(Key::Char('C')) == Some(d.op_to_eol(Op::Change)),
        d.change_keyed(Key::Char('D')) == Some(d.op_to_eol(Op::Delete)),
        d.change_keyed(Key::Char('~')) == Some(d.did_tilde()),
        d.change_keyed(Key::Char('J')) == Some(d.did_join()),
        d.change_keyed(Key::Char('p')) == Some(d.did_paste(true)),
        d.change_keyed(Key::Char('P')) == Some(d.did_paste(false)),
        d.change_keyed(Key::Char('u')) == Some(d.did_undo()),
        d.change_keyed(Key::Ctrl('r')) == Some(d.did_redo()),
        d.change_keyed(Key::Char('r')) matches Some(x) && x.e.awaiting == Await::Replace,
        d.change_keyed(Key::Char('R')) matches Some(x) && x.e.mode == Mode::Replace,
{
    reveal(Ed::change_keyed);
}

/// An operator key pressed twice is doubled, another operator gives both up, and the first one
/// waits for a motion.
pub proof fn law_operator_keys(d: Ed, c: char, op: Op)
    requires
        (c == 'd' && op == Op::Delete) || (c == 'y' && op == Op::Yank) || (c == '>' && op
            == Op::Indent) || (c == '<' && op == Op::Dedent) || (c == 'c' && op == Op::Change),
    ensures
        d.e.op is None ==> (d.grammar_keyed(Key::Char(c)) matches Some(x) && x.e.op == Some(op)
            && x.s == d.s),
        d.e.op == Some(op) ==> d.grammar_keyed(Key::Char(c)) == Some(d.doubled()),
        d.e.op is Some && d.e.op != Some(op) && !(c == 'c' && d.e.op == Some(Op::Comment))
            ==> d.grammar_keyed(Key::Char(c)) == Some(d.reset()),
        d.e.op == Some(Op::Lower) ==> d.grammar_keyed(Key::Char('u')) == Some(d.doubled()),
        d.e.op == Some(Op::Upper) ==> d.grammar_keyed(Key::Char('U')) == Some(d.doubled()),
        d.e.op == Some(Op::Comment) ==> d.grammar_keyed(Key::Char('c')) == Some(d.doubled()),
        d.e.op is None ==> (d.g_keyed(Key::Char('u')).e.op == Some(Op::Lower) && d.g_keyed(
            Key::Char('U'),
        ).e.op == Some(Op::Upper) && d.g_keyed(Key::Char('c')).e.op == Some(Op::Comment)),
{
    reveal(Ed::grammar_keyed);
    reveal(Ed::g_keyed);
}

/// The keys into insert and visual mode; under an operator i and a wait for a text object.
pub proof fn law_mode_keys(d: Ed, c: char)
    requires
        d.has(),
        0 <= d.s.active(),
    ensures
        d.e.op is None && (c == 'i' || c == 'a') ==> d.mode_keyed(Key::Char(c)) == Some(
            d.insert_at(c),
        ),
        c == 'I' || c == 'A' ==> d.mode_keyed(Key::Char(c)) == Some(d.insert_at(c)),
        d.e.op is Some ==> (d.mode_keyed(Key::Char('i')) matches Some(x) && x.e.awaiting
            == Await::Object(false)),
        d.e.op is Some ==> (d.mode_keyed(Key::Char('a')) matches Some(x) && x.e.awaiting
            == Await::Object(true)),
        d.mode_keyed(Key::Char('o')) == Some(d.opened_line(true)),
        d.mode_keyed(Key::Char('O')) == Some(d.opened_line(false)),
        d.mode_keyed(Key::Char('v')) matches Some(x) && x.e.mode == (Mode::Visual {
            kind: VisualKind::Char,
        }) && x.e.anchor == d.buf().cursor,
        d.mode_keyed(Key::Char('V')) matches Some(x) && x.e.mode == (Mode::Visual {
            kind: VisualKind::Line,
        }) && x.e.anchor == d.buf().cursor,
        d.mode_keyed(Key::Ctrl('v')) matches Some(x) && x.e.mode == (Mode::Visual {
            kind: VisualKind::Block,
        }) && x.e.anchor == d.buf().cursor,
{
    reveal(Ed::mode_keyed);
}

/// / searches forward and ? backward, n on and N the other way, * for the word forward and #
/// backward.
pub proof fn law_seek_keys(d: Ed)
    requires
        d.has(),
    ensures
        d.seek_keyed(Key::Char('/')) matches Some(x) && x.e.mode == (Mode::Search {
            backwards: false,
        }),
        d.seek_keyed(Key::Char('?')) matches Some(x) && x.e.mode == (Mode::Search {
            backwards: true,
        }),
        d.seek_keyed(Key::Char('n')) == Some(d.searched_next(false)),
        d.seek_keyed(Key::Char('N')) == Some(d.searched_next(true)),
        d.seek_keyed(Key::Char('*')) == Some(d.searched_word(false)),
        d.seek_keyed(Key::Char('#')) == Some(d.searched_word(true)),
{
    reveal(Ed::seek_keyed);
    reveal(Ed::into_search);
}

/// n goes to the nearest match in the direction of the search, and N to the nearest against it.
pub proof fn law_next_match(d: Ed, reverse: bool)
    requires
        at_work(d),
        d.e.total() == 1,
        d.s.search.pattern.len() > 0,
        found(
            d.buf().text.lines,
            d.buf().cursor,
            d.s.search.pattern,
            d.s.search.backwards != reverse,
        ) is Some,
    ensures
        ({
            let (p, wrapped) = found(
                d.buf().text.lines,
                d.buf().cursor,
                d.s.search.pattern,
                d.s.search.backwards != reverse,
            )->0;
            let x = d.searched_next(reverse);
            &&& x.buf().cursor == clamped(d.buf().text.lines, p, false)
            &&& x.buf().text == d.buf().text
            &&& x.s.search.pattern == d.s.search.pattern
            &&& x.s.search.backwards == d.s.search.backwards
        }),
{
    reveal(Ed::searched_next);
    reveal(Ed::jumped);
    reveal_with_fuel(Ed::jumps, 2);
}

/// J joins the count's lines, two at least, and leaves the cursor where the first line ended.
pub proof fn law_join_key(d: Ed)
    requires
        at_work(d),
        d.buf().text.group is None,
        0 <= d.buf().cursor.line,
        d.buf().cursor.line + 1 < d.buf().text.lines.len(),
    ensures
        ({
            let v = d.buf().text;
            let line = d.buf().cursor.line;
            let k = if d.e.total() >= 2 {
                d.e.total() - 1
            } else {
                1
            };
            let x = d.did_join();
            &&& x.buf().text.lines.len() == v.lines.len() - if k <= v.lines.len() - 1 - line {
                k
            } else {
                v.lines.len() - 1 - line
            }
            &&& x.buf().text.lines.take(line) == v.lines.take(line)
            &&& x.buf().cursor == clamped(
                x.buf().text.lines,
                pos(line, v.lines[line].len() as int),
                false,
            )
        }),
{
    reveal(TextV::group_begun);
    reveal(TextV::group_ended);
    reveal(Ed::did_join);
    let k = if d.e.total() >= 2 {
        d.e.total() - 1
    } else {
        1
    };
    law_joins_count(d.buf().text.group_begun(d.buf().cursor), d.buf().cursor.line, k);
}

} // verus!
