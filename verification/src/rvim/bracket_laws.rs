//! Laws of bracket pairs: the scan forward and the scan backward undo one another.

use vstd::prelude::*;

use crate::rvim::buffer::{line_at, pos, pos_le, Pos};
use crate::rvim::motion::{close_from, closing_within, len_at, open_from, opening_within};
use crate::rvim::ui::look::{bracket_ends, BRACKET_BUDGET};

verus! {

/// How many chars lie between a place and a later one.
pub open spec fn gap(ls: Seq<Seq<char>>, line: int, col: int, to: Pos) -> int
    decreases to.line - line,
{
    if line >= to.line {
        to.col - col
    } else {
        len_at(ls, line) - col + gap(ls, line + 1, 0, to)
    }
}

/// A scan forward that ends at `b`, run backward from there, comes by every place it came by,
/// with one bracket less open.
proof fn lemma_back_along(
    ls: Seq<Seq<char>>,
    line: int,
    col: int,
    depth: int,
    budget: int,
    open: char,
    close: char,
    b: Pos,
    whole: int,
)
    requires
        open != close,
        depth >= 1,
        0 <= line,
        0 <= col <= len_at(ls, line),
        whole >= budget,
        close_from(ls, line, col, depth, budget, open, close) == Some(b),
    ensures
        line <= b.line < ls.len(),
        line == b.line ==> col <= b.col,
        0 <= b.col < len_at(ls, b.line),
        line_at(ls, b.line)[b.col] == close,
        0 <= gap(ls, line, col, b) < budget,
        open_from(ls, b.line, b.col, 0, whole, open, close) == open_from(
            ls,
            line,
            col,
            depth - 1,
            whole - gap(ls, line, col, b),
            open,
            close,
        ),
    decreases ls.len() - line, len_at(ls, line) - col,
{
    let s = line_at(ls, line);
    if col >= s.len() {
        lemma_back_along(ls, line + 1, 0, depth, budget, open, close, b, whole);
    } else if s[col] == open {
        lemma_back_along(ls, line, col + 1, depth + 1, budget - 1, open, close, b, whole);
    } else if s[col] == close {
        if depth > 1 {
            lemma_back_along(ls, line, col + 1, depth - 1, budget - 1, open, close, b, whole);
        }
    } else {
        lemma_back_along(ls, line, col + 1, depth, budget - 1, open, close, b, whole);
    }
}

/// A scan backward that ends at `a`, run forward from there, comes by every place it came by,
/// with one bracket more open.
proof fn lemma_forth_along(
    ls: Seq<Seq<char>>,
    line: int,
    col: int,
    depth: int,
    budget: int,
    open: char,
    close: char,
    a: Pos,
    whole: int,
)
    requires
        open != close,
        depth >= 0,
        0 <= line < ls.len(),
        0 <= col <= len_at(ls, line),
        whole >= budget,
        open_from(ls, line, col, depth, budget, open, close) == Some(a),
    ensures
        0 <= a.line <= line,
        a.line == line ==> a.col < col,
        0 <= a.col < len_at(ls, a.line),
        line_at(ls, a.line)[a.col] == open,
        0 <= gap(ls, a.line, a.col + 1, pos(line, col)) < budget,
        close_from(ls, a.line, a.col + 1, 1, whole, open, close) == close_from(
            ls,
            line,
            col,
            depth + 1,
            whole - gap(ls, a.line, a.col + 1, pos(line, col)),
            open,
            close,
        ),
    decreases line, col,
{
    let s = line_at(ls, line);
    if col <= 0 {
        let n = len_at(ls, line - 1);
        lemma_forth_along(ls, line - 1, n, depth, budget, open, close, a, whole);
        lemma_gap_step(ls, a.line, a.col + 1, line - 1, n);
    } else if s[col - 1] == close {
        lemma_forth_along(ls, line, col - 1, depth + 1, budget - 1, open, close, a, whole);
        lemma_gap_more(ls, a.line, a.col + 1, line, col - 1);
    } else if s[col - 1] == open {
        if depth > 0 {
            lemma_forth_along(ls, line, col - 1, depth - 1, budget - 1, open, close, a, whole);
            lemma_gap_more(ls, a.line, a.col + 1, line, col - 1);
        }
    } else {
        lemma_forth_along(ls, line, col - 1, depth, budget - 1, open, close, a, whole);
        lemma_gap_more(ls, a.line, a.col + 1, line, col - 1);
    }
}

pub proof fn lemma_gap_more(ls: Seq<Seq<char>>, line: int, col: int, to: int, at: int)
    requires
        line <= to,
    ensures
        gap(ls, line, col, pos(to, at + 1)) == gap(ls, line, col, pos(to, at)) + 1,
    decreases to - line,
{
    if line < to {
        lemma_gap_more(ls, line + 1, 0, to, at);
    }
}

/// The end of a line is as far as the start of the next.
pub proof fn lemma_gap_step(ls: Seq<Seq<char>>, line: int, col: int, to: int, n: int)
    requires
        line <= to,
        n == len_at(ls, to),
    ensures
        gap(ls, line, col, pos(to + 1, 0)) == gap(ls, line, col, pos(to, n)),
    decreases to - line,
{
    if line < to {
        lemma_gap_step(ls, line + 1, 0, to, n);
    } else {
        assert(gap(ls, line + 1, 0, pos(to + 1, 0)) == 0);
    }
}

/// The brackets that pair up.
pub open spec fn pairs_up(open: char, close: char) -> bool {
    (open == '(' && close == ')') || (open == '[' && close == ']') || (open == '{' && close
        == '}')
}

/// A bracket pair is the same from either end: the place asked about is one of the two, an
/// opening bracket and a later closing one of its kind, and asking about either gives both.
pub proof fn law_bracket_pair(ls: Seq<Seq<char>>, p: Pos)
    requires
        0 <= p.line < ls.len(),
        bracket_ends(ls, p) is Some,
    ensures
        ({
            let (a, b) = bracket_ends(ls, p)->0;
            &&& p == a || p == b
            &&& pos_le(a, b) && a != b
            &&& 0 <= a.col < len_at(ls, a.line) && 0 <= b.col < len_at(ls, b.line)
            &&& pairs_up(line_at(ls, a.line)[a.col], line_at(ls, b.line)[b.col])
            &&& bracket_ends(ls, a) == Some((a, b))
            &&& bracket_ends(ls, b) == Some((a, b))
        }),
{
    let c = line_at(ls, p.line)[p.col];
    let limit = BRACKET_BUDGET as int;
    let (open, close) = if c == '(' || c == ')' {
        ('(', ')')
    } else if c == '[' || c == ']' {
        ('[', ']')
    } else {
        ('{', '}')
    };
    let (a, b) = bracket_ends(ls, p)->0;
    if c == open {
        assert(closing_within(ls, p, open, close, limit) == Some(b));
        lemma_back_along(ls, p.line, p.col + 1, 1, limit, open, close, b, limit);
        assert(opening_within(ls, b, open, close, limit) == Some(p));
    } else {
        assert(opening_within(ls, p, open, close, limit) == Some(a));
        lemma_forth_along(ls, p.line, p.col, 0, limit, open, close, a, limit);
        assert(closing_within(ls, a, open, close, limit) == Some(p));
    }
}

} // verus!
