//! Laws of text objects: what each of them covers.

use vstd::prelude::*;

use crate::rvim::bracket_laws::{gap, lemma_gap_more, lemma_gap_step, pairs_up};
use crate::rvim::buffer::{line_at, min, pos, pos_le, Pos};
use crate::rvim::keys::MATCH_BUDGET;
use crate::rvim::motion::{
    bracket_from, bracket_partner, class_of, close_from, closing_within, is_bracket, lemma_run_end,
    lemma_run_start, len_at, open_from, opening_within, run_end, run_start,
};
use crate::rvim::motion_laws::{lemma_next_char, lemma_tally_split, tally, together};
use crate::rvim::objects::{
    enclosing, next_char, object_span, quote_pair, spaces_end, spaces_start,
};
use crate::rvim::pattern::strictly_before;
use crate::text::is_space;

verus! {

/// A quoted string from the quote at `a` to the one at `b`: no quote between them, and the
/// quotes before `a` pair up among themselves.
pub open spec fn quoted_at(s: Seq<char>, q: char, a: int, b: int) -> bool {
    0 <= a < b < s.len() && s[a] == q && s[b] == q && tally(s, q, a + 1, b) == 0 && tally(s, q, 0, a)
        % 2 == 0
}

/// A char inside a part is counted there.
proof fn lemma_counted(s: Seq<char>, q: char, i: int, k: int, j: int)
    requires
        i <= k < j,
        s[k] == q,
    ensures
        tally(s, q, i, j) >= 1,
{
    lemma_tally_split(s, q, i, k, j);
    lemma_tally_split(s, q, k, k + 1, j);
    lemma_tally_split(s, q, i, i, k);
    assert(tally(s, q, k, k + 1) == 1 + tally(s, q, k, k));
}

/// Two strings that start alike are one.
proof fn lemma_string_once(s: Seq<char>, q: char, a: int, b: int, c: int)
    requires
        quoted_at(s, q, a, b),
        quoted_at(s, q, a, c),
    ensures
        b == c,
{
    if b < c {
        lemma_counted(s, q, a + 1, b, c);
    } else if c < b {
        lemma_counted(s, q, a + 1, c, b);
    }
}

proof fn lemma_quotes(s: Seq<char>, q: char, i: int, col: int)
    requires
        0 <= i <= s.len(),
        tally(s, q, 0, i) % 2 == 0,
        forall|a: int, b: int| a < i && #[trigger] quoted_at(s, q, a, b) ==> b < col,
    ensures
        match quote_pair(s, q, i, col) {
            Some((a, b)) => quoted_at(s, q, a, b) && col <= b && forall|c: int, d: int|
                c < a && #[trigger] quoted_at(s, q, c, d) ==> d < col,
            None => forall|c: int, d: int| #[trigger] quoted_at(s, q, c, d) ==> d < col,
        },
    decreases s.len() - i,
{
    let n = s.len() as int;
    let a = next_char(s, q, i);
    lemma_next_char(s, q, i);
    lemma_tally_split(s, q, 0, i, a);
    if a >= n {
        reveal_with_fuel(next_char, 2);
        assert forall|c: int, d: int| #[trigger] quoted_at(s, q, c, d) implies d < col by {
            if c >= i {
                lemma_counted(s, q, i, c, a);
            }
        }
    } else {
        let b = next_char(s, q, a + 1);
        lemma_next_char(s, q, a + 1);
        lemma_tally_split(s, q, 0, a, a + 1);
        assert(tally(s, q, a, a + 1) == 1 + tally(s, q, a, a));
        lemma_tally_split(s, q, 0, a + 1, b);
        assert forall|c: int, d: int| #[trigger] quoted_at(s, q, c, d) && c <= b && c
            != a implies d < col by {
            if c >= i && c < a {
                lemma_counted(s, q, i, c, a);
            }
            if c > a && c < b {
                lemma_counted(s, q, a + 1, c, b);
            }
        }
        if b >= n {
            assert forall|c: int, d: int| #[trigger] quoted_at(s, q, c, d) implies d < col by {
                if c == a {
                    lemma_counted(s, q, a + 1, d, b);
                }
            }
        } else {
            assert(quoted_at(s, q, a, b));
            lemma_tally_split(s, q, 0, b, b + 1);
            assert(tally(s, q, b, b + 1) == 1 + tally(s, q, b, b));
            if col > b {
                assert forall|c: int, d: int| c < b + 1 && #[trigger] quoted_at(
                    s,
                    q,
                    c,
                    d,
                ) implies d < col by {
                    if c == a {
                        lemma_string_once(s, q, a, b, d);
                    }
                }
                lemma_quotes(s, q, b + 1, col);
            }
        }
    }
}

/// The string a quote object is about is the first one of the line that does not end before the
/// cursor; there is none when they all do.
pub proof fn law_quote_is_first(s: Seq<char>, q: char, col: int)
    ensures
        match quote_pair(s, q, 0, col) {
            Some((a, b)) => quoted_at(s, q, a, b) && col <= b && forall|c: int, d: int|
                c < a && #[trigger] quoted_at(s, q, c, d) ==> d < col,
            None => forall|c: int, d: int| #[trigger] quoted_at(s, q, c, d) ==> d < col,
        },
{
    assert(tally(s, q, 0, 0) == 0);
    lemma_quotes(s, q, 0, col);
}

/// With the cursor in a quoted string, the quote object is that string.
pub proof fn law_quote_under_cursor(s: Seq<char>, q: char, col: int, a: int, b: int)
    requires
        quoted_at(s, q, a, b),
        a <= col <= b,
    ensures
        quote_pair(s, q, 0, col) == Some((a, b)),
{
    law_quote_is_first(s, q, col);
    let (c, d) = quote_pair(s, q, 0, col)->0;
    if c == a {
        lemma_string_once(s, q, a, b, d);
    } else {
        assert(a < c <= col || c <= d);
        if a < c {
            assert(b < col || b >= col);
        } else {
            if d < a {
            } else if d == a {
                lemma_tally_split(s, q, 0, c, d);
                lemma_tally_split(s, q, c, c + 1, d);
                assert(tally(s, q, c, c + 1) == 1 + tally(s, q, c, c));
            } else {
                lemma_counted(s, q, c + 1, a, d);
            }
        }
    }
}

/// The inside of a string lies between its quotes; around it come the quotes and all the spaces
/// behind them, or else all the spaces before them.
pub proof fn law_quote_object(ls: Seq<Seq<char>>, cur: Pos, q: char)
    requires
        0 <= cur.line < ls.len(),
        q == '"' || q == '\'' || q == '`',
    ensures
        ({
            let s = ls[cur.line];
            match quote_pair(s, q, 0, cur.col) {
                None => object_span(ls, cur, q, false) is None && object_span(ls, cur, q, true) is None,
                Some((a, b)) => {
                    &&& object_span(ls, cur, q, false) == Some(
                        (pos(cur.line, a + 1), pos(cur.line, b)),
                    )
                    &&& object_span(ls, cur, q, true) matches Some((x, y)) && x.line == cur.line
                        && y.line == cur.line && 0 <= x.col <= a < b < y.col <= s.len() && (
                    forall|k: int|
                        x.col <= k < a || b < k < y.col ==> #[trigger] s[k] == ' ') && (if b + 1
                        < s.len() && s[b + 1] == ' ' {
                        x.col == a && (y.col == s.len() || s[y.col] != ' ')
                    } else {
                        y.col == b + 1 && (x.col == 0 || s[x.col - 1] != ' ')
                    })
                },
            }
        }),
{
    reveal(object_span);
    let s = ls[cur.line];
    law_quote_is_first(s, q, cur.col);
    if let Some((a, b)) = quote_pair(s, q, 0, cur.col) {
        lemma_spaces_end(s, b + 1);
        lemma_spaces_start(s, a);
    }
}

proof fn lemma_spaces_end(s: Seq<char>, i: int)
    requires
        0 <= i <= s.len(),
    ensures
        i <= spaces_end(s, i) <= s.len(),
        spaces_end(s, i) < s.len() ==> s[spaces_end(s, i)] != ' ',
        forall|k: int| i <= k < spaces_end(s, i) ==> #[trigger] s[k] == ' ',
    decreases s.len() - i,
{
    if i < s.len() && s[i] == ' ' {
        lemma_spaces_end(s, i + 1);
    }
}

proof fn lemma_spaces_start(s: Seq<char>, i: int)
    requires
        0 <= i <= s.len(),
    ensures
        0 <= spaces_start(s, i) <= i,
        spaces_start(s, i) > 0 ==> s[spaces_start(s, i) - 1] != ' ',
        forall|k: int| spaces_start(s, i) <= k < i ==> #[trigger] s[k] == ' ',
    decreases i,
{
    if i > 0 && s[i - 1] == ' ' {
        lemma_spaces_start(s, i - 1);
    }
}

/// Two chars of one kind: both blank, or both in one word.
pub open spec fn alike(a: char, b: char, big: bool) -> bool {
    is_space(a) && is_space(b) || together(a, b, big)
}

/// Columns `[a, b)` are a whole run of chars like the one at `k`.
pub open spec fn whole_run(s: Seq<char>, a: int, b: int, k: int, big: bool) -> bool {
    &&& 0 <= a <= k < b <= s.len()
    &&& forall|i: int| a <= i < b ==> alike(#[trigger] s[i], s[k], big)
    &&& a > 0 ==> !alike(s[a - 1], s[k], big)
    &&& b < s.len() ==> !alike(s[b], s[k], big)
}

proof fn lemma_whole_run(s: Seq<char>, k: int, big: bool)
    requires
        0 <= k < s.len(),
    ensures
        ({
            let cls = class_of(s[k], big);
            whole_run(s, run_start(s, k, cls, big), run_end(s, k, cls, big), k, big)
        }),
{
    let cls = class_of(s[k], big);
    lemma_run_start(s, k, cls, big);
    lemma_run_end(s, k, cls, big);
}

/// iw and iW cover the whole run of chars like the one under the cursor: the word it is in, or
/// the blanks.
pub proof fn law_inner_word(ls: Seq<Seq<char>>, cur: Pos, big: bool)
    requires
        0 <= cur.line < ls.len(),
        0 <= cur.col,
    ensures
        ({
            let s = ls[cur.line];
            let r = object_span(
                ls,
                cur,
                if big {
                    'W'
                } else {
                    'w'
                },
                false,
            );
            if s.len() == 0 {
                r is None
            } else {
                r matches Some((a, b)) && a.line == cur.line && b.line == cur.line && whole_run(
                    s,
                    a.col,
                    b.col,
                    if cur.col < s.len() {
                        cur.col
                    } else {
                        s.len() - 1
                    },
                    big,
                )
            }
        }),
{
    reveal(object_span);
    let s = ls[cur.line];
    if s.len() > 0 {
        lemma_whole_run(s, min(cur.col, s.len() - 1), big);
    }
}

/// aw and aW on a word add all the blanks behind it, or, with none there, all those before it;
/// on blanks they add the whole word behind them.
pub proof fn law_around_word(ls: Seq<Seq<char>>, cur: Pos, big: bool)
    requires
        0 <= cur.line < ls.len(),
        0 <= cur.col < ls[cur.line].len(),
    ensures
        ({
            let s = ls[cur.line];
            let obj = if big {
                'W'
            } else {
                'w'
            };
            &&& object_span(ls, cur, obj, false) matches Some((a, b)) && object_span(
                ls,
                cur,
                obj,
                true,
            ) matches Some((x, y)) && x.line == cur.line && y.line == cur.line && (if b.col
                == s.len() {
                y == b && (if is_space(s[cur.col]) {
                    x == a
                } else {
                    0 <= x.col <= a.col && (forall|k: int|
                        x.col <= k < a.col ==> is_space(#[trigger] s[k])) && (x.col == 0
                        || !is_space(s[x.col - 1]))
                })
            } else if is_space(s[cur.col]) || is_space(s[b.col]) {
                x == a && whole_run(s, b.col, y.col, b.col, big)
            } else {
                y == b && 0 <= x.col <= a.col && (forall|k: int|
                    x.col <= k < a.col ==> is_space(#[trigger] s[k])) && (x.col == 0 || !is_space(
                    s[x.col - 1],
                ))
            })
        }),
{
    reveal(object_span);
    let s = ls[cur.line];
    let cls = class_of(s[cur.col], big);
    lemma_whole_run(s, cur.col, big);
    let a = run_start(s, cur.col, cls, big);
    let b = run_end(s, cur.col, cls, big);
    lemma_run_start(s, a, 0, big);
    lemma_run_end(s, b, 0, big);
    if b < s.len() {
        let c = class_of(s[b], big);
        lemma_run_end(s, b, c, big);
        assert(class_of(s[b - 1], big) == cls);
        lemma_run_start(s, b, c, big);
        assert(run_start(s, b, c, big) == b);
        lemma_whole_run(s, b, big);
        if c == 0 {
            assert(run_end(s, b, 0, big) > b);
        }
    }
}

/// Opening brackets less closing ones, from a place up to `to`.
pub open spec fn surplus(
    ls: Seq<Seq<char>>,
    line: int,
    col: int,
    to: Pos,
    open: char,
    close: char,
) -> int
    decreases to.line - line, len_at(ls, line) - col,
{
    if line > to.line || line == to.line && (col >= to.col || col >= len_at(ls, line)) {
        0
    } else if col >= len_at(ls, line) {
        surplus(ls, line + 1, 0, to, open, close)
    } else {
        let c = line_at(ls, line)[col];
        surplus(ls, line, col + 1, to, open, close) + if c == open {
            1int
        } else if c == close {
            -1
        } else {
            0
        }
    }
}

/// The char `c` stands at `p`.
pub open spec fn holds(ls: Seq<Seq<char>>, p: Pos, c: char) -> bool {
    0 <= p.line < ls.len() && 0 <= p.col < ls[p.line].len() && ls[p.line][p.col] == c
}

/// The closing bracket at `b` closes the opening one at `a`: between them as many open as
/// close, and no bracket on the way closes more than was opened since `a`.
pub open spec fn closes(ls: Seq<Seq<char>>, a: Pos, b: Pos, open: char, close: char) -> bool {
    &&& holds(ls, b, close)
    &&& strictly_before(a, b)
    &&& surplus(ls, a.line, a.col + 1, b, open, close) == 0
    &&& forall|r: Pos|
        strictly_before(a, r) && strictly_before(r, b) && #[trigger] holds(ls, r, close)
            ==> surplus(ls, a.line, a.col + 1, r, open, close) > 0
}

proof fn lemma_close(
    ls: Seq<Seq<char>>,
    line: int,
    col: int,
    depth: int,
    budget: int,
    open: char,
    close: char,
)
    requires
        open != close,
        0 <= line < ls.len(),
        0 <= col,
        depth >= 1,
    ensures
        close_from(ls, line, col, depth, budget, open, close) matches Some(b) ==> {
            &&& holds(ls, b, close)
            &&& pos_le(pos(line, col), b)
            &&& depth + surplus(ls, line, col, b, open, close) == 1
            &&& forall|r: Pos|
                pos_le(pos(line, col), r) && strictly_before(r, b) && #[trigger] holds(ls, r, close)
                    ==> depth + surplus(ls, line, col, r, open, close) > 1
        },
    decreases ls.len() - line, len_at(ls, line) - col,
{
    let s = line_at(ls, line);
    if col >= s.len() {
        if line + 1 < ls.len() {
            lemma_close(ls, line + 1, 0, depth, budget, open, close);
        }
    } else if budget > 0 {
        if s[col] == open {
            lemma_close(ls, line, col + 1, depth + 1, budget - 1, open, close);
        } else if s[col] == close {
            if depth > 1 {
                lemma_close(ls, line, col + 1, depth - 1, budget - 1, open, close);
            }
        } else {
            lemma_close(ls, line, col + 1, depth, budget - 1, open, close);
        }
    }
}

proof fn lemma_close_found(
    ls: Seq<Seq<char>>,
    line: int,
    col: int,
    depth: int,
    budget: int,
    open: char,
    close: char,
    b: Pos,
)
    requires
        open != close,
        0 <= line < ls.len(),
        0 <= col,
        depth >= 1,
        holds(ls, b, close),
        pos_le(pos(line, col), b),
        depth + surplus(ls, line, col, b, open, close) == 1,
        forall|r: Pos|
            pos_le(pos(line, col), r) && strictly_before(r, b) && #[trigger] holds(ls, r, close)
                ==> depth + surplus(ls, line, col, r, open, close) > 1,
        col <= len_at(ls, line),
    ensures
        gap(ls, line, col, b) >= 0,
        close_from(ls, line, col, depth, budget, open, close) == if gap(ls, line, col, b)
            < budget {
            Some(b)
        } else {
            None
        },
    decreases b.line - line, len_at(ls, line) - col,
{
    let s = line_at(ls, line);
    if col >= s.len() {
        assert forall|r: Pos|
            pos_le(pos(line + 1, 0), r) && strictly_before(r, b) && #[trigger] holds(
                ls,
                r,
                close,
            ) implies depth + surplus(ls, line + 1, 0, r, open, close) > 1 by {
            assert(pos_le(pos(line, col), r));
        }
        lemma_close_found(ls, line + 1, 0, depth, budget, open, close, b);
    } else if pos(line, col) != b {
        let next = if s[col] == open {
            depth + 1
        } else if s[col] == close {
            depth - 1
        } else {
            depth
        };
        if s[col] == close {
            assert(holds(ls, pos(line, col), close));
            assert(surplus(ls, line, col, pos(line, col), open, close) == 0);
        }
        assert forall|r: Pos|
            pos_le(pos(line, col + 1), r) && strictly_before(r, b) && #[trigger] holds(
                ls,
                r,
                close,
            ) implies next + surplus(ls, line, col + 1, r, open, close) > 1 by {
            assert(pos_le(pos(line, col), r));
        }
        lemma_close_found(ls, line, col + 1, next, budget - 1, open, close, b);
    } else {
        assert(surplus(ls, line, col, b, open, close) == 0);
    }
}

/// The partner of an opening bracket is the one that closes it, when it is near enough.
pub proof fn law_bracket_closes(
    ls: Seq<Seq<char>>,
    p: Pos,
    open: char,
    close: char,
    limit: int,
)
    requires
        open != close,
        0 <= p.line < ls.len(),
        0 <= p.col < ls[p.line].len(),
    ensures
        closing_within(ls, p, open, close, limit) matches Some(b) ==> closes(ls, p, b, open, close),
        forall|b: Pos| #[trigger]
            closes(ls, p, b, open, close) ==> closing_within(ls, p, open, close, limit) == if gap(
                ls,
                p.line,
                p.col + 1,
                b,
            ) < limit {
                Some(b)
            } else {
                None
            },
{
    lemma_close(ls, p.line, p.col + 1, 1, limit, open, close);
    if let Some(b) = closing_within(ls, p, open, close, limit) {
        assert forall|r: Pos|
            strictly_before(p, r) && strictly_before(r, b) && #[trigger] holds(
                ls,
                r,
                close,
            ) implies surplus(ls, p.line, p.col + 1, r, open, close) > 0 by {
            assert(pos_le(pos(p.line, p.col + 1), r));
        }
    }
    assert forall|b: Pos| #[trigger] closes(ls, p, b, open, close) implies closing_within(
        ls,
        p,
        open,
        close,
        limit,
    ) == if gap(ls, p.line, p.col + 1, b) < limit {
        Some(b)
    } else {
        None
    } by {
        lemma_close_found(ls, p.line, p.col + 1, 1, limit, open, close, b);
    }
}

/// The opening bracket at `a` is the innermost one still open at `p`: what opens after it is
/// closed before `p`.
pub open spec fn open_at(ls: Seq<Seq<char>>, a: Pos, p: Pos, open: char, close: char) -> bool {
    &&& holds(ls, a, open)
    &&& strictly_before(a, p)
    &&& surplus(ls, a.line, a.col + 1, p, open, close) == 0
    &&& forall|r: Pos|
        strictly_before(a, r) && strictly_before(r, p) && #[trigger] holds(ls, r, open) ==> surplus(
            ls,
            r.line,
            r.col + 1,
            p,
            open,
            close,
        ) < 0
}

proof fn lemma_open(
    ls: Seq<Seq<char>>,
    line: int,
    col: int,
    depth: int,
    budget: int,
    open: char,
    close: char,
    p: Pos,
)
    requires
        open != close,
        0 <= line < ls.len(),
        0 <= col <= len_at(ls, line),
        depth >= 0,
        pos_le(pos(line, col), p),
        surplus(ls, line, col, p, open, close) == -depth,
    ensures
        open_from(ls, line, col, depth, budget, open, close) matches Some(a) ==> {
            &&& holds(ls, a, open)
            &&& strictly_before(a, pos(line, col))
            &&& surplus(ls, a.line, a.col + 1, p, open, close) == 0
            &&& forall|r: Pos|
                strictly_before(a, r) && strictly_before(r, pos(line, col)) && #[trigger] holds(
                    ls,
                    r,
                    open,
                ) ==> surplus(ls, r.line, r.col + 1, p, open, close) < 0
        },
    decreases line, col,
{
    let s = line_at(ls, line);
    if col <= 0 {
        if line > 0 {
            let n = len_at(ls, line - 1);
            assert(surplus(ls, line - 1, n, p, open, close) == surplus(
                ls,
                line,
                0,
                p,
                open,
                close,
            ));
            lemma_open(ls, line - 1, n, depth, budget, open, close, p);
        }
    } else if budget > 0 {
        if s[col - 1] == close {
            lemma_open(ls, line, col - 1, depth + 1, budget - 1, open, close, p);
        } else if s[col - 1] == open {
            if depth > 0 {
                lemma_open(ls, line, col - 1, depth - 1, budget - 1, open, close, p);
            }
        } else {
            lemma_open(ls, line, col - 1, depth, budget - 1, open, close, p);
        }
    }
}

proof fn lemma_open_found(
    ls: Seq<Seq<char>>,
    line: int,
    col: int,
    depth: int,
    budget: int,
    open: char,
    close: char,
    p: Pos,
    a: Pos,
)
    requires
        open != close,
        0 <= line < ls.len(),
        0 <= col <= len_at(ls, line),
        depth >= 0,
        pos_le(pos(line, col), p),
        surplus(ls, line, col, p, open, close) == -depth,
        holds(ls, a, open),
        strictly_before(a, pos(line, col)),
        surplus(ls, a.line, a.col + 1, p, open, close) == 0,
        forall|r: Pos|
            strictly_before(a, r) && strictly_before(r, pos(line, col)) && #[trigger] holds(
                ls,
                r,
                open,
            ) ==> surplus(ls, r.line, r.col + 1, p, open, close) < 0,
    ensures
        gap(ls, a.line, a.col + 1, pos(line, col)) >= 0,
        open_from(ls, line, col, depth, budget, open, close) == if gap(
            ls,
            a.line,
            a.col + 1,
            pos(line, col),
        ) < budget {
            Some(a)
        } else {
            None
        },
    decreases line, col,
{
    let s = line_at(ls, line);
    if col <= 0 {
        let n = len_at(ls, line - 1);
        assert(surplus(ls, line - 1, n, p, open, close) == surplus(ls, line, 0, p, open, close));
        lemma_open_found(ls, line - 1, n, depth, budget, open, close, p, a);
        lemma_gap_step(ls, a.line, a.col + 1, line - 1, n);
    } else if pos(line, col - 1) != a {
        let next = if s[col - 1] == close {
            depth + 1
        } else if s[col - 1] == open {
            depth - 1
        } else {
            depth
        };
        if s[col - 1] == open {
            assert(holds(ls, pos(line, col - 1), open));
        }
        lemma_open_found(ls, line, col - 1, next, budget - 1, open, close, p, a);
        lemma_gap_more(ls, a.line, a.col + 1, line, col - 1);
    }
}

/// The unmatched bracket before a place is the innermost one still open there, when it is near
/// enough.
pub proof fn law_bracket_opens(
    ls: Seq<Seq<char>>,
    p: Pos,
    open: char,
    close: char,
    limit: int,
)
    requires
        open != close,
        0 <= p.line < ls.len(),
        0 <= p.col <= ls[p.line].len(),
    ensures
        opening_within(ls, p, open, close, limit) matches Some(a) ==> open_at(
            ls,
            a,
            p,
            open,
            close,
        ),
        forall|a: Pos| #[trigger]
            open_at(ls, a, p, open, close) ==> opening_within(ls, p, open, close, limit) == if gap(
                ls,
                a.line,
                a.col + 1,
                p,
            ) < limit {
                Some(a)
            } else {
                None
            },
{
    lemma_open(ls, p.line, p.col, 0, limit, open, close, p);
    assert forall|a: Pos| #[trigger] open_at(ls, a, p, open, close) implies opening_within(
        ls,
        p,
        open,
        close,
        limit,
    ) == if gap(ls, a.line, a.col + 1, p) < limit {
        Some(a)
    } else {
        None
    } by {
        lemma_open_found(ls, p.line, p.col, 0, limit, open, close, p, a);
    }
}

/// The brackets of an object.
pub open spec fn object_pair(obj: char) -> Option<(char, char)> {
    if obj == '(' || obj == ')' || obj == 'b' {
        Some(('(', ')'))
    } else if obj == '{' || obj == '}' || obj == 'B' {
        Some(('{', '}'))
    } else if obj == '[' || obj == ']' {
        Some(('[', ']'))
    } else if obj == '<' || obj == '>' {
        Some(('<', '>'))
    } else {
        None
    }
}

/// The innermost bracket pair around a place: on a bracket, the pair it belongs to; elsewhere,
/// the bracket still open there and the one that closes it.
pub open spec fn innermost(
    ls: Seq<Seq<char>>,
    p: Pos,
    a: Pos,
    b: Pos,
    open: char,
    close: char,
) -> bool {
    if holds(ls, p, open) {
        a == p && closes(ls, a, b, open, close)
    } else if holds(ls, p, close) {
        b == p && open_at(ls, a, p, open, close)
    } else {
        open_at(ls, a, p, open, close) && closes(ls, a, b, open, close) && pos_le(p, b)
    }
}

/// Both scans for the pair stay within their limit.
pub open spec fn near(ls: Seq<Seq<char>>, p: Pos, a: Pos, b: Pos) -> bool {
    (p == b || gap(ls, a.line, a.col + 1, b) < MATCH_BUDGET) && (p == a || gap(
        ls,
        a.line,
        a.col + 1,
        p,
    ) < MATCH_BUDGET)
}

proof fn lemma_enclosing(ls: Seq<Seq<char>>, p: Pos, open: char, close: char)
    requires
        open != close,
        0 <= p.line < ls.len(),
        0 <= p.col <= ls[p.line].len(),
    ensures
        enclosing(ls, p, open, close) matches Some((a, b)) ==> innermost(
            ls,
            p,
            a,
            b,
            open,
            close,
        ) && near(ls, p, a, b) && holds(ls, a, open) && holds(ls, b, close) && pos_le(a, p)
            && pos_le(p, b),
        forall|a: Pos, b: Pos| #[trigger]
            innermost(ls, p, a, b, open, close) && near(ls, p, a, b) ==> enclosing(
                ls,
                p,
                open,
                close,
            ) == Some((a, b)),
{
    let limit = MATCH_BUDGET as int;
    law_bracket_opens(ls, p, open, close, limit);
    if holds(ls, p, open) {
        law_bracket_closes(ls, p, open, close, limit);
    } else if let Some(a) = opening_within(ls, p, open, close, limit) {
        law_bracket_closes(ls, a, open, close, limit);
    }
}

/// A bracket object covers the innermost pair around the cursor, with the brackets or without
/// them; a pair with nothing in it has no inside.
pub proof fn law_bracket_object(
    ls: Seq<Seq<char>>,
    p: Pos,
    obj: char,
    open: char,
    close: char,
    a: Pos,
    b: Pos,
)
    requires
        0 <= p.line < ls.len(),
        0 <= p.col <= ls[p.line].len(),
        object_pair(obj) == Some((open, close)),
        innermost(ls, p, a, b, open, close),
        near(ls, p, a, b),
    ensures
        object_span(ls, p, obj, true) == Some((a, pos(b.line, b.col + 1))),
        object_span(ls, p, obj, false) == if b == pos(a.line, a.col + 1) {
            None
        } else {
            Some((pos(a.line, a.col + 1), b))
        },
{
    reveal(object_span);
    lemma_enclosing(ls, p, open, close);
}

/// Where no pair lies around the cursor, there is no bracket object.
pub proof fn law_no_bracket_object(
    ls: Seq<Seq<char>>,
    p: Pos,
    obj: char,
    open: char,
    close: char,
    around: bool,
)
    requires
        0 <= p.line < ls.len(),
        0 <= p.col <= ls[p.line].len(),
        object_pair(obj) == Some((open, close)),
        object_span(ls, p, obj, around) is Some,
    ensures
        exists|a: Pos, b: Pos| #[trigger]
            innermost(ls, p, a, b, open, close) && near(ls, p, a, b),
{
    reveal(object_span);
    lemma_enclosing(ls, p, open, close);
}

/// % goes by the first bracket at or after the cursor on its line: from an opening one to the
/// one that closes it, from a closing one to the one it closes, when that is near enough.
pub proof fn law_percent(ls: Seq<Seq<char>>, p: Pos, i: int, open: char, close: char)
    requires
        0 <= p.line < ls.len(),
        0 <= p.col <= i < ls[p.line].len(),
        pairs_up(open, close),
        ls[p.line][i] == open || ls[p.line][i] == close,
        forall|k: int| p.col <= k < i ==> !is_bracket(#[trigger] ls[p.line][k]),
    ensures
        ({
            let at = pos(p.line, i);
            if ls[p.line][i] == open {
                &&& bracket_partner(ls, p) matches Some(b) ==> closes(ls, at, b, open, close)
                &&& forall|b: Pos| #[trigger]
                    closes(ls, at, b, open, close) && gap(ls, p.line, i + 1, b) < MATCH_BUDGET
                        ==> bracket_partner(ls, p) == Some(b)
            } else {
                &&& bracket_partner(ls, p) matches Some(a) ==> open_at(ls, a, at, open, close)
                &&& forall|a: Pos| #[trigger]
                    open_at(ls, a, at, open, close) && gap(ls, a.line, a.col + 1, at)
                        < MATCH_BUDGET ==> bracket_partner(ls, p) == Some(a)
            }
        }),
{
    let s = ls[p.line];
    lemma_bracket_from(s, p.col);
    assert(bracket_from(s, p.col) == i) by {
        let j = bracket_from(s, p.col);
        if j < i {
            assert(!is_bracket(ls[p.line][j]));
        } else if j > i {
            assert(!is_bracket(s[i]));
        }
    }
    let at = pos(p.line, i);
    law_bracket_closes(ls, at, open, close, MATCH_BUDGET as int);
    law_bracket_opens(ls, at, open, close, MATCH_BUDGET as int);
}

/// % has nowhere to go from a line without a bracket at or after the cursor.
pub proof fn law_percent_needs_bracket(ls: Seq<Seq<char>>, p: Pos)
    requires
        0 <= p.line < ls.len(),
        0 <= p.col <= ls[p.line].len(),
        bracket_partner(ls, p) is Some,
    ensures
        exists|i: int| p.col <= i < ls[p.line].len() && is_bracket(#[trigger] ls[p.line][i]),
{
    lemma_bracket_from(ls[p.line], p.col);
    assert(is_bracket(ls[p.line][bracket_from(ls[p.line], p.col)]));
}

proof fn lemma_bracket_from(s: Seq<char>, i: int)
    requires
        0 <= i <= s.len(),
    ensures
        i <= bracket_from(s, i) <= s.len(),
        bracket_from(s, i) < s.len() ==> is_bracket(s[bracket_from(s, i)]),
        forall|k: int| i <= k < bracket_from(s, i) ==> !is_bracket(#[trigger] s[k]),
    decreases s.len() - i,
{
    if i < s.len() && !is_bracket(s[i]) {
        lemma_bracket_from(s, i + 1);
    }
}

} // verus!
