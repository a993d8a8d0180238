//! Text objects: words, quotes, bracket pairs.

use vstd::prelude::*;

use crate::rvim::buffer::{line_at, min, pos, pos_le, Pos, Position, TextBuffer};
use crate::rvim::motion::{
    advance, advanced, char_class, class_of, closing, find_run_end, find_run_start, lemma_run_start,
    len_at, match_backward, match_forward, opening, run_end, run_start,
};
use crate::text::to_chars;

verus! {

/// A charwise range `[start, end)`.
pub type Span = (Pos, Pos);

/// The columns of the word (or, around it, also of the blanks after it, or else before it) at
/// column `col`; on a blank, of the blanks (and, around them, of the word after them).
pub open spec fn word_cols(s: Seq<char>, col: int, big: bool, around: bool) -> (int, int) {
    let cls = class_of(s[col], big);
    let a = run_start(s, col, cls, big);
    let b = run_end(s, col, cls, big);
    if !around {
        (a, b)
    } else if cls == 0 {
        (
            a,
            if b < s.len() {
                run_end(s, b, class_of(s[b], big), big)
            } else {
                b
            },
        )
    } else {
        let after = run_end(s, b, 0, big);
        if after > b {
            (a, after)
        } else {
            (run_start(s, a, 0, big), b)
        }
    }
}

pub open spec fn word_span(ls: Seq<Seq<char>>, cur: Pos, big: bool, around: bool) -> Option<Span> {
    let s = line_at(ls, cur.line);
    if s.len() == 0 {
        None
    } else {
        let (a, b) = word_cols(s, min(cur.col, s.len() - 1), big, around);
        Some((pos(cur.line, a), pos(cur.line, b)))
    }
}

pub open spec fn same_span(r: Option<(Position, Position)>, s: Option<Span>) -> bool {
    match r {
        Some((a, b)) => s == Some((a@, b@)) && a.line < usize::MAX && a.col < usize::MAX && b.line
            < usize::MAX && b.col < usize::MAX,
        None => s is None,
    }
}

fn word_object(text: &TextBuffer, cur: Position, big: bool, around: bool) -> (r: Option<
    (Position, Position),
>)
    requires
        cur.line < usize::MAX,
    ensures
        same_span(r, word_span(text@.lines, cur@, big, around)),
{
    let chars = to_chars(text.line(cur.line));
    let len: usize = text.line_len(cur.line);
    if len == 0 {
        return None;
    }
    let col: usize = if cur.col < len - 1 {
        cur.col
    } else {
        len - 1
    };
    let s = chars.as_slice();
    let cls: u8 = char_class(s[col], big);
    let mut a: usize = find_run_start(s, col, cls, big);
    let mut b: usize = find_run_end(s, col, cls, big);
    if around {
        if cls == 0 {
            // On whitespace: take in the following word.
            if b < len {
                let next: u8 = char_class(s[b], big);
                b = find_run_end(s, b, next, big);
            }
        } else {
            let after: usize = find_run_end(s, b, 0, big);
            if after > b {
                b = after;
            } else {
                a = find_run_start(s, a, 0, big);
            }
        }
    }
    Some((Position::new(cur.line, a), Position::new(cur.line, b)))
}

/// The first `c` of `s` at or after `i`, or its length.
pub open spec fn next_char(s: Seq<char>, c: char, i: int) -> int
    decreases s.len() - i,
{
    if 0 <= i < s.len() && s[i] != c {
        next_char(s, c, i + 1)
    } else {
        i
    }
}

fn find_char(s: &[char], c: char, i: usize) -> (r: usize)
    requires
        i <= s@.len(),
    ensures
        r == next_char(s@, c, i as int),
        i <= r <= s@.len(),
{
    let mut k: usize = i;
    while k < s.len() && s[k] != c
        invariant
            i <= k <= s@.len(),
            next_char(s@, c, i as int) == next_char(s@, c, k as int),
        ensures
            k == next_char(s@, c, i as int),
        decreases s@.len() - k,
    {
        k = k + 1;
    }
    k
}

/// Quotes pair up from the start of the line; the first pair at or after `i` that does not end
/// before `col`.
pub open spec fn quote_pair(s: Seq<char>, q: char, i: int, col: int) -> Option<(int, int)>
    decreases s.len() - i,
{
    let a = next_char(s, q, i);
    let b = next_char(s, q, a + 1);
    if i < 0 || a < i || b <= a || b >= s.len() {
        None
    } else if col <= b {
        Some((a, b))
    } else {
        quote_pair(s, q, b + 1, col)
    }
}

/// End of the run of spaces that starts at `i`.
pub open spec fn spaces_end(s: Seq<char>, i: int) -> int
    decreases s.len() - i,
{
    if 0 <= i < s.len() && s[i] == ' ' {
        spaces_end(s, i + 1)
    } else {
        i
    }
}

/// Start of the run of spaces that ends just before `i`.
pub open spec fn spaces_start(s: Seq<char>, i: int) -> int
    decreases i,
{
    if 0 < i <= s.len() && s[i - 1] == ' ' {
        spaces_start(s, i - 1)
    } else {
        i
    }
}

pub open spec fn quote_span(ls: Seq<Seq<char>>, cur: Pos, q: char, around: bool) -> Option<Span> {
    let s = line_at(ls, cur.line);
    match quote_pair(s, q, 0, cur.col) {
        None => None,
        Some((a, b)) => if !around {
            Some((pos(cur.line, a + 1), pos(cur.line, b)))
        } else {
            let e = spaces_end(s, b + 1);
            if e > b + 1 {
                Some((pos(cur.line, a), pos(cur.line, e)))
            } else {
                Some((pos(cur.line, spaces_start(s, a)), pos(cur.line, b + 1)))
            }
        },
    }
}

fn find_quote_pair(s: &[char], q: char, col: usize) -> (r: Option<(usize, usize)>)
    ensures
        match r {
            Some((a, b)) => quote_pair(s@, q, 0, col as int) == Some((a as int, b as int)) && a < b
                && b < s@.len(),
            None => quote_pair(s@, q, 0, col as int) is None,
        },
{
    let mut i: usize = 0;
    while i < s.len()
        invariant
            i <= s@.len(),
            quote_pair(s@, q, 0, col as int) == quote_pair(s@, q, i as int, col as int),
        decreases s@.len() - i,
    {
        let a: usize = find_char(s, q, i);
        if a >= s.len() {
            proof {
                reveal_with_fuel(next_char, 2);
            }
            return None;
        }
        let b: usize = find_char(s, q, a + 1);
        if b >= s.len() {
            return None;
        }
        if col <= b {
            return Some((a, b));
        }
        i = b + 1;
    }
    proof {
        reveal_with_fuel(next_char, 2);
    }
    None
}

fn quote_object(text: &TextBuffer, cur: Position, q: char, around: bool) -> (r: Option<
    (Position, Position),
>)
    requires
        cur.line < usize::MAX,
    ensures
        same_span(r, quote_span(text@.lines, cur@, q, around)),
{
    let chars = to_chars(text.line(cur.line));
    let len: usize = text.line_len(cur.line);
    let s = chars.as_slice();
    match find_quote_pair(s, q, cur.col) {
        None => None,
        Some((a, b)) => {
            if !around {
                return Some((Position::new(cur.line, a + 1), Position::new(cur.line, b)));
            }
            let mut e: usize = b + 1;
            while e < s.len() && s[e] == ' '
                invariant
                    b + 1 <= e <= s@.len(),
                    spaces_end(s@, b + 1) == spaces_end(s@, e as int),
                ensures
                    e == spaces_end(s@, b + 1),
                decreases s@.len() - e,
            {
                e = e + 1;
            }
            let mut st: usize = a;
            if e == b + 1 {
                while st > 0 && s[st - 1] == ' '
                    invariant
                        st <= a < s@.len(),
                        spaces_start(s@, a as int) == spaces_start(s@, st as int),
                    ensures
                        st == spaces_start(s@, a as int),
                    decreases st,
                {
                    st = st - 1;
                }
            }
            Some((Position::new(cur.line, st), Position::new(cur.line, e)))
        },
    }
}

/// Innermost `open`..`close` pair enclosing (or under) `p`.
pub open spec fn enclosing(ls: Seq<Seq<char>>, p: Pos, open: char, close: char) -> Option<Span> {
    let s = line_at(ls, p.line);
    if p.col < s.len() && s[p.col] == open {
        match closing(ls, p, open, close) {
            Some(c) => Some((p, c)),
            None => None,
        }
    } else if p.col < s.len() && s[p.col] == close {
        match opening(ls, p, open, close) {
            Some(o) => Some((o, p)),
            None => None,
        }
    } else {
        match opening(ls, p, open, close) {
            None => None,
            Some(o) => match closing(ls, o, open, close) {
                None => None,
                Some(c) => if pos_le(p, c) {
                    Some((o, c))
                } else {
                    None
                },
            },
        }
    }
}

fn enclosing_pair(text: &TextBuffer, cur: Position, open: char, close: char) -> (r: Option<
    (Position, Position),
>)
    requires
        cur.line < usize::MAX,
        cur.col < usize::MAX,
    ensures
        same_span(r, enclosing(text@.lines, cur@, open, close)),
{
    if let Some(here) = text.char_at(cur) {
        if here == open {
            return match match_forward(text, cur, open, close) {
                Some(c) => Some((cur, c)),
                None => None,
            };
        }
        if here == close {
            return match match_backward(text, cur, open, close) {
                Some(o) => Some((o, cur)),
                None => None,
            };
        }
    }
    match match_backward(text, cur, open, close) {
        None => None,
        Some(o) => match match_forward(text, o, open, close) {
            None => None,
            Some(c) => if cur.le(c) {
                Some((o, c))
            } else {
                None
            },
        },
    }
}

pub open spec fn pair_span(
    ls: Seq<Seq<char>>,
    cur: Pos,
    open: char,
    close: char,
    around: bool,
) -> Option<Span> {
    match enclosing(ls, cur, open, close) {
        None => None,
        Some((o, c)) => if around {
            Some((o, advanced(ls, c)))
        } else if pos_le(c, advanced(ls, o)) {
            None
        } else {
            Some((advanced(ls, o), c))
        },
    }
}

fn pair_object(text: &TextBuffer, cur: Position, open: char, close: char, around: bool) -> (r:
    Option<(Position, Position)>)
    requires
        cur.line < usize::MAX,
        cur.col < usize::MAX,
    ensures
        same_span(r, pair_span(text@.lines, cur@, open, close, around)),
{
    match enclosing_pair(text, cur, open, close) {
        None => None,
        Some((o, c)) => {
            if around {
                Some((o, advance(text, c)))
            } else {
                let start = advance(text, o);
                if c.le(start) {
                    None
                } else {
                    Some((start, c))
                }
            }
        },
    }
}

/// Char range `[start, end)` covered by text object `obj` at `cur`.
#[verifier::opaque]
pub open spec fn object_span(ls: Seq<Seq<char>>, cur: Pos, obj: char, around: bool) -> Option<
    Span,
> {
    if obj == 'w' || obj == 'W' {
        word_span(ls, cur, obj == 'W', around)
    } else if obj == '"' || obj == '\'' || obj == '`' {
        quote_span(ls, cur, obj, around)
    } else if obj == '(' || obj == ')' || obj == 'b' {
        pair_span(ls, cur, '(', ')', around)
    } else if obj == '{' || obj == '}' || obj == 'B' {
        pair_span(ls, cur, '{', '}', around)
    } else if obj == '[' || obj == ']' {
        pair_span(ls, cur, '[', ']', around)
    } else if obj == '<' || obj == '>' {
        pair_span(ls, cur, '<', '>', around)
    } else {
        None
    }
}

/// Char range `[start, end)` covered by text object `obj` at `cur`.
pub fn object_range(text: &TextBuffer, cur: Position, obj: char, around: bool) -> (r: Option<
    (Position, Position),
>)
    requires
        cur.line < usize::MAX,
        cur.col < usize::MAX,
    ensures
        same_span(r, object_span(text@.lines, cur@, obj, around)),
{
    reveal(object_span);
    if obj == 'w' || obj == 'W' {
        word_object(text, cur, obj == 'W', around)
    } else if obj == '"' || obj == '\'' || obj == '`' {
        quote_object(text, cur, obj, around)
    } else if obj == '(' || obj == ')' || obj == 'b' {
        pair_object(text, cur, '(', ')', around)
    } else if obj == '{' || obj == '}' || obj == 'B' {
        pair_object(text, cur, '{', '}', around)
    } else if obj == '[' || obj == ']' {
        pair_object(text, cur, '[', ']', around)
    } else if obj == '<' || obj == '>' {
        pair_object(text, cur, '<', '>', around)
    } else {
        None
    }
}

/// The unmatched bracket found backward stands on a line of the text.
pub proof fn lemma_open_lines(
    ls: Seq<Seq<char>>,
    line: int,
    col: int,
    depth: int,
    budget: int,
    open: char,
    close: char,
)
    requires
        0 <= line < ls.len(),
    ensures
        crate::rvim::motion::open_from(ls, line, col, depth, budget, open, close) matches Some(p)
            ==> 0 <= p.line <= line && 0 <= p.col < len_at(ls, p.line),
    decreases line, col,
{
    let s = line_at(ls, line);
    if line < 0 || col > s.len() {
    } else if col <= 0 {
        if line > 0 {
            lemma_open_lines(ls, line - 1, len_at(ls, line - 1), depth, budget, open, close);
        }
    } else if budget > 0 {
        lemma_open_lines(ls, line, col - 1, depth + 1, budget - 1, open, close);
        lemma_open_lines(ls, line, col - 1, depth - 1, budget - 1, open, close);
        lemma_open_lines(ls, line, col - 1, depth, budget - 1, open, close);
    }
}

/// A bracket pair's object starts at a place in the text.
pub proof fn lemma_pair_start(ls: Seq<Seq<char>>, cur: Pos, open: char, close: char)
    requires
        0 <= cur.line < ls.len(),
        0 <= cur.col,
    ensures
        forall|around: bool|
            #![trigger pair_span(ls, cur, open, close, around)]
            pair_span(ls, cur, open, close, around) matches Some((p, q)) ==> 0 <= p.line < ls.len()
                && 0 <= p.col <= len_at(ls, p.line),
{
    let col = min(cur.col, len_at(ls, cur.line));
    lemma_open_lines(
        ls,
        cur.line,
        col,
        0,
        crate::rvim::keys::MATCH_BUDGET as int,
        open,
        close,
    );
}

proof fn lemma_quote_pair(s: Seq<char>, q: char, i: int, col: int)
    ensures
        quote_pair(s, q, i, col) matches Some((a, b)) ==> 0 <= a < b < s.len(),
    decreases s.len() - i,
{
    let a = next_char(s, q, i);
    let b = next_char(s, q, a + 1);
    if i < 0 || a < i || b <= a || b >= s.len() || col <= b {
    } else {
        lemma_quote_pair(s, q, b + 1, col);
    }
}

proof fn lemma_spaces_start(s: Seq<char>, i: int)
    requires
        0 <= i,
    ensures
        0 <= spaces_start(s, i) <= i,
    decreases i,
{
    if 0 < i <= s.len() && s[i - 1] == ' ' {
        lemma_spaces_start(s, i - 1);
    }
}

/// A text object starts at a place in the text.
pub proof fn lemma_object_start(ls: Seq<Seq<char>>, cur: Pos, obj: char, around: bool)
    requires
        0 <= cur.line < ls.len(),
        0 <= cur.col,
    ensures
        object_span(ls, cur, obj, around) matches Some((p, q)) ==> 0 <= p.line < ls.len() && 0
            <= p.col <= len_at(ls, p.line),
{
    reveal(object_span);
    lemma_pair_start(ls, cur, '(', ')');
    lemma_pair_start(ls, cur, '{', '}');
    lemma_pair_start(ls, cur, '[', ']');
    lemma_pair_start(ls, cur, '<', '>');
    let s = line_at(ls, cur.line);
    if s.len() > 0 {
        let col = min(cur.col, s.len() - 1);
        let big = obj == 'W';
        let cls = class_of(s[col], big);
        lemma_run_start(s, col, cls, big);
        lemma_run_start(s, run_start(s, col, cls, big), 0, big);
    }
    lemma_quote_pair(s, obj, 0, cur.col);
    if let Some((a, b)) = quote_pair(s, obj, 0, cur.col) {
        lemma_spaces_start(s, a);
    }
}

} // verus!
