//! Literal patterns: finding them in a text and substituting them.

use vstd::prelude::*;

use crate::rvim::buffer::{line_at, min, pos, pos_le, Pos, Position, TextBuffer, TextV};
use crate::rvim::motion::len_at;
use crate::text::{range_string, to_chars};

verus! {

/// `p` stands in `s` at column `i`.
pub open spec fn occurs(s: Seq<char>, p: Seq<char>, i: int) -> bool {
    0 <= i && i + p.len() <= s.len() && s.subrange(i, i + p.len()) == p
}

/// The first column at or after `i` where `p` occurs.
pub open spec fn next_occ(s: Seq<char>, p: Seq<char>, i: int) -> Option<int>
    decreases s.len() + 1 - i,
{
    if i + p.len() > s.len() || i < 0 {
        None
    } else if occurs(s, p, i) {
        Some(i)
    } else {
        next_occ(s, p, i + 1)
    }
}

/// The last column before `i` where `p` occurs.
pub open spec fn prev_occ(s: Seq<char>, p: Seq<char>, i: int) -> Option<int>
    decreases i,
{
    if i <= 0 {
        None
    } else if occurs(s, p, i - 1) {
        Some(i - 1)
    } else {
        prev_occ(s, p, i - 1)
    }
}

pub proof fn lemma_next_occ(s: Seq<char>, p: Seq<char>, i: int)
    requires
        0 <= i,
    ensures
        match next_occ(s, p, i) {
            Some(j) => i <= j && occurs(s, p, j) && forall|k: int| i <= k < j ==> !occurs(s, p, k),
            None => forall|k: int| i <= k ==> !occurs(s, p, k),
        },
    decreases s.len() + 1 - i,
{
    if !(i + p.len() > s.len()) && !occurs(s, p, i) {
        lemma_next_occ(s, p, i + 1);
    }
}

pub proof fn lemma_prev_occ(s: Seq<char>, p: Seq<char>, i: int)
    ensures
        match prev_occ(s, p, i) {
            Some(j) => 0 <= j < i && occurs(s, p, j) && forall|k: int|
                j < k < i ==> !occurs(s, p, k),
            None => forall|k: int| k < i ==> !occurs(s, p, k),
        },
    decreases i,
{
    if !(i <= 0) && !occurs(s, p, i - 1) {
        lemma_prev_occ(s, p, i - 1);
    }
}

fn occurs_at(s: &[char], p: &[char], i: usize) -> (r: bool)
    requires
        i + p@.len() <= s@.len(),
    ensures
        r == occurs(s@, p@, i as int),
{
    let n: usize = p.len();
    let len: usize = s.len();
    for k in 0..n
        invariant
            n == p@.len(),
            len == s@.len(),
            i + n <= len,
            forall|j: int| 0 <= j < k ==> s@[i + j] == #[trigger] p@[j],
    {
        if s[i + k] != p[k] {
            proof {
                if occurs(s@, p@, i as int) {
                    assert(s@.subrange(i as int, i + n)[k as int] == p@[k as int]);
                }
            }
            return false;
        }
    }
    assert(s@.subrange(i as int, i + n) =~= p@);
    true
}

/// The first column at or after `i` where `p` occurs.
pub fn find_next(s: &[char], p: &[char], i: usize) -> (r: Option<usize>)
    ensures
        match r {
            Some(j) => next_occ(s@, p@, i as int) == Some(j as int) && j + p@.len() <= s@.len(),
            None => next_occ(s@, p@, i as int) is None,
        },
{
    let (n, m): (usize, usize) = (s.len(), p.len());
    if m > n {
        return None;
    }
    let mut k: usize = i;
    while k <= n - m
        invariant
            n == s@.len(),
            m == p@.len(),
            m <= n,
            i <= k,
            next_occ(s@, p@, i as int) == next_occ(s@, p@, k as int),
        decreases n - m + 1 - k,
    {
        if occurs_at(s, p, k) {
            return Some(k);
        }
        if k == n - m {
            proof {
                reveal_with_fuel(next_occ, 2);
            }
            return None;
        }
        k = k + 1;
    }
    None
}

/// The last column before `i` where `p` occurs.
pub fn find_prev(s: &[char], p: &[char], i: usize) -> (r: Option<usize>)
    ensures
        match r {
            Some(j) => prev_occ(s@, p@, i as int) == Some(j as int) && j < i && j + p@.len()
                <= s@.len(),
            None => prev_occ(s@, p@, i as int) is None,
        },
{
    let (n, m): (usize, usize) = (s.len(), p.len());
    let mut k: usize = i;
    while k > 0
        invariant
            n == s@.len(),
            m == p@.len(),
            k <= i,
            prev_occ(s@, p@, i as int) == prev_occ(s@, p@, k as int),
        decreases k,
    {
        k = k - 1;
        if m <= n && k <= n - m {
            if occurs_at(s, p, k) {
                return Some(k);
            }
        }
    }
    None
}

/// The first occurrence in lines `[l, stop)`.
pub open spec fn first_in(ls: Seq<Seq<char>>, p: Seq<char>, l: int, stop: int) -> Option<Pos>
    decreases stop - l,
{
    if l >= stop {
        None
    } else {
        match next_occ(line_at(ls, l), p, 0) {
            Some(c) => Some(pos(l, c)),
            None => first_in(ls, p, l + 1, stop),
        }
    }
}

/// The last occurrence in lines `[stop, l)`.
pub open spec fn last_in(ls: Seq<Seq<char>>, p: Seq<char>, l: int, stop: int) -> Option<Pos>
    decreases l - stop,
{
    if l <= stop {
        None
    } else {
        match prev_occ(line_at(ls, l - 1), p, len_at(ls, l - 1) + 1) {
            Some(c) => Some(pos(l - 1, c)),
            None => last_in(ls, p, l - 1, stop),
        }
    }
}

pub open spec fn tagged(p: Option<Pos>, wrapped: bool) -> Option<(Pos, bool)> {
    match p {
        Some(q) => Some((q, wrapped)),
        None => None,
    }
}

/// The first occurrence after `from`; failing that, the first one in the text (wrapped).
pub open spec fn found_forward(ls: Seq<Seq<char>>, from: Pos, p: Seq<char>) -> Option<
    (Pos, bool),
> {
    let n = ls.len() as int;
    match next_occ(line_at(ls, from.line), p, from.col + 1) {
        Some(c) => Some((pos(from.line, c), false)),
        None => match first_in(ls, p, from.line + 1, n) {
            Some(q) => Some((q, false)),
            None => tagged(first_in(ls, p, 0, min(from.line + 1, n)), true),
        },
    }
}

/// The last occurrence before `from`; failing that, the last one in the text (wrapped).
pub open spec fn found_backward(ls: Seq<Seq<char>>, from: Pos, p: Seq<char>) -> Option<
    (Pos, bool),
> {
    let n = ls.len() as int;
    match prev_occ(line_at(ls, from.line), p, from.col) {
        Some(c) => Some((pos(from.line, c), false)),
        None => match last_in(ls, p, min(from.line, n), 0) {
            Some(q) => Some((q, false)),
            None => tagged(last_in(ls, p, n, from.line), true),
        },
    }
}

/// Next literal match strictly after (or before) `from`, wrapping; true = wrapped.
#[verifier::opaque]
pub open spec fn found(ls: Seq<Seq<char>>, from: Pos, p: Seq<char>, backwards: bool) -> Option<
    (Pos, bool),
> {
    if p.len() == 0 {
        None
    } else if backwards {
        found_backward(ls, from, p)
    } else {
        found_forward(ls, from, p)
    }
}

fn find_first_in(text: &TextBuffer, p: &[char], l: usize, stop: usize) -> (r: Option<Position>)
    requires
        stop <= text@.lines.len(),
    ensures
        match r {
            Some(q) => first_in(text@.lines, p@, l as int, stop as int) == Some(q@) && q.line
                < stop && q.col <= len_at(text@.lines, q.line as int),
            None => first_in(text@.lines, p@, l as int, stop as int) is None,
        },
{
    let mut i: usize = l;
    while i < stop
        invariant
            stop <= text@.lines.len(),
            first_in(text@.lines, p@, l as int, stop as int) == first_in(
                text@.lines,
                p@,
                i as int,
                stop as int,
            ),
        decreases stop - i,
    {
        let chars = to_chars(text.line(i));
        if let Some(c) = find_next(chars.as_slice(), p, 0) {
            return Some(Position::new(i, c));
        }
        i = i + 1;
    }
    None
}

fn find_last_in(text: &TextBuffer, p: &[char], l: usize, stop: usize) -> (r: Option<Position>)
    requires
        l <= text@.lines.len(),
    ensures
        match r {
            Some(q) => last_in(text@.lines, p@, l as int, stop as int) == Some(q@) && q.line < l
                && q.col <= len_at(text@.lines, q.line as int),
            None => last_in(text@.lines, p@, l as int, stop as int) is None,
        },
{
    let mut i: usize = l;
    while i > stop
        invariant
            i <= l <= text@.lines.len(),
            last_in(text@.lines, p@, l as int, stop as int) == last_in(
                text@.lines,
                p@,
                i as int,
                stop as int,
            ),
        decreases i,
    {
        let chars = to_chars(text.line(i - 1));
        let len: usize = text.line_len(i - 1);
        if let Some(c) = find_prev(chars.as_slice(), p, len + 1) {
            return Some(Position::new(i - 1, c));
        }
        i = i - 1;
    }
    None
}

/// Next literal match strictly after (or before) `from`, wrapping; true = wrapped.
pub fn find_pattern(text: &TextBuffer, from: Position, pat: &str, backwards: bool) -> (r: Option<
    (Position, bool),
>)
    requires
        from.line < usize::MAX,
    ensures
        match r {
            Some((p, wrapped)) => found(text@.lines, from@, pat@, backwards) == Some((p@, wrapped))
                && p.line < usize::MAX && p.col < usize::MAX,
            None => found(text@.lines, from@, pat@, backwards) is None,
        },
{
    reveal(found);
    let chars = to_chars(pat);
    let p = chars.as_slice();
    if p.len() == 0 {
        return None;
    }
    let count: usize = text.line_count();
    let here = to_chars(text.line(from.line));
    let len: usize = text.line_len(from.line);
    if !backwards {
        let after: usize = if from.col < len {
            from.col + 1
        } else {
            len
        };
        proof {
            lemma_next_occ(here@, p@, after as int);
            lemma_next_occ(here@, p@, from.col + 1);
        }
        if let Some(c) = find_next(here.as_slice(), p, after) {
            return Some((Position::new(from.line, c), false));
        }
        if let Some(q) = find_first_in(text, p, from.line + 1, count) {
            let n: usize = text.line_len(q.line);
            return Some((q, false));
        }
        let stop: usize = if from.line + 1 < count {
            from.line + 1
        } else {
            count
        };
        match find_first_in(text, p, 0, stop) {
            Some(q) => {
                let n: usize = text.line_len(q.line);
                Some((q, true))
            },
            None => None,
        }
    } else {
        if let Some(c) = find_prev(here.as_slice(), p, from.col) {
            return Some((Position::new(from.line, c), false));
        }
        let top: usize = if from.line < count {
            from.line
        } else {
            count
        };
        if let Some(q) = find_last_in(text, p, top, 0) {
            let n: usize = text.line_len(q.line);
            return Some((q, false));
        }
        match find_last_in(text, p, count, from.line) {
            Some(q) => {
                let n: usize = text.line_len(q.line);
                Some((q, true))
            },
            None => None,
        }
    }
}

/// `p` stands at this place of the text.
pub open spec fn occurs_in(ls: Seq<Seq<char>>, p: Seq<char>, q: Pos) -> bool {
    occurs(line_at(ls, q.line), p, q.col)
}

pub open spec fn strictly_before(a: Pos, b: Pos) -> bool {
    pos_le(a, b) && a != b
}

proof fn lemma_first_in(ls: Seq<Seq<char>>, p: Seq<char>, l: int, stop: int)
    ensures
        match first_in(ls, p, l, stop) {
            Some(q) => {
                &&& occurs_in(ls, p, q)
                &&& l <= q.line < stop
                &&& 0 <= q.col
                &&& forall|r: Pos|
                    l <= r.line && strictly_before(r, q) ==> !#[trigger] occurs_in(ls, p, r)
            },
            None => forall|r: Pos| l <= r.line < stop ==> !#[trigger] occurs_in(ls, p, r),
        },
    decreases stop - l,
{
    if l < stop {
        lemma_next_occ(line_at(ls, l), p, 0);
        lemma_first_in(ls, p, l + 1, stop);
    }
}

proof fn lemma_last_in(ls: Seq<Seq<char>>, p: Seq<char>, l: int, stop: int)
    ensures
        match last_in(ls, p, l, stop) {
            Some(q) => {
                &&& occurs_in(ls, p, q)
                &&& stop <= q.line < l
                &&& 0 <= q.col
                &&& forall|r: Pos|
                    r.line < l && strictly_before(q, r) ==> !#[trigger] occurs_in(ls, p, r)
            },
            None => forall|r: Pos| stop <= r.line < l ==> !#[trigger] occurs_in(ls, p, r),
        },
    decreases l - stop,
{
    if l > stop {
        lemma_prev_occ(line_at(ls, l - 1), p, len_at(ls, l - 1) + 1);
        lemma_last_in(ls, p, l - 1, stop);
    }
}

/// A forward search finds the nearest occurrence after the start; it wraps only when there is
/// none, and then finds the first occurrence in the text. It fails only when the pattern
/// occurs nowhere.
pub proof fn law_search_forward_is_nearest(ls: Seq<Seq<char>>, from: Pos, p: Seq<char>)
    requires
        0 <= from.line,
        0 <= from.col,
        p.len() > 0,
    ensures
        match found(ls, from, p, false) {
            Some((q, false)) => {
                &&& occurs_in(ls, p, q)
                &&& strictly_before(from, q)
                &&& forall|r: Pos|
                    strictly_before(from, r) && strictly_before(r, q) ==> !#[trigger] occurs_in(
                        ls,
                        p,
                        r,
                    )
            },
            Some((q, true)) => {
                &&& occurs_in(ls, p, q)
                &&& forall|r: Pos|
                    strictly_before(from, r) || strictly_before(r, q) ==> !#[trigger] occurs_in(
                        ls,
                        p,
                        r,
                    )
            },
            None => forall|r: Pos| !#[trigger] occurs_in(ls, p, r),
        },
{
    reveal(found);
    let n = ls.len() as int;
    lemma_next_occ(line_at(ls, from.line), p, from.col + 1);
    lemma_first_in(ls, p, from.line + 1, n);
    lemma_first_in(ls, p, 0, min(from.line + 1, n));
    assert forall|r: Pos| #[trigger] occurs_in(ls, p, r) implies 0 <= r.line < n by {}
}

/// A backward search finds the nearest occurrence before the start; it wraps only when there
/// is none, and then finds the last occurrence in the text. It fails only when the pattern
/// occurs nowhere.
pub proof fn law_search_backward_is_nearest(ls: Seq<Seq<char>>, from: Pos, p: Seq<char>)
    requires
        0 <= from.line,
        0 <= from.col,
        p.len() > 0,
    ensures
        match found(ls, from, p, true) {
            Some((q, false)) => {
                &&& occurs_in(ls, p, q)
                &&& strictly_before(q, from)
                &&& forall|r: Pos|
                    strictly_before(q, r) && strictly_before(r, from) ==> !#[trigger] occurs_in(
                        ls,
                        p,
                        r,
                    )
            },
            Some((q, true)) => {
                &&& occurs_in(ls, p, q)
                &&& forall|r: Pos|
                    strictly_before(r, from) || strictly_before(q, r) ==> !#[trigger] occurs_in(
                        ls,
                        p,
                        r,
                    )
            },
            None => forall|r: Pos| !#[trigger] occurs_in(ls, p, r),
        },
{
    reveal(found);
    let n = ls.len() as int;
    lemma_prev_occ(line_at(ls, from.line), p, from.col);
    lemma_last_in(ls, p, min(from.line, n), 0);
    lemma_last_in(ls, p, n, from.line);
    assert forall|r: Pos| #[trigger] occurs_in(ls, p, r) implies 0 <= r.line < n by {}
}

/// `s` from column `i` on, every occurrence of `p` (left to right, not overlapping) replaced.
pub open spec fn replaced(s: Seq<char>, p: Seq<char>, r: Seq<char>, i: int) -> Seq<char>
    decreases s.len() - i,
{
    match next_occ(s, p, i) {
        Some(j) => if p.len() == 0 || j < i || i < 0 || j + p.len() > s.len() {
            s.skip(i)
        } else {
            s.subrange(i, j) + r + replaced(s, p, r, j + p.len())
        },
        None => s.skip(i),
    }
}

/// How often `p` occurs from column `i` on, not overlapping.
pub open spec fn occurrences(s: Seq<char>, p: Seq<char>, i: int) -> int
    decreases s.len() - i,
{
    match next_occ(s, p, i) {
        Some(j) => if p.len() == 0 || j < i || i < 0 || j + p.len() > s.len() {
            0
        } else {
            1 + occurrences(s, p, j + p.len())
        },
        None => 0,
    }
}

/// The first occurrence replaced.
pub open spec fn replaced_first(s: Seq<char>, p: Seq<char>, r: Seq<char>) -> Seq<char> {
    match next_occ(s, p, 0) {
        Some(j) => s.take(j) + r + s.skip(j + p.len()),
        None => s,
    }
}

/// A line after substitution, and how many replacements it took.
pub open spec fn substituted(s: Seq<char>, p: Seq<char>, r: Seq<char>, global: bool) -> (
    Seq<char>,
    int,
) {
    if global {
        (replaced(s, p, r, 0), occurrences(s, p, 0))
    } else {
        (replaced_first(s, p, r), if next_occ(s, p, 0) is Some { 1 } else { 0 })
    }
}

/// Substitute in one line: the new line and the number of replacements.
pub fn substitute_line(line: &str, pat: &[char], rep: &str, global: bool) -> (r: (String, usize))
    requires
        pat@.len() > 0,
    ensures
        r.0@ == substituted(line@, pat@, rep@, global).0,
        r.1 == substituted(line@, pat@, rep@, global).1,
        r.1 <= line@.len(),
{
    let chars = to_chars(line);
    let s = chars.as_slice();
    let n: usize = s.len();
    let mut out = String::new();
    let mut count: usize = 0;
    let mut i: usize = 0;
    assert(s@.take(0) =~= Seq::<char>::empty());
    if !global {
        return match find_next(s, pat, 0) {
            Some(j) => {
                let mut head = range_string(s, 0, j);
                assert(head@ =~= s@.take(j as int));
                head.append(rep);
                let tail = range_string(s, j + pat.len(), n);
                assert(tail@ =~= s@.skip(j + pat@.len()));
                head.append(tail.as_str());
                (head, 1)
            },
            None => (line.to_string(), 0),
        };
    }
    assert(out@ + replaced(s@, pat@, rep@, 0) =~= replaced(s@, pat@, rep@, 0));
    loop
        invariant
            n == s@.len(),
            i <= n,
            count <= i,
            pat@.len() > 0,
            out@ + replaced(s@, pat@, rep@, i as int) == replaced(s@, pat@, rep@, 0),
            count + occurrences(s@, pat@, i as int) == occurrences(s@, pat@, 0),
        ensures
            i <= n,
            count <= i,
            next_occ(s@, pat@, i as int) is None,
            out@ + replaced(s@, pat@, rep@, i as int) == replaced(s@, pat@, rep@, 0),
            count + occurrences(s@, pat@, i as int) == occurrences(s@, pat@, 0),
        decreases n - i,
    {
        match find_next(s, pat, i) {
            Some(j) => {
                proof {
                    lemma_next_occ(s@, pat@, i as int);
                }
                let ghost before = out@;
                let head = range_string(s, i, j);
                out.append(head.as_str());
                out.append(rep);
                count = count + 1;
                proof {
                    let rest = replaced(s@, pat@, rep@, j + pat@.len());
                    assert(before + (head@ + rep@ + rest) =~= out@ + rest);
                }
                i = j + pat.len();
            },
            None => {
                break;
            },
        }
    }
    let tail = range_string(s, i, n);
    assert(tail@ =~= s@.skip(i as int));
    out.append(tail.as_str());
    (out, count)
}

/// What a substitution over some lines has come to: the text, the replacements, the lines hit
/// and the last of them.
pub struct SubV {
    pub text: TextV,
    pub subs: int,
    pub lines_hit: int,
    pub last_line: int,
}

/// The first `n` lines from `first` substituted, one edit per line hit.
pub open spec fn sub_lines(
    t: TextV,
    first: int,
    p: Seq<char>,
    r: Seq<char>,
    global: bool,
    n: int,
) -> SubV
    decreases n,
{
    if n <= 0 {
        SubV { text: t, subs: 0, lines_hit: 0, last_line: first }
    } else {
        let u = sub_lines(t, first, p, r, global, n - 1);
        let l = first + n - 1;
        let (s, k) = substituted(line_at(u.text.lines, l), p, r, global);
        if k > 0 {
            SubV {
                text: u.text.line_set(l, s),
                subs: u.subs + k,
                lines_hit: u.lines_hit + 1,
                last_line: l,
            }
        } else {
            u
        }
    }
}

} // verus!
