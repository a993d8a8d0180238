//! Motions over a text: words, paragraphs, brackets.

use vstd::prelude::*;

use crate::rvim::buffer::{line_at, max, min, pos, Pos, Position, TextBuffer};
use crate::rvim::keys::MATCH_BUDGET;
use crate::text::{char_count, is_space, leading_space, space_prefix, to_chars, whitespace};
use crate::unicode::{alnum, is_alnum};

verus! {

/// Word class: 0 whitespace, 1 word chars (or any non-blank when `big`), 2 punctuation.
pub open spec fn class_of(c: char, big: bool) -> u8 {
    if is_space(c) {
        0
    } else if big || c == '_' || is_alnum(c) {
        1
    } else {
        2
    }
}

/// Word class: 0 whitespace, 1 word chars (or any non-blank when `big`), 2 punctuation.
pub fn char_class(c: char, big: bool) -> (r: u8)
    ensures
        r == class_of(c, big),
{
    if whitespace(c) {
        0
    } else if big || c == '_' || alnum(c) {
        1
    } else {
        2
    }
}

/// Length of line `i`.
pub open spec fn len_at(ls: Seq<Seq<char>>, i: int) -> int {
    line_at(ls, i).len() as int
}

/// No character at `p`, or a blank one.
pub open spec fn blank_at(ls: Seq<Seq<char>>, p: Pos) -> bool {
    p.col >= len_at(ls, p.line) || is_space(line_at(ls, p.line)[p.col])
}

pub fn char_is_blank(text: &TextBuffer, p: Position) -> (r: bool)
    ensures
        r == blank_at(text@.lines, p@),
{
    match text.char_at(p) {
        Some(c) => whitespace(c),
        None => true,
    }
}

/// Column of the first non-blank char of a line (0 for blank lines).
pub open spec fn indent_of(line: Seq<char>) -> int {
    if space_prefix(line) < line.len() {
        space_prefix(line)
    } else {
        0
    }
}

/// Char col of the first non-blank char of `line` (0 for blank lines).
pub fn first_nonblank(line: &str) -> (r: usize)
    ensures
        r == indent_of(line@),
        r <= line@.len(),
        r <= isize::MAX,
{
    let chars = to_chars(line);
    let _count: usize = char_count(line);
    let n: usize = leading_space(chars.as_slice());
    if n < chars.len() {
        n
    } else {
        0
    }
}

/// The position one char after `p`, stepping across line breaks.
pub open spec fn advanced(ls: Seq<Seq<char>>, p: Pos) -> Pos {
    if p.col < len_at(ls, p.line) {
        pos(p.line, p.col + 1)
    } else if p.line + 1 < ls.len() {
        pos(p.line + 1, 0)
    } else {
        pos(p.line, len_at(ls, p.line))
    }
}

/// The position one char after `p`, stepping across line breaks.
pub fn advance(text: &TextBuffer, p: Position) -> (r: Position)
    requires
        p.line < usize::MAX,
    ensures
        r@ == advanced(text@.lines, p@),
        r.line < usize::MAX,
        r.col < usize::MAX,
{
    let len: usize = text.line_len(p.line);
    let count: usize = text.line_count();
    if p.col < len {
        Position::new(p.line, p.col + 1)
    } else if p.line + 1 < count {
        Position::new(p.line + 1, 0)
    } else {
        Position::new(p.line, len)
    }
}

/// The position one char before `p`, stepping across line breaks.
pub open spec fn stepped_back(ls: Seq<Seq<char>>, p: Pos) -> Pos {
    if p.col > 0 {
        pos(p.line, p.col - 1)
    } else if p.line > 0 {
        pos(p.line - 1, len_at(ls, p.line - 1))
    } else {
        p
    }
}

/// The position one char before `p`, stepping across line breaks.
pub fn step_back(text: &TextBuffer, p: Position) -> (r: Position)
    requires
        p.line < usize::MAX,
        p.col < usize::MAX,
    ensures
        r@ == stepped_back(text@.lines, p@),
        r.line < usize::MAX,
        r.col < usize::MAX,
{
    if p.col > 0 {
        Position::new(p.line, p.col - 1)
    } else if p.line > 0 {
        Position::new(p.line - 1, text.line_len(p.line - 1))
    } else {
        p
    }
}

/// End of the run of class `cls` that starts at `i`.
pub open spec fn run_end(s: Seq<char>, i: int, cls: u8, big: bool) -> int
    decreases s.len() - i,
{
    if 0 <= i < s.len() && class_of(s[i], big) == cls {
        run_end(s, i + 1, cls, big)
    } else {
        i
    }
}

/// Start of the run of class `cls` that ends just before `i`.
pub open spec fn run_start(s: Seq<char>, i: int, cls: u8, big: bool) -> int
    decreases i,
{
    if 0 < i <= s.len() && class_of(s[i - 1], big) == cls {
        run_start(s, i - 1, cls, big)
    } else {
        i
    }
}

pub proof fn lemma_run_end(s: Seq<char>, i: int, cls: u8, big: bool)
    requires
        0 <= i <= s.len(),
    ensures
        i <= run_end(s, i, cls, big) <= s.len(),
        i < s.len() && class_of(s[i], big) == cls ==> i < run_end(s, i, cls, big),
        forall|k: int|
            i <= k < run_end(s, i, cls, big) ==> class_of(#[trigger] s[k], big) == cls,
        run_end(s, i, cls, big) < s.len() ==> class_of(s[run_end(s, i, cls, big)], big) != cls,
    decreases s.len() - i,
{
    if i < s.len() && class_of(s[i], big) == cls {
        lemma_run_end(s, i + 1, cls, big);
    }
}

pub proof fn lemma_run_start(s: Seq<char>, i: int, cls: u8, big: bool)
    requires
        0 <= i <= s.len(),
    ensures
        0 <= run_start(s, i, cls, big) <= i,
        forall|k: int|
            run_start(s, i, cls, big) <= k < i ==> class_of(#[trigger] s[k], big) == cls,
        run_start(s, i, cls, big) > 0 ==> class_of(s[run_start(s, i, cls, big) - 1], big) != cls,
    decreases i,
{
    if i > 0 && class_of(s[i - 1], big) == cls {
        lemma_run_start(s, i - 1, cls, big);
    }
}

/// End of the run of class `cls` that starts at `i`.
pub fn find_run_end(s: &[char], i: usize, cls: u8, big: bool) -> (r: usize)
    requires
        i <= s@.len(),
    ensures
        r == run_end(s@, i as int, cls, big),
        i <= r <= s@.len(),
{
    let mut k: usize = i;
    while k < s.len() && char_class(s[k], big) == cls
        invariant
            i <= k <= s@.len(),
            run_end(s@, i as int, cls, big) == run_end(s@, k as int, cls, big),
        ensures
            k == run_end(s@, i as int, cls, big),
        decreases s@.len() - k,
    {
        k = k + 1;
    }
    k
}

/// Start of the run of class `cls` that ends just before `i`.
pub fn find_run_start(s: &[char], i: usize, cls: u8, big: bool) -> (r: usize)
    requires
        i <= s@.len(),
    ensures
        r == run_start(s@, i as int, cls, big),
        r <= i,
{
    let mut k: usize = i;
    while k > 0 && char_class(s[k - 1], big) == cls
        invariant
            k <= i <= s@.len(),
            run_start(s@, i as int, cls, big) == run_start(s@, k as int, cls, big),
        ensures
            k == run_start(s@, i as int, cls, big),
        decreases k,
    {
        k = k - 1;
    }
    k
}

/// The first word start or empty line at or after a column; the end of the text when there is
/// none.
pub open spec fn word_from(ls: Seq<Seq<char>>, line: int, col: int, big: bool) -> Pos
    decreases ls.len() - line, len_at(ls, line) - col,
{
    if col >= len_at(ls, line) {
        if line + 1 >= ls.len() {
            pos(line, len_at(ls, line))
        } else if len_at(ls, line + 1) == 0 {
            pos(line + 1, 0)
        } else {
            word_from(ls, line + 1, 0, big)
        }
    } else if class_of(line_at(ls, line)[col], big) == 0 {
        word_from(ls, line, col + 1, big)
    } else {
        pos(line, col)
    }
}

/// Start of the next word; empty lines count as words.
pub open spec fn next_word(ls: Seq<Seq<char>>, p: Pos, big: bool) -> Pos {
    let s = line_at(ls, p.line);
    let col = if p.col < s.len() && class_of(s[p.col], big) != 0 {
        run_end(s, p.col, class_of(s[p.col], big), big)
    } else {
        p.col
    };
    word_from(ls, p.line, col, big)
}

/// w / W: start of the next word; empty lines count as words.
pub fn word_forward(text: &TextBuffer, p: Position, big: bool) -> (r: Position)
    requires
        p.line < usize::MAX,
        p.col < usize::MAX,
    ensures
        r@ == next_word(text@.lines, p@, big),
        r.line < usize::MAX,
        r.col < usize::MAX,
{
    let ghost ls = text@.lines;
    let mut line: usize = p.line;
    let mut col: usize = p.col;
    let mut chars = to_chars(text.line(line));
    if col < chars.len() {
        let cls: u8 = char_class(chars[col], big);
        if cls != 0 {
            col = find_run_end(chars.as_slice(), col, cls, big);
        }
    }
    let count: usize = text.line_count();
    loop
        invariant
            ls == text@.lines,
            count == ls.len(),
            line < usize::MAX,
            chars@ == line_at(ls, line as int),
            next_word(ls, p@, big) == word_from(ls, line as int, col as int, big),
        decreases ls.len() - line, len_at(ls, line as int) - col,
    {
        if col >= chars.len() {
            if line + 1 >= count {
                return Position::new(line, text.line_len(line));
            }
            line = line + 1;
            col = 0;
            chars = to_chars(text.line(line));
            if chars.len() == 0 {
                return Position::new(line, 0);
            }
            continue;
        }
        if char_class(chars[col], big) == 0 {
            col = col + 1;
        } else {
            return Position::new(line, col);
        }
    }
}

/// End of the word at or after `q`; the last char of the text when there is none.
pub open spec fn end_from(ls: Seq<Seq<char>>, q: Pos, big: bool) -> Pos
    decreases ls.len() - q.line, len_at(ls, q.line) - q.col,
{
    let s = line_at(ls, q.line);
    if q.line >= ls.len() {
        pos(ls.len() - 1, max(len_at(ls, ls.len() - 1) - 1, 0))
    } else if q.col >= s.len() {
        if q.line + 1 >= ls.len() {
            pos(q.line, max(s.len() - 1, 0))
        } else {
            end_from(ls, pos(q.line + 1, 0), big)
        }
    } else if class_of(s[q.col], big) == 0 {
        end_from(ls, pos(q.line, q.col + 1), big)
    } else {
        pos(q.line, run_end(s, q.col, class_of(s[q.col], big), big) - 1)
    }
}

/// End of the current or next word.
pub open spec fn word_end_of(ls: Seq<Seq<char>>, p: Pos, big: bool) -> Pos {
    end_from(ls, advanced(ls, p), big)
}

/// e / E: end of the current or next word.
pub fn word_end(text: &TextBuffer, p: Position, big: bool) -> (r: Position)
    requires
        text@.wf(),
        p.line < usize::MAX,
    ensures
        r@ == word_end_of(text@.lines, p@, big),
        r.line < usize::MAX,
        r.col < usize::MAX,
{
    let ghost ls = text@.lines;
    let start = advance(text, p);
    let count: usize = text.line_count();
    let mut line: usize = start.line;
    let mut col: usize = start.col;
    if line >= count {
        let len: usize = text.line_len(count - 1);
        return Position::new(
            count - 1,
            if len > 0 {
                len - 1
            } else {
                0
            },
        );
    }
    let mut chars = to_chars(text.line(line));
    loop
        invariant
            ls == text@.lines,
            count == ls.len(),
            line < count,
            col < usize::MAX,
            chars@ == line_at(ls, line as int),
            word_end_of(ls, p@, big) == end_from(ls, pos(line as int, col as int), big),
        decreases ls.len() - line, len_at(ls, line as int) - col,
    {
        if col >= chars.len() {
            if line + 1 >= count {
                let len: usize = chars.len();
                return Position::new(
                    line,
                    if len > 0 {
                        len - 1
                    } else {
                        0
                    },
                );
            }
            line = line + 1;
            col = 0;
            chars = to_chars(text.line(line));
            continue;
        }
        let cls: u8 = char_class(chars[col], big);
        if cls == 0 {
            let len: usize = text.line_len(line);
            col = col + 1;
        } else {
            let e: usize = find_run_end(chars.as_slice(), col, cls, big);
            proof {
                lemma_run_end(chars@, col as int, cls, big);
            }
            return Position::new(line, e - 1);
        }
    }
}

/// The start of the word that `q` is on; `q` itself when it is on no word.
pub open spec fn start_here(ls: Seq<Seq<char>>, q: Pos, big: bool) -> Pos {
    let s = line_at(ls, q.line);
    if q.col < s.len() && class_of(s[q.col], big) != 0 {
        pos(q.line, run_start(s, q.col, class_of(s[q.col], big), big))
    } else {
        q
    }
}

/// The start of the word at or before `q`, or the empty line met first.
pub open spec fn back_from(ls: Seq<Seq<char>>, q: Pos, big: bool) -> Pos
    decreases q.line, q.col,
{
    let s = line_at(ls, q.line);
    if q.line <= 0 && q.col <= 0 || q.line < 0 || q.col < 0 {
        start_here(ls, q, big)
    } else if q.col >= s.len() {
        if s.len() == 0 {
            q
        } else {
            back_from(ls, stepped_back(ls, q), big)
        }
    } else if class_of(s[q.col], big) == 0 {
        back_from(ls, stepped_back(ls, q), big)
    } else {
        start_here(ls, q, big)
    }
}

/// Start of the current or previous word.
pub open spec fn word_back_of(ls: Seq<Seq<char>>, p: Pos, big: bool) -> Pos {
    if p == pos(0, 0) {
        p
    } else {
        back_from(ls, stepped_back(ls, p), big)
    }
}

fn start_of_word(text: &TextBuffer, q: Position, big: bool) -> (r: Position)
    requires
        q.col < usize::MAX,
    ensures
        r@ == start_here(text@.lines, q@, big),
        r.line == q.line,
        r.col <= q.col,
{
    let chars = to_chars(text.line(q.line));
    if q.col < chars.len() {
        let cls: u8 = char_class(chars[q.col], big);
        if cls != 0 {
            return Position::new(q.line, find_run_start(chars.as_slice(), q.col, cls, big));
        }
    }
    q
}

/// b / B: start of the current or previous word.
pub fn word_back(text: &TextBuffer, p: Position, big: bool) -> (r: Position)
    requires
        p.line < usize::MAX,
        p.col < usize::MAX,
    ensures
        r@ == word_back_of(text@.lines, p@, big),
        r.line < usize::MAX,
        r.col < usize::MAX,
{
    if p.line == 0 && p.col == 0 {
        return p;
    }
    let ghost ls = text@.lines;
    let mut q = step_back(text, p);
    loop
        invariant
            ls == text@.lines,
            q.line < usize::MAX,
            q.col < usize::MAX,
            p@ != pos(0, 0),
            word_back_of(ls, p@, big) == back_from(ls, q@, big),
        decreases q.line, q.col,
    {
        if q.line == 0 && q.col == 0 {
            return start_of_word(text, q, big);
        }
        match text.char_at(q) {
            None => {
                if text.line_len(q.line) == 0 {
                    return q;
                }
                q = step_back(text, q);
            },
            Some(c) => {
                if char_class(c, big) == 0 {
                    q = step_back(text, q);
                } else {
                    return start_of_word(text, q, big);
                }
            },
        }
    }
}

/// The last word char at or before `q`; the start of the text when there is none.
pub open spec fn back_end_from(ls: Seq<Seq<char>>, q: Pos, big: bool) -> Pos
    decreases q.line, q.col,
{
    let s = line_at(ls, q.line);
    if q.line <= 0 && q.col <= 0 || q.line < 0 || q.col < 0 {
        q
    } else if q.col >= s.len() || class_of(s[q.col], big) == 0 {
        back_end_from(ls, stepped_back(ls, q), big)
    } else {
        q
    }
}

/// End of the previous word.
pub open spec fn word_back_end_of(ls: Seq<Seq<char>>, p: Pos, big: bool) -> Pos {
    let q = start_here(ls, p, big);
    if p == pos(0, 0) || q == pos(0, 0) {
        q
    } else {
        back_end_from(ls, stepped_back(ls, q), big)
    }
}

/// ge / gE: end of the previous word.
pub fn word_back_end(text: &TextBuffer, p: Position, big: bool) -> (r: Position)
    requires
        p.line < usize::MAX,
        p.col < usize::MAX,
    ensures
        r@ == word_back_end_of(text@.lines, p@, big),
        r.line < usize::MAX,
        r.col < usize::MAX,
{
    let ghost ls = text@.lines;
    let s = start_of_word(text, p, big);
    if s.line == 0 && s.col == 0 {
        return s;
    }
    let mut q = step_back(text, s);
    loop
        invariant
            ls == text@.lines,
            q.line < usize::MAX,
            q.col < usize::MAX,
            word_back_end_of(ls, p@, big) == back_end_from(ls, q@, big),
        decreases q.line, q.col,
    {
        if q.line == 0 && q.col == 0 {
            return q;
        }
        match text.char_at(q) {
            None => {
                q = step_back(text, q);
            },
            Some(c) => {
                if char_class(c, big) == 0 {
                    q = step_back(text, q);
                } else {
                    return q;
                }
            },
        }
    }
}

/// The first empty line at or after `l`, or the number of lines.
pub open spec fn empty_from(ls: Seq<Seq<char>>, l: int) -> int
    decreases ls.len() - l,
{
    if l < ls.len() && len_at(ls, l) != 0 {
        empty_from(ls, l + 1)
    } else {
        l
    }
}

/// The `n`-th empty line after `l`, or the end of the text.
pub open spec fn para_after(ls: Seq<Seq<char>>, l: int, n: int) -> Pos
    decreases n,
{
    if n <= 0 {
        pos(l, 0)
    } else {
        let e = empty_from(ls, l + 1);
        if e >= ls.len() {
            pos(ls.len() - 1, len_at(ls, ls.len() - 1))
        } else {
            para_after(ls, e, n - 1)
        }
    }
}

/// }: line of the next empty line (or the end of the buffer).
pub fn para_forward(text: &TextBuffer, from_line: usize, n: usize) -> (r: Position)
    requires
        text@.wf(),
        from_line < usize::MAX,
    ensures
        r@ == para_after(text@.lines, from_line as int, n as int),
        r.line < usize::MAX,
        r.col < usize::MAX,
{
    let ghost ls = text@.lines;
    let count: usize = text.line_count();
    let mut l: usize = from_line;
    for k in 0..n
        invariant
            ls == text@.lines,
            count == ls.len(),
            count >= 1,
            l < usize::MAX,
            para_after(ls, from_line as int, n as int) == para_after(ls, l as int, n - k),
    {
        let ghost start = l as int;
        l = l + 1;
        while l < count && text.line_len(l) != 0
            invariant
                ls == text@.lines,
                count == ls.len(),
                empty_from(ls, start + 1) == empty_from(ls, l as int),
            ensures
                l == empty_from(ls, start + 1),
            decreases count - l,
        {
            l = l + 1;
        }
        if l >= count {
            return Position::new(count - 1, text.line_len(count - 1));
        }
    }
    Position::new(l, 0)
}

/// The last empty line at or before `l`, or line 0.
pub open spec fn empty_back(ls: Seq<Seq<char>>, l: int) -> int
    decreases l,
{
    if l > 0 && len_at(ls, l) != 0 {
        empty_back(ls, l - 1)
    } else {
        l
    }
}

/// The `n`-th empty line before `l`, or the start of the text.
pub open spec fn para_before(ls: Seq<Seq<char>>, l: int, n: int) -> Pos
    decreases n,
{
    if n <= 0 {
        pos(l, 0)
    } else if l <= 0 {
        pos(0, 0)
    } else {
        let e = empty_back(ls, l - 1);
        if e == 0 && len_at(ls, 0) != 0 {
            pos(0, 0)
        } else {
            para_before(ls, e, n - 1)
        }
    }
}

/// {: line of the previous empty line (or the start of the buffer).
pub fn para_back(text: &TextBuffer, from_line: usize, n: usize) -> (r: Position)
    requires
        from_line < usize::MAX,
    ensures
        r@ == para_before(text@.lines, from_line as int, n as int),
        r.line < usize::MAX,
        r.col == 0,
{
    let ghost ls = text@.lines;
    let mut l: usize = from_line;
    for k in 0..n
        invariant
            ls == text@.lines,
            l < usize::MAX,
            para_before(ls, from_line as int, n as int) == para_before(ls, l as int, n - k),
    {
        if l == 0 {
            return Position::new(0, 0);
        }
        let ghost start = l as int;
        l = l - 1;
        while l > 0 && text.line_len(l) != 0
            invariant
                ls == text@.lines,
                l < usize::MAX,
                empty_back(ls, start - 1) == empty_back(ls, l as int),
            ensures
                l == empty_back(ls, start - 1),
            decreases l,
        {
            l = l - 1;
        }
        if l == 0 && text.line_len(0) != 0 {
            return Position::new(0, 0);
        }
    }
    Position::new(l, 0)
}

/// The place where the bracket depth returns to zero, scanning from a column; `None` when the
/// text or the budget runs out first.
pub open spec fn close_from(
    ls: Seq<Seq<char>>,
    line: int,
    col: int,
    depth: int,
    budget: int,
    open: char,
    close: char,
) -> Option<Pos>
    decreases ls.len() - line, len_at(ls, line) - col,
{
    let s = line_at(ls, line);
    if line >= ls.len() {
        None
    } else if col >= s.len() {
        close_from(ls, line + 1, 0, depth, budget, open, close)
    } else if budget <= 0 {
        None
    } else if s[col] == open {
        close_from(ls, line, col + 1, depth + 1, budget - 1, open, close)
    } else if s[col] == close {
        if depth == 1 {
            Some(pos(line, col))
        } else {
            close_from(ls, line, col + 1, depth - 1, budget - 1, open, close)
        }
    } else {
        close_from(ls, line, col + 1, depth, budget - 1, open, close)
    }
}

/// Closing partner of the `open` at `p`, looked for over at most `limit` chars.
pub open spec fn closing_within(
    ls: Seq<Seq<char>>,
    p: Pos,
    open: char,
    close: char,
    limit: int,
) -> Option<Pos> {
    close_from(ls, p.line, p.col + 1, 1, limit, open, close)
}

/// Closing partner of the `open` at `p`.
pub open spec fn closing(ls: Seq<Seq<char>>, p: Pos, open: char, close: char) -> Option<Pos> {
    closing_within(ls, p, open, close, MATCH_BUDGET as int)
}

pub open spec fn same_pos(r: Option<Position>, s: Option<Pos>) -> bool {
    match r {
        Some(p) => s == Some(p@) && p.line < usize::MAX && p.col < usize::MAX,
        None => s is None,
    }
}

/// Closing partner of the `open` at `from`, scanning forward over at most `limit` chars.
pub fn scan_forward(
    text: &TextBuffer,
    from: Position,
    open: char,
    close: char,
    limit: usize,
) -> (r: Option<Position>)
    requires
        from.col < usize::MAX,
        limit < usize::MAX,
    ensures
        same_pos(r, closing_within(text@.lines, from@, open, close, limit as int)),
{
    let ghost ls = text@.lines;
    let ghost want = closing_within(ls, from@, open, close, limit as int);
    let count: usize = text.line_count();
    let mut depth: usize = 1;
    let mut budget: usize = limit;
    let mut line: usize = from.line;
    let mut col: usize = from.col + 1;
    while line < count
        invariant
            ls == text@.lines,
            count == ls.len(),
            limit < usize::MAX,
            want == closing_within(ls, from@, open, close, limit as int),
            1 <= depth <= 1 + limit - budget,
            budget <= limit,
            want == close_from(
                ls,
                line as int,
                col as int,
                depth as int,
                budget as int,
                open,
                close,
            ),
        decreases ls.len() - line,
    {
        let chars = to_chars(text.line(line));
        while col < chars.len()
            invariant
                ls == text@.lines,
                count == ls.len(),
                line < count,
                chars@ == line_at(ls, line as int),
                limit < usize::MAX,
            want == closing_within(ls, from@, open, close, limit as int),
            1 <= depth <= 1 + limit - budget,
                budget <= limit,
                want == close_from(
                    ls,
                    line as int,
                    col as int,
                    depth as int,
                    budget as int,
                    open,
                    close,
                ),
                decreases chars@.len() - col,
        {
            if budget == 0 {
                return None;
            }
            budget = budget - 1;
            if chars[col] == open {
                depth = depth + 1;
            } else if chars[col] == close {
                if depth == 1 {
                    return Some(Position::new(line, col));
                }
                depth = depth - 1;
            }
            col = col + 1;
        }
        line = line + 1;
        col = 0;
    }
    None
}

/// Closing partner of the `open` at `from`, scanning forward.
pub fn match_forward(text: &TextBuffer, from: Position, open: char, close: char) -> (r: Option<
    Position,
>)
    requires
        from.col < usize::MAX,
    ensures
        same_pos(r, closing(text@.lines, from@, open, close)),
{
    scan_forward(text, from, open, close, MATCH_BUDGET)
}

/// The unmatched `open` before a column, scanning backward; `None` when the text or the budget
/// runs out first.
pub open spec fn open_from(
    ls: Seq<Seq<char>>,
    line: int,
    col: int,
    depth: int,
    budget: int,
    open: char,
    close: char,
) -> Option<Pos>
    decreases line, col,
{
    let s = line_at(ls, line);
    if line < 0 || col > s.len() {
        None
    } else if col <= 0 {
        if line == 0 {
            None
        } else {
            open_from(ls, line - 1, len_at(ls, line - 1), depth, budget, open, close)
        }
    } else if budget <= 0 {
        None
    } else if s[col - 1] == close {
        open_from(ls, line, col - 1, depth + 1, budget - 1, open, close)
    } else if s[col - 1] == open {
        if depth == 0 {
            Some(pos(line, col - 1))
        } else {
            open_from(ls, line, col - 1, depth - 1, budget - 1, open, close)
        }
    } else {
        open_from(ls, line, col - 1, depth, budget - 1, open, close)
    }
}

/// Unmatched `open` before `p`, looked for over at most `limit` chars.
pub open spec fn opening_within(
    ls: Seq<Seq<char>>,
    p: Pos,
    open: char,
    close: char,
    limit: int,
) -> Option<Pos> {
    open_from(ls, p.line, min(p.col, len_at(ls, p.line)), 0, limit, open, close)
}

/// Unmatched `open` before `p`.
pub open spec fn opening(ls: Seq<Seq<char>>, p: Pos, open: char, close: char) -> Option<Pos> {
    opening_within(ls, p, open, close, MATCH_BUDGET as int)
}

/// Unmatched `open` before `from`, scanning backward over at most `limit` chars.
pub fn scan_backward(
    text: &TextBuffer,
    from: Position,
    open: char,
    close: char,
    limit: usize,
) -> (r: Option<Position>)
    requires
        from.line < usize::MAX,
        limit < usize::MAX,
    ensures
        same_pos(r, opening_within(text@.lines, from@, open, close, limit as int)),
{
    let ghost ls = text@.lines;
    let ghost want = opening_within(ls, from@, open, close, limit as int);
    let mut depth: usize = 0;
    let mut budget: usize = limit;
    let mut line: usize = from.line;
    let len: usize = text.line_len(line);
    let mut col: usize = if from.col < len {
        from.col
    } else {
        len
    };
    loop
        invariant
            ls == text@.lines,
            line < usize::MAX,
            col <= len_at(ls, line as int),
            limit < usize::MAX,
            want == opening_within(ls, from@, open, close, limit as int),
            depth <= limit - budget,
            budget <= limit,
            want == open_from(
                ls,
                line as int,
                col as int,
                depth as int,
                budget as int,
                open,
                close,
            ),
        decreases line,
    {
        let chars = to_chars(text.line(line));
        while col > 0
            invariant
                ls == text@.lines,
                line < usize::MAX,
                chars@ == line_at(ls, line as int),
                col <= chars@.len(),
                limit < usize::MAX,
            want == opening_within(ls, from@, open, close, limit as int),
            depth <= limit - budget,
                budget <= limit,
                    want == open_from(
                    ls,
                    line as int,
                    col as int,
                    depth as int,
                    budget as int,
                    open,
                    close,
                ),
            decreases col,
        {
            if budget == 0 {
                return None;
            }
            budget = budget - 1;
            let c = chars[col - 1];
            if c == close {
                depth = depth + 1;
            } else if c == open {
                if depth == 0 {
                    return Some(Position::new(line, col - 1));
                }
                depth = depth - 1;
            }
            col = col - 1;
        }
        if line == 0 {
            return None;
        }
        line = line - 1;
        col = text.line_len(line);
    }
}

/// Unmatched `open` before `from`, scanning backward.
pub fn match_backward(text: &TextBuffer, from: Position, open: char, close: char) -> (r: Option<
    Position,
>)
    requires
        from.line < usize::MAX,
    ensures
        same_pos(r, opening(text@.lines, from@, open, close)),
{
    scan_backward(text, from, open, close, MATCH_BUDGET)
}

pub open spec fn is_bracket(c: char) -> bool {
    c == '(' || c == ')' || c == '[' || c == ']' || c == '{' || c == '}'
}

/// The first bracket of `s` at or after `i`, or its length.
pub open spec fn bracket_from(s: Seq<char>, i: int) -> int
    decreases s.len() - i,
{
    if 0 <= i < s.len() && !is_bracket(s[i]) {
        bracket_from(s, i + 1)
    } else {
        i
    }
}

/// Partner of the first bracket at or after `p` on its line.
pub open spec fn bracket_partner(ls: Seq<Seq<char>>, p: Pos) -> Option<Pos> {
    let s = line_at(ls, p.line);
    let i = bracket_from(s, p.col);
    if i >= s.len() {
        None
    } else {
        let at = pos(p.line, i);
        if s[i] == '(' {
            closing(ls, at, '(', ')')
        } else if s[i] == '[' {
            closing(ls, at, '[', ']')
        } else if s[i] == '{' {
            closing(ls, at, '{', '}')
        } else if s[i] == ')' {
            opening(ls, at, '(', ')')
        } else if s[i] == ']' {
            opening(ls, at, '[', ']')
        } else {
            opening(ls, at, '{', '}')
        }
    }
}

/// `%`: partner of the first bracket at or after the cursor on its line.
pub fn match_bracket(text: &TextBuffer, cur: Position) -> (r: Option<Position>)
    requires
        cur.line < usize::MAX,
        cur.col < usize::MAX,
    ensures
        same_pos(r, bracket_partner(text@.lines, cur@)),
{
    let chars = to_chars(text.line(cur.line));
    let mut i: usize = cur.col;
    while i < chars.len() && !(chars[i] == '(' || chars[i] == ')' || chars[i] == '[' || chars[i]
        == ']' || chars[i] == '{' || chars[i] == '}')
        invariant
            cur.col <= i,
            bracket_from(chars@, cur.col as int) == bracket_from(chars@, i as int),
        ensures
            i == bracket_from(chars@, cur.col as int),
        decreases chars@.len() - i,
    {
        i = i + 1;
    }
    if i >= chars.len() {
        return None;
    }
    let from = Position::new(cur.line, i);
    let len: usize = text.line_len(cur.line);
    let c = chars[i];
    if c == '(' {
        match_forward(text, from, '(', ')')
    } else if c == '[' {
        match_forward(text, from, '[', ']')
    } else if c == '{' {
        match_forward(text, from, '{', '}')
    } else if c == ')' {
        match_backward(text, from, '(', ')')
    } else if c == ']' {
        match_backward(text, from, '[', ']')
    } else {
        match_backward(text, from, '{', '}')
    }
}

} // verus!
