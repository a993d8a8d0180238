//! Laws of motions: which places they stop at, and that they pass none by.

use vstd::prelude::*;

use crate::rvim::buffer::{line_at, max, pos, pos_le, Pos};
use crate::rvim::motion::{
    advanced, back_end_from, back_from, class_of, empty_back, empty_from, end_from, indent_of,
    lemma_run_end, lemma_run_start, len_at, next_word, para_after, para_before, run_end, run_start,
    start_here, stepped_back, word_back_end_of, word_back_of, word_end_of, word_from,
};
use crate::rvim::objects::next_char;
use crate::rvim::pattern::strictly_before;
use crate::rvim::vim::moves::{nth_char, prev_char};
use crate::text::{is_space, lemma_space_prefix};
use crate::unicode::is_alnum;

verus! {

/// A letter, a digit or an underscore.
pub open spec fn wordy(c: char) -> bool {
    c == '_' || is_alnum(c)
}

/// Two neighbours in one word: neither is blank, and unless any non-blank will do, both are
/// wordy or neither is.
pub open spec fn together(a: char, b: char, big: bool) -> bool {
    !is_space(a) && !is_space(b) && (big || wordy(a) == wordy(b))
}

/// A word starts at column `k`.
pub open spec fn starts_word(s: Seq<char>, k: int, big: bool) -> bool {
    0 <= k < s.len() && !is_space(s[k]) && (k == 0 || !together(s[k - 1], s[k], big))
}

/// A word ends on column `k`.
pub open spec fn ends_word(s: Seq<char>, k: int, big: bool) -> bool {
    0 <= k < s.len() && !is_space(s[k]) && (k + 1 == s.len() || !together(s[k], s[k + 1], big))
}

/// The places of a text where w and b stop: word starts and empty lines.
pub open spec fn word_stop(ls: Seq<Seq<char>>, p: Pos, big: bool) -> bool {
    0 <= p.line < ls.len() && (starts_word(ls[p.line], p.col, big) || ls[p.line].len() == 0
        && p.col == 0)
}

/// The places of a text where e and ge stop: word ends.
pub open spec fn end_stop(ls: Seq<Seq<char>>, p: Pos, big: bool) -> bool {
    0 <= p.line < ls.len() && ends_word(ls[p.line], p.col, big)
}

/// A place in the text, or just past the end of one of its lines.
pub open spec fn placed(ls: Seq<Seq<char>>, p: Pos) -> bool {
    0 <= p.line < ls.len() && 0 <= p.col <= ls[p.line].len()
}

proof fn lemma_together(a: char, b: char, big: bool)
    ensures
        together(a, b, big) <==> class_of(a, big) != 0 && class_of(a, big) == class_of(b, big),
        is_space(a) <==> class_of(a, big) == 0,
{
}

/// Reached from a place: a char there, or anything after it.
spec fn reached(ls: Seq<Seq<char>>, line: int, col: int, r: Pos) -> bool {
    strictly_before(pos(line, col), r) || r == pos(line, col) && col < len_at(ls, line)
}

proof fn lemma_word_from(ls: Seq<Seq<char>>, line: int, col: int, big: bool)
    requires
        0 <= line < ls.len(),
        0 <= col,
        col < len_at(ls, line) && !is_space(ls[line][col]) ==> starts_word(ls[line], col, big),
    ensures
        ({
            let q = word_from(ls, line, col, big);
            ||| reached(ls, line, col, q) && word_stop(ls, q, big) && forall|r: Pos|
                reached(ls, line, col, r) && strictly_before(r, q) ==> !#[trigger] word_stop(
                    ls,
                    r,
                    big,
                )
            ||| q == pos(ls.len() - 1, len_at(ls, ls.len() - 1)) && forall|r: Pos|
                reached(ls, line, col, r) ==> !#[trigger] word_stop(ls, r, big)
        }),
    decreases ls.len() - line, len_at(ls, line) - col,
{
    let s = ls[line];
    if col >= s.len() {
        if line + 1 < ls.len() && len_at(ls, line + 1) != 0 {
            lemma_word_from(ls, line + 1, 0, big);
        }
    } else if is_space(s[col]) {
        lemma_word_from(ls, line, col + 1, big);
    }
}

/// No word starts or ends inside a run of one class.
proof fn lemma_run(s: Seq<char>, a: int, b: int, cls: u8, big: bool)
    requires
        0 <= a < b <= s.len(),
        cls != 0,
        forall|k: int| a <= k < b ==> class_of(#[trigger] s[k], big) == cls,
    ensures
        forall|k: int| a < k < b ==> !#[trigger] starts_word(s, k, big),
        forall|k: int| a <= k < b - 1 ==> !#[trigger] ends_word(s, k, big),
        a == 0 || class_of(s[a - 1], big) != cls ==> starts_word(s, a, big),
        b == s.len() || class_of(s[b], big) != cls ==> ends_word(s, b - 1, big),
{
    assert forall|k: int| a < k < b implies !#[trigger] starts_word(s, k, big) by {
        assert(class_of(s[k - 1], big) == cls && class_of(s[k], big) == cls);
    }
    assert forall|k: int| a <= k < b - 1 implies !#[trigger] ends_word(s, k, big) by {
        assert(class_of(s[k + 1], big) == cls && class_of(s[k], big) == cls);
    }
    assert(class_of(s[a], big) == cls && class_of(s[b - 1], big) == cls);
}

/// w and W go to the nearest word start or empty line after the cursor; with none left, to the
/// end of the text.
pub proof fn law_word_forward_is_nearest(ls: Seq<Seq<char>>, p: Pos, big: bool)
    requires
        placed(ls, p),
    ensures
        ({
            let q = next_word(ls, p, big);
            ||| strictly_before(p, q) && word_stop(ls, q, big) && forall|r: Pos|
                strictly_before(p, r) && strictly_before(r, q) ==> !#[trigger] word_stop(
                    ls,
                    r,
                    big,
                )
            ||| q == pos(ls.len() - 1, len_at(ls, ls.len() - 1)) && forall|r: Pos|
                strictly_before(p, r) ==> !#[trigger] word_stop(ls, r, big)
        }),
{
    let s = ls[p.line];
    if p.col < s.len() && !is_space(s[p.col]) {
        let cls = class_of(s[p.col], big);
        let e = run_end(s, p.col, cls, big);
        lemma_run_end(s, p.col, cls, big);
        lemma_run(s, p.col, e, cls, big);
        if e < s.len() {
            assert(class_of(s[e - 1], big) == cls);
        }
        lemma_word_from(ls, p.line, e, big);
    } else {
        lemma_word_from(ls, p.line, p.col, big);
    }
}

proof fn lemma_end_from(ls: Seq<Seq<char>>, p: Pos, big: bool)
    requires
        placed(ls, p),
    ensures
        ({
            let q = end_from(ls, p, big);
            ||| pos_le(p, q) && end_stop(ls, q, big) && forall|r: Pos|
                pos_le(p, r) && strictly_before(r, q) ==> !#[trigger] end_stop(ls, r, big)
            ||| q == pos(ls.len() - 1, max(len_at(ls, ls.len() - 1) - 1, 0)) && forall|r: Pos|
                pos_le(p, r) ==> !#[trigger] end_stop(ls, r, big)
        }),
    decreases ls.len() - p.line, len_at(ls, p.line) - p.col,
{
    let s = ls[p.line];
    if p.col >= s.len() {
        if p.line + 1 < ls.len() {
            lemma_end_from(ls, pos(p.line + 1, 0), big);
        }
    } else if is_space(s[p.col]) {
        lemma_end_from(ls, pos(p.line, p.col + 1), big);
    } else {
        let cls = class_of(s[p.col], big);
        let e = run_end(s, p.col, cls, big);
        lemma_run_end(s, p.col, cls, big);
        lemma_run(s, p.col, e, cls, big);
    }
}

/// e and E go to the nearest word end after the cursor; with none left, to the last char.
pub proof fn law_word_end_is_nearest(ls: Seq<Seq<char>>, p: Pos, big: bool)
    requires
        placed(ls, p),
    ensures
        ({
            let q = word_end_of(ls, p, big);
            ||| strictly_before(p, q) && end_stop(ls, q, big) && forall|r: Pos|
                strictly_before(p, r) && strictly_before(r, q) ==> !#[trigger] end_stop(
                    ls,
                    r,
                    big,
                )
            ||| q == pos(ls.len() - 1, max(len_at(ls, ls.len() - 1) - 1, 0)) && forall|r: Pos|
                strictly_before(p, r) ==> !#[trigger] end_stop(ls, r, big)
        }),
{
    lemma_end_from(ls, advanced(ls, p), big);
}

/// E stops on a non-blank that is the last of its line or has a blank behind it.
pub proof fn law_big_word_end(ls: Seq<Seq<char>>, p: Pos)
    requires
        placed(ls, p),
        exists|r: Pos| strictly_before(p, r) && #[trigger] end_stop(ls, r, true),
    ensures
        ({
            let q = word_end_of(ls, p, true);
            let s = line_at(ls, q.line);
            &&& 0 <= q.col < s.len() && !is_space(s[q.col])
            &&& q.col + 1 == s.len() || is_space(s[q.col + 1])
        }),
{
    law_word_end_is_nearest(ls, p, true);
}

proof fn lemma_back_from(ls: Seq<Seq<char>>, p: Pos, big: bool)
    requires
        placed(ls, p),
    ensures
        ({
            let q = back_from(ls, p, big);
            ||| pos_le(q, p) && word_stop(ls, q, big) && forall|r: Pos|
                strictly_before(q, r) && pos_le(r, p) ==> !#[trigger] word_stop(ls, r, big)
            ||| q == pos(0, 0) && forall|r: Pos|
                pos_le(r, p) ==> !#[trigger] word_stop(ls, r, big)
        }),
    decreases p.line, p.col,
{
    let s = ls[p.line];
    if p.col < s.len() && !is_space(s[p.col]) {
        let cls = class_of(s[p.col], big);
        let a = run_start(s, p.col, cls, big);
        lemma_run_start(s, p.col, cls, big);
        lemma_run(s, a, p.col + 1, cls, big);
    } else if p.line == 0 && p.col == 0 {
    } else if s.len() > 0 {
        lemma_back_from(ls, stepped_back(ls, p), big);
    }
}

/// b and B go to the nearest word start or empty line before the cursor; with none left, to the
/// start of the text.
pub proof fn law_word_back_is_nearest(ls: Seq<Seq<char>>, p: Pos, big: bool)
    requires
        placed(ls, p),
    ensures
        ({
            let q = word_back_of(ls, p, big);
            ||| strictly_before(q, p) && word_stop(ls, q, big) && forall|r: Pos|
                strictly_before(q, r) && strictly_before(r, p) ==> !#[trigger] word_stop(
                    ls,
                    r,
                    big,
                )
            ||| q == pos(0, 0) && forall|r: Pos|
                strictly_before(r, p) ==> !#[trigger] word_stop(ls, r, big)
        }),
{
    if p != pos(0, 0) {
        let b = stepped_back(ls, p);
        lemma_back_from(ls, b, big);
        assert forall|r: Pos| strictly_before(r, p) && #[trigger] word_stop(
            ls,
            r,
            big,
        ) implies pos_le(r, b) by {}
    }
}

proof fn lemma_back_end_from(ls: Seq<Seq<char>>, p: Pos, big: bool)
    requires
        placed(ls, p),
        p.col < len_at(ls, p.line) && !is_space(ls[p.line][p.col]) ==> ends_word(
            ls[p.line],
            p.col,
            big,
        ),
    ensures
        ({
            let q = back_end_from(ls, p, big);
            ||| pos_le(q, p) && end_stop(ls, q, big) && forall|r: Pos|
                strictly_before(q, r) && pos_le(r, p) ==> !#[trigger] end_stop(ls, r, big)
            ||| q == pos(0, 0) && forall|r: Pos|
                pos_le(r, p) ==> !#[trigger] end_stop(ls, r, big)
        }),
    decreases p.line, p.col,
{
    let s = ls[p.line];
    if p.line == 0 && p.col == 0 {
    } else if p.col >= s.len() || is_space(s[p.col]) {
        lemma_back_end_from(ls, stepped_back(ls, p), big);
    }
}

/// ge and gE go to the nearest word end before the cursor; with none left, to the start of the
/// text.
pub proof fn law_word_back_end_is_nearest(ls: Seq<Seq<char>>, p: Pos, big: bool)
    requires
        placed(ls, p),
    ensures
        ({
            let q = word_back_end_of(ls, p, big);
            ||| strictly_before(q, p) && end_stop(ls, q, big) && forall|r: Pos|
                strictly_before(q, r) && strictly_before(r, p) ==> !#[trigger] end_stop(
                    ls,
                    r,
                    big,
                )
            ||| q == pos(0, 0) && forall|r: Pos|
                strictly_before(r, p) ==> !#[trigger] end_stop(ls, r, big)
        }),
{
    let s = ls[p.line];
    let a = start_here(ls, p, big);
    if p.col < s.len() && !is_space(s[p.col]) {
        let cls = class_of(s[p.col], big);
        lemma_run_start(s, p.col, cls, big);
        lemma_run(s, a.col, p.col + 1, cls, big);
    }
    if a != pos(0, 0) {
        let b = stepped_back(ls, a);
        if b.line == a.line && b.col < s.len() && a.col < s.len() {
            lemma_together(s[b.col], s[a.col], big);
        }
        lemma_back_end_from(ls, b, big);
        assert forall|r: Pos| strictly_before(r, p) && #[trigger] end_stop(
            ls,
            r,
            big,
        ) implies pos_le(r, b) by {}
    }
}

/// ^ goes to the first non-blank of the line; on a blank line, to its start.
pub proof fn law_first_nonblank(s: Seq<char>)
    ensures
        ({
            let c = indent_of(s);
            ||| 0 <= c < s.len() && !is_space(s[c]) && forall|k: int|
                0 <= k < c ==> is_space(#[trigger] s[k])
            ||| c == 0 && forall|k: int| 0 <= k < s.len() ==> is_space(#[trigger] s[k])
        }),
{
    lemma_space_prefix(s);
}

/// How often `c` stands in `s` at columns `[i, j)`.
pub open spec fn tally(s: Seq<char>, c: char, i: int, j: int) -> int
    decreases j - i,
{
    if j <= i {
        0
    } else {
        tally(s, c, i, j - 1) + if s[j - 1] == c {
            1int
        } else {
            0
        }
    }
}

pub proof fn lemma_tally_split(s: Seq<char>, c: char, i: int, m: int, j: int)
    requires
        i <= m <= j,
    ensures
        tally(s, c, i, j) == tally(s, c, i, m) + tally(s, c, m, j),
        0 <= tally(s, c, m, j) <= j - m,
    decreases j - m,
{
    if m < j {
        lemma_tally_split(s, c, i, m, j - 1);
    }
}

pub proof fn lemma_next_char(s: Seq<char>, c: char, i: int)
    requires
        0 <= i <= s.len(),
    ensures
        i <= next_char(s, c, i) <= s.len(),
        next_char(s, c, i) < s.len() ==> s[next_char(s, c, i)] == c,
        tally(s, c, i, next_char(s, c, i)) == 0,
    decreases s.len() - i,
{
    if i < s.len() && s[i] != c {
        lemma_next_char(s, c, i + 1);
        lemma_tally_split(s, c, i, i + 1, next_char(s, c, i));
        assert(tally(s, c, i, i + 1) == tally(s, c, i, i));
    }
}

proof fn lemma_prev_char(s: Seq<char>, c: char, i: int)
    requires
        0 <= i <= s.len(),
    ensures
        -1 <= prev_char(s, c, i) < i || i == 0 && prev_char(s, c, i) == -1,
        prev_char(s, c, i) >= 0 ==> s[prev_char(s, c, i)] == c,
        tally(s, c, prev_char(s, c, i) + 1, i) == 0,
    decreases i,
{
    if i > 0 && s[i - 1] != c {
        lemma_prev_char(s, c, i - 1);
    }
}

/// A find forward stops on the target with one of it less than the count between the cursor and
/// there; it finds nothing when there are too few after the cursor.
pub proof fn law_find_forward(s: Seq<char>, c: char, col: int, n: int)
    requires
        0 <= col < s.len(),
        n >= 1,
    ensures
        match nth_char(s, c, col, true, n) {
            Some(i) => col < i < s.len() && s[i] == c && tally(s, c, col + 1, i) == n - 1,
            None => tally(s, c, col + 1, s.len() as int) < n,
        },
    decreases n,
{
    let len = s.len() as int;
    let i = next_char(s, c, col + 1);
    lemma_next_char(s, c, col + 1);
    lemma_tally_split(s, c, col + 1, i, len);
    if i < len {
        lemma_tally_split(s, c, col + 1, i + 1, len);
        assert(tally(s, c, col + 1, i + 1) == 1);
        if n > 1 {
            law_find_forward(s, c, i, n - 1);
            if let Some(k) = nth_char(s, c, i, true, n - 1) {
                lemma_tally_split(s, c, col + 1, i + 1, k);
            }
        } else {
            assert(nth_char(s, c, i, true, 0) == Some(i));
        }
    }
}

/// A find backward stops on the target with one of it less than the count between there and the
/// cursor; it finds nothing when there are too few before the cursor.
pub proof fn law_find_backward(s: Seq<char>, c: char, col: int, n: int)
    requires
        0 <= col <= s.len(),
        n >= 1,
    ensures
        match nth_char(s, c, col, false, n) {
            Some(i) => 0 <= i < col && s[i] == c && tally(s, c, i + 1, col) == n - 1,
            None => tally(s, c, 0, col) < n,
        },
    decreases n,
{
    let i = prev_char(s, c, col);
    lemma_prev_char(s, c, col);
    lemma_tally_split(s, c, 0, i + 1, col);
    if i >= 0 {
        assert(tally(s, c, 0, i + 1) == tally(s, c, 0, i) + 1);
        if n > 1 {
            law_find_backward(s, c, i, n - 1);
            if let Some(k) = nth_char(s, c, i, false, n - 1) {
                lemma_tally_split(s, c, k + 1, i, col);
                lemma_tally_split(s, c, i, i + 1, col);
                assert(tally(s, c, i, i + 1) == 1 + tally(s, c, i, i));
            }
        } else {
            assert(nth_char(s, c, i, false, 0) == Some(i));
        }
    } else {
        assert(tally(s, c, 0, 0) == 0);
    }
}

/// How many of the lines `[i, j)` are empty.
pub open spec fn empties(ls: Seq<Seq<char>>, i: int, j: int) -> int
    decreases j - i,
{
    if j <= i {
        0
    } else {
        empties(ls, i, j - 1) + if ls[j - 1].len() == 0 {
            1int
        } else {
            0
        }
    }
}

proof fn lemma_empties_split(ls: Seq<Seq<char>>, i: int, m: int, j: int)
    requires
        i <= m <= j,
    ensures
        empties(ls, i, j) == empties(ls, i, m) + empties(ls, m, j),
        0 <= empties(ls, m, j),
    decreases j - m,
{
    if m < j {
        lemma_empties_split(ls, i, m, j - 1);
    }
}

proof fn lemma_empty_from(ls: Seq<Seq<char>>, l: int)
    requires
        0 <= l <= ls.len(),
    ensures
        l <= empty_from(ls, l) <= ls.len(),
        empty_from(ls, l) < ls.len() ==> ls[empty_from(ls, l)].len() == 0,
        empties(ls, l, empty_from(ls, l)) == 0,
    decreases ls.len() - l,
{
    if l < ls.len() && len_at(ls, l) != 0 {
        lemma_empty_from(ls, l + 1);
        lemma_empties_split(ls, l, l + 1, empty_from(ls, l));
        assert(empties(ls, l, l + 1) == empties(ls, l, l));
    }
}

proof fn lemma_empty_back(ls: Seq<Seq<char>>, l: int)
    requires
        0 <= l < ls.len(),
    ensures
        0 <= empty_back(ls, l) <= l,
        empty_back(ls, l) > 0 ==> ls[empty_back(ls, l)].len() == 0,
        empties(ls, empty_back(ls, l) + 1, l + 1) == 0,
    decreases l,
{
    if l > 0 && len_at(ls, l) != 0 {
        lemma_empty_back(ls, l - 1);
    }
}

/// } goes to the count's empty line below the cursor's; with too few, to the end of the text.
pub proof fn law_paragraph_forward(ls: Seq<Seq<char>>, l: int, n: int)
    requires
        0 <= l < ls.len(),
        n >= 1,
    ensures
        ({
            let q = para_after(ls, l, n);
            let last = ls.len() - 1;
            if empties(ls, l + 1, ls.len() as int) >= n {
                l < q.line <= last && q.col == 0 && ls[q.line].len() == 0 && empties(
                    ls,
                    l + 1,
                    q.line,
                ) == n - 1
            } else {
                q == pos(last, ls[last].len() as int)
            }
        }),
    decreases n,
{
    let len = ls.len() as int;
    let e = empty_from(ls, l + 1);
    lemma_empty_from(ls, l + 1);
    if e < len {
        lemma_empties_split(ls, l + 1, e + 1, len);
        assert(empties(ls, l + 1, e + 1) == 1);
        if n > 1 {
            law_paragraph_forward(ls, e, n - 1);
            let q = para_after(ls, e, n - 1);
            if empties(ls, e + 1, len) >= n - 1 {
                lemma_empties_split(ls, l + 1, e + 1, q.line);
            }
        } else {
            lemma_empties_split(ls, l + 1, e + 1, len);
            assert(para_after(ls, e, 0) == pos(e, 0));
        }
    }
}

/// { goes to the count's empty line above the cursor's; with too few, to the start of the text.
pub proof fn law_paragraph_back(ls: Seq<Seq<char>>, l: int, n: int)
    requires
        0 <= l < ls.len(),
        n >= 1,
    ensures
        ({
            let q = para_before(ls, l, n);
            if empties(ls, 0, l) >= n {
                0 <= q.line < l && q.col == 0 && ls[q.line].len() == 0 && empties(
                    ls,
                    q.line + 1,
                    l,
                ) == n - 1
            } else {
                q == pos(0, 0)
            }
        }),
    decreases n,
{
    if l > 0 {
        let e = empty_back(ls, l - 1);
        lemma_empty_back(ls, l - 1);
        lemma_empties_split(ls, 0, e + 1, l);
        assert(empties(ls, 0, e + 1) == empties(ls, 0, e) + if ls[e].len() == 0 {
            1int
        } else {
            0
        });
        if e == 0 {
            assert(empties(ls, 0, 0) == 0);
        }
        if !(e == 0 && ls[0].len() != 0) {
            if n > 1 {
                law_paragraph_back(ls, e, n - 1);
                let q = para_before(ls, e, n - 1);
                if empties(ls, 0, e) >= n - 1 {
                    lemma_empties_split(ls, q.line + 1, e, l);
                    lemma_empties_split(ls, e, e + 1, l);
                    assert(empties(ls, e, e + 1) == 1 + empties(ls, e, e));
                }
            } else {
                lemma_empties_split(ls, 0, 0, e);
                assert(para_before(ls, e, 0) == pos(e, 0));
            }
        }
    }
}

} // verus!
