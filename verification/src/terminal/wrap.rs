//! Wrapping long lines to a width.

use vstd::prelude::*;

use crate::rvim::buffer::min;
use crate::text::{group_texts, range_string, texts, to_chars};

verus! {

broadcast use group_texts;

/// The last space in `[lo, j]`.
pub open spec fn last_space(s: Seq<char>, lo: int, j: int) -> Option<int>
    decreases j - lo + 1,
{
    if j < lo {
        None
    } else if s[j] == ' ' {
        Some(j)
    } else {
        last_space(s, lo, j - 1)
    }
}

/// Where the row that starts at `i` ends: at the last space that fits in it, where the text
/// goes on after it and has one; else after `width` chars.
pub open spec fn row_end(s: Seq<char>, width: int, i: int) -> int {
    let e = min(i + width, s.len() as int);
    if e < s.len() {
        match last_space(s, i + 1, e - 1) {
            Some(j) => j,
            None => e,
        }
    } else {
        e
    }
}

/// Where the next row starts: a space at the break is used up.
pub open spec fn row_next(s: Seq<char>, end: int) -> int {
    if end < s.len() && s[end] == ' ' {
        end + 1
    } else {
        end
    }
}

/// The rows of a text from `i` on.
pub open spec fn rows_from(s: Seq<char>, width: int, i: int) -> Seq<Seq<char>>
    decreases s.len() - i,
{
    let end = row_end(s, width, i);
    if i < 0 || i >= s.len() || end <= i || end > s.len() {
        Seq::empty()
    } else {
        seq![s.subrange(i, end)] + rows_from(s, width, row_next(s, end))
    }
}

/// A text wrapped to a width; without one, or without a text, a single empty row.
pub open spec fn wrapped(s: Seq<char>, width: int) -> Seq<Seq<char>> {
    if width <= 0 || s.len() == 0 {
        seq![Seq::empty()]
    } else if s.len() <= width {
        seq![s]
    } else {
        rows_from(s, width, 0)
    }
}

proof fn lemma_last_space(s: Seq<char>, lo: int, j: int)
    requires
        0 <= lo,
        j < s.len(),
    ensures
        last_space(s, lo, j) matches Some(k) ==> lo <= k <= j && s[k] == ' ',
    decreases j - lo + 1,
{
    if lo <= j && s[j] != ' ' {
        lemma_last_space(s, lo, j - 1);
    }
}

proof fn lemma_row_end(s: Seq<char>, width: int, i: int)
    requires
        0 <= i < s.len(),
        width > 0,
    ensures
        i < row_end(s, width, i) <= s.len(),
        row_end(s, width, i) <= i + width,
{
    let e = min(i + width, s.len() as int);
    lemma_last_space(s, i + 1, e - 1);
}

/// Every row of a wrapped text fits the width.
pub proof fn law_rows_fit(s: Seq<char>, width: int, k: int)
    requires
        width > 0,
        0 <= k < wrapped(s, width).len(),
    ensures
        wrapped(s, width)[k].len() <= width,
{
    if s.len() > width {
        lemma_rows_fit(s, width, 0, k);
    }
}

proof fn lemma_rows_fit(s: Seq<char>, width: int, i: int, k: int)
    requires
        width > 0,
        0 <= i,
        0 <= k < rows_from(s, width, i).len(),
    ensures
        rows_from(s, width, i)[k].len() <= width,
    decreases s.len() - i,
{
    if i < s.len() {
        lemma_row_end(s, width, i);
        if k > 0 {
            let next = row_next(s, row_end(s, width, i));
            lemma_rows_fit(s, width, next, k - 1);
        }
    }
}

/// A text without its spaces.
pub open spec fn dense(s: Seq<char>) -> Seq<char>
    decreases s.len(),
{
    if s.len() == 0 {
        Seq::empty()
    } else if s.last() == ' ' {
        dense(s.drop_last())
    } else {
        dense(s.drop_last()).push(s.last())
    }
}

/// Rows without their spaces, one after the other.
pub open spec fn dense_rows(r: Seq<Seq<char>>) -> Seq<char>
    decreases r.len(),
{
    if r.len() == 0 {
        Seq::empty()
    } else {
        dense(r[0]) + dense_rows(r.skip(1))
    }
}

proof fn lemma_dense_joined(a: Seq<char>, b: Seq<char>)
    ensures
        dense(a + b) == dense(a) + dense(b),
    decreases b.len(),
{
    if b.len() == 0 {
        assert(a + b =~= a);
        assert(dense(a) + dense(b) =~= dense(a));
    } else {
        lemma_dense_joined(a, b.drop_last());
        assert((a + b).drop_last() =~= a + b.drop_last());
        assert((a + b).last() == b.last());
        assert(dense(a) + dense(b.drop_last()).push(b.last()) =~= (dense(a) + dense(
            b.drop_last(),
        )).push(b.last()));
    }
}

/// Wrapping drops nothing but spaces at the breaks.
pub proof fn law_wrap_keeps_text(s: Seq<char>, width: int)
    requires
        width > 0,
    ensures
        dense_rows(wrapped(s, width)) == dense(s),
{
    if s.len() <= width || s.len() == 0 {
        let r = wrapped(s, width);
        assert(r.skip(1) =~= Seq::empty());
        assert(dense_rows(r.skip(1)) =~= Seq::empty());
        assert(dense(r[0]) + Seq::<char>::empty() =~= dense(r[0]));
        if s.len() == 0 {
            assert(s =~= Seq::empty());
        }
    } else {
        lemma_keeps(s, width, 0);
        assert(s.skip(0) =~= s);
    }
}

proof fn lemma_keeps(s: Seq<char>, width: int, i: int)
    requires
        width > 0,
        0 <= i <= s.len(),
    ensures
        dense_rows(rows_from(s, width, i)) == dense(s.skip(i)),
    decreases s.len() - i,
{
    if i < s.len() {
        lemma_row_end(s, width, i);
        let end = row_end(s, width, i);
        let next = row_next(s, end);
        lemma_keeps(s, width, next);
        let piece = s.subrange(i, end);
        let r = rows_from(s, width, i);
        assert(r.skip(1) =~= rows_from(s, width, next));
        assert(s.skip(i) =~= piece + s.skip(end));
        lemma_dense_joined(piece, s.skip(end));
        if next > end {
            let gap = seq![' '];
            assert(s.skip(end) =~= gap + s.skip(next));
            lemma_dense_joined(gap, s.skip(next));
            assert(gap.drop_last() =~= Seq::empty());
            assert(dense(Seq::<char>::empty()) =~= Seq::empty());
            assert(dense(gap) =~= Seq::empty());
            assert(Seq::<char>::empty() + dense(s.skip(next)) =~= dense(s.skip(next)));
        }
    } else {
        assert(s.skip(i) =~= Seq::empty());
    }
}

fn find_end(s: &Vec<char>, width: usize, i: usize) -> (end: usize)
    requires
        i < s@.len(),
        width > 0,
    ensures
        end == row_end(s@, width as int, i as int),
        i < end <= s@.len(),
{
    let len: usize = s.len();
    proof {
        lemma_row_end(s@, width as int, i as int);
    }
    let e: usize = if width < len - i {
        i + width
    } else {
        len
    };
    if e >= len {
        return e;
    }
    let mut j: usize = e;
    while j > i + 1
        invariant
            i + 1 <= j <= e < len,
            len == s@.len(),
            e == i + width,
            last_space(s@, i + 1, e - 1) == last_space(s@, i + 1, j - 1),
        decreases j,
    {
        if s[j - 1] == ' ' {
            return j - 1;
        }
        j = j - 1;
    }
    e
}

/// Wrap `text` to `width` columns, breaking at spaces where possible without dropping content.
pub fn wrap(text: &str, width: usize) -> (r: Vec<String>)
    ensures
        texts(r@) == wrapped(text@, width as int),
{
    let s = to_chars(text);
    let len: usize = s.len();
    let mut out: Vec<String> = Vec::new();
    if width == 0 || len == 0 {
        let none = String::new();
        assert(none@ =~= Seq::<char>::empty());
        out.push(none);
        assert(texts(out@) =~= wrapped(text@, width as int));
        return out;
    }
    if len <= width {
        out.push(text.to_string());
        assert(texts(out@) =~= wrapped(text@, width as int));
        return out;
    }
    let ghost all = rows_from(text@, width as int, 0);
    let mut i: usize = 0;
    assert(texts(out@) + all =~= all);
    while i < len
        invariant
            s@ == text@,
            len == s@.len(),
            width > 0,
            i <= len,
            all == rows_from(text@, width as int, 0),
            all == texts(out@) + rows_from(text@, width as int, i as int),
        decreases len - i,
    {
        let end: usize = find_end(&s, width, i);
        let ghost done = texts(out@);
        out.push(range_string(s.as_slice(), i, end));
        let next: usize = if end < len && s[end] == ' ' {
            end + 1
        } else {
            end
        };
        proof {
            let piece = text@.subrange(i as int, end as int);
            let rest = rows_from(text@, width as int, next as int);
            assert(texts(out@) =~= done.push(piece));
            assert(done + (seq![piece] + rest) =~= done.push(piece) + rest);
        }
        i = next;
    }
    assert(texts(out@) + Seq::<Seq<char>>::empty() =~= texts(out@));
    out
}

} // verus!
