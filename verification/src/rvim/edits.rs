//! Range edits and searches over a text: extracting, changing case, commenting, indenting,
//! finding and substituting.

use vstd::prelude::*;

use crate::rvim::buffer::{line_at, max, min, pos_le, Pos, Position, TextBuffer, TextV};
use crate::rvim::fs::str_same;
use crate::rvim::motion::len_at;
use crate::text::{
    cat, group_texts, join_lines, leading_space, range_string, space_prefix, texts, to_chars,
    unlines,
};
use crate::unicode::{lower, lower_char, upper, upper_char};

verus! {

broadcast use group_texts;

/// Columns `[from, to)` of a line, as far as it reaches.
pub open spec fn cut(s: Seq<char>, from: int, to: int) -> Seq<char> {
    let a = min(from, s.len() as int);
    s.subrange(a, max(min(to, s.len() as int), a))
}

/// Text of the charwise range between two positions.
pub open spec fn extracted(ls: Seq<Seq<char>>, p: Pos, q: Pos) -> Seq<char> {
    let (a, b) = if pos_le(p, q) {
        (p, q)
    } else {
        (q, p)
    };
    if a.line == b.line {
        cut(line_at(ls, a.line), a.col, b.col)
    } else {
        let mid_to = max(min(b.line, ls.len() as int), min(a.line + 1, ls.len() as int));
        unlines(
            seq![cut(line_at(ls, a.line), a.col, len_at(ls, a.line))] + ls.subrange(
                min(a.line + 1, ls.len() as int),
                mid_to,
            ) + seq![cut(line_at(ls, b.line), 0, b.col)],
        )
    }
}

fn cut_string(s: &str, from: usize, to: usize) -> (r: String)
    ensures
        r@ == cut(s@, from as int, to as int),
{
    let chars = to_chars(s);
    let n: usize = chars.len();
    let a: usize = if from < n {
        from
    } else {
        n
    };
    let b0: usize = if to < n {
        to
    } else {
        n
    };
    let b: usize = if b0 > a {
        b0
    } else {
        a
    };
    range_string(chars.as_slice(), a, b)
}

/// Text of the charwise range between two positions, without deleting it.
pub fn extract_range(text: &TextBuffer, p: Position, q: Position) -> (r: String)
    requires
        p.line < usize::MAX,
        q.line < usize::MAX,
    ensures
        r@ == extracted(text@.lines, p@, q@),
{
    let (a, b) = if p.le(q) {
        (p, q)
    } else {
        (q, p)
    };
    if a.line == b.line {
        return cut_string(text.line(a.line), a.col, b.col);
    }
    let ghost ls = text@.lines;
    let count: usize = text.line_count();
    let mut parts: Vec<String> = Vec::new();
    parts.push(cut_string(text.line(a.line), a.col, text.line_len(a.line)));
    let ghost first = parts@[0]@;
    assert(texts(parts@) =~= seq![first]);
    let stop: usize = if b.line < count {
        b.line
    } else {
        count
    };
    let mut l: usize = a.line + 1;
    let ghost from = min(a.line + 1, ls.len() as int);
    let ghost to = max(min(b.line as int, ls.len() as int), from);
    assert(ls.subrange(from, from) =~= Seq::<Seq<char>>::empty());
    while l < stop
        invariant
            ls == text@.lines,
            count == ls.len(),
            stop <= count,
            stop == min(b.line as int, count as int),
            a.line + 1 <= l,
            from == min(a.line + 1, ls.len() as int),
            to == max(min(b.line as int, ls.len() as int), from),
            l <= to || l == a.line + 1,
            texts(parts@) =~= seq![first] + ls.subrange(from, max(min(l as int, to), from)),
        decreases count - l,
    {
        let s = text.line(l).to_string();
        assert(ls.subrange(from, l + 1) =~= ls.subrange(from, l as int).push(ls[l as int]));
        parts.push(s);
        l = l + 1;
    }
    parts.push(cut_string(text.line(b.line), 0, b.col));
    assert(texts(parts@) =~= seq![first] + ls.subrange(from, to) + seq![
        cut(line_at(ls, b.line as int), 0, b.col as int),
    ]);
    join_lines(parts.as_slice())
}

/// Lines `[first, last]` joined with newlines, as far as the text reaches.
pub open spec fn lines_extracted(ls: Seq<Seq<char>>, first: int, last: int) -> Seq<char> {
    let l = min(last, ls.len() - 1);
    let f = min(first, l);
    unlines(ls.subrange(f, l + 1))
}

/// Lines `[first, last]` joined with newlines.
pub fn extract_lines(text: &TextBuffer, first: usize, last: usize) -> (r: String)
    requires
        text@.wf(),
    ensures
        r@ == lines_extracted(text@.lines, first as int, last as int),
{
    let ghost ls = text@.lines;
    let count: usize = text.line_count();
    let l: usize = if last < count - 1 {
        last
    } else {
        count - 1
    };
    let f: usize = if first < l {
        first
    } else {
        l
    };
    let mut parts: Vec<String> = Vec::new();
    for i in f..l + 1
        invariant
            ls == text@.lines,
            count == ls.len(),
            f <= l < count,
            f <= i <= l + 1,
            texts(parts@) =~= ls.subrange(f as int, i as int),
    {
        let s = text.line(i).to_string();
        assert(ls.subrange(f as int, i + 1) =~= ls.subrange(f as int, i as int).push(ls[i as int]));
        parts.push(s);
    }
    assert(texts(parts@) =~= ls.subrange(f as int, l + 1));
    join_lines(parts.as_slice())
}

/// One character in upper or lower case.
pub open spec fn char_cased(c: char, up: bool) -> Seq<char> {
    if up {
        upper(seq![c])
    } else {
        lower(seq![c])
    }
}

/// The first `k` characters with columns `[from, to)` changed in case.
pub open spec fn cased(s: Seq<char>, from: int, to: int, up: bool, k: int) -> Seq<char>
    decreases k,
{
    if k <= 0 {
        Seq::empty()
    } else {
        cased(s, from, to, up, k - 1) + (if from <= k - 1 < to {
            char_cased(s[k - 1], up)
        } else {
            seq![s[k - 1]]
        })
    }
}

/// Line `l` of a charwise range changed in case.
pub open spec fn line_cased(ls: Seq<Seq<char>>, a: Pos, b: Pos, up: bool, l: int) -> Seq<char> {
    let s = line_at(ls, l);
    cased(
        s,
        if l == a.line {
            a.col
        } else {
            0
        },
        if l == b.line {
            b.col
        } else {
            s.len() as int
        },
        up,
        s.len() as int,
    )
}

/// A line replaced when it changes.
pub open spec fn line_changed(t: TextV, l: int, s: Seq<char>) -> TextV {
    if s != line_at(t.lines, l) {
        t.line_set(l, s)
    } else {
        t
    }
}

/// The first `n` lines of a charwise range changed in case, one edit per changed line.
pub open spec fn case_lines(t: TextV, a: Pos, b: Pos, up: bool, n: int) -> TextV
    decreases n,
{
    if n <= 0 {
        t
    } else {
        let u = case_lines(t, a, b, up, n - 1);
        let l = a.line + n - 1;
        line_changed(u, l, line_cased(u.lines, a, b, up, l))
    }
}

/// Every char of a charwise range changed in case, as one undo step.
pub open spec fn range_cased(t: TextV, a: Pos, b: Pos, up: bool) -> TextV {
    let last = min(b.line, t.lines.len() - 1);
    case_lines(t.group_begun(a), a, b, up, last - a.line + 1).group_ended()
}

fn case_string(s: &str, from: usize, to: usize, up: bool) -> (r: String)
    ensures
        r@ == cased(s@, from as int, to as int, up, s@.len() as int),
{
    let chars = to_chars(s);
    let mut out = String::new();
    for i in 0..chars.len()
        invariant
            chars@ == s@,
            out@ == cased(s@, from as int, to as int, up, i as int),
    {
        if i >= from && i < to {
            let c = if up {
                upper_char(chars[i])
            } else {
                lower_char(chars[i])
            };
            out.append(c.as_str());
        } else {
            let ghost before = out@;
            out.push(chars[i]);
            assert(out@ =~= before + seq![s@[i as int]]);
        }
    }
    out
}

/// Replace a line when it changes.
pub fn change_line(text: &mut TextBuffer, l: usize, s: String)
    requires
        old(text)@.wf(),
        l < old(text)@.lines.len(),
    ensures
        final(text)@.wf(),
        final(text)@ == line_changed(old(text)@, l as int, s@),
        final(text)@.lines.len() == old(text)@.lines.len(),
{
    if !str_same(s.as_str(), text.line(l)) {
        text.set_line(l, s);
    }
}

/// Upper/lowercase every char in the charwise range `[start, end)`.
pub fn map_case_range(text: &mut TextBuffer, start: Position, end: Position, upper: bool)
    requires
        old(text)@.wf(),
    ensures
        final(text)@.wf(),
        final(text)@ == range_cased(old(text)@, start@, end@, upper),
        final(text)@.lines.len() == old(text)@.lines.len(),
{
    text.begin_undo_group(start);
    let ghost t1 = text@;
    let count: usize = text.line_count();
    let last: usize = if end.line < count - 1 {
        end.line
    } else {
        count - 1
    };
    let mut l: usize = start.line;
    while l <= last
        invariant
            text@.wf(),
            text@.lines.len() == count,
            last < count,
            start.line <= l,
            l <= last + 1 || l == start.line,
            text@ == case_lines(t1, start@, end@, upper, l - start.line),
        decreases last + 1 - l,
    {
        let from: usize = if l == start.line {
            start.col
        } else {
            0
        };
        let to: usize = if l == end.line {
            end.col
        } else {
            text.line_len(l)
        };
        let out = case_string(text.line(l), from, to, upper);
        change_line(text, l, out);
        l = l + 1;
    }
    text.end_undo_group();
}

/// Nothing but whitespace.
pub open spec fn blank_line(s: Seq<char>) -> bool {
    space_prefix(s) >= s.len()
}

/// Its first non-blanks are `//`.
pub open spec fn is_commented(s: Seq<char>) -> bool {
    let k = space_prefix(s);
    k + 1 < s.len() && s[k] == '/' && s[k + 1] == '/'
}

/// A line with its comment mark taken off (or put on) after the indent; blank lines stay.
pub open spec fn comment_flipped(s: Seq<char>, off: bool) -> Seq<char> {
    let k = space_prefix(s);
    if blank_line(s) {
        s
    } else if off {
        if is_commented(s) {
            s.take(k) + s.skip(
                if k + 2 < s.len() && s[k + 2] == ' ' {
                    k + 3
                } else {
                    k + 2
                },
            )
        } else {
            s
        }
    } else {
        s.take(k) + seq!['/', '/', ' '] + s.skip(k)
    }
}

pub open spec fn all_commented(ls: Seq<Seq<char>>, first: int, last: int) -> bool {
    forall|i: int|
        first <= i <= last ==> blank_line(#[trigger] line_at(ls, i)) || is_commented(line_at(ls, i))
}

pub open spec fn any_content(ls: Seq<Seq<char>>, first: int, last: int) -> bool {
    exists|i: int| first <= i <= last && !blank_line(#[trigger] line_at(ls, i))
}

/// The first `n` lines from `first` with their comments flipped, one edit per non-blank line.
pub open spec fn comment_lines(t: TextV, first: int, off: bool, n: int) -> TextV
    decreases n,
{
    if n <= 0 {
        t
    } else {
        let u = comment_lines(t, first, off, n - 1);
        let l = first + n - 1;
        if blank_line(line_at(u.lines, l)) {
            u
        } else {
            u.line_set(l, comment_flipped(line_at(u.lines, l), off))
        }
    }
}

/// Line comments toggled over `[first, last]`: off when every non-blank line has one.
pub open spec fn comment_toggled(t: TextV, first: int, last: int) -> TextV {
    let l = min(last, t.lines.len() - 1);
    if any_content(t.lines, first, l) {
        comment_lines(t, first, all_commented(t.lines, first, l), l - first + 1)
    } else {
        t
    }
}

fn line_kind(s: &str) -> (r: (bool, bool))
    ensures
        r.0 == blank_line(s@),
        r.1 == is_commented(s@),
{
    let chars = to_chars(s);
    let k: usize = leading_space(chars.as_slice());
    let n: usize = chars.len();
    (k >= n, n > 1 && k < n - 1 && chars[k] == '/' && chars[k + 1] == '/')
}

fn flip_comment(s: &str, off: bool) -> (r: String)
    ensures
        r@ == comment_flipped(s@, off),
{
    let chars = to_chars(s);
    let k: usize = leading_space(chars.as_slice());
    let n: usize = chars.len();
    if k >= n {
        return s.to_string();
    }
    if off {
        if n > 1 && k < n - 1 && chars[k] == '/' && chars[k + 1] == '/' {
            let from: usize = if k + 2 < n && chars[k + 2] == ' ' {
                k + 3
            } else {
                k + 2
            };
            let head = range_string(chars.as_slice(), 0, k);
            let tail = range_string(chars.as_slice(), from, n);
            assert(head@ =~= s@.take(k as int));
            assert(tail@ =~= s@.skip(from as int));
            cat(head.as_str(), tail.as_str())
        } else {
            s.to_string()
        }
    } else {
        let mut out = range_string(chars.as_slice(), 0, k);
        assert(out@ =~= s@.take(k as int));
        out.push('/');
        out.push('/');
        out.push(' ');
        assert(out@ =~= s@.take(k as int) + seq!['/', '/', ' ']);
        let tail = range_string(chars.as_slice(), k, n);
        assert(tail@ =~= s@.skip(k as int));
        out.append(tail.as_str());
        out
    }
}

/// Toggle `// ` line comments over `[first, last]` (blank lines are left alone).
pub fn toggle_comment(text: &mut TextBuffer, first: usize, last: usize)
    requires
        old(text)@.wf(),
    ensures
        final(text)@.wf(),
        final(text)@ == comment_toggled(old(text)@, first as int, last as int),
        final(text)@.lines.len() == old(text)@.lines.len(),
{
    let ghost t0 = text@;
    let count: usize = text.line_count();
    let last: usize = if last < count - 1 {
        last
    } else {
        count - 1
    };
    let mut all = true;
    let mut any = false;
    let mut i: usize = first;
    while i <= last
        invariant
            text@ == t0,
            last < count,
            count == t0.lines.len(),
            first <= i,
            i <= last + 1 || i == first,
            all == all_commented(t0.lines, first as int, i - 1),
            any == any_content(t0.lines, first as int, i - 1),
        decreases last + 1 - i,
    {
        let ghost (all0, any0) = (all, any);
        let (blank, commented) = line_kind(text.line(i));
        assert(blank == blank_line(line_at(t0.lines, i as int)));
        if !blank {
            any = true;
            if !commented {
                all = false;
            }
        }
        proof {
            assert(all == (all0 && (blank || commented)));
            assert(any0 ==> any_content(t0.lines, first as int, i as int));
        }
        i = i + 1;
    }
    assert(all == all_commented(t0.lines, first as int, last as int));
    assert(any == any_content(t0.lines, first as int, last as int));
    if !any {
        return;
    }
    i = first;
    while i <= last
        invariant
            text@.wf(),
            text@.lines.len() == count,
            last < count,
            first <= i,
            i <= last + 1 || i == first,
            text@ == comment_lines(t0, first as int, all, i - first),
        decreases last + 1 - i,
    {
        let (blank, commented) = line_kind(text.line(i));
        if !blank {
            let flipped = flip_comment(text.line(i), all);
            text.set_line(i, flipped);
        }
        i = i + 1;
    }
}

/// How many of the first `k` characters of `s` lead it as spaces.
pub open spec fn lead_spaces(s: Seq<char>, k: int) -> int
    decreases k,
{
    if k <= 0 || s.len() == 0 || s[0] != ' ' {
        0
    } else {
        1 + lead_spaces(s.skip(1), k - 1)
    }
}

pub open spec fn four_spaces() -> Seq<char> {
    seq![' ', ' ', ' ', ' ']
}

/// A line indented by four spaces, or with up to four leading spaces taken off.
pub open spec fn line_shifted(s: Seq<char>, deeper: bool) -> Seq<char> {
    if deeper {
        if s.len() == 0 {
            s
        } else {
            four_spaces() + s
        }
    } else {
        s.skip(lead_spaces(s, 4))
    }
}

/// The first `n` lines from `first` shifted, one edit per changed line.
pub open spec fn shift_lines(t: TextV, first: int, deeper: bool, n: int) -> TextV
    decreases n,
{
    if n <= 0 {
        t
    } else {
        let u = shift_lines(t, first, deeper, n - 1);
        let l = first + n - 1;
        line_changed(u, l, line_shifted(line_at(u.lines, l), deeper))
    }
}

fn shift_string(s: &str, deeper: bool) -> (r: String)
    ensures
        r@ == line_shifted(s@, deeper),
{
    let chars = to_chars(s);
    let n: usize = chars.len();
    if deeper {
        if n == 0 {
            return s.to_string();
        }
        let mut out = String::new();
        out.push(' ');
        out.push(' ');
        out.push(' ');
        out.push(' ');
        assert(out@ =~= four_spaces());
        out.append(s);
        out
    } else {
        let mut k: usize = 0;
        assert(s@.skip(0) =~= s@);
        while k < 4 && k < n && chars[k] == ' '
            invariant
                chars@ == s@,
                n == s@.len(),
                k <= 4,
                k <= n,
                lead_spaces(s@, 4) == k + lead_spaces(s@.skip(k as int), 4 - k),
            ensures
                k == lead_spaces(s@, 4),
            decreases 4 - k,
        {
            assert(s@.skip(k as int).skip(1) =~= s@.skip(k + 1));
            k = k + 1;
        }
        let out = range_string(chars.as_slice(), k, n);
        assert(out@ =~= s@.skip(k as int));
        out
    }
}

/// Beyond the last line there is nothing to shift.
proof fn lemma_shift_beyond(t: TextV, first: int, deeper: bool, m: int, n: int)
    requires
        0 <= m <= n,
        first + m >= t.lines.len(),
        shift_lines(t, first, deeper, m).lines.len() == t.lines.len(),
    ensures
        shift_lines(t, first, deeper, n) == shift_lines(t, first, deeper, m),
    decreases n,
{
    if n > m {
        lemma_shift_beyond(t, first, deeper, m, n - 1);
        let e = Seq::<char>::empty();
        assert(e.skip(0) =~= e);
    }
}

/// Indent or dedent lines `[first, last]`.
pub fn shift_range(text: &mut TextBuffer, first: usize, last: usize, deeper: bool)
    requires
        old(text)@.wf(),
    ensures
        final(text)@.wf(),
        final(text)@ == shift_lines(old(text)@, first as int, deeper, last - first + 1),
        final(text)@.lines.len() == old(text)@.lines.len(),
{
    let ghost t0 = text@;
    let count: usize = text.line_count();
    let end: usize = if last < count - 1 {
        last
    } else {
        count - 1
    };
    let mut i: usize = first;
    while i <= end
        invariant
            text@.wf(),
            text@.lines.len() == count,
            end < count,
            first <= i,
            i <= end + 1 || i == first,
            text@ == shift_lines(t0, first as int, deeper, i - first),
        decreases end + 1 - i,
    {
        let s = shift_string(text.line(i), deeper);
        change_line(text, i, s);
        i = i + 1;
    }
    proof {
        if last >= first && last != end {
            lemma_shift_beyond(t0, first as int, deeper, i - first, last - first + 1);
        }
    }
}

/// The first `n` lines from `first` in upper or lower case as whole texts, one edit per
/// changed line.
pub open spec fn case_whole_lines(t: TextV, first: int, up: bool, n: int) -> TextV
    decreases n,
{
    if n <= 0 {
        t
    } else {
        let u = case_whole_lines(t, first, up, n - 1);
        let l = first + n - 1;
        let s = line_at(u.lines, l);
        line_changed(
            u,
            l,
            if up {
                upper(s)
            } else {
                lower(s)
            },
        )
    }
}

/// Beyond the last line there is nothing to change.
proof fn lemma_case_beyond(t: TextV, first: int, up: bool, m: int, n: int)
    requires
        0 <= m <= n,
        first + m >= t.lines.len(),
        case_whole_lines(t, first, up, m).lines.len() == t.lines.len(),
    ensures
        case_whole_lines(t, first, up, n) == case_whole_lines(t, first, up, m),
    decreases n,
{
    if n > m {
        lemma_case_beyond(t, first, up, m, n - 1);
        let e = Seq::<char>::empty();
        assert(upper(e) =~= e);
        assert(lower(e) =~= e);
    }
}

/// Upper/lowercase lines `[first, last]`.
pub fn case_range(text: &mut TextBuffer, first: usize, last: usize, up: bool)
    requires
        old(text)@.wf(),
    ensures
        final(text)@.wf(),
        final(text)@ == case_whole_lines(old(text)@, first as int, up, last - first + 1),
        final(text)@.lines.len() == old(text)@.lines.len(),
{
    let ghost t0 = text@;
    let count: usize = text.line_count();
    let end: usize = if last < count - 1 {
        last
    } else {
        count - 1
    };
    let mut i: usize = first;
    while i <= end
        invariant
            text@.wf(),
            text@.lines.len() == count,
            end < count,
            first <= i,
            i <= end + 1 || i == first,
            text@ == case_whole_lines(t0, first as int, up, i - first),
        decreases end + 1 - i,
    {
        let s = if up {
            text.line(i).to_uppercase()
        } else {
            text.line(i).to_lowercase()
        };
        change_line(text, i, s);
        i = i + 1;
    }
    proof {
        if last >= first && last != end {
            lemma_case_beyond(t0, first as int, up, i - first, last - first + 1);
        }
    }
}

} // verus!
