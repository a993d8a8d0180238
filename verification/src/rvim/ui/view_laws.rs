//! Laws of what is shown: selections, matches, scrolling and the cells of the grid.

use vstd::prelude::*;

use crate::rvim::buffer::{clamped, pos, pos_le, Position};
use crate::rvim::keys::{ScrollRequest, VisualKind};
use crate::rvim::state::{BufV, SplitDir, StV, MIN_WIN_COLS, MIN_WIN_ROWS};
use crate::rvim::theme::{Rgb, SEARCH_FG};
use crate::rvim::ui::bars::{cmdline_start, first_tab, pct_of, tabs_width};
use crate::rvim::ui::grid::{GridV, Style};
use crate::rvim::ui::layout::{digits, gutter_of};
use crate::rvim::ui::look::{colors_of, hit_at, hits, hits_in, selected, window_of};
use crate::rvim::ui::scroll::{left_for, scroll_applied, top_for};
use crate::rvim::ui::window::PaneV;
use crate::text::decimal_of;

verus! {

/// A charwise selection shows every place from one end to the other, both with it; a linewise
/// one every place of its lines; a block every place of its lines between its columns.
pub proof fn law_selected(s: Position, e: Position, line: int, col: int, eol: bool)
    ensures
        selected(Some((s, e, VisualKind::Char)), line, col, eol) <==> pos_le(s@, pos(line, col))
            && pos_le(pos(line, col), e@),
        selected(Some((s, e, VisualKind::Line)), line, col, eol) <==> s.line <= line <= e.line,
        selected(Some((s, e, VisualKind::Block)), line, col, false) <==> s.line <= line <= e.line
            && (s.col <= col <= e.col || e.col <= col <= s.col),
        selected(Some((s, e, VisualKind::Block)), line, col, true) <==> s.line <= line <= e.line
            && (s.col <= col || e.col <= col),
        !selected(None, line, col, eol),
{
}

/// Some match covers a place.
pub open spec fn covered(h: Seq<(int, int)>, k: int) -> bool {
    exists|i: int| 0 <= i < h.len() && (#[trigger] h[i]).0 <= k < h[i].0 + h[i].1
}

/// A match is a place where the pattern stands.
pub open spec fn is_hit(w: Seq<char>, pat: Seq<char>, h: (int, int), i: int, from: int) -> bool {
    &&& h.1 == pat.len()
    &&& i + from <= h.0
    &&& h.0 - from + pat.len() <= w.len()
    &&& w.subrange(h.0 - from, h.0 - from + pat.len()) == pat
}

/// The matches of a text are places where the pattern stands, from left to right and apart.
pub proof fn law_hits(w: Seq<char>, pat: Seq<char>, i: int, from: int)
    requires
        0 <= i,
        pat.len() > 0,
    ensures
        ({
            let h = hits(w, pat, i, from);
            &&& forall|k: int| 0 <= k < h.len() ==> is_hit(w, pat, #[trigger] h[k], i, from)
            &&& forall|k: int, m: int|
                0 <= k < m < h.len() ==> (#[trigger] h[k]).0 + pat.len() <= (#[trigger] h[m]).0
        }),
    decreases w.len() - i,
{
    let h = hits(w, pat, i, from);
    if i + pat.len() <= w.len() {
        if w.subrange(i, i + pat.len()) == pat {
            let rest = hits(w, pat, i + pat.len(), from);
            law_hits(w, pat, i + pat.len(), from);
            assert(h == seq![(from + i, pat.len() as int)] + rest);
            assert forall|k: int| 0 <= k < h.len() implies is_hit(
                w,
                pat,
                #[trigger] h[k],
                i,
                from,
            ) by {
                if k > 0 {
                    assert(is_hit(w, pat, rest[k - 1], i + pat.len(), from));
                }
            }
            assert forall|k: int, m: int| 0 <= k < m < h.len() implies (#[trigger] h[k]).0
                + pat.len() <= (#[trigger] h[m]).0 by {
                assert(is_hit(w, pat, rest[m - 1], i + pat.len(), from));
                if k > 0 {
                    assert(h[k] == rest[k - 1] && h[m] == rest[m - 1]);
                }
            }
        } else {
            law_hits(w, pat, i + 1, from);
            assert(h == hits(w, pat, i + 1, from));
            assert forall|k: int| 0 <= k < h.len() implies is_hit(
                w,
                pat,
                #[trigger] h[k],
                i,
                from,
            ) by {
                assert(is_hit(w, pat, h[k], i + 1, from));
            }
        }
    }
}

/// Wherever the pattern stands, its first char is in one of the matches.
pub proof fn law_hits_cover(w: Seq<char>, pat: Seq<char>, i: int, from: int, k: int)
    requires
        0 <= i <= k,
        pat.len() > 0,
        k + pat.len() <= w.len(),
        w.subrange(k, k + pat.len()) == pat,
    ensures
        covered(hits(w, pat, i, from), from + k),
    decreases w.len() - i,
{
    let h = hits(w, pat, i, from);
    if w.subrange(i, i + pat.len()) == pat {
        let rest = hits(w, pat, i + pat.len(), from);
        assert(h == seq![(from + i, pat.len() as int)] + rest);
        if k < i + pat.len() {
            assert(h[0].0 <= from + k < h[0].0 + h[0].1);
        } else {
            law_hits_cover(w, pat, i + pat.len(), from, k);
            let m = choose|m: int|
                0 <= m < rest.len() && (#[trigger] rest[m]).0 <= from + k < rest[m].0 + rest[m].1;
            assert(h[m + 1] == rest[m]);
        }
    } else {
        law_hits_cover(w, pat, i + 1, from, k);
    }
}

/// Matches are looked for in the chars shown alone, and their columns are those of the line.
pub proof fn law_hits_in(line: Seq<char>, pat: Seq<char>, from: int, span: int, k: int)
    requires
        0 <= from <= line.len(),
        0 <= span,
        pat.len() > 0,
        0 <= k < hits_in(line, pat, from, span).len(),
    ensures
        ({
            let (a, n) = hits_in(line, pat, from, span)[k];
            &&& from <= a && a + n <= from + span && a + n <= line.len()
            &&& line.subrange(a, a + n) == pat
        }),
{
    let w = window_of(line, from, span);
    law_hits(w, pat, 0, from);
    let (a, n) = hits_in(line, pat, from, span)[k];
    assert(is_hit(w, pat, (a, n), 0, from));
    assert(w.subrange(a - from, a - from + n) =~= line.subrange(a, a + n));
}

/// A place is shown as a match when one covers it.
pub proof fn law_hit_at(h: Seq<(int, int)>, k: int, i: int)
    requires
        0 <= i,
    ensures
        match hit_at(h, k, i) {
            Some(x) => h.skip(i).contains(x) && x.0 <= k < x.0 + x.1,
            None => forall|j: int|
                i <= j < h.len() ==> !((#[trigger] h[j]).0 <= k < h[j].0 + h[j].1),
        },
    decreases h.len() - i,
{
    if i < h.len() {
        assert(h.skip(i)[0] == h[i]);
        if !(h[i].0 <= k < h[i].0 + h[i].1) {
            law_hit_at(h, k, i + 1);
            if let Some(x) = hit_at(h, k, i + 1) {
                let rest = h.skip(i + 1);
                let m = choose|m: int| 0 <= m < rest.len() && #[trigger] rest[m] == x;
                assert(h.skip(i)[m + 1] == x);
            }
        }
    }
}

/// Requests for the cursor's line put it in the middle, first or last of the rows shown, where
/// there are lines enough above it; the text and the cursor stay.
pub proof fn law_line_placed(b: BufV, rows: int)
    requires
        b.text.wf(),
        0 <= b.cursor.line < b.text.lines.len(),
        b.text.lines.len() <= usize::MAX,
        rows > 0,
    ensures
        ({
            let line = b.cursor.line;
            let mid = scroll_applied(b, ScrollRequest::Center, rows);
            let top = scroll_applied(b, ScrollRequest::Top, rows);
            let bot = scroll_applied(b, ScrollRequest::Bottom, rows);
            &&& line >= rows / 2 ==> mid.scroll.0 + rows / 2 == line
            &&& line < rows / 2 ==> mid.scroll.0 == 0
            &&& top.scroll.0 == line
            &&& line >= rows - 1 ==> bot.scroll.0 + rows - 1 == line
            &&& line < rows - 1 ==> bot.scroll.0 == 0
            &&& mid == (BufV { scroll: mid.scroll, ..b }) && mid.scroll.1 == b.scroll.1
            &&& top == (BufV { scroll: top.scroll, ..b }) && top.scroll.1 == b.scroll.1
            &&& bot == (BufV { scroll: bot.scroll, ..b }) && bot.scroll.1 == b.scroll.1
        }),
{
    reveal(clamped);
}

/// Paging moves the cursor and the first row shown by as many lines: half the rows, or all but
/// two of them, one at least; not off the text.
pub proof fn law_paged(b: BufV, rows: int, half: bool)
    requires
        b.text.wf(),
        0 <= b.cursor.line < b.text.lines.len(),
        0 <= b.cursor.col <= b.text.lines[b.cursor.line].len(),
        b.text.lines.len() <= usize::MAX,
        0 <= b.desired_col,
        rows > 0,
    ensures
        ({
            let step = if half {
                if rows >= 2 {
                    rows / 2
                } else {
                    1
                }
            } else if rows >= 3 {
                rows - 2
            } else {
                1
            };
            let last = b.text.lines.len() - 1;
            let down = scroll_applied(
                b,
                if half {
                    ScrollRequest::HalfDown
                } else {
                    ScrollRequest::PageDown
                },
                rows,
            );
            let up = scroll_applied(
                b,
                if half {
                    ScrollRequest::HalfUp
                } else {
                    ScrollRequest::PageUp
                },
                rows,
            );
            &&& down.cursor.line == b.cursor.line + step || down.cursor.line == last
                && b.cursor.line + step > last
            &&& up.cursor.line == b.cursor.line - step || up.cursor.line == 0 && b.cursor.line
                < step
            &&& down.scroll.0 == b.scroll.0 + step || down.scroll.0 == last && b.scroll.0 + step
                > last
            &&& b.scroll.0 <= last ==> up.scroll.0 == b.scroll.0 - step || up.scroll.0 == 0
                && b.scroll.0 < step
            &&& down.text == b.text && up.text == b.text
        }),
{
    reveal(clamped);
}

/// Following keeps two rows between the cursor and the edges where there are rows and lines
/// for them, and four columns at its sides; it moves no further than it has to.
pub proof fn law_margins(n: int, line: int, top: int, rows: int, len: int, col: int, left: int, width: int)
    requires
        0 <= line < n,
        0 <= top < n,
        rows >= 5,
        0 <= col <= len,
        0 <= left,
        width >= 9,
    ensures
        ({
            let t = top_for(n, line, top, rows);
            let l = left_for(len, col, left, width);
            &&& t + 2 <= line || t == 0
            &&& line + 2 < t + rows || n <= t + rows
            &&& top + 2 <= line && line + 2 < top + rows ==> t == top
            &&& l + 4 <= col || l == 0
            &&& col + 4 < l + width || len < l + width
            &&& left + 4 <= col && col + 4 < left + width ==> l == left
        }),
{
}

/// The scroll indicator: All where every line is shown, Top and Bot at the ends, and else the
/// part of the way down in percent, more than none and less than all.
pub proof fn law_percent_shown(top: int, rows: int, n: int)
    requires
        0 <= top,
        0 < rows,
        0 < n,
    ensures
        n <= rows ==> pct_of(top, rows, n) == "All"@,
        n > rows && top == 0 ==> pct_of(top, rows, n) == "Top"@,
        n > rows && top > 0 && top + rows >= n ==> pct_of(top, rows, n) == "Bot"@,
        n > rows && top > 0 && top + rows < n ==> exists|p: nat|
            p < 100 && p * (n - rows) <= top * 100 < (p + 1) * (n - rows) && pct_of(top, rows, n)
                == #[trigger] decimal_of(p) + "%"@,
{
    if n > rows && top > 0 && top + rows < n {
        let d = n - rows;
        let p = (top * 100 / d) as nat;
        assert(top * 100 / d >= 0 && top * 100 / d < 100 && (top * 100 / d) * d <= top * 100 < (top
            * 100 / d + 1) * d) by (nonlinear_arith)
            requires
                0 < top < d,
        ;
        assert(pct_of(top, rows, n) == decimal_of(p) + "%"@);
    }
}

/// The number before a line: its own, counted from one; with relative numbers, how far it is
/// from the cursor's line.
pub proof fn law_line_number(p: PaneV, li: int)
    requires
        0 <= li,
        0 <= p.b.cursor.line,
    ensures
        !p.relative || li == p.b.cursor.line ==> p.number(li) == li + 1,
        p.relative && li != p.b.cursor.line ==> p.number(li) == li - p.b.cursor.line || p.number(li)
            == p.b.cursor.line - li,
{
}

/// The gutter has room for every line's number and a space behind it.
pub proof fn law_gutter_fits(n: int, li: int, number: bool, relative: bool, cols: u16)
    requires
        0 <= li < n,
        n <= usize::MAX,
        gutter_of(n, number, relative, cols) > 0,
    ensures
        decimal_of((li + 1) as nat).len() + 1 <= gutter_of(n, number, relative, cols),
{
    lemma_written_len(n as nat);
    lemma_written_len((li + 1) as nat);
    lemma_digits_grow((li + 1) as nat, n as nat);
    lemma_digits_few(n as nat);
}

proof fn lemma_digits_few(n: nat)
    requires
        n <= u64::MAX,
    ensures
        digits(n) <= 20,
{
    reveal_with_fuel(digits, 20);
}

proof fn lemma_written_len(n: nat)
    ensures
        decimal_of(n).len() == digits(n),
    decreases n,
{
    if n >= 10 {
        lemma_written_len(n / 10);
    }
}

proof fn lemma_digits_grow(a: nat, b: nat)
    requires
        a <= b,
    ensures
        digits(a) <= digits(b),
        digits(a) >= 1,
    decreases b,
{
    if b >= 10 {
        lemma_digits_grow(a / 10, b / 10);
    }
}

/// A text is written one char to a cell from its place on, clipped before the limit and at the
/// edge of the grid; every other cell stays.
pub proof fn law_text_put(g: GridV, x0: int, y0: int, s: Seq<char>, st: Style, max_x: int, x: int, y: int)
    requires
        g.wf(),
        0 <= x < g.cols,
        0 <= y < g.rows,
    ensures
        ({
            let w = g.put(x0, y0, s, st, max_x);
            &&& w.cols == g.cols && w.rows == g.rows
            &&& if y == y0 && x0 <= x < x0 + s.len() && x < max_x {
                w.at(x, y).ch == s[x - x0]
            } else {
                w.at(x, y) == g.at(x, y)
            }
        }),
{
    reveal(GridV::wf);
    reveal(GridV::put);
}

/// Filling a rectangle writes its cells and no others.
pub proof fn law_rectangle_filled(g: GridV, x0: int, y0: int, w: int, h: int, c: char, st: Style, x: int, y: int)
    requires
        g.wf(),
        0 <= x < g.cols,
        0 <= y < g.rows,
    ensures
        ({
            let f = g.filled(x0, y0, w, h, c, st);
            if x0 <= x < x0 + w && y0 <= y < y0 + h {
                f.at(x, y).ch == c
            } else {
                f.at(x, y) == g.at(x, y)
            }
        }),
{
    reveal(GridV::wf);
    reveal(GridV::filled);
}

/// The active tab is shown whole, or else first; and no tab before the first shown would leave
/// room for it.
pub proof fn law_active_tab_shown(bs: Seq<BufV>, start: int, active: int, cols: int)
    requires
        0 <= start <= active < bs.len(),
    ensures
        ({
            let f = first_tab(bs, start, active, cols);
            &&& start <= f <= active
            &&& tabs_width(bs, f, active) <= cols || f == active
            &&& forall|k: int| start <= k < f ==> #[trigger] tabs_width(bs, k, active) > cols
        }),
    decreases active - start,
{
    if start < active && tabs_width(bs, start, active) > cols {
        law_active_tab_shown(bs, start + 1, active, cols);
    }
}

/// The command line is shown from its start where it fits, and else so far on that its cursor
/// is in the last column.
pub proof fn law_cmdline_shown(cur: int, cols: int)
    requires
        0 <= cur,
        cols >= 2,
    ensures
        ({
            let s = cmdline_start(cur, cols);
            &&& 0 <= s <= cur < s + cols - 1
            &&& cur < cols - 1 ==> s == 0
            &&& cur >= cols - 1 ==> cur + 1 == s + cols - 1
        }),
{
}

/// A selection hides a match, a match a bracket, and a bracket the cursor's line: what is hidden
/// makes no difference. Only a match that is not selected has a foreground of its own.
pub proof fn law_overlays(fg: Rgb, line: bool, bracket: bool, search: Option<bool>, current: bool)
    ensures
        colors_of(fg, line, bracket, search, true) == colors_of(fg, false, false, None, true),
        colors_of(fg, line, bracket, Some(current), false) == colors_of(
            fg,
            false,
            false,
            Some(current),
            false,
        ),
        colors_of(fg, line, true, None, false) == colors_of(fg, false, true, None, false),
        colors_of(fg, line, bracket, search, true).0 == fg,
        colors_of(fg, line, bracket, None, false).0 == fg,
        colors_of(fg, line, bracket, Some(current), false).0 == SEARCH_FG,
{
}

/// A window can be split where each of the windows then has its least size, with a line between
/// each two.
pub proof fn law_split_fits(st: StV, dir: SplitDir)
    ensures
        ({
            let n = st.windows.len() as int;
            let (room, least) = match dir {
                SplitDir::Horizontal => (st.text_dims.1 as int, MIN_WIN_ROWS as int),
                SplitDir::Vertical => (st.text_dims.0 as int, MIN_WIN_COLS as int),
            };
            st.fits_split(dir) <==> (n + 1) * least + n <= room
        }),
{
    let n = st.windows.len() as int;
    let (room, least) = match dir {
        SplitDir::Horizontal => (st.text_dims.1 as int, MIN_WIN_ROWS as int),
        SplitDir::Vertical => (st.text_dims.0 as int, MIN_WIN_COLS as int),
    };
    let free = if room - n >= 0 {
        room - n
    } else {
        0
    };
    assert(free / (n + 1) >= least <==> (n + 1) * least <= free) by (nonlinear_arith)
        requires
            n >= 0,
            free >= 0,
    ;
    assert((n + 1) * least > 0) by (nonlinear_arith)
        requires
            n >= 0,
            least > 0,
    ;
}

} // verus!
