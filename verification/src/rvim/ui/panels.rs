//! Panels: dividers, the explorer sidebar, the which-key panel, the finder overlay and the
//! dashboard.

use vstd::prelude::*;

use crate::rvim::buffer::{max, min};
use crate::rvim::explorer::ExplorerV;
use crate::rvim::finder::{FinderState, FinderTarget, FinderV};
use crate::rvim::fs::{Vfs, VfsV};
use crate::rvim::highlight::{is_rust, rust_name};
use crate::rvim::state::{EditorState, StV};
use crate::rvim::theme::{Rgb, ACCENT, BG, BORDER_MUTED, DIM, MUTED, SURFACE, SURFACE_DIM, TEXT};
use crate::rvim::ui::grid::{
    fill, group_grid, ink, lemma_put_nothing, on, paper, put_end, put_str, set_cell, set_style,
    style, style_bg, style_fg, Grid, GridV,
};
use crate::rvim::ui::layout::VLayout;
use crate::rvim::ui::touch::{hint_grid, hint_width, whichkey_grid};
use crate::rvim::vim::hints::{hints_of, Hint};
use crate::text::{char_count, to_chars};

verus! {

broadcast use group_grid;

/// A divider down a column.
pub open spec fn divider_drawn(g: GridV, x: int, top: int, rows: int) -> GridV {
    g.filled(x, top, 1, rows, '│', on(BORDER_MUTED, BG))
}

/// Vertical divider column between side-by-side regions.
pub fn draw_vdiv(g: &mut Grid, x: u16, top: u16, rows: u16)
    requires
        old(g)@.wf(),
    ensures
        final(g)@.wf(),
        final(g)@ == divider_drawn(old(g)@, x as int, top as int, rows as int),
{
    fill(g, x, top, 1, rows, '│', style(BORDER_MUTED, BG));
}

/// Ink of a file in the sidebar.
pub open spec fn file_ink(name: Seq<char>, chosen: bool, focused: bool) -> Rgb {
    if chosen {
        if focused {
            ACCENT
        } else {
            MUTED
        }
    } else if is_rust(name) {
        TEXT
    } else {
        MUTED
    }
}

/// The first `k` shown files drawn.
pub open spec fn files_drawn(
    g: GridV,
    names: Seq<Seq<char>>,
    ex: ExplorerV,
    focused: bool,
    w: int,
    top: int,
    k: int,
) -> GridV
    decreases k,
{
    if k <= 0 {
        g
    } else {
        let g = files_drawn(g, names, ex, focused, w, top, k - 1);
        let i = ex.offset + k - 1;
        let y = top + k;
        let chosen = i == ex.selected;
        let st = on(
            file_ink(names[i], chosen, focused),
            if chosen {
                SURFACE
            } else {
                BG
            },
        );
        let g1 = if chosen {
            g.styled(0, y, w, 1, paper(SURFACE))
        } else {
            g
        };
        g1.put(0, y, " "@, st, w).put(put_end(0, " "@, w), y, names[i], st, w)
    }
}

/// The names of the files, in order.
pub open spec fn names_of(v: VfsV) -> Seq<Seq<char>> {
    Seq::new(v.files.len(), |i: int| v.files[i].0)
}

/// How many files the sidebar shows.
pub open spec fn files_shown(n: int, offset: int, rows: int) -> int {
    min(max(n - offset, 0), max(rows - 1, 0))
}

/// The sidebar: a title, the files from the offset on, and the name being typed.
#[verifier::opaque]
pub open spec fn explorer_drawn(g: GridV, w: int, top: int, rows: int, st: StV, vfs: VfsV) -> GridV {
    if st.explorer is None || rows == 0 || w == 0 {
        g
    } else {
        let ex = st.explorer->0;
        let names = names_of(vfs);
        let g1 = g.put(0, top, " files"@, on(ACCENT, BG), w);
        let k = files_shown(names.len() as int, ex.offset, rows);
        let g2 = files_drawn(g1, names, ex, st.explorer_focused, w, top, k);
        match ex.new_name {
            Some(name) => {
                let y = top + 1 + min(k, max(rows - 2, 0));
                let x1 = put_end(0, " + "@, w);
                let x2 = put_end(x1, name, w);
                g2.put(0, y, " + "@, on(ACCENT, BG), w).put(x1, y, name, on(TEXT, BG), w).put(
                    x2,
                    y,
                    "▉"@,
                    on(ACCENT, BG),
                    w,
                )
            },
            None => g2,
        }
    }
}

/// Explorer sidebar: header, one row per vfs file, optional new-file input row.
pub fn draw_explorer(g: &mut Grid, w: u16, top: u16, rows: u16, st: &EditorState, vfs: &Vfs)
    requires
        old(g)@.wf(),
        top + rows < u16::MAX,
    ensures
        final(g)@.wf(),
        final(g)@ == explorer_drawn(old(g)@, w as int, top as int, rows as int, st@, vfs@),
{
    proof {
        reveal(explorer_drawn);
    }
    let ex = match &st.explorer {
        Some(ex) => ex,
        None => {
            return ;
        },
    };
    if rows == 0 || w == 0 {
        return ;
    }
    put_str(g, 0, top, " files", style(ACCENT, BG), w);
    let ghost g1 = g@;
    let ghost ns = names_of(vfs@);
    let names = vfs.names();
    let total: usize = names.len();
    let rest: usize = if total > ex.offset {
        total - ex.offset
    } else {
        0
    };
    let visible: usize = (rows - 1) as usize;
    let n: usize = if rest < visible {
        rest
    } else {
        visible
    };
    let mut k: usize = 0;
    while k < n
        invariant
            g@.wf(),
            ns == names_of(vfs@),
            total == names@.len() == ns.len(),
            forall|i: int| 0 <= i < names@.len() ==> (#[trigger] names@[i])@ == ns[i],
            k <= n <= visible < rows,
            n > 0 ==> ex.offset + n <= total,
            top + rows < u16::MAX,
            g@ == files_drawn(
                g1,
                ns,
                ex@,
                st.explorer_focused,
                w as int,
                top as int,
                k as int,
            ),
        decreases n - k,
    {
        let i: usize = ex.offset + k;
        let y: u16 = top + 1 + k as u16;
        let chosen = i == ex.selected;
        let bg: Rgb = if chosen {
            SURFACE
        } else {
            BG
        };
        if chosen {
            set_style(g, 0, y, w, 1, style_bg(SURFACE));
        }
        let name = names[i];
        let fg: Rgb = if chosen {
            if st.explorer_focused {
                ACCENT
            } else {
                MUTED
            }
        } else if rust_name(name) {
            TEXT
        } else {
            MUTED
        };
        let x = put_str(g, 0, y, " ", style(fg, bg), w);
        put_str(g, x, y, name, style(fg, bg), w);
        k = k + 1;
    }
    if let Some(name) = &ex.new_name {
        let under: usize = if visible > 0 {
            visible - 1
        } else {
            0
        };
        let y: u16 = top + 1 + (if n < under {
            n
        } else {
            under
        }) as u16;
        let x = put_str(g, 0, y, " + ", style(ACCENT, BG), w);
        let x2 = put_str(g, x, y, name.as_str(), style(TEXT, BG), w);
        put_str(g, x2, y, "▉", style(ACCENT, BG), w);
    }
}

/// Hints from `i` on drawn in their columns and rows.
pub open spec fn hints_drawn(
    g: GridV,
    hints: Seq<Hint>,
    top: int,
    cols: int,
    rows: int,
    ncols: int,
    w: int,
    i: int,
) -> GridV
    decreases hints.len() - i,
{
    if i < 0 || i >= hints.len() || i / ncols >= rows {
        g
    } else {
        let y = top + 1 + i / ncols;
        let cell = i % ncols;
        let x = cell * w;
        let end = if cell + 1 == ncols {
            cols
        } else {
            x + w
        };
        let g1 = g.put(x + 1, y, hints[i].0, on(ACCENT, SURFACE_DIM), end).put(
            put_end(x + 1, hints[i].0, end) + 1,
            y,
            hints[i].1,
            on(TEXT, SURFACE_DIM),
            end,
        );
        hints_drawn(g1, hints, top, cols, rows, ncols, w, i + 1)
    }
}

/// The which-key panel over a blanked band: a title row, then the hints in columns.
#[verifier::opaque]
pub open spec fn whichkey_drawn(
    g: GridV,
    top: int,
    cols: u16,
    title: Seq<char>,
    hints: Seq<Hint>,
) -> GridV {
    let (rows, ncols) = hint_grid(cols, hints.len());
    let c = cols as int;
    let g1 = g.styled(0, top, c, rows + 1, on(TEXT, SURFACE_DIM)).filled(
        0,
        top,
        c,
        rows + 1,
        ' ',
        paper(SURFACE_DIM),
    ).put(0, top, title, on(ACCENT, SURFACE_DIM), c);
    hints_drawn(g1, hints, top, c, rows, ncols, hint_width(cols, ncols), 0)
}

proof fn lemma_hint_place(cols: u16, ncols: u16, cell: u16)
    requires
        ncols >= 1,
        cell < ncols,
    ensures
        0 <= cell * hint_width(cols, ncols as int) < 65535,
        cell + 1 < ncols ==> cell * hint_width(cols, ncols as int) + hint_width(cols, ncols as int)
            <= 65535,
{
    let q = cols as int / ncols as int;
    let w = max(q, 1);
    assert(ncols * q <= cols) by (nonlinear_arith)
        requires
            q == cols as int / ncols as int,
            ncols >= 1,
    ;
    assert(ncols * w <= max(cols as int, ncols as int)) by (nonlinear_arith)
        requires
            ncols * q <= cols,
            w == max(q, 1),
            ncols >= 1,
    ;
    assert((cell + 1) * w <= ncols * w) by (nonlinear_arith)
        requires
            cell + 1 <= ncols,
            w >= 1,
    ;
    assert((cell + 1) * w == cell * w + w) by (nonlinear_arith);
    assert(0 <= cell * w) by (nonlinear_arith)
        requires
            cell >= 0,
            w >= 1,
    ;
}

/// Docked which-key panel: an ACCENT title row plus hint rows in columns.
pub fn draw_whichkey(g: &mut Grid, top: u16, cols: u16, title: &str, hints: &[(&str, &str)])
    requires
        old(g)@.wf(),
        hints@.len() < 65536,
        top + hint_grid(cols, hints@.len()).0 + 1 <= u16::MAX,
    ensures
        final(g)@.wf(),
        final(g)@ == whichkey_drawn(old(g)@, top as int, cols, title@, hints_of(hints@)),
{
    proof {
        reveal(whichkey_drawn);
    }
    let ghost hs = hints_of(hints@);
    let (rows, ncols) = whichkey_grid(cols, hints.len());
    set_style(g, 0, top, cols, rows + 1, style(TEXT, SURFACE_DIM));
    fill(g, 0, top, cols, rows + 1, ' ', style_bg(SURFACE_DIM));
    put_str(g, 0, top, title, style(ACCENT, SURFACE_DIM), cols);
    let share: u16 = cols / ncols;
    let w: u16 = if share > 1 {
        share
    } else {
        1
    };
    let ghost g1 = g@;
    let mut i: usize = 0;
    while i < hints.len() && i / (ncols as usize) < rows as usize
        invariant
            g@.wf(),
            hs == hints_of(hints@),
            i <= hints@.len(),
            ncols >= 1,
            rows <= 3,
            top + rows + 1 <= u16::MAX,
            w == hint_width(cols, ncols as int),
            hints_drawn(
                g1,
                hs,
                top as int,
                cols as int,
                rows as int,
                ncols as int,
                w as int,
                0,
            ) == hints_drawn(
                g@,
                hs,
                top as int,
                cols as int,
                rows as int,
                ncols as int,
                w as int,
                i as int,
            ),
        ensures
            g@.wf(),
            g@ == hints_drawn(
                g1,
                hs,
                top as int,
                cols as int,
                rows as int,
                ncols as int,
                w as int,
                0,
            ),
        decreases hints@.len() - i,
    {
        let row: usize = i / ncols as usize;
        let y: u16 = top + 1 + row as u16;
        assert(i as int % ncols as int >= 0 && (i as int % ncols as int) < ncols)
            by (nonlinear_arith)
            requires
                i >= 0,
                ncols >= 1,
        ;
        let cell: u16 = (i % ncols as usize) as u16;
        proof {
            lemma_hint_place(cols, ncols, cell);
        }
        let x: u16 = cell * w;
        let end: u16 = if cell + 1 == ncols {
            cols
        } else {
            x + w
        };
        let (key, label) = hints[i];
        assert(hs[i as int] == (key@, label@));
        let x2 = put_str(g, x + 1, y, key, style(ACCENT, SURFACE_DIM), end);
        if x2 < 65535 {
            put_str(g, x2 + 1, y, label, style(TEXT, SURFACE_DIM), end);
        } else {
            proof {
                lemma_put_nothing(
                    g@,
                    x2 + 1,
                    y as int,
                    label@,
                    on(TEXT, SURFACE_DIM),
                    end as int,
                );
            }
        }
        i = i + 1;
    }
}

/// Place and size of the finder box: column, row, width, height.
pub open spec fn finder_box(vl: VLayout, cols: int, n: int) -> (int, int, int, int) {
    let w = max(cols * 4 / 5, 10);
    let tallest = max(vl.text_rows * 3 / 5, 3);
    let h = min(min(n % 65536 + 3, 65535), tallest);
    ((cols - w) / 2, vl.text_top + (vl.text_rows - h) / 2, w, h)
}

/// The first `k` chars of a found name drawn, the matched ones lit.
pub open spec fn name_drawn(
    g: GridV,
    name: Seq<char>,
    lit: Seq<int>,
    x: int,
    y: int,
    bg: Rgb,
    k: int,
) -> GridV
    decreases k,
{
    if k <= 0 {
        g
    } else {
        name_drawn(g, name, lit, x, y, bg, k - 1).set(
            x + k - 1,
            y,
            name[k - 1],
            on(
                if lit.contains(k - 1) {
                    ACCENT
                } else {
                    TEXT
                },
                bg,
            ),
        )
    }
}

/// The first `k` results from `off` on drawn in the box.
pub open spec fn results_drawn(
    g: GridV,
    f: FinderV,
    x0: int,
    y0: int,
    w: int,
    off: int,
    k: int,
) -> GridV
    decreases k,
{
    if k <= 0 {
        g
    } else {
        let g = results_drawn(g, f, x0, y0, w, off, k - 1);
        let i = off + k - 1;
        let y = y0 + 2 + k - 1;
        let chosen = i == f.selected;
        let bg = if chosen {
            SURFACE
        } else {
            BG
        };
        let x1 = x0 + w - 1;
        let g1 = if chosen {
            g.styled(x0 + 1, y, w - 2, 1, paper(SURFACE)).put(
                x0 + 1,
                y,
                "▸"@,
                on(ACCENT, SURFACE),
                x1,
            )
        } else {
            g
        };
        let (name, lit) = f.results[i];
        name_drawn(g1, name, lit, x0 + 3, y, bg, min(name.len() as int, x1 - (x0 + 3)))
    }
}

/// An empty box with a border and a title.
pub open spec fn frame_drawn(g: GridV, x0: int, y0: int, w: int, h: int, title: Seq<char>) -> GridV {
    let border = on(ACCENT, BG);
    let x1 = x0 + w - 1;
    let y1 = y0 + h - 1;
    g.filled(x0, y0, w, h, ' ', on(TEXT, BG)).filled(x0 + 1, y0, w - 2, 1, '─', border).filled(
        x0 + 1,
        y1,
        w - 2,
        1,
        '─',
        border,
    ).filled(x0, y0 + 1, 1, h - 2, '│', border).filled(x1, y0 + 1, 1, h - 2, '│', border).set(
        x0,
        y0,
        '┌',
        border,
    ).set(x1, y0, '┐', border).set(x0, y1, '└', border).set(x1, y1, '┘', border).put(
        x0 + 2,
        y0,
        title,
        border,
        x1,
    )
}

pub open spec fn finder_title(t: FinderTarget) -> Seq<char> {
    match t {
        FinderTarget::Files => " find file "@,
        FinderTarget::Buffers => " buffers "@,
    }
}

/// The finder: a box in the middle of the text with the query and the results around the
/// selected one; left out where there is no room for it.
#[verifier::opaque]
pub open spec fn finder_drawn(g: GridV, vl: VLayout, cols: int, f: FinderV) -> GridV {
    if vl.text_rows < 3 || cols < 10 {
        g
    } else {
        let (x0, y0, w, h) = finder_box(vl, cols, f.results.len() as int);
        let border = on(ACCENT, BG);
        let x1 = x0 + w - 1;
        let g1 = frame_drawn(g, x0, y0, w, h, finder_title(f.target));
        let a = put_end(x0 + 2, "> "@, x1);
        let b = put_end(a, f.query, x1);
        let g2 = g1.put(x0 + 2, y0 + 1, "> "@, border, x1).put(
            a,
            y0 + 1,
            f.query,
            on(TEXT, BG),
            x1,
        ).put(b, y0 + 1, "▉"@, border, x1);
        let visible = max(h - 3, 0);
        let off = max(f.selected - (visible - 1), 0);
        results_drawn(
            g2,
            f,
            x0,
            y0,
            w,
            off,
            if visible == 0 {
                0
            } else {
                min(max(f.results.len() - off, 0), visible)
            },
        )
    }
}

/// Indices as mathematical integers.
pub open spec fn ints(v: Seq<usize>) -> Seq<int> {
    Seq::new(v.len(), |i: int| v[i] as int)
}

fn has(v: &Vec<usize>, x: usize) -> (r: bool)
    ensures
        r == ints(v@).contains(x as int),
{
    let mut i: usize = 0;
    while i < v.len()
        invariant
            i <= v@.len(),
            forall|j: int| 0 <= j < i ==> v@[j] != x,
        decreases v@.len() - i,
    {
        if v[i] == x {
            assert(ints(v@)[i as int] == x);
            return true;
        }
        i = i + 1;
    }
    assert forall|j: int| 0 <= j < ints(v@).len() implies ints(v@)[j] != x by {
        assert(v@[j] != x);
    }
    false
}

fn draw_name(g: &mut Grid, name: &str, lit: &Vec<usize>, x: u16, y: u16, bg: Rgb, x1: u16)
    requires
        old(g)@.wf(),
        x <= x1,
    ensures
        final(g)@.wf(),
        final(g)@ == name_drawn(
            old(g)@,
            name@,
            ints(lit@),
            x as int,
            y as int,
            bg,
            min(name@.len() as int, x1 - x),
        ),
{
    let ghost g0 = g@;
    let chars = to_chars(name);
    let room: usize = (x1 - x) as usize;
    let n: usize = if chars.len() < room {
        chars.len()
    } else {
        room
    };
    let mut k: usize = 0;
    while k < n
        invariant
            g@.wf(),
            chars@ == name@,
            k <= n <= chars@.len(),
            n <= room == x1 - x,
            g@ == name_drawn(g0, name@, ints(lit@), x as int, y as int, bg, k as int),
        decreases n - k,
    {
        let fg: Rgb = if has(lit, k) {
            ACCENT
        } else {
            TEXT
        };
        set_cell(g, x + k as u16, y, chars[k], style(fg, bg));
        k = k + 1;
    }
}

fn draw_frame(g: &mut Grid, x0: u16, y0: u16, w: u16, h: u16, title: &str)
    requires
        old(g)@.wf(),
        w >= 3,
        h >= 3,
        x0 + w <= u16::MAX,
        y0 + h <= u16::MAX,
    ensures
        final(g)@.wf(),
        final(g)@ == frame_drawn(old(g)@, x0 as int, y0 as int, w as int, h as int, title@),
{
    let border = style(ACCENT, BG);
    let x1: u16 = x0 + w - 1;
    let y1: u16 = y0 + h - 1;
    fill(g, x0, y0, w, h, ' ', style(TEXT, BG));
    fill(g, x0 + 1, y0, w - 2, 1, '─', border);
    fill(g, x0 + 1, y1, w - 2, 1, '─', border);
    fill(g, x0, y0 + 1, 1, h - 2, '│', border);
    fill(g, x1, y0 + 1, 1, h - 2, '│', border);
    set_cell(g, x0, y0, '┌', border);
    set_cell(g, x1, y0, '┐', border);
    set_cell(g, x0, y1, '└', border);
    set_cell(g, x1, y1, '┘', border);
    put_str(g, x0 + 2, y0, title, border, x1);
}

fn draw_results(g: &mut Grid, f: &FinderState, x0: u16, y0: u16, w: u16, off: usize, n: usize)
    requires
        old(g)@.wf(),
        w >= 10,
        x0 + w <= u16::MAX,
        y0 + 2 + n <= u16::MAX,
        n > 0 ==> off + n <= f.results@.len(),
    ensures
        final(g)@.wf(),
        final(g)@ == results_drawn(
            old(g)@,
            f@,
            x0 as int,
            y0 as int,
            w as int,
            off as int,
            n as int,
        ),
{
    let ghost g0 = g@;
    let total: usize = f.results.len();
    let x1: u16 = x0 + w - 1;
    let mut k: usize = 0;
    while k < n
        invariant
            g@.wf(),
            k <= n,
            w >= 10,
            x0 + w <= u16::MAX,
            x1 == x0 + w - 1,
            y0 + 2 + n <= u16::MAX,
            total == f.results@.len(),
            n > 0 ==> off + n <= total,
            g@ == results_drawn(g0, f@, x0 as int, y0 as int, w as int, off as int, k as int),
        decreases n - k,
    {
        let i: usize = off + k;
        let y: u16 = y0 + 2 + k as u16;
        let chosen = i == f.selected;
        let bg: Rgb = if chosen {
            SURFACE
        } else {
            BG
        };
        if chosen {
            set_style(g, x0 + 1, y, w - 2, 1, style_bg(SURFACE));
            put_str(g, x0 + 1, y, "▸", style(ACCENT, SURFACE), x1);
        }
        proof {
            let e = f@.results[i as int];
            assert(e.0 == f.results@[i as int].0@);
            assert(e.1 =~= ints(f.results@[i as int].1@));
        }
        draw_name(g, f.results[i].0.as_str(), &f.results[i].1, x0 + 3, y, bg, x1);
        k = k + 1;
    }
}

pub fn draw_finder(g: &mut Grid, vl: &VLayout, cols: u16, f: &FinderState)
    requires
        old(g)@.wf(),
        vl.text_top + vl.text_rows <= u16::MAX,
    ensures
        final(g)@.wf(),
        final(g)@ == finder_drawn(old(g)@, *vl, cols as int, f@),
{
    proof {
        reveal(finder_drawn);
    }
    if vl.text_rows < 3 || cols < 10 {
        return ;
    }
    let wide: u32 = cols as u32 * 4 / 5;
    let w: u16 = if wide > 10 {
        wide as u16
    } else {
        10
    };
    let tall: u32 = vl.text_rows as u32 * 3 / 5;
    let tallest: u16 = if tall > 3 {
        tall as u16
    } else {
        3
    };
    let total: usize = f.results.len();
    let want: usize = total % 65536 + 3;
    let h: u16 = if want < tallest as usize {
        want as u16
    } else {
        tallest
    };
    let x0: u16 = (cols - w) / 2;
    let y0: u16 = vl.text_top + (vl.text_rows - h) / 2;
    let x1: u16 = x0 + w - 1;
    let border = style(ACCENT, BG);
    let title = match f.target {
        FinderTarget::Files => " find file ",
        FinderTarget::Buffers => " buffers ",
    };
    draw_frame(g, x0, y0, w, h, title);
    let px = put_str(g, x0 + 2, y0 + 1, "> ", border, x1);
    let qx = put_str(g, px, y0 + 1, f.query.as_str(), style(TEXT, BG), x1);
    put_str(g, qx, y0 + 1, "▉", border, x1);
    let visible: usize = (h - 3) as usize;
    if visible == 0 {
        return ;
    }
    let off: usize = if f.selected > visible - 1 {
        f.selected - (visible - 1)
    } else {
        0
    };
    let rest: usize = if total > off {
        total - off
    } else {
        0
    };
    let n: usize = if rest < visible {
        rest
    } else {
        visible
    };
    draw_results(g, f, x0, y0, w, off, n);
}

/// Name and version shown on the dashboard.
pub const VERSION: &'static str = "rvim v0.1.0";

/// A line of the dashboard with its colour.
pub type Banner = (Seq<char>, Rgb);

/// The dashboard: the logo, the version, and the first keys to know.
pub open spec fn banner() -> Seq<Banner> {
    seq![
        ("              _            "@, ACCENT),
        (" _ __ __   __(_) _ __ ___  "@, ACCENT),
        ("| '__|\\ \\ / /| || '_ ` _ \\ "@, ACCENT),
        ("| |    \\ V / | || | | | | |"@, ACCENT),
        ("|_|     \\_/  |_||_| |_| |_|"@, ACCENT),
        (""@, MUTED),
        (VERSION@, MUTED),
        (""@, DIM),
        (":e <file>   new/open file"@, DIM),
        ("Space f f   find file"@, DIM),
        ("Space e     file explorer"@, DIM),
        ("Space w     save file"@, DIM),
        ("Space q     quit file"@, DIM),
        (":help       cheatsheet"@, DIM),
        ("tap ⌨ to hide keyboard"@, DIM),
    ]
}

fn banner_lines() -> (r: Vec<(&'static str, Rgb)>)
    ensures
        r@.len() == banner().len(),
        forall|i: int| 0 <= i < r@.len() ==> (#[trigger] r@[i]).0@ == banner()[i].0,
        forall|i: int| 0 <= i < r@.len() ==> (#[trigger] r@[i]).1 == banner()[i].1,
{
    vec![
        ("              _            ", ACCENT),
        (" _ __ __   __(_) _ __ ___  ", ACCENT),
        ("| '__|\\ \\ / /| || '_ ` _ \\ ", ACCENT),
        ("| |    \\ V / | || | | | | |", ACCENT),
        ("|_|     \\_/  |_||_| |_| |_|", ACCENT),
        ("", MUTED),
        (VERSION, MUTED),
        ("", DIM),
        (":e <file>   new/open file", DIM),
        ("Space f f   find file", DIM),
        ("Space e     file explorer", DIM),
        ("Space w     save file", DIM),
        ("Space q     quit file", DIM),
        (":help       cheatsheet", DIM),
        ("tap ⌨ to hide keyboard", DIM),
    ]
}

/// The dashboard's lines from `i` on, each in the middle, as far as the text area goes down.
pub open spec fn banner_drawn(g: GridV, vl: VLayout, x0: int, cols: int, i: int) -> GridV
    decreases banner().len() - i,
{
    let y = vl.text_top + max(vl.text_rows - banner().len(), 0) / 2 + i;
    if i < 0 || i >= banner().len() || y >= vl.text_top + vl.text_rows {
        g
    } else {
        let (line, color) = banner()[i];
        banner_drawn(
            g.put(x0 + max(cols - line.len(), 0) / 2, y, line, ink(color), x0 + cols),
            vl,
            x0,
            cols,
            i + 1,
        )
    }
}

#[verifier::opaque]
pub open spec fn dashboard_drawn(g: GridV, vl: VLayout, x0: int, cols: int) -> GridV {
    banner_drawn(g, vl, x0, cols, 0)
}

pub fn draw_dashboard(g: &mut Grid, vl: &VLayout, x0: u16, cols: u16)
    requires
        old(g)@.wf(),
        vl.text_top + vl.text_rows <= u16::MAX,
        x0 + cols <= u16::MAX,
    ensures
        final(g)@.wf(),
        final(g)@ == dashboard_drawn(old(g)@, *vl, x0 as int, cols as int),
{
    proof {
        reveal(dashboard_drawn);
    }
    let ghost g0 = g@;
    let lines = banner_lines();
    let bottom: u16 = vl.text_top + vl.text_rows;
    let start: u16 = vl.text_top + (if vl.text_rows > 15 {
        vl.text_rows - 15
    } else {
        0
    }) / 2;
    let mut i: usize = 0;
    while i < lines.len() && i < (bottom - start) as usize
        invariant
            g@.wf(),
            i <= lines@.len() == banner().len() == 15,
            forall|j: int| 0 <= j < lines@.len() ==> (#[trigger] lines@[j]).0@ == banner()[j].0,
            forall|j: int| 0 <= j < lines@.len() ==> (#[trigger] lines@[j]).1 == banner()[j].1,
            x0 + cols <= u16::MAX,
            start <= bottom == vl.text_top + vl.text_rows,
            start == vl.text_top + max(vl.text_rows - 15, 0) / 2,
            banner_drawn(g0, *vl, x0 as int, cols as int, 0) == banner_drawn(
                g@,
                *vl,
                x0 as int,
                cols as int,
                i as int,
            ),
        ensures
            g@.wf(),
            g@ == banner_drawn(g0, *vl, x0 as int, cols as int, 0),
        decreases lines@.len() - i,
    {
        let y: u16 = start + i as u16;
        let line = lines[i].0;
        let w: usize = char_count(line);
        let room: u16 = if w < cols as usize {
            cols - w as u16
        } else {
            0
        };
        put_str(g, x0 + room / 2, y, line, style_fg(lines[i].1), x0 + cols);
        i = i + 1;
    }
}

} // verus!
