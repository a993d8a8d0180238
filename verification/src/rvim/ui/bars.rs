//! One-row chrome: bufferline, window separators, statusline, command line and touchbar.

use vstd::prelude::*;

use crate::rvim::buffer::{max, min};
use crate::rvim::keys::Mode;
use crate::rvim::state::{bufs, BufV, Buffer, EditorState, MsgKind, StV};
use crate::rvim::theme::{
    Rgb, ACCENT, BG, DIM, ERROR, MODE_COMMAND, MODE_INSERT, MODE_NORMAL, MODE_REPLACE, MODE_VISUAL,
    MUTED, SURFACE, SURFACE_DIM, TEXT,
};
use crate::rvim::ui::grid::{
    group_grid, ink, on, put_end, put_str, set_cell, set_style, style, style_fg, style_reversed,
    turned, Grid, GridV, Style,
};
use crate::rvim::ui::layout::held;
use crate::rvim::ui::touch::{cells_of, touch_views, touchbar_cells, TouchAction, TouchV};
use crate::rvim::ui::window::{buffer_of, WinRect};
use crate::rvim::vim::{mode_name, EngV, VimEngine};
use crate::text::{cat, char_count, decimal_of, decimal_wide, range_string, to_chars};

verus! {

broadcast use group_grid;

/// A buffer's tab: its name, with a dot where it is modified.
pub open spec fn tab_label(b: BufV) -> Seq<char> {
    " "@ + b.name + if b.modified() {
        " ● "@
    } else {
        " "@
    }
}

fn tab_text(b: &Buffer) -> (r: String)
    ensures
        r@ == tab_label(b@),
{
    let head = cat(" ", b.name.as_str());
    if b.modified() {
        cat(head.as_str(), " ● ")
    } else {
        cat(head.as_str(), " ")
    }
}

/// Columns the tabs `[a, b]` take.
pub open spec fn tabs_width(bs: Seq<BufV>, a: int, b: int) -> int
    decreases b - a + 1,
{
    if a > b {
        0
    } else {
        tabs_width(bs, a, b - 1) + tab_label(bs[b]).len()
    }
}

/// The first tab shown: as far left as still leaves room for the active one.
pub open spec fn first_tab(bs: Seq<BufV>, start: int, active: int, cols: int) -> int
    decreases active - start,
{
    if start < active && tabs_width(bs, start, active) > cols {
        first_tab(bs, start + 1, active, cols)
    } else {
        start
    }
}

proof fn lemma_tabs_width_grows(bs: Seq<BufV>, a: int, b: int, c: int)
    requires
        b <= c,
    ensures
        tabs_width(bs, a, b) <= tabs_width(bs, a, c),
        0 <= tabs_width(bs, a, b),
    decreases c - a + 1,
{
    if b < c {
        if a <= c {
            lemma_tabs_width_grows(bs, a, b, c - 1);
        }
    } else if a <= b {
        lemma_tabs_width_grows(bs, a, b - 1, b - 1);
    }
}

/// The tabs `[start, active]` fit into `cols` columns.
fn tabs_fit(bs: &Vec<Buffer>, start: usize, active: usize, cols: u16) -> (r: bool)
    requires
        start <= active < bs@.len(),
    ensures
        r == (tabs_width(bufs(bs@), start as int, active as int) <= cols),
{
    let ghost s = bufs(bs@);
    let n: usize = bs.len();
    let mut left: usize = cols as usize;
    let mut i: usize = start;
    while i <= active
        invariant
            s == bufs(bs@),
            start <= i <= active + 1,
            active < n,
            n == bs@.len(),
            left == cols - tabs_width(s, start as int, i - 1),
        decreases active + 1 - i,
    {
        let w: usize = char_count(tab_text(&bs[i]).as_str());
        assert(s[i as int] == bs@[i as int]@);
        if w > left {
            proof {
                lemma_tabs_width_grows(s, start as int, i as int, active as int);
            }
            return false;
        }
        left = left - w;
        i = i + 1;
    }
    true
}

/// The tabs from `i` on drawn from column `x` on; the column after the last.
pub open spec fn tabs_drawn(
    g: GridV,
    bs: Seq<BufV>,
    row: int,
    cols: int,
    active: int,
    x: int,
    i: int,
) -> (GridV, int)
    decreases bs.len() - i,
{
    if i < 0 || i >= bs.len() || x >= cols {
        (g, x)
    } else {
        let label = tab_label(bs[i]);
        let st = if i == active {
            on(ACCENT, SURFACE)
        } else {
            on(DIM, SURFACE_DIM)
        };
        tabs_drawn(
            g.put(x, row, label, st, cols),
            bs,
            row,
            cols,
            active,
            put_end(x, label, cols),
            i + 1,
        )
    }
}

/// The bufferline: tabs, and the program's name on the right where there is room.
#[verifier::opaque]
pub open spec fn bufferline_drawn(g: GridV, row: int, cols: int, st: StV) -> GridV {
    let g1 = g.styled(0, row, cols, 1, on(DIM, SURFACE_DIM));
    let brand = on(ACCENT, SURFACE_DIM);
    if st.buffers.len() == 0 {
        if cols >= 5 {
            g1.put(cols - 5, row, "rvim "@, brand, cols)
        } else {
            g1
        }
    } else {
        let active = min(st.active(), st.buffers.len() - 1);
        let (g2, x) = tabs_drawn(
            g1,
            st.buffers,
            row,
            cols,
            active,
            0,
            first_tab(st.buffers, 0, active, cols),
        );
        if x + 6 <= cols {
            g2.put(cols - 5, row, "rvim "@, brand, cols)
        } else {
            g2
        }
    }
}

pub fn draw_bufferline(g: &mut Grid, row: u16, cols: u16, st: &EditorState)
    requires
        old(g)@.wf(),
        0 <= st@.active(),
    ensures
        final(g)@.wf(),
        final(g)@ == bufferline_drawn(old(g)@, row as int, cols as int, st@),
{
    proof {
        reveal(bufferline_drawn);
    }
    let base = style(DIM, SURFACE_DIM);
    let brand = style(ACCENT, SURFACE_DIM);
    set_style(g, 0, row, cols, 1, base);
    if st.buffers.is_empty() {
        if cols >= 5 {
            put_str(g, cols - 5, row, "rvim ", brand, cols);
        }
        return ;
    }
    let n: usize = st.buffers.len();
    let at: usize = st.active();
    let active: usize = if at < n {
        at
    } else {
        n - 1
    };
    let ghost bs = st@.buffers;
    let mut start: usize = 0;
    while start < active && !tabs_fit(&st.buffers, start, active, cols)
        invariant
            bs == bufs(st.buffers@),
            start <= active < st.buffers@.len(),
            first_tab(bs, 0, active as int, cols as int) == first_tab(
                bs,
                start as int,
                active as int,
                cols as int,
            ),
        ensures
            start == first_tab(bs, 0, active as int, cols as int),
            start <= active,
        decreases active - start,
    {
        start = start + 1;
    }
    let ghost g1 = g@;
    let mut x: u16 = 0;
    let mut i: usize = start;
    while i < n && x < cols
        invariant
            g@.wf(),
            bs == bufs(st.buffers@),
            n == st.buffers@.len(),
            i <= n,
            x <= cols,
            base == on(DIM, SURFACE_DIM),
            tabs_drawn(g1, bs, row as int, cols as int, active as int, 0, start as int)
                == tabs_drawn(g@, bs, row as int, cols as int, active as int, x as int, i as int),
        ensures
            g@.wf(),
            x <= cols,
            tabs_drawn(g1, bs, row as int, cols as int, active as int, 0, start as int) == (
                g@,
                x as int,
            ),
        decreases n - i,
    {
        let st_i: Style = if i == active {
            style(ACCENT, SURFACE)
        } else {
            base
        };
        let label = tab_text(&st.buffers[i]);
        assert(bs[i as int] == st.buffers@[i as int]@);
        x = put_str(g, x, row, label.as_str(), st_i, cols);
        i = i + 1;
    }
    if cols >= 6 && x <= cols - 6 {
        put_str(g, cols - 5, row, "rvim ", brand, cols);
    }
}

/// Label of a separator: the buffer's name, marked where it is modified.
pub open spec fn sep_label(b: BufV) -> Seq<char> {
    " "@ + b.name + if b.modified() {
        " [+] "@
    } else {
        " "@
    }
}

/// A length as far as sixteen bits hold it.
pub open spec fn low_len(s: Seq<char>) -> int {
    s.len() as int % 65536
}

/// The separator under a stacked window, its buffer's name in the middle.
#[verifier::opaque]
pub open spec fn sep_drawn(g: GridV, r: WinRect, st: StV, focused: bool) -> GridV {
    let y = held(r.y + r.h) as int;
    let g1 = g.styled(r.x as int, y, r.w as int, 1, on(MUTED, SURFACE_DIM));
    let i = buffer_of(st, r.win as int);
    if i >= st.buffers.len() {
        g1
    } else {
        let label = sep_label(st.buffers[i]);
        g1.put(
            r.x + max(r.w - low_len(label), 0) / 2,
            y,
            label,
            on(
                if focused {
                    ACCENT
                } else {
                    MUTED
                },
                SURFACE_DIM,
            ),
            r.x + r.w,
        )
    }
}

/// Separator row below a stacked window: its buffer name (+ modified marker) centered.
pub fn draw_hsep(g: &mut Grid, r: &WinRect, st: &EditorState, focused: bool)
    requires
        old(g)@.wf(),
        r.x + r.w <= u16::MAX,
    ensures
        final(g)@.wf(),
        final(g)@ == sep_drawn(old(g)@, *r, st@, focused),
{
    proof {
        reveal(sep_drawn);
    }
    let y: u16 = if r.y > 65535 - r.h {
        65535
    } else {
        r.y + r.h
    };
    set_style(g, r.x, y, r.w, 1, style(MUTED, SURFACE_DIM));
    let i: usize = if r.win < st.windows.len() {
        st.windows[r.win].buffer
    } else {
        0
    };
    if i >= st.buffers.len() {
        return ;
    }
    let b = &st.buffers[i];
    assert(b@ == st@.buffers[i as int]);
    let head = cat(" ", b.name.as_str());
    let label = if b.modified() {
        cat(head.as_str(), " [+] ")
    } else {
        cat(head.as_str(), " ")
    };
    let lw: u16 = (char_count(label.as_str()) % 65536) as u16;
    let room: u16 = if r.w > lw {
        r.w - lw
    } else {
        0
    };
    let fg: Rgb = if focused {
        ACCENT
    } else {
        MUTED
    };
    put_str(g, r.x + room / 2, y, label.as_str(), style(fg, SURFACE_DIM), r.x + r.w);
}

/// Scroll indicator: the whole text shown, its top, its end, or how far down in percent.
pub open spec fn pct_of(top: int, rows: int, line_count: int) -> Seq<char> {
    if line_count <= rows {
        "All"@
    } else if top == 0 {
        "Top"@
    } else if top + rows >= line_count {
        "Bot"@
    } else {
        decimal_of((top * 100 / (line_count - rows)) as nat) + "%"@
    }
}

/// Statusline scroll indicator: All / Top / Bot / NN%.
pub fn scroll_pct(top: usize, rows: usize, line_count: usize) -> (r: String)
    ensures
        r@ == pct_of(top as int, rows as int, line_count as int),
{
    if line_count <= rows {
        "All".to_string()
    } else if top == 0 {
        "Top".to_string()
    } else if top as u128 + rows as u128 >= line_count as u128 {
        "Bot".to_string()
    } else {
        let pct: u128 = top as u128 * 100 / (line_count - rows) as u128;
        cat(decimal_wide(pct).as_str(), "%")
    }
}

/// Colours of the mode chip.
pub open spec fn chip_of(m: Mode) -> (Rgb, Rgb) {
    match m {
        Mode::Insert => MODE_INSERT,
        Mode::Visual { .. } => MODE_VISUAL,
        Mode::Replace => MODE_REPLACE,
        Mode::Command | Mode::Search { .. } => MODE_COMMAND,
        Mode::Normal => MODE_NORMAL,
    }
}

fn chip(m: Mode) -> (r: (Rgb, Rgb))
    ensures
        r == chip_of(m),
{
    match m {
        Mode::Insert => MODE_INSERT,
        Mode::Visual { .. } => MODE_VISUAL,
        Mode::Replace => MODE_REPLACE,
        Mode::Command | Mode::Search { .. } => MODE_COMMAND,
        Mode::Normal => MODE_NORMAL,
    }
}

/// A number on the statusline, counted from one.
pub open spec fn ordinal(n: int) -> Seq<char> {
    decimal_of((n + 1) as nat)
}

fn ordinal_text(n: usize) -> (r: String)
    ensures
        r@ == ordinal(n as int),
{
    decimal_wide(n as u128 + 1)
}

/// Right end of the statusline: recording, pending keys, windows, position and scroll.
pub open spec fn right_text(st: StV, e: EngV, rows: int) -> Seq<char> {
    let a = match e.recording {
        Some((reg, _)) => "recording @"@.push(reg) + "  "@,
        None => Seq::empty(),
    };
    let b = if e.pending.len() > 0 {
        a + e.pending + "  "@
    } else {
        a
    };
    let c = if st.windows.len() > 1 {
        b + "⧉ "@ + ordinal(st.active_win) + "/"@ + decimal_of(st.windows.len()) + "  "@
    } else {
        b
    };
    if st.has_buf() {
        let f = st.buf();
        c + ordinal(f.cursor.line) + ":"@ + ordinal(f.cursor.col) + "  "@ + pct_of(
            f.scroll.0 as int,
            rows,
            f.text.lines.len() as int,
        ) + " "@
    } else {
        c
    }
}

fn status_right(st: &EditorState, vim: &VimEngine, rows: u16) -> (r: String)
    requires
        0 <= st@.active(),
    ensures
        r@ == right_text(st@, vim@, rows as int),
{
    let mut right = String::new();
    assert(right@ =~= Seq::<char>::empty());
    if let Some(reg) = vim.recording_reg() {
        right = "recording @".to_string();
        right.push(reg);
        right = cat(right.as_str(), "  ");
    }
    let pending = vim.pending_display();
    if char_count(pending) > 0 {
        right = cat(right.as_str(), pending);
        right = cat(right.as_str(), "  ");
    }
    let n: usize = st.windows.len();
    if n > 1 {
        right = cat(right.as_str(), "⧉ ");
        right = cat(right.as_str(), ordinal_text(st.active_win).as_str());
        right = cat(right.as_str(), "/");
        right = cat(right.as_str(), decimal_wide(n as u128).as_str());
        right = cat(right.as_str(), "  ");
    }
    if let Some(b) = st.buf() {
        let pct = scroll_pct(b.scroll.0, rows as usize, b.text.line_count());
        right = cat(right.as_str(), ordinal_text(b.cursor.line).as_str());
        right = cat(right.as_str(), ":");
        right = cat(right.as_str(), ordinal_text(b.cursor.col).as_str());
        right = cat(right.as_str(), "  ");
        right = cat(right.as_str(), pct.as_str());
        right = cat(right.as_str(), " ");
    }
    right
}

/// Name part of the statusline.
pub open spec fn status_name(b: BufV) -> Seq<char> {
    " "@ + b.name + if b.modified() {
        " [+]"@
    } else {
        Seq::empty()
    }
}

/// The statusline: mode chip, name, and the right end where it fits.
#[verifier::opaque]
pub open spec fn statusline_drawn(
    g: GridV,
    row: int,
    cols: int,
    st: StV,
    e: EngV,
    rows: int,
) -> GridV {
    let base = on(MUTED, SURFACE_DIM);
    let g1 = g.styled(0, row, cols, 1, base);
    let label = " "@ + mode_name(e.mode) + " "@;
    let chip = chip_of(e.mode);
    let g2 = g1.put(0, row, label, on(chip.0, chip.1), cols);
    let g3 = if st.has_buf() {
        g2.put(put_end(0, label, cols), row, status_name(st.buf()), base, cols)
    } else {
        g2
    };
    let right = right_text(st, e, rows);
    let w = low_len(right);
    if 0 < w <= cols {
        g3.put(cols - w, row, right, base, cols)
    } else {
        g3
    }
}

pub fn draw_statusline(
    g: &mut Grid,
    row: u16,
    cols: u16,
    st: &EditorState,
    vim: &VimEngine,
    text_rows: u16,
)
    requires
        old(g)@.wf(),
        0 <= st@.active(),
    ensures
        final(g)@.wf(),
        final(g)@ == statusline_drawn(
            old(g)@,
            row as int,
            cols as int,
            st@,
            vim@,
            text_rows as int,
        ),
{
    proof {
        reveal(statusline_drawn);
    }
    let base = style(MUTED, SURFACE_DIM);
    set_style(g, 0, row, cols, 1, base);
    let head = cat(" ", vim.mode_label());
    let label = cat(head.as_str(), " ");
    let (fg, bg) = chip(vim.mode());
    let x = put_str(g, 0, row, label.as_str(), style(fg, bg), cols);
    if let Some(b) = st.buf() {
        let plain = cat(" ", b.name.as_str());
        let name = if b.modified() {
            cat(plain.as_str(), " [+]")
        } else {
            plain
        };
        assert(name@ =~= status_name(st@.buf()));
        put_str(g, x, row, name.as_str(), base, cols);
    }
    let right = status_right(st, vim, text_rows);
    let w: u16 = (char_count(right.as_str()) % 65536) as u16;
    if w > 0 && w <= cols {
        put_str(g, cols - w, row, right.as_str(), base, cols);
    }
}

/// First char of the command line that is shown, so that its cursor is.
pub open spec fn cmdline_start(cur: int, cols: int) -> int {
    let avail = max(cols - 1, 0);
    if avail > 0 && cur >= avail {
        cur + 1 - avail
    } else {
        0
    }
}

pub open spec fn prompt_of(m: Mode) -> char {
    match m {
        Mode::Search { backwards: true } => '?',
        Mode::Search { backwards: false } => '/',
        _ => ':',
    }
}

/// The command line: what is typed, else the last message, else a word of advice.
#[verifier::opaque]
pub open spec fn cmdline_drawn(
    g: GridV,
    row: int,
    cols: int,
    st: StV,
    e: EngV,
    blink_on: bool,
    focused: bool,
) -> GridV {
    if cols == 0 {
        g
    } else if e.mode is Command || e.mode is Search {
        let start = cmdline_start(e.cmdline_cursor, cols);
        let g1 = g.set(0, row, prompt_of(e.mode), ink(TEXT)).put(
            1,
            row,
            e.cmdline.skip(start),
            ink(TEXT),
            cols,
        );
        let cx = 1 + e.cmdline_cursor - start;
        if blink_on && cx < cols {
            g1.styled(cx, row, 1, 1, turned())
        } else {
            g1
        }
    } else if st.status is Some {
        g.put(
            0,
            row,
            (st.status->0).text,
            ink(
                match (st.status->0).kind {
                    MsgKind::Error => ERROR,
                    MsgKind::Info => MUTED,
                },
            ),
            cols,
        )
    } else if !focused {
        g.put(0, row, "tap to type — :help for keys"@, ink(DIM), cols)
    } else {
        g
    }
}

pub fn draw_cmdline(
    g: &mut Grid,
    row: u16,
    cols: u16,
    st: &EditorState,
    vim: &VimEngine,
    blink_on: bool,
    focused: bool,
)
    requires
        old(g)@.wf(),
        vim@.wf(),
    ensures
        final(g)@.wf(),
        final(g)@ == cmdline_drawn(
            old(g)@,
            row as int,
            cols as int,
            st@,
            vim@,
            blink_on,
            focused,
        ),
{
    proof {
        reveal(cmdline_drawn);
    }
    if cols == 0 {
        return ;
    }
    if let Some((prefix, text, cur)) = vim.cmdline() {
        let avail: usize = (cols - 1) as usize;
        let len: usize = char_count(text);
        let start: usize = if avail > 0 && cur >= avail {
            cur + 1 - avail
        } else {
            0
        };
        set_cell(g, 0, row, prefix, style_fg(TEXT));
        let chars = to_chars(text);
        let shown = range_string(chars.as_slice(), start, chars.len());
        assert(shown@ =~= vim@.cmdline.skip(start as int));
        put_str(g, 1, row, shown.as_str(), style_fg(TEXT), cols);
        if blink_on && cur - start < avail {
            set_style(g, 1 + (cur - start) as u16, row, 1, 1, style_reversed());
        }
    } else if let Some(msg) = &st.status {
        let fg: Rgb = match msg.kind {
            MsgKind::Error => ERROR,
            MsgKind::Info => MUTED,
        };
        put_str(g, 0, row, msg.text.as_str(), style_fg(fg), cols);
    } else if !focused {
        put_str(g, 0, row, "tap to type — :help for keys", style_fg(DIM), cols);
    }
}

/// The touchbar's buttons from `i` on drawn.
pub open spec fn buttons_drawn(
    g: GridV,
    cells: Seq<TouchV>,
    row: int,
    ctrl_armed: bool,
    i: int,
) -> GridV
    decreases cells.len() - i,
{
    if i < 0 || i >= cells.len() {
        g
    } else {
        let (start, end, label, action) = cells[i];
        let w = end - start;
        let armed = action is StickyCtrl && ctrl_armed;
        let g1 = if w > 0 && armed {
            g.styled(start, row, w, 1, on(BG, ACCENT))
        } else {
            g
        };
        let g2 = if w > 0 {
            g1.put(
                start + max(w - label.len(), 0) / 2,
                row,
                label,
                if armed {
                    on(BG, ACCENT)
                } else {
                    on(TEXT, SURFACE)
                },
                end,
            )
        } else {
            g1
        };
        buttons_drawn(g2, cells, row, ctrl_armed, i + 1)
    }
}

/// The touchbar: each button's label in the middle of its cell, an armed Ctrl lit.
#[verifier::opaque]
pub open spec fn touchbar_drawn(g: GridV, row: int, cols: u16, ctrl_armed: bool) -> GridV {
    buttons_drawn(
        g.styled(0, row, cols as int, 1, on(TEXT, SURFACE)),
        cells_of(cols),
        row,
        ctrl_armed,
        0,
    )
}

pub fn draw_touchbar(g: &mut Grid, row: u16, cols: u16, ctrl_armed: bool)
    requires
        old(g)@.wf(),
    ensures
        final(g)@.wf(),
        final(g)@ == touchbar_drawn(old(g)@, row as int, cols, ctrl_armed),
{
    proof {
        reveal(touchbar_drawn);
    }
    let base = style(TEXT, SURFACE);
    set_style(g, 0, row, cols, 1, base);
    let cells = touchbar_cells(cols);
    let ghost g1 = g@;
    let ghost cv = cells_of(cols);
    let mut i: usize = 0;
    while i < cells.len()
        invariant
            g@.wf(),
            cv == touch_views(cells@),
            i <= cells@.len(),
            base == on(TEXT, SURFACE),
            buttons_drawn(g1, cv, row as int, ctrl_armed, 0) == buttons_drawn(
                g@,
                cv,
                row as int,
                ctrl_armed,
                i as int,
            ),
        decreases cells@.len() - i,
    {
        let (start, end, label, action) = cells[i];
        assert(cv[i as int] == (start as int, end as int, label@, action));
        if end > start {
            let w: u16 = end - start;
            let lit = match action {
                TouchAction::StickyCtrl => ctrl_armed,
                _ => false,
            };
            let look: Style = if lit {
                let armed = style(BG, ACCENT);
                set_style(g, start, row, w, 1, armed);
                armed
            } else {
                base
            };
            let lw: usize = char_count(label);
            let room: u16 = if lw < w as usize {
                w - lw as u16
            } else {
                0
            };
            put_str(g, start + room / 2, row, label, look, end);
        }
        i = i + 1;
    }
}

} // verus!
