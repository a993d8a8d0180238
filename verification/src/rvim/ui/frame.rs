//! Drawing a frame: laying the screen out, scrolling to the cursor, and painting it.

use vstd::prelude::*;

use crate::rvim::buffer::{max, min};
use crate::rvim::explorer::{ExplorerState, ExplorerV};
use crate::rvim::fs::{Vfs, VfsV};
use crate::rvim::highlight::{spans_of, Highlighter, HlSpan, HlV};
use crate::rvim::state::{EditorState, SplitDir, StV};
use crate::rvim::ui::bars::{
    bufferline_drawn, cmdline_drawn, draw_bufferline, draw_cmdline, draw_hsep, draw_statusline,
    draw_touchbar, sep_drawn, statusline_drawn, touchbar_drawn,
};
use crate::rvim::ui::grid::{Grid, GridV};
use crate::rvim::ui::layout::{
    explorer_width, gutter_of, gutter_width, law_tiles_inside, lemma_tile_len, rows_of, sidebar_of,
    tile_len, tile_windows, tiles_of, vertical_layout, VLayout,
};
use crate::rvim::ui::panels::{
    dashboard_drawn, divider_drawn, draw_dashboard, draw_explorer, draw_finder, draw_vdiv,
    draw_whichkey, explorer_drawn, finder_drawn, whichkey_drawn,
};
use crate::rvim::ui::scroll::{apply_scroll_request, follow_scroll, followed, request_applied};
use crate::rvim::ui::touch::{hint_grid, whichkey_grid};
use crate::rvim::ui::window::{buffer_of, draw_window, texts_ok, window_drawn, WinRect};
use crate::rvim::vim::hints::{HintsV, KeyHints};
use crate::rvim::vim::{EngV, VimEngine};

verus! {

/// Per-frame inputs the renderer needs beyond the editor state.
#[derive(Clone, Copy, Debug, PartialEq, Eq, Structural)]
pub struct DrawCtx {
    /// Blink phase: the cursor cell renders solid when true.
    pub blink_on: bool,
    /// Sticky-Ctrl armed from the touchbar.
    pub ctrl_armed: bool,
    pub focused: bool,
    /// Typing has paused; non-menu which-key panels only show then.
    pub paused: bool,
}

/// Where things landed on the grid, for mapping taps back to buffer positions.
/// The flat fields describe the FOCUSED window.
pub struct LayoutInfo {
    /// Columns taken by the focused window's line-number gutter.
    pub gutter_w: u16,
    /// First grid row of the focused window.
    pub text_top: u16,
    pub text_rows: u16,
    /// Grid row of the touchbar.
    pub touchbar_row: u16,
    pub cols: u16,
    /// Every window's rectangle within the text area.
    pub windows: Vec<WinRect>,
    /// Explorer sidebar width in columns; 0 = hidden.
    pub explorer_w: u16,
    /// First grid row of the explorer sidebar (the full text area).
    pub explorer_top: u16,
    /// Sidebar rows (the full text-area height).
    pub explorer_rows: u16,
    /// First grid row of the which-key panel.
    pub whichkey_top: u16,
    /// Panel rows including the title; 0 = hidden.
    pub whichkey_rows: u16,
}

/// Model of a layout.
#[verifier::ext_equal]
pub struct LayoutV {
    pub gutter_w: u16,
    pub text_top: u16,
    pub text_rows: u16,
    pub touchbar_row: u16,
    pub cols: u16,
    pub windows: Seq<WinRect>,
    pub explorer_w: u16,
    pub explorer_top: u16,
    pub explorer_rows: u16,
    pub whichkey_top: u16,
    pub whichkey_rows: u16,
}

impl View for LayoutInfo {
    type V = LayoutV;

    open spec fn view(&self) -> LayoutV {
        LayoutV {
            gutter_w: self.gutter_w,
            text_top: self.text_top,
            text_rows: self.text_rows,
            touchbar_row: self.touchbar_row,
            cols: self.cols,
            windows: self.windows@,
            explorer_w: self.explorer_w,
            explorer_top: self.explorer_top,
            explorer_rows: self.explorer_rows,
            whichkey_top: self.whichkey_top,
            whichkey_rows: self.whichkey_rows,
        }
    }
}

impl LayoutV {
    /// Before anything was drawn.
    pub open spec fn fresh() -> LayoutV {
        LayoutV {
            gutter_w: 0,
            text_top: 0,
            text_rows: 0,
            touchbar_row: 0,
            cols: 0,
            windows: Seq::empty(),
            explorer_w: 0,
            explorer_top: 0,
            explorer_rows: 0,
            whichkey_top: 0,
            whichkey_rows: 0,
        }
    }
}

impl Default for LayoutInfo {
    fn default() -> (r: LayoutInfo)
        ensures
            r@ == LayoutV::fresh(),
    {
        let r = LayoutInfo {
            gutter_w: 0,
            text_top: 0,
            text_rows: 0,
            touchbar_row: 0,
            cols: 0,
            windows: Vec::new(),
            explorer_w: 0,
            explorer_top: 0,
            explorer_rows: 0,
            whichkey_top: 0,
            whichkey_rows: 0,
        };
        assert(r@ =~= LayoutV::fresh());
        r
    }
}

/// Minimum grid rows for the which-key panel to dock without starving the text area.
pub const WHICHKEY_MIN_SPARE: u16 = 5;

/// The which-key panel to show: menus at once, cheatsheets when typing has paused.
pub open spec fn panel_of(e: EngV, paused: bool) -> Option<HintsV> {
    match e.hints() {
        Some(h) => if h.immediate || paused {
            Some(h)
        } else {
            None
        },
        None => None,
    }
}

/// Rows of the panel with its title; none where too few rows would be left.
pub open spec fn panel_rows(h: Option<HintsV>, cols: u16, rows: u16) -> int {
    match h {
        Some(h) => {
            let ph = hint_grid(cols, h.entries.len()).0 + 1;
            if h.entries.len() > 0 && rows >= ph + WHICHKEY_MIN_SPARE {
                ph
            } else {
                0
            }
        },
        None => 0,
    }
}

/// Width of the sidebar, 0 where it is hidden.
pub open spec fn sidebar_width(st: StV, cols: u16) -> int {
    match sidebar_of(cols) {
        Some(w) => if st.explorer is Some {
            w as int
        } else {
            0
        },
        None => 0,
    }
}

/// First column of the windows: after the sidebar and its divider.
pub open spec fn windows_x(st: StV, cols: u16) -> int {
    let w = sidebar_width(st, cols);
    if w == 0 {
        0
    } else {
        min(w + 1, cols as int)
    }
}

/// Lines of the buffer a window shows, 1 where there is none.
pub open spec fn lines_in(st: StV, win: int) -> int {
    if st.windows[win] < st.buffers.len() {
        st.buffers[st.windows[win]].text.lines.len() as int
    } else {
        1
    }
}

/// The windows' rectangles: tiles of the area, each with its gutter.
pub open spec fn rects_of(st: StV, x0: u16, y0: u16, w: u16, h: u16) -> Seq<WinRect> {
    let n = st.windows.len();
    let tiles = tiles_of(n as int, st.split_dir, x0, y0, w, h);
    if st.buffers.len() == 0 {
        Seq::empty()
    } else {
        Seq::new(
            n,
            |i: int|
                WinRect {
                    win: i as usize,
                    x: tiles[i].0,
                    y: tiles[i].1,
                    w: tiles[i].2,
                    h: tiles[i].3,
                    gutter_w: gutter_of(
                        lines_in(st, i),
                        st.options.number,
                        st.options.relativenumber,
                        tiles[i].2,
                    ),
                },
        )
    }
}

/// A rectangle with any cells lies on the screen.
pub open spec fn rect_ok(r: WinRect) -> bool {
    &&& r.x + r.w <= u16::MAX
    &&& r.w > 0 && r.h > 0 ==> r.y + r.h <= u16::MAX
}

fn window_rects(st: &EditorState, x0: u16, y0: u16, w: u16, h: u16) -> (r: Vec<WinRect>)
    requires
        st@.windows.len() <= u16::MAX,
        x0 + w <= u16::MAX,
        y0 + h <= u16::MAX,
    ensures
        r@ == rects_of(st@, x0, y0, w, h),
        forall|i: int| 0 <= i < r@.len() ==> rect_ok(#[trigger] r@[i]),
{
    let mut out: Vec<WinRect> = Vec::new();
    if st.buffers.is_empty() {
        assert(out@ =~= rects_of(st@, x0, y0, w, h));
        return out;
    }
    let n: usize = st.windows.len();
    let tiles = tile_windows(n, st.split_dir, x0, y0, w, h);
    let ghost all = rects_of(st@, x0, y0, w, h);
    let mut i: usize = 0;
    while i < n
        invariant
            n == st.windows@.len() == st@.windows.len(),
            st.buffers@.len() > 0,
            x0 + w <= u16::MAX,
            y0 + h <= u16::MAX,
            tiles@ == tiles_of(n as int, st.split_dir, x0, y0, w, h),
            all == rects_of(st@, x0, y0, w, h),
            i <= n,
            out@ =~= all.take(i as int),
            forall|k: int| 0 <= k < out@.len() ==> rect_ok(#[trigger] out@[k]),
        decreases n - i,
    {
        let b: usize = st.windows[i].buffer;
        let lines: usize = if b < st.buffers.len() {
            assert(st@.buffers[b as int] == st.buffers@[b as int]@);
            st.buffers[b].text.line_count()
        } else {
            1
        };
        let t = tiles[i];
        let g = gutter_width(lines, st.options.number, st.options.relativenumber, t.2);
        let rect = WinRect { win: i, x: t.0, y: t.1, w: t.2, h: t.3, gutter_w: g };
        proof {
            assert(rect == all[i as int]);
            let len = if st.split_dir is Horizontal {
                h
            } else {
                w
            };
            if tile_len(n as int, len as int, i as int) > 0 {
                law_tiles_inside(n as int, len as int, i as int);
            }
            lemma_tile_len(n as int, len as int, i as int);
            assert(rect_ok(rect));
        }
        out.push(rect);
        i = i + 1;
    }
    assert(out@ =~= all);
    out
}

/// The sidebar scrolled so that its selected file is in view.
pub open spec fn explorer_followed(ex: ExplorerV, files: int, visible: int) -> ExplorerV {
    let selected = min(ex.selected, max(files - 1, 0));
    ExplorerV {
        selected,
        offset: if selected < ex.offset {
            selected
        } else if visible > 0 && selected >= ex.offset + visible {
            selected + 1 - visible
        } else {
            ex.offset
        },
        ..ex
    }
}

fn follow_explorer(ex: &mut ExplorerState, files: usize, visible: usize)
    ensures
        final(ex)@ == explorer_followed(old(ex)@, files as int, visible as int),
{
    let last: usize = if files > 0 {
        files - 1
    } else {
        0
    };
    if ex.selected > last {
        ex.selected = last;
    }
    if ex.selected < ex.offset {
        ex.offset = ex.selected;
    } else if visible > 0 && ex.selected - ex.offset >= visible {
        ex.offset = ex.selected - (visible - 1);
    }
}

/// The screen's plan for one frame.
pub struct Plan {
    pub vl: VLayout,
    pub side: int,
    pub x0: int,
    pub w: int,
    pub rects: Seq<WinRect>,
    pub panel: Option<HintsV>,
    pub panel_h: int,
}

pub open spec fn plan_of(st: StV, e: EngV, cols: u16, rows: u16, paused: bool) -> Plan {
    let vl = rows_of(rows);
    let x0 = windows_x(st, cols);
    let panel = panel_of(e, paused);
    Plan {
        vl,
        side: sidebar_width(st, cols),
        x0,
        w: cols - x0,
        rects: rects_of(st, x0 as u16, vl.text_top, (cols - x0) as u16, vl.text_rows),
        panel,
        panel_h: panel_rows(panel, cols, rows),
    }
}

impl Plan {
    /// The focused window's rectangle.
    pub open spec fn focus(self, st: StV) -> Option<WinRect> {
        if self.rects.len() == 0 {
            None
        } else {
            Some(self.rects[min(st.active_win, self.rects.len() - 1)])
        }
    }
}

/// The editor made ready for a frame: the window area noted, the focused buffer scrolled as
/// asked and to its cursor, the sidebar scrolled to its selection.
pub open spec fn st_ready(st: StV, e: EngV, p: Plan, files: int) -> StV {
    let s1 = StV { text_dims: (p.w as u16, p.vl.text_rows), ..st };
    let s2 = match p.focus(st) {
        Some(r) => if st.has_buf() {
            s1.with_buf(
                followed(
                    request_applied(s1.buf(), e.scroll_req, r.h as int),
                    r.h as int,
                    max(r.w - r.gutter_w, 0),
                ),
            )
        } else {
            s1
        },
        None => s1,
    };
    if p.side > 0 && s2.explorer is Some {
        StV {
            explorer: Some(
                explorer_followed(s2.explorer->0, files, max(p.vl.text_rows - 1, 0)),
            ),
            ..s2
        }
    } else {
        s2
    }
}

/// The engine after a frame: a scroll request is used up where there was a window for it.
pub open spec fn eng_ready(st: StV, e: EngV, p: Plan) -> EngV {
    if p.focus(st) is Some && st.has_buf() {
        EngV { scroll_req: None, ..e }
    } else {
        e
    }
}

/// Where things land.
pub open spec fn layout_of(st: StV, p: Plan, cols: u16) -> LayoutV {
    let f = p.focus(st);
    LayoutV {
        gutter_w: if f is Some {
            (f->0).gutter_w
        } else {
            0
        },
        text_top: if f is Some {
            (f->0).y
        } else {
            p.vl.text_top
        },
        text_rows: if f is Some {
            (f->0).h
        } else {
            p.vl.text_rows
        },
        touchbar_row: p.vl.touchbar,
        cols,
        windows: p.rects,
        explorer_w: p.side as u16,
        explorer_top: p.vl.text_top,
        explorer_rows: p.vl.text_rows,
        whichkey_top: max(p.vl.touchbar - p.panel_h, 0) as u16,
        whichkey_rows: p.panel_h as u16,
    }
}

/// The windows from `i` on drawn, each with the separator after it.
pub open spec fn windows_drawn(
    g: GridV,
    hl: HlV,
    st: StV,
    e: EngV,
    vl: VLayout,
    rects: Seq<WinRect>,
    blink_on: bool,
    i: int,
) -> (GridV, HlV)
    decreases rects.len() - i,
{
    if i < 0 || i >= rects.len() {
        (g, hl)
    } else {
        let r = rects[i];
        let focused = i == st.active_win;
        let at = buffer_of(st, r.win as int);
        let has = at < st.buffers.len();
        let hl1 = if has {
            let b = st.buffers[at];
            hl.lexed(b.name, b.text.version, b.text.lines)
        } else {
            hl
        };
        let spans = if has {
            hl1.lines
        } else {
            Seq::empty()
        };
        let g1 = window_drawn(g, st, e, r, spans, blink_on, focused);
        let g2 = if i + 1 < rects.len() {
            match st.split_dir {
                SplitDir::Horizontal => sep_drawn(g1, r, st, focused),
                SplitDir::Vertical => divider_drawn(
                    g1,
                    r.x + r.w,
                    vl.text_top as int,
                    vl.text_rows as int,
                ),
            }
        } else {
            g1
        };
        windows_drawn(g2, hl1, st, e, vl, rects, blink_on, i + 1)
    }
}

/// The text area: the windows, or the dashboard where no file is open.
pub open spec fn body_drawn(g: GridV, hl: HlV, st: StV, e: EngV, p: Plan, blink_on: bool) -> (
    GridV,
    HlV,
) {
    if st.buffers.len() == 0 {
        (dashboard_drawn(g, p.vl, p.x0, p.w), hl)
    } else {
        windows_drawn(g, hl, st, e, p.vl, p.rects, blink_on, 0)
    }
}

/// The chrome around the text area, and what lies over it.
pub open spec fn chrome_drawn(
    g: GridV,
    st: StV,
    e: EngV,
    vfs: VfsV,
    p: Plan,
    cols: u16,
    ctx: DrawCtx,
) -> GridV {
    let vl = p.vl;
    let c = cols as int;
    let g1 = if p.side > 0 {
        divider_drawn(
            explorer_drawn(g, p.side, vl.text_top as int, vl.text_rows as int, st, vfs),
            p.side,
            vl.text_top as int,
            vl.text_rows as int,
        )
    } else {
        g
    };
    let g2 = match vl.status {
        Some(row) => statusline_drawn(g1, row as int, c, st, e, vl.text_rows as int),
        None => g1,
    };
    let g3 = match vl.cmdline {
        Some(row) => cmdline_drawn(g2, row as int, c, st, e, ctx.blink_on, ctx.focused),
        None => g2,
    };
    let g4 = if p.panel_h > 0 {
        whichkey_drawn(
            g3,
            vl.touchbar - p.panel_h,
            cols,
            (p.panel->0).title,
            (p.panel->0).entries,
        )
    } else {
        g3
    };
    let g5 = touchbar_drawn(g4, vl.touchbar as int, cols, ctx.ctrl_armed);
    match st.finder {
        Some(f) => finder_drawn(g5, vl, c, f),
        None => g5,
    }
}

/// A frame painted from the editor made ready for it.
pub open spec fn painted(
    hl: HlV,
    st: StV,
    e: EngV,
    vfs: VfsV,
    p: Plan,
    cols: u16,
    rows: u16,
    ctx: DrawCtx,
) -> (GridV, HlV) {
    let g0 = GridV::fresh(cols as int, rows as int);
    let g1 = match p.vl.bufferline {
        Some(row) => bufferline_drawn(g0, row as int, cols as int, st),
        None => g0,
    };
    let (g2, hl2) = body_drawn(g1, hl, st, e, p, ctx.blink_on);
    (chrome_drawn(g2, st, e, vfs, p, cols, ctx), hl2)
}

fn draw_windows(
    g: &mut Grid,
    hl: &mut Highlighter,
    st: &EditorState,
    vim: &VimEngine,
    vl: &VLayout,
    rects: &Vec<WinRect>,
    blink_on: bool,
)
    requires
        old(g)@.wf(),
        vim@.wf(),
        texts_ok(st@),
        forall|i: int| 0 <= i < rects@.len() ==> rect_ok(#[trigger] rects@[i]),
    ensures
        final(g)@.wf(),
        (final(g)@, final(hl)@) == windows_drawn(
            old(g)@,
            old(hl)@,
            st@,
            vim@,
            *vl,
            rects@,
            blink_on,
            0,
        ),
{
    let ghost g0 = g@;
    let ghost hl0 = hl@;
    let n: usize = rects.len();
    let mut i: usize = 0;
    while i < n
        invariant
            g@.wf(),
            vim@.wf(),
            texts_ok(st@),
            forall|k: int| 0 <= k < rects@.len() ==> rect_ok(#[trigger] rects@[k]),
            n == rects@.len(),
            i <= n,
            windows_drawn(g0, hl0, st@, vim@, *vl, rects@, blink_on, 0) == windows_drawn(
                g@,
                hl@,
                st@,
                vim@,
                *vl,
                rects@,
                blink_on,
                i as int,
            ),
        decreases n - i,
    {
        let r = rects[i];
        let focused = i == st.active_win;
        let at: usize = if r.win < st.windows.len() {
            st.windows[r.win].buffer
        } else {
            0
        };
        if at < st.buffers.len() {
            let b = &st.buffers[at];
            assert(b@ == st@.buffers[at as int]);
            let spans = hl.spans(b.name.as_str(), &b.text);
            draw_window(g, &r, st, vim, spans, blink_on, focused);
        } else {
            let none: Vec<Vec<HlSpan>> = Vec::new();
            assert(spans_of(none@) =~= Seq::empty());
            draw_window(g, &r, st, vim, none.as_slice(), blink_on, focused);
        }
        if i + 1 < n {
            match st.split_dir {
                SplitDir::Horizontal => draw_hsep(g, &r, st, focused),
                SplitDir::Vertical => draw_vdiv(g, r.x + r.w, vl.text_top, vl.text_rows),
            }
        }
        i = i + 1;
    }
}

/// Make the editor ready for a frame.
fn prepare(
    st: &mut EditorState,
    vim: &mut VimEngine,
    rects: &Vec<WinRect>,
    files: usize,
    side: u16,
    win_w: u16,
    text_rows: u16,
    Ghost(p): Ghost<Plan>,
) -> (r: Option<WinRect>)
    requires
        texts_ok(old(st)@),
        p.rects == rects@,
        p.side == side,
        p.w == win_w,
        p.vl.text_rows == text_rows,
    ensures
        r == p.focus(old(st)@),
        final(st)@ == st_ready(old(st)@, old(vim)@, p, files as int),
        final(vim)@ == eng_ready(old(st)@, old(vim)@, p),
        texts_ok(final(st)@),
        old(st)@.wf() ==> final(st)@.wf(),
{
    let ghost s0 = st@;
    st.text_dims = (win_w, text_rows);
    let ghost s1 = StV { text_dims: (win_w, text_rows), ..s0 };
    assert(st@ =~= s1);
    let n: usize = rects.len();
    let focus: Option<WinRect> = if n == 0 {
        None
    } else if st.active_win < n {
        Some(rects[st.active_win])
    } else {
        Some(rects[n - 1])
    };
    if let Some(fr) = focus {
        let cols: u16 = if fr.w > fr.gutter_w {
            fr.w - fr.gutter_w
        } else {
            0
        };
        if let Some(b) = st.buf_mut() {
            let req = vim.take_scroll_request();
            apply_scroll_request(b, req, fr.h);
            follow_scroll(b, fr.h, cols);
        }
    }
    let ghost s2 = st@;
    proof {
        assert(s1.active() == s0.active());
        assert forall|i: int| 0 <= i < s2.buffers.len() implies (
        #[trigger] s2.buffers[i]).text.wf() by {
            assert(s2.buffers[i].text == s0.buffers[i].text);
        }
    }
    if side > 0 {
        let visible: usize = if text_rows > 0 {
            (text_rows - 1) as usize
        } else {
            0
        };
        if let Some(ex) = &mut st.explorer {
            follow_explorer(ex, files, visible);
        }
    }
    assert(st@ =~= st_ready(s0, old(vim)@, p, files as int));
    focus
}

/// Paint the chrome around the text area.
fn draw_chrome(
    g: &mut Grid,
    st: &EditorState,
    vim: &VimEngine,
    vfs: &Vfs,
    vl: &VLayout,
    side: u16,
    hints: &Option<KeyHints>,
    panel_h: u16,
    cols: u16,
    ctx: DrawCtx,
    Ghost(p): Ghost<Plan>,
    Ghost(rows): Ghost<u16>,
)
    requires
        old(g)@.wf(),
        vim@.wf(),
        0 <= st@.active(),
        *vl == rows_of(rows),
        p.vl == *vl,
        p.side == side,
        p.panel is Some == hints is Some,
        p.panel is Some ==> p.panel->0 == (hints->0)@,
        hints is Some ==> (hints->0).entries@.len() <= 64,
        p.panel_h == panel_h,
        p.panel_h == panel_rows(p.panel, cols, rows),
    ensures
        final(g)@.wf(),
        final(g)@ == chrome_drawn(old(g)@, st@, vim@, vfs@, p, cols, ctx),
{
    if side > 0 {
        draw_explorer(g, side, vl.text_top, vl.text_rows, st, vfs);
        draw_vdiv(g, side, vl.text_top, vl.text_rows);
    }
    if let Some(row) = vl.status {
        draw_statusline(g, row, cols, st, vim, vl.text_rows);
    }
    if let Some(row) = vl.cmdline {
        draw_cmdline(g, row, cols, st, vim, ctx.blink_on, ctx.focused);
    }
    if panel_h > 0 {
        if let Some(h) = hints {
            draw_whichkey(g, vl.touchbar - panel_h, cols, h.title, h.entries.as_slice());
        }
    }
    draw_touchbar(g, vl.touchbar, cols, ctx.ctrl_armed);
    if let Some(f) = &st.finder {
        draw_finder(g, vl, cols, f);
    }
}

/// Draw one frame on `g`; also scroll-follows the cursor (mutates the active buffer's scroll).
/// Menus (leader, Ctrl+w) show at once; prefix cheatsheets wait for a typing pause. The panel
/// overlays the rows above the touchbar without moving the text.
pub fn draw(
    g: &mut Grid,
    st: &mut EditorState,
    vim: &mut VimEngine,
    hl: &mut Highlighter,
    vfs: &Vfs,
    ctx: DrawCtx,
) -> (r: LayoutInfo)
    requires
        old(g)@.wf(),
        old(vim)@.wf(),
        old(st)@.windows.len() <= u16::MAX,
        texts_ok(old(st)@),
    ensures
        ({
            let cols = old(g)@.cols as u16;
            let rows = old(g)@.rows as u16;
            let p = plan_of(old(st)@, old(vim)@, cols, rows, ctx.paused);
            &&& final(st)@ == st_ready(old(st)@, old(vim)@, p, vfs@.files.len() as int)
            &&& final(vim)@ == eng_ready(old(st)@, old(vim)@, p)
            &&& (final(g)@, final(hl)@) == painted(
                old(hl)@,
                final(st)@,
                final(vim)@,
                vfs@,
                p,
                cols,
                rows,
                ctx,
            )
            &&& r@ == layout_of(old(st)@, p, cols)
        }),
        final(g)@.wf(),
        final(vim)@.wf(),
        old(st)@.wf() ==> final(st)@.wf(),
{
    let cols: u16 = g.cols();
    let rows: u16 = g.rows();
    let ghost p = plan_of(st@, vim@, cols, rows, ctx.paused);
    let hints: Option<KeyHints> = match vim.key_hints() {
        Some(h) => if h.immediate || ctx.paused {
            Some(h)
        } else {
            None
        },
        None => None,
    };
    let panel_h: u16 = match &hints {
        Some(h) => if h.entries.is_empty() {
            0
        } else {
            let (hint_rows, _) = whichkey_grid(cols, h.entries.len());
            let ph: u16 = hint_rows + 1;
            if rows >= ph + WHICHKEY_MIN_SPARE {
                ph
            } else {
                0
            }
        },
        None => 0,
    };
    let vl = vertical_layout(rows);
    let whichkey_top: u16 = if vl.touchbar > panel_h {
        vl.touchbar - panel_h
    } else {
        0
    };
    let side: u16 = if st.explorer.is_some() {
        match explorer_width(cols) {
            Some(w) => w,
            None => 0,
        }
    } else {
        0
    };
    let x0: u16 = if side == 0 {
        0
    } else if side < cols {
        side + 1
    } else {
        cols
    };
    let win_w: u16 = cols - x0;
    let rects = window_rects(st, x0, vl.text_top, win_w, vl.text_rows);
    let focus = prepare(
        st,
        vim,
        &rects,
        vfs.len(),
        side,
        win_w,
        vl.text_rows,
        Ghost(p),
    );
    *g = Grid::new(cols, rows);
    if let Some(row) = vl.bufferline {
        draw_bufferline(g, row, cols, st);
    }
    if st.buffers.is_empty() {
        draw_dashboard(g, &vl, x0, win_w);
    } else {
        draw_windows(g, hl, st, vim, &vl, &rects, ctx.blink_on);
    }
    draw_chrome(
        g,
        st,
        vim,
        vfs,
        &vl,
        side,
        &hints,
        panel_h,
        cols,
        ctx,
        Ghost(p),
        Ghost(rows),
    );
    let (gutter_w, text_top, text_rows): (u16, u16, u16) = match focus {
        Some(r) => (r.gutter_w, r.y, r.h),
        None => (0, vl.text_top, vl.text_rows),
    };
    LayoutInfo {
        gutter_w,
        text_top,
        text_rows,
        touchbar_row: vl.touchbar,
        cols,
        windows: rects,
        explorer_w: side,
        explorer_top: vl.text_top,
        explorer_rows: vl.text_rows,
        whichkey_top,
        whichkey_rows: panel_h,
    }
}

} // verus!
