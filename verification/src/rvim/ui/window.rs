//! One window: its gutter, its text and its cursor.

use vstd::prelude::*;

use crate::rvim::buffer::{line_at, max, min, Pos, Position};
use crate::rvim::highlight::{spans_of, HlSpan, Spans};
use crate::rvim::keys::{Mode, VisualKind};
use crate::rvim::state::{BufV, Buffer, EditorState, StV};
use crate::rvim::theme::{Rgb, ACCENT, BG, CURSORLINE_BG, DIM, LINENR, LINENR_CUR, VISUAL_BG};
use crate::rvim::ui::grid::{
    group_grid, ink, on, paper, put_str, set_cell, set_style, style, style_bg, style_fg,
    style_reversed, turned, Grid, GridV,
};
use crate::rvim::ui::look::{
    base_color, bracket_ends, bracket_pair, cell_colors, colors_of, ends_of, hit_at, hits_in,
    in_visual, line_matches, match_at, pairs_of, selected, syntax_color, Selection,
};
use crate::rvim::vim::{in_order, EngV, VimEngine};
use crate::text::{cat, char_count, decimal, decimal_of, repeat_char, run_of, to_chars};

verus! {

broadcast use group_grid;

/// Grid rectangle one window occupies, plus its gutter width.
#[derive(Clone, Copy, Debug, PartialEq, Eq, Structural)]
pub struct WinRect {
    pub win: usize,
    pub x: u16,
    pub y: u16,
    pub w: u16,
    pub h: u16,
    pub gutter_w: u16,
}

/// The window's selection in the engine, in text order.
pub open spec fn selection_of(e: EngV, cursor: Position) -> Selection {
    match e.mode {
        Mode::Visual { kind } => {
            let (a, b) = in_order(e.anchor, cursor@);
            Some(
                (
                    Position { line: a.line as usize, col: a.col as usize },
                    Position { line: b.line as usize, col: b.col as usize },
                    kind,
                ),
            )
        },
        _ => None,
    }
}

/// What a window shows: a buffer, where, and what is marked in it.
pub struct PaneV {
    pub r: WinRect,
    pub b: BufV,
    pub spans: Spans,
    pub relative: bool,
    pub focused: bool,
    pub sel: Selection,
    pub pat: Seq<char>,
}

impl PaneV {
    pub open spec fn top(self) -> int {
        min(self.b.scroll.0 as int, self.b.text.lines.len() - 1)
    }

    pub open spec fn left(self) -> int {
        self.b.scroll.1 as int
    }

    pub open spec fn text_x(self) -> int {
        self.r.x + self.r.gutter_w
    }

    pub open spec fn text_cols(self) -> int {
        max(self.r.w - self.r.gutter_w, 0)
    }

    pub open spec fn max_x(self) -> int {
        self.r.x + self.r.w
    }

    /// Line `li` is the cursor's, in the focused window.
    pub open spec fn on_cursor(self, li: int) -> bool {
        self.focused && li == self.b.cursor.line
    }

    /// Number before line `li`: its own, or how far it is from the cursor's.
    pub open spec fn number(self, li: int) -> nat {
        let cur = self.b.cursor.line;
        (if li == cur || !self.relative {
            li + 1
        } else if li > cur {
            li - cur
        } else {
            cur - li
        }) as nat
    }

    /// The gutter's text on line `li`: the number flush right, then a space.
    pub open spec fn gutter(self, li: int) -> Seq<char> {
        let n = decimal_of(self.number(li));
        run_of(' ', max(self.r.gutter_w - 1 - n.len(), 0)) + n + seq![' ']
    }

    /// Search matches on a line, those touching the shown columns among them.
    pub open spec fn matches(self, line: Seq<char>) -> Seq<(int, int)> {
        hits_in(
            line,
            self.pat,
            max(self.left() - self.pat.len(), 0),
            self.text_cols() + 2 * self.pat.len(),
        )
    }

    /// A bracket of the cursor's pair stands at a place.
    pub open spec fn bracketed(self, li: int, ci: int) -> bool {
        let ends = bracket_ends(self.b.text.lines, self.b.cursor);
        self.focused && ends is Some && (at_place((ends->0).0, li, ci) || at_place(
            (ends->0).1,
            li,
            ci,
        ))
    }

    /// Colours of char `ci` of line `li`.
    pub open spec fn colors(self, li: int, ci: int) -> (Rgb, Rgb) {
        let spans = if 0 <= li < self.spans.len() {
            self.spans[li]
        } else {
            Seq::empty()
        };
        let col = self.b.cursor.col;
        colors_of(
            base_color(spans, ci),
            self.on_cursor(li),
            self.bracketed(li, ci),
            match hit_at(self.matches(line_at(self.b.text.lines, li)), ci, 0) {
                Some((s, l)) => Some(self.on_cursor(li) && s <= col < s + l),
                None => None,
            },
            selected(self.sel, li, ci, self.b.desired_col == usize::MAX),
        )
    }

    /// The first `k` shown chars of line `li` drawn on row `y`.
    pub open spec fn text_drawn(self, g: GridV, li: int, y: int, k: int) -> GridV
        decreases k,
    {
        if k <= 0 {
            g
        } else {
            let ci = self.left() + k - 1;
            let (fg, bg) = self.colors(li, ci);
            self.text_drawn(g, li, y, k - 1).set(
                self.text_x() + k - 1,
                y,
                line_at(self.b.text.lines, li)[ci],
                on(fg, bg),
            )
        }
    }

    /// How many chars of line `li` are shown.
    pub open spec fn shown(self, li: int) -> int {
        min(max(line_at(self.b.text.lines, li).len() - self.left(), 0), self.text_cols())
    }

    /// Line `li` lies in a linewise selection.
    pub open spec fn line_selected(self, li: int) -> bool {
        match self.sel {
            Some((s, e, VisualKind::Line)) => s.line <= li <= e.line,
            _ => false,
        }
    }

    /// Line `li` drawn on row `y`.
    #[verifier::opaque]
    pub open spec fn line_drawn(self, g: GridV, li: int, y: int) -> GridV {
        let cursor_line = self.on_cursor(li);
        let g1 = if cursor_line {
            g.styled(self.r.x as int, y, self.r.w as int, 1, paper(CURSORLINE_BG))
        } else {
            g
        };
        let g2 = if self.r.gutter_w > 0 {
            g1.put(
                self.r.x as int,
                y,
                self.gutter(li),
                on(
                    if cursor_line {
                        LINENR_CUR
                    } else {
                        LINENR
                    },
                    if cursor_line {
                        CURSORLINE_BG
                    } else {
                        BG
                    },
                ),
                self.text_x(),
            )
        } else {
            g1
        };
        let g3 = self.text_drawn(g2, li, y, self.shown(li));
        let from = self.text_x() + self.shown(li);
        if self.line_selected(li) && from < self.max_x() {
            g3.styled(from, y, self.max_x() - from, 1, paper(VISUAL_BG))
        } else {
            g3
        }
    }

    /// The first `k` rows drawn; rows past the text show a tilde.
    pub open spec fn rows_drawn(self, g: GridV, k: int) -> GridV
        decreases k,
    {
        if k <= 0 {
            g
        } else {
            let li = self.top() + k - 1;
            let y = self.r.y + k - 1;
            let g = self.rows_drawn(g, k - 1);
            if li >= self.b.text.lines.len() {
                g.put(self.r.x as int, y, "~"@, ink(DIM), self.max_x())
            } else {
                self.line_drawn(g, li, y)
            }
        }
    }

    /// The cursor is among the shown cells.
    pub open spec fn cursor_shown(self) -> bool {
        let cur = self.b.cursor;
        self.top() <= cur.line < self.top() + self.r.h && self.left() <= cur.col < self.left()
            + self.text_cols()
    }

    /// The cursor's cell marked.
    pub open spec fn cursor_drawn(self, g: GridV, insert: bool) -> GridV {
        if self.cursor_shown() {
            g.styled(
                self.text_x() + self.b.cursor.col - self.left(),
                self.r.y + self.b.cursor.line - self.top(),
                1,
                1,
                if insert {
                    on(BG, ACCENT)
                } else {
                    turned()
                },
            )
        } else {
            g
        }
    }
}

pub open spec fn at_place(p: Pos, li: int, ci: int) -> bool {
    p.line == li && p.col == ci
}

/// Index of the buffer a window shows; 0 where there is no such window.
pub open spec fn buffer_of(st: StV, win: int) -> int {
    if 0 <= win < st.windows.len() {
        st.windows[win]
    } else {
        0
    }
}

/// Every buffer's text is well formed.
pub open spec fn texts_ok(st: StV) -> bool {
    forall|i: int| 0 <= i < st.buffers.len() ==> (#[trigger] st.buffers[i]).text.wf()
}

/// What a window shows. Selection, matches and brackets are those of the focused window.
pub open spec fn pane_of(st: StV, e: EngV, r: WinRect, spans: Spans, focused: bool) -> PaneV {
    let b = st.buffers[buffer_of(st, r.win as int)];
    PaneV {
        r,
        b,
        spans,
        relative: st.options.relativenumber,
        focused,
        sel: if focused {
            selection_of(
                e,
                Position { line: b.cursor.line as usize, col: b.cursor.col as usize },
            )
        } else {
            None
        },
        pat: if focused && !st.search.suppressed {
            st.search.pattern
        } else {
            Seq::empty()
        },
    }
}

/// The cursor is to be drawn in a window: it blinks on, and keys go to the text.
pub open spec fn cursor_due(st: StV, e: EngV, blink_on: bool, focused: bool) -> bool {
    focused && blink_on && !(e.mode is Command || e.mode is Search) && st.finder is None
        && !st.explorer_focused
}

/// A window drawn; one without room for text, or without a buffer, is left out.
#[verifier::opaque]
pub open spec fn window_drawn(
    g: GridV,
    st: StV,
    e: EngV,
    r: WinRect,
    spans: Spans,
    blink_on: bool,
    focused: bool,
) -> GridV {
    let p = pane_of(st, e, r, spans, focused);
    if buffer_of(st, r.win as int) >= st.buffers.len() || r.h == 0 || p.text_cols() == 0 {
        g
    } else {
        let g1 = p.rows_drawn(g, r.h as int);
        if cursor_due(st, e, blink_on, focused) {
            p.cursor_drawn(g1, e.mode is Insert)
        } else {
            g1
        }
    }
}

/// A window and what it shows.
struct Pane<'a> {
    r: WinRect,
    b: &'a Buffer,
    spans: &'a [Vec<HlSpan>],
    relative: bool,
    focused: bool,
    sel: Selection,
    pat: Vec<char>,
    bracket: Option<(Position, Position)>,
    top: usize,
    text_cols: usize,
}

impl<'a> Pane<'a> {
    spec fn model(self) -> PaneV {
        PaneV {
            r: self.r,
            b: self.b@,
            spans: spans_of(self.spans@),
            relative: self.relative,
            focused: self.focused,
            sel: self.sel,
            pat: self.pat@,
        }
    }

    spec fn wf(self) -> bool {
        &&& self.top == self.model().top()
        &&& self.text_cols == self.model().text_cols()
        &&& self.text_cols > 0
        &&& self.text_cols <= 65535
        &&& self.r.gutter_w < self.r.w
        &&& self.r.x + self.r.w <= u16::MAX
        &&& self.r.y + self.r.h <= u16::MAX
        &&& 0 <= self.top < self.b@.text.lines.len() <= isize::MAX
        &&& ends_of(self.bracket) == (if self.focused {
            bracket_ends(self.b@.text.lines, self.b@.cursor)
        } else {
            None
        })
    }

    /// The gutter's text on a line.
    fn gutter(&self, li: usize) -> (r: String)
        requires
            self.wf(),
            self.r.gutter_w > 0,
            li < self.b@.text.lines.len(),
        ensures
            r@ == self.model().gutter(li as int),
    {
        let cur: usize = self.b.cursor.line;
        let num: usize = if li == cur || !self.relative {
            li + 1
        } else if li > cur {
            li - cur
        } else {
            cur - li
        };
        let n = decimal(num);
        let width: usize = self.r.gutter_w as usize - 1;
        let len: usize = char_count(n.as_str());
        let pad: usize = if len < width {
            width - len
        } else {
            0
        };
        let mut s = cat(repeat_char(' ', pad).as_str(), n.as_str());
        s.push(' ');
        assert(s@ =~= self.model().gutter(li as int));
        s
    }

    /// Search matches on a line.
    fn matches(&self, li: usize) -> (r: Vec<(usize, usize)>)
        requires
            self.wf(),
        ensures
            pairs_of(r@) == self.model().matches(line_at(self.b@.text.lines, li as int)),
    {
        let left: usize = self.b.scroll.1;
        let n: usize = self.pat.len();
        let from: usize = if left > n {
            left - n
        } else {
            0
        };
        let span: usize = if n <= (usize::MAX - 65535) / 2 {
            self.text_cols + 2 * n
        } else {
            usize::MAX
        };
        let line = self.b.text.line(li);
        let len: usize = char_count(line);
        assert(min(from + span, len as int) == min(from + self.text_cols + 2 * n, len as int));
        line_matches(line, self.pat.as_slice(), from, span)
    }

    /// Colours of a char of the text.
    fn colors(&self, li: usize, ci: usize, matches: &Vec<(usize, usize)>) -> (r: (Rgb, Rgb))
        requires
            self.wf(),
            pairs_of(matches@) == self.model().matches(line_at(self.b@.text.lines, li as int)),
        ensures
            r == self.model().colors(li as int, ci as int),
    {
        let base: Rgb = if li < self.spans.len() {
            assert(spans_of(self.spans@)[li as int] == self.spans@[li as int]@);
            syntax_color(self.spans[li].as_slice(), ci)
        } else {
            let none: Vec<HlSpan> = Vec::new();
            assert(none@ =~= Seq::<HlSpan>::empty());
            syntax_color(none.as_slice(), ci)
        };
        let cur = self.b.cursor;
        let cursor_line = self.focused && li == cur.line;
        let search: Option<bool> = match match_at(matches, ci) {
            Some((s, l)) => Some(cursor_line && cur.col >= s && cur.col - s < l),
            None => None,
        };
        let bracket = match self.bracket {
            Some((a, p)) => (a.line == li && a.col == ci) || (p.line == li && p.col == ci),
            None => false,
        };
        let visual = in_visual(&self.sel, li, ci, self.b.desired_col == usize::MAX);
        assert(bracket == self.model().bracketed(li as int, ci as int));
        cell_colors(base, cursor_line, bracket, search, visual)
    }

    /// Draw the shown chars of a line.
    fn draw_text(&self, g: &mut Grid, li: usize, y: u16) -> (n: usize)
        requires
            self.wf(),
            old(g)@.wf(),
            li < self.b@.text.lines.len(),
        ensures
            final(g)@.wf(),
            n == self.model().shown(li as int),
            final(g)@ == self.model().text_drawn(old(g)@, li as int, y as int, n as int),
    {
        let ghost g0 = g@;
        let chars = to_chars(self.b.text.line(li));
        let matches = self.matches(li);
        let left: usize = self.b.scroll.1;
        let len: usize = chars.len();
        let rest: usize = if len > left {
            len - left
        } else {
            0
        };
        let n: usize = if rest < self.text_cols {
            rest
        } else {
            self.text_cols
        };
        let mut k: usize = 0;
        while k < n
            invariant
                self.wf(),
                li < self.b@.text.lines.len(),
                chars@ == line_at(self.b@.text.lines, li as int),
                left == self.model().left(),
                k <= n <= self.text_cols,
                len == chars@.len(),
                n > 0 ==> left + n <= len,
                pairs_of(matches@) == self.model().matches(chars@),
                g@.wf(),
                g@ == self.model().text_drawn(g0, li as int, y as int, k as int),
            decreases n - k,
        {
            let (fg, bg) = self.colors(li, left + k, &matches);
            let x: u16 = self.r.x + self.r.gutter_w + k as u16;
            set_cell(g, x, y, chars[left + k], style(fg, bg));
            k = k + 1;
        }
        n
    }

    /// Draw a line of the text.
    fn draw_line(&self, g: &mut Grid, li: usize, y: u16)
        requires
            self.wf(),
            old(g)@.wf(),
            li < self.b@.text.lines.len(),
        ensures
            final(g)@.wf(),
            final(g)@ == self.model().line_drawn(old(g)@, li as int, y as int),
    {
        proof {
            reveal(PaneV::line_drawn);
        }
        let cursor_line = self.focused && li == self.b.cursor.line;
        if cursor_line {
            set_style(g, self.r.x, y, self.r.w, 1, style_bg(CURSORLINE_BG));
        }
        if self.r.gutter_w > 0 {
            let fg: Rgb = if cursor_line {
                LINENR_CUR
            } else {
                LINENR
            };
            let bg: Rgb = if cursor_line {
                CURSORLINE_BG
            } else {
                BG
            };
            let s = self.gutter(li);
            put_str(g, self.r.x, y, s.as_str(), style(fg, bg), self.r.x + self.r.gutter_w);
        }
        let n: usize = self.draw_text(g, li, y);
        let whole = match self.sel {
            Some((s, e, VisualKind::Line)) => li >= s.line && li <= e.line,
            _ => false,
        };
        if whole {
            let from: u16 = self.r.x + self.r.gutter_w + n as u16;
            let max_x: u16 = self.r.x + self.r.w;
            if from < max_x {
                set_style(g, from, y, max_x - from, 1, style_bg(VISUAL_BG));
            }
        }
    }

    /// Draw every row.
    fn draw_rows(&self, g: &mut Grid)
        requires
            self.wf(),
            old(g)@.wf(),
        ensures
            final(g)@.wf(),
            final(g)@ == self.model().rows_drawn(old(g)@, self.r.h as int),
    {
        let ghost g0 = g@;
        let count: usize = self.b.text.line_count();
        let mut row: u16 = 0;
        while row < self.r.h
            invariant
                self.wf(),
                count == self.b@.text.lines.len(),
                row <= self.r.h,
                g@.wf(),
                g@ == self.model().rows_drawn(g0, row as int),
            decreases self.r.h - row,
        {
            let y: u16 = self.r.y + row;
            let li: usize = self.top + row as usize;
            if li >= count {
                put_str(g, self.r.x, y, "~", style_fg(DIM), self.r.x + self.r.w);
            } else {
                self.draw_line(g, li, y);
            }
            row = row + 1;
        }
    }

    /// Mark the cursor's cell.
    fn draw_cursor(&self, g: &mut Grid, insert: bool)
        requires
            self.wf(),
            old(g)@.wf(),
        ensures
            final(g)@.wf(),
            final(g)@ == self.model().cursor_drawn(old(g)@, insert),
    {
        let cur = self.b.cursor;
        let left: usize = self.b.scroll.1;
        if cur.line >= self.top && cur.line - self.top < self.r.h as usize && cur.col >= left
            && cur.col - left < self.text_cols {
            let x: u16 = self.r.x + self.r.gutter_w + (cur.col - left) as u16;
            let y: u16 = self.r.y + (cur.line - self.top) as u16;
            let st = if insert {
                style(BG, ACCENT)
            } else {
                style_reversed()
            };
            set_style(g, x, y, 1, 1, st);
        }
    }
}

/// Draw one window's gutter and text into its rect. Cursor, cursorline, visual,
/// search, and bracket highlights paint only in the focused window.
pub fn draw_window(
    g: &mut Grid,
    r: &WinRect,
    st: &EditorState,
    vim: &VimEngine,
    spans: &[Vec<HlSpan>],
    blink_on: bool,
    focused: bool,
)
    requires
        old(g)@.wf(),
        vim@.wf(),
        texts_ok(st@),
        r.w > 0 && r.h > 0 ==> r.x + r.w <= u16::MAX && r.y + r.h <= u16::MAX,
    ensures
        final(g)@.wf(),
        final(g)@ == window_drawn(
            old(g)@,
            st@,
            vim@,
            *r,
            spans_of(spans@),
            blink_on,
            focused,
        ),
{
    proof {
        reveal(window_drawn);
    }
    let idx: usize = if r.win < st.windows.len() {
        st.windows[r.win].buffer
    } else {
        0
    };
    if idx >= st.buffers.len() || r.h == 0 || r.w <= r.gutter_w {
        return ;
    }
    let b = &st.buffers[idx];
    assert(b@ == st@.buffers[idx as int]);
    let count: usize = b.text.line_count();
    let top: usize = if b.scroll.0 < count - 1 {
        b.scroll.0
    } else {
        count - 1
    };
    let sel = if focused {
        vim.visual_range(b.cursor)
    } else {
        None
    };
    let pat: Vec<char> = if focused && !st.search.suppressed {
        to_chars(st.search.pattern.as_str())
    } else {
        Vec::new()
    };
    let bracket = if focused {
        bracket_pair(&b.text, b.cursor)
    } else {
        None
    };
    let pane = Pane {
        r: *r,
        b,
        spans,
        relative: st.options.relativenumber,
        focused,
        sel,
        pat,
        bracket,
        top,
        text_cols: (r.w - r.gutter_w) as usize,
    };
    proof {
        assert(pane.pat@ =~= pane_of(st@, vim@, *r, spans_of(spans@), focused).pat);
        assert(pane.model() == pane_of(st@, vim@, *r, spans_of(spans@), focused));
    }
    pane.draw_rows(g);
    let insert = match vim.mode() {
        Mode::Insert => true,
        _ => false,
    };
    if focused && blink_on && vim.cmdline().is_none() && st.finder.is_none()
        && !st.explorer_focused {
        pane.draw_cursor(g, insert);
    }
}

} // verus!
