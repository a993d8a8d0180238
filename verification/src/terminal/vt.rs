//! A screen emulator: enough of the escape-sequence set to drive an interactive shell, pagers
//! and full-screen programs. Bytes go in through [`Vt::feed`]; a sequence parser turns them into
//! events, and the screen keeps the cells.

use vstd::prelude::*;

use crate::color::Color;
use crate::terminal::sequences::{bytes_taken, events_found, new_parser, take_byte};

verus! {

/// One cell of the screen.
#[derive(Clone, Copy, Debug, PartialEq, Eq, Structural)]
pub struct Cell {
    pub ch: char,
    pub fg: Color,
    pub bg: Color,
    pub bold: bool,
    pub reverse: bool,
}

/// What the next char is written with.
#[derive(Clone, Copy, Debug, PartialEq, Eq, Structural)]
pub struct Pen {
    pub fg: Color,
    pub bg: Color,
    pub bold: bool,
    pub reverse: bool,
}

impl Cell {
    pub open spec fn empty(bg: Color) -> Cell {
        Cell { ch: ' ', fg: Color::Reset, bg, bold: false, reverse: false }
    }

    fn blank(bg: Color) -> (r: Cell)
        ensures
            r == Cell::empty(bg),
    {
        Cell { ch: ' ', fg: Color::Reset, bg, bold: false, reverse: false }
    }
}

impl Pen {
    pub open spec fn fresh() -> Pen {
        Pen { fg: Color::Reset, bg: Color::Reset, bold: false, reverse: false }
    }

    fn plain() -> (r: Pen)
        ensures
            r == Pen::fresh(),
    {
        Pen { fg: Color::Reset, bg: Color::Reset, bold: false, reverse: false }
    }
}

/// What a sequence parser found in the bytes.
pub enum VtEvent {
    /// A char to show.
    Print(char),
    /// A control byte.
    Execute(u8),
    /// A control sequence: its params, each with its subparams, whether a `?` leads it, and its
    /// final char.
    Csi { params: Vec<Vec<u16>>, private: bool, action: char },
    /// An escape sequence, by its final byte.
    Esc(u8),
}

pub open spec fn params_of(s: Seq<Vec<u16>>) -> Seq<Seq<u16>> {
    Seq::new(s.len(), |i: int| s[i]@)
}

/// Model of an event.
pub enum VtEventV {
    Print(char),
    Execute(u8),
    Csi { params: Seq<Seq<u16>>, private: bool, action: char },
    Esc(u8),
}

impl View for VtEvent {
    type V = VtEventV;

    open spec fn view(&self) -> VtEventV {
        match *self {
            VtEvent::Print(c) => VtEventV::Print(c),
            VtEvent::Execute(b) => VtEventV::Execute(b),
            VtEvent::Csi { params, private, action } => VtEventV::Csi {
                params: params_of(params@),
                private,
                action,
            },
            VtEvent::Esc(b) => VtEventV::Esc(b),
        }
    }
}

pub open spec fn events_of(s: Seq<VtEvent>) -> Seq<VtEventV> {
    Seq::new(s.len(), |i: int| s[i]@)
}

/// The screen: its cells row by row, the cursor, the pen and the scroll region.
pub struct Screen {
    cols: usize,
    rows: usize,
    cells: Vec<Cell>,
    cx: usize,
    cy: usize,
    pen: Pen,
    scroll_top: usize,
    scroll_bot: usize,
    cursor_visible: bool,
    saved: Option<(usize, usize)>,
    /// Main-screen backup while an alternate screen is active.
    alt_backup: Option<(Vec<Cell>, usize, usize)>,
}

/// Model of the screen.
#[verifier::ext_equal]
pub struct ScreenV {
    pub cols: int,
    pub rows: int,
    pub cells: Seq<Cell>,
    pub cx: int,
    pub cy: int,
    pub pen: Pen,
    pub scroll_top: int,
    pub scroll_bot: int,
    pub cursor_visible: bool,
    pub saved: Option<(int, int)>,
    pub alt_backup: Option<(Seq<Cell>, int, int)>,
}

impl View for Screen {
    type V = ScreenV;

    closed spec fn view(&self) -> ScreenV {
        ScreenV {
            cols: self.cols as int,
            rows: self.rows as int,
            cells: self.cells@,
            cx: self.cx as int,
            cy: self.cy as int,
            pen: self.pen,
            scroll_top: self.scroll_top as int,
            scroll_bot: self.scroll_bot as int,
            cursor_visible: self.cursor_visible,
            saved: match self.saved {
                Some((x, y)) => Some((x as int, y as int)),
                None => None,
            },
            alt_backup: match self.alt_backup {
                Some((c, x, y)) => Some((c@, x as int, y as int)),
                None => None,
            },
        }
    }
}

pub open spec fn least(a: int, b: int) -> int {
    if a <= b {
        a
    } else {
        b
    }
}

/// Cells `[a, b)` blanked.
pub open spec fn blanked(cells: Seq<Cell>, a: int, b: int, bg: Color) -> Seq<Cell> {
    Seq::new(
        cells.len(),
        |i: int|
            if a <= i < b {
                Cell::empty(bg)
            } else {
                cells[i]
            },
    )
}

/// Cells `[a, b)` moved `k` to the left, what comes in from the right blank.
pub open spec fn shifted_left(cells: Seq<Cell>, a: int, b: int, k: int, bg: Color) -> Seq<Cell> {
    Seq::new(
        cells.len(),
        |i: int|
            if a <= i < b {
                if i + k < b {
                    cells[i + k]
                } else {
                    Cell::empty(bg)
                }
            } else {
                cells[i]
            },
    )
}

/// Cells `[a, b)` moved `k` to the right, what comes in from the left blank.
pub open spec fn shifted_right(cells: Seq<Cell>, a: int, b: int, k: int, bg: Color) -> Seq<Cell> {
    Seq::new(
        cells.len(),
        |i: int|
            if a <= i < b {
                if i - k >= a {
                    cells[i - k]
                } else {
                    Cell::empty(bg)
                }
            } else {
                cells[i]
            },
    )
}

/// A side of a screen: no less than one cell.
pub open spec fn at_least_one(n: int) -> int {
    if n < 1 {
        1
    } else {
        n
    }
}

/// First subparam of the `idx`-th param, or `default` when absent or zero.
pub open spec fn param_or(params: Seq<Seq<u16>>, idx: int, default: u16) -> int {
    if 0 <= idx < params.len() && params[idx].len() > 0 && params[idx][0] != 0 {
        params[idx][0] as int
    } else {
        default as int
    }
}

/// All subparams of all params from `i` on, in order.
pub open spec fn flattened(params: Seq<Seq<u16>>, i: int) -> Seq<u16>
    decreases params.len() - i,
{
    if i < 0 || i >= params.len() {
        Seq::empty()
    } else {
        params[i] + flattened(params, i + 1)
    }
}

/// Colour `n` of the sixteen.
pub open spec fn basic_of(n: int) -> Color {
    if n == 0 {
        Color::Black
    } else if n == 1 {
        Color::Red
    } else if n == 2 {
        Color::Green
    } else if n == 3 {
        Color::Yellow
    } else if n == 4 {
        Color::Blue
    } else if n == 5 {
        Color::Magenta
    } else if n == 6 {
        Color::Cyan
    } else if n == 7 {
        Color::Gray
    } else if n == 8 {
        Color::DarkGray
    } else if n == 9 {
        Color::LightRed
    } else if n == 10 {
        Color::LightGreen
    } else if n == 11 {
        Color::LightYellow
    } else if n == 12 {
        Color::LightBlue
    } else if n == 13 {
        Color::LightMagenta
    } else if n == 14 {
        Color::LightCyan
    } else {
        Color::White
    }
}

fn basic_color(n: u16) -> (r: Color)
    ensures
        r == basic_of(n as int),
{
    match n {
        0 => Color::Black,
        1 => Color::Red,
        2 => Color::Green,
        3 => Color::Yellow,
        4 => Color::Blue,
        5 => Color::Magenta,
        6 => Color::Cyan,
        7 => Color::Gray,
        8 => Color::DarkGray,
        9 => Color::LightRed,
        10 => Color::LightGreen,
        11 => Color::LightYellow,
        12 => Color::LightBlue,
        13 => Color::LightMagenta,
        14 => Color::LightCyan,
        _ => Color::White,
    }
}

/// Low byte of the `i`-th number, 0 where there is none.
pub open spec fn byte_at(flat: Seq<u16>, i: int) -> u8 {
    if 0 <= i < flat.len() {
        (flat[i] % 256) as u8
    } else {
        0
    }
}

/// The colour that follows a 38 or 48 at `i`, and how many numbers it takes after it.
pub open spec fn extended(flat: Seq<u16>, i: int) -> (Color, int) {
    if i + 1 < flat.len() && flat[i + 1] == 5 {
        (Color::Indexed(byte_at(flat, i + 2)), 2)
    } else if i + 1 < flat.len() && flat[i + 1] == 2 {
        (Color::Rgb(byte_at(flat, i + 2), byte_at(flat, i + 3), byte_at(flat, i + 4)), 4)
    } else {
        (Color::Reset, 0)
    }
}

impl Pen {
    /// The pen after the number at `i`, and the numbers it took after it.
    pub open spec fn stroked(self, flat: Seq<u16>, i: int) -> (Pen, int) {
        let n = flat[i];
        if n == 0 {
            (Pen::fresh(), 0)
        } else if n == 1 {
            (Pen { bold: true, ..self }, 0)
        } else if n == 22 {
            (Pen { bold: false, ..self }, 0)
        } else if n == 7 {
            (Pen { reverse: true, ..self }, 0)
        } else if n == 27 {
            (Pen { reverse: false, ..self }, 0)
        } else if 30 <= n <= 37 {
            (Pen { fg: basic_of(n - 30), ..self }, 0)
        } else if n == 39 {
            (Pen { fg: Color::Reset, ..self }, 0)
        } else if 40 <= n <= 47 {
            (Pen { bg: basic_of(n - 40), ..self }, 0)
        } else if n == 49 {
            (Pen { bg: Color::Reset, ..self }, 0)
        } else if 90 <= n <= 97 {
            (Pen { fg: basic_of(n - 90 + 8), ..self }, 0)
        } else if 100 <= n <= 107 {
            (Pen { bg: basic_of(n - 100 + 8), ..self }, 0)
        } else if n == 38 {
            let (c, k) = extended(flat, i);
            (Pen { fg: c, ..self }, k)
        } else if n == 48 {
            let (c, k) = extended(flat, i);
            (Pen { bg: c, ..self }, k)
        } else {
            (self, 0)
        }
    }

    /// The pen after the numbers from `i` on.
    pub open spec fn styled(self, flat: Seq<u16>, i: int) -> Pen
        decreases flat.len() - i,
    {
        if i < 0 || i >= flat.len() {
            self
        } else {
            let (p, k) = self.stroked(flat, i);
            if k < 0 || i + 1 + k > flat.len() {
                p
            } else {
                p.styled(flat, i + 1 + k)
            }
        }
    }

    /// The pen after a style sequence; an empty one resets it.
    pub open spec fn graphics(self, flat: Seq<u16>) -> Pen {
        if flat.len() == 0 {
            Pen::fresh()
        } else {
            self.styled(flat, 0)
        }
    }
}

impl ScreenV {
    pub open spec fn fresh(cols: int, rows: int) -> ScreenV {
        ScreenV {
            cols,
            rows,
            cells: Seq::new((cols * rows) as nat, |i: int| Cell::empty(Color::Reset)),
            cx: 0,
            cy: 0,
            pen: Pen::fresh(),
            scroll_top: 0,
            scroll_bot: rows - 1,
            cursor_visible: true,
            saved: None,
            alt_backup: None,
        }
    }

    /// As many cells as the size says, the cursor on the screen (or just past a row's end), and
    /// a scroll region of at least one row.
    pub open spec fn wf(self) -> bool {
        &&& 1 <= self.cols
        &&& 1 <= self.rows
        &&& self.cols * self.rows <= usize::MAX
        &&& self.cells.len() == self.cols * self.rows
        &&& 0 <= self.cx <= self.cols
        &&& 0 <= self.cy < self.rows
        &&& 0 <= self.scroll_top <= self.scroll_bot < self.rows
        &&& self.saved is Some ==> (self.saved->0).0 >= 0 && (self.saved->0).1 >= 0
        &&& self.alt_backup is Some ==> (self.alt_backup->0).1 >= 0 && (self.alt_backup->0).2 >= 0
    }

    /// Index of the first cell of a row.
    pub open spec fn row(self, y: int) -> int {
        y * self.cols
    }

    pub open spec fn moved(self, cx: int, cy: int) -> ScreenV {
        ScreenV { cx, cy, ..self }
    }

    pub open spec fn with(self, cells: Seq<Cell>) -> ScreenV {
        ScreenV { cells, ..self }
    }

    /// The screen with another size: what fits of it stays where it was.
    pub open spec fn resized(self, cols: int, rows: int) -> ScreenV {
        let c = at_least_one(cols);
        let r = at_least_one(rows);
        ScreenV {
            cols: c,
            rows: r,
            cells: Seq::new(
                (c * r) as nat,
                |i: int|
                    if i % c < self.cols && i / c < self.rows {
                        self.cells[i / c * self.cols + i % c]
                    } else {
                        Cell::empty(Color::Reset)
                    },
            ),
            cx: least(self.cx, c - 1),
            cy: least(self.cy, r - 1),
            scroll_top: 0,
            scroll_bot: r - 1,
            ..self
        }
    }

    /// The scroll region, or part of it, moved up by one row.
    pub open spec fn up_once(self, top: int, bot: int) -> ScreenV {
        self.with(
            shifted_left(self.cells, self.row(top), self.row(bot + 1), self.cols, self.pen.bg),
        )
    }

    pub open spec fn down_once(self, top: int, bot: int) -> ScreenV {
        self.with(
            shifted_right(self.cells, self.row(top), self.row(bot + 1), self.cols, self.pen.bg),
        )
    }

    pub open spec fn up(self, top: int, bot: int, n: nat) -> ScreenV
        decreases n,
    {
        if n == 0 {
            self
        } else {
            self.up(top, bot, (n - 1) as nat).up_once(top, bot)
        }
    }

    pub open spec fn down(self, top: int, bot: int, n: nat) -> ScreenV
        decreases n,
    {
        if n == 0 {
            self
        } else {
            self.down(top, bot, (n - 1) as nat).down_once(top, bot)
        }
    }

    /// The cursor one row down, scrolling at the end of the region.
    pub open spec fn line_fed(self) -> ScreenV {
        if self.cy == self.scroll_bot {
            self.up(self.scroll_top, self.scroll_bot, 1)
        } else if self.cy + 1 < self.rows {
            self.moved(self.cx, self.cy + 1)
        } else {
            self
        }
    }

    /// The cursor one row up, scrolling at the start of the region.
    pub open spec fn index_reversed(self) -> ScreenV {
        if self.cy == self.scroll_top {
            self.down(self.scroll_top, self.scroll_bot, 1)
        } else if self.cy > 0 {
            self.moved(self.cx, self.cy - 1)
        } else {
            self
        }
    }

    /// A char written at the cursor, on the next row where this one is full.
    pub open spec fn printed(self, c: char) -> ScreenV {
        let s = if self.cx >= self.cols {
            self.moved(0, self.cy).line_fed()
        } else {
            self
        };
        let p = s.pen;
        ScreenV {
            cells: s.cells.update(
                s.row(s.cy) + s.cx,
                Cell { ch: c, fg: p.fg, bg: p.bg, bold: p.bold, reverse: p.reverse },
            ),
            cx: s.cx + 1,
            ..s
        }
    }

    /// A row erased from the cursor on, up to it, or whole.
    pub open spec fn line_erased(self, mode: int) -> ScreenV {
        let a = if mode == 1 || mode == 2 {
            0
        } else {
            self.cx
        };
        let b = if mode == 1 {
            least(self.cx + 1, self.cols)
        } else {
            self.cols
        };
        self.with(
            blanked(self.cells, self.row(self.cy) + a, self.row(self.cy) + b, self.pen.bg),
        )
    }

    /// The screen erased from the cursor on, up to it, or whole.
    pub open spec fn display_erased(self, mode: int) -> ScreenV {
        let at = self.row(self.cy) + self.cx;
        let a = if mode == 1 || mode == 2 || mode == 3 {
            0
        } else {
            at
        };
        let b = if mode == 1 {
            at + 1
        } else {
            self.cells.len() as int
        };
        self.with(blanked(self.cells, a, b, self.pen.bg))
    }

    pub open spec fn in_region(self) -> bool {
        self.scroll_top <= self.cy <= self.scroll_bot
    }

    pub open spec fn lines_inserted(self, n: nat) -> ScreenV {
        if self.in_region() {
            self.down(self.cy, self.scroll_bot, n)
        } else {
            self
        }
    }

    pub open spec fn lines_deleted(self, n: nat) -> ScreenV {
        if self.in_region() {
            self.up(self.cy, self.scroll_bot, n)
        } else {
            self
        }
    }

    pub open spec fn chars_deleted(self, n: int) -> ScreenV {
        let row = self.row(self.cy);
        self.with(
            shifted_left(self.cells, row + self.cx, row + self.cols, n, self.pen.bg),
        )
    }

    pub open spec fn chars_inserted(self, n: int) -> ScreenV {
        let row = self.row(self.cy);
        self.with(
            shifted_right(self.cells, row + self.cx, row + self.cols, n, self.pen.bg),
        )
    }

    /// A blank second screen, the first one set aside.
    pub open spec fn alt_entered(self) -> ScreenV {
        if self.alt_backup is None {
            ScreenV {
                alt_backup: Some((self.cells, self.cx, self.cy)),
                cells: blanked(self.cells, 0, self.cells.len() as int, self.pen.bg),
                cx: 0,
                cy: 0,
                ..self
            }
        } else {
            self
        }
    }

    /// Back on the first screen; its cells return if there are as many as now.
    pub open spec fn alt_left(self) -> ScreenV {
        match self.alt_backup {
            Some((cells, x, y)) => ScreenV {
                alt_backup: None,
                cells: if cells.len() == self.cells.len() {
                    cells
                } else {
                    self.cells
                },
                cx: least(x, self.cols - 1),
                cy: least(y, self.rows - 1),
                ..self
            },
            None => self,
        }
    }

    pub open spec fn mode_set(self, mode: int, on: bool) -> ScreenV {
        if mode == 25 {
            ScreenV { cursor_visible: on, ..self }
        } else if mode == 47 || mode == 1047 || mode == 1049 {
            if on {
                self.alt_entered()
            } else {
                self.alt_left()
            }
        } else {
            self
        }
    }

    pub open spec fn cursor_saved(self) -> ScreenV {
        ScreenV { saved: Some((self.cx, self.cy)), ..self }
    }

    pub open spec fn cursor_restored(self) -> ScreenV {
        match self.saved {
            Some((x, y)) => self.moved(least(x, self.cols - 1), least(y, self.rows - 1)),
            None => self,
        }
    }

    /// A scroll region chosen, the cursor at its start; one that does not fit is nothing.
    pub open spec fn region_set(self, top: int, bot: int) -> ScreenV {
        if top < bot < self.rows {
            ScreenV { scroll_top: top, scroll_bot: bot, cx: 0, cy: top, ..self }
        } else {
            self
        }
    }

    /// A control byte carried out.
    pub open spec fn executed(self, b: u8) -> ScreenV {
        if b == 0x0a || b == 0x0b || b == 0x0c {
            self.line_fed()
        } else if b == 0x0d {
            self.moved(0, self.cy)
        } else if b == 0x08 {
            self.moved(
                if self.cx > 0 {
                    self.cx - 1
                } else {
                    0
                },
                self.cy,
            )
        } else if b == 0x09 {
            self.moved(least((self.cx / 8 + 1) * 8, self.cols - 1), self.cy)
        } else {
            self
        }
    }

    /// A cursor movement carried out; `n` is the first param, at least one.
    pub open spec fn cursor_moved(self, action: char, n: int, m: int) -> ScreenV {
        let x = self.cx;
        let y = self.cy;
        let up = if y > n {
            y - n
        } else {
            0
        };
        let down = least(y + n, self.rows - 1);
        if action == 'A' {
            self.moved(x, up)
        } else if action == 'B' || action == 'e' {
            self.moved(x, down)
        } else if action == 'C' || action == 'a' {
            self.moved(least(x + n, self.cols - 1), y)
        } else if action == 'D' {
            self.moved(
                if x > n {
                    x - n
                } else {
                    0
                },
                y,
            )
        } else if action == 'E' {
            self.moved(0, down)
        } else if action == 'F' {
            self.moved(0, up)
        } else if action == 'G' || action == '`' {
            self.moved(least(n - 1, self.cols - 1), y)
        } else if action == 'd' {
            self.moved(x, least(n - 1, self.rows - 1))
        } else {
            self.moved(least(m - 1, self.cols - 1), least(n - 1, self.rows - 1))
        }
    }

    pub open spec fn moves(action: char) -> bool {
        action == 'A' || action == 'B' || action == 'e' || action == 'C' || action == 'a' || action
            == 'D' || action == 'E' || action == 'F' || action == 'G' || action == '`' || action
            == 'd' || action == 'H' || action == 'f'
    }

    /// A control sequence carried out.
    pub open spec fn controlled(self, params: Seq<Seq<u16>>, private: bool, action: char) -> ScreenV {
        let n = param_or(params, 0, 1);
        if ScreenV::moves(action) {
            self.cursor_moved(action, n, param_or(params, 1, 1))
        } else if action == 'J' {
            self.display_erased(param_or(params, 0, 0))
        } else if action == 'K' {
            self.line_erased(param_or(params, 0, 0))
        } else if action == 'L' {
            self.lines_inserted(n as nat)
        } else if action == 'M' {
            self.lines_deleted(n as nat)
        } else if action == 'P' {
            self.chars_deleted(n)
        } else if action == '@' {
            self.chars_inserted(n)
        } else if action == 'S' {
            self.up(self.scroll_top, self.scroll_bot, n as nat)
        } else if action == 'T' {
            self.down(self.scroll_top, self.scroll_bot, n as nat)
        } else if action == 'm' {
            ScreenV { pen: self.pen.graphics(flattened(params, 0)), ..self }
        } else if action == 'r' {
            self.region_set(
                n - 1,
                (if param_or(params, 1, 0) == 0 {
                    self.rows
                } else {
                    param_or(params, 1, 0)
                }) - 1,
            )
        } else if action == 'h' && private {
            self.mode_set(param_or(params, 0, 0), true)
        } else if action == 'l' && private {
            self.mode_set(param_or(params, 0, 0), false)
        } else if action == 's' {
            self.cursor_saved()
        } else if action == 'u' {
            self.cursor_restored()
        } else {
            self
        }
    }

    /// An escape sequence carried out.
    pub open spec fn escaped(self, b: u8) -> ScreenV {
        if b == 0x4d {
            self.index_reversed()
        } else if b == 0x44 {
            self.line_fed()
        } else if b == 0x45 {
            let s = self.line_fed();
            s.moved(0, s.cy)
        } else if b == 0x37 {
            self.cursor_saved()
        } else if b == 0x38 {
            self.cursor_restored()
        } else if b == 0x63 {
            ScreenV { pen: Pen::fresh(), ..self }.display_erased(2).moved(0, 0)
        } else {
            self
        }
    }

    pub open spec fn after(self, ev: VtEventV) -> ScreenV {
        match ev {
            VtEventV::Print(c) => self.printed(c),
            VtEventV::Execute(b) => self.executed(b),
            VtEventV::Csi { params, private, action } => self.controlled(params, private, action),
            VtEventV::Esc(b) => self.escaped(b),
        }
    }
}

/// A row's first cell and those after it are cells of the screen, and neither side of the screen
/// is longer than it has cells.
pub proof fn lemma_row(cols: int, rows: int, y: int)
    requires
        1 <= cols,
        1 <= rows,
        0 <= y < rows,
    ensures
        0 <= y * cols,
        (y + 1) * cols == y * cols + cols,
        y * cols + cols <= cols * rows,
        0 < cols * rows,
        cols <= cols * rows,
        rows <= cols * rows,
{
    assert(0 <= y * cols && (y + 1) * cols == y * cols + cols && (y + 1) * cols <= cols * rows
        && 0 < cols * rows && cols <= cols * rows && rows <= cols * rows) by (nonlinear_arith)
        requires
            1 <= cols,
            1 <= rows,
            0 <= y < rows,
    ;
}

proof fn lemma_rows_apart(cols: int, a: int, b: int)
    requires
        0 <= cols,
        a <= b,
    ensures
        a * cols <= b * cols,
{
    assert(a * cols <= b * cols) by (nonlinear_arith)
        requires
            0 <= cols,
            a <= b,
    ;
}

/// First subparam of the `idx`-th param, or `default` when absent or zero.
fn arg(params: &Vec<Vec<u16>>, idx: usize, default: u16) -> (r: u16)
    ensures
        r == param_or(params_of(params@), idx as int, default),
{
    if idx < params.len() && params[idx].len() > 0 && params[idx][0] != 0 {
        params[idx][0]
    } else {
        default
    }
}

fn flatten(params: &Vec<Vec<u16>>) -> (r: Vec<u16>)
    ensures
        r@ == flattened(params_of(params@), 0),
{
    let ghost ps = params_of(params@);
    let mut out: Vec<u16> = Vec::new();
    let mut i: usize = 0;
    assert(out@ + flattened(ps, 0) =~= flattened(ps, 0));
    while i < params.len()
        invariant
            ps == params_of(params@),
            i <= params@.len(),
            out@ + flattened(ps, i as int) == flattened(ps, 0),
        decreases params@.len() - i,
    {
        let ghost before = out@;
        let mut k: usize = 0;
        assert(out@ =~= before + params@[i as int]@.take(0));
        while k < params[i].len()
            invariant
                i < params@.len(),
                k <= params@[i as int]@.len(),
                out@ == before + params@[i as int]@.take(k as int),
            decreases params@[i as int]@.len() - k,
        {
            out.push(params[i][k]);
            assert(out@ =~= before + params@[i as int]@.take(k + 1));
            k = k + 1;
        }
        proof {
            assert(params@[i as int]@.take(k as int) =~= ps[i as int]);
            assert(before + (ps[i as int] + flattened(ps, i + 1)) =~= (before + ps[i as int])
                + flattened(ps, i + 1));
        }
        i = i + 1;
    }
    assert(out@ + Seq::<u16>::empty() =~= out@);
    out
}

fn low_byte(flat: &Vec<u16>, i: usize) -> (r: u8)
    ensures
        r == byte_at(flat@, i as int),
{
    if i < flat.len() {
        (flat[i] % 256) as u8
    } else {
        0
    }
}

impl Pen {
    fn apply(self, flat: &Vec<u16>) -> (r: Pen)
        ensures
            r == self.graphics(flat@),
    {
        let len: usize = flat.len();
        if len == 0 {
            return Pen::plain();
        }
        let mut pen = self;
        let mut i: usize = 0;
        while i < len
            invariant
                len == flat@.len(),
                len > 0,
                self.graphics(flat@) == pen.styled(flat@, i as int),
            decreases len - i,
        {
            let n: u16 = flat[i];
            let mut took: usize = 0;
            let ghost before = pen;
            match n {
                0 => {
                    pen = Pen::plain();
                },
                1 => {
                    pen.bold = true;
                },
                22 => {
                    pen.bold = false;
                },
                7 => {
                    pen.reverse = true;
                },
                27 => {
                    pen.reverse = false;
                },
                39 => {
                    pen.fg = Color::Reset;
                },
                49 => {
                    pen.bg = Color::Reset;
                },
                38 | 48 => {
                    let mut color = Color::Reset;
                    if i + 1 < len && flat[i + 1] == 5 {
                        color = Color::Indexed(low_byte(flat, i + 2));
                        took = 2;
                    } else if i + 1 < len && flat[i + 1] == 2 {
                        let far: bool = len - i > 3;
                        color = Color::Rgb(
                            low_byte(flat, i + 2),
                            if far {
                                low_byte(flat, i + 3)
                            } else {
                                0
                            },
                            if far {
                                low_byte(flat, i + 4)
                            } else {
                                0
                            },
                        );
                        took = 4;
                    }
                    if n == 38 {
                        pen.fg = color;
                    } else {
                        pen.bg = color;
                    }
                },
                _ => {
                    if 30 <= n && n <= 37 {
                        pen.fg = basic_color(n - 30);
                    } else if 40 <= n && n <= 47 {
                        pen.bg = basic_color(n - 40);
                    } else if 90 <= n && n <= 97 {
                        pen.fg = basic_color(n - 90 + 8);
                    } else if 100 <= n && n <= 107 {
                        pen.bg = basic_color(n - 100 + 8);
                    }
                },
            }
            assert((pen, took as int) == before.stroked(flat@, i as int));
            if len - i <= took {
                assert(pen.styled(flat@, i + 1 + took) == pen);
                return pen;
            }
            i = i + 1 + took;
        }
        pen
    }
}

impl Screen {
    pub fn new(cols: usize, rows: usize) -> (r: Self)
        requires
            1 <= cols,
            1 <= rows,
            cols * rows <= usize::MAX,
        ensures
            r@ == ScreenV::fresh(cols as int, rows as int),
            r@.wf(),
    {
        proof {
            lemma_row(cols as int, rows as int, 0);
        }
        let n: usize = cols * rows;
        let mut cells: Vec<Cell> = Vec::new();
        let mut i: usize = 0;
        while i < n
            invariant
                i <= n,
                cells@ =~= Seq::new(i as nat, |k: int| Cell::empty(Color::Reset)),
            decreases n - i,
        {
            cells.push(Cell::blank(Color::Reset));
            i = i + 1;
        }
        let r = Screen {
            cols,
            rows,
            cells,
            cx: 0,
            cy: 0,
            pen: Pen::plain(),
            scroll_top: 0,
            scroll_bot: rows - 1,
            cursor_visible: true,
            saved: None,
            alt_backup: None,
        };
        assert(r@ =~= ScreenV::fresh(cols as int, rows as int));
        r
    }

    pub fn cols(&self) -> (r: usize)
        ensures
            r == self@.cols,
    {
        self.cols
    }

    pub fn rows(&self) -> (r: usize)
        ensures
            r == self@.rows,
    {
        self.rows
    }

    /// Where the cursor stands: column and row.
    pub fn cursor(&self) -> (r: (usize, usize))
        ensures
            r.0 == self@.cx,
            r.1 == self@.cy,
    {
        (self.cx, self.cy)
    }

    /// The cell at a place on the screen.
    pub fn cell(&self, x: usize, y: usize) -> (r: Option<Cell>)
        requires
            self@.wf(),
        ensures
            r == (if x < self@.cols && y < self@.rows {
                Some(self@.cells[self@.row(y as int) + x])
            } else {
                None
            }),
    {
        if x < self.cols && y < self.rows {
            proof {
                lemma_row(self.cols as int, self.rows as int, y as int);
            }
            Some(self.cells[y * self.cols + x])
        } else {
            None
        }
    }

    pub fn resize(&mut self, cols: usize, rows: usize)
        requires
            old(self)@.wf(),
            at_least_one(cols as int) * at_least_one(rows as int) <= usize::MAX,
        ensures
            final(self)@ == old(self)@.resized(cols as int, rows as int),
            final(self)@.wf(),
    {
        let c: usize = if cols < 1 {
            1
        } else {
            cols
        };
        let r: usize = if rows < 1 {
            1
        } else {
            rows
        };
        let ghost want = self@.resized(cols as int, rows as int);
        proof {
            lemma_row(c as int, r as int, 0);
        }
        let n: usize = c * r;
        let mut next: Vec<Cell> = Vec::new();
        let mut i: usize = 0;
        while i < n
            invariant
                *self == *old(self),
                self@.wf(),
                n == c * r,
                1 <= c,
                1 <= r,
                i <= n,
                want == self@.resized(cols as int, rows as int),
                c as int == want.cols,
                r as int == want.rows,
                next@ =~= want.cells.take(i as int),
            decreases n - i,
        {
            let x: usize = i % c;
            let y: usize = i / c;
            let cell = if x < self.cols && y < self.rows {
                proof {
                    lemma_row(self.cols as int, self.rows as int, y as int);
                }
                self.cells[y * self.cols + x]
            } else {
                Cell::blank(Color::Reset)
            };
            assert(cell == want.cells[i as int]);
            next.push(cell);
            i = i + 1;
        }
        self.cells = next;
        self.cols = c;
        self.rows = r;
        if self.cx > c - 1 {
            self.cx = c - 1;
        }
        if self.cy > r - 1 {
            self.cy = r - 1;
        }
        self.scroll_top = 0;
        self.scroll_bot = r - 1;
        assert(self@ =~= want);
    }

    /// Blank the cells `[a, b)`.
    fn blank_range(&mut self, a: usize, b: usize)
        requires
            a <= b <= old(self)@.cells.len(),
        ensures
            final(self)@ == old(self)@.with(
                blanked(old(self)@.cells, a as int, b as int, old(self)@.pen.bg),
            ),
    {
        let bg = self.pen.bg;
        let ghost s0 = self@;
        let mut i: usize = a;
        assert(self@ =~= s0.with(blanked(s0.cells, a as int, a as int, bg)));
        while i < b
            invariant
                a <= i <= b <= s0.cells.len(),
                bg == s0.pen.bg,
                self@ == s0.with(blanked(s0.cells, a as int, i as int, bg)),
            decreases b - i,
        {
            self.cells.set(i, Cell::blank(bg));
            assert(self@ =~= s0.with(blanked(s0.cells, a as int, i + 1, bg)));
            i = i + 1;
        }
    }

    /// Move the cells `[a, b)` left by `k`.
    fn shift_left(&mut self, a: usize, b: usize, k: usize)
        requires
            a <= b <= old(self)@.cells.len(),
            k > 0,
        ensures
            final(self)@ == old(self)@.with(
                shifted_left(old(self)@.cells, a as int, b as int, k as int, old(self)@.pen.bg),
            ),
    {
        let bg = self.pen.bg;
        let ghost s0 = self@;
        let ghost want = shifted_left(s0.cells, a as int, b as int, k as int, bg);
        let mut i: usize = a;
        while i < b
            invariant
                a <= i <= b <= s0.cells.len(),
                k > 0,
                bg == s0.pen.bg,
                want == shifted_left(s0.cells, a as int, b as int, k as int, bg),
                self@ == s0.with(self@.cells),
                self@.cells.len() == s0.cells.len(),
                forall|j: int|
                    0 <= j < s0.cells.len() ==> #[trigger] self@.cells[j] == (if j < i {
                        want[j]
                    } else {
                        s0.cells[j]
                    }),
            decreases b - i,
        {
            let cell = if k < b - i {
                self.cells[i + k]
            } else {
                Cell::blank(bg)
            };
            self.cells.set(i, cell);
            assert(self@ =~= s0.with(self@.cells));
            i = i + 1;
        }
        assert(self@.cells =~= want);
    }

    /// Move the cells `[a, b)` right by `k`.
    fn shift_right(&mut self, a: usize, b: usize, k: usize)
        requires
            a <= b <= old(self)@.cells.len(),
            k > 0,
        ensures
            final(self)@ == old(self)@.with(
                shifted_right(old(self)@.cells, a as int, b as int, k as int, old(self)@.pen.bg),
            ),
    {
        let bg = self.pen.bg;
        let ghost s0 = self@;
        let ghost want = shifted_right(s0.cells, a as int, b as int, k as int, bg);
        let mut i: usize = b;
        while i > a
            invariant
                a <= i <= b <= s0.cells.len(),
                k > 0,
                bg == s0.pen.bg,
                want == shifted_right(s0.cells, a as int, b as int, k as int, bg),
                self@ == s0.with(self@.cells),
                self@.cells.len() == s0.cells.len(),
                forall|j: int|
                    0 <= j < s0.cells.len() ==> #[trigger] self@.cells[j] == (if j >= i {
                        want[j]
                    } else {
                        s0.cells[j]
                    }),
            decreases i,
        {
            i = i - 1;
            let cell = if i - a >= k {
                self.cells[i - k]
            } else {
                Cell::blank(bg)
            };
            self.cells.set(i, cell);
            assert(self@ =~= s0.with(self@.cells));
        }
        assert(self@.cells =~= want);
    }

    fn rows_up(&mut self, top: usize, bot: usize, n: usize)
        requires
            old(self)@.wf(),
            top <= bot < old(self)@.rows,
        ensures
            final(self)@ == old(self)@.up(top as int, bot as int, n as nat),
            final(self)@ == old(self)@.with(final(self)@.cells),
            final(self)@.wf(),
    {
        let ghost s0 = self@;
        let mut i: usize = 0;
        while i < n
            invariant
                i <= n,
                self@.wf(),
                top <= bot < self@.rows,
                self@ == s0.up(top as int, bot as int, i as nat),
                self@ == s0.with(self@.cells),
            decreases n - i,
        {
            proof {
                lemma_row(self@.cols, self@.rows, top as int);
                lemma_row(self@.cols, self@.rows, bot as int);
                lemma_rows_apart(self@.cols, top as int, bot as int);
            }
            let a: usize = top * self.cols;
            let b: usize = bot * self.cols + self.cols;
            let k: usize = self.cols;
            self.shift_left(a, b, k);
            i = i + 1;
        }
    }

    fn rows_down(&mut self, top: usize, bot: usize, n: usize)
        requires
            old(self)@.wf(),
            top <= bot < old(self)@.rows,
        ensures
            final(self)@ == old(self)@.down(top as int, bot as int, n as nat),
            final(self)@ == old(self)@.with(final(self)@.cells),
            final(self)@.wf(),
    {
        let ghost s0 = self@;
        let mut i: usize = 0;
        while i < n
            invariant
                i <= n,
                self@.wf(),
                top <= bot < self@.rows,
                self@ == s0.down(top as int, bot as int, i as nat),
                self@ == s0.with(self@.cells),
            decreases n - i,
        {
            proof {
                lemma_row(self@.cols, self@.rows, top as int);
                lemma_row(self@.cols, self@.rows, bot as int);
                lemma_rows_apart(self@.cols, top as int, bot as int);
            }
            let a: usize = top * self.cols;
            let b: usize = bot * self.cols + self.cols;
            let k: usize = self.cols;
            self.shift_right(a, b, k);
            i = i + 1;
        }
    }

    fn line_feed(&mut self)
        requires
            old(self)@.wf(),
        ensures
            final(self)@ == old(self)@.line_fed(),
            final(self)@.cx == old(self)@.cx,
            final(self)@.wf(),
    {
        if self.cy == self.scroll_bot {
            self.rows_up(self.scroll_top, self.scroll_bot, 1);
        } else if self.cy + 1 < self.rows {
            self.cy = self.cy + 1;
        }
    }

    fn reverse_index(&mut self)
        requires
            old(self)@.wf(),
        ensures
            final(self)@ == old(self)@.index_reversed(),
            final(self)@.wf(),
    {
        if self.cy == self.scroll_top {
            self.rows_down(self.scroll_top, self.scroll_bot, 1);
        } else if self.cy > 0 {
            self.cy = self.cy - 1;
        }
    }

    /// Write a char at the cursor.
    pub fn print(&mut self, c: char)
        requires
            old(self)@.wf(),
        ensures
            final(self)@ == old(self)@.printed(c),
            final(self)@.wf(),
    {
        if self.cx >= self.cols {
            self.cx = 0;
            self.line_feed();
        }
        proof {
            lemma_row(self@.cols, self@.rows, self@.cy);
        }
        let at: usize = self.cy * self.cols + self.cx;
        let pen = self.pen;
        self.cells.set(
            at,
            Cell { ch: c, fg: pen.fg, bg: pen.bg, bold: pen.bold, reverse: pen.reverse },
        );
        self.cx = self.cx + 1;
    }

    /// Carry out a control byte.
    pub fn execute(&mut self, byte: u8)
        requires
            old(self)@.wf(),
        ensures
            final(self)@ == old(self)@.executed(byte),
            final(self)@.wf(),
    {
        match byte {
            0x0a | 0x0b | 0x0c => self.line_feed(),
            0x0d => {
                self.cx = 0;
            },
            0x08 => {
                if self.cx > 0 {
                    self.cx = self.cx - 1;
                }
            },
            0x09 => {
                let right: usize = self.cols - 1;
                let step: usize = 8 - self.cx % 8;
                self.cx = if self.cx < right && step < right - self.cx {
                    self.cx + step
                } else {
                    right
                };
            },
            _ => {},
        }
    }

    fn erase_line(&mut self, mode: u16)
        requires
            old(self)@.wf(),
        ensures
            final(self)@ == old(self)@.line_erased(mode as int),
            final(self)@.wf(),
    {
        proof {
            lemma_row(self@.cols, self@.rows, self@.cy);
        }
        let row: usize = self.cy * self.cols;
        let a: usize = if mode == 1 || mode == 2 {
            0
        } else {
            self.cx
        };
        let b: usize = if mode == 1 && self.cx < self.cols {
            self.cx + 1
        } else {
            self.cols
        };
        self.blank_range(row + a, row + b);
    }

    fn erase_display(&mut self, mode: u16)
        requires
            old(self)@.wf(),
        ensures
            final(self)@ == old(self)@.display_erased(mode as int),
            final(self)@.wf(),
    {
        proof {
            lemma_row(self@.cols, self@.rows, self@.cy);
        }
        let at: usize = self.cy * self.cols + self.cx;
        let len: usize = self.cells.len();
        let a: usize = if mode == 1 || mode == 2 || mode == 3 {
            0
        } else {
            at
        };
        let b: usize = if mode == 1 && at < len {
            at + 1
        } else {
            len
        };
        let ghost s0 = self@;
        self.blank_range(a, b);
        assert(self@ =~= s0.display_erased(mode as int));
    }

    fn delete_chars(&mut self, n: usize)
        requires
            old(self)@.wf(),
            n > 0,
        ensures
            final(self)@ == old(self)@.chars_deleted(n as int),
            final(self)@.wf(),
    {
        proof {
            lemma_row(self@.cols, self@.rows, self@.cy);
        }
        let row: usize = self.cy * self.cols;
        self.shift_left(row + self.cx, row + self.cols, n);
    }

    fn insert_chars(&mut self, n: usize)
        requires
            old(self)@.wf(),
            n > 0,
        ensures
            final(self)@ == old(self)@.chars_inserted(n as int),
            final(self)@.wf(),
    {
        proof {
            lemma_row(self@.cols, self@.rows, self@.cy);
        }
        let row: usize = self.cy * self.cols;
        self.shift_right(row + self.cx, row + self.cols, n);
    }

    fn enter_alt(&mut self)
        requires
            old(self)@.wf(),
        ensures
            final(self)@ == old(self)@.alt_entered(),
            final(self)@.wf(),
    {
        if self.alt_backup.is_none() {
            let ghost s0 = self@;
            let mut kept: Vec<Cell> = Vec::new();
            let mut i: usize = 0;
            while i < self.cells.len()
                invariant
                    *self == *old(self),
                    i <= self.cells@.len(),
                    kept@ =~= self.cells@.take(i as int),
                decreases self.cells@.len() - i,
            {
                kept.push(self.cells[i]);
                i = i + 1;
            }
            self.alt_backup = Some((kept, self.cx, self.cy));
            let n: usize = self.cells.len();
            self.blank_range(0, n);
            self.cx = 0;
            self.cy = 0;
            assert(self@ =~= s0.alt_entered());
        }
    }

    fn leave_alt(&mut self)
        requires
            old(self)@.wf(),
        ensures
            final(self)@ == old(self)@.alt_left(),
            final(self)@.wf(),
    {
        if let Some((cells, x, y)) = self.alt_backup.take() {
            if cells.len() == self.cells.len() {
                self.cells = cells;
            }
            self.cx = if x < self.cols - 1 {
                x
            } else {
                self.cols - 1
            };
            self.cy = if y < self.rows - 1 {
                y
            } else {
                self.rows - 1
            };
        }
        assert(self@ =~= old(self)@.alt_left());
    }

    fn set_mode(&mut self, mode: u16, on: bool)
        requires
            old(self)@.wf(),
        ensures
            final(self)@ == old(self)@.mode_set(mode as int, on),
            final(self)@.wf(),
    {
        match mode {
            25 => {
                self.cursor_visible = on;
            },
            47 | 1047 | 1049 => {
                if on {
                    self.enter_alt();
                } else {
                    self.leave_alt();
                }
            },
            _ => {},
        }
    }

    fn restore_cursor(&mut self)
        requires
            old(self)@.wf(),
        ensures
            final(self)@ == old(self)@.cursor_restored(),
            final(self)@.wf(),
    {
        if let Some((x, y)) = self.saved {
            self.cx = if x < self.cols - 1 {
                x
            } else {
                self.cols - 1
            };
            self.cy = if y < self.rows - 1 {
                y
            } else {
                self.rows - 1
            };
        }
    }

    fn move_cursor(&mut self, action: char, n: usize, m: usize)
        requires
            old(self)@.wf(),
            1 <= n,
            1 <= m,
            ScreenV::moves(action),
        ensures
            final(self)@ == old(self)@.cursor_moved(action, n as int, m as int),
            final(self)@.wf(),
    {
        let right: usize = self.cols - 1;
        let bottom: usize = self.rows - 1;
        let up: usize = if self.cy > n {
            self.cy - n
        } else {
            0
        };
        let down: usize = if n < bottom - self.cy {
            self.cy + n
        } else {
            bottom
        };
        if action == 'A' {
            self.cy = up;
        } else if action == 'B' || action == 'e' {
            self.cy = down;
        } else if action == 'C' || action == 'a' {
            self.cx = if self.cx < right && n < right - self.cx {
                self.cx + n
            } else {
                right
            };
        } else if action == 'D' {
            self.cx = if self.cx > n {
                self.cx - n
            } else {
                0
            };
        } else if action == 'E' {
            self.cy = down;
            self.cx = 0;
        } else if action == 'F' {
            self.cy = up;
            self.cx = 0;
        } else {
            let row: usize = if n - 1 < bottom {
                n - 1
            } else {
                bottom
            };
            if action == 'G' || action == '`' {
                self.cx = if n - 1 < right {
                    n - 1
                } else {
                    right
                };
            } else if action == 'd' {
                self.cy = row;
            } else {
                self.cy = row;
                self.cx = if m - 1 < right {
                    m - 1
                } else {
                    right
                };
            }
        }
    }

    /// Carry out a control sequence.
    pub fn csi_dispatch(&mut self, params: &Vec<Vec<u16>>, private: bool, action: char)
        requires
            old(self)@.wf(),
        ensures
            final(self)@ == old(self)@.controlled(params_of(params@), private, action),
            final(self)@.wf(),
    {
        let n: usize = arg(params, 0, 1) as usize;
        match action {
            'A' | 'B' | 'e' | 'C' | 'a' | 'D' | 'E' | 'F' | 'G' | '`' | 'd' | 'H' | 'f' => {
                let m: usize = arg(params, 1, 1) as usize;
                self.move_cursor(action, n, m);
            },
            'J' => self.erase_display(arg(params, 0, 0)),
            'K' => self.erase_line(arg(params, 0, 0)),
            'L' => {
                if self.cy >= self.scroll_top && self.cy <= self.scroll_bot {
                    self.rows_down(self.cy, self.scroll_bot, n);
                }
            },
            'M' => {
                if self.cy >= self.scroll_top && self.cy <= self.scroll_bot {
                    self.rows_up(self.cy, self.scroll_bot, n);
                }
            },
            'P' => self.delete_chars(n),
            '@' => self.insert_chars(n),
            'S' => self.rows_up(self.scroll_top, self.scroll_bot, n),
            'T' => self.rows_down(self.scroll_top, self.scroll_bot, n),
            'm' => {
                let flat = flatten(params);
                self.pen = self.pen.apply(&flat);
            },
            'r' => {
                let top: usize = n - 1;
                let given: usize = arg(params, 1, 0) as usize;
                let bot: usize = if given == 0 {
                    self.rows - 1
                } else {
                    given - 1
                };
                if top < bot && bot < self.rows {
                    self.scroll_top = top;
                    self.scroll_bot = bot;
                    self.cx = 0;
                    self.cy = top;
                }
            },
            'h' => {
                if private {
                    self.set_mode(arg(params, 0, 0), true);
                }
            },
            'l' => {
                if private {
                    self.set_mode(arg(params, 0, 0), false);
                }
            },
            's' => {
                self.saved = Some((self.cx, self.cy));
            },
            'u' => self.restore_cursor(),
            _ => {},
        }
    }

    /// Carry out an escape sequence.
    pub fn esc_dispatch(&mut self, byte: u8)
        requires
            old(self)@.wf(),
        ensures
            final(self)@ == old(self)@.escaped(byte),
            final(self)@.wf(),
    {
        match byte {
            0x4d => self.reverse_index(),
            0x44 => self.line_feed(),
            0x45 => {
                self.line_feed();
                self.cx = 0;
            },
            0x37 => {
                self.saved = Some((self.cx, self.cy));
            },
            0x38 => self.restore_cursor(),
            0x63 => {
                self.pen = Pen::plain();
                self.erase_display(2);
                self.cx = 0;
                self.cy = 0;
            },
            _ => {},
        }
    }

    /// Carry out what a sequence parser found.
    pub fn apply(&mut self, ev: &VtEvent)
        requires
            old(self)@.wf(),
        ensures
            final(self)@ == old(self)@.after(ev@),
            final(self)@.wf(),
    {
        match ev {
            VtEvent::Print(c) => self.print(*c),
            VtEvent::Execute(b) => self.execute(*b),
            VtEvent::Csi { params, private, action } => self.csi_dispatch(
                params,
                *private,
                *action,
            ),
            VtEvent::Esc(b) => self.esc_dispatch(*b),
        }
    }

    /// Carry out events in order.
    pub fn apply_all(&mut self, evs: &Vec<VtEvent>)
        requires
            old(self)@.wf(),
        ensures
            final(self)@ == shown(old(self)@, events_of(evs@), evs@.len() as int),
            final(self)@.wf(),
    {
        let ghost s0 = self@;
        let mut i: usize = 0;
        while i < evs.len()
            invariant
                i <= evs@.len(),
                self@.wf(),
                self@ == shown(s0, events_of(evs@), i as int),
            decreases evs@.len() - i,
        {
            self.apply(&evs[i]);
            i = i + 1;
        }
    }
}

/// How a run of chars looks.
#[derive(Clone, Copy, Debug, PartialEq, Eq, Structural)]
pub struct CellStyle {
    pub fg: Color,
    pub bg: Color,
    pub bold: bool,
    pub reversed: bool,
}

/// A cell's look; the cursor turns its cell's colours round.
pub open spec fn style_of(c: Cell, is_cursor: bool) -> CellStyle {
    CellStyle { fg: c.fg, bg: c.bg, bold: c.bold, reversed: c.reverse != is_cursor }
}

fn cell_style(c: &Cell, is_cursor: bool) -> (r: CellStyle)
    ensures
        r == style_of(*c, is_cursor),
{
    CellStyle { fg: c.fg, bg: c.bg, bold: c.bold, reversed: c.reverse != is_cursor }
}

/// Chars that look the same, together.
pub type RunV = (Seq<char>, CellStyle);

/// Styled chars gathered into runs of the same look.
pub open spec fn runs(s: Seq<(char, CellStyle)>) -> Seq<RunV>
    decreases s.len(),
{
    if s.len() == 0 {
        Seq::empty()
    } else {
        let r = runs(s.drop_last());
        let (c, st) = s.last();
        if r.len() > 0 && r.last().1 == st {
            r.drop_last().push((r.last().0.push(c), st))
        } else {
            r.push((seq![c], st))
        }
    }
}

/// The chars of runs, in order.
pub open spec fn runs_text(r: Seq<RunV>) -> Seq<char>
    decreases r.len(),
{
    if r.len() == 0 {
        Seq::empty()
    } else {
        runs_text(r.drop_last()) + r.last().0
    }
}

/// Gathering keeps every char in its place, leaves no run empty, and joins all it can.
pub proof fn law_runs(s: Seq<(char, CellStyle)>)
    ensures
        runs_text(runs(s)) == s.map_values(|p: (char, CellStyle)| p.0),
        forall|i: int| 0 <= i < runs(s).len() ==> (#[trigger] runs(s)[i]).0.len() > 0,
        forall|i: int|
            0 < i < runs(s).len() ==> (#[trigger] runs(s)[i]).1 != runs(s)[i - 1].1,
    decreases s.len(),
{
    let f = |p: (char, CellStyle)| p.0;
    if s.len() == 0 {
        assert(s.map_values(f) =~= Seq::empty());
    } else {
        let t = s.drop_last();
        law_runs(t);
        let r = runs(t);
        let (c, st) = s.last();
        assert(s.map_values(f) =~= t.map_values(f).push(c));
        if r.len() > 0 && r.last().1 == st {
            let q = r.drop_last().push((r.last().0.push(c), st));
            assert(q.drop_last() =~= r.drop_last());
            assert(runs_text(q) =~= runs_text(r).push(c));
        } else {
            let q = r.push((seq![c], st));
            assert(q.drop_last() =~= r);
            assert(runs_text(q) =~= runs_text(r).push(c));
        }
    }
}

impl ScreenV {
    /// Row `y` as styled chars.
    pub open spec fn styled_row(self, y: int, cursor_on: bool) -> Seq<(char, CellStyle)> {
        Seq::new(
            self.cols as nat,
            |x: int|
                {
                    let c = self.cells[self.row(y) + x];
                    (c.ch, style_of(c, cursor_on && x == self.cx && y == self.cy))
                },
        )
    }

    /// The screen as rows of runs; the cursor shows where it is wanted and not hidden.
    pub open spec fn lines(self, show_cursor: bool) -> Seq<Seq<RunV>> {
        Seq::new(
            self.rows as nat,
            |y: int| runs(self.styled_row(y, show_cursor && self.cursor_visible)),
        )
    }
}

pub open spec fn runs_of(v: Seq<(String, CellStyle)>) -> Seq<RunV> {
    Seq::new(v.len(), |i: int| (v[i].0@, v[i].1))
}

pub open spec fn lines_of_runs(v: Seq<Vec<(String, CellStyle)>>) -> Seq<Seq<RunV>> {
    Seq::new(v.len(), |i: int| runs_of(v[i]@))
}

/// Add a styled char to runs.
fn push_run(out: &mut Vec<(String, CellStyle)>, c: char, st: CellStyle, Ghost(s): Ghost<Seq<(char, CellStyle)>>)
    requires
        runs_of(old(out)@) == runs(s),
    ensures
        runs_of(final(out)@) == runs(s.push((c, st))),
{
    let ghost r = runs(s);
    let ghost t = s.push((c, st));
    assert(t.drop_last() =~= s);
    let n: usize = out.len();
    if n > 0 && out[n - 1].1 == st {
        let mut last = match out.pop() {
            Some(x) => x.0,
            None => String::new(),
        };
        assert(r.last() == (last@, st));
        last.push(c);
        out.push((last, st));
        assert(runs_of(out@) =~= r.drop_last().push((r.last().0.push(c), st)));
    } else {
        let mut text = String::new();
        text.push(c);
        assert(text@ =~= seq![c]);
        if n > 0 {
            assert(r.last().1 == out@[n - 1].1);
        }
        out.push((text, st));
        assert(runs_of(out@) =~= r.push((seq![c], st)));
    }
}

/// Gather styled chars into runs of the same look.
pub fn gather(cells: &Vec<(char, CellStyle)>) -> (r: Vec<(String, CellStyle)>)
    ensures
        runs_of(r@) == runs(cells@),
{
    let mut out: Vec<(String, CellStyle)> = Vec::new();
    let mut i: usize = 0;
    proof {
        assert(cells@.take(0) =~= Seq::empty());
        assert(runs_of(out@) =~= runs(cells@.take(0)));
    }
    while i < cells.len()
        invariant
            i <= cells@.len(),
            runs_of(out@) == runs(cells@.take(i as int)),
        decreases cells@.len() - i,
    {
        let (c, st) = cells[i];
        push_run(&mut out, c, st, Ghost(cells@.take(i as int)));
        assert(cells@.take(i + 1) =~= cells@.take(i as int).push((c, st)));
        i = i + 1;
    }
    assert(cells@.take(i as int) =~= cells@);
    out
}

impl Screen {
    fn row_runs(&self, y: usize, cursor_on: bool) -> (r: Vec<(String, CellStyle)>)
        requires
            self@.wf(),
            y < self@.rows,
        ensures
            runs_of(r@) == runs(self@.styled_row(y as int, cursor_on)),
    {
        proof {
            lemma_row(self@.cols, self@.rows, y as int);
        }
        let ghost row = self@.styled_row(y as int, cursor_on);
        let first: usize = y * self.cols;
        let total: usize = self.cells.len();
        let mut out: Vec<(String, CellStyle)> = Vec::new();
        let mut x: usize = 0;
        proof {
            assert(row.take(0) =~= Seq::empty());
            assert(runs_of(out@) =~= runs(row.take(0)));
        }
        while x < self.cols
            invariant
                self@.wf(),
                y < self@.rows,
                x <= self.cols,
                first == self@.row(y as int),
                first + self.cols <= total,
                total == self.cells@.len(),
                row == self@.styled_row(y as int, cursor_on),
                runs_of(out@) == runs(row.take(x as int)),
            decreases self.cols - x,
        {
            let cell = self.cells[first + x];
            let is_cursor = cursor_on && x == self.cx && y == self.cy;
            let st = cell_style(&cell, is_cursor);
            push_run(&mut out, cell.ch, st, Ghost(row.take(x as int)));
            assert(row.take(x + 1) =~= row.take(x as int).push((cell.ch, st)));
            x = x + 1;
        }
        assert(row.take(x as int) =~= row);
        out
    }

    /// The screen as rows of runs. When `show_cursor`, the cursor cell is reversed.
    pub fn to_lines(&self, show_cursor: bool) -> (r: Vec<Vec<(String, CellStyle)>>)
        requires
            self@.wf(),
        ensures
            lines_of_runs(r@) == self@.lines(show_cursor),
    {
        let cursor_on = show_cursor && self.cursor_visible;
        let mut lines: Vec<Vec<(String, CellStyle)>> = Vec::new();
        let mut y: usize = 0;
        while y < self.rows
            invariant
                self@.wf(),
                y <= self.rows,
                cursor_on == (show_cursor && self@.cursor_visible),
                lines_of_runs(lines@) =~= self@.lines(show_cursor).take(y as int),
            decreases self.rows - y,
        {
            let ghost done = lines_of_runs(lines@);
            let row = self.row_runs(y, cursor_on);
            lines.push(row);
            assert(lines_of_runs(lines@) =~= done.push(self@.lines(show_cursor)[y as int]));
            y = y + 1;
        }
        assert(lines_of_runs(lines@) =~= self@.lines(show_cursor));
        lines
    }
}

/// The screen after events `[0, n)`.
pub open spec fn shown(s: ScreenV, evs: Seq<VtEventV>, n: int) -> ScreenV
    decreases n,
{
    if n <= 0 {
        s
    } else {
        shown(s, evs, n - 1).after(evs[n - 1])
    }
}

/// The screen after bytes `[0, n)`, the parser having taken in `taken` before.
pub open spec fn fed(s: ScreenV, taken: Seq<u8>, bytes: Seq<u8>, n: int) -> ScreenV
    decreases n,
{
    if n <= 0 {
        s
    } else {
        let evs = events_found(taken + bytes.take(n - 1), bytes[n - 1]);
        shown(fed(s, taken, bytes, n - 1), evs, evs.len() as int)
    }
}

proof fn lemma_fed_prefix(s: ScreenV, taken: Seq<u8>, a: Seq<u8>, b: Seq<u8>, n: int)
    requires
        n <= a.len(),
    ensures
        fed(s, taken, a + b, n) == fed(s, taken, a, n),
    decreases n,
{
    if n > 0 {
        lemma_fed_prefix(s, taken, a, b, n - 1);
        assert((a + b).take(n - 1) =~= a.take(n - 1));
    }
}

proof fn lemma_fed_rest(s: ScreenV, taken: Seq<u8>, a: Seq<u8>, b: Seq<u8>, n: int)
    requires
        0 <= n <= b.len(),
    ensures
        fed(s, taken, a + b, a.len() + n) == fed(
            fed(s, taken, a, a.len() as int),
            taken + a,
            b,
            n,
        ),
    decreases n,
{
    if n == 0 {
        lemma_fed_prefix(s, taken, a, b, a.len() as int);
    } else {
        lemma_fed_rest(s, taken, a, b, n - 1);
        assert(taken + (a + b).take(a.len() + n - 1) =~= taken + a + b.take(n - 1));
    }
}

/// The public emulator.
pub struct Vt {
    parser: vte::Parser,
    screen: Screen,
}

/// Model of an emulator: the bytes it was fed, and its screen.
#[verifier::ext_equal]
pub struct VtV {
    pub taken: Seq<u8>,
    pub screen: ScreenV,
}

impl View for Vt {
    type V = VtV;

    closed spec fn view(&self) -> VtV {
        VtV { taken: bytes_taken(self.parser), screen: self.screen@ }
    }
}

impl VtV {
    /// A blank screen of at least one cell.
    pub open spec fn fresh(cols: int, rows: int) -> VtV {
        VtV {
            taken: Seq::empty(),
            screen: ScreenV::fresh(at_least_one(cols), at_least_one(rows)),
        }
    }

    /// The screen given another size, where it is another one.
    pub open spec fn resized(self, cols: int, rows: int) -> VtV {
        if cols == self.screen.cols && rows == self.screen.rows {
            self
        } else {
            VtV { screen: self.screen.resized(cols, rows), ..self }
        }
    }

    /// After more bytes.
    pub open spec fn fed(self, bytes: Seq<u8>) -> VtV {
        VtV {
            taken: self.taken + bytes,
            screen: fed(self.screen, self.taken, bytes, bytes.len() as int),
        }
    }
}

impl Vt {
    /// A blank screen of at least one cell.
    pub fn new(cols: usize, rows: usize) -> (r: Self)
        requires
            at_least_one(cols as int) * at_least_one(rows as int) <= usize::MAX,
        ensures
            r@ == VtV::fresh(cols as int, rows as int),
            r@.screen.wf(),
    {
        Vt {
            parser: new_parser(),
            screen: Screen::new(
                if cols < 1 {
                    1
                } else {
                    cols
                },
                if rows < 1 {
                    1
                } else {
                    rows
                },
            ),
        }
    }

    /// The screen.
    pub fn screen(&self) -> (r: &Screen)
        ensures
            r@ == self@.screen,
    {
        &self.screen
    }

    /// Give the screen another size, where it is another one.
    pub fn resize(&mut self, cols: usize, rows: usize)
        requires
            old(self)@.screen.wf(),
            at_least_one(cols as int) * at_least_one(rows as int) <= usize::MAX,
        ensures
            final(self)@ == old(self)@.resized(cols as int, rows as int),
            final(self)@.screen.wf(),
    {
        if cols != self.screen.cols() || rows != self.screen.rows() {
            self.screen.resize(cols, rows);
        }
    }

    /// Show received bytes.
    pub fn feed(&mut self, bytes: &[u8])
        requires
            old(self)@.screen.wf(),
        ensures
            final(self)@ == old(self)@.fed(bytes@),
            final(self)@.screen.wf(),
    {
        let ghost v = self@;
        let mut i: usize = 0;
        assert(v.taken + bytes@.take(0) =~= v.taken);
        while i < bytes.len()
            invariant
                i <= bytes@.len(),
                self@.screen.wf(),
                self@.screen == fed(v.screen, v.taken, bytes@, i as int),
                self@.taken == v.taken + bytes@.take(i as int),
            decreases bytes@.len() - i,
        {
            let evs = take_byte(&mut self.parser, bytes[i]);
            self.screen.apply_all(&evs);
            assert((v.taken + bytes@.take(i as int)).push(bytes@[i as int]) =~= v.taken
                + bytes@.take(i + 1));
            i = i + 1;
        }
        assert(bytes@.take(i as int) =~= bytes@);
    }

    /// The screen as rows of runs. When `show_cursor`, the cursor cell is reversed.
    pub fn to_lines(&self, show_cursor: bool) -> (r: Vec<Vec<(String, CellStyle)>>)
        requires
            self@.screen.wf(),
        ensures
            lines_of_runs(r@) == self@.screen.lines(show_cursor),
    {
        self.screen.to_lines(show_cursor)
    }
}

/// What an emulator shows does not depend on the pieces the bytes arrive in.
pub proof fn law_pieces(v: VtV, a: Seq<u8>, b: Seq<u8>)
    ensures
        v.fed(a).fed(b) == v.fed(a + b),
{
    lemma_fed_rest(v.screen, v.taken, a, b, b.len() as int);
    assert(v.taken + a + b =~= v.taken + (a + b));
}

/// Leaving the alternate screen brings back the cells there were before entering it, whatever
/// was drawn on it meanwhile, and the cursor (on the last column where it was past it).
pub proof fn law_alt_restores(s: ScreenV, drawn: ScreenV)
    requires
        s.wf(),
        s.alt_backup is None,
        drawn.wf(),
        drawn.alt_backup == s.alt_entered().alt_backup,
        drawn.cols == s.cols,
        drawn.rows == s.rows,
    ensures
        drawn.alt_left().cells == s.cells,
        drawn.alt_left().cx == least(s.cx, s.cols - 1),
        drawn.alt_left().cy == s.cy,
        drawn.alt_left().alt_backup is None,
{
}

/// A restored cursor stands where it was saved (on the last column where it was past it),
/// wherever it went meanwhile.
pub proof fn law_cursor_restores(s: ScreenV, cx: int, cy: int)
    requires
        s.wf(),
    ensures
        s.cursor_saved().moved(cx, cy).cursor_restored().cx == least(s.cx, s.cols - 1),
        s.cursor_saved().moved(cx, cy).cursor_restored().cy == s.cy,
{
}

/// A new size keeps every cell that is on both screens.
pub proof fn law_resize_keeps(s: ScreenV, cols: int, rows: int, x: int, y: int)
    requires
        s.wf(),
        1 <= cols,
        1 <= rows,
        0 <= x < least(cols, s.cols),
        0 <= y < least(rows, s.rows),
    ensures
        s.resized(cols, rows).cells[y * cols + x] == s.cells[y * s.cols + x],
{
    lemma_row(cols, rows, y);
    let i = y * cols + x;
    assert(i / cols == y && i % cols == x) by (nonlinear_arith)
        requires
            i == y * cols + x,
            0 <= x < cols,
            0 <= y,
    ;
}

/// Scrolling as far as the region is high blanks it, and leaves the other rows alone.
pub proof fn law_scroll_clears(s: ScreenV, n: nat, i: int)
    requires
        s.wf(),
        n > s.scroll_bot - s.scroll_top,
        0 <= i < s.cells.len(),
    ensures
        ({
            let r = s.up(s.scroll_top, s.scroll_bot, n).cells[i];
            if s.row(s.scroll_top) <= i < s.row(s.scroll_bot + 1) {
                r == Cell::empty(s.pen.bg)
            } else {
                r == s.cells[i]
            }
        }),
{
    lemma_up(s, s.scroll_top, s.scroll_bot, n, i);
    let h = s.scroll_bot + 1 - s.scroll_top;
    assert(n * s.cols >= h * s.cols && h * s.cols == s.row(s.scroll_bot + 1) - s.row(s.scroll_top))
        by (nonlinear_arith)
        requires
            n >= h,
            s.cols >= 1,
            h == s.scroll_bot + 1 - s.scroll_top,
            s.row(s.scroll_bot + 1) == (s.scroll_bot + 1) * s.cols,
            s.row(s.scroll_top) == s.scroll_top * s.cols,
    ;
}

/// What stands in a cell after scrolling up by `n` rows.
pub proof fn lemma_up(s: ScreenV, top: int, bot: int, n: nat, i: int)
    requires
        s.wf(),
        0 <= top <= bot < s.rows,
        0 <= i < s.cells.len(),
    ensures
        s.up(top, bot, n) == s.with(s.up(top, bot, n).cells),
        s.up(top, bot, n).cells.len() == s.cells.len(),
        s.up(top, bot, n).cells[i] == (if s.row(top) <= i < s.row(bot + 1) {
            if i + n * s.cols < s.row(bot + 1) {
                s.cells[i + n * s.cols]
            } else {
                Cell::empty(s.pen.bg)
            }
        } else {
            s.cells[i]
        }),
    decreases n,
{
    lemma_row(s.cols, s.rows, top);
    lemma_row(s.cols, s.rows, bot);
    if n > 0 {
        let m = (n - 1) as nat;
        lemma_up(s, top, bot, m, i);
        assert(n * s.cols == m * s.cols + s.cols) by (nonlinear_arith)
            requires
                m == n - 1,
        ;
        assert(m * s.cols >= 0) by (nonlinear_arith)
            requires
                m >= 0,
                s.cols >= 1,
        ;
        if s.row(top) <= i && i + s.cols < s.row(bot + 1) {
            lemma_up(s, top, bot, m, i + s.cols);
        }
    } else {
        assert(s.with(s.cells) =~= s);
        assert(0 * s.cols == 0);
    }
}

/// What stands in a cell after scrolling down by `n` rows.
pub proof fn lemma_down(s: ScreenV, top: int, bot: int, n: nat, i: int)
    requires
        s.wf(),
        0 <= top <= bot < s.rows,
        0 <= i < s.cells.len(),
    ensures
        s.down(top, bot, n) == s.with(s.down(top, bot, n).cells),
        s.down(top, bot, n).cells.len() == s.cells.len(),
        s.down(top, bot, n).cells[i] == (if s.row(top) <= i < s.row(bot + 1) {
            if i - n * s.cols >= s.row(top) {
                s.cells[i - n * s.cols]
            } else {
                Cell::empty(s.pen.bg)
            }
        } else {
            s.cells[i]
        }),
    decreases n,
{
    lemma_row(s.cols, s.rows, top);
    lemma_row(s.cols, s.rows, bot);
    if n > 0 {
        let m = (n - 1) as nat;
        lemma_down(s, top, bot, m, i);
        assert(n * s.cols == m * s.cols + s.cols) by (nonlinear_arith)
            requires
                m == n - 1,
        ;
        assert(m * s.cols >= 0) by (nonlinear_arith)
            requires
                m >= 0,
                s.cols >= 1,
        ;
        if i < s.row(bot + 1) && i - s.cols >= s.row(top) {
            lemma_down(s, top, bot, m, i - s.cols);
        }
    } else {
        assert(s.with(s.cells) =~= s);
        assert(0 * s.cols == 0);
    }
}

} // verus!
