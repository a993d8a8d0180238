//! A grid of character cells, one char per cell, and writing on it.

use vstd::prelude::*;

use crate::rvim::buffer::min;
use crate::rvim::theme::{Rgb, BG, TEXT};
use crate::text::to_chars;

verus! {

/// One cell of the screen.
#[derive(Clone, Copy, Debug, PartialEq, Eq, Structural)]
pub struct Cell {
    pub ch: char,
    pub fg: Rgb,
    pub bg: Rgb,
    pub reversed: bool,
}

/// What to change of a cell's look; `None` leaves a colour as it is.
#[derive(Clone, Copy, Debug, PartialEq, Eq, Structural)]
pub struct Style {
    pub fg: Option<Rgb>,
    pub bg: Option<Rgb>,
    pub reversed: bool,
}

/// Foreground and background set.
pub fn style(fg: Rgb, bg: Rgb) -> (r: Style)
    ensures
        r == on(fg, bg),
{
    Style { fg: Some(fg), bg: Some(bg), reversed: false }
}

/// Foreground set.
pub fn style_fg(fg: Rgb) -> (r: Style)
    ensures
        r == ink(fg),
{
    Style { fg: Some(fg), bg: None, reversed: false }
}

/// Background set.
pub fn style_bg(bg: Rgb) -> (r: Style)
    ensures
        r == paper(bg),
{
    Style { fg: None, bg: Some(bg), reversed: false }
}

/// Colours swapped.
pub fn style_reversed() -> (r: Style)
    ensures
        r == turned(),
{
    Style { fg: None, bg: None, reversed: true }
}

pub open spec fn on(fg: Rgb, bg: Rgb) -> Style {
    Style { fg: Some(fg), bg: Some(bg), reversed: false }
}

pub open spec fn ink(fg: Rgb) -> Style {
    Style { fg: Some(fg), bg: None, reversed: false }
}

pub open spec fn paper(bg: Rgb) -> Style {
    Style { fg: None, bg: Some(bg), reversed: false }
}

pub open spec fn turned() -> Style {
    Style { fg: None, bg: None, reversed: true }
}

impl Cell {
    /// An untouched cell.
    pub open spec fn blank() -> Cell {
        Cell { ch: ' ', fg: TEXT, bg: BG, reversed: false }
    }

    /// A cell restyled.
    pub open spec fn styled(self, st: Style) -> Cell {
        Cell {
            ch: self.ch,
            fg: match st.fg {
                Some(c) => c,
                None => self.fg,
            },
            bg: match st.bg {
                Some(c) => c,
                None => self.bg,
            },
            reversed: self.reversed || st.reversed,
        }
    }

    /// A cell overwritten.
    pub open spec fn written(self, ch: char, st: Style) -> Cell {
        Cell { ch, ..self }.styled(st)
    }

    fn restyle(self, st: Style) -> (r: Cell)
        ensures
            r == self.styled(st),
    {
        Cell {
            ch: self.ch,
            fg: match st.fg {
                Some(c) => c,
                None => self.fg,
            },
            bg: match st.bg {
                Some(c) => c,
                None => self.bg,
            },
            reversed: self.reversed || st.reversed,
        }
    }
}

/// A screenful of cells.
pub struct Grid {
    cols: u16,
    rows: u16,
    cells: Vec<Vec<Cell>>,
}

/// Model of a screen: its size and its rows of cells.
#[verifier::ext_equal]
pub struct GridV {
    pub cols: int,
    pub rows: int,
    pub cells: Seq<Seq<Cell>>,
}

impl View for Grid {
    type V = GridV;

    closed spec fn view(&self) -> GridV {
        GridV {
            cols: self.cols as int,
            rows: self.rows as int,
            cells: Seq::new(self.cells@.len(), |y: int| self.cells@[y]@),
        }
    }
}

impl GridV {
    pub open spec fn fresh(cols: int, rows: int) -> GridV {
        GridV {
            cols,
            rows,
            cells: Seq::new(rows as nat, |y: int| Seq::new(cols as nat, |x: int| Cell::blank())),
        }
    }

    /// As many rows and cells as the size says.
    #[verifier::opaque]
    pub open spec fn wf(self) -> bool {
        &&& 0 <= self.cols <= u16::MAX
        &&& 0 <= self.rows <= u16::MAX
        &&& self.cells.len() == self.rows
        &&& forall|y: int|
            0 <= y < self.rows ==> (#[trigger] self.cells[y]).len() == self.cols
    }

    /// The cell at a place on the screen.
    pub open spec fn at(self, x: int, y: int) -> Cell {
        self.cells[y][x]
    }

    /// One cell overwritten; beyond the screen nothing happens.
    #[verifier::opaque]
    pub open spec fn set(self, x: int, y: int, ch: char, st: Style) -> GridV {
        if 0 <= x < self.cols && 0 <= y < self.rows {
            GridV {
                cells: self.cells.update(
                    y,
                    self.cells[y].update(x, self.cells[y][x].written(ch, st)),
                ),
                ..self
            }
        } else {
            self
        }
    }

    /// The cells of a rectangle restyled, as far as it is on the screen.
    #[verifier::opaque]
    pub open spec fn styled(self, x0: int, y0: int, w: int, h: int, st: Style) -> GridV {
        GridV {
            cells: Seq::new(
                self.cells.len(),
                |y: int|
                    if y0 <= y < y0 + h {
                        Seq::new(
                            self.cells[y].len(),
                            |x: int|
                                if x0 <= x < x0 + w {
                                    self.cells[y][x].styled(st)
                                } else {
                                    self.cells[y][x]
                                },
                        )
                    } else {
                        self.cells[y]
                    },
            ),
            ..self
        }
    }

    /// A text written one char per cell from `x` on, clipped before `max_x`.
    #[verifier::opaque]
    pub open spec fn put(self, x0: int, y0: int, s: Seq<char>, st: Style, max_x: int) -> GridV {
        GridV {
            cells: Seq::new(
                self.cells.len(),
                |y: int|
                    if y == y0 {
                        Seq::new(
                            self.cells[y].len(),
                            |x: int|
                                if x0 <= x < min(x0 + s.len(), max_x) {
                                    self.cells[y][x].written(s[x - x0], st)
                                } else {
                                    self.cells[y][x]
                                },
                        )
                    } else {
                        self.cells[y]
                    },
            ),
            ..self
        }
    }
}

impl GridV {
    /// Every cell of a rectangle overwritten, as far as it is on the screen.
    #[verifier::opaque]
    pub open spec fn filled(self, x0: int, y0: int, w: int, h: int, ch: char, st: Style) -> GridV {
        GridV {
            cells: Seq::new(
                self.cells.len(),
                |y: int|
                    if y0 <= y < y0 + h {
                        Seq::new(
                            self.cells[y].len(),
                            |x: int|
                                if x0 <= x < x0 + w {
                                    self.cells[y][x].written(ch, st)
                                } else {
                                    self.cells[y][x]
                                },
                        )
                    } else {
                        self.cells[y]
                    },
            ),
            ..self
        }
    }
}

/// The column after a text written from `x` on and clipped before `max_x`.
pub open spec fn put_end(x: int, s: Seq<char>, max_x: int) -> int {
    if x >= max_x {
        x
    } else {
        min(x + s.len(), max_x)
    }
}

pub broadcast proof fn lemma_set_wf(g: GridV, x: int, y: int, ch: char, st: Style)
    requires
        g.wf(),
    ensures
        (#[trigger] g.set(x, y, ch, st)).wf(),
        g.set(x, y, ch, st).cols == g.cols,
        g.set(x, y, ch, st).rows == g.rows,
{
    reveal(GridV::wf);
    reveal(GridV::set);
}

pub broadcast proof fn lemma_styled_wf(g: GridV, x: int, y: int, w: int, h: int, st: Style)
    requires
        g.wf(),
    ensures
        (#[trigger] g.styled(x, y, w, h, st)).wf(),
        g.styled(x, y, w, h, st).cols == g.cols,
        g.styled(x, y, w, h, st).rows == g.rows,
{
    reveal(GridV::wf);
    reveal(GridV::styled);
}

pub broadcast proof fn lemma_put_wf(g: GridV, x: int, y: int, s: Seq<char>, st: Style, max_x: int)
    requires
        g.wf(),
    ensures
        (#[trigger] g.put(x, y, s, st, max_x)).wf(),
        g.put(x, y, s, st, max_x).cols == g.cols,
        g.put(x, y, s, st, max_x).rows == g.rows,
{
    reveal(GridV::wf);
    reveal(GridV::put);
}

pub broadcast proof fn lemma_filled_wf(
    g: GridV,
    x: int,
    y: int,
    w: int,
    h: int,
    ch: char,
    st: Style,
)
    requires
        g.wf(),
    ensures
        (#[trigger] g.filled(x, y, w, h, ch, st)).wf(),
        g.filled(x, y, w, h, ch, st).cols == g.cols,
        g.filled(x, y, w, h, ch, st).rows == g.rows,
{
    reveal(GridV::wf);
    reveal(GridV::filled);
}

/// Past its clip nothing of a text is written.
pub proof fn lemma_put_nothing(g: GridV, x: int, y: int, s: Seq<char>, st: Style, max_x: int)
    requires
        x >= max_x,
    ensures
        g.put(x, y, s, st, max_x) == g,
{
    reveal(GridV::put);
    assert(g.put(x, y, s, st, max_x) =~~= g);
}

pub broadcast group group_grid {
    lemma_filled_wf,
    lemma_set_wf,
    lemma_styled_wf,
    lemma_put_wf,
}

impl Grid {
    /// A blank screen.
    pub fn new(cols: u16, rows: u16) -> (r: Grid)
        ensures
            r@ == GridV::fresh(cols as int, rows as int),
            r@.wf(),
    {
        let blank = Cell { ch: ' ', fg: TEXT, bg: BG, reversed: false };
        let mut cells: Vec<Vec<Cell>> = Vec::new();
        let mut y: u16 = 0;
        while y < rows
            invariant
                y <= rows,
                blank == Cell::blank(),
                cells@.len() == y,
                forall|k: int|
                    0 <= k < y ==> (#[trigger] cells@[k])@ =~= Seq::new(
                        cols as nat,
                        |x: int| Cell::blank(),
                    ),
            decreases rows - y,
        {
            let mut row: Vec<Cell> = Vec::new();
            let mut x: u16 = 0;
            while x < cols
                invariant
                    x <= cols,
                    blank == Cell::blank(),
                    row@ =~= Seq::new(x as nat, |k: int| Cell::blank()),
                decreases cols - x,
            {
                row.push(blank);
                x = x + 1;
            }
            cells.push(row);
            y = y + 1;
        }
        let r = Grid { cols, rows, cells };
        proof {
            assert(r@.cells =~= GridV::fresh(cols as int, rows as int).cells);
            reveal(GridV::wf);
        }
        r
    }

    pub fn cols(&self) -> (r: u16)
        ensures
            r == self@.cols,
    {
        self.cols
    }

    pub fn rows(&self) -> (r: u16)
        ensures
            r == self@.rows,
    {
        self.rows
    }

    /// The cell at a place on the screen.
    pub fn cell(&self, x: u16, y: u16) -> (r: Option<Cell>)
        requires
            self@.wf(),
        ensures
            r == (if x < self@.cols && y < self@.rows {
                Some(self@.at(x as int, y as int))
            } else {
                None
            }),
    {
        proof {
            reveal(GridV::wf);
            assert(forall|k: int| 0 <= k < self.cells@.len() ==> self@.cells[k] == (#[trigger] self.cells@[k])@);
        }
        if x < self.cols && y < self.rows {
            Some(self.cells[y as usize][x as usize])
        } else {
            None
        }
    }

    fn store(&mut self, x: usize, y: usize, c: Cell)
        requires
            old(self)@.wf(),
            x < old(self)@.cols,
            y < old(self)@.rows,
        ensures
            final(self)@ == (GridV {
                cells: old(self)@.cells.update(
                    y as int,
                    old(self)@.cells[y as int].update(x as int, c),
                ),
                ..old(self)@
            }),
            final(self)@.wf(),
    {
        proof {
            reveal(GridV::wf);
            assert(self@.cells[y as int] == self.cells@[y as int]@);
        }
        let row = &mut self.cells[y];
        row.set(x, c);
        assert(self@.cells =~= old(self)@.cells.update(
            y as int,
            old(self)@.cells[y as int].update(x as int, c),
        ));
    }
}

/// Set one cell's char and style; cells beyond the screen are left out.
pub fn set_cell(g: &mut Grid, x: u16, y: u16, ch: char, st: Style)
    requires
        old(g)@.wf(),
    ensures
        final(g)@ == old(g)@.set(x as int, y as int, ch, st),
        final(g)@.wf(),
{
    proof {
        reveal(GridV::set);
    }
    if let Some(c) = g.cell(x, y) {
        let new = Cell { ch, ..c };
        g.store(x as usize, y as usize, new.restyle(st));
    }
}

/// Restyle the cells of a rectangle, as far as it is on the screen.
pub fn set_style(g: &mut Grid, x0: u16, y0: u16, w: u16, h: u16, st: Style)
    requires
        old(g)@.wf(),
    ensures
        final(g)@ == old(g)@.styled(x0 as int, y0 as int, w as int, h as int, st),
        final(g)@.wf(),
{
    let ghost g0 = g@;
    proof {
        reveal(GridV::styled);
        reveal(GridV::wf);
        assert(g@ =~~= g0.styled(x0 as int, y0 as int, w as int, 0, st));
    }
    let cols: u16 = g.cols();
    let rows: u16 = g.rows();
    let bottom: u16 = if y0 < rows && h < rows - y0 {
        y0 + h
    } else {
        rows
    };
    let right: u16 = if x0 < cols && w < cols - x0 {
        x0 + w
    } else {
        cols
    };
    let mut y: u16 = y0;
    while y < bottom
        invariant
            g0.wf(),
            g@.wf(),
            cols == g0.cols,
            rows == g0.rows,
            y0 <= y,
            y <= bottom || y == y0,
            bottom <= rows,
            bottom == rows ==> y0 >= rows || y0 + h >= rows,
            bottom < rows ==> bottom == y0 + h,
            right <= cols,
            right == cols ==> x0 >= cols || x0 + w >= cols,
            right < cols ==> right == x0 + w,
            g@ == g0.styled(x0 as int, y0 as int, w as int, y - y0, st),
        decreases bottom - y,
    {
        let ghost g1 = g@;
        let mut x: u16 = x0;
        proof {
            reveal(GridV::styled);
            reveal(GridV::wf);
            assert(g@ =~~= g1.styled(x0 as int, y as int, 0, 1, st));
        }
        while x < right
            invariant
                g0.wf(),
                g1.wf(),
                g@.wf(),
                cols == g1.cols,
                rows == g1.rows,
                y < bottom <= rows,
                x0 <= x,
                x <= right || x == x0,
                right <= cols,
                g@ == g1.styled(x0 as int, y as int, x - x0, 1, st),
            decreases right - x,
        {
            proof {
                reveal(GridV::styled);
                reveal(GridV::wf);
            }
            if let Some(c) = g.cell(x, y) {
                g.store(x as usize, y as usize, c.restyle(st));
            }
            assert(g@ =~~= g1.styled(x0 as int, y as int, x + 1 - x0, 1, st));
            x = x + 1;
        }
        proof {
            reveal(GridV::styled);
            reveal(GridV::wf);
            assert(g@ =~~= g1.styled(x0 as int, y as int, w as int, 1, st));
            assert(g@ =~~= g0.styled(x0 as int, y0 as int, w as int, y + 1 - y0, st));
        }
        y = y + 1;
    }
    proof {
        reveal(GridV::styled);
        reveal(GridV::wf);
        assert(g@ =~~= g0.styled(x0 as int, y0 as int, w as int, h as int, st));
    }
}

/// Overwrite the cells of a rectangle, as far as it is on the screen.
pub fn fill(g: &mut Grid, x0: u16, y0: u16, w: u16, h: u16, ch: char, st: Style)
    requires
        old(g)@.wf(),
    ensures
        final(g)@ == old(g)@.filled(x0 as int, y0 as int, w as int, h as int, ch, st),
        final(g)@.wf(),
{
    let ghost g0 = g@;
    proof {
        reveal(GridV::filled);
        reveal(GridV::wf);
        assert(g@ =~~= g0.filled(x0 as int, y0 as int, w as int, 0, ch, st));
    }
    let mut dy: u16 = 0;
    while dy < h && dy <= 65535 - y0
        invariant
            g0.wf(),
            g@.wf(),
            dy <= h,
            g@ == g0.filled(x0 as int, y0 as int, w as int, dy as int, ch, st),
        ensures
            dy <= h,
            dy == h || y0 + dy > 65535,
            g@.wf(),
            g@ == g0.filled(x0 as int, y0 as int, w as int, dy as int, ch, st),
        decreases h - dy,
    {
        let y: u16 = y0 + dy;
        let ghost g1 = g@;
        let mut dx: u16 = 0;
        proof {
            reveal(GridV::filled);
            reveal(GridV::wf);
            assert(g@ =~~= g1.filled(x0 as int, y as int, 0, 1, ch, st));
        }
        while dx < w && dx <= 65535 - x0
            invariant
                g1.wf(),
                g@.wf(),
                dx <= w,
                g@ == g1.filled(x0 as int, y as int, dx as int, 1, ch, st),
            ensures
                dx <= w,
                dx == w || x0 + dx > 65535,
                g@.wf(),
                g@ == g1.filled(x0 as int, y as int, dx as int, 1, ch, st),
            decreases w - dx,
        {
            proof {
                reveal(GridV::filled);
                reveal(GridV::set);
                reveal(GridV::wf);
            }
            set_cell(g, x0 + dx, y, ch, st);
            assert(g@ =~~= g1.filled(x0 as int, y as int, dx + 1, 1, ch, st));
            dx = dx + 1;
        }
        proof {
            reveal(GridV::filled);
            reveal(GridV::wf);
            assert(g@ =~~= g0.filled(x0 as int, y0 as int, w as int, dy + 1, ch, st));
        }
        dy = dy + 1;
    }
    proof {
        reveal(GridV::filled);
        reveal(GridV::wf);
        assert(g@ =~~= g0.filled(x0 as int, y0 as int, w as int, h as int, ch, st));
    }
}

/// Write `s` one char per cell starting at `x`, clipped at `max_x`; returns the next x.
pub fn put_str(g: &mut Grid, x: u16, y: u16, s: &str, st: Style, max_x: u16) -> (r: u16)
    requires
        old(g)@.wf(),
    ensures
        final(g)@ == old(g)@.put(x as int, y as int, s@, st, max_x as int),
        final(g)@.wf(),
        r == put_end(x as int, s@, max_x as int),
{
    let ghost g0 = g@;
    let chars = to_chars(s);
    let mut at: u16 = x;
    let mut i: usize = 0;
    proof {
        reveal(GridV::put);
        assert(g@ =~~= g0.put(x as int, y as int, s@.take(0), st, max_x as int));
    }
    while i < chars.len() && at < max_x
        invariant
            g0.wf(),
            g@.wf(),
            chars@ == s@,
            i <= chars@.len(),
            at == x + i,
            x < max_x ==> at <= max_x,
            i > 0 ==> x < max_x,
            g@ == g0.put(x as int, y as int, s@.take(i as int), st, max_x as int),
        decreases chars@.len() - i,
    {
        set_cell(g, at, y, chars[i], st);
        proof {
            reveal(GridV::put);
            reveal(GridV::set);
            reveal(GridV::wf);
            assert(g@ =~~= g0.put(x as int, y as int, s@.take(i + 1), st, max_x as int));
        }
        at = at + 1;
        i = i + 1;
    }
    proof {
        reveal(GridV::put);
        assert(g@ =~~= g0.put(x as int, y as int, s@, st, max_x as int));
    }
    at
}

} // verus!
