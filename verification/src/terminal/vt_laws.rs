//! Laws of the screen: what each sequence does to the cell at each column and row.

use vstd::prelude::*;

use crate::color::Color;
use crate::terminal::vt::{
    flattened, law_runs, lemma_down, lemma_row, lemma_up, runs_text, shown, Cell, CellStyle, Pen,
    ScreenV, VtEventV,
};

verus! {

/// The cell at a column and a row.
pub open spec fn cell_at(s: ScreenV, x: int, y: int) -> Cell {
    s.cells[y * s.cols + x]
}

pub open spec fn on_screen(s: ScreenV, x: int, y: int) -> bool {
    0 <= x < s.cols && 0 <= y < s.rows
}

/// An erased cell: a space in the pen's background.
pub open spec fn erased(s: ScreenV) -> Cell {
    Cell { ch: ' ', fg: Color::Reset, bg: s.pen.bg, bold: false, reverse: false }
}

/// The first number of a sequence; 0 when there is none.
pub open spec fn first_of(params: Seq<Seq<u16>>) -> int {
    if params.len() > 0 && params[0].len() > 0 {
        params[0][0] as int
    } else {
        0
    }
}

/// The second number of a sequence; 0 when there is none.
pub open spec fn second_of(params: Seq<Seq<u16>>) -> int {
    if params.len() > 1 && params[1].len() > 0 {
        params[1][0] as int
    } else {
        0
    }
}

/// A count: none given is one.
pub open spec fn count_of(n: int) -> int {
    if n == 0 {
        1
    } else {
        n
    }
}

pub open spec fn csi(params: Seq<Seq<u16>>, private: bool, action: char) -> VtEventV {
    VtEventV::Csi { params, private, action }
}

/// Nothing but cells differs.
pub open spec fn only_cells(s: ScreenV, t: ScreenV) -> bool {
    t == (ScreenV { cells: t.cells, ..s }) && t.cells.len() == s.cells.len()
}

/// Nothing but the cursor's place differs.
pub open spec fn only_cursor(s: ScreenV, t: ScreenV) -> bool {
    t == (ScreenV { cx: t.cx, cy: t.cy, ..s })
}

proof fn lemma_cell(s: ScreenV, x: int, y: int)
    requires
        s.wf(),
        on_screen(s, x, y),
    ensures
        0 <= y * s.cols + x < s.cells.len(),
{
    lemma_row(s.cols, s.rows, y);
}

/// Cells lie in reading order.
proof fn lemma_order(s: ScreenV, x: int, y: int, u: int, v: int)
    requires
        s.wf(),
        0 <= x <= s.cols,
        0 <= u < s.cols,
    ensures
        y < v ==> y * s.cols + x <= v * s.cols + u,
        y < v && x < s.cols ==> y * s.cols + x < v * s.cols + u,
        y > v ==> y * s.cols + x > v * s.cols + u,
        y < v && y * s.cols + x == v * s.cols + u ==> x == s.cols && v == y + 1 && u == 0,
        v == y + 1 && x == s.cols ==> y * s.cols + x == v * s.cols,
{
    let c = s.cols;
    if y < v {
        assert(v * c >= (y + 1) * c && (y + 1) * c == y * c + c) by (nonlinear_arith)
            requires
                y < v,
                c >= 1,
        ;
        if v > y + 1 {
            assert(v * c >= (y + 2) * c && (y + 2) * c == y * c + c + c) by (nonlinear_arith)
                requires
                    v > y + 1,
                    c >= 1,
            ;
        } else {
            assert(v * c == y * c + c);
        }
    } else if y > v {
        assert(y * c >= (v + 1) * c && (v + 1) * c == v * c + c) by (nonlinear_arith)
            requires
                y > v,
                c >= 1,
        ;
    }
}

/// Erasing in the row: 2 erases the whole row of the cursor, 1 its part up to the cursor, and
/// anything else its part from the cursor on. No other row and nothing but cells changes.
pub proof fn law_erase_row(s: ScreenV, params: Seq<Seq<u16>>, private: bool)
    requires
        s.wf(),
    ensures
        ({
            let t = s.after(csi(params, private, 'K'));
            let mode = first_of(params);
            &&& only_cells(s, t)
            &&& forall|x: int, y: int|
                on_screen(s, x, y) ==> #[trigger] cell_at(t, x, y) == if y == s.cy && (mode == 2
                    || (mode == 1 && x <= s.cx) || (mode != 1 && x >= s.cx)) {
                    erased(s)
                } else {
                    cell_at(s, x, y)
                }
        }),
{
    let t = s.after(csi(params, private, 'K'));
    assert forall|x: int, y: int| on_screen(s, x, y) implies #[trigger] cell_at(t, x, y) == if y
        == s.cy && (first_of(params) == 2 || (first_of(params) == 1 && x <= s.cx) || (first_of(
        params,
    ) != 1 && x >= s.cx)) {
        erased(s)
    } else {
        cell_at(s, x, y)
    } by {
        lemma_cell(s, x, y);
        lemma_order(s, 0, s.cy, x, y);
        lemma_order(s, s.cols, s.cy, x, y);
    }
}

/// Erasing in the display: 2 and 3 erase every cell, 1 those up to the cursor in reading order
/// (from past the end of a row, that takes in the first cell of the next), and anything else
/// those from the cursor on.
pub proof fn law_erase_display(s: ScreenV, params: Seq<Seq<u16>>, private: bool)
    requires
        s.wf(),
    ensures
        ({
            let t = s.after(csi(params, private, 'J'));
            let mode = first_of(params);
            &&& only_cells(s, t)
            &&& forall|x: int, y: int|
                on_screen(s, x, y) ==> #[trigger] cell_at(t, x, y) == if mode == 2 || mode == 3 || (
                mode == 1 && (y < s.cy || (y == s.cy && x <= s.cx) || (s.cx == s.cols && y == s.cy
                    + 1 && x == 0))) || (mode != 1 && (y > s.cy || (y == s.cy && x >= s.cx))) {
                    erased(s)
                } else {
                    cell_at(s, x, y)
                }
        }),
{
    let t = s.after(csi(params, private, 'J'));
    let mode = first_of(params);
    assert forall|x: int, y: int| on_screen(s, x, y) implies #[trigger] cell_at(t, x, y) == if mode
        == 2 || mode == 3 || (mode == 1 && (y < s.cy || (y == s.cy && x <= s.cx) || (s.cx == s.cols
        && y == s.cy + 1 && x == 0))) || (mode != 1 && (y > s.cy || (y == s.cy && x >= s.cx))) {
        erased(s)
    } else {
        cell_at(s, x, y)
    } by {
        lemma_cell(s, x, y);
        lemma_order(s, s.cx, s.cy, x, y);
    }
}

/// Deleting characters draws the rest of the cursor's row to the left, blanks coming in behind.
pub proof fn law_delete_chars(s: ScreenV, params: Seq<Seq<u16>>, private: bool)
    requires
        s.wf(),
    ensures
        ({
            let t = s.after(csi(params, private, 'P'));
            let n = count_of(first_of(params));
            &&& only_cells(s, t)
            &&& forall|x: int, y: int|
                on_screen(s, x, y) ==> #[trigger] cell_at(t, x, y) == if y != s.cy || x < s.cx {
                    cell_at(s, x, y)
                } else if x + n < s.cols {
                    cell_at(s, x + n, y)
                } else {
                    erased(s)
                }
        }),
{
    let t = s.after(csi(params, private, 'P'));
    let n = count_of(first_of(params));
    assert forall|x: int, y: int| on_screen(s, x, y) implies #[trigger] cell_at(t, x, y) == if y
        != s.cy || x < s.cx {
        cell_at(s, x, y)
    } else if x + n < s.cols {
        cell_at(s, x + n, y)
    } else {
        erased(s)
    } by {
        lemma_cell(s, x, y);
        lemma_order(s, 0, s.cy, x, y);
        lemma_order(s, s.cols, s.cy, x, y);
    }
}

/// Inserting characters pushes the rest of the cursor's row to the right, blanks coming in at
/// the cursor.
pub proof fn law_insert_chars(s: ScreenV, params: Seq<Seq<u16>>, private: bool)
    requires
        s.wf(),
    ensures
        ({
            let t = s.after(csi(params, private, '@'));
            let n = count_of(first_of(params));
            &&& only_cells(s, t)
            &&& forall|x: int, y: int|
                on_screen(s, x, y) ==> #[trigger] cell_at(t, x, y) == if y != s.cy || x < s.cx {
                    cell_at(s, x, y)
                } else if x - n >= s.cx {
                    cell_at(s, x - n, y)
                } else {
                    erased(s)
                }
        }),
{
    let t = s.after(csi(params, private, '@'));
    let n = count_of(first_of(params));
    assert forall|x: int, y: int| on_screen(s, x, y) implies #[trigger] cell_at(t, x, y) == if y
        != s.cy || x < s.cx {
        cell_at(s, x, y)
    } else if x - n >= s.cx {
        cell_at(s, x - n, y)
    } else {
        erased(s)
    } by {
        lemma_cell(s, x, y);
        lemma_order(s, 0, s.cy, x, y);
        lemma_order(s, s.cols, s.cy, x, y);
    }
}

/// Rows `[top, bot]` drawn up by `n`, blank rows coming in at the bottom.
pub open spec fn rows_up(s: ScreenV, t: ScreenV, top: int, bot: int, n: int) -> bool {
    forall|x: int, y: int|
        on_screen(s, x, y) ==> #[trigger] cell_at(t, x, y) == if y < top || y > bot {
            cell_at(s, x, y)
        } else if y + n <= bot {
            cell_at(s, x, y + n)
        } else {
            erased(s)
        }
}

/// Rows `[top, bot]` pushed down by `n`, blank rows coming in at the top.
pub open spec fn rows_down(s: ScreenV, t: ScreenV, top: int, bot: int, n: int) -> bool {
    forall|x: int, y: int|
        on_screen(s, x, y) ==> #[trigger] cell_at(t, x, y) == if y < top || y > bot {
            cell_at(s, x, y)
        } else if y - n >= top {
            cell_at(s, x, y - n)
        } else {
            erased(s)
        }
}

proof fn lemma_rows_up(s: ScreenV, top: int, bot: int, n: nat)
    requires
        s.wf(),
        0 <= top <= bot < s.rows,
    ensures
        only_cells(s, s.up(top, bot, n)),
        rows_up(s, s.up(top, bot, n), top, bot, n as int),
{
    let t = s.up(top, bot, n);
    let c = s.cols;
    lemma_cell(s, 0, 0);
    lemma_up(s, top, bot, n, 0);
    assert forall|x: int, y: int| on_screen(s, x, y) implies #[trigger] cell_at(t, x, y) == if y
        < top || y > bot {
        cell_at(s, x, y)
    } else if y + n <= bot {
        cell_at(s, x, y + n)
    } else {
        erased(s)
    } by {
        lemma_cell(s, x, y);
        lemma_up(s, top, bot, n, y * c + x);
        assert((y + n) * c == y * c + n * c) by (nonlinear_arith);
        lemma_order(s, 0, bot + 1, x, y + n);
        lemma_order(s, 0, bot + 1, x, y);
        lemma_order(s, 0, top, x, y);
    }
}

proof fn lemma_rows_down(s: ScreenV, top: int, bot: int, n: nat)
    requires
        s.wf(),
        0 <= top <= bot < s.rows,
    ensures
        only_cells(s, s.down(top, bot, n)),
        rows_down(s, s.down(top, bot, n), top, bot, n as int),
{
    let t = s.down(top, bot, n);
    let c = s.cols;
    lemma_cell(s, 0, 0);
    lemma_down(s, top, bot, n, 0);
    assert forall|x: int, y: int| on_screen(s, x, y) implies #[trigger] cell_at(t, x, y) == if y
        < top || y > bot {
        cell_at(s, x, y)
    } else if y - n >= top {
        cell_at(s, x, y - n)
    } else {
        erased(s)
    } by {
        lemma_cell(s, x, y);
        lemma_down(s, top, bot, n, y * c + x);
        assert((y - n) * c == y * c - n * c) by (nonlinear_arith);
        lemma_order(s, 0, top, x, y - n);
        lemma_order(s, 0, bot + 1, x, y);
        lemma_order(s, 0, top, x, y);
    }
}

/// Scrolling moves the rows of the region alone, up or down by the count.
pub proof fn law_scroll(s: ScreenV, params: Seq<Seq<u16>>, private: bool)
    requires
        s.wf(),
    ensures
        ({
            let t = s.after(csi(params, private, 'S'));
            only_cells(s, t) && rows_up(
                s,
                t,
                s.scroll_top,
                s.scroll_bot,
                count_of(first_of(params)),
            )
        }),
        ({
            let t = s.after(csi(params, private, 'T'));
            only_cells(s, t) && rows_down(
                s,
                t,
                s.scroll_top,
                s.scroll_bot,
                count_of(first_of(params)),
            )
        }),
{
    let n = count_of(first_of(params));
    lemma_rows_up(s, s.scroll_top, s.scroll_bot, n as nat);
    lemma_rows_down(s, s.scroll_top, s.scroll_bot, n as nat);
}

/// Inserting and deleting lines move the rows from the cursor to the end of the region, and do
/// nothing with the cursor outside of it.
pub proof fn law_insert_delete_lines(s: ScreenV, params: Seq<Seq<u16>>, private: bool)
    requires
        s.wf(),
    ensures
        ({
            let t = s.after(csi(params, private, 'L'));
            if s.scroll_top <= s.cy <= s.scroll_bot {
                only_cells(s, t) && rows_down(s, t, s.cy, s.scroll_bot, count_of(first_of(params)))
            } else {
                t == s
            }
        }),
        ({
            let t = s.after(csi(params, private, 'M'));
            if s.scroll_top <= s.cy <= s.scroll_bot {
                only_cells(s, t) && rows_up(s, t, s.cy, s.scroll_bot, count_of(first_of(params)))
            } else {
                t == s
            }
        }),
{
    let n = count_of(first_of(params));
    if s.scroll_top <= s.cy <= s.scroll_bot {
        lemma_rows_up(s, s.cy, s.scroll_bot, n as nat);
        lemma_rows_down(s, s.cy, s.scroll_bot, n as nat);
    }
}

/// A line feed goes one row down; at the end of the region it scrolls the region up by one row
/// instead, and on the last row below the region it does nothing.
pub proof fn law_line_feed(s: ScreenV, b: u8)
    requires
        s.wf(),
        b == 0x0a || b == 0x0b || b == 0x0c,
    ensures
        ({
            let t = s.after(VtEventV::Execute(b));
            &&& t == s.after(VtEventV::Esc(0x44))
            &&& if s.cy == s.scroll_bot {
                only_cells(s, t) && rows_up(s, t, s.scroll_top, s.scroll_bot, 1)
            } else {
                only_cursor(s, t) && t.cx == s.cx && (if s.cy == s.rows - 1 {
                    t.cy == s.cy
                } else {
                    t.cy == s.cy + 1
                })
            }
        }),
{
    lemma_rows_up(s, s.scroll_top, s.scroll_bot, 1);
}

/// A reverse index goes one row up; at the start of the region it scrolls the region down by one
/// row instead, and on the first row above the region it does nothing.
pub proof fn law_reverse_index(s: ScreenV)
    requires
        s.wf(),
    ensures
        ({
            let t = s.after(VtEventV::Esc(0x4d));
            if s.cy == s.scroll_top {
                only_cells(s, t) && rows_down(s, t, s.scroll_top, s.scroll_bot, 1)
            } else {
                only_cursor(s, t) && t.cx == s.cx && (if s.cy == 0 {
                    t.cy == s.cy
                } else {
                    t.cy == s.cy - 1
                })
            }
        }),
{
    lemma_rows_down(s, s.scroll_top, s.scroll_bot, 1);
}

/// A next line is a line feed and a carriage return.
pub proof fn law_next_line(s: ScreenV)
    ensures
        s.after(VtEventV::Esc(0x45)) == s.after(VtEventV::Execute(0x0a)).after(
            VtEventV::Execute(0x0d),
        ),
{
}

/// A carriage return goes to the first column, a backspace one column back (not past the
/// first), and a tab to the next column that is a multiple of eight, or else the last one.
pub proof fn law_columns(s: ScreenV)
    requires
        s.wf(),
    ensures
        ({
            let t = s.after(VtEventV::Execute(0x0d));
            only_cursor(s, t) && t.cx == 0 && t.cy == s.cy
        }),
        ({
            let t = s.after(VtEventV::Execute(0x08));
            only_cursor(s, t) && t.cy == s.cy && (t.cx == s.cx - 1 || s.cx == 0 && t.cx == 0)
        }),
        ({
            let t = s.after(VtEventV::Execute(0x09));
            &&& only_cursor(s, t) && t.cy == s.cy
            &&& exists|stop: int|
                s.cx < stop <= s.cx + 8 && #[trigger] (stop % 8) == 0 && t.cx == if stop < s.cols {
                    stop
                } else {
                    s.cols - 1
                }
        }),
{
    let stop = (s.cx / 8 + 1) * 8;
    assert(s.cx < stop <= s.cx + 8 && stop % 8 == 0);
}

/// A char goes into the cell at the cursor as the pen draws it, and the cursor one column on;
/// every other cell stays.
pub proof fn law_print(s: ScreenV, c: char)
    requires
        s.wf(),
        s.cx < s.cols,
    ensures
        ({
            let t = s.after(VtEventV::Print(c));
            &&& t == (ScreenV { cells: t.cells, cx: s.cx + 1, ..s })
            &&& t.cells.len() == s.cells.len()
            &&& forall|x: int, y: int|
                on_screen(s, x, y) ==> #[trigger] cell_at(t, x, y) == if x == s.cx && y == s.cy {
                    Cell {
                        ch: c,
                        fg: s.pen.fg,
                        bg: s.pen.bg,
                        bold: s.pen.bold,
                        reverse: s.pen.reverse,
                    }
                } else {
                    cell_at(s, x, y)
                }
        }),
{
    let t = s.after(VtEventV::Print(c));
    lemma_cell(s, s.cx, s.cy);
    assert forall|x: int, y: int| on_screen(s, x, y) implies #[trigger] cell_at(t, x, y) == if x
        == s.cx && y == s.cy {
        Cell { ch: c, fg: s.pen.fg, bg: s.pen.bg, bold: s.pen.bold, reverse: s.pen.reverse }
    } else {
        cell_at(s, x, y)
    } by {
        lemma_cell(s, x, y);
        lemma_order(s, s.cx, s.cy, x, y);
    }
}

/// Past the end of a row, a char is printed as after a carriage return and a line feed.
pub proof fn law_print_wraps(s: ScreenV, c: char)
    requires
        s.wf(),
        s.cx == s.cols,
    ensures
        s.after(VtEventV::Print(c)) == s.after(VtEventV::Execute(0x0d)).after(
            VtEventV::Execute(0x0a),
        ).after(VtEventV::Print(c)),
{
    let u = s.moved(0, s.cy).line_fed();
    reveal_with_fuel(ScreenV::up, 2);
    assert(u.cx == 0);
}

/// The cursor keys go as far as the count, and stop at the edge of the screen.
pub proof fn law_cursor_steps(s: ScreenV, params: Seq<Seq<u16>>, private: bool)
    requires
        s.wf(),
    ensures
        ({
            let n = count_of(first_of(params));
            &&& ({
                let t = s.after(csi(params, private, 'A'));
                only_cursor(s, t) && t.cx == s.cx && t.cy == if n <= s.cy {
                    s.cy - n
                } else {
                    0
                }
            })
            &&& ({
                let t = s.after(csi(params, private, 'B'));
                only_cursor(s, t) && t.cx == s.cx && t.cy == if s.cy + n < s.rows {
                    s.cy + n
                } else {
                    s.rows - 1
                }
            })
            &&& ({
                let t = s.after(csi(params, private, 'C'));
                only_cursor(s, t) && t.cy == s.cy && t.cx == if s.cx + n < s.cols {
                    s.cx + n
                } else {
                    s.cols - 1
                }
            })
            &&& ({
                let t = s.after(csi(params, private, 'D'));
                only_cursor(s, t) && t.cy == s.cy && t.cx == if n <= s.cx {
                    s.cx - n
                } else {
                    0
                }
            })
        }),
        s.after(csi(params, private, 'e')) == s.after(csi(params, private, 'B')),
        s.after(csi(params, private, 'a')) == s.after(csi(params, private, 'C')),
        s.after(csi(params, private, 'E')) == s.after(csi(params, private, 'B')).after(
            VtEventV::Execute(0x0d),
        ),
        s.after(csi(params, private, 'F')) == s.after(csi(params, private, 'A')).after(
            VtEventV::Execute(0x0d),
        ),
{
}

/// Going up undoes going down as far, and back undoes going on, where the edge was not met.
pub proof fn law_steps_return(s: ScreenV, params: Seq<Seq<u16>>, private: bool)
    requires
        s.wf(),
    ensures
        s.cy + count_of(first_of(params)) < s.rows ==> s.after(csi(params, private, 'B')).after(
            csi(params, private, 'A'),
        ) == s,
        s.cx + count_of(first_of(params)) < s.cols ==> s.after(csi(params, private, 'C')).after(
            csi(params, private, 'D'),
        ) == s,
{
}

/// Places are counted from one, row first; one beyond an edge is on the edge.
pub proof fn law_cursor_goes(s: ScreenV, params: Seq<Seq<u16>>, private: bool)
    requires
        s.wf(),
    ensures
        ({
            let n = count_of(first_of(params));
            let m = count_of(second_of(params));
            let t = s.after(csi(params, private, 'H'));
            &&& only_cursor(s, t)
            &&& t.cy + 1 == if n <= s.rows {
                n
            } else {
                s.rows
            }
            &&& t.cx + 1 == if m <= s.cols {
                m
            } else {
                s.cols
            }
            &&& s.after(csi(params, private, 'f')) == t
            &&& ({
                let u = s.after(csi(params, private, 'd'));
                only_cursor(s, u) && u.cx == s.cx && u.cy == t.cy
            })
            &&& ({
                let u = s.after(csi(params, private, 'G'));
                only_cursor(s, u) && u.cy == s.cy && u.cx + 1 == if n <= s.cols {
                    n
                } else {
                    s.cols
                }
            })
            &&& s.after(csi(params, private, '`')) == s.after(csi(params, private, 'G'))
        }),
{
}

/// A scroll region is taken when it has two rows at least and lies on the screen, with the
/// cursor at its start; no end given is the last row. Another changes nothing.
pub proof fn law_region(s: ScreenV, params: Seq<Seq<u16>>, private: bool)
    requires
        s.wf(),
    ensures
        ({
            let t = s.after(csi(params, private, 'r'));
            let top = count_of(first_of(params));
            let bot = if second_of(params) == 0 {
                s.rows
            } else {
                second_of(params)
            };
            if 1 <= top < bot <= s.rows {
                t == (ScreenV {
                    scroll_top: top - 1,
                    scroll_bot: bot - 1,
                    cx: 0,
                    cy: top - 1,
                    ..s
                })
            } else {
                t == s
            }
        }),
{
}

/// Mode 25 shows and hides the cursor; a mode that is not private, or unknown, does nothing.
pub proof fn law_modes(s: ScreenV, params: Seq<Seq<u16>>)
    ensures
        first_of(params) == 25 ==> s.after(csi(params, true, 'h')) == (ScreenV {
            cursor_visible: true,
            ..s
        }) && s.after(csi(params, true, 'l')) == (ScreenV { cursor_visible: false, ..s }),
        s.after(csi(params, false, 'h')) == s,
        s.after(csi(params, false, 'l')) == s,
        first_of(params) != 25 && first_of(params) != 47 && first_of(params) != 1047 && first_of(
            params,
        ) != 1049 ==> s.after(csi(params, true, 'h')) == s && s.after(csi(params, true, 'l')) == s,
{
}

/// The alternate screen starts blank with the cursor at home; leaving it brings back the cells
/// and the cursor there were before, whatever was printed meanwhile.
pub proof fn law_alternate(s: ScreenV, params: Seq<Seq<u16>>, u: ScreenV)
    requires
        s.wf(),
        s.alt_backup is None,
        first_of(params) == 47 || first_of(params) == 1047 || first_of(params) == 1049,
        u.wf(),
        u.cols == s.cols,
        u.rows == s.rows,
        u.alt_backup == s.after(csi(params, true, 'h')).alt_backup,
    ensures
        ({
            let t = s.after(csi(params, true, 'h'));
            &&& t.cx == 0 && t.cy == 0 && t.cols == s.cols && t.rows == s.rows
            &&& t.cells.len() == s.cells.len()
            &&& forall|i: int| 0 <= i < t.cells.len() ==> #[trigger] t.cells[i] == erased(s)
            &&& t.after(csi(params, true, 'h')) == t
        }),
        ({
            let t = u.after(csi(params, true, 'l'));
            &&& t.cells == s.cells
            &&& t.cy == s.cy
            &&& t.cx == if s.cx < s.cols {
                s.cx
            } else {
                s.cols - 1
            }
            &&& t.alt_backup is None
        }),
        s.after(csi(params, true, 'l')) == s,
{
}

/// A saved cursor is where it comes back to, by either pair of sequences; with none saved it
/// stays.
pub proof fn law_save_restore(s: ScreenV, u: ScreenV, params: Seq<Seq<u16>>, private: bool)
    requires
        s.wf(),
        u.wf(),
        u.cols == s.cols,
        u.rows == s.rows,
        u.saved == s.after(VtEventV::Esc(0x37)).saved,
    ensures
        s.after(csi(params, private, 's')) == s.after(VtEventV::Esc(0x37)),
        u.after(csi(params, private, 'u')) == u.after(VtEventV::Esc(0x38)),
        s.after(VtEventV::Esc(0x37)) == (ScreenV {
            saved: s.after(VtEventV::Esc(0x37)).saved,
            ..s
        }),
        ({
            let t = u.after(VtEventV::Esc(0x38));
            &&& only_cursor(u, t)
            &&& t.cy == s.cy
            &&& t.cx == if s.cx < s.cols {
                s.cx
            } else {
                s.cols - 1
            }
        }),
        s.saved is None ==> s.after(VtEventV::Esc(0x38)) == s,
{
}

/// A reset blanks the screen in the plain background, with a plain pen and the cursor at home.
pub proof fn law_reset(s: ScreenV)
    requires
        s.wf(),
    ensures
        ({
            let t = s.after(VtEventV::Esc(0x63));
            let plain = Pen { fg: Color::Reset, bg: Color::Reset, bold: false, reverse: false };
            &&& t == (ScreenV { cells: t.cells, pen: plain, cx: 0, cy: 0, ..s })
            &&& t.cells.len() == s.cells.len()
            &&& forall|i: int|
                0 <= i < t.cells.len() ==> #[trigger] t.cells[i] == (Cell {
                    ch: ' ',
                    fg: Color::Reset,
                    bg: Color::Reset,
                    bold: false,
                    reverse: false,
                })
        }),
{
}

/// Other escape bytes and control bytes change nothing.
pub proof fn law_others_do_nothing(s: ScreenV, b: u8)
    ensures
        !seq![0x44u8, 0x45, 0x4d, 0x37, 0x38, 0x63].contains(b) ==> s.after(VtEventV::Esc(b)) == s,
        !seq![0x08u8, 0x09, 0x0a, 0x0b, 0x0c, 0x0d].contains(b) ==> s.after(VtEventV::Execute(b))
            == s,
{
    let e = seq![0x44u8, 0x45, 0x4d, 0x37, 0x38, 0x63];
    assert(e[0] == 0x44 && e[1] == 0x45 && e[2] == 0x4d && e[3] == 0x37 && e[4] == 0x38 && e[5]
        == 0x63);
    let c = seq![0x08u8, 0x09, 0x0a, 0x0b, 0x0c, 0x0d];
    assert(c[0] == 0x08 && c[1] == 0x09 && c[2] == 0x0a && c[3] == 0x0b && c[4] == 0x0c && c[5]
        == 0x0d);
}

/// The sixteen colours, in the order of their numbers.
pub open spec fn sixteen() -> Seq<Color> {
    seq![
        Color::Black,
        Color::Red,
        Color::Green,
        Color::Yellow,
        Color::Blue,
        Color::Magenta,
        Color::Cyan,
        Color::Gray,
        Color::DarkGray,
        Color::LightRed,
        Color::LightGreen,
        Color::LightYellow,
        Color::LightBlue,
        Color::LightMagenta,
        Color::LightCyan,
        Color::White,
    ]
}

/// One style number changes one thing of the pen: weight, reversal, foreground or background; 0
/// clears all of them, and a number that is none of these changes nothing.
pub proof fn law_style_number(p: Pen, n: u16)
    ensures
        ({
            let q = p.graphics(seq![n]);
            &&& n == 0 ==> q == (Pen {
                fg: Color::Reset,
                bg: Color::Reset,
                bold: false,
                reverse: false,
            })
            &&& n == 1 || n == 22 ==> q == (Pen { bold: n == 1, ..p })
            &&& n == 7 || n == 27 ==> q == (Pen { reverse: n == 7, ..p })
            &&& 30 <= n <= 37 ==> q == (Pen { fg: sixteen()[n - 30], ..p })
            &&& 90 <= n <= 97 ==> q == (Pen { fg: sixteen()[n - 82], ..p })
            &&& 40 <= n <= 47 ==> q == (Pen { bg: sixteen()[n - 40], ..p })
            &&& 100 <= n <= 107 ==> q == (Pen { bg: sixteen()[n - 92], ..p })
            &&& n == 39 ==> q == (Pen { fg: Color::Reset, ..p })
            &&& n == 49 ==> q == (Pen { bg: Color::Reset, ..p })
            &&& (1 < n < 7 || 7 < n < 22 || 22 < n < 27 || 27 < n < 30 || 49 < n < 90 || n > 107)
                ==> q == p
        }),
        p.graphics(Seq::empty()) == p.graphics(seq![0]),
{
    let s = seq![n];
    reveal_with_fuel(Pen::styled, 2);
    assert(s[0] == n && s.len() == 1);
    let z = seq![0u16];
    assert(z[0] == 0 && z.len() == 1);
}

proof fn lemma_styled_shift(p: Pen, a: Seq<u16>, b: Seq<u16>, i: int, j: int)
    requires
        0 <= i <= a.len(),
        0 <= j <= b.len(),
        a.skip(i) == b.skip(j),
    ensures
        p.styled(a, i) == p.styled(b, j),
    decreases a.len() - i,
{
    assert(a.len() - i == a.skip(i).len() && b.len() - j == b.skip(j).len());
    if i < a.len() {
        assert forall|k: int| 0 <= k < a.len() - i implies #[trigger] a[i + k] == b[j + k] by {
            assert(a.skip(i)[k] == a[i + k] && b.skip(j)[k] == b[j + k]);
        }
        assert(a[i + 0] == b[j + 0]);
        assert(a.len() > i + 1 ==> a[i + 1] == b[j + 1]);
        assert(a.len() > i + 2 ==> a[i + 2] == b[j + 2]);
        assert(a.len() > i + 3 ==> a[i + 3] == b[j + 3]);
        assert(a.len() > i + 4 ==> a[i + 4] == b[j + 4]);
        let (q, k) = p.stroked(a, i);
        assert(p.stroked(b, j) == (q, k));
        if 0 <= k && i + 1 + k <= a.len() {
            assert(a.skip(i + 1 + k) =~= b.skip(j + 1 + k)) by {
                assert(a.skip(i).skip(1 + k) =~= a.skip(i + 1 + k));
                assert(b.skip(j).skip(1 + k) =~= b.skip(j + 1 + k));
            }
            lemma_styled_shift(q, a, b, i + 1 + k, j + 1 + k);
        }
    }
}

/// Style numbers act one after the other: those behind the first act on the pen that the first
/// leaves.
pub proof fn law_styles_in_turn(p: Pen, n: u16, rest: Seq<u16>)
    requires
        n != 38,
        n != 48,
        rest.len() > 0,
    ensures
        p.graphics(seq![n] + rest) == p.graphics(seq![n]).graphics(rest),
{
    let all = seq![n] + rest;
    let one = seq![n];
    reveal_with_fuel(Pen::styled, 2);
    assert(all[0] == n && one[0] == n);
    assert(all.skip(1) =~= rest.skip(0));
    assert(p.stroked(all, 0) == p.stroked(one, 0));
    lemma_styled_shift(p.stroked(all, 0).0, all, rest, 1, 0);
}

/// 38 and 48 choose the foreground and the background: with 5 a colour by its number, with 2 one
/// by its parts, each taken as a byte. What stands behind acts on the pen that this leaves.
pub proof fn law_style_extended(p: Pen, n: u16, a: u16, b: u16, c: u16, rest: Seq<u16>)
    requires
        n == 38 || n == 48,
        a < 256,
        b < 256,
        c < 256,
        rest.len() > 0,
    ensures
        p.graphics(seq![n, 5, a]) == if n == 38 {
            Pen { fg: Color::Indexed(a as u8), ..p }
        } else {
            Pen { bg: Color::Indexed(a as u8), ..p }
        },
        p.graphics(seq![n, 2, a, b, c]) == if n == 38 {
            Pen { fg: Color::Rgb(a as u8, b as u8, c as u8), ..p }
        } else {
            Pen { bg: Color::Rgb(a as u8, b as u8, c as u8), ..p }
        },
        p.graphics(seq![n, 5, a] + rest) == p.graphics(seq![n, 5, a]).graphics(rest),
        p.graphics(seq![n, 2, a, b, c] + rest) == p.graphics(seq![n, 2, a, b, c]).graphics(rest),
{
    reveal_with_fuel(Pen::styled, 2);
    let s = seq![n, 5, a];
    let t = seq![n, 2, a, b, c];
    assert(s[0] == n && s[1] == 5 && s[2] == a && s.len() == 3);
    assert(t[0] == n && t[1] == 2 && t[2] == a && t[3] == b && t[4] == c && t.len() == 5);
    let u = s + rest;
    let v = t + rest;
    assert(u[0] == n && u[1] == 5 && u[2] == a);
    assert(v[0] == n && v[1] == 2 && v[2] == a && v[3] == b && v[4] == c);
    assert(u.skip(3) =~= rest.skip(0));
    assert(v.skip(5) =~= rest.skip(0));
    lemma_styled_shift(p.stroked(u, 0).0, u, rest, 3, 0);
    lemma_styled_shift(p.stroked(v, 0).0, v, rest, 5, 0);
}

/// A style sequence of single numbers changes the pen by them, and nothing else.
pub proof fn law_style_sequence(s: ScreenV, ns: Seq<u16>, private: bool)
    ensures
        s.after(csi(Seq::new(ns.len(), |i: int| seq![ns[i]]), private, 'm')) == (ScreenV {
            pen: s.pen.graphics(ns),
            ..s
        }),
{
    let params = Seq::new(ns.len(), |i: int| seq![ns[i]]);
    lemma_flat(ns, params, 0);
    assert(ns.skip(0) =~= ns);
}

proof fn lemma_flat(ns: Seq<u16>, params: Seq<Seq<u16>>, i: int)
    requires
        params == Seq::new(ns.len(), |i: int| seq![ns[i]]),
        0 <= i <= ns.len(),
    ensures
        flattened(params, i) == ns.skip(i),
    decreases ns.len() - i,
{
    if i < ns.len() {
        lemma_flat(ns, params, i + 1);
        assert(seq![ns[i]] + ns.skip(i + 1) =~= ns.skip(i));
    } else {
        assert(ns.skip(i) =~= Seq::empty());
    }
}

/// On `t` the first `n` chars of a text stand from the cursor of `s` on, as its pen draws them,
/// with the cursor behind them; every other cell is that of `s`.
pub open spec fn text_stands(s: ScreenV, t: ScreenV, text: Seq<char>, n: int) -> bool {
    &&& t == (ScreenV { cells: t.cells, cx: s.cx + n, ..s })
    &&& t.cells.len() == s.cells.len()
    &&& forall|x: int, y: int|
        on_screen(s, x, y) ==> #[trigger] cell_at(t, x, y) == if y == s.cy && s.cx <= x < s.cx
            + n {
            Cell {
                ch: text[x - s.cx],
                fg: s.pen.fg,
                bg: s.pen.bg,
                bold: s.pen.bold,
                reverse: s.pen.reverse,
            }
        } else {
            cell_at(s, x, y)
        }
}

/// A text printed where it fits in the row stands there from the cursor on.
pub proof fn law_text_stands(s: ScreenV, evs: Seq<VtEventV>, text: Seq<char>, n: int)
    requires
        s.wf(),
        0 <= n <= text.len(),
        evs.len() == text.len(),
        forall|i: int| 0 <= i < text.len() ==> #[trigger] evs[i] == VtEventV::Print(text[i]),
        s.cx + n <= s.cols,
    ensures
        text_stands(s, shown(s, evs, n), text, n),
    decreases n,
{
    if n > 0 {
        law_text_stands(s, evs, text, n - 1);
        let u = shown(s, evs, n - 1);
        let t = u.after(evs[n - 1]);
        lemma_print_more(s, u, t, text, n);
    }
}

proof fn lemma_print_more(s: ScreenV, u: ScreenV, t: ScreenV, text: Seq<char>, n: int)
    requires
        s.wf(),
        1 <= n <= text.len(),
        s.cx + n <= s.cols,
        text_stands(s, u, text, n - 1),
        t == u.after(VtEventV::Print(text[n - 1])),
    ensures
        text_stands(s, t, text, n),
{
    law_print(u, text[n - 1]);
    assert forall|x: int, y: int| on_screen(s, x, y) implies #[trigger] cell_at(t, x, y) == if y
        == s.cy && s.cx <= x < s.cx + n {
        Cell {
            ch: text[x - s.cx],
            fg: s.pen.fg,
            bg: s.pen.bg,
            bold: s.pen.bold,
            reverse: s.pen.reverse,
        }
    } else {
        cell_at(s, x, y)
    } by {
        assert(on_screen(u, x, y));
    }
}

/// Every cell is drawn in its place with its char and its colours, the cursor's turned round
/// where it shows.
pub proof fn law_cells_drawn(s: ScreenV, show: bool, x: int, y: int)
    requires
        s.wf(),
        on_screen(s, x, y),
    ensures
        s.lines(show).len() == s.rows,
        runs_text(s.lines(show)[y]).len() == s.cols,
        runs_text(s.lines(show)[y])[x] == cell_at(s, x, y).ch,
        s.styled_row(y, show)[x].1 == (CellStyle {
            fg: cell_at(s, x, y).fg,
            bg: cell_at(s, x, y).bg,
            bold: cell_at(s, x, y).bold,
            reversed: cell_at(s, x, y).reverse != (show && x == s.cx && y == s.cy),
        }),
{
    law_runs(s.styled_row(y, show && s.cursor_visible));
}

/// A screen of another size keeps every cell that is on both, and is blank elsewhere; the cursor
/// stays where it can, and the whole screen scrolls.
pub proof fn law_resized_screen(s: ScreenV, cols: int, rows: int)
    requires
        s.wf(),
        1 <= cols,
        1 <= rows,
    ensures
        ({
            let t = s.resized(cols, rows);
            &&& t.cols == cols && t.rows == rows && t.cells.len() == cols * rows
            &&& t.cx == if s.cx < cols {
                s.cx
            } else {
                cols - 1
            }
            &&& t.cy == if s.cy < rows {
                s.cy
            } else {
                rows - 1
            }
            &&& t.scroll_top == 0 && t.scroll_bot == rows - 1
            &&& t.pen == s.pen && t.cursor_visible == s.cursor_visible && t.saved == s.saved
            &&& forall|x: int, y: int|
                on_screen(t, x, y) ==> #[trigger] cell_at(t, x, y) == if x < s.cols && y < s.rows {
                    cell_at(s, x, y)
                } else {
                    Cell {
                        ch: ' ',
                        fg: Color::Reset,
                        bg: Color::Reset,
                        bold: false,
                        reverse: false,
                    }
                }
        }),
{
    let t = s.resized(cols, rows);
    assert(cols * rows >= 0) by (nonlinear_arith)
        requires
            1 <= cols,
            1 <= rows,
    ;
    assert forall|x: int, y: int| on_screen(t, x, y) implies #[trigger] cell_at(t, x, y) == if x
        < s.cols && y < s.rows {
        cell_at(s, x, y)
    } else {
        Cell { ch: ' ', fg: Color::Reset, bg: Color::Reset, bold: false, reverse: false }
    } by {
        lemma_row(cols, rows, y);
        let i = y * cols + x;
        assert(i / cols == y && i % cols == x) by (nonlinear_arith)
            requires
                i == y * cols + x,
                0 <= x < cols,
                0 <= y,
        ;
    }
}

} // verus!
