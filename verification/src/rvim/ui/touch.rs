//! Tap targets: the touchbar under the text and the which-key panel.

use vstd::prelude::*;

use crate::rvim::buffer::{max, min};
use crate::rvim::keys::Key;
use crate::rvim::vim::hints::{hints_of, Hint};
use crate::text::{is_space, leading_space, lemma_space_prefix, to_chars, trim_start_of, whitespace};

verus! {

/// A tap on the touchbar resolves to one of these.
#[derive(Clone, Copy, Debug, PartialEq, Eq, Structural)]
pub enum TouchAction {
    Key(Key),
    /// Arm Ctrl for the next key.
    StickyCtrl,
    ToggleKeyboard,
}

/// A touchbar button: its label and what it does.
pub type Button = (Seq<char>, TouchAction);

/// The buttons on a screen of `cols` columns; a narrow one drops the arrows.
pub open spec fn buttons(cols: u16) -> Seq<Button> {
    let front = seq![
        ("esc"@, TouchAction::Key(Key::Esc)),
        ("ctrl"@, TouchAction::StickyCtrl),
        ("tab"@, TouchAction::Key(Key::Tab)),
        (":"@, TouchAction::Key(Key::Char(':'))),
        ("/"@, TouchAction::Key(Key::Char('/'))),
    ];
    let arrows = seq![
        ("←"@, TouchAction::Key(Key::Left)),
        ("↓"@, TouchAction::Key(Key::Down)),
        ("↑"@, TouchAction::Key(Key::Up)),
        ("→"@, TouchAction::Key(Key::Right)),
    ];
    let back = seq![("⌨"@, TouchAction::ToggleKeyboard)];
    if cols < 40 {
        front + back
    } else {
        front + arrows + back
    }
}

fn button_list(cols: u16) -> (r: Vec<(&'static str, TouchAction)>)
    ensures
        r@.len() == buttons(cols).len(),
        forall|i: int| 0 <= i < r@.len() ==> (#[trigger] r@[i]).0@ == buttons(cols)[i].0,
        forall|i: int| 0 <= i < r@.len() ==> (#[trigger] r@[i]).1 == buttons(cols)[i].1,
{
    if cols < 40 {
        vec![
            ("esc", TouchAction::Key(Key::Esc)),
            ("ctrl", TouchAction::StickyCtrl),
            ("tab", TouchAction::Key(Key::Tab)),
            (":", TouchAction::Key(Key::Char(':'))),
            ("/", TouchAction::Key(Key::Char('/'))),
            ("⌨", TouchAction::ToggleKeyboard),
        ]
    } else {
        vec![
            ("esc", TouchAction::Key(Key::Esc)),
            ("ctrl", TouchAction::StickyCtrl),
            ("tab", TouchAction::Key(Key::Tab)),
            (":", TouchAction::Key(Key::Char(':'))),
            ("/", TouchAction::Key(Key::Char('/'))),
            ("←", TouchAction::Key(Key::Left)),
            ("↓", TouchAction::Key(Key::Down)),
            ("↑", TouchAction::Key(Key::Up)),
            ("→", TouchAction::Key(Key::Right)),
            ("⌨", TouchAction::ToggleKeyboard),
        ]
    }
}

/// A drawn button: its first column, the column after its last, its label, its action.
pub type TouchCell = (u16, u16, &'static str, TouchAction);

/// Model of a drawn button.
pub type TouchV = (int, int, Seq<char>, TouchAction);

/// The buttons spread evenly over the columns.
pub open spec fn cells_of(cols: u16) -> Seq<TouchV> {
    let b = buttons(cols);
    Seq::new(
        b.len(),
        |i: int| (i * cols / b.len() as int, (i + 1) * cols / b.len() as int, b[i].0, b[i].1),
    )
}

/// The models of drawn buttons.
pub open spec fn touch_views(s: Seq<TouchCell>) -> Seq<TouchV> {
    Seq::new(s.len(), |i: int| (s[i].0 as int, s[i].1 as int, s[i].2@, s[i].3))
}

/// Evenly-spread touchbar cells `(start, end_exclusive, label, action)` partitioning `[0, cols)`.
pub fn touchbar_cells(cols: u16) -> (r: Vec<TouchCell>)
    ensures
        touch_views(r@) == cells_of(cols),
{
    let items = button_list(cols);
    let n: u32 = items.len() as u32;
    let mut out: Vec<TouchCell> = Vec::new();
    let mut i: usize = 0;
    while i < items.len()
        invariant
            n == items@.len() == buttons(cols).len(),
            n == 6 || n == 10,
            i <= n,
            forall|k: int| 0 <= k < n ==> (#[trigger] items@[k]).0@ == buttons(cols)[k].0,
            forall|k: int| 0 <= k < n ==> (#[trigger] items@[k]).1 == buttons(cols)[k].1,
            touch_views(out@) =~= cells_of(cols).take(i as int),
        decreases n - i,
    {
        let at: u32 = i as u32;
        assert(0 <= at * cols <= 655350 && 0 <= (at + 1) * cols <= 655350) by (nonlinear_arith)
            requires
                0 <= at < 10,
                0 <= cols <= 65535,
        ;
        assert(at * cols / n as int <= cols && (at + 1) * cols / n as int <= cols) by (nonlinear_arith)
            requires
                0 <= at < n,
                n == 6 || n == 10,
                0 <= cols,
        ;
        let start: u16 = (at * cols as u32 / n) as u16;
        let end: u16 = ((at + 1) * cols as u32 / n) as u16;
        let ghost done = touch_views(out@);
        let ghost all = cells_of(cols);
        out.push((start, end, items[i].0, items[i].1));
        assert(start == i * cols / n as int);
        assert(end == (i + 1) * cols / n as int);
        assert(touch_views(out@) =~= done.push(all[i as int]));
        i = i + 1;
    }
    out
}

/// The action of the first of the cells that holds a column.
pub open spec fn action_of(cells: Seq<TouchV>, col: int, i: int) -> Option<TouchAction>
    decreases cells.len() - i,
{
    if i < 0 || i >= cells.len() {
        None
    } else if cells[i].0 <= col < cells[i].1 {
        Some(cells[i].3)
    } else {
        action_of(cells, col, i + 1)
    }
}

/// Resolve a tap at grid column `col` on the touchbar row.
pub fn touchbar_action_at(col: u16, cols: u16) -> (r: Option<TouchAction>)
    ensures
        r == action_of(cells_of(cols), col as int, 0),
{
    let cells = touchbar_cells(cols);
    let mut i: usize = 0;
    while i < cells.len()
        invariant
            i <= cells@.len(),
            touch_views(cells@) == cells_of(cols),
            action_of(cells_of(cols), col as int, 0) == action_of(cells_of(cols), col as int, i as int),
        decreases cells@.len() - i,
    {
        assert(cells_of(cols)[i as int] == touch_views(cells@)[i as int]);
        if cells[i].0 <= col && col < cells[i].1 {
            return Some(cells[i].3);
        }
        i = i + 1;
    }
    None
}

/// The buttons partition the columns: the first starts at 0, each ends where the next starts,
/// the last ends at the edge.
pub proof fn law_touchbar_partitions(cols: u16)
    ensures
        cells_of(cols).len() > 0,
        cells_of(cols)[0].0 == 0,
        cells_of(cols).last().1 == cols,
        forall|i: int|
            0 <= i < cells_of(cols).len() - 1 ==> (#[trigger] cells_of(cols)[i]).1 == cells_of(
                cols,
            )[i + 1].0,
        forall|i: int|
            0 <= i < cells_of(cols).len() ==> (#[trigger] cells_of(cols)[i]).0
                <= cells_of(cols)[i].1,
{
    let n = buttons(cols).len() as int;
    assert(n == 6 || n == 10);
    assert(0 * cols / n == 0 && n * cols / n == cols) by (nonlinear_arith)
        requires
            n == 6 || n == 10,
    ;
    assert forall|i: int| 0 <= i < n implies (#[trigger] cells_of(cols)[i]).0
        <= cells_of(cols)[i].1 by {
        assert(i * cols / n <= (i + 1) * cols / n) by (nonlinear_arith)
            requires
                0 <= i,
                n == 6 || n == 10,
                0 <= cols,
        ;
    }
}

/// Every column of the bar is some button, and a tap gives the action of the button drawn
/// there; beyond the bar there is none.
pub proof fn law_tap_hits_button(cols: u16, col: u16, i: int)
    requires
        0 <= i < cells_of(cols).len(),
        cells_of(cols)[i].0 <= col < cells_of(cols)[i].1,
    ensures
        action_of(cells_of(cols), col as int, 0) == Some(cells_of(cols)[i].3),
        col < cols,
{
    law_touchbar_partitions(cols);
    lemma_ends_rise(cols, i, cells_of(cols).len() - 1);
    lemma_first_hit(cols, col as int, i, 0);
}

proof fn lemma_ends_rise(cols: u16, i: int, j: int)
    requires
        0 <= i <= j < cells_of(cols).len(),
    ensures
        cells_of(cols)[i].1 <= cells_of(cols)[j].1,
    decreases j - i,
{
    if i < j {
        law_touchbar_partitions(cols);
        lemma_ends_rise(cols, i + 1, j);
        assert(cells_of(cols)[i + 1].0 <= cells_of(cols)[i + 1].1);
    }
}

proof fn lemma_first_hit(cols: u16, col: int, i: int, j: int)
    requires
        0 <= j <= i < cells_of(cols).len(),
        cells_of(cols)[i].0 <= col < cells_of(cols)[i].1,
    ensures
        action_of(cells_of(cols), col, j) == Some(cells_of(cols)[i].3),
    decreases i - j,
{
    if j < i {
        law_touchbar_partitions(cols);
        lemma_ends_rise(cols, j, i - 1);
        lemma_first_hit(cols, col, i, j + 1);
    }
}

/// Every column is covered: a tap inside the bar has an action, one outside has none.
pub proof fn law_every_column_taps(cols: u16, col: u16)
    ensures
        action_of(cells_of(cols), col as int, 0) is Some <==> col < cols,
{
    law_touchbar_partitions(cols);
    let n = cells_of(cols).len() as int;
    if col < cols {
        let i = lemma_column_of(cols, col as int, n - 1);
        lemma_first_hit(cols, col as int, i, 0);
    } else {
        lemma_no_hit(cols, col as int, 0);
    }
}

proof fn lemma_column_of(cols: u16, col: int, j: int) -> (i: int)
    requires
        0 <= j < cells_of(cols).len(),
        0 <= col < cells_of(cols)[j].1,
    ensures
        0 <= i <= j,
        cells_of(cols)[i].0 <= col < cells_of(cols)[i].1,
    decreases j,
{
    law_touchbar_partitions(cols);
    if cells_of(cols)[j].0 <= col {
        j
    } else {
        assert(cells_of(cols)[j - 1].1 == cells_of(cols)[j].0);
        lemma_column_of(cols, col, j - 1)
    }
}

proof fn lemma_no_hit(cols: u16, col: int, j: int)
    requires
        0 <= j <= cells_of(cols).len(),
        col >= cols,
    ensures
        action_of(cells_of(cols), col, j) is None,
    decreases cells_of(cols).len() - j,
{
    if j < cells_of(cols).len() {
        law_touchbar_partitions(cols);
        lemma_ends_rise(cols, j, cells_of(cols).len() - 1);
        lemma_no_hit(cols, col, j + 1);
    }
}

/// Quotient rounded up.
pub open spec fn ceil_div(a: int, b: int) -> int {
    (a + b - 1) / b
}

fn div_up(a: u16, b: u16) -> (r: u16)
    requires
        b > 0,
    ensures
        r == ceil_div(a as int, b as int),
{
    assert(0 <= ceil_div(a as int, b as int) <= a) by (nonlinear_arith)
        requires
            a >= 0,
            b > 0,
    ;
    ((a as u32 + b as u32 - 1) / b as u32) as u16
}

/// Columns of hints on a screen: one, two or four by its width, more when they would not fit
/// in three rows.
pub open spec fn hint_cols(cols: u16, n: int) -> int {
    let wide: int = if cols >= 80 {
        4
    } else if cols >= 40 {
        2
    } else {
        1
    };
    if ceil_div(n, wide) > 3 {
        ceil_div(n, 3)
    } else {
        wide
    }
}

/// Shape of the panel's hint grid: rows, at most three, and columns.
pub open spec fn hint_grid(cols: u16, n: nat) -> (int, int) {
    let m = max(n as int, 1);
    (min(ceil_div(m, hint_cols(cols, m)), 3), hint_cols(cols, m))
}

pub(crate) proof fn lemma_hint_cols(cols: u16, n: int)
    requires
        0 <= n,
    ensures
        1 <= hint_cols(cols, n),
        n < 65536 ==> hint_cols(cols, n) <= 65535,
{
}

/// Hint grid shape for the which-key panel: (hint rows, columns). Nothing is said of more hints
/// than sixteen bits count.
pub fn whichkey_grid(cols: u16, n: usize) -> (r: (u16, u16))
    ensures
        n < 65536 ==> r.0 == hint_grid(cols, n as nat).0,
        n < 65536 ==> r.1 == hint_grid(cols, n as nat).1,
        r.0 <= 3,
        r.1 >= 1,
{
    let some: usize = if n == 0 {
        1
    } else {
        n
    };
    let m: u16 = (some % 65536) as u16;
    let mut ncols: u16 = if cols >= 80 {
        4
    } else if cols >= 40 {
        2
    } else {
        1
    };
    if div_up(m, ncols) > 3 {
        ncols = div_up(m, 3);
    }
    proof {
        lemma_hint_cols(cols, m as int);
    }
    let rows = div_up(m, ncols);
    if rows < 3 {
        (rows, ncols)
    } else {
        (3, ncols)
    }
}

/// The char of a hint whose first word is that char alone.
pub open spec fn lone_char(s: Seq<char>) -> Option<char> {
    let t = trim_start_of(s);
    if t.len() == 1 || (t.len() > 1 && is_space(t[1])) {
        Some(t[0])
    } else {
        None
    }
}

/// The char of a key pattern whose first word is that char alone.
pub fn single_key(s: &str) -> (r: Option<char>)
    ensures
        r == lone_char(s@),
{
    let v = to_chars(s);
    let n = leading_space(&v);
    proof {
        lemma_space_prefix(s@);
    }
    if n < v.len() && (n + 1 == v.len() || whitespace(v[n + 1])) {
        Some(v[n])
    } else {
        None
    }
}

/// Width of a hint column.
pub open spec fn hint_width(cols: u16, ncols: int) -> int {
    max(cols as int / ncols, 1)
}

/// Index of the hint at a place in the panel, `row` counted from its title.
pub open spec fn hint_at(col: u16, row: u16, cols: u16, n: nat) -> Option<int> {
    let (rows, ncols) = hint_grid(cols, n);
    let cell = min(col as int / hint_width(cols, ncols), ncols - 1);
    let idx = (row - 1) * ncols + cell;
    if row == 0 || row - 1 >= rows || idx >= n {
        None
    } else {
        Some(idx)
    }
}

/// A tap anywhere in a hint's column and row finds that hint.
pub proof fn law_hint_taps(cols: u16, n: nat, i: int, col: u16, row: u16)
    requires
        0 <= i < n,
        ({
            let (rows, ncols) = hint_grid(cols, n);
            let w = hint_width(cols, ncols);
            &&& i / ncols < rows
            &&& row == i / ncols + 1
            &&& i % ncols * w <= col < (i % ncols + 1) * w
        }),
    ensures
        hint_at(col, row, cols, n) == Some(i),
{
    let (rows, ncols) = hint_grid(cols, n);
    lemma_hint_cols(cols, n as int);
    let w = hint_width(cols, ncols);
    let cell = i % ncols;
    assert(0 <= cell < ncols && i / ncols * ncols + cell == i) by (nonlinear_arith)
        requires
            ncols >= 1,
            i >= 0,
            cell == i % ncols,
    ;
    assert(col as int / w == cell) by (nonlinear_arith)
        requires
            w >= 1,
            cell >= 0,
            cell * w <= col < (cell + 1) * w,
    ;
}

/// What a tap in the panel types: the hint's key, where it is a single char.
pub open spec fn hint_tapped(col: u16, row: u16, cols: u16, hints: Seq<Hint>) -> Option<Key> {
    match hint_at(col, row, cols, hints.len()) {
        Some(i) => match lone_char(hints[i].0) {
            Some(c) => Some(Key::Char(c)),
            None => None,
        },
        None => None,
    }
}

/// Resolve a tap inside the which-key panel; `row` is relative to the panel top.
/// Only hints whose first key token is a single char are tappable — pattern rows
/// like "a-z" are documentation, not buttons. Nothing is said of more hints than sixteen bits
/// count.
pub fn whichkey_action_at(col: u16, row: u16, cols: u16, hints: &[(&str, &str)]) -> (r: Option<Key>)
    ensures
        hints@.len() < 65536 ==> r == hint_tapped(col, row, cols, hints_of(hints@)),
{
    if row == 0 {
        return None;
    }
    let hint_row: u16 = row - 1;
    let (rows, ncols) = whichkey_grid(cols, hints.len());
    if hint_row >= rows {
        return None;
    }
    let share: u16 = cols / ncols;
    let col_w: u16 = if share > 1 {
        share
    } else {
        1
    };
    let at: u16 = col / col_w;
    let cell: u16 = if at < ncols {
        at
    } else {
        ncols - 1
    };
    assert(0 <= hint_row * ncols <= 3 * ncols) by (nonlinear_arith)
        requires
            0 <= hint_row < 3,
            ncols >= 0,
    ;
    let idx: usize = hint_row as usize * ncols as usize + cell as usize;
    if idx >= hints.len() {
        return None;
    }
    match single_key(hints[idx].0) {
        Some(c) => Some(Key::Char(c)),
        None => None,
    }
}

} // verus!
