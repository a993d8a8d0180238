//! A floating key toolbar for keys a soft keyboard lacks (Esc, Tab, Ctrl-*, arrows, …).
//!
//! The button set is priority-ordered and truncated to what fits, so a wide screen shows more
//! keys than a narrow one.

use vstd::prelude::*;

use crate::rvim::buffer::min;

verus! {

/// What a key does. `Bytes` are sent verbatim to the remote terminal; `Submit`/`Cancel`/
/// `Disconnect` are semantic so each screen can react.
pub enum Act {
    Bytes(Vec<u8>),
    Submit,
    Cancel,
    Disconnect,
}

/// Model of an action.
pub enum ActV {
    Bytes(Seq<u8>),
    Submit,
    Cancel,
    Disconnect,
}

impl View for Act {
    type V = ActV;

    open spec fn view(&self) -> ActV {
        match *self {
            Act::Bytes(b) => ActV::Bytes(b@),
            Act::Submit => ActV::Submit,
            Act::Cancel => ActV::Cancel,
            Act::Disconnect => ActV::Disconnect,
        }
    }
}

/// How many keys the toolbar has.
pub const KEY_COUNT: usize = 20;

/// Cap the horizontal toolbar to this many rows so it can't eat the screen on a narrow device.
pub const MAX_ROWS: usize = 2;

/// Label and action of key `i`; priority-ordered, the most useful keys survive truncation on a
/// narrow screen.
pub open spec fn key_of(i: int) -> (Seq<char>, ActV) {
    if i == 0 {
        ("Esc"@, ActV::Cancel)
    } else if i == 1 {
        ("Enter"@, ActV::Submit)
    } else if i == 2 {
        ("Tab"@, ActV::Bytes(seq![0x09u8]))
    } else if i == 3 {
        ("^C"@, ActV::Bytes(seq![0x03u8]))
    } else if i == 4 {
        ("↑"@, ActV::Bytes(seq![0x1bu8, 0x5b, 0x41]))
    } else if i == 5 {
        ("↓"@, ActV::Bytes(seq![0x1bu8, 0x5b, 0x42]))
    } else if i == 6 {
        ("←"@, ActV::Bytes(seq![0x1bu8, 0x5b, 0x44]))
    } else if i == 7 {
        ("→"@, ActV::Bytes(seq![0x1bu8, 0x5b, 0x43]))
    } else if i == 8 {
        ("^D"@, ActV::Bytes(seq![0x04u8]))
    } else if i == 9 {
        ("⏻"@, ActV::Disconnect)
    } else if i == 10 {
        ("^Z"@, ActV::Bytes(seq![0x1au8]))
    } else if i == 11 {
        ("^L"@, ActV::Bytes(seq![0x0cu8]))
    } else if i == 12 {
        ("^R"@, ActV::Bytes(seq![0x12u8]))
    } else if i == 13 {
        ("Home"@, ActV::Bytes(seq![0x1bu8, 0x5b, 0x48]))
    } else if i == 14 {
        ("End"@, ActV::Bytes(seq![0x1bu8, 0x5b, 0x46]))
    } else if i == 15 {
        ("PgUp"@, ActV::Bytes(seq![0x1bu8, 0x5b, 0x35, 0x7e]))
    } else if i == 16 {
        ("PgDn"@, ActV::Bytes(seq![0x1bu8, 0x5b, 0x36, 0x7e]))
    } else if i == 17 {
        ("|"@, ActV::Bytes(seq![0x7cu8]))
    } else if i == 18 {
        ("/"@, ActV::Bytes(seq![0x2fu8]))
    } else {
        ("~"@, ActV::Bytes(seq![0x7eu8]))
    }
}

fn send(b: Vec<u8>) -> (r: Act)
    ensures
        r@ == ActV::Bytes(b@),
{
    Act::Bytes(b)
}

/// Label of key `i`.
pub fn key_label(i: usize) -> (r: &'static str)
    requires
        i < KEY_COUNT,
    ensures
        r@ == key_of(i as int).0,
{
    match i {
        0 => "Esc",
        1 => "Enter",
        2 => "Tab",
        3 => "^C",
        4 => "↑",
        5 => "↓",
        6 => "←",
        7 => "→",
        8 => "^D",
        9 => "⏻",
        10 => "^Z",
        11 => "^L",
        12 => "^R",
        13 => "Home",
        14 => "End",
        15 => "PgUp",
        16 => "PgDn",
        17 => "|",
        18 => "/",
        _ => "~",
    }
}

/// Action of key `i`.
pub fn key_act(i: usize) -> (r: Act)
    requires
        i < KEY_COUNT,
    ensures
        r@ == key_of(i as int).1,
{
    let b: Vec<u8> = match i {
        0 => {
            return Act::Cancel;
        },
        1 => {
            return Act::Submit;
        },
        2 => vec![0x09],
        3 => vec![0x03],
        4 => vec![0x1b, 0x5b, 0x41],
        5 => vec![0x1b, 0x5b, 0x42],
        6 => vec![0x1b, 0x5b, 0x44],
        7 => vec![0x1b, 0x5b, 0x43],
        8 => vec![0x04],
        9 => {
            return Act::Disconnect;
        },
        10 => vec![0x1a],
        11 => vec![0x0c],
        12 => vec![0x12],
        13 => vec![0x1b, 0x5b, 0x48],
        14 => vec![0x1b, 0x5b, 0x46],
        15 => vec![0x1b, 0x5b, 0x35, 0x7e],
        16 => vec![0x1b, 0x5b, 0x36, 0x7e],
        17 => vec![0x7c],
        18 => vec![0x2f],
        _ => vec![0x7e],
    };
    assert(b@ =~= (key_of(i as int).1)->Bytes_0);
    send(b)
}

/// How a toolbar is laid out: keys shown, buttons with the hide button, and rows.
#[derive(Clone, Copy, Debug, PartialEq, Eq, Structural)]
pub struct Plan {
    pub shown: usize,
    pub items: usize,
    pub rows: usize,
}

/// Rows of buttons docked above the keyboard: as many keys as fit beside the hide button.
pub open spec fn rows_plan(per_row: int) -> Plan {
    let shown = min(KEY_COUNT as int, per_row * MAX_ROWS - 1);
    Plan {
        shown: shown as usize,
        items: (shown + 1) as usize,
        rows: ((shown + 1 + per_row - 1) / per_row) as usize,
    }
}

/// A column of buttons on the right.
pub open spec fn column_plan(per_col: int) -> Plan {
    let shown = min(KEY_COUNT as int, per_col - 1);
    Plan { shown: shown as usize, items: (shown + 1) as usize, rows: (shown + 1) as usize }
}

/// Lay out rows of at most `per_row` buttons.
pub fn plan_rows(per_row: usize) -> (r: Plan)
    requires
        per_row >= 1,
    ensures
        r == rows_plan(per_row as int),
        1 <= r.rows <= MAX_ROWS,
{
    let shown: usize = if per_row > KEY_COUNT / 2 {
        KEY_COUNT
    } else {
        per_row * MAX_ROWS - 1
    };
    let items: usize = shown + 1;
    let rest: usize = items % per_row;
    let rows: usize = if rest == 0 {
        items / per_row
    } else {
        items / per_row + 1
    };
    proof {
        let n = items as int;
        let k = per_row as int;
        assert(rows == (n + k - 1) / k && 1 <= (n + k - 1) / k <= 2) by (nonlinear_arith)
            requires
                k >= 1,
                1 <= n <= 2 * k,
                rows == (if n % k == 0 {
                    n / k
                } else {
                    n / k + 1
                }),
        ;
    }
    Plan { shown, items, rows }
}

/// Lay out a column of at most `per_col` buttons.
pub fn plan_column(per_col: usize) -> (r: Plan)
    requires
        per_col >= 1,
    ensures
        r == column_plan(per_col as int),
{
    let shown: usize = if per_col > KEY_COUNT {
        KEY_COUNT
    } else {
        per_col - 1
    };
    Plan { shown, items: shown + 1, rows: shown + 1 }
}

/// Row and column of button `i`.
pub fn place(i: usize, per_row: usize) -> (r: (usize, usize))
    requires
        per_row >= 1,
    ensures
        r.0 == i as int / per_row as int,
        r.1 == i as int % per_row as int,
{
    (i / per_row, i % per_row)
}

} // verus!
