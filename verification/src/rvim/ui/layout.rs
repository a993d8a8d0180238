//! How the screen is divided: chrome rows, sidebar, window tiles and gutters.

use vstd::prelude::*;

use crate::rvim::buffer::{max, min};
use crate::rvim::state::SplitDir;

verus! {

/// Row of each chrome element; `None` = dropped for lack of space.
#[derive(Clone, Copy, Debug, PartialEq, Eq, Structural)]
pub struct VLayout {
    pub bufferline: Option<u16>,
    pub text_top: u16,
    pub text_rows: u16,
    pub status: Option<u16>,
    pub cmdline: Option<u16>,
    pub touchbar: u16,
}

/// The last row is the touchbar; above it, as rows come: text, then the statusline under it,
/// then the command line, then the bufferline on top and more text.
pub open spec fn rows_of(rows: u16) -> VLayout {
    let bar = max(rows - 1, 0);
    VLayout {
        bufferline: if bar >= 4 {
            Some(0)
        } else {
            None
        },
        text_top: if bar >= 4 {
            1
        } else {
            0
        },
        text_rows: (if bar >= 4 {
            bar - 3
        } else {
            min(bar, 1)
        }) as u16,
        status: if bar >= 4 {
            Some((bar - 2) as u16)
        } else if bar >= 2 {
            Some(1)
        } else {
            None
        },
        cmdline: if bar >= 3 {
            Some((bar - 1) as u16)
        } else {
            None
        },
        touchbar: bar as u16,
    }
}

/// Split `rows` into chrome rows, dropping bufferline, then cmdline, then statusline.
pub fn vertical_layout(rows: u16) -> (r: VLayout)
    ensures
        r == rows_of(rows),
{
    let touchbar: u16 = if rows > 0 {
        rows - 1
    } else {
        0
    };
    if touchbar == 0 {
        VLayout {
            bufferline: None,
            text_top: 0,
            text_rows: 0,
            status: None,
            cmdline: None,
            touchbar,
        }
    } else if touchbar == 1 {
        VLayout {
            bufferline: None,
            text_top: 0,
            text_rows: 1,
            status: None,
            cmdline: None,
            touchbar,
        }
    } else if touchbar == 2 {
        VLayout {
            bufferline: None,
            text_top: 0,
            text_rows: 1,
            status: Some(1),
            cmdline: None,
            touchbar,
        }
    } else if touchbar == 3 {
        VLayout {
            bufferline: None,
            text_top: 0,
            text_rows: 1,
            status: Some(1),
            cmdline: Some(2),
            touchbar,
        }
    } else {
        VLayout {
            bufferline: Some(0),
            text_top: 1,
            text_rows: touchbar - 3,
            status: Some(touchbar - 2),
            cmdline: Some(touchbar - 1),
            touchbar,
        }
    }
}

/// Every row of the screen belongs to exactly one element: the bufferline on top where there
/// is one, the text, the statusline, the command line, and the touchbar last.
pub proof fn law_rows_are_covered(rows: u16)
    requires
        rows > 0,
    ensures
        ({
            let l = rows_of(rows);
            let below = l.text_top + l.text_rows;
            &&& l.touchbar == rows - 1
            &&& l.bufferline is Some ==> l.bufferline->0 == 0
            &&& l.text_top == if l.bufferline is Some {
                1int
            } else {
                0
            }
            &&& l.status is Some ==> l.status->0 == below
            &&& l.cmdline is Some ==> l.status is Some && l.cmdline->0 == below + 1
            &&& l.touchbar == below + if l.status is Some {
                1int
            } else {
                0
            } + if l.cmdline is Some {
                1int
            } else {
                0
            }
        }),
{
}

/// Sidebar width: 35% of the columns, at most 28; too narrow below 30 columns.
pub open spec fn sidebar_of(cols: u16) -> Option<u16> {
    if cols < 30 {
        None
    } else {
        Some(min(28, cols * 35 / 100) as u16)
    }
}

/// Explorer sidebar width for `cols` grid columns; `None` = too narrow to show.
pub fn explorer_width(cols: u16) -> (r: Option<u16>)
    ensures
        r == sidebar_of(cols),
{
    if cols < 30 {
        None
    } else {
        let w: u32 = cols as u32 * 35 / 100;
        if w < 28 {
            Some(w as u16)
        } else {
            Some(28)
        }
    }
}

/// A window's place: column, row, width, height.
pub type Tile = (u16, u16, u16, u16);

/// Cells that `n` tiles share along an axis of `len` cells, one separator between neighbours.
pub open spec fn shared(n: int, len: int) -> int {
    max(len - (n - 1), 0)
}

/// Length of tile `i` of `n`: an even share, the first ones one longer where it leaves a rest.
pub open spec fn tile_len(n: int, len: int, i: int) -> int {
    shared(n, len) / n + if i < shared(n, len) % n {
        1int
    } else {
        0
    }
}

/// Where tile `i` starts, counted from the first cell of the axis.
pub open spec fn tile_start(n: int, len: int, i: int) -> int
    decreases i,
{
    if i <= 0 {
        0
    } else {
        tile_start(n, len, i - 1) + tile_len(n, len, i - 1) + 1
    }
}

/// The last coordinate where `a` would lie beyond it.
pub open spec fn held(a: int) -> u16 {
    min(a, 65535) as u16
}

/// The places of `n` windows stacked or side by side in an area.
pub open spec fn tiles_of(n: int, dir: SplitDir, x0: u16, y0: u16, w: u16, h: u16) -> Seq<Tile> {
    Seq::new(
        n as nat,
        |i: int|
            match dir {
                SplitDir::Horizontal => (
                    x0,
                    held(y0 + tile_start(n, h as int, i)),
                    w,
                    tile_len(n, h as int, i) as u16,
                ),
                SplitDir::Vertical => (
                    held(x0 + tile_start(n, w as int, i)),
                    y0,
                    tile_len(n, w as int, i) as u16,
                    h,
                ),
            },
    )
}

pub(crate) proof fn lemma_tile_len(n: int, len: int, i: int)
    requires
        n > 0,
        0 <= len <= 65535,
        i >= 0,
    ensures
        0 <= tile_len(n, len, i) <= shared(n, len) <= len,
        tile_len(n, len, i) == shared(n, len) / n || tile_len(n, len, i) == shared(n, len) / n + 1,
{
    let a = shared(n, len);
    assert(0 <= a / n && 0 <= a % n < n && a == n * (a / n) + a % n) by (nonlinear_arith)
        requires
            n > 0,
            a >= 0,
    ;
    let q = a / n;
    assert(n * q >= q) by (nonlinear_arith)
        requires
            n > 0,
            q >= 0,
    ;
}

/// Start of a tile in closed form.
proof fn lemma_tile_start(n: int, len: int, i: int)
    requires
        n > 0,
        0 <= len <= 65535,
        0 <= i <= n,
    ensures
        tile_start(n, len, i) == i * (shared(n, len) / n) + min(i, shared(n, len) % n) + i,
    decreases i,
{
    let a = shared(n, len);
    let q = a / n;
    assert(0 <= a % n < n) by (nonlinear_arith)
        requires
            n > 0,
            a >= 0,
    ;
    if i > 0 {
        lemma_tile_start(n, len, i - 1);
        assert(i * q == (i - 1) * q + q) by (nonlinear_arith);
    } else {
        assert(0 * q == 0);
    }
}

/// The tiles and the separators between them fill the axis exactly, wherever there is room
/// for all the separators.
pub proof fn law_tiles_partition(n: int, len: int)
    requires
        n > 0,
        n - 1 <= len <= 65535,
    ensures
        tile_start(n, len, n - 1) + tile_len(n, len, n - 1) == len,
        forall|i: int|
            0 <= i < n - 1 ==> #[trigger] tile_start(n, len, i) + tile_len(n, len, i) + 1
                == tile_start(n, len, i + 1),
{
    lemma_tile_start(n, len, n);
    let a = shared(n, len);
    assert(a == n * (a / n) + a % n && 0 <= a % n < n) by (nonlinear_arith)
        requires
            n > 0,
            a >= 0,
    ;
}

/// No two of the windows' lengths differ by more than one cell.
pub proof fn law_tiles_are_even(n: int, len: int, i: int, j: int)
    requires
        n > 0,
        0 <= len <= 65535,
        0 <= i <= j < n,
    ensures
        0 <= tile_len(n, len, i) - tile_len(n, len, j) <= 1,
{
}

proof fn lemma_starts_rise(n: int, len: int, i: int, j: int)
    requires
        n > 0,
        0 <= len <= 65535,
        0 <= i <= j,
    ensures
        0 <= tile_start(n, len, i) <= tile_start(n, len, j),
    decreases j,
{
    if j > 0 {
        lemma_tile_len(n, len, j - 1);
        if i < j {
            lemma_starts_rise(n, len, i, j - 1);
        } else {
            lemma_starts_rise(n, len, j - 1, j - 1);
        }
    }
}

/// A tile that has any cells lies within the axis.
pub proof fn law_tiles_inside(n: int, len: int, i: int)
    requires
        0 <= i < n,
        0 <= len <= 65535,
        tile_len(n, len, i) > 0,
    ensures
        0 <= tile_start(n, len, i),
        tile_start(n, len, i) + tile_len(n, len, i) <= len,
{
    let a = shared(n, len);
    lemma_tile_len(n, len, i);
    if a == 0 {
        assert(0int / n == 0 && 0int % n == 0) by (nonlinear_arith)
            requires
                n > 0,
        ;
    } else {
        law_tiles_partition(n, len);
        lemma_starts_rise(n, len, 0, i);
        lemma_starts_rise(n, len, i + 1, n);
        assert(tile_start(n, len, n) == tile_start(n, len, n - 1) + tile_len(n, len, n - 1) + 1);
    }
}

/// The start of tile `i`, moved on to the next.
fn next_start(at: u16, len: u16) -> (r: u16)
    ensures
        r == held(at + len + 1),
{
    if at > 65535 - len {
        65535
    } else if at + len == 65535 {
        65535
    } else {
        at + len + 1
    }
}

/// Tile `n` windows along `dir` inside the given area; `(x, y, w, h)` per window.
/// One row (or column) between neighbours is left for a separator; tiles are exact.
pub fn tile_windows(n: usize, dir: SplitDir, x0: u16, y0: u16, w: u16, h: u16) -> (r: Vec<Tile>)
    requires
        n <= u16::MAX,
    ensures
        r@ == tiles_of(n as int, dir, x0, y0, w, h),
{
    let mut out: Vec<Tile> = Vec::new();
    if n == 0 {
        assert(out@ =~= tiles_of(n as int, dir, x0, y0, w, h));
        return out;
    }
    let seps: u16 = (n - 1) as u16;
    let len: u16 = match dir {
        SplitDir::Horizontal => h,
        SplitDir::Vertical => w,
    };
    let first: u16 = match dir {
        SplitDir::Horizontal => y0,
        SplitDir::Vertical => x0,
    };
    let avail: u16 = if len > seps {
        len - seps
    } else {
        0
    };
    let base: u16 = avail / n as u16;
    let extra: usize = (avail % n as u16) as usize;
    let mut at: u16 = first;
    let mut i: usize = 0;
    while i < n
        invariant
            0 < n <= u16::MAX,
            i <= n,
            avail == shared(n as int, len as int),
            base == avail as int / n as int,
            extra == avail as int % n as int,
            len == (match dir {
                SplitDir::Horizontal => h,
                SplitDir::Vertical => w,
            }),
            first == (match dir {
                SplitDir::Horizontal => y0,
                SplitDir::Vertical => x0,
            }),
            at == held(first + tile_start(n as int, len as int, i as int)),
            out@ == tiles_of(n as int, dir, x0, y0, w, h).take(i as int),
        decreases n - i,
    {
        proof {
            lemma_tile_len(n as int, len as int, i as int);
            lemma_tile_start(n as int, len as int, i as int);
            assert(tile_start(n as int, len as int, i as int) >= 0) by {
                assert(i * base >= 0) by (nonlinear_arith)
                    requires
                        i >= 0,
                        base >= 0,
                ;
            }
        }
        let size: u16 = if i < extra {
            base + 1
        } else {
            base
        };
        let ghost done = out@;
        match dir {
            SplitDir::Horizontal => out.push((x0, at, w, size)),
            SplitDir::Vertical => out.push((at, y0, size, h)),
        }
        proof {
            let all = tiles_of(n as int, dir, x0, y0, w, h);
            assert(out@ == done.push(all[i as int]));
            assert(all.take(i + 1) =~= all.take(i as int).push(all[i as int]));
        }
        at = next_start(at, size);
        i = i + 1;
    }
    assert(out@ =~= tiles_of(n as int, dir, x0, y0, w, h));
    out
}

/// Digits a number is written with.
pub open spec fn digits(n: nat) -> nat
    decreases n,
{
    if n < 10 {
        1
    } else {
        1 + digits(n / 10)
    }
}

proof fn lemma_digits(n: nat)
    requires
        n <= u64::MAX,
    ensures
        digits(n) <= 20,
{
    reveal_with_fuel(digits, 20);
}

/// Gutter width: room for the last line's number, at least three digits, and a space;
/// none when numbers are off or fewer than four columns of text would be left.
pub open spec fn gutter_of(line_count: int, number: bool, relativenumber: bool, cols: u16) -> u16 {
    let w = max(digits(line_count as nat) as int, 3) + 1;
    if (!number && !relativenumber) || w + 4 > cols {
        0
    } else {
        w as u16
    }
}

/// Gutter width: digits(line_count).max(3) + 1, or 0 when numbers are off or space is tight.
pub fn gutter_width(line_count: usize, number: bool, relativenumber: bool, cols: u16) -> (r: u16)
    ensures
        r == gutter_of(line_count as int, number, relativenumber, cols),
{
    if !number && !relativenumber {
        return 0;
    }
    let mut found: u16 = 1;
    let mut n: usize = line_count;
    proof {
        lemma_digits(line_count as nat);
    }
    while n >= 10
        invariant
            found >= 1,
            found - 1 + digits(n as nat) == digits(line_count as nat),
            digits(line_count as nat) <= 20,
            digits(n as nat) >= 1,
        decreases n,
    {
        found = found + 1;
        n = n / 10;
    }
    let w: u16 = if found > 3 {
        found + 1
    } else {
        4
    };
    if w + 4 > cols {
        0
    } else {
        w
    }
}

} // verus!
