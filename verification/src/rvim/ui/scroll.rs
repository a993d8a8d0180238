//! Scrolling: paging requests, and keeping the cursor in view.

use vstd::prelude::*;

use crate::rvim::buffer::{clamped, line_at, max, min, pos, Position};
use crate::rvim::keys::ScrollRequest;
use crate::rvim::state::{BufV, Buffer};

verus! {

/// Vertical scrolloff margin in rows.
pub const V_MARGIN: usize = 2;

/// Horizontal scrolloff margin in columns.
pub const H_MARGIN: usize = 4;

/// Lines a paging request moves by.
pub open spec fn page_step(req: ScrollRequest, rows: int) -> int {
    match req {
        ScrollRequest::HalfDown | ScrollRequest::HalfUp => max(rows / 2, 1),
        _ => max(rows - 2, 1),
    }
}

pub open spec fn goes_down(req: ScrollRequest) -> bool {
    req == ScrollRequest::HalfDown || req == ScrollRequest::PageDown
}

/// A buffer with a scroll request carried out in a viewport of `rows` rows.
pub open spec fn scroll_applied(b: BufV, req: ScrollRequest, rows: int) -> BufV {
    let last = b.text.lines.len() - 1;
    let cur = clamped(b.text.lines, b.cursor, true);
    match req {
        ScrollRequest::Center => BufV {
            scroll: (max(cur.line - rows / 2, 0) as usize, b.scroll.1),
            ..b
        },
        ScrollRequest::Top => BufV { scroll: (cur.line as usize, b.scroll.1), ..b },
        ScrollRequest::Bottom => BufV {
            scroll: (max(cur.line + 1 - rows, 0) as usize, b.scroll.1),
            ..b
        },
        _ => {
            let step = page_step(req, rows);
            let line = if goes_down(req) {
                min(cur.line + step, last)
            } else {
                max(cur.line - step, 0)
            };
            let top = if goes_down(req) {
                b.scroll.0 + step
            } else {
                max(b.scroll.0 - step, 0)
            };
            BufV {
                cursor: clamped(b.text.lines, pos(line, b.desired_col), false),
                scroll: (min(top, last) as usize, b.scroll.1),
                ..b
            }
        },
    }
}

/// A buffer with a pending request, if any, carried out; a viewport without rows has none.
pub open spec fn request_applied(b: BufV, req: Option<ScrollRequest>, rows: int) -> BufV {
    if req is Some && rows > 0 {
        scroll_applied(b, req->0, rows)
    } else {
        b
    }
}

/// Apply a pending zz/zt/zb or paging request against the real viewport height.
pub fn apply_scroll_request(buf: &mut Buffer, req: Option<ScrollRequest>, text_rows: u16)
    requires
        old(buf)@.text.wf(),
    ensures
        final(buf)@ == request_applied(old(buf)@, req, text_rows as int),
        old(buf)@.wf() ==> final(buf)@.wf(),
{
    let req = match req {
        Some(r) => r,
        None => {
            return ;
        },
    };
    let rows: usize = text_rows as usize;
    if rows == 0 {
        return ;
    }
    let last: usize = buf.text.line_count() - 1;
    let cur = buf.text.clamp(buf.cursor, true);
    match req {
        ScrollRequest::Center => {
            buf.scroll = (
                if cur.line > rows / 2 {
                    cur.line - rows / 2
                } else {
                    0
                },
                buf.scroll.1,
            );
        },
        ScrollRequest::Top => {
            buf.scroll = (cur.line, buf.scroll.1);
        },
        ScrollRequest::Bottom => {
            buf.scroll = (
                if cur.line + 1 > rows {
                    cur.line + 1 - rows
                } else {
                    0
                },
                buf.scroll.1,
            );
        },
        _ => {
            let full = match req {
                ScrollRequest::HalfDown | ScrollRequest::HalfUp => false,
                _ => true,
            };
            let down = match req {
                ScrollRequest::HalfDown | ScrollRequest::PageDown => true,
                _ => false,
            };
            let step: usize = if full {
                if rows > 3 {
                    rows - 2
                } else {
                    1
                }
            } else if rows > 3 {
                rows / 2
            } else {
                1
            };
            let line: usize = if down {
                if last - cur.line > step {
                    cur.line + step
                } else {
                    last
                }
            } else if cur.line > step {
                cur.line - step
            } else {
                0
            };
            buf.cursor = buf.text.clamp(Position::new(line, buf.desired_col), false);
            let top: usize = buf.scroll.0;
            let moved: usize = if down {
                if top < last && last - top > step {
                    top + step
                } else {
                    last
                }
            } else if top <= step {
                0
            } else if top - step < last {
                top - step
            } else {
                last
            };
            buf.scroll = (moved, buf.scroll.1);
        },
    }
}

/// First line shown so that line `line` of `n` is in view with its margins.
pub open spec fn top_for(n: int, line: int, top: int, rows: int) -> int {
    let held = min(top, n - 1);
    if rows <= 0 {
        held
    } else {
        let margin = min(V_MARGIN as int, (rows - 1) / 2);
        let below = min(margin, n - 1 - line);
        if line < held + margin {
            max(line - margin, 0)
        } else if line + below >= held + rows {
            line + below + 1 - rows
        } else {
            held
        }
    }
}

/// First column shown so that column `col` of a line of `len` chars is in view with its
/// margins.
pub open spec fn left_for(len: int, col: int, left: int, width: int) -> int {
    if width <= 0 {
        left
    } else {
        let margin = min(H_MARGIN as int, (width - 1) / 2);
        let right = min(margin, len - col);
        if col < left + margin {
            max(col - margin, 0)
        } else if col + right >= left + width {
            col + right + 1 - width
        } else {
            left
        }
    }
}

/// A buffer scrolled to its cursor.
pub open spec fn followed(b: BufV, rows: int, width: int) -> BufV {
    let cur = clamped(b.text.lines, b.cursor, true);
    BufV {
        scroll: (
            top_for(b.text.lines.len() as int, cur.line, b.scroll.0 as int, rows) as usize,
            left_for(
                line_at(b.text.lines, cur.line).len() as int,
                cur.col,
                b.scroll.1 as int,
                width,
            ) as usize,
        ),
        ..b
    }
}

/// Clamp scroll and move it so the cursor stays in view with scrolloff margins.
pub fn follow_scroll(buf: &mut Buffer, text_rows: u16, text_cols: u16)
    requires
        old(buf)@.text.wf(),
    ensures
        final(buf)@ == followed(old(buf)@, text_rows as int, text_cols as int),
        old(buf)@.wf() ==> final(buf)@.wf(),
{
    let line_count: usize = buf.text.line_count();
    let cur = buf.text.clamp(buf.cursor, true);
    let mut top: usize = buf.scroll.0;
    let mut left: usize = buf.scroll.1;
    if top > line_count - 1 {
        top = line_count - 1;
    }
    let rows: usize = text_rows as usize;
    if rows > 0 {
        let margin: usize = if rows > 2 * V_MARGIN {
            V_MARGIN
        } else {
            (rows - 1) / 2
        };
        let under: usize = line_count - 1 - cur.line;
        let below: usize = if margin < under {
            margin
        } else {
            under
        };
        if cur.line < top + margin {
            top = if cur.line > margin {
                cur.line - margin
            } else {
                0
            };
        } else if cur.line + below >= top + rows {
            top = cur.line + below + 1 - rows;
        }
    }
    let width: usize = text_cols as usize;
    if width > 0 {
        let margin: usize = if width > 2 * H_MARGIN {
            H_MARGIN
        } else {
            (width - 1) / 2
        };
        let rest: usize = buf.text.line_len(cur.line) - cur.col;
        let right: usize = if margin < rest {
            margin
        } else {
            rest
        };
        if cur.col < left || cur.col - left < margin {
            left = if cur.col > margin {
                cur.col - margin
            } else {
                0
            };
        } else if cur.col + right - left >= width {
            left = cur.col + right + 1 - width;
        }
    }
    buf.scroll = (top, left);
}

/// After following, the cursor is inside the viewport.
pub proof fn law_cursor_in_view(n: int, line: int, top: int, rows: int, len: int, col: int, left: int, width: int)
    requires
        0 <= line < n,
        0 <= top,
        rows > 0,
        0 <= col <= len,
        0 <= left,
        width > 0,
    ensures
        0 <= top_for(n, line, top, rows) <= line < top_for(n, line, top, rows) + rows,
        0 <= left_for(len, col, left, width) <= col < left_for(len, col, left, width) + width,
{
}

/// Following twice is following once.
pub proof fn law_follow_settles(n: int, line: int, top: int, rows: int, len: int, col: int, left: int, width: int)
    requires
        0 <= line < n,
        0 <= top,
        0 <= rows,
        0 <= col <= len,
        0 <= left,
        0 <= width,
    ensures
        top_for(n, line, top_for(n, line, top, rows), rows) == top_for(n, line, top, rows),
        left_for(len, col, left_for(len, col, left, width), width) == left_for(
            len,
            col,
            left,
            width,
        ),
{
}

} // verus!
