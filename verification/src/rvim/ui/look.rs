//! How a char of the text looks: selection, search matches, brackets, and which wins.

use vstd::prelude::*;

use crate::rvim::buffer::{line_at, max, min, Pos, Position, TextBuffer};
use crate::rvim::highlight::HlSpan;
use crate::rvim::keys::VisualKind;
use crate::rvim::motion::{closing_within, opening_within, scan_backward, scan_forward};
use crate::rvim::theme::{
    Rgb, BG, CURSORLINE_BG, MATCH_BG, SEARCH_BG, SEARCH_CUR_BG, SEARCH_FG, TEXT, VISUAL_BG,
};
use crate::text::to_chars;

verus! {

/// Char budget for the matching-bracket scan.
pub const BRACKET_BUDGET: usize = 2000;

/// Foreground and background of a text cell; later ones win: cursor line, bracket, search
/// match, selection. A selected char keeps its own foreground.
pub open spec fn colors_of(
    base_fg: Rgb,
    cursor_line: bool,
    bracket: bool,
    search: Option<bool>,
    visual: bool,
) -> (Rgb, Rgb) {
    (
        if search is Some && !visual {
            SEARCH_FG
        } else {
            base_fg
        },
        if visual {
            VISUAL_BG
        } else if search is Some {
            if search->0 {
                SEARCH_CUR_BG
            } else {
                SEARCH_BG
            }
        } else if bracket {
            MATCH_BG
        } else if cursor_line {
            CURSORLINE_BG
        } else {
            BG
        },
    )
}

/// Resolve a text cell's colors; later overlays win: search < current < visual.
pub fn cell_colors(
    base_fg: Rgb,
    cursor_line: bool,
    bracket: bool,
    search: Option<bool>,
    visual: bool,
) -> (r: (Rgb, Rgb))
    ensures
        r == colors_of(base_fg, cursor_line, bracket, search, visual),
{
    let mut fg: Rgb = base_fg;
    let mut bg: Rgb = if cursor_line {
        CURSORLINE_BG
    } else {
        BG
    };
    if bracket {
        bg = MATCH_BG;
    }
    if let Some(current) = search {
        fg = SEARCH_FG;
        bg = if current {
            SEARCH_CUR_BG
        } else {
            SEARCH_BG
        };
    }
    if visual {
        fg = base_fg;
        bg = VISUAL_BG;
    }
    (fg, bg)
}

/// A selection: first position, last position and shape.
pub type Selection = Option<(Position, Position, VisualKind)>;

/// A place is selected: linewise by its line, charwise from the start to the end including
/// both, blockwise by line and column (to the line's end with `block_eol`).
pub open spec fn selected(sel: Selection, line: int, col: int, block_eol: bool) -> bool {
    match sel {
        None => false,
        Some((s, e, kind)) => s.line <= line <= e.line && match kind {
            VisualKind::Line => true,
            VisualKind::Char => (line > s.line || col >= s.col) && (line < e.line || col <= e.col),
            VisualKind::Block => col >= min(s.col as int, e.col as int) && (block_eol || col <= max(
                s.col as int,
                e.col as int,
            )),
        },
    }
}

/// Whether `(line, col)` falls inside the selection; charwise includes the end col.
pub fn in_visual(sel: &Selection, line: usize, col: usize, block_eol: bool) -> (r: bool)
    ensures
        r == selected(*sel, line as int, col as int, block_eol),
{
    let (s, e, kind) = match sel {
        None => {
            return false;
        },
        Some(x) => *x,
    };
    if line < s.line || line > e.line {
        return false;
    }
    match kind {
        VisualKind::Line => true,
        VisualKind::Char => (line > s.line || col >= s.col) && (line < e.line || col <= e.col),
        VisualKind::Block => {
            let (c1, c2): (usize, usize) = if s.col <= e.col {
                (s.col, e.col)
            } else {
                (e.col, s.col)
            };
            col >= c1 && (block_eol || col <= c2)
        },
    }
}

/// Start and length of each match of `pat` in `w` from `i` on, left to right and apart;
/// starts are counted from `from`.
pub open spec fn hits(w: Seq<char>, pat: Seq<char>, i: int, from: int) -> Seq<(int, int)>
    decreases w.len() - i,
{
    if pat.len() == 0 || i < 0 || i + pat.len() > w.len() {
        Seq::empty()
    } else if w.subrange(i, i + pat.len()) == pat {
        seq![(from + i, pat.len() as int)] + hits(w, pat, i + pat.len(), from)
    } else {
        hits(w, pat, i + 1, from)
    }
}

/// The chars `[from, from + span)` of a line, as far as there are any.
pub open spec fn window_of(line: Seq<char>, from: int, span: int) -> Seq<char> {
    line.subrange(min(from, line.len() as int), min(from + span, line.len() as int))
}

/// The matches within a stretch of a line.
pub open spec fn hits_in(line: Seq<char>, pat: Seq<char>, from: int, span: int) -> Seq<(int, int)> {
    hits(window_of(line, from, span), pat, 0, from)
}

pub open spec fn pairs_of(v: Seq<(usize, usize)>) -> Seq<(int, int)> {
    Seq::new(v.len(), |i: int| (v[i].0 as int, v[i].1 as int))
}

/// Non-overlapping literal matches of `pat` within `line`, scanning chars `[from, from+span)`.
pub fn line_matches(line: &str, pat: &[char], from: usize, span: usize) -> (r: Vec<(usize, usize)>)
    ensures
        pairs_of(r@) == hits_in(line@, pat@, from as int, span as int),
{
    let mut out: Vec<(usize, usize)> = Vec::new();
    let plen: usize = pat.len();
    let chars = to_chars(line);
    let len: usize = chars.len();
    let ghost w = window_of(line@, from as int, span as int);
    if plen == 0 || from >= len {
        assert(pairs_of(out@) =~= hits_in(line@, pat@, from as int, span as int));
        return out;
    }
    let end: usize = if span < len - from {
        from + span
    } else {
        len
    };
    let mut at: usize = from;
    assert(pairs_of(out@) =~= Seq::empty());
    while at <= end && plen <= end - at
        invariant
            chars@ == line@,
            from <= at <= end <= chars@.len(),
            end == min(from + span, line@.len() as int),
            plen == pat@.len(),
            plen > 0,
            w == window_of(line@, from as int, span as int),
            w.len() == end - from,
            pairs_of(out@) + hits(w, pat@, at - from, from as int) == hits_in(
                line@,
                pat@,
                from as int,
                span as int,
            ),
        decreases end - at,
    {
        let mut k: usize = 0;
        while k < plen && chars[at + k] == pat[k]
            invariant
                chars@ == line@,
                k <= plen == pat@.len(),
                at + plen <= end <= chars@.len(),
                forall|j: int| 0 <= j < k ==> #[trigger] chars@[at + j] == pat@[j],
            ensures
                k <= plen,
                forall|j: int| 0 <= j < k ==> #[trigger] chars@[at + j] == pat@[j],
                k < plen ==> chars@[at + k] != pat@[k as int],
            decreases plen - k,
        {
            k = k + 1;
        }
        let ghost here = w.subrange(at - from, at - from + plen);
        let ghost done = pairs_of(out@);
        proof {
            assert forall|j: int| 0 <= j < plen implies #[trigger] here[j] == chars@[at + j] by {}
        }
        if k == plen {
            assert(here =~= pat@);
            out.push((at, plen));
            proof {
                let rest = hits(w, pat@, at - from + plen, from as int);
                let one = seq![(at as int, plen as int)];
                assert(pairs_of(out@) =~= done + one);
                assert(done + (one + rest) =~= (done + one) + rest);
            }
            at = at + plen;
        } else {
            assert(here[k as int] != pat@[k as int]);
            at = at + 1;
        }
    }
    assert(pairs_of(out@) + Seq::<(int, int)>::empty() =~= pairs_of(out@));
    out
}

/// The first of the matches that covers a column.
pub open spec fn hit_at(h: Seq<(int, int)>, ci: int, i: int) -> Option<(int, int)>
    decreases h.len() - i,
{
    if i < 0 || i >= h.len() {
        None
    } else if h[i].0 <= ci < h[i].0 + h[i].1 {
        Some(h[i])
    } else {
        hit_at(h, ci, i + 1)
    }
}

pub(crate) fn match_at(h: &Vec<(usize, usize)>, ci: usize) -> (r: Option<(usize, usize)>)
    ensures
        (match r {
            Some((s, l)) => Some((s as int, l as int)),
            None => None,
        }) == hit_at(pairs_of(h@), ci as int, 0),
        r is Some ==> (r->0).0 <= ci,
{
    let ghost hs = pairs_of(h@);
    let mut i: usize = 0;
    while i < h.len()
        invariant
            i <= h@.len(),
            hs == pairs_of(h@),
            hit_at(hs, ci as int, 0) == hit_at(hs, ci as int, i as int),
        decreases h@.len() - i,
    {
        assert(hs[i as int] == (h@[i as int].0 as int, h@[i as int].1 as int));
        if h[i].0 <= ci && ci - h[i].0 < h[i].1 {
            return Some(h[i]);
        }
        i = i + 1;
    }
    None
}

/// Index of the first span at or after `i` that ends after a column.
pub open spec fn span_from(s: Seq<HlSpan>, ci: int, i: int) -> int
    decreases s.len() - i,
{
    if 0 <= i < s.len() && s[i].start + s[i].len <= ci {
        span_from(s, ci, i + 1)
    } else {
        i
    }
}

/// Syntax colour of a char: that of the first span not yet over, once it has begun.
pub open spec fn base_color(s: Seq<HlSpan>, ci: int) -> Rgb {
    let i = span_from(s, ci, 0);
    if i < s.len() && s[i].start <= ci {
        s[i].color
    } else {
        TEXT
    }
}

pub(crate) fn syntax_color(s: &[HlSpan], ci: usize) -> (r: Rgb)
    ensures
        r == base_color(s@, ci as int),
{
    let mut i: usize = 0;
    while i < s.len() && s[i].start <= ci && s[i].len <= ci - s[i].start
        invariant
            i <= s@.len(),
            span_from(s@, ci as int, 0) == span_from(s@, ci as int, i as int),
        ensures
            i == span_from(s@, ci as int, 0),
        decreases s@.len() - i,
    {
        i = i + 1;
    }
    if i < s.len() && s[i].start <= ci {
        s[i].color
    } else {
        TEXT
    }
}

/// The bracket at a place with its partner, in text order.
pub open spec fn bracket_ends(ls: Seq<Seq<char>>, p: Pos) -> Option<(Pos, Pos)> {
    let line = line_at(ls, p.line);
    let limit = BRACKET_BUDGET as int;
    if 0 <= p.col < line.len() {
        let c = line[p.col];
        if c == '(' {
            after(p, closing_within(ls, p, '(', ')', limit))
        } else if c == '[' {
            after(p, closing_within(ls, p, '[', ']', limit))
        } else if c == '{' {
            after(p, closing_within(ls, p, '{', '}', limit))
        } else if c == ')' {
            ahead(p, opening_within(ls, p, '(', ')', limit))
        } else if c == ']' {
            ahead(p, opening_within(ls, p, '[', ']', limit))
        } else if c == '}' {
            ahead(p, opening_within(ls, p, '{', '}', limit))
        } else {
            None
        }
    } else {
        None
    }
}

pub open spec fn after(p: Pos, q: Option<Pos>) -> Option<(Pos, Pos)> {
    match q {
        Some(q) => Some((p, q)),
        None => None,
    }
}

pub open spec fn ahead(p: Pos, q: Option<Pos>) -> Option<(Pos, Pos)> {
    match q {
        Some(q) => Some((q, p)),
        None => None,
    }
}

/// The model of a pair of positions.
pub open spec fn ends_of(r: Option<(Position, Position)>) -> Option<(Pos, Pos)> {
    match r {
        Some((a, b)) => Some((a@, b@)),
        None => None,
    }
}

/// Partner of the bracket under the cursor, scanning at most `BRACKET_BUDGET` chars.
pub fn bracket_pair(text: &TextBuffer, cursor: Position) -> (r: Option<(Position, Position)>)
    ensures
        ends_of(r) == bracket_ends(text@.lines, cursor@),
{
    let ch = match text.char_at(cursor) {
        Some(c) => c,
        None => {
            return None;
        },
    };
    let _count: usize = text.line_count();
    let _len: usize = text.line_len(cursor.line);
    let forward = ch == '(' || ch == '[' || ch == '{';
    let (open, close) = if ch == '(' || ch == ')' {
        ('(', ')')
    } else if ch == '[' || ch == ']' {
        ('[', ']')
    } else if ch == '{' || ch == '}' {
        ('{', '}')
    } else {
        return None;
    };
    if forward {
        match scan_forward(text, cursor, open, close, BRACKET_BUDGET) {
            Some(p) => Some((cursor, p)),
            None => None,
        }
    } else {
        match scan_backward(text, cursor, open, close, BRACKET_BUDGET) {
            Some(p) => Some((p, cursor)),
            None => None,
        }
    }
}

} // verus!
