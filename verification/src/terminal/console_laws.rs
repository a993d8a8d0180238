//! Laws of the terminal: which rows of its output are shown, and what its keys send.

use vstd::prelude::*;

use crate::keyboard::{is_typed, KeyName};
use crate::terminal::console::{display, input_of, rows_of_line, TermV};
use crate::terminal::editor::LineV;
use crate::terminal::remote::{event_code, input_code, key_code, typed_of, InputEvent};
use crate::terminal::shell::OutV;
use crate::terminal::toolbar::{column_plan, rows_plan, KEY_COUNT, MAX_ROWS};

verus! {

/// The rows of some lines of output and then of others are those of all of them.
pub proof fn law_display_adds(s: Seq<OutV>, t: Seq<OutV>, l: OutV, width: int)
    ensures
        display(s + t, width, (s.len() + t.len()) as int) == display(s, width, s.len() as int)
            + display(t, width, t.len() as int),
        display(s.push(l), width, (s.len() + 1) as int) == display(s, width, s.len() as int)
            + rows_of_line(l, width),
{
    lemma_display_prefix(s, t, width, s.len() as int);
    lemma_display_more(s, t, width, t.len() as int);
    lemma_display_prefix(s, seq![l], width, s.len() as int);
    assert(s + seq![l] =~= s.push(l));
}

proof fn lemma_display_prefix(s: Seq<OutV>, t: Seq<OutV>, width: int, n: int)
    requires
        0 <= n <= s.len(),
    ensures
        display(s + t, width, n) == display(s, width, n),
    decreases n,
{
    if n > 0 {
        lemma_display_prefix(s, t, width, n - 1);
    }
}

proof fn lemma_display_more(s: Seq<OutV>, t: Seq<OutV>, width: int, n: int)
    requires
        0 <= n <= t.len(),
    ensures
        display(s + t, width, s.len() + n) == display(s, width, s.len() as int) + display(
            t,
            width,
            n,
        ),
    decreases n,
{
    let a = display(s, width, s.len() as int);
    if n > 0 {
        lemma_display_more(s, t, width, n - 1);
        assert((s + t)[s.len() + n - 1] == t[n - 1]);
        assert(a + display(t, width, n - 1) + rows_of_line(t[n - 1], width) =~= a + (display(
            t,
            width,
            n - 1,
        ) + rows_of_line(t[n - 1], width)));
    } else {
        lemma_display_prefix(s, t, width, s.len() as int);
        assert(a + display(t, width, 0) =~= a);
    }
}

/// The rows shown are as many as there is room for, in their order, the newest at the bottom;
/// scrolled up, as many rows above that as it is scrolled, no further than to the first. Short
/// of rows, the room above them is left empty.
pub proof fn law_rows_shown(t: TermV, cols: int, rows: int, blink: bool)
    requires
        0 <= t.scroll_offset,
        rows >= 2,
    ensures
        ({
            let all = display(t.scrollback, cols, t.scrollback.len() as int);
            let f = t.frame(cols, rows, blink);
            let room = rows - 2;
            let n = all.len() as int;
            let up = if n <= room {
                0
            } else if t.scroll_offset <= n - room {
                t.scroll_offset
            } else {
                n - room
            };
            &&& f.pad + f.body.len() == room
            &&& n <= room ==> f.body == all
            &&& n > room ==> f.body == all.subrange(n - room - up, n - up)
        }),
{
    let all = display(t.scrollback, cols, t.scrollback.len() as int);
    assert(all.subrange(0, all.len() as int) =~= all);
}

/// Scrolling goes as far as it is asked to within what there is, and any key goes back to the
/// newest rows.
pub proof fn law_scrolling(t: TermV, n: int, most: int, key: KeyName, ctrl: bool)
    requires
        0 <= most,
        0 <= t.scroll_offset <= most,
    ensures
        ({
            let u = t.scrolled(n, most);
            &&& 0 <= u.scroll_offset <= most
            &&& 0 <= t.scroll_offset + n <= most ==> u.scroll_offset == t.scroll_offset + n
            &&& t.scroll_offset + n < 0 ==> u.scroll_offset == 0
            &&& t.scroll_offset + n > most ==> u.scroll_offset == most
            &&& u == (TermV { scroll_offset: u.scroll_offset, ..t })
        }),
        t.keyed(key, ctrl).scroll_offset == 0,
{
}

/// The input line shows the line's chars, and the cursor on one of them or just behind the last.
pub proof fn law_input_shown(e: LineV, blink: bool, i: int)
    requires
        e.wf(),
        0 <= i < input_of(e, blink).len(),
    ensures
        i < e.chars.len() ==> input_of(e, blink)[i].0 == e.chars[i],
        i >= e.chars.len() ==> input_of(e, blink)[i].0 == ' ',
        input_of(e, blink)[i].1 <==> blink && i == e.cursor,
        e.cursor < input_of(e, blink).len(),
{
}

/// Ctrl and a letter send its place in the alphabet; a letter alone sends nothing, as it comes
/// as text.
pub proof fn law_control_bytes(c: char)
    requires
        'a' <= c <= 'z',
    ensures
        key_code(KeyName::Letter(c), true).len() == 1,
        key_code(KeyName::Letter(c), true)[0] as int == c as int - 96,
        key_code(KeyName::Letter(c), false).len() == 0,
{
}

/// What is typed goes out char by char, control chars left out.
pub proof fn law_typed_text(s: Seq<char>)
    ensures
        typed_of(s) == s.filter(|c: char| is_typed(c)),
    decreases s.len(),
{
    reveal(Seq::filter);
    if s.len() > 0 {
        law_typed_text(s.drop_last());
    }
}

/// Events go out in the order they come.
pub proof fn law_events_in_order(a: Seq<InputEvent>, b: Seq<InputEvent>, n: int)
    requires
        0 <= n <= b.len(),
    ensures
        input_code(a + b, a.len() + n) == input_code(a, a.len() as int) + input_code(b, n),
    decreases n,
{
    if n > 0 {
        law_events_in_order(a, b, n - 1);
        assert((a + b)[a.len() + n - 1] == b[n - 1]);
        assert(input_code(a, a.len() as int) + input_code(b, n - 1) + event_code(b[n - 1])
            =~= input_code(a, a.len() as int) + (input_code(b, n - 1) + event_code(b[n - 1])));
    } else {
        lemma_events_prefix(a, b, a.len() as int);
        assert(input_code(a, a.len() as int) + input_code(b, 0) =~= input_code(a, a.len() as int));
    }
}

proof fn lemma_events_prefix(a: Seq<InputEvent>, b: Seq<InputEvent>, n: int)
    requires
        0 <= n <= a.len(),
    ensures
        input_code(a + b, n) == input_code(a, n),
    decreases n,
{
    if n > 0 {
        lemma_events_prefix(a, b, n - 1);
    }
}

/// The toolbar shows as many keys as fit beside its hide button in its rows, all of them where
/// they do, and takes no row more than they need.
pub proof fn law_toolbar_fits(per: int)
    requires
        1 <= per <= 1000,
    ensures
        ({
            let p = rows_plan(per);
            &&& p.items == p.shown + 1
            &&& p.items <= per * p.rows
            &&& per * (p.rows - 1) < p.items
            &&& p.rows <= MAX_ROWS
            &&& p.shown <= KEY_COUNT
            &&& p.shown < KEY_COUNT ==> p.items == per * MAX_ROWS
        }),
        ({
            let p = column_plan(per);
            &&& p.items == p.shown + 1 && p.rows == p.items && p.items <= per
            &&& p.shown <= KEY_COUNT
            &&& p.shown < KEY_COUNT ==> p.items == per
        }),
{
    let shown = if per * 2 - 1 <= 20 {
        per * 2 - 1
    } else {
        20
    };
    let r = (shown + 1 + per - 1) / per;
    assert(per * r >= shown + 1 && per * (r - 1) < shown + 1 && r >= 1) by (nonlinear_arith)
        requires
            per >= 1,
            shown >= 1,
            r == (shown + 1 + per - 1) / per,
    ;
    assert(r <= 2) by (nonlinear_arith)
        requires
            per >= 1,
            shown + 1 <= per * 2,
            per * (r - 1) < shown + 1,
    ;
}

} // verus!
