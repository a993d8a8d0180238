//! The terminal's state: the line being typed, the scrollback and what of it is shown.

use vstd::prelude::*;

use crate::keyboard::{is_typed, typed, KeyName};
use crate::rvim::buffer::{max, min};
use crate::rvim::theme::Rgb;
use crate::terminal::editor::{LineEditor, LineV};
use crate::terminal::shell::{outs, run, run_of_line, Effect, EffectV, OutLine, OutV, ResponseV};
use crate::terminal::theme::{ACCENT, DIM, ERROR, MUTED, SUCCESS};
use crate::terminal::wrap::{wrap, wrapped};
use crate::text::{
    cat, char_count, decimal, decimal_of, group_texts, join_lines, law_split_join, lines_of,
    split_lines, texts, unlines,
};
use crate::utf8::text_of_bytes;

verus! {

broadcast use group_texts;

/// Cap on retained scrollback lines.
pub const SCROLLBACK_CAP: usize = 2000;

pub struct Terminal {
    pub editor: LineEditor,
    pub scrollback: Vec<OutLine>,
    /// Display rows scrolled up from the bottom; 0 pins to the newest output.
    pub scroll_offset: usize,
    /// The terminal has been tapped, so it wants the keyboard and shows a solid cursor.
    pub focused: bool,
    /// Wrapped display rows, so idle frames skip re-wrapping.
    display_cache: Vec<OutLine>,
    /// Width the cached rows were wrapped to; `None` once the scrollback has changed.
    cache_key: Option<usize>,
}

/// Model of the terminal.
#[verifier::ext_equal]
pub struct TermV {
    pub editor: LineV,
    pub scrollback: Seq<OutV>,
    pub scroll_offset: int,
    pub focused: bool,
}

impl View for Terminal {
    type V = TermV;

    closed spec fn view(&self) -> TermV {
        TermV {
            editor: self.editor@,
            scrollback: outs(self.scrollback@),
            scroll_offset: self.scroll_offset as int,
            focused: self.focused,
        }
    }
}

/// The rows of a line of output, in its colour.
pub open spec fn rows_of_line(l: OutV, width: int) -> Seq<OutV> {
    Seq::new(wrapped(l.0, width).len(), |i: int| (wrapped(l.0, width)[i], l.1))
}

/// The rows of lines `[0, n)`.
pub open spec fn display(s: Seq<OutV>, width: int, n: int) -> Seq<OutV>
    decreases n,
{
    if n <= 0 {
        Seq::empty()
    } else {
        display(s, width, n - 1) + rows_of_line(s[n - 1], width)
    }
}

/// The last lines, as many as are kept.
pub open spec fn kept(s: Seq<OutV>) -> Seq<OutV> {
    if s.len() > SCROLLBACK_CAP {
        s.skip(s.len() - SCROLLBACK_CAP)
    } else {
        s
    }
}

impl TermV {
    pub open spec fn fresh() -> TermV {
        TermV {
            editor: LineV::fresh(),
            scrollback: Seq::empty(),
            scroll_offset: 0,
            focused: false,
        }.pushed(("Terminal ready — tap to type, `help` for commands."@, ACCENT)).pushed(
            ("swipe to scroll · ↑/↓ history · Ctrl+L clear"@, DIM),
        )
    }

    pub open spec fn wf(self) -> bool {
        self.editor.wf()
    }

    pub open spec fn pushed(self, l: OutV) -> TermV {
        TermV { scrollback: kept(self.scrollback.push(l)), ..self }
    }

    /// Lines `[0, n)` pushed.
    pub open spec fn pushed_all(self, ls: Seq<OutV>, n: int) -> TermV
        decreases n,
    {
        if n <= 0 {
            self
        } else {
            self.pushed_all(ls, n - 1).pushed(ls[n - 1])
        }
    }

    pub open spec fn emptied(self) -> TermV {
        TermV { scrollback: Seq::empty(), ..self }
    }

    pub open spec fn edited(self, e: LineV) -> TermV {
        TermV { editor: e, ..self }
    }

    pub open spec fn pinned(self) -> TermV {
        TermV { scroll_offset: 0, ..self }
    }

    /// What the shell answers to the line.
    pub open spec fn answer(self) -> ResponseV {
        run_of_line(self.editor.chars, self.editor.taken().history)
    }

    /// The line echoed and carried out, its output shown.
    pub open spec fn submitted(self) -> TermV {
        let r = self.answer();
        let t = self.edited(self.editor.taken()).pushed(("❯ "@ + self.editor.chars, DIM));
        let u = if r.effect is Clear {
            t.emptied()
        } else {
            t
        };
        u.pushed_all(r.lines, r.lines.len() as int).pinned()
    }

    /// A char of a text event: a line end submits, other control characters are nothing.
    pub open spec fn typed(self, c: char) -> TermV {
        if c == '\n' || c == '\r' {
            self.submitted()
        } else if is_typed(c) {
            self.edited(self.editor.inserted(c)).pinned()
        } else {
            self.pinned()
        }
    }

    /// A key pressed.
    pub open spec fn keyed(self, key: KeyName, ctrl: bool) -> TermV {
        let e = self.editor;
        (match key {
            KeyName::Enter => self.submitted(),
            KeyName::Backspace => self.edited(e.backspaced()),
            KeyName::Delete => self.edited(e.deleted()),
            KeyName::ArrowLeft => self.edited(e.lefted()),
            KeyName::ArrowRight => self.edited(e.righted()),
            KeyName::ArrowUp => self.edited(e.recalled_prev()),
            KeyName::ArrowDown => self.edited(e.recalled_next()),
            KeyName::Home => self.edited(e.at(0)),
            KeyName::End => self.edited(e.at(e.chars.len() as int)),
            KeyName::Escape => TermV { focused: false, ..self },
            KeyName::Letter(c) => if !ctrl {
                self
            } else if c == 'a' {
                self.edited(e.at(0))
            } else if c == 'e' {
                self.edited(e.at(e.chars.len() as int))
            } else if c == 'u' {
                self.edited(e.killed())
            } else if c == 'l' {
                self.emptied()
            } else if c == 'c' {
                self.pushed(("❯ "@ + e.chars + "^C"@, DIM)).edited(e.cleared())
            } else {
                self
            },
            _ => self,
        }).pinned()
    }

    /// Scrolled by rows, as far as there are any.
    pub open spec fn scrolled(self, rows: int, max_offset: int) -> TermV {
        TermV { scroll_offset: min(max(self.scroll_offset + rows, 0), max_offset), ..self }
    }

    /// The scrollback as it is saved: its texts, line by line.
    pub open spec fn saved(self) -> Seq<u8> {
        vstd::utf8::encode_utf8(unlines(line_texts(self.scrollback)))
    }

    /// A saved scrollback put back, in the default colour; other bytes change nothing.
    pub open spec fn reloaded(self, bytes: Seq<u8>) -> TermV {
        if vstd::utf8::valid_utf8(bytes) {
            let ls = lines_of(vstd::utf8::decode_utf8(bytes));
            TermV { scrollback: Seq::new(ls.len(), |i: int| (ls[i], MUTED)), ..self }
        } else {
            self
        }
    }
}

pub open spec fn line_texts(s: Seq<OutV>) -> Seq<Seq<char>> {
    Seq::new(s.len(), |i: int| s[i].0)
}

/// A saved scrollback comes back line by line.
pub proof fn law_scrollback_reloads(t: TermV, other: TermV)
    requires
        t.scrollback.len() > 0,
        forall|i: int| 0 <= i < t.scrollback.len() ==> !(#[trigger] t.scrollback[i]).0.contains('\n'),
    ensures
        line_texts(other.reloaded(t.saved()).scrollback) == line_texts(t.scrollback),
{
    let ls = line_texts(t.scrollback);
    assert forall|i: int| 0 <= i < ls.len() implies !(#[trigger] ls[i]).contains('\n') by {
        assert(ls[i] == t.scrollback[i].0);
    }
    law_split_join(ls, '\n');
    vstd::utf8::encode_utf8_valid_utf8(unlines(ls));
    vstd::utf8::encode_utf8_decode_utf8(unlines(ls));
    assert(line_texts(other.reloaded(t.saved()).scrollback) =~= ls);
}

/// The scrollback never grows past its cap by pushing.
pub proof fn law_scrollback_is_capped(t: TermV, l: OutV)
    ensures
        t.pushed(l).scrollback.len() <= SCROLLBACK_CAP,
        t.pushed(l).scrollback.last() == l,
{
}

/// What is drawn: the header's parts, the rows of the scrollback shown with the empty rows
/// above them, and the input line's chars with the cursor.
pub struct Frame {
    pub title: &'static str,
    /// Columns between the title and the hint.
    pub gap: usize,
    pub hint: String,
    /// Empty rows above the output.
    pub pad: usize,
    pub body: Vec<OutLine>,
    /// The chars of the input line; true = the cursor stands on it, lit.
    pub input: Vec<(char, bool)>,
}

/// Model of what is drawn.
#[verifier::ext_equal]
pub struct FrameV {
    pub title: Seq<char>,
    pub gap: int,
    pub hint: Seq<char>,
    pub pad: int,
    pub body: Seq<OutV>,
    pub input: Seq<(char, bool)>,
}

impl View for Frame {
    type V = FrameV;

    open spec fn view(&self) -> FrameV {
        FrameV {
            title: self.title@,
            gap: self.gap as int,
            hint: self.hint@,
            pad: self.pad as int,
            body: outs(self.body@),
            input: self.input@,
        }
    }
}

/// How far the output can be scrolled up: to its first row.
pub open spec fn farthest(total: int, body_rows: int) -> int {
    max(total - body_rows, 0)
}

pub open spec fn title_of(focused: bool) -> Seq<char> {
    if focused {
        " terminal — tap to hide keyboard"@
    } else {
        " terminal — tap to type"@
    }
}

pub open spec fn hint_of(offset: int) -> Seq<char> {
    if offset > 0 {
        "↓ "@ + decimal_of(offset as nat) + " newer "@
    } else {
        Seq::empty()
    }
}

/// The input line: the chars, the cursor lit while it blinks on, a blank for it past the end.
pub open spec fn input_of(e: LineV, blink_on: bool) -> Seq<(char, bool)> {
    Seq::new(
        e.chars.len() + if e.cursor >= e.chars.len() {
            1nat
        } else {
            0
        },
        |i: int|
            if i < e.chars.len() {
                (e.chars[i], i == e.cursor && blink_on)
            } else {
                (' ', blink_on)
            },
    )
}

impl TermV {
    /// The offset held to what there is to scroll.
    pub open spec fn held(self, width: int, body_rows: int) -> int {
        let total = display(self.scrollback, width, self.scrollback.len() as int).len() as int;
        min(self.scroll_offset, farthest(total, body_rows))
    }

    /// What is drawn on a grid: a header row, the output held to the bottom, an input row.
    pub open spec fn frame(self, cols: int, rows: int, blink_on: bool) -> FrameV {
        let body_rows = max(rows - 2, 0);
        let all = display(self.scrollback, cols, self.scrollback.len() as int);
        let offset = self.held(cols, body_rows);
        let start = farthest(all.len() as int, body_rows) - offset;
        let end = min(start + body_rows, all.len() as int);
        let title = title_of(self.focused);
        let hint = hint_of(offset);
        FrameV {
            title,
            gap: max(cols - (title.len() + hint.len()), 0),
            hint,
            pad: max(body_rows - (end - start), 0),
            body: all.subrange(start, end),
            input: input_of(self.editor, blink_on),
        }
    }
}

impl Terminal {
    /// The cached rows, where there are any, are those of the scrollback.
    pub closed spec fn cache_ok(self) -> bool {
        self.cache_key matches Some(w) ==> outs(self.display_cache@) == display(
            self@.scrollback,
            w as int,
            self@.scrollback.len() as int,
        )
    }

    pub fn new() -> (r: Self)
        ensures
            r@ == TermV::fresh(),
            r@.wf(),
            r.cache_ok(),
    {
        let mut t = Terminal {
            editor: LineEditor::new(),
            scrollback: Vec::new(),
            scroll_offset: 0,
            focused: false,
            display_cache: Vec::new(),
            cache_key: None,
        };
        assert(t@.scrollback =~= Seq::empty());
        t.say("Terminal ready — tap to type, `help` for commands.", ACCENT);
        t.say("swipe to scroll · ↑/↓ history · Ctrl+L clear", DIM);
        t
    }

    fn say(&mut self, text: &str, color: Rgb)
        ensures
            final(self)@ == old(self)@.pushed((text@, color)),
            final(self).cache_ok(),
    {
        self.push(OutLine { text: text.to_string(), color });
    }

    pub fn push(&mut self, line: OutLine)
        ensures
            final(self)@ == old(self)@.pushed(line@),
            final(self).cache_ok(),
    {
        let ghost before = outs(self.scrollback@);
        self.scrollback.push(line);
        assert(outs(self.scrollback@) =~= before.push(line@));
        let ghost full = outs(self.scrollback@);
        let n: usize = self.scrollback.len();
        if n > SCROLLBACK_CAP {
            let over: usize = n - SCROLLBACK_CAP;
            let mut rest: Vec<OutLine> = self.scrollback.split_off(over);
            std::mem::swap(&mut self.scrollback, &mut rest);
            assert(outs(self.scrollback@) =~= kept(full));
        }
        self.cache_key = None;
    }

    pub fn clear_scrollback(&mut self)
        ensures
            final(self)@ == old(self)@.emptied(),
            final(self).cache_ok(),
    {
        self.scrollback = Vec::new();
        self.cache_key = None;
        assert(self@ =~= old(self)@.emptied());
    }

    fn push_all(&mut self, lines: Vec<OutLine>)
        ensures
            final(self)@ == old(self)@.pushed_all(outs(lines@), lines@.len() as int),
            final(self)@.editor == old(self)@.editor,
            old(self).cache_ok() ==> final(self).cache_ok(),
    {
        let ghost t0 = self@;
        let ghost ls = outs(lines@);
        let mut i: usize = 0;
        while i < lines.len()
            invariant
                i <= lines@.len(),
                ls == outs(lines@),
                self@ == t0.pushed_all(ls, i as int),
                self@.editor == t0.editor,
                old(self).cache_ok() ==> self.cache_ok(),
            decreases lines@.len() - i,
        {
            let line = OutLine { text: lines[i].text.clone(), color: lines[i].color };
            assert(line@ == ls[i as int]);
            self.push(line);
            i = i + 1;
        }
    }

    /// Carry out the line. What is left to do of it, if anything, is returned: `show_value` or
    /// `show_error` shows the outcome.
    pub fn submit(&mut self) -> (r: Effect)
        requires
            old(self)@.wf(),
            old(self).cache_ok(),
        ensures
            final(self)@ == old(self)@.submitted(),
            final(self)@.wf(),
            final(self).cache_ok(),
            r@ == old(self)@.answer().effect,
    {
        let ghost t0 = self@;
        let line = self.editor.take();
        self.say(cat("❯ ", line.as_str()).as_str(), DIM);
        let response = run(line.as_str(), self.editor.history());
        assert(response@ == t0.answer());
        let clear = match &response.effect {
            Effect::Clear => true,
            _ => false,
        };
        if clear {
            self.clear_scrollback();
        }
        self.push_all(response.lines);
        self.scroll_offset = 0;
        response.effect
    }

    /// Show the value of an expression.
    pub fn show_value(&mut self, value: &str)
        ensures
            final(self)@ == old(self)@.pushed(("= "@ + value@, SUCCESS)),
            final(self).cache_ok(),
    {
        self.say(cat("= ", value).as_str(), SUCCESS);
    }

    /// Show that a number was not expected.
    pub fn show_misplaced(&mut self, number: &str)
        ensures
            final(self)@ == old(self)@.pushed(
                ("error: unexpected `"@ + number@ + "`"@, ERROR),
            ),
            final(self).cache_ok(),
    {
        self.say(cat(cat("error: unexpected `", number).as_str(), "`").as_str(), ERROR);
    }

    /// Take a char of a text event.
    pub fn on_char(&mut self, c: char) -> (r: Effect)
        requires
            old(self)@.wf(),
            old(self).cache_ok(),
        ensures
            final(self)@ == old(self)@.typed(c),
            final(self)@.wf(),
            final(self).cache_ok(),
            r@ == (if c == '\n' || c == '\r' {
                old(self)@.answer().effect
            } else {
                EffectV::Nothing
            }),
    {
        if c == '\n' || c == '\r' {
            return self.submit();
        }
        if typed(c) {
            self.editor.insert(c);
        }
        self.scroll_offset = 0;
        Effect::Nothing
    }

    /// Take a key press; `ctrl` is Ctrl or Cmd.
    pub fn on_key(&mut self, key: KeyName, ctrl: bool) -> (r: Effect)
        requires
            old(self)@.wf(),
            old(self).cache_ok(),
        ensures
            final(self)@ == old(self)@.keyed(key, ctrl),
            final(self)@.wf(),
            final(self).cache_ok(),
            r@ == (if key is Enter {
                old(self)@.answer().effect
            } else {
                EffectV::Nothing
            }),
    {
        match key {
            KeyName::Enter => {
                return self.submit();
            },
            KeyName::Backspace => self.editor.backspace(),
            KeyName::Delete => self.editor.delete(),
            KeyName::ArrowLeft => self.editor.left(),
            KeyName::ArrowRight => self.editor.right(),
            KeyName::ArrowUp => self.editor.history_prev(),
            KeyName::ArrowDown => self.editor.history_next(),
            KeyName::Home => self.editor.home(),
            KeyName::End => self.editor.end(),
            KeyName::Escape => {
                self.focused = false;
            },
            KeyName::Letter(c) => {
                if ctrl {
                    if c == 'a' {
                        self.editor.home();
                    } else if c == 'e' {
                        self.editor.end();
                    } else if c == 'u' {
                        self.editor.kill_to_start();
                    } else if c == 'l' {
                        self.clear_scrollback();
                    } else if c == 'c' {
                        let text = self.editor.text();
                        self.say(cat(cat("❯ ", text.as_str()).as_str(), "^C").as_str(), DIM);
                        self.editor.clear();
                    }
                }
            },
            _ => {},
        }
        self.scroll_offset = 0;
        Effect::Nothing
    }

    /// Scroll by whole rows; positive reveals older lines.
    pub fn scroll_by(&mut self, rows: i64, max_offset: usize)
        requires
            old(self).cache_ok(),
        ensures
            final(self)@ == old(self)@.scrolled(rows as int, max_offset as int),
            final(self).cache_ok(),
    {
        let next: i128 = self.scroll_offset as i128 + rows as i128;
        self.scroll_offset = if next < 0 {
            0
        } else if next > max_offset as i128 {
            max_offset
        } else {
            next as usize
        };
    }

    /// Wrapped display rows of the scrollback.
    fn display_rows(&self, width: usize) -> (r: Vec<OutLine>)
        ensures
            outs(r@) == display(self@.scrollback, width as int, self@.scrollback.len() as int),
    {
        let ghost s = self@.scrollback;
        let mut out: Vec<OutLine> = Vec::new();
        let mut i: usize = 0;
        assert(outs(out@) =~= display(s, width as int, 0));
        while i < self.scrollback.len()
            invariant
                s == outs(self.scrollback@),
                i <= self.scrollback@.len(),
                outs(out@) == display(s, width as int, i as int),
            decreases self.scrollback@.len() - i,
        {
            let pieces = wrap(self.scrollback[i].text.as_str(), width);
            let color: Rgb = self.scrollback[i].color;
            let ghost before = outs(out@);
            let ghost rows = rows_of_line(s[i as int], width as int);
            let mut k: usize = 0;
            assert(outs(out@) =~= before + rows.take(0));
            while k < pieces.len()
                invariant
                    k <= pieces@.len() == rows.len(),
                    i < self.scrollback@.len(),
                    s == outs(self.scrollback@),
                    color == s[i as int].1,
                    texts(pieces@) == wrapped(s[i as int].0, width as int),
                    rows == rows_of_line(s[i as int], width as int),
                    outs(out@) == before + rows.take(k as int),
                decreases pieces@.len() - k,
            {
                let ghost done = outs(out@);
                let line = OutLine { text: pieces[k].clone(), color };
                assert(line@ == rows[k as int]) by {
                    assert(texts(pieces@)[k as int] == pieces@[k as int]@);
                }
                out.push(line);
                proof {
                    assert(outs(out@) =~= done.push(rows[k as int]));
                    assert(before + rows.take(k + 1) =~= (before + rows.take(k as int)).push(
                        rows[k as int],
                    ));
                }
                k = k + 1;
            }
            assert(rows.take(k as int) =~= rows);
            i = i + 1;
        }
        out
    }

    /// Wrapped display rows for `width`, rebuilt only when the scrollback or width changes;
    /// how many there are.
    pub fn ensure_display(&mut self, width: usize) -> (r: usize)
        requires
            old(self).cache_ok(),
        ensures
            final(self)@ == old(self)@,
            final(self).cache_ok(),
            r == display(
                old(self)@.scrollback,
                width as int,
                old(self)@.scrollback.len() as int,
            ).len(),
            final(self).fresh_for(width as int),
    {
        let same = match self.cache_key {
            Some(w) => w == width,
            None => false,
        };
        if !same {
            self.display_cache = self.display_rows(width);
            self.cache_key = Some(width);
        }
        self.display_cache.len()
    }

    /// The cached rows are those for a width.
    pub closed spec fn fresh_for(self, width: int) -> bool {
        outs(self.display_cache@) == display(
            self@.scrollback,
            width,
            self@.scrollback.len() as int,
        )
    }

    /// Lay out a frame on a grid of `cols` by `rows` cells.
    pub fn draw(&mut self, cols: u16, rows: u16, blink_on: bool) -> (r: Frame)
        requires
            old(self)@.wf(),
            old(self).cache_ok(),
        ensures
            r@ == old(self)@.frame(cols as int, rows as int, blink_on),
            final(self)@ == (TermV {
                scroll_offset: old(self)@.held(cols as int, max(rows - 2, 0)),
                ..old(self)@
            }),
            final(self).cache_ok(),
    {
        let ghost t0 = self@;
        let width: usize = cols as usize;
        let body_rows: usize = if rows > 2 {
            (rows - 2) as usize
        } else {
            0
        };
        let total: usize = self.ensure_display(width);
        let max_off: usize = if total > body_rows {
            total - body_rows
        } else {
            0
        };
        if self.scroll_offset > max_off {
            self.scroll_offset = max_off;
        }
        let ghost all = display(t0.scrollback, width as int, t0.scrollback.len() as int);
        let start: usize = max_off - self.scroll_offset;
        let end: usize = if body_rows < total - start {
            start + body_rows
        } else {
            total
        };
        let shown: usize = end - start;
        let mut body: Vec<OutLine> = Vec::new();
        let mut i: usize = start;
        while i < end
            invariant
                start <= i <= end <= total,
                total == self.display_cache@.len(),
                outs(self.display_cache@) == all,
                outs(body@) =~= all.subrange(start as int, i as int),
            decreases end - i,
        {
            let ghost done = outs(body@);
            let row = OutLine {
                text: self.display_cache[i].text.clone(),
                color: self.display_cache[i].color,
            };
            assert(row@ == all[i as int]);
            body.push(row);
            assert(outs(body@) =~= done.push(all[i as int]));
            i = i + 1;
        }
        let title = if self.focused {
            " terminal — tap to hide keyboard"
        } else {
            " terminal — tap to type"
        };
        let hint = if self.scroll_offset > 0 {
            cat(cat("↓ ", decimal(self.scroll_offset).as_str()).as_str(), " newer ")
        } else {
            let none = String::new();
            assert(none@ =~= Seq::<char>::empty());
            none
        };
        let tw: usize = char_count(title);
        let hw: usize = char_count(hint.as_str());
        let gap: usize = if tw < width && hw < width - tw {
            width - tw - hw
        } else {
            0
        };
        let input = self.input_line(blink_on);
        Frame {
            title,
            gap,
            hint,
            pad: if body_rows > shown {
                body_rows - shown
            } else {
                0
            },
            body,
            input,
        }
    }

    fn input_line(&self, blink_on: bool) -> (r: Vec<(char, bool)>)
        requires
            self@.wf(),
        ensures
            r@ == input_of(self@.editor, blink_on),
    {
        let ghost want = input_of(self@.editor, blink_on);
        let chars = self.editor.chars();
        let cursor: usize = self.editor.cursor();
        let mut out: Vec<(char, bool)> = Vec::new();
        let mut i: usize = 0;
        while i < chars.len()
            invariant
                chars@ == self@.editor.chars,
                cursor == self@.editor.cursor,
                want == input_of(self@.editor, blink_on),
                i <= chars@.len(),
                out@ =~= want.take(i as int),
            decreases chars@.len() - i,
        {
            out.push((chars[i], i == cursor && blink_on));
            i = i + 1;
        }
        if cursor >= chars.len() {
            out.push((' ', blink_on));
        }
        assert(out@ =~= want);
        out
    }

    /// The scrollback text, kept across reloads (colours reset to default).
    pub fn save_state(&self) -> (r: Vec<u8>)
        ensures
            r@ == self@.saved(),
    {
        let mut lines: Vec<String> = Vec::new();
        let mut i: usize = 0;
        while i < self.scrollback.len()
            invariant
                i <= self.scrollback@.len(),
                texts(lines@) =~= line_texts(self@.scrollback).take(i as int),
            decreases self.scrollback@.len() - i,
        {
            let ghost done = texts(lines@);
            lines.push(self.scrollback[i].text.clone());
            assert(texts(lines@) =~= done.push(line_texts(self@.scrollback)[i as int]));
            i = i + 1;
        }
        assert(texts(lines@) =~= line_texts(self@.scrollback));
        join_lines(lines.as_slice()).as_str().as_bytes_vec()
    }

    /// Put a saved scrollback back.
    pub fn restore_state(&mut self, bytes: Vec<u8>)
        requires
            old(self).cache_ok(),
        ensures
            final(self)@ == old(self)@.reloaded(bytes@),
            final(self).cache_ok(),
    {
        if let Some(text) = text_of_bytes(bytes) {
            let lines = split_lines(text.as_str());
            let ghost ls = texts(lines@);
            let mut out: Vec<OutLine> = Vec::new();
            let mut i: usize = 0;
            while i < lines.len()
                invariant
                    i <= lines@.len(),
                    ls == texts(lines@),
                    outs(out@) =~= Seq::new(i as nat, |k: int| (ls[k], MUTED)),
                decreases lines@.len() - i,
            {
                let ghost done = outs(out@);
                out.push(OutLine { text: lines[i].clone(), color: MUTED });
                assert(outs(out@) =~= done.push((ls[i as int], MUTED)));
                i = i + 1;
            }
            self.scrollback = out;
            self.cache_key = None;
            assert(self@ =~= old(self)@.reloaded(bytes@));
        }
    }
}

} // verus!
