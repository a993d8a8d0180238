//! Insert and replace modes.

use vstd::prelude::*;

use crate::host::HostHandle;
use crate::rvim::buffer::{after_insert, clamped, line_at, max, min, pos, pos_le, Position};
use crate::rvim::edits::four_spaces;
use crate::rvim::keys::Key;
use crate::rvim::motion::{advance, advanced, len_at, word_back, word_back_of};
use crate::rvim::state::{BufV, Buffer, EditorState};
use crate::rvim::vim::operate::indent_string;
use crate::rvim::vim::{ed, same_replay, Ed, EngV, VimEngine};
use crate::text::{range_string, space_prefix, to_chars, trim_end_of, trimmed_len};

verus! {

/// Only spaces before column `col`.
pub open spec fn spaces_before(s: Seq<char>, col: int) -> bool {
    forall|i: int| 0 <= i < col && i < s.len() ==> #[trigger] s[i] == ' '
}

/// What Enter inserts after `before`: a line break, the same indent, and one level more after
/// an opening bracket.
pub open spec fn break_text(before: Seq<char>) -> Seq<char> {
    let t = trim_end_of(before);
    let indent = before.take(space_prefix(before));
    let opens = t.len() > 0 && (t.last() == '{' || t.last() == '(' || t.last() == '[');
    seq!['\n'] + indent + (if opens {
        four_spaces()
    } else {
        Seq::empty()
    })
}

impl BufV {
    /// Text put at the cursor, the cursor after it.
    pub open spec fn put(self, s: Seq<char>) -> BufV {
        let c = after_insert(clamped(self.text.lines, self.cursor, true), s);
        BufV {
            text: self.text.text_inserted(self.cursor, s),
            cursor: c,
            desired_col: c.col,
            ..self
        }
    }

    /// A typed character; a closing brace after nothing but spaces first takes off one level
    /// of indent.
    pub open spec fn typed(self, c: char) -> BufV {
        let cur = self.cursor;
        if c == '}' && cur.col >= 4 && spaces_before(line_at(self.text.lines, cur.line), cur.col) {
            BufV {
                text: self.text.range_deleted(pos(cur.line, cur.col - 4), cur),
                cursor: pos(cur.line, cur.col - 4),
                ..self
            }.put(seq![c])
        } else {
            self.put(seq![c])
        }
    }

    /// The character (or line break) before the cursor deleted.
    pub open spec fn backspaced(self) -> BufV {
        let cur = self.cursor;
        if cur.col > 0 {
            BufV {
                text: self.text.range_deleted(pos(cur.line, cur.col - 1), cur),
                cursor: pos(cur.line, cur.col - 1),
                desired_col: cur.col - 1,
                ..self
            }
        } else if cur.line > 0 {
            let p = pos(cur.line - 1, len_at(self.text.lines, cur.line - 1));
            BufV {
                text: self.text.range_deleted(p, cur),
                cursor: p,
                desired_col: p.col,
                ..self
            }
        } else {
            BufV { desired_col: cur.col, ..self }
        }
    }

    /// The word before the cursor deleted, no further than the line start.
    pub open spec fn word_erased(self) -> BufV {
        let cur = self.cursor;
        let w = word_back_of(self.text.lines, cur, false);
        let p = if w.line != cur.line {
            pos(cur.line, 0)
        } else {
            w
        };
        if pos_le(p, cur) && p != cur {
            let t = self.text.range_deleted(p, cur);
            let c = clamped(t.lines, p, true);
            BufV { text: t, cursor: c, desired_col: c.col, ..self }
        } else {
            self
        }
    }

    /// Everything before the cursor on its line deleted.
    pub open spec fn line_erased(self) -> BufV {
        let cur = self.cursor;
        if cur.col > 0 {
            BufV {
                text: self.text.range_deleted(pos(cur.line, 0), cur),
                cursor: pos(cur.line, 0),
                desired_col: 0,
                ..self
            }
        } else {
            self
        }
    }

    /// The character (or line break) under the cursor deleted.
    pub open spec fn deleted_under(self) -> BufV {
        let end = advanced(self.text.lines, self.cursor);
        if end != self.cursor {
            BufV { text: self.text.range_deleted(self.cursor, end), ..self }
        } else {
            self
        }
    }

    /// Arrow, Home and End movement while editing.
    pub open spec fn edit_moved(self, key: Key) -> BufV {
        let cur = self.cursor;
        let target = match key {
            Key::Left => Some(pos(cur.line, max(cur.col - 1, 0))),
            Key::Right => Some(pos(cur.line, cur.col + 1)),
            Key::Up => Some(pos(max(cur.line - 1, 0), self.desired_col)),
            Key::Down => Some(pos(cur.line + 1, self.desired_col)),
            Key::Home => Some(pos(cur.line, 0)),
            Key::End => Some(pos(cur.line, len_at(self.text.lines, cur.line))),
            _ => None,
        };
        match target {
            None => self,
            Some(p) => {
                let c = clamped(self.text.lines, p, true);
                BufV {
                    cursor: c,
                    desired_col: if key == Key::Up || key == Key::Down {
                        self.desired_col
                    } else {
                        c.col
                    },
                    ..self
                }
            },
        }
    }

    /// A key in insert mode that stays in it.
    pub open spec fn insert_keyed(self, key: Key) -> BufV {
        let cur = self.cursor;
        match key {
            Key::Char(c) => self.typed(c),
            Key::Enter => self.put(
                break_text(
                    line_at(self.text.lines, cur.line).take(
                        min(cur.col, len_at(self.text.lines, cur.line)),
                    ),
                ),
            ),
            Key::Backspace => self.backspaced(),
            Key::Ctrl(c) => if c == 'w' {
                self.word_erased()
            } else if c == 'u' {
                self.line_erased()
            } else {
                self
            },
            Key::Delete => self.deleted_under(),
            Key::Tab => self.put(four_spaces()),
            _ => self.edit_moved(key),
        }
    }

    /// A key in replace mode that stays in it.
    pub open spec fn replace_keyed(self, key: Key) -> BufV {
        let cur = self.cursor;
        match key {
            Key::Char(c) => if self.text.has_char(cur) {
                BufV {
                    text: self.text.char_replaced(cur, c),
                    cursor: pos(cur.line, cur.col + 1),
                    desired_col: cur.col + 1,
                    ..self
                }
            } else {
                self.put(seq![c])
            },
            Key::Enter => self.put(seq!['\n']),
            Key::Backspace => BufV {
                cursor: pos(cur.line, max(cur.col - 1, 0)),
                desired_col: max(cur.col - 1, 0),
                ..self
            },
            _ => self.edit_moved(key),
        }
    }
}

impl Ed {
    /// A key in insert mode.
    #[verifier::opaque]
    pub open spec fn insert_keyed(self, key: Key) -> Ed {
        if key == Key::Esc || key == Key::Ctrl('c') {
            self.left_insert()
        } else if key == Key::Char('k') && self.e.insert_j {
            let d = if self.has() && self.buf().cursor.col > 0 {
                let b = self.buf();
                let p = pos(b.cursor.line, b.cursor.col - 1);
                self.with(BufV { text: b.text.range_deleted(p, b.cursor), cursor: p, ..b })
            } else {
                self
            };
            d.left_insert()
        } else {
            let d = Ed { e: EngV { insert_j: key == Key::Char('j'), ..self.e }, ..self };
            if d.has() {
                d.with(d.buf().insert_keyed(key))
            } else {
                d
            }
        }
    }

    /// A key in replace mode.
    #[verifier::opaque]
    pub open spec fn replace_keyed(self, key: Key) -> Ed {
        if key == Key::Esc || key == Key::Ctrl('c') {
            self.left_insert()
        } else if self.has() {
            self.with(self.buf().replace_keyed(key))
        } else {
            self
        }
    }
}

/// Put text at the cursor, the cursor after it.
fn put(buf: &mut Buffer, s: &str)
    requires
        old(buf)@.sane(),
    ensures
        final(buf)@ == old(buf)@.put(s@),
        final(buf)@.wf(),
{
    buf.cursor = buf.text.insert_text(buf.cursor, s);
    buf.desired_col = buf.cursor.col;
}

/// Put one character at the cursor.
fn put_char(buf: &mut Buffer, c: char)
    requires
        old(buf)@.sane(),
    ensures
        final(buf)@ == old(buf)@.put(seq![c]),
        final(buf)@.wf(),
{
    buf.cursor = buf.text.insert_char(buf.cursor, c);
    buf.desired_col = buf.cursor.col;
}

fn only_spaces_before(s: &str, col: usize) -> (r: bool)
    ensures
        r == spaces_before(s@, col as int),
{
    let chars = to_chars(s);
    let mut i: usize = 0;
    while i < col && i < chars.len()
        invariant
            chars@ == s@,
            i <= chars@.len(),
            forall|j: int| 0 <= j < i ==> #[trigger] chars@[j] == ' ',
        decreases chars@.len() - i,
    {
        if chars[i] != ' ' {
            return false;
        }
        i = i + 1;
    }
    true
}

fn type_char(buf: &mut Buffer, c: char)
    requires
        old(buf)@.wf(),
    ensures
        final(buf)@ == old(buf)@.typed(c),
        final(buf)@.sane(),
{
    let cur = buf.cursor;
    if c == '}' && cur.col >= 4 && only_spaces_before(buf.text.line(cur.line), cur.col) {
        buf.text.delete_range(Position::new(cur.line, cur.col - 4), cur);
        buf.cursor = Position::new(cur.line, cur.col - 4);
    }
    put_char(buf, c);
}

fn backspace(buf: &mut Buffer)
    requires
        old(buf)@.wf(),
    ensures
        final(buf)@ == old(buf)@.backspaced(),
        final(buf)@.sane(),
{
    let cur = buf.cursor;
    if cur.col > 0 {
        buf.text.delete_range(Position::new(cur.line, cur.col - 1), cur);
        buf.cursor = Position::new(cur.line, cur.col - 1);
    } else if cur.line > 0 {
        let plen: usize = buf.text.line_len(cur.line - 1);
        buf.text.delete_range(Position::new(cur.line - 1, plen), cur);
        buf.cursor = Position::new(cur.line - 1, plen);
    }
    buf.desired_col = buf.cursor.col;
}

fn erase_word(buf: &mut Buffer)
    requires
        old(buf)@.wf(),
    ensures
        final(buf)@ == old(buf)@.word_erased(),
        final(buf)@.sane(),
{
    let cur = buf.cursor;
    let w = word_back(&buf.text, cur, false);
    let target = if w.line != cur.line {
        Position::new(cur.line, 0)
    } else {
        w
    };
    if target.le(cur) && target != cur {
        assert(target@ != cur@);
        buf.text.delete_range(target, cur);
        buf.cursor = buf.text.clamp(target, true);
        buf.desired_col = buf.cursor.col;
    }
}

fn erase_line(buf: &mut Buffer)
    requires
        old(buf)@.wf(),
    ensures
        final(buf)@ == old(buf)@.line_erased(),
        final(buf)@.sane(),
{
    let cur = buf.cursor;
    if cur.col > 0 {
        buf.text.delete_range(Position::new(cur.line, 0), cur);
        buf.cursor = Position::new(cur.line, 0);
        buf.desired_col = 0;
    }
}

fn delete_under(buf: &mut Buffer)
    requires
        old(buf)@.wf(),
    ensures
        final(buf)@ == old(buf)@.deleted_under(),
        final(buf)@.sane(),
{
    let cur = buf.cursor;
    let end = advance(&buf.text, cur);
    if end != cur {
        assert(end@ != cur@);
        buf.text.delete_range(cur, end);
    }
}

fn break_line(buf: &mut Buffer)
    requires
        old(buf)@.wf(),
    ensures
        final(buf)@ == old(buf)@.insert_keyed(Key::Enter),
        final(buf)@.sane(),
{
    let cur = buf.cursor;
    let chars = to_chars(buf.text.line(cur.line));
    let before = range_string(chars.as_slice(), 0, cur.col);
    let ghost ls = buf.text@.lines;
    assert(before@ =~= line_at(ls, cur.line as int).take(min(cur.col as int, len_at(ls, cur.line as int))));
    let s = break_string(before.as_str());
    put(buf, s.as_str());
}

fn break_string(before: &str) -> (r: String)
    ensures
        r@ == break_text(before@),
{
    let chars = to_chars(before);
    let n: usize = trimmed_len(chars.as_slice());
    let opens = n > 0 && (chars[n - 1] == '{' || chars[n - 1] == '(' || chars[n - 1] == '[');
    let mut out = String::new();
    out.push('\n');
    let indent = indent_string(before);
    out.append(indent.as_str());
    assert(out@ =~= seq!['\n'] + before@.take(space_prefix(before@)));
    if opens {
        out.push(' ');
        out.push(' ');
        out.push(' ');
        out.push(' ');
    }
    assert(out@ =~= break_text(before@));
    out
}

/// Arrow/Home/End movement shared by insert and replace modes.
fn move_editing_cursor(buf: &mut Buffer, key: Key)
    requires
        old(buf)@.wf(),
    ensures
        final(buf)@ == old(buf)@.edit_moved(key),
        final(buf)@.wf(),
{
    let cur = buf.cursor;
    let target = match key {
        Key::Left => Position::new(
            cur.line,
            if cur.col > 0 {
                cur.col - 1
            } else {
                0
            },
        ),
        Key::Right => Position::new(cur.line, cur.col + 1),
        Key::Up => Position::new(
            if cur.line > 0 {
                cur.line - 1
            } else {
                0
            },
            buf.desired_col,
        ),
        Key::Down => Position::new(cur.line + 1, buf.desired_col),
        Key::Home => Position::new(cur.line, 0),
        Key::End => Position::new(cur.line, buf.text.line_len(cur.line)),
        _ => {
            return;
        },
    };
    buf.cursor = buf.text.clamp(target, true);
    if key != Key::Up && key != Key::Down {
        buf.desired_col = buf.cursor.col;
    }
}

/// A key in insert mode that stays in it.
fn insert_into(buf: &mut Buffer, key: Key)
    requires
        old(buf)@.wf(),
    ensures
        final(buf)@ == old(buf)@.insert_keyed(key),
        final(buf)@.sane(),
{
    match key {
        Key::Char(c) => type_char(buf, c),
        Key::Enter => break_line(buf),
        Key::Backspace => backspace(buf),
        // Ctrl+w deletes the word before the cursor, stopping at line start.
        Key::Ctrl('w') => erase_word(buf),
        // Ctrl+u deletes from the line start to the cursor.
        Key::Ctrl('u') => erase_line(buf),
        Key::Delete => delete_under(buf),
        Key::Tab => {
            let mut s = String::new();
            s.push(' ');
            s.push(' ');
            s.push(' ');
            s.push(' ');
            assert(s@ =~= four_spaces());
            put(buf, s.as_str());
        },
        _ => move_editing_cursor(buf, key),
    }
}

/// A key in replace mode that stays in it.
fn replace_into(buf: &mut Buffer, key: Key)
    requires
        old(buf)@.wf(),
    ensures
        final(buf)@ == old(buf)@.replace_keyed(key),
        final(buf)@.sane(),
{
    match key {
        Key::Char(c) => {
            let cur = buf.cursor;
            if buf.text.replace_char(cur, c) {
                buf.cursor = Position::new(cur.line, cur.col + 1);
                buf.desired_col = cur.col + 1;
            } else {
                assert(buf@ == old(buf)@);
                put_char(buf, c);
            }
        },
        Key::Enter => put_char(buf, '\n'),
        Key::Backspace => {
            let cur = buf.cursor;
            let col: usize = if cur.col > 0 {
                cur.col - 1
            } else {
                0
            };
            buf.cursor = Position::new(cur.line, col);
            buf.desired_col = col;
        },
        _ => move_editing_cursor(buf, key),
    }
}

impl VimEngine {
    pub(crate) fn insert_key(&mut self, st: &mut EditorState, host: &mut HostHandle, key: Key)
        requires
            ed(*old(self), *old(st), *old(host)).wf(),
        ensures
            same_replay(old(self)@, final(self)@),
            ed(*final(self), *final(st), *final(host)).sane(),
            ed(*final(self), *final(st), *final(host)) == ed(
                *old(self),
                *old(st),
                *old(host),
            ).insert_keyed(key),
    {
        reveal(Ed::insert_keyed);
        if key == Key::Esc || key == Key::Ctrl('c') {
            self.leave_insert(st, host);
        } else if key == Key::Char('k') && self.insert_j {
            if let Some(buf) = st.buf_mut() {
                let cur = buf.cursor;
                if cur.col > 0 {
                    buf.text.delete_range(Position::new(cur.line, cur.col - 1), cur);
                    buf.cursor = Position::new(cur.line, cur.col - 1);
                }
            }
            assert(old(st)@.has_buf() && old(st)@.buf().cursor.col == 0 ==> st@.buffers
                =~= old(st)@.buffers);
            self.leave_insert(st, host);
        } else {
            self.insert_j = key == Key::Char('j');
            if let Some(buf) = st.buf_mut() {
                insert_into(buf, key);
            }
        }
    }

    pub(crate) fn replace_key(&mut self, st: &mut EditorState, host: &mut HostHandle, key: Key)
        requires
            ed(*old(self), *old(st), *old(host)).wf(),
        ensures
            same_replay(old(self)@, final(self)@),
            ed(*final(self), *final(st), *final(host)).sane(),
            ed(*final(self), *final(st), *final(host)) == ed(
                *old(self),
                *old(st),
                *old(host),
            ).replace_keyed(key),
    {
        reveal(Ed::replace_keyed);
        if key == Key::Esc || key == Key::Ctrl('c') {
            self.leave_insert(st, host);
        } else if let Some(buf) = st.buf_mut() {
            replace_into(buf, key);
        }
    }
}

} // verus!
