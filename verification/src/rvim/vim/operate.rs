//! Operators: what d, c, y, >, <, gu, gU and gc do to a motion's range, to whole lines and to
//! a block.

use vstd::prelude::*;

use crate::host::HostHandle;
use crate::rvim::buffer::{clamped, line_at, max, min, pos, pos_le, Pos, Position, TextV};
use crate::rvim::edits::{
    case_range, case_whole_lines, comment_toggled, extract_lines, extract_range, extracted,
    lines_extracted, map_case_range, range_cased, shift_lines, shift_range, toggle_comment,
};
use crate::rvim::keys::{MotionKind, Op};
use crate::rvim::motion::{advance, advanced, first_nonblank, indent_of};
use crate::rvim::state::{group_state, BufV, Buffer, EditorState, RegKind, RegV, Register, StV};
use crate::rvim::vim::{ed, fits, same_replay, Ed, VimEngine};
use crate::text::{group_texts, leading_space, range_string, space_prefix, texts, to_chars};

verus! {

broadcast use group_texts;

/// The registers after a capture: the named one if one was chosen, 0 for a plain yank, and
/// always the unnamed one. An empty charwise capture leaves them alone.
pub open spec fn registers_set(
    s: StV,
    reg: Option<char>,
    text: Seq<char>,
    kind: RegKind,
    is_yank: bool,
) -> StV {
    if text.len() == 0 && kind == RegKind::Char {
        s
    } else {
        let r = RegV { text, kind };
        let m = match reg {
            Some(name) => s.registers.insert(name, r),
            None => if is_yank {
                s.registers.insert('0', r)
            } else {
                s.registers
            },
        };
        StV { registers: m.insert('"', r), ..s }
    }
}

impl Ed {
    pub open spec fn stored(self, text: Seq<char>, kind: RegKind, is_yank: bool) -> Ed {
        Ed { s: registers_set(self.s, self.e.reg, text, kind, is_yank), ..self }
    }

    /// An operator applied to lines `[first, last]`.
    #[verifier::opaque]
    pub open spec fn linewise(self, op: Op, first: int, last: int) -> Ed {
        if !self.has() {
            self
        } else {
            let b = self.buf();
            let f = min(first, b.text.lines.len() - 1);
            let l = max(min(last, b.text.lines.len() - 1), first);
            match op {
                Op::Delete => {
                    let t = b.text.lines_deleted(f, l);
                    self.with(b.homed(t, min(f, t.lines.len() - 1))).stored(
                        b.text.lines_text(f, l),
                        RegKind::Line,
                        false,
                    )
                },
                Op::Yank => self.with(
                    BufV {
                        cursor: clamped(b.text.lines, pos(f, b.cursor.col), false),
                        ..b
                    },
                ).stored(lines_extracted(b.text.lines, f, l), RegKind::Line, true),
                Op::Change => {
                    let indent = line_at(b.text.lines, f).take(
                        space_prefix(line_at(b.text.lines, f)),
                    );
                    let g = b.text.group_begun(b.cursor);
                    let t = g.lines_deleted(f, l);
                    let at = min(f, t.lines.len() as int);
                    let u = if t.lines.len() == 1 && t.lines[0].len() == 0 && f == 0 {
                        t.line_set(0, indent)
                    } else {
                        t.lines_inserted(at, seq![indent])
                    };
                    self.with(
                        BufV {
                            text: u,
                            cursor: pos(min(at, u.lines.len() - 1), indent.len() as int),
                            ..b
                        },
                    ).stored(g.lines_text(f, l), RegKind::Line, false).inserting()
                },
                Op::Indent | Op::Dedent => {
                    let t = shift_lines(
                        b.text.group_begun(b.cursor),
                        f,
                        op == Op::Indent,
                        l - f + 1,
                    ).group_ended();
                    self.with(b.settled_on(t, f))
                },
                Op::Comment => {
                    let t = comment_toggled(b.text.group_begun(b.cursor), f, l).group_ended();
                    self.with(b.settled_on(t, f))
                },
                Op::Lower | Op::Upper => {
                    let t = case_whole_lines(
                        b.text.group_begun(b.cursor),
                        f,
                        op == Op::Upper,
                        l - f + 1,
                    ).group_ended();
                    self.with(b.settled_on(t, f))
                },
            }
        }
    }

    /// The pending operator applied over the motion from `cur` to `target`.
    #[verifier::opaque]
    pub open spec fn operated(self, cur: Pos, target: Pos, kind: MotionKind) -> Ed {
        match self.e.op {
            None => self,
            Some(op) => {
                let (a, b) = if pos_le(cur, target) {
                    (cur, target)
                } else {
                    (target, cur)
                };
                if kind == MotionKind::Linewise || op == Op::Indent || op == Op::Dedent || op
                    == Op::Comment {
                    self.linewise(op, a.line, b.line)
                } else if !self.has() {
                    self
                } else {
                    let end = if kind == MotionKind::Inclusive {
                        advanced(self.buf().text.lines, b)
                    } else {
                        b
                    };
                    self.charwise(op, cur, a, end)
                }
            },
        }
    }

    /// A charwise operator applied to `[a, end)`; `from` is the cursor kept for undo.
    #[verifier::opaque]
    pub open spec fn charwise(self, op: Op, from: Pos, a: Pos, end: Pos) -> Ed {
        let b = self.buf();
        match op {
            Op::Delete => {
                let t = b.text.range_deleted(a, end);
                self.with(b.landed(t, a)).stored(
                    b.text.range_text(a, end),
                    RegKind::Char,
                    false,
                )
            },
            Op::Change => {
                let g = b.text.group_begun(from);
                let t = g.range_deleted(a, end);
                self.with(
                    BufV { text: t, cursor: clamped(t.lines, a, true), ..b },
                ).stored(g.range_text(a, end), RegKind::Char, false).inserting()
            },
            Op::Yank => self.with(b.landed(b.text, a)).stored(
                extracted(b.text.lines, a, end),
                RegKind::Char,
                true,
            ),
            Op::Lower | Op::Upper => {
                let t = range_cased(b.text, a, end, op == Op::Upper);
                self.with(b.landed(t, a))
            },
            _ => self,
        }
    }
}

impl BufV {
    /// A new text with the cursor on the first non-blank of `line`.
    pub open spec fn homed(self, t: TextV, line: int) -> BufV {
        let col = indent_of(line_at(t.lines, line));
        BufV { text: t, cursor: pos(line, col), desired_col: col, ..self }
    }

    /// A new text with the cursor moved into it from the first non-blank of `line`.
    pub open spec fn settled_on(self, t: TextV, line: int) -> BufV {
        self.landed(t, pos(line, indent_of(line_at(t.lines, line))))
    }

    /// A new text with the cursor at (the place nearest to) `p`.
    pub open spec fn landed(self, t: TextV, p: Pos) -> BufV {
        let c = clamped(t.lines, p, false);
        BufV { text: t, cursor: c, desired_col: c.col, ..self }
    }
}

/// Move the cursor to (the place nearest to) `p`, and aim j/k at its column.
pub(crate) fn land(buf: &mut Buffer, p: Position)
    requires
        old(buf)@.text.wf(),
    ensures
        final(buf)@ == old(buf)@.landed(old(buf)@.text, p@),
        final(buf)@.wf(),
{
    buf.cursor = buf.text.clamp(p, false);
    buf.desired_col = buf.cursor.col;
}

impl VimEngine {
    /// Write `text` to the unnamed register, the named one if prefixed, and 0 for yanks.
    pub(crate) fn store_register(
        &self,
        st: &mut EditorState,
        text: String,
        kind: RegKind,
        is_yank: bool,
    )
        ensures
            final(st)@ == registers_set(old(st)@, self@.reg, text@, kind, is_yank),
            old(st)@.sane() ==> final(st)@.sane(),
            old(st)@.wf() ==> final(st)@.wf(),
    {
        broadcast use group_state;

        if text.as_str().unicode_len() == 0 && kind == RegKind::Char {
            return;
        }
        let r = Register { text, kind };
        if let Some(name) = self.reg {
            st.registers.insert(name, r.clone());
        }
        if is_yank && self.reg.is_none() {
            st.registers.insert('0', r.clone());
        }
        st.registers.insert('"', r);
    }

    /// Apply operator `self.op` over the charwise/linewise motion `cur -> target`.
    pub(crate) fn apply_op(
        &mut self,
        st: &mut EditorState,
        host: &mut HostHandle,
        cur: Position,
        target: Position,
        kind: MotionKind,
    )
        requires
            ed(*old(self), *old(st), *old(host)).sane(),
            fits(cur@),
            target.line < usize::MAX,
            kind != MotionKind::Linewise ==> fits(target@),
        ensures
            same_replay(old(self)@, final(self)@),
            ed(*final(self), *final(st), *final(host)).sane(),
            ed(*final(self), *final(st), *final(host)) == ed(
                *old(self),
                *old(st),
                *old(host),
            ).operated(cur@, target@, kind),
            final(st)@.has_buf() == old(st)@.has_buf(),
            final(self)@.mode == old(self)@.mode || old(self)@.op == Some(Op::Change),
    {
        reveal(Ed::operated);
        reveal(Ed::linewise);
        let op = match self.op {
            Some(op) => op,
            None => {
                return;
            },
        };
        let (a, b) = if cur.le(target) {
            (cur, target)
        } else {
            (target, cur)
        };
        if kind == MotionKind::Linewise || op == Op::Indent || op == Op::Dedent || op
            == Op::Comment {
            self.apply_linewise(st, host, op, a.line, b.line);
            return;
        }
        let end = match st.buf() {
            Some(buf) => if kind == MotionKind::Inclusive {
                advance(&buf.text, b)
            } else {
                b
            },
            None => {
                return;
            },
        };
        self.apply_charwise(st, host, op, cur, a, end);
    }

    /// Apply a charwise operator to `[a, end)`.
    pub(crate) fn apply_charwise(
        &mut self,
        st: &mut EditorState,
        host: &mut HostHandle,
        op: Op,
        from: Position,
        a: Position,
        end: Position,
    )
        requires
            ed(*old(self), *old(st), *old(host)).sane(),
            old(st)@.has_buf(),
            fits(a@),
            fits(end@),
            op == Op::Delete || op == Op::Change || op == Op::Yank || op == Op::Lower || op
                == Op::Upper,
        ensures
            same_replay(old(self)@, final(self)@),
            ed(*final(self), *final(st), *final(host)).sane(),
            ed(*final(self), *final(st), *final(host)) == ed(
                *old(self),
                *old(st),
                *old(host),
            ).charwise(op, from@, a@, end@),
            final(st)@.has_buf(),
            final(self)@.mode == old(self)@.mode || op == Op::Change,
    {
        reveal(Ed::charwise);
        if let Some(buf) = st.buf_mut() {
            match op {
                Op::Delete => {
                    let removed = buf.text.delete_range(a, end);
                    land(buf, a);
                    self.store_register(st, removed, RegKind::Char, false);
                },
                Op::Change => {
                    buf.text.begin_undo_group(from);
                    let removed = buf.text.delete_range(a, end);
                    buf.cursor = buf.text.clamp(a, true);
                    self.store_register(st, removed, RegKind::Char, false);
                    self.enter_insert(st, host);
                },
                Op::Yank => {
                    let text = extract_range(&buf.text, a, end);
                    land(buf, a);
                    self.store_register(st, text, RegKind::Char, true);
                },
                _ => {
                    map_case_range(&mut buf.text, a, end, op == Op::Upper);
                    land(buf, a);
                },
            }
        }
    }

    /// Apply an operator to whole lines `[first, last]`.
    pub(crate) fn apply_linewise(
        &mut self,
        st: &mut EditorState,
        host: &mut HostHandle,
        op: Op,
        first: usize,
        last: usize,
    )
        requires
            ed(*old(self), *old(st), *old(host)).sane(),
        ensures
            same_replay(old(self)@, final(self)@),
            ed(*final(self), *final(st), *final(host)).sane(),
            ed(*final(self), *final(st), *final(host)) == ed(
                *old(self),
                *old(st),
                *old(host),
            ).linewise(op, first as int, last as int),
            final(st)@.has_buf() == old(st)@.has_buf(),
            final(self)@.mode == old(self)@.mode || op == Op::Change,
    {
        reveal(Ed::linewise);
        if let Some(buf) = st.buf_mut() {
            let last_line: usize = buf.text.line_count() - 1;
            let last0: usize = if last < last_line {
                last
            } else {
                last_line
            };
            let last: usize = if last0 > first {
                last0
            } else {
                first
            };
            let first: usize = if first < last_line {
                first
            } else {
                last_line
            };
            let from = buf.cursor;
            match op {
                Op::Delete => {
                    let removed = buf.text.delete_lines(first, last);
                    let count: usize = buf.text.line_count();
                    let line: usize = if first < count - 1 {
                        first
                    } else {
                        count - 1
                    };
                    buf.cursor = Position::new(line, first_nonblank(buf.text.line(line)));
                    buf.desired_col = buf.cursor.col;
                    self.store_register(st, removed, RegKind::Line, false);
                },
                Op::Yank => {
                    let text = extract_lines(&buf.text, first, last);
                    buf.cursor = buf.text.clamp(Position::new(first, from.col), false);
                    self.store_register(st, text, RegKind::Line, true);
                },
                Op::Change => {
                    let indent = indent_string(buf.text.line(first));
                    let ilen: usize = crate::text::char_count(indent.as_str());
                    buf.text.begin_undo_group(from);
                    let removed = buf.text.delete_lines(first, last);
                    let count: usize = buf.text.line_count();
                    let at: usize = if first < count {
                        first
                    } else {
                        count
                    };
                    if count == 1 && buf.text.line_len(0) == 0 && first == 0 {
                        buf.text.set_line(0, indent);
                    } else {
                        let mut new: Vec<String> = Vec::new();
                        new.push(indent);
                        assert(texts(new@) =~= seq![indent@]);
                        buf.text.insert_lines(at, new);
                    }
                    let top: usize = buf.text.line_count() - 1;
                    buf.cursor = Position::new(
                        if at < top {
                            at
                        } else {
                            top
                        },
                        ilen,
                    );
                    self.store_register(st, removed, RegKind::Line, false);
                    self.enter_insert(st, host);
                },
                Op::Indent | Op::Dedent => {
                    buf.text.begin_undo_group(from);
                    shift_range(&mut buf.text, first, last, op == Op::Indent);
                    buf.text.end_undo_group();
                    let col: usize = first_nonblank(buf.text.line(first));
                    land(buf, Position::new(first, col));
                },
                Op::Comment => {
                    buf.text.begin_undo_group(from);
                    toggle_comment(&mut buf.text, first, last);
                    buf.text.end_undo_group();
                    let col: usize = first_nonblank(buf.text.line(first));
                    land(buf, Position::new(first, col));
                },
                Op::Lower | Op::Upper => {
                    buf.text.begin_undo_group(from);
                    case_range(&mut buf.text, first, last, op == Op::Upper);
                    buf.text.end_undo_group();
                    let col: usize = first_nonblank(buf.text.line(first));
                    land(buf, Position::new(first, col));
                },
            }
        }
    }
}

/// The leading whitespace of a line.
pub(crate) fn indent_string(line: &str) -> (r: String)
    ensures
        r@ == line@.take(space_prefix(line@)),
{
    let chars = to_chars(line);
    let n: usize = leading_space(chars.as_slice());
    let r = range_string(chars.as_slice(), 0, n);
    assert(r@ =~= line@.take(n as int));
    r
}

} // verus!
