//! Simple changes: x, ~, J, r, p, undo and redo, opened lines, leaving insert mode, and text
//! objects under an operator.

use vstd::prelude::*;

use crate::host::HostHandle;
use crate::rvim::buffer::{
    after_insert, clamped, len_same, line_at, max, min, pos, Pos, Position, TextBuffer, TextV,
};
use crate::rvim::keys::{Mode, Op, PASTE_MAX_BYTES};
use crate::rvim::motion::{first_nonblank, indent_of, len_at, step_back, stepped_back};
use crate::rvim::objects::{lemma_object_start, object_range, object_span};
use crate::rvim::state::{BufV, Buffer, EditorState, RegKind, RegV};
use crate::rvim::vim::operate::{indent_string, land};
use crate::rvim::vim::{ed, fits, same_replay, BlockInsert, BlockV, Ed, EngV, VimEngine};
use crate::text::{
    byte_len, char_count, group_texts, lines_of, lines_times, range_string, repeat_char,
    repeat_lines, repeat_str, run_of, space_prefix, split_lines, texts, times, to_chars,
};
use crate::unicode::{is_lower, lower, lower_char, upper, upper_char};

verus! {

broadcast use group_texts;

/// A letter in the other case (the first char of what case mapping gives).
pub open spec fn flipped(c: char) -> char {
    let s = if is_lower(c) {
        upper(seq![c])
    } else {
        lower(seq![c])
    };
    if s.len() > 0 {
        s[0]
    } else {
        c
    }
}

/// The range x (or X) deletes.
pub open spec fn x_range(b: BufV, n: int, forward: bool) -> (Pos, Pos) {
    let cur = b.cursor;
    if forward {
        (cur, pos(cur.line, min(cur.col + n, len_at(b.text.lines, cur.line))))
    } else {
        (pos(cur.line, max(cur.col - n, 0)), cur)
    }
}

impl BufV {
    /// Up to `n` characters from the cursor on flipped in case, the cursor moving along.
    pub open spec fn tilded(self, n: int) -> BufV
        decreases n,
    {
        if n <= 0 || !self.text.has_char(self.cursor) {
            self
        } else {
            let c = line_at(self.text.lines, self.cursor.line)[self.cursor.col];
            let t = self.text.char_replaced(self.cursor, flipped(c));
            let b = BufV { text: t, ..self };
            if self.cursor.col + 1 < len_at(t.lines, self.cursor.line) {
                BufV { cursor: pos(self.cursor.line, self.cursor.col + 1), ..b }.tilded(n - 1)
            } else {
                b
            }
        }
    }

    /// Up to `n` undo steps, the cursor following.
    pub open spec fn undone(self, n: int) -> BufV
        decreases n,
    {
        if n <= 0 {
            self
        } else {
            let t = self.text.undone(self.cursor);
            match self.text.undo_cursor() {
                None => BufV { text: t, ..self },
                Some(p) => BufV { text: t, cursor: clamped(t.lines, p, false), ..self }.undone(
                    n - 1,
                ),
            }
        }
    }

    /// Up to `n` redo steps, the cursor following.
    pub open spec fn redone(self, n: int) -> BufV
        decreases n,
    {
        if n <= 0 {
            self
        } else {
            let t = self.text.redone(self.cursor);
            match self.text.redo_cursor() {
                None => BufV { text: t, ..self },
                Some(p) => BufV { text: t, cursor: clamped(t.lines, p, false), ..self }.redone(
                    n - 1,
                ),
            }
        }
    }

    /// A register put after (or before) the cursor `n` times, as one undo step.
    pub open spec fn pasted(self, r: RegV, n: int, after: bool) -> BufV {
        let b = BufV { text: self.text.group_begun(self.cursor), ..self };
        let c = match r.kind {
            RegKind::Line => b.lines_pasted(r.text, n, after),
            RegKind::Char => b.chars_pasted(r.text, n, after),
            RegKind::Block => b.block_pasted(r.text, n, after),
        };
        BufV { text: c.text.group_ended(), desired_col: c.cursor.col, ..c }
    }

    pub open spec fn lines_pasted(self, text: Seq<char>, n: int, after: bool) -> BufV {
        let at = if after {
            self.cursor.line + 1
        } else {
            self.cursor.line
        };
        let t = self.text.lines_inserted(at, lines_times(lines_of(text), n));
        let line = min(at, t.lines.len() - 1);
        BufV { text: t, cursor: pos(line, indent_of(line_at(t.lines, line))), ..self }
    }

    /// The column a charwise or blockwise paste goes to.
    pub open spec fn paste_col(self, after: bool) -> int {
        if after && len_at(self.text.lines, self.cursor.line) > 0 {
            self.cursor.col + 1
        } else {
            self.cursor.col
        }
    }

    pub open spec fn chars_pasted(self, text: Seq<char>, n: int, after: bool) -> BufV {
        let at = pos(self.cursor.line, self.paste_col(after));
        let s = times(text, n);
        let t = self.text.text_inserted(at, s);
        let end = after_insert(clamped(self.text.lines, at, true), s);
        BufV { text: t, cursor: clamped(t.lines, stepped_back(t.lines, end), false), ..self }
    }

    pub open spec fn block_pasted(self, text: Seq<char>, n: int, after: bool) -> BufV {
        let frags = lines_of(text);
        let base = self.cursor.line;
        let col = self.paste_col(after);
        let t = frags_pasted(self.text, base, col, frags, n, frags.len() as int);
        BufV { text: t, cursor: clamped(t.lines, pos(base, col), false), ..self }
    }

    /// Insert mode left: the undo group closed and the cursor a step back.
    pub open spec fn left_insert(self) -> BufV {
        let t = self.text.group_ended();
        let c = clamped(t.lines, pos(self.cursor.line, max(self.cursor.col - 1, 0)), false);
        BufV { text: t, cursor: c, desired_col: c.col, ..self }
    }
}

/// `k` empty lines added at the end.
pub open spec fn grown(t: TextV, k: int) -> TextV
    decreases k,
{
    if k <= 0 {
        t
    } else {
        let u = grown(t, k - 1);
        u.lines_inserted(u.lines.len() as int, seq![Seq::empty()])
    }
}

/// A line padded with spaces out to column `col`.
pub open spec fn padded(t: TextV, l: int, col: int) -> TextV {
    let s = line_at(t.lines, l);
    if s.len() < col {
        t.line_set(l, s + run_of(' ', col - s.len()))
    } else {
        t
    }
}

/// One fragment of a block put at column `col` of line `l`, `n` times.
pub open spec fn frag_pasted(t: TextV, l: int, col: int, frag: Seq<char>, n: int) -> TextV {
    if frag.len() == 0 {
        t
    } else {
        padded(grown(t, l + 1 - t.lines.len()), l, col).text_inserted(pos(l, col), times(frag, n))
    }
}

/// The first `k` fragments of a block, each on its own line from `base` on.
pub open spec fn frags_pasted(
    t: TextV,
    base: int,
    col: int,
    frags: Seq<Seq<char>>,
    n: int,
    k: int,
) -> TextV
    decreases k,
{
    if k <= 0 {
        t
    } else {
        frag_pasted(
            frags_pasted(t, base, col, frags, n, k - 1),
            base + k - 1,
            col,
            frags[k - 1],
            n,
        )
    }
}

/// `k` joins onto line `line`, as far as there are lines to join.
pub open spec fn joins(t: TextV, line: int, k: int) -> TextV
    decreases k,
{
    if k <= 0 || line + 1 >= t.lines.len() {
        t
    } else {
        joins(t.line_joined(line, true), line, k - 1)
    }
}

/// `k` characters from `p` on overwritten with `c`.
pub open spec fn overwritten(t: TextV, p: Pos, c: char, k: int) -> TextV
    decreases k,
{
    if k <= 0 {
        t
    } else {
        overwritten(t, p, c, k - 1).char_replaced(pos(p.line, p.col + k - 1), c)
    }
}

/// How often a register is pasted: the count, within the paste budget, but at least once.
pub open spec fn paste_times(text: Seq<char>, count: int) -> int {
    min(
        count,
        max(PASTE_MAX_BYTES as int / (vstd::utf8::encode_utf8(text).len() as int + 1), 1),
    )
}

/// What was typed on line `l` of a block, copied onto it.
pub open spec fn block_line(t: TextV, bi: BlockV, typed: Seq<char>, l: int) -> TextV {
    let len = len_at(t.lines, l);
    if l == bi.start.line {
        t
    } else if bi.to_eol {
        t.text_inserted(pos(l, len), typed)
    } else if len < bi.col && !bi.pad {
        t
    } else {
        padded(t, l, bi.col).text_inserted(pos(l, bi.col), typed)
    }
}

/// The first `n` lines of a block with the typed text copied onto them.
pub open spec fn block_lines(t: TextV, bi: BlockV, typed: Seq<char>, n: int) -> TextV
    decreases n,
{
    if n <= 0 {
        t
    } else {
        block_line(block_lines(t, bi, typed, n - 1), bi, typed, bi.top + n - 1)
    }
}

impl Ed {
    #[verifier::opaque]
    pub open spec fn did_x(self, forward: bool) -> Ed {
        let d = if self.has() {
            let b = self.buf();
            let (p, q) = x_range(b, self.e.total(), forward);
            if p != q {
                self.with(b.landed(b.text.range_deleted(p, q), p)).stored(
                    b.text.range_text(p, q),
                    RegKind::Char,
                    false,
                )
            } else {
                self
            }
        } else {
            self
        };
        d.reset()
    }

    #[verifier::opaque]
    pub open spec fn did_tilde(self) -> Ed {
        let d = if self.has() {
            let b = self.buf();
            let c = BufV { text: b.text.group_begun(b.cursor), ..b }.tilded(self.e.total());
            self.with(BufV { text: c.text.group_ended(), desired_col: c.cursor.col, ..c })
        } else {
            self
        };
        d.reset()
    }

    #[verifier::opaque]
    pub open spec fn did_join(self) -> Ed {
        let d = if self.has() {
            let b = self.buf();
            let line = b.cursor.line;
            let g = b.text.group_begun(b.cursor);
            let t = joins(g, line, max(self.e.total(), 2) - 1).group_ended();
            if line + 1 < g.lines.len() {
                self.with(b.landed(t, pos(line, len_at(g.lines, line))))
            } else {
                self.with(BufV { text: t, ..b })
            }
        } else {
            self
        };
        d.reset()
    }

    /// The count's worth of characters under the cursor replaced, when there are that many.
    #[verifier::opaque]
    pub open spec fn did_replace(self, c: char) -> Ed {
        let b = self.buf();
        let n = self.e.total();
        if self.has() && b.cursor.col + n <= len_at(b.text.lines, b.cursor.line) {
            let t = overwritten(b.text.group_begun(b.cursor), b.cursor, c, n).group_ended();
            self.with(b.landed(t, pos(b.cursor.line, b.cursor.col + n - 1)))
        } else {
            self
        }
    }

    #[verifier::opaque]
    pub open spec fn did_paste(self, after: bool) -> Ed {
        let name = match self.e.reg {
            Some(c) => c,
            None => '"',
        };
        if !self.s.registers.contains_key(name) || self.s.registers[name].text.len() == 0 {
            self.reset()
        } else {
            let r = self.s.registers[name];
            let d = if self.has() {
                self.with(self.buf().pasted(r, paste_times(r.text, self.e.total()), after))
            } else {
                self
            };
            d.reset()
        }
    }

    #[verifier::opaque]
    pub open spec fn did_undo(self) -> Ed {
        let d = if self.has() {
            let b = self.buf();
            let d = self.with(b.undone(self.e.total()));
            if b.text.undo_cursor() is None {
                d.err("Already at oldest change"@)
            } else {
                d.info("undo"@)
            }
        } else {
            self
        };
        d.reset()
    }

    #[verifier::opaque]
    pub open spec fn did_redo(self) -> Ed {
        let d = if self.has() {
            let b = self.buf();
            let d = self.with(b.redone(self.e.total()));
            if b.text.redo_cursor() is None {
                d.err("Already at newest change"@)
            } else {
                d.info("redo"@)
            }
        } else {
            self
        };
        d.reset()
    }

    #[verifier::opaque]
    pub open spec fn opened_line(self, below: bool) -> Ed {
        if self.has() {
            let b = self.buf();
            let l = line_at(b.text.lines, b.cursor.line);
            let indent = l.take(space_prefix(l));
            let at = if below {
                b.cursor.line + 1
            } else {
                b.cursor.line
            };
            let t = b.text.group_begun(b.cursor).lines_inserted(at, seq![indent]);
            self.with(
                BufV { text: t, cursor: pos(at, indent.len() as int), ..b },
            ).inserting()
        } else {
            self
        }
    }

    /// A pending blockwise insert copied onto the block's other lines; skipped if focus moved
    /// to another buffer or the typing spilled onto another line.
    #[verifier::opaque]
    pub open spec fn block_finished(self) -> Ed {
        match self.e.block_insert {
            None => self,
            Some(bi) => {
                let d = Ed { e: EngV { block_insert: None, ..self.e }, ..self };
                let b = self.buf();
                if self.s.active() != bi.buf || !self.has() || b.cursor.line != bi.start.line
                    || b.cursor.col < bi.start.col {
                    d
                } else {
                    let line = line_at(b.text.lines, bi.start.line);
                    let s = min(bi.start.col, line.len() as int);
                    let e = min(b.cursor.col, line.len() as int);
                    if e <= s {
                        d
                    } else {
                        let last = min(bi.bot, b.text.lines.len() - 1);
                        d.with(
                            BufV {
                                text: block_lines(
                                    b.text,
                                    bi,
                                    line.subrange(s, e),
                                    last - bi.top + 1,
                                ),
                                ..b
                            },
                        )
                    }
                }
            },
        }
    }

    #[verifier::opaque]
    pub open spec fn left_insert(self) -> Ed {
        let d = self.block_finished();
        let f = if d.has() {
            d.with(d.buf().left_insert())
        } else {
            d
        };
        Ed { e: EngV { insert_j: false, ..f.e }, ..f }.into_mode(Mode::Normal).reset()
    }

    /// A text object taken by the pending operator, or by the visual selection.
    #[verifier::opaque]
    pub open spec fn did_object(self, obj: char, around: bool) -> Ed {
        if !self.has() {
            self.reset()
        } else {
            let b = self.buf();
            match object_span(b.text.lines, b.cursor, obj, around) {
                None => self.reset(),
                Some((p, q)) => if self.e.mode is Visual {
                    let d = self.with(
                        BufV {
                            cursor: clamped(
                                b.text.lines,
                                stepped_back(b.text.lines, q),
                                false,
                            ),
                            ..b
                        },
                    );
                    Ed {
                        e: EngV {
                            anchor: p,
                            count: 0,
                            opcount: 0,
                            pending: Seq::empty(),
                            ..d.e
                        },
                        ..d
                    }
                } else {
                    match self.e.op {
                        None => self.reset(),
                        Some(op) => self.object_operated(op, p, q).reset(),
                    }
                },
            }
        }
    }

    pub open spec fn object_operated(self, op: Op, p: Pos, q: Pos) -> Ed {
        let b = self.buf();
        match op {
            Op::Indent | Op::Dedent | Op::Comment => self.linewise(
                op,
                p.line,
                stepped_back(b.text.lines, q).line,
            ),
            Op::Delete | Op::Change => self.charwise(op, b.cursor, p, q),
            Op::Yank | Op::Lower | Op::Upper => {
                let d = self.charwise(op, b.cursor, p, q);
                d.with(BufV { desired_col: b.desired_col, ..d.buf() })
            },
        }
    }
}

/// The letter in the other case.
fn flip_case(c: char) -> (r: char)
    ensures
        r == flipped(c),
{
    let s = if c.is_lowercase() {
        upper_char(c)
    } else {
        lower_char(c)
    };
    if s.as_str().unicode_len() > 0 {
        s.as_str().get_char(0)
    } else {
        c
    }
}

/// Flip the case of up to `n` characters, moving the cursor along.
fn tilde(buf: &mut Buffer, n: usize)
    requires
        old(buf)@.wf(),
    ensures
        final(buf)@ == old(buf)@.tilded(n as int),
        final(buf)@.wf(),
{
    let mut k: usize = 0;
    while k < n
        invariant_except_break
            old(buf)@.tilded(n as int) == buf@.tilded(n - k),
        invariant
            k <= n,
            buf@.wf(),
        ensures
            buf@ == old(buf)@.tilded(n as int),
        decreases n - k,
    {
        let c = match buf.text.char_at(buf.cursor) {
            Some(c) => c,
            None => {
                break;
            },
        };
        let ghost before = buf@;
        buf.text.replace_char(buf.cursor, flip_case(c));
        assert(len_same(before.text.lines, buf@.text.lines, buf.cursor.line as int));
        if buf.cursor.col + 1 < buf.text.line_len(buf.cursor.line) {
            buf.cursor.col = buf.cursor.col + 1;
        } else {
            break;
        }
        k = k + 1;
    }
}

/// Undo up to `n` steps; tells whether there was one.
fn undo_steps(buf: &mut Buffer, n: usize) -> (r: bool)
    requires
        old(buf)@.wf(),
        n >= 1,
    ensures
        final(buf)@ == old(buf)@.undone(n as int),
        final(buf)@.wf(),
        r == (old(buf)@.text.undo_cursor() is Some),
{
    let mut done = false;
    let mut k: usize = 0;
    while k < n
        invariant_except_break
            old(buf)@.undone(n as int) == buf@.undone(n - k),
            done == (k > 0),
            k > 0 ==> old(buf)@.text.undo_cursor() is Some,
            k == 0 ==> buf@ == old(buf)@,
        invariant
            k <= n,
            n >= 1,
            buf@.wf(),
        ensures
            buf@ == old(buf)@.undone(n as int),
            done == (old(buf)@.text.undo_cursor() is Some),
        decreases n - k,
    {
        match buf.text.undo(buf.cursor) {
            Some(p) => {
                buf.cursor = buf.text.clamp(p, false);
                done = true;
            },
            None => {
                break;
            },
        }
        k = k + 1;
    }
    done
}

/// Redo up to `n` steps; tells whether there was one.
fn redo_steps(buf: &mut Buffer, n: usize) -> (r: bool)
    requires
        old(buf)@.wf(),
        n >= 1,
    ensures
        final(buf)@ == old(buf)@.redone(n as int),
        final(buf)@.wf(),
        r == (old(buf)@.text.redo_cursor() is Some),
{
    let mut done = false;
    let mut k: usize = 0;
    while k < n
        invariant_except_break
            old(buf)@.redone(n as int) == buf@.redone(n - k),
            done == (k > 0),
            k > 0 ==> old(buf)@.text.redo_cursor() is Some,
            k == 0 ==> buf@ == old(buf)@,
        invariant
            k <= n,
            n >= 1,
            buf@.wf(),
        ensures
            buf@ == old(buf)@.redone(n as int),
            done == (old(buf)@.text.redo_cursor() is Some),
        decreases n - k,
    {
        match buf.text.redo(buf.cursor) {
            Some(p) => {
                buf.cursor = buf.text.clamp(p, false);
                done = true;
            },
            None => {
                break;
            },
        }
        k = k + 1;
    }
    done
}

/// Join `k` lines onto line `line`; the column where the first two met.
fn join_steps(text: &mut TextBuffer, line: usize, k: usize) -> (r: Option<usize>)
    requires
        old(text)@.wf(),
        k >= 1,
    ensures
        final(text)@.wf(),
        final(text)@ == joins(old(text)@, line as int, k as int),
        r is Some == (line + 1 < old(text)@.lines.len()),
        r is Some ==> r->0 == len_at(old(text)@.lines, line as int),
{
    let mut joint: Option<usize> = None;
    let mut i: usize = 0;
    while i < k
        invariant_except_break
            joins(old(text)@, line as int, k as int) == joins(text@, line as int, k - i),
            i == 0 ==> joint is None && text@ == old(text)@,
            i > 0 ==> joint is Some,
        invariant
            i <= k,
            k >= 1,
            text@.wf(),
            joint is Some ==> line + 1 < old(text)@.lines.len() && joint->0 == len_at(
                old(text)@.lines,
                line as int,
            ),
        ensures
            text@ == joins(old(text)@, line as int, k as int),
            joint is Some == (line + 1 < old(text)@.lines.len()),
        decreases k - i,
    {
        match text.join_line(line, true) {
            Some(j) => {
                if joint.is_none() {
                    joint = Some(j);
                }
            },
            None => {
                break;
            },
        }
        i = i + 1;
    }
    joint
}

/// Overwrite `n` characters from `p` on.
pub(crate) fn overwrite(text: &mut TextBuffer, p: Position, c: char, n: usize)
    requires
        old(text)@.wf(),
        p.col + n <= usize::MAX,
    ensures
        final(text)@.wf(),
        final(text)@ == overwritten(old(text)@, p@, c, n as int),
        final(text)@.lines.len() == old(text)@.lines.len(),
        forall|l: int| len_same(old(text)@.lines, final(text)@.lines, l),
{
    for i in 0..n
        invariant
            text@.wf(),
            p.col + n <= usize::MAX,
            text@ == overwritten(old(text)@, p@, c, i as int),
            text@.lines.len() == old(text)@.lines.len(),
            forall|l: int| len_same(old(text)@.lines, text@.lines, l),
    {
        let ghost before = text@.lines;
        text.replace_char(Position::new(p.line, p.col + i), c);
        assert forall|l: int| len_same(old(text)@.lines, text@.lines, l) by {
            assert(len_same(old(text)@.lines, before, l));
            assert(len_same(before, text@.lines, l));
        }
    }
}

/// Put some text after (or before) the cursor as whole lines, `n` times.
fn paste_lines(buf: &mut Buffer, s: &str, n: usize, after: bool)
    requires
        old(buf)@.wf(),
    ensures
        final(buf)@ == old(buf)@.lines_pasted(s@, n as int, after),
        final(buf)@.wf(),
{
    let at: usize = if after {
        buf.cursor.line + 1
    } else {
        buf.cursor.line
    };
    let once = split_lines(s);
    let lines = repeat_lines(&once, n);
    buf.text.insert_lines(at, lines);
    let top: usize = buf.text.line_count() - 1;
    let line: usize = if at < top {
        at
    } else {
        top
    };
    buf.cursor = Position::new(line, first_nonblank(buf.text.line(line)));
}

/// Put some text after (or before) the cursor in the line, `n` times.
fn paste_chars(buf: &mut Buffer, s: &str, n: usize, after: bool)
    requires
        old(buf)@.wf(),
    ensures
        final(buf)@ == old(buf)@.chars_pasted(s@, n as int, after),
        final(buf)@.wf(),
{
    let mut at = buf.cursor;
    if after && buf.text.line_len(at.line) > 0 {
        at = Position::new(at.line, at.col + 1);
    }
    let text = repeat_str(s, n);
    let end = buf.text.insert_text(at, text.as_str());
    buf.cursor = buf.text.clamp(step_back(&buf.text, end), false);
}

/// Pad a line with spaces out to column `col`.
pub(crate) fn pad_line(text: &mut TextBuffer, l: usize, col: usize)
    requires
        old(text)@.wf(),
    ensures
        final(text)@.wf(),
        final(text)@ == padded(old(text)@, l as int, col as int),
        final(text)@.lines.len() == old(text)@.lines.len(),
        l < old(text)@.lines.len() ==> len_at(final(text)@.lines, l as int) >= col,
        l < old(text)@.lines.len() && len_at(old(text)@.lines, l as int) >= col ==> final(text)@
            == old(text)@,
{
    let len: usize = text.line_len(l);
    if len < col {
        let mut s = text.line(l).to_string();
        s.append(repeat_char(' ', col - len).as_str());
        text.set_line(l, s);
    }
}

/// Put one fragment of a block at column `col` of line `l`, adding lines as needed.
fn paste_frag(text: &mut TextBuffer, l: usize, col: usize, frag: &str, n: usize)
    requires
        old(text)@.wf(),
        l < usize::MAX,
    ensures
        final(text)@.wf(),
        final(text)@ == frag_pasted(old(text)@, l as int, col as int, frag@, n as int),
{
    if char_count(frag) == 0 {
        return;
    }
    let mut count: usize = text.line_count();
    let ghost first = count as int;
    let mut k: usize = 0;
    while l >= count
        invariant
            text@.wf(),
            l < usize::MAX,
            count == text@.lines.len(),
            count == first + k,
            first == old(text)@.lines.len(),
            k == 0 || count <= l + 1,
            text@ == grown(old(text)@, k as int),
        decreases l + 1 - count,
    {
        let mut new: Vec<String> = Vec::new();
        new.push(String::new());
        assert(texts(new@) =~= seq![Seq::<char>::empty()]);
        text.insert_lines(count, new);
        count = count + 1;
        k = k + 1;
    }
    assert(text@ == grown(old(text)@, l + 1 - first));
    pad_line(text, l, col);
    let s = repeat_str(frag, n);
    text.insert_text(Position::new(l, col), s.as_str());
}

/// Put a block after (or before) the cursor: each fragment lands on its own line at the paste
/// column, padding short lines with spaces and appending lines past the end.
fn paste_block(buf: &mut Buffer, s: &str, n: usize, after: bool)
    requires
        old(buf)@.wf(),
    ensures
        final(buf)@ == old(buf)@.block_pasted(s@, n as int, after),
        final(buf)@.wf(),
{
    let base: usize = buf.cursor.line;
    let count0: usize = buf.text.line_count();
    let col: usize = if after && buf.text.line_len(base) > 0 {
        buf.cursor.col + 1
    } else {
        buf.cursor.col
    };
    let frags = split_lines(s);
    let total: usize = crate::text::vec_len(&frags);
    let ghost t0 = buf.text@;
    for k in 0..total
        invariant
            total == frags@.len(),
            total <= isize::MAX,
            base < count0 <= isize::MAX,
            buf.text@.wf(),
            buf@ == (BufV { text: buf.text@, ..old(buf)@ }),
            buf.text@ == frags_pasted(
                t0,
                base as int,
                col as int,
                texts(frags@),
                n as int,
                k as int,
            ),
    {
        paste_frag(&mut buf.text, base + k, col, frags[k].as_str(), n);
    }
    buf.cursor = buf.text.clamp(Position::new(base, col), false);
}

/// Put a register after (or before) the cursor `n` times, as one undo step.
fn paste(buf: &mut Buffer, s: &str, kind: RegKind, n: usize, after: bool)
    requires
        old(buf)@.wf(),
    ensures
        final(buf)@ == old(buf)@.pasted(RegV { text: s@, kind }, n as int, after),
        final(buf)@.wf(),
{
    let cur = buf.cursor;
    buf.text.begin_undo_group(cur);
    match kind {
        RegKind::Line => paste_lines(buf, s, n, after),
        RegKind::Char => paste_chars(buf, s, n, after),
        RegKind::Block => paste_block(buf, s, n, after),
    }
    buf.text.end_undo_group();
    buf.desired_col = buf.cursor.col;
}

impl VimEngine {
    /// x / X: delete count chars after (or before) the cursor on the line.
    pub(crate) fn do_x(&mut self, st: &mut EditorState, forward: bool)
        requires
            old(self)@.wf(),
            old(st)@.wf(),
        ensures
            same_replay(old(self)@, final(self)@),
            final(self)@.wf(),
            final(st)@.sane(),
            forall|h: Seq<crate::host::CallV>|
                (Ed { e: final(self)@, s: final(st)@, h }) == #[trigger] (Ed {
                    e: old(self)@,
                    s: old(st)@,
                    h,
                }).did_x(forward),
    {
        reveal(Ed::did_x);
        let n: usize = self.total_count();
        if let Some(buf) = st.buf_mut() {
            let cur = buf.cursor;
            let len: usize = buf.text.line_len(cur.line);
            let (a, b) = if forward {
                (
                    cur,
                    Position::new(
                        cur.line,
                        if len <= n || cur.col >= len - n {
                            len
                        } else {
                            cur.col + n
                        },
                    ),
                )
            } else {
                (
                    Position::new(
                        cur.line,
                        if cur.col > n {
                            cur.col - n
                        } else {
                            0
                        },
                    ),
                    cur,
                )
            };
            if a != b {
                assert(a@ != b@);
                let removed = buf.text.delete_range(a, b);
                land(buf, a);
                self.store_register(st, removed, RegKind::Char, false);
            } else {
                assert(a@ == b@);
            }
        }
        self.reset();
    }

    /// ~: toggle case under the cursor and advance, count times.
    pub(crate) fn do_tilde(&mut self, st: &mut EditorState)
        requires
            old(self)@.wf(),
            old(st)@.wf(),
        ensures
            same_replay(old(self)@, final(self)@),
            final(self)@.wf(),
            final(st)@.sane(),
            forall|h: Seq<crate::host::CallV>|
                (Ed { e: final(self)@, s: final(st)@, h }) == #[trigger] (Ed {
                    e: old(self)@,
                    s: old(st)@,
                    h,
                }).did_tilde(),
    {
        reveal(Ed::did_tilde);
        let n: usize = self.total_count();
        if let Some(buf) = st.buf_mut() {
            let cur = buf.cursor;
            buf.text.begin_undo_group(cur);
            tilde(buf, n);
            buf.text.end_undo_group();
            buf.desired_col = buf.cursor.col;
        }
        self.reset();
    }

    /// J: join count.max(2)-1 lines with vim space semantics.
    pub(crate) fn do_join(&mut self, st: &mut EditorState)
        requires
            old(self)@.wf(),
            old(st)@.wf(),
        ensures
            same_replay(old(self)@, final(self)@),
            final(self)@.wf(),
            final(st)@.sane(),
            forall|h: Seq<crate::host::CallV>|
                (Ed { e: final(self)@, s: final(st)@, h }) == #[trigger] (Ed {
                    e: old(self)@,
                    s: old(st)@,
                    h,
                }).did_join(),
    {
        reveal(Ed::did_join);
        let total: usize = self.total_count();
        let n: usize = if total > 2 {
            total - 1
        } else {
            1
        };
        if let Some(buf) = st.buf_mut() {
            let cur = buf.cursor;
            buf.text.begin_undo_group(cur);
            let joint = join_steps(&mut buf.text, cur.line, n);
            buf.text.end_undo_group();
            if let Some(j) = joint {
                land(buf, Position::new(cur.line, j));
            }
        }
        self.reset();
    }

    /// r{char}: replace count chars under the cursor.
    pub(crate) fn do_replace(&mut self, st: &mut EditorState, c: char)
        requires
            old(self)@.wf(),
            old(st)@.wf(),
        ensures
            same_replay(old(self)@, final(self)@),
            final(self)@ == old(self)@,
            final(st)@.sane(),
            forall|h: Seq<crate::host::CallV>|
                (Ed { e: final(self)@, s: final(st)@, h }) == #[trigger] (Ed {
                    e: old(self)@,
                    s: old(st)@,
                    h,
                }).did_replace(c),
    {
        reveal(Ed::did_replace);
        let n: usize = self.total_count();
        if let Some(buf) = st.buf_mut() {
            let cur = buf.cursor;
            let len: usize = buf.text.line_len(cur.line);
            if n <= len && cur.col <= len - n {
                buf.text.begin_undo_group(cur);
                overwrite(&mut buf.text, cur, c, n);
                buf.text.end_undo_group();
                land(buf, Position::new(cur.line, cur.col + (n - 1)));
            }
        }
    }

    /// p / P: put the register after or before the cursor, count times.
    pub(crate) fn do_paste(&mut self, st: &mut EditorState, after: bool)
        requires
            old(self)@.wf(),
            old(st)@.wf(),
        ensures
            same_replay(old(self)@, final(self)@),
            final(self)@.wf(),
            final(st)@.sane(),
            forall|h: Seq<crate::host::CallV>|
                (Ed { e: final(self)@, s: final(st)@, h }) == #[trigger] (Ed {
                    e: old(self)@,
                    s: old(st)@,
                    h,
                }).did_paste(after),
    {
        reveal(Ed::did_paste);
        let name = match self.reg {
            Some(c) => c,
            None => '"',
        };
        let r = match st.registers.get(&name) {
            Some(r) => r.clone(),
            None => {
                self.reset();
                return;
            },
        };
        if r.text.as_str().unicode_len() == 0 {
            self.reset();
            return;
        }
        // One copy always goes in; further repeats fit within the paste budget.
        let most: usize = PASTE_MAX_BYTES / (byte_len(r.text.as_str()) + 1);
        let most: usize = if most > 1 {
            most
        } else {
            1
        };
        let total: usize = self.total_count();
        let n: usize = if total < most {
            total
        } else {
            most
        };
        if let Some(buf) = st.buf_mut() {
            paste(buf, r.text.as_str(), r.kind, n, after);
        }
        self.reset();
    }

    pub(crate) fn do_undo(&mut self, st: &mut EditorState, host: &mut HostHandle)
        requires
            ed(*old(self), *old(st), *old(host)).wf(),
        ensures
            same_replay(old(self)@, final(self)@),
            ed(*final(self), *final(st), *final(host)).sane(),
            ed(*final(self), *final(st), *final(host)) == ed(
                *old(self),
                *old(st),
                *old(host),
            ).did_undo(),
    {
        reveal(Ed::did_undo);
        let n: usize = self.total_count();
        if let Some(buf) = st.buf_mut() {
            let done = undo_steps(buf, n);
            if done {
                st.info("undo");
            } else {
                self.err(st, host, "Already at oldest change");
            }
        }
        self.reset();
    }

    pub(crate) fn do_redo(&mut self, st: &mut EditorState, host: &mut HostHandle)
        requires
            ed(*old(self), *old(st), *old(host)).wf(),
        ensures
            same_replay(old(self)@, final(self)@),
            ed(*final(self), *final(st), *final(host)).sane(),
            ed(*final(self), *final(st), *final(host)) == ed(
                *old(self),
                *old(st),
                *old(host),
            ).did_redo(),
    {
        reveal(Ed::did_redo);
        let n: usize = self.total_count();
        if let Some(buf) = st.buf_mut() {
            let done = redo_steps(buf, n);
            if done {
                st.info("redo");
            } else {
                self.err(st, host, "Already at newest change");
            }
        }
        self.reset();
    }

    /// o / O: open a line below or above with the current line's indent.
    pub(crate) fn open_line(&mut self, st: &mut EditorState, host: &mut HostHandle, below: bool)
        requires
            ed(*old(self), *old(st), *old(host)).wf(),
        ensures
            same_replay(old(self)@, final(self)@),
            ed(*final(self), *final(st), *final(host)).sane(),
            ed(*final(self), *final(st), *final(host)) == ed(
                *old(self),
                *old(st),
                *old(host),
            ).opened_line(below),
    {
        reveal(Ed::opened_line);
        if let Some(buf) = st.buf_mut() {
            let cur = buf.cursor;
            let indent = indent_string(buf.text.line(cur.line));
            let ilen: usize = char_count(indent.as_str());
            buf.text.begin_undo_group(cur);
            let at: usize = if below {
                cur.line + 1
            } else {
                cur.line
            };
            let mut new: Vec<String> = Vec::new();
            new.push(indent);
            assert(texts(new@) =~= seq![indent@]);
            buf.text.insert_lines(at, new);
            buf.cursor = Position::new(at, ilen);
            self.enter_insert(st, host);
        }
    }

    /// Replicate a completed blockwise insert onto the block's other lines. Runs inside
    /// the still-open undo group, so the whole block edit undoes as one step. Skipped if
    /// focus moved to another buffer or the typing spilled onto another line.
    fn finish_block_insert(&mut self, st: &mut EditorState)
        requires
            old(self)@.wf(),
            old(st)@.sane(),
        ensures
            same_replay(old(self)@, final(self)@),
            final(self)@.wf(),
            final(st)@.sane(),
            forall|h: Seq<crate::host::CallV>|
                (Ed { e: final(self)@, s: final(st)@, h }) == #[trigger] (Ed {
                    e: old(self)@,
                    s: old(st)@,
                    h,
                }).block_finished(),
    {
        reveal(Ed::block_finished);
        let bi = match self.block_insert.take() {
            Some(bi) => bi,
            None => {
                return;
            },
        };
        if st.active() != bi.buf {
            return;
        }
        if let Some(buf) = st.buf_mut() {
            let cur = buf.cursor;
            if cur.line != bi.start.line || cur.col < bi.start.col {
                return;
            }
            let line = to_chars(buf.text.line(bi.start.line));
            let len: usize = line.len();
            let s: usize = if bi.start.col < len {
                bi.start.col
            } else {
                len
            };
            let e: usize = if cur.col < len {
                cur.col
            } else {
                len
            };
            if e <= s {
                return;
            }
            let typed = range_string(line.as_slice(), s, e);
            copy_typed(&mut buf.text, bi, typed.as_str());
        }
    }

    /// Leave insert/replace mode: close the undo group and step the cursor back.
    pub(crate) fn leave_insert(&mut self, st: &mut EditorState, host: &mut HostHandle)
        requires
            ed(*old(self), *old(st), *old(host)).sane(),
        ensures
            same_replay(old(self)@, final(self)@),
            ed(*final(self), *final(st), *final(host)).sane(),
            ed(*final(self), *final(st), *final(host)) == ed(
                *old(self),
                *old(st),
                *old(host),
            ).left_insert(),
    {
        reveal(Ed::left_insert);
        self.finish_block_insert(st);
        let ghost mid = Ed { e: self@, s: st@, h: host@ };
        assert(mid == ed(*old(self), *old(st), *old(host)).block_finished());
        if let Some(buf) = st.buf_mut() {
            buf.text.end_undo_group();
            let cur = buf.cursor;
            let col: usize = if cur.col > 0 {
                cur.col - 1
            } else {
                0
            };
            land(buf, Position::new(cur.line, col));
        }
        self.insert_j = false;
        self.set_mode(host, Mode::Normal);
        self.reset();
    }

    /// Resolve a text object and apply the pending operator or extend the selection.
    pub(crate) fn do_object(
        &mut self,
        st: &mut EditorState,
        host: &mut HostHandle,
        obj: char,
        around: bool,
    )
        requires
            ed(*old(self), *old(st), *old(host)).wf(),
        ensures
            same_replay(old(self)@, final(self)@),
            ed(*final(self), *final(st), *final(host)).sane(),
            ed(*final(self), *final(st), *final(host)) == ed(
                *old(self),
                *old(st),
                *old(host),
            ).did_object(obj, around),
    {
        reveal(Ed::did_object);
        let (a, b, cur) = match st.buf() {
            None => {
                self.reset();
                return;
            },
            Some(buf) => match object_range(&buf.text, buf.cursor, obj, around) {
                None => {
                    self.reset();
                    return;
                },
                Some((a, b)) => (a, b, buf.cursor),
            },
        };
        proof {
            lemma_object_start(st@.buf().text.lines, cur@, obj, around);
        }
        let visual = match self.mode {
            Mode::Visual { .. } => true,
            _ => false,
        };
        if visual {
            if let Some(buf) = st.buf() {
                let (count, len): (usize, usize) = (
                    buf.text.line_count(),
                    buf.text.line_len(a.line),
                );
                assert(a.line < count && a.col <= len);
            }
            self.anchor = a;
            if let Some(buf) = st.buf_mut() {
                buf.cursor = buf.text.clamp(step_back(&buf.text, b), false);
            }
            self.count = 0;
            self.opcount = 0;
            self.pending = String::new();
            return;
        }
        let op = match self.op {
            Some(op) => op,
            None => {
                self.reset();
                return;
            },
        };
        self.operate_object(st, host, op, a, b);
        self.reset();
    }

    /// Apply an operator to a text object's range.
    fn operate_object(
        &mut self,
        st: &mut EditorState,
        host: &mut HostHandle,
        op: Op,
        a: Position,
        b: Position,
    )
        requires
            ed(*old(self), *old(st), *old(host)).wf(),
            old(st)@.has_buf(),
            fits(a@),
            fits(b@),
        ensures
            same_replay(old(self)@, final(self)@),
            ed(*final(self), *final(st), *final(host)).sane(),
            ed(*final(self), *final(st), *final(host)) == ed(
                *old(self),
                *old(st),
                *old(host),
            ).object_operated(op, a@, b@),
    {
        let (last, cur, want): (usize, Position, usize) = match st.buf() {
            Some(buf) => (step_back(&buf.text, b).line, buf.cursor, buf.desired_col),
            None => (0, a, 0),
        };
        match op {
            Op::Indent | Op::Dedent | Op::Comment => {
                self.apply_linewise(st, host, op, a.line, last);
            },
            Op::Delete | Op::Change => {
                self.apply_charwise(st, host, op, cur, a, b);
            },
            Op::Yank | Op::Lower | Op::Upper => {
                self.apply_charwise(st, host, op, cur, a, b);
                if let Some(buf) = st.buf_mut() {
                    buf.desired_col = want;
                }
            },
        }
    }
}

/// Copy typed text onto the lines of a block.
fn copy_typed(text: &mut TextBuffer, bi: BlockInsert, typed: &str)
    requires
        old(text)@.wf(),
        bi.model().wf(),
    ensures
        final(text)@.wf(),
        final(text)@ == block_lines(
            old(text)@,
            bi.model(),
            typed@,
            min(bi.bot as int, old(text)@.lines.len() - 1) - bi.top + 1,
        ),
{
    let ghost t0 = text@;
    let count: usize = text.line_count();
    let last: usize = if bi.bot < count - 1 {
        bi.bot
    } else {
        count - 1
    };
    let mut l: usize = bi.top;
    while l <= last
        invariant
            text@.wf(),
            last < usize::MAX,
            bi.top <= l,
            l <= last + 1 || l == bi.top,
            text@ == block_lines(t0, bi.model(), typed@, l - bi.top),
        decreases last + 1 - l,
    {
        if l != bi.start.line {
            let len: usize = text.line_len(l);
            if bi.to_eol {
                text.insert_text(Position::new(l, len), typed);
            } else if len >= bi.col || bi.pad {
                pad_line(text, l, bi.col);
                text.insert_text(Position::new(l, bi.col), typed);
            }
        }
        l = l + 1;
    }
}

} // verus!
