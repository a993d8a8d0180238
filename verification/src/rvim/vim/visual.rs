//! Visual mode: selections, blocks, and the operators over them.

use vstd::prelude::*;

use crate::host::{CallV, HostHandle};
use crate::rvim::buffer::{clamped, max, min, pos, Pos, Position, TextBuffer, TextV};
use crate::rvim::edits::{extract_range, extracted, map_case_range, range_cased};
use crate::rvim::keys::{Await, Key, Mode, MotionKind, Op, VisualKind, MAX_COUNT};
use crate::rvim::motion::{advance, advanced, len_at, word_back_end, word_back_end_of};
use crate::rvim::state::{BufV, Buffer, EditorState, RegKind};
use crate::rvim::vim::change::{overwrite, overwritten, pad_line, padded};
use crate::rvim::vim::operate::land;
use crate::rvim::vim::{
    ed, fits, in_order, ordered, same_replay, small, BlockInsert, BlockV, Ed, EngV, VimEngine,
};
use crate::text::{group_texts, join_lines, texts, to_chars, unlines};
use crate::unicode::{
    ascii_digit, ascii_lower, ascii_lowered, ascii_upper, is_lower, to_ascii_lower,
};

verus! {

broadcast use group_texts;

/// Block selection rectangle: lines `top..=bot`, char cols `c1..=c2` or to line ends.
#[derive(Clone, Copy)]
pub(crate) struct BlockSpan {
    top: usize,
    bot: usize,
    c1: usize,
    c2: usize,
    to_eol: bool,
}

/// Model of a block selection.
pub struct SpanV {
    pub top: int,
    pub bot: int,
    pub c1: int,
    pub c2: int,
    pub to_eol: bool,
}

impl SpanV {
    /// Rect cols on a line of `len` chars as `[start, end)`; None when the line ends first.
    pub open spec fn cols(self, len: int) -> Option<(int, int)> {
        let end = if self.to_eol {
            len
        } else {
            min(self.c2 + 1, len)
        };
        if len <= self.c1 || end <= self.c1 {
            None
        } else {
            Some((self.c1, end))
        }
    }

    pub open spec fn wf(self) -> bool {
        &&& 0 <= self.top <= isize::MAX
        &&& 0 <= self.bot <= isize::MAX
        &&& 0 <= self.c1 <= isize::MAX
        &&& 0 <= self.c2 <= isize::MAX
    }
}

impl BlockSpan {
    spec fn model(self) -> SpanV {
        SpanV {
            top: self.top as int,
            bot: self.bot as int,
            c1: self.c1 as int,
            c2: self.c2 as int,
            to_eol: self.to_eol,
        }
    }

    /// Rect cols on a line of `len` chars as `[start, end)`; None when the line ends first.
    fn cols(&self, len: usize) -> (r: Option<(usize, usize)>)
        requires
            self.c2 < usize::MAX,
        ensures
            match r {
                Some((a, b)) => self.model().cols(len as int) == Some((a as int, b as int)) && a < b
                    && b <= len,
                None => self.model().cols(len as int) is None,
            },
    {
        let end: usize = if self.to_eol || len < self.c2 + 1 {
            len
        } else {
            self.c2 + 1
        };
        if len <= self.c1 || end <= self.c1 {
            None
        } else {
            Some((self.c1, end))
        }
    }
}

/// The block between two corners.
pub open spec fn span_of(anchor: Pos, b: BufV) -> SpanV {
    let (p, q) = in_order(anchor, b.cursor);
    SpanV {
        top: p.line,
        bot: q.line,
        c1: min(anchor.col, b.cursor.col),
        c2: max(anchor.col, b.cursor.col),
        to_eol: b.desired_col == usize::MAX,
    }
}

/// The text of line `l` inside a block.
pub open spec fn frag_of(t: TextV, span: SpanV, l: int, yank: bool) -> Seq<char> {
    match span.cols(len_at(t.lines, l)) {
        Some((s, e)) => if yank {
            extracted(t.lines, pos(l, s), pos(l, e))
        } else {
            t.range_text(pos(l, s), pos(l, e))
        },
        None => Seq::empty(),
    }
}

/// The text without what line `l` has inside a block.
pub open spec fn frag_cut(t: TextV, span: SpanV, l: int, yank: bool) -> TextV {
    match span.cols(len_at(t.lines, l)) {
        Some((s, e)) => if yank {
            t
        } else {
            t.range_deleted(pos(l, s), pos(l, e))
        },
        None => t,
    }
}

/// The first `n` lines of a block taken out (or, yanking, only read): the text left and the
/// fragments.
pub open spec fn block_taken(t: TextV, span: SpanV, top: int, yank: bool, n: int) -> (
    TextV,
    Seq<Seq<char>>,
)
    decreases n,
{
    if n <= 0 {
        (t, Seq::empty())
    } else {
        let (u, frags) = block_taken(t, span, top, yank, n - 1);
        let l = top + n - 1;
        (frag_cut(u, span, l, yank), frags.push(frag_of(u, span, l, yank)))
    }
}

/// The first `n` lines of a block changed in case.
pub open spec fn block_cased(t: TextV, span: SpanV, top: int, up: bool, n: int) -> TextV
    decreases n,
{
    if n <= 0 {
        t
    } else {
        let u = block_cased(t, span, top, up, n - 1);
        let l = top + n - 1;
        match span.cols(len_at(u.lines, l)) {
            Some((s, e)) => range_cased(u, pos(l, s), pos(l, e), up),
            None => u,
        }
    }
}

/// The columns of line `l` that a selection covers.
pub open spec fn selected_cols(
    kind: VisualKind,
    span: SpanV,
    a: Pos,
    b: Pos,
    l: int,
    len: int,
) -> (int, int) {
    match kind {
        VisualKind::Line => (0, len),
        VisualKind::Char => (
            if l == a.line {
                a.col
            } else {
                0
            },
            if l == b.line {
                min(b.col + 1, len)
            } else {
                len
            },
        ),
        VisualKind::Block => match span.cols(len) {
            Some(c) => c,
            None => (0, 0),
        },
    }
}

/// The first `n` lines of a selection overwritten with `c`.
pub open spec fn selection_overwritten(
    t: TextV,
    kind: VisualKind,
    span: SpanV,
    a: Pos,
    b: Pos,
    c: char,
    n: int,
) -> TextV
    decreases n,
{
    if n <= 0 {
        t
    } else {
        let u = selection_overwritten(t, kind, span, a, b, c, n - 1);
        let l = a.line + n - 1;
        let (from, to) = selected_cols(kind, span, a, b, l, len_at(u.lines, l));
        overwritten(u, pos(l, from), c, to - from)
    }
}

impl Ed {
    /// A charwise operator applied over a block, one line at a time.
    #[verifier::opaque]
    pub open spec fn blockwise(self, op: Op, span: SpanV) -> Ed {
        if !self.has() {
            self
        } else {
            let b = self.buf();
            let bot = min(span.bot, b.text.lines.len() - 1);
            let top = min(span.top, bot);
            match op {
                Op::Delete | Op::Change | Op::Yank => {
                    let yank = op == Op::Yank;
                    let g = if yank {
                        b.text
                    } else {
                        b.text.group_begun(b.cursor)
                    };
                    let (t, frags) = block_taken(g, span, top, yank, bot - top + 1);
                    let c = clamped(t.lines, pos(top, span.c1), op == Op::Change);
                    let d = self.with(
                        BufV {
                            text: if op == Op::Delete {
                                t.group_ended()
                            } else {
                                t
                            },
                            cursor: c,
                            desired_col: c.col,
                            ..b
                        },
                    ).stored(unlines(frags), RegKind::Block, yank);
                    if op == Op::Change {
                        Ed {
                            e: EngV {
                                block_insert: Some(
                                    BlockV {
                                        buf: self.s.active(),
                                        start: c,
                                        top,
                                        bot,
                                        col: span.c1,
                                        pad: false,
                                        to_eol: false,
                                    },
                                ),
                                ..d.e
                            },
                            ..d
                        }.inserting()
                    } else {
                        d
                    }
                },
                Op::Lower | Op::Upper => {
                    let t = block_cased(
                        b.text.group_begun(b.cursor),
                        span,
                        top,
                        op == Op::Upper,
                        bot - top + 1,
                    ).group_ended();
                    self.with(b.landed(t, pos(top, span.c1)))
                },
                _ => self,
            }
        }
    }

    /// The operator is chosen and visual mode ends.
    pub open spec fn op_chosen(self, op: Op) -> Ed {
        Ed { e: EngV { op: Some(op), mode: Mode::Normal, ..self.e }, ..self }.buzz()
    }

    /// Nothing is left over of an operator on a selection.
    pub open spec fn op_ended(self) -> Ed {
        let d = if self.e.mode == Mode::Insert {
            self
        } else {
            self.reset()
        };
        Ed { e: EngV { op: None, ..d.e }, ..d }
    }

    /// An operator applied to the visual selection.
    #[verifier::opaque]
    pub open spec fn visual_op(self, op: Op, kind: VisualKind) -> Ed {
        if !self.has() {
            self
        } else {
            let (a, b) = in_order(self.e.anchor, self.buf().cursor);
            let span = span_of(self.e.anchor, self.buf());
            self.op_chosen(op).selection_operated(op, kind, a, b, span).op_ended()
        }
    }

    /// An operator applied to a selection between two places; the indent family takes whole
    /// lines even of a block.
    pub open spec fn selection_operated(
        self,
        op: Op,
        kind: VisualKind,
        a: Pos,
        b: Pos,
        span: SpanV,
    ) -> Ed {
        match kind {
            VisualKind::Line => self.linewise(op, a.line, b.line),
            VisualKind::Block => if op == Op::Indent || op == Op::Dedent || op == Op::Comment {
                self.linewise(op, a.line, b.line)
            } else {
                self.blockwise(op, span)
            },
            VisualKind::Char => self.operated(a, b, MotionKind::Inclusive),
        }
    }

    /// Block D / C: the operator over the block out to the end of every line.
    #[verifier::opaque]
    pub open spec fn block_to_eol(self, op: Op) -> Ed {
        if !self.has() {
            self
        } else {
            let span = SpanV { to_eol: true, ..span_of(self.e.anchor, self.buf()) };
            self.op_chosen(op).blockwise(op, span).op_ended()
        }
    }

    /// Block I / A: the cursor on the top line, typing copied onto the others later.
    #[verifier::opaque]
    pub open spec fn block_inserting(self, append: bool) -> Ed {
        if !self.has() {
            self
        } else {
            let b = self.buf();
            let span = span_of(self.e.anchor, b);
            let last = b.text.lines.len() - 1;
            let (top, bot) = (min(span.top, last), min(span.bot, last));
            let g = b.text.group_begun(b.cursor);
            let (t, col) = if append {
                if span.to_eol {
                    (g, len_at(g.lines, top))
                } else {
                    (padded(g, top, span.c2 + 1), span.c2 + 1)
                }
            } else {
                (g, min(span.c1, len_at(g.lines, top)))
            };
            let d = self.with(BufV { text: t, cursor: pos(top, col), ..b });
            Ed {
                e: EngV {
                    block_insert: Some(
                        BlockV {
                            buf: self.s.active(),
                            start: pos(top, col),
                            top,
                            bot,
                            col: if append {
                                span.c2 + 1
                            } else {
                                span.c1
                            },
                            pad: append,
                            to_eol: append && span.to_eol,
                        },
                    ),
                    ..d.e
                },
                ..d
            }.inserting()
        }
    }

    /// r{char} in visual mode: every selected char overwritten.
    #[verifier::opaque]
    pub open spec fn visual_replaced(self, c: char) -> Ed {
        if !self.has() {
            self
        } else {
            let buf = self.buf();
            let kind = match self.e.mode {
                Mode::Visual { kind } => kind,
                _ => VisualKind::Char,
            };
            let span = span_of(self.e.anchor, buf);
            let (a, b) = in_order(self.e.anchor, buf.cursor);
            let last = min(b.line, buf.text.lines.len() - 1);
            let t = selection_overwritten(
                buf.text.group_begun(a),
                kind,
                span,
                a,
                b,
                c,
                last - a.line + 1,
            ).group_ended();
            let home = if kind == VisualKind::Block {
                pos(a.line, span.c1)
            } else {
                a
            };
            self.with(
                BufV { text: t, cursor: clamped(t.lines, home, false), ..buf },
            ).into_mode(Mode::Normal).reset()
        }
    }

    /// Some selected char is lowercase.
    pub open spec fn selection_has_lower(self) -> bool {
        self.has() && {
            let b = self.buf();
            let (p, q) = in_order(self.e.anchor, b.cursor);
            any_lower(extracted(b.text.lines, p, advanced(b.text.lines, q)))
        }
    }
}

pub open spec fn any_lower(s: Seq<char>) -> bool {
    exists|i: int| 0 <= i < s.len() && is_lower(#[trigger] s[i])
}

/// Whether some char is lowercase.
fn has_lower(s: &str) -> (r: bool)
    ensures
        r == any_lower(s@),
{
    let chars = to_chars(s);
    for i in 0..chars.len()
        invariant
            chars@ == s@,
            forall|j: int| 0 <= j < i ==> !is_lower(#[trigger] chars@[j]),
    {
        if chars[i].is_lowercase() {
            assert(is_lower(s@[i as int]));
            return true;
        }
    }
    false
}

/// Take a block's lines out (or, yanking, only read them).
fn take_block(text: &mut TextBuffer, span: BlockSpan, top: usize, bot: usize, yank: bool) -> (r:
    String)
    requires
        old(text)@.wf(),
        top <= bot <= isize::MAX,
        span.model().wf(),
    ensures
        final(text)@.wf(),
        final(text)@ == block_taken(old(text)@, span.model(), top as int, yank, bot - top + 1).0,
        r@ == unlines(block_taken(old(text)@, span.model(), top as int, yank, bot - top + 1).1),
{
    let ghost t0 = text@;
    let mut frags: Vec<String> = Vec::new();
    assert(texts(frags@) =~= Seq::<Seq<char>>::empty());
    for l in top..bot + 1
        invariant
            text@.wf(),
            top <= l <= bot + 1,
            bot <= isize::MAX,
            span.model().wf(),
            (text@, texts(frags@)) == block_taken(t0, span.model(), top as int, yank, l - top),
    {
        let frag = match span.cols(text.line_len(l)) {
            Some((s, e)) => {
                let (a, b) = (Position::new(l, s), Position::new(l, e));
                if yank {
                    extract_range(text, a, b)
                } else {
                    text.delete_range(a, b)
                }
            },
            None => String::new(),
        };
        let ghost before = texts(frags@);
        frags.push(frag);
        assert(texts(frags@) =~= before.push(frag@));
    }
    join_lines(frags.as_slice())
}

/// Change a block's case.
fn case_block(text: &mut TextBuffer, span: BlockSpan, top: usize, bot: usize, up: bool)
    requires
        old(text)@.wf(),
        top <= bot <= isize::MAX,
        span.model().wf(),
    ensures
        final(text)@.wf(),
        final(text)@ == block_cased(old(text)@, span.model(), top as int, up, bot - top + 1),
{
    let ghost t0 = text@;
    for l in top..bot + 1
        invariant
            text@.wf(),
            top <= l <= bot + 1,
            bot <= isize::MAX,
            span.model().wf(),
            text@ == block_cased(t0, span.model(), top as int, up, l - top),
    {
        if let Some((s, e)) = span.cols(text.line_len(l)) {
            map_case_range(text, Position::new(l, s), Position::new(l, e), up);
        }
    }
}

/// Overwrite a selection's lines.
fn overwrite_selection(
    text: &mut TextBuffer,
    kind: VisualKind,
    span: BlockSpan,
    a: Position,
    b: Position,
    c: char,
    last: usize,
)
    requires
        old(text)@.wf(),
        a.line <= last <= isize::MAX,
        span.model().wf(),
        small(a@),
        small(b@),
    ensures
        final(text)@.wf(),
        final(text)@ == selection_overwritten(
            old(text)@,
            kind,
            span.model(),
            a@,
            b@,
            c,
            last - a.line + 1,
        ),
{
    let ghost t0 = text@;
    for l in a.line..last + 1
        invariant
            text@.wf(),
            a.line <= l <= last + 1,
            last <= isize::MAX,
            span.model().wf(),
            small(a@),
            small(b@),
            text@ == selection_overwritten(t0, kind, span.model(), a@, b@, c, l - a.line),
    {
        let len: usize = text.line_len(l);
        let (from, to): (usize, usize) = match kind {
            VisualKind::Line => (0, len),
            VisualKind::Char => (
                if l == a.line {
                    a.col
                } else {
                    0
                },
                if l == b.line && b.col + 1 < len {
                    b.col + 1
                } else {
                    len
                },
            ),
            VisualKind::Block => match span.cols(len) {
                Some(cols) => cols,
                None => (0, 0),
            },
        };
        if from < to {
            overwrite(text, Position::new(l, from), c, to - from);
        }
    }
}

impl VimEngine {
    /// Rectangle covered by the block selection between the anchor and the cursor.
    fn block_span(&self, buf: &Buffer) -> (r: BlockSpan)
        requires
            self@.wf(),
            buf@.wf(),
        ensures
            r.model() == span_of(self@.anchor, buf@),
            r.model().wf(),
    {
        let (a, b) = ordered(self.anchor, buf.cursor);
        let (c1, c2): (usize, usize) = if self.anchor.col <= buf.cursor.col {
            (self.anchor.col, buf.cursor.col)
        } else {
            (buf.cursor.col, self.anchor.col)
        };
        BlockSpan {
            top: a.line,
            bot: b.line,
            c1,
            c2,
            to_eol: buf.desired_col == usize::MAX,
        }
    }

    /// Apply a charwise operator over the block rectangle, one line at a time.
    fn apply_block(
        &mut self,
        st: &mut EditorState,
        host: &mut HostHandle,
        op: Op,
        span: BlockSpan,
    )
        requires
            ed(*old(self), *old(st), *old(host)).wf(),
            span.model().wf(),
            op == Op::Delete || op == Op::Change || op == Op::Yank || op == Op::Lower || op
                == Op::Upper,
        ensures
            same_replay(old(self)@, final(self)@),
            ed(*final(self), *final(st), *final(host)).sane(),
            ed(*final(self), *final(st), *final(host)) == ed(
                *old(self),
                *old(st),
                *old(host),
            ).blockwise(op, span.model()),
    {
        reveal(Ed::blockwise);
        let active: usize = st.active();
        if let Some(buf) = st.buf_mut() {
            let last: usize = buf.text.line_count() - 1;
            let bot: usize = if span.bot < last {
                span.bot
            } else {
                last
            };
            let top: usize = if span.top < bot {
                span.top
            } else {
                bot
            };
            let cur = buf.cursor;
            match op {
                Op::Lower | Op::Upper => {
                    buf.text.begin_undo_group(cur);
                    case_block(&mut buf.text, span, top, bot, op == Op::Upper);
                    buf.text.end_undo_group();
                    land(buf, Position::new(top, span.c1));
                },
                _ => {
                    if op != Op::Yank {
                        buf.text.begin_undo_group(cur);
                    }
                    let frags = take_block(&mut buf.text, span, top, bot, op == Op::Yank);
                    let cursor = buf.text.clamp(Position::new(top, span.c1), op == Op::Change);
                    buf.cursor = cursor;
                    buf.desired_col = cursor.col;
                    if op == Op::Delete {
                        buf.text.end_undo_group();
                    }
                    self.store_register(st, frags, RegKind::Block, op == Op::Yank);
                    if op == Op::Change {
                        // The undo group stays open through the insert; Esc replicates the
                        // typed text onto the block's other lines.
                        self.block_insert = Some(
                            BlockInsert {
                                buf: active,
                                start: cursor,
                                top,
                                bot,
                                col: span.c1,
                                pad: false,
                                to_eol: false,
                            },
                        );
                        self.enter_insert(st, host);
                    }
                },
            }
        }
    }

    /// Apply `op` to the visual selection and drop back to normal mode.
    pub(crate) fn visual_op(
        &mut self,
        st: &mut EditorState,
        host: &mut HostHandle,
        op: Op,
        kind: VisualKind,
    )
        requires
            ed(*old(self), *old(st), *old(host)).wf(),
        ensures
            same_replay(old(self)@, final(self)@),
            ed(*final(self), *final(st), *final(host)).sane(),
            ed(*final(self), *final(st), *final(host)) == ed(
                *old(self),
                *old(st),
                *old(host),
            ).visual_op(op, kind),
    {
        reveal(Ed::visual_op);
        let (a, b, span) = match st.buf() {
            Some(buf) => {
                let (a, b) = ordered(self.anchor, buf.cursor);
                (a, b, self.block_span(buf))
            },
            None => {
                return;
            },
        };
        self.choose_op(host, op);
        let ghost d = ed(*self, *st, *host);
        assert(d == ed(*old(self), *old(st), *old(host)).op_chosen(op));
        assert(d.wf());
        self.operate_selection(st, host, op, kind, a, b, span);
        self.end_op();
    }

    /// Apply an operator to a selection between two places.
    fn operate_selection(
        &mut self,
        st: &mut EditorState,
        host: &mut HostHandle,
        op: Op,
        kind: VisualKind,
        a: Position,
        b: Position,
        span: BlockSpan,
    )
        requires
            ed(*old(self), *old(st), *old(host)).wf(),
            old(st)@.has_buf(),
            fits(a@),
            fits(b@),
            span.model().wf(),
        ensures
            same_replay(old(self)@, final(self)@),
            ed(*final(self), *final(st), *final(host)).sane(),
            ed(*final(self), *final(st), *final(host)) == ed(
                *old(self),
                *old(st),
                *old(host),
            ).selection_operated(op, kind, a@, b@, span.model()),
    {
        let by_line = op == Op::Indent || op == Op::Dedent || op == Op::Comment;
        match kind {
            VisualKind::Line => {
                self.apply_linewise(st, host, op, a.line, b.line);
            },
            // Indent-family ops act on whole lines even from a block selection.
            VisualKind::Block => {
                if by_line {
                    self.apply_linewise(st, host, op, a.line, b.line);
                } else {
                    self.apply_block(st, host, op, span);
                }
            },
            VisualKind::Char => {
                self.apply_op(st, host, a, b, MotionKind::Inclusive);
            },
        }
    }

    /// The operator is chosen and visual mode ends.
    fn choose_op(&mut self, host: &mut HostHandle, op: Op)
        ensures
            same_replay(old(self)@, final(self)@),
            final(self)@ == (EngV { op: Some(op), mode: Mode::Normal, ..old(self)@ }),
            final(host)@ == old(host)@.push(CallV::Haptic(6)),
    {
        self.op = Some(op);
        self.mode = Mode::Normal;
        host.haptic(6);
    }

    /// Drop what is left over of an operator on a selection.
    fn end_op(&mut self)
        ensures
            same_replay(old(self)@, final(self)@),
            final(self)@ == (EngV {
                op: None,
                ..(if old(self)@.mode == Mode::Insert {
                    old(self)@
                } else {
                    old(self)@.reset()
                })
            }),
    {
        if self.mode != Mode::Insert {
            self.reset();
        }
        self.op = None;
    }

    /// Block I / A: park the cursor on the top line and arm cross-line replication.
    fn block_insert_enter(&mut self, st: &mut EditorState, host: &mut HostHandle, append: bool)
        requires
            ed(*old(self), *old(st), *old(host)).wf(),
        ensures
            same_replay(old(self)@, final(self)@),
            ed(*final(self), *final(st), *final(host)).sane(),
            ed(*final(self), *final(st), *final(host)) == ed(
                *old(self),
                *old(st),
                *old(host),
            ).block_inserting(append),
    {
        reveal(Ed::block_inserting);
        let span = match st.buf() {
            Some(buf) => self.block_span(buf),
            None => {
                return;
            },
        };
        let active: usize = st.active();
        if let Some(buf) = st.buf_mut() {
            let last: usize = buf.text.line_count() - 1;
            let top: usize = if span.top < last {
                span.top
            } else {
                last
            };
            let bot: usize = if span.bot < last {
                span.bot
            } else {
                last
            };
            let cur = buf.cursor;
            buf.text.begin_undo_group(cur);
            let len: usize = buf.text.line_len(top);
            let col: usize = if append {
                if span.to_eol {
                    len
                } else {
                    // Pad so typing starts exactly after the block edge.
                    pad_line(&mut buf.text, top, span.c2 + 1);
                    span.c2 + 1
                }
            } else if span.c1 < len {
                span.c1
            } else {
                len
            };
            buf.cursor = Position::new(top, col);
            self.block_insert = Some(
                BlockInsert {
                    buf: active,
                    start: Position::new(top, col),
                    top,
                    bot,
                    col: if append {
                        span.c2 + 1
                    } else {
                        span.c1
                    },
                    pad: append,
                    to_eol: append && span.to_eol,
                },
            );
            self.enter_insert(st, host);
        }
    }

    /// Block D / C: the rect extends to end-of-line on every spanned line.
    fn block_to_eol(&mut self, st: &mut EditorState, host: &mut HostHandle, op: Op)
        requires
            ed(*old(self), *old(st), *old(host)).wf(),
            op == Op::Delete || op == Op::Change,
        ensures
            same_replay(old(self)@, final(self)@),
            ed(*final(self), *final(st), *final(host)).sane(),
            ed(*final(self), *final(st), *final(host)) == ed(
                *old(self),
                *old(st),
                *old(host),
            ).block_to_eol(op),
    {
        reveal(Ed::block_to_eol);
        let mut span = match st.buf() {
            Some(buf) => self.block_span(buf),
            None => {
                return;
            },
        };
        span.to_eol = true;
        self.choose_op(host, op);
        let ghost d = ed(*self, *st, *host);
        assert(d == ed(*old(self), *old(st), *old(host)).op_chosen(op));
        assert(d.wf());
        self.apply_block(st, host, op, span);
        self.end_op();
    }

    /// r{char} in visual: overwrite every selected char.
    fn visual_replace(&mut self, st: &mut EditorState, host: &mut HostHandle, c: char)
        requires
            ed(*old(self), *old(st), *old(host)).wf(),
        ensures
            same_replay(old(self)@, final(self)@),
            ed(*final(self), *final(st), *final(host)).sane(),
            ed(*final(self), *final(st), *final(host)) == ed(
                *old(self),
                *old(st),
                *old(host),
            ).visual_replaced(c),
    {
        reveal(Ed::visual_replaced);
        let (a, b, span) = match st.buf() {
            Some(buf) => {
                let (a, b) = ordered(self.anchor, buf.cursor);
                (a, b, self.block_span(buf))
            },
            None => {
                return;
            },
        };
        let kind = match self.mode {
            Mode::Visual { kind } => kind,
            _ => VisualKind::Char,
        };
        if let Some(buf) = st.buf_mut() {
            buf.text.begin_undo_group(a);
            let top: usize = buf.text.line_count() - 1;
            let last: usize = if b.line < top {
                b.line
            } else {
                top
            };
            overwrite_selection(&mut buf.text, kind, span, a, b, c, last);
            buf.text.end_undo_group();
            let home = if kind == VisualKind::Block {
                Position::new(a.line, span.c1)
            } else {
                a
            };
            buf.cursor = buf.text.clamp(home, false);
        }
        self.set_mode(host, Mode::Normal);
        self.reset();
    }

    fn selection_has_lower(&self, st: &EditorState) -> (r: bool)
        requires
            self@.wf(),
            st@.wf(),
        ensures
            forall|h: Seq<CallV>|
                r == #[trigger] (Ed { e: self@, s: st@, h }).selection_has_lower(),
    {
        match st.buf() {
            None => false,
            Some(buf) => {
                let (a, b) = ordered(self.anchor, buf.cursor);
                let text = extract_range(&buf.text, a, advance(&buf.text, b));
                has_lower(text.as_str())
            },
        }
    }
}

/// Letters and digits that name registers.
pub open spec fn names_register(c: char) -> bool {
    ascii_lower(c) || ascii_upper(c) || ascii_digit(c)
}

pub(crate) fn is_register(c: char) -> (r: bool)
    ensures
        r == names_register(c),
{
    ('a' <= c && c <= 'z') || ('A' <= c && c <= 'Z') || ('0' <= c && c <= '9')
}

/// A count with one more digit, within the ceiling.
pub open spec fn count_grown(n: int, c: char) -> int {
    min(n * 10 + (c as int - 48), MAX_COUNT as int)
}

pub(crate) fn grow_count(n: usize, c: char) -> (r: usize)
    requires
        '0' <= c <= '9',
    ensures
        r == count_grown(n as int, c),
        r <= MAX_COUNT,
{
    if n >= MAX_COUNT {
        return MAX_COUNT;
    }
    let d: usize = (c as u32 - 48) as usize;
    let m: usize = n * 10 + d;
    if m < MAX_COUNT {
        m
    } else {
        MAX_COUNT
    }
}

impl Ed {
    /// v, V and Ctrl+v in visual mode: off when it is that kind already, else that kind.
    pub open spec fn visual_toggled(self, kind: VisualKind, to: VisualKind) -> Ed {
        self.into_mode(
            if kind == to {
                Mode::Normal
            } else {
                Mode::Visual { kind: to }
            },
        ).reset()
    }

    /// o: anchor and cursor swapped.
    pub open spec fn ends_swapped(self) -> Ed {
        if self.has() {
            let b = self.buf();
            let d = self.with(
                BufV { cursor: self.e.anchor, desired_col: self.e.anchor.col, ..b },
            );
            Ed { e: EngV { anchor: b.cursor, ..d.e }, ..d }
        } else {
            self
        }
    }

    /// O in a block: the horizontal corners swapped.
    pub open spec fn cols_swapped(self) -> Ed {
        if self.has() {
            let b = self.buf();
            let a = self.e.anchor;
            let d = self.with(
                BufV { cursor: pos(b.cursor.line, a.col), desired_col: a.col, ..b },
            );
            Ed { e: EngV { anchor: pos(a.line, b.cursor.col), ..d.e }, ..d }
        } else {
            self
        }
    }

    /// J: the selected lines joined.
    #[verifier::opaque]
    pub open spec fn selection_joined(self) -> Ed {
        if !self.has() {
            self
        } else {
            let (a, b) = in_order(self.e.anchor, self.buf().cursor);
            let d = self.with(BufV { cursor: pos(a.line, 0), ..self.buf() });
            Ed { e: EngV { count: max(b.line - a.line, 1) + 1, ..d.e }, ..d }.into_mode(
                Mode::Normal,
            ).did_join()
        }
    }

    pub open spec fn waiting(self, a: Await) -> Ed {
        Ed { e: self.e.wait(a), ..self }
    }

    /// A key after g in visual mode.
    #[verifier::opaque]
    pub open spec fn visual_g(self, key: Key, kind: VisualKind) -> Ed {
        let d = match key {
            Key::Char(c) => if c == 'g' {
                if self.has() {
                    let b = self.buf();
                    self.with(
                        BufV {
                            cursor: clamped(b.text.lines, pos(0, 0), false),
                            desired_col: 0,
                            ..b
                        },
                    )
                } else {
                    self
                }
            } else if c == 'u' {
                self.visual_op(Op::Lower, kind)
            } else if c == 'U' {
                self.visual_op(Op::Upper, kind)
            } else if c == 'c' {
                self.visual_op(Op::Comment, kind)
            } else if c == 'e' {
                if self.has() {
                    let b = self.buf();
                    let p = word_back_end_of(b.text.lines, b.cursor, false);
                    self.with(BufV { cursor: clamped(b.text.lines, p, false), ..b })
                } else {
                    self
                }
            } else {
                self
            },
            _ => self,
        };
        Ed { e: EngV { pending: Seq::empty(), ..d.e }, ..d }
    }

    /// A key in visual mode that something pending waits for.
    #[verifier::opaque]
    pub open spec fn visual_awaited(self, w: Await, key: Key, kind: VisualKind) -> Ed {
        match w {
            Await::Find(k) => match key {
                Key::Char(c) => Ed {
                    e: EngV { last_find: Some((k, c)), ..self.e },
                    ..self
                }.did_find(k, c),
                _ => self,
            },
            Await::Object(around) => match key {
                Key::Char(c) => self.did_object(c, around),
                _ => self,
            },
            Await::Register => match key {
                Key::Char(c) => if names_register(c) {
                    Ed { e: EngV { reg: Some(ascii_lowered(c)), ..self.e }, ..self }
                } else {
                    self
                },
                _ => self,
            },
            Await::Replace => match key {
                Key::Char(c) => self.visual_replaced(c),
                _ => self,
            },
            Await::Prefix(p) => if p == 'g' {
                self.visual_g(key, kind)
            } else {
                self.reset()
            },
            _ => self.reset(),
        }
    }

    /// The operator that a key applies to the selection.
    pub open spec fn visual_operator(self, key: Key) -> Option<Op> {
        match key {
            Key::Delete => Some(Op::Delete),
            Key::Char(c) => if c == 'd' || c == 'x' {
                Some(Op::Delete)
            } else if c == 'c' || c == 's' {
                Some(Op::Change)
            } else if c == 'y' {
                Some(Op::Yank)
            } else if c == '>' {
                Some(Op::Indent)
            } else if c == '<' {
                Some(Op::Dedent)
            } else if c == '~' {
                Some(
                    if self.selection_has_lower() {
                        Op::Upper
                    } else {
                        Op::Lower
                    },
                )
            } else if c == 'u' {
                Some(Op::Lower)
            } else if c == 'U' {
                Some(Op::Upper)
            } else {
                None
            },
            _ => None,
        }
    }

    /// A visual-mode key that is neither operator nor motion; `None` for the rest.
    #[verifier::opaque]
    pub open spec fn visual_command(self, key: Key, kind: VisualKind) -> Option<Ed> {
        let block = kind == VisualKind::Block;
        match key {
            Key::Esc => Some(self.into_mode(Mode::Normal).reset()),
            Key::Ctrl(c) => if c == 'c' {
                Some(self.into_mode(Mode::Normal).reset())
            } else if c == 'v' {
                Some(self.visual_toggled(kind, VisualKind::Block))
            } else {
                None
            },
            Key::Char(c) => if ascii_digit(c) && !(c == '0' && self.e.count == 0) {
                Some(
                    Ed {
                        e: EngV { count: count_grown(self.e.count, c), ..self.e }.pend(c),
                        ..self
                    },
                )
            } else if c == 'v' {
                Some(self.visual_toggled(kind, VisualKind::Char))
            } else if c == 'V' {
                Some(self.visual_toggled(kind, VisualKind::Line))
            } else if c == 'o' {
                Some(self.ends_swapped())
            } else if c == 'O' {
                Some(
                    if block {
                        self.cols_swapped()
                    } else {
                        self.ends_swapped()
                    },
                )
            } else if c == 'I' && block {
                Some(self.block_inserting(false))
            } else if c == 'A' && block {
                Some(self.block_inserting(true))
            } else if c == 'D' && block {
                Some(self.block_to_eol(Op::Delete))
            } else if c == 'C' && block {
                Some(self.block_to_eol(Op::Change))
            } else if c == '"' {
                Some(self.waiting(Await::Register))
            } else if c == 'J' {
                Some(self.selection_joined())
            } else if c == 'r' {
                Some(self.waiting(Await::Replace))
            } else if c == 'i' {
                Some(self.waiting(Await::Object(false)))
            } else if c == 'a' {
                Some(self.waiting(Await::Object(true)))
            } else if c == 'g' {
                Some(self.waiting(Await::Prefix('g')))
            } else if c == ':' {
                Some(self.into_cmdline())
            } else {
                None
            },
            _ => None,
        }
    }

    /// A key in visual mode.
    pub open spec fn visual_keyed(self, key: Key, kind: VisualKind) -> Ed {
        let w = self.e.awaiting;
        let d = self.waiting(Await::Nothing);
        if w != Await::Nothing {
            d.visual_awaited(w, key, kind)
        } else {
            match d.visual_operator(key) {
                Some(op) => d.visual_op(op, kind),
                None => match d.visual_command(key, kind) {
                    Some(f) => f,
                    None => match d.motioned(key) {
                        Some(f) => f,
                        None => d,
                    },
                },
            }
        }
    }
}

impl VimEngine {
    /// A key after g in visual mode.
    fn visual_g_key(
        &mut self,
        st: &mut EditorState,
        host: &mut HostHandle,
        key: Key,
        kind: VisualKind,
    )
        requires
            ed(*old(self), *old(st), *old(host)).wf(),
        ensures
            same_replay(old(self)@, final(self)@),
            ed(*final(self), *final(st), *final(host)).sane(),
            ed(*final(self), *final(st), *final(host)) == ed(
                *old(self),
                *old(st),
                *old(host),
            ).visual_g(key, kind),
    {
        reveal(Ed::visual_g);
        match key {
            Key::Char('g') => {
                if let Some(buf) = st.buf_mut() {
                    buf.cursor = buf.text.clamp(Position::new(0, 0), false);
                    buf.desired_col = 0;
                }
            },
            Key::Char('u') => self.visual_op(st, host, Op::Lower, kind),
            Key::Char('U') => self.visual_op(st, host, Op::Upper, kind),
            Key::Char('c') => self.visual_op(st, host, Op::Comment, kind),
            Key::Char('e') => {
                if let Some(buf) = st.buf_mut() {
                    let p = word_back_end(&buf.text, buf.cursor, false);
                    buf.cursor = buf.text.clamp(p, false);
                }
            },
            _ => {},
        }
        self.pending = String::new();
        assert(self@.pending =~= Seq::<char>::empty());
    }

    /// A key in visual mode that something pending waits for.
    fn visual_await(
        &mut self,
        st: &mut EditorState,
        host: &mut HostHandle,
        w: Await,
        key: Key,
        kind: VisualKind,
    )
        requires
            ed(*old(self), *old(st), *old(host)).wf(),
        ensures
            same_replay(old(self)@, final(self)@),
            ed(*final(self), *final(st), *final(host)).sane(),
            ed(*final(self), *final(st), *final(host)) == ed(
                *old(self),
                *old(st),
                *old(host),
            ).visual_awaited(w, key, kind),
    {
        reveal(Ed::visual_awaited);
        match w {
            Await::Find(k) => {
                if let Key::Char(c) = key {
                    self.last_find = Some((k, c));
                    self.do_find(st, host, k, c);
                }
            },
            Await::Object(around) => {
                if let Key::Char(c) = key {
                    self.do_object(st, host, c, around);
                }
            },
            Await::Register => {
                if let Key::Char(c) = key {
                    if is_register(c) {
                        self.reg = Some(to_ascii_lower(c));
                    }
                }
            },
            Await::Replace => {
                if let Key::Char(c) = key {
                    self.visual_replace(st, host, c);
                }
            },
            Await::Prefix('g') => self.visual_g_key(st, host, key, kind),
            _ => self.reset(),
        }
    }

    /// Swap the anchor and the cursor, or only their columns.
    fn swap_ends(&mut self, st: &mut EditorState, cols: bool)
        requires
            old(self)@.wf(),
            old(st)@.wf(),
        ensures
            same_replay(old(self)@, final(self)@),
            final(self)@.wf(),
            final(st)@.sane(),
            forall|h: Seq<CallV>|
                !cols ==> (Ed { e: final(self)@, s: final(st)@, h }) == #[trigger] (Ed {
                    e: old(self)@,
                    s: old(st)@,
                    h,
                }).ends_swapped(),
            forall|h: Seq<CallV>|
                cols ==> (Ed { e: final(self)@, s: final(st)@, h }) == #[trigger] (Ed {
                    e: old(self)@,
                    s: old(st)@,
                    h,
                }).cols_swapped(),
    {
        if let Some(buf) = st.buf_mut() {
            let a = self.anchor;
            let c = buf.cursor;
            if cols {
                self.anchor = Position::new(a.line, c.col);
                buf.cursor = Position::new(c.line, a.col);
            } else {
                self.anchor = c;
                buf.cursor = a;
            }
            buf.desired_col = a.col;
        }
    }

    /// J: join the selected lines.
    fn join_selection(&mut self, st: &mut EditorState, host: &mut HostHandle)
        requires
            ed(*old(self), *old(st), *old(host)).wf(),
        ensures
            same_replay(old(self)@, final(self)@),
            ed(*final(self), *final(st), *final(host)).sane(),
            ed(*final(self), *final(st), *final(host)) == ed(
                *old(self),
                *old(st),
                *old(host),
            ).selection_joined(),
    {
        reveal(Ed::selection_joined);
        let joins: usize = match st.buf_mut() {
            None => {
                return;
            },
            Some(buf) => {
                let (a, b) = ordered(self.anchor, buf.cursor);
                buf.cursor = Position::new(a.line, 0);
                if b.line - a.line > 1 {
                    b.line - a.line
                } else {
                    1
                }
            },
        };
        self.count = joins + 1;
        self.set_mode(host, Mode::Normal);
        self.do_join(st);
    }

    fn toggle_visual(&mut self, host: &mut HostHandle, kind: VisualKind, to: VisualKind)
        ensures
            same_replay(old(self)@, final(self)@),
            forall|s: crate::rvim::state::StV|
                (Ed { e: final(self)@, s, h: final(host)@ }) == #[trigger] (Ed {
                    e: old(self)@,
                    s,
                    h: old(host)@,
                }).visual_toggled(kind, to),
    {
        if kind == to {
            self.set_mode(host, Mode::Normal);
        } else {
            self.set_mode(host, Mode::Visual { kind: to });
        }
        self.reset();
    }

    /// The operator that a key applies to the selection.
    fn visual_operator(&self, st: &EditorState, key: Key) -> (r: Option<Op>)
        requires
            self@.wf(),
            st@.wf(),
        ensures
            forall|h: Seq<CallV>|
                r == #[trigger] (Ed { e: self@, s: st@, h }).visual_operator(key),
    {
        match key {
            Key::Delete | Key::Char('d') | Key::Char('x') => Some(Op::Delete),
            Key::Char('c') | Key::Char('s') => Some(Op::Change),
            Key::Char('y') => Some(Op::Yank),
            Key::Char('>') => Some(Op::Indent),
            Key::Char('<') => Some(Op::Dedent),
            Key::Char('~') => if self.selection_has_lower(st) {
                Some(Op::Upper)
            } else {
                Some(Op::Lower)
            },
            Key::Char('u') => Some(Op::Lower),
            Key::Char('U') => Some(Op::Upper),
            _ => None,
        }
    }

    /// A visual-mode key that is neither operator nor motion; false for the rest.
    fn visual_command(
        &mut self,
        st: &mut EditorState,
        host: &mut HostHandle,
        key: Key,
        kind: VisualKind,
    ) -> (r: bool)
        requires
            ed(*old(self), *old(st), *old(host)).wf(),
        ensures
            same_replay(old(self)@, final(self)@),
            ed(*final(self), *final(st), *final(host)).sane(),
            match ed(*old(self), *old(st), *old(host)).visual_command(key, kind) {
                Some(d) => r && ed(*final(self), *final(st), *final(host)) == d,
                None => !r && ed(*final(self), *final(st), *final(host)) == ed(
                    *old(self),
                    *old(st),
                    *old(host),
                ) && ed(*final(self), *final(st), *final(host)).wf(),
            },
    {
        reveal(Ed::visual_command);
        let block = kind == VisualKind::Block;
        match key {
            Key::Esc | Key::Ctrl('c') => {
                self.set_mode(host, Mode::Normal);
                self.reset();
            },
            Key::Ctrl('v') => self.toggle_visual(host, kind, VisualKind::Block),
            Key::Char(c) => {
                if '0' <= c && c <= '9' && !(c == '0' && self.count == 0) {
                    self.count = grow_count(self.count, c);
                    self.pend(c);
                } else if c == 'v' {
                    self.toggle_visual(host, kind, VisualKind::Char);
                } else if c == 'V' {
                    self.toggle_visual(host, kind, VisualKind::Line);
                } else if c == 'o' || c == 'O' {
                    // Block O: swap the horizontal corners; otherwise same as o.
                    self.swap_ends(st, c == 'O' && block);
                } else if c == 'I' && block {
                    self.block_insert_enter(st, host, false);
                } else if c == 'A' && block {
                    self.block_insert_enter(st, host, true);
                } else if c == 'D' && block {
                    self.block_to_eol(st, host, Op::Delete);
                } else if c == 'C' && block {
                    self.block_to_eol(st, host, Op::Change);
                } else if c == '"' {
                    self.awaiting = Await::Register;
                } else if c == 'J' {
                    self.join_selection(st, host);
                } else if c == 'r' {
                    self.awaiting = Await::Replace;
                } else if c == 'i' {
                    self.awaiting = Await::Object(false);
                } else if c == 'a' {
                    self.awaiting = Await::Object(true);
                } else if c == 'g' {
                    self.awaiting = Await::Prefix('g');
                } else if c == ':' {
                    self.enter_cmdline(host);
                } else {
                    return false;
                }
            },
            _ => {
                return false;
            },
        }
        true
    }

    pub(crate) fn visual_key(
        &mut self,
        st: &mut EditorState,
        host: &mut HostHandle,
        key: Key,
        kind: VisualKind,
    )
        requires
            ed(*old(self), *old(st), *old(host)).wf(),
        ensures
            same_replay(old(self)@, final(self)@),
            ed(*final(self), *final(st), *final(host)).sane(),
            ed(*final(self), *final(st), *final(host)) == ed(
                *old(self),
                *old(st),
                *old(host),
            ).visual_keyed(key, kind),
    {
        let w = self.awaiting;
        self.awaiting = Await::Nothing;
        assert(ed(*self, *st, *host).wf());
        if w != Await::Nothing {
            self.visual_await(st, host, w, key, kind);
            return;
        }
        let op = self.visual_operator(st, key);
        assert(op == ed(*self, *st, *host).visual_operator(key));
        if let Some(op) = op {
            self.visual_op(st, host, op, kind);
        } else if !self.visual_command(st, host, key, kind) {
            self.motion_key(st, host, key);
        }
    }
}

} // verus!
