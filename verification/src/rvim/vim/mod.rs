//! The modal engine: vim grammar (count, operator, count, motion or text object), modes,
//! registers, marks, search, dot-repeat, and ex command execution.

pub mod change;
pub mod command;
pub mod ex_laws;
pub mod excmd;
pub mod hints;
pub mod insert;
pub mod key_laws;
pub mod laws;
pub mod moves;
pub mod normal;
pub mod normal_laws;
pub mod operate;
pub mod operator_laws;
pub mod replay;
pub mod search;
pub mod visual;
pub mod visual_laws;

use vstd::prelude::*;

use crate::host::{CallV, HostHandle};
use crate::rvim::buffer::{max, min, pos, pos_le, Pos, Position};
use crate::rvim::charmap::CharMap;
use crate::rvim::keys::{
    Await, Key, Mode, Op, ScrollRequest, VisualKind, MAX_COUNT, MAX_MACRO_STEPS, MAX_REPLAY_DEPTH,
};
use crate::rvim::state::{BufV, EditorState, StV};

verus! {

/// A pending blockwise insert: where typing started and which lines replicate it.
#[derive(Clone, Copy)]
pub(crate) struct BlockInsert {
    /// Buffer index the insert started in; a focus change cancels replication.
    buf: usize,
    start: Position,
    top: usize,
    bot: usize,
    col: usize,
    /// Pad short lines with spaces out to `col` (block A).
    pad: bool,
    /// Insert at each line's end (block $ A).
    to_eol: bool,
}

/// Model of a pending blockwise insert.
pub struct BlockV {
    pub buf: int,
    pub start: Pos,
    pub top: int,
    pub bot: int,
    pub col: int,
    pub pad: bool,
    pub to_eol: bool,
}

impl BlockInsert {
    spec fn model(self) -> BlockV {
        BlockV {
            buf: self.buf as int,
            start: self.start@,
            top: self.top as int,
            bot: self.bot as int,
            col: self.col as int,
            pad: self.pad,
            to_eol: self.to_eol,
        }
    }
}

pub struct VimEngine {
    mode: Mode,
    /// Command/search line content and char cursor while in Command/Search mode.
    cmdline: String,
    cmdline_cursor: usize,
    /// Visual-mode anchor position.
    anchor: Position,
    /// Keys collected toward the current normal-mode action, for showcmd.
    pending: String,
    count: usize,
    opcount: usize,
    op: Option<Op>,
    reg: Option<char>,
    awaiting: Await,
    /// Last f/F/t/T as (kind, target char), for ; and , repeats.
    last_find: Option<(char, char)>,
    /// A literal 'j' was just typed in insert mode (jk quick-escape).
    insert_j: bool,
    /// Keys of the in-progress change, for dot-repeat.
    keybuf: Vec<Key>,
    /// Buffer version when `keybuf` started.
    keybuf_version: u64,
    /// The in-progress action must not become the dot-repeat target.
    norepeat: bool,
    last_change: Vec<Key>,
    replaying: bool,
    /// A change is being repeated at the current macro depth; it does not repeat itself.
    repeating: bool,
    scroll_req: Option<ScrollRequest>,
    /// Cursor when an incremental search started, restored on Esc.
    search_origin: Position,
    /// Pattern before the incremental search started.
    search_prev: String,
    /// Blockwise insert to replicate across its lines when insert mode ends.
    block_insert: Option<BlockInsert>,
    /// Recorded macro key streams by register name.
    macros: CharMap<Vec<Key>>,
    /// Active recording: target register and keys captured so far.
    recording: Option<(char, Vec<Key>)>,
    /// Register of the last @ replay, for @@.
    last_macro: Option<char>,
    replay_depth: usize,
    replay_steps: usize,
}

/// Model of the engine.
#[verifier::ext_equal]
pub struct EngV {
    pub mode: Mode,
    pub cmdline: Seq<char>,
    pub cmdline_cursor: int,
    pub anchor: Pos,
    pub pending: Seq<char>,
    pub count: int,
    pub opcount: int,
    pub op: Option<Op>,
    pub reg: Option<char>,
    pub awaiting: Await,
    pub last_find: Option<(char, char)>,
    pub insert_j: bool,
    pub keybuf: Seq<Key>,
    pub keybuf_version: u64,
    pub norepeat: bool,
    pub last_change: Seq<Key>,
    pub replaying: bool,
    pub repeating: bool,
    pub scroll_req: Option<ScrollRequest>,
    pub search_origin: Pos,
    pub search_prev: Seq<char>,
    pub block_insert: Option<BlockV>,
    pub macros: Map<char, Seq<Key>>,
    pub recording: Option<(char, Seq<Key>)>,
    pub last_macro: Option<char>,
    pub replay_depth: int,
    pub replay_steps: int,
}

/// The models of recorded macros.
pub open spec fn macros_of(m: Map<char, Vec<Key>>) -> Map<char, Seq<Key>> {
    m.map_values(|v: Vec<Key>| v@)
}

impl View for VimEngine {
    type V = EngV;

    closed spec fn view(&self) -> EngV {
        EngV {
            mode: self.mode,
            cmdline: self.cmdline@,
            cmdline_cursor: self.cmdline_cursor as int,
            anchor: self.anchor@,
            pending: self.pending@,
            count: self.count as int,
            opcount: self.opcount as int,
            op: self.op,
            reg: self.reg,
            awaiting: self.awaiting,
            last_find: self.last_find,
            insert_j: self.insert_j,
            keybuf: self.keybuf@,
            keybuf_version: self.keybuf_version,
            norepeat: self.norepeat,
            last_change: self.last_change@,
            replaying: self.replaying,
            repeating: self.repeating,
            scroll_req: self.scroll_req,
            search_origin: self.search_origin@,
            search_prev: self.search_prev@,
            block_insert: match self.block_insert {
                Some(b) => Some(b.model()),
                None => None,
            },
            macros: macros_of(self.macros@),
            recording: match self.recording {
                Some((c, keys)) => Some((c, keys@)),
                None => None,
            },
            last_macro: self.last_macro,
            replay_depth: self.replay_depth as int,
            replay_steps: self.replay_steps as int,
        }
    }
}

/// Coordinates that leave room to step.
pub open spec fn fits(p: Pos) -> bool {
    0 <= p.line < usize::MAX && 0 <= p.col < usize::MAX
}

/// Coordinates of a place that was once in a text.
pub open spec fn small(p: Pos) -> bool {
    0 <= p.line <= isize::MAX && 0 <= p.col <= isize::MAX
}

impl BlockV {
    pub open spec fn wf(self) -> bool {
        &&& fits(self.start)
        &&& 0 <= self.col <= usize::MAX
        &&& 0 <= self.top
        &&& 0 <= self.bot
    }
}

impl EngV {
    pub open spec fn fresh() -> EngV {
        EngV {
            mode: Mode::Normal,
            cmdline: Seq::empty(),
            cmdline_cursor: 0,
            anchor: pos(0, 0),
            pending: Seq::empty(),
            count: 0,
            opcount: 0,
            op: None,
            reg: None,
            awaiting: Await::Nothing,
            last_find: None,
            insert_j: false,
            keybuf: Seq::empty(),
            keybuf_version: 0,
            norepeat: false,
            last_change: Seq::empty(),
            replaying: false,
            repeating: false,
            scroll_req: None,
            search_origin: pos(0, 0),
            search_prev: Seq::empty(),
            block_insert: None,
            macros: Map::empty(),
            recording: None,
            last_macro: None,
            replay_depth: 0,
            replay_steps: 0,
        }
    }

    pub open spec fn wf(self) -> bool {
        &&& small(self.anchor)
        &&& small(self.search_origin)
        &&& 0 <= self.cmdline_cursor <= self.cmdline.len()
        &&& 0 <= self.count <= usize::MAX
        &&& 0 <= self.opcount <= usize::MAX
        &&& 0 <= self.replay_depth <= MAX_REPLAY_DEPTH
        &&& 0 <= self.replay_steps <= MAX_MACRO_STEPS
        &&& self.block_insert is Some ==> self.block_insert->0.wf()
    }

    /// Nothing typed toward an action.
    pub open spec fn idle(self) -> bool {
        self.count == 0 && self.opcount == 0 && self.op is None && self.reg is None
            && self.awaiting == Await::Nothing
    }

    /// Everything typed toward an action dropped.
    pub open spec fn reset(self) -> EngV {
        EngV {
            count: 0,
            opcount: 0,
            op: None,
            reg: None,
            awaiting: Await::Nothing,
            pending: Seq::empty(),
            ..self
        }
    }

    pub open spec fn pend(self, c: char) -> EngV {
        EngV { pending: self.pending.push(c), ..self }
    }

    pub open spec fn wait(self, a: Await) -> EngV {
        EngV { awaiting: a, ..self }
    }

    /// The count in force: both counts multiplied, at least 1, at most the ceiling.
    pub open spec fn total(self) -> int {
        min(max(self.count, 1) * max(self.opcount, 1), MAX_COUNT as int)
    }

    /// A count was typed.
    pub open spec fn counted(self) -> bool {
        self.count > 0 || self.opcount > 0
    }
}

/// How far a replay has come is the same in both.
pub open spec fn same_replay(a: EngV, b: EngV) -> bool {
    a.replay_depth == b.replay_depth && a.repeating == b.repeating && a.replay_steps
        == b.replay_steps
}

/// The engine with the editor and the host it works on.
#[verifier::ext_equal]
pub struct Ed {
    pub e: EngV,
    pub s: StV,
    pub h: Seq<CallV>,
}

/// The models of the three put together.
pub open spec fn ed(e: VimEngine, s: EditorState, h: HostHandle) -> Ed {
    Ed { e: e@, s: s@, h: h@ }
}

impl Ed {
    pub open spec fn wf(self) -> bool {
        self.e.wf() && self.s.wf()
    }

    /// Well formed but for the focused buffer's cursor.
    pub open spec fn sane(self) -> bool {
        self.e.wf() && self.s.sane()
    }

    pub open spec fn reset(self) -> Ed {
        Ed { e: self.e.reset(), ..self }
    }

    pub open spec fn has(self) -> bool {
        self.s.has_buf()
    }

    pub open spec fn buf(self) -> BufV {
        self.s.buf()
    }

    pub open spec fn with(self, b: BufV) -> Ed {
        Ed { s: self.s.with_buf(b), ..self }
    }

    /// A change of mode comes with a haptic pulse.
    pub open spec fn into_mode(self, m: Mode) -> Ed {
        Ed {
            e: EngV { mode: m, ..self.e },
            h: if self.e.mode != m {
                self.h.push(CallV::Haptic(6))
            } else {
                self.h
            },
            ..self
        }
    }

    pub open spec fn buzz(self) -> Ed {
        Ed { h: self.h.push(CallV::Haptic(6)), ..self }
    }

    /// An error message and a haptic pulse.
    pub open spec fn err(self, msg: Seq<char>) -> Ed {
        Ed { s: self.s.erred(msg), ..self }.buzz()
    }

    pub open spec fn info(self, msg: Seq<char>) -> Ed {
        Ed { s: self.s.told(msg), ..self }
    }

    /// Insert mode entered at the cursor.
    pub open spec fn inserting(self) -> Ed {
        let d = if self.has() {
            self.with(BufV { desired_col: self.buf().cursor.col, ..self.buf() })
        } else {
            self
        };
        Ed { e: EngV { insert_j: false, ..d.e }, ..d }.into_mode(Mode::Insert).reset()
    }
}

/// What the keys typed so far come to, for callers that only look.
impl VimEngine {
    pub fn new() -> (r: Self)
        ensures
            r@ == EngV::fresh(),
            r@.wf(),
    {
        let r = VimEngine {
            mode: Mode::Normal,
            cmdline: String::new(),
            cmdline_cursor: 0,
            anchor: Position::new(0, 0),
            pending: String::new(),
            count: 0,
            opcount: 0,
            op: None,
            reg: None,
            awaiting: Await::Nothing,
            last_find: None,
            insert_j: false,
            keybuf: Vec::new(),
            keybuf_version: 0,
            norepeat: false,
            last_change: Vec::new(),
            replaying: false,
            repeating: false,
            scroll_req: None,
            search_origin: Position::new(0, 0),
            search_prev: String::new(),
            block_insert: None,
            macros: CharMap::new(),
            recording: None,
            last_macro: None,
            replay_depth: 0,
            replay_steps: 0,
        };
        assert(r@ =~= EngV::fresh());
        r
    }

    pub fn mode(&self) -> (r: Mode)
        ensures
            r == self@.mode,
    {
        self.mode
    }

    /// Statusline chip label for the current mode.
    pub fn mode_label(&self) -> (r: &'static str)
        ensures
            r@ == mode_name(self@.mode),
    {
        match self.mode {
            Mode::Normal => "NORMAL",
            Mode::Insert => "INSERT",
            Mode::Visual { kind: VisualKind::Char } => "VISUAL",
            Mode::Visual { kind: VisualKind::Line } => "V-LINE",
            Mode::Visual { kind: VisualKind::Block } => "V-BLOCK",
            Mode::Replace => "REPLACE",
            Mode::Command => "COMMAND",
            Mode::Search { .. } => "SEARCH",
        }
    }

    /// Register a macro is being recorded into, for the statusline.
    pub fn recording_reg(&self) -> (r: Option<char>)
        ensures
            r == (match self@.recording {
                Some((c, _)) => Some(c),
                None => None,
            }),
    {
        match &self.recording {
            Some((c, _)) => Some(*c),
            None => None,
        }
    }

    /// `(prefix, text, char cursor)` of the active command/search line, when in one.
    pub fn cmdline(&self) -> (r: Option<(char, &str, usize)>)
        ensures
            r is Some == (self@.mode is Command || self@.mode is Search),
            r is Some ==> (r->0).0 == (match self@.mode {
                Mode::Search { backwards: true } => '?',
                Mode::Search { backwards: false } => '/',
                _ => ':',
            }) && (r->0).1@ == self@.cmdline && (r->0).2 == self@.cmdline_cursor,
    {
        match self.mode {
            Mode::Command => Some((':', self.cmdline.as_str(), self.cmdline_cursor)),
            Mode::Search { backwards } => Some(
                (
                    if backwards {
                        '?'
                    } else {
                        '/'
                    },
                    self.cmdline.as_str(),
                    self.cmdline_cursor,
                ),
            ),
            _ => None,
        }
    }

    /// In-progress normal-mode keys (count/operator/register) for the showcmd area.
    pub fn pending_display(&self) -> (r: &str)
        ensures
            r@ == self@.pending,
    {
        self.pending.as_str()
    }

    /// Visual selection as `(start, end, kind)` in buffer order, when in visual mode.
    pub fn visual_range(&self, cursor: Position) -> (r: Option<(Position, Position, VisualKind)>)
        ensures
            r is Some == self@.mode is Visual,
            r is Some ==> self@.mode == (Mode::Visual { kind: (r->0).2 }) && ((r->0).0@, (r->0).1@)
                == in_order(self@.anchor, cursor@),
    {
        match self.mode {
            Mode::Visual { kind } => {
                let (a, b) = ordered(self.anchor, cursor);
                Some((a, b, kind))
            },
            _ => None,
        }
    }

    /// Consume the pending viewport scroll request, if a key produced one.
    pub fn take_scroll_request(&mut self) -> (r: Option<ScrollRequest>)
        ensures
            same_replay(old(self)@, final(self)@),
            r == old(self)@.scroll_req,
            final(self)@ == (EngV { scroll_req: None, ..old(self)@ }),
    {
        self.scroll_req.take()
    }

    fn idle(&self) -> (r: bool)
        ensures
            r == self@.idle(),
    {
        self.count == 0 && self.opcount == 0 && self.op.is_none() && self.reg.is_none()
            && self.awaiting == Await::Nothing
    }

    fn reset(&mut self)
        ensures
            same_replay(old(self)@, final(self)@),
            final(self)@ == old(self)@.reset(),
    {
        self.count = 0;
        self.opcount = 0;
        self.op = None;
        self.reg = None;
        self.awaiting = Await::Nothing;
        self.pending = String::new();
        assert(self@ =~= old(self)@.reset());
    }

    fn pend(&mut self, c: char)
        ensures
            same_replay(old(self)@, final(self)@),
            final(self)@ == old(self)@.pend(c),
    {
        self.pending.push(c);
    }

    fn total_count(&self) -> (r: usize)
        ensures
            r == self@.total(),
            1 <= r <= MAX_COUNT,
    {
        let a: usize = if self.count > 1 {
            self.count
        } else {
            1
        };
        let b: usize = if self.opcount > 1 {
            self.opcount
        } else {
            1
        };
        assert(a * b >= a && a * b >= b) by (nonlinear_arith)
            requires
                a >= 1,
                b >= 1,
        ;
        if a >= MAX_COUNT || b >= MAX_COUNT {
            return MAX_COUNT;
        }
        assert(a * b <= 1_000_000_000_000) by (nonlinear_arith)
            requires
                a <= 1_000_000,
                b <= 1_000_000,
        ;
        let p: u64 = a as u64 * b as u64;
        if p < MAX_COUNT as u64 {
            p as usize
        } else {
            MAX_COUNT
        }
    }

    fn set_mode(&mut self, host: &mut HostHandle, mode: Mode)
        ensures
            same_replay(old(self)@, final(self)@),
            final(self)@ == (EngV { mode, ..old(self)@ }),
            final(host)@ == (if old(self)@.mode != mode {
                old(host)@.push(CallV::Haptic(6))
            } else {
                old(host)@
            }),
    {
        if self.mode != mode {
            host.haptic(6);
        }
        self.mode = mode;
    }

    fn err(&self, st: &mut EditorState, host: &mut HostHandle, msg: &str)
        ensures
            ed(*self, *final(st), *final(host)) == ed(*self, *old(st), *old(host)).err(msg@),
            old(st)@.wf() ==> final(st)@.wf(),
            old(st)@.sane() ==> final(st)@.sane(),
    {
        st.error(msg);
        host.haptic(6);
    }

    /// Switch to insert mode; the caller must already have opened an undo group.
    fn enter_insert(&mut self, st: &mut EditorState, host: &mut HostHandle)
        requires
            ed(*old(self), *old(st), *old(host)).sane(),
        ensures
            same_replay(old(self)@, final(self)@),
            ed(*final(self), *final(st), *final(host)).sane(),
            ed(*final(self), *final(st), *final(host)) == ed(
                *old(self),
                *old(st),
                *old(host),
            ).inserting(),
    {
        if let Some(buf) = st.buf_mut() {
            buf.desired_col = buf.cursor.col;
        }
        self.insert_j = false;
        self.set_mode(host, Mode::Insert);
        self.reset();
    }
}

/// The name shown for a mode.
pub open spec fn mode_name(m: Mode) -> Seq<char> {
    match m {
        Mode::Normal => "NORMAL"@,
        Mode::Insert => "INSERT"@,
        Mode::Visual { kind: VisualKind::Char } => "VISUAL"@,
        Mode::Visual { kind: VisualKind::Line } => "V-LINE"@,
        Mode::Visual { kind: VisualKind::Block } => "V-BLOCK"@,
        Mode::Replace => "REPLACE"@,
        Mode::Command => "COMMAND"@,
        Mode::Search { .. } => "SEARCH"@,
    }
}

/// Two positions in text order.
pub open spec fn in_order(a: Pos, b: Pos) -> (Pos, Pos) {
    if pos_le(a, b) {
        (a, b)
    } else {
        (b, a)
    }
}

/// Two positions in text order.
pub(crate) fn ordered(a: Position, b: Position) -> (r: (Position, Position))
    ensures
        (r.0@, r.1@) == in_order(a@, b@),
{
    if a.le(b) {
        (a, b)
    } else {
        (b, a)
    }
}

} // verus!
