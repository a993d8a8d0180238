//! Normal mode: operators, changes, marks, macros, the leader and window commands.

use vstd::prelude::*;

use crate::host::{CallV, HostHandle};
use crate::rvim::buffer::{clamped, line_at, min, pos, Pos, Position};
use crate::rvim::explorer::{ExplorerState, ExplorerV};
use crate::rvim::finder::{FinderState, FinderTarget, FinderV};
use crate::rvim::fs::{names_of, Vfs};
use crate::rvim::keys::{Await, Key, LeaderNode, Mode, MotionKind, Op, ScrollRequest, VisualKind};
use crate::rvim::motion::{first_nonblank, indent_of, len_at};
use crate::rvim::state::{BufV, EditorState, RegKind, SplitDir, StV};
use crate::rvim::vim::command::{world, World};
use crate::rvim::vim::moves::{move_words, word_steps, WordMove};
use crate::rvim::vim::visual::{count_grown, grow_count, is_register, names_register};
use crate::rvim::vim::{ed, macros_of, same_replay, Ed, EngV, VimEngine};
use crate::text::{cat, texts};
use crate::unicode::{ascii_digit, ascii_lower, ascii_lowered, ascii_upper, to_ascii_lower};

verus! {

/// What a key asks to be replayed once it is done.
#[derive(Clone, Copy, Debug, PartialEq, Eq, Structural)]
pub enum Replay {
    Nothing,
    /// The last change, this often.
    Last(usize),
    /// The macro in this register, this often.
    Macro(char, usize),
}

impl EngV {
    /// The count the next digit would extend.
    pub open spec fn pending_count(self) -> int {
        if self.op is Some {
            self.opcount
        } else {
            self.count
        }
    }

    /// One more digit typed.
    pub open spec fn digit_typed(self, c: char) -> EngV {
        if self.op is Some {
            EngV { opcount: count_grown(self.opcount, c), ..self }.pend(c)
        } else {
            EngV { count: count_grown(self.count, c), ..self }.pend(c)
        }
    }

    pub open spec fn scrolling(self, r: ScrollRequest) -> EngV {
        EngV { scroll_req: Some(r), ..self }
    }
}

impl Ed {
    /// Waiting for the next key, with `c` shown as pending.
    pub open spec fn waits(self, a: Await, c: char) -> Ed {
        Ed { e: self.e.wait(a).pend(c), ..self }
    }

    pub open spec fn with_op(self, op: Op) -> Ed {
        Ed { e: EngV { op: Some(op), ..self.e }, ..self }
    }

    /// Doubled operator (dd yy cc >> << guu gUU gcc): linewise on count lines.
    #[verifier::opaque]
    pub open spec fn doubled(self) -> Ed {
        match self.e.op {
            None => self,
            Some(op) => if !self.has() {
                self.reset()
            } else {
                let first = self.buf().cursor.line;
                let last = min(
                    first + self.e.total() - 1,
                    self.buf().text.lines.len() - 1,
                );
                self.linewise(op, first, last).reset()
            },
        }
    }

    /// An operator key: doubled, or against another operator, or the first.
    pub open spec fn op_keyed(self, op: Op, c: char) -> Ed {
        match self.e.op {
            Some(cur) => if cur == op {
                self.doubled()
            } else {
                self.reset()
            },
            None => {
                let d = self.with_op(op);
                Ed { e: d.e.pend(c), ..d }
            },
        }
    }

    /// C and D: from the cursor to the end of the line.
    #[verifier::opaque]
    pub open spec fn op_to_eol(self, op: Op) -> Ed {
        if !self.has() {
            self
        } else {
            let cur = self.buf().cursor;
            let target = pos(cur.line, len_at(self.buf().text.lines, cur.line));
            self.with_op(op).operated(cur, target, MotionKind::Exclusive).reset()
        }
    }

    pub open spec fn scrolled(self, r: ScrollRequest) -> Ed {
        Ed { e: self.e.scrolling(r), ..self }.reset()
    }

    /// A mark jumped to: exactly after a backtick, else to its line.
    #[verifier::opaque]
    pub open spec fn mark_jumped(self, key: Key) -> Ed {
        let exact = self.e.pending.len() > 0 && self.e.pending.last() == '`';
        match key {
            Key::Char(c) => if !self.has() {
                self.reset()
            } else {
                let b = self.buf();
                if !b.marks.contains_key(c) {
                    self.err("E20: Mark not set"@).reset()
                } else if exact {
                    self.moved(
                        clamped(b.text.lines, b.marks[c]@, false),
                        MotionKind::Exclusive,
                        true,
                    )
                } else {
                    let line = min(b.marks[c].line as int, b.text.lines.len() - 1);
                    self.moved(
                        pos(line, indent_of(line_at(b.text.lines, line))),
                        MotionKind::Linewise,
                        true,
                    )
                }
            },
            _ => self.reset(),
        }
    }

    /// The key after g.
    #[verifier::opaque]
    pub open spec fn g_keyed(self, key: Key) -> Ed {
        match key {
            Key::Char(c) => if c == 'g' {
                if !self.has() {
                    self.reset()
                } else {
                    let ls = self.buf().text.lines;
                    let line = min(
                        if self.e.counted() {
                            self.e.total() - 1
                        } else {
                            0
                        },
                        ls.len() - 1,
                    );
                    self.moved(
                        pos(line, indent_of(line_at(ls, line))),
                        MotionKind::Linewise,
                        true,
                    )
                }
            } else if c == 'e' || c == 'E' {
                if !self.has() {
                    self.reset()
                } else {
                    let b = self.buf();
                    self.moved(
                        word_steps(
                            b.text.lines,
                            b.cursor,
                            c == 'E',
                            WordMove::BackEnd,
                            self.e.total(),
                        ),
                        MotionKind::Inclusive,
                        true,
                    )
                }
            } else if c == 'u' {
                let d = self.with_op(Op::Lower);
                Ed { e: d.e.pend(c), ..d }
            } else if c == 'U' {
                let d = self.with_op(Op::Upper);
                Ed { e: d.e.pend(c), ..d }
            } else if c == 'c' {
                let d = self.with_op(Op::Comment);
                Ed { e: d.e.pend(c), ..d }
            } else {
                self.reset()
            },
            _ => self.reset(),
        }
    }

    /// The key after z.
    pub open spec fn z_keyed(self, key: Key) -> Ed {
        let e = if key == Key::Char('z') {
            self.e.scrolling(ScrollRequest::Center)
        } else if key == Key::Char('t') {
            self.e.scrolling(ScrollRequest::Top)
        } else if key == Key::Char('b') {
            self.e.scrolling(ScrollRequest::Bottom)
        } else {
            self.e
        };
        Ed { e, ..self }.reset()
    }

    /// A mark set at the cursor.
    pub open spec fn marked(self, key: Key) -> Ed {
        let d = match key {
            Key::Char(c) => if ascii_lower(c) && self.has() {
                let b = self.buf();
                self.with(BufV { marks: b.marks.insert(c, position_of(b.cursor)), ..b })
            } else {
                self
            },
            _ => self,
        };
        d.reset()
    }

    /// The key after Ctrl+w.
    #[verifier::opaque]
    pub open spec fn ctrl_w_keyed(self, key: Key) -> Ed {
        let next = Ed { s: self.s.next_win(), ..self };
        let prev = Ed { s: self.s.prev_win(), ..self };
        let d = match key {
            Key::Down | Key::Right => next,
            Key::Up | Key::Left => prev,
            Key::Char(c) => if c == 'w' || c == 'j' || c == 'l' {
                next
            } else if c == 's' {
                self.did_split(SplitDir::Horizontal)
            } else if c == 'v' {
                self.did_split(SplitDir::Vertical)
            } else if c == 'q' || c == 'c' {
                Ed { s: self.s.window_closed(), ..self }
            } else if c == 'k' || c == 'h' {
                prev
            } else {
                self
            },
            _ => self,
        };
        d.reset()
    }

    /// The register a macro is recorded into chosen; an uppercase name appends.
    pub open spec fn recording_begun(self, key: Key) -> Ed {
        let d = match key {
            Key::Char(c) => if ascii_lower(c) {
                Ed { e: EngV { recording: Some((c, Seq::empty())), ..self.e }, ..self }
            } else if ascii_upper(c) {
                let lc = ascii_lowered(c);
                Ed {
                    e: EngV {
                        recording: Some(
                            (
                                lc,
                                if self.e.macros.contains_key(lc) {
                                    self.e.macros[lc]
                                } else {
                                    Seq::empty()
                                },
                            ),
                        ),
                        ..self.e
                    },
                    ..self
                }
            } else {
                self
            },
            _ => self,
        };
        d.reset()
    }

    /// Which macro register @ and a key choose.
    pub open spec fn macro_chosen(self, key: Key) -> Option<char> {
        match key {
            Key::Char(c) => if c == '@' {
                self.e.last_macro
            } else if ascii_lower(c) || ascii_digit(c) {
                Some(c)
            } else {
                None
            },
            _ => None,
        }
    }

    /// The picker over the open buffers.
    pub open spec fn picker_opened(self) -> Ed {
        let names = self.s.buffers.map_values(|b: BufV| b.name);
        Ed {
            s: StV { finder: Some(FinderV::fresh(names, FinderTarget::Buffers)), ..self.s },
            ..self
        }.buzz().reset()
    }

    /// The explorer sidebar shown and focused, or hidden.
    pub open spec fn explorer_toggled(self) -> Ed {
        if self.s.explorer is Some {
            Ed { s: StV { explorer: None, explorer_focused: false, ..self.s }, ..self }
        } else if self.s.text_dims.0 < 30 {
            self.err("E36: not enough room for the explorer"@)
        } else {
            Ed {
                s: StV {
                    explorer: Some(ExplorerV::fresh()),
                    explorer_focused: true,
                    ..self.s
                },
                ..self
            }
        }
    }

    /// Space o: focus between explorer and editor, or to the next window.
    pub open spec fn other_focused(self) -> Ed {
        if self.s.explorer is Some {
            Ed { s: StV { explorer_focused: !self.s.explorer_focused, ..self.s }, ..self }
        } else {
            Ed { s: self.s.next_win(), ..self }
        }
    }

    /// q outside a recording starts one; inside one, ends it.
    pub open spec fn q_keyed(self) -> Ed {
        match self.e.recording {
            Some((name, keys)) => {
                // The stopping q itself is not part of the recording.
                let kept = if keys.len() > 0 {
                    keys.drop_last()
                } else {
                    keys
                };
                Ed {
                    e: EngV {
                        recording: None,
                        macros: self.e.macros.insert(name, kept),
                        ..self.e
                    },
                    ..self
                }.info("recorded @"@ + seq![name]).reset()
            },
            None => if self.e.op is Some {
                self.reset()
            } else {
                self.waits(Await::MacroReg, 'q')
            },
        }
    }

    /// An undo group opened at the cursor.
    pub open spec fn grouped(self) -> Ed {
        if self.has() {
            let b = self.buf();
            self.with(BufV { text: b.text.group_begun(b.cursor), ..b })
        } else {
            self
        }
    }

    /// s: count characters changed.
    #[verifier::opaque]
    pub open spec fn did_s(self) -> Ed {
        if !self.has() {
            self
        } else {
            let b = self.buf();
            let cur = b.cursor;
            let end = pos(
                cur.line,
                min(cur.col + self.e.total(), len_at(b.text.lines, cur.line)),
            );
            let g = b.text.group_begun(cur);
            self.with(BufV { text: g.range_deleted(cur, end), ..b }).stored(
                g.range_text(cur, end),
                RegKind::Char,
                false,
            ).inserting()
        }
    }

    /// Insert mode entered at a column.
    #[verifier::opaque]
    pub open spec fn insert_at(self, c: char) -> Ed {
        if !self.has() {
            if c == 'i' {
                self.inserting()
            } else {
                self
            }
        } else {
            let d = self.grouped();
            let b = d.buf();
            let cur = b.cursor;
            let len = len_at(b.text.lines, cur.line);
            let col = if c == 'a' {
                if len > 0 {
                    cur.col + 1
                } else {
                    cur.col
                }
            } else if c == 'I' {
                indent_of(line_at(b.text.lines, cur.line))
            } else if c == 'A' {
                len
            } else {
                cur.col
            };
            d.with(BufV { cursor: pos(cur.line, col), ..b }).inserting()
        }
    }

    /// Visual mode entered at the cursor.
    pub open spec fn into_visual(self, kind: VisualKind) -> Ed {
        if self.has() {
            Ed { e: EngV { anchor: self.buf().cursor, ..self.e }, ..self }.into_mode(
                Mode::Visual { kind },
            ).reset()
        } else {
            self
        }
    }
}

/// A machine position with these coordinates.
pub open spec fn position_of(p: Pos) -> Position {
    Position { line: p.line as usize, col: p.col as usize }
}

impl World {
    pub open spec fn on(self, d: Ed) -> World {
        World { d, ..self }
    }

    /// The finder opened over the store's files.
    pub open spec fn finder_opened(self) -> World {
        let s = self.d.s;
        self.on(
            Ed {
                s: StV {
                    finder: Some(
                        FinderV::fresh(names_of(self.v.files), FinderTarget::Files),
                    ),
                    ..s
                },
                ..self.d
            }.buzz().reset(),
        )
    }

    /// The ex command that a key of the root menu stands for.
    pub open spec fn leader_command(key: Key, windows: int) -> Option<Seq<char>> {
        match key {
            Key::Char(c) => if c == 'w' {
                Some("w"@)
            } else if c == 'c' {
                Some("bd"@)
            } else if c == 'q' && windows <= 1 {
                Some("q"@)
            } else if c == 'h' {
                Some("help"@)
            } else {
                None
            },
            _ => None,
        }
    }

    /// A key of the root leader menu that is no ex command.
    pub open spec fn leader_root(self, key: Key) -> World {
        if key == Key::Char('e') {
            self.on(self.d.explorer_toggled().reset())
        } else if key == Key::Char('f') {
            self.on(self.d.waiting(Await::Leader(LeaderNode::Find)))
        } else if key == Key::Char('o') {
            self.on(self.d.other_focused().reset())
        } else if key == Key::Char('t') {
            self.on(self.d.waiting(Await::Leader(LeaderNode::Split)))
        } else if key == Key::Char('q') {
            self.st(self.d.s.window_closed()).reset()
        } else {
            self.reset()
        }
    }

    /// A key of the find menu.
    pub open spec fn leader_find(self, key: Key) -> World {
        if key == Key::Char('f') {
            self.finder_opened()
        } else if key == Key::Char('b') {
            self.on(self.d.picker_opened())
        } else {
            self.reset()
        }
    }

    /// A key of the split menu.
    pub open spec fn leader_split(self, key: Key) -> World {
        if key == Key::Char('h') {
            self.on(self.d.did_split(SplitDir::Horizontal).reset())
        } else if key == Key::Char('v') {
            self.on(self.d.did_split(SplitDir::Vertical).reset())
        } else if key == Key::Char('q') {
            self.st(self.d.s.window_closed()).reset()
        } else {
            self.reset()
        }
    }

    /// The key after a pending leader node.
    #[verifier::opaque]
    pub open spec fn leader_keyed(self, node: LeaderNode, key: Key) -> World {
        match node {
            LeaderNode::Root => match World::leader_command(
                key,
                self.d.s.windows.len() as int,
            ) {
                Some(cmd) => self.executed(cmd).reset(),
                None => self.leader_root(key),
            },
            LeaderNode::Find => self.leader_find(key),
            LeaderNode::Split => self.leader_split(key),
        }
    }

    /// A key with no buffer open: only commands, the finder and the leader work.
    pub open spec fn dashboard_keyed(self, w: Await, key: Key) -> World {
        match w {
            Await::Leader(node) => self.leader_keyed(node, key),
            Await::Nothing => if key == Key::Char(':') {
                self.on(self.d.into_cmdline())
            } else if key == Key::Ctrl('p') {
                self.finder_opened()
            } else if key == Key::Char(' ') {
                self.on(self.d.waiting(Await::Leader(LeaderNode::Root)))
            } else {
                self.reset()
            },
            _ => self.reset(),
        }
    }

    /// A key that something pending waits for.
    #[verifier::opaque]
    pub open spec fn normal_awaited(self, w: Await, key: Key) -> (World, Replay) {
        let d = self.d;
        match w {
            Await::Register => (
                match key {
                    Key::Char(c) => if names_register(c) {
                        self.on(
                            Ed {
                                e: EngV { reg: Some(ascii_lowered(c)), ..d.e }.pend(c),
                                ..d
                            },
                        )
                    } else {
                        self.reset()
                    },
                    _ => self.reset(),
                },
                Replay::Nothing,
            ),
            Await::Find(k) => (
                match key {
                    Key::Char(c) => self.on(
                        Ed { e: EngV { last_find: Some((k, c)), ..d.e }, ..d }.did_find(k, c),
                    ),
                    _ => self.reset(),
                },
                Replay::Nothing,
            ),
            Await::Replace => (
                match key {
                    Key::Char(c) => self.on(d.did_replace(c).reset()),
                    _ => self.reset(),
                },
                Replay::Nothing,
            ),
            Await::Mark => (self.on(d.marked(key)), Replay::Nothing),
            Await::JumpExact | Await::JumpLine => (self.on(d.mark_jumped(key)), Replay::Nothing),
            Await::Prefix(p) => (
                if p == 'g' {
                    self.on(d.g_keyed(key))
                } else if p == 'z' {
                    self.on(d.z_keyed(key))
                } else {
                    self.reset()
                },
                Replay::Nothing,
            ),
            Await::Object(around) => (
                match key {
                    Key::Char(c) => self.on(d.did_object(c, around)),
                    _ => self.reset(),
                },
                Replay::Nothing,
            ),
            Await::Leader(node) => (self.leader_keyed(node, key), Replay::Nothing),
            Await::CtrlW => (self.on(d.ctrl_w_keyed(key)), Replay::Nothing),
            Await::MacroReg => (self.on(d.recording_begun(key)), Replay::Nothing),
            Await::MacroPlay => (
                self.reset(),
                match d.macro_chosen(key) {
                    Some(reg) => Replay::Macro(reg, d.e.total() as usize),
                    None => Replay::Nothing,
                },
            ),
            Await::Nothing => (self, Replay::Nothing),
        }
    }
}

impl Ed {
    /// A count digit, a register prefix or an operator; `None` for the rest.
    #[verifier::opaque]
    pub open spec fn grammar_keyed(self, key: Key) -> Option<Ed> {
        match key {
            Key::Char(c) => if ascii_digit(c) && !(c == '0' && self.e.pending_count() == 0) {
                Some(Ed { e: self.e.digit_typed(c), ..self })
            } else if c == '"' {
                Some(self.waits(Await::Register, '"'))
            } else if c == 'd' {
                Some(self.op_keyed(Op::Delete, c))
            } else if c == 'c' {
                Some(
                    if self.e.op == Some(Op::Comment) {
                        self.doubled()
                    } else {
                        self.op_keyed(Op::Change, c)
                    },
                )
            } else if c == 'y' {
                Some(self.op_keyed(Op::Yank, c))
            } else if c == '>' {
                Some(self.op_keyed(Op::Indent, c))
            } else if c == '<' {
                Some(self.op_keyed(Op::Dedent, c))
            } else if c == 'u' && self.e.op == Some(Op::Lower) {
                Some(self.doubled())
            } else if c == 'U' && self.e.op == Some(Op::Upper) {
                Some(self.doubled())
            } else {
                None
            },
            _ => None,
        }
    }

    /// A simple change; `None` for the rest.
    #[verifier::opaque]
    pub open spec fn change_keyed(self, key: Key) -> Option<Ed> {
        match key {
            Key::Delete => Some(self.did_x(true)),
            Key::Ctrl(c) => if c == 'r' {
                Some(self.did_redo())
            } else {
                None
            },
            Key::Char(c) => if c == 'x' {
                Some(self.did_x(true))
            } else if c == 'X' {
                Some(self.did_x(false))
            } else if c == 's' {
                Some(self.did_s())
            } else if c == 'S' {
                Some(self.with_op(Op::Change).doubled())
            } else if c == 'C' {
                Some(self.op_to_eol(Op::Change))
            } else if c == 'D' {
                Some(self.op_to_eol(Op::Delete))
            } else if c == 'Y' {
                Some(self.with_op(Op::Yank).doubled())
            } else if c == 'r' {
                Some(self.waits(Await::Replace, 'r'))
            } else if c == 'R' {
                Some(self.grouped().into_mode(Mode::Replace).reset())
            } else if c == '~' {
                Some(self.did_tilde())
            } else if c == 'J' {
                Some(self.did_join())
            } else if c == 'p' {
                Some(self.did_paste(true))
            } else if c == 'P' {
                Some(self.did_paste(false))
            } else if c == 'u' {
                Some(self.did_undo())
            } else {
                None
            },
            _ => None,
        }
    }

    /// Insert and visual mode entered; `None` for the rest.
    #[verifier::opaque]
    pub open spec fn mode_keyed(self, key: Key) -> Option<Ed> {
        match key {
            Key::Ctrl(c) => if c == 'v' {
                Some(self.into_visual(VisualKind::Block))
            } else {
                None
            },
            Key::Char(c) => if c == 'i' || c == 'a' {
                Some(
                    if self.e.op is Some {
                        self.waits(Await::Object(c == 'a'), c)
                    } else {
                        self.insert_at(c)
                    },
                )
            } else if c == 'I' || c == 'A' {
                Some(self.insert_at(c))
            } else if c == 'o' {
                Some(self.opened_line(true))
            } else if c == 'O' {
                Some(self.opened_line(false))
            } else if c == 'v' {
                Some(self.into_visual(VisualKind::Char))
            } else if c == 'V' {
                Some(self.into_visual(VisualKind::Line))
            } else {
                None
            },
            _ => None,
        }
    }

    /// A key that the next key completes: what is then waited for.
    pub open spec fn prefix_of(key: Key) -> Option<(Await, char)> {
        match key {
            Key::Char(c) => if c == '@' {
                Some((Await::MacroPlay, c))
            } else if c == 'm' {
                Some((Await::Mark, c))
            } else if c == '`' {
                Some((Await::JumpExact, c))
            } else if c == '\'' {
                Some((Await::JumpLine, c))
            } else if c == 'g' || c == 'z' {
                Some((Await::Prefix(c), c))
            } else {
                None
            },
            _ => None,
        }
    }

    /// A key that scrolls the viewport.
    pub open spec fn scroll_of(key: Key) -> Option<ScrollRequest> {
        match key {
            Key::PageDown => Some(ScrollRequest::PageDown),
            Key::PageUp => Some(ScrollRequest::PageUp),
            Key::Ctrl(c) => if c == 'd' {
                Some(ScrollRequest::HalfDown)
            } else if c == 'u' {
                Some(ScrollRequest::HalfUp)
            } else if c == 'f' {
                Some(ScrollRequest::PageDown)
            } else if c == 'b' {
                Some(ScrollRequest::PageUp)
            } else {
                None
            },
            _ => None,
        }
    }

    /// A search key; `None` for the rest.
    #[verifier::opaque]
    pub open spec fn seek_keyed(self, key: Key) -> Option<Ed> {
        match key {
            Key::Char(c) => if c == '/' || c == '?' {
                Some(self.into_search(c == '?'))
            } else if c == 'n' || c == 'N' {
                Some(self.searched_next(c == 'N'))
            } else if c == '*' || c == '#' {
                Some(self.searched_word(c == '#'))
            } else {
                None
            },
            _ => None,
        }
    }

    /// Macros, marks, scrolling and prefixes; everything else drops what was typed.
    #[verifier::opaque]
    pub open spec fn other_keyed(self, key: Key) -> Ed {
        match Ed::prefix_of(key) {
            Some((a, c)) => self.waits(a, c),
            None => match Ed::scroll_of(key) {
                Some(r) => self.scrolled(r),
                None => if key == Key::Char('q') && !self.e.replaying {
                    self.q_keyed()
                } else if key == Key::Char(':') {
                    self.into_cmdline()
                } else if key == Key::Char(' ') {
                    self.waiting(Await::Leader(LeaderNode::Root))
                } else if key == Key::Ctrl('w') {
                    self.waiting(Await::CtrlW)
                } else if key == Key::Esc || key == Key::Ctrl('c') {
                    Ed { s: StV { status: None, ..self.s }, ..self }.reset()
                } else {
                    self.reset()
                },
            },
        }
    }
}

impl World {
    /// An ordinary key in normal mode.
    pub open spec fn normal_fresh(self, key: Key) -> (World, Replay) {
        match self.d.grammar_keyed(key) {
            Some(d) => (self.on(d), Replay::Nothing),
            None => match self.d.motioned(key) {
                Some(d) => (self.on(d), Replay::Nothing),
                None => match self.d.change_keyed(key) {
                    Some(d) => (self.on(d), Replay::Nothing),
                    None => match self.d.mode_keyed(key) {
                        Some(d) => (self.on(d), Replay::Nothing),
                        None => match self.d.seek_keyed(key) {
                            Some(d) => (self.on(d), Replay::Nothing),
                            None => if key == Key::Char('.') {
                                (self.reset(), Replay::Last(self.d.e.total() as usize))
                            } else if key == Key::Ctrl('p') {
                                (self.finder_opened(), Replay::Nothing)
                            } else {
                                (self.on(self.d.other_keyed(key)), Replay::Nothing)
                            },
                        },
                    },
                },
            },
        }
    }

    /// A key in normal mode, and what it asks to be replayed.
    pub open spec fn normal_keyed(self, key: Key) -> (World, Replay) {
        let w = self.d.e.awaiting;
        let f = self.on(self.d.waiting(Await::Nothing));
        if !self.d.has() {
            (f.dashboard_keyed(w, key), Replay::Nothing)
        } else if w != Await::Nothing {
            f.normal_awaited(w, key)
        } else {
            f.normal_fresh(key)
        }
    }
}

impl VimEngine {
    /// Doubled operator (dd yy cc >> << guu gUU gcc): acts linewise on count lines.
    fn doubled_op(&mut self, st: &mut EditorState, host: &mut HostHandle)
        requires
            ed(*old(self), *old(st), *old(host)).wf(),
        ensures
            same_replay(old(self)@, final(self)@),
            ed(*final(self), *final(st), *final(host)).sane(),
            ed(*final(self), *final(st), *final(host)) == ed(
                *old(self),
                *old(st),
                *old(host),
            ).doubled(),
    {
        reveal(Ed::doubled);
        let n: usize = self.total_count();
        let op = match self.op {
            Some(op) => op,
            None => {
                return;
            },
        };
        let (first, top): (usize, usize) = match st.buf() {
            Some(buf) => (buf.cursor.line, buf.text.line_count() - 1),
            None => {
                self.reset();
                return;
            },
        };
        let last: usize = if top <= n - 1 || first >= top - (n - 1) {
            top
        } else {
            first + (n - 1)
        };
        self.apply_linewise(st, host, op, first, last);
        self.reset();
    }

    /// An operator key: doubled, or against another operator, or the first.
    fn op_key(&mut self, st: &mut EditorState, host: &mut HostHandle, op: Op, c: char)
        requires
            ed(*old(self), *old(st), *old(host)).wf(),
        ensures
            same_replay(old(self)@, final(self)@),
            ed(*final(self), *final(st), *final(host)).sane(),
            ed(*final(self), *final(st), *final(host)) == ed(
                *old(self),
                *old(st),
                *old(host),
            ).op_keyed(op, c),
    {
        match self.op {
            Some(cur) => {
                if cur == op {
                    self.doubled_op(st, host);
                } else {
                    self.reset();
                }
            },
            None => {
                self.op = Some(op);
                self.pend(c);
            },
        }
    }

    /// C and D: operate from the cursor to the end of the line.
    fn op_to_eol(&mut self, st: &mut EditorState, host: &mut HostHandle, op: Op)
        requires
            ed(*old(self), *old(st), *old(host)).wf(),
        ensures
            same_replay(old(self)@, final(self)@),
            ed(*final(self), *final(st), *final(host)).sane(),
            ed(*final(self), *final(st), *final(host)) == ed(
                *old(self),
                *old(st),
                *old(host),
            ).op_to_eol(op),
    {
        reveal(Ed::op_to_eol);
        let (cur, target) = match st.buf() {
            Some(buf) => (
                buf.cursor,
                Position::new(buf.cursor.line, buf.text.line_len(buf.cursor.line)),
            ),
            None => {
                return;
            },
        };
        self.op = Some(op);
        self.apply_op(st, host, cur, target, MotionKind::Exclusive);
        self.reset();
    }

    /// Jump to a mark: exactly after a backtick, else to its line.
    fn jump_mark(&mut self, st: &mut EditorState, host: &mut HostHandle, key: Key)
        requires
            ed(*old(self), *old(st), *old(host)).wf(),
        ensures
            same_replay(old(self)@, final(self)@),
            ed(*final(self), *final(st), *final(host)).sane(),
            ed(*final(self), *final(st), *final(host)) == ed(
                *old(self),
                *old(st),
                *old(host),
            ).mark_jumped(key),
    {
        reveal(Ed::mark_jumped);
        let n: usize = self.pending.as_str().unicode_len();
        let exact = n > 0 && self.pending.as_str().get_char(n - 1) == '`';
        let c = match key {
            Key::Char(c) => c,
            _ => {
                self.reset();
                return;
            },
        };
        let target = match st.buf() {
            None => {
                self.reset();
                return;
            },
            Some(buf) => match buf.marks.get(&c) {
                None => None,
                Some(p) => {
                    if exact {
                        Some(buf.text.clamp(*p, false))
                    } else {
                        let top: usize = buf.text.line_count() - 1;
                        let line: usize = if p.line < top {
                            p.line
                        } else {
                            top
                        };
                        Some(Position::new(line, first_nonblank(buf.text.line(line))))
                    }
                },
            },
        };
        match target {
            None => {
                self.err(st, host, "E20: Mark not set");
                self.reset();
            },
            Some(p) => {
                let kind = if exact {
                    MotionKind::Exclusive
                } else {
                    MotionKind::Linewise
                };
                self.finish_motion(st, host, p, kind, true);
            },
        }
    }

    /// Resolve the key after g.
    fn g_key(&mut self, st: &mut EditorState, host: &mut HostHandle, key: Key)
        requires
            ed(*old(self), *old(st), *old(host)).wf(),
        ensures
            same_replay(old(self)@, final(self)@),
            ed(*final(self), *final(st), *final(host)).sane(),
            ed(*final(self), *final(st), *final(host)) == ed(
                *old(self),
                *old(st),
                *old(host),
            ).g_keyed(key),
    {
        reveal(Ed::g_keyed);
        let n: usize = self.total_count();
        match key {
            Key::Char('g') => {
                let counted = self.count > 0 || self.opcount > 0;
                let target = match st.buf() {
                    Some(buf) => {
                        let top: usize = buf.text.line_count() - 1;
                        let want: usize = if counted {
                            n - 1
                        } else {
                            0
                        };
                        let line: usize = if want < top {
                            want
                        } else {
                            top
                        };
                        Position::new(line, first_nonblank(buf.text.line(line)))
                    },
                    None => {
                        self.reset();
                        return;
                    },
                };
                self.finish_motion(st, host, target, MotionKind::Linewise, true);
            },
            Key::Char('e') | Key::Char('E') => {
                let target = match st.buf() {
                    Some(buf) => move_words(
                        &buf.text,
                        buf.cursor,
                        key == Key::Char('E'),
                        WordMove::BackEnd,
                        n,
                    ),
                    None => {
                        self.reset();
                        return;
                    },
                };
                self.finish_motion(st, host, target, MotionKind::Inclusive, true);
            },
            Key::Char('u') => {
                self.op = Some(Op::Lower);
                self.pend('u');
            },
            Key::Char('U') => {
                self.op = Some(Op::Upper);
                self.pend('U');
            },
            Key::Char('c') => {
                self.op = Some(Op::Comment);
                self.pend('c');
            },
            _ => self.reset(),
        }
    }

    /// Resolve the key after z.
    fn z_key(&mut self, st: &mut EditorState, host: &mut HostHandle, key: Key)
        requires
            ed(*old(self), *old(st), *old(host)).wf(),
        ensures
            same_replay(old(self)@, final(self)@),
            ed(*final(self), *final(st), *final(host)).sane(),
            ed(*final(self), *final(st), *final(host)) == ed(
                *old(self),
                *old(st),
                *old(host),
            ).z_keyed(key),
    {
        match key {
            Key::Char('z') => {
                self.scroll_req = Some(ScrollRequest::Center);
            },
            Key::Char('t') => {
                self.scroll_req = Some(ScrollRequest::Top);
            },
            Key::Char('b') => {
                self.scroll_req = Some(ScrollRequest::Bottom);
            },
            _ => {},
        }
        self.reset();
    }

    /// Set a mark at the cursor.
    fn mark_key(&mut self, st: &mut EditorState, host: &mut HostHandle, key: Key)
        requires
            ed(*old(self), *old(st), *old(host)).wf(),
        ensures
            same_replay(old(self)@, final(self)@),
            ed(*final(self), *final(st), *final(host)).sane(),
            ed(*final(self), *final(st), *final(host)) == ed(
                *old(self),
                *old(st),
                *old(host),
            ).marked(key),
    {
        if let Key::Char(c) = key {
            if 'a' <= c && c <= 'z' {
                if let Some(buf) = st.buf_mut() {
                    let cur = buf.cursor;
                    assert(cur == position_of(cur@));
                    buf.marks.insert(c, cur);
                }
            }
        }
        self.reset();
    }

    /// Resolve the key after Ctrl+w.
    fn ctrl_w_key(&mut self, st: &mut EditorState, host: &mut HostHandle, key: Key)
        requires
            ed(*old(self), *old(st), *old(host)).wf(),
        ensures
            same_replay(old(self)@, final(self)@),
            ed(*final(self), *final(st), *final(host)).sane(),
            ed(*final(self), *final(st), *final(host)) == ed(
                *old(self),
                *old(st),
                *old(host),
            ).ctrl_w_keyed(key),
    {
        reveal(Ed::ctrl_w_keyed);
        match key {
            Key::Char('w') | Key::Char('j') | Key::Char('l') | Key::Down | Key::Right => {
                st.next_window();
            },
            Key::Char('s') => self.do_split(st, host, SplitDir::Horizontal),
            Key::Char('v') => self.do_split(st, host, SplitDir::Vertical),
            Key::Char('q') | Key::Char('c') => {
                st.close_window();
            },
            Key::Char('k') | Key::Char('h') | Key::Up | Key::Left => {
                st.prev_window();
            },
            _ => {},
        }
        self.reset();
    }

    /// Choose the register a macro is recorded into; an uppercase name appends.
    fn macro_reg_key(&mut self, st: &mut EditorState, host: &mut HostHandle, key: Key)
        requires
            ed(*old(self), *old(st), *old(host)).wf(),
        ensures
            same_replay(old(self)@, final(self)@),
            ed(*final(self), *final(st), *final(host)).sane(),
            ed(*final(self), *final(st), *final(host)) == ed(
                *old(self),
                *old(st),
                *old(host),
            ).recording_begun(key),
    {
        if let Key::Char(c) = key {
            if 'a' <= c && c <= 'z' {
                self.recording = Some((c, Vec::new()));
                assert(Seq::<Key>::empty() =~= (self.recording->0).1@);
            } else if 'A' <= c && c <= 'Z' {
                let lc = to_ascii_lower(c);
                let keys = match self.macros.get(&lc) {
                    Some(keys) => copy_keys(keys),
                    None => Vec::new(),
                };
                self.recording = Some((lc, keys));
            }
        }
        self.reset();
    }

    /// Open the picker over the open buffers.
    fn open_buffer_picker(&mut self, st: &mut EditorState, host: &mut HostHandle)
        requires
            ed(*old(self), *old(st), *old(host)).wf(),
        ensures
            same_replay(old(self)@, final(self)@),
            ed(*final(self), *final(st), *final(host)).sane(),
            ed(*final(self), *final(st), *final(host)) == ed(
                *old(self),
                *old(st),
                *old(host),
            ).picker_opened(),
    {
        let names = buffer_names(st);
        st.finder = Some(FinderState::buffers(names));
        host.haptic(6);
        self.reset();
    }

    /// Show or hide the explorer sidebar; showing it also focuses it.
    fn toggle_explorer(&mut self, st: &mut EditorState, host: &mut HostHandle)
        requires
            ed(*old(self), *old(st), *old(host)).wf(),
        ensures
            same_replay(old(self)@, final(self)@),
            ed(*final(self), *final(st), *final(host)).sane(),
            ed(*final(self), *final(st), *final(host)) == ed(
                *old(self),
                *old(st),
                *old(host),
            ).explorer_toggled(),
    {
        if st.explorer.is_some() {
            st.explorer = None;
            st.explorer_focused = false;
        } else if st.text_dims.0 < 30 {
            self.err(st, host, "E36: not enough room for the explorer");
        } else {
            st.explorer = Some(ExplorerState::new());
            st.explorer_focused = true;
        }
    }

    /// q outside a recording starts one; inside one, ends it.
    fn q_key(&mut self, st: &mut EditorState, host: &mut HostHandle)
        requires
            ed(*old(self), *old(st), *old(host)).wf(),
        ensures
            same_replay(old(self)@, final(self)@),
            ed(*final(self), *final(st), *final(host)).sane(),
            ed(*final(self), *final(st), *final(host)) == ed(
                *old(self),
                *old(st),
                *old(host),
            ).q_keyed(),
    {
        match self.recording.take() {
            Some((name, keys)) => {
                let mut keys = keys;
                // Drop the stopping q itself from the recording.
                let _gone = keys.pop();
                assert(keys@ =~= (match old(self)@.recording {
                    Some((_, k)) => if k.len() > 0 {
                        k.drop_last()
                    } else {
                        k
                    },
                    None => Seq::empty(),
                }));
                proof {
                    lemma_macros_insert(self.macros@, name, keys);
                }
                self.macros.insert(name, keys);
                let mut label = String::new();
                label.push(name);
                assert(label@ =~= seq![name]);
                st.info(cat("recorded @", label.as_str()).as_str());
                self.reset();
            },
            None => {
                if self.op.is_some() {
                    self.reset();
                } else {
                    self.awaiting = Await::MacroReg;
                    self.pend('q');
                }
            },
        }
    }

    /// s: change count characters.
    fn do_s(&mut self, st: &mut EditorState, host: &mut HostHandle)
        requires
            ed(*old(self), *old(st), *old(host)).wf(),
        ensures
            same_replay(old(self)@, final(self)@),
            ed(*final(self), *final(st), *final(host)).sane(),
            ed(*final(self), *final(st), *final(host)) == ed(
                *old(self),
                *old(st),
                *old(host),
            ).did_s(),
    {
        reveal(Ed::did_s);
        let n: usize = self.total_count();
        if let Some(buf) = st.buf_mut() {
            let cur = buf.cursor;
            let len: usize = buf.text.line_len(cur.line);
            let col: usize = if len <= n || cur.col >= len - n {
                len
            } else {
                cur.col + n
            };
            buf.text.begin_undo_group(cur);
            let removed = buf.text.delete_range(cur, Position::new(cur.line, col));
            self.store_register(st, removed, RegKind::Char, false);
            self.enter_insert(st, host);
        }
    }

    /// Enter insert mode at the column that i, a, I or A ask for.
    fn insert_at(&mut self, st: &mut EditorState, host: &mut HostHandle, c: char)
        requires
            ed(*old(self), *old(st), *old(host)).wf(),
        ensures
            same_replay(old(self)@, final(self)@),
            ed(*final(self), *final(st), *final(host)).sane(),
            ed(*final(self), *final(st), *final(host)) == ed(
                *old(self),
                *old(st),
                *old(host),
            ).insert_at(c),
    {
        reveal(Ed::insert_at);
        let mut found = false;
        if let Some(buf) = st.buf_mut() {
            found = true;
            let cur = buf.cursor;
            buf.text.begin_undo_group(cur);
            let len: usize = buf.text.line_len(cur.line);
            let col: usize = if c == 'a' {
                if len > 0 {
                    cur.col + 1
                } else {
                    cur.col
                }
            } else if c == 'I' {
                first_nonblank(buf.text.line(cur.line))
            } else if c == 'A' {
                len
            } else {
                cur.col
            };
            buf.cursor = Position::new(cur.line, col);
        }
        assert(found ==> st@.buffers =~= old(st)@.with_buf(st@.buf()).buffers);
        assert(found ==> st@ =~= ({
            let d = ed(*old(self), *old(st), *old(host)).grouped();
            d.with(BufV { cursor: st@.buf().cursor, ..d.buf() }).s
        }));
        if found || c == 'i' {
            self.enter_insert(st, host);
        }
    }

    /// Enter visual mode at the cursor.
    fn enter_visual(&mut self, st: &mut EditorState, host: &mut HostHandle, kind: VisualKind)
        requires
            ed(*old(self), *old(st), *old(host)).wf(),
        ensures
            same_replay(old(self)@, final(self)@),
            ed(*final(self), *final(st), *final(host)).sane(),
            ed(*final(self), *final(st), *final(host)) == ed(
                *old(self),
                *old(st),
                *old(host),
            ).into_visual(kind),
    {
        if let Some(buf) = st.buf() {
            self.anchor = buf.cursor;
            self.set_mode(host, Mode::Visual { kind });
            self.reset();
        }
    }

    /// A count digit, a register prefix or an operator; false for the rest.
    fn grammar_key(&mut self, st: &mut EditorState, host: &mut HostHandle, key: Key) -> (r: bool)
        requires
            ed(*old(self), *old(st), *old(host)).wf(),
        ensures
            same_replay(old(self)@, final(self)@),
            ed(*final(self), *final(st), *final(host)).sane(),
            match ed(*old(self), *old(st), *old(host)).grammar_keyed(key) {
                Some(d) => r && ed(*final(self), *final(st), *final(host)) == d,
                None => !r && ed(*final(self), *final(st), *final(host)) == ed(
                    *old(self),
                    *old(st),
                    *old(host),
                ) && ed(*final(self), *final(st), *final(host)).wf(),
            },
    {
        reveal(Ed::grammar_keyed);
        match key {
            Key::Char(c) => {
                let typed: usize = if self.op.is_some() {
                    self.opcount
                } else {
                    self.count
                };
                if '0' <= c && c <= '9' && !(c == '0' && typed == 0) {
                    if self.op.is_some() {
                        self.opcount = grow_count(self.opcount, c);
                    } else {
                        self.count = grow_count(self.count, c);
                    }
                    self.pend(c);
                } else if c == '"' {
                    self.awaiting = Await::Register;
                    self.pend('"');
                } else if c == 'd' {
                    self.op_key(st, host, Op::Delete, 'd');
                } else if c == 'c' {
                    if self.op == Some(Op::Comment) {
                        self.doubled_op(st, host);
                    } else {
                        self.op_key(st, host, Op::Change, 'c');
                    }
                } else if c == 'y' {
                    self.op_key(st, host, Op::Yank, 'y');
                } else if c == '>' {
                    self.op_key(st, host, Op::Indent, '>');
                } else if c == '<' {
                    self.op_key(st, host, Op::Dedent, '<');
                } else if c == 'u' && self.op == Some(Op::Lower) {
                    self.doubled_op(st, host);
                } else if c == 'U' && self.op == Some(Op::Upper) {
                    self.doubled_op(st, host);
                } else {
                    return false;
                }
                true
            },
            _ => false,
        }
    }

    /// A simple change; false for the rest.
    fn change_key(&mut self, st: &mut EditorState, host: &mut HostHandle, key: Key) -> (r: bool)
        requires
            ed(*old(self), *old(st), *old(host)).wf(),
        ensures
            same_replay(old(self)@, final(self)@),
            ed(*final(self), *final(st), *final(host)).sane(),
            match ed(*old(self), *old(st), *old(host)).change_keyed(key) {
                Some(d) => r && ed(*final(self), *final(st), *final(host)) == d,
                None => !r && ed(*final(self), *final(st), *final(host)) == ed(
                    *old(self),
                    *old(st),
                    *old(host),
                ) && ed(*final(self), *final(st), *final(host)).wf(),
            },
    {
        reveal(Ed::change_keyed);
        match key {
            Key::Char('x') | Key::Delete => self.do_x(st, true),
            Key::Char('X') => self.do_x(st, false),
            Key::Char('s') => self.do_s(st, host),
            Key::Char('S') => {
                self.op = Some(Op::Change);
                self.doubled_op(st, host);
            },
            Key::Char('C') => self.op_to_eol(st, host, Op::Change),
            Key::Char('D') => self.op_to_eol(st, host, Op::Delete),
            Key::Char('Y') => {
                self.op = Some(Op::Yank);
                self.doubled_op(st, host);
            },
            Key::Char('r') => {
                self.awaiting = Await::Replace;
                self.pend('r');
            },
            Key::Char('R') => {
                if let Some(buf) = st.buf_mut() {
                    let cur = buf.cursor;
                    buf.text.begin_undo_group(cur);
                }
                self.set_mode(host, Mode::Replace);
                self.reset();
            },
            Key::Char('~') => self.do_tilde(st),
            Key::Char('J') => self.do_join(st),
            Key::Char('p') => self.do_paste(st, true),
            Key::Char('P') => self.do_paste(st, false),
            Key::Char('u') => self.do_undo(st, host),
            Key::Ctrl('r') => self.do_redo(st, host),
            _ => {
                return false;
            },
        }
        true
    }

    /// Enter insert or visual mode; false for the rest.
    fn mode_key(&mut self, st: &mut EditorState, host: &mut HostHandle, key: Key) -> (r: bool)
        requires
            ed(*old(self), *old(st), *old(host)).wf(),
        ensures
            same_replay(old(self)@, final(self)@),
            ed(*final(self), *final(st), *final(host)).sane(),
            match ed(*old(self), *old(st), *old(host)).mode_keyed(key) {
                Some(d) => r && ed(*final(self), *final(st), *final(host)) == d,
                None => !r && ed(*final(self), *final(st), *final(host)) == ed(
                    *old(self),
                    *old(st),
                    *old(host),
                ) && ed(*final(self), *final(st), *final(host)).wf(),
            },
    {
        reveal(Ed::mode_keyed);
        match key {
            Key::Char(c) => {
                if c == 'i' || c == 'a' {
                    if self.op.is_some() {
                        self.awaiting = Await::Object(c == 'a');
                        self.pend(c);
                    } else {
                        self.insert_at(st, host, c);
                    }
                } else if c == 'I' || c == 'A' {
                    self.insert_at(st, host, c);
                } else if c == 'o' {
                    self.open_line(st, host, true);
                } else if c == 'O' {
                    self.open_line(st, host, false);
                } else if c == 'v' {
                    self.enter_visual(st, host, VisualKind::Char);
                } else if c == 'V' {
                    self.enter_visual(st, host, VisualKind::Line);
                } else {
                    return false;
                }
                true
            },
            Key::Ctrl('v') => {
                self.enter_visual(st, host, VisualKind::Block);
                true
            },
            _ => false,
        }
    }

    /// Macros, marks, scrolling and prefixes; everything else drops what was typed.
    fn other_key(&mut self, st: &mut EditorState, host: &mut HostHandle, key: Key)
        requires
            ed(*old(self), *old(st), *old(host)).wf(),
        ensures
            same_replay(old(self)@, final(self)@),
            ed(*final(self), *final(st), *final(host)).sane(),
            ed(*final(self), *final(st), *final(host)) == ed(
                *old(self),
                *old(st),
                *old(host),
            ).other_keyed(key),
    {
        reveal(Ed::other_keyed);
        if let Some((a, c)) = find_prefix(key) {
            self.wait(a, c);
            return;
        }
        if let Some(r) = find_scroll(key) {
            self.scroll(r);
            return;
        }
        match key {
            Key::Char('q') => {
                if self.replaying {
                    self.reset();
                } else {
                    self.q_key(st, host);
                }
            },
            Key::Char(':') => self.enter_cmdline(host),
            Key::Char(' ') => {
                self.awaiting = Await::Leader(LeaderNode::Root);
            },
            Key::Ctrl('w') => {
                self.awaiting = Await::CtrlW;
            },
            Key::Esc | Key::Ctrl('c') => {
                self.reset();
                st.status = None;
            },
            _ => self.reset(),
        }
    }

    /// A search key; false for the rest.
    fn seek_key(&mut self, st: &mut EditorState, host: &mut HostHandle, key: Key) -> (r: bool)
        requires
            ed(*old(self), *old(st), *old(host)).wf(),
        ensures
            same_replay(old(self)@, final(self)@),
            ed(*final(self), *final(st), *final(host)).sane(),
            match ed(*old(self), *old(st), *old(host)).seek_keyed(key) {
                Some(d) => r && ed(*final(self), *final(st), *final(host)) == d,
                None => !r && ed(*final(self), *final(st), *final(host)) == ed(
                    *old(self),
                    *old(st),
                    *old(host),
                ) && ed(*final(self), *final(st), *final(host)).wf(),
            },
    {
        reveal(Ed::seek_keyed);
        match key {
            Key::Char('/') | Key::Char('?') => {
                self.enter_search(st, host, key == Key::Char('?'));
                true
            },
            Key::Char('n') | Key::Char('N') => {
                self.search_next(st, host, key == Key::Char('N'));
                true
            },
            Key::Char('*') | Key::Char('#') => {
                self.search_word(st, host, key == Key::Char('#'));
                true
            },
            _ => false,
        }
    }

    fn wait(&mut self, a: Await, c: char)
        ensures
            same_replay(old(self)@, final(self)@),
            final(self)@ == old(self)@.wait(a).pend(c),
    {
        self.awaiting = a;
        self.pend(c);
    }

    fn scroll(&mut self, req: ScrollRequest)
        ensures
            same_replay(old(self)@, final(self)@),
            final(self)@ == old(self)@.scrolling(req).reset(),
    {
        self.scroll_req = Some(req);
        self.reset();
    }

    /// Which macro register @ and a key choose.
    fn choose_macro(&self, key: Key) -> (r: Option<char>)
        ensures
            forall|s: StV, h: Seq<CallV>|
                r == #[trigger] (Ed { e: self@, s, h }).macro_chosen(key),
    {
        match key {
            Key::Char(c) => {
                if c == '@' {
                    self.last_macro
                } else if ('a' <= c && c <= 'z') || ('0' <= c && c <= '9') {
                    Some(c)
                } else {
                    None
                }
            },
            _ => None,
        }
    }

    /// Open the finder over the store's files.
    fn open_finder(
        &mut self,
        st: &mut EditorState,
        vfs: &mut Vfs,
        host: &mut HostHandle,
    )
        requires
            world(*old(self), *old(st), *old(vfs), *old(host)).wf(),
        ensures
            same_replay(old(self)@, final(self)@),
            world(*final(self), *final(st), *final(vfs), *final(host)).sane(),
            world(*final(self), *final(st), *final(vfs), *final(host)) == world(
                *old(self),
                *old(st),
                *old(vfs),
                *old(host),
            ).finder_opened(),
    {
        st.finder = Some(FinderState::new(vfs.list()));
        host.haptic(6);
        self.reset();
    }

    /// A key of the root leader menu that is no ex command.
    fn leader_root_key(
        &mut self,
        st: &mut EditorState,
        vfs: &mut Vfs,
        host: &mut HostHandle,
        key: Key,
    )
        requires
            world(*old(self), *old(st), *old(vfs), *old(host)).wf(),
        ensures
            same_replay(old(self)@, final(self)@),
            world(*final(self), *final(st), *final(vfs), *final(host)).sane(),
            world(*final(self), *final(st), *final(vfs), *final(host)) == world(
                *old(self),
                *old(st),
                *old(vfs),
                *old(host),
            ).leader_root(key),
    {
        match key {
            Key::Char('e') => {
                self.toggle_explorer(st, host);
                self.reset();
            },
            Key::Char('f') => {
                self.awaiting = Await::Leader(LeaderNode::Find);
            },
            Key::Char('o') => {
                if st.explorer.is_some() {
                    st.explorer_focused = !st.explorer_focused;
                } else {
                    st.next_window();
                }
                self.reset();
            },
            Key::Char('t') => {
                self.awaiting = Await::Leader(LeaderNode::Split);
            },
            Key::Char('q') => {
                st.close_window();
                self.reset();
            },
            _ => self.reset(),
        }
    }

    /// A key of the find menu.
    fn leader_find_key(
        &mut self,
        st: &mut EditorState,
        vfs: &mut Vfs,
        host: &mut HostHandle,
        key: Key,
    )
        requires
            world(*old(self), *old(st), *old(vfs), *old(host)).wf(),
        ensures
            same_replay(old(self)@, final(self)@),
            world(*final(self), *final(st), *final(vfs), *final(host)).sane(),
            world(*final(self), *final(st), *final(vfs), *final(host)) == world(
                *old(self),
                *old(st),
                *old(vfs),
                *old(host),
            ).leader_find(key),
    {
        match key {
            Key::Char('f') => self.open_finder(st, vfs, host),
            Key::Char('b') => self.open_buffer_picker(st, host),
            _ => self.reset(),
        }
    }

    /// A key of the split menu.
    fn leader_split_key(
        &mut self,
        st: &mut EditorState,
        vfs: &mut Vfs,
        host: &mut HostHandle,
        key: Key,
    )
        requires
            world(*old(self), *old(st), *old(vfs), *old(host)).wf(),
        ensures
            same_replay(old(self)@, final(self)@),
            world(*final(self), *final(st), *final(vfs), *final(host)).sane(),
            world(*final(self), *final(st), *final(vfs), *final(host)) == world(
                *old(self),
                *old(st),
                *old(vfs),
                *old(host),
            ).leader_split(key),
    {
        match key {
            Key::Char('h') => {
                self.do_split(st, host, SplitDir::Horizontal);
                self.reset();
            },
            Key::Char('v') => {
                self.do_split(st, host, SplitDir::Vertical);
                self.reset();
            },
            Key::Char('q') => {
                st.close_window();
                self.reset();
            },
            _ => self.reset(),
        }
    }

    /// Resolve the key after a pending leader node.
    fn leader_key(
        &mut self,
        st: &mut EditorState,
        vfs: &mut Vfs,
        host: &mut HostHandle,
        node: LeaderNode,
        key: Key,
    )
        requires
            world(*old(self), *old(st), *old(vfs), *old(host)).wf(),
        ensures
            same_replay(old(self)@, final(self)@),
            world(*final(self), *final(st), *final(vfs), *final(host)).sane(),
            world(*final(self), *final(st), *final(vfs), *final(host)) == world(
                *old(self),
                *old(st),
                *old(vfs),
                *old(host),
            ).leader_keyed(node, key),
    {
        reveal(World::leader_keyed);
        match node {
            LeaderNode::Root => {
                match find_leader_command(key, st.windows.len()) {
                    Some(cmd) => {
                        self.execute_cmd(st, vfs, host, cmd);
                        self.reset();
                    },
                    None => self.leader_root_key(st, vfs, host, key),
                }
            },
            LeaderNode::Find => self.leader_find_key(st, vfs, host, key),
            LeaderNode::Split => self.leader_split_key(st, vfs, host, key),
        }
    }

    /// A key with no buffer open: only commands, the finder, and the leader work.
    fn dashboard_key(
        &mut self,
        st: &mut EditorState,
        vfs: &mut Vfs,
        host: &mut HostHandle,
        w: Await,
        key: Key,
    )
        requires
            world(*old(self), *old(st), *old(vfs), *old(host)).wf(),
        ensures
            same_replay(old(self)@, final(self)@),
            world(*final(self), *final(st), *final(vfs), *final(host)).sane(),
            world(*final(self), *final(st), *final(vfs), *final(host)) == world(
                *old(self),
                *old(st),
                *old(vfs),
                *old(host),
            ).dashboard_keyed(w, key),
    {
        match w {
            Await::Leader(node) => self.leader_key(st, vfs, host, node, key),
            Await::Nothing => match key {
                Key::Char(':') => self.enter_cmdline(host),
                Key::Ctrl('p') => self.open_finder(st, vfs, host),
                Key::Char(' ') => {
                    self.awaiting = Await::Leader(LeaderNode::Root);
                },
                _ => self.reset(),
            },
            _ => self.reset(),
        }
    }

    /// A key that something pending waits for.
    fn normal_await(
        &mut self,
        st: &mut EditorState,
        vfs: &mut Vfs,
        host: &mut HostHandle,
        w: Await,
        key: Key,
    ) -> (r: Replay)
        requires
            world(*old(self), *old(st), *old(vfs), *old(host)).wf(),
        ensures
            same_replay(old(self)@, final(self)@),
            world(*final(self), *final(st), *final(vfs), *final(host)).sane(),
            (world(*final(self), *final(st), *final(vfs), *final(host)), r) == world(
                *old(self),
                *old(st),
                *old(vfs),
                *old(host),
            ).normal_awaited(w, key),
            r !is Nothing ==> world(*final(self), *final(st), *final(vfs), *final(host)).wf(),
    {
        reveal(World::normal_awaited);
        match w {
            Await::Register => {
                match key {
                    Key::Char(c) => {
                        if is_register(c) {
                            self.reg = Some(to_ascii_lower(c));
                            self.pend(c);
                        } else {
                            self.reset();
                        }
                    },
                    _ => self.reset(),
                }
            },
            Await::Find(k) => {
                match key {
                    Key::Char(c) => {
                        self.last_find = Some((k, c));
                        self.do_find(st, host, k, c);
                    },
                    _ => self.reset(),
                }
            },
            Await::Replace => {
                if let Key::Char(c) = key {
                    self.do_replace(st, c);
                }
                self.reset();
            },
            Await::Mark => self.mark_key(st, host, key),
            Await::JumpExact | Await::JumpLine => self.jump_mark(st, host, key),
            Await::Prefix(p) => {
                if p == 'g' {
                    self.g_key(st, host, key);
                } else if p == 'z' {
                    self.z_key(st, host, key);
                } else {
                    self.reset();
                }
            },
            Await::Object(around) => {
                match key {
                    Key::Char(c) => self.do_object(st, host, c, around),
                    _ => self.reset(),
                }
            },
            Await::Leader(node) => self.leader_key(st, vfs, host, node, key),
            Await::CtrlW => self.ctrl_w_key(st, host, key),
            Await::MacroReg => self.macro_reg_key(st, host, key),
            Await::MacroPlay => {
                let n: usize = self.total_count();
                let reg = self.choose_macro(key);
                assert(reg == ed(*self, *st, *host).macro_chosen(key));
                self.reset();
                return match reg {
                    Some(reg) => Replay::Macro(reg, n),
                    None => Replay::Nothing,
                };
            },
            Await::Nothing => {},
        }
        Replay::Nothing
    }

    /// An ordinary key in normal mode.
    fn normal_fresh(
        &mut self,
        st: &mut EditorState,
        vfs: &mut Vfs,
        host: &mut HostHandle,
        key: Key,
    ) -> (r: Replay)
        requires
            world(*old(self), *old(st), *old(vfs), *old(host)).wf(),
        ensures
            same_replay(old(self)@, final(self)@),
            world(*final(self), *final(st), *final(vfs), *final(host)).sane(),
            (world(*final(self), *final(st), *final(vfs), *final(host)), r) == world(
                *old(self),
                *old(st),
                *old(vfs),
                *old(host),
            ).normal_fresh(key),
            r !is Nothing ==> world(*final(self), *final(st), *final(vfs), *final(host)).wf(),
    {
        if self.grammar_key(st, host, key) {
        } else if self.motion_key(st, host, key) {
        } else if self.change_key(st, host, key) {
        } else if self.mode_key(st, host, key) {
        } else if self.seek_key(st, host, key) {
        } else if key == Key::Char('.') {
            let n: usize = self.total_count();
            self.reset();
            return Replay::Last(n);
        } else if key == Key::Ctrl('p') {
            self.open_finder(st, vfs, host);
        } else {
            self.other_key(st, host, key);
        }
        Replay::Nothing
    }

    /// A key in normal mode; tells what it asks to be replayed.
    pub(crate) fn normal_key(
        &mut self,
        st: &mut EditorState,
        vfs: &mut Vfs,
        host: &mut HostHandle,
        key: Key,
    ) -> (r: Replay)
        requires
            world(*old(self), *old(st), *old(vfs), *old(host)).wf(),
        ensures
            same_replay(old(self)@, final(self)@),
            world(*final(self), *final(st), *final(vfs), *final(host)).sane(),
            (world(*final(self), *final(st), *final(vfs), *final(host)), r) == world(
                *old(self),
                *old(st),
                *old(vfs),
                *old(host),
            ).normal_keyed(key),
            r !is Nothing ==> world(*final(self), *final(st), *final(vfs), *final(host)).wf(),
    {
        let w = self.awaiting;
        self.awaiting = Await::Nothing;
        assert(world(*self, *st, *vfs, *host).wf());
        // Buffer-less (dashboard): only commands, the finder, and the leader work.
        if st.buf().is_none() {
            self.dashboard_key(st, vfs, host, w, key);
            Replay::Nothing
        } else if w != Await::Nothing {
            self.normal_await(st, vfs, host, w, key)
        } else {
            self.normal_fresh(st, vfs, host, key)
        }
    }
}

/// The ex command that a key of the root menu stands for.
fn find_leader_command(key: Key, windows: usize) -> (r: Option<&'static str>)
    ensures
        match r {
            Some(s) => World::leader_command(key, windows as int) == Some(s@),
            None => World::leader_command(key, windows as int) is None,
        },
{
    match key {
        Key::Char('w') => Some("w"),
        Key::Char('c') => Some("bd"),
        Key::Char('q') => if windows <= 1 {
            Some("q")
        } else {
            None
        },
        Key::Char('h') => Some("help"),
        _ => None,
    }
}

/// A key that the next key completes: what is then waited for.
fn find_prefix(key: Key) -> (r: Option<(Await, char)>)
    ensures
        r == Ed::prefix_of(key),
{
    match key {
        Key::Char(c) => {
            if c == '@' {
                Some((Await::MacroPlay, c))
            } else if c == 'm' {
                Some((Await::Mark, c))
            } else if c == '`' {
                Some((Await::JumpExact, c))
            } else if c == '\'' {
                Some((Await::JumpLine, c))
            } else if c == 'g' || c == 'z' {
                Some((Await::Prefix(c), c))
            } else {
                None
            }
        },
        _ => None,
    }
}

/// A key that scrolls the viewport.
fn find_scroll(key: Key) -> (r: Option<ScrollRequest>)
    ensures
        r == Ed::scroll_of(key),
{
    match key {
        Key::PageDown | Key::Ctrl('f') => Some(ScrollRequest::PageDown),
        Key::PageUp | Key::Ctrl('b') => Some(ScrollRequest::PageUp),
        Key::Ctrl('d') => Some(ScrollRequest::HalfDown),
        Key::Ctrl('u') => Some(ScrollRequest::HalfUp),
        _ => None,
    }
}

/// A copy of some keys.
pub(crate) fn copy_keys(v: &Vec<Key>) -> (r: Vec<Key>)
    ensures
        r@ == v@,
{
    let mut r: Vec<Key> = Vec::new();
    for i in 0..v.len()
        invariant
            r@ =~= v@.take(i as int),
    {
        r.push(v[i]);
    }
    r
}

/// The names of the open buffers.
fn buffer_names(st: &EditorState) -> (r: Vec<String>)
    ensures
        texts(r@) == st@.buffers.map_values(|b: BufV| b.name),
{
    let mut r: Vec<String> = Vec::new();
    for i in 0..st.buffers.len()
        invariant
            r@.len() == i,
            forall|j: int| 0 <= j < i ==> (#[trigger] r@[j])@ == st@.buffers[j].name,
    {
        r.push(st.buffers[i].name.clone());
    }
    assert(texts(r@) =~= st@.buffers.map_values(|b: BufV| b.name));
    r
}

proof fn lemma_macros_insert(m: Map<char, Vec<Key>>, c: char, v: Vec<Key>)
    ensures
        macros_of(m.insert(c, v)) == macros_of(m).insert(c, v@),
{
    assert(macros_of(m.insert(c, v)) =~= macros_of(m).insert(c, v@));
}

} // verus!
