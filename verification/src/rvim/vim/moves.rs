//! Motion keys: where each leads, and what the pending operator makes of it.

use vstd::prelude::*;

use crate::host::HostHandle;
use crate::rvim::buffer::{clamped, line_at, max, min, pos, Pos, Position, TextBuffer};
use crate::rvim::keys::{Await, Key, Mode, MotionKind, Op};
use crate::rvim::motion::{
    blank_at, bracket_partner, char_is_blank, first_nonblank, indent_of, len_at, match_bracket,
    next_word, para_after, para_back, para_before, para_forward, word_back, word_back_end,
    word_back_end_of, word_back_of, word_end, word_end_of, word_forward,
};
use crate::rvim::objects::next_char;
use crate::rvim::state::{BufV, Buffer, EditorState};
use crate::rvim::vim::{ed, fits, same_replay, Ed, EngV, VimEngine};
use crate::text::to_chars;

verus! {

/// The word motions.
#[derive(Clone, Copy, Debug, PartialEq, Eq, Structural)]
pub enum WordMove {
    Next,
    End,
    Back,
    BackEnd,
}

pub open spec fn word_step(ls: Seq<Seq<char>>, p: Pos, big: bool, m: WordMove) -> Pos {
    match m {
        WordMove::Next => next_word(ls, p, big),
        WordMove::End => word_end_of(ls, p, big),
        WordMove::Back => word_back_of(ls, p, big),
        WordMove::BackEnd => word_back_end_of(ls, p, big),
    }
}

/// `n` word motions in a row.
pub open spec fn word_steps(ls: Seq<Seq<char>>, p: Pos, big: bool, m: WordMove, n: int) -> Pos
    decreases n,
{
    if n <= 0 {
        p
    } else {
        word_step(ls, word_steps(ls, p, big, m, n - 1), big, m)
    }
}

pub(crate) fn move_words(text: &TextBuffer, p: Position, big: bool, m: WordMove, n: usize) -> (r: Position)
    requires
        text@.wf(),
        fits(p@),
    ensures
        r@ == word_steps(text@.lines, p@, big, m, n as int),
        fits(r@),
{
    let mut q = p;
    for i in 0..n
        invariant
            text@.wf(),
            fits(q@),
            q@ == word_steps(text@.lines, p@, big, m, i as int),
    {
        q = match m {
            WordMove::Next => word_forward(text, q, big),
            WordMove::End => word_end(text, q, big),
            WordMove::Back => word_back(text, q, big),
            WordMove::BackEnd => word_back_end(text, q, big),
        };
    }
    q
}

/// The last `c` of `s` before `i`, or -1.
pub open spec fn prev_char(s: Seq<char>, c: char, i: int) -> int
    decreases i,
{
    if i <= 0 {
        -1
    } else if i <= s.len() && s[i - 1] == c {
        i - 1
    } else {
        prev_char(s, c, i - 1)
    }
}

/// The column of the `n`-th `c` after (or before) column `col`.
pub open spec fn nth_char(s: Seq<char>, c: char, col: int, forward: bool, n: int) -> Option<int>
    decreases n,
{
    if n <= 0 {
        Some(col)
    } else {
        let i = if forward {
            next_char(s, c, col + 1)
        } else {
            prev_char(s, c, col)
        };
        if 0 <= i < s.len() {
            nth_char(s, c, i, forward, n - 1)
        } else {
            None
        }
    }
}

fn find_nth(s: &[char], c: char, col: usize, forward: bool, n: usize) -> (r: Option<usize>)
    requires
        col < usize::MAX,
        s@.len() < usize::MAX,
    ensures
        match r {
            Some(i) => nth_char(s@, c, col as int, forward, n as int) == Some(i as int) && i
                < usize::MAX,
            None => nth_char(s@, c, col as int, forward, n as int) is None,
        },
{
    let mut at: usize = col;
    for k in 0..n
        invariant
            at < usize::MAX,
            s@.len() < usize::MAX,
            nth_char(s@, c, col as int, forward, n as int) == nth_char(
                s@,
                c,
                at as int,
                forward,
                n - k,
            ),
    {
        if forward {
            let mut i: usize = at + 1;
            while i < s.len() && s[i] != c
                invariant
                    next_char(s@, c, at + 1) == next_char(s@, c, i as int),
                ensures
                    i == next_char(s@, c, at + 1),
                decreases s@.len() - i,
            {
                i = i + 1;
            }
            if i >= s.len() {
                return None;
            }
            at = i;
        } else {
            let mut i: usize = at;
            while i > 0 && !(i <= s.len() && s[i - 1] == c)
                invariant
                    i <= at,
                    prev_char(s@, c, at as int) == prev_char(s@, c, i as int),
                ensures
                    i == prev_char(s@, c, at as int) + 1,
                    i > 0 ==> i <= s@.len(),
                decreases i,
            {
                i = i - 1;
            }
            if i == 0 {
                return None;
            }
            at = i - 1;
        }
    }
    Some(at)
}

/// A place, how the motion there counts, and whether j/k aim at its column from then on.
pub type Target = (Pos, MotionKind, bool);

/// Where w (or W) leads: under an operator no further than the end of the line; changing a
/// word, to the end of the word.
pub open spec fn word_target(e: EngV, b: BufV, big: bool) -> Target {
    let ls = b.text.lines;
    let cur = b.cursor;
    let n = e.total();
    let p = word_steps(ls, cur, big, WordMove::Next, n);
    if e.op == Some(Op::Change) && !blank_at(ls, cur) {
        (word_steps(ls, cur, big, WordMove::End, n), MotionKind::Inclusive, true)
    } else if e.op is Some && p.line > cur.line && len_at(ls, cur.line) > 0 {
        (pos(cur.line, len_at(ls, cur.line)), MotionKind::Exclusive, true)
    } else {
        (p, MotionKind::Exclusive, true)
    }
}

/// Where a motion key leads; `None` for keys that are no plain motion.
#[verifier::opaque]
pub open spec fn target_of(e: EngV, b: BufV, key: Key) -> Option<Target> {
    let ls = b.text.lines;
    let cur = b.cursor;
    let n = e.total();
    let last = ls.len() - 1;
    let len = len_at(ls, cur.line);
    let left = Some((pos(cur.line, max(cur.col - n, 0)), MotionKind::Exclusive, true));
    let right = Some(
        (
            pos(
                cur.line,
                min(
                    cur.col + n,
                    if e.op is Some {
                        len
                    } else {
                        max(len - 1, 0)
                    },
                ),
            ),
            MotionKind::Exclusive,
            true,
        ),
    );
    let down = Some((pos(min(cur.line + n, last), b.desired_col), MotionKind::Linewise, false));
    let up = Some((pos(max(cur.line - n, 0), b.desired_col), MotionKind::Linewise, false));
    let home = Some((pos(cur.line, 0), MotionKind::Exclusive, true));
    let end_line = min(cur.line + n - 1, last);
    let end = Some(
        (pos(end_line, max(len_at(ls, end_line) - 1, 0)), MotionKind::Inclusive, true),
    );
    match key {
        Key::Left => left,
        Key::Right => right,
        Key::Down => down,
        Key::Up => up,
        Key::Home => home,
        Key::End => end,
        Key::Char(c) => if c == 'h' {
            left
        } else if c == 'l' {
            right
        } else if c == 'j' {
            down
        } else if c == 'k' {
            up
        } else if c == '0' {
            home
        } else if c == '^' {
            Some((pos(cur.line, indent_of(line_at(ls, cur.line))), MotionKind::Exclusive, true))
        } else if c == '$' {
            end
        } else if c == 'G' {
            let line = if e.counted() {
                min(n - 1, last)
            } else {
                last
            };
            Some((pos(line, indent_of(line_at(ls, line))), MotionKind::Linewise, true))
        } else if c == 'w' || c == 'W' {
            Some(word_target(e, b, c == 'W'))
        } else if c == 'e' || c == 'E' {
            Some((word_steps(ls, cur, c == 'E', WordMove::End, n), MotionKind::Inclusive, true))
        } else if c == 'b' || c == 'B' {
            Some((word_steps(ls, cur, c == 'B', WordMove::Back, n), MotionKind::Exclusive, true))
        } else if c == '{' {
            Some((para_before(ls, cur.line, n), MotionKind::Exclusive, true))
        } else if c == '}' {
            Some((para_after(ls, cur.line, n), MotionKind::Exclusive, true))
        } else if c == '%' {
            match bracket_partner(ls, cur) {
                Some(p) => Some((p, MotionKind::Inclusive, true)),
                None => None,
            }
        } else {
            None
        },
        _ => None,
    }
}

/// The opposite of a find: f and F, t and T.
pub open spec fn find_flipped(kind: char) -> char {
    if kind == 'f' {
        'F'
    } else if kind == 'F' {
        'f'
    } else if kind == 't' {
        'T'
    } else {
        't'
    }
}

impl Ed {
    /// The pending operator applied over the motion, or just the cursor moved.
    #[verifier::opaque]
    pub open spec fn moved(self, target: Pos, kind: MotionKind, set_desired: bool) -> Ed {
        if self.e.op is Some {
            if self.has() {
                self.operated(self.buf().cursor, target, kind).motion_ended()
            } else {
                self.reset()
            }
        } else if self.has() {
            let b = self.buf();
            let c = clamped(b.text.lines, target, false);
            self.with(
                BufV {
                    cursor: c,
                    desired_col: if set_desired {
                        c.col
                    } else {
                        b.desired_col
                    },
                    ..b
                },
            ).motion_ended()
        } else {
            self.motion_ended()
        }
    }

    /// Nothing typed is left over; a visual selection keeps its register.
    pub open spec fn motion_ended(self) -> Ed {
        if self.e.mode is Visual {
            Ed { e: EngV { count: 0, opcount: 0, pending: Seq::empty(), ..self.e }, ..self }
        } else {
            self.reset()
        }
    }

    /// f/F/t/T: to (or just before) the count'th occurrence of `target` on the line.
    #[verifier::opaque]
    pub open spec fn did_find(self, kind: char, target: char) -> Ed {
        if !self.has() {
            self.reset()
        } else {
            let cur = self.buf().cursor;
            let s = line_at(self.buf().text.lines, cur.line);
            let forward = kind == 'f' || kind == 't';
            match nth_char(s, target, cur.col, forward, self.e.total()) {
                None => self.reset(),
                Some(col) => self.moved(
                    pos(
                        cur.line,
                        if kind == 't' {
                            max(col - 1, 0)
                        } else if kind == 'T' {
                            col + 1
                        } else {
                            col
                        },
                    ),
                    if forward {
                        MotionKind::Inclusive
                    } else {
                        MotionKind::Exclusive
                    },
                    true,
                ),
            }
        }
    }

    /// A motion key; `None` when `key` is not a motion.
    #[verifier::opaque]
    pub open spec fn motioned(self, key: Key) -> Option<Ed> {
        if !self.has() {
            None
        } else {
            match target_of(self.e, self.buf(), key) {
                Some((t, kind, set_desired)) => {
                    let d = self.moved(t, kind, set_desired);
                    Some(
                        if (key == Key::Char('$') || key == Key::End) && self.e.op is None
                            && d.has() {
                            d.with(BufV { desired_col: usize::MAX as int, ..d.buf() })
                        } else {
                            d
                        },
                    )
                },
                None => match key {
                    Key::Char(c) => if c == '%' {
                        Some(self.reset())
                    } else if c == 'f' || c == 'F' || c == 't' || c == 'T' {
                        Some(Ed { e: self.e.wait(Await::Find(c)).pend(c), ..self })
                    } else if c == ';' {
                        match self.e.last_find {
                            Some((kind, target)) => Some(self.did_find(kind, target)),
                            None => Some(self.reset()),
                        }
                    } else if c == ',' {
                        match self.e.last_find {
                            Some((kind, target)) => Some(
                                self.did_find(find_flipped(kind), target),
                            ),
                            None => Some(self.reset()),
                        }
                    } else {
                        None
                    },
                    _ => None,
                },
            }
        }
    }
}

pub open spec fn same_target(r: Option<(Position, MotionKind, bool)>, t: Option<Target>) -> bool {
    match r {
        Some((p, k, d)) => t == Some((p@, k, d)) && p.line < usize::MAX && (k
            != MotionKind::Linewise ==> fits(p@)),
        None => t is None,
    }
}

impl VimEngine {
    /// Where w (or W) leads.
    fn word_motion(&self, buf: &Buffer, big: bool) -> (r: (Position, MotionKind, bool))
        requires
            self@.wf(),
            buf@.wf(),
        ensures
            (r.0@, r.1, r.2) == word_target(self@, buf@, big),
            fits(r.0@),
    {
        let cur = buf.cursor;
        let text = &buf.text;
        let n: usize = self.total_count();
        if self.op == Some(Op::Change) && !char_is_blank(text, cur) {
            return (move_words(text, cur, big, WordMove::End, n), MotionKind::Inclusive, true);
        }
        let p = move_words(text, cur, big, WordMove::Next, n);
        let len: usize = text.line_len(cur.line);
        if self.op.is_some() && p.line > cur.line && len > 0 {
            (Position::new(cur.line, len), MotionKind::Exclusive, true)
        } else {
            (p, MotionKind::Exclusive, true)
        }
    }

    /// Where a motion key leads; `None` for keys that are no plain motion.
    fn motion_target(&self, buf: &Buffer, key: Key) -> (r: Option<(Position, MotionKind, bool)>)
        requires
            self@.wf(),
            buf@.wf(),
        ensures
            same_target(r, target_of(self@, buf@, key)),
    {
        reveal(target_of);
        let cur = buf.cursor;
        let text = &buf.text;
        let n: usize = self.total_count();
        let last: usize = text.line_count() - 1;
        match key {
            Key::Char('h') | Key::Left => {
                let col: usize = if cur.col > n {
                    cur.col - n
                } else {
                    0
                };
                Some((Position::new(cur.line, col), MotionKind::Exclusive, true))
            },
            Key::Char('l') | Key::Right => {
                let len: usize = text.line_len(cur.line);
                let most: usize = if self.op.is_some() || len == 0 {
                    len
                } else {
                    len - 1
                };
                let col: usize = if most <= n || cur.col >= most - n {
                    most
                } else {
                    cur.col + n
                };
                Some((Position::new(cur.line, col), MotionKind::Exclusive, true))
            },
            Key::Char('j') | Key::Down => {
                let line: usize = if last <= n || cur.line >= last - n {
                    last
                } else {
                    cur.line + n
                };
                Some((Position::new(line, buf.desired_col), MotionKind::Linewise, false))
            },
            Key::Char('k') | Key::Up => {
                let line: usize = if cur.line > n {
                    cur.line - n
                } else {
                    0
                };
                Some((Position::new(line, buf.desired_col), MotionKind::Linewise, false))
            },
            Key::Char('0') | Key::Home => {
                Some((Position::new(cur.line, 0), MotionKind::Exclusive, true))
            },
            Key::Char('^') => {
                let col: usize = first_nonblank(text.line(cur.line));
                Some((Position::new(cur.line, col), MotionKind::Exclusive, true))
            },
            Key::Char('$') | Key::End => {
                let line: usize = if last <= n - 1 || cur.line >= last - (n - 1) {
                    last
                } else {
                    cur.line + (n - 1)
                };
                let len: usize = text.line_len(line);
                let col: usize = if len > 0 {
                    len - 1
                } else {
                    0
                };
                Some((Position::new(line, col), MotionKind::Inclusive, true))
            },
            Key::Char('G') => {
                let line: usize = if (self.count > 0 || self.opcount > 0) && n - 1 < last {
                    n - 1
                } else {
                    last
                };
                let col: usize = first_nonblank(text.line(line));
                Some((Position::new(line, col), MotionKind::Linewise, true))
            },
            Key::Char('w') => Some(self.word_motion(buf, false)),
            Key::Char('W') => Some(self.word_motion(buf, true)),
            Key::Char('e') => Some(
                (move_words(text, cur, false, WordMove::End, n), MotionKind::Inclusive, true),
            ),
            Key::Char('E') => Some(
                (move_words(text, cur, true, WordMove::End, n), MotionKind::Inclusive, true),
            ),
            Key::Char('b') => Some(
                (move_words(text, cur, false, WordMove::Back, n), MotionKind::Exclusive, true),
            ),
            Key::Char('B') => Some(
                (move_words(text, cur, true, WordMove::Back, n), MotionKind::Exclusive, true),
            ),
            Key::Char('{') => Some((para_back(text, cur.line, n), MotionKind::Exclusive, true)),
            Key::Char('}') => Some((para_forward(text, cur.line, n), MotionKind::Exclusive, true)),
            Key::Char('%') => match match_bracket(text, cur) {
                Some(p) => Some((p, MotionKind::Inclusive, true)),
                None => None,
            },
            _ => None,
        }
    }

    /// Handle a pure motion key; returns false when `key` is not a motion.
    pub(crate) fn motion_key(&mut self, st: &mut EditorState, host: &mut HostHandle, key: Key) -> (r:
        bool)
        requires
            ed(*old(self), *old(st), *old(host)).wf(),
        ensures
            same_replay(old(self)@, final(self)@),
            ed(*final(self), *final(st), *final(host)).sane(),
            match ed(*old(self), *old(st), *old(host)).motioned(key) {
                Some(d) => r && ed(*final(self), *final(st), *final(host)) == d,
                None => !r && ed(*final(self), *final(st), *final(host)) == ed(
                    *old(self),
                    *old(st),
                    *old(host),
                ) && ed(*final(self), *final(st), *final(host)).wf(),
            },
    {
        reveal(Ed::motioned);
        let found = match st.buf() {
            Some(buf) => self.motion_target(buf, key),
            None => {
                return false;
            },
        };
        if let Some((target, kind, set_desired)) = found {
            let had_op = self.op.is_some();
            self.finish_motion(st, host, target, kind, set_desired);
            // $ pins the desired column to end-of-line, so j/k (and block selections) track it.
            if (key == Key::Char('$') || key == Key::End) && !had_op {
                if let Some(buf) = st.buf_mut() {
                    buf.desired_col = usize::MAX;
                }
            }
            return true;
        }
        match key {
            Key::Char('%') => {
                self.reset();
                true
            },
            Key::Char(c) => {
                if c == 'f' || c == 'F' || c == 't' || c == 'T' {
                    self.awaiting = Await::Find(c);
                    self.pend(c);
                    true
                } else if c == ';' || c == ',' {
                    match self.last_find {
                        Some((kind, target)) => {
                            let kind = if c == ';' {
                                kind
                            } else if kind == 'f' {
                                'F'
                            } else if kind == 'F' {
                                'f'
                            } else if kind == 't' {
                                'T'
                            } else {
                                't'
                            };
                            self.do_find(st, host, kind, target);
                        },
                        None => {
                            self.reset();
                        },
                    }
                    true
                } else {
                    false
                }
            },
            _ => false,
        }
    }

    /// f/F/t/T: jump to (or before) the count'th occurrence of `target` on the line.
    pub(crate) fn do_find(
        &mut self,
        st: &mut EditorState,
        host: &mut HostHandle,
        kind: char,
        target: char,
    )
        requires
            ed(*old(self), *old(st), *old(host)).wf(),
        ensures
            same_replay(old(self)@, final(self)@),
            ed(*final(self), *final(st), *final(host)).sane(),
            ed(*final(self), *final(st), *final(host)) == ed(
                *old(self),
                *old(st),
                *old(host),
            ).did_find(kind, target),
    {
        reveal(Ed::did_find);
        let n: usize = self.total_count();
        let forward = kind == 'f' || kind == 't';
        let (line, found) = match st.buf() {
            Some(buf) => {
                let cur = buf.cursor;
                let chars = to_chars(buf.text.line(cur.line));
                let len: usize = buf.text.line_len(cur.line);
                (cur.line, find_nth(chars.as_slice(), target, cur.col, forward, n))
            },
            None => {
                self.reset();
                return;
            },
        };
        match found {
            None => {
                self.reset();
            },
            Some(at) => {
                let col: usize = if kind == 't' {
                    if at > 0 {
                        at - 1
                    } else {
                        0
                    }
                } else if kind == 'T' {
                    at + 1
                } else {
                    at
                };
                proof {
                    lemma_nth_char(
                        line_at(st@.buf().text.lines, line as int),
                        target,
                        st@.buf().cursor.col,
                        forward,
                        n as int,
                    );
                }
                let len: usize = match st.buf() {
                    Some(buf) => buf.text.line_len(line),
                    None => 0,
                };
                let how = if forward {
                    MotionKind::Inclusive
                } else {
                    MotionKind::Exclusive
                };
                self.finish_motion(st, host, Position::new(line, col), how, true);
            },
        }
    }

    /// Apply the pending operator over the motion, or just move the cursor.
    pub(crate) fn finish_motion(
        &mut self,
        st: &mut EditorState,
        host: &mut HostHandle,
        target: Position,
        kind: MotionKind,
        set_desired: bool,
    )
        requires
            ed(*old(self), *old(st), *old(host)).wf(),
            target.line < usize::MAX,
            kind != MotionKind::Linewise ==> fits(target@),
        ensures
            same_replay(old(self)@, final(self)@),
            ed(*final(self), *final(st), *final(host)).sane(),
            ed(*final(self), *final(st), *final(host)) == ed(
                *old(self),
                *old(st),
                *old(host),
            ).moved(target@, kind, set_desired),
    {
        reveal(Ed::moved);
        if self.op.is_some() {
            let cur = match st.buf() {
                Some(buf) => buf.cursor,
                None => {
                    self.reset();
                    return;
                },
            };
            self.apply_op(st, host, cur, target, kind);
        } else if let Some(buf) = st.buf_mut() {
            buf.cursor = buf.text.clamp(target, false);
            if set_desired {
                buf.desired_col = buf.cursor.col;
            }
        }
        let visual = match self.mode {
            Mode::Visual { .. } => true,
            _ => false,
        };
        if visual {
            self.count = 0;
            self.opcount = 0;
            self.pending = String::new();
        } else {
            self.reset();
        }
    }
}

/// A character found lies on the line.
proof fn lemma_nth_char(s: Seq<char>, c: char, col: int, forward: bool, n: int)
    requires
        n >= 1,
    ensures
        nth_char(s, c, col, forward, n) matches Some(i) ==> 0 <= i < s.len(),
    decreases n,
{
    let i = if forward {
        next_char(s, c, col + 1)
    } else {
        prev_char(s, c, col)
    };
    reveal_with_fuel(nth_char, 2);
    if 0 <= i < s.len() && n > 1 {
        lemma_nth_char(s, c, i, forward, n - 1);
    }
}

} // verus!
