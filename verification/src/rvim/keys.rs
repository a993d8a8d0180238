//! The vocabulary of the key engine: keys, modes, operators and pending states.

use vstd::prelude::*;

verus! {

/// A decoded input key. Printable chars arrive as `Char`; Ctrl-chords as `Ctrl` with the
/// lowercase letter.
#[derive(Clone, Copy, Debug, PartialEq, Eq, Structural)]
pub enum Key {
    Char(char),
    Ctrl(char),
    Esc,
    Enter,
    Backspace,
    Delete,
    Tab,
    Up,
    Down,
    Left,
    Right,
    Home,
    End,
    PageUp,
    PageDown,
}

/// Shape of a visual selection.
#[derive(Clone, Copy, Debug, PartialEq, Eq, Structural)]
pub enum VisualKind {
    Char,
    Line,
    Block,
}

#[derive(Clone, Copy, Debug, PartialEq, Eq, Structural)]
pub enum Mode {
    Normal,
    Insert,
    Visual { kind: VisualKind },
    Replace,
    /// Ex command line (`:`).
    Command,
    /// Search line (`/` or `?`).
    Search { backwards: bool },
}

/// Viewport scroll requested by a key; the screen resolves it against the real viewport.
#[derive(Clone, Copy, Debug, PartialEq, Eq, Structural)]
pub enum ScrollRequest {
    Center,
    Top,
    Bottom,
    HalfDown,
    HalfUp,
    PageDown,
    PageUp,
}

/// An operator waiting for a motion.
#[derive(Clone, Copy, Debug, PartialEq, Eq, Structural)]
pub enum Op {
    Delete,
    Change,
    Yank,
    Indent,
    Dedent,
    Lower,
    Upper,
    Comment,
}

/// How a motion's end counts.
#[derive(Clone, Copy, Debug, PartialEq, Eq, Structural)]
pub enum MotionKind {
    Exclusive,
    Inclusive,
    Linewise,
}

/// Which leader menu the next key selects from.
#[derive(Clone, Copy, Debug, PartialEq, Eq, Structural)]
pub enum LeaderNode {
    Root,
    Find,
    Split,
}

/// What the next key is interpreted as.
#[derive(Clone, Copy, Debug, PartialEq, Eq, Structural)]
pub enum Await {
    /// An ordinary key.
    Nothing,
    /// After `"`: a register name.
    Register,
    /// After f/F/t/T: the target char.
    Find(char),
    /// After r: the replacement char.
    Replace,
    /// After m: a mark name.
    Mark,
    /// After backtick: a mark to jump to exactly.
    JumpExact,
    /// After ': a mark whose line to jump to.
    JumpLine,
    /// After g or z: the second key of the chord.
    Prefix(char),
    /// After i/a with an operator (or in visual): a text-object char; true = around.
    Object(bool),
    /// Space leader pending at this menu node.
    Leader(LeaderNode),
    /// After Ctrl+w: a window-command key.
    CtrlW,
    /// After q: the macro register to record into.
    MacroReg,
    /// After @: the macro register to replay.
    MacroPlay,
}

/// Ceiling on any typed count; keeps count arithmetic and repeat loops from exploding on
/// absurd input like `99999999999999999999p`.
pub const MAX_COUNT: usize = 1_000_000;

/// Budget for text materialized by one paste beyond a single copy of the register.
pub const PASTE_MAX_BYTES: usize = 4_194_304;

/// Ceiling on dot-repeat replays of one change.
pub const MAX_REPEAT: usize = 10_000;

/// Total key budget across one macro replay, nested plays counted in.
pub const MAX_MACRO_STEPS: usize = 100_000;

/// Nesting ceiling for macros that invoke macros.
pub const MAX_REPLAY_DEPTH: usize = 16;

/// Scan budget for bracket matching, in chars.
pub const MATCH_BUDGET: usize = 200_000;

} // verus!
