//! Which-key panels: what the next key can be, for every pending-key state.

use vstd::prelude::*;

use crate::rvim::keys::{Await, LeaderNode, Op};
use crate::rvim::vim::{EngV, VimEngine};

verus! {

/// Which-key panel content for one pending-key state.
pub struct KeyHints {
    pub title: &'static str,
    pub entries: Vec<(&'static str, &'static str)>,
    /// Menus show instantly; prefix cheatsheets wait for a typing pause.
    pub immediate: bool,
}

/// A key and what it does.
pub type Hint = (Seq<char>, Seq<char>);

/// Model of a panel.
pub struct HintsV {
    pub title: Seq<char>,
    pub entries: Seq<Hint>,
    pub immediate: bool,
}

pub open spec fn hints_of(s: Seq<(&str, &str)>) -> Seq<Hint> {
    Seq::new(s.len(), |i: int| (s[i].0@, s[i].1@))
}

impl View for KeyHints {
    type V = HintsV;

    open spec fn view(&self) -> HintsV {
        HintsV {
            title: self.title@,
            entries: hints_of(self.entries@),
            immediate: self.immediate,
        }
    }
}

/// Which-key hints for the root leader menu.
pub open spec fn root_menu() -> Seq<Hint> {
    seq![
        ("e"@, "explorer"@),
        ("f"@, "find…"@),
        ("o"@, "other window"@),
        ("t"@, "split…"@),
        ("w"@, "save"@),
        ("c"@, "close buffer"@),
        ("q"@, "close window"@),
        ("h"@, "help"@),
    ]
}

fn make_root_menu() -> (r: Vec<(&'static str, &'static str)>)
    ensures
        hints_of(r@) == root_menu(),
        r@.len() <= 64,
{
    let r = vec![
        ("e", "explorer"),
        ("f", "find…"),
        ("o", "other window"),
        ("t", "split…"),
        ("w", "save"),
        ("c", "close buffer"),
        ("q", "close window"),
        ("h", "help"),
    ];
    assert(hints_of(r@) =~= root_menu());
    r
}

/// Which-key hints after Space f.
pub open spec fn find_menu() -> Seq<Hint> {
    seq![
        ("f"@, "find file"@),
        ("b"@, "buffers"@),
    ]
}

fn make_find_menu() -> (r: Vec<(&'static str, &'static str)>)
    ensures
        hints_of(r@) == find_menu(),
        r@.len() <= 64,
{
    let r = vec![
        ("f", "find file"),
        ("b", "buffers"),
    ];
    assert(hints_of(r@) =~= find_menu());
    r
}

/// Which-key hints after Space t.
pub open spec fn split_menu() -> Seq<Hint> {
    seq![
        ("h"@, "split below"@),
        ("v"@, "split right"@),
        ("q"@, "close window"@),
    ]
}

fn make_split_menu() -> (r: Vec<(&'static str, &'static str)>)
    ensures
        hints_of(r@) == split_menu(),
        r@.len() <= 64,
{
    let r = vec![
        ("h", "split below"),
        ("v", "split right"),
        ("q", "close window"),
    ];
    assert(hints_of(r@) =~= split_menu());
    r
}

/// Which-key hints after g.
pub open spec fn g_menu() -> Seq<Hint> {
    seq![
        ("g"@, "first line (gg)"@),
        ("e"@, "prev word end"@),
        ("u"@, "lowercase…"@),
        ("U"@, "uppercase…"@),
        ("c"@, "toggle comment…"@),
    ]
}

fn make_g_menu() -> (r: Vec<(&'static str, &'static str)>)
    ensures
        hints_of(r@) == g_menu(),
        r@.len() <= 64,
{
    let r = vec![
        ("g", "first line (gg)"),
        ("e", "prev word end"),
        ("u", "lowercase…"),
        ("U", "uppercase…"),
        ("c", "toggle comment…"),
    ];
    assert(hints_of(r@) =~= g_menu());
    r
}

/// Which-key hints after z.
pub open spec fn z_menu() -> Seq<Hint> {
    seq![
        ("z"@, "center cursor line"@),
        ("t"@, "cursor line to top"@),
        ("b"@, "cursor line to bottom"@),
    ]
}

fn make_z_menu() -> (r: Vec<(&'static str, &'static str)>)
    ensures
        hints_of(r@) == z_menu(),
        r@.len() <= 64,
{
    let r = vec![
        ("z", "center cursor line"),
        ("t", "cursor line to top"),
        ("b", "cursor line to bottom"),
    ];
    assert(hints_of(r@) =~= z_menu());
    r
}

/// Which-key hints after Ctrl+w.
pub open spec fn ctrl_w_menu() -> Seq<Hint> {
    seq![
        ("s"@, "split below"@),
        ("v"@, "split right"@),
        ("w"@, "next window"@),
        ("h"@, "prev window"@),
        ("l"@, "next window"@),
        ("q"@, "close window"@),
    ]
}

fn make_ctrl_w_menu() -> (r: Vec<(&'static str, &'static str)>)
    ensures
        hints_of(r@) == ctrl_w_menu(),
        r@.len() <= 64,
{
    let r = vec![
        ("s", "split below"),
        ("v", "split right"),
        ("w", "next window"),
        ("h", "prev window"),
        ("l", "next window"),
        ("q", "close window"),
    ];
    assert(hints_of(r@) =~= ctrl_w_menu());
    r
}

/// Which-key hints after " (register select).
pub open spec fn register_menu() -> Seq<Hint> {
    seq![
        ("a-z"@, "named register"@),
        ("0"@, "last yank"@),
        ("\""@, "unnamed register"@),
    ]
}

fn make_register_menu() -> (r: Vec<(&'static str, &'static str)>)
    ensures
        hints_of(r@) == register_menu(),
        r@.len() <= 64,
{
    let r = vec![
        ("a-z", "named register"),
        ("0", "last yank"),
        ("\"", "unnamed register"),
    ];
    assert(hints_of(r@) =~= register_menu());
    r
}

/// Which-key hints after m.
pub open spec fn mark_menu() -> Seq<Hint> {
    seq![
        ("a-z"@, "set mark here"@),
    ]
}

fn make_mark_menu() -> (r: Vec<(&'static str, &'static str)>)
    ensures
        hints_of(r@) == mark_menu(),
        r@.len() <= 64,
{
    let r = vec![
        ("a-z", "set mark here"),
    ];
    assert(hints_of(r@) =~= mark_menu());
    r
}

/// Which-key hints after  or '.
pub open spec fn jump_menu() -> Seq<Hint> {
    seq![
        ("a-z"@, "jump to mark"@),
    ]
}

fn make_jump_menu() -> (r: Vec<(&'static str, &'static str)>)
    ensures
        hints_of(r@) == jump_menu(),
        r@.len() <= 64,
{
    let r = vec![
        ("a-z", "jump to mark"),
    ];
    assert(hints_of(r@) =~= jump_menu());
    r
}

/// Which-key hints after i/a in operator-pending or visual mode.
pub open spec fn object_menu() -> Seq<Hint> {
    seq![
        ("w"@, "word"@),
        ("W"@, "WORD"@),
        ("("@, "parens (also b)"@),
        ("{"@, "braces (also B)"@),
        ("["@, "brackets"@),
        ("<"@, "angle brackets"@),
        ("\""@, "double quotes"@),
        ("'"@, "single quotes"@),
        ("`"@, "backticks"@),
    ]
}

fn make_object_menu() -> (r: Vec<(&'static str, &'static str)>)
    ensures
        hints_of(r@) == object_menu(),
        r@.len() <= 64,
{
    let r = vec![
        ("w", "word"),
        ("W", "WORD"),
        ("(", "parens (also b)"),
        ("{", "braces (also B)"),
        ("[", "brackets"),
        ("<", "angle brackets"),
        ("\"", "double quotes"),
        ("'", "single quotes"),
        ("`", "backticks"),
    ];
    assert(hints_of(r@) =~= object_menu());
    r
}

/// Which-key hints after q.
pub open spec fn record_menu() -> Seq<Hint> {
    seq![
        ("a-z"@, "record into register"@),
        ("A-Z"@, "append to register"@),
    ]
}

fn make_record_menu() -> (r: Vec<(&'static str, &'static str)>)
    ensures
        hints_of(r@) == record_menu(),
        r@.len() <= 64,
{
    let r = vec![
        ("a-z", "record into register"),
        ("A-Z", "append to register"),
    ];
    assert(hints_of(r@) =~= record_menu());
    r
}

/// Which-key hints after @.
pub open spec fn play_menu() -> Seq<Hint> {
    seq![
        ("a-z"@, "replay macro"@),
        ("@"@, "repeat last replay"@),
    ]
}

fn make_play_menu() -> (r: Vec<(&'static str, &'static str)>)
    ensures
        hints_of(r@) == play_menu(),
        r@.len() <= 64,
{
    let r = vec![
        ("a-z", "replay macro"),
        ("@", "repeat last replay"),
    ];
    assert(hints_of(r@) =~= play_menu());
    r
}

/// Which-key hints after f/F/t/T.
pub open spec fn find_char_menu() -> Seq<Hint> {
    seq![
        ("a-z…"@, "any character: jump to it on this line"@),
    ]
}

fn make_find_char_menu() -> (r: Vec<(&'static str, &'static str)>)
    ensures
        hints_of(r@) == find_char_menu(),
        r@.len() <= 64,
{
    let r = vec![
        ("a-z…", "any character: jump to it on this line"),
    ];
    assert(hints_of(r@) =~= find_char_menu());
    r
}

/// Which-key hints after r.
pub open spec fn replace_char_menu() -> Seq<Hint> {
    seq![
        ("a-z…"@, "any character: overwrite with it"@),
    ]
}

fn make_replace_char_menu() -> (r: Vec<(&'static str, &'static str)>)
    ensures
        hints_of(r@) == replace_char_menu(),
        r@.len() <= 64,
{
    let r = vec![
        ("a-z…", "any character: overwrite with it"),
    ];
    assert(hints_of(r@) =~= replace_char_menu());
    r
}

/// Motions shown while an operator is pending; the doubled-key row is prepended per op.
pub open spec fn motion_menu() -> Seq<Hint> {
    seq![
        ("w e b"@, "word / end / back"@),
        ("i"@, "inside object…"@),
        ("a"@, "around object…"@),
        ("f F t T"@, "to / till char"@),
        ("$ 0 ^"@, "line end / start"@),
        ("G"@, "last line (gg first)"@),
        ("{ }"@, "paragraph back / fwd"@),
        ("%"@, "matching bracket"@),
    ]
}

fn make_motion_menu() -> (r: Vec<(&'static str, &'static str)>)
    ensures
        hints_of(r@) == motion_menu(),
        r@.len() <= 64,
{
    let r = vec![
        ("w e b", "word / end / back"),
        ("i", "inside object…"),
        ("a", "around object…"),
        ("f F t T", "to / till char"),
        ("$ 0 ^", "line end / start"),
        ("G", "last line (gg first)"),
        ("{ }", "paragraph back / fwd"),
        ("%", "matching bracket"),
    ];
    assert(hints_of(r@) =~= motion_menu());
    r
}

/// The doubled-key row of an operator's panel, and the panel's title.
pub open spec fn op_row(op: Op) -> (Seq<char>, Hint) {
    match op {
        Op::Delete => (" d"@, ("d"@, "whole line (dd)"@)),
        Op::Change => (" c"@, ("c"@, "whole line (cc)"@)),
        Op::Yank => (" y"@, ("y"@, "whole line (yy)"@)),
        Op::Indent => (" >"@, (">"@, "this line (>>)"@)),
        Op::Dedent => (" <"@, ("<"@, "this line (<<)"@)),
        Op::Lower => (" gu"@, ("u"@, "whole line (guu)"@)),
        Op::Upper => (" gU"@, ("U"@, "whole line (gUU)"@)),
        Op::Comment => (" gc"@, ("c"@, "this line (gcc)"@)),
    }
}

/// Operator-pending panel: the doubled-key row for `op` plus shared motions.
pub open spec fn op_hints(op: Op) -> HintsV {
    let (title, row) = op_row(op);
    HintsV { title, entries: seq![row] + motion_menu(), immediate: false }
}

/// Operator-pending panel: the doubled-key row for `op` plus shared motions.
fn op_menu(op: Op) -> (r: KeyHints)
    ensures
        r@ == op_hints(op),
        r.entries@.len() <= 64,
{
    let (title, doubled): (&'static str, (&'static str, &'static str)) = match op {
        Op::Delete => (" d", ("d", "whole line (dd)")),
        Op::Change => (" c", ("c", "whole line (cc)")),
        Op::Yank => (" y", ("y", "whole line (yy)")),
        Op::Indent => (" >", (">", "this line (>>)")),
        Op::Dedent => (" <", ("<", "this line (<<)")),
        Op::Lower => (" gu", ("u", "whole line (guu)")),
        Op::Upper => (" gU", ("U", "whole line (gUU)")),
        Op::Comment => (" gc", ("c", "this line (gcc)")),
    };
    let mut rest = make_motion_menu();
    let mut entries: Vec<(&'static str, &'static str)> = Vec::new();
    entries.push(doubled);
    entries.append(&mut rest);
    assert(hints_of(entries@) =~= op_hints(op).entries);
    KeyHints { title, entries, immediate: false }
}

pub open spec fn panel(title: Seq<char>, entries: Seq<Hint>, immediate: bool) -> Option<HintsV> {
    Some(HintsV { title, entries, immediate })
}

impl EngV {
    /// The panel for whatever key state is pending: leader menus, prefix chords, pending
    /// operators, text objects, registers, marks, and macros.
    pub open spec fn hints(self) -> Option<HintsV> {
        match self.awaiting {
            Await::Leader(LeaderNode::Root) => panel(" space"@, root_menu(), true),
            Await::Leader(LeaderNode::Find) => panel(" space f"@, find_menu(), true),
            Await::Leader(LeaderNode::Split) => panel(" space t"@, split_menu(), true),
            Await::Prefix(c) => if c == 'g' {
                panel(" g"@, g_menu(), false)
            } else if c == 'z' {
                panel(" z"@, z_menu(), false)
            } else {
                None
            },
            Await::CtrlW => panel(" ctrl+w"@, ctrl_w_menu(), true),
            Await::Register => panel(" \""@, register_menu(), false),
            Await::Mark => panel(" m"@, mark_menu(), false),
            Await::JumpExact => panel(" `"@, jump_menu(), false),
            Await::JumpLine => panel(" '"@, jump_menu(), false),
            Await::Object(around) => panel(
                if around {
                    " a"@
                } else {
                    " i"@
                },
                object_menu(),
                false,
            ),
            Await::Find(kind) => panel(
                if kind == 'f' {
                    " f"@
                } else if kind == 'F' {
                    " F"@
                } else if kind == 't' {
                    " t"@
                } else {
                    " T"@
                },
                find_char_menu(),
                false,
            ),
            Await::Replace => panel(" r"@, replace_char_menu(), false),
            Await::MacroReg => panel(" q"@, record_menu(), false),
            Await::MacroPlay => panel(" @"@, play_menu(), false),
            Await::Nothing => match self.op {
                Some(op) => Some(op_hints(op)),
                None => None,
            },
        }
    }
}

impl VimEngine {
    /// Which-key panel for whatever key state is pending: leader menus, prefix chords
    /// (g/z/Ctrl+w), pending operators, text objects, registers, marks, and macros.
    pub fn key_hints(&self) -> (r: Option<KeyHints>)
        ensures
            r is Some == self@.hints() is Some,
            r is Some ==> (r->0)@ == self@.hints()->0,
            r is Some ==> (r->0).entries@.len() <= 64,
    {
        let (title, entries, immediate): (
            &'static str,
            Vec<(&'static str, &'static str)>,
            bool,
        ) = match self.awaiting {
            Await::Leader(LeaderNode::Root) => (" space", make_root_menu(), true),
            Await::Leader(LeaderNode::Find) => (" space f", make_find_menu(), true),
            Await::Leader(LeaderNode::Split) => (" space t", make_split_menu(), true),
            Await::Prefix('g') => (" g", make_g_menu(), false),
            Await::Prefix('z') => (" z", make_z_menu(), false),
            Await::Prefix(_) => {
                return None;
            },
            Await::CtrlW => (" ctrl+w", make_ctrl_w_menu(), true),
            Await::Register => (" \"", make_register_menu(), false),
            Await::Mark => (" m", make_mark_menu(), false),
            Await::JumpExact => (" `", make_jump_menu(), false),
            Await::JumpLine => (" '", make_jump_menu(), false),
            Await::Object(false) => (" i", make_object_menu(), false),
            Await::Object(true) => (" a", make_object_menu(), false),
            Await::Find(kind) => {
                let title = match kind {
                    'f' => " f",
                    'F' => " F",
                    't' => " t",
                    _ => " T",
                };
                (title, make_find_char_menu(), false)
            },
            Await::Replace => (" r", make_replace_char_menu(), false),
            Await::MacroReg => (" q", make_record_menu(), false),
            Await::MacroPlay => (" @", make_play_menu(), false),
            Await::Nothing => {
                return match self.op {
                    Some(op) => Some(op_menu(op)),
                    None => None,
                };
            },
        };
        Some(KeyHints { title, entries, immediate })
    }
}

} // verus!
