//! Laws of the engine as a whole: what keys pressed one after the other come to.

use vstd::prelude::*;

use crate::rvim::buffer::{
    after_insert, clamped, line_at, max, min, pos, spliced, Pos, SnapV, TextV,
};
use crate::rvim::buffer_laws::{law_clamp_settles, law_delete_undoes_insert, law_group_is_one_step};
use crate::rvim::keys::{Await, Key, LeaderNode, Mode, MotionKind, Op, VisualKind};
use crate::rvim::state::{BufV, RegKind, RegV, StV};
use crate::rvim::vim::change::block_lines;
use crate::rvim::vim::command::World;
use crate::rvim::vim::moves::target_of;
use crate::rvim::vim::normal::Replay;
use crate::rvim::vim::operate::registers_set;
use crate::rvim::vim::{BlockV, Ed, EngV};
use crate::text::{law_split_join, lines_of, lines_times, split_on, unlines};

verus! {

impl World {
    /// Keys go to the mode in force, not to an overlay.
    pub open spec fn quiet(self) -> bool {
        !self.finder_open() && !self.explorer_has_keys()
    }

    /// Keys pressed in order.
    pub open spec fn pressed(self, keys: Seq<Key>) -> World
        decreases keys.len(),
    {
        if keys.len() == 0 {
            self
        } else {
            self.pressed(keys.drop_last()).keyed(keys.last())
        }
    }
}

/// A mode in which keys type text.
pub open spec fn typing(m: Mode) -> bool {
    m == Mode::Insert || m == Mode::Replace
}

/// A normal-mode key that starts typing.
pub open spec fn starts_typing(c: char) -> bool {
    c == 'i' || c == 'a' || c == 'I' || c == 'A' || c == 'o' || c == 'O' || c == 'R'
}

/// What pressing a key comes to where nothing is replayed: what it does, the cursor moved into
/// the text, and bookkeeping.
proof fn lemma_keyed(w: World, key: Key)
    requires
        w.quiet(),
        w.eng(w.d.e.recorded(key).buffered(key, w.d.s.version())).dispatched(key).1
            == Replay::Nothing,
    ensures
        ({
            let x = w.eng(w.d.e.recorded(key).buffered(key, w.d.s.version())).dispatched(key).0;
            let z = w.keyed(key);
            &&& z.d.s == x.d.settled().s
            &&& z.v == x.v
            &&& z.d.e.mode == x.d.e.mode
            &&& z.d.e.idle() == x.d.e.idle()
            &&& z.d.e.awaiting == x.d.e.awaiting
            &&& z.d.e.op == x.d.e.op
            &&& z.d.e.insert_j == x.d.e.insert_j
            &&& z.d.e.search_origin == x.d.e.search_origin
            &&& z.d.e.search_prev == x.d.e.search_prev
            &&& z.d.e.block_insert == x.d.e.block_insert
        }),
{
    reveal(EngV::recorded);
    reveal(EngV::buffered);
    reveal(EngV::concluded);
    reveal(Ed::settled);
    let r = w.eng(w.d.e.recorded(key));
    assert(r.quiet());
    assert(w.keyed(key) == r.mode_handled(key, w.depth(), !w.d.e.repeating));
    assert(r.eng(r.d.e.buffered(key, r.d.s.version())) == w.eng(
        w.d.e.recorded(key).buffered(key, w.d.s.version()),
    ));
}

/// Escape, like Ctrl+c, leads back to normal mode, from a selection as long as no key of it is
/// being waited for.
pub proof fn law_escape(w: World, key: Key)
    requires
        w.wf(),
        w.quiet(),
        key == Key::Esc || key == Key::Ctrl('c'),
        w.d.e.mode is Visual ==> w.d.e.awaiting == Await::Nothing,
    ensures
        w.keyed(key).d.e.mode == Mode::Normal,
{
    reveal(EngV::recorded);
    reveal(EngV::buffered);
    let x = w.eng(w.d.e.recorded(key).buffered(key, w.d.s.version()));
    assert(x.d.e.mode == w.d.e.mode && x.d.e.awaiting == w.d.e.awaiting);
    assert(x.dispatched(key).1 == Replay::Nothing && x.dispatched(key).0.d.e.mode
        == Mode::Normal) by {
        reveal(World::dispatched);
        if x.d.e.mode is Normal {
            lemma_escape_normal(x, key);
        }
        if x.d.e.mode is Visual {
            lemma_escape_visual(x.d, key);
        }
        reveal(Ed::insert_keyed);
        reveal(Ed::replace_keyed);
        reveal(Ed::left_insert);
        reveal(Ed::block_finished);
        reveal(Ed::search_keyed);
        reveal(Ed::search_dropped);
    }
    lemma_keyed(w, key);
}

proof fn lemma_escape_visual(d: Ed, key: Key)
    requires
        key == Key::Esc || key == Key::Ctrl('c'),
        d.e.awaiting == Await::Nothing,
    ensures
        forall|kind: VisualKind|
            (#[trigger] d.visual_keyed(key, kind)).e.mode == Mode::Normal,
{
    reveal(Ed::visual_command);
}

proof fn lemma_escape_awaited(w: World, a: Await, key: Key)
    requires
        w.d.e.mode == Mode::Normal,
        key == Key::Esc || key == Key::Ctrl('c'),
    ensures
        w.normal_awaited(a, key).1 == Replay::Nothing,
        w.normal_awaited(a, key).0.d.e.mode == Mode::Normal,
{
    reveal(World::normal_awaited);
    reveal(Ed::mark_jumped);
    reveal(Ed::g_keyed);
    reveal(Ed::ctrl_w_keyed);
    lemma_escape_leader(w, key);
}

proof fn lemma_escape_leader(w: World, key: Key)
    requires
        w.d.e.mode == Mode::Normal,
        key == Key::Esc || key == Key::Ctrl('c'),
    ensures
        forall|node: LeaderNode| (#[trigger] w.leader_keyed(node, key)).d.e.mode == Mode::Normal,
{
    reveal(World::leader_keyed);
    reveal(World::leader_root);
}

proof fn lemma_escape_normal(w: World, key: Key)
    requires
        w.d.e.mode == Mode::Normal,
        key == Key::Esc || key == Key::Ctrl('c'),
    ensures
        w.normal_keyed(key).1 == Replay::Nothing,
        w.normal_keyed(key).0.d.e.mode == Mode::Normal,
{
    let a = w.d.e.awaiting;
    let f = w.on(w.d.waiting(Await::Nothing));
    lemma_escape_awaited(f, a, key);
    lemma_escape_leader(f, key);
    assert(f.normal_fresh(key) == (f.on(f.d.other_keyed(key)), Replay::Nothing)) by {
        reveal(Ed::grammar_keyed);
        reveal(Ed::motioned);
        reveal(target_of);
        reveal(Ed::change_keyed);
        reveal(Ed::mode_keyed);
        reveal(Ed::seek_keyed);
    }
    assert(f.d.other_keyed(key).e.mode == Mode::Normal) by {
        reveal(Ed::other_keyed);
    }
    assert(f.dashboard_keyed(a, key).d.e.mode == Mode::Normal) by {
        reveal(World::dashboard_keyed);
    }
}

/// A text that is edited inside a group, or not at all.
spec fn grows(t: TextV, u: TextV) -> bool {
    t.group is Some ==> u.group == t.group
}

proof fn lemma_block_lines_grow(t: TextV, bi: BlockV, typed: Seq<char>, n: int)
    ensures
        grows(t, block_lines(t, bi, typed, n)),
    decreases n,
{
    reveal(TextV::text_inserted);
    reveal(TextV::line_set);
    if n > 0 {
        lemma_block_lines_grow(t, bi, typed, n - 1);
    }
}

/// A key that types does so inside the undo group that is open.
proof fn lemma_typing_grows(d: Ed, key: Key)
    requires
        d.has(),
        0 <= d.s.active(),
        typing(d.e.mode),
    ensures
        ({
            let x = if d.e.mode == Mode::Insert {
                d.insert_keyed(key)
            } else {
                d.replace_keyed(key)
            };
            typing(x.e.mode) ==> {
                &&& x.has()
                &&& x.s == d.s.with_buf(x.buf())
                &&& grows(d.buf().text, x.buf().text)
            }
        }),
{
    reveal(Ed::insert_keyed);
    reveal(Ed::replace_keyed);
    reveal(Ed::left_insert);
    reveal(TextV::text_inserted);
    reveal(TextV::range_deleted);
    reveal(TextV::char_replaced);
}

/// What typing keeps: the mode is one of typing, the focused buffer has the undo group, and
/// keys go to the mode.
spec fn in_session(w: World, group: (SnapV, u64)) -> bool {
    &&& w.quiet()
    &&& w.d.has()
    &&& 0 <= w.d.s.active()
    &&& typing(w.d.e.mode)
    &&& w.d.buf().text.group == Some(group)
}

proof fn lemma_session_step(w: World, group: (SnapV, u64), key: Key)
    requires
        in_session(w, group),
        typing(w.keyed(key).d.e.mode),
    ensures
        in_session(w.keyed(key), group),
{
    let x = w.eng(w.d.e.recorded(key).buffered(key, w.d.s.version()));
    reveal(EngV::recorded);
    reveal(EngV::buffered);
    reveal(World::dispatched);
    lemma_typing_grows(x.d, key);
    lemma_keyed(w, key);
    reveal(Ed::settled);
}

proof fn lemma_session(w: World, group: (SnapV, u64), keys: Seq<Key>)
    requires
        in_session(w, group),
        forall|n: int| 0 <= n <= keys.len() ==> typing(
            (#[trigger] w.pressed(keys.take(n))).d.e.mode,
        ),
    ensures
        in_session(w.pressed(keys), group),
    decreases keys.len(),
{
    if keys.len() > 0 {
        let init = keys.drop_last();
        assert forall|n: int| 0 <= n <= init.len() implies typing(
            (#[trigger] w.pressed(init.take(n))).d.e.mode,
        ) by {
            assert(init.take(n) =~= keys.take(n));
        }
        lemma_session(w, group, init);
        assert(keys.take(keys.len() as int) =~= keys);
        lemma_session_step(w.pressed(init), group, keys.last());
    }
}

/// Leaving closes the group.
proof fn lemma_session_left(w: World, group: (SnapV, u64))
    requires
        in_session(w, group),
    ensures
        ({
            let z = w.keyed(Key::Esc);
            &&& z.quiet()
            &&& z.d.has()
            &&& 0 <= z.d.s.active()
            &&& z.d.e.mode == Mode::Normal
            &&& z.d.e.idle()
            &&& exists|t: TextV| #[trigger]
                t.group_ended() == z.d.buf().text && t.group == Some(group)
        }),
{
    let key = Key::Esc;
    let x = w.eng(w.d.e.recorded(key).buffered(key, w.d.s.version()));
    reveal(EngV::recorded);
    reveal(EngV::buffered);
    reveal(World::dispatched);
    reveal(Ed::insert_keyed);
    reveal(Ed::replace_keyed);
    reveal(Ed::left_insert);
    reveal(Ed::block_finished);
    reveal(Ed::settled);
    let f = x.d.block_finished();
    assert(f.has() && f.s == x.d.s.with_buf(f.buf()) && f.buf().text.group == Some(group)) by {
        if x.d.e.block_insert is Some {
            let bi = x.d.e.block_insert->0;
            let b = x.d.buf();
            let line = line_at(b.text.lines, bi.start.line);
            let s = min(bi.start.col, line.len() as int);
            let e = min(b.cursor.col, line.len() as int);
            let last = min(bi.bot, b.text.lines.len() - 1);
            lemma_block_lines_grow(b.text, bi, line.subrange(s, e), last - bi.top + 1);
        }
        assert(x.d.s.with_buf(x.d.buf()) =~= x.d.s);
    }
    lemma_keyed(w, key);
    assert(f.buf().text.group_ended() == w.keyed(key).d.buf().text);
}

/// A key in normal mode with nothing typed before it.
proof fn lemma_fresh_key(w: World, key: Key)
    requires
        w.quiet(),
        w.d.has(),
        w.d.e.mode == Mode::Normal,
        w.d.e.awaiting == Await::Nothing,
    ensures
        ({
            let x = w.eng(w.d.e.recorded(key).buffered(key, w.d.s.version()));
            &&& x.dispatched(key) == x.normal_fresh(key)
            &&& x.d.s == w.d.s
            &&& x.d.e.mode == Mode::Normal
            &&& x.d.e.awaiting == Await::Nothing
            &&& x.d.e.op == w.d.e.op
            &&& x.d.e.count == w.d.e.count
            &&& x.d.e.opcount == w.d.e.opcount
            &&& x.d.e.idle() == w.d.e.idle()
        }),
{
    reveal(EngV::recorded);
    reveal(EngV::buffered);
    reveal(World::dispatched);
    let x = w.eng(w.d.e.recorded(key).buffered(key, w.d.s.version()));
    assert(x.on(x.d.waiting(Await::Nothing)) == x);
}

/// Normal mode over a buffer with nothing typed.
spec fn rested(w: World) -> bool {
    &&& w.quiet()
    &&& w.d.has()
    &&& 0 <= w.d.s.active()
    &&& w.d.e.mode == Mode::Normal
    &&& w.d.e.idle()
}

proof fn lemma_undo_key(w: World)
    requires
        rested(w),
    ensures
        w.keyed(Key::Char('u')).d.buf().text == w.d.buf().text.undone(w.d.buf().cursor),
        rested(w.keyed(Key::Char('u'))),
{
    let key = Key::Char('u');
    let x = w.eng(w.d.e.recorded(key).buffered(key, w.d.s.version()));
    lemma_fresh_key(w, key);
    assert(x.normal_fresh(key) == (x.on(x.d.did_undo()), Replay::Nothing)) by {
        reveal(Ed::grammar_keyed);
        reveal(Ed::motioned);
        reveal(target_of);
        reveal(Ed::change_keyed);
    }
    lemma_keyed(w, key);
    assert(x.d.e.total() == 1) by {
        assert(max(x.d.e.count, 1) == 1 && max(x.d.e.opcount, 1) == 1);
        assert(1int * 1 == 1);
    }
    reveal(Ed::did_undo);
    reveal(Ed::settled);
    reveal_with_fuel(BufV::undone, 2);
    reveal(TextV::undo_cursor);
}

proof fn lemma_redo_key(w: World)
    requires
        rested(w),
    ensures
        w.keyed(Key::Ctrl('r')).d.buf().text == w.d.buf().text.redone(w.d.buf().cursor),
        rested(w.keyed(Key::Ctrl('r'))),
{
    let key = Key::Ctrl('r');
    let x = w.eng(w.d.e.recorded(key).buffered(key, w.d.s.version()));
    lemma_fresh_key(w, key);
    assert(x.normal_fresh(key) == (x.on(x.d.did_redo()), Replay::Nothing)) by {
        reveal(Ed::grammar_keyed);
        reveal(Ed::motioned);
        reveal(target_of);
        reveal(Ed::change_keyed);
    }
    lemma_keyed(w, key);
    assert(x.d.e.total() == 1) by {
        assert(max(x.d.e.count, 1) == 1 && max(x.d.e.opcount, 1) == 1);
        assert(1int * 1 == 1);
    }
    reveal(Ed::did_redo);
    reveal(Ed::settled);
    reveal_with_fuel(BufV::redone, 2);
    reveal(TextV::redo_cursor);
}

/// Redoing what was just undone restores it, and undoing it once more takes it back again.
pub proof fn law_redo_undoes_undo(w: World)
    requires
        w.wf(),
        w.quiet(),
        w.d.has(),
        w.d.e.mode == Mode::Normal,
        w.d.e.idle(),
        w.d.buf().text.group is None,
        w.d.buf().text.undo.len() > 0,
    ensures
        ({
            let u = w.keyed(Key::Char('u'));
            let r = u.keyed(Key::Ctrl('r'));
            &&& r.d.buf().text.lines == w.d.buf().text.lines
            &&& r.keyed(Key::Char('u')).d.buf().text.lines == u.d.buf().text.lines
        }),
{
    assert(rested(w));
    lemma_undo_key(w);
    let u = w.keyed(Key::Char('u'));
    lemma_redo_key(u);
    let r = u.keyed(Key::Ctrl('r'));
    lemma_undo_key(r);
    reveal(TextV::group_ended);
    reveal(TextV::undone);
    reveal(TextV::redone);
    assert(r.d.buf().text.undo.last().lines == u.d.buf().text.lines);
}

/// A key that starts typing opens an undo group at the cursor.
proof fn lemma_group_opened(d: Ed, c: char)
    requires
        d.has(),
        0 <= d.s.active(),
        d.e.idle(),
        d.buf().text.group is None,
        starts_typing(c),
    ensures
        ({
            let r = if c == 'R' {
                d.change_keyed(Key::Char(c))
            } else {
                d.mode_keyed(Key::Char(c))
            };
            let x = r->0;
            &&& r is Some
            &&& typing(x.e.mode)
            &&& x.has()
            &&& x.s == d.s.with_buf(x.buf())
            &&& x.buf().text.group == Some((d.buf().text.snap(d.buf().cursor), d.buf().text.version))
        }),
{
    reveal(TextV::group_begun);
    if c == 'R' {
        reveal(Ed::change_keyed);
    } else if c == 'o' || c == 'O' {
        reveal(Ed::mode_keyed);
        reveal(Ed::opened_line);
        reveal(TextV::lines_inserted);
    } else {
        reveal(Ed::mode_keyed);
        reveal(Ed::insert_at);
    }
}

#[verifier::rlimit(30)]
proof fn lemma_session_started(w: World, c: char)
    requires
        rested(w),
        w.d.buf().text.group is None,
        starts_typing(c),
    ensures
        in_session(
            w.keyed(Key::Char(c)),
            (w.d.buf().text.snap(w.d.buf().cursor), w.d.buf().text.version),
        ),
{
    let key = Key::Char(c);
    let x = w.eng(w.d.e.recorded(key).buffered(key, w.d.s.version()));
    lemma_fresh_key(w, key);
    lemma_group_opened(x.d, c);
    let d = if c == 'R' {
        x.d.change_keyed(key)->0
    } else {
        x.d.mode_keyed(key)->0
    };
    assert(x.normal_fresh(key) == (x.on(d), Replay::Nothing)) by {
        assert(x.d.grammar_keyed(key) is None) by {
            reveal(Ed::grammar_keyed);
        }
        assert(x.d.motioned(key) is None) by {
            reveal(Ed::motioned);
            reveal(target_of);
        }
        if c != 'R' {
            assert(x.d.change_keyed(key) is None) by {
                reveal(Ed::change_keyed);
            }
        }
    }
    lemma_keyed(w, key);
    reveal(Ed::settled);
}

/// However long one types, one undo takes all of it back: `enter` starts typing, `keys` are
/// typed, and Escape ends it. (Where nothing changed there is nothing to take back.)
pub proof fn law_session_is_one_undo(w: World, enter: char, keys: Seq<Key>)
    requires
        w.wf(),
        w.quiet(),
        w.d.has(),
        w.d.e.mode == Mode::Normal,
        w.d.e.idle(),
        w.d.buf().text.group is None,
        starts_typing(enter),
        forall|n: int| 0 <= n <= keys.len() ==> typing(
            (#[trigger] w.keyed(Key::Char(enter)).pressed(keys.take(n))).d.e.mode,
        ),
    ensures
        ({
            let x = w.keyed(Key::Char(enter)).pressed(keys).keyed(Key::Esc);
            let y = x.keyed(Key::Char('u'));
            &&& x.d.e.mode == Mode::Normal
            &&& x.d.buf().text.version != w.d.buf().text.version ==> y.d.buf().text.lines
                == w.d.buf().text.lines
        }),
{
    let b = w.d.buf();
    let group = (b.text.snap(b.cursor), b.text.version);
    let s = w.keyed(Key::Char(enter));
    assert(0 <= w.d.s.active());
    lemma_session_started(w, enter);
    lemma_session(s, group, keys);
    lemma_session_left(s.pressed(keys), group);
    let x = s.pressed(keys).keyed(Key::Esc);
    lemma_undo_key(x);
    if x.d.buf().text.version != b.text.version {
        let t = choose|t: TextV| #[trigger]
            t.group_ended() == x.d.buf().text && t.group == Some(group);
        reveal(TextV::group_begun);
        assert(t.version == x.d.buf().text.version) by {
            reveal(TextV::group_ended);
        }
        law_group_is_one_step(b.text, b.cursor, t, x.d.buf().cursor);
    }
}

/// A motion key.
pub open spec fn is_motion(key: Key) -> bool {
    match key {
        Key::Left | Key::Right | Key::Up | Key::Down | Key::Home | Key::End => true,
        Key::Char(c) => c == 'h' || c == 'j' || c == 'k' || c == 'l' || c == '0' || c == '^' || c
            == '$' || c == 'G' || c == 'w' || c == 'W' || c == 'e' || c == 'E' || c == 'b' || c
            == 'B' || c == '{' || c == '}' || c == '%' || c == 'f' || c == 'F' || c == 't' || c
            == 'T' || c == ';' || c == ',',
        _ => false,
    }
}

/// Every buffer holds the same text.
pub open spec fn same_texts(a: StV, b: StV) -> bool {
    a.buffers.len() == b.buffers.len() && forall|i: int|
        0 <= i < a.buffers.len() ==> (#[trigger] b.buffers[i]).text == a.buffers[i].text
}

proof fn lemma_moved_keeps(d: Ed, target: Pos, kind: MotionKind, set_desired: bool)
    requires
        d.has(),
        0 <= d.s.active(),
        d.e.op is None || d.e.op == Some(Op::Yank),
    ensures
        same_texts(d.s, d.moved(target, kind, set_desired).s),
        d.moved(target, kind, set_desired).has(),
        d.moved(target, kind, set_desired).s.active() == d.s.active(),
        d.e.op is None ==> d.moved(target, kind, set_desired).s.registers == d.s.registers,
{
    reveal(Ed::moved);
    reveal(Ed::operated);
    reveal(Ed::linewise);
    reveal(Ed::charwise);
}

proof fn lemma_found_keeps(d: Ed, kind: char, target: char)
    requires
        d.has(),
        0 <= d.s.active(),
        d.e.op is None || d.e.op == Some(Op::Yank),
    ensures
        same_texts(d.s, d.did_find(kind, target).s),
        d.did_find(kind, target).s.active() == d.s.active(),
        d.e.op is None ==> d.did_find(kind, target).s.registers == d.s.registers,
{
    reveal(Ed::did_find);
    assert forall|p: Pos, k: MotionKind| same_texts(d.s, (#[trigger] d.moved(p, k, true)).s)
        && d.moved(p, k, true).s.active() == d.s.active() && (d.e.op is None ==> d.moved(
        p,
        k,
        true,
    ).s.registers == d.s.registers) by {
        lemma_moved_keeps(d, p, k, true);
    }
}

proof fn lemma_motion_keeps(d: Ed, key: Key)
    requires
        d.has(),
        0 <= d.s.active(),
        d.e.op is None || d.e.op == Some(Op::Yank),
        is_motion(key),
    ensures
        d.motioned(key) is Some,
        same_texts(d.s, (d.motioned(key)->0).s),
        (d.motioned(key)->0).s.active() == d.s.active(),
        d.e.op is None ==> (d.motioned(key)->0).s.registers == d.s.registers,
{
    match target_of(d.e, d.buf(), key) {
        Some((p, kind, set)) => {
            lemma_moved_keeps(d, p, kind, set);
            reveal(Ed::motioned);
        },
        None => {
            assert(d.motioned(key) is Some) by {
                reveal(Ed::motioned);
                reveal(target_of);
            }
            assert forall|k: char, c: char| same_texts(d.s, (#[trigger] d.did_find(k, c)).s)
                && d.did_find(k, c).s.active() == d.s.active() && (d.e.op is None ==> d.did_find(
                k,
                c,
            ).s.registers == d.s.registers) by {
                lemma_found_keeps(d, k, c);
            }
            reveal(Ed::motioned);
        },
    }
}

/// A motion, by itself or under y, changes no text; by itself it leaves the registers alone.
pub proof fn law_motion_keeps_text(w: World, key: Key)
    requires
        w.wf(),
        w.quiet(),
        w.d.has(),
        w.d.e.mode == Mode::Normal,
        w.d.e.awaiting == Await::Nothing,
        w.d.e.op is None || w.d.e.op == Some(Op::Yank),
        is_motion(key),
    ensures
        same_texts(w.d.s, w.keyed(key).d.s),
        w.d.e.op is None ==> w.keyed(key).d.s.registers == w.d.s.registers,
{
    let x = w.eng(w.d.e.recorded(key).buffered(key, w.d.s.version()));
    lemma_fresh_key(w, key);
    lemma_motion_keeps(x.d, key);
    let r = x.normal_fresh(key);
    assert(r.1 == Replay::Nothing && same_texts(x.d.s, r.0.d.s) && r.0.d.s.active()
        == x.d.s.active() && (x.d.e.op is None ==> r.0.d.s.registers == x.d.s.registers)) by {
        reveal(Ed::grammar_keyed);
    }
    lemma_keyed(w, key);
    reveal(Ed::settled);
}

/// A delete leaves the last plain yank in its register; the unnamed one has what came last.
pub proof fn law_yank_register(s: StV, text: Seq<char>, kind: RegKind)
    requires
        text.len() > 0 || kind != RegKind::Char,
    ensures
        ({
            let y = registers_set(s, None, text, kind, true).registers;
            let d = registers_set(s, None, text, kind, false).registers;
            let r = RegV { text, kind };
            &&& y.contains_key('0') && y['0'] == r
            &&& y.contains_key('"') && y['"'] == r
            &&& d.contains_key('"') && d['"'] == r
            &&& d.contains_key('0') == s.registers.contains_key('0')
            &&& d['0'] == s.registers['0']
        }),
{
}

/// Lines taken out, with what is left, where the cursor is and what the register has.
proof fn lemma_lines_cut(d: Ed, first: int, last: int)
    requires
        d.has(),
        0 <= d.s.active(),
        d.e.reg is None,
        d.buf().text.group is None,
        0 <= first <= last < d.buf().text.lines.len(),
        last < d.buf().text.lines.len() - 1 || first > 0,
    ensures
        ({
            let ls = d.buf().text.lines;
            let x = d.linewise(Op::Delete, first, last);
            &&& x.has()
            &&& x.s.active() == d.s.active()
            &&& x.e == d.e
            &&& x.buf().text.lines == spliced(ls, first, last - first + 1, Seq::empty())
            &&& x.buf().text.group is None
            &&& x.buf().cursor.line == min(first, ls.len() - (last - first + 1) - 1)
            &&& x.s.registers.contains_key('"')
            &&& x.s.registers['"'] == (RegV {
                text: unlines(ls.subrange(first, last + 1)),
                kind: RegKind::Line,
            })
        }),
{
    reveal(Ed::linewise);
    reveal(TextV::lines_deleted);
    reveal(TextV::lines_text);
}

/// Lines put before or after the cursor's.
proof fn lemma_lines_put(b: BufV, r: RegV, taken: Seq<Seq<char>>, after: bool)
    requires
        r.kind == RegKind::Line,
        lines_of(r.text) == taken,
        taken.len() > 0,
        b.text.group is None,
        0 <= b.cursor.line < b.text.lines.len(),
    ensures
        b.pasted(r, 1, after).text.lines == spliced(
            b.text.lines,
            if after {
                b.cursor.line + 1
            } else {
                b.cursor.line
            },
            0,
            taken,
        ),
{
    reveal_with_fuel(lines_times, 2);
    assert(lines_times(taken, 1) =~= taken);
    reveal(TextV::group_begun);
    reveal(TextV::group_ended);
    reveal(TextV::lines_inserted);
}

/// Deleted lines put back: before the cursor where lines were left below them, else after it.
/// (A register that holds an empty text is not put.)
pub proof fn law_lines_put_back(d: Ed, first: int, last: int)
    requires
        d.wf(),
        d.has(),
        d.e.reg is None,
        d.e.count == 0,
        d.e.opcount == 0,
        d.buf().text.group is None,
        0 <= first <= last < d.buf().text.lines.len(),
        last < d.buf().text.lines.len() - 1 || first > 0,
        unlines(d.buf().text.lines.subrange(first, last + 1)).len() > 0,
        forall|i: int|
            0 <= i < d.buf().text.lines.len() ==> !(#[trigger] d.buf().text.lines[i]).contains(
                '\n',
            ),
    ensures
        d.linewise(Op::Delete, first, last).did_paste(
            last == d.buf().text.lines.len() - 1,
        ).buf().text.lines == d.buf().text.lines,
{
    let ls = d.buf().text.lines;
    let x = d.linewise(Op::Delete, first, last);
    let taken = ls.subrange(first, last + 1);
    let r = RegV { text: unlines(taken), kind: RegKind::Line };
    let after = last == ls.len() - 1;
    assert(0 <= d.s.active());
    lemma_lines_cut(d, first, last);
    assert forall|i: int| 0 <= i < taken.len() implies !(#[trigger] taken[i]).contains('\n') by {
        assert(taken[i] == ls[first + i]);
    }
    law_split_join(taken, '\n');
    lemma_lines_put(x.buf(), r, taken, after);
    assert(x.e.total() == 1) by {
        assert(max(x.e.count, 1) == 1 && max(x.e.opcount, 1) == 1);
        assert(1int * 1 == 1);
    }
    assert(x.did_paste(after).buf() == x.buf().pasted(r, 1, after)) by {
        reveal(Ed::did_paste);
    }
    assert(spliced(x.buf().text.lines, first, 0, taken) =~= ls);
}

/// A char put into a text: the cursor after it is a place of the new text.
proof fn lemma_char_put(t: TextV, p: Pos, c: char)
    requires
        t.wf(),
        0 <= p.line,
        0 <= p.col,
        c != '\n',
    ensures
        ({
            let q = clamped(t.lines, p, true);
            let e = after_insert(q, seq![c]);
            &&& e == pos(q.line, q.col + 1)
            &&& 0 <= q.col
            &&& clamped(t.text_inserted(p, seq![c]).lines, e, true) == e
        }),
{
    reveal(TextV::wf);
    reveal(clamped);
    reveal(TextV::text_inserted);
    let segs = lines_of(seq![c]);
    reveal_with_fuel(split_on, 2);
    assert(seq![c].drop_last() =~= Seq::<char>::empty());
    assert(Seq::<char>::empty().push(c) =~= seq![c]);
    assert(segs =~= seq![seq![c]]);
    let q = clamped(t.lines, p, true);
    let u = t.text_inserted(p, seq![c]).lines;
    assert(u[q.line].len() == t.lines[q.line].len() + 1);
}

/// j and k typed one after the other leave insert mode, with the text as it was before them.
#[verifier::rlimit(30)]
pub proof fn law_jk_leaves(w: World)
    requires
        w.wf(),
        w.quiet(),
        w.d.has(),
        w.d.e.mode == Mode::Insert,
        w.d.e.block_insert is None,
    ensures
        ({
            let z = w.keyed(Key::Char('j')).keyed(Key::Char('k'));
            &&& z.d.e.mode == Mode::Normal
            &&& z.d.buf().text.lines == w.d.buf().text.lines
        }),
{
    reveal(EngV::recorded);
    reveal(EngV::buffered);
    reveal(World::dispatched);
    reveal(Ed::insert_keyed);
    reveal(Ed::settled);
    let j = Key::Char('j');
    let k = Key::Char('k');
    let b = w.d.buf();
    let q = clamped(b.text.lines, b.cursor, true);
    let e = after_insert(q, seq!['j']);
    assert(0 <= w.d.s.active());
    law_delete_undoes_insert(b.text, b.cursor, seq!['j']);
    lemma_char_put(b.text, b.cursor, 'j');
    lemma_keyed(w, j);
    let x = w.keyed(j);
    assert(x.d.buf().text == b.text.text_inserted(b.cursor, seq!['j']));
    assert(x.d.buf().cursor == e);
    lemma_keyed(x, k);
    reveal(Ed::left_insert);
    reveal(Ed::block_finished);
    reveal(TextV::group_ended);
}

/// What typing a search keeps: where it began, the pattern from before, and every text.
spec fn searching(w: World, from: World) -> bool {
    &&& w.quiet()
    &&& w.d.has()
    &&& w.d.s.active() == from.d.s.active()
    &&& w.d.e.mode is Search
    &&& w.d.e.search_origin == from.d.buf().cursor
    &&& w.d.e.search_prev == from.d.s.search.pattern
    &&& same_texts(from.d.s, w.d.s)
    &&& !w.d.s.explorer_focused
}

#[verifier::rlimit(30)]
proof fn lemma_search_started(w: World, c: char)
    requires
        rested(w),
        c == '/' || c == '?',
    ensures
        searching(w.keyed(Key::Char(c)), w),
{
    let key = Key::Char(c);
    let x = w.eng(w.d.e.recorded(key).buffered(key, w.d.s.version()));
    lemma_fresh_key(w, key);
    assert(x.normal_fresh(key) == (x.on(x.d.into_search(c == '?')), Replay::Nothing)) by {
        reveal(Ed::grammar_keyed);
        reveal(Ed::motioned);
        reveal(target_of);
        reveal(Ed::change_keyed);
        reveal(Ed::mode_keyed);
        reveal(Ed::seek_keyed);
    }
    lemma_keyed(w, key);
    reveal(Ed::into_search);
    reveal(Ed::settled);
}

#[verifier::rlimit(30)]
proof fn lemma_search_step(w: World, from: World, key: Key)
    requires
        searching(w, from),
        0 <= from.d.s.active(),
        w.keyed(key).d.e.mode is Search,
    ensures
        searching(w.keyed(key), from),
{
    reveal(EngV::recorded);
    reveal(EngV::buffered);
    reveal(World::dispatched);
    let x = w.eng(w.d.e.recorded(key).buffered(key, w.d.s.version()));
    lemma_keyed(w, key);
    let back = x.d.e.mode->backwards;
    let d = x.d.search_keyed(key, back);
    assert(d.e.mode is Search ==> d.has() && d.s.active() == x.d.s.active() && same_texts(
        x.d.s,
        d.s,
    ) && d.e.search_origin == x.d.e.search_origin && d.e.search_prev == x.d.e.search_prev
        && d.s.finder == x.d.s.finder && d.s.explorer_focused == x.d.s.explorer_focused) by {
        reveal(Ed::search_keyed);
        reveal(Ed::search_dropped);
        reveal(Ed::search_committed);
        reveal(Ed::jumped);
        reveal(Ed::previewed);
    }
    reveal(Ed::settled);
}

proof fn lemma_search_typed(w: World, from: World, keys: Seq<Key>)
    requires
        searching(w, from),
        0 <= from.d.s.active(),
        forall|n: int| 0 <= n <= keys.len() ==> (#[trigger] w.pressed(keys.take(n))).d.e.mode
            is Search,
    ensures
        searching(w.pressed(keys), from),
    decreases keys.len(),
{
    if keys.len() > 0 {
        let init = keys.drop_last();
        assert forall|n: int| 0 <= n <= init.len() implies (#[trigger] w.pressed(
            init.take(n),
        )).d.e.mode is Search by {
            assert(init.take(n) =~= keys.take(n));
        }
        lemma_search_typed(w, from, init);
        assert(keys.take(keys.len() as int) =~= keys);
        lemma_search_step(w.pressed(init), from, keys.last());
    }
}

/// The search line left: mode, cursor and pattern as they were, and the texts.
spec fn given_up(d: Ed, from: World) -> bool {
    &&& d.e.mode == Mode::Normal
    &&& d.has()
    &&& d.s.active() == from.d.s.active()
    &&& d.buf().cursor == clamped(from.d.buf().text.lines, from.d.buf().cursor, false)
    &&& d.s.search.pattern == from.d.s.search.pattern
    &&& same_texts(from.d.s, d.s)
}

proof fn lemma_search_dropped(d: Ed, from: World, backwards: bool)
    requires
        d.has(),
        d.s.active() == from.d.s.active(),
        0 <= from.d.s.active(),
        d.e.search_origin == from.d.buf().cursor,
        d.e.search_prev == from.d.s.search.pattern,
        same_texts(from.d.s, d.s),
    ensures
        given_up(d.search_keyed(Key::Esc, backwards), from),
{
    reveal(Ed::search_keyed);
    reveal(Ed::search_dropped);
}

proof fn lemma_search_left(w: World, from: World)
    requires
        from.wf(),
        from.d.has(),
        searching(w, from),
    ensures
        given_up(w.keyed(Key::Esc).d, from),
{
    let key = Key::Esc;
    let x = w.eng(w.d.e.recorded(key).buffered(key, w.d.s.version()));
    let back = x.d.e.mode->backwards;
    assert(x.dispatched(key) == (x.on(x.d.search_keyed(key, back)), Replay::Nothing)) by {
        reveal(EngV::recorded);
        reveal(EngV::buffered);
        reveal(World::dispatched);
    }
    assert(given_up(x.d.search_keyed(key, back), from)) by {
        reveal(EngV::recorded);
        reveal(EngV::buffered);
        lemma_search_dropped(x.d, from, back);
    }
    lemma_keyed(w, key);
    law_clamp_settles(from.d.buf().text, from.d.buf().cursor, false);
    reveal(Ed::settled);
}

/// A search given up leaves nothing behind: the cursor is back where it began, the pattern from
/// before is in force again, and no text has changed.
pub proof fn law_search_given_up(w: World, c: char, keys: Seq<Key>)
    requires
        w.wf(),
        w.quiet(),
        w.d.has(),
        w.d.e.mode == Mode::Normal,
        w.d.e.idle(),
        c == '/' || c == '?',
        forall|n: int| 0 <= n <= keys.len() ==> (#[trigger] w.keyed(Key::Char(c)).pressed(
            keys.take(n),
        )).d.e.mode is Search,
    ensures
        ({
            let z = w.keyed(Key::Char(c)).pressed(keys).keyed(Key::Esc);
            &&& z.d.e.mode == Mode::Normal
            &&& z.d.buf().cursor == clamped(w.d.buf().text.lines, w.d.buf().cursor, false)
            &&& z.d.s.search.pattern == w.d.s.search.pattern
            &&& same_texts(w.d.s, z.d.s)
        }),
{
    assert(0 <= w.d.s.active());
    lemma_search_started(w, c);
    lemma_search_typed(w.keyed(Key::Char(c)), w, keys);
    lemma_search_left(w.keyed(Key::Char(c)).pressed(keys), w);
}

} // verus!
