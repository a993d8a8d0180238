//! Keys in: routing to the overlays and modes, dot-repeat and macros.

use vstd::prelude::*;

use crate::host::HostHandle;
use crate::rvim::explorer::{action_applied, apply_action};
use crate::rvim::finder::{FinderAction, FinderActionV, FinderTarget};
use crate::rvim::fs::Vfs;
use crate::rvim::keys::{Key, Mode, MAX_MACRO_STEPS, MAX_REPEAT, MAX_REPLAY_DEPTH};
use crate::rvim::state::{buffer_named, EditorState, StV};
use crate::rvim::vim::command::{world, World};
use crate::rvim::vim::normal::{copy_keys, Replay};
use crate::rvim::vim::{ed, same_replay, Ed, EngV, VimEngine};
use crate::text::cat;

verus! {

/// Keys that start an action dot-repeat does not take up.
pub open spec fn starts_norepeat(key: Key) -> bool {
    match key {
        Key::Char(c) => c == 'u' || c == '.' || c == ':' || c == '/' || c == '?' || c == 'n' || c
            == 'N' || c == '*' || c == '#' || c == ' ' || c == 'q' || c == '@',
        Key::Ctrl(c) => c != 'v',
        _ => false,
    }
}

impl StV {
    /// The focused buffer's version.
    pub open spec fn version(self) -> Option<u64> {
        if self.has_buf() {
            Some(self.buf().text.version)
        } else {
            None
        }
    }
}

impl EngV {
    /// A pressed key goes into the macro being recorded; replayed keys do not.
    #[verifier::opaque]
    pub open spec fn recorded(self, key: Key) -> EngV {
        match self.recording {
            Some((c, keys)) => if self.replaying {
                self
            } else {
                EngV { recording: Some((c, keys.push(key))), ..self }
            },
            None => self,
        }
    }

    /// A pressed key goes into the change in progress, which starts when nothing is typed.
    #[verifier::opaque]
    pub open spec fn buffered(self, key: Key, version: Option<u64>) -> EngV {
        if self.replaying {
            self
        } else {
            let e = if self.mode == Mode::Normal && self.idle() {
                EngV {
                    keybuf: Seq::empty(),
                    keybuf_version: match version {
                        Some(v) => v,
                        None => 0,
                    },
                    norepeat: starts_norepeat(key),
                    ..self
                }
            } else {
                self
            };
            EngV { keybuf: e.keybuf.push(key), ..e }
        }
    }

    /// A pressed key's action is over: a change becomes the one to repeat.
    #[verifier::opaque]
    pub open spec fn concluded(self, before: Option<u64>, now: Option<u64>) -> EngV {
        if !self.replaying && self.mode == Mode::Normal && self.idle() {
            let v = match now {
                Some(v) => v,
                None => 0,
            };
            if !self.norepeat && before is Some && v != self.keybuf_version {
                EngV { last_change: self.keybuf, keybuf: Seq::empty(), ..self }
            } else {
                EngV { keybuf: Seq::empty(), ..self }
            }
        } else {
            self
        }
    }
}

impl Ed {
    /// The focused buffer's cursor moved into its text.
    #[verifier::opaque]
    pub open spec fn settled(self) -> Ed {
        if self.has() {
            self.with(
                self.buf().settled(self.e.mode == Mode::Insert || self.e.mode == Mode::Replace),
            )
        } else {
            self
        }
    }
}

impl World {
    pub open spec fn eng(self, e: EngV) -> World {
        World { d: Ed { e, ..self.d }, ..self }
    }

    /// A key for the finder overlay.
    #[verifier::opaque]
    pub open spec fn finder_keyed(self, key: Key) -> World {
        let s = self.d.s;
        let f = s.finder->0;
        match f.action(key) {
            FinderActionV::Close => self.st(StV { finder: None, ..s }),
            FinderActionV::Open(name) => {
                let t = match f.target {
                    FinderTarget::Files => s.opened(self.v, name),
                    FinderTarget::Buffers => match buffer_named(s.buffers, name, 0) {
                        Some(i) => s.activated(i),
                        None => s,
                    },
                };
                self.st(StV { finder: None, ..t })
            },
            FinderActionV::Stay => self.st(StV { finder: Some(f.keyed(key)), ..s }),
        }
    }

    /// A key for the explorer sidebar.
    #[verifier::opaque]
    pub open spec fn explorer_keyed(self, key: Key) -> World {
        let s = self.d.s;
        match s.explorer {
            None => self.st(StV { explorer_focused: false, ..s }),
            Some(ex) => {
                let (x, w, action) = ex.keyed(self.v, key);
                let (t, u) = action_applied(StV { explorer: Some(x), ..s }, w, action);
                World { v: u, ..self.st(t) }
            },
        }
    }

    /// A key for the mode in force, and what it asks to be replayed.
    #[verifier::opaque]
    pub open spec fn dispatched(self, key: Key) -> (World, Replay) {
        match self.d.e.mode {
            Mode::Normal => self.normal_keyed(key),
            Mode::Visual { kind } => (self.on(self.d.visual_keyed(key, kind)), Replay::Nothing),
            Mode::Insert => (self.on(self.d.insert_keyed(key)), Replay::Nothing),
            Mode::Replace => (self.on(self.d.replace_keyed(key)), Replay::Nothing),
            Mode::Command => (self.command_keyed(key), Replay::Nothing),
            Mode::Search { backwards } => (
                self.on(self.d.search_keyed(key, backwards)),
                Replay::Nothing,
            ),
        }
    }

    /// The finder has the keys.
    pub open spec fn finder_open(self) -> bool {
        self.d.s.finder is Some
    }

    /// The explorer has the keys.
    pub open spec fn explorer_has_keys(self) -> bool {
        self.d.s.explorer_focused && !(self.d.e.mode is Command) && !(self.d.e.mode is Search)
    }

    /// One key through the whole machine. `depth` is how many more macros may nest, `free`
    /// tells that no change is being repeated at this macro depth.
    pub open spec fn handled(self, key: Key, depth: nat, free: bool) -> World
        decreases depth, (if free { 1nat } else { 0nat }), 9nat, 0nat,
    {
        let w = self.eng(self.d.e.recorded(key));
        if w.finder_open() {
            w.finder_keyed(key)
        } else if w.explorer_has_keys() {
            w.explorer_keyed(key)
        } else {
            w.mode_handled(key, depth, free)
        }
    }

    /// A key for the mode in force, what it replays, and the bookkeeping around it.
    pub open spec fn mode_handled(self, key: Key, depth: nat, free: bool) -> World
        decreases depth, (if free { 1nat } else { 0nat }), 8nat, 0nat,
    {
        let before = self.d.s.version();
        let (x, replay) = self.eng(self.d.e.buffered(key, before)).dispatched(key);
        let y = x.replayed(replay, depth, free);
        let z = y.on(y.d.settled());
        z.eng(z.d.e.concluded(before, z.d.s.version()))
    }

    /// What a key asks to be replayed.
    pub open spec fn replayed(self, replay: Replay, depth: nat, free: bool) -> World
        decreases depth, (if free { 1nat } else { 0nat }), 7nat, 0nat,
    {
        match replay {
            Replay::Nothing => self,
            Replay::Last(n) => self.repeated(n as int, depth, free),
            Replay::Macro(reg, n) => self.played(reg, n as int, depth, free),
        }
    }

    /// The last change replayed `n` times; a change met inside its own replay is not.
    pub open spec fn repeated(self, n: int, depth: nat, free: bool) -> World
        decreases depth, (if free { 1nat } else { 0nat }), 6nat, 0nat,
    {
        let e = self.d.e;
        if e.last_change.len() == 0 || !free {
            self
        } else {
            let times = if n <= MAX_REPEAT {
                n
            } else {
                MAX_REPEAT as int
            };
            let w = self.eng(EngV { replaying: true, repeating: true, ..e });
            let x = w.passes(e.last_change, times, depth);
            x.eng(EngV { replaying: false, repeating: false, ..x.d.e })
        }
    }

    /// Some keys `n` times over, as the replay of a change.
    pub open spec fn passes(self, keys: Seq<Key>, n: int, depth: nat) -> World
        decreases depth, 0nat, 12nat, (if n > 0 { n as nat } else { 0nat }),
    {
        if n <= 0 {
            self
        } else {
            self.passes(keys, n - 1, depth).pass(keys, keys.len() as int, depth)
        }
    }

    /// The first `n` keys in order, as the replay of a change.
    pub open spec fn pass(self, keys: Seq<Key>, n: int, depth: nat) -> World
        decreases depth, 0nat, 11nat, (if n > 0 { n as nat } else { 0nat }),
    {
        if n <= 0 {
            self
        } else {
            self.pass(keys, n - 1, depth).handled(keys[n - 1], depth, false)
        }
    }

    /// Macro `reg` replayed `n` times, bounded by nesting depth and a total key budget.
    pub open spec fn played(self, reg: char, n: int, depth: nat, free: bool) -> World
        decreases depth, (if free { 1nat } else { 0nat }), 6nat, 0nat,
    {
        let e = self.d.e;
        if !e.macros.contains_key(reg) || e.macros[reg].len() == 0 {
            self.err("E749: register @"@ + seq![reg] + " is empty"@)
        } else if depth == 0 {
            self
        } else {
            let w = self.eng(
                EngV {
                    last_macro: Some(reg),
                    replay_depth: e.replay_depth + 1,
                    replaying: true,
                    repeating: false,
                    ..e
                },
            );
            let x = w.plays(e.macros[reg], n, (depth - 1) as nat);
            x.eng(
                EngV {
                    replaying: e.replaying,
                    repeating: e.repeating,
                    replay_depth: e.replay_depth,
                    replay_steps: if e.replay_depth == 0 {
                        0
                    } else {
                        x.d.e.replay_steps
                    },
                    ..x.d.e
                },
            )
        }
    }

    /// A macro's keys `n` times over, within the key budget.
    pub open spec fn plays(self, keys: Seq<Key>, n: int, depth: nat) -> World
        decreases depth, 1nat, 12nat, (if n > 0 { n as nat } else { 0nat }),
    {
        if n <= 0 {
            self
        } else {
            self.plays(keys, n - 1, depth).play(keys, keys.len() as int, depth)
        }
    }

    /// The first `n` keys of a macro in order, within the key budget.
    pub open spec fn play(self, keys: Seq<Key>, n: int, depth: nat) -> World
        decreases depth, 1nat, 11nat, (if n > 0 { n as nat } else { 0nat }),
    {
        if n <= 0 {
            self
        } else {
            let w = self.play(keys, n - 1, depth);
            if w.d.e.replay_steps >= MAX_MACRO_STEPS {
                w
            } else {
                w.eng(EngV { replay_steps: w.d.e.replay_steps + 1, ..w.d.e }).handled(
                    keys[n - 1],
                    depth,
                    true,
                )
            }
        }
    }

    /// How many more macros may nest.
    pub open spec fn depth(self) -> nat {
        (MAX_REPLAY_DEPTH - self.d.e.replay_depth) as nat
    }

    /// One key pressed.
    pub open spec fn keyed(self, key: Key) -> World {
        self.handled(key, self.depth(), !self.d.e.repeating)
    }
}

/// With the budget spent, no more keys of a macro run.
proof fn lemma_play_spent(w: World, keys: Seq<Key>, k: int, n: int, depth: nat)
    requires
        0 <= k <= n,
        w.play(keys, k, depth).d.e.replay_steps >= MAX_MACRO_STEPS,
    ensures
        w.play(keys, n, depth) == w.play(keys, k, depth),
    decreases n - k,
{
    if k < n {
        lemma_play_spent(w, keys, k, n - 1, depth);
    }
}

/// With the budget spent, no more passes of a macro run.
proof fn lemma_plays_spent(w: World, keys: Seq<Key>, k: int, n: int, depth: nat)
    requires
        0 <= k <= n,
        w.plays(keys, k, depth).d.e.replay_steps >= MAX_MACRO_STEPS,
    ensures
        w.plays(keys, n, depth) == w.plays(keys, k, depth),
    decreases n - k,
{
    if k < n {
        lemma_plays_spent(w, keys, k, n - 1, depth);
        lemma_play_spent(w.plays(keys, n - 1, depth), keys, 0, keys.len() as int, depth);
    }
}

impl VimEngine {
    /// Feed one key through the modal state machine, mutating the editor state.
    pub fn handle_key(
        &mut self,
        st: &mut EditorState,
        vfs: &mut Vfs,
        host: &mut HostHandle,
        key: Key,
    )
        requires
            world(*old(self), *old(st), *old(vfs), *old(host)).wf(),
        ensures
            world(*final(self), *final(st), *final(vfs), *final(host)).wf(),
            world(*final(self), *final(st), *final(vfs), *final(host)) == world(
                *old(self),
                *old(st),
                *old(vfs),
                *old(host),
            ).keyed(key),
            final(self)@.replay_depth == old(self)@.replay_depth,
            final(self)@.repeating == old(self)@.repeating,
        decreases
            (MAX_REPLAY_DEPTH - old(self)@.replay_depth) as nat,
            (if old(self)@.repeating { 0nat } else { 1nat }),
            9nat,
    {
        let ghost start = world(*self, *st, *vfs, *host);
        // Macros capture pressed keys only; replayed keys regenerate at play time.
        self.record_key(key);
        let ghost w = world(*self, *st, *vfs, *host);
        assert(w == start.eng(start.d.e.recorded(key)));
        let typing = match self.mode {
            Mode::Command => true,
            Mode::Search { .. } => true,
            _ => false,
        };
        if st.finder.is_some() {
            self.finder_key(st, vfs, host, key);
        } else if st.explorer_focused && !typing {
            self.explorer_key(st, vfs, host, key);
        } else {
            self.mode_key_down(st, vfs, host, key);
        }
    }

    /// A key for the mode in force, what it replays, and the bookkeeping around it.
    fn mode_key_down(
        &mut self,
        st: &mut EditorState,
        vfs: &mut Vfs,
        host: &mut HostHandle,
        key: Key,
    )
        requires
            world(*old(self), *old(st), *old(vfs), *old(host)).wf(),
        ensures
            world(*final(self), *final(st), *final(vfs), *final(host)).wf(),
            world(*final(self), *final(st), *final(vfs), *final(host)) == world(
                *old(self),
                *old(st),
                *old(vfs),
                *old(host),
            ).mode_handled(
                key,
                world(*old(self), *old(st), *old(vfs), *old(host)).depth(),
                !old(self)@.repeating,
            ),
            final(self)@.replay_depth == old(self)@.replay_depth,
            final(self)@.repeating == old(self)@.repeating,
        decreases
            (MAX_REPLAY_DEPTH - old(self)@.replay_depth) as nat,
            (if old(self)@.repeating { 0nat } else { 1nat }),
            8nat,
    {
        let ghost w = world(*self, *st, *vfs, *host);
        let before: Option<u64> = match st.buf() {
            Some(buf) => Some(buf.text.version()),
            None => None,
        };
        self.buffer_key(key, before);
        let ghost b = world(*self, *st, *vfs, *host);
        assert(b == w.eng(w.d.e.buffered(key, w.d.s.version())));
        let replay = self.dispatch(st, vfs, host, key);
        let ghost x = world(*self, *st, *vfs, *host);
        assert((x, replay) == b.dispatched(key));
        if replay != Replay::Nothing {
            self.do_replay(st, vfs, host, replay);
        }
        let ghost y = world(*self, *st, *vfs, *host);
        assert(y == x.replayed(replay, w.depth(), !w.d.e.repeating));
        self.settle(st, host);
        let ghost z = world(*self, *st, *vfs, *host);
        assert(z == y.on(y.d.settled()));
        let now: Option<u64> = match st.buf() {
            Some(buf) => Some(buf.text.version()),
            None => None,
        };
        assert(now == z.d.s.version());
        self.conclude(before, now);
        assert(world(*self, *st, *vfs, *host) == z.eng(z.d.e.concluded(before, now)));
    }

    /// Replay what a key asks for.
    fn do_replay(
        &mut self,
        st: &mut EditorState,
        vfs: &mut Vfs,
        host: &mut HostHandle,
        replay: Replay,
    )
        requires
            world(*old(self), *old(st), *old(vfs), *old(host)).wf(),
        ensures
            world(*final(self), *final(st), *final(vfs), *final(host)).wf(),
            world(*final(self), *final(st), *final(vfs), *final(host)) == world(
                *old(self),
                *old(st),
                *old(vfs),
                *old(host),
            ).replayed(
                replay,
                world(*old(self), *old(st), *old(vfs), *old(host)).depth(),
                !old(self)@.repeating,
            ),
            final(self)@.replay_depth == old(self)@.replay_depth,
            final(self)@.repeating == old(self)@.repeating,
        decreases
            (MAX_REPLAY_DEPTH - old(self)@.replay_depth) as nat,
            (if old(self)@.repeating { 0nat } else { 1nat }),
            7nat,
    {
        match replay {
            Replay::Nothing => {},
            Replay::Last(n) => self.repeat_last(st, vfs, host, n),
            Replay::Macro(reg, n) => self.play_macro(st, vfs, host, reg, n),
        }
    }

    fn record_key(&mut self, key: Key)
        requires
            old(self)@.wf(),
        ensures
            final(self)@.wf(),
            same_replay(old(self)@, final(self)@),
            final(self)@ == old(self)@.recorded(key),
    {
        reveal(EngV::recorded);
        if !self.replaying {
            if let Some((c, keys)) = self.recording.take() {
                let mut keys = keys;
                keys.push(key);
                self.recording = Some((c, keys));
            }
        }
    }

    fn buffer_key(&mut self, key: Key, version: Option<u64>)
        requires
            old(self)@.wf(),
        ensures
            final(self)@.wf(),
            same_replay(old(self)@, final(self)@),
            final(self)@ == old(self)@.buffered(key, version),
    {
        reveal(EngV::buffered);
        if !self.replaying {
            if self.mode == Mode::Normal && self.idle() {
                self.keybuf = Vec::new();
                self.keybuf_version = match version {
                    Some(v) => v,
                    None => 0,
                };
                self.norepeat = is_norepeat(key);
            }
            self.keybuf.push(key);
        }
        assert(self@.keybuf =~= old(self)@.buffered(key, version).keybuf);
    }

    fn conclude(&mut self, before: Option<u64>, now: Option<u64>)
        requires
            old(self)@.wf(),
        ensures
            final(self)@.wf(),
            same_replay(old(self)@, final(self)@),
            final(self)@ == old(self)@.concluded(before, now),
    {
        reveal(EngV::concluded);
        if !self.replaying && self.mode == Mode::Normal && self.idle() {
            let v: u64 = match now {
                Some(v) => v,
                None => 0,
            };
            let mut keys: Vec<Key> = Vec::new();
            std::mem::swap(&mut self.keybuf, &mut keys);
            if !self.norepeat && before.is_some() && v != self.keybuf_version {
                self.last_change = keys;
            }
        }
        assert(self@ =~= old(self)@.concluded(before, now));
    }

    /// A key for the finder overlay.
    fn finder_key(
        &mut self,
        st: &mut EditorState,
        vfs: &mut Vfs,
        host: &mut HostHandle,
        key: Key,
    )
        requires
            world(*old(self), *old(st), *old(vfs), *old(host)).wf(),
            old(st)@.finder is Some,
        ensures
            same_replay(old(self)@, final(self)@),
            world(*final(self), *final(st), *final(vfs), *final(host)).wf(),
            world(*final(self), *final(st), *final(vfs), *final(host)) == world(
                *old(self),
                *old(st),
                *old(vfs),
                *old(host),
            ).finder_keyed(key),
    {
        reveal(World::finder_keyed);
        let mut finder = match st.finder.take() {
            Some(f) => f,
            None => {
                return;
            },
        };
        let target = finder.target;
        match finder.handle_key(key) {
            FinderAction::Close => {},
            FinderAction::Open(name) => {
                match target {
                    FinderTarget::Files => st.open_file(vfs, name.as_str()),
                    // Buffer picker: switch windows without touching the vfs.
                    FinderTarget::Buffers => {
                        if let Some(i) = st.find_buffer(name.as_str()) {
                            st.set_active(i);
                        }
                    },
                }
            },
            FinderAction::Stay => {
                st.finder = Some(finder);
            },
        }
    }

    /// A key for the explorer sidebar.
    fn explorer_key(
        &mut self,
        st: &mut EditorState,
        vfs: &mut Vfs,
        host: &mut HostHandle,
        key: Key,
    )
        requires
            world(*old(self), *old(st), *old(vfs), *old(host)).wf(),
        ensures
            same_replay(old(self)@, final(self)@),
            world(*final(self), *final(st), *final(vfs), *final(host)).wf(),
            world(*final(self), *final(st), *final(vfs), *final(host)) == world(
                *old(self),
                *old(st),
                *old(vfs),
                *old(host),
            ).explorer_keyed(key),
    {
        reveal(World::explorer_keyed);
        let mut ex = match st.explorer.take() {
            Some(ex) => ex,
            None => {
                st.explorer_focused = false;
                return;
            },
        };
        let action = ex.handle_key(vfs, key);
        st.explorer = Some(ex);
        apply_action(st, vfs, action);
    }

    /// A key for the mode in force; tells what it asks to be replayed.
    fn dispatch(
        &mut self,
        st: &mut EditorState,
        vfs: &mut Vfs,
        host: &mut HostHandle,
        key: Key,
    ) -> (r: Replay)
        requires
            world(*old(self), *old(st), *old(vfs), *old(host)).wf(),
        ensures
            same_replay(old(self)@, final(self)@),
            world(*final(self), *final(st), *final(vfs), *final(host)).sane(),
            (world(*final(self), *final(st), *final(vfs), *final(host)), r) == world(
                *old(self),
                *old(st),
                *old(vfs),
                *old(host),
            ).dispatched(key),
            r !is Nothing ==> world(*final(self), *final(st), *final(vfs), *final(host)).wf(),
    {
        reveal(World::dispatched);
        match self.mode {
            Mode::Normal => {
                return self.normal_key(st, vfs, host, key);
            },
            Mode::Visual { kind } => self.visual_key(st, host, key, kind),
            Mode::Insert => self.insert_key(st, host, key),
            Mode::Replace => self.replace_key(st, host, key),
            Mode::Command => self.command_key(st, vfs, host, key),
            Mode::Search { backwards } => self.search_key(st, host, key, backwards),
        }
        Replay::Nothing
    }

    /// Move the focused buffer's cursor into its text.
    fn settle(&mut self, st: &mut EditorState, host: &mut HostHandle)
        requires
            ed(*old(self), *old(st), *old(host)).sane(),
        ensures
            same_replay(old(self)@, final(self)@),
            ed(*final(self), *final(st), *final(host)).wf(),
            ed(*final(self), *final(st), *final(host)) == ed(
                *old(self),
                *old(st),
                *old(host),
            ).settled(),
    {
        reveal(Ed::settled);
        let allow_end = self.mode == Mode::Insert || self.mode == Mode::Replace;
        if let Some(buf) = st.buf_mut() {
            buf.cursor = buf.text.clamp(buf.cursor, allow_end);
        }
    }

    /// Replay the recorded last change `n` times.
    fn repeat_last(
        &mut self,
        st: &mut EditorState,
        vfs: &mut Vfs,
        host: &mut HostHandle,
        n: usize,
    )
        requires
            world(*old(self), *old(st), *old(vfs), *old(host)).wf(),
        ensures
            world(*final(self), *final(st), *final(vfs), *final(host)).wf(),
            world(*final(self), *final(st), *final(vfs), *final(host)) == world(
                *old(self),
                *old(st),
                *old(vfs),
                *old(host),
            ).repeated(
                n as int,
                world(*old(self), *old(st), *old(vfs), *old(host)).depth(),
                !old(self)@.repeating,
            ),
            final(self)@.replay_depth == old(self)@.replay_depth,
            final(self)@.repeating == old(self)@.repeating,
        decreases
            (MAX_REPLAY_DEPTH - old(self)@.replay_depth) as nat,
            (if old(self)@.repeating { 0nat } else { 1nat }),
            6nat,
    {
        if self.last_change.len() == 0 || self.repeating {
            return;
        }
        let n: usize = if n <= MAX_REPEAT {
            n
        } else {
            MAX_REPEAT
        };
        let ghost depth = (MAX_REPLAY_DEPTH - self@.replay_depth) as nat;
        let keys = copy_keys(&self.last_change);
        self.replaying = true;
        self.repeating = true;
        let ghost w = world(*self, *st, *vfs, *host);
        assert(w == world(*old(self), *old(st), *old(vfs), *old(host)).eng(
            EngV { replaying: true, repeating: true, ..old(self)@ },
        ));
        for i in 0..n
            invariant
                world(*self, *st, *vfs, *host).wf(),
                self@.replay_depth == old(self)@.replay_depth,
                self@.repeating,
                !old(self)@.repeating,
                depth == (MAX_REPLAY_DEPTH - old(self)@.replay_depth) as nat,
                world(*self, *st, *vfs, *host) == w.passes(keys@, i as int, depth),
        {
            self.repeat_pass(st, vfs, host, &keys);
        }
        self.replaying = false;
        self.repeating = false;
    }

    /// Replay the keys of a change once.
    fn repeat_pass(
        &mut self,
        st: &mut EditorState,
        vfs: &mut Vfs,
        host: &mut HostHandle,
        keys: &Vec<Key>,
    )
        requires
            world(*old(self), *old(st), *old(vfs), *old(host)).wf(),
            old(self)@.repeating,
        ensures
            world(*final(self), *final(st), *final(vfs), *final(host)).wf(),
            world(*final(self), *final(st), *final(vfs), *final(host)) == world(
                *old(self),
                *old(st),
                *old(vfs),
                *old(host),
            ).pass(
                keys@,
                keys@.len() as int,
                world(*old(self), *old(st), *old(vfs), *old(host)).depth(),
            ),
            final(self)@.replay_depth == old(self)@.replay_depth,
            final(self)@.repeating == old(self)@.repeating,
        decreases
            (MAX_REPLAY_DEPTH - old(self)@.replay_depth) as nat,
            (if old(self)@.repeating { 0nat } else { 1nat }),
            11nat,
    {
        let ghost depth = (MAX_REPLAY_DEPTH - self@.replay_depth) as nat;
        let ghost p = world(*self, *st, *vfs, *host);
        for j in 0..keys.len()
            invariant
                world(*self, *st, *vfs, *host).wf(),
                self@.replay_depth == old(self)@.replay_depth,
                self@.repeating,
                old(self)@.repeating,
                depth == (MAX_REPLAY_DEPTH - old(self)@.replay_depth) as nat,
                world(*self, *st, *vfs, *host) == p.pass(keys@, j as int, depth),
        {
            self.handle_key(st, vfs, host, keys[j]);
        }
    }

    /// Replay macro `reg` `n` times, bounded by nesting depth and a total key budget.
    fn play_macro(
        &mut self,
        st: &mut EditorState,
        vfs: &mut Vfs,
        host: &mut HostHandle,
        reg: char,
        n: usize,
    )
        requires
            world(*old(self), *old(st), *old(vfs), *old(host)).wf(),
        ensures
            world(*final(self), *final(st), *final(vfs), *final(host)).wf(),
            world(*final(self), *final(st), *final(vfs), *final(host)) == world(
                *old(self),
                *old(st),
                *old(vfs),
                *old(host),
            ).played(
                reg,
                n as int,
                world(*old(self), *old(st), *old(vfs), *old(host)).depth(),
                !old(self)@.repeating,
            ),
            final(self)@.replay_depth == old(self)@.replay_depth,
            final(self)@.repeating == old(self)@.repeating,
        decreases
            (MAX_REPLAY_DEPTH - old(self)@.replay_depth) as nat,
            (if old(self)@.repeating { 0nat } else { 1nat }),
            6nat,
    {
        let keys = match self.macros.get(&reg) {
            Some(keys) => copy_keys(keys),
            None => Vec::new(),
        };
        if keys.len() == 0 {
            let mut label = String::new();
            label.push(reg);
            assert(label@ =~= seq![reg]);
            let msg = cat(cat("E749: register @", label.as_str()).as_str(), " is empty");
            self.err(st, host, msg.as_str());
            return;
        }
        if self.replay_depth >= MAX_REPLAY_DEPTH {
            return;
        }
        let was_replaying = self.replaying;
        let was_repeating = self.repeating;
        self.last_macro = Some(reg);
        self.replay_depth = self.replay_depth + 1;
        self.replaying = true;
        self.repeating = false;
        assert(world(*self, *st, *vfs, *host) == world(
            *old(self),
            *old(st),
            *old(vfs),
            *old(host),
        ).eng(
            EngV {
                last_macro: Some(reg),
                replay_depth: old(self)@.replay_depth + 1,
                replaying: true,
                repeating: false,
                ..old(self)@
            },
        ));
        self.play_passes(st, vfs, host, &keys, n);
        self.replaying = was_replaying;
        self.repeating = was_repeating;
        self.replay_depth = self.replay_depth - 1;
        if self.replay_depth == 0 {
            self.replay_steps = 0;
        }
    }

    /// Replay a macro's keys `n` times, within the key budget.
    fn play_passes(
        &mut self,
        st: &mut EditorState,
        vfs: &mut Vfs,
        host: &mut HostHandle,
        keys: &Vec<Key>,
        n: usize,
    )
        requires
            world(*old(self), *old(st), *old(vfs), *old(host)).wf(),
            !old(self)@.repeating,
        ensures
            world(*final(self), *final(st), *final(vfs), *final(host)).wf(),
            world(*final(self), *final(st), *final(vfs), *final(host)) == world(
                *old(self),
                *old(st),
                *old(vfs),
                *old(host),
            ).plays(
                keys@,
                n as int,
                world(*old(self), *old(st), *old(vfs), *old(host)).depth(),
            ),
            final(self)@.replay_depth == old(self)@.replay_depth,
            final(self)@.repeating == old(self)@.repeating,
        decreases
            (MAX_REPLAY_DEPTH - old(self)@.replay_depth) as nat,
            (if old(self)@.repeating { 0nat } else { 1nat }),
            12nat,
    {
        let ghost depth = (MAX_REPLAY_DEPTH - self@.replay_depth) as nat;
        let ghost w = world(*self, *st, *vfs, *host);
        let mut i: usize = 0;
        while i < n
            invariant_except_break
                i <= n,
                world(*self, *st, *vfs, *host) == w.plays(keys@, i as int, depth),
            invariant
                world(*self, *st, *vfs, *host).wf(),
                self@.replay_depth == old(self)@.replay_depth,
                !self@.repeating,
                !old(self)@.repeating,
                depth == (MAX_REPLAY_DEPTH - old(self)@.replay_depth) as nat,
            ensures
                world(*self, *st, *vfs, *host) == w.plays(keys@, n as int, depth),
            decreases n - i,
        {
            if self.replay_steps >= MAX_MACRO_STEPS {
                proof {
                    lemma_plays_spent(w, keys@, i as int, n as int, depth);
                }
                break;
            }
            self.play_pass(st, vfs, host, keys);
            i = i + 1;
        }
    }

    /// Replay a macro's keys once, within the key budget.
    fn play_pass(
        &mut self,
        st: &mut EditorState,
        vfs: &mut Vfs,
        host: &mut HostHandle,
        keys: &Vec<Key>,
    )
        requires
            world(*old(self), *old(st), *old(vfs), *old(host)).wf(),
            !old(self)@.repeating,
        ensures
            world(*final(self), *final(st), *final(vfs), *final(host)).wf(),
            world(*final(self), *final(st), *final(vfs), *final(host)) == world(
                *old(self),
                *old(st),
                *old(vfs),
                *old(host),
            ).play(
                keys@,
                keys@.len() as int,
                world(*old(self), *old(st), *old(vfs), *old(host)).depth(),
            ),
            final(self)@.replay_depth == old(self)@.replay_depth,
            final(self)@.repeating == old(self)@.repeating,
        decreases
            (MAX_REPLAY_DEPTH - old(self)@.replay_depth) as nat,
            (if old(self)@.repeating { 0nat } else { 1nat }),
            11nat,
    {
        let ghost depth = (MAX_REPLAY_DEPTH - self@.replay_depth) as nat;
        let ghost p = world(*self, *st, *vfs, *host);
        let mut j: usize = 0;
        while j < keys.len()
            invariant_except_break
                j <= keys@.len(),
                world(*self, *st, *vfs, *host) == p.play(keys@, j as int, depth),
            invariant
                world(*self, *st, *vfs, *host).wf(),
                self@.replay_depth == old(self)@.replay_depth,
                !self@.repeating,
                !old(self)@.repeating,
                depth == (MAX_REPLAY_DEPTH - old(self)@.replay_depth) as nat,
            ensures
                world(*self, *st, *vfs, *host) == p.play(keys@, keys@.len() as int, depth),
            decreases keys@.len() - j,
        {
            if self.replay_steps >= MAX_MACRO_STEPS {
                proof {
                    lemma_play_spent(p, keys@, j as int, keys@.len() as int, depth);
                }
                break;
            }
            self.replay_steps = self.replay_steps + 1;
            self.handle_key(st, vfs, host, keys[j]);
            j = j + 1;
        }
    }
}

fn is_norepeat(key: Key) -> (r: bool)
    ensures
        r == starts_norepeat(key),
{
    match key {
        Key::Char(c) => c == 'u' || c == '.' || c == ':' || c == '/' || c == '?' || c == 'n' || c
            == 'N' || c == '*' || c == '#' || c == ' ' || c == 'q' || c == '@',
        Key::Ctrl(c) => c != 'v',
        _ => false,
    }
}

} // verus!
