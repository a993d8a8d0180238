//! The editor as one piece: key events, taps and drags in, a drawn frame out.

use vstd::prelude::*;

use crate::host::HostHandle;
use crate::keyboard::{is_typed, typed, KeyName};
use crate::rvim::buffer::{clamped, max, min, pos, Position};
use crate::rvim::explorer::{action_applied, apply_action};
use crate::rvim::fs::Vfs;
use crate::rvim::highlight::{Highlighter, HlV};
use crate::rvim::keys::{Key, Mode};
use crate::rvim::state::{BufV, Buffer, EditorState, StV};
use crate::rvim::ui::frame::{
    draw, eng_ready, layout_of, painted, plan_of, st_ready, DrawCtx, LayoutInfo, LayoutV,
};
use crate::rvim::ui::grid::Grid;
use crate::rvim::ui::touch::{
    action_of, cells_of, hint_tapped, touchbar_action_at, whichkey_action_at, TouchAction,
};
use crate::rvim::ui::window::{texts_ok, WinRect};
use crate::rvim::vim::command::{world, World};
use crate::rvim::vim::VimEngine;
use crate::text::to_chars;
use crate::unicode::{ascii_lowered, to_ascii_lower};

verus! {

/// The key a press stands for. Backspace with a modifier deletes a word, Ctrl+[ and Cmd+. are
/// escape, other letters are chords with Ctrl.
pub open spec fn translated(key: KeyName, ctrl: bool, alt: bool) -> Option<Key> {
    match key {
        KeyName::Escape => Some(Key::Esc),
        KeyName::Enter => Some(Key::Enter),
        KeyName::Backspace => Some(
            if alt || ctrl {
                Key::Ctrl('w')
            } else {
                Key::Backspace
            },
        ),
        KeyName::Delete => Some(Key::Delete),
        KeyName::Tab => Some(Key::Tab),
        KeyName::ArrowUp => Some(Key::Up),
        KeyName::ArrowDown => Some(Key::Down),
        KeyName::ArrowLeft => Some(Key::Left),
        KeyName::ArrowRight => Some(Key::Right),
        KeyName::Home => Some(Key::Home),
        KeyName::End => Some(Key::End),
        KeyName::PageUp => Some(Key::PageUp),
        KeyName::PageDown => Some(Key::PageDown),
        KeyName::OpenBracket | KeyName::Period => if ctrl {
            Some(Key::Esc)
        } else {
            None
        },
        KeyName::Letter(c) => if ctrl {
            Some(Key::Ctrl(c))
        } else {
            None
        },
        KeyName::Other => None,
    }
}

/// Translate a key press; `ctrl` is Ctrl or Cmd.
pub fn translate(key: KeyName, ctrl: bool, alt: bool) -> (r: Option<Key>)
    ensures
        r == translated(key, ctrl, alt),
{
    match key {
        KeyName::Escape => Some(Key::Esc),
        KeyName::Enter => Some(Key::Enter),
        KeyName::Backspace => if alt || ctrl {
            Some(Key::Ctrl('w'))
        } else {
            Some(Key::Backspace)
        },
        KeyName::Delete => Some(Key::Delete),
        KeyName::Tab => Some(Key::Tab),
        KeyName::ArrowUp => Some(Key::Up),
        KeyName::ArrowDown => Some(Key::Down),
        KeyName::ArrowLeft => Some(Key::Left),
        KeyName::ArrowRight => Some(Key::Right),
        KeyName::Home => Some(Key::Home),
        KeyName::End => Some(Key::End),
        KeyName::PageUp => Some(Key::PageUp),
        KeyName::PageDown => Some(Key::PageDown),
        KeyName::OpenBracket | KeyName::Period => if ctrl {
            Some(Key::Esc)
        } else {
            None
        },
        KeyName::Letter(c) => if ctrl {
            Some(Key::Ctrl(c))
        } else {
            None
        },
        KeyName::Other => None,
    }
}

pub struct Rvim {
    pub st: EditorState,
    pub vim: VimEngine,
    pub hl: Highlighter,
    pub vfs: Vfs,
    pub focused: bool,
    /// Ctrl armed from the touchbar; applies to the next key.
    pub ctrl_armed: bool,
    /// Grid layout of the previous frame, for mapping taps to buffer positions.
    pub layout: LayoutInfo,
}

/// Model of the editor as one piece, with the host it works on.
#[verifier::ext_equal]
pub struct DeckV {
    pub w: World,
    pub hl: HlV,
    pub focused: bool,
    pub ctrl_armed: bool,
    pub layout: LayoutV,
}

/// The models of the editor and the host put together.
pub open spec fn deck(r: Rvim, h: HostHandle) -> DeckV {
    DeckV {
        w: world(r.vim, r.st, r.vfs, h),
        hl: r.hl@,
        focused: r.focused,
        ctrl_armed: r.ctrl_armed,
        layout: r.layout@,
    }
}

/// Every window of the layout still exists.
pub open spec fn layout_current(l: LayoutV, st: StV) -> bool {
    forall|i: int| 0 <= i < l.windows.len() ==> (#[trigger] l.windows[i]).win < st.windows.len()
}

/// First window of a layout at or after `i` that holds a cell.
pub open spec fn window_at(ws: Seq<WinRect>, col: int, row: int, i: int) -> Option<WinRect>
    decreases ws.len() - i,
{
    if i < 0 || i >= ws.len() {
        None
    } else if ws[i].x <= col < ws[i].x + ws[i].w && ws[i].y <= row < ws[i].y + ws[i].h {
        Some(ws[i])
    } else {
        window_at(ws, col, row, i + 1)
    }
}

/// A buffer with its cursor on the cell tapped in its window.
pub open spec fn cursor_put(b: BufV, r: WinRect, col: int, row: int, in_insert: bool) -> BufV {
    let p = clamped(
        b.text.lines,
        pos(b.scroll.0 + row - r.y, b.scroll.1 + max(col - (r.x + r.gutter_w), 0)),
        in_insert,
    );
    BufV { cursor: p, desired_col: p.col, ..b }
}

/// A buffer dragged by whole cells; the content follows the finger.
pub open spec fn dragged(b: BufV, rows: int, cols: int) -> BufV {
    BufV {
        scroll: (
            min(max(b.scroll.0 - rows, 0), b.text.lines.len() - 1) as usize,
            min(max(b.scroll.1 - cols, 0), usize::MAX as int) as usize,
        ),
        ..b
    }
}

impl DeckV {
    pub open spec fn wf(self) -> bool {
        self.w.wf()
    }

    /// A key pressed; an armed Ctrl makes a chord of a char, and is spent on any key.
    pub open spec fn fed(self, key: Key) -> DeckV {
        let k = match key {
            Key::Char(c) => if self.ctrl_armed {
                Key::Ctrl(ascii_lowered(c))
            } else {
                key
            },
            _ => key,
        };
        DeckV { ctrl_armed: false, w: self.w.keyed(k), ..self }
    }

    /// The chars of a text from `i` on typed.
    pub open spec fn texted(self, s: Seq<char>, i: int) -> DeckV
        decreases s.len() - i,
    {
        if i < 0 || i >= s.len() {
            self
        } else if is_typed(s[i]) {
            self.fed(Key::Char(s[i])).texted(s, i + 1)
        } else {
            self.texted(s, i + 1)
        }
    }

    /// A haptic pulse asked for.
    pub open spec fn pulsed(self) -> DeckV {
        let d = self.w.d;
        DeckV {
            w: World {
                d: crate::rvim::vim::Ed { h: d.h.push(crate::host::CallV::Haptic(6)), ..d },
                ..self.w
            },
            ..self
        }
    }

    pub open spec fn st(self, s: StV) -> DeckV {
        DeckV { w: self.w.st(s), ..self }
    }

    /// A tap on the touchbar.
    #[verifier::opaque]
    pub open spec fn bar_tapped(self, col: int) -> DeckV {
        match action_of(cells_of(self.layout.cols), col, 0) {
            Some(TouchAction::Key(k)) => self.fed(k).pulsed(),
            Some(TouchAction::StickyCtrl) => DeckV {
                ctrl_armed: !self.ctrl_armed,
                ..self
            }.pulsed(),
            Some(TouchAction::ToggleKeyboard) => DeckV { focused: false, ..self }.pulsed(),
            None => self,
        }
    }

    /// A tap in the which-key panel, which types the hint's key.
    #[verifier::opaque]
    pub open spec fn panel_tapped(self, col: u16, row: u16) -> DeckV {
        let hit = match self.w.d.e.hints() {
            Some(h) => hint_tapped(col, row, self.layout.cols, h.entries),
            None => None,
        };
        match hit {
            Some(k) => self.fed(k).pulsed(),
            None => self,
        }
    }

    /// A tap in the sidebar, which selects or opens a file.
    #[verifier::opaque]
    pub open spec fn side_tapped(self, row: int) -> DeckV {
        let s = self.w.d.s;
        match s.explorer {
            Some(ex) => {
                let (ex1, action) = ex.tapped(self.w.v, row);
                let (s1, v1) = action_applied(
                    StV { explorer: Some(ex1), explorer_focused: true, ..s },
                    self.w.v,
                    action,
                );
                DeckV { w: World { v: v1, ..self.w.st(s1) }, ..self }.pulsed()
            },
            None => self.st(StV { explorer_focused: true, ..s }),
        }
    }

    /// A tap in the windows, which focuses one and places the cursor.
    #[verifier::opaque]
    pub open spec fn text_tapped(self, col: int, row: int) -> DeckV {
        match window_at(self.layout.windows, col, row, 0) {
            Some(r) => {
                let s = StV {
                    active_win: r.win as int,
                    explorer_focused: false,
                    ..self.w.d.s
                };
                if s.has_buf() {
                    self.st(
                        s.with_buf(cursor_put(s.buf(), r, col, row, self.w.d.e.mode is Insert)),
                    )
                } else {
                    self.st(s)
                }
            },
            None => self,
        }
    }

    /// A tap on a cell of the screen.
    pub open spec fn cell_tapped(self, col: u16, row: u16) -> DeckV {
        let l = self.layout;
        if row == l.touchbar_row {
            self.bar_tapped(col as int)
        } else if l.whichkey_top <= row < l.whichkey_top + l.whichkey_rows {
            self.panel_tapped(col, (row - l.whichkey_top) as u16)
        } else if self.w.d.s.finder is Some {
            self
        } else if col < l.explorer_w {
            if l.explorer_top <= row < l.explorer_top + l.explorer_rows {
                self.side_tapped(row - l.explorer_top)
            } else {
                self
            }
        } else {
            self.text_tapped(col as int, row as int)
        }
    }

    /// A tap, which brings up the keyboard; cells left of or above the screen are nothing.
    pub open spec fn tapped(self, col: int, row: int) -> DeckV {
        let d = DeckV { focused: true, ..self };
        if col < 0 || row < 0 {
            d
        } else {
            d.cell_tapped((col % 65536) as u16, (row % 65536) as u16)
        }
    }

    /// A drag by whole cells.
    pub open spec fn scrolled(self, rows: int, cols: int) -> DeckV {
        let s = self.w.d.s;
        if s.has_buf() {
            self.st(s.with_buf(dragged(s.buf(), rows, cols)))
        } else {
            self
        }
    }
}

impl Rvim {
    pub fn new(vfs: Vfs) -> (r: Self)
        ensures
            r.st@ == StV::fresh(),
            r.vim@ == crate::rvim::vim::EngV::fresh(),
            r.vfs@ == vfs@,
            r.hl@ == HlV::fresh(),
            r.layout@ == LayoutV::fresh(),
            !r.focused,
            !r.ctrl_armed,
            r.st@.wf(),
            r.vim@.wf(),
    {
        Rvim {
            st: EditorState::new(),
            vim: VimEngine::new(),
            hl: Highlighter::new(),
            vfs,
            focused: false,
            ctrl_armed: false,
            layout: LayoutInfo::default(),
        }
    }

    /// Press a key, as a Ctrl-chord where Ctrl is armed.
    pub fn feed(&mut self, key: Key, host: &mut HostHandle)
        requires
            deck(*old(self), *old(host)).wf(),
        ensures
            deck(*final(self), *final(host)) == deck(*old(self), *old(host)).fed(key),
            deck(*final(self), *final(host)).wf(),
    {
        let key = if self.ctrl_armed {
            self.ctrl_armed = false;
            match key {
                Key::Char(c) => Key::Ctrl(to_ascii_lower(c)),
                other => other,
            }
        } else {
            key
        };
        self.vim.handle_key(&mut self.st, &mut self.vfs, host, key);
    }

    /// Type a text, leaving out control characters; true when any key came of it.
    pub fn on_text(&mut self, text: &str, host: &mut HostHandle) -> (r: bool)
        requires
            deck(*old(self), *old(host)).wf(),
        ensures
            deck(*final(self), *final(host)) == deck(*old(self), *old(host)).texted(text@, 0),
            deck(*final(self), *final(host)).wf(),
            r == exists|i: int| 0 <= i < text@.len() && is_typed(#[trigger] text@[i]),
    {
        let ghost want = deck(*self, *host).texted(text@, 0);
        let chars = to_chars(text);
        let mut any = false;
        let mut i: usize = 0;
        while i < chars.len()
            invariant
                chars@ == text@,
                i <= chars@.len(),
                deck(*self, *host).wf(),
                want == deck(*self, *host).texted(text@, i as int),
                any == exists|k: int| 0 <= k < i && is_typed(#[trigger] text@[k]),
            decreases chars@.len() - i,
        {
            if typed(chars[i]) {
                self.feed(Key::Char(chars[i]), host);
                any = true;
                assert(is_typed(text@[i as int]));
            }
            i = i + 1;
        }
        any
    }

    /// Hosts turn Ctrl+V into a paste event before it gets here.
    pub fn on_paste(&mut self, host: &mut HostHandle)
        requires
            deck(*old(self), *old(host)).wf(),
        ensures
            deck(*final(self), *final(host)) == deck(*old(self), *old(host)).fed(Key::Ctrl('v')),
            deck(*final(self), *final(host)).wf(),
    {
        self.feed(Key::Ctrl('v'), host);
    }

    /// Press a key of the keyboard. `None` when it means nothing here, else whether the event
    /// is used up: while focused, and Escape always.
    pub fn on_key(&mut self, key: KeyName, ctrl: bool, alt: bool, host: &mut HostHandle) -> (r:
        Option<bool>)
        requires
            deck(*old(self), *old(host)).wf(),
        ensures
            deck(*final(self), *final(host)).wf(),
            match translated(key, ctrl, alt) {
                Some(k) => deck(*final(self), *final(host)) == deck(*old(self), *old(host)).fed(k)
                    && r == Some(old(self).focused || k == Key::Esc),
                None => deck(*final(self), *final(host)) == deck(*old(self), *old(host)) && r
                    is None,
            },
    {
        match translate(key, ctrl, alt) {
            Some(k) => {
                self.feed(k, host);
                Some(self.focused || k == Key::Esc)
            },
            None => None,
        }
    }

    fn tap_bar(&mut self, col: u16, host: &mut HostHandle)
        requires
            deck(*old(self), *old(host)).wf(),
        ensures
            deck(*final(self), *final(host)) == deck(*old(self), *old(host)).bar_tapped(
                col as int,
            ),
            deck(*final(self), *final(host)).wf(),
    {
        proof {
            reveal(DeckV::bar_tapped);
        }
        match touchbar_action_at(col, self.layout.cols) {
            Some(TouchAction::Key(k)) => {
                self.feed(k, host);
                host.haptic(6);
            },
            Some(TouchAction::StickyCtrl) => {
                self.ctrl_armed = !self.ctrl_armed;
                host.haptic(6);
            },
            Some(TouchAction::ToggleKeyboard) => {
                self.focused = false;
                host.haptic(6);
            },
            None => {},
        }
    }

    fn tap_panel(&mut self, col: u16, row: u16, host: &mut HostHandle)
        requires
            deck(*old(self), *old(host)).wf(),
        ensures
            deck(*final(self), *final(host)) == deck(*old(self), *old(host)).panel_tapped(
                col,
                row,
            ),
            deck(*final(self), *final(host)).wf(),
    {
        proof {
            reveal(DeckV::panel_tapped);
        }
        if let Some(hints) = self.vim.key_hints() {
            if let Some(k) = whichkey_action_at(
                col,
                row,
                self.layout.cols,
                hints.entries.as_slice(),
            ) {
                self.feed(k, host);
                host.haptic(6);
            }
        }
    }

    fn tap_side(&mut self, row: u16, host: &mut HostHandle)
        requires
            deck(*old(self), *old(host)).wf(),
        ensures
            deck(*final(self), *final(host)) == deck(*old(self), *old(host)).side_tapped(
                row as int,
            ),
            deck(*final(self), *final(host)).wf(),
    {
        proof {
            reveal(DeckV::side_tapped);
        }
        let ghost s0 = self.st@;
        self.st.explorer_focused = true;
        let action = match &mut self.st.explorer {
            Some(ex) => ex.handle_tap(&self.vfs, row as usize),
            None => {
                assert(self.st@ =~= (StV { explorer_focused: true, ..s0 }));
                return ;
            },
        };
        proof {
            let (ex1, a1) = (s0.explorer->0).tapped(self.vfs@, row as int);
            assert(self.st@ =~= (StV { explorer: Some(ex1), explorer_focused: true, ..s0 }));
        }
        apply_action(&mut self.st, &mut self.vfs, action);
        host.haptic(6);
    }

    fn tap_text(&mut self, col: u16, row: u16)
        requires
            old(self).st@.wf(),
            old(self).vim@.wf(),
        ensures
            forall|h: HostHandle|
                #![trigger deck(*final(self), h)]
                deck(*final(self), h) == deck(*old(self), h).text_tapped(col as int, row as int),
            final(self).vim@ == old(self).vim@,
            layout_current(old(self).layout@, old(self).st@) ==> final(self).st@.wf(),
    {
        proof {
            reveal(DeckV::text_tapped);
        }
        let ghost ws = self.layout.windows@;
        let ghost s0 = self.st@;
        let mut found: Option<WinRect> = None;
        let mut i: usize = 0;
        while i < self.layout.windows.len() && found.is_none()
            invariant
                *self == *old(self),
                ws == self.layout.windows@,
                i <= ws.len(),
                found is None ==> window_at(ws, col as int, row as int, 0) == window_at(
                    ws,
                    col as int,
                    row as int,
                    i as int,
                ),
                found is Some ==> window_at(ws, col as int, row as int, 0) == found && ws.contains(
                    found->0,
                ) && (found->0).x <= col && (found->0).y <= row,
            decreases ws.len() - i + if found is None {
                1int
            } else {
                0
            },
        {
            let r = self.layout.windows[i];
            if col >= r.x && col - r.x < r.w && row >= r.y && row - r.y < r.h {
                found = Some(r);
                assert(ws[i as int] == r);
            } else {
                i = i + 1;
            }
        }
        let r = match found {
            Some(r) => r,
            None => {
                return ;
            },
        };
        self.st.active_win = r.win;
        self.st.explorer_focused = false;
        let ghost s1 = StV { active_win: r.win as int, explorer_focused: false, ..s0 };
        assert(self.st@ =~= s1);
        let in_insert = match self.vim.mode() {
            Mode::Insert => true,
            _ => false,
        };
        proof {
            if layout_current(old(self).layout@, s0) {
                let k = choose|k: int| 0 <= k < ws.len() && ws[k] == r;
                assert(ws[k].win < s0.windows.len());
            }
            assert forall|k: int| 0 <= k < s1.buffers.len() implies (
            #[trigger] s1.buffers[k]).wf() by {
                assert(s0.buffers[k].wf());
            }
        }
        if let Some(buf) = self.st.buf_mut() {
            place_cursor(buf, r, col, row, in_insert);
        }
    }

    /// A tap on a cell either presses a touchbar key or places the cursor.
    pub fn handle_tap(&mut self, col: i64, row: i64, host: &mut HostHandle)
        requires
            deck(*old(self), *old(host)).wf(),
        ensures
            deck(*final(self), *final(host)) == deck(*old(self), *old(host)).tapped(
                col as int,
                row as int,
            ),
            layout_current(old(self).layout@, old(self).st@) ==> deck(
                *final(self),
                *final(host),
            ).wf(),
    {
        self.focused = true;
        if col < 0 || row < 0 {
            return ;
        }
        let col: u16 = (col % 65536) as u16;
        let row: u16 = (row % 65536) as u16;
        if row == self.layout.touchbar_row {
            self.tap_bar(col, host);
            return ;
        }
        if row >= self.layout.whichkey_top && row - self.layout.whichkey_top
            < self.layout.whichkey_rows {
            self.tap_panel(col, row - self.layout.whichkey_top, host);
            return ;
        }
        if self.st.finder.is_some() {
            return ;
        }
        if col < self.layout.explorer_w {
            if row >= self.layout.explorer_top && row - self.layout.explorer_top
                < self.layout.explorer_rows {
                self.tap_side(row - self.layout.explorer_top, host);
            }
            return ;
        }
        self.tap_text(col, row);
    }

    /// Grab-scroll: move the view by whole cells; dragging down reveals earlier lines.
    pub fn scroll_by(&mut self, rows: i64, cols: i64)
        requires
            old(self).st@.wf(),
        ensures
            final(self).st@.wf(),
            forall|h: HostHandle|
                #![trigger deck(*final(self), h)]
                deck(*final(self), h) == deck(*old(self), h).scrolled(rows as int, cols as int),
    {
        if let Some(buf) = self.st.buf_mut() {
            drag(buf, rows, cols);
        }
    }

    /// Draw a frame and remember where things landed.
    pub fn draw(&mut self, g: &mut Grid, blink_on: bool, paused: bool)
        requires
            old(g)@.wf(),
            old(self).st@.wf(),
            old(self).vim@.wf(),
            old(self).st@.windows.len() <= u16::MAX,
        ensures
            ({
                let cols = old(g)@.cols as u16;
                let rows = old(g)@.rows as u16;
                let s = old(self).st@;
                let e = old(self).vim@;
                let v = old(self).vfs@;
                let p = plan_of(s, e, cols, rows, paused);
                let ctx = DrawCtx {
                    blink_on,
                    ctrl_armed: old(self).ctrl_armed,
                    focused: old(self).focused,
                    paused,
                };
                &&& final(self).st@ == st_ready(s, e, p, v.files.len() as int)
                &&& final(self).vim@ == eng_ready(s, e, p)
                &&& (final(g)@, final(self).hl@) == painted(
                    old(self).hl@,
                    final(self).st@,
                    final(self).vim@,
                    v,
                    p,
                    cols,
                    rows,
                    ctx,
                )
                &&& final(self).layout@ == layout_of(s, p, cols)
                &&& final(self).vfs@ == v
                &&& final(self).focused == old(self).focused
                &&& final(self).ctrl_armed == old(self).ctrl_armed
            }),
            final(g)@.wf(),
            final(self).st@.wf(),
            final(self).vim@.wf(),
            layout_current(final(self).layout@, final(self).st@),
    {
        let ctx = DrawCtx {
            blink_on,
            ctrl_armed: self.ctrl_armed,
            focused: self.focused,
            paused,
        };
        assert(texts_ok(self.st@)) by {
            assert forall|i: int| 0 <= i < self.st@.buffers.len() implies (
            #[trigger] self.st@.buffers[i]).text.wf() by {
                assert(self.st@.buffers[i].wf());
            }
        }
        self.layout = draw(g, &mut self.st, &mut self.vim, &mut self.hl, &self.vfs, ctx);
    }
}

fn place_cursor(buf: &mut Buffer, r: WinRect, col: u16, row: u16, in_insert: bool)
    requires
        old(buf)@.text.wf(),
        r.x <= col,
        r.y <= row,
    ensures
        final(buf)@ == cursor_put(old(buf)@, r, col as int, row as int, in_insert),
        old(buf)@.wf() ==> final(buf)@.wf(),
{
    let ghost b0 = buf@;
    let down: usize = (row - r.y) as usize;
    let line: usize = if buf.scroll.0 <= usize::MAX - down {
        buf.scroll.0 + down
    } else {
        usize::MAX
    };
    let across: usize = if col - r.x > r.gutter_w {
        (col - r.x - r.gutter_w) as usize
    } else {
        0
    };
    let at: usize = if buf.scroll.1 <= usize::MAX - across {
        buf.scroll.1 + across
    } else {
        usize::MAX
    };
    let p = buf.text.clamp(Position::new(line, at), in_insert);
    proof {
        reveal(clamped);
        assert(p@ == clamped(
            b0.text.lines,
            pos(
                b0.scroll.0 + row - r.y,
                b0.scroll.1 + max(col - (r.x + r.gutter_w), 0),
            ),
            in_insert,
        ));
    }
    buf.cursor = p;
    buf.desired_col = p.col;
}

fn drag(buf: &mut Buffer, rows: i64, cols: i64)
    requires
        old(buf)@.text.wf(),
    ensures
        final(buf)@ == dragged(old(buf)@, rows as int, cols as int),
        old(buf)@.wf() ==> final(buf)@.wf(),
{
    let last: i128 = buf.text.line_count() as i128 - 1;
    let top: i128 = buf.scroll.0 as i128 - rows as i128;
    let left: i128 = buf.scroll.1 as i128 - cols as i128;
    let t: i128 = if top < 0 {
        0
    } else if top > last {
        last
    } else {
        top
    };
    let l: i128 = if left < 0 {
        0
    } else if left > usize::MAX as i128 {
        usize::MAX as i128
    } else {
        left
    };
    buf.scroll = (t as usize, l as usize);
}

} // verus!
