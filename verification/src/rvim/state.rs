//! Shared editor state: open buffers, registers, search, options, and status messages.

use vstd::prelude::*;

use crate::rvim::buffer::{clamped, max, min, pos, Pos, Position, TextBuffer, TextV};
use crate::rvim::charmap::CharMap;
use crate::rvim::explorer::{ExplorerState, ExplorerV};
use crate::rvim::finder::{FinderState, FinderV};
use crate::rvim::fs::{read_of, str_same, Vfs, VfsV};
use crate::text::{byte_len, cat, unlines};

verus! {

/// Shape of a register's capture; determines paste geometry.
#[derive(Clone, Copy, PartialEq, Eq, Debug, Structural)]
pub enum RegKind {
    Char,
    Line,
    Block,
}

impl Default for RegKind {
    fn default() -> (r: RegKind)
        ensures
            r == RegKind::Char,
    {
        RegKind::Char
    }
}

/// Yanked or deleted text plus the shape it was captured with.
pub struct Register {
    pub text: String,
    pub kind: RegKind,
}

/// Model of a register.
pub struct RegV {
    pub text: Seq<char>,
    pub kind: RegKind,
}

impl View for Register {
    type V = RegV;

    open spec fn view(&self) -> RegV {
        RegV { text: self.text@, kind: self.kind }
    }
}

impl Clone for Register {
    fn clone(&self) -> (r: Register)
        ensures
            r@ == self@,
    {
        Register { text: self.text.clone(), kind: self.kind }
    }
}

impl Default for Register {
    fn default() -> (r: Register)
        ensures
            r@ == (RegV { text: Seq::empty(), kind: RegKind::Char }),
    {
        Register { text: String::new(), kind: RegKind::Char }
    }
}

pub struct SearchState {
    pub pattern: String,
    pub backwards: bool,
    /// Match highlighting is suppressed until the next search (`:noh`).
    pub suppressed: bool,
}

/// Model of the search state.
pub struct SearchV {
    pub pattern: Seq<char>,
    pub backwards: bool,
    pub suppressed: bool,
}

impl View for SearchState {
    type V = SearchV;

    open spec fn view(&self) -> SearchV {
        SearchV {
            pattern: self.pattern@,
            backwards: self.backwards,
            suppressed: self.suppressed,
        }
    }
}

impl Default for SearchState {
    fn default() -> (r: SearchState)
        ensures
            r@ == (SearchV { pattern: Seq::empty(), backwards: false, suppressed: false }),
    {
        SearchState { pattern: String::new(), backwards: false, suppressed: false }
    }
}

#[derive(Clone, Copy, Debug, PartialEq, Eq, Structural)]
pub struct Options {
    pub number: bool,
    pub relativenumber: bool,
}

impl Default for Options {
    fn default() -> (r: Options)
        ensures
            r == (Options { number: true, relativenumber: true }),
    {
        Options { number: true, relativenumber: true }
    }
}

#[derive(Clone, Copy, Debug, PartialEq, Eq, Structural)]
pub enum MsgKind {
    Info,
    Error,
}

#[derive(Clone, Debug)]
pub struct StatusMsg {
    pub text: String,
    pub kind: MsgKind,
}

/// Model of a status message.
pub struct StatusV {
    pub text: Seq<char>,
    pub kind: MsgKind,
}

impl View for StatusMsg {
    type V = StatusV;

    open spec fn view(&self) -> StatusV {
        StatusV { text: self.text@, kind: self.kind }
    }
}

/// One open file: its text plus per-buffer view state.
pub struct Buffer {
    pub name: String,
    pub text: TextBuffer,
    pub cursor: Position,
    /// Top visible line and leftmost visible column.
    pub scroll: (usize, usize),
    /// Buffer version at the last save; differing from `text.version()` means modified.
    pub saved_version: u64,
    /// Column j/k aim for when passing through shorter lines.
    pub desired_col: usize,
    pub marks: CharMap<Position>,
}

/// Model of an open file.
pub struct BufV {
    pub name: Seq<char>,
    pub text: TextV,
    pub cursor: Pos,
    pub scroll: (usize, usize),
    pub saved_version: u64,
    pub desired_col: int,
    pub marks: Map<char, Position>,
}

impl View for Buffer {
    type V = BufV;

    open spec fn view(&self) -> BufV {
        BufV {
            name: self.name@,
            text: self.text@,
            cursor: self.cursor@,
            scroll: self.scroll,
            saved_version: self.saved_version,
            desired_col: self.desired_col as int,
            marks: self.marks@,
        }
    }
}

impl BufV {
    pub open spec fn fresh(name: Seq<char>, text: Seq<char>) -> BufV {
        BufV {
            name,
            text: TextV::fresh(text),
            cursor: pos(0, 0),
            scroll: (0, 0),
            saved_version: 0,
            desired_col: 0,
            marks: Map::empty(),
        }
    }

    pub open spec fn modified(self) -> bool {
        self.text.version != self.saved_version
    }

    /// The text is well formed and the cursor is in it.
    pub open spec fn wf(self) -> bool {
        &&& self.text.wf()
        &&& 0 <= self.cursor.line < self.text.lines.len()
        &&& 0 <= self.cursor.col <= self.text.lines[self.cursor.line].len()
        &&& self.cursor.line <= isize::MAX
        &&& self.cursor.col <= isize::MAX
        &&& self.sane()
    }

    /// The text is well formed and the cursor's coordinates leave room to step.
    pub open spec fn sane(self) -> bool {
        &&& self.text.wf()
        &&& 0 <= self.cursor.line < usize::MAX
        &&& 0 <= self.cursor.col < usize::MAX
        &&& 0 <= self.desired_col <= usize::MAX
    }

    /// The cursor moved into the text.
    pub open spec fn settled(self, allow_end: bool) -> BufV {
        BufV { cursor: clamped(self.text.lines, self.cursor, allow_end), ..self }
    }
}

impl Buffer {
    pub fn new(name: &str, text: &str) -> (r: Self)
        ensures
            r@ == BufV::fresh(name@, text@),
            r@.wf(),
    {
        proof {
            reveal(TextV::wf);
        }
        Buffer {
            name: name.to_string(),
            text: TextBuffer::from_text(text),
            cursor: Position::new(0, 0),
            scroll: (0, 0),
            saved_version: 0,
            desired_col: 0,
            marks: CharMap::new(),
        }
    }

    pub fn modified(&self) -> (r: bool)
        ensures
            r == self@.modified(),
    {
        self.text.version() != self.saved_version
    }
}

/// One viewport into a buffer; splits create more of these.
#[derive(Clone, Copy, Debug, PartialEq, Eq, Structural)]
pub struct Window {
    pub buffer: usize,
}

/// Axis every window splits along: Horizontal = stacked, Vertical = side by side.
#[derive(Clone, Copy, Debug, PartialEq, Eq, Structural)]
pub enum SplitDir {
    Horizontal,
    Vertical,
}

/// Minimum window width in columns for a split to be allowed.
pub const MIN_WIN_COLS: u16 = 10;

/// Minimum window height in rows for a split to be allowed.
pub const MIN_WIN_ROWS: u16 = 2;

pub struct EditorState {
    pub buffers: Vec<Buffer>,
    pub windows: Vec<Window>,
    pub active_win: usize,
    pub split_dir: SplitDir,
    /// Window-area size (cols, rows) from the last draw, for split-size checks.
    pub text_dims: (u16, u16),
    /// File explorer sidebar; `Some` = visible.
    pub explorer: Option<ExplorerState>,
    /// Keys route to the explorer instead of the editor.
    pub explorer_focused: bool,
    pub registers: CharMap<Register>,
    pub search: SearchState,
    pub options: Options,
    pub status: Option<StatusMsg>,
    pub finder: Option<FinderState>,
}

/// Model of the editor state; a window is the index of the buffer it shows.
#[verifier::ext_equal]
pub struct StV {
    pub buffers: Seq<BufV>,
    pub windows: Seq<int>,
    pub active_win: int,
    pub split_dir: SplitDir,
    pub text_dims: (u16, u16),
    pub explorer: Option<ExplorerV>,
    pub explorer_focused: bool,
    pub registers: Map<char, RegV>,
    pub search: SearchV,
    pub options: Options,
    pub status: Option<StatusV>,
    pub finder: Option<FinderV>,
}

pub open spec fn bufs(s: Seq<Buffer>) -> Seq<BufV> {
    Seq::new(s.len(), |i: int| s[i]@)
}

pub open spec fn wins(s: Seq<Window>) -> Seq<int> {
    Seq::new(s.len(), |i: int| s[i].buffer as int)
}

pub open spec fn regs(m: Map<char, Register>) -> Map<char, RegV> {
    m.map_values(|r: Register| r@)
}

impl View for EditorState {
    type V = StV;

    open spec fn view(&self) -> StV {
        StV {
            buffers: bufs(self.buffers@),
            windows: wins(self.windows@),
            active_win: self.active_win as int,
            split_dir: self.split_dir,
            text_dims: self.text_dims,
            explorer: match self.explorer {
                Some(ex) => Some(ex@),
                None => None,
            },
            explorer_focused: self.explorer_focused,
            registers: regs(self.registers@),
            search: self.search@,
            options: self.options,
            status: match self.status {
                Some(m) => Some(m@),
                None => None,
            },
            finder: match self.finder {
                Some(f) => Some(f@),
                None => None,
            },
        }
    }
}

/// Index of the first buffer at or after `i` called `name`.
pub open spec fn buffer_named(b: Seq<BufV>, name: Seq<char>, i: int) -> Option<int>
    decreases b.len() - i,
{
    if i < 0 || i >= b.len() {
        None
    } else if b[i].name == name {
        Some(i)
    } else {
        buffer_named(b, name, i + 1)
    }
}

impl StV {
    pub open spec fn fresh() -> StV {
        StV {
            buffers: Seq::empty(),
            windows: seq![0],
            active_win: 0,
            split_dir: SplitDir::Horizontal,
            text_dims: (80, 22),
            explorer: None,
            explorer_focused: false,
            registers: Map::empty(),
            search: SearchV { pattern: Seq::empty(), backwards: false, suppressed: false },
            options: Options { number: true, relativenumber: true },
            status: None,
            finder: None,
        }
    }

    /// A focused window that exists, every window on a buffer (or on 0 when there is none).
    pub open spec fn windows_wf(self) -> bool {
        &&& 0 <= self.active_win < self.windows.len()
        &&& forall|i: int|
            0 <= i < self.windows.len() ==> 0 <= #[trigger] self.windows[i] < max(
                self.buffers.len() as int,
                1,
            )
    }

    pub open spec fn wf(self) -> bool {
        &&& self.windows_wf()
        &&& forall|i: int| 0 <= i < self.buffers.len() ==> (#[trigger] self.buffers[i]).wf()
    }

    /// Well formed but for the focused buffer's cursor, which only leaves room to step.
    pub open spec fn sane(self) -> bool {
        &&& self.windows_wf()
        &&& forall|i: int|
            0 <= i < self.buffers.len() && i != self.active() ==> (
            #[trigger] self.buffers[i]).wf()
        &&& self.has_buf() ==> self.buf().sane()
    }

    /// Buffer index the focused window shows.
    pub open spec fn active(self) -> int {
        if 0 <= self.active_win < self.windows.len() {
            self.windows[self.active_win]
        } else {
            0
        }
    }

    pub open spec fn has_buf(self) -> bool {
        self.active() < self.buffers.len()
    }

    /// The buffer the focused window shows.
    pub open spec fn buf(self) -> BufV {
        self.buffers[self.active()]
    }

    /// The focused buffer replaced.
    pub open spec fn with_buf(self, b: BufV) -> StV {
        StV { buffers: self.buffers.update(self.active(), b), ..self }
    }

    pub open spec fn activated(self, idx: int) -> StV {
        let idx = min(idx, max(self.buffers.len() - 1, 0));
        if self.active_win < self.windows.len() {
            StV { windows: self.windows.update(self.active_win, idx), ..self }
        } else {
            self
        }
    }

    pub open spec fn split_along(self, dir: SplitDir) -> StV {
        StV {
            split_dir: dir,
            windows: self.windows.insert(self.active_win + 1, self.active()),
            active_win: self.active_win + 1,
            ..self
        }
    }

    pub open spec fn window_closed(self) -> StV {
        if self.windows.len() <= 1 {
            self
        } else {
            StV {
                windows: self.windows.remove(self.active_win),
                active_win: min(self.active_win, self.windows.len() - 2),
                ..self
            }
        }
    }

    pub open spec fn next_win(self) -> StV {
        StV {
            active_win: if self.windows.len() == 0 {
                self.active_win
            } else {
                (self.active_win + 1) % self.windows.len() as int
            },
            ..self
        }
    }

    pub open spec fn prev_win(self) -> StV {
        StV {
            active_win: if self.windows.len() == 0 {
                self.active_win
            } else {
                (self.active_win + self.windows.len() - 1) % self.windows.len() as int
            },
            ..self
        }
    }

    pub open spec fn only_win(self) -> StV {
        StV {
            windows: if self.active_win < self.windows.len() {
                seq![self.windows[self.active_win]]
            } else {
                self.windows.take(min(self.windows.len() as int, 1))
            },
            active_win: 0,
            ..self
        }
    }

    pub open spec fn fits_split(self, dir: SplitDir) -> bool {
        let n = self.windows.len() as int + 1;
        let (total, least) = match dir {
            SplitDir::Horizontal => (self.text_dims.1 as int, MIN_WIN_ROWS as int),
            SplitDir::Vertical => (self.text_dims.0 as int, MIN_WIN_COLS as int),
        };
        max(total - (n - 1), 0) / n >= least
    }

    pub open spec fn told(self, text: Seq<char>) -> StV {
        StV { status: Some(StatusV { text, kind: MsgKind::Info }), ..self }
    }

    pub open spec fn erred(self, text: Seq<char>) -> StV {
        StV { status: Some(StatusV { text, kind: MsgKind::Error }), ..self }
    }

    /// A buffer added and shown in the focused window.
    pub open spec fn added(self, b: BufV) -> StV {
        let s = StV { buffers: self.buffers.push(b), ..self };
        s.activated(s.buffers.len() - 1)
    }

    /// File `name` shown in the focused window: its buffer, or a new one with the stored text.
    pub open spec fn opened(self, vfs: VfsV, name: Seq<char>) -> StV {
        match buffer_named(self.buffers, name, 0) {
            Some(i) => self.activated(i),
            None => self.added(
                BufV::fresh(
                    name,
                    match read_of(vfs.files, name) {
                        Some(t) => t,
                        None => Seq::empty(),
                    },
                ),
            ),
        }
    }

    /// The focused buffer written out and marked saved.
    pub open spec fn saved(self, vfs: VfsV) -> (StV, VfsV) {
        if self.has_buf() {
            let b = self.buf();
            (
                self.with_buf(BufV { saved_version: b.text.version, ..b }),
                vfs.write(b.name, unlines(b.text.lines)),
            )
        } else {
            (self, vfs)
        }
    }

    pub open spec fn refuses_close(self, idx: int, force: bool) -> bool {
        self.buffers[idx].modified() && !force
    }

    /// Where a window goes when buffer `idx` closes and `last` is the last remaining index.
    pub open spec fn remapped(w: int, idx: int, last: int) -> int {
        if w > idx {
            w - 1
        } else if w == idx {
            min(w, last)
        } else {
            w
        }
    }

    pub open spec fn closed(self, idx: int, force: bool) -> StV {
        if idx >= self.buffers.len() {
            self
        } else if self.refuses_close(idx, force) {
            self.erred(
                "E89: "@ + self.buffers[idx].name + " has unsaved changes (add ! to override)"@,
            )
        } else {
            let left = self.buffers.remove(idx);
            if left.len() == 0 {
                StV { buffers: left, windows: seq![0], active_win: 0, ..self }
            } else {
                StV {
                    buffers: left,
                    windows: self.windows.map_values(
                        |w: int| StV::remapped(w, idx, left.len() - 1),
                    ),
                    ..self
                }
            }
        }
    }

    pub open spec fn next_buf(self) -> StV {
        if self.buffers.len() == 0 {
            self
        } else {
            self.activated((self.active() + 1) % self.buffers.len() as int)
        }
    }

    pub open spec fn prev_buf(self) -> StV {
        if self.buffers.len() == 0 {
            self
        } else {
            self.activated(
                (self.active() + self.buffers.len() - 1) % self.buffers.len() as int,
            )
        }
    }
}

/// The models of buffers after one is replaced.
pub broadcast proof fn lemma_bufs_update(s: Seq<Buffer>, i: int, b: Buffer)
    requires
        0 <= i < s.len(),
    ensures
        #[trigger] bufs(s.update(i, b)) == bufs(s).update(i, b@),
{
    assert(bufs(s.update(i, b)) =~= bufs(s).update(i, b@));
}

/// The models of buffers after one is added.
pub broadcast proof fn lemma_bufs_push(s: Seq<Buffer>, b: Buffer)
    ensures
        #[trigger] bufs(s.push(b)) == bufs(s).push(b@),
{
    assert(bufs(s.push(b)) =~= bufs(s).push(b@));
}

/// The models of registers after one is set.
pub broadcast proof fn lemma_regs_insert(m: Map<char, Register>, c: char, r: Register)
    ensures
        #[trigger] regs(m.insert(c, r)) == regs(m).insert(c, r@),
{
    assert(regs(m.insert(c, r)) =~= regs(m).insert(c, r@));
}

pub broadcast group group_state {
    lemma_bufs_update,
    lemma_bufs_push,
    lemma_regs_insert,
}

impl EditorState {
    pub fn new() -> (r: Self)
        ensures
            r@ == StV::fresh(),
            r@.wf(),
    {
        let mut windows: Vec<Window> = Vec::new();
        windows.push(Window { buffer: 0 });
        let r = EditorState {
            buffers: Vec::new(),
            windows,
            active_win: 0,
            split_dir: SplitDir::Horizontal,
            text_dims: (80, 22),
            explorer: None,
            explorer_focused: false,
            registers: CharMap::new(),
            search: SearchState::default(),
            options: Options::default(),
            status: None,
            finder: None,
        };
        assert(r@ =~= StV::fresh());
        r
    }

    /// Buffer index the focused window shows.
    pub fn active(&self) -> (r: usize)
        ensures
            r == self@.active(),
    {
        if self.active_win < self.windows.len() {
            self.windows[self.active_win].buffer
        } else {
            0
        }
    }

    /// Point the focused window at buffer `idx` (clamped).
    pub fn set_active(&mut self, idx: usize)
        ensures
            final(self)@ == old(self)@.activated(idx as int),
            old(self)@.windows_wf() ==> final(self)@.windows_wf(),
            old(self)@.wf() ==> final(self)@.wf(),
    {
        let n: usize = self.buffers.len();
        let last: usize = if n > 0 {
            n - 1
        } else {
            0
        };
        let idx: usize = if idx < last {
            idx
        } else {
            last
        };
        if self.active_win < self.windows.len() {
            self.windows[self.active_win] = Window { buffer: idx };
        }
        assert(self@.windows =~= old(self)@.activated(idx as int).windows);
    }

    pub fn buf(&self) -> (r: Option<&Buffer>)
        ensures
            r is Some == self@.has_buf(),
            r is Some ==> (r->0)@ == self@.buf(),
    {
        let i: usize = self.active();
        if i < self.buffers.len() {
            Some(&self.buffers[i])
        } else {
            None
        }
    }

    pub fn buf_mut(&mut self) -> (r: Option<&mut Buffer>)
        ensures
            r is Some == old(self)@.has_buf(),
            r is None ==> *final(self) == *old(self),
            r is Some ==> (*(r->0))@ == old(self)@.buf(),
            r is Some ==> final(self)@ == old(self)@.with_buf((*final(r->0))@),
    {
        let i: usize = self.active();
        if i < self.buffers.len() {
            Some(&mut self.buffers[i])
        } else {
            None
        }
    }

    /// Open a second (or further) window on the current buffer along `dir`.
    pub fn split(&mut self, dir: SplitDir)
        requires
            old(self).active_win < old(self).windows@.len(),
        ensures
            final(self)@ == old(self)@.split_along(dir),
            old(self)@.wf() ==> final(self)@.wf(),
    {
        let buffer: usize = self.active();
        self.split_dir = dir;
        let n: usize = self.windows.len();
        assert(self.active_win < n);
        self.windows.insert(self.active_win + 1, Window { buffer });
        self.active_win = self.active_win + 1;
        assert(self@.windows =~= old(self)@.split_along(dir).windows);
        assert(self@.wf() || !old(self)@.wf()) by {
            if old(self)@.wf() {
                assert forall|i: int| 0 <= i < self@.windows.len() implies 0
                    <= #[trigger] self@.windows[i] < max(self@.buffers.len() as int, 1) by {
                    let o = old(self)@.windows;
                    assert(o[old(self)@.active_win] == buffer);
                    if i < self.active_win {
                        assert(self@.windows[i] == o[i]);
                    } else if i > self.active_win {
                        assert(self@.windows[i] == o[i - 1]);
                    }
                }
            }
        }
    }

    /// Close the focused window; refuses (returning false) on the last one.
    pub fn close_window(&mut self) -> (r: bool)
        requires
            old(self).windows@.len() > 1 ==> old(self).active_win < old(self).windows@.len(),
        ensures
            r == (old(self)@.windows.len() > 1),
            final(self)@ == old(self)@.window_closed(),
            old(self)@.wf() ==> final(self)@.wf(),
    {
        if self.windows.len() <= 1 {
            return false;
        }
        let _gone = self.windows.remove(self.active_win);
        if self.active_win >= self.windows.len() {
            self.active_win = self.windows.len() - 1;
        }
        assert(self@.windows =~= old(self)@.window_closed().windows);
        true
    }

    /// Cycle focus to the next window.
    pub fn next_window(&mut self)
        ensures
            final(self)@ == old(self)@.next_win(),
            old(self)@.wf() ==> final(self)@.wf(),
    {
        if self.windows.len() > 0 {
            let n: u128 = self.windows.len() as u128;
            self.active_win = ((self.active_win as u128 + 1) % n) as usize;
        }
    }

    /// Cycle focus to the previous window.
    pub fn prev_window(&mut self)
        ensures
            final(self)@ == old(self)@.prev_win(),
            old(self)@.wf() ==> final(self)@.wf(),
    {
        if self.windows.len() > 0 {
            let n: u128 = self.windows.len() as u128;
            self.active_win = ((self.active_win as u128 + n - 1) % n) as usize;
        }
    }

    /// Collapse to just the focused window.
    pub fn only(&mut self)
        ensures
            final(self)@ == old(self)@.only_win(),
            old(self)@.wf() ==> final(self)@.wf(),
    {
        if self.active_win < self.windows.len() {
            let w = self.windows[self.active_win];
            self.windows.truncate(0);
            self.windows.push(w);
        } else {
            self.windows.truncate(1);
        }
        self.active_win = 0;
        assert(self@.windows =~= old(self)@.only_win().windows);
    }

    /// Whether one more window fits along `dir` within `text_dims`.
    pub fn can_split(&self, dir: SplitDir) -> (r: bool)
        ensures
            r == self@.fits_split(dir),
    {
        let open: usize = self.windows.len();
        let (total, least): (usize, usize) = match dir {
            SplitDir::Horizontal => (self.text_dims.1 as usize, MIN_WIN_ROWS as usize),
            SplitDir::Vertical => (self.text_dims.0 as usize, MIN_WIN_COLS as usize),
        };
        if open >= total {
            return false;
        }
        (total - open) / (open + 1) >= least
    }

    pub fn info(&mut self, text: &str)
        ensures
            final(self)@ == old(self)@.told(text@),
    {
        self.status = Some(StatusMsg { text: text.to_string(), kind: MsgKind::Info });
    }

    pub fn error(&mut self, text: &str)
        ensures
            final(self)@ == old(self)@.erred(text@),
    {
        self.status = Some(StatusMsg { text: text.to_string(), kind: MsgKind::Error });
    }

    /// Index of the first buffer called `name`.
    pub fn find_buffer(&self, name: &str) -> (r: Option<usize>)
        ensures
            match r {
                Some(i) => buffer_named(self@.buffers, name@, 0) == Some(i as int) && i
                    < self@.buffers.len(),
                None => buffer_named(self@.buffers, name@, 0) is None,
            },
    {
        let mut i: usize = 0;
        while i < self.buffers.len()
            invariant
                i <= self.buffers@.len(),
                buffer_named(self@.buffers, name@, 0) == buffer_named(
                    self@.buffers,
                    name@,
                    i as int,
                ),
            decreases self.buffers@.len() - i,
        {
            if str_same(self.buffers[i].name.as_str(), name) {
                return Some(i);
            }
            i = i + 1;
        }
        None
    }

    /// Add a buffer and show it in the focused window.
    pub fn add_buffer(&mut self, buf: Buffer)
        ensures
            final(self)@ == old(self)@.added(buf@),
            old(self)@.wf() && buf@.wf() ==> final(self)@.wf(),
    {
        broadcast use group_state;

        self.buffers.push(buf);
        assert(old(self)@.wf() && buf@.wf() ==> self@.wf());
        let last: usize = self.buffers.len() - 1;
        self.set_active(last);
    }

    /// Open `name` from the vfs (creating an empty buffer for new files) and focus it.
    pub fn open_file(&mut self, vfs: &Vfs, name: &str)
        ensures
            final(self)@ == old(self)@.opened(vfs@, name@),
            old(self)@.wf() ==> final(self)@.wf(),
    {
        if let Some(i) = self.find_buffer(name) {
            self.set_active(i);
            return;
        }
        let text = match vfs.read(name) {
            Some(t) => t,
            None => String::new(),
        };
        self.add_buffer(Buffer::new(name, text.as_str()));
    }

    /// Write the active buffer to the vfs; returns (name, byte count) on success.
    pub fn save_active(&mut self, vfs: &mut Vfs) -> (r: Option<(String, usize)>)
        ensures
            (final(self)@, final(vfs)@) == old(self)@.saved(old(vfs)@),
            r is Some == old(self)@.has_buf(),
            r is Some ==> (r->0).0@ == old(self)@.buf().name,
            r is Some ==> (r->0).1 == vstd::utf8::encode_utf8(
                unlines(old(self)@.buf().text.lines),
            ).len(),
            old(self)@.wf() ==> final(self)@.wf(),
    {
        broadcast use group_state;

        let idx: usize = self.active();
        if idx >= self.buffers.len() {
            return None;
        }
        let text = self.buffers[idx].text.text();
        let bytes: usize = byte_len(text.as_str());
        let name = self.buffers[idx].name.clone();
        vfs.write(name.as_str(), text.as_str());
        self.buffers[idx].saved_version = self.buffers[idx].text.version();
        assert(self@.buffers =~= old(self)@.saved(old(vfs)@).0.buffers);
        Some((name, bytes))
    }

    /// Close buffer `idx`; refuses (with an error message) when modified unless `force`.
    /// Windows showing it fall back to the nearest remaining buffer.
    pub fn close_buffer(&mut self, idx: usize, force: bool) -> (r: bool)
        ensures
            r == (idx < old(self)@.buffers.len() && !old(self)@.refuses_close(idx as int, force)),
            final(self)@ == old(self)@.closed(idx as int, force),
            old(self)@.wf() ==> final(self)@.wf(),
    {
        if idx >= self.buffers.len() {
            return false;
        }
        if self.buffers[idx].modified() && !force {
            let msg = cat(
                cat("E89: ", self.buffers[idx].name.as_str()).as_str(),
                " has unsaved changes (add ! to override)",
            );
            self.error(msg.as_str());
            return false;
        }
        let _gone = self.buffers.remove(idx);
        assert(bufs(self.buffers@) =~= old(self)@.buffers.remove(idx as int));
        if self.buffers.len() == 0 {
            self.windows.truncate(0);
            self.windows.push(Window { buffer: 0 });
            self.active_win = 0;
            assert(self@.windows =~= seq![0int]);
            return true;
        }
        let last: usize = self.buffers.len() - 1;
        let count: usize = self.windows.len();
        for i in 0..count
            invariant
                count == self.windows@.len(),
                self.windows@.len() == old(self).windows@.len(),
                last == self.buffers@.len() - 1,
                idx <= last + 1,
                self.buffers@ == old(self).buffers@.remove(idx as int),
                *self == (EditorState {
                    buffers: self.buffers,
                    windows: self.windows,
                    ..*old(self)
                }),
                forall|j: int|
                    0 <= j < i ==> (#[trigger] self.windows@[j]).buffer == StV::remapped(
                        old(self).windows@[j].buffer as int,
                        idx as int,
                        last as int,
                    ),
                forall|j: int|
                    i <= j < self.windows@.len() ==> #[trigger] self.windows@[j] == old(
                        self,
                    ).windows@[j],
        {
            let w: usize = self.windows[i].buffer;
            let to: usize = if w > idx {
                w - 1
            } else if w == idx && w > last {
                last
            } else {
                w
            };
            self.windows[i] = Window { buffer: to };
        }
        assert(self@.windows =~= old(self)@.closed(idx as int, force).windows);
        assert(self@.buffers =~= old(self)@.closed(idx as int, force).buffers);
        assert(old(self)@.wf() ==> self@.wf()) by {
            if old(self)@.wf() {
                let o = old(self)@;
                assert forall|i: int| 0 <= i < self@.windows.len() implies 0
                    <= #[trigger] self@.windows[i] < max(self@.buffers.len() as int, 1) by {
                    assert(0 <= o.windows[i] < max(o.buffers.len() as int, 1));
                }
                assert forall|i: int| 0 <= i < self@.buffers.len() implies (
                #[trigger] self@.buffers[i]).wf() by {
                    assert(self@.buffers[i] == o.buffers[if i < idx { i } else { i + 1 }]);
                }
            }
        }
        true
    }

    pub fn next_buffer(&mut self)
        ensures
            final(self)@ == old(self)@.next_buf(),
            old(self)@.wf() ==> final(self)@.wf(),
    {
        if self.buffers.len() > 0 {
            let n: u128 = self.buffers.len() as u128;
            let to: usize = ((self.active() as u128 + 1) % n) as usize;
            self.set_active(to);
        }
    }

    pub fn prev_buffer(&mut self)
        ensures
            final(self)@ == old(self)@.prev_buf(),
            old(self)@.wf() ==> final(self)@.wf(),
    {
        if self.buffers.len() > 0 {
            let n: u128 = self.buffers.len() as u128;
            let to: usize = ((self.active() as u128 + n - 1) % n) as usize;
            self.set_active(to);
        }
    }
}

} // verus!
