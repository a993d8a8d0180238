//! Neo-tree-style file explorer sidebar: lists vfs files, keyboard- and tap-navigable.

use vstd::prelude::*;

use crate::rvim::buffer::{max, min};
use crate::rvim::fs::{holds, slot, Vfs, VfsV};
use crate::rvim::keys::Key;
use crate::rvim::state::{buffer_named, EditorState, StV};
use crate::text::{cat, without_last};

verus! {

/// What the explorer wants the caller to do after a key or tap.
#[derive(Debug, Clone, PartialEq, Eq)]
pub enum ExplorerAction {
    /// Keep the explorer focused.
    Stay,
    /// Open this file in the focused window and move focus to the editor.
    Open(String),
    /// Hide the explorer entirely.
    Close,
    /// Keep the explorer visible but move focus back to the editor.
    FocusEditor,
    /// Delete this file, unless a modified buffer holds it.
    Delete(String),
}

/// Model of an explorer action.
pub enum ExplorerActionV {
    Stay,
    Open(Seq<char>),
    Close,
    FocusEditor,
    Delete(Seq<char>),
}

impl View for ExplorerAction {
    type V = ExplorerActionV;

    open spec fn view(&self) -> ExplorerActionV {
        match *self {
            ExplorerAction::Stay => ExplorerActionV::Stay,
            ExplorerAction::Open(name) => ExplorerActionV::Open(name@),
            ExplorerAction::Close => ExplorerActionV::Close,
            ExplorerAction::FocusEditor => ExplorerActionV::FocusEditor,
            ExplorerAction::Delete(name) => ExplorerActionV::Delete(name@),
        }
    }
}

pub struct ExplorerState {
    pub selected: usize,
    /// First visible row when the list overflows the sidebar.
    pub offset: usize,
    /// `Some` while typing a new file name after `a`.
    pub new_name: Option<String>,
    /// A `d` was pressed; the next `d` deletes the selected file.
    pub pending_delete: bool,
}

/// Model of the explorer.
pub struct ExplorerV {
    pub selected: int,
    pub offset: int,
    pub new_name: Option<Seq<char>>,
    pub pending_delete: bool,
}

impl View for ExplorerState {
    type V = ExplorerV;

    open spec fn view(&self) -> ExplorerV {
        ExplorerV {
            selected: self.selected as int,
            offset: self.offset as int,
            new_name: match self.new_name {
                Some(n) => Some(n@),
                None => None,
            },
            pending_delete: self.pending_delete,
        }
    }
}

impl ExplorerV {
    pub open spec fn fresh() -> ExplorerV {
        ExplorerV { selected: 0, offset: 0, new_name: None, pending_delete: false }
    }

    /// The selection on one of `len` files, and not above the first visible row.
    pub open spec fn clamped(self, len: int) -> ExplorerV {
        let selected = min(self.selected, max(len - 1, 0));
        ExplorerV { selected, offset: min(self.offset, selected), ..self }
    }

    /// The selection moved, the first visible row not below it.
    pub open spec fn moved(self, selected: int) -> ExplorerV {
        ExplorerV { selected, offset: min(self.offset, selected), ..self }
    }

    /// A key while a new file's name is being typed.
    pub open spec fn named(self, vfs: VfsV, name: Seq<char>, key: Key) -> (
        ExplorerV,
        VfsV,
        ExplorerActionV,
    ) {
        match key {
            Key::Char(c) => (
                ExplorerV { new_name: Some(name.push(c)), ..self },
                vfs,
                ExplorerActionV::Stay,
            ),
            Key::Backspace => (
                ExplorerV {
                    new_name: Some(
                        if name.len() == 0 {
                            name
                        } else {
                            name.drop_last()
                        },
                    ),
                    ..self
                },
                vfs,
                ExplorerActionV::Stay,
            ),
            Key::Enter => {
                let ex = ExplorerV { new_name: None, ..self };
                if name.len() > 0 {
                    let w = vfs.write(name, Seq::empty());
                    (
                        ExplorerV {
                            selected: if holds(w.files, name) {
                                slot(w.files, name)
                            } else {
                                ex.selected
                            },
                            ..ex
                        },
                        w,
                        ExplorerActionV::Open(name),
                    )
                } else {
                    (ex, vfs, ExplorerActionV::Stay)
                }
            },
            Key::Esc => (ExplorerV { new_name: None, ..self }, vfs, ExplorerActionV::Stay),
            Key::Ctrl(c) => (
                if c == 'c' {
                    ExplorerV { new_name: None, ..self }
                } else {
                    self
                },
                vfs,
                ExplorerActionV::Stay,
            ),
            _ => (self, vfs, ExplorerActionV::Stay),
        }
    }

    /// The selected file, as an action.
    pub open spec fn opened(self, vfs: VfsV) -> (ExplorerV, VfsV, ExplorerActionV) {
        if self.selected < vfs.files.len() {
            (self, vfs, ExplorerActionV::Open(vfs.files[self.selected].0))
        } else {
            (self.moved(self.selected), vfs, ExplorerActionV::Stay)
        }
    }

    /// A key in the list.
    pub open spec fn listed(self, vfs: VfsV, key: Key) -> (ExplorerV, VfsV, ExplorerActionV) {
        let len = vfs.files.len() as int;
        let down = self.moved(min(self.selected + 1, max(len - 1, 0)));
        let up = self.moved(max(self.selected - 1, 0));
        match key {
            Key::Down => (down, vfs, ExplorerActionV::Stay),
            Key::Up => (up, vfs, ExplorerActionV::Stay),
            Key::Enter | Key::Right => self.opened(vfs),
            Key::Left | Key::Esc => (self, vfs, ExplorerActionV::FocusEditor),
            Key::Ctrl(c) => if c == 'c' {
                (self, vfs, ExplorerActionV::FocusEditor)
            } else {
                (self.moved(self.selected), vfs, ExplorerActionV::Stay)
            },
            Key::Char(c) => if c == 'j' {
                (down, vfs, ExplorerActionV::Stay)
            } else if c == 'k' {
                (up, vfs, ExplorerActionV::Stay)
            } else if c == 'g' {
                (self.moved(0), vfs, ExplorerActionV::Stay)
            } else if c == 'G' {
                (self.moved(max(len - 1, 0)), vfs, ExplorerActionV::Stay)
            } else if c == 'l' {
                self.opened(vfs)
            } else if c == 'h' {
                (self, vfs, ExplorerActionV::FocusEditor)
            } else if c == 'a' {
                (
                    ExplorerV { new_name: Some(Seq::empty()), ..self.moved(self.selected) },
                    vfs,
                    ExplorerActionV::Stay,
                )
            } else if c == 'd' {
                (
                    ExplorerV { pending_delete: true, ..self.moved(self.selected) },
                    vfs,
                    ExplorerActionV::Stay,
                )
            } else if c == 'q' {
                (self, vfs, ExplorerActionV::Close)
            } else {
                (self.moved(self.selected), vfs, ExplorerActionV::Stay)
            },
            _ => (self.moved(self.selected), vfs, ExplorerActionV::Stay),
        }
    }

    /// The explorer, the store and the requested action after a key.
    pub open spec fn keyed(self, vfs: VfsV, key: Key) -> (ExplorerV, VfsV, ExplorerActionV) {
        let ex = self.clamped(vfs.files.len() as int);
        match ex.new_name {
            Some(name) => ex.named(vfs, name, key),
            None => if ex.pending_delete {
                let ex = ExplorerV { pending_delete: false, ..ex };
                if key == Key::Char('d') && ex.selected < vfs.files.len() {
                    (ex, vfs, ExplorerActionV::Delete(vfs.files[ex.selected].0))
                } else {
                    (ex, vfs, ExplorerActionV::Stay)
                }
            } else {
                ex.listed(vfs, key)
            },
        }
    }

    /// The explorer and the requested action after a tap on row `row`; row 0 is the header.
    pub open spec fn tapped(self, vfs: VfsV, row: int) -> (ExplorerV, ExplorerActionV) {
        let ex = self.clamped(vfs.files.len() as int);
        let idx = row - 1 + ex.offset;
        if row == 0 || idx >= vfs.files.len() {
            (ex, ExplorerActionV::Stay)
        } else if idx == ex.selected {
            (ex, ExplorerActionV::Open(vfs.files[idx].0))
        } else {
            (ExplorerV { selected: idx, ..ex }, ExplorerActionV::Stay)
        }
    }
}

impl ExplorerState {
    pub fn new() -> (r: Self)
        ensures
            r@ == ExplorerV::fresh(),
    {
        ExplorerState { selected: 0, offset: 0, new_name: None, pending_delete: false }
    }

    pub fn clamp(&mut self, len: usize)
        ensures
            final(self)@ == old(self)@.clamped(len as int),
    {
        let last: usize = if len > 0 {
            len - 1
        } else {
            0
        };
        if self.selected > last {
            self.selected = last;
        }
        self.settle();
    }

    /// Keep the first visible row at or above the selection.
    fn settle(&mut self)
        ensures
            final(self)@ == old(self)@.moved(old(self)@.selected),
    {
        if self.offset > self.selected {
            self.offset = self.selected;
        }
    }

    /// Route a key into the explorer (j/k move, Enter/l open, a add, dd delete,
    /// Esc back to editor).
    pub fn handle_key(&mut self, vfs: &mut Vfs, key: Key) -> (r: ExplorerAction)
        ensures
            (final(self)@, final(vfs)@, r@) == old(self)@.keyed(old(vfs)@, key),
    {
        let len: usize = vfs.len();
        self.clamp(len);
        if self.new_name.is_some() {
            return self.name_key(vfs, key);
        }
        if self.pending_delete {
            self.pending_delete = false;
            if key == Key::Char('d') {
                if let Some(name) = vfs.name_at(self.selected) {
                    return ExplorerAction::Delete(name.to_string());
                }
            }
            return ExplorerAction::Stay;
        }
        self.list_key(vfs, key)
    }

    /// A key while a new file's name is being typed.
    fn name_key(&mut self, vfs: &mut Vfs, key: Key) -> (r: ExplorerAction)
        requires
            old(self)@.new_name is Some,
        ensures
            (final(self)@, final(vfs)@, r@) == old(self)@.named(
                old(vfs)@,
                old(self)@.new_name->0,
                key,
            ),
    {
        let mut name = match self.new_name.take() {
            Some(n) => n,
            None => String::new(),
        };
        match key {
            Key::Char(c) => {
                name.push(c);
                self.new_name = Some(name);
            },
            Key::Backspace => {
                self.new_name = Some(without_last(name.as_str()));
            },
            Key::Enter => {
                if name.as_str().unicode_len() > 0 {
                    let empty = String::new();
                    vfs.write(name.as_str(), empty.as_str());
                    if let Some(i) = vfs.index_of(name.as_str()) {
                        self.selected = i;
                    }
                    return ExplorerAction::Open(name);
                }
            },
            Key::Esc => {},
            Key::Ctrl(c) => {
                if c != 'c' {
                    self.new_name = Some(name);
                }
            },
            _ => {
                self.new_name = Some(name);
            },
        }
        ExplorerAction::Stay
    }

    /// A key in the list.
    fn list_key(&mut self, vfs: &mut Vfs, key: Key) -> (r: ExplorerAction)
        requires
            old(self)@.selected < max(old(vfs)@.files.len() as int, 1),
        ensures
            (final(self)@, final(vfs)@, r@) == old(self)@.listed(old(vfs)@, key),
    {
        let len: usize = vfs.len();
        let last: usize = if len > 0 {
            len - 1
        } else {
            0
        };
        match key {
            Key::Char('j') | Key::Down => {
                if self.selected < last {
                    self.selected = self.selected + 1;
                } else {
                    self.selected = last;
                }
            },
            Key::Char('k') | Key::Up => {
                if self.selected > 0 {
                    self.selected = self.selected - 1;
                }
            },
            Key::Char('g') => {
                self.selected = 0;
            },
            Key::Char('G') => {
                self.selected = last;
            },
            Key::Enter | Key::Char('l') | Key::Right => {
                if let Some(name) = vfs.name_at(self.selected) {
                    return ExplorerAction::Open(name.to_string());
                }
            },
            Key::Char('h') | Key::Left | Key::Esc | Key::Ctrl('c') => {
                return ExplorerAction::FocusEditor;
            },
            Key::Char('a') => {
                self.new_name = Some(String::new());
            },
            Key::Char('d') => {
                self.pending_delete = true;
            },
            Key::Char('q') => {
                return ExplorerAction::Close;
            },
            _ => {},
        }
        self.settle();
        ExplorerAction::Stay
    }

    /// A tap on sidebar row `row` selects (and on the selected row opens) that file.
    pub fn handle_tap(&mut self, vfs: &Vfs, row: usize) -> (r: ExplorerAction)
        ensures
            (final(self)@, r@) == old(self)@.tapped(vfs@, row as int),
    {
        self.clamp(vfs.len());
        // Row 0 is the header; file rows start below it.
        if row == 0 || row - 1 >= vfs.len() {
            return ExplorerAction::Stay;
        }
        let rest: usize = vfs.len() - (row - 1);
        if self.offset >= rest {
            return ExplorerAction::Stay;
        }
        let idx: usize = row - 1 + self.offset;
        match vfs.name_at(idx) {
            Some(name) => {
                if idx == self.selected {
                    ExplorerAction::Open(name.to_string())
                } else {
                    self.selected = idx;
                    ExplorerAction::Stay
                }
            },
            None => ExplorerAction::Stay,
        }
    }
}

/// The editor and the store after an explorer action.
pub open spec fn action_applied(st: StV, vfs: VfsV, action: ExplorerActionV) -> (StV, VfsV) {
    match action {
        ExplorerActionV::Stay => (st, vfs),
        ExplorerActionV::Open(name) => (
            StV { explorer_focused: false, ..st.opened(vfs, name) },
            vfs,
        ),
        ExplorerActionV::Close => (StV { explorer: None, explorer_focused: false, ..st }, vfs),
        ExplorerActionV::FocusEditor => (StV { explorer_focused: false, ..st }, vfs),
        ExplorerActionV::Delete(name) => match buffer_named(st.buffers, name, 0) {
            Some(i) => if st.buffers[i].modified() {
                (st.erred("E89: "@ + name + " has unsaved changes"@), vfs)
            } else {
                deleted(st.closed(i, false), vfs, name)
            },
            None => deleted(st, vfs, name),
        },
    }
}

/// File `name` gone from the store, reported, and the explorer back in range.
pub open spec fn deleted(st: StV, vfs: VfsV, name: Seq<char>) -> (StV, VfsV) {
    let w = vfs.remove(name);
    let s = st.told("removed "@ + name);
    (
        StV {
            explorer: match s.explorer {
                Some(ex) => Some(ex.clamped(w.files.len() as int)),
                None => None,
            },
            ..s
        },
        w,
    )
}

/// Apply an explorer action to the editor state.
pub fn apply_action(st: &mut EditorState, vfs: &mut Vfs, action: ExplorerAction)
    requires
        old(st)@.wf(),
    ensures
        final(st)@.wf(),
        (final(st)@, final(vfs)@) == action_applied(old(st)@, old(vfs)@, action@),
{
    match action {
        ExplorerAction::Stay => {},
        ExplorerAction::Open(name) => {
            st.open_file(vfs, name.as_str());
            st.explorer_focused = false;
        },
        ExplorerAction::Close => {
            st.explorer = None;
            st.explorer_focused = false;
        },
        ExplorerAction::FocusEditor => {
            st.explorer_focused = false;
        },
        ExplorerAction::Delete(name) => {
            if let Some(i) = st.find_buffer(name.as_str()) {
                if st.buffers[i].modified() {
                    st.error(cat(cat("E89: ", name.as_str()).as_str(), " has unsaved changes").as_str());
                    return;
                }
                st.close_buffer(i, false);
            }
            vfs.remove(name.as_str());
            st.info(cat("removed ", name.as_str()).as_str());
            if let Some(ex) = st.explorer.as_mut() {
                ex.clamp(vfs.len());
            }
        },
    }
}

} // verus!
