//! Laws of the file explorer.

use vstd::prelude::*;

use crate::rvim::explorer::{ExplorerActionV, ExplorerV};
use crate::rvim::fs::VfsV;
use crate::rvim::keys::Key;

verus! {

/// The explorer lists files and waits for a command.
pub open spec fn listing(ex: ExplorerV, vfs: VfsV) -> bool {
    ex.new_name is None && !ex.pending_delete && 0 <= ex.selected < vfs.files.len() && 0
        <= ex.offset
}

/// j and k choose the next and the previous file and stop at the ends, g and G go to the first
/// and the last; the store stays, and what is chosen is never above the rows shown.
pub proof fn law_choosing(ex: ExplorerV, vfs: VfsV)
    requires
        listing(ex, vfs),
    ensures
        ({
            let last = vfs.files.len() - 1;
            let (j, k) = (ex.keyed(vfs, Key::Char('j')), ex.keyed(vfs, Key::Char('k')));
            let (g, e) = (ex.keyed(vfs, Key::Char('g')), ex.keyed(vfs, Key::Char('G')));
            &&& j.0.selected == if ex.selected < last {
                ex.selected + 1
            } else {
                last
            }
            &&& k.0.selected == if ex.selected > 0 {
                ex.selected - 1
            } else {
                0
            }
            &&& g.0.selected == 0 && e.0.selected == last
            &&& j.1 == vfs && k.1 == vfs && g.1 == vfs && e.1 == vfs
            &&& j.2 == ExplorerActionV::Stay && k.2 == ExplorerActionV::Stay
            &&& j.0.offset <= j.0.selected && k.0.offset <= k.0.selected && g.0.offset == 0
            &&& ex.keyed(vfs, Key::Down) == j && ex.keyed(vfs, Key::Up) == k
        }),
{
}

/// Enter opens the chosen file; so do l and the right arrow.
pub proof fn law_opening(ex: ExplorerV, vfs: VfsV)
    requires
        listing(ex, vfs),
    ensures
        ex.keyed(vfs, Key::Enter).2 == ExplorerActionV::Open(vfs.files[ex.selected].0),
        ex.keyed(vfs, Key::Enter).1 == vfs,
        ex.keyed(vfs, Key::Char('l')) == ex.keyed(vfs, Key::Enter),
        ex.keyed(vfs, Key::Right) == ex.keyed(vfs, Key::Enter),
{
}

/// A file is deleted by d twice; after one d any other key gives it up. Nothing leaves the store
/// before it is asked for.
pub proof fn law_deleting(ex: ExplorerV, vfs: VfsV, key: Key)
    requires
        listing(ex, vfs),
    ensures
        ({
            let (once, v, a) = ex.keyed(vfs, Key::Char('d'));
            &&& v == vfs && a == ExplorerActionV::Stay
            &&& once.selected == ex.selected
            &&& once.keyed(vfs, Key::Char('d')).2 == ExplorerActionV::Delete(
                vfs.files[ex.selected].0,
            )
            &&& key != Key::Char('d') ==> once.keyed(vfs, key).2 == ExplorerActionV::Stay
                && once.keyed(vfs, key).1 == vfs
            &&& !once.keyed(vfs, key).0.pending_delete
        }),
{
}

/// A name typed char by char after a becomes the file that Enter makes and opens; Esc gives it
/// up.
pub proof fn law_naming(ex: ExplorerV, vfs: VfsV, name: Seq<char>, c: char)
    requires
        listing(ex, vfs),
    ensures
        ex.keyed(vfs, Key::Char('a')).0.new_name == Some(Seq::<char>::empty()),
        ({
            let typing = ExplorerV { new_name: Some(name), ..ex };
            let (more, v, a) = typing.keyed(vfs, Key::Char(c));
            let back = more.keyed(vfs, Key::Backspace);
            let done = typing.keyed(vfs, Key::Enter);
            &&& more.new_name == Some(name.push(c)) && v == vfs && a == ExplorerActionV::Stay
            &&& back.0.new_name == Some(name) && back.1 == vfs
            &&& typing.keyed(vfs, Key::Esc) == (
                ExplorerV { offset: back.0.offset, ..ex },
                vfs,
                ExplorerActionV::Stay,
            )
            &&& name.len() > 0 ==> done.1 == vfs.write(name, Seq::empty()) && done.2
                == ExplorerActionV::Open(name)
            &&& name.len() == 0 ==> done.1 == vfs && done.2 == ExplorerActionV::Stay
        }),
{
    assert(name.push(c).drop_last() =~= name);
}

/// A tap on a row below the header chooses the file shown there, and opens it when it is chosen
/// already; a tap elsewhere does nothing.
pub proof fn law_tapping(ex: ExplorerV, vfs: VfsV, row: int)
    requires
        listing(ex, vfs),
        ex.offset <= ex.selected,
        0 <= row,
    ensures
        ({
            let (x, a) = ex.tapped(vfs, row);
            let i = ex.offset + row - 1;
            if row >= 1 && i < vfs.files.len() {
                x.selected == i && (if i == ex.selected {
                    a == ExplorerActionV::Open(vfs.files[i].0)
                } else {
                    a == ExplorerActionV::Stay
                })
            } else {
                x == ex && a == ExplorerActionV::Stay
            }
        }),
{
}

} // verus!
