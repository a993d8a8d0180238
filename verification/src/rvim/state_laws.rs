//! What holds of the editor state across operations.

use vstd::arithmetic::div_mod::{lemma_mod_add_multiples_vanish, lemma_mod_self_0, lemma_small_mod};
use vstd::prelude::*;

use crate::rvim::buffer_laws::law_load_keeps_text;
use crate::rvim::fs::{law_read_after_write, read_of, sorted, VfsV};
use crate::rvim::state::{buffer_named, BufV, SplitDir, StV};
use crate::text::unlines;

verus! {

/// One step forward and one back, or the other way round, on a ring.
proof fn lemma_round(a: int, n: int)
    requires
        0 <= a < n,
    ensures
        0 <= (a + 1) % n < n,
        0 <= (a + n - 1) % n < n,
        ((a + 1) % n + n - 1) % n == a,
        ((a + n - 1) % n + 1) % n == a,
{
    lemma_small_mod(a as nat, n as nat);
    lemma_mod_add_multiples_vanish(a, n);
    lemma_mod_self_0(n);
    lemma_small_mod((n - 1) as nat, n as nat);
    if a + 1 < n {
        lemma_small_mod((a + 1) as nat, n as nat);
    }
    if a > 0 {
        lemma_small_mod((a - 1) as nat, n as nat);
        lemma_mod_add_multiples_vanish(a - 1, n);
        assert(n + (a - 1) == a + n - 1);
    }
    assert(a + 1 + n - 1 == n + a);
}

/// Focusing the next window and then the previous one, or the other way round, changes
/// nothing, as long as the focused window is one of them.
pub proof fn law_window_cycle(st: StV)
    requires
        st.windows.len() > 0 ==> 0 <= st.active_win < st.windows.len(),
    ensures
        st.next_win().prev_win() == st,
        st.prev_win().next_win() == st,
{
    if st.windows.len() > 0 {
        lemma_round(st.active_win, st.windows.len() as int);
    }
}

/// Showing the next buffer and then the previous one, or the other way round, changes nothing,
/// as long as the focused window shows one of them.
pub proof fn law_buffer_cycle(st: StV)
    requires
        0 <= st.active_win,
        st.buffers.len() > 0 && st.active_win < st.windows.len() ==> 0 <= st.active()
            < st.buffers.len(),
    ensures
        st.next_buf().prev_buf() == st,
        st.prev_buf().next_buf() == st,
{
    if st.buffers.len() > 0 && st.active_win < st.windows.len() {
        lemma_round(st.active(), st.buffers.len() as int);
    }
    assert(st.next_buf().prev_buf().windows =~= st.windows);
    assert(st.prev_buf().next_buf().windows =~= st.windows);
}

/// Closing the window a split opened leaves the windows there were.
pub proof fn law_close_undoes_split(st: StV, dir: SplitDir)
    requires
        0 <= st.active_win < st.windows.len(),
    ensures
        st.split_along(dir).window_closed().windows == st.windows,
        st.split_along(dir).window_closed().buffers == st.buffers,
        st.windows_wf() ==> st.split_along(dir).window_closed().windows_wf(),
{
    assert(st.split_along(dir).window_closed().windows =~= st.windows);
}

/// When a buffer closes, every window on another buffer goes on showing that buffer.
pub proof fn law_close_keeps_others(st: StV, idx: int, force: bool, i: int)
    requires
        st.windows_wf(),
        0 <= idx < st.buffers.len(),
        !st.refuses_close(idx, force),
        0 <= i < st.windows.len(),
        st.windows[i] != idx,
    ensures
        ({
            let r = st.closed(idx, force);
            &&& r.windows.len() == st.windows.len()
            &&& 0 <= r.windows[i] < r.buffers.len()
            &&& r.buffers[r.windows[i]] == st.buffers[st.windows[i]]
        }),
{
    assert(0 <= st.windows[i] < st.buffers.len());
}

/// A buffer with unsaved changes closes only when forced to; else nothing but the status
/// changes.
pub proof fn law_unsaved_stays(st: StV, idx: int)
    requires
        0 <= idx < st.buffers.len(),
        st.buffers[idx].modified(),
    ensures
        st.closed(idx, false).buffers == st.buffers,
        st.closed(idx, false).windows == st.windows,
        st.closed(idx, false).active_win == st.active_win,
        st.closed(idx, true).buffers.len() == st.buffers.len() - 1,
{
}

/// Once saved, the focused buffer is unmodified, and its file holds its text.
pub proof fn law_saved_reads_back(st: StV, vfs: VfsV)
    requires
        st.windows_wf(),
        st.has_buf(),
        sorted(vfs.files),
    ensures
        ({
            let (s, v) = st.saved(vfs);
            &&& !s.buf().modified()
            &&& read_of(v.files, st.buf().name) == Some(unlines(st.buf().text.lines))
        }),
{
    law_read_after_write(vfs.files, st.buf().name, unlines(st.buf().text.lines), st.buf().name);
}

proof fn lemma_buffer_named(b: Seq<BufV>, name: Seq<char>, i: int)
    requires
        0 <= i <= b.len(),
    ensures
        buffer_named(b, name, i) matches Some(k) ==> i <= k < b.len() && b[k].name == name,
    decreases b.len() - i,
{
    if i < b.len() && b[i].name != name {
        lemma_buffer_named(b, name, i + 1);
    }
}

/// Opening a file shows a buffer of that name in the focused window.
pub proof fn law_open_shows(st: StV, vfs: VfsV, name: Seq<char>)
    requires
        st.windows_wf(),
    ensures
        st.opened(vfs, name).has_buf(),
        st.opened(vfs, name).buf().name == name,
        st.opened(vfs, name).active_win == st.active_win,
{
    lemma_buffer_named(st.buffers, name, 0);
}

/// What one editor saves, another that does not have the file open reads when it opens it.
pub proof fn law_saved_file_opens(st: StV, vfs: VfsV, other: StV)
    requires
        st.windows_wf(),
        st.has_buf(),
        sorted(vfs.files),
        other.windows_wf(),
        buffer_named(other.buffers, st.buf().name, 0) is None,
    ensures
        ({
            let (s, v) = st.saved(vfs);
            let r = other.opened(v, st.buf().name);
            &&& unlines(r.buf().text.lines) == unlines(st.buf().text.lines)
            &&& !r.buf().modified()
        }),
{
    law_saved_reads_back(st, vfs);
    law_load_keeps_text(unlines(st.buf().text.lines));
}

} // verus!
