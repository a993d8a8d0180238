//! Session snapshots: open buffers, window layout and focus, kept across reloads.

use vstd::prelude::*;

use crate::rvim::buffer::{clamped, min, pos, Position, TextV};
use crate::rvim::buffer_laws::law_load_keeps_text;
use crate::rvim::explorer::{ExplorerState, ExplorerV};
use crate::rvim::state::{bufs, wins, BufV, Buffer, EditorState, SplitDir, StV, Window};
use crate::text::{lines_of, unlines};

verus! {

/// Hot-reload session snapshot: open buffers, window layout, and focus.
pub struct Session {
    pub buffers: Vec<BufSession>,
    pub active: usize,
    /// Buffer index each window shows.
    pub windows: Vec<usize>,
    pub active_win: usize,
    pub split_vertical: bool,
    pub explorer_visible: bool,
}

pub struct BufSession {
    pub name: String,
    pub text: String,
    pub cursor: Position,
    pub modified: bool,
}

/// Model of a buffer's snapshot: name, text, cursor and whether it was modified.
pub type BufSnap = (Seq<char>, Seq<char>, (int, int), bool);

/// Model of a session: buffers, active buffer, windows, active window, whether they stand side
/// by side, whether the explorer shows.
pub type SessionV = (Seq<BufSnap>, int, Seq<int>, int, bool, bool);

impl View for BufSession {
    type V = BufSnap;

    open spec fn view(&self) -> BufSnap {
        (
            self.name@,
            self.text@,
            (self.cursor.line as int, self.cursor.col as int),
            self.modified,
        )
    }
}

pub open spec fn snaps(s: Seq<BufSession>) -> Seq<BufSnap> {
    Seq::new(s.len(), |i: int| s[i]@)
}

/// Indices as mathematical integers.
pub open spec fn indices(s: Seq<usize>) -> Seq<int> {
    Seq::new(s.len(), |i: int| s[i] as int)
}

impl View for Session {
    type V = SessionV;

    open spec fn view(&self) -> SessionV {
        (
            snaps(self.buffers@),
            self.active as int,
            indices(self.windows@),
            self.active_win as int,
            self.split_vertical,
            self.explorer_visible,
        )
    }
}

/// A buffer as its snapshot keeps it.
pub open spec fn snap_of(b: BufV) -> BufSnap {
    (b.name, unlines(b.text.lines), (b.cursor.line, b.cursor.col), b.modified())
}

/// The editor as a session keeps it.
pub open spec fn session_of(st: StV) -> SessionV {
    (
        Seq::new(st.buffers.len(), |i: int| snap_of(st.buffers[i])),
        st.active(),
        st.windows,
        st.active_win,
        st.split_dir is Vertical,
        st.explorer is Some,
    )
}

/// Snapshot the editor state.
pub fn collect_session(st: &EditorState) -> (r: Session)
    ensures
        r@ == session_of(st@),
{
    let mut buffers: Vec<BufSession> = Vec::new();
    let mut i: usize = 0;
    while i < st.buffers.len()
        invariant
            i <= st.buffers@.len(),
            snaps(buffers@) =~= session_of(st@).0.take(i as int),
        decreases st.buffers@.len() - i,
    {
        let ghost done = snaps(buffers@);
        let b = &st.buffers[i];
        let snap = BufSession {
            name: b.name.clone(),
            text: b.text.text(),
            cursor: b.cursor,
            modified: b.modified(),
        };
        assert(b@ == st@.buffers[i as int]);
        assert(snap@ == snap_of(b@));
        buffers.push(snap);
        assert(snaps(buffers@) =~= done.push(snap_of(b@)));
        i = i + 1;
    }
    let mut windows: Vec<usize> = Vec::new();
    let mut k: usize = 0;
    while k < st.windows.len()
        invariant
            k <= st.windows@.len(),
            indices(windows@) =~= st@.windows.take(k as int),
        decreases st.windows@.len() - k,
    {
        let ghost done = indices(windows@);
        windows.push(st.windows[k].buffer);
        assert(indices(windows@) =~= done.push(st@.windows[k as int]));
        k = k + 1;
    }
    let r = Session {
        buffers,
        active: st.active(),
        windows,
        active_win: st.active_win,
        split_vertical: match st.split_dir {
            SplitDir::Vertical => true,
            SplitDir::Horizontal => false,
        },
        explorer_visible: st.explorer.is_some(),
    };
    proof {
        assert(r@.0 =~= session_of(st@).0);
        assert(r@.2 =~= session_of(st@).2);
    }
    r
}

/// A buffer rebuilt from its snapshot, the cursor on a char.
pub open spec fn rebuilt(b: BufSnap) -> BufV {
    BufV {
        cursor: clamped(lines_of(b.1), pos((b.2).0, (b.2).1), false),
        saved_version: if b.3 {
            u64::MAX
        } else {
            0
        },
        ..BufV::fresh(b.0, b.1)
    }
}

/// The windows of a session, each on a buffer that exists; one window where there is none.
pub open spec fn rewindowed(windows: Seq<int>, n: int) -> Seq<int> {
    if windows.len() == 0 || n == 0 {
        seq![0]
    } else {
        Seq::new(windows.len(), |i: int| min(windows[i], n - 1))
    }
}

/// The editor with a session put in place of its buffers and windows.
pub open spec fn restored(st: StV, s: SessionV) -> StV {
    let n = s.0.len();
    let windows = rewindowed(s.2, n as int);
    let r = StV {
        buffers: Seq::new(n, |i: int| rebuilt(s.0[i])),
        windows,
        active_win: min(s.3, windows.len() - 1),
        split_dir: if s.4 {
            SplitDir::Vertical
        } else {
            SplitDir::Horizontal
        },
        explorer: if s.5 {
            Some(ExplorerV::fresh())
        } else {
            None
        },
        explorer_focused: false,
        ..st
    };
    if windows.len() == 1 {
        r.activated(s.1)
    } else {
        r
    }
}

fn rebuild(b: &BufSession) -> (r: Buffer)
    ensures
        r@ == rebuilt(b@),
        r@.wf(),
{
    let mut buf = Buffer::new(b.name.as_str(), b.text.as_str());
    buf.cursor = buf.text.clamp(b.cursor, false);
    buf.saved_version = if b.modified {
        u64::MAX
    } else {
        0
    };
    buf
}

/// Rebuild the editor state from a decoded session, clamping every index.
pub fn apply_session(st: &mut EditorState, session: Session)
    ensures
        final(st)@ == restored(old(st)@, session@),
        final(st)@.wf(),
{
    let ghost s = session@;
    let ghost want = restored(st@, s);
    let mut buffers: Vec<Buffer> = Vec::new();
    let n: usize = session.buffers.len();
    let mut i: usize = 0;
    while i < n
        invariant
            n == session.buffers@.len(),
            s == session@,
            i <= n,
            buffers@.len() == i,
            forall|k: int|
                0 <= k < i ==> (#[trigger] buffers@[k])@ == rebuilt(s.0[k]) && buffers@[k]@.wf(),
        decreases n - i,
    {
        assert(s.0[i as int] == session.buffers@[i as int]@);
        buffers.push(rebuild(&session.buffers[i]));
        i = i + 1;
    }
    let last: usize = if n > 0 {
        n - 1
    } else {
        0
    };
    let mut windows: Vec<Window> = Vec::new();
    let count: usize = session.windows.len();
    if count == 0 || n == 0 {
        windows.push(Window { buffer: 0 });
    } else {
        let mut k: usize = 0;
        while k < count
            invariant
                count == session.windows@.len(),
                s == session@,
                k <= count,
                last == n - 1,
                windows@.len() == k,
                forall|j: int|
                    0 <= j < k ==> (#[trigger] windows@[j]).buffer as int == min(s.2[j], n - 1),
            decreases count - k,
        {
            assert(s.2[k as int] == session.windows@[k as int]);
            let b: usize = session.windows[k];
            windows.push(
                Window {
                    buffer: if b < last {
                        b
                    } else {
                        last
                    },
                },
            );
            k = k + 1;
        }
    }
    let total: usize = windows.len();
    proof {
        assert(wins(windows@) =~= rewindowed(s.2, n as int));
        assert(bufs(buffers@) =~= Seq::new(s.0.len(), |i: int| rebuilt(s.0[i])));
    }
    st.buffers = buffers;
    st.windows = windows;
    st.active_win = if session.active_win < total {
        session.active_win
    } else {
        total - 1
    };
    st.split_dir = if session.split_vertical {
        SplitDir::Vertical
    } else {
        SplitDir::Horizontal
    };
    st.explorer = if session.explorer_visible {
        Some(ExplorerState::new())
    } else {
        None
    };
    st.explorer_focused = false;
    let ghost mid = st@;
    proof {
        assert forall|k: int| 0 <= k < mid.buffers.len() implies (
        #[trigger] mid.buffers[k]).wf() by {
            assert(st.buffers@[k]@.wf());
        }
        assert(mid.wf());
    }
    if total == 1 {
        st.set_active(session.active);
    }
    assert(st@ =~= want);
}

/// A session taken from a well-formed editor and applied again gives back every buffer's name,
/// text and modified mark, the cursor where it stood (on the last char where it was past it),
/// the windows with their split, the focused window, and whether the explorer shows.
pub proof fn law_session_round_trip(st: StV, other: StV, i: int)
    requires
        st.wf(),
        0 <= i < st.buffers.len(),
    ensures
        ({
            let r = restored(other, session_of(st));
            let b = st.buffers[i];
            &&& r.buffers.len() == st.buffers.len()
            &&& r.buffers[i].name == b.name
            &&& unlines(r.buffers[i].text.lines) == unlines(b.text.lines)
            &&& r.buffers[i].modified() == b.modified()
            &&& r.buffers[i].text.lines == b.text.lines ==> r.buffers[i].cursor == clamped(
                b.text.lines,
                b.cursor,
                false,
            )
            &&& r.windows == st.windows
            &&& r.active_win == st.active_win
            &&& r.split_dir == st.split_dir
            &&& r.explorer is Some == st.explorer is Some
            &&& r.wf()
        }),
{
    let s = session_of(st);
    let r = restored(other, s);
    let b = st.buffers[i];
    law_load_keeps_text(unlines(b.text.lines));
    assert(s.0[i] == snap_of(b));
    assert(r.buffers[i] == rebuilt(snap_of(b)));
    assert(rewindowed(s.2, s.0.len() as int) =~= st.windows);
    if st.windows.len() == 1 {
        assert(r.windows =~= st.windows);
    }
    assert forall|k: int| 0 <= k < r.buffers.len() implies (#[trigger] r.buffers[k]).wf() by {
        assert(st.buffers[k].wf());
        lemma_rebuilt_wf(st.buffers[k]);
        assert(r.buffers[k] == rebuilt(snap_of(st.buffers[k])));
    }
}

proof fn lemma_rebuilt_wf(b: BufV)
    requires
        b.wf(),
    ensures
        rebuilt(snap_of(b)).wf(),
{
    law_load_keeps_text(unlines(b.text.lines));
    reveal(clamped);
    reveal(TextV::wf);
}

/// `postcard::to_stdvec` on a session; `None` is an encoding failure.
pub uninterp spec fn session_encoding(s: SessionV) -> Option<Seq<u8>>;

/// `postcard::from_bytes` into a session, where `usize` has `width` bits; `None` is a decoding
/// failure.
pub uninterp spec fn session_decoding(bytes: Seq<u8>, width: int) -> Option<SessionV>;

/// A session as plain values, field by field.
type Wire = (Vec<(String, String, (usize, usize), bool)>, usize, Vec<usize>, usize, bool, bool);

spec fn wire_bufs(s: Seq<(String, String, (usize, usize), bool)>) -> Seq<BufSnap> {
    Seq::new(s.len(), |i: int| (s[i].0@, s[i].1@, ((s[i].2).0 as int, (s[i].2).1 as int), s[i].3))
}

spec fn wire_view(w: Wire) -> SessionV {
    (wire_bufs(w.0@), w.1 as int, indices(w.2@), w.3 as int, w.4, w.5)
}

/// `postcard::to_stdvec`: encodes a session. The result depends on the session alone, and
/// decodes to it again.
#[verifier::external_body]
fn encode_wire(w: &Wire) -> (r: Option<Vec<u8>>)
    ensures
        r is Some == session_encoding(wire_view(*w)) is Some,
        r is Some ==> session_encoding(wire_view(*w)) == Some((r->0)@),
        r is Some ==> session_decoding((r->0)@, usize::BITS as int) == Some(wire_view(*w)),
{
    postcard::to_stdvec(w).ok()
}

/// `postcard::from_bytes`: decodes a session. The result depends on the bytes, and on the width
/// of `usize`, in which numbers and lengths are read.
#[verifier::external_body]
fn decode_wire(bytes: &[u8]) -> (r: Option<Wire>)
    ensures
        r is Some == session_decoding(bytes@, usize::BITS as int) is Some,
        r is Some ==> session_decoding(bytes@, usize::BITS as int) == Some(wire_view(r->0)),
{
    postcard::from_bytes(bytes).ok()
}

/// The bytes of a session; none where it cannot be encoded.
pub fn encode_session(session: &Session) -> (r: Option<Vec<u8>>)
    ensures
        r is Some == session_encoding(session@) is Some,
        r is Some ==> session_encoding(session@) == Some((r->0)@),
        r is Some ==> session_decoding((r->0)@, usize::BITS as int) == Some(session@),
{
    let mut buffers: Vec<(String, String, (usize, usize), bool)> = Vec::new();
    let mut i: usize = 0;
    while i < session.buffers.len()
        invariant
            i <= session.buffers@.len(),
            wire_bufs(buffers@) =~= session@.0.take(i as int),
        decreases session.buffers@.len() - i,
    {
        let ghost done = wire_bufs(buffers@);
        let b = &session.buffers[i];
        buffers.push(
            (b.name.clone(), b.text.clone(), (b.cursor.line, b.cursor.col), b.modified),
        );
        assert(session@.0[i as int] == b@);
        assert(wire_bufs(buffers@) =~= done.push(b@));
        i = i + 1;
    }
    let mut windows: Vec<usize> = Vec::new();
    let mut k: usize = 0;
    while k < session.windows.len()
        invariant
            k <= session.windows@.len(),
            windows@ =~= session.windows@.take(k as int),
        decreases session.windows@.len() - k,
    {
        windows.push(session.windows[k]);
        k = k + 1;
    }
    let w: Wire = (
        buffers,
        session.active,
        windows,
        session.active_win,
        session.split_vertical,
        session.explorer_visible,
    );
    proof {
        assert(wire_view(w).0 =~= session@.0);
        assert(windows@ =~= session.windows@);
    }
    encode_wire(&w)
}

/// The session that bytes stand for; none where they cannot be decoded.
pub fn decode_session(bytes: &[u8]) -> (r: Option<Session>)
    ensures
        r is Some == session_decoding(bytes@, usize::BITS as int) is Some,
        r is Some ==> session_decoding(bytes@, usize::BITS as int) == Some((r->0)@),
{
    match decode_wire(bytes) {
        Some(w) => {
            let mut buffers: Vec<BufSession> = Vec::new();
            let mut i: usize = 0;
            while i < w.0.len()
                invariant
                    i <= w.0@.len(),
                    snaps(buffers@) =~= wire_bufs(w.0@).take(i as int),
                decreases w.0@.len() - i,
            {
                let ghost done = snaps(buffers@);
                let b = &w.0[i];
                let cursor = b.2;
                buffers.push(
                    BufSession {
                        name: b.0.clone(),
                        text: b.1.clone(),
                        cursor: Position::new(cursor.0, cursor.1),
                        modified: b.3,
                    },
                );
                assert(snaps(buffers@) =~= done.push(wire_bufs(w.0@)[i as int]));
                i = i + 1;
            }
            let s = Session {
                buffers,
                active: w.1,
                windows: w.2,
                active_win: w.3,
                split_vertical: w.4,
                explorer_visible: w.5,
            };
            assert(s@.0 =~= wire_view(w).0);
            Some(s)
        },
        None => None,
    }
}

/// The bytes a session is saved as; empty where it cannot be encoded.
pub open spec fn saved_bytes(st: StV) -> Seq<u8> {
    match session_encoding(session_of(st)) {
        Some(b) => b,
        None => Seq::empty(),
    }
}

/// The editor with saved bytes restored; bytes that cannot be decoded change nothing.
pub open spec fn reloaded(st: StV, bytes: Seq<u8>) -> StV {
    match session_decoding(bytes, usize::BITS as int) {
        Some(s) => restored(st, s),
        None => st,
    }
}

/// Save the session. The bytes, where there are any, decode to it again.
pub fn save_state(st: &EditorState) -> (r: Vec<u8>)
    ensures
        r@ == saved_bytes(st@),
        session_encoding(session_of(st@)) is Some ==> session_decoding(
            r@,
            usize::BITS as int,
        ) == Some(session_of(st@)),
{
    match encode_session(&collect_session(st)) {
        Some(b) => b,
        None => {
            let r: Vec<u8> = Vec::new();
            assert(r@ =~= Seq::<u8>::empty());
            r
        },
    }
}

/// Restore a saved session.
pub fn restore_state(st: &mut EditorState, bytes: &[u8])
    ensures
        final(st)@ == reloaded(old(st)@, bytes@),
        old(st)@.wf() ==> final(st)@.wf(),
{
    if let Some(session) = decode_session(bytes) {
        apply_session(st, session);
    }
}

} // verus!
