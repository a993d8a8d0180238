//! Sessions: snapshots, restoring, and the bytes between them.

use pocketdeck::rvim::buffer::Position;
use pocketdeck::rvim::explorer::ExplorerState;
use pocketdeck::rvim::session::{
    apply_session, collect_session, decode_session, encode_session, BufSession, Session,
};
use pocketdeck::rvim::state::{Buffer, EditorState, SplitDir};

#[test]
fn session_roundtrip_restores_windows_and_explorer() {
    let mut st = EditorState::new();
    st.buffers.push(Buffer::new("a.rs", "alpha"));
    st.buffers.push(Buffer::new("b.rs", "bravo"));
    st.buffers[1].text.insert_char(Position::default(), 'x');
    st.buffers[1].cursor = Position::new(0, 3);
    st.split(SplitDir::Vertical);
    st.windows[0].buffer = 1;
    st.active_win = 1;
    st.explorer = Some(ExplorerState::new());

    let bytes = encode_session(&collect_session(&st)).unwrap();
    let mut re = EditorState::new();
    apply_session(&mut re, decode_session(&bytes).unwrap());

    assert_eq!(re.buffers.len(), 2);
    assert_eq!(re.buffers[1].name, "b.rs");
    assert_eq!(re.buffers[1].text.text(), "xbravo");
    assert!(re.buffers[1].modified());
    assert!(!re.buffers[0].modified());
    assert_eq!(re.buffers[1].cursor, Position::new(0, 3));
    assert_eq!(re.windows.len(), 2);
    assert_eq!(re.windows[0].buffer, 1);
    assert_eq!(re.windows[1].buffer, 0);
    assert_eq!(re.active_win, 1);
    assert_eq!(re.split_dir, SplitDir::Vertical);
    assert!(re.explorer.is_some());
    assert!(!re.explorer_focused);
}

#[test]
fn apply_session_clamps_bad_indices() {
    let session = Session {
        buffers: vec![BufSession {
            name: "a.rs".into(),
            text: "x".into(),
            cursor: Position::new(99, 99),
            modified: false,
        }],
        active: 42,
        windows: vec![7, 0, 9],
        active_win: 12,
        split_vertical: false,
        explorer_visible: false,
    };
    let mut st = EditorState::new();
    apply_session(&mut st, session);
    assert_eq!(st.buffers[0].cursor, Position::new(0, 0));
    assert!(st.windows.iter().all(|w| w.buffer == 0));
    assert_eq!(st.active_win, 2);
    assert!(st.explorer.is_none());
}

#[test]
fn apply_session_survives_empty_everything() {
    let session = Session {
        buffers: Vec::new(),
        active: 0,
        windows: Vec::new(),
        active_win: 0,
        split_vertical: true,
        explorer_visible: true,
    };
    let mut st = EditorState::new();
    apply_session(&mut st, session);
    assert!(st.buffers.is_empty());
    assert_eq!(st.windows.len(), 1);
    assert_eq!(st.active_win, 0);
    assert_eq!(st.split_dir, SplitDir::Vertical);
    assert!(st.explorer.is_some());
}

#[test]
fn stale_session_bytes_fail_decode_silently() {
    // Bytes without the window fields; decoding must simply fail.
    assert!(decode_session(&[1, 0]).is_none());
    assert!(decode_session(&[]).is_none());
}
