//! Buffers and windows.

use pocketdeck::rvim::state::{Buffer, EditorState, SplitDir};

fn st_with(names: &[&str]) -> EditorState {
    let mut st = EditorState::new();
    for n in names {
        st.buffers.push(Buffer::new(n, "text"));
    }
    st
}

#[test]
fn split_inserts_window_on_same_buffer_and_focuses_it() {
    let mut st = st_with(&["a.rs", "b.rs"]);
    st.set_active(1);
    st.split(SplitDir::Vertical);
    assert_eq!(st.windows.len(), 2);
    assert_eq!(st.active_win, 1);
    assert_eq!(st.split_dir, SplitDir::Vertical);
    assert_eq!(st.windows[0].buffer, 1);
    assert_eq!(st.windows[1].buffer, 1);
}

#[test]
fn close_window_refuses_last_and_clamps_focus() {
    let mut st = st_with(&["a.rs"]);
    assert!(!st.close_window());
    st.split(SplitDir::Horizontal);
    st.split(SplitDir::Horizontal);
    st.active_win = 2;
    assert!(st.close_window());
    assert_eq!(st.active_win, 1);
    assert!(st.close_window());
    assert_eq!(st.windows.len(), 1);
    assert!(!st.close_window());
}

#[test]
fn next_prev_window_cycle() {
    let mut st = st_with(&["a.rs"]);
    st.split(SplitDir::Horizontal);
    st.split(SplitDir::Horizontal);
    st.active_win = 0;
    st.next_window();
    assert_eq!(st.active_win, 1);
    st.prev_window();
    st.prev_window();
    assert_eq!(st.active_win, 2);
    st.next_window();
    assert_eq!(st.active_win, 0);
}

#[test]
fn only_keeps_focused_window() {
    let mut st = st_with(&["a.rs", "b.rs"]);
    st.split(SplitDir::Horizontal);
    st.set_active(1);
    st.only();
    assert_eq!(st.windows.len(), 1);
    assert_eq!(st.active_win, 0);
    assert_eq!(st.active(), 1);
}

#[test]
fn close_buffer_remaps_window_buffer_indices() {
    let mut st = st_with(&["a.rs", "b.rs", "c.rs"]);
    st.split(SplitDir::Horizontal);
    st.windows[0].buffer = 0;
    st.windows[1].buffer = 2;
    assert!(st.close_buffer(1, false));
    assert_eq!(st.windows[0].buffer, 0);
    assert_eq!(st.windows[1].buffer, 1);
    assert!(st.close_buffer(1, false));
    assert_eq!(st.windows[1].buffer, 0);
}

#[test]
fn close_last_buffer_resets_windows() {
    let mut st = st_with(&["a.rs"]);
    st.split(SplitDir::Vertical);
    assert!(st.close_buffer(0, false));
    assert!(st.buffers.is_empty());
    assert_eq!(st.windows.len(), 1);
    assert_eq!(st.active_win, 0);
}

#[test]
fn can_split_respects_minimum_sizes() {
    let mut st = st_with(&["a.rs"]);
    st.text_dims = (80, 22);
    assert!(st.can_split(SplitDir::Horizontal));
    assert!(st.can_split(SplitDir::Vertical));
    st.text_dims = (20, 5);
    assert!(st.can_split(SplitDir::Horizontal));
    assert!(!st.can_split(SplitDir::Vertical));
    st.text_dims = (21, 5);
    assert!(st.can_split(SplitDir::Vertical));
    st.split(SplitDir::Horizontal);
    assert!(!st.can_split(SplitDir::Horizontal));
    st.text_dims = (10, 3);
    st.windows.truncate(1);
    assert!(!st.can_split(SplitDir::Horizontal));
    assert!(!st.can_split(SplitDir::Vertical));
}
