//! The explorer sidebar.

use pocketdeck::host::HostCallError;
use pocketdeck::rvim::buffer::Position;
use pocketdeck::rvim::explorer::{apply_action, ExplorerAction, ExplorerState};
use pocketdeck::rvim::fs::Vfs;
use pocketdeck::rvim::keys::Key;
use pocketdeck::rvim::state::{Buffer, EditorState};

fn empty_vfs() -> Vfs {
    Vfs::load(Err(HostCallError::Failed("no host".to_string())), Vec::new())
}

fn vfs(names: &[&str]) -> Vfs {
    let mut v = empty_vfs();
    for n in names {
        v.write(n, "x");
    }
    v
}

#[test]
fn navigation_clamps_and_wraps_nothing() {
    let mut v = vfs(&["a.rs", "b.rs", "c.md"]);
    let mut ex = ExplorerState::new();
    ex.handle_key(&mut v, Key::Char('k'));
    assert_eq!(ex.selected, 0);
    ex.handle_key(&mut v, Key::Char('j'));
    ex.handle_key(&mut v, Key::Down);
    assert_eq!(ex.selected, 2);
    ex.handle_key(&mut v, Key::Char('j'));
    assert_eq!(ex.selected, 2);
    ex.handle_key(&mut v, Key::Char('g'));
    assert_eq!(ex.selected, 0);
    ex.handle_key(&mut v, Key::Char('G'));
    assert_eq!(ex.selected, 2);
    ex.handle_key(&mut v, Key::Up);
    assert_eq!(ex.selected, 1);
}

#[test]
fn enter_and_l_open_selected() {
    let mut v = vfs(&["a.rs", "b.rs"]);
    let mut ex = ExplorerState::new();
    ex.handle_key(&mut v, Key::Char('j'));
    assert_eq!(ex.handle_key(&mut v, Key::Enter), ExplorerAction::Open("b.rs".into()));
    assert_eq!(ex.handle_key(&mut v, Key::Char('l')), ExplorerAction::Open("b.rs".into()));
}

#[test]
fn h_esc_focus_editor_and_q_closes() {
    let mut v = vfs(&["a.rs"]);
    let mut ex = ExplorerState::new();
    assert_eq!(ex.handle_key(&mut v, Key::Char('h')), ExplorerAction::FocusEditor);
    assert_eq!(ex.handle_key(&mut v, Key::Esc), ExplorerAction::FocusEditor);
    assert_eq!(ex.handle_key(&mut v, Key::Char('q')), ExplorerAction::Close);
}

#[test]
fn add_flow_creates_and_opens() {
    let mut v = vfs(&["z.rs"]);
    let mut ex = ExplorerState::new();
    ex.handle_key(&mut v, Key::Char('a'));
    assert_eq!(ex.new_name.as_deref(), Some(""));
    for c in "necw".chars() {
        ex.handle_key(&mut v, Key::Char(c));
    }
    ex.handle_key(&mut v, Key::Backspace);
    ex.handle_key(&mut v, Key::Char('.'));
    ex.handle_key(&mut v, Key::Char('r'));
    ex.handle_key(&mut v, Key::Char('s'));
    assert_eq!(ex.new_name.as_deref(), Some("nec.rs"));
    assert_eq!(ex.handle_key(&mut v, Key::Enter), ExplorerAction::Open("nec.rs".into()));
    assert!(v.has_file("nec.rs"));
    assert_eq!(v.name_at(ex.selected), Some("nec.rs"));
    assert!(ex.new_name.is_none());
}

#[test]
fn add_flow_esc_cancels_and_empty_enter_does_nothing() {
    let mut v = vfs(&["a.rs"]);
    let mut ex = ExplorerState::new();
    ex.handle_key(&mut v, Key::Char('a'));
    assert_eq!(ex.handle_key(&mut v, Key::Enter), ExplorerAction::Stay);
    assert!(ex.new_name.is_none());
    ex.handle_key(&mut v, Key::Char('a'));
    ex.handle_key(&mut v, Key::Char('x'));
    ex.handle_key(&mut v, Key::Esc);
    assert!(ex.new_name.is_none());
    assert!(!v.has_file("x"));
    assert_eq!(v.len(), 1);
}

#[test]
fn dd_deletes_and_other_keys_disarm() {
    let mut v = vfs(&["a.rs", "b.rs"]);
    let mut ex = ExplorerState::new();
    ex.handle_key(&mut v, Key::Char('d'));
    assert!(ex.pending_delete);
    assert_eq!(ex.handle_key(&mut v, Key::Char('j')), ExplorerAction::Stay);
    assert!(!ex.pending_delete);
    assert_eq!(ex.selected, 0, "disarming key is not replayed");
    ex.handle_key(&mut v, Key::Char('d'));
    assert_eq!(ex.handle_key(&mut v, Key::Char('d')), ExplorerAction::Delete("a.rs".into()));
    assert!(!ex.pending_delete);
}

#[test]
fn tap_selects_then_opens() {
    let v = vfs(&["a.rs", "b.rs", "c.rs"]);
    let mut ex = ExplorerState::new();
    assert_eq!(ex.handle_tap(&v, 0), ExplorerAction::Stay);
    assert_eq!(ex.handle_tap(&v, 2), ExplorerAction::Stay);
    assert_eq!(ex.selected, 1);
    assert_eq!(ex.handle_tap(&v, 2), ExplorerAction::Open("b.rs".into()));
    assert_eq!(ex.handle_tap(&v, 9), ExplorerAction::Stay);
}

#[test]
fn tap_respects_offset() {
    let v = vfs(&["a.rs", "b.rs", "c.rs", "d.rs"]);
    let mut ex = ExplorerState::new();
    ex.selected = 2;
    ex.offset = 2;
    assert_eq!(ex.handle_tap(&v, 1), ExplorerAction::Open("c.rs".into()));
}

#[test]
fn delete_refuses_modified_buffer_and_closes_clean_one() {
    let mut st = EditorState::new();
    let mut v = vfs(&["a.rs", "b.rs"]);
    st.explorer = Some(ExplorerState::new());
    st.buffers.push(Buffer::new("a.rs", "x"));
    st.buffers[0].text.insert_char(Position::default(), 'y');
    apply_action(&mut st, &mut v, ExplorerAction::Delete("a.rs".into()));
    assert!(v.has_file("a.rs"));
    assert_eq!(st.buffers.len(), 1);
    assert!(st.status.as_ref().is_some_and(|m| m.text.contains("unsaved")));

    st.buffers[0].saved_version = st.buffers[0].text.version();
    apply_action(&mut st, &mut v, ExplorerAction::Delete("a.rs".into()));
    assert!(!v.has_file("a.rs"));
    assert!(st.buffers.is_empty());

    apply_action(&mut st, &mut v, ExplorerAction::Delete("b.rs".into()));
    assert!(!v.has_file("b.rs"));
}

#[test]
fn unicode_names_navigate_tap_and_delete() {
    let mut v = vfs(&["héllo wörld.rs", "中文ファイル.md", "🎉.rs"]);
    let mut ex = ExplorerState::new();
    ex.handle_key(&mut v, Key::Char('G'));
    let last = v.name_at(ex.selected).unwrap().to_string();
    assert_eq!(ex.handle_key(&mut v, Key::Enter), ExplorerAction::Open(last));
    assert_eq!(ex.handle_tap(&v, 1), ExplorerAction::Stay);
    assert_eq!(ex.selected, 0);
    let first = v.name_at(0).unwrap().to_string();
    assert_eq!(ex.handle_tap(&v, 1), ExplorerAction::Open(first.clone()));
    ex.handle_key(&mut v, Key::Char('d'));
    assert_eq!(ex.handle_key(&mut v, Key::Char('d')), ExplorerAction::Delete(first));
}

#[test]
fn empty_vfs_keys_never_panic() {
    let mut v = empty_vfs();
    let mut ex = ExplorerState::new();
    for key in [
        Key::Char('j'),
        Key::Char('k'),
        Key::Char('g'),
        Key::Char('G'),
        Key::Enter,
        Key::Char('l'),
        Key::Char('d'),
        Key::Char('d'),
        Key::Down,
        Key::Up,
    ] {
        let a = ex.handle_key(&mut v, key);
        assert!(matches!(a, ExplorerAction::Stay | ExplorerAction::FocusEditor));
    }
    assert_eq!(ex.handle_tap(&v, 0), ExplorerAction::Stay);
    assert_eq!(ex.handle_tap(&v, 5), ExplorerAction::Stay);
    assert_eq!(ex.selected, 0);
}

#[test]
fn apply_action_open_close_focus() {
    let mut st = EditorState::new();
    let mut v = vfs(&["a.rs"]);
    st.explorer = Some(ExplorerState::new());
    st.explorer_focused = true;
    apply_action(&mut st, &mut v, ExplorerAction::Open("a.rs".into()));
    assert_eq!(st.buf().unwrap().name, "a.rs");
    assert!(!st.explorer_focused);
    assert!(st.explorer.is_some());
    st.explorer_focused = true;
    apply_action(&mut st, &mut v, ExplorerAction::FocusEditor);
    assert!(!st.explorer_focused);
    assert!(st.explorer.is_some());
    st.explorer_focused = true;
    apply_action(&mut st, &mut v, ExplorerAction::Close);
    assert!(st.explorer.is_none());
    assert!(!st.explorer_focused);
}
