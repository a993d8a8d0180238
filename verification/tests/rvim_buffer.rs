//! The text buffer.

use pocketdeck::rvim::buffer::{Position, TextBuffer};

#[test]
fn insert_and_delete_roundtrip() {
    let mut b = TextBuffer::from_text("hello\nworld");
    let end = b.insert_text(Position::new(0, 5), ", brave\nnew");
    assert_eq!(b.text(), "hello, brave\nnew\nworld");
    assert_eq!(end, Position::new(1, 3));
    let removed = b.delete_range(Position::new(0, 5), end);
    assert_eq!(removed, ", brave\nnew");
    assert_eq!(b.text(), "hello\nworld");
}

#[test]
fn unicode_char_indexing() {
    let mut b = TextBuffer::from_text("héllo");
    b.insert_char(Position::new(0, 2), 'x');
    assert_eq!(b.text(), "héxllo");
    assert_eq!(b.delete_range(Position::new(0, 1), Position::new(0, 3)), "éx");
}

#[test]
fn grouped_undo_is_one_step() {
    let mut b = TextBuffer::from_text("ab");
    b.begin_undo_group(Position::new(0, 0));
    b.insert_char(Position::new(0, 2), 'c');
    b.insert_char(Position::new(0, 3), 'd');
    b.end_undo_group();
    assert_eq!(b.text(), "abcd");
    let cur = b.undo(Position::new(0, 3)).unwrap();
    assert_eq!(b.text(), "ab");
    assert_eq!(cur, Position::new(0, 0));
    b.redo(cur);
    assert_eq!(b.text(), "abcd");
}

#[test]
fn delete_lines_keeps_one_line() {
    let mut b = TextBuffer::from_text("a\nb");
    assert_eq!(b.delete_lines(0, 1), "a\nb");
    assert_eq!(b.line_count(), 1);
    assert_eq!(b.text(), "");
}

#[test]
fn join_collapses_indent() {
    let mut b = TextBuffer::from_text("fn main() {\n    body();");
    let joint = b.join_line(0, true).unwrap();
    assert_eq!(b.text(), "fn main() { body();");
    assert_eq!(joint, 11);
}
