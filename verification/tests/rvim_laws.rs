//! What holds of the editor across operations, on concrete values.

use pocketdeck::host::{HostCall, HostCallError, HostHandle};
use pocketdeck::keyboard::{typed, KeyName};
use pocketdeck::rvim::buffer::{Position, TextBuffer, UNDO_CAP};
use pocketdeck::rvim::editor::{translate, Rvim};
use pocketdeck::rvim::explorer::ExplorerState;
use pocketdeck::rvim::finder::FinderState;
use pocketdeck::rvim::fs::Vfs;
use pocketdeck::rvim::fuzzy::fuzzy_match;
use pocketdeck::rvim::highlight::{lex_rust, Highlighter, HlSpan};
use pocketdeck::rvim::keys::{Key, Mode};
use pocketdeck::rvim::pattern::find_pattern;
use pocketdeck::rvim::session::{restore_state, save_state};
use pocketdeck::rvim::state::{Buffer, EditorState, SplitDir};
use pocketdeck::rvim::theme;
use pocketdeck::rvim::ui::grid::Grid;
use pocketdeck::rvim::ui::look::bracket_pair;
use pocketdeck::rvim::ui::layout::{gutter_width, tile_windows, vertical_layout};
use pocketdeck::rvim::ui::scroll::follow_scroll;
use pocketdeck::rvim::ui::touch::{
    touchbar_action_at, touchbar_cells, whichkey_action_at, whichkey_grid,
};
use pocketdeck::text::{
    decimal_wide, join_lines, repeat_str, split_lines, str_before, trim, whitespace,
};
use pocketdeck::unicode::{alnum, lower_char, to_ascii_lower, upper_char};

fn no_host() -> Vfs {
    Vfs::load(Err(HostCallError::Failed("no host".to_string())), Vec::new())
}

fn chars() -> impl Iterator<Item = char> {
    (0..=0x10ffffu32).filter_map(char::from_u32)
}

#[test]
fn chars_are_classed_as_std_classes_them() {
    for c in chars() {
        assert_eq!(whitespace(c), c.is_whitespace(), "{c:?}");
        assert_eq!(typed(c), !c.is_control(), "{c:?}");
        assert_eq!(to_ascii_lower(c), c.to_ascii_lowercase(), "{c:?}");
    }
    for c in ['a', 'Z', '0', '_', 'é', '中', '٣', ' ', '\u{301}'] {
        assert_eq!(alnum(c), c.is_alphanumeric(), "{c:?}");
        assert_eq!(upper_char(c), c.to_string().to_uppercase());
        assert_eq!(lower_char(c), c.to_string().to_lowercase());
    }
    assert_eq!(upper_char('ß'), "SS");
}

#[test]
fn texts_split_and_join_back() {
    for s in ["", "a", "\n", "a\nb\n\nc", "é\n中"] {
        let lines = split_lines(s);
        assert_eq!(lines, s.split('\n').collect::<Vec<_>>());
        assert_eq!(join_lines(&lines), s);
        assert_eq!(split_lines(&join_lines(&lines)), lines);
    }
    for s in [" a b ", "\u{2003}x\u{85}", "", "   "] {
        assert_eq!(trim(s), s.trim());
    }
    let words = ["", "a", "ab", "b", "B", "é", "中", "🎉", "z"];
    for a in words {
        for b in words {
            assert_eq!(str_before(a, b), a < b, "{a} {b}");
        }
    }
    assert_eq!(decimal_wide(u128::MAX), u128::MAX.to_string());
    assert_eq!(repeat_str("ab", 3), "ababab");
}

#[test]
fn buffer_edits_come_undone() {
    let mut b = TextBuffer::from_text("one\ntwo\nthree");
    assert_eq!(b.text(), "one\ntwo\nthree");
    let at = Position::new(1, 1);
    let end = b.insert_text(at, "X\nY");
    assert_eq!(b.text(), "one\ntX\nYwo\nthree");
    assert_eq!(b.delete_range(at, end), "X\nY");
    assert_eq!(b.text(), "one\ntwo\nthree");
    b.undo(Position::new(0, 0));
    assert_eq!(b.text(), "one\ntX\nYwo\nthree");
    assert_eq!(b.undo(Position::new(0, 0)), Some(at));
    assert_eq!(b.text(), "one\ntwo\nthree");
    assert_eq!(b.redo(Position::new(0, 0)), Some(Position::new(0, 0)));
    assert_eq!(b.text(), "one\ntX\nYwo\nthree");
}

#[test]
fn buffer_group_is_one_step_and_history_is_bounded() {
    let mut b = TextBuffer::from_text("");
    b.begin_undo_group(Position::new(0, 0));
    for i in 0..5 {
        b.insert_char(Position::new(0, i), 'x');
    }
    b.end_undo_group();
    assert_eq!(b.undo(Position::new(0, 5)), Some(Position::new(0, 0)));
    assert_eq!(b.text(), "");
    for i in 0..UNDO_CAP + 50 {
        b.insert_char(Position::new(0, i), 'y');
    }
    let mut steps = 0;
    while b.undo(Position::new(0, 0)).is_some() {
        steps += 1;
    }
    assert_eq!(steps, UNDO_CAP);
    assert_eq!(b.text(), "y".repeat(50));
}

#[test]
fn buffer_clamp_settles() {
    let b = TextBuffer::from_text("ab\n\nxyz");
    for (p, end, want) in [
        (Position::new(9, 9), true, Position::new(2, 3)),
        (Position::new(9, 9), false, Position::new(2, 2)),
        (Position::new(1, 4), false, Position::new(1, 0)),
        (Position::new(0, 2), true, Position::new(0, 2)),
    ] {
        assert_eq!(b.clamp(p, end), want);
        assert_eq!(b.clamp(want, end), want);
    }
}

#[test]
fn file_names_are_in_order_and_writes_keep_the_rest() {
    let mut v = no_host();
    for (name, text) in [("m", "1"), ("b", "2"), ("z", "3"), ("B", "4"), ("b", "5"), ("aé", "6")] {
        v.write(name, text);
    }
    assert_eq!(v.list(), ["B", "aé", "b", "m", "z"]);
    assert_eq!(v.names(), ["B", "aé", "b", "m", "z"]);
    assert_eq!((v.name_at(2), v.name_at(5)), (Some("b"), None));
    assert_eq!((v.read("b"), v.read("m")), (Some("5".to_string()), Some("1".to_string())));
    assert!(v.remove("b") && !v.remove("b"));
    assert_eq!(v.list(), ["B", "aé", "m", "z"]);
    assert_eq!((v.read("b"), v.read("z")), (None, Some("3".to_string())));
}

#[test]
fn files_reload_as_they_were_stored() {
    let mut v = no_host();
    for (n, t) in [("b.rs", "two"), ("a.rs", "é"), ("中.md", ""), ("b.rs", "three")] {
        v.write(n, t);
    }
    assert_eq!(v.list(), ["a.rs", "b.rs", "中.md"]);
    assert_eq!(v.read("b.rs").as_deref(), Some("three"));
    assert!(v.remove("中.md") && !v.remove("中.md"));
    assert_eq!(v.read("中.md"), None);
    assert_eq!(v.read("a.rs").as_deref(), Some("é"));
    let mut store: Vec<(String, Vec<u8>)> = Vec::new();
    for call in v.take_calls() {
        if let HostCall::StateSet { key, value } = call {
            store.retain(|e| e.0 != key);
            store.push((key, value));
        }
    }
    let get = |k: &str| store.iter().find(|e| e.0 == k).map(|e| e.1.clone());
    let index = store.iter().find(|e| e.0.contains("index")).unwrap().1.clone();
    assert_eq!(Vfs::index_names(&index), ["a.rs", "b.rs"]);
    let contents = Vfs::index_names(&index)
        .iter()
        .map(|n| Ok(get(&pocketdeck::rvim::fs::file_key(n))))
        .collect();
    let again = Vfs::load(Ok(Some(index)), contents);
    assert_eq!(again.list(), v.list());
    assert_eq!(again.read("a.rs"), v.read("a.rs"));
    assert_eq!(again.read("b.rs"), v.read("b.rs"));
    assert!(Vfs::index_names(&[0xff, 0xff]).is_empty());
    let torn = Vfs::load(Ok(Some(vec![1, 1, b'x'])), vec![Ok(Some(vec![b'a', 0xff]))]);
    assert_eq!(torn.read("x").as_deref(), Some("a\u{fffd}"));
}

#[test]
fn fuzzy_scores_are_the_best_there_are() {
    let (whole, hits) = fuzzy_match("mr", "main.rs").unwrap();
    assert_eq!(hits, [0, 5]);
    assert!(fuzzy_match("main.rss", "main.rs").is_none());
    assert!(fuzzy_match("rm", "main.rs").is_none());
    assert!(fuzzy_match("main", "main.rs").unwrap().0 > whole);
    let mut f = FinderState::new(vec!["xmain.rs".to_string(), "main.rs".to_string(), "b".to_string()]);
    assert_eq!(f.results.len(), 3, "an empty query lists all");
    for c in "main".chars() {
        f.handle_key(Key::Char(c));
    }
    let names: Vec<&str> = f.results.iter().map(|r| r.0.as_str()).collect();
    assert_eq!(names, ["main.rs", "xmain.rs"], "ranked, and complete");
    for k in [Key::Down, Key::Down, Key::Down, Key::Up, Key::Ctrl('n')] {
        f.handle_key(k);
        assert!(f.selected < f.results.len());
    }
}

#[test]
fn finder_lists_a_name_as_often_as_it_is_given() {
    let names = ["b", "a", "b", "xb", "c"].map(str::to_string).to_vec();
    let f = FinderState::new(names);
    let shown: Vec<&str> = f.results.iter().map(|r| r.0.as_str()).collect();
    assert_eq!(shown, ["a", "b", "b", "c", "xb"]);
}

#[test]
fn search_finds_the_nearest() {
    let t = TextBuffer::from_text("ab x\nab ab\nx");
    assert_eq!(find_pattern(&t, Position::new(0, 0), "ab", false), Some((Position::new(1, 0), false)));
    assert_eq!(find_pattern(&t, Position::new(1, 0), "ab", false), Some((Position::new(1, 3), false)));
    assert_eq!(find_pattern(&t, Position::new(1, 3), "ab", true), Some((Position::new(1, 0), false)));
    assert_eq!(find_pattern(&t, Position::new(0, 0), "ab", true), Some((Position::new(1, 3), true)), "wraps");
    assert_eq!(find_pattern(&t, Position::new(0, 0), "zz", false), None);
}

#[test]
fn windows_and_buffers_cycle_back() {
    let mut st = EditorState::new();
    for n in ["a", "b", "c"] {
        st.buffers.push(Buffer::new(n, n));
    }
    st.split(SplitDir::Vertical);
    st.set_active(2);
    let snap = |st: &EditorState| (st.windows.iter().map(|w| w.buffer).collect::<Vec<_>>(), st.active_win);
    let before = snap(&st);
    st.next_window();
    st.prev_window();
    assert_eq!(snap(&st), before);
    st.prev_window();
    st.next_window();
    assert_eq!(snap(&st), before);
    st.next_buffer();
    assert_eq!(st.active(), 0);
    st.prev_buffer();
    assert_eq!(snap(&st), before);
    st.prev_buffer();
    st.next_buffer();
    assert_eq!(snap(&st), before);
    st.split(SplitDir::Vertical);
    st.close_window();
    assert_eq!(snap(&st).0, before.0);
    // Closing buffer "a" keeps every other window on its buffer.
    st.windows[0].buffer = 1;
    st.windows[1].buffer = 2;
    assert!(st.close_buffer(0, false));
    let shown: Vec<&str> = st.windows.iter().map(|w| st.buffers[w.buffer].name.as_str()).collect();
    assert_eq!(shown, ["b", "c"]);
}

#[test]
fn saved_files_open_elsewhere() {
    let mut vfs = no_host();
    let mut st = EditorState::new();
    st.open_file(&vfs, "n.txt");
    assert_eq!(st.buf().unwrap().name, "n.txt");
    st.buf_mut().unwrap().text.insert_text(Position::new(0, 0), "x\ny");
    assert!(!st.close_buffer(0, false), "unsaved changes stay");
    assert!(st.status.as_ref().unwrap().text.starts_with("E89: n.txt"));
    assert_eq!(st.save_active(&mut vfs).unwrap().0, "n.txt");
    assert!(!st.buf().unwrap().modified());
    assert_eq!(vfs.read("n.txt").as_deref(), Some("x\ny"));
    let mut other = EditorState::new();
    other.open_file(&vfs, "n.txt");
    assert_eq!(other.buf().unwrap().text.text(), "x\ny");
    assert!(!other.buf().unwrap().modified());
}

#[test]
fn session_bytes_bring_the_editor_back() {
    let mut st = EditorState::new();
    for n in ["a", "b"] {
        st.buffers.push(Buffer::new(n, "one\ntwo"));
    }
    st.split(SplitDir::Vertical);
    st.windows[0].buffer = 1;
    st.buffers[1].text.insert_char(Position::new(0, 0), 'é');
    st.buffers[1].cursor = Position::new(1, 2);
    st.explorer = Some(ExplorerState::new());
    let bytes = save_state(&st);
    let mut re = EditorState::new();
    restore_state(&mut re, &bytes);
    for i in 0..2 {
        assert_eq!(re.buffers[i].name, st.buffers[i].name);
        assert_eq!(re.buffers[i].text.text(), st.buffers[i].text.text());
        assert_eq!(re.buffers[i].modified(), st.buffers[i].modified());
    }
    assert_eq!(re.buffers[1].cursor, Position::new(1, 2));
    assert_eq!(re.windows, st.windows);
    assert_eq!((re.active_win, re.split_dir), (st.active_win, st.split_dir));
    assert!(re.explorer.is_some());
    restore_state(&mut re, &[7]);
    assert_eq!(re.buffers.len(), 2, "bytes that stand for no session change nothing");
}

#[test]
fn rows_tiles_and_gutters() {
    for rows in 1..60u16 {
        let l = vertical_layout(rows);
        let used = l.bufferline.is_some() as u16 + l.text_rows + l.status.is_some() as u16
            + l.cmdline.is_some() as u16 + 1;
        assert_eq!(used, rows);
        assert_eq!(l.touchbar, rows - 1);
    }
    let tiles = tile_windows(3, SplitDir::Vertical, 4, 1, 12, 5);
    assert_eq!(tiles, [(4, 1, 4, 5), (9, 1, 3, 5), (13, 1, 3, 5)]);
    for t in tile_windows(9, SplitDir::Horizontal, 0, 2, 8, 5) {
        assert!(t.3 == 0 || t.1 + t.3 <= 7);
    }
    assert_eq!(gutter_width(99, true, false, 80), 4);
    assert_eq!(gutter_width(99999, false, true, 80), 6);
    assert_eq!(gutter_width(99, true, true, 7), 0);
    assert_eq!(gutter_width(99, false, false, 80), 0);
}

#[test]
fn taps_hit_what_is_drawn() {
    for cols in [1u16, 6, 39, 40, 97, 65535] {
        let cells = touchbar_cells(cols);
        assert_eq!((cells[0].0, cells.last().unwrap().1), (0, cols));
        assert!(cells.windows(2).all(|w| w[0].1 == w[1].0));
        for c in &cells {
            if c.0 < c.1 {
                assert_eq!(touchbar_action_at(c.0, cols), Some(c.3));
                assert_eq!(touchbar_action_at(c.1 - 1, cols), Some(c.3));
            }
        }
    }
    let hints = [("a x", ""), ("b", ""), (" c d", ""), ("ef", ""), ("", "")];
    let (rows, ncols) = whichkey_grid(30, hints.len());
    assert_eq!((rows, ncols), (3, 2));
    assert_eq!(whichkey_action_at(0, 1, 30, &hints), Some(Key::Char('a')));
    assert_eq!(whichkey_action_at(14, 1, 30, &hints), Some(Key::Char('a')));
    assert_eq!(whichkey_action_at(15, 1, 30, &hints), Some(Key::Char('b')));
    assert_eq!(whichkey_action_at(99, 1, 30, &hints), Some(Key::Char('b')));
    assert_eq!(whichkey_action_at(0, 2, 30, &hints), Some(Key::Char('c')));
    assert_eq!(whichkey_action_at(15, 2, 30, &hints), None);
    assert_eq!(whichkey_action_at(15, 3, 30, &hints), None);
}

#[test]
fn following_keeps_the_cursor_in_view_and_settles() {
    let text: String = (0..50).map(|i| "x".repeat(i) + "\n").collect();
    let mut b = Buffer::new("t", &text);
    for (line, col, top, left, rows, cols) in
        [(40, 39, 0, 0, 5u16, 7u16), (0, 0, 99, 99, 1, 1), (20, 10, 18, 3, 10, 20), (49, 48, 3, usize::MAX, 4, 9)]
    {
        b.cursor = Position::new(line, col);
        b.scroll = (top, left);
        follow_scroll(&mut b, rows, cols);
        let (t, l) = b.scroll;
        assert!(t <= line && line < t + rows as usize);
        assert!(l <= col && col < l + cols as usize);
        follow_scroll(&mut b, rows, cols);
        assert_eq!(b.scroll, (t, l));
    }
}

fn lexed(text: &str) -> Vec<Vec<HlSpan>> {
    lex_rust(&text.split('\n').map(str::to_string).collect::<Vec<_>>())
}

/// The coloured words of a line.
fn words(text: &str) -> Vec<(String, u32)> {
    let chars: Vec<char> = text.chars().collect();
    lexed(text)[0]
        .iter()
        .map(|s| (chars[s.start..s.start + s.len].iter().collect(), s.color))
        .collect()
}

fn span(start: usize, len: usize, color: u32) -> HlSpan {
    HlSpan { start, len, color }
}

#[test]
fn highlighter_has_a_list_for_each_line() {
    let mut hl = Highlighter::new();
    let b = TextBuffer::from_text("fn a() {}\n// x");
    assert_eq!(hl.spans("a.rs", &b).len(), 2);
    assert_eq!(hl.spans("a.rs", &b)[1], [span(0, 4, theme::SYN_COMMENT)]);
    assert!(hl.spans("a.md", &b).iter().all(|l| l.is_empty()));
    assert_eq!(hl.spans("a.md", &TextBuffer::from_text("")).len(), 2, "the same version is at hand");
    assert_eq!(hl.spans("b.md", &TextBuffer::from_text("")).len(), 1);
    assert_eq!(lex_rust(&["x".to_string()]).len(), 1);
}

#[test]
fn lexer_colours_tokens() {
    use_of(&[
        ("let x = self.len();", &[
            ("let", theme::SYN_KEYWORD),
            ("=", theme::SYN_OPERATOR),
            ("self", theme::SYN_SELF),
            (".", theme::SYN_OPERATOR),
            ("len", theme::SYN_FUNCTION),
        ]),
        ("Vec<u8>, b\"a\\\"b\" 'c' '\\'' &'a x", &[
            ("Vec", theme::SYN_TYPE),
            ("<", theme::SYN_OPERATOR),
            ("u8", theme::SYN_TYPE),
            (">", theme::SYN_OPERATOR),
            ("b\"a\\\"b\"", theme::SYN_STRING),
            ("'c'", theme::SYN_STRING),
            ("'\\''", theme::SYN_STRING),
            ("&", theme::SYN_OPERATOR),
            ("'a", theme::SYN_LIFETIME),
        ]),
        ("#[derive(A)] println!(0x1f, 1.5, 0..2)", &[
            ("#[derive(A)]", theme::SYN_ATTRIBUTE),
            ("println", theme::SYN_MACRO),
            ("!", theme::SYN_OPERATOR),
            ("0x1f", theme::SYN_NUMBER),
            ("1.5", theme::SYN_NUMBER),
            ("0", theme::SYN_NUMBER),
            (".", theme::SYN_OPERATOR),
            (".", theme::SYN_OPERATOR),
            ("2", theme::SYN_NUMBER),
        ]),
        ("a /* b /* c */ d */ r#\"e\"f\"# // g", &[
            ("/* b /* c */ d */", theme::SYN_COMMENT),
            ("r#\"e\"f\"#", theme::SYN_STRING),
            ("// g", theme::SYN_COMMENT),
        ]),
        ("\"open", &[("\"open", theme::SYN_STRING)]),
        ("ärger", &[]),
    ]);
}

fn use_of(cases: &[(&str, &[(&str, u32)])]) {
    for (text, want) in cases {
        let want: Vec<(String, u32)> = want.iter().map(|(w, c)| (w.to_string(), *c)).collect();
        assert_eq!(words(text), want, "{text}");
    }
}

#[test]
fn comments_and_raw_strings_carry_over_lines() {
    let c = theme::SYN_COMMENT;
    assert_eq!(lexed("/* a\nb */"), [[span(0, 4, c)], [span(0, 4, c)]]);
    assert_eq!(
        lexed("/* a /* b\n\nc */ d\ne */ 1"),
        [
            vec![span(0, 9, c)],
            vec![],
            vec![span(0, 6, c)],
            vec![span(0, 4, c), span(5, 1, theme::SYN_NUMBER)],
        ],
    );
    let s = theme::SYN_STRING;
    assert_eq!(
        lexed("r##\"a\n\"# /*\nb\"## 1\n2"),
        [
            vec![span(0, 5, s)],
            vec![span(0, 5, s)],
            vec![span(0, 4, s), span(5, 1, theme::SYN_NUMBER)],
            vec![span(0, 1, theme::SYN_NUMBER)],
        ],
    );
    assert_eq!(lexed("\"a\n1"), [[span(0, 2, s)], [span(0, 1, theme::SYN_NUMBER)]]);
    for line in lexed(pocketdeck::rvim::fs::SAMPLE_MAIN) {
        assert!(line.windows(2).all(|w| w[0].start + w[0].len <= w[1].start));
        assert!(line.iter().all(|h| h.len > 0));
    }
}

#[test]
fn bracket_pairs_are_the_same_from_either_end() {
    let t = TextBuffer::from_text("f(a[0], {\n  (b)\n})(\n]");
    let mut pairs = 0;
    for line in 0..t.line_count() {
        for col in 0..t.line_len(line) {
            let p = Position::new(line, col);
            if let Some((a, b)) = bracket_pair(&t, p) {
                assert!((p == a || p == b) && a < b);
                assert_eq!(bracket_pair(&t, a), Some((a, b)));
                assert_eq!(bracket_pair(&t, b), Some((a, b)));
                pairs += 1;
            }
        }
    }
    assert_eq!(pairs, 8);
    assert_eq!(bracket_pair(&t, Position::new(3, 0)), None);
}

#[test]
fn keys_are_translated() {
    assert_eq!(translate(KeyName::Backspace, false, true), Some(Key::Ctrl('w')));
    assert_eq!(translate(KeyName::Backspace, false, false), Some(Key::Backspace));
    assert_eq!(translate(KeyName::OpenBracket, true, false), Some(Key::Esc));
    assert_eq!(translate(KeyName::Period, false, false), None);
    assert_eq!(translate(KeyName::Letter('r'), true, false), Some(Key::Ctrl('r')));
    assert_eq!(translate(KeyName::Letter('r'), false, false), None);
    assert_eq!(translate(KeyName::PageDown, false, false), Some(Key::PageDown));
    assert_eq!(translate(KeyName::Other, true, true), None);
}

fn open_editor(text: &str) -> (Rvim, HostHandle) {
    let mut r = Rvim::new(no_host());
    r.st.buffers.push(Buffer::new("main.rs", text));
    (r, HostHandle::new())
}

#[test]
fn editor_feeds_keys() {
    let (mut r, mut host) = open_editor("abc");
    assert!(r.on_text("ix\u{7}y", &mut host));
    assert!(!r.on_text("\u{1}", &mut host));
    assert_eq!(r.st.buffers[0].text.text(), "xyabc");
    assert_eq!(r.on_key(KeyName::Escape, false, false, &mut host), Some(true));
    assert_eq!(r.on_key(KeyName::Home, false, false, &mut host), Some(false));
    assert_eq!(r.on_key(KeyName::Other, false, false, &mut host), None);
    assert_eq!(r.vim.mode(), Mode::Normal);
    r.on_paste(&mut host);
    assert!(matches!(r.vim.mode(), Mode::Visual { .. }));
    r.feed(Key::Esc, &mut host);
    r.feed(Key::Char('u'), &mut host);
    assert_eq!(r.st.buffers[0].text.text(), "abc");
    // An armed Ctrl turns the next char into a chord.
    r.ctrl_armed = true;
    r.feed(Key::Char('R'), &mut host);
    assert!(!r.ctrl_armed);
    assert_eq!(r.st.buffers[0].text.text(), "xyabc");
}

#[test]
fn editor_taps_place_the_cursor_and_press_buttons() {
    let (mut r, mut host) = open_editor("alpha\nbravo\ncharlie");
    let mut g = Grid::new(80, 20);
    r.draw(&mut g, true, true);
    let gutter = r.layout.gutter_w as i64;
    r.handle_tap(gutter + 2, 3, &mut host);
    assert!(r.focused);
    assert_eq!(r.st.buffers[0].cursor, Position::new(2, 2));
    r.handle_tap(0, 2, &mut host);
    assert_eq!(r.st.buffers[0].cursor, Position::new(1, 0));
    r.handle_tap(79, 16, &mut host);
    assert_eq!(r.st.buffers[0].cursor, Position::new(2, 6));
    r.handle_tap(-1, 3, &mut host);
    assert!(host.calls.is_empty());
    // The touchbar: arm Ctrl, then hide the keyboard.
    let bar = r.layout.touchbar_row as i64;
    r.handle_tap(9, bar, &mut host);
    assert!(r.ctrl_armed);
    r.handle_tap(79, bar, &mut host);
    assert!(!r.focused);
    assert_eq!(host.calls, [HostCall::Haptic(6), HostCall::Haptic(6)]);
    // A which-key hint types its key.
    r.ctrl_armed = false;
    r.feed(Key::Char(' '), &mut host);
    r.draw(&mut g, true, true);
    assert!(r.layout.whichkey_rows > 0);
    let top = r.layout.whichkey_top as i64;
    r.handle_tap(1, top + 1, &mut host);
    assert!(r.st.explorer.is_some(), "the first hint opens the explorer");
    // The sidebar selects a file, then opens it.
    r.vfs.write("a.rs", "A");
    r.vfs.write("b.rs", "B");
    r.draw(&mut g, true, true);
    let side = r.layout.explorer_top as i64;
    r.handle_tap(1, side + 2, &mut host);
    assert_eq!(r.st.explorer.as_ref().unwrap().selected, 1);
    r.handle_tap(1, side + 2, &mut host);
    assert_eq!(r.st.buf().unwrap().name, "b.rs");
    assert_eq!(r.st.buf().unwrap().text.text(), "B");
}

#[test]
fn editor_drags_by_whole_cells() {
    let (mut r, _host) = open_editor(&"line\n".repeat(30));
    r.scroll_by(-7, -3);
    assert_eq!(r.st.buffers[0].scroll, (7, 3));
    r.scroll_by(2, 99);
    assert_eq!(r.st.buffers[0].scroll, (5, 0));
    r.scroll_by(i64::MIN, 0);
    assert_eq!(r.st.buffers[0].scroll, (30, 0));
    r.scroll_by(i64::MAX, i64::MIN);
    assert_eq!(r.st.buffers[0].scroll.0, 0);
    let mut empty = Rvim::new(no_host());
    empty.scroll_by(1, 1);
}
