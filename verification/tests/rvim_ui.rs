//! The screen: layout, hit tests and drawing.

use pocketdeck::host::{HostCallError, HostHandle};
use pocketdeck::rvim::buffer::{Position, TextBuffer};
use pocketdeck::rvim::explorer::ExplorerState;
use pocketdeck::rvim::finder::FinderState;
use pocketdeck::rvim::fs::Vfs;
use pocketdeck::rvim::highlight::Highlighter;
use pocketdeck::rvim::keys::{Key, VisualKind};
use pocketdeck::rvim::state::{Buffer, EditorState, SplitDir};
use pocketdeck::rvim::theme;
use pocketdeck::rvim::ui::bars::scroll_pct;
use pocketdeck::rvim::ui::frame::{draw, DrawCtx, LayoutInfo};
use pocketdeck::rvim::ui::grid::{Cell, Grid};
use pocketdeck::rvim::ui::layout::{tile_windows, vertical_layout};
use pocketdeck::rvim::ui::look::{
    bracket_pair, cell_colors, in_visual, line_matches, BRACKET_BUDGET,
};
use pocketdeck::rvim::ui::scroll::follow_scroll;
use pocketdeck::rvim::ui::touch::{
    touchbar_action_at, touchbar_cells, whichkey_action_at, whichkey_grid,
};
use pocketdeck::rvim::vim::VimEngine;

fn empty_vfs() -> Vfs {
    Vfs::load(Err(HostCallError::Failed("no host".to_string())), Vec::new())
}

fn mk_state(text: &str) -> EditorState {
    let mut st = EditorState::new();
    st.buffers.push(Buffer::new("main.rs", text));
    st
}

fn render(st: &mut EditorState, w: u16, h: u16, blink: bool) -> (Grid, LayoutInfo) {
    render_with(st, &mut VimEngine::new(), &empty_vfs(), w, h, blink)
}

fn render_with(
    st: &mut EditorState,
    vim: &mut VimEngine,
    vfs: &Vfs,
    w: u16,
    h: u16,
    blink: bool,
) -> (Grid, LayoutInfo) {
    render_paused(st, vim, vfs, w, h, blink, true)
}

fn render_paused(
    st: &mut EditorState,
    vim: &mut VimEngine,
    vfs: &Vfs,
    w: u16,
    h: u16,
    blink: bool,
    paused: bool,
) -> (Grid, LayoutInfo) {
    let mut term = Grid::new(w, h);
    let mut hl = Highlighter::new();
    let ctx = DrawCtx { blink_on: blink, ctrl_armed: false, focused: true, paused };
    let info = draw(&mut term, st, vim, &mut hl, vfs, ctx);
    (term, info)
}

fn at(g: &Grid, x: u16, y: u16) -> Cell {
    g.cell(x, y).unwrap()
}

fn row_text(term: &Grid, y: u16) -> String {
    (0..term.cols()).map(|x| at(term, x, y).ch).collect()
}

fn find_row(term: &Grid, needle: &str) -> Option<u16> {
    (0..term.rows()).find(|&y| row_text(term, y).contains(needle))
}

#[test]
fn touchbar_hit_test_matches_cells() {
    for cols in [1u16, 5, 20, 39, 40, 80, 200] {
        let cells = touchbar_cells(cols);
        for col in 0..cols {
            let expect = cells
                .iter()
                .find(|&&(s, e, _, _)| col >= s && col < e)
                .map(|&(_, _, _, a)| a);
            assert!(expect.is_some(), "col {col} uncovered at {cols} cols");
            assert_eq!(touchbar_action_at(col, cols), expect);
        }
        assert_eq!(touchbar_action_at(cols, cols), None);
    }
}

#[test]
fn touchbar_narrow_drops_arrows() {
    let narrow = touchbar_cells(20);
    assert!(!narrow.iter().any(|&(_, _, l, _)| l == "←"));
    assert!(narrow.iter().any(|&(_, _, l, _)| l == "esc"));
    assert!(narrow.iter().any(|&(_, _, l, _)| l == "ctrl"));
    assert!(narrow.iter().any(|&(_, _, l, _)| l == "⌨"));
    let full = touchbar_cells(80);
    assert_eq!(full.len(), 10);
    assert!(full.iter().any(|&(_, _, l, _)| l == "↑"));
}

#[test]
fn gutter_numbers_relative_and_absolute() {
    let mut st = mk_state("alpha\nbravo\ncharlie\ndelta\necho");
    st.buffers[0].cursor = Position::new(2, 0);
    let (term, info) = render(&mut st, 40, 10, false);
    assert_eq!(info.gutter_w, 4);
    assert_eq!(info.text_top, 1);
    assert_eq!(info.text_rows, 6);
    assert_eq!(info.touchbar_row, 9);
    assert!(row_text(&term, 1).starts_with("  2 alpha"));
    assert!(row_text(&term, 2).starts_with("  1 bravo"));
    assert!(row_text(&term, 3).starts_with("  3 charlie"));
    assert!(row_text(&term, 4).starts_with("  1 delta"));
    assert!(row_text(&term, 6).starts_with("~"));
}

#[test]
fn gutter_absolute_when_norelativenumber() {
    let mut st = mk_state("alpha\nbravo\ncharlie");
    st.options.relativenumber = false;
    st.buffers[0].cursor = Position::new(1, 0);
    let (term, _) = render(&mut st, 40, 10, false);
    assert!(row_text(&term, 1).starts_with("  1 alpha"));
    assert!(row_text(&term, 2).starts_with("  2 bravo"));
    assert!(row_text(&term, 3).starts_with("  3 charlie"));
}

#[test]
fn gutter_hidden_when_numbers_off() {
    let mut st = mk_state("alpha");
    st.options.number = false;
    st.options.relativenumber = false;
    let (term, info) = render(&mut st, 40, 10, false);
    assert_eq!(info.gutter_w, 0);
    assert!(row_text(&term, 1).starts_with("alpha"));
}

#[test]
fn statusline_mode_chip_and_position() {
    let mut st = mk_state("alpha\nbravo\ncharlie\ndelta\necho");
    st.buffers[0].cursor = Position::new(2, 0);
    let (term, _) = render(&mut st, 40, 10, false);
    let status = row_text(&term, 7);
    assert!(status.contains(" NORMAL "), "{status:?}");
    assert!(status.contains("main.rs"));
    assert!(status.contains("3:1"));
    assert!(status.contains("All"));
    let b = &term;
    assert_eq!(at(b, 1, 7).bg, theme::MODE_NORMAL.1);
    assert_eq!(at(b, 1, 7).fg, theme::MODE_NORMAL.0);
}

#[test]
fn bufferline_shows_tabs_and_modified_dot() {
    let mut st = mk_state("one");
    st.buffers.push(Buffer::new("lib.rs", "two"));
    st.buffers[1].text.insert_char(Position::new(0, 0), 'x');
    st.set_active(1);
    let (term, _) = render(&mut st, 40, 10, false);
    let top = row_text(&term, 0);
    assert!(top.contains("main.rs"));
    assert!(top.contains("lib.rs ●"));
    assert!(top.contains("rvim"));
}

#[test]
fn bufferline_keeps_active_visible_when_overflowing() {
    let mut st = EditorState::new();
    for i in 0..5 {
        st.buffers.push(Buffer::new(&format!("verylongfilename{i}.rs"), ""));
    }
    st.set_active(4);
    let (term, _) = render(&mut st, 30, 10, false);
    assert!(row_text(&term, 0).contains("verylongfilename4"), "{:?}", row_text(&term, 0));
}

#[test]
fn cursor_cell_reversed_and_cursorline_bg() {
    let mut st = mk_state("alpha\nbravo\ncharlie");
    st.buffers[0].cursor = Position::new(2, 1);
    let (term, info) = render(&mut st, 40, 10, true);
    let b = &term;
    let x = info.gutter_w + 1;
    assert!(at(b, x, 3).reversed);
    assert_eq!(at(b, 20, 3).bg, theme::CURSORLINE_BG);
    assert_eq!(at(b, 20, 1).bg, theme::BG);
}

#[test]
fn no_cursor_when_blink_off() {
    let mut st = mk_state("alpha");
    let (term, info) = render(&mut st, 40, 10, false);
    let b = &term;
    assert!(!at(b, info.gutter_w, 1).reversed);
}

#[test]
fn search_matches_highlight_with_current() {
    let mut st = mk_state("say hello hello");
    st.search.pattern = "hello".into();
    st.buffers[0].cursor = Position::new(0, 4);
    let (term, info) = render(&mut st, 40, 10, false);
    let b = &term;
    let g = info.gutter_w;
    for col in 4..9 {
        assert_eq!(at(b, g + col, 1).bg, theme::SEARCH_CUR_BG, "col {col}");
        assert_eq!(at(b, g + col, 1).fg, theme::SEARCH_FG);
    }
    for col in 10..15 {
        assert_eq!(at(b, g + col, 1).bg, theme::SEARCH_BG, "col {col}");
    }
    assert_eq!(at(b, g + 3, 1).bg, theme::CURSORLINE_BG);
}

#[test]
fn search_suppressed_hides_matches() {
    let mut st = mk_state("say hello");
    st.search.pattern = "hello".into();
    st.search.suppressed = true;
    st.buffers[0].cursor = Position::new(0, 0);
    let (term, info) = render(&mut st, 40, 10, false);
    let b = &term;
    assert_eq!(at(b, info.gutter_w + 4, 1).bg, theme::CURSORLINE_BG);
}

#[test]
fn bracket_match_highlights_partner() {
    let mut st = mk_state("fn main() {}");
    st.buffers[0].cursor = Position::new(0, 7);
    let (term, info) = render(&mut st, 40, 10, false);
    let b = &term;
    assert_eq!(at(b, info.gutter_w + 7, 1).bg, theme::MATCH_BG);
    assert_eq!(at(b, info.gutter_w + 8, 1).bg, theme::MATCH_BG);
}

#[test]
fn message_line_shows_error_in_red() {
    let mut st = mk_state("alpha");
    st.error("E492: not an editor command: nope");
    let (term, _) = render(&mut st, 40, 10, false);
    let y = find_row(&term, "E492").expect("message row");
    assert_eq!(y, 8);
    let b = &term;
    assert_eq!(at(b, 0, y).fg, theme::ERROR);
}

#[test]
fn touchbar_row_labels_drawn() {
    let mut st = mk_state("alpha");
    let (term, info) = render(&mut st, 80, 10, false);
    let bar = row_text(&term, info.touchbar_row);
    for label in ["esc", "ctrl", "tab", ":", "/", "←", "↓", "↑", "→", "⌨"] {
        assert!(bar.contains(label), "missing {label} in {bar:?}");
    }
    let b = &term;
    assert_eq!(at(b, 0, info.touchbar_row).bg, theme::SURFACE);
}

#[test]
fn scroll_follows_cursor_far_away() {
    let text: String = (0..100).map(|i| format!("line {i}\n")).collect();
    let mut st = mk_state(text.trim_end());
    st.buffers[0].cursor = Position::new(50, 0);
    let (_, info) = render(&mut st, 40, 14, false);
    let (top, _) = st.buffers[0].scroll;
    assert_eq!(info.text_rows, 10);
    assert_eq!(top, 43);
    assert!(50 >= top + 2 && 50 < top + 10 - 2);
}

#[test]
fn scroll_recovers_from_wild_drag_values() {
    let mut st = mk_state("short");
    st.buffers[0].scroll = (9999, 9999);
    let (term, _) = render(&mut st, 40, 10, false);
    assert_eq!(st.buffers[0].scroll, (0, 0));
    assert!(row_text(&term, 1).contains("short"));
}

#[test]
fn follow_scroll_margins() {
    let text: String = vec!["x"; 100].join("\n");
    let mut b = Buffer::new("t", &text);
    b.cursor = Position::new(5, 0);
    b.scroll = (50, 0);
    follow_scroll(&mut b, 10, 20);
    assert_eq!(b.scroll.0, 3);
    b.cursor = Position::new(99, 0);
    follow_scroll(&mut b, 10, 20);
    assert_eq!(b.scroll.0, 90);
    let mut b = Buffer::new("t", &"y".repeat(200));
    b.cursor = Position::new(0, 100);
    follow_scroll(&mut b, 10, 20);
    assert_eq!(b.scroll.1, 85);
}

#[test]
fn horizontal_scroll_shows_cursor_region() {
    let mut st = mk_state(&"abcdefghij".repeat(20));
    st.buffers[0].cursor = Position::new(0, 150);
    let (term, info) = render(&mut st, 40, 10, false);
    let (_, left) = st.buffers[0].scroll;
    assert!(left > 0);
    assert!(150 >= left && 150 < left + (info.cols - info.gutter_w) as usize);
    let b = &term;
    let x = info.gutter_w + (150 - left) as u16;
    let expect = "abcdefghij".chars().nth(150 % 10).unwrap().to_string();
    assert_eq!(at(b, x, 1).ch.to_string(), expect);
}

#[test]
fn finder_overlay_renders_prompt_and_results() {
    let mut st = mk_state("alpha");
    let mut f = FinderState::new(Vec::new());
    f.query = "wa".into();
    f.results = vec![("walrus.rs".into(), vec![0, 1]), ("wing.rs".into(), vec![])];
    f.selected = 0;
    st.finder = Some(f);
    let (term, _) = render(&mut st, 40, 20, false);
    assert!(find_row(&term, " find file ").is_some());
    let prompt_y = find_row(&term, "> wa").expect("prompt row");
    let result_y = find_row(&term, "walrus.rs").expect("result row");
    assert!(result_y > prompt_y);
    assert!(find_row(&term, "wing.rs") > Some(result_y));
    let b = &term;
    let x = row_text(&term, result_y).chars().position(|c| c == 'w').unwrap() as u16;
    assert_eq!(at(b, x, result_y).fg, theme::ACCENT);
    assert_eq!(at(b, x, result_y).bg, theme::SURFACE);
    assert_eq!(at(b, x + 2, result_y).fg, theme::TEXT);
    assert!(row_text(&term, result_y).contains("▸"));
}

#[test]
fn dashboard_renders_logo_and_hints() {
    let mut st = EditorState::new();
    let (term, info) = render(&mut st, 60, 20, false);
    assert_eq!(info.gutter_w, 0);
    assert!(find_row(&term, "(_)").is_some());
    assert!(find_row(&term, "rvim v0.1.0").is_some());
    assert!(find_row(&term, "find file").is_some());
    assert!(find_row(&term, ":help").is_some());
    assert!(find_row(&term, "hide keyboard").is_some());
    assert!(row_text(&term, 17).contains("NORMAL"));
    assert!(row_text(&term, info.touchbar_row).contains("esc"));
}

#[test]
fn tiny_grid_never_panics() {
    let text: String = (0..300).map(|i| format!("{} {}\n", "x".repeat(200), i)).collect();
    let mut st = mk_state(&text);
    st.buffers[0].cursor = Position::new(299, 199);
    st.buffers[0].scroll = (57, 3);
    st.search.pattern = "xx".into();
    let (_, info) = render(&mut st, 20, 6, true);
    assert_eq!(info.cols, 20);
    assert_eq!(info.touchbar_row, 5);
    assert!(st.buffers[0].scroll.0 <= 299);

    let mut st = EditorState::new();
    render(&mut st, 20, 6, true);

    let mut st = mk_state("a");
    st.finder = Some(FinderState::new(vec!["a.rs".into()]));
    render(&mut st, 20, 6, true);

    let mut st = mk_state("a");
    render(&mut st, 20, 1, true);
}

#[test]
fn line_matches_windows_and_unicode() {
    let pat: Vec<char> = "ll".chars().collect();
    assert_eq!(line_matches("hello hello", &pat, 0, 100), vec![(2, 2), (8, 2)]);
    assert_eq!(line_matches("hello hello", &pat, 5, 100), vec![(8, 2)]);
    let pat: Vec<char> = "é中".chars().collect();
    assert_eq!(line_matches("xé中y", &pat, 0, 10), vec![(1, 2)]);
    assert!(line_matches("abc", &[], 0, 10).is_empty());
}

#[test]
fn bracket_pair_nested_and_backward() {
    let t = TextBuffer::from_text("a(b[c]{d})");
    assert_eq!(
        bracket_pair(&t, Position::new(0, 1)),
        Some((Position::new(0, 1), Position::new(0, 9)))
    );
    assert_eq!(
        bracket_pair(&t, Position::new(0, 3)),
        Some((Position::new(0, 3), Position::new(0, 5)))
    );
    assert_eq!(
        bracket_pair(&t, Position::new(0, 9)),
        Some((Position::new(0, 1), Position::new(0, 9)))
    );
    let t = TextBuffer::from_text("((a))");
    assert_eq!(
        bracket_pair(&t, Position::new(0, 0)),
        Some((Position::new(0, 0), Position::new(0, 4)))
    );
    let t = TextBuffer::from_text("{\n  x\n}");
    assert_eq!(
        bracket_pair(&t, Position::new(0, 0)),
        Some((Position::new(0, 0), Position::new(2, 0)))
    );
    assert_eq!(bracket_pair(&t, Position::new(1, 2)), None);
    let long = format!("({}", "x".repeat(BRACKET_BUDGET + 10));
    let t = TextBuffer::from_text(&long);
    assert_eq!(bracket_pair(&t, Position::new(0, 0)), None);
}

#[test]
fn cell_color_precedence() {
    let base = theme::SYN_KEYWORD;
    assert_eq!(cell_colors(base, false, false, None, false), (base, theme::BG));
    assert_eq!(cell_colors(base, true, false, None, false), (base, theme::CURSORLINE_BG));
    assert_eq!(cell_colors(base, true, true, None, false), (base, theme::MATCH_BG));
    assert_eq!(
        cell_colors(base, true, true, Some(false), false),
        (theme::SEARCH_FG, theme::SEARCH_BG)
    );
    assert_eq!(
        cell_colors(base, true, true, Some(true), false),
        (theme::SEARCH_FG, theme::SEARCH_CUR_BG)
    );
    assert_eq!(
        cell_colors(base, true, true, Some(true), true),
        (base, theme::VISUAL_BG)
    );
}

#[test]
fn in_visual_charwise_and_linewise() {
    let sel = Some((Position::new(1, 2), Position::new(3, 1), VisualKind::Char));
    assert!(!in_visual(&sel, 0, 5, false));
    assert!(!in_visual(&sel, 1, 1, false));
    assert!(in_visual(&sel, 1, 2, false));
    assert!(in_visual(&sel, 2, 0, false));
    assert!(in_visual(&sel, 3, 1, false));
    assert!(!in_visual(&sel, 3, 2, false));
    let sel = Some((Position::new(1, 2), Position::new(2, 0), VisualKind::Line));
    assert!(in_visual(&sel, 1, 0, false));
    assert!(in_visual(&sel, 2, 99, false));
    assert!(!in_visual(&sel, 3, 0, false));
    assert!(!in_visual(&None, 0, 0, false));
}

#[test]
fn in_visual_block_is_a_rectangle() {
    // Anchor right of the cursor end: cols still normalize to 1..=3.
    let sel = Some((Position::new(1, 3), Position::new(3, 1), VisualKind::Block));
    assert!(in_visual(&sel, 2, 1, false));
    assert!(in_visual(&sel, 2, 3, false));
    assert!(!in_visual(&sel, 2, 0, false));
    assert!(!in_visual(&sel, 2, 4, false));
    assert!(!in_visual(&sel, 0, 2, false));
    assert!(!in_visual(&sel, 4, 2, false));
    assert!(in_visual(&sel, 2, 99, true), "block $ extends to line ends");
    assert!(!in_visual(&sel, 2, 0, true));
}

#[test]
fn scroll_pct_labels() {
    assert_eq!(scroll_pct(0, 10, 5), "All");
    assert_eq!(scroll_pct(0, 10, 50), "Top");
    assert_eq!(scroll_pct(40, 10, 50), "Bot");
    assert_eq!(scroll_pct(20, 10, 50), "50%");
}

#[test]
fn unicode_lines_render_at_char_columns() {
    let mut st = mk_state("é中x");
    let (term, info) = render(&mut st, 40, 10, false);
    let b = &term;
    assert_eq!(at(b, info.gutter_w, 1).ch.to_string(), "é");
    assert_eq!(at(b, info.gutter_w + 1, 1).ch.to_string(), "中");
    assert_eq!(at(b, info.gutter_w + 2, 1).ch.to_string(), "x");
}

fn leader_pending_vim(st: &mut EditorState, vfs: &mut Vfs) -> VimEngine {
    let mut vim = VimEngine::new();
    vim.handle_key(st, vfs, &mut HostHandle::new(), Key::Char(' '));
    vim
}

#[test]
fn whichkey_hit_test_matches_drawn_cells() {
    let hints: &[(&str, &str)] = &[
        ("e", "explorer"),
        ("f", "find…"),
        ("o", "other window"),
        ("t", "split…"),
        ("w", "save"),
        ("c", "close buffer"),
        ("q", "close window"),
        ("h", "help"),
    ];
    for cols in [20u16, 39, 40, 79, 80, 120] {
        let (rows, ncols) = whichkey_grid(cols, hints.len());
        let col_w = (cols / ncols).max(1);
        for (i, (k, _)) in hints.iter().enumerate() {
            let row = i / ncols as usize;
            if row >= rows as usize {
                continue;
            }
            let x = (i % ncols as usize) as u16 * col_w;
            let got = whichkey_action_at(x, 1 + row as u16, cols, hints);
            assert_eq!(got, k.chars().next().map(Key::Char), "cols {cols} hint {i}");
        }
        assert_eq!(whichkey_action_at(0, 0, cols, hints), None, "title row is inert");
        assert_eq!(whichkey_action_at(0, rows + 1, cols, hints), None);
    }
    let (rows, ncols) = whichkey_grid(60, 8);
    assert_eq!((rows, ncols), (3, 3), "overflow bumps the column count");
    assert_eq!(whichkey_grid(80, 8), (2, 4));
    assert_eq!(whichkey_grid(30, 2), (2, 1));
}

#[test]
fn whichkey_pattern_rows_are_inert() {
    let hints: &[(&str, &str)] = &[
        ("a-z", "named register"),
        ("w e b", "word motions"),
        ("$ 0 ^", "line ends"),
    ];
    // Single-char first token taps; range patterns do not.
    assert_eq!(whichkey_action_at(0, 1, 30, hints), None, "a-z row is documentation");
    assert_eq!(whichkey_action_at(0, 2, 30, hints), Some(Key::Char('w')));
    assert_eq!(whichkey_action_at(0, 3, 30, hints), Some(Key::Char('$')));
}

#[test]
fn whichkey_prefix_panels_wait_for_a_pause() {
    let mut st = mk_state("alpha\nbeta");
    let mut vfs = empty_vfs();
    let mut vim = VimEngine::new();
    vim.handle_key(&mut st, &mut vfs, &mut HostHandle::new(), Key::Char('d'));

    let (_, info) = render_paused(&mut st, &mut vim, &vfs, 80, 20, false, false);
    assert_eq!(info.whichkey_rows, 0, "mid-typing: no operator panel");
    let (term, info) = render_paused(&mut st, &mut vim, &vfs, 80, 20, false, true);
    assert!(info.whichkey_rows > 0, "paused: the operator cheatsheet shows");
    assert!(row_text(&term, info.whichkey_top).contains(" d"));

    // Leader menus are immediate regardless of the pause state.
    let mut st = mk_state("alpha");
    let mut vim = leader_pending_vim(&mut st, &mut vfs);
    let (_, info) = render_paused(&mut st, &mut vim, &vfs, 80, 20, false, false);
    assert!(info.whichkey_rows > 0, "leader menu shows without waiting");
}

#[test]
fn whichkey_panel_docks_above_touchbar() {
    let mut st = mk_state("alpha");
    let mut vfs = empty_vfs();
    let mut vim = leader_pending_vim(&mut st, &mut vfs);
    let (term, info) = render_with(&mut st, &mut vim, &vfs, 80, 20, false);
    assert_eq!(info.whichkey_rows, 3);
    assert_eq!(info.whichkey_top, 16);
    assert_eq!(info.touchbar_row, 19);
    assert_eq!(info.text_rows, 16, "panel overlays; the text area does not move");
    let title = row_text(&term, 16);
    assert!(title.contains(" space"), "{title:?}");
    let hints = row_text(&term, 17) + &row_text(&term, 18);
    for label in ["explorer", "find…", "save", "help"] {
        assert!(hints.contains(label), "missing {label} in {hints:?}");
    }
    let b = &term;
    assert_eq!(at(b, 0, 16).bg, theme::SURFACE_DIM);
    let ex = row_text(&term, 17).find("e explorer").unwrap() as u16;
    assert_eq!(at(b, ex, 17).fg, theme::ACCENT);
    assert_eq!(at(b, ex + 2, 17).fg, theme::TEXT);
    // No panel without a pending leader.
    let (_, info) = render(&mut st, 80, 20, false);
    assert_eq!(info.whichkey_rows, 0);
}

#[test]
fn whichkey_panel_skipped_on_tiny_grids() {
    let mut st = mk_state("alpha");
    let mut vfs = empty_vfs();
    let mut vim = leader_pending_vim(&mut st, &mut vfs);
    let (_, info) = render_with(&mut st, &mut vim, &vfs, 20, 6, false);
    assert_eq!(info.whichkey_rows, 0);
}

#[test]
fn tile_windows_exactly_partitions_the_area() {
    for n in 1..=4usize {
        for h in [1u16, 3, 7, 10, 24] {
            let tiles = tile_windows(n, SplitDir::Horizontal, 2, 1, 30, h);
            assert_eq!(tiles.len(), n);
            let mut y = 1u16;
            for (i, &(x, ty, w, th)) in tiles.iter().enumerate() {
                assert_eq!((x, w), (2, 30));
                assert_eq!(ty, y, "window {i} starts after the previous separator");
                y = y.saturating_add(th).saturating_add(1);
            }
            if h >= (2 * n - 1) as u16 {
                let total: u16 = tiles.iter().map(|t| t.3).sum::<u16>() + (n as u16 - 1);
                assert_eq!(total, h, "H tiles + separators fill exactly at h={h} n={n}");
            }
        }
        let tiles = tile_windows(n, SplitDir::Vertical, 5, 2, 41, 9);
        let total: u16 = tiles.iter().map(|t| t.2).sum::<u16>() + (n as u16 - 1);
        assert_eq!(total, 41);
        assert!(tiles.iter().all(|&(_, y, _, h)| y == 2 && h == 9));
        let mut x = 5u16;
        for &(tx, _, tw, _) in &tiles {
            assert_eq!(tx, x);
            x += tw + 1;
        }
    }
    assert!(tile_windows(0, SplitDir::Horizontal, 0, 0, 10, 10).is_empty());
}

#[test]
fn horizontal_split_renders_separator_and_statusline_count() {
    let mut st = mk_state("alpha\nbravo");
    st.split(SplitDir::Horizontal);
    let (term, info) = render(&mut st, 40, 14, false);
    assert_eq!(info.windows.len(), 2);
    let sep_y = info.windows[0].y + info.windows[0].h;
    assert!(row_text(&term, sep_y).contains("main.rs"), "{:?}", row_text(&term, sep_y));
    let b = &term;
    assert_eq!(at(b, 0, sep_y).bg, theme::SURFACE_DIM);
    let status = row_text(&term, 11);
    assert!(status.contains("⧉ 2/2"), "{status:?}");
    // Both windows show the buffer's first line with their own gutter.
    assert!(row_text(&term, info.windows[0].y).contains("1 alpha"));
    assert!(row_text(&term, info.windows[1].y).contains("1 alpha"));
    // Cursorline paints only in the focused (second) window.
    assert_eq!(at(b, 20, info.windows[1].y).bg, theme::CURSORLINE_BG);
    assert_ne!(at(b, 20, info.windows[0].y).bg, theme::CURSORLINE_BG);
}

#[test]
fn scroll_follow_uses_focused_window_height() {
    let text: String = (0..100).map(|i| format!("line {i}\n")).collect();
    let mut st = mk_state(text.trim_end());
    st.split(SplitDir::Horizontal);
    st.buffers[0].cursor = Position::new(50, 0);
    let (_, info) = render(&mut st, 40, 14, false);
    let fr = info.windows[1];
    assert_eq!((info.text_top, info.text_rows), (fr.y, fr.h));
    let top = st.buffers[0].scroll.0;
    assert!(fr.h < 10, "split window is shorter than the full text area");
    assert!(50 >= top && 50 < top + fr.h as usize, "cursor in view at top={top} h={}", fr.h);
}

#[test]
fn vertical_split_renders_divider() {
    let mut st = mk_state("alpha");
    st.split(SplitDir::Vertical);
    let (term, info) = render(&mut st, 41, 12, false);
    assert_eq!(info.windows.len(), 2);
    let div_x = info.windows[0].x + info.windows[0].w;
    let b = &term;
    assert_eq!(at(b, div_x, info.windows[0].y).ch.to_string(), "│");
    assert_eq!(at(b, div_x, info.windows[0].y).fg, theme::BORDER_MUTED);
    assert!(row_text(&term, info.windows[0].y).matches("1 alpha").count() >= 2);
}

#[test]
fn explorer_sidebar_renders_files_and_divider() {
    let mut st = mk_state("alpha");
    st.explorer = Some(ExplorerState::new());
    st.explorer_focused = true;
    let mut vfs = empty_vfs();
    vfs.write("a.rs", "");
    vfs.write("b.md", "");
    let (term, info) = render_with(&mut st, &mut VimEngine::new(), &vfs, 60, 14, false);
    assert_eq!(info.explorer_w, 21);
    assert!(row_text(&term, 1).starts_with(" files"));
    let a_row = find_row(&term, "a.rs").unwrap();
    let b_row = find_row(&term, "b.md").unwrap();
    assert_eq!((a_row, b_row), (2, 3));
    let b = &term;
    assert_eq!(at(b, 1, a_row).fg, theme::ACCENT, "selected row, explorer focused");
    assert_eq!(at(b, 1, a_row).bg, theme::SURFACE);
    assert_eq!(at(b, 1, b_row).fg, theme::MUTED, "non-rs file dimmed");
    assert_eq!(at(b, 21, 2).ch.to_string(), "│");
    assert_eq!(info.windows[0].x, 22);
    // Unfocused explorer dims the selection.
    st.explorer_focused = false;
    let (term, _) = render_with(&mut st, &mut VimEngine::new(), &vfs, 60, 14, false);
    let b = &term;
    assert_eq!(at(b, 1, 2).fg, theme::MUTED);
}

#[test]
fn explorer_new_name_row_renders() {
    let mut st = mk_state("alpha");
    let mut ex = ExplorerState::new();
    ex.new_name = Some("fresh.rs".into());
    st.explorer = Some(ex);
    let mut vfs = empty_vfs();
    vfs.write("a.rs", "");
    let (term, _) = render_with(&mut st, &mut VimEngine::new(), &vfs, 60, 14, false);
    assert!(find_row(&term, "+ fresh.rs").is_some());
}

#[test]
fn explorer_skipped_below_30_cols() {
    let mut st = mk_state("alpha");
    st.explorer = Some(ExplorerState::new());
    let mut vfs = empty_vfs();
    vfs.write("a.rs", "");
    let (term, info) = render_with(&mut st, &mut VimEngine::new(), &vfs, 25, 10, false);
    assert_eq!(info.explorer_w, 0);
    assert!(find_row(&term, "files").is_none());
    assert!(row_text(&term, 1).contains("alpha"));
}

#[test]
fn explorer_offset_follows_selection() {
    let mut st = mk_state("alpha");
    let mut ex = ExplorerState::new();
    ex.selected = 9;
    st.explorer = Some(ex);
    let mut vfs = empty_vfs();
    for i in 0..10 {
        vfs.write(&format!("f{i}.rs"), "");
    }
    let (term, _) = render_with(&mut st, &mut VimEngine::new(), &vfs, 60, 8, false);
    // 4 text rows; header + 3 file rows: the selected f9.rs must be visible.
    assert!(find_row(&term, "f9.rs").is_some());
    assert_eq!(st.explorer.as_ref().unwrap().offset, 7);
}

#[test]
fn buffers_finder_overlay_title() {
    let mut st = mk_state("alpha");
    st.finder = Some(FinderState::buffers(vec!["main.rs".into()]));
    let (term, _) = render(&mut st, 40, 20, false);
    assert!(find_row(&term, " buffers ").is_some());
    assert!(find_row(&term, " find file ").is_none());
}

#[test]
fn tiny_grid_with_explorer_and_splits_never_panics() {
    let mut st = mk_state("fn main() {}\nx");
    st.explorer = Some(ExplorerState::new());
    st.explorer_focused = true;
    st.split(SplitDir::Horizontal);
    st.split(SplitDir::Horizontal);
    st.split(SplitDir::Vertical);
    let mut vfs = empty_vfs();
    vfs.write("a.rs", "x");
    let mut vim = VimEngine::new();
    vim.handle_key(&mut st, &mut vfs, &mut HostHandle::new(), Key::Char(' '));
    for (w, h) in [(20u16, 6u16), (30, 6), (20, 3), (35, 8), (10, 2)] {
        let (_, info) = render_with(&mut st, &mut vim, &vfs, w, h, true);
        assert_eq!(info.cols, w);
    }
}

#[test]
fn unicode_file_names_render_everywhere_without_panic() {
    let mut st = mk_state("fn main() {}\né中🎉");
    st.buffers.push(Buffer::new("中文ファイル.md", "本文"));
    st.buffers[1].text.insert_char(Position::default(), 'x');
    st.explorer = Some(ExplorerState::new());
    st.explorer_focused = true;
    st.split(SplitDir::Horizontal);
    st.split(SplitDir::Vertical);
    st.windows[0].buffer = 1;
    let mut vfs = empty_vfs();
    for name in ["héllo wörld.rs", "中文ファイル.md", "🎉 party.rs", "русский.txt"] {
        vfs.write(name, "é中");
    }
    let mut vim = VimEngine::new();
    vim.handle_key(&mut st, &mut vfs, &mut HostHandle::new(), Key::Char(' '));
    for (w, h) in [(0u16, 0u16), (1, 1), (20, 6), (30, 8), (45, 12), (80, 24), (200, 4)] {
        let (_, info) = render_with(&mut st, &mut vim, &vfs, w, h, true);
        assert_eq!(info.cols, w);
    }
    let (term, _) = render_with(&mut st, &mut VimEngine::new(), &vfs, 60, 16, true);
    assert!(find_row(&term, "héllo").is_some());
    assert!(find_row(&term, "中文").is_some());
}

#[test]
fn vertical_layout_degrades_in_order() {
    let l = vertical_layout(24);
    assert_eq!(l.bufferline, Some(0));
    assert_eq!((l.text_top, l.text_rows), (1, 20));
    assert_eq!((l.status, l.cmdline, l.touchbar), (Some(21), Some(22), 23));
    let l = vertical_layout(4);
    assert_eq!(l.bufferline, None);
    assert_eq!((l.text_top, l.text_rows), (0, 1));
    assert_eq!((l.status, l.cmdline, l.touchbar), (Some(1), Some(2), 3));
    let l = vertical_layout(3);
    assert_eq!((l.status, l.cmdline), (Some(1), None));
    let l = vertical_layout(2);
    assert_eq!((l.status, l.cmdline), (None, None));
    assert_eq!(l.text_rows, 1);
    let l = vertical_layout(1);
    assert_eq!(l.text_rows, 0);
    assert_eq!(l.touchbar, 0);
}
