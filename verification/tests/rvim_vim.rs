//! The key engine, driven through keys.

use pocketdeck::host::{HostCallError, HostHandle};
use pocketdeck::rvim::buffer::Position;
use pocketdeck::rvim::explorer::ExplorerState;
use pocketdeck::rvim::finder::{FinderState, FinderTarget};
use pocketdeck::rvim::fs::Vfs;
use pocketdeck::rvim::help::HELP_BUFFER;
use pocketdeck::rvim::keys::{Key, Mode, ScrollRequest, VisualKind, PASTE_MAX_BYTES};
use pocketdeck::rvim::state::{Buffer, EditorState, RegKind, Register, SplitDir};
use pocketdeck::rvim::vim::VimEngine;

fn empty_vfs() -> Vfs {
    Vfs::load(Err(HostCallError::Failed("no host".to_string())), Vec::new())
}

struct Env {
    vim: VimEngine,
    st: EditorState,
    vfs: Vfs,
}

fn env(text: &str) -> Env {
    let mut st = EditorState::new();
    st.buffers.push(Buffer::new("main.rs", text));
    Env { vim: VimEngine::new(), st, vfs: empty_vfs() }
}

fn empty_env() -> Env {
    Env { vim: VimEngine::new(), st: EditorState::new(), vfs: empty_vfs() }
}

impl Env {
    fn key(&mut self, k: Key) {
        self.vim.handle_key(&mut self.st, &mut self.vfs, &mut HostHandle::new(), k);
    }

    /// Feed chars as keys; \u{1b}=Esc, \n=Enter, \u{8}=Backspace, \t=Tab.
    fn feed(&mut self, keys: &str) {
        for c in keys.chars() {
            let k = match c {
                '\u{1b}' => Key::Esc,
                '\n' => Key::Enter,
                '\u{8}' => Key::Backspace,
                '\t' => Key::Tab,
                _ => Key::Char(c),
            };
            self.key(k);
        }
    }

    fn text(&self) -> String {
        self.st.buf().map(|b| b.text.text()).unwrap_or_default()
    }

    fn cursor(&self) -> (usize, usize) {
        self.st.buf().map(|b| (b.cursor.line, b.cursor.col)).unwrap_or((0, 0))
    }

    fn set_cursor(&mut self, line: usize, col: usize) {
        if let Some(b) = self.st.buf_mut() {
            b.cursor = Position::new(line, col);
            b.desired_col = col;
        }
    }

    fn reg(&self, name: char) -> Option<&Register> {
        self.st.registers.get(&name)
    }

    fn status(&self) -> String {
        self.st.status.as_ref().map(|m| m.text.clone()).unwrap_or_default()
    }
}

// -- word operators ----------------------------------------------------

#[test]
fn dw_deletes_word_and_trailing_space() {
    let mut e = env("one two three");
    e.feed("dw");
    assert_eq!(e.text(), "two three");
    assert_eq!(e.cursor(), (0, 0));
}

#[test]
fn dw_mid_word_deletes_to_next_word() {
    let mut e = env("foobar baz");
    e.set_cursor(0, 3);
    e.feed("dw");
    assert_eq!(e.text(), "foobaz");
}

#[test]
fn dw_stops_at_end_of_line() {
    let mut e = env("one two\nnext");
    e.set_cursor(0, 4);
    e.feed("dw");
    assert_eq!(e.text(), "one \nnext");
}

#[test]
fn dw_on_empty_line_joins() {
    let mut e = env("\nabc");
    e.feed("dw");
    assert_eq!(e.text(), "abc");
}

#[test]
fn de_deletes_to_word_end_inclusive() {
    let mut e = env("hello world");
    e.feed("de");
    assert_eq!(e.text(), " world");
}

#[test]
fn db_deletes_back_to_word_start() {
    let mut e = env("hello world");
    e.set_cursor(0, 6);
    e.feed("db");
    assert_eq!(e.text(), "world");
    assert_eq!(e.cursor(), (0, 0));
}

#[test]
fn d2w_and_3dw_counts() {
    let mut e = env("one two three four");
    e.feed("d2w");
    assert_eq!(e.text(), "three four");
    let mut e = env("one two three four");
    e.feed("3dw");
    assert_eq!(e.text(), "four");
}

#[test]
fn cw_acts_like_ce_on_a_word() {
    let mut e = env("hello world");
    e.feed("cwbye\u{1b}");
    assert_eq!(e.text(), "bye world");
    assert_eq!(e.vim.mode(), Mode::Normal);
}

#[test]
fn w_b_e_movement_and_punctuation() {
    let mut e = env("foo.bar baz");
    e.feed("w");
    assert_eq!(e.cursor(), (0, 3));
    e.feed("w");
    assert_eq!(e.cursor(), (0, 4));
    e.feed("w");
    assert_eq!(e.cursor(), (0, 8));
    e.feed("b");
    assert_eq!(e.cursor(), (0, 4));
    e.feed("e");
    assert_eq!(e.cursor(), (0, 6));
    e.feed("W");
    assert_eq!(e.cursor(), (0, 8));
}

#[test]
fn ge_moves_to_previous_word_end() {
    let mut e = env("one two");
    e.set_cursor(0, 5);
    e.feed("ge");
    assert_eq!(e.cursor(), (0, 2));
}

#[test]
fn w_lands_on_empty_lines() {
    let mut e = env("\n\nabc");
    e.feed("w");
    assert_eq!(e.cursor(), (1, 0));
    e.feed("w");
    assert_eq!(e.cursor(), (2, 0));
    e.feed("$");
    assert_eq!(e.cursor(), (2, 2));
    e.set_cursor(0, 0);
    e.feed("$");
    assert_eq!(e.cursor(), (0, 0));
    e.feed("^");
    assert_eq!(e.cursor(), (0, 0));
    e.feed("0");
    assert_eq!(e.cursor(), (0, 0));
}

// -- text objects -------------------------------------------------------

#[test]
fn ciw_replaces_inner_word() {
    let mut e = env("foo bar baz");
    e.set_cursor(0, 5);
    e.feed("ciwqux\u{1b}");
    assert_eq!(e.text(), "foo qux baz");
}

#[test]
fn daw_takes_trailing_space() {
    let mut e = env("foo bar baz");
    e.set_cursor(0, 5);
    e.feed("daw");
    assert_eq!(e.text(), "foo baz");
}

#[test]
fn di_paren_nested_and_on_delimiter() {
    let mut e = env("a(b(c)d)e");
    e.set_cursor(0, 4);
    e.feed("di(");
    assert_eq!(e.text(), "a(b()d)e");
    let mut e = env("a(b(c)d)e");
    e.set_cursor(0, 1);
    e.feed("di(");
    assert_eq!(e.text(), "a()e");
    let mut e = env("a(b(c)d)e");
    e.set_cursor(0, 7);
    e.feed("dib");
    assert_eq!(e.text(), "a()e");
}

#[test]
fn da_quote_takes_quotes_and_space() {
    let mut e = env("say \"hi\" now");
    e.set_cursor(0, 5);
    e.feed("da\"");
    assert_eq!(e.text(), "say now");
    let mut e = env("say \"hi\" now");
    e.set_cursor(0, 5);
    e.feed("di\"");
    assert_eq!(e.text(), "say \"\" now");
}

#[test]
fn quote_object_before_first_quote_uses_forward_pair() {
    let mut e = env("x = \"val\"");
    e.feed("ci\"new\u{1b}");
    assert_eq!(e.text(), "x = \"new\"");
}

#[test]
fn ca_brace_multiline() {
    let mut e = env("fn f() {\n    body();\n}");
    e.set_cursor(1, 4);
    e.feed("ca{x\u{1b}");
    assert_eq!(e.text(), "fn f() x");
}

#[test]
fn yi_bracket_and_angle() {
    let mut e = env("v[a, b] <T>");
    e.set_cursor(0, 3);
    e.feed("yi[");
    assert_eq!(e.reg('"').unwrap().text, "a, b");
    e.set_cursor(0, 9);
    e.feed("di<");
    assert_eq!(e.text(), "v[a, b] <>");
}

// -- lines: dd, J, indent, comments --------------------------------------

#[test]
fn dd_on_last_line() {
    let mut e = env("a\nb");
    e.set_cursor(1, 0);
    e.feed("dd");
    assert_eq!(e.text(), "a");
    assert_eq!(e.cursor(), (0, 0));
    e.feed("dd");
    assert_eq!(e.text(), "");
    assert_eq!(e.st.buf().unwrap().text.line_count(), 1);
}

#[test]
fn count_3dd_deletes_three_lines() {
    let mut e = env("1\n2\n3\n4");
    e.feed("3dd");
    assert_eq!(e.text(), "4");
    assert_eq!(e.reg('"').unwrap().kind, RegKind::Line);
    assert_eq!(e.reg('"').unwrap().text, "1\n2\n3");
}

#[test]
fn dj_is_linewise() {
    let mut e = env("1\n2\n3");
    e.feed("dj");
    assert_eq!(e.text(), "3");
}

#[test]
fn join_collapses_indent_with_space() {
    let mut e = env("foo\n    bar\nbaz");
    e.feed("J");
    assert_eq!(e.text(), "foo bar\nbaz");
    assert_eq!(e.cursor(), (0, 3));
    let mut e = env("a\nb\nc\nd");
    e.feed("3J");
    assert_eq!(e.text(), "a b c\nd");
}

#[test]
fn indent_and_dedent() {
    let mut e = env("fn x\nlet y");
    e.feed("2>>");
    assert_eq!(e.text(), "    fn x\n    let y");
    e.feed("<<");
    assert_eq!(e.text(), "fn x\n    let y");
    e.set_cursor(0, 0);
    e.feed(">j");
    assert_eq!(e.text(), "    fn x\n        let y");
}

#[test]
fn gcc_toggles_line_comment() {
    let mut e = env("fn main() {\n    x();\n}");
    e.feed("gcc");
    assert_eq!(e.text(), "// fn main() {\n    x();\n}");
    e.feed("gcc");
    assert_eq!(e.text(), "fn main() {\n    x();\n}");
}

#[test]
fn gc_visual_comments_block() {
    let mut e = env("a();\n    b();");
    e.feed("Vjgc");
    assert_eq!(e.text(), "// a();\n    // b();");
    assert_eq!(e.vim.mode(), Mode::Normal);
    e.feed("Vjgc");
    assert_eq!(e.text(), "a();\n    b();");
}

// -- x, s, r, ~, case ----------------------------------------------------

#[test]
fn x_at_line_end_clamps_cursor() {
    let mut e = env("abc");
    e.feed("$x");
    assert_eq!(e.text(), "ab");
    assert_eq!(e.cursor(), (0, 1));
    e.feed("xx");
    assert_eq!(e.text(), "");
    e.feed("x");
    assert_eq!(e.text(), "");
}

#[test]
fn count_x_and_big_x() {
    let mut e = env("abcdef");
    e.feed("3x");
    assert_eq!(e.text(), "def");
    e.feed("$X");
    assert_eq!(e.text(), "df");
}

#[test]
fn s_substitutes_char_and_inserts() {
    let mut e = env("abc");
    e.feed("sx\u{1b}");
    assert_eq!(e.text(), "xbc");
}

#[test]
fn r_replaces_count_chars() {
    let mut e = env("abcd");
    e.feed("rx");
    assert_eq!(e.text(), "xbcd");
    e.feed("3ry");
    assert_eq!(e.text(), "yyyd");
    assert_eq!(e.cursor(), (0, 2));
    e.feed("$9rz");
    assert_eq!(e.text(), "yyyd");
}

#[test]
fn replace_mode_overtypes_and_appends() {
    let mut e = env("abcd");
    e.feed("Rxy\u{1b}");
    assert_eq!(e.text(), "xycd");
    assert_eq!(e.cursor(), (0, 1));
    let mut e = env("ab");
    e.feed("Rwxyz\u{1b}");
    assert_eq!(e.text(), "wxyz");
}

#[test]
fn tilde_toggles_case_and_advances() {
    let mut e = env("aBc");
    e.feed("3~");
    assert_eq!(e.text(), "AbC");
    assert_eq!(e.cursor(), (0, 2));
}

#[test]
fn gu_gU_operators() {
    let mut e = env("abc def");
    e.feed("gUe");
    assert_eq!(e.text(), "ABC def");
    e.feed("guu");
    assert_eq!(e.text(), "abc def");
    let mut e = env("MiXeD");
    e.feed("veu");
    assert_eq!(e.text(), "mixed");
}

#[test]
fn c_and_d_to_eol() {
    let mut e = env("hello world");
    e.set_cursor(0, 5);
    e.feed("D");
    assert_eq!(e.text(), "hello");
    let mut e = env("hello world");
    e.set_cursor(0, 6);
    e.feed("C!\u{1b}");
    assert_eq!(e.text(), "hello !");
}

// -- registers and paste --------------------------------------------------

#[test]
fn paste_charwise_after_and_before() {
    let mut e = env("ab");
    e.feed("x");
    assert_eq!(e.reg('"').unwrap().text, "a");
    e.feed("p");
    assert_eq!(e.text(), "ba");
    assert_eq!(e.cursor(), (0, 1));
    e.feed("P");
    assert_eq!(e.text(), "baa");
}

#[test]
fn paste_linewise_below_and_above() {
    let mut e = env("one\ntwo");
    e.feed("yyp");
    assert_eq!(e.text(), "one\none\ntwo");
    assert_eq!(e.cursor(), (1, 0));
    e.feed("2P");
    assert_eq!(e.text(), "one\none\none\none\ntwo");
}

#[test]
fn count_paste_charwise() {
    let mut e = env("xy");
    e.feed("ylp");
    assert_eq!(e.text(), "xxy");
    let mut e = env("xy");
    e.feed("yl");
    assert_eq!(e.reg('"').unwrap().text, "x");
    e.feed("3p");
    assert_eq!(e.text(), "xxxxy");
}

#[test]
fn named_register_and_yank_register() {
    let mut e = env("one\ntwo");
    e.feed("\"ayy");
    assert_eq!(e.reg('a').unwrap().text, "one");
    // A named yank fills the unnamed register but skips register 0.
    assert!(e.reg('0').is_none());
    e.feed("yy");
    assert_eq!(e.reg('0').unwrap().text, "one");
    // A delete goes to the unnamed register and leaves register 0 alone.
    e.feed("dd");
    assert_eq!(e.reg('"').unwrap().text, "one");
    assert_eq!(e.reg('0').unwrap().text, "one");
    e.feed("\"ap");
    assert_eq!(e.text(), "two\none");
}

#[test]
fn yank_word_then_paste() {
    let mut e = env("foo bar");
    e.feed("yw");
    assert_eq!(e.reg('"').unwrap().text, "foo ");
    assert_eq!(e.reg('"').unwrap().kind, RegKind::Char);
    e.feed("$p");
    assert_eq!(e.text(), "foo barfoo ");
}

// -- undo, redo, dot ------------------------------------------------------

#[test]
fn insert_session_is_one_undo_step() {
    let mut e = env("ab");
    e.feed("ihello \u{1b}");
    assert_eq!(e.text(), "hello ab");
    e.feed("u");
    assert_eq!(e.text(), "ab");
    e.key(Key::Ctrl('r'));
    assert_eq!(e.text(), "hello ab");
}

#[test]
fn o_open_and_typed_text_is_one_undo() {
    let mut e = env("  foo");
    e.feed("obar\u{1b}");
    assert_eq!(e.text(), "  foo\n  bar");
    e.feed("u");
    assert_eq!(e.text(), "  foo");
}

#[test]
fn discrete_changes_undo_separately() {
    let mut e = env("abcd");
    e.feed("xx");
    assert_eq!(e.text(), "cd");
    e.feed("u");
    assert_eq!(e.text(), "bcd");
    e.feed("u");
    assert_eq!(e.text(), "abcd");
    e.feed("u");
    assert!(e.status().contains("oldest"));
}

#[test]
fn dot_repeats_dw() {
    let mut e = env("one two three");
    e.feed("dw");
    assert_eq!(e.text(), "two three");
    e.feed(".");
    assert_eq!(e.text(), "three");
}

#[test]
fn dot_repeats_insert_session() {
    let mut e = env("x");
    e.feed("iab\u{1b}");
    assert_eq!(e.text(), "abx");
    e.feed(".");
    assert_eq!(e.text(), "aabbx");
}

#[test]
fn dot_repeats_x_r_and_indent() {
    let mut e = env("abcdef");
    e.feed("x.");
    assert_eq!(e.text(), "cdef");
    // r leaves the cursor on the replaced char, so . re-replaces in place.
    e.feed("ry.");
    assert_eq!(e.text(), "ydef");
    let mut e = env("a\nb");
    e.feed(">>j.");
    assert_eq!(e.text(), "    a\n    b");
}

#[test]
fn motions_do_not_become_dot_target() {
    let mut e = env("one two");
    e.feed("x");
    e.feed("wjklhG");
    e.feed(".");
    assert_eq!(e.text(), "e two");
}

// -- f/t and ; , -----------------------------------------------------------

#[test]
fn find_char_and_semicolon_repeat() {
    let mut e = env("abcabcabc");
    e.feed("fb");
    assert_eq!(e.cursor(), (0, 1));
    e.feed(";");
    assert_eq!(e.cursor(), (0, 4));
    e.feed(";");
    assert_eq!(e.cursor(), (0, 7));
    e.feed(",");
    assert_eq!(e.cursor(), (0, 4));
    e.feed("Fa");
    assert_eq!(e.cursor(), (0, 3));
}

#[test]
fn t_and_dt_motion() {
    let mut e = env("abc");
    e.feed("tc");
    assert_eq!(e.cursor(), (0, 1));
    let mut e = env("say: done");
    e.feed("dt:");
    assert_eq!(e.text(), ": done");
    let mut e = env("abc");
    e.feed("dfc");
    assert_eq!(e.text(), "");
}

#[test]
fn count_find() {
    let mut e = env("a.b.c.d");
    e.feed("2f.");
    assert_eq!(e.cursor(), (0, 3));
    e.feed("f.");
    assert_eq!(e.cursor(), (0, 5));
}

// -- search -----------------------------------------------------------------

#[test]
fn search_commits_and_n_wraps_with_message() {
    let mut e = env("foo\nbar\nfoo");
    e.feed("/foo\n");
    assert_eq!(e.cursor(), (2, 0));
    assert_eq!(e.st.search.pattern, "foo");
    e.feed("n");
    assert_eq!(e.cursor(), (0, 0));
    assert!(e.status().contains("BOTTOM"), "{}", e.status());
    e.feed("N");
    assert_eq!(e.cursor(), (2, 0));
    assert!(e.status().contains("TOP"), "{}", e.status());
}

#[test]
fn incremental_search_moves_and_esc_restores() {
    let mut e = env("hello");
    e.feed("/ll");
    assert_eq!(e.cursor(), (0, 2));
    assert_eq!(e.st.search.pattern, "ll");
    e.key(Key::Esc);
    assert_eq!(e.cursor(), (0, 0));
    assert_eq!(e.st.search.pattern, "");
    assert_eq!(e.vim.mode(), Mode::Normal);
}

#[test]
fn search_not_found_reports_e486() {
    let mut e = env("hello");
    e.feed("/zz\n");
    assert!(e.status().contains("E486"));
    assert_eq!(e.cursor(), (0, 0));
}

#[test]
fn backwards_search_and_star() {
    let mut e = env("foo bar foo bar");
    e.set_cursor(0, 14);
    e.feed("?foo\n");
    assert_eq!(e.cursor(), (0, 8));
    e.feed("n");
    assert_eq!(e.cursor(), (0, 0));
    let mut e = env("foo bar foo");
    e.feed("*");
    assert_eq!(e.st.search.pattern, "foo");
    assert_eq!(e.cursor(), (0, 8));
    e.feed("#");
    assert_eq!(e.cursor(), (0, 0));
}

#[test]
fn noh_suppresses_until_next_search() {
    let mut e = env("aaa");
    e.feed("/a\n");
    assert!(!e.st.search.suppressed);
    e.feed(":noh\n");
    assert!(e.st.search.suppressed);
    e.feed("n");
    assert!(!e.st.search.suppressed);
}

// -- ex commands ---------------------------------------------------------

#[test]
fn substitute_current_line_and_global() {
    let mut e = env("a a\nb a a");
    e.feed(":s/a/x/\n");
    assert_eq!(e.text(), "x a\nb a a");
    e.set_cursor(1, 0);
    e.feed(":s/a/x/g\n");
    assert_eq!(e.text(), "x a\nb x x");
}

#[test]
fn substitute_percent_range_and_counts() {
    let mut e = env("a a\na a\na a");
    e.feed(":%s/a/b/g\n");
    assert_eq!(e.text(), "b b\nb b\nb b");
    assert!(e.status().contains("6 substitution(s) on 3 line(s)"), "{}", e.status());
}

#[test]
fn substitute_numeric_and_dollar_ranges() {
    let mut e = env("a\na\na\na");
    e.feed(":2,3s/a/b/\n");
    assert_eq!(e.text(), "a\nb\nb\na");
    e.feed(":.,$s/a/c/\n");
    assert_eq!(e.text(), "a\nb\nb\nc".replace("b\nb\nc", "b\nb\nc"));
    assert_eq!(e.text(), "a\nb\nb\nc");
    e.feed(":1s/a/z/\n");
    assert_eq!(e.text(), "z\nb\nb\nc");
}

#[test]
fn substitute_is_one_undo_and_reports_miss() {
    let mut e = env("a a a");
    e.feed(":s/a/b/g\n");
    assert_eq!(e.text(), "b b b");
    e.feed("u");
    assert_eq!(e.text(), "a a a");
    e.feed(":s/zz/b/\n");
    assert!(e.status().contains("E486"));
}

#[test]
fn line_jump_and_dollar() {
    let mut e = env("1\n2\n3\n4\n5");
    e.feed(":4\n");
    assert_eq!(e.cursor(), (3, 0));
    e.feed(":$\n");
    assert_eq!(e.cursor(), (4, 0));
    e.feed(":1\n");
    assert_eq!(e.cursor(), (0, 0));
}

#[test]
fn gg_G_and_counted_G() {
    let mut e = env("1\n2\n3\n4\n5\n6\n7\n8\n9\n10");
    e.feed("G");
    assert_eq!(e.cursor(), (9, 0));
    e.feed("gg");
    assert_eq!(e.cursor(), (0, 0));
    e.feed("5G");
    assert_eq!(e.cursor(), (4, 0));
    e.feed("3gg");
    assert_eq!(e.cursor(), (2, 0));
    e.feed("dG");
    assert_eq!(e.text(), "1\n2");
}

#[test]
fn unknown_command_reports_e492() {
    let mut e = env("x");
    e.feed(":frobnicate\n");
    assert!(e.status().contains("E492"), "{}", e.status());
    assert!(e.status().contains("frobnicate"));
}

#[test]
fn set_number_options() {
    let mut e = env("x");
    e.feed(":set nonu\n");
    assert!(!e.st.options.number);
    e.feed(":set nu\n");
    assert!(e.st.options.number);
    e.feed(":set nornu\n");
    assert!(!e.st.options.relativenumber);
    e.feed(":set rnu\n");
    assert!(e.st.options.relativenumber);
    e.feed(":set bogus\n");
    assert!(e.status().contains("E518"));
}

#[test]
fn write_quit_and_buffer_commands() {
    let mut e = env("hello");
    e.feed(":w\n");
    assert_eq!(e.vfs.read("main.rs").as_deref(), Some("hello"));
    assert!(!e.st.buf().unwrap().modified());
    e.feed(":e other.rs\n");
    assert_eq!(e.st.buffers.len(), 2);
    assert_eq!(e.st.buf().unwrap().name, "other.rs");
    e.feed(":bp\n");
    assert_eq!(e.st.buf().unwrap().name, "main.rs");
    e.feed(":bn\n");
    assert_eq!(e.st.buf().unwrap().name, "other.rs");
    e.feed(":b 1\n");
    assert_eq!(e.st.buf().unwrap().name, "main.rs");
    e.feed(":b other\n");
    assert_eq!(e.st.buf().unwrap().name, "other.rs");
    e.feed(":bd\n");
    assert_eq!(e.st.buffers.len(), 1);
}

#[test]
fn quit_refuses_modified_without_bang() {
    let mut e = env("x");
    e.feed("ia\u{1b}");
    e.feed(":q\n");
    assert_eq!(e.st.buffers.len(), 1);
    assert!(e.status().contains("E89"));
    e.feed(":q!\n");
    assert!(e.st.buffers.is_empty());
}

#[test]
fn wq_writes_and_closes() {
    let mut e = env("data");
    e.feed("ix\u{1b}:wq\n");
    assert!(e.st.buffers.is_empty());
    assert_eq!(e.vfs.read("main.rs").as_deref(), Some("xdata"));
}

#[test]
fn edit_bang_reloads_from_vfs() {
    let mut e = env("orig");
    e.feed(":w\n");
    e.feed("dd");
    assert_eq!(e.text(), "");
    e.feed(":e!\n");
    assert_eq!(e.text(), "orig");
    assert!(!e.st.buf().unwrap().modified());
}

#[test]
fn w_with_name_and_rm() {
    let mut e = env("abc");
    e.feed(":w copy.rs\n");
    assert_eq!(e.vfs.read("copy.rs").as_deref(), Some("abc"));
    e.feed(":rm copy.rs\n");
    assert!(e.vfs.read("copy.rs").is_none());
    e.feed(":rm copy.rs\n");
    assert!(e.status().contains("E484"));
}

#[test]
fn help_opens_single_help_buffer() {
    let mut e = env("x");
    e.feed(":help\n");
    assert_eq!(e.st.buf().unwrap().name, HELP_BUFFER);
    assert!(e.text().contains("cheatsheet"));
    e.feed(":bp\n:help\n");
    assert_eq!(e.st.buffers.len(), 2);
    assert_eq!(e.st.buf().unwrap().name, HELP_BUFFER);
}

#[test]
fn cmdline_editing_keys() {
    let mut e = env("x");
    e.feed(":wx");
    e.key(Key::Left);
    e.key(Key::Backspace);
    assert_eq!(e.vim.cmdline(), Some((':', "x", 0usize)));
    e.key(Key::End);
    e.key(Key::Char('y'));
    assert_eq!(e.vim.cmdline(), Some((':', "xy", 2usize)));
    e.key(Key::Home);
    e.key(Key::Delete);
    assert_eq!(e.vim.cmdline(), Some((':', "y", 0usize)));
    e.key(Key::Esc);
    assert_eq!(e.vim.mode(), Mode::Normal);
    e.feed(":");
    e.key(Key::Backspace);
    assert_eq!(e.vim.mode(), Mode::Normal);
}

// -- visual mode ----------------------------------------------------------

#[test]
fn visual_charwise_delete_and_yank() {
    let mut e = env("hello world");
    e.feed("ved");
    assert_eq!(e.text(), " world");
    assert_eq!(e.vim.mode(), Mode::Normal);
    let mut e = env("hello world");
    e.feed("vey");
    assert_eq!(e.reg('"').unwrap().text, "hello");
    assert_eq!(e.reg('"').unwrap().kind, RegKind::Char);
    assert_eq!(e.cursor(), (0, 0));
}

#[test]
fn visual_linewise_delete_and_paste() {
    let mut e = env("one\ntwo\nthree");
    e.feed("Vjd");
    assert_eq!(e.text(), "three");
    assert_eq!(e.reg('"').unwrap().kind, RegKind::Line);
    e.feed("Vy");
    e.feed("p");
    assert_eq!(e.text(), "three\nthree");
}

#[test]
fn visual_o_swaps_ends_and_esc_cancels() {
    let mut e = env("abcdef");
    e.set_cursor(0, 3);
    e.feed("vll");
    assert_eq!(e.vim.visual_range(e.st.buf().unwrap().cursor).unwrap().0, Position::new(0, 3));
    e.feed("o");
    assert_eq!(e.cursor(), (0, 3));
    e.feed("\u{1b}");
    assert_eq!(e.vim.mode(), Mode::Normal);
    assert!(e.vim.visual_range(Position::default()).is_none());
}

#[test]
fn visual_object_and_change() {
    let mut e = env("say (big words) now");
    e.set_cursor(0, 7);
    e.feed("vi(d");
    assert_eq!(e.text(), "say () now");
    let mut e = env("hello world");
    e.set_cursor(0, 7);
    e.feed("viwcbye\u{1b}");
    assert_eq!(e.text(), "hello bye");
}

#[test]
fn visual_switch_char_to_line() {
    let mut e = env("aaa\nbbb");
    e.feed("v");
    assert_eq!(e.vim.mode(), Mode::Visual { kind: VisualKind::Char });
    e.feed("V");
    assert_eq!(e.vim.mode(), Mode::Visual { kind: VisualKind::Line });
    e.feed("jd");
    assert_eq!(e.text(), "");
}

#[test]
fn visual_replace_char() {
    let mut e = env("abc");
    e.feed("vllrx");
    assert_eq!(e.text(), "xxx");
    assert_eq!(e.vim.mode(), Mode::Normal);
}

#[test]
fn visual_indent() {
    let mut e = env("a\nb");
    e.feed("Vj>");
    assert_eq!(e.text(), "    a\n    b");
}

// -- marks -----------------------------------------------------------------

#[test]
fn marks_backtick_exact_and_quote_line() {
    let mut e = env("one\n  two\nthree");
    e.set_cursor(1, 4);
    e.feed("ma");
    e.feed("gg");
    assert_eq!(e.cursor(), (0, 0));
    e.feed("`a");
    assert_eq!(e.cursor(), (1, 4));
    e.feed("gg'a");
    assert_eq!(e.cursor(), (1, 2));
    e.feed("`z");
    assert!(e.status().contains("E20"));
}

#[test]
fn delete_to_mark() {
    let mut e = env("abcdef");
    e.set_cursor(0, 4);
    e.feed("mq0");
    e.feed("d`q");
    assert_eq!(e.text(), "ef");
}

// -- insert mode details ------------------------------------------------------

#[test]
fn jk_quick_escape_leaves_clean_buffer() {
    let mut e = env("");
    e.feed("iabjk");
    assert_eq!(e.text(), "ab");
    assert_eq!(e.vim.mode(), Mode::Normal);
    let mut e = env("");
    e.feed("ijx\u{1b}");
    assert_eq!(e.text(), "jx");
    let mut e = env("");
    e.feed("ijjk");
    assert_eq!(e.text(), "j");
}

#[test]
fn enter_keeps_indent_and_adds_after_brace() {
    let mut e = env("    foo");
    e.feed("A\nbar\u{1b}");
    assert_eq!(e.text(), "    foo\n    bar");
    let mut e = env("fn f() {");
    e.feed("A\nx\u{1b}");
    assert_eq!(e.text(), "fn f() {\n    x");
}

#[test]
fn closing_brace_dedents_blank_line() {
    let mut e = env("fn f() {");
    e.feed("A\n}\u{1b}");
    assert_eq!(e.text(), "fn f() {\n}");
}

#[test]
fn backspace_joins_lines_and_tab_indents() {
    let mut e = env("ab\ncd");
    e.set_cursor(1, 0);
    e.feed("i\u{8}\u{1b}");
    assert_eq!(e.text(), "abcd");
    assert_eq!(e.cursor(), (0, 1));
    let mut e = env("x");
    e.feed("i\t\u{1b}");
    assert_eq!(e.text(), "    x");
}

#[test]
fn insert_entries_a_A_I_o_O() {
    let mut e = env("  ab");
    e.feed("a1\u{1b}");
    assert_eq!(e.text(), " 1 ab");
    let mut e = env("  ab");
    e.feed("A!\u{1b}");
    assert_eq!(e.text(), "  ab!");
    let mut e = env("  ab");
    e.feed("I>\u{1b}");
    assert_eq!(e.text(), "  >ab");
    let mut e = env("  ab");
    e.feed("ox\u{1b}");
    assert_eq!(e.text(), "  ab\n  x");
    let mut e = env("  ab");
    e.feed("Oy\u{1b}");
    assert_eq!(e.text(), "  y\n  ab");
}

#[test]
fn insert_arrows_move_without_typing() {
    let mut e = env("abc");
    e.feed("i");
    e.key(Key::End);
    e.feed("!");
    assert_eq!(e.text(), "abc!");
    e.key(Key::Home);
    e.feed("?");
    e.key(Key::Esc);
    assert_eq!(e.text(), "?abc!");
}

#[test]
fn cc_keeps_indentation() {
    let mut e = env("    foo();\nbar");
    e.feed("ccnew\u{1b}");
    assert_eq!(e.text(), "    new\nbar");
    let mut e = env("only");
    e.feed("Sx\u{1b}");
    assert_eq!(e.text(), "x");
}

// -- unicode ---------------------------------------------------------------

#[test]
fn unicode_word_and_char_ops() {
    let mut e = env("héllo wörld");
    e.feed("dw");
    assert_eq!(e.text(), "wörld");
    e.feed("x");
    assert_eq!(e.text(), "örld");
    let mut e = env("中文 abc");
    e.feed("ciwé\u{1b}");
    assert_eq!(e.text(), "é abc");
    e.feed("fa");
    assert_eq!(e.cursor(), (0, 2));
}

#[test]
fn unicode_search_substitute_and_objects() {
    let mut e = env("let é = \"ü中\";");
    e.feed("/ü\n");
    assert_eq!(e.cursor(), (0, 9));
    e.feed("di\"");
    assert_eq!(e.text(), "let é = \"\";");
    e.feed(":s/é/e/\n");
    assert_eq!(e.text(), "let e = \"\";");
    let mut e = env("é中");
    e.feed("~~");
    assert_eq!(e.text(), "É中");
}

#[test]
fn unicode_insert_and_visual() {
    let mut e = env("ab");
    e.feed("i中é\u{1b}");
    assert_eq!(e.text(), "中éab");
    // Esc leaves the cursor on é, so vl selects é and a.
    e.feed("vly");
    assert_eq!(e.reg('"').unwrap().text, "éa");
}

// -- brackets and paragraphs -------------------------------------------------

#[test]
fn percent_jumps_and_deletes() {
    let mut e = env("a(b)c");
    e.feed("%");
    assert_eq!(e.cursor(), (0, 3));
    e.feed("%");
    assert_eq!(e.cursor(), (0, 1));
    e.feed("d%");
    assert_eq!(e.text(), "ac");
    let mut e = env("{\n  x\n}");
    e.feed("%");
    assert_eq!(e.cursor(), (2, 0));
}

#[test]
fn paragraph_motions() {
    let mut e = env("a\n\nb\nb2\n\nc");
    e.feed("}");
    assert_eq!(e.cursor(), (1, 0));
    e.feed("}");
    assert_eq!(e.cursor(), (4, 0));
    e.feed("}");
    assert_eq!(e.cursor(), (5, 0));
    e.feed("{{");
    assert_eq!(e.cursor(), (1, 0));
    let mut e = env("a\n\nb");
    e.feed("d}");
    assert_eq!(e.text(), "\nb");
}

// -- scrolling requests -------------------------------------------------------

#[test]
fn scroll_requests_are_queued_and_consumed() {
    let mut e = env("line");
    e.feed("zz");
    assert_eq!(e.vim.take_scroll_request(), Some(ScrollRequest::Center));
    assert_eq!(e.vim.take_scroll_request(), None);
    e.feed("zt");
    assert_eq!(e.vim.take_scroll_request(), Some(ScrollRequest::Top));
    e.feed("zb");
    assert_eq!(e.vim.take_scroll_request(), Some(ScrollRequest::Bottom));
    e.key(Key::Ctrl('d'));
    assert_eq!(e.vim.take_scroll_request(), Some(ScrollRequest::HalfDown));
    e.key(Key::Ctrl('u'));
    assert_eq!(e.vim.take_scroll_request(), Some(ScrollRequest::HalfUp));
    e.key(Key::Ctrl('f'));
    assert_eq!(e.vim.take_scroll_request(), Some(ScrollRequest::PageDown));
    e.key(Key::PageUp);
    assert_eq!(e.vim.take_scroll_request(), Some(ScrollRequest::PageUp));
}

// -- finder routing --------------------------------------------------------

#[test]
fn ctrl_p_opens_finder_and_esc_closes() {
    let mut e = env("x");
    e.key(Key::Ctrl('p'));
    assert!(e.st.finder.is_some());
    e.key(Key::Esc);
    assert!(e.st.finder.is_none());
    assert_eq!(e.vim.mode(), Mode::Normal);
}

#[test]
fn space_ff_leader_opens_finder() {
    let mut e = env("x");
    e.feed(" ff");
    assert!(e.st.finder.is_some());
    e.key(Key::Esc);
    let mut e = env("abc");
    e.feed(" fx");
    assert!(e.st.finder.is_none());
    assert_eq!(e.text(), "abc");
    e.feed(" x");
    assert_eq!(e.text(), "abc");
}

#[test]
fn finder_open_creates_and_focuses_file() {
    let mut e = env("x");
    e.vfs.write("notes.md", "hello notes");
    e.key(Key::Ctrl('p'));
    e.feed("notes");
    e.key(Key::Enter);
    assert!(e.st.finder.is_none());
    assert_eq!(e.st.buf().unwrap().name, "notes.md");
    assert_eq!(e.text(), "hello notes");
    // Create-on-open for a query with no match.
    e.key(Key::Ctrl('p'));
    e.feed("fresh.rs");
    e.key(Key::Enter);
    assert_eq!(e.st.buf().unwrap().name, "fresh.rs");
    assert_eq!(e.text(), "");
}

#[test]
fn finder_swallows_all_keys() {
    let mut e = env("abc");
    e.key(Key::Ctrl('p'));
    e.feed("dd");
    assert_eq!(e.text(), "abc");
    assert_eq!(e.st.finder.as_ref().unwrap().query, "dd");
    e.key(Key::Ctrl('c'));
    assert!(e.st.finder.is_none());
}

// -- dashboard (no buffers) ---------------------------------------------------

#[test]
fn dashboard_ignores_motions_and_allows_commands() {
    let mut e = empty_env();
    e.feed("jkhlwbx$dGu.");
    assert!(e.st.buffers.is_empty());
    e.feed(":enew\n");
    assert_eq!(e.st.buffers.len(), 1);
    e.feed(":q\n");
    assert!(e.st.buffers.is_empty());
    e.feed(":help\n");
    assert_eq!(e.st.buf().unwrap().name, HELP_BUFFER);
    e.feed(":q!\n");
    e.feed(":e new.rs\n");
    assert_eq!(e.st.buf().unwrap().name, "new.rs");
}

#[test]
fn dashboard_finder_shortcuts_work() {
    let mut e = empty_env();
    e.feed(" ff");
    assert!(e.st.finder.is_some());
    e.key(Key::Esc);
    e.key(Key::Ctrl('p'));
    assert!(e.st.finder.is_some());
}

// -- misc discipline ------------------------------------------------------------

#[test]
fn desired_col_survives_short_lines() {
    let mut e = env("longline\nab\nlongline");
    e.feed("$");
    assert_eq!(e.cursor(), (0, 7));
    e.feed("j");
    assert_eq!(e.cursor(), (1, 1));
    e.feed("j");
    assert_eq!(e.cursor(), (2, 7));
}

#[test]
fn pending_display_shows_and_clears() {
    let mut e = env("abc");
    e.feed("2d");
    assert_eq!(e.vim.pending_display(), "2d");
    e.feed("d");
    assert_eq!(e.vim.pending_display(), "");
    let mut e = env("abc");
    e.feed("\"a3");
    assert_eq!(e.vim.pending_display(), "\"a3");
    e.key(Key::Esc);
    assert_eq!(e.vim.pending_display(), "");
}

#[test]
fn cursor_never_past_line_end_in_normal() {
    let mut e = env("abc\nd");
    e.feed("$j");
    let (l, c) = e.cursor();
    assert_eq!(l, 1);
    assert_eq!(c, 0);
    e.feed("A!!\u{1b}");
    assert_eq!(e.cursor(), (1, 2));
}

#[test]
fn home_end_pageup_delete_key_aliases() {
    let mut e = env("hello world\nsecond");
    e.key(Key::End);
    assert_eq!(e.cursor(), (0, 10));
    e.key(Key::Home);
    assert_eq!(e.cursor(), (0, 0));
    e.key(Key::Delete);
    assert_eq!(e.text(), "ello world\nsecond");
}

#[test]
fn registers_command_lists_contents() {
    let mut e = env("word here");
    e.feed("yw:reg\n");
    assert!(e.status().contains("\"0 word"), "{}", e.status());
}

#[test]
fn visual_tilde_and_join() {
    let mut e = env("abc def");
    e.feed("ve~");
    assert_eq!(e.text(), "ABC def");
    let mut e = env("a\nb\nc");
    e.feed("VjJ");
    assert_eq!(e.text(), "a b\nc");
}
// -- leader, windows, explorer routing -----------------------------------------

#[test]
fn leader_hints_per_node_and_cancel() {
    let mut e = env("x");
    assert!(e.vim.key_hints().is_none());
    e.feed(" ");
    let h = e.vim.key_hints().unwrap();
    assert_eq!(h.title, " space");
    assert!(h.entries.iter().any(|&(k, l)| k == "e" && l == "explorer"));
    assert!(h.entries.iter().any(|&(k, _)| k == "q"));
    e.feed("f");
    let h = e.vim.key_hints().unwrap();
    assert_eq!(h.title, " space f");
    assert!(h.entries.iter().any(|&(k, l)| k == "b" && l == "buffers"));
    e.key(Key::Esc);
    assert!(e.vim.key_hints().is_none());
    e.feed(" t");
    let h = e.vim.key_hints().unwrap();
    assert_eq!(h.title, " space t");
    assert_eq!(h.entries.len(), 3);
    e.feed("z");
    assert!(e.vim.key_hints().is_none());
    assert_eq!(e.text(), "x", "unmapped leader key cancels silently");
}

#[test]
fn leader_e_toggles_explorer_with_focus() {
    let mut e = env("x");
    e.feed(" e");
    assert!(e.st.explorer.is_some());
    assert!(e.st.explorer_focused);
    // Keys now route to the explorer; q closes it.
    e.feed("q");
    assert!(e.st.explorer.is_none());
    assert!(!e.st.explorer_focused);
}

#[test]
fn leader_e_refuses_when_too_narrow() {
    let mut e = env("x");
    e.st.text_dims = (25, 10);
    e.feed(" e");
    assert!(e.st.explorer.is_none());
    assert!(e.status().contains("not enough room"));
}

#[test]
fn leader_o_toggles_explorer_focus_or_cycles_windows() {
    let mut e = env("x");
    e.feed(" e");
    assert!(e.st.explorer_focused);
    // Explorer consumes keys while focused; h returns focus to the editor.
    e.feed("h");
    assert!(!e.st.explorer_focused);
    e.feed(" o");
    assert!(e.st.explorer_focused);
    let mut e = env("x");
    e.feed(" tv");
    assert_eq!(e.st.windows.len(), 2);
    assert_eq!(e.st.active_win, 1);
    e.feed(" o");
    assert_eq!(e.st.active_win, 0);
}

#[test]
fn explorer_keys_open_files_through_routing() {
    let mut e = env("x");
    e.vfs.write("aaa.rs", "AAA");
    e.feed(" e");
    assert!(e.st.explorer_focused);
    e.key(Key::Enter);
    assert_eq!(e.st.buf().unwrap().name, "aaa.rs");
    assert_eq!(e.text(), "AAA");
    assert!(!e.st.explorer_focused);
    assert!(e.st.explorer.is_some());
}

#[test]
fn explorer_dd_delete_closes_clean_buffer() {
    let mut e = env("x");
    e.vfs.write("aaa.rs", "AAA");
    e.st.open_file(&e.vfs, "aaa.rs");
    e.feed(" e");
    e.feed("dd");
    assert!(!e.vfs.has_file("aaa.rs"));
    assert!(e.st.buffers.iter().all(|b| b.name != "aaa.rs"));
}

#[test]
fn explorer_dd_refuses_modified_buffer() {
    let mut e = env("x");
    e.vfs.write("aaa.rs", "AAA");
    e.st.open_file(&e.vfs, "aaa.rs");
    e.feed("ix\u{1b}");
    e.feed(" e");
    e.feed("dd");
    assert!(e.vfs.has_file("aaa.rs"));
    assert!(e.status().contains("unsaved"));
}

#[test]
fn leader_splits_and_close() {
    let mut e = env("x");
    e.feed(" th");
    assert_eq!(e.st.windows.len(), 2);
    assert_eq!(e.st.split_dir, SplitDir::Horizontal);
    e.feed(" tq");
    assert_eq!(e.st.windows.len(), 1);
    e.feed(" tv");
    assert_eq!(e.st.split_dir, SplitDir::Vertical);
    assert_eq!(e.st.windows.len(), 2);
    e.feed(" q");
    assert_eq!(e.st.windows.len(), 1, "space q closes the window first");
    assert_eq!(e.st.buffers.len(), 1);
    e.feed(" q");
    assert!(e.st.buffers.is_empty(), "space q on the last window closes the buffer");
}

#[test]
fn leader_split_refused_when_too_small() {
    let mut e = env("x");
    e.st.text_dims = (15, 3);
    e.feed(" tv");
    assert_eq!(e.st.windows.len(), 1);
    assert!(e.status().contains("E36"));
    e.feed(" th");
    assert_eq!(e.st.windows.len(), 1);
    assert!(e.status().contains("E36"));
}

#[test]
fn leader_w_c_h() {
    let mut e = env("hello");
    e.feed(" w");
    assert!(e.status().contains("written"));
    assert!(e.vfs.has_file("main.rs"));
    e.feed(" h");
    assert_eq!(e.st.buf().unwrap().name, HELP_BUFFER);
    e.feed(" c");
    assert_eq!(e.st.buf().unwrap().name, "main.rs");
    assert_eq!(e.st.buffers.len(), 1);
    e.feed(".");
    assert_eq!(e.st.buffers.len(), 1, "leader chords are not dot-repeatable");
}

#[test]
fn leader_fb_opens_buffer_picker_without_vfs_reads() {
    let mut e = env("unsaved content");
    e.st.buffers.push(Buffer::new("other.rs", "OTHER"));
    e.feed(" fb");
    let f = e.st.finder.as_ref().unwrap();
    assert_eq!(f.target, FinderTarget::Buffers);
    assert_eq!(f.results.len(), 2);
    e.feed("other");
    e.key(Key::Enter);
    assert!(e.st.finder.is_none());
    assert_eq!(e.st.buf().unwrap().name, "other.rs");
    assert_eq!(e.text(), "OTHER", "buffer content untouched by the vfs");
    assert_eq!(e.st.buffers.len(), 2, "no new buffer created");
    assert!(!e.vfs.has_file("other.rs"), "picker never touched the vfs");
}

#[test]
fn buffer_picker_enter_with_no_match_closes() {
    let mut e = env("x");
    e.feed(" fb");
    e.feed("nomatch");
    e.key(Key::Enter);
    assert!(e.st.finder.is_none());
    assert_eq!(e.st.buffers.len(), 1);
    assert_eq!(e.st.buf().unwrap().name, "main.rs");
}

#[test]
fn ctrl_w_chords() {
    let mut e = env("x");
    e.key(Key::Ctrl('w'));
    e.feed("s");
    assert_eq!(e.st.windows.len(), 2);
    assert_eq!(e.st.split_dir, SplitDir::Horizontal);
    e.key(Key::Ctrl('w'));
    e.feed("w");
    assert_eq!(e.st.active_win, 0);
    e.key(Key::Ctrl('w'));
    e.feed("j");
    assert_eq!(e.st.active_win, 1);
    e.key(Key::Ctrl('w'));
    e.feed("k");
    assert_eq!(e.st.active_win, 0);
    e.key(Key::Ctrl('w'));
    e.feed("q");
    assert_eq!(e.st.windows.len(), 1);
    e.key(Key::Ctrl('w'));
    e.feed("v");
    assert_eq!(e.st.split_dir, SplitDir::Vertical);
    e.key(Key::Ctrl('w'));
    e.feed("c");
    assert_eq!(e.st.windows.len(), 1);
    e.key(Key::Ctrl('w'));
    e.feed("x");
    assert_eq!(e.text(), "x", "unmapped ctrl-w key is dropped");
}

#[test]
fn split_ex_commands() {
    let mut e = env("x");
    e.feed(":sp\n");
    assert_eq!(e.st.windows.len(), 2);
    e.feed(":close\n");
    assert_eq!(e.st.windows.len(), 1);
    e.feed(":close\n");
    assert!(e.status().contains("E444"));
    e.feed(":vsplit\n");
    e.feed(":split\n");
    assert_eq!(e.st.windows.len(), 3);
    e.feed(":only\n");
    assert_eq!(e.st.windows.len(), 1);
    e.feed(":vs\n");
    assert_eq!(e.st.windows.len(), 2);
    e.feed(":q\n");
    assert_eq!(e.st.windows.len(), 1);
    assert_eq!(e.st.buffers.len(), 1, ":q closes the window, not the buffer");
    e.feed(":q\n");
    assert!(e.st.buffers.is_empty());
}

#[test]
fn q_bang_still_forces_on_last_window() {
    let mut e = env("x");
    e.feed("ichanged\u{1b}");
    e.feed(":q\n");
    assert_eq!(e.st.buffers.len(), 1);
    assert!(e.status().contains("E89"));
    e.feed(":q!\n");
    assert!(e.st.buffers.is_empty());
}

#[test]
fn dashboard_leader_chords_work() {
    let mut e = empty_env();
    e.feed(" fb");
    assert!(e.st.finder.is_some());
    assert_eq!(e.st.finder.as_ref().unwrap().target, FinderTarget::Buffers);
    e.key(Key::Esc);
    e.feed(" h");
    assert_eq!(e.st.buf().unwrap().name, HELP_BUFFER);
    e.feed(":bd\n");
    e.feed(" e");
    assert!(e.st.explorer.is_some());
    e.feed("q");
    assert!(e.st.explorer.is_none());
}

#[test]
fn explorer_routing_skips_cmdline_and_finder() {
    let mut e = env("x");
    e.feed(" e");
    assert!(e.st.explorer_focused);
    // The finder takes precedence over explorer routing.
    e.st.finder = Some(FinderState::new(vec!["main.rs".into()]));
    e.feed("j");
    assert_eq!(e.st.finder.as_ref().unwrap().query, "j");
    e.key(Key::Esc);
    assert!(e.st.finder.is_none());
    assert!(e.st.explorer_focused, "esc went to the finder, not the explorer");
}

#[test]
fn visual_linewise_gc_steps() {
    let mut e = env("a();\n    b();");
    e.feed("V");
    assert_eq!(e.vim.mode(), Mode::Visual { kind: VisualKind::Line }, "V enters V-LINE");
    e.feed("j");
    assert_eq!(e.cursor(), (1, 0), "j moves down in visual");
    e.feed("g");
    e.feed("c");
    assert_eq!(e.text(), "// a();\n    // b();");
}

// -- visual block ------------------------------------------------------------------

#[test]
fn block_delete_removes_rectangle() {
    let mut e = env("abcd\nefgh\nijkl");
    e.feed("l");
    e.key(Key::Ctrl('v'));
    assert_eq!(e.vim.mode(), Mode::Visual { kind: VisualKind::Block });
    e.feed("jjl");
    e.feed("d");
    assert_eq!(e.text(), "ad\neh\nil");
    assert_eq!(e.cursor(), (0, 1));
    let r = e.reg('"').unwrap();
    assert_eq!(r.kind, RegKind::Block);
    assert_eq!(r.text, "bc\nfg\njk");
}

#[test]
fn block_delete_skips_short_lines() {
    let mut e = env("abcd\ne\nijkl");
    e.set_cursor(0, 1);
    e.key(Key::Ctrl('v'));
    e.feed("jjld");
    assert_eq!(e.text(), "ad\ne\nil");
    assert_eq!(e.reg('"').unwrap().text, "bc\n\njk");
}

#[test]
fn block_yank_then_paste_is_rectangular() {
    let mut e = env("abcd\nefgh\nijkl");
    e.feed("l");
    e.key(Key::Ctrl('v'));
    e.feed("jly");
    assert_eq!(e.text(), "abcd\nefgh\nijkl", "yank leaves text untouched");
    assert_eq!(e.cursor(), (0, 1), "cursor jumps to the block's top-left");
    assert_eq!(e.reg('"').unwrap().kind, RegKind::Block);
    e.feed("$p");
    assert_eq!(e.text(), "abcdbc\nefghfg\nijkl");
}

#[test]
fn block_paste_pads_and_extends_lines() {
    let mut e = env("12\n34");
    e.key(Key::Ctrl('v'));
    e.feed("jly");
    e.feed("j$p");
    assert_eq!(e.text(), "12\n3412\n  34", "short and missing lines pad to the paste col");
}

#[test]
fn block_insert_replicates_on_all_lines() {
    let mut e = env("one\ntwo\nthree");
    e.key(Key::Ctrl('v'));
    e.feed("jjI");
    e.feed("# ");
    e.key(Key::Esc);
    assert_eq!(e.text(), "# one\n# two\n# three");
    e.feed("u");
    assert_eq!(e.text(), "one\ntwo\nthree", "the whole block insert is one undo step");
}

#[test]
fn block_insert_skips_lines_shorter_than_left_edge() {
    let mut e = env("alpha\nx\ngamma");
    e.set_cursor(0, 2);
    e.key(Key::Ctrl('v'));
    e.feed("jjI");
    e.feed("_");
    e.key(Key::Esc);
    assert_eq!(e.text(), "al_pha\nx\nga_mma");
}

#[test]
fn block_append_pads_short_lines() {
    let mut e = env("aa\nb\ncccc");
    e.key(Key::Ctrl('v'));
    e.feed("jjlA");
    e.feed("!");
    e.key(Key::Esc);
    assert_eq!(e.text(), "aa!\nb !\ncc!cc");
}

#[test]
fn block_dollar_append_lands_at_each_eol() {
    let mut e = env("short\nlonger line\nmid");
    e.key(Key::Ctrl('v'));
    e.feed("jj$A");
    e.feed(";");
    e.key(Key::Esc);
    assert_eq!(e.text(), "short;\nlonger line;\nmid;");
}

#[test]
fn block_change_replicates_replacement() {
    let mut e = env("foo_a\nfoo_b\nfoo_c");
    e.key(Key::Ctrl('v'));
    e.feed("jjllc");
    e.feed("bar");
    e.key(Key::Esc);
    assert_eq!(e.text(), "bar_a\nbar_b\nbar_c");
    e.feed("u");
    assert_eq!(e.text(), "foo_a\nfoo_b\nfoo_c");
}

#[test]
fn block_replace_fills_rectangle() {
    let mut e = env("abcd\nefgh\nijkl");
    e.feed("l");
    e.key(Key::Ctrl('v'));
    e.feed("jjlrx");
    assert_eq!(e.text(), "axxd\nexxh\nixxl");
    assert_eq!(e.cursor(), (0, 1));
}

#[test]
fn block_d_and_c_run_to_line_ends() {
    let mut e = env("aa11\nbb22\ncc33");
    e.set_cursor(0, 2);
    e.key(Key::Ctrl('v'));
    e.feed("jjD");
    assert_eq!(e.text(), "aa\nbb\ncc");

    let mut e = env("xx11\nyy22");
    e.set_cursor(0, 2);
    e.key(Key::Ctrl('v'));
    e.feed("jC");
    e.feed("Z");
    e.key(Key::Esc);
    assert_eq!(e.text(), "xxZ\nyyZ");
}

#[test]
fn block_corner_swap_and_case_ops() {
    let mut e = env("abcd\nefgh");
    e.feed("l");
    e.key(Key::Ctrl('v'));
    e.feed("jl");
    e.feed("O");
    assert_eq!(e.cursor(), (1, 1), "O swaps the horizontal corners");
    e.feed("U");
    assert_eq!(e.text(), "aBCd\neFGh");
}

#[test]
fn dollar_motion_sticks_to_line_ends() {
    let mut e = env("long line\nab\nlonger line!");
    e.feed("$");
    assert_eq!(e.cursor(), (0, 8));
    e.feed("j");
    assert_eq!(e.cursor(), (1, 1), "j after $ tracks the shorter line's end");
    e.feed("j");
    assert_eq!(e.cursor(), (2, 11), "and springs back out on longer lines");
    e.feed("h");
    e.feed("j");
    assert_eq!(e.cursor(), (2, 10), "h breaks the $ pin");
}

#[test]
fn escape_leaves_block_mode() {
    let mut e = env("abc\ndef");
    e.key(Key::Ctrl('v'));
    e.feed("j");
    e.key(Key::Esc);
    assert_eq!(e.vim.mode(), Mode::Normal);
    e.key(Key::Ctrl('v'));
    e.key(Key::Ctrl('v'));
    assert_eq!(e.vim.mode(), Mode::Normal, "Ctrl+v toggles back out");
}

// -- macros ------------------------------------------------------------------------

#[test]
fn macro_records_and_replays() {
    let mut e = env("one\ntwo\nthree");
    e.feed("qaA;");
    e.key(Key::Esc);
    e.feed("jq");
    assert_eq!(e.text(), "one;\ntwo\nthree");
    assert_eq!(e.vim.recording_reg(), None);
    assert!(e.status().contains("recorded @a"), "status: {}", e.status());
    e.feed("@a");
    assert_eq!(e.text(), "one;\ntwo;\nthree", "@a replays the append+move");
    e.feed("@@");
    assert_eq!(e.text(), "one;\ntwo;\nthree;", "@@ repeats the last macro");
}

#[test]
fn macro_takes_a_count() {
    let mut e = env("a\nb\nc\nd");
    e.feed("qqxjq");
    assert_eq!(e.text(), "\nb\nc\nd");
    e.feed("3@q");
    assert_eq!(e.text(), "\n\n\n");
}

#[test]
fn macro_uppercase_appends() {
    let mut e = env("abcdef");
    e.feed("qaxq");
    e.feed("qAxq");
    e.feed("@a");
    assert_eq!(e.text(), "ef", "two x recorded across sessions, both replayed");
}

#[test]
fn recording_indicator_tracks_q() {
    let mut e = env("x");
    e.feed("qb");
    assert_eq!(e.vim.recording_reg(), Some('b'));
    e.feed("q");
    assert_eq!(e.vim.recording_reg(), None);
    assert_eq!(e.vim.mode(), Mode::Normal);
}

#[test]
fn empty_or_unknown_macro_reports_error() {
    let mut e = env("x");
    e.feed("@z");
    assert!(e.status().contains("E749"), "status: {}", e.status());
}

#[test]
fn recursive_macro_is_bounded() {
    let mut e = env(&"y\n".repeat(64));
    // @a deletes a char then calls itself: must stop at the budget, not hang.
    e.feed("qaxj@aq");
    e.feed("@a");
    assert_eq!(e.vim.mode(), Mode::Normal);
}

#[test]
fn macro_survives_insert_and_visual_keys() {
    let mut e = env("abc abc\nabc abc");
    e.feed("qwviwc123");
    e.key(Key::Esc);
    e.feed("q");
    assert_eq!(e.text(), "123 abc\nabc abc");
    e.feed("j0@w");
    assert_eq!(e.text(), "123 abc\n123 abc");
}

// -- which-key ---------------------------------------------------------------------

#[test]
fn key_hints_cover_every_pending_state() {
    // (keys to press, expected panel title, shows without a pause)
    let cases: &[(&[Key], &str, bool)] = &[
        (&[Key::Char(' ')], " space", true),
        (&[Key::Char(' '), Key::Char('f')], " space f", true),
        (&[Key::Char(' '), Key::Char('t')], " space t", true),
        (&[Key::Char('g')], " g", false),
        (&[Key::Char('z')], " z", false),
        (&[Key::Ctrl('w')], " ctrl+w", true),
        (&[Key::Char('"')], " \"", false),
        (&[Key::Char('m')], " m", false),
        (&[Key::Char('`')], " `", false),
        (&[Key::Char('\'')], " '", false),
        (&[Key::Char('f')], " f", false),
        (&[Key::Char('T')], " T", false),
        (&[Key::Char('r')], " r", false),
        (&[Key::Char('q')], " q", false),
        (&[Key::Char('@')], " @", false),
        (&[Key::Char('d')], " d", false),
        (&[Key::Char('c')], " c", false),
        (&[Key::Char('y')], " y", false),
        (&[Key::Char('>')], " >", false),
        (&[Key::Char('g'), Key::Char('u')], " gu", false),
        (&[Key::Char('g'), Key::Char('c')], " gc", false),
        (&[Key::Char('d'), Key::Char('i')], " i", false),
        (&[Key::Char('d'), Key::Char('a')], " a", false),
    ];
    for (keys, title, immediate) in cases {
        let mut e = env("word (one) \"two\"");
        for &k in *keys {
            e.key(k);
        }
        let h = e.vim.key_hints().unwrap_or_else(|| panic!("no hints for {title:?}"));
        assert_eq!(h.title, *title);
        assert_eq!(h.immediate, *immediate, "immediate flag for {title:?}");
        assert!(!h.entries.is_empty(), "{title:?} panel has entries");
    }
    // No pending state — no panel.
    let e = env("x");
    assert!(e.vim.key_hints().is_none());
    // Visual-mode object pending shows the panel too.
    let mut e = env("word");
    e.feed("vi");
    assert_eq!(e.vim.key_hints().unwrap().title, " i");
}

#[test]
fn key_hints_menu_entries_match_real_bindings() {
    // Every root-leader hint key actually does something (state visibly changes).
    let mut e = env("text");
    e.feed(" e");
    assert!(e.st.explorer.is_some(), "space e opens the explorer");
    assert!(e.st.explorer_focused, "opening the explorer focuses it");
    e.key(Key::Esc);
    assert!(!e.st.explorer_focused, "esc returns to the editor");
    e.feed(" o");
    assert!(e.st.explorer_focused, "space o refocuses the explorer");
    e.feed("q");
    assert!(e.st.explorer.is_none(), "q hides the explorer");
    e.feed(" th");
    assert_eq!(e.st.windows.len(), 2, "space t h splits below");
    assert_eq!(e.st.split_dir, SplitDir::Horizontal);
    e.feed(" tv");
    assert_eq!(e.st.windows.len(), 3, "space t v splits right");
    assert_eq!(e.st.split_dir, SplitDir::Vertical);
    e.feed(" tq");
    assert_eq!(e.st.windows.len(), 2, "space t q closes the window");
    e.feed(" c");
    assert!(e.st.buffers.is_empty(), "space c closes the buffer");
}

#[test]
fn huge_count_paste_is_capped() {
    let mut e = env("line one\nline two");
    e.feed("yy99999999999999999999p");
    let lines = e.st.buf().unwrap().text.line_count();
    assert!(lines <= 2 + PASTE_MAX_BYTES / 8, "paste stays within budget: {lines}");
    assert!(lines > 2, "one copy still pastes");
}

// -- laws of the engine ------------------------------------------------

#[test]
fn escape_and_ctrl_c_lead_to_normal_mode() {
    for keys in ["", "i", "R", "v", "V", ":w", "/al", "?x", "d", "\"", "2d3", "g", "q", " f"] {
        for k in [Key::Esc, Key::Ctrl('c')] {
            let mut e = env("alpha\nbeta");
            e.feed(keys);
            e.key(k);
            assert_eq!(e.vim.mode(), Mode::Normal, "{keys:?}");
        }
    }
    let mut e = env("alpha");
    e.feed("vr\u{1b}");
    assert_eq!(e.vim.mode(), Mode::Visual { kind: VisualKind::Char });
}

#[test]
fn any_typing_session_is_one_undo() {
    let text = "  one {\n  two\n}";
    for enter in ["i", "a", "I", "A", "o", "O", "R"] {
        let mut e = env(text);
        e.set_cursor(0, 3);
        e.feed(enter);
        e.feed("ab\n}\u{8}c\td");
        for k in [Key::Left, Key::Ctrl('w'), Key::Delete, Key::Ctrl('u'), Key::Char('z')] {
            e.key(k);
        }
        e.key(Key::Esc);
        let typed = e.text();
        assert_ne!(typed, text, "{enter}");
        e.feed("u");
        assert_eq!(e.text(), text, "{enter}");
        e.key(Key::Ctrl('r'));
        assert_eq!(e.text(), typed, "{enter}");
        e.feed("u");
        assert_eq!(e.text(), text, "{enter}");
    }
}

#[test]
fn motions_and_yanks_change_no_text() {
    let text = "fn a(b) {\n\n    c d\n}";
    let mut e = env(text);
    e.feed("yw");
    let kept = e.reg('0').unwrap().text.clone();
    for k in "jklhwWbBeE0^$G{}%;,".chars() {
        e.feed(&k.to_string());
        e.feed("fcTa2tb");
        assert_eq!(e.text(), text);
        assert_eq!(e.reg('0').unwrap().text, kept);
    }
    e.feed("ggyG");
    assert_eq!(e.text(), text);
    assert_eq!(e.reg('0').unwrap().text, text);
    e.feed("dd");
    assert_eq!(e.reg('0').unwrap().text, text, "a delete leaves the yank");
    assert_eq!(e.reg('"').unwrap().text, "fn a(b) {");
}

#[test]
fn deleted_lines_go_back() {
    let text = "a\nb\nc\nd";
    let mut e = env(text);
    e.set_cursor(1, 0);
    e.feed("2ddP");
    assert_eq!(e.text(), text);
    e.set_cursor(2, 0);
    e.feed("2ddp");
    assert_eq!(e.text(), text);
    let mut blank = env("a\n\nb");
    blank.set_cursor(1, 0);
    blank.feed("ddP");
    assert_eq!(blank.text(), "a\nb", "an empty register is not put");
}

#[test]
fn indents_and_comments_come_back() {
    let text = "  one\n\nthree //x";
    let mut e = env(text);
    e.feed("3>>");
    assert_eq!(e.text(), "      one\n\n    three //x");
    e.feed("gg3<<");
    assert_eq!(e.text(), text);
    e.feed("ggVGgc");
    assert_eq!(e.text(), "  // one\n\n// three //x");
    e.feed("ggVGgc");
    assert_eq!(e.text(), text);
    let mut tight = env("//x");
    tight.feed("gccgcc");
    assert_eq!(tight.text(), "// x");
}

#[test]
fn jk_leaves_the_text_alone() {
    let mut e = env("ab");
    e.feed("ajk");
    assert_eq!((e.vim.mode(), e.text()), (Mode::Normal, "ab".to_string()));
    e.feed("ijjk");
    assert_eq!((e.vim.mode(), e.text()), (Mode::Normal, "jab".to_string()));
}

#[test]
fn a_search_given_up_leaves_nothing() {
    let mut e = env("one two\ntwo one");
    e.feed("/one\n");
    let (at, pattern) = (e.cursor(), e.st.search.pattern.clone());
    e.feed("?tw");
    assert_ne!(e.cursor(), at);
    e.feed("o\u{8}x\u{1b}");
    assert_eq!(e.cursor(), at);
    assert_eq!(e.st.search.pattern, pattern);
    assert_eq!(e.vim.mode(), Mode::Normal);
}
