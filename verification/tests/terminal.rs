//! The terminal: calculator, line editor, shell, scrollback and screen.

use pocketdeck::color::Color;
use pocketdeck::keyboard::KeyName;
use pocketdeck::terminal::calc::{parse, tokenize, CalcError, Constant, Func, Step};
use pocketdeck::terminal::console::{Terminal, SCROLLBACK_CAP};
use pocketdeck::terminal::editor::LineEditor;
use pocketdeck::terminal::numbers::{convert_text, parse_int, parse_radix, to_base};
use pocketdeck::terminal::remote::{
    input_bytes, push_key, text_bytes, InputEvent, Phase, PollReply, SshClient, SshState,
};
use pocketdeck::terminal::shell::{decode_b64, run, to_hex, Effect, OutLine, Response};
use pocketdeck::terminal::theme;
use pocketdeck::terminal::toolbar::{key_act, key_label, place, plan_column, plan_rows, Act};
use pocketdeck::terminal::vt::{gather, Cell, CellStyle, Screen, Vt, VtEvent};
use pocketdeck::terminal::wrap::wrap;

/// Run a program on a stack of numbers.
fn compute(steps: &[Step]) -> f64 {
    let mut stack: Vec<f64> = Vec::new();
    for s in steps {
        match s {
            Step::Num(t) => stack.push(t.parse().unwrap()),
            Step::Const(Constant::Pi) => stack.push(std::f64::consts::PI),
            Step::Const(Constant::E) => stack.push(std::f64::consts::E),
            Step::Const(Constant::Tau) => stack.push(std::f64::consts::TAU),
            Step::Neg => {
                let x = stack.pop().unwrap();
                stack.push(-x);
            }
            Step::Bin(op) => {
                let b = stack.pop().unwrap();
                let a = stack.pop().unwrap();
                stack.push(match op {
                    '+' => a + b,
                    '-' => a - b,
                    '*' => a * b,
                    '/' => a / b,
                    '%' => a % b,
                    _ => a.powf(b),
                });
            }
            Step::Call(f) => {
                let x = stack.pop().unwrap();
                stack.push(match f {
                    Func::Sqrt => x.sqrt(),
                    Func::Abs => x.abs(),
                    Func::Ln => x.ln(),
                    Func::Log10 => x.log10(),
                    Func::Log2 => x.log2(),
                    Func::Sin => x.sin(),
                    Func::Cos => x.cos(),
                    Func::Tan => x.tan(),
                    Func::Floor => x.floor(),
                    Func::Ceil => x.ceil(),
                    Func::Round => x.round(),
                    Func::Exp => x.exp(),
                });
            }
        }
    }
    assert_eq!(stack.len(), 1, "a program leaves exactly its value");
    stack[0]
}

fn eval(input: &str) -> Result<f64, CalcError> {
    parse(input).map(|v| compute(&v))
}

fn approx(a: f64, b: f64) -> bool {
    (a - b).abs() < 1e-9
}

#[test]
fn arithmetic_and_precedence() {
    assert!(approx(eval("1 + 2 * 3").ok().unwrap(), 7.0));
    assert!(approx(eval("(1 + 2) * 3").ok().unwrap(), 9.0));
    assert!(approx(eval("2 ^ 3 ^ 2").ok().unwrap(), 512.0)); // right-assoc
    assert!(approx(eval("-2 ^ 2").ok().unwrap(), -4.0)); // unary binds looser than ^
    assert!(approx(eval("10 % 3").ok().unwrap(), 1.0));
}

#[test]
fn functions_and_constants() {
    assert!(approx(eval("sqrt(16)").ok().unwrap(), 4.0));
    assert!(approx(eval("cos(0) + sin(0)").ok().unwrap(), 1.0));
    assert!(approx(eval("2 * pi").ok().unwrap(), std::f64::consts::TAU));
}

#[test]
fn errors() {
    assert!(eval("1 +").is_err());
    assert!(eval("(1 + 2").is_err());
    assert!(eval("foo(1)").is_err());
}

#[test]
fn calc_signs_and_division_go_left_to_right() {
    assert!(approx(eval("2^-2").ok().unwrap(), 0.25));
    assert!(approx(eval("+-3").ok().unwrap(), -3.0));
    assert!(approx(eval("8 / 4 / 2").ok().unwrap(), 1.0));
    assert!(approx(eval("10 - 4 - 3").ok().unwrap(), 3.0));
    assert!(approx(eval("LOG(100) + log10(10) + Log2(8)").ok().unwrap(), 6.0));
    assert!(approx(eval("tau - 2*pi + abs(-1) + floor(1.9) + ceil(.1) + round(1.5)").ok().unwrap(), 5.0));
    assert!(approx(eval("ln(e) + exp(0) + tan(0)").ok().unwrap(), 2.0));
}

fn calc_message(input: &str) -> Option<String> {
    match parse(input) {
        Ok(_) => None,
        Err(e) => Some(e.message().unwrap_or_else(|| "number".to_string())),
    }
}

#[test]
fn calc_tells_each_error() {
    assert_eq!(calc_message("1.2.3").unwrap(), "bad number `1.2.3`");
    assert_eq!(calc_message(".").unwrap(), "bad number `.`");
    assert_eq!(calc_message("1 & 2").unwrap(), "unexpected `&`");
    assert_eq!(calc_message("1 )").unwrap(), "unexpected `)`");
    assert_eq!(calc_message("1 x").unwrap(), "unexpected `x`");
    assert_eq!(calc_message("1 2").unwrap(), "number");
    assert_eq!(calc_message("1 +").unwrap(), "expected a value, found `end`");
    assert_eq!(calc_message("* 2").unwrap(), "expected a value, found `*`");
    assert_eq!(calc_message("(1").unwrap(), "expected `)`");
    assert_eq!(calc_message("foo").unwrap(), "unknown name `foo`");
    assert_eq!(calc_message("Foo(1)").unwrap(), "unknown function `foo`");
    assert_eq!(calc_message("sqrt(4").unwrap(), "expected `)`");
    assert!(calc_message("5. + .5").is_none());
    assert_eq!(tokenize("2*(x)").ok().unwrap().len(), 5);
}

#[test]
fn line_editor_edits_at_the_cursor() {
    let mut e = LineEditor::new();
    e.insert_str("héllo");
    assert_eq!((e.text().as_str(), e.cursor()), ("héllo", 5));
    e.left();
    e.left();
    e.insert('X');
    assert_eq!((e.text().as_str(), e.cursor()), ("hélXlo", 4));
    e.backspace();
    assert_eq!((e.text().as_str(), e.cursor()), ("héllo", 3));
    e.delete();
    assert_eq!(e.text(), "hélo");
    e.home();
    e.backspace();
    e.left();
    assert_eq!(e.cursor(), 0);
    e.end();
    e.delete();
    e.right();
    assert_eq!(e.cursor(), 4);
    e.left();
    e.kill_to_start();
    assert_eq!((e.text().as_str(), e.cursor()), ("o", 0));
    assert_eq!(e.chars(), &['o']);
}

#[test]
fn line_editor_history_returns_to_the_live_line() {
    let mut e = LineEditor::new();
    for l in ["one", "two", "two", "  ", "three"] {
        e.insert_str(l);
        assert_eq!(e.take(), l);
        assert_eq!(e.cursor(), 0);
    }
    assert_eq!(e.history(), &["one".to_string(), "two".to_string(), "three".to_string()]);
    e.insert_str("live");
    e.home();
    for want in ["three", "two", "one", "one"] {
        e.history_prev();
        assert_eq!((e.text().as_str(), e.cursor()), (want, want.len()));
    }
    for want in ["two", "three", "live", "live"] {
        e.history_next();
        assert_eq!((e.text().as_str(), e.cursor()), (want, want.len()));
    }
    let mut fresh = LineEditor::new();
    fresh.history_prev();
    fresh.history_next();
    assert_eq!(fresh.text(), "");
    fresh.insert('x');
    fresh.clear();
    assert_eq!(fresh.text(), "");
}

fn say(input: &str) -> Vec<(String, u32)> {
    run(input, &[]).lines.into_iter().map(|l| (l.text, l.color)).collect()
}

fn one(input: &str) -> (String, u32) {
    let mut v = say(input);
    assert_eq!(v.len(), 1, "{input}");
    v.remove(0)
}

fn ok(s: &str) -> (String, u32) {
    (s.to_string(), theme::SUCCESS)
}

fn bad(s: &str) -> (String, u32) {
    (format!("error: {s}"), theme::ERROR)
}

#[test]
fn shell_text_commands() {
    assert!(say("").is_empty());
    assert!(say("   ").is_empty());
    assert_eq!(one("echo  a  b "), ("a  b".to_string(), theme::TEXT));
    assert_eq!(one("ECHO x").0, "x");
    assert_eq!(one("upper Straße é").0, "STRASSE É");
    assert_eq!(one("lower ÀBC").0, "àbc");
    assert_eq!(one("rev abc é").0, "é cba");
    assert_eq!(one("wc one  two\tthree"), ok("3 words, 14 chars"));
    assert_eq!(one("wc"), ok("0 words, 0 chars"));
    assert_eq!(one("nope x"), bad("unknown command `nope` — type `help`"));
    assert!(matches!(run("cls", &[]).effect, Effect::Clear));
    let help = say("?");
    assert_eq!(help.len(), 14);
    assert_eq!(help[0], ("commands:".to_string(), theme::ACCENT));
    assert_eq!(help[1].0, "  help                   list commands");
    assert_eq!(say("about").len(), 3);
    let history = run("history", &["ls".to_string(), "calc 1".to_string()]);
    let lines: Vec<String> = history.lines.iter().map(|l| l.text.clone()).collect();
    assert_eq!(lines, ["   1  ls", "   2  calc 1"]);
    assert_eq!(one("history"), ("(no history yet)".to_string(), theme::DIM));
}

#[test]
fn shell_converts_bases() {
    assert_eq!(one("hex 255"), ok("0xff"));
    assert_eq!(one("dec 0xFF"), ok("255"));
    assert_eq!(one("bin 5"), ok("0b101"));
    assert_eq!(one("oct 0b1000"), ok("0o10"));
    assert_eq!(one("hex -1"), ok("0xffffffffffffffff"));
    assert_eq!(one("dec -0o17"), ok("-15"));
    assert_eq!(one("hex 0"), ok("0x0"));
    assert_eq!(one("hex"), bad("usage: hex|dec|bin|oct <number>"));
    assert_eq!(one("dec 12x"), bad("`12x` is not an integer"));
    assert_eq!(one("dec -0xzz"), bad("`0xzz` is not an integer"));
    assert_eq!(one("dec 9223372036854775808"), bad("`9223372036854775808` is not an integer"));
    assert_eq!(one("dec -9223372036854775807"), ok("-9223372036854775807"));
}

#[test]
fn integers_read_as_std_reads_them() {
    for s in ["0", "-0", "+7", "-9223372036854775808", "9223372036854775807", "9223372036854775808",
        "", "+", "-", "--1", "1_0", "٣", "00012", "-00", "7f", "zz"] {
        for base in [2u32, 8, 10, 16, 36] {
            assert_eq!(parse_radix(s, base), i64::from_str_radix(s, base).ok(), "{s} in {base}");
        }
    }
    assert_eq!(parse_int(" -0X1f "), Ok(-31));
    assert_eq!(parse_int("-x"), Err("x".to_string()));
    for n in [0u64, 1, 15, 16, 255, 1 << 63, u64::MAX] {
        assert_eq!(to_base(n, 16), format!("{n:x}"));
        assert_eq!(to_base(n, 2), format!("{n:b}"));
        assert_eq!(u64::from_str_radix(&to_base(n, 8), 8).unwrap(), n);
    }
    for n in [0i64, -1, 42, i64::MIN, i64::MAX] {
        assert_eq!(convert_text(n, 16), format!("0x{n:x}"));
        assert_eq!(convert_text(n, 2), format!("0b{n:b}"));
        assert_eq!(convert_text(n, 8), format!("0o{n:o}"));
        assert_eq!(convert_text(n, 10), format!("{n}"));
    }
}

#[test]
fn shell_base64_and_sha() {
    for (plain, coded) in [("f", "Zg=="), ("fo", "Zm8="), ("foo", "Zm9v"), ("héllo wörld", "aMOpbGxvIHfDtnJsZA==")] {
        assert_eq!(one(&format!("b64 enc {plain}")), ok(coded));
        assert_eq!(one(&format!("b64 D  {coded} ")), ok(plain));
        assert_eq!(decode_b64(coded).lines[0].text, plain);
    }
    assert_eq!(one("b64 dec !!"), bad("invalid base64"));
    assert_eq!(one("b64 dec /w=="), bad("decoded bytes are not valid UTF-8"));
    assert_eq!(one("b64 enc"), bad("usage: b64 enc|dec <text>"));
    assert_eq!(one("b64 what x"), bad("usage: b64 enc|dec <text>"));
    assert_eq!(
        one("sha256 abc"),
        ok("ba7816bf8f01cfea414140de5dae2223b00361a396177a9cb410ff61f20015ad"),
    );
    assert_eq!(one("sha"), bad("usage: sha256 <text>"));
    assert_eq!(to_hex(&vec![0, 15, 16, 255]), "000f10ff");
}

#[test]
fn shell_calc_hands_out_a_program() {
    for input in ["calc 1+2", "=1+2", "= 1 + 2"] {
        match run(input, &[]).effect {
            Effect::Compute(v) => assert_eq!(compute(&v), 3.0),
            _ => panic!("{input}"),
        }
    }
    assert_eq!(one("calc"), bad("usage: calc <expression>"));
    assert_eq!(one("="), bad("usage: calc <expression>"));
    assert_eq!(one("calc 1+"), bad("expected a value, found `end`"));
    let Response { lines, effect } = run("calc 1 007", &[]);
    assert!(lines.is_empty());
    match effect {
        Effect::Misplaced(s) => assert_eq!(s, "007"),
        _ => panic!(),
    }
}

#[test]
fn wrap_breaks_at_spaces_and_keeps_text() {
    assert_eq!(wrap("", 5), [""]);
    assert_eq!(wrap("abc", 0), [""]);
    assert_eq!(wrap("abc", 3), ["abc"]);
    assert_eq!(wrap("hello big world", 9), ["hello", "big world"]);
    assert_eq!(wrap("abcdefgh", 3), ["abc", "def", "gh"]);
    assert_eq!(wrap("ab  cd", 3), ["ab", " cd"]);
    let text = "the quick brown fox jumps over the lazy dog and keeps on running";
    for width in 1..30 {
        let rows = wrap(text, width);
        assert!(rows.iter().all(|r| r.chars().count() <= width));
        let dense: String = rows.concat().replace(' ', "");
        assert_eq!(dense, text.replace(' ', ""));
    }
}

fn texts(t: &Terminal) -> Vec<String> {
    t.scrollback.iter().map(|l| l.text.clone()).collect()
}

#[test]
fn console_submits_and_scrolls() {
    let mut t = Terminal::new();
    assert_eq!(t.scrollback.len(), 2);
    for c in "echo hi\n".chars() {
        t.on_char(c);
    }
    assert_eq!(texts(&t)[2..], ["❯ echo hi", "hi"]);
    for c in "=6*7".chars() {
        t.on_char(c);
    }
    match t.on_key(KeyName::Enter, false) {
        Effect::Compute(v) => t.show_value(&format!("{}", compute(&v))),
        _ => panic!(),
    }
    assert_eq!(texts(&t).last().unwrap(), "= 42");
    assert_eq!(t.scrollback.last().unwrap().color, theme::SUCCESS);
    t.show_misplaced("2");
    assert_eq!(texts(&t).last().unwrap(), "error: unexpected `2`");
    t.on_key(KeyName::ArrowUp, false);
    assert_eq!(t.editor.text(), "=6*7");
    t.on_key(KeyName::Letter('c'), true);
    assert_eq!(texts(&t).last().unwrap(), "❯ =6*7^C");
    assert_eq!(t.editor.text(), "");
    t.focused = true;
    t.on_key(KeyName::Escape, false);
    assert!(!t.focused);
    for c in "clear".chars() {
        t.on_char(c);
    }
    t.on_char('\u{7}');
    t.on_char('\r');
    assert!(t.scrollback.is_empty());
    assert_eq!(t.editor.history().last().unwrap(), "clear");
    t.push(OutLine { text: "x".to_string(), color: theme::TEXT });
    t.on_key(KeyName::Letter('l'), true);
    assert!(t.scrollback.is_empty());
}

#[test]
fn console_scrollback_is_capped_and_reloads() {
    let mut t = Terminal::new();
    for i in 0..SCROLLBACK_CAP + 5 {
        t.push(OutLine { text: format!("{i}"), color: theme::TEXT });
    }
    assert_eq!(t.scrollback.len(), SCROLLBACK_CAP);
    assert_eq!(texts(&t)[0], "5");
    let bytes = t.save_state();
    let mut u = Terminal::new();
    u.restore_state(bytes);
    assert_eq!(texts(&u), texts(&t));
    assert!(u.scrollback.iter().all(|l| l.color == theme::MUTED));
    u.restore_state(vec![0xff]);
    assert_eq!(u.scrollback.len(), SCROLLBACK_CAP);
}

#[test]
fn console_frame_is_bottom_anchored() {
    let mut t = Terminal::new();
    t.clear_scrollback();
    for i in 0..5 {
        t.push(OutLine { text: format!("line {i}"), color: theme::TEXT });
    }
    let f = t.draw(40, 10, true);
    assert_eq!((f.pad, f.body.len()), (3, 5));
    assert_eq!(f.title, " terminal — tap to type");
    assert_eq!(f.hint, "");
    assert_eq!(f.gap, 40 - f.title.chars().count());
    assert_eq!(f.input, [(' ', true)]);
    let f = t.draw(40, 5, false);
    assert_eq!(f.body.iter().map(|l| l.text.as_str()).collect::<Vec<_>>(), ["line 2", "line 3", "line 4"]);
    t.scroll_by(1, 2);
    t.focused = true;
    t.editor.insert_str("ab");
    t.editor.left();
    let f = t.draw(40, 5, true);
    assert_eq!(f.body[0].text, "line 1");
    assert_eq!(f.hint, "↓ 1 newer ");
    assert_eq!(f.title, " terminal — tap to hide keyboard");
    assert_eq!(f.input, [('a', false), ('b', true)]);
    t.scroll_by(99, 2);
    assert_eq!(t.scroll_offset, 2);
    t.scroll_by(-99, 2);
    assert_eq!(t.scroll_offset, 0);
    t.scroll_offset = 77;
    t.draw(40, 5, true);
    assert_eq!(t.scroll_offset, 2);
    assert_eq!(t.ensure_display(3), 10);
}

fn csi(params: &[u16], action: char) -> VtEvent {
    VtEvent::Csi { params: params.iter().map(|&p| vec![p]).collect(), private: false, action }
}

fn mode(n: u16, on: bool) -> VtEvent {
    VtEvent::Csi { params: vec![vec![n]], private: true, action: if on { 'h' } else { 'l' } }
}

fn print(s: &mut Screen, text: &str) {
    for c in text.chars() {
        s.print(c);
    }
}

fn row(s: &Screen, y: usize) -> String {
    (0..s.cols()).map(|x| s.cell(x, y).unwrap().ch).collect()
}

fn rows(s: &Screen) -> Vec<String> {
    (0..s.rows()).map(|y| row(s, y).trim_end().to_string()).collect()
}

#[test]
fn vt_prints_wraps_and_scrolls() {
    let mut s = Screen::new(4, 2);
    print(&mut s, "abcd");
    assert_eq!(s.cursor(), (4, 0));
    print(&mut s, "ef");
    assert_eq!(rows(&s), ["abcd", "ef"]);
    print(&mut s, "ghi");
    assert_eq!(rows(&s), ["efgh", "i"]);
    s.execute(0x0d);
    s.execute(0x09);
    assert_eq!(s.cursor(), (3, 1));
    s.execute(0x08);
    assert_eq!(s.cursor(), (2, 1));
    s.execute(0x0a);
    assert_eq!(rows(&s), ["i", ""]);
    assert!(s.cell(4, 0).is_none());
}

#[test]
fn vt_moves_and_erases() {
    let mut s = Screen::new(5, 3);
    for line in ["aaaaa", "bbbbb", "ccccc"] {
        print(&mut s, line);
    }
    s.apply(&csi(&[2, 3], 'H'));
    assert_eq!(s.cursor(), (2, 1));
    s.apply(&csi(&[1], 'K'));
    assert_eq!(rows(&s), ["aaaaa", "   bb", "ccccc"]);
    s.apply(&csi(&[], 'K'));
    assert_eq!(rows(&s), ["aaaaa", "", "ccccc"]);
    s.apply(&csi(&[], 'J'));
    assert_eq!(rows(&s), ["aaaaa", "", ""]);
    s.apply(&csi(&[9], 'A'));
    s.apply(&csi(&[0], 'C'));
    assert_eq!(s.cursor(), (3, 0));
    s.apply(&csi(&[1], 'J'));
    assert_eq!(rows(&s), ["    a", "", ""]);
    s.apply(&csi(&[9], 'B'));
    s.apply(&csi(&[9], 'D'));
    assert_eq!(s.cursor(), (0, 2));
    s.apply(&csi(&[2], 'F'));
    s.apply(&csi(&[1], 'E'));
    s.apply(&csi(&[4], 'G'));
    assert_eq!(s.cursor(), (3, 1));
    s.apply(&csi(&[9], 'd'));
    assert_eq!(s.cursor(), (3, 2));
    s.apply(&csi(&[2], 'J'));
    assert_eq!(rows(&s), ["", "", ""]);
}

#[test]
fn vt_inserts_and_deletes() {
    let mut s = Screen::new(5, 3);
    for line in ["abcde", "fghij", "klmno"] {
        print(&mut s, line);
    }
    s.apply(&csi(&[1, 2], 'H'));
    s.apply(&csi(&[2], 'P'));
    assert_eq!(row(&s, 0), "ade  ");
    s.apply(&csi(&[1], '@'));
    assert_eq!(row(&s, 0), "a de ");
    s.apply(&csi(&[1], 'L'));
    assert_eq!(rows(&s), ["", "a de", "fghij"]);
    s.apply(&csi(&[1], 'M'));
    assert_eq!(rows(&s), ["a de", "fghij", ""]);
    s.apply(&csi(&[1], 'S'));
    assert_eq!(rows(&s), ["fghij", "", ""]);
    s.apply(&csi(&[2], 'T'));
    assert_eq!(rows(&s), ["", "", "fghij"]);
    s.apply(&csi(&[3], 'S'));
    assert_eq!(rows(&s), ["", "", ""]);
}

#[test]
fn vt_scroll_region_leaves_other_rows() {
    let mut s = Screen::new(2, 4);
    for line in ["aa", "bb", "cc", "dd"] {
        print(&mut s, line);
    }
    s.apply(&csi(&[2, 3], 'r'));
    assert_eq!(s.cursor(), (0, 1));
    s.apply(&csi(&[5], 'S'));
    assert_eq!(rows(&s), ["aa", "", "", "dd"]);
    s.apply(&csi(&[3, 2], 'r'));
    s.apply(&csi(&[], 'r'));
    assert_eq!(s.cursor(), (0, 0));
    s.apply(&VtEvent::Esc(b'M'));
    assert_eq!(rows(&s), ["", "aa", "", ""]);
    s.apply(&VtEvent::Esc(b'E'));
    s.apply(&VtEvent::Esc(b'D'));
    assert_eq!(s.cursor(), (0, 2));
    s.apply(&VtEvent::Esc(b'M'));
    assert_eq!(s.cursor(), (0, 1));
}

#[test]
fn vt_saves_cursor_and_alternate_screen() {
    let mut s = Screen::new(4, 2);
    print(&mut s, "main");
    s.apply(&VtEvent::Esc(b'7'));
    s.apply(&mode(1049, true));
    assert_eq!((rows(&s), s.cursor()), (vec![String::new(), String::new()], (0, 0)));
    print(&mut s, "alt");
    s.apply(&mode(1049, true));
    s.apply(&mode(1049, false));
    assert_eq!((rows(&s), s.cursor()), (vec!["main".to_string(), String::new()], (3, 0)));
    s.apply(&csi(&[2, 1], 'H'));
    s.apply(&VtEvent::Esc(b'8'));
    assert_eq!(s.cursor(), (3, 0));
    s.apply(&csi(&[], 's'));
    s.apply(&csi(&[2, 2], 'f'));
    s.apply(&csi(&[], 'u'));
    assert_eq!(s.cursor(), (3, 0));
    s.apply(&VtEvent::Esc(b'c'));
    assert_eq!((rows(&s), s.cursor()), (vec![String::new(), String::new()], (0, 0)));
}

fn pen_after(params: &[u16]) -> Cell {
    let mut s = Screen::new(2, 1);
    s.apply(&csi(params, 'm'));
    s.print('x');
    s.cell(0, 0).unwrap()
}

#[test]
fn vt_styles() {
    let plain = Cell { ch: 'x', fg: Color::Reset, bg: Color::Reset, bold: false, reverse: false };
    assert_eq!(pen_after(&[]), plain);
    assert_eq!(pen_after(&[1, 7, 31, 42]), Cell { fg: Color::Red, bg: Color::Green, bold: true, reverse: true, ..plain });
    assert_eq!(pen_after(&[1, 7, 22, 27, 31, 39, 42, 49]), plain);
    assert_eq!(pen_after(&[97, 100]), Cell { fg: Color::White, bg: Color::DarkGray, ..plain });
    assert_eq!(pen_after(&[38, 5, 208, 1]), Cell { fg: Color::Indexed(208), bold: true, ..plain });
    assert_eq!(pen_after(&[48, 2, 1, 2, 3]), Cell { bg: Color::Rgb(1, 2, 3), ..plain });
    assert_eq!(pen_after(&[38, 2, 300]), Cell { fg: Color::Rgb(44, 0, 0), ..plain });
    assert_eq!(pen_after(&[38]), plain);
    assert_eq!(pen_after(&[1, 0]), plain);
    let mut s = Screen::new(2, 1);
    s.apply(&VtEvent::Csi { params: vec![vec![38, 5, 9], vec![1]], private: false, action: 'm' });
    s.print('x');
    assert_eq!(s.cell(0, 0).unwrap(), Cell { fg: Color::Indexed(9), bold: true, ..plain });
}

#[test]
fn vt_resize_keeps_the_overlap() {
    let mut v = Vt::new(0, 3);
    assert_eq!((v.screen().cols(), v.screen().rows()), (1, 3));
    v.resize(4, 2);
    v.feed(b"abcdef");
    v.resize(2, 3);
    assert_eq!(rows(v.screen()), ["ab", "ef", ""]);
    assert_eq!(v.screen().cursor(), (1, 1));
    v.resize(2, 3);
    v.resize(5, 1);
    assert_eq!(rows(v.screen()), ["ab"]);
}

#[test]
fn vt_takes_bytes_in_pieces() {
    let all = "é\x1b[38;2;1;2;3mx\x1b[0m\r\n\x1b7\x1b[?1049h\x1b[2;3Hz\x1b[?1049l\x1b8✓".as_bytes();
    let mut whole = Vt::new(6, 3);
    whole.feed(all);
    assert_eq!(rows(whole.screen()), ["éx", "✓", ""]);
    let x = whole.screen().cell(1, 0).unwrap();
    assert_eq!((x.ch, x.fg), ('x', Color::Rgb(1, 2, 3)));
    for cut in 0..=all.len() {
        let mut parts = Vt::new(6, 3);
        parts.feed(&all[..cut]);
        parts.feed(&all[cut..]);
        assert_eq!(parts.to_lines(true), whole.to_lines(true), "cut at {cut}");
        assert_eq!(parts.screen().cursor(), whole.screen().cursor());
    }
    let mut colons = Vt::new(2, 1);
    colons.feed(b"\x1b[38:5:9my");
    assert_eq!(colons.screen().cell(0, 0).unwrap().fg, Color::Indexed(9));
}

#[test]
fn vt_screens_may_be_wide_or_high() {
    let mut wide = Vt::new(70000, 1);
    wide.feed(b"\x1b[65535C\x1b[9999Cx");
    assert_eq!(wide.screen().cursor(), (70000, 0));
    assert_eq!(wide.screen().cell(69999, 0).unwrap().ch, 'x');
    wide.feed(b"\r\t\ty");
    assert_eq!(wide.screen().cell(16, 0).unwrap().ch, 'y');
    let mut high = Vt::new(1, 70000);
    high.feed(b"\x1b[65535B\x1b[r");
    assert_eq!(high.screen().cursor(), (0, 0));
    high.feed(b"\x1b[65535B\x1b[65535Bz");
    assert_eq!(high.screen().cell(0, 69999).unwrap().ch, 'z');
}

#[test]
fn vt_lines_gather_runs() {
    let mut v = Vt::new(4, 1);
    v.feed(b"ab\x1b[1mc");
    let plain = CellStyle { fg: Color::Reset, bg: Color::Reset, bold: false, reversed: false };
    let bold = CellStyle { bold: true, ..plain };
    let turned = CellStyle { reversed: true, ..plain };
    assert_eq!(
        v.to_lines(true),
        vec![vec![("ab".to_string(), plain), ("c".to_string(), bold), (" ".to_string(), turned)]],
    );
    v.feed(b"\x1b[?25l");
    assert_eq!(v.to_lines(true)[0].last().unwrap().1, plain);
    assert_eq!(v.to_lines(true), v.to_lines(false));
    let cells = vec![('x', plain), ('y', plain), ('z', bold), ('w', plain)];
    let runs = gather(&cells);
    assert_eq!(runs.iter().map(|r| r.0.as_str()).collect::<Vec<_>>(), ["xy", "z", "w"]);
    assert!(runs.windows(2).all(|w| w[0].1 != w[1].1));
}

#[test]
fn remote_keys_become_bytes() {
    let mut out = vec![b'>'];
    push_key(&mut out, KeyName::Letter('a'), true);
    push_key(&mut out, KeyName::Letter('z'), true);
    push_key(&mut out, KeyName::Letter('z'), false);
    push_key(&mut out, KeyName::Other, true);
    assert_eq!(out, [b'>', 1, 26]);
    assert_eq!(text_bytes("é\u{7}x\n"), [0xc3, 0xa9, b'x']);
    let all = [
        (KeyName::Enter, &b"\r"[..]),
        (KeyName::Backspace, b"\x7f"),
        (KeyName::Tab, b"\t"),
        (KeyName::Escape, b"\x1b"),
        (KeyName::ArrowUp, b"\x1b[A"),
        (KeyName::ArrowDown, b"\x1b[B"),
        (KeyName::ArrowRight, b"\x1b[C"),
        (KeyName::ArrowLeft, b"\x1b[D"),
        (KeyName::Home, b"\x1b[H"),
        (KeyName::End, b"\x1b[F"),
        (KeyName::Delete, b"\x1b[3~"),
        (KeyName::PageUp, b"\x1b[5~"),
        (KeyName::PageDown, b"\x1b[6~"),
    ];
    for (key, bytes) in all {
        assert_eq!(input_bytes(&vec![InputEvent::Key { key, ctrl: false }]), bytes);
    }
    let evs = vec![InputEvent::Text("ls".to_string()), InputEvent::Key { key: KeyName::Enter, ctrl: false }];
    assert_eq!(input_bytes(&evs), b"ls\r");
}

#[test]
fn remote_session_phases() {
    let open = || SshClient::connect(Ok(Some(7)), "me", "box", 10, 2).ok().unwrap();
    assert_eq!(SshClient::connect(Ok(None), "me", "box", 10, 2).err().unwrap(), "host returned a bad session id");
    assert_eq!(SshClient::connect(Err("denied".to_string()), "me", "box", 10, 2).err().unwrap(), "denied");
    let mut c = open();
    assert!(matches!(c.phase, Phase::Connecting));
    assert_eq!((c.id, c.user.as_str(), c.host.as_str()), (7, "me", "box"));
    c.poll(PollReply::Update { data: b"x".to_vec(), state: SshState::Ready });
    assert!(matches!(c.phase, Phase::Ready));
    assert_eq!(row(c.vt.screen(), 0).trim_end(), "x");
    assert!(!c.resize(10, 2));
    assert!(c.resize(12, 3));
    assert_eq!(c.vt.screen().cols(), 12);
    c.poll(PollReply::Update { data: Vec::new(), state: SshState::Closed(String::new()) });
    let ended = |c: &SshClient| match &c.phase {
        Phase::Ended(s) => s.clone(),
        _ => panic!(),
    };
    assert_eq!(ended(&c), "connection closed");
    c.poll(PollReply::Failed);
    assert_eq!(ended(&c), "connection closed");
    let mut c = open();
    c.poll(PollReply::Failed);
    assert_eq!(ended(&c), "poll failed");
    let mut c = open();
    c.poll(PollReply::Unreadable);
    assert_eq!(ended(&c), "bad poll response");
    let mut c = open();
    c.poll(PollReply::Update { data: Vec::new(), state: SshState::Error("boom".to_string()) });
    assert_eq!(ended(&c), "boom");
    let mut c = open();
    c.poll(PollReply::Update { data: Vec::new(), state: SshState::Closed("bye".to_string()) });
    assert_eq!(ended(&c), "bye");
}

#[test]
fn toolbar_truncates_to_what_fits() {
    let p = plan_rows(6);
    assert_eq!((p.shown, p.items, p.rows), (11, 12, 2));
    let p = plan_rows(1);
    assert_eq!((p.shown, p.items, p.rows), (1, 2, 2));
    let p = plan_rows(50);
    assert_eq!((p.shown, p.items, p.rows), (20, 21, 1));
    let p = plan_rows(11);
    assert_eq!((p.shown, p.items, p.rows), (20, 21, 2));
    assert_eq!(plan_column(1).shown, 0);
    assert_eq!(plan_column(5).items, 5);
    assert_eq!(plan_column(99).items, 21);
    assert_eq!(place(7, 6), (1, 1));
    assert_eq!(key_label(0), "Esc");
    assert!(matches!(key_act(0), Act::Cancel));
    assert!(matches!(key_act(1), Act::Submit));
    assert!(matches!(key_act(9), Act::Disconnect));
    match key_act(16) {
        Act::Bytes(b) => assert_eq!((key_label(16), b.as_slice()), ("PgDn", &b"\x1b[6~"[..])),
        _ => panic!(),
    }
    match key_act(19) {
        Act::Bytes(b) => assert_eq!((key_label(19), b.as_slice()), ("~", &b"~"[..])),
        _ => panic!(),
    }
}
