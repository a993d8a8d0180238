//! Laws of the command line: the lines an ex command names, its name and its argument; and of
//! the word a search takes from the text.

use vstd::prelude::*;

use crate::rvim::buffer::{clamped, pos};
use crate::rvim::keys::Key;
use crate::rvim::motion::{
    class_of, lemma_run_end, lemma_run_start, run_end, run_start, word_back_of,
};
use crate::rvim::motion_laws::{law_word_back_is_nearest, placed, starts_word, word_stop, wordy};
use crate::rvim::range_laws::before;
use crate::rvim::state::BufV;
use crate::rvim::vim::excmd::{
    addr_at, ascii_letter, command_of, digits_end, digits_value, letters_end, range_at,
    split_command, ExCmd, RangeV,
};
use crate::rvim::vim::operator_laws::{lemma_cut_before, split_at_cursor};
use crate::rvim::vim::search::{word_at, word_char_from};
use crate::rvim::vim::EngV;
use crate::terminal::shell_laws::{blank, law_trim};
use crate::text::{decimal_of, is_space};
use crate::unicode::ascii_digit;

verus! {

/// A line named on the command line.
pub enum Addr {
    Here,
    Last,
    Line(nat),
}

/// How it is written.
pub open spec fn addr_text(a: Addr) -> Seq<char> {
    match a {
        Addr::Here => seq!['.'],
        Addr::Last => seq!['$'],
        Addr::Line(n) => decimal_of(n),
    }
}

/// The line it names, counted from 0; lines are written counted from one.
pub open spec fn addr_line(a: Addr, cur: int, last: int) -> int {
    match a {
        Addr::Here => cur,
        Addr::Last => last,
        Addr::Line(n) => n - 1,
    }
}

pub open spec fn addr_ok(a: Addr) -> bool {
    a matches Addr::Line(n) ==> 1 <= n <= usize::MAX
}

proof fn lemma_decimal_digits(n: nat)
    ensures
        decimal_of(n).len() > 0,
        forall|i: int| 0 <= i < decimal_of(n).len() ==> ascii_digit(#[trigger] decimal_of(n)[i]),
        digits_value(decimal_of(n), 0, decimal_of(n).len() as int) == n,
    decreases n,
{
    let t = decimal_of(n);
    if n < 10 {
        reveal_with_fuel(digits_value, 2);
    } else {
        let u = decimal_of(n / 10);
        lemma_decimal_digits(n / 10);
        assert forall|i: int| 0 <= i < t.len() implies ascii_digit(#[trigger] t[i]) by {
            if i < u.len() {
                assert(t[i] == u[i]);
            }
        }
        lemma_value_part(u, t, 0, u.len() as int);
    }
}

/// The same digits write the same number.
proof fn lemma_value_part(s: Seq<char>, t: Seq<char>, i: int, n: int)
    requires
        0 <= i,
        0 <= n <= s.len(),
        i + n <= t.len(),
        forall|k: int| 0 <= k < n ==> #[trigger] s[k] == t[i + k],
    ensures
        digits_value(t, i, i + n) == digits_value(s, 0, n),
    decreases n,
{
    if n > 0 {
        lemma_value_part(s, t, i, n - 1);
        assert(s[n - 1] == t[i + (n - 1)]);
    }
}

proof fn lemma_digits_stop(s: Seq<char>, i: int, j: int)
    requires
        0 <= i <= j <= s.len(),
        forall|k: int| i <= k < j ==> ascii_digit(#[trigger] s[k]),
        j == s.len() || !ascii_digit(s[j]),
    ensures
        digits_end(s, i) == j,
    decreases j - i,
{
    if i < j {
        lemma_digits_stop(s, i + 1, j);
    }
}

proof fn lemma_addr(s: Seq<char>, i: int, a: Addr, cur: int, last: int)
    requires
        addr_ok(a),
        0 <= i,
        i + addr_text(a).len() <= s.len(),
        s.subrange(i, i + addr_text(a).len()) == addr_text(a),
        i + addr_text(a).len() == s.len() || !ascii_digit(s[i + addr_text(a).len()]),
    ensures
        addr_text(a).len() > 0,
        addr_at(s, i, cur, last) == (Some(addr_line(a, cur, last)), i + addr_text(a).len()),
{
    let w = addr_text(a);
    let j = i + w.len();
    assert forall|k: int| 0 <= k < w.len() implies #[trigger] w[k] == s[i + k] by {
        assert(s.subrange(i, j)[k] == s[i + k]);
    }
    if let Addr::Line(n) = a {
        lemma_decimal_digits(n);
        assert forall|k: int| i <= k < j implies ascii_digit(#[trigger] s[k]) by {
            assert(w[k - i] == s[i + (k - i)]);
            assert(ascii_digit(w[k - i]));
        }
        lemma_digits_stop(s, i, j);
        lemma_value_part(w, s, i, w.len() as int);
    } else {
        assert(w[0] == s[i + 0]);
    }
}

/// Two addresses with a comma between them are the lines from one to the other; one is that
/// line alone; % is every line.
pub proof fn law_range(a: Addr, b: Addr, rest: Seq<char>, cur: int, last: int)
    requires
        addr_ok(a),
        addr_ok(b),
        rest.len() > 0 ==> !ascii_digit(rest[0]),
    ensures
        ({
            let s = addr_text(a) + seq![','] + addr_text(b) + rest;
            range_at(s, cur, last) == RangeV::Fine(
                Some((addr_line(a, cur, last), addr_line(b, cur, last))),
                s.len() - rest.len(),
            )
        }),
        rest.len() > 0 && rest[0] == ',' || ({
            let s = addr_text(a) + rest;
            range_at(s, cur, last) == RangeV::Fine(
                Some((addr_line(a, cur, last), addr_line(a, cur, last))),
                s.len() - rest.len(),
            )
        }),
        range_at(seq!['%'] + rest, cur, last) == RangeV::Fine(Some((0, last)), 1),
{
    let (x, y) = (addr_text(a), addr_text(b));
    let s = x + seq![','] + y + rest;
    let n = x.len() as int;
    let m = n + 1 + y.len();
    assert(s.subrange(0, n) =~= x);
    assert(s.subrange(n + 1, m) =~= y);
    assert(s[n] == ',');
    if rest.len() > 0 {
        assert(s[m] == rest[0]);
    }
    lemma_addr(s, 0, a, cur, last);
    lemma_addr(s, n + 1, b, cur, last);
    lemma_no_percent(a);
    assert(s[0] == x[0]);
    let t = x + rest;
    assert(t.subrange(0, n) =~= x);
    if rest.len() > 0 {
        assert(t[n] == rest[0]);
    }
    lemma_addr(t, 0, a, cur, last);
    assert(t[0] == x[0]);
}

proof fn lemma_no_percent(a: Addr)
    ensures
        addr_text(a).len() > 0,
        addr_text(a)[0] != '%',
{
    if let Addr::Line(n) = a {
        lemma_decimal_digits(n);
        assert(ascii_digit(decimal_of(n)[0]));
    }
}

/// A line that begins with no address has no range.
pub proof fn law_no_range(s: Seq<char>, cur: int, last: int)
    requires
        s.len() == 0 || !(ascii_digit(s[0]) || s[0] == '.' || s[0] == '$' || s[0] == '%'),
    ensures
        range_at(s, cur, last) == RangeV::Fine(None, 0),
{
}

proof fn lemma_letters_stop(s: Seq<char>, i: int, j: int)
    requires
        0 <= i <= j <= s.len(),
        forall|k: int| i <= k < j ==> ascii_letter(#[trigger] s[k]),
        j == s.len() || !ascii_letter(s[j]),
    ensures
        letters_end(s, i) == j,
    decreases j - i,
{
    if i < j {
        lemma_letters_stop(s, i + 1, j);
    }
}

/// A command is its letters, a `!` right behind them or none, and its argument without the
/// blanks around it.
pub proof fn law_command_parts(name: Seq<char>, bang: bool, a: Seq<char>, arg: Seq<char>, b: Seq<
    char,
>)
    requires
        forall|i: int| 0 <= i < name.len() ==> ascii_letter(#[trigger] name[i]),
        blank(a),
        a.len() > 0,
        blank(b),
        arg.len() > 0,
        !is_space(arg[0]),
        !is_space(arg.last()),
    ensures
        ({
            let mark = if bang {
                seq!['!']
            } else {
                Seq::<char>::empty()
            };
            split_command(name + mark + (a + arg + b)) == (name, bang, arg)
        }),
{
    let mark = if bang {
        seq!['!']
    } else {
        Seq::<char>::empty()
    };
    let tail = a + arg + b;
    let s = name + mark + tail;
    let k = name.len() as int;
    assert forall|i: int| 0 <= i < k implies ascii_letter(#[trigger] s[i]) by {
        assert(s[i] == name[i]);
    }
    assert(tail[0] == a[0]);
    assert(is_space(a[0]));
    if bang {
        assert(s[k] == '!');
    } else {
        assert(s[k] == tail[0]);
    }
    lemma_letters_stop(s, 0, k);
    assert(s.take(k) =~= name);
    assert(s.skip(k + mark.len()) =~= tail);
    law_trim(a, arg, b);
}

/// * and # search for the word under the cursor, or else the next one on its line: all of a run
/// of letters, digits and underscores, with none of these between the cursor and it.
pub proof fn law_word_under(s: Seq<char>, col: int)
    requires
        0 <= col <= s.len(),
    ensures
        match word_at(s, col) {
            Some(w) => exists|a: int, b: int|
                {
                    &&& 0 <= a < b <= s.len() && col < b
                    &&& w == #[trigger] s.subrange(a, b)
                    &&& forall|k: int| a <= k < b ==> wordy(#[trigger] s[k]) && !is_space(s[k])
                    &&& a == 0 || is_space(s[a - 1]) || !wordy(s[a - 1])
                    &&& b == s.len() || is_space(s[b]) || !wordy(s[b])
                    &&& forall|k: int| col <= k < a ==> is_space(#[trigger] s[k]) || !wordy(s[k])
                },
            None => forall|k: int| col <= k < s.len() ==> is_space(#[trigger] s[k]) || !wordy(s[k]),
        },
{
    let i = word_char_from(s, col);
    lemma_word_char(s, col);
    if i < s.len() {
        lemma_run_start(s, i, 1, false);
        lemma_run_end(s, i, 1, false);
        let a = run_start(s, i, 1, false);
        let b = run_end(s, i, 1, false);
        assert forall|k: int| a <= k < b implies wordy(#[trigger] s[k]) && !is_space(s[k]) by {
            assert(class_of(s[k], false) == 1);
        }
        assert(word_at(s, col) == Some(s.subrange(a, b)));
    }
}

proof fn lemma_word_char(s: Seq<char>, i: int)
    requires
        0 <= i <= s.len(),
    ensures
        i <= word_char_from(s, i) <= s.len(),
        word_char_from(s, i) < s.len() ==> class_of(s[word_char_from(s, i)], false) == 1,
        forall|k: int|
            i <= k < word_char_from(s, i) ==> is_space(#[trigger] s[k]) || !wordy(s[k]),
    decreases s.len() - i,
{
    if i < s.len() && class_of(s[i], false) != 1 {
        lemma_word_char(s, i + 1);
    }
}

/// Ctrl-w takes out what stands between the cursor and the nearest word start before it on its
/// line, or the start of the line.
pub proof fn law_erase_word(b: BufV)
    requires
        placed(b.text.lines, b.cursor),
        b.cursor.col > 0,
    ensures
        ({
            let p = b.cursor;
            let l = b.text.lines[p.line];
            let w = b.insert_keyed(Key::Ctrl('w'));
            exists|k: int|
                {
                    &&& 0 <= k < p.col
                    &&& k == 0 || starts_word(l, k, false)
                    &&& forall|j: int| k < j < p.col ==> !#[trigger] starts_word(l, j, false)
                    &&& split_at_cursor(w) == (
                        #[trigger] before(b.text.lines, pos(p.line, k)),
                        split_at_cursor(b).1,
                    )
                }
        }),
{
    let p = b.cursor;
    let ls = b.text.lines;
    let l = ls[p.line];
    law_word_back_is_nearest(ls, p, false);
    let q = word_back_of(ls, p, false);
    let from = if q.line != p.line {
        pos(p.line, 0)
    } else {
        q
    };
    assert(0 <= from.col < p.col) by {
        if q.line == p.line && q == pos(0, 0) {
        }
    }
    lemma_cut_before(b, from);
    let w = b.insert_keyed(Key::Ctrl('w'));
    assert(clamped(w.text.lines, from, true) == from) by {
        reveal(clamped);
    }
    assert forall|j: int| from.col < j < p.col implies !#[trigger] starts_word(l, j, false) by {
        assert(word_stop(ls, pos(p.line, j), false) || !starts_word(l, j, false));
    }
    assert(split_at_cursor(w) == (before(ls, pos(p.line, from.col)), split_at_cursor(b).1));
}

/// The command line around its cursor.
pub open spec fn line_halves(e: EngV) -> (Seq<char>, Seq<char>) {
    (e.cmdline.take(e.cmdline_cursor), e.cmdline.skip(e.cmdline_cursor))
}

/// On the command line, typing goes before the cursor, backspace takes from there, delete from
/// behind it, and the arrows, Home and End move within the line.
pub proof fn law_cmdline_keys(e: EngV, c: char)
    requires
        0 <= e.cmdline_cursor <= e.cmdline.len(),
    ensures
        ({
            let at = e.cmdline_cursor;
            let len = e.cmdline.len() as int;
            &&& e.cmd_edited(Key::Char(c)) matches Some(f) && line_halves(f) == (
                line_halves(e).0.push(c),
                line_halves(e).1,
            )
            &&& at > 0 ==> (e.cmd_edited(Key::Backspace) matches Some(f) && line_halves(e) == (
                line_halves(f).0.push(e.cmdline[at - 1]),
                line_halves(f).1,
            ))
            &&& at == 0 ==> e.cmd_edited(Key::Backspace) is None
            &&& at < len ==> (e.cmd_edited(Key::Delete) matches Some(f) && line_halves(f) == (
                line_halves(e).0,
                line_halves(e).1.skip(1),
            ))
            &&& at == len ==> e.cmd_edited(Key::Delete) == Some(e)
            &&& e.cmd_edited(Key::Left) matches Some(f) && f.cmdline == e.cmdline && (
            f.cmdline_cursor == at - 1 || at == 0 && f.cmdline_cursor == 0)
            &&& e.cmd_edited(Key::Right) matches Some(f) && f.cmdline == e.cmdline && (
            f.cmdline_cursor == at + 1 && at < len || at == len && f.cmdline_cursor == len)
            &&& e.cmd_edited(Key::Home) == Some(EngV { cmdline_cursor: 0, ..e })
            &&& e.cmd_edited(Key::End) == Some(EngV { cmdline_cursor: len, ..e })
        }),
{
    let at = e.cmdline_cursor;
    let f = e.cmd_edited(Key::Char(c))->0;
    assert(line_halves(f).0 =~= line_halves(e).0.push(c));
    assert(line_halves(f).1 =~= line_halves(e).1);
    if at > 0 {
        let g = e.cmd_edited(Key::Backspace)->0;
        assert(line_halves(e).0 =~= line_halves(g).0.push(e.cmdline[at - 1]));
        assert(line_halves(e).1 =~= line_halves(g).1);
    }
    if at < e.cmdline.len() {
        let g = e.cmd_edited(Key::Delete)->0;
        assert(line_halves(g).0 =~= line_halves(e).0);
        assert(line_halves(g).1 =~= line_halves(e).1.skip(1));
    }
}

/// The names of commands that may have a `!`.
pub open spec fn with_bang() -> Seq<Seq<char>> {
    seq!["q"@, "quit"@, "wq"@, "x"@, "xit"@, "e"@, "edit"@, "enew"@, "bd"@, "bdelete"@]
}

/// The names of commands that have none.
pub open spec fn without_bang() -> Seq<Seq<char>> {
    seq![
        "w"@,
        "write"@,
        "wa"@,
        "wall"@,
        "sp"@,
        "split"@,
        "vs"@,
        "vsplit"@,
        "close"@,
        "clo"@,
        "only"@,
        "on"@,
        "ls"@,
        "buffers"@,
        "files"@,
        "b"@,
        "buffer"@,
        "bu"@,
        "bn"@,
        "bnext"@,
        "n"@,
        "next"@,
        "bp"@,
        "bprev"@,
        "bprevious"@,
        "noh"@,
        "nohl"@,
        "nohlsearch"@,
        "set"@,
        "help"@,
        "h"@,
        "reg"@,
        "registers"@,
        "rm"@,
    ]
}

/// Every command goes by its names and by no others, with a `!` only where it may have one; what
/// is unknown is the name of none.
pub proof fn law_command_names(n: Seq<char>, bang: bool)
    ensures
        ({
            let c = command_of(n, bang);
            &&& c == ExCmd::Write ==> !bang && (n == "w"@ || n == "write"@)
            &&& c == ExCmd::WriteAll ==> !bang && (n == "wa"@ || n == "wall"@)
            &&& c == ExCmd::Split ==> !bang && (n == "sp"@ || n == "split"@)
            &&& c == ExCmd::VSplit ==> !bang && (n == "vs"@ || n == "vsplit"@)
            &&& c == ExCmd::Close ==> !bang && (n == "close"@ || n == "clo"@)
            &&& c == ExCmd::Only ==> !bang && (n == "only"@ || n == "on"@)
            &&& c == ExCmd::List ==> !bang && (n == "ls"@ || n == "buffers"@ || n == "files"@)
            &&& c == ExCmd::Switch ==> !bang && (n == "b"@ || n == "buffer"@ || n == "bu"@)
            &&& c == ExCmd::Next ==> !bang && (n == "bn"@ || n == "bnext"@ || n == "n"@ || n == "next"@)
            &&& c == ExCmd::Prev ==> !bang && (n == "bp"@ || n == "bprev"@ || n == "bprevious"@)
            &&& c == ExCmd::NoHighlight ==> !bang && (n == "noh"@ || n == "nohl"@ || n == "nohlsearch"@)
            &&& c == ExCmd::Options ==> !bang && (n == "set"@)
            &&& c == ExCmd::Help ==> !bang && (n == "help"@ || n == "h"@)
            &&& c == ExCmd::Registers ==> !bang && (n == "reg"@ || n == "registers"@)
            &&& c == ExCmd::Remove ==> !bang && (n == "rm"@)
            &&& c matches ExCmd::Quit(b) ==> b == bang && (n == "q"@ || n == "quit"@)
            &&& c matches ExCmd::Edit(b) ==> b == bang && (n == "e"@ || n == "edit"@)
            &&& c matches ExCmd::Drop(b) ==> b == bang && (n == "bd"@ || n == "bdelete"@)
            &&& c == ExCmd::WriteQuit ==> n == "wq"@ || n == "x"@ || n == "xit"@
            &&& c == ExCmd::New ==> n == "enew"@
            &&& c == ExCmd::Unknown ==> !with_bang().contains(n) && (!bang ==> !without_bang().contains(n))
        }),
{
    reveal(command_of);
}

} // verus!
