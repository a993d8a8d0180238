//! Laws of the shell's commands and of its line editor.

use vstd::arithmetic::div_mod::lemma_fundamental_div_mod_converse;
use vstd::prelude::*;

use crate::terminal::editor::LineV;
use crate::terminal::numbers::{
    all_digits, base_text, based, converted, digit_char, digit_value, digits_value, int_of,
    int_text, law_base_reads_back, signed_text, unsigned_part,
};
use crate::terminal::shell::{
    b64_char, b64_text, byte_or_zero, command_of, hex_text, run_of_line, word_end, word_starts, words,
};
use crate::terminal::wrap::{last_space, row_end, row_next, rows_from, wrapped};
use crate::text::{
    decimal_of, is_space, lemma_space_prefix, space_prefix, space_suffix, trim_end_of, trim_of,
    trim_start_of,
};
use crate::unicode::lower;

verus! {

/// Every char is blank.
pub open spec fn blank(s: Seq<char>) -> bool {
    forall|i: int| 0 <= i < s.len() ==> is_space(#[trigger] s[i])
}

/// No char is blank.
pub open spec fn solid(s: Seq<char>) -> bool {
    forall|i: int| 0 <= i < s.len() ==> !is_space(#[trigger] s[i])
}

proof fn lemma_prefix(s: Seq<char>, k: int)
    requires
        0 <= k <= s.len(),
        forall|i: int| 0 <= i < k ==> is_space(#[trigger] s[i]),
        k == s.len() || !is_space(s[k]),
    ensures
        space_prefix(s) == k,
{
    lemma_space_prefix(s);
    let j = space_prefix(s);
    if j < k {
        assert(is_space(s[j]));
    } else if j > k {
        assert(is_space(s[k]));
    }
}

proof fn lemma_suffix(s: Seq<char>, k: int)
    requires
        0 <= k <= s.len(),
        forall|i: int| s.len() - k <= i < s.len() ==> is_space(#[trigger] s[i]),
        k == s.len() || !is_space(s[s.len() - k - 1]),
    ensures
        space_suffix(s) == k,
    decreases k,
{
    if k > 0 {
        let t = s.drop_last();
        assert forall|i: int| t.len() - (k - 1) <= i < t.len() implies is_space(
            #[trigger] t[i],
        ) by {
            assert(is_space(s[i]));
        }
        assert(is_space(s[s.len() - 1]));
        lemma_suffix(t, k - 1);
    }
}

/// Trimming takes off the blanks on both sides and nothing else.
pub proof fn law_trim(a: Seq<char>, x: Seq<char>, b: Seq<char>)
    requires
        blank(a),
        blank(b),
        x.len() > 0,
        !is_space(x[0]),
        !is_space(x.last()),
    ensures
        trim_of(a + x + b) == x,
{
    let s = a + x + b;
    assert forall|i: int| 0 <= i < a.len() implies is_space(#[trigger] s[i]) by {
        assert(s[i] == a[i]);
    }
    assert(s[a.len() as int] == x[0]);
    lemma_prefix(s, a.len() as int);
    let t = x + b;
    assert(trim_start_of(s) =~= t);
    assert forall|i: int| t.len() - b.len() <= i < t.len() implies is_space(#[trigger] t[i]) by {
        assert(t[i] == b[i - x.len()]);
    }
    assert(t[t.len() - b.len() - 1] == x.last());
    lemma_suffix(t, b.len() as int);
    assert(trim_end_of(t) =~= x);
}

proof fn lemma_word_end(s: Seq<char>, i: int, k: int)
    requires
        0 <= i <= k <= s.len(),
        forall|j: int| i <= j < k ==> !is_space(#[trigger] s[j]),
        k == s.len() || is_space(s[k]),
    ensures
        word_end(s, i) == k,
    decreases k - i,
{
    if i < k {
        lemma_word_end(s, i + 1, k);
    }
}

/// A line is a command and its argument: the first word names the command in any case, and what
/// follows it, without the blanks around, is the argument.
pub proof fn law_line_splits(
    a: Seq<char>,
    cmd: Seq<char>,
    b: Seq<char>,
    arg: Seq<char>,
    c: Seq<char>,
    history: Seq<Seq<char>>,
)
    requires
        blank(a),
        blank(b),
        blank(c),
        b.len() > 0,
        cmd.len() > 0,
        solid(cmd),
        cmd[0] != '=',
        arg.len() > 0,
        !is_space(arg[0]),
        !is_space(arg.last()),
    ensures
        run_of_line(a + (cmd + b + arg) + c, history) == command_of(lower(cmd), arg, history),
        run_of_line(a + cmd + c, history) == command_of(lower(cmd), Seq::empty(), history),
{
    reveal(run_of_line);
    let t = cmd + b + arg;
    assert(t[0] == cmd[0] && t.last() == arg.last());
    assert(!is_space(cmd[0]));
    law_trim(a, t, c);
    let k = cmd.len() as int;
    assert forall|j: int| 0 <= j < k implies !is_space(#[trigger] t[j]) by {
        assert(t[j] == cmd[j]);
    }
    assert(t[k] == b[0]);
    lemma_word_end(t, 0, k);
    assert(t.take(k) =~= cmd);
    let more = b.skip(1);
    assert forall|i: int| 0 <= i < more.len() implies is_space(#[trigger] more[i]) by {
        assert(more[i] == b[i + 1]);
    }
    law_trim(more, arg, Seq::empty());
    assert(t.skip(k + 1) =~= more + arg + Seq::<char>::empty());
    assert(!is_space(cmd[k - 1]));
    law_trim(a, cmd, c);
    lemma_word_end(cmd, 0, k);
    assert(cmd.take(k) =~= cmd);
}

/// The value of a base64 char.
pub open spec fn sextet(c: char) -> int {
    if 'A' <= c <= 'Z' {
        c as int - 'A' as int
    } else if 'a' <= c <= 'z' {
        c as int - 'a' as int + 26
    } else if '0' <= c <= '9' {
        c as int - '0' as int + 52
    } else if c == '+' {
        62
    } else {
        63
    }
}

proof fn lemma_sextet(v: int)
    requires
        0 <= v < 64,
    ensures
        sextet(b64_char(v)) == v,
        b64_char(v) != '=',
{
}

/// The three bytes of group `k` as one number, zeros past the end.
spec fn group(d: Seq<u8>, k: int) -> int {
    byte_or_zero(d, 3 * k) * 65536 + byte_or_zero(d, 3 * k + 1) * 256 + byte_or_zero(d, 3 * k + 2)
}

proof fn lemma_group_chars(d: Seq<u8>, k: int)
    requires
        0 <= k,
        3 * k < d.len(),
    ensures
        ({
            let t = b64_text(d);
            let w = group(d, k);
            &&& 4 * k + 3 < t.len()
            &&& t[4 * k] == b64_char(w / 262144)
            &&& t[4 * k + 1] == b64_char(w / 4096 % 64)
            &&& t[4 * k + 2] == if 3 * k + 2 > d.len() {
                '='
            } else {
                b64_char(w / 64 % 64)
            }
            &&& t[4 * k + 3] == if 3 * k + 3 > d.len() {
                '='
            } else {
                b64_char(w % 64)
            }
        }),
{
    assert((4 * k) / 4 == k && (4 * k + 1) / 4 == k && (4 * k + 2) / 4 == k && (4 * k + 3) / 4
        == k);
    assert((4 * k) % 4 == 0 && (4 * k + 1) % 4 == 1 && (4 * k + 2) % 4 == 2 && (4 * k + 3) % 4
        == 3);
}

proof fn lemma_sextets(w: int)
    requires
        0 <= w < 16777216,
    ensures
        w / 262144 * 262144 + w / 4096 % 64 * 4096 + w / 64 % 64 * 64 + w % 64 == w,
        sextet(b64_char(w / 262144)) == w / 262144,
        sextet(b64_char(w / 4096 % 64)) == w / 4096 % 64,
        sextet(b64_char(w / 64 % 64)) == w / 64 % 64,
        sextet(b64_char(w % 64)) == w % 64,
{
    lemma_sextet(w / 262144);
    lemma_sextet(w / 4096 % 64);
    lemma_sextet(w / 64 % 64);
    lemma_sextet(w % 64);
}

/// Base64 keeps every bit: each four chars have the value of their three bytes.
pub proof fn law_b64_groups(d: Seq<u8>, k: int)
    requires
        0 <= k,
        3 * k + 2 < d.len(),
    ensures
        ({
            let t = b64_text(d);
            &&& 4 * k + 3 < t.len()
            &&& sextet(t[4 * k]) * 262144 + sextet(t[4 * k + 1]) * 4096 + sextet(t[4 * k + 2]) * 64
                + sextet(t[4 * k + 3]) == d[3 * k] * 65536 + d[3 * k + 1] * 256 + d[3 * k + 2]
        }),
{
    lemma_group_chars(d, k);
    lemma_sextets(group(d, k));
}

/// One byte left over takes two chars and two fillers, two bytes three chars and one; nothing
/// left over takes none, and the whole is four chars for each three bytes begun.
pub proof fn law_b64_rest(d: Seq<u8>, k: int)
    requires
        0 <= k,
        3 * k <= d.len() < 3 * k + 3,
    ensures
        ({
            let t = b64_text(d);
            let r = d.len() - 3 * k;
            &&& r == 0 ==> t.len() == 4 * k
            &&& r == 1 ==> t.len() == 4 * k + 4 && t[4 * k + 2] == '=' && t[4 * k + 3] == '='
                && sextet(t[4 * k]) * 64 + sextet(t[4 * k + 1]) == d[3 * k] * 16
            &&& r == 2 ==> t.len() == 4 * k + 4 && t[4 * k + 3] == '=' && sextet(t[4 * k]) * 4096
                + sextet(t[4 * k + 1]) * 64 + sextet(t[4 * k + 2]) == (d[3 * k] * 256 + d[3 * k
                + 1]) * 4
        }),
{
    let r = d.len() - 3 * k;
    assert(b64_text(d).len() == 4 * ((d.len() + 2) / 3));
    if r > 0 {
        let w = group(d, k);
        let b = byte_or_zero(d, 3 * k + 1);
        lemma_group_chars(d, k);
        assert(w == d[3 * k] * 65536 + b * 256);
        lemma_sextets(w);
        lemma_left_over(d[3 * k] as int, b);
    }
}

proof fn lemma_left_over(a: int, b: int)
    requires
        0 <= a < 256,
        0 <= b < 256,
    ensures
        ({
            let w = a * 65536 + b * 256;
            &&& b == 0 ==> w / 262144 * 64 + w / 4096 % 64 == a * 16
            &&& w / 262144 * 4096 + w / 4096 % 64 * 64 + w / 64 % 64 == (a * 256 + b) * 4
        }),
{
    let w = a * 65536 + b * 256;
    let (q, r) = (a / 4, a % 4);
    let (u, v) = (b / 16, b % 16);
    assert(a == 4 * q + r && 0 <= r < 4);
    assert(b == 16 * u + v && 0 <= v < 16 && 0 <= u < 16);
    lemma_fundamental_div_mod_converse(w, 262144, q, 65536 * r + 256 * b);
    lemma_fundamental_div_mod_converse(w, 4096, 64 * q + 16 * r + u, 256 * v);
    lemma_fundamental_div_mod_converse(64 * q + 16 * r + u, 64, q, 16 * r + u);
    lemma_fundamental_div_mod_converse(w, 64, 1024 * a + 4 * b, 0);
    lemma_fundamental_div_mod_converse(1024 * a + 4 * b, 64, 16 * a + u, 4 * v);
}

/// Hexadecimal writes each byte as two digits, the high one first.
pub proof fn law_hex(b: Seq<u8>, i: int)
    requires
        0 <= i < b.len(),
    ensures
        hex_text(b).len() == 2 * b.len(),
        digit_value(hex_text(b)[2 * i], 16) == Some(b[i] as int / 16),
        digit_value(hex_text(b)[2 * i + 1], 16) == Some(b[i] as int % 16),
    decreases b.len(),
{
    let c = b.drop_last();
    let t = hex_text(b);
    let u = hex_text(c);
    if c.len() > 0 {
        law_hex(c, if i < c.len() { i } else { 0 });
    } else {
        assert(u.len() == 0);
    }
    if i < c.len() {
        assert(c[i] == b[i]);
        assert(t[2 * i] == u[2 * i] && t[2 * i + 1] == u[2 * i + 1]);
    } else {
        assert(t[2 * i] == digit_char(b.last() as int / 16));
        assert(t[2 * i + 1] == digit_char(b.last() as int % 16));
    }
}

/// Blanks hold no word.
pub proof fn law_no_words(s: Seq<char>, n: int)
    requires
        blank(s),
        0 <= n <= s.len(),
    ensures
        words(s, n) == 0,
    decreases n,
{
    if n > 0 {
        law_no_words(s, n - 1);
        assert(is_space(s[n - 1]));
    }
}

/// Chars without a blank between them are one word.
pub proof fn law_one_word(s: Seq<char>, n: int)
    requires
        solid(s),
        1 <= n <= s.len(),
    ensures
        words(s, n) == 1,
    decreases n,
{
    assert(!is_space(s[n - 1]));
    if n > 1 {
        law_one_word(s, n - 1);
        assert(!is_space(s[n - 2]));
    } else {
        assert(words(s, 0) == 0);
    }
}

/// With a blank between them, two texts have the words of both.
pub proof fn law_words_add(s: Seq<char>, c: char, t: Seq<char>)
    requires
        is_space(c),
    ensures
        words(s.push(c) + t, (s.len() + 1 + t.len()) as int) == words(s, s.len() as int) + words(
            t,
            t.len() as int,
        ),
{
    lemma_words_front(s, c, t, s.len() as int);
    lemma_words_back(s, c, t, t.len() as int);
}

proof fn lemma_words_front(s: Seq<char>, c: char, t: Seq<char>, n: int)
    requires
        0 <= n <= s.len(),
    ensures
        words(s.push(c) + t, n) == words(s, n),
    decreases n,
{
    if n > 0 {
        lemma_words_front(s, c, t, n - 1);
        assert((s.push(c) + t)[n - 1] == s[n - 1]);
        if n > 1 {
            assert((s.push(c) + t)[n - 2] == s[n - 2]);
        }
    }
}

proof fn lemma_words_back(s: Seq<char>, c: char, t: Seq<char>, n: int)
    requires
        is_space(c),
        0 <= n <= t.len(),
    ensures
        words(s.push(c) + t, s.len() + 1 + n) == words(s, s.len() as int) + words(t, n),
    decreases n,
{
    let u = s.push(c) + t;
    let m = s.len() as int;
    if n > 0 {
        lemma_words_back(s, c, t, n - 1);
        assert(u[m + n] == t[n - 1]);
        if n > 1 {
            assert(u[m + n - 1] == t[n - 2]);
        } else {
            assert(u[m] == c);
        }
        assert(word_starts(u, m + n) == word_starts(t, n - 1));
    } else {
        lemma_words_front(s, c, t, m);
        assert(u[m] == c);
        assert(words(u, m + 1) == words(u, m));
    }
}

/// Every digit of a base is a char that is neither blank nor a sign.
proof fn lemma_digits_plain(s: Seq<char>, base: int)
    requires
        all_digits(s, base),
        2 <= base <= 16,
    ensures
        forall|i: int|
            0 <= i < s.len() ==> !is_space(#[trigger] s[i]) && s[i] != '-' && s[i] != '+',
{
    assert forall|i: int| 0 <= i < s.len() implies !is_space(#[trigger] s[i]) && s[i] != '-' && s[i]
        != '+' by {
        assert(digit_value(s[i], base) is Some);
    }
}

/// An integer that is not negative, written in base 16, 2 or 8 with the base's prefix, reads
/// back as itself.
pub proof fn law_prefixed_reads_back(n: int, base: int)
    requires
        0 <= n <= i64::MAX,
        base == 16 || base == 2 || base == 8,
    ensures
        int_of(converted(n, base)) == Result::<int, Seq<char>>::Ok(n),
{
    let body = base_text(n as nat, base as nat);
    law_base_reads_back(n as nat, base as nat);
    lemma_digits_plain(body, base);
    let mark = if base == 16 {
        'x'
    } else if base == 2 {
        'b'
    } else {
        'o'
    };
    reveal_strlit("0x");
    reveal_strlit("0b");
    reveal_strlit("0o");
    let s = seq!['0', mark] + body;
    assert("0x"@ =~= seq!['0', 'x'] && "0b"@ =~= seq!['0', 'b'] && "0o"@ =~= seq!['0', 'o']);
    assert(converted(n, base) == s);
    let e = Seq::<char>::empty();
    assert(e + s + e =~= s);
    assert(s[0] == '0' && s[1] == mark && s.last() == body.last());
    assert(!is_space(body[body.len() - 1]));
    law_trim(e, s, e);
    assert(unsigned_part(s) == s);
    assert(s.skip(2) =~= body);
    assert(body[0] != '+' && body[0] != '-');
    assert(int_text(body, base) == Some(n));
}

proof fn lemma_decimal(n: nat)
    ensures
        decimal_of(n).len() > 0,
        all_digits(decimal_of(n), 10),
        digits_value(decimal_of(n), 10) == n,
        n > 0 ==> decimal_of(n)[0] != '0',
        n == 0 ==> decimal_of(n).len() == 1,
    decreases n,
{
    let t = decimal_of(n);
    if n < 10 {
        assert(t.drop_last() =~= Seq::empty());
        assert(digits_value(t.drop_last(), 10) == 0);
        assert(t.last() == t[0]);
    } else {
        let u = decimal_of(n / 10);
        lemma_decimal(n / 10);
        assert(t.drop_last() =~= u);
        assert forall|i: int| 0 <= i < t.len() implies digit_value(#[trigger] t[i], 10) is Some by {
            if i < u.len() {
                assert(t[i] == u[i]);
            }
        }
        assert(t[0] == u[0]);
    }
}

/// An integer written in base ten reads back as itself, with its sign. (The least one does not:
/// without its sign it is no integer of this size.)
pub proof fn law_decimal_reads_back(n: int)
    requires
        i64::MIN < n <= i64::MAX,
    ensures
        int_of(signed_text(n)) == Result::<int, Seq<char>>::Ok(n),
{
    let size = if n < 0 {
        -n
    } else {
        n
    };
    let body = decimal_of(size as nat);
    lemma_decimal(size as nat);
    lemma_digits_plain(body, 10);
    reveal_strlit("-");
    let s = signed_text(n);
    let e = Seq::<char>::empty();
    assert(e + s + e =~= s);
    assert(!is_space(body[0]) && !is_space(body[body.len() - 1]));
    assert(s.last() == body.last());
    if n < 0 {
        assert("-"@ =~= seq!['-']);
        assert(s[0] == '-');
        law_trim(e, s, e);
        assert(s.skip(1) =~= body);
    } else {
        law_trim(e, s, e);
    }
    assert(unsigned_part(s) == body);
    assert(based(body) == (body, 10int));
    assert(int_text(body, 10) == Some(size));
}

/// A line and a cursor in it, as what stands before and behind it.
pub open spec fn halves(l: LineV) -> (Seq<char>, Seq<char>) {
    (l.chars.take(l.cursor), l.chars.skip(l.cursor))
}

/// Typing goes before the cursor, backspace takes from there, delete from behind it, and moving
/// brings one char from one side to the other; at an end of the line these do nothing.
pub proof fn law_line_keys(l: LineV, c: char)
    requires
        l.wf(),
    ensures
        halves(l.inserted(c)) == (halves(l).0.push(c), halves(l).1),
        l.cursor > 0 ==> halves(l) == (
            halves(l.backspaced()).0.push(l.chars[l.cursor - 1]),
            halves(l.backspaced()).1,
        ),
        l.cursor < l.chars.len() ==> halves(l.deleted()) == (halves(l).0, halves(l).1.skip(1)),
        l.cursor > 0 ==> l.lefted().chars == l.chars && l.lefted().cursor == l.cursor - 1,
        l.cursor < l.chars.len() ==> l.righted().chars == l.chars && l.righted().cursor == l.cursor
            + 1,
        l.cursor == 0 ==> l.backspaced() == l && l.lefted() == l,
        l.cursor == l.chars.len() ==> l.deleted() == l && l.righted() == l,
        halves(l.killed()) == (Seq::<char>::empty(), halves(l).1),
{
    let a = l.inserted(c);
    assert(halves(a).0 =~= halves(l).0.push(c));
    assert(halves(a).1 =~= halves(l).1);
    if l.cursor > 0 {
        let b = l.backspaced();
        assert(halves(l).0 =~= halves(b).0.push(l.chars[l.cursor - 1]));
        assert(halves(l).1 =~= halves(b).1);
    }
    if l.cursor < l.chars.len() {
        let d = l.deleted();
        assert(halves(d).0 =~= halves(l).0);
        assert(halves(d).1 =~= halves(l).1.skip(1));
    }
    assert(halves(l.killed()).0 =~= Seq::empty());
    assert(halves(l.killed()).1 =~= halves(l).1);
}

/// A line taken is remembered as the newest, unless it is blank or the newest already; the line
/// is then empty. The older ones stay as they were.
pub proof fn law_line_remembered(l: LineV)
    ensures
        ({
            let t = l.taken();
            &&& t.chars.len() == 0 && t.cursor == 0 && t.browse is None
            &&& if trim_of(l.chars).len() == 0 || l.history.len() > 0 && l.history.last()
                == l.chars {
                t.history == l.history
            } else {
                t.history == l.history.push(l.chars)
            }
        }),
{
}

/// Going back shows the entries from the newest to the oldest, and stays there; the cursor is at
/// the end of what is shown.
pub proof fn law_history_back(l: LineV)
    requires
        l.wf(),
        l.history.len() > 0,
    ensures
        ({
            let p = l.recalled_prev();
            let n = l.history.len();
            &&& p.history == l.history
            &&& p.cursor == p.chars.len()
            &&& l.browse is None ==> p.chars == l.history[n - 1] && p.stash == l.chars
            &&& l.browse matches Some(i) ==> p.chars == l.history[if i > 0 {
                i - 1
            } else {
                0
            }] && p.stash == l.stash
            &&& p.browse matches Some(i) && p.chars == l.history[i]
        }),
{
}

/// The first row of a text too long for one is as much of it as fits: up to the last space that
/// has a char before it, or all the width where there is none.
pub proof fn law_first_row(s: Seq<char>, width: int)
    requires
        0 < width < s.len(),
    ensures
        ({
            let rows = wrapped(s, width);
            let n = rows[0].len() as int;
            let rest = if s[n] == ' ' {
                n + 1
            } else {
                n
            };
            &&& rows.len() >= 1
            &&& 1 <= n <= width
            &&& rows[0] == s.take(n)
            &&& n < width ==> s[n] == ' '
            &&& forall|k: int| n < k < width ==> #[trigger] s[k] != ' '
            &&& n == width ==> forall|k: int| 1 <= k < width ==> #[trigger] s[k] != ' '
            &&& rows.skip(1) == rows_from(s.skip(rest), width, 0)
        }),
{
    lemma_last(s, 1, width - 1);
    let n = row_end(s, width, 0);
    let rest = row_next(s, n);
    assert(s.subrange(0, n) =~= s.take(n));
    assert(wrapped(s, width).skip(1) =~= rows_from(s, width, rest));
    lemma_rows_shift(s, width, rest, 0);
}

proof fn lemma_last(s: Seq<char>, lo: int, j: int)
    requires
        0 <= lo,
        j < s.len(),
    ensures
        match last_space(s, lo, j) {
            Some(k) => lo <= k <= j && s[k] == ' ' && forall|i: int|
                k < i <= j ==> #[trigger] s[i] != ' ',
            None => forall|i: int| lo <= i <= j ==> #[trigger] s[i] != ' ',
        },
    decreases j - lo + 1,
{
    if lo <= j && s[j] != ' ' {
        lemma_last(s, lo, j - 1);
    }
}

proof fn lemma_last_shift(s: Seq<char>, a: int, lo: int, j: int)
    requires
        0 <= a,
        0 <= lo,
        a + j < s.len(),
    ensures
        match last_space(s.skip(a), lo, j) {
            Some(k) => last_space(s, a + lo, a + j) == Some(a + k),
            None => last_space(s, a + lo, a + j) is None,
        },
    decreases j - lo + 1,
{
    if lo <= j {
        assert(s.skip(a)[j] == s[a + j]);
        lemma_last_shift(s, a, lo, j - 1);
    }
}

/// The rows of a text from a place on are the rows of the rest of it.
proof fn lemma_rows_shift(s: Seq<char>, width: int, a: int, i: int)
    requires
        0 < width,
        0 <= a <= s.len(),
        0 <= i,
    ensures
        rows_from(s, width, a + i) == rows_from(s.skip(a), width, i),
    decreases s.len() - a - i,
{
    let t = s.skip(a);
    if i < t.len() {
        let e = if i + width <= t.len() {
            i + width
        } else {
            t.len() as int
        };
        lemma_last_shift(s, a, i + 1, e - 1);
        lemma_last(t, i + 1, e - 1);
        let n = row_end(t, width, i);
        assert(row_end(s, width, a + i) == a + n);
        assert(n < t.len() ==> t[n] == s[a + n]);
        assert(row_next(s, a + n) == a + row_next(t, n));
        assert(s.subrange(a + i, a + n) =~= t.subrange(i, n));
        lemma_rows_shift(s, width, a, row_next(t, n));
    }
}

} // verus!
