//! The grammar of ex commands: addresses, ranges, names and arguments.

use vstd::prelude::*;

use crate::rvim::buffer::{max, min};
use crate::rvim::fs::str_same;
use crate::rvim::objects::next_char;
use crate::text::{range_string, to_chars, trim, trim_of};
use crate::unicode::{ascii_digit, ascii_lower, ascii_upper};

verus! {

/// End of the run of digits that starts at `i`.
pub open spec fn digits_end(s: Seq<char>, i: int) -> int
    decreases s.len() - i,
{
    if 0 <= i < s.len() && ascii_digit(s[i]) {
        digits_end(s, i + 1)
    } else {
        i
    }
}

/// The number that the digits `[i, j)` of `s` write.
pub open spec fn digits_value(s: Seq<char>, i: int, j: int) -> int
    decreases j - i,
{
    if j <= i {
        0
    } else {
        10 * digits_value(s, i, j - 1) + (s[j - 1] as int - 48)
    }
}

/// An address read at some place: the line it names, if it is one, and where it ends.
pub open spec fn addr_at(s: Seq<char>, i: int, cur: int, last: int) -> (Option<int>, int) {
    if !(0 <= i < s.len()) {
        (None, i)
    } else if s[i] == '.' {
        (Some(cur), i + 1)
    } else if s[i] == '$' {
        (Some(last), i + 1)
    } else if ascii_digit(s[i]) {
        let j = digits_end(s, i);
        (Some(max(min(digits_value(s, i, j), usize::MAX as int) - 1, 0)), j)
    } else {
        (None, i)
    }
}

/// What an ex line starts with.
pub enum RangeV {
    /// A comma without a second address.
    Broken,
    /// A line range, or none, and where the rest begins.
    Fine(Option<(int, int)>, int),
}

/// The range an ex line starts with: `%`, an address, or two addresses.
pub open spec fn range_at(s: Seq<char>, cur: int, last: int) -> RangeV {
    if s.len() > 0 && s[0] == '%' {
        RangeV::Fine(Some((0, last)), 1)
    } else {
        match addr_at(s, 0, cur, last) {
            (None, i) => RangeV::Fine(None, 0),
            (Some(a), i) => if i < s.len() && s[i] == ',' {
                match addr_at(s, i + 1, cur, last) {
                    (Some(b), j) => RangeV::Fine(Some((a, b)), j),
                    (None, j) => RangeV::Broken,
                }
            } else {
                RangeV::Fine(Some((a, a)), i)
            },
        }
    }
}

proof fn lemma_digits_end(s: Seq<char>, i: int)
    requires
        0 <= i <= s.len(),
    ensures
        i <= digits_end(s, i) <= s.len(),
        forall|k: int| i <= k < digits_end(s, i) ==> ascii_digit(#[trigger] s[k]),
    decreases s.len() - i,
{
    if i < s.len() && ascii_digit(s[i]) {
        lemma_digits_end(s, i + 1);
    }
}

/// Parse a line address (`N`, `.`, `$`) at `chars[i]` into a 0-based line.
fn parse_addr(chars: &[char], i: usize, cur: usize, last: usize) -> (r: (Option<usize>, usize))
    requires
        i <= chars@.len(),
    ensures
        addr_at(chars@, i as int, cur as int, last as int).1 == r.1,
        match r.0 {
            Some(a) => addr_at(chars@, i as int, cur as int, last as int).0 == Some(a as int),
            None => addr_at(chars@, i as int, cur as int, last as int).0 is None,
        },
        r.1 <= chars@.len(),
{
    if i >= chars.len() {
        return (None, i);
    }
    let c = chars[i];
    if c == '.' {
        (Some(cur), i + 1)
    } else if c == '$' {
        (Some(last), i + 1)
    } else if '0' <= c && c <= '9' {
        let mut n: usize = 0;
        let mut j: usize = i;
        while j < chars.len() && '0' <= chars[j] && chars[j] <= '9'
            invariant
                i <= j <= chars@.len(),
                digits_end(chars@, i as int) == digits_end(chars@, j as int),
                n == min(digits_value(chars@, i as int, j as int), usize::MAX as int),
                digits_value(chars@, i as int, j as int) >= 0,
            ensures
                j == digits_end(chars@, i as int),
                n == min(digits_value(chars@, i as int, j as int), usize::MAX as int),
            decreases chars@.len() - j,
        {
            let d: usize = (chars[j] as u32 - 48) as usize;
            let big: u128 = n as u128 * 10 + d as u128;
            n = if big < usize::MAX as u128 {
                big as usize
            } else {
                usize::MAX
            };
            j = j + 1;
        }
        (
            Some(
                if n > 0 {
                    n - 1
                } else {
                    0
                },
            ),
            j,
        )
    } else {
        (None, i)
    }
}

/// A parsed range: `Err` for a comma without a second address.
pub(crate) fn parse_range(chars: &[char], cur: usize, last: usize) -> (r: Result<
    (Option<(usize, usize)>, usize),
    (),
>)
    requires
        chars@.len() > 0,
    ensures
        match r {
            Ok((range, i)) => {
                &&& i <= chars@.len()
                &&& match range {
                    Some((a, b)) => range_at(chars@, cur as int, last as int) == RangeV::Fine(
                        Some((a as int, b as int)),
                        i as int,
                    ),
                    None => range_at(chars@, cur as int, last as int) == RangeV::Fine(
                        None,
                        i as int,
                    ),
                }
            },
            Err(_) => range_at(chars@, cur as int, last as int) == RangeV::Broken,
        },
{
    if chars[0] == '%' {
        return Ok((Some((0, last)), 1));
    }
    match parse_addr(chars, 0, cur, last) {
        (None, _) => Ok((None, 0)),
        (Some(a), i) => {
            if i < chars.len() && chars[i] == ',' {
                match parse_addr(chars, i + 1, cur, last) {
                    (Some(b), j) => Ok((Some((a, b)), j)),
                    (None, _) => Err(()),
                }
            } else {
                Ok((Some((a, a)), i))
            }
        },
    }
}

/// The ex commands.
#[derive(Clone, Copy, Debug, PartialEq, Eq, Structural)]
pub enum ExCmd {
    Write,
    WriteAll,
    Quit(bool),
    Split,
    VSplit,
    Close,
    Only,
    WriteQuit,
    Edit(bool),
    New,
    List,
    Switch,
    Next,
    Prev,
    Drop(bool),
    NoHighlight,
    Options,
    Help,
    Registers,
    Remove,
    Unknown,
}

/// The command that a name, with or without `!`, stands for.
#[verifier::opaque]
pub open spec fn command_of(n: Seq<char>, bang: bool) -> ExCmd {
    if (n == "w"@ || n == "write"@) && !bang {
        ExCmd::Write
    } else if (n == "wa"@ || n == "wall"@) && !bang {
        ExCmd::WriteAll
    } else if n == "q"@ || n == "quit"@ {
        ExCmd::Quit(bang)
    } else if (n == "sp"@ || n == "split"@) && !bang {
        ExCmd::Split
    } else if (n == "vs"@ || n == "vsplit"@) && !bang {
        ExCmd::VSplit
    } else if (n == "close"@ || n == "clo"@) && !bang {
        ExCmd::Close
    } else if (n == "only"@ || n == "on"@) && !bang {
        ExCmd::Only
    } else if n == "wq"@ || n == "x"@ || n == "xit"@ {
        ExCmd::WriteQuit
    } else if n == "e"@ || n == "edit"@ {
        ExCmd::Edit(bang)
    } else if n == "enew"@ {
        ExCmd::New
    } else if (n == "ls"@ || n == "buffers"@ || n == "files"@) && !bang {
        ExCmd::List
    } else if (n == "b"@ || n == "buffer"@ || n == "bu"@) && !bang {
        ExCmd::Switch
    } else if (n == "bn"@ || n == "bnext"@ || n == "n"@ || n == "next"@) && !bang {
        ExCmd::Next
    } else if (n == "bp"@ || n == "bprev"@ || n == "bprevious"@) && !bang {
        ExCmd::Prev
    } else if n == "bd"@ || n == "bdelete"@ {
        ExCmd::Drop(bang)
    } else if (n == "noh"@ || n == "nohl"@ || n == "nohlsearch"@) && !bang {
        ExCmd::NoHighlight
    } else if n == "set"@ && !bang {
        ExCmd::Options
    } else if (n == "help"@ || n == "h"@) && !bang {
        ExCmd::Help
    } else if (n == "reg"@ || n == "registers"@) && !bang {
        ExCmd::Registers
    } else if n == "rm"@ && !bang {
        ExCmd::Remove
    } else {
        ExCmd::Unknown
    }
}

fn is(n: &str, m: &str) -> (r: bool)
    ensures
        r == (n@ == m@),
{
    str_same(n, m)
}

/// The command that a name, with or without `!`, stands for.
pub(crate) fn find_command(n: &str, bang: bool) -> (r: ExCmd)
    ensures
        r == command_of(n@, bang),
{
    reveal(command_of);
    if (is(n, "w") || is(n, "write")) && !bang {
        ExCmd::Write
    } else if (is(n, "wa") || is(n, "wall")) && !bang {
        ExCmd::WriteAll
    } else if is(n, "q") || is(n, "quit") {
        ExCmd::Quit(bang)
    } else if (is(n, "sp") || is(n, "split")) && !bang {
        ExCmd::Split
    } else if (is(n, "vs") || is(n, "vsplit")) && !bang {
        ExCmd::VSplit
    } else if (is(n, "close") || is(n, "clo")) && !bang {
        ExCmd::Close
    } else if (is(n, "only") || is(n, "on")) && !bang {
        ExCmd::Only
    } else if is(n, "wq") || is(n, "x") || is(n, "xit") {
        ExCmd::WriteQuit
    } else if is(n, "e") || is(n, "edit") {
        ExCmd::Edit(bang)
    } else if is(n, "enew") {
        ExCmd::New
    } else if (is(n, "ls") || is(n, "buffers") || is(n, "files")) && !bang {
        ExCmd::List
    } else if (is(n, "b") || is(n, "buffer") || is(n, "bu")) && !bang {
        ExCmd::Switch
    } else if (is(n, "bn") || is(n, "bnext") || is(n, "n") || is(n, "next")) && !bang {
        ExCmd::Next
    } else if (is(n, "bp") || is(n, "bprev") || is(n, "bprevious")) && !bang {
        ExCmd::Prev
    } else if is(n, "bd") || is(n, "bdelete") {
        ExCmd::Drop(bang)
    } else if (is(n, "noh") || is(n, "nohl") || is(n, "nohlsearch")) && !bang {
        ExCmd::NoHighlight
    } else if is(n, "set") && !bang {
        ExCmd::Options
    } else if (is(n, "help") || is(n, "h")) && !bang {
        ExCmd::Help
    } else if (is(n, "reg") || is(n, "registers")) && !bang {
        ExCmd::Registers
    } else if is(n, "rm") && !bang {
        ExCmd::Remove
    } else {
        ExCmd::Unknown
    }
}

pub open spec fn ascii_letter(c: char) -> bool {
    ascii_lower(c) || ascii_upper(c)
}

/// End of the run of ASCII letters that starts at `i`.
pub open spec fn letters_end(s: Seq<char>, i: int) -> int
    decreases s.len() - i,
{
    if 0 <= i < s.len() && ascii_letter(s[i]) {
        letters_end(s, i + 1)
    } else {
        i
    }
}

/// A command line without its range: the name, whether `!` follows it, and the argument.
pub open spec fn split_command(s: Seq<char>) -> (Seq<char>, bool, Seq<char>) {
    let k = letters_end(s, 0);
    let bang = k < s.len() && s[k] == '!';
    (
        s.take(k),
        bang,
        trim_of(
            s.skip(
                if bang {
                    k + 1
                } else {
                    k
                },
            ),
        ),
    )
}

/// A command line without its range: the name, whether `!` follows it, and the argument.
pub(crate) fn parse_command(chars: &[char]) -> (r: (String, bool, String))
    ensures
        (r.0@, r.1, r.2@) == split_command(chars@),
{
    let n: usize = chars.len();
    let mut k: usize = 0;
    while k < n && (('a' <= chars[k] && chars[k] <= 'z') || ('A' <= chars[k] && chars[k] <= 'Z'))
        invariant
            n == chars@.len(),
            k <= n,
            letters_end(chars@, 0) == letters_end(chars@, k as int),
        ensures
            k == letters_end(chars@, 0),
            k <= n,
        decreases n - k,
    {
        k = k + 1;
    }
    let bang = k < n && chars[k] == '!';
    let from: usize = if bang {
        k + 1
    } else {
        k
    };
    let name = range_string(chars, 0, k);
    let rest = range_string(chars, from, n);
    assert(name@ =~= chars@.take(k as int));
    assert(rest@ =~= chars@.skip(from as int));
    (name, bang, trim(rest.as_str()))
}

/// A plain decimal number that fits a machine word, a leading `+` allowed.
pub open spec fn number_of(s: Seq<char>) -> Option<int> {
    let i: int = if s.len() > 0 && s[0] == '+' {
        1
    } else {
        0
    };
    if i < s.len() && digits_end(s, i) == s.len() && digits_value(s, i, s.len() as int)
        <= usize::MAX {
        Some(digits_value(s, i, s.len() as int))
    } else {
        None
    }
}

proof fn lemma_digits_value_grows(s: Seq<char>, i: int, j: int, k: int)
    requires
        0 <= i <= j <= k <= s.len(),
        forall|x: int| i <= x < k ==> ascii_digit(#[trigger] s[x]),
    ensures
        0 <= digits_value(s, i, j) <= digits_value(s, i, k),
    decreases k,
{
    if j < k {
        lemma_digits_value_grows(s, i, j, k - 1);
    } else if i < k {
        lemma_digits_value_grows(s, i, i, k - 1);
    }
}

/// Read a plain decimal number.
pub fn parse_number(s: &str) -> (r: Option<usize>)
    ensures
        match r {
            Some(n) => number_of(s@) == Some(n as int),
            None => number_of(s@) is None,
        },
{
    let chars = to_chars(s);
    let n: usize = chars.len();
    let start: usize = if n > 0 && chars[0] == '+' {
        1
    } else {
        0
    };
    if start >= n {
        return None;
    }
    let mut value: usize = 0;
    let mut i: usize = start;
    while i < n
        invariant
            chars@ == s@,
            n == s@.len(),
            start <= i <= n,
            start < n,
            start == (if s@.len() > 0 && s@[0] == '+' { 1int } else { 0int }),
            digits_end(s@, start as int) == digits_end(s@, i as int),
            value == digits_value(s@, start as int, i as int),
        decreases n - i,
    {
        let c = chars[i];
        if !('0' <= c && c <= '9') {
            return None;
        }
        let d: usize = (c as u32 - 48) as usize;
        let big: u128 = value as u128 * 10 + d as u128;
        if big > usize::MAX as u128 {
            proof {
                if digits_end(s@, start as int) == s@.len() {
                    lemma_digits_end(s@, start as int);
                    lemma_digits_value_grows(s@, start as int, i + 1, n as int);
                }
            }
            return None;
        }
        value = big as usize;
        i = i + 1;
    }
    Some(value)
}

/// Pattern, replacement and flags of a substitution, between slashes.
pub open spec fn split_substitute(s: Seq<char>) -> (Seq<char>, Seq<char>, Seq<char>) {
    let i = next_char(s, '/', 0);
    if i >= s.len() {
        (s, Seq::empty(), Seq::empty())
    } else {
        let j = next_char(s, '/', i + 1);
        if j >= s.len() {
            (s.take(i), s.skip(i + 1), Seq::empty())
        } else {
            (s.take(i), s.subrange(i + 1, j), s.skip(j + 1))
        }
    }
}

fn find_slash(s: &[char], i: usize) -> (r: usize)
    requires
        i <= s@.len(),
    ensures
        r == next_char(s@, '/', i as int),
        i <= r <= s@.len(),
{
    let mut k: usize = i;
    while k < s.len() && s[k] != '/'
        invariant
            i <= k <= s@.len(),
            next_char(s@, '/', i as int) == next_char(s@, '/', k as int),
        ensures
            k == next_char(s@, '/', i as int),
        decreases s@.len() - k,
    {
        k = k + 1;
    }
    k
}

/// Pattern, replacement and flags of a substitution, between slashes.
pub(crate) fn parse_substitute(s: &[char]) -> (r: (String, String, String))
    ensures
        (r.0@, r.1@, r.2@) == split_substitute(s@),
{
    let n: usize = s.len();
    let i: usize = find_slash(s, 0);
    let pat = range_string(s, 0, i);
    if i >= n {
        assert(pat@ =~= s@);
        return (pat, String::new(), String::new());
    }
    assert(pat@ =~= s@.take(i as int));
    let j: usize = find_slash(s, i + 1);
    let rep = range_string(s, i + 1, j);
    if j >= n {
        assert(rep@ =~= s@.skip(i + 1));
        return (pat, rep, String::new());
    }
    let flags = range_string(s, j + 1, n);
    assert(flags@ =~= s@.skip(j + 1));
    (pat, rep, flags)
}

} // verus!
