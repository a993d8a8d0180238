//! A Rust lexer for one line at a time: coloured spans, and what is still open at its end.
//! Block comments, which nest, and raw strings go on over lines; other strings end with theirs.

use vstd::prelude::*;

use crate::rvim::fs::str_same;
use crate::rvim::highlight::HlSpan;
use crate::rvim::theme::{
    Rgb, SYN_ATTRIBUTE, SYN_COMMENT, SYN_FUNCTION, SYN_KEYWORD, SYN_LIFETIME, SYN_MACRO, SYN_NUMBER,
    SYN_OPERATOR, SYN_SELF, SYN_STRING, SYN_TYPE,
};
use crate::text::range_string;
use crate::unicode::{alnum, ascii_digit, is_alnum, is_upper};

verus! {

/// What is open between two chars.
#[derive(Clone, Copy, Debug, PartialEq, Eq, Structural)]
pub enum LexState {
    Code,
    /// A block comment, and how deep it nests.
    Comment(u128),
    /// A raw string, and how many hashes end it.
    Raw(usize),
}

/// Model of what is open.
pub enum LexV {
    Code,
    Comment(nat),
    Raw(nat),
}

impl View for LexState {
    type V = LexV;

    open spec fn view(&self) -> LexV {
        match *self {
            LexState::Code => LexV::Code,
            LexState::Comment(d) => LexV::Comment(d as nat),
            LexState::Raw(h) => LexV::Raw(h as nat),
        }
    }
}

pub open spec fn word_char(c: char) -> bool {
    is_alnum(c) || c == '_'
}

/// A char that a name begins with.
pub open spec fn word_start(c: char) -> bool {
    word_char(c) && !ascii_digit(c)
}

pub open spec fn operator_char(c: char) -> bool {
    c == '+' || c == '-' || c == '*' || c == '/' || c == '%' || c == '=' || c == '<' || c == '>'
        || c == '!' || c == '&' || c == '|' || c == '^' || c == '?' || c == ':' || c == '.' || c
        == '@' || c == '#' || c == '$'
}

/// `a` and then `b` stand at column `i`.
pub open spec fn two_at(s: Seq<char>, i: int, a: char, b: char) -> bool {
    0 <= i && i + 1 < s.len() && s[i] == a && s[i + 1] == b
}

/// Where the comment goes that is open `depth` deep at column `i`: the column after its end,
/// and 0; or the end of the line, and how deep it is open there.
pub open spec fn comment_end(s: Seq<char>, i: int, depth: nat) -> (int, nat)
    decreases s.len() - i,
{
    if depth == 0 || i >= s.len() {
        (i, depth)
    } else if two_at(s, i, '*', '/') {
        comment_end(s, i + 2, (depth - 1) as nat)
    } else if two_at(s, i, '/', '*') {
        comment_end(s, i + 2, depth + 1)
    } else {
        comment_end(s, i + 1, depth)
    }
}

/// A quote at column `i` with `hashes` hashes after it.
pub open spec fn raw_closes(s: Seq<char>, i: int, hashes: nat) -> bool {
    &&& 0 <= i
    &&& i + hashes < s.len()
    &&& s[i] == '"'
    &&& forall|k: int| i < k <= i + hashes ==> #[trigger] s[k] == '#'
}

/// The column after the end of the raw string that is open at column `i`.
pub open spec fn raw_end(s: Seq<char>, i: int, hashes: nat) -> Option<int>
    decreases s.len() - i,
{
    if i >= s.len() {
        None
    } else if raw_closes(s, i, hashes) {
        Some(i + 1 + hashes)
    } else {
        raw_end(s, i + 1, hashes)
    }
}

/// The column after the next `quote` that no backslash escapes; else the end of the line.
pub open spec fn quoted_end(s: Seq<char>, i: int, quote: char) -> int
    decreases s.len() - i + 1,
{
    if i >= s.len() {
        s.len() as int
    } else if s[i] == quote {
        i + 1
    } else if s[i] == '\\' {
        quoted_end(s, i + 2, quote)
    } else {
        quoted_end(s, i + 1, quote)
    }
}

/// The first column from `i` on that is no part of a word.
pub open spec fn word_end(s: Seq<char>, i: int) -> int
    decreases s.len() - i,
{
    if 0 <= i < s.len() && word_char(s[i]) {
        word_end(s, i + 1)
    } else {
        i
    }
}

/// A char of a number: one of a word, or a point before a digit.
pub open spec fn number_char(s: Seq<char>, i: int) -> bool {
    0 <= i < s.len() && (word_char(s[i]) || (s[i] == '.' && i + 1 < s.len() && ascii_digit(
        s[i + 1],
    )))
}

pub open spec fn number_end(s: Seq<char>, i: int) -> int
    decreases s.len() - i,
{
    if number_char(s, i) {
        number_end(s, i + 1)
    } else {
        i
    }
}

/// The column after the next `]`; else the end of the line.
pub open spec fn attribute_end(s: Seq<char>, i: int) -> int
    decreases s.len() - i,
{
    if i >= s.len() {
        s.len() as int
    } else if s[i] == ']' {
        i + 1
    } else {
        attribute_end(s, i + 1)
    }
}

/// How many hashes stand at column `i`.
pub open spec fn hashes_at(s: Seq<char>, i: int) -> nat
    decreases s.len() - i,
{
    if 0 <= i < s.len() && s[i] == '#' {
        1 + hashes_at(s, i + 1)
    } else {
        0
    }
}

/// The column that a string's letters before its quote go up to: `b` and `c` may come first.
pub open spec fn after_prefix(s: Seq<char>, i: int) -> int {
    if 0 <= i < s.len() && (s[i] == 'b' || s[i] == 'c') {
        i + 1
    } else {
        i
    }
}

/// A raw string begins at column `i`: `r`, hashes and a quote.
pub open spec fn raw_opens(s: Seq<char>, i: int) -> bool {
    let k = after_prefix(s, i);
    let h = hashes_at(s, k + 1);
    0 <= k < s.len() && s[k] == 'r' && k + 1 + h < s.len() && s[k + 1 + h] == '"'
}

pub open spec fn is_keyword(w: Seq<char>) -> bool {
    w == "as"@ || w == "async"@ || w == "await"@ || w == "break"@ || w == "const"@
        || w == "continue"@ || w == "crate"@ || w == "dyn"@ || w == "else"@ || w == "enum"@
        || w == "extern"@ || w == "false"@ || w == "fn"@ || w == "for"@ || w == "if"@
        || w == "impl"@ || w == "in"@ || w == "let"@ || w == "loop"@ || w == "match"@
        || w == "mod"@ || w == "move"@ || w == "mut"@ || w == "pub"@ || w == "ref"@
        || w == "return"@ || w == "static"@ || w == "struct"@ || w == "super"@ || w == "trait"@
        || w == "true"@ || w == "type"@ || w == "unsafe"@ || w == "use"@ || w == "where"@
        || w == "while"@
}

pub open spec fn is_primitive(w: Seq<char>) -> bool {
    w == "bool"@ || w == "char"@ || w == "str"@ || w == "i8"@ || w == "i16"@ || w == "i32"@ || w
        == "i64"@ || w == "i128"@ || w == "isize"@ || w == "u8"@ || w == "u16"@ || w == "u32"@ || w
        == "u64"@ || w == "u128"@ || w == "usize"@ || w == "f32"@ || w == "f64"@
}

/// The colour of the word `[i, e)`, where it has one.
pub open spec fn word_color(s: Seq<char>, i: int, e: int) -> Option<Rgb> {
    let w = s.subrange(i, e);
    if w == "self"@ || w == "Self"@ {
        Some(SYN_SELF)
    } else if is_keyword(w) {
        Some(SYN_KEYWORD)
    } else if e < s.len() && s[e] == '!' && !two_at(s, e, '!', '=') {
        Some(SYN_MACRO)
    } else if e < s.len() && s[e] == '(' {
        Some(SYN_FUNCTION)
    } else if is_upper(s[i]) || is_primitive(w) {
        Some(SYN_TYPE)
    } else {
        None
    }
}

/// The token that begins at column `i`: the column after it, its colour where it has one, and
/// what it leaves open.
pub open spec fn token(s: Seq<char>, i: int) -> (int, Option<Rgb>, LexV) {
    let n = s.len() as int;
    let c = s[i];
    let k = after_prefix(s, i);
    if two_at(s, i, '/', '/') {
        (n, Some(SYN_COMMENT), LexV::Code)
    } else if two_at(s, i, '/', '*') {
        let (e, depth) = comment_end(s, i + 2, 1);
        (
            e,
            Some(SYN_COMMENT),
            if depth == 0 {
                LexV::Code
            } else {
                LexV::Comment(depth)
            },
        )
    } else if raw_opens(s, i) {
        let h = hashes_at(s, k + 1);
        match raw_end(s, k + 2 + h, h) {
            Some(e) => (e, Some(SYN_STRING), LexV::Code),
            None => (n, Some(SYN_STRING), LexV::Raw(h)),
        }
    } else if k < n && s[k] == '"' {
        (quoted_end(s, k + 1, '"'), Some(SYN_STRING), LexV::Code)
    } else if c == '\'' {
        if i + 1 < n && s[i + 1] == '\\' {
            (quoted_end(s, i + 1, '\''), Some(SYN_STRING), LexV::Code)
        } else if i + 2 < n && s[i + 2] == '\'' {
            (i + 3, Some(SYN_STRING), LexV::Code)
        } else if i + 1 < n && word_start(s[i + 1]) {
            (word_end(s, i + 1), Some(SYN_LIFETIME), LexV::Code)
        } else {
            (i + 1, None, LexV::Code)
        }
    } else if ascii_digit(c) {
        (number_end(s, i), Some(SYN_NUMBER), LexV::Code)
    } else if word_char(c) {
        let e = word_end(s, i);
        (e, word_color(s, i, e), LexV::Code)
    } else if two_at(s, i, '#', '[') || (two_at(s, i, '#', '!') && two_at(s, i + 1, '!', '[')) {
        (attribute_end(s, i + 1), Some(SYN_ATTRIBUTE), LexV::Code)
    } else if operator_char(c) {
        (i + 1, Some(SYN_OPERATOR), LexV::Code)
    } else {
        (i + 1, None, LexV::Code)
    }
}

/// What stands from column `i` on with `st` open: the column after it, its colour where it has
/// one, and what is open then.
pub open spec fn piece(s: Seq<char>, i: int, st: LexV) -> (int, Option<Rgb>, LexV) {
    match st {
        LexV::Code => token(s, i),
        LexV::Comment(depth) => if depth == 0 {
            token(s, i)
        } else {
            let (e, left) = comment_end(s, i, depth);
            (
                e,
                Some(SYN_COMMENT),
                if left == 0 {
                    LexV::Code
                } else {
                    LexV::Comment(left)
                },
            )
        },
        LexV::Raw(h) => match raw_end(s, i, h) {
            Some(e) => (e, Some(SYN_STRING), LexV::Code),
            None => (s.len() as int, Some(SYN_STRING), LexV::Raw(h)),
        },
    }
}

pub open spec fn span(from: int, to: int, color: Rgb) -> HlSpan {
    HlSpan { start: from as usize, len: (to - from) as usize, color }
}

proof fn lemma_comment_end(s: Seq<char>, i: int, depth: nat)
    requires
        0 <= i <= s.len(),
    ensures
        i <= comment_end(s, i, depth).0 <= s.len(),
        depth > 0 && i < s.len() ==> i < comment_end(s, i, depth).0,
        comment_end(s, i, depth).1 > 0 ==> comment_end(s, i, depth).0 == s.len() && depth > 0,
        comment_end(s, i, depth).1 <= depth + (s.len() - i),
    decreases s.len() - i,
{
    if depth > 0 && i < s.len() {
        if two_at(s, i, '*', '/') {
            lemma_comment_end(s, i + 2, (depth - 1) as nat);
        } else if two_at(s, i, '/', '*') {
            lemma_comment_end(s, i + 2, depth + 1);
        } else {
            lemma_comment_end(s, i + 1, depth);
        }
    }
}

proof fn lemma_raw_end(s: Seq<char>, i: int, h: nat)
    requires
        0 <= i,
    ensures
        raw_end(s, i, h) matches Some(e) ==> i < e <= s.len(),
    decreases s.len() - i,
{
    if i < s.len() && !raw_closes(s, i, h) {
        lemma_raw_end(s, i + 1, h);
    }
}

proof fn lemma_quoted_end(s: Seq<char>, i: int, quote: char)
    requires
        0 <= i,
    ensures
        quoted_end(s, i, quote) <= s.len(),
        i <= s.len() ==> i <= quoted_end(s, i, quote),
        i < s.len() ==> i < quoted_end(s, i, quote),
    decreases s.len() - i + 1,
{
    if i < s.len() && s[i] != quote {
        if s[i] == '\\' {
            lemma_quoted_end(s, i + 2, quote);
        } else {
            lemma_quoted_end(s, i + 1, quote);
        }
    }
}

proof fn lemma_word_end(s: Seq<char>, i: int)
    requires
        0 <= i <= s.len(),
    ensures
        i <= word_end(s, i) <= s.len(),
        i < s.len() && word_char(s[i]) ==> i < word_end(s, i),
    decreases s.len() - i,
{
    if i < s.len() && word_char(s[i]) {
        lemma_word_end(s, i + 1);
    }
}

proof fn lemma_number_end(s: Seq<char>, i: int)
    requires
        0 <= i <= s.len(),
    ensures
        i <= number_end(s, i) <= s.len(),
        number_char(s, i) ==> i < number_end(s, i),
    decreases s.len() - i,
{
    if number_char(s, i) {
        lemma_number_end(s, i + 1);
    }
}

proof fn lemma_attribute_end(s: Seq<char>, i: int)
    requires
        0 <= i <= s.len(),
    ensures
        i <= attribute_end(s, i) <= s.len(),
    decreases s.len() - i,
{
    if i < s.len() && s[i] != ']' {
        lemma_attribute_end(s, i + 1);
    }
}

proof fn lemma_hashes_at(s: Seq<char>, i: int)
    requires
        0 <= i <= s.len(),
    ensures
        i + hashes_at(s, i) <= s.len(),
    decreases s.len() - i,
{
    if i < s.len() && s[i] == '#' {
        lemma_hashes_at(s, i + 1);
    }
}

/// A piece has a char, and lies in the line; what it leaves open is open at the line's end.
proof fn lemma_piece(s: Seq<char>, i: int, st: LexV)
    requires
        0 <= i < s.len(),
    ensures
        i < piece(s, i, st).0 <= s.len(),
        !(piece(s, i, st).2 is Code) ==> piece(s, i, st).0 == s.len(),
        piece(s, i, st).2 matches LexV::Comment(d) ==> d > 0,
{
    let k = after_prefix(s, i);
    if let LexV::Comment(d) = st {
        lemma_comment_end(s, i, d);
    }
    if let LexV::Raw(h) = st {
        lemma_raw_end(s, i, h);
    }
    if two_at(s, i, '/', '*') {
        lemma_comment_end(s, i + 2, 1);
    }
    if k + 1 <= s.len() {
        let h = hashes_at(s, k + 1);
        lemma_hashes_at(s, k + 1);
        lemma_raw_end(s, k + 2 + h, h);
        lemma_quoted_end(s, k + 1, '"');
    }
    lemma_quoted_end(s, i + 1, '\'');
    lemma_word_end(s, i);
    if i + 1 < s.len() {
        lemma_word_end(s, i + 1);
        lemma_attribute_end(s, i + 1);
    }
    lemma_number_end(s, i);
}

/// The spans of a line from column `i` on, `st` being open there, and what is open at its end.
pub open spec fn lexed_from(s: Seq<char>, i: int, st: LexV) -> (Seq<HlSpan>, LexV)
    decreases s.len() - i,
    when 0 <= i
    via lexed_from_ends
{
    if i >= s.len() {
        (Seq::empty(), st)
    } else {
        let (e, color, next) = piece(s, i, st);
        let (rest, end) = lexed_from(s, e, next);
        match color {
            Some(c) => (seq![span(i, e, c)] + rest, end),
            None => (rest, end),
        }
    }
}

#[via_fn]
proof fn lexed_from_ends(s: Seq<char>, i: int, st: LexV) {
    if i < s.len() {
        lemma_piece(s, i, st);
    }
}

/// The spans of a line.
pub open spec fn line_spans(s: Seq<char>, st: LexV) -> Seq<HlSpan> {
    lexed_from(s, 0, st).0
}

/// What is open at the end of a line.
pub open spec fn line_state(s: Seq<char>, st: LexV) -> LexV {
    lexed_from(s, 0, st).1
}

/// What is open before line `k`.
pub open spec fn state_before(lines: Seq<Seq<char>>, st: LexV, k: int) -> LexV
    decreases k,
{
    if k <= 0 {
        st
    } else {
        line_state(lines[k - 1], state_before(lines, st, k - 1))
    }
}

/// The spans of each line, `st` being open before the first.
pub open spec fn lexed_lines(lines: Seq<Seq<char>>, st: LexV) -> Seq<Seq<HlSpan>> {
    Seq::new(lines.len(), |k: int| line_spans(lines[k], state_before(lines, st, k)))
}

fn in_word(c: char) -> (r: bool)
    ensures
        r == word_char(c),
{
    alnum(c) || c == '_'
}

fn digit(c: char) -> (r: bool)
    ensures
        r == ascii_digit(c),
{
    '0' <= c && c <= '9'
}

fn operator(c: char) -> (r: bool)
    ensures
        r == operator_char(c),
{
    c == '+' || c == '-' || c == '*' || c == '/' || c == '%' || c == '=' || c == '<' || c == '>'
        || c == '!' || c == '&' || c == '|' || c == '^' || c == '?' || c == ':' || c == '.' || c
        == '@' || c == '#' || c == '$'
}

fn pair_at(s: &[char], i: usize, a: char, b: char) -> (r: bool)
    ensures
        r == two_at(s@, i as int, a, b),
{
    let n: usize = s.len();
    n >= 2 && i <= n - 2 && s[i] == a && s[i + 1] == b
}

/// Follow a comment to its end, or to the end of the line.
fn follow_comment(s: &[char], i: usize, depth: u128) -> (r: (usize, u128))
    requires
        i <= s@.len(),
        depth + (s@.len() - i) <= u128::MAX,
    ensures
        (r.0 as int, r.1 as nat) == comment_end(s@, i as int, depth as nat),
        r.0 <= s@.len(),
{
    let n: usize = s.len();
    let mut at: usize = i;
    let mut deep: u128 = depth;
    while deep > 0 && at < n
        invariant
            n == s@.len(),
            at <= n,
            deep + (n - at) <= u128::MAX,
            comment_end(s@, i as int, depth as nat) == comment_end(s@, at as int, deep as nat),
        decreases n - at,
    {
        if pair_at(s, at, '*', '/') {
            at = at + 2;
            deep = deep - 1;
        } else if pair_at(s, at, '/', '*') {
            at = at + 2;
            deep = deep + 1;
        } else {
            at = at + 1;
        }
    }
    (at, deep)
}

fn closes_raw(s: &[char], i: usize, hashes: usize) -> (r: bool)
    ensures
        r == raw_closes(s@, i as int, hashes as nat),
{
    let n: usize = s.len();
    if i >= n || hashes >= n - i || s[i] != '"' {
        return false;
    }
    let mut k: usize = 0;
    while k < hashes
        invariant
            n == s@.len(),
            i < n,
            hashes < n - i,
            k <= hashes,
            forall|j: int| i < j <= i + k ==> #[trigger] s@[j] == '#',
        decreases hashes - k,
    {
        if s[i + 1 + k] != '#' {
            return false;
        }
        k = k + 1;
    }
    true
}

/// Follow a raw string to its end.
fn follow_raw(s: &[char], i: usize, hashes: usize) -> (r: Option<usize>)
    ensures
        match r {
            Some(e) => raw_end(s@, i as int, hashes as nat) == Some(e as int) && e <= s@.len(),
            None => raw_end(s@, i as int, hashes as nat) is None,
        },
{
    let n: usize = s.len();
    let mut at: usize = i;
    while at < n
        invariant
            n == s@.len(),
            raw_end(s@, i as int, hashes as nat) == raw_end(s@, at as int, hashes as nat),
        decreases n - at,
    {
        if closes_raw(s, at, hashes) {
            return Some(at + 1 + hashes);
        }
        at = at + 1;
    }
    None
}

/// Follow a quoted text to its end, or to the end of the line.
fn follow_quoted(s: &[char], i: usize, quote: char) -> (r: usize)
    ensures
        r == quoted_end(s@, i as int, quote),
        r <= s@.len(),
{
    let n: usize = s.len();
    let mut at: usize = i;
    while at < n
        invariant
            n == s@.len(),
            quoted_end(s@, i as int, quote) == quoted_end(s@, at as int, quote),
        decreases n - at,
    {
        if s[at] == quote {
            return at + 1;
        }
        if s[at] == '\\' && at + 1 < n {
            at = at + 2;
        } else if s[at] == '\\' {
            assert(quoted_end(s@, at + 2, quote) == n);
            return n;
        } else {
            at = at + 1;
        }
    }
    n
}

fn follow_word(s: &[char], i: usize) -> (r: usize)
    requires
        i <= s@.len(),
    ensures
        r == word_end(s@, i as int),
        i <= r <= s@.len(),
{
    let n: usize = s.len();
    let mut at: usize = i;
    while at < n && in_word(s[at])
        invariant
            n == s@.len(),
            i <= at <= n,
            word_end(s@, i as int) == word_end(s@, at as int),
        decreases n - at,
    {
        at = at + 1;
    }
    at
}

fn follow_number(s: &[char], i: usize) -> (r: usize)
    requires
        i <= s@.len(),
    ensures
        r == number_end(s@, i as int),
        r <= s@.len(),
{
    let n: usize = s.len();
    let mut at: usize = i;
    while at < n && (in_word(s[at]) || (s[at] == '.' && n - at > 1 && digit(s[at + 1])))
        invariant
            n == s@.len(),
            at <= n,
            number_end(s@, i as int) == number_end(s@, at as int),
        decreases n - at,
    {
        at = at + 1;
    }
    at
}

fn follow_attribute(s: &[char], i: usize) -> (r: usize)
    ensures
        r == attribute_end(s@, i as int),
        r <= s@.len(),
{
    let n: usize = s.len();
    let mut at: usize = i;
    while at < n
        invariant
            n == s@.len(),
            attribute_end(s@, i as int) == attribute_end(s@, at as int),
        decreases n - at,
    {
        if s[at] == ']' {
            return at + 1;
        }
        at = at + 1;
    }
    n
}

fn count_hashes(s: &[char], i: usize) -> (r: usize)
    requires
        i <= s@.len(),
    ensures
        r == hashes_at(s@, i as int),
        i + r <= s@.len(),
{
    let n: usize = s.len();
    let mut at: usize = i;
    while at < n && s[at] == '#'
        invariant
            n == s@.len(),
            i <= at <= n,
            hashes_at(s@, i as int) == (at - i) + hashes_at(s@, at as int),
        decreases n - at,
    {
        at = at + 1;
    }
    at - i
}

fn keyword(w: &str) -> (r: bool)
    ensures
        r == is_keyword(w@),
{
    str_same(w, "as") || str_same(w, "async") || str_same(w, "await") || str_same(w, "break")
        || str_same(w, "const") || str_same(w, "continue") || str_same(w, "crate")
        || str_same(w, "dyn") || str_same(w, "else") || str_same(w, "enum")
        || str_same(w, "extern") || str_same(w, "false") || str_same(w, "fn")
        || str_same(w, "for") || str_same(w, "if") || str_same(w, "impl") || str_same(w, "in")
        || str_same(w, "let") || str_same(w, "loop") || str_same(w, "match")
        || str_same(w, "mod") || str_same(w, "move") || str_same(w, "mut") || str_same(w, "pub")
        || str_same(w, "ref") || str_same(w, "return") || str_same(w, "static")
        || str_same(w, "struct") || str_same(w, "super") || str_same(w, "trait")
        || str_same(w, "true") || str_same(w, "type") || str_same(w, "unsafe")
        || str_same(w, "use") || str_same(w, "where") || str_same(w, "while")
}

fn primitive(w: &str) -> (r: bool)
    ensures
        r == is_primitive(w@),
{
    str_same(w, "bool") || str_same(w, "char") || str_same(w, "str") || str_same(w, "i8")
        || str_same(w, "i16") || str_same(w, "i32") || str_same(w, "i64") || str_same(w, "i128")
        || str_same(w, "isize") || str_same(w, "u8") || str_same(w, "u16") || str_same(w, "u32")
        || str_same(w, "u64") || str_same(w, "u128") || str_same(w, "usize") || str_same(w, "f32")
        || str_same(w, "f64")
}

fn color_of_word(s: &[char], i: usize, e: usize) -> (r: Option<Rgb>)
    requires
        i < e <= s@.len(),
    ensures
        r == word_color(s@, i as int, e as int),
{
    let word = range_string(s, i, e);
    let w = word.as_str();
    if str_same(w, "self") || str_same(w, "Self") {
        Some(SYN_SELF)
    } else if keyword(w) {
        Some(SYN_KEYWORD)
    } else if e < s.len() && s[e] == '!' && !pair_at(s, e, '!', '=') {
        Some(SYN_MACRO)
    } else if e < s.len() && s[e] == '(' {
        Some(SYN_FUNCTION)
    } else if s[i].is_uppercase() || primitive(w) {
        Some(SYN_TYPE)
    } else {
        None
    }
}

/// What a comment followed for `depth` leaves open.
fn comment_state(depth: u128) -> (r: LexState)
    ensures
        r@ == (if depth == 0 {
            LexV::Code
        } else {
            LexV::Comment(depth as nat)
        }),
{
    if depth == 0 {
        LexState::Code
    } else {
        LexState::Comment(depth)
    }
}

/// Read the token that begins at column `i`.
fn read_token(s: &[char], i: usize) -> (r: (usize, Option<Rgb>, LexState))
    requires
        i < s@.len(),
    ensures
        (r.0 as int, r.1, r.2@) == token(s@, i as int),
        r.2 matches LexState::Comment(d) ==> d <= s@.len(),
{
    let n: usize = s.len();
    proof {
        lemma_piece(s@, i as int, LexV::Code);
    }
    if pair_at(s, i, '/', '/') {
        return (n, Some(SYN_COMMENT), LexState::Code);
    }
    if pair_at(s, i, '/', '*') {
        let (e, depth) = follow_comment(s, i + 2, 1);
        proof {
            lemma_comment_end(s@, i + 2, 1);
        }
        return (e, Some(SYN_COMMENT), comment_state(depth));
    }
    let k: usize = if s[i] == 'b' || s[i] == 'c' {
        i + 1
    } else {
        i
    };
    if k < n && s[k] == 'r' {
        let h: usize = count_hashes(s, k + 1);
        if h < n - (k + 1) && s[k + 1 + h] == '"' {
            return match follow_raw(s, k + 2 + h, h) {
                Some(e) => (e, Some(SYN_STRING), LexState::Code),
                None => (n, Some(SYN_STRING), LexState::Raw(h)),
            };
        }
    }
    if k < n && s[k] == '"' {
        return (follow_quoted(s, k + 1, '"'), Some(SYN_STRING), LexState::Code);
    }
    let c = s[i];
    if c == '\'' {
        if n - i > 1 && s[i + 1] == '\\' {
            (follow_quoted(s, i + 1, '\''), Some(SYN_STRING), LexState::Code)
        } else if n - i > 2 && s[i + 2] == '\'' {
            (i + 3, Some(SYN_STRING), LexState::Code)
        } else if n - i > 1 && in_word(s[i + 1]) && !digit(s[i + 1]) {
            (follow_word(s, i + 1), Some(SYN_LIFETIME), LexState::Code)
        } else {
            (i + 1, None, LexState::Code)
        }
    } else if digit(c) {
        (follow_number(s, i), Some(SYN_NUMBER), LexState::Code)
    } else if in_word(c) {
        let e: usize = follow_word(s, i);
        (e, color_of_word(s, i, e), LexState::Code)
    } else if pair_at(s, i, '#', '[') || (pair_at(s, i, '#', '!') && pair_at(s, i + 1, '!', '[')) {
        (follow_attribute(s, i + 1), Some(SYN_ATTRIBUTE), LexState::Code)
    } else if operator(c) {
        (i + 1, Some(SYN_OPERATOR), LexState::Code)
    } else {
        (i + 1, None, LexState::Code)
    }
}

/// Lex a line with `st` open before it: its spans, and what is open at its end.
pub fn lex_line(s: &[char], st: LexState) -> (r: (Vec<HlSpan>, LexState))
    requires
        st matches LexState::Comment(d) ==> d + s@.len() <= u128::MAX,
    ensures
        r.0@ == line_spans(s@, st@),
        r.1@ == line_state(s@, st@),
        match (st, r.1) {
            (LexState::Comment(d), LexState::Comment(e)) => e <= d + s@.len(),
            (_, LexState::Comment(e)) => e <= s@.len(),
            _ => true,
        },
{
    let n: usize = s.len();
    let mut out: Vec<HlSpan> = Vec::new();
    let mut i: usize = 0;
    let mut now = st;
    let ghost all = lexed_from(s@, 0, st@);
    while i < n
        invariant
            n == s@.len(),
            i <= n,
            all == lexed_from(s@, 0, st@),
            all.0 =~= out@ + lexed_from(s@, i as int, now@).0,
            all.1 == lexed_from(s@, i as int, now@).1,
            st matches LexState::Comment(d) ==> d + s@.len() <= u128::MAX,
            i == 0 ==> now == st,
            0 < i < n ==> now is Code,
            match (st, now) {
                (LexState::Comment(d), LexState::Comment(e)) => e <= d + s@.len(),
                (_, LexState::Comment(e)) => e <= s@.len(),
                _ => true,
            },
        decreases n - i,
    {
        proof {
            lemma_piece(s@, i as int, now@);
        }
        let (e, color, next): (usize, Option<Rgb>, LexState) = match now {
            LexState::Code => read_token(s, i),
            LexState::Comment(depth) => if depth == 0 {
                read_token(s, i)
            } else {
                let (e, left) = follow_comment(s, i, depth);
                proof {
                    lemma_comment_end(s@, i as int, depth as nat);
                }
                (e, Some(SYN_COMMENT), comment_state(left))
            },
            LexState::Raw(h) => match follow_raw(s, i, h) {
                Some(e) => (e, Some(SYN_STRING), LexState::Code),
                None => (n, Some(SYN_STRING), LexState::Raw(h)),
            },
        };
        if let Some(c) = color {
            out.push(HlSpan { start: i, len: e - i, color: c });
        }
        i = e;
        now = next;
    }
    (out, now)
}

/// A span of the colour covers column `c`.
pub open spec fn covered(spans: Seq<HlSpan>, c: int, color: Rgb) -> bool {
    exists|j: int|
        0 <= j < spans.len() && (#[trigger] spans[j]).color == color && spans[j].start <= c
            < spans[j].start + spans[j].len
}

proof fn lemma_spans_in_order(s: Seq<char>, i: int, st: LexV)
    requires
        0 <= i,
        s.len() <= usize::MAX,
    ensures
        ({
            let r = lexed_from(s, i, st).0;
            &&& forall|j: int|
                0 <= j < r.len() ==> i <= (#[trigger] r[j]).start && r[j].len > 0 && r[j].start
                    + r[j].len <= s.len()
            &&& forall|j: int, k: int|
                0 <= j < k < r.len() ==> (#[trigger] r[j]).start + r[j].len <= (
                #[trigger] r[k]).start
        }),
    decreases s.len() - i,
{
    if i < s.len() {
        lemma_piece(s, i, st);
        let (e, color, next) = piece(s, i, st);
        lemma_spans_in_order(s, e, next);
        let r = lexed_from(s, i, st).0;
        let rest = lexed_from(s, e, next).0;
        if color is Some {
            assert(r[0] == span(i, e, color->0));
            assert forall|j: int| 1 <= j < r.len() implies #[trigger] r[j] == rest[j - 1] by {}
        }
    }
}

/// The spans of a line lie in it, have chars, and come in order without overlap.
pub proof fn law_spans_in_order(s: Seq<char>, st: LexV)
    requires
        s.len() <= usize::MAX,
    ensures
        ({
            let r = line_spans(s, st);
            &&& forall|j: int|
                0 <= j < r.len() ==> (#[trigger] r[j]).len > 0 && r[j].start + r[j].len <= s.len()
            &&& forall|j: int, k: int|
                0 <= j < k < r.len() ==> (#[trigger] r[j]).start + r[j].len <= (
                #[trigger] r[k]).start
        }),
{
    lemma_spans_in_order(s, 0, st);
}

/// Where a line begins inside a comment, every char up to the comment's end is covered in the
/// comment colour; and where it does not end there, the next line begins inside it too.
pub proof fn law_comment_carries(lines: Seq<Seq<char>>, st: LexV, k: int, c: int)
    requires
        0 <= k < lines.len(),
        lines[k].len() <= usize::MAX,
        state_before(lines, st, k) matches LexV::Comment(d) && d > 0,
    ensures
        ({
            let s = lines[k];
            let (end, left) = comment_end(s, 0, state_before(lines, st, k)->Comment_0);
            &&& 0 <= c < end ==> covered(lexed_lines(lines, st)[k], c, SYN_COMMENT)
            &&& left > 0 ==> end == s.len() && state_before(lines, st, k + 1) == LexV::Comment(
                left,
            )
        }),
{
    let s = lines[k];
    let open = state_before(lines, st, k);
    let d = open->Comment_0;
    lemma_comment_end(s, 0, d);
    let (end, left) = comment_end(s, 0, d);
    if s.len() > 0 {
        let r = lexed_from(s, 0, open).0;
        assert(r[0] == span(0, end, SYN_COMMENT));
        if left > 0 {
            assert(lexed_from(s, end, LexV::Comment(left)).1 == LexV::Comment(left));
        }
    }
}

/// A block comment that opens in code covers every char from its first to its end, and stays
/// open, as deep as it nests, where the line ends first.
pub proof fn law_comment_opens(s: Seq<char>, i: int, c: int)
    requires
        0 <= i,
        s.len() <= usize::MAX,
        two_at(s, i, '/', '*'),
    ensures
        ({
            let (end, left) = comment_end(s, i + 2, 1);
            let (spans, state) = lexed_from(s, i, LexV::Code);
            &&& i <= c < end ==> covered(spans, c, SYN_COMMENT)
            &&& left > 0 ==> end == s.len() && state == LexV::Comment(left)
        }),
{
    lemma_comment_end(s, i + 2, 1);
    let (end, left) = comment_end(s, i + 2, 1);
    let r = lexed_from(s, i, LexV::Code).0;
    assert(r[0] == span(i, end, SYN_COMMENT));
    if left > 0 {
        assert(lexed_from(s, end, LexV::Comment(left)).1 == LexV::Comment(left));
    }
}

/// Where a line begins inside a raw string, every char up to its end is covered in the string
/// colour; and where it does not end there, the next line begins inside it too.
pub proof fn law_raw_carries(lines: Seq<Seq<char>>, st: LexV, k: int, c: int)
    requires
        0 <= k < lines.len(),
        lines[k].len() <= usize::MAX,
        state_before(lines, st, k) is Raw,
    ensures
        ({
            let s = lines[k];
            let h = state_before(lines, st, k)->Raw_0;
            let end = match raw_end(s, 0, h) {
                Some(e) => e,
                None => s.len() as int,
            };
            &&& 0 <= c < end ==> covered(lexed_lines(lines, st)[k], c, SYN_STRING)
            &&& raw_end(s, 0, h) is None ==> state_before(lines, st, k + 1) == LexV::Raw(h)
        }),
{
    let s = lines[k];
    let open = state_before(lines, st, k);
    let h = open->Raw_0;
    lemma_raw_end(s, 0, h);
    if s.len() > 0 {
        let end = piece(s, 0, open).0;
        let r = lexed_from(s, 0, open).0;
        assert(r[0] == span(0, end, SYN_STRING));
        if raw_end(s, 0, h) is None {
            assert(lexed_from(s, end, open).1 == open);
        }
    }
}

} // verus!
