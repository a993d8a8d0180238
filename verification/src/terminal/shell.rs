//! A small self-contained command interpreter — a pocket console: a scientific calculator, base
//! conversions, base64, sha256, and text utilities.

use base64::Engine;
use sha2::Digest;
use vstd::prelude::*;

use crate::rvim::buffer::max;
use crate::rvim::fs::str_same;
use crate::rvim::theme::Rgb;
use crate::terminal::calc::{parse, program_of, steps, CalcErrV, CalcError, Step, StepV, Tok, TokV};
use crate::terminal::numbers::{convert_text, converted, digit_char, digit_text, int_of, parse_int};
use crate::terminal::theme::{ACCENT, DIM, ERROR, MUTED, SUCCESS, TEXT};
use crate::text::{
    cat, char_count, decimal, decimal_of, from_chars, is_space, range_string, repeat_char, run_of,
    texts, to_chars, trim, trim_of, whitespace,
};
use crate::unicode::{lower, upper};
use crate::utf8::text_of_bytes;

verus! {

/// A line of output.
pub struct OutLine {
    pub text: String,
    pub color: Rgb,
}

/// Model of a line of output.
pub type OutV = (Seq<char>, Rgb);

impl View for OutLine {
    type V = OutV;

    open spec fn view(&self) -> OutV {
        (self.text@, self.color)
    }
}

pub open spec fn outs(s: Seq<OutLine>) -> Seq<OutV> {
    Seq::new(s.len(), |i: int| s[i]@)
}

/// What a command asks for beyond its output.
pub enum Effect {
    Nothing,
    Clear,
    /// Run a program and show its value.
    Compute(Vec<Step>),
    /// Tell that this number, as it reads once evaluated, was not expected.
    Misplaced(String),
}

/// Model of an effect.
pub enum EffectV {
    Nothing,
    Clear,
    Compute(Seq<StepV>),
    Misplaced(Seq<char>),
}

impl View for Effect {
    type V = EffectV;

    open spec fn view(&self) -> EffectV {
        match *self {
            Effect::Nothing => EffectV::Nothing,
            Effect::Clear => EffectV::Clear,
            Effect::Compute(v) => EffectV::Compute(steps(v@)),
            Effect::Misplaced(s) => EffectV::Misplaced(s@),
        }
    }
}

pub struct Response {
    pub lines: Vec<OutLine>,
    pub effect: Effect,
}

/// Model of a response.
#[verifier::ext_equal]
pub struct ResponseV {
    pub lines: Seq<OutV>,
    pub effect: EffectV,
}

impl View for Response {
    type V = ResponseV;

    open spec fn view(&self) -> ResponseV {
        ResponseV { lines: outs(self.lines@), effect: self.effect@ }
    }
}

impl ResponseV {
    pub open spec fn says(s: Seq<char>, color: Rgb) -> ResponseV {
        ResponseV { lines: seq![(s, color)], effect: EffectV::Nothing }
    }

    pub open spec fn fails(s: Seq<char>) -> ResponseV {
        ResponseV::says("error: "@ + s, ERROR)
    }

    pub open spec fn does(e: EffectV) -> ResponseV {
        ResponseV { lines: Seq::empty(), effect: e }
    }
}

impl Response {
    fn text(text: String, color: Rgb) -> (r: Response)
        ensures
            r@ == ResponseV::says(text@, color),
    {
        let mut lines: Vec<OutLine> = Vec::new();
        lines.push(OutLine { text, color });
        let r = Response { lines, effect: Effect::Nothing };
        assert(r@ =~= ResponseV::says(text@, color));
        r
    }

    fn err(s: &str) -> (r: Response)
        ensures
            r@ == ResponseV::fails(s@),
    {
        Response::text(cat("error: ", s), ERROR)
    }

    fn act(effect: Effect) -> (r: Response)
        ensures
            r@ == ResponseV::does(effect@),
    {
        let r = Response { lines: Vec::new(), effect };
        assert(r@ =~= ResponseV::does(effect@));
        r
    }
}

/// The commands and what they do.
pub open spec fn commands() -> Seq<(Seq<char>, Seq<char>)> {
    seq![
        ("help"@, "list commands"@),
        ("clear"@, "clear the screen (Ctrl+L)"@),
        ("echo <text>"@, "print text"@),
        ("calc <expr>"@, "evaluate math, e.g. calc (1+2)*sqrt(9)"@),
        ("=<expr>"@, "shorthand for calc"@),
        ("hex|dec|bin|oct <n>"@, "convert an integer between bases"@),
        ("b64 enc|dec <text>"@, "base64 encode / decode"@),
        ("sha256 <text>"@, "SHA-256 hex digest"@),
        ("upper|lower|rev <text>"@, "transform text"@),
        ("wc <text>"@, "count chars / words"@),
        ("history"@, "show command history"@),
        ("about"@, "about this terminal"@),
    ]
}

/// The commands and what they do.
pub fn command_list() -> (r: Vec<(&'static str, &'static str)>)
    ensures
        r@.len() == commands().len(),
        forall|i: int| 0 <= i < r@.len() ==> (#[trigger] r@[i]).0@ == commands()[i].0,
        forall|i: int| 0 <= i < r@.len() ==> (#[trigger] r@[i]).1@ == commands()[i].1,
{
    vec![
        ("help", "list commands"),
        ("clear", "clear the screen (Ctrl+L)"),
        ("echo <text>", "print text"),
        ("calc <expr>", "evaluate math, e.g. calc (1+2)*sqrt(9)"),
        ("=<expr>", "shorthand for calc"),
        ("hex|dec|bin|oct <n>", "convert an integer between bases"),
        ("b64 enc|dec <text>", "base64 encode / decode"),
        ("sha256 <text>", "SHA-256 hex digest"),
        ("upper|lower|rev <text>", "transform text"),
        ("wc <text>", "count chars / words"),
        ("history", "show command history"),
        ("about", "about this terminal"),
    ]
}

/// A text filled up with spaces on the right.
pub open spec fn padded_right(s: Seq<char>, n: int) -> Seq<char> {
    s + run_of(' ', max(n - s.len(), 0))
}

/// A text filled up with spaces on the left.
pub open spec fn padded_left(s: Seq<char>, n: int) -> Seq<char> {
    run_of(' ', max(n - s.len(), 0)) + s
}

fn fill(s: &str, n: usize) -> (r: String)
    ensures
        r@ == run_of(' ', max(n - s@.len(), 0)),
{
    let len: usize = char_count(s);
    let k: usize = if len < n {
        n - len
    } else {
        0
    };
    repeat_char(' ', k)
}

/// A command's line in the list.
pub open spec fn help_line(c: (Seq<char>, Seq<char>)) -> OutV {
    ("  "@ + padded_right(c.0, 22) + " "@ + c.1, MUTED)
}

pub open spec fn help_of() -> ResponseV {
    ResponseV {
        lines: seq![("commands:"@, ACCENT)] + Seq::new(
            commands().len(),
            |i: int| help_line(commands()[i]),
        ) + seq![("history: ↑/↓   cursor: ←/→ Home/End   Ctrl+U clear line"@, DIM)],
        effect: EffectV::Nothing,
    }
}

fn help() -> (r: Response)
    ensures
        r@ == help_of(),
{
    let mut lines: Vec<OutLine> = Vec::new();
    lines.push(OutLine { text: "commands:".to_string(), color: ACCENT });
    let list = command_list();
    let ghost rows = Seq::new(commands().len(), |i: int| help_line(commands()[i]));
    let ghost head = seq![("commands:"@, ACCENT)];
    let mut i: usize = 0;
    assert(outs(lines@) =~= head + rows.take(0));
    while i < list.len()
        invariant
            i <= list@.len() == commands().len(),
            forall|k: int| 0 <= k < list@.len() ==> (#[trigger] list@[k]).0@ == commands()[k].0,
            forall|k: int| 0 <= k < list@.len() ==> (#[trigger] list@[k]).1@ == commands()[k].1,
            rows == Seq::new(commands().len(), |i: int| help_line(commands()[i])),
            head == seq![("commands:"@, ACCENT)],
            outs(lines@) == head + rows.take(i as int),
        decreases list@.len() - i,
    {
        let (name, what) = list[i];
        let a = cat("  ", name);
        let b = cat(a.as_str(), fill(name, 22).as_str());
        let c = cat(b.as_str(), " ");
        let text = cat(c.as_str(), what);
        let ghost done = outs(lines@);
        proof {
            assert(text@ =~= help_line(commands()[i as int]).0);
        }
        lines.push(OutLine { text, color: MUTED });
        proof {
            assert(outs(lines@) =~= done.push(rows[i as int]));
            assert(head + rows.take(i + 1) =~= (head + rows.take(i as int)).push(rows[i as int]));
        }
        i = i + 1;
    }
    let ghost done = outs(lines@);
    assert(rows.take(i as int) =~= rows);
    lines.push(
        OutLine {
            text: "history: ↑/↓   cursor: ←/→ Home/End   Ctrl+U clear line".to_string(),
            color: DIM,
        },
    );
    let r = Response { lines, effect: Effect::Nothing };
    assert(r@ =~= help_of());
    r
}

pub open spec fn about_of() -> ResponseV {
    ResponseV {
        lines: seq![
            ("Terminal — ratatui inside a WASM plugin"@, ACCENT),
            ("full text input + touch scrolling, hot-reloadable on device"@, MUTED),
            ("the same pattern an SSH client builds on (sockets via host ops)"@, DIM),
        ],
        effect: EffectV::Nothing,
    }
}

fn about() -> (r: Response)
    ensures
        r@ == about_of(),
{
    let mut lines: Vec<OutLine> = Vec::new();
    lines.push(
        OutLine { text: "Terminal — ratatui inside a WASM plugin".to_string(), color: ACCENT },
    );
    lines.push(
        OutLine {
            text: "full text input + touch scrolling, hot-reloadable on device".to_string(),
            color: MUTED,
        },
    );
    lines.push(
        OutLine {
            text: "the same pattern an SSH client builds on (sockets via host ops)".to_string(),
            color: DIM,
        },
    );
    let r = Response { lines, effect: Effect::Nothing };
    assert(r@ =~= about_of());
    r
}

/// An expression: a program to run, or why there is none.
pub open spec fn calc_of(expr: Seq<char>) -> ResponseV {
    if trim_of(expr).len() == 0 {
        ResponseV::fails("usage: calc <expression>"@)
    } else {
        match program_of(expr) {
            Ok(v) => ResponseV::does(EffectV::Compute(v)),
            Err(e) => match e.told() {
                Some(s) => ResponseV::fails(s),
                None => ResponseV::does(EffectV::Misplaced(quoted_number(e))),
            },
        }
    }
}

/// The number an error quotes.
pub open spec fn quoted_number(e: CalcErrV) -> Seq<char> {
    match e {
        CalcErrV::Trailing(TokV::Num(s)) => s,
        CalcErrV::NoValue(Some(TokV::Num(s))) => s,
        _ => Seq::empty(),
    }
}

fn number_in(e: &CalcError) -> (r: String)
    ensures
        r@ == quoted_number(e@),
{
    match e {
        CalcError::Trailing(Tok::Num(s)) => s.clone(),
        CalcError::NoValue(Some(Tok::Num(s))) => s.clone(),
        _ => {
            let r = String::new();
            assert(r@ =~= Seq::<char>::empty());
            r
        },
    }
}

fn calc(expr: &str) -> (r: Response)
    ensures
        r@ == calc_of(expr@),
{
    if char_count(trim(expr).as_str()) == 0 {
        return Response::err("usage: calc <expression>");
    }
    match parse(expr) {
        Ok(v) => Response::act(Effect::Compute(v)),
        Err(e) => match e.message() {
            Some(s) => Response::err(s.as_str()),
            None => Response::act(Effect::Misplaced(number_in(&e))),
        },
    }
}

pub open spec fn convert_of(rest: Seq<char>, base: int) -> ResponseV {
    if rest.len() == 0 {
        ResponseV::fails("usage: hex|dec|bin|oct <number>"@)
    } else {
        match int_of(rest) {
            Ok(n) => ResponseV::says(converted(n, base), SUCCESS),
            Err(s) => ResponseV::fails("`"@ + s + "` is not an integer"@),
        }
    }
}

fn convert(rest: &str, base: u32) -> (r: Response)
    ensures
        r@ == convert_of(rest@, base as int),
{
    if char_count(rest) == 0 {
        return Response::err("usage: hex|dec|bin|oct <number>");
    }
    match parse_int(rest) {
        Ok(n) => Response::text(convert_text(n, base), SUCCESS),
        Err(s) => Response::err(cat(cat("`", s.as_str()).as_str(), "` is not an integer").as_str()),
    }
}

/// Char of the base64 alphabet.
pub open spec fn b64_char(v: int) -> char {
    if v < 26 {
        ('A' as u32 + v) as char
    } else if v < 52 {
        ('a' as u32 + (v - 26)) as char
    } else if v < 62 {
        ('0' as u32 + (v - 52)) as char
    } else if v == 62 {
        '+'
    } else {
        '/'
    }
}

/// Byte `i`, 0 past the end.
pub open spec fn byte_or_zero(d: Seq<u8>, i: int) -> int {
    if 0 <= i < d.len() {
        d[i] as int
    } else {
        0
    }
}

/// Bytes in base64: four chars for each three bytes, six bits a char, the last group filled
/// up with `=`.
pub open spec fn b64_text(d: Seq<u8>) -> Seq<char> {
    Seq::new(
        (4 * ((d.len() + 2) / 3)) as nat,
        |i: int|
            {
                let g = 3 * (i / 4);
                let word = byte_or_zero(d, g) * 65536 + byte_or_zero(d, g + 1) * 256
                    + byte_or_zero(d, g + 2);
                if g + i % 4 > d.len() {
                    '='
                } else if i % 4 == 0 {
                    b64_char(word / 262144)
                } else if i % 4 == 1 {
                    b64_char(word / 4096 % 64)
                } else if i % 4 == 2 {
                    b64_char(word / 64 % 64)
                } else {
                    b64_char(word % 64)
                }
            },
    )
}

/// `base64::engine::general_purpose::STANDARD.decode`; `None` is a decoding failure.
pub uninterp spec fn b64_decoding(bytes: Seq<u8>) -> Option<Seq<u8>>;

/// `sha2::Sha256::digest`.
pub uninterp spec fn sha256_of(bytes: Seq<u8>) -> Seq<u8>;

/// `base64::engine::general_purpose::STANDARD.encode`: the standard alphabet with padding.
#[verifier::external_body]
fn b64_encode(data: &[u8]) -> (r: String)
    ensures
        r@ == b64_text(data@),
{
    base64::engine::general_purpose::STANDARD.encode(data)
}

/// `base64::engine::general_purpose::STANDARD.decode`: what was encoded decodes to itself; of
/// other bytes the result depends on the bytes alone.
#[verifier::external_body]
fn b64_decode(bytes: &[u8]) -> (r: Option<Vec<u8>>)
    ensures
        r is Some == b64_decoding(bytes@) is Some,
        r is Some ==> b64_decoding(bytes@) == Some((r->0)@),
        forall|d: Seq<u8>|
            vstd::utf8::encode_utf8(#[trigger] b64_text(d)) == bytes@ ==> r is Some && (r->0)@
                == d,
{
    base64::engine::general_purpose::STANDARD.decode(bytes).ok()
}

/// `sha2::Sha256::digest`: 32 bytes that depend on the data alone.
#[verifier::external_body]
fn sha256_digest(data: &[u8]) -> (r: Vec<u8>)
    ensures
        r@ == sha256_of(data@),
        r@.len() == 32,
{
    sha2::Sha256::digest(data).to_vec()
}

/// First whitespace at or after `i`.
pub open spec fn word_end(s: Seq<char>, i: int) -> int
    decreases s.len() - i,
{
    if 0 <= i < s.len() && !is_space(s[i]) {
        word_end(s, i + 1)
    } else {
        i
    }
}

fn find_space(s: &Vec<char>) -> (k: usize)
    ensures
        k == word_end(s@, 0),
        k <= s@.len(),
{
    let mut k: usize = 0;
    while k < s.len() && !whitespace(s[k])
        invariant
            k <= s@.len(),
            word_end(s@, 0) == word_end(s@, k as int),
        ensures
            k <= s@.len(),
            k == word_end(s@, 0),
        decreases s@.len() - k,
    {
        k = k + 1;
    }
    k
}

/// What decoded base64 says.
pub open spec fn b64_told(decoded: Option<Seq<u8>>) -> ResponseV {
    match decoded {
        Some(b) => if vstd::utf8::valid_utf8(b) {
            ResponseV::says(vstd::utf8::decode_utf8(b), SUCCESS)
        } else {
            ResponseV::fails("decoded bytes are not valid UTF-8"@)
        },
        None => ResponseV::fails("invalid base64"@),
    }
}

pub open spec fn b64_of(rest: Seq<char>) -> ResponseV {
    let k = word_end(rest, 0);
    if k >= rest.len() {
        ResponseV::fails("usage: b64 enc|dec <text>"@)
    } else {
        let mode = lower(rest.take(k));
        let data = rest.skip(k + 1);
        if mode == "enc"@ || mode == "e"@ {
            ResponseV::says(b64_text(vstd::utf8::encode_utf8(data)), SUCCESS)
        } else if mode == "dec"@ || mode == "d"@ {
            b64_told(b64_decoding(vstd::utf8::encode_utf8(trim_of(data))))
        } else {
            ResponseV::fails("usage: b64 enc|dec <text>"@)
        }
    }
}

/// Tell what decoded base64 says.
pub fn tell_decoded(decoded: Option<Vec<u8>>) -> (r: Response)
    ensures
        r@ == b64_told(
            match decoded {
                Some(b) => Some(b@),
                None => None,
            },
        ),
{
    match decoded {
        Some(b) => match text_of_bytes(b) {
            Some(s) => Response::text(s, SUCCESS),
            None => Response::err("decoded bytes are not valid UTF-8"),
        },
        None => Response::err("invalid base64"),
    }
}

/// Decode base64 with spaces round it. A text that was encoded comes back.
pub fn decode_b64(data: &str) -> (r: Response)
    ensures
        r@ == b64_told(b64_decoding(vstd::utf8::encode_utf8(trim_of(data@)))),
        forall|t: Seq<char>|
            #[trigger] b64_text(vstd::utf8::encode_utf8(t)) == trim_of(data@) ==> r@
                == ResponseV::says(t, SUCCESS),
{
    let t = trim(data);
    let decoded = b64_decode(t.as_str().as_bytes());
    proof {
        assert forall|u: Seq<char>|
            #[trigger] b64_text(vstd::utf8::encode_utf8(u)) == trim_of(data@) implies b64_told(
            b64_decoding(vstd::utf8::encode_utf8(trim_of(data@))),
        ) == ResponseV::says(u, SUCCESS) by {
            vstd::utf8::encode_utf8_valid_utf8(u);
            vstd::utf8::encode_utf8_decode_utf8(u);
        }
    }
    tell_decoded(decoded)
}

fn base64_cmd(rest: &str) -> (r: Response)
    ensures
        r@ == b64_of(rest@),
{
    let v = to_chars(rest);
    let k: usize = find_space(&v);
    if k >= v.len() {
        return Response::err("usage: b64 enc|dec <text>");
    }
    let mode = range_string(v.as_slice(), 0, k).as_str().to_lowercase();
    let data = range_string(v.as_slice(), k + 1, v.len());
    proof {
        assert(rest@.subrange(0, k as int) =~= rest@.take(k as int));
        assert(data@ =~= rest@.skip(k + 1));
    }
    if str_same(mode.as_str(), "enc") || str_same(mode.as_str(), "e") {
        Response::text(b64_encode(data.as_str().as_bytes()), SUCCESS)
    } else if str_same(mode.as_str(), "dec") || str_same(mode.as_str(), "d") {
        decode_b64(data.as_str())
    } else {
        Response::err("usage: b64 enc|dec <text>")
    }
}

/// Bytes in hexadecimal, two digits each.
pub open spec fn hex_text(b: Seq<u8>) -> Seq<char>
    decreases b.len(),
{
    if b.len() == 0 {
        Seq::empty()
    } else {
        hex_text(b.drop_last()).push(digit_char(b.last() as int / 16)).push(
            digit_char(b.last() as int % 16),
        )
    }
}

/// Write bytes in hexadecimal.
pub fn to_hex(b: &Vec<u8>) -> (r: String)
    ensures
        r@ == hex_text(b@),
{
    let mut s = String::new();
    let mut i: usize = 0;
    proof {
        assert(b@.take(0) =~= Seq::empty());
        assert(s@ =~= Seq::<char>::empty());
    }
    while i < b.len()
        invariant
            i <= b@.len(),
            s@ == hex_text(b@.take(i as int)),
        decreases b@.len() - i,
    {
        let x: u32 = b[i] as u32;
        s.push(digit_text(x / 16));
        s.push(digit_text(x % 16));
        proof {
            let t = b@.take(i + 1);
            assert(t.drop_last() =~= b@.take(i as int));
            assert(t.last() == b@[i as int]);
        }
        i = i + 1;
    }
    assert(b@.take(i as int) =~= b@);
    s
}

pub open spec fn sha_of(rest: Seq<char>) -> ResponseV {
    if rest.len() == 0 {
        ResponseV::fails("usage: sha256 <text>"@)
    } else {
        ResponseV::says(hex_text(sha256_of(vstd::utf8::encode_utf8(rest))), SUCCESS)
    }
}

fn sha256(rest: &str) -> (r: Response)
    ensures
        r@ == sha_of(rest@),
{
    if char_count(rest) == 0 {
        return Response::err("usage: sha256 <text>");
    }
    let digest = sha256_digest(rest.as_bytes());
    Response::text(to_hex(&digest), SUCCESS)
}

/// A word begins at `i`.
pub open spec fn word_starts(s: Seq<char>, i: int) -> bool {
    !is_space(s[i]) && (i == 0 || is_space(s[i - 1]))
}

/// Words that begin before `n`.
pub open spec fn words(s: Seq<char>, n: int) -> nat
    decreases n,
{
    if n <= 0 {
        0
    } else {
        words(s, n - 1) + if word_starts(s, n - 1) {
            1nat
        } else {
            0
        }
    }
}

pub open spec fn wc_of(rest: Seq<char>) -> ResponseV {
    ResponseV::says(
        decimal_of(words(rest, rest.len() as int)) + " words, "@ + decimal_of(rest.len())
            + " chars"@,
        SUCCESS,
    )
}

fn wc(rest: &str) -> (r: Response)
    ensures
        r@ == wc_of(rest@),
{
    let v = to_chars(rest);
    let n: usize = v.len();
    let mut count: usize = 0;
    let mut i: usize = 0;
    while i < n
        invariant
            v@ == rest@,
            n == v@.len(),
            i <= n,
            count <= i,
            count == words(rest@, i as int),
        decreases n - i,
    {
        if !whitespace(v[i]) && (i == 0 || whitespace(v[i - 1])) {
            count = count + 1;
        }
        i = i + 1;
    }
    let a = cat(decimal(count).as_str(), " words, ");
    let b = cat(a.as_str(), decimal(n).as_str());
    Response::text(cat(b.as_str(), " chars"), SUCCESS)
}

/// A line of the history with its number.
pub open spec fn history_line(i: int, h: Seq<char>) -> OutV {
    (padded_left(decimal_of((i + 1) as nat), 4) + "  "@ + h, MUTED)
}

pub open spec fn history_of(history: Seq<Seq<char>>) -> ResponseV {
    if history.len() == 0 {
        ResponseV::says("(no history yet)"@, DIM)
    } else {
        ResponseV {
            lines: Seq::new(history.len(), |i: int| history_line(i, history[i])),
            effect: EffectV::Nothing,
        }
    }
}

fn history_cmd(history: &[String]) -> (r: Response)
    ensures
        r@ == history_of(texts(history@)),
{
    let n: usize = history.len();
    if n == 0 {
        return Response::text("(no history yet)".to_string(), DIM);
    }
    let ghost want = history_of(texts(history@)).lines;
    let mut lines: Vec<OutLine> = Vec::new();
    let mut i: usize = 0;
    while i < n
        invariant
            n == history@.len(),
            n > 0,
            i <= n,
            want == history_of(texts(history@)).lines,
            outs(lines@) =~= want.take(i as int),
        decreases n - i,
    {
        let ghost done = outs(lines@);
        let num = decimal(i + 1);
        let a = cat(fill(num.as_str(), 4).as_str(), num.as_str());
        let b = cat(a.as_str(), "  ");
        let text = cat(b.as_str(), history[i].as_str());
        assert((text@, MUTED) == want[i as int]);
        lines.push(OutLine { text, color: MUTED });
        assert(outs(lines@) =~= done.push(want[i as int]));
        i = i + 1;
    }
    let r = Response { lines, effect: Effect::Nothing };
    assert(r@ =~= history_of(texts(history@)));
    r
}

/// A command with its argument carried out.
pub open spec fn command_of(cmd: Seq<char>, rest: Seq<char>, history: Seq<Seq<char>>) -> ResponseV {
    if cmd == "help"@ || cmd == "?"@ {
        help_of()
    } else if cmd == "clear"@ || cmd == "cls"@ {
        ResponseV::does(EffectV::Clear)
    } else if cmd == "echo"@ {
        ResponseV::says(rest, TEXT)
    } else if cmd == "calc"@ {
        calc_of(rest)
    } else if cmd == "hex"@ {
        convert_of(rest, 16)
    } else if cmd == "dec"@ {
        convert_of(rest, 10)
    } else if cmd == "bin"@ {
        convert_of(rest, 2)
    } else if cmd == "oct"@ {
        convert_of(rest, 8)
    } else if cmd == "b64"@ {
        b64_of(rest)
    } else if cmd == "sha256"@ || cmd == "sha"@ {
        sha_of(rest)
    } else if cmd == "upper"@ {
        ResponseV::says(upper(rest), TEXT)
    } else if cmd == "lower"@ {
        ResponseV::says(lower(rest), TEXT)
    } else if cmd == "rev"@ {
        ResponseV::says(rest.reverse(), TEXT)
    } else if cmd == "wc"@ {
        wc_of(rest)
    } else if cmd == "history"@ {
        history_of(history)
    } else if cmd == "about"@ || cmd == "version"@ {
        about_of()
    } else {
        ResponseV::fails("unknown command `"@ + cmd + "` — type `help`"@)
    }
}

/// A line carried out: blank ones do nothing, `=` begins an expression, else the first word is
/// the command and the rest its argument.
#[verifier::opaque]
pub open spec fn run_of_line(input: Seq<char>, history: Seq<Seq<char>>) -> ResponseV {
    let t = trim_of(input);
    if t.len() == 0 {
        ResponseV::does(EffectV::Nothing)
    } else if t[0] == '=' {
        calc_of(t.skip(1))
    } else {
        let k = word_end(t, 0);
        let rest = if k < t.len() {
            trim_of(t.skip(k + 1))
        } else {
            Seq::empty()
        };
        command_of(lower(t.take(k)), rest, history)
    }
}

fn reversed(s: &str) -> (r: String)
    ensures
        r@ == s@.reverse(),
{
    let v = to_chars(s);
    let n: usize = v.len();
    let mut out: Vec<char> = Vec::new();
    let mut i: usize = 0;
    while i < n
        invariant
            v@ == s@,
            n == v@.len(),
            i <= n,
            out@ =~= s@.reverse().take(i as int),
        decreases n - i,
    {
        out.push(v[n - 1 - i]);
        i = i + 1;
    }
    assert(out@ =~= s@.reverse());
    from_chars(out.as_slice())
}

fn is(cmd: &String, name: &str) -> (r: bool)
    ensures
        r == (cmd@ == name@),
{
    str_same(cmd.as_str(), name)
}

fn command(cmd: &String, rest: &String, history: &[String]) -> (r: Response)
    ensures
        r@ == command_of(cmd@, rest@, texts(history@)),
{
    let arg = rest.as_str();
    if is(cmd, "help") || is(cmd, "?") {
        help()
    } else if is(cmd, "clear") || is(cmd, "cls") {
        Response::act(Effect::Clear)
    } else if is(cmd, "echo") {
        Response::text(rest.clone(), TEXT)
    } else if is(cmd, "calc") {
        calc(arg)
    } else if is(cmd, "hex") {
        convert(arg, 16)
    } else if is(cmd, "dec") {
        convert(arg, 10)
    } else if is(cmd, "bin") {
        convert(arg, 2)
    } else if is(cmd, "oct") {
        convert(arg, 8)
    } else if is(cmd, "b64") {
        base64_cmd(arg)
    } else if is(cmd, "sha256") || is(cmd, "sha") {
        sha256(arg)
    } else if is(cmd, "upper") {
        Response::text(arg.to_uppercase(), TEXT)
    } else if is(cmd, "lower") {
        Response::text(arg.to_lowercase(), TEXT)
    } else if is(cmd, "rev") {
        Response::text(reversed(arg), TEXT)
    } else if is(cmd, "wc") {
        wc(arg)
    } else if is(cmd, "history") {
        history_cmd(history)
    } else if is(cmd, "about") || is(cmd, "version") {
        about()
    } else {
        let head = cat("unknown command `", cmd.as_str());
        Response::err(cat(head.as_str(), "` — type `help`").as_str())
    }
}

/// Carry out a line.
pub fn run(input: &str, history: &[String]) -> (r: Response)
    ensures
        r@ == run_of_line(input@, texts(history@)),
{
    proof {
        reveal(run_of_line);
    }
    let t = to_chars(trim(input).as_str());
    let n: usize = t.len();
    if n == 0 {
        return Response::act(Effect::Nothing);
    }
    if t[0] == '=' {
        let expr = range_string(t.as_slice(), 1, n);
        assert(expr@ =~= trim_of(input@).skip(1));
        return calc(expr.as_str());
    }
    let k: usize = find_space(&t);
    let word = range_string(t.as_slice(), 0, k);
    assert(word@ =~= trim_of(input@).take(k as int));
    let cmd = word.as_str().to_lowercase();
    let rest = if k < n {
        let tail = range_string(t.as_slice(), k + 1, n);
        assert(tail@ =~= trim_of(input@).skip(k + 1));
        trim(tail.as_str())
    } else {
        let none = String::new();
        assert(none@ =~= Seq::<char>::empty());
        none
    };
    command(&cmd, &rest, history)
}

} // verus!
