//! Per-line colour spans of Rust source, cached by buffer name and version. Block comments and
//! raw strings carry over from line to line.

use vstd::prelude::*;

use crate::rvim::buffer::TextBuffer;
use crate::rvim::fs::str_same;
use crate::rvim::lexer::{lex_line, lexed_lines, line_spans, state_before, LexState, LexV};
use crate::rvim::theme::Rgb;
use crate::text::{texts, to_chars};

verus! {

/// A run of chars `[start, start+len)` (char indices) in one line.
#[derive(Clone, Copy, Debug, PartialEq, Eq, Structural)]
pub struct HlSpan {
    pub start: usize,
    pub len: usize,
    pub color: Rgb,
}

pub struct Highlighter {
    cache_key: Option<(String, u64)>,
    lines: Vec<Vec<HlSpan>>,
}

/// The spans of each line.
pub type Spans = Seq<Seq<HlSpan>>;

/// Model of the highlighter: the buffer it has spans for, and the spans.
#[verifier::ext_equal]
pub struct HlV {
    pub key: Option<(Seq<char>, u64)>,
    pub lines: Spans,
}

pub open spec fn spans_of(v: Seq<Vec<HlSpan>>) -> Spans {
    Seq::new(v.len(), |i: int| v[i]@)
}

impl View for Highlighter {
    type V = HlV;

    closed spec fn view(&self) -> HlV {
        HlV {
            key: match self.cache_key {
                Some((n, v)) => Some((n@, v)),
                None => None,
            },
            lines: spans_of(self.lines@),
        }
    }
}

/// No spans on any of `n` lines.
pub open spec fn plain(n: nat) -> Spans {
    Seq::new(n, |i: int| Seq::empty())
}

impl HlV {
    pub open spec fn fresh() -> HlV {
        HlV { key: None, lines: Seq::empty() }
    }

    /// The spans of a buffer at hand: those of Rust source, or none on any line.
    pub open spec fn lexed(self, name: Seq<char>, version: u64, lines: Seq<Seq<char>>) -> HlV {
        if self.key == Some((name, version)) {
            self
        } else {
            HlV {
                key: Some((name, version)),
                lines: if is_rust(name) {
                    lexed_lines(lines, LexV::Code)
                } else {
                    plain(lines.len())
                },
            }
        }
    }
}

/// The name of a Rust source file.
pub open spec fn is_rust(name: Seq<char>) -> bool {
    name.len() >= 3 && name.skip(name.len() - 3) == seq!['.', 'r', 's']
}

pub fn rust_name(name: &str) -> (r: bool)
    ensures
        r == is_rust(name@),
{
    let v = to_chars(name);
    let n: usize = v.len();
    if n < 3 {
        return false;
    }
    let r = v[n - 3] == '.' && v[n - 2] == 'r' && v[n - 1] == 's';
    proof {
        let tail = name@.skip(n - 3);
        assert(tail.len() == 3 && tail[0] == v@[n - 3] && tail[1] == v@[n - 2] && tail[2] == v@[n
            - 1]);
        if r {
            assert(tail =~= seq!['.', 'r', 's']);
        }
    }
    r
}

fn no_spans(n: usize) -> (r: Vec<Vec<HlSpan>>)
    ensures
        spans_of(r@) == plain(n as nat),
{
    let mut out: Vec<Vec<HlSpan>> = Vec::new();
    let mut i: usize = 0;
    while i < n
        invariant
            i <= n,
            spans_of(out@) == plain(i as nat),
        decreases n - i,
    {
        let ghost done = spans_of(out@);
        let line: Vec<HlSpan> = Vec::new();
        assert(line@ =~= Seq::<HlSpan>::empty());
        out.push(line);
        assert(spans_of(out@) =~= done.push(Seq::empty()));
        assert(plain((i + 1) as nat) =~= done.push(Seq::empty()));
        i = i + 1;
    }
    out
}

/// Lex all lines of a Rust source file into color spans.
pub fn lex_rust(lines: &[String]) -> (r: Vec<Vec<HlSpan>>)
    ensures
        spans_of(r@) == lexed_lines(texts(lines@), LexV::Code),
{
    let ghost ls = texts(lines@);
    let n: usize = lines.len();
    let mut out: Vec<Vec<HlSpan>> = Vec::new();
    let mut now = LexState::Code;
    let mut i: usize = 0;
    while i < n
        invariant
            n == lines@.len(),
            ls == texts(lines@),
            i <= n,
            i == out@.len(),
            now@ == state_before(ls, LexV::Code, i as int),
            now matches LexState::Comment(d) ==> d <= i * usize::MAX,
            forall|k: int|
                0 <= k < i ==> (#[trigger] out@[k])@ == line_spans(
                    ls[k],
                    state_before(ls, LexV::Code, k),
                ),
        decreases n - i,
    {
        let chars = to_chars(lines[i].as_str());
        let m: usize = chars.len();
        assert(chars@ == ls[i as int]);
        proof {
            assert(m <= usize::MAX);
            assert(i * usize::MAX + usize::MAX == (i + 1) * usize::MAX) by (nonlinear_arith);
            assert((i + 1) * usize::MAX <= u128::MAX) by (nonlinear_arith)
                requires
                    0 <= i < usize::MAX,
            ;
        }
        let (spans, next) = lex_line(chars.as_slice(), now);
        out.push(spans);
        now = next;
        i = i + 1;
    }
    assert(spans_of(out@) =~= lexed_lines(ls, LexV::Code));
    out
}

impl Highlighter {
    pub fn new() -> (r: Self)
        ensures
            r@ == HlV::fresh(),
    {
        let r = Highlighter { cache_key: None, lines: Vec::new() };
        assert(r@.lines =~= Seq::empty());
        r
    }

    /// Spans per line for `buf`, relexed only when (name, version) changed.
    /// Non-`.rs` names get no highlighting (empty span lists).
    pub fn spans(&mut self, name: &str, buf: &TextBuffer) -> (r: &[Vec<HlSpan>])
        ensures
            final(self)@ == old(self)@.lexed(name@, buf@.version, buf@.lines),
            spans_of(r@) == final(self)@.lines,
    {
        let same = match &self.cache_key {
            Some(key) => str_same(key.0.as_str(), name) && key.1 == buf.version(),
            None => false,
        };
        if !same {
            self.lines = if rust_name(name) {
                lex_rust(buf.lines())
            } else {
                no_spans(buf.line_count())
            };
            self.cache_key = Some((name.to_string(), buf.version()));
        }
        self.lines.as_slice()
    }
}

} // verus!
