//! A small recursive-descent parser for the `calc` command.
//! Supports + - * / %, ^ (right-assoc), unary minus, parentheses, decimal numbers, the
//! constants `pi`/`e`/`tau`, and functions such as sqrt, abs, ln, log, log2, sin, cos, tan,
//! floor, ceil, round and exp. An expression becomes a program for a stack machine.

use vstd::prelude::*;

use crate::rvim::fs::str_same;
use crate::text::{is_space, range_string, to_chars, whitespace};
use crate::unicode::{ascii_digit, ascii_lower, ascii_upper, lower};

verus! {

/// A piece of the input.
pub enum Tok {
    /// A number, as it was written.
    Num(String),
    Ident(String),
    Op(char),
    LParen,
    RParen,
}

/// Model of a token.
pub enum TokV {
    Num(Seq<char>),
    Ident(Seq<char>),
    Op(char),
    LParen,
    RParen,
}

impl View for Tok {
    type V = TokV;

    open spec fn view(&self) -> TokV {
        match *self {
            Tok::Num(s) => TokV::Num(s@),
            Tok::Ident(s) => TokV::Ident(s@),
            Tok::Op(c) => TokV::Op(c),
            Tok::LParen => TokV::LParen,
            Tok::RParen => TokV::RParen,
        }
    }
}

impl Tok {
    fn copy(&self) -> (r: Tok)
        ensures
            r@ == self@,
    {
        match self {
            Tok::Num(s) => Tok::Num(s.clone()),
            Tok::Ident(s) => Tok::Ident(s.clone()),
            Tok::Op(c) => Tok::Op(*c),
            Tok::LParen => Tok::LParen,
            Tok::RParen => Tok::RParen,
        }
    }
}

#[derive(Clone, Copy, Debug, PartialEq, Eq, Structural)]
pub enum Constant {
    Pi,
    E,
    Tau,
}

#[derive(Clone, Copy, Debug, PartialEq, Eq, Structural)]
pub enum Func {
    Sqrt,
    Abs,
    Ln,
    Log10,
    Log2,
    Sin,
    Cos,
    Tan,
    Floor,
    Ceil,
    Round,
    Exp,
}

/// One step of a program for a stack of numbers.
pub enum Step {
    /// Push a number, as it was written.
    Num(String),
    Const(Constant),
    /// Negate the top.
    Neg,
    /// Combine the two topmost, the lower one on the left.
    Bin(char),
    /// Apply a function to the top.
    Call(Func),
}

/// Model of a step.
pub enum StepV {
    Num(Seq<char>),
    Const(Constant),
    Neg,
    Bin(char),
    Call(Func),
}

impl View for Step {
    type V = StepV;

    open spec fn view(&self) -> StepV {
        match *self {
            Step::Num(s) => StepV::Num(s@),
            Step::Const(c) => StepV::Const(c),
            Step::Neg => StepV::Neg,
            Step::Bin(c) => StepV::Bin(c),
            Step::Call(f) => StepV::Call(f),
        }
    }
}

/// Why an expression is refused.
pub enum CalcError {
    BadNumber(String),
    BadChar(char),
    /// Something is left after the expression.
    Trailing(Tok),
    /// A value was expected; what stands there, if anything.
    NoValue(Option<Tok>),
    /// A closing parenthesis was expected.
    NoParen,
    UnknownName(String),
    UnknownFunction(String),
}

/// Model of an error.
pub enum CalcErrV {
    BadNumber(Seq<char>),
    BadChar(char),
    Trailing(TokV),
    NoValue(Option<TokV>),
    NoParen,
    UnknownName(Seq<char>),
    UnknownFunction(Seq<char>),
}

impl View for CalcError {
    type V = CalcErrV;

    open spec fn view(&self) -> CalcErrV {
        match *self {
            CalcError::BadNumber(s) => CalcErrV::BadNumber(s@),
            CalcError::BadChar(c) => CalcErrV::BadChar(c),
            CalcError::Trailing(t) => CalcErrV::Trailing(t@),
            CalcError::NoValue(t) => CalcErrV::NoValue(
                match t {
                    Some(t) => Some(t@),
                    None => None,
                },
            ),
            CalcError::NoParen => CalcErrV::NoParen,
            CalcError::UnknownName(s) => CalcErrV::UnknownName(s@),
            CalcError::UnknownFunction(s) => CalcErrV::UnknownFunction(s@),
        }
    }
}

pub open spec fn toks(s: Seq<Tok>) -> Seq<TokV> {
    Seq::new(s.len(), |i: int| s[i]@)
}

pub open spec fn steps(s: Seq<Step>) -> Seq<StepV> {
    Seq::new(s.len(), |i: int| s[i]@)
}

pub open spec fn num_char(c: char) -> bool {
    ascii_digit(c) || c == '.'
}

pub open spec fn name_start(c: char) -> bool {
    ascii_lower(c) || ascii_upper(c)
}

pub open spec fn name_char(c: char) -> bool {
    name_start(c) || ascii_digit(c)
}

pub open spec fn op_char(c: char) -> bool {
    c == '+' || c == '-' || c == '*' || c == '/' || c == '%' || c == '^'
}

/// End of the number that has begun before `i`.
pub open spec fn num_end(s: Seq<char>, i: int) -> int
    decreases s.len() - i,
{
    if 0 <= i < s.len() && num_char(s[i]) {
        num_end(s, i + 1)
    } else {
        i
    }
}

/// End of the name that has begun before `i`.
pub open spec fn name_end(s: Seq<char>, i: int) -> int
    decreases s.len() - i,
{
    if 0 <= i < s.len() && name_char(s[i]) {
        name_end(s, i + 1)
    } else {
        i
    }
}

/// Digits and points can be read as a number: at least one digit, at most one point.
pub open spec fn number_ok(s: Seq<char>) -> bool {
    &&& exists|i: int| 0 <= i < s.len() && ascii_digit(#[trigger] s[i])
    &&& forall|i: int, j: int| 0 <= i < j < s.len() && s[i] == '.' ==> s[j] != '.'
}

pub type Tokens = Result<Seq<TokV>, CalcErrV>;

/// A token put before others, unless these hold an error.
pub open spec fn led(t: TokV, r: Tokens) -> Tokens {
    match r {
        Ok(rest) => Ok(seq![t] + rest),
        Err(e) => Err(e),
    }
}

/// The tokens of the input from `i` on, or the first error in it.
pub open spec fn tokens_from(s: Seq<char>, i: int) -> Tokens
    decreases s.len() - i,
{
    if i < 0 || i >= s.len() {
        Ok(Seq::empty())
    } else {
        let c = s[i];
        if is_space(c) {
            tokens_from(s, i + 1)
        } else if num_char(c) {
            let j = num_end(s, i);
            if j <= i || j > s.len() {
                Err(CalcErrV::BadChar(c))
            } else {
                let text = s.subrange(i, j);
                if number_ok(text) {
                    led(TokV::Num(text), tokens_from(s, j))
                } else {
                    Err(CalcErrV::BadNumber(text))
                }
            }
        } else if name_start(c) {
            let j = name_end(s, i);
            if j <= i || j > s.len() {
                Err(CalcErrV::BadChar(c))
            } else {
                led(TokV::Ident(lower(s.subrange(i, j))), tokens_from(s, j))
            }
        } else if op_char(c) {
            led(TokV::Op(c), tokens_from(s, i + 1))
        } else if c == '(' {
            led(TokV::LParen, tokens_from(s, i + 1))
        } else if c == ')' {
            led(TokV::RParen, tokens_from(s, i + 1))
        } else {
            Err(CalcErrV::BadChar(c))
        }
    }
}

fn scan_num(s: &Vec<char>, i: usize) -> (j: usize)
    requires
        i < s@.len(),
        num_char(s@[i as int]),
    ensures
        j == num_end(s@, i as int),
        i < j <= s@.len(),
{
    let mut j: usize = i;
    while j < s.len() && (('0' <= s[j] && s[j] <= '9') || s[j] == '.')
        invariant
            i <= j <= s@.len(),
            num_end(s@, i as int) == num_end(s@, j as int),
        ensures
            i <= j <= s@.len(),
            j == num_end(s@, i as int),
        decreases s@.len() - j,
    {
        j = j + 1;
    }
    proof {
        lemma_num_end(s@, i + 1);
    }
    j
}

proof fn lemma_num_end(s: Seq<char>, i: int)
    requires
        0 <= i <= s.len(),
    ensures
        i <= num_end(s, i) <= s.len(),
    decreases s.len() - i,
{
    if i < s.len() && num_char(s[i]) {
        lemma_num_end(s, i + 1);
    }
}

fn scan_name(s: &Vec<char>, i: usize) -> (j: usize)
    requires
        i < s@.len(),
        name_char(s@[i as int]),
    ensures
        j == name_end(s@, i as int),
        i < j <= s@.len(),
{
    let mut j: usize = i;
    while j < s.len() && (('a' <= s[j] && s[j] <= 'z') || ('A' <= s[j] && s[j] <= 'Z') || ('0'
        <= s[j] && s[j] <= '9'))
        invariant
            i <= j <= s@.len(),
            name_end(s@, i as int) == name_end(s@, j as int),
        ensures
            i <= j <= s@.len(),
            j == name_end(s@, i as int),
        decreases s@.len() - j,
    {
        j = j + 1;
    }
    proof {
        lemma_name_end(s@, i + 1);
    }
    j
}

proof fn lemma_name_end(s: Seq<char>, i: int)
    requires
        0 <= i <= s.len(),
    ensures
        i <= name_end(s, i) <= s.len(),
    decreases s.len() - i,
{
    if i < s.len() && name_char(s[i]) {
        lemma_name_end(s, i + 1);
    }
}

fn readable(s: &Vec<char>, i: usize, j: usize) -> (r: bool)
    requires
        i <= j <= s@.len(),
    ensures
        r == number_ok(s@.subrange(i as int, j as int)),
{
    let ghost t = s@.subrange(i as int, j as int);
    let mut digit = false;
    let mut point = false;
    let mut k: usize = i;
    while k < j
        invariant
            i <= k <= j <= s@.len(),
            t == s@.subrange(i as int, j as int),
            digit == exists|a: int| 0 <= a < k - i && ascii_digit(#[trigger] t[a]),
            point == exists|a: int| 0 <= a < k - i && #[trigger] t[a] == '.',
            forall|a: int, b: int| 0 <= a < b < k - i && t[a] == '.' ==> t[b] != '.',
        decreases j - k,
    {
        let c = s[k];
        assert(t[k - i] == c);
        if '0' <= c && c <= '9' {
            assert(ascii_digit(t[k - i]));
            digit = true;
        } else if c == '.' {
            if point {
                let ghost a = choose|a: int| 0 <= a < k - i && #[trigger] t[a] == '.';
                assert(t[a] == '.' && t[k - i] == '.');
                return false;
            }
            assert(t[k - i] == '.');
            point = true;
        }
        k = k + 1;
    }
    digit
}

/// Tokens put before others, unless these hold an error.
spec fn ahead(out: Seq<TokV>, r: Tokens) -> Tokens {
    match r {
        Ok(rest) => Ok(out + rest),
        Err(e) => Err(e),
    }
}

proof fn lemma_ahead(out: Seq<TokV>, t: TokV, r: Tokens)
    ensures
        ahead(out.push(t), r) == ahead(out, led(t, r)),
{
    match r {
        Ok(rest) => {
            assert(out.push(t) + rest =~= out + (seq![t] + rest));
        },
        Err(e) => {},
    }
}

/// The tokens of an expression.
pub fn tokenize(input: &str) -> (r: Result<Vec<Tok>, CalcError>)
    ensures
        match r {
            Ok(v) => tokens_from(input@, 0) == Tokens::Ok(toks(v@)),
            Err(e) => tokens_from(input@, 0) == Tokens::Err(e@),
        },
{
    let s = to_chars(input);
    let mut out: Vec<Tok> = Vec::new();
    let mut i: usize = 0;
    proof {
        assert(toks(out@) =~= Seq::empty());
        if let Ok(rest) = tokens_from(s@, 0) {
            assert(Seq::empty() + rest =~= rest);
        }
    }
    while i < s.len()
        invariant
            s@ == input@,
            i <= s@.len(),
            tokens_from(s@, 0) == ahead(toks(out@), tokens_from(s@, i as int)),
        decreases s@.len() - i,
    {
        let c = s[i];
        let ghost done = toks(out@);
        if whitespace(c) {
            i = i + 1;
        } else if ('0' <= c && c <= '9') || c == '.' {
            let j = scan_num(&s, i);
            let text = range_string(s.as_slice(), i, j);
            if !readable(&s, i, j) {
                return Err(CalcError::BadNumber(text));
            }
            proof {
                lemma_ahead(done, TokV::Num(text@), tokens_from(s@, j as int));
            }
            out.push(Tok::Num(text));
            assert(toks(out@) =~= done.push(out@.last()@));
            i = j;
        } else if ('a' <= c && c <= 'z') || ('A' <= c && c <= 'Z') {
            let j = scan_name(&s, i);
            let name = range_string(s.as_slice(), i, j).as_str().to_lowercase();
            proof {
                lemma_ahead(done, TokV::Ident(name@), tokens_from(s@, j as int));
            }
            out.push(Tok::Ident(name));
            assert(toks(out@) =~= done.push(out@.last()@));
            i = j;
        } else {
            let t = if c == '+' || c == '-' || c == '*' || c == '/' || c == '%' || c == '^' {
                Tok::Op(c)
            } else if c == '(' {
                Tok::LParen
            } else if c == ')' {
                Tok::RParen
            } else {
                return Err(CalcError::BadChar(c));
            };
            proof {
                lemma_ahead(done, t@, tokens_from(s@, i + 1));
            }
            out.push(t);
            assert(toks(out@) =~= done.push(t@));
            i = i + 1;
        }
    }
    assert(toks(out@) + Seq::<TokV>::empty() =~= toks(out@));
    Ok(out)
}

pub open spec fn constant_of(name: Seq<char>) -> Option<Constant> {
    if name == "pi"@ {
        Some(Constant::Pi)
    } else if name == "e"@ {
        Some(Constant::E)
    } else if name == "tau"@ {
        Some(Constant::Tau)
    } else {
        None
    }
}

pub open spec fn func_of(name: Seq<char>) -> Option<Func> {
    if name == "sqrt"@ {
        Some(Func::Sqrt)
    } else if name == "abs"@ {
        Some(Func::Abs)
    } else if name == "ln"@ {
        Some(Func::Ln)
    } else if name == "log"@ || name == "log10"@ {
        Some(Func::Log10)
    } else if name == "log2"@ {
        Some(Func::Log2)
    } else if name == "sin"@ {
        Some(Func::Sin)
    } else if name == "cos"@ {
        Some(Func::Cos)
    } else if name == "tan"@ {
        Some(Func::Tan)
    } else if name == "floor"@ {
        Some(Func::Floor)
    } else if name == "ceil"@ {
        Some(Func::Ceil)
    } else if name == "round"@ {
        Some(Func::Round)
    } else if name == "exp"@ {
        Some(Func::Exp)
    } else {
        None
    }
}

fn constant(name: &str) -> (r: Option<Constant>)
    ensures
        r == constant_of(name@),
{
    if str_same(name, "pi") {
        Some(Constant::Pi)
    } else if str_same(name, "e") {
        Some(Constant::E)
    } else if str_same(name, "tau") {
        Some(Constant::Tau)
    } else {
        None
    }
}

fn func(name: &str) -> (r: Option<Func>)
    ensures
        r == func_of(name@),
{
    if str_same(name, "sqrt") {
        Some(Func::Sqrt)
    } else if str_same(name, "abs") {
        Some(Func::Abs)
    } else if str_same(name, "ln") {
        Some(Func::Ln)
    } else if str_same(name, "log") || str_same(name, "log10") {
        Some(Func::Log10)
    } else if str_same(name, "log2") {
        Some(Func::Log2)
    } else if str_same(name, "sin") {
        Some(Func::Sin)
    } else if str_same(name, "cos") {
        Some(Func::Cos)
    } else if str_same(name, "tan") {
        Some(Func::Tan)
    } else if str_same(name, "floor") {
        Some(Func::Floor)
    } else if str_same(name, "ceil") {
        Some(Func::Ceil)
    } else if str_same(name, "round") {
        Some(Func::Round)
    } else if str_same(name, "exp") {
        Some(Func::Exp)
    } else {
        None
    }
}

/// A program and the place after what it was read from, or an error.
pub type Parsed = Result<(Seq<StepV>, int), CalcErrV>;

/// The operator at a place.
pub open spec fn op_at(ts: Seq<TokV>, p: int) -> Option<char> {
    if 0 <= p < ts.len() {
        match ts[p] {
            TokV::Op(c) => Some(c),
            _ => None,
        }
    } else {
        None
    }
}

pub open spec fn closes_at(ts: Seq<TokV>, p: int) -> bool {
    0 <= p < ts.len() && ts[p] is RParen
}

/// The place after something read at `p` lies beyond it, in the tokens.
pub open spec fn on(p: int, q: int, n: nat) -> bool {
    p < q <= n
}

/// Sums: terms joined by `+` and `-`, from left to right.
pub open spec fn expr_at(ts: Seq<TokV>, p: int) -> Parsed
    decreases ts.len() - p, 9int,
{
    match term_at(ts, p) {
        Ok((v, q)) => if on(p, q, ts.len()) {
            more_terms(ts, q, v)
        } else {
            Err(CalcErrV::NoParen)
        },
        Err(e) => Err(e),
    }
}

pub open spec fn more_terms(ts: Seq<TokV>, p: int, v: Seq<StepV>) -> Parsed
    decreases ts.len() - p, 8int,
{
    match op_at(ts, p) {
        Some(c) => if c == '+' || c == '-' {
            match term_at(ts, p + 1) {
                Ok((w, q)) => if on(p + 1, q, ts.len()) {
                    more_terms(ts, q, v + w + seq![StepV::Bin(c)])
                } else {
                    Err(CalcErrV::NoParen)
                },
                Err(e) => Err(e),
            }
        } else {
            Ok((v, p))
        },
        None => Ok((v, p)),
    }
}

/// Products: signed values joined by `*`, `/` and `%`, from left to right.
pub open spec fn term_at(ts: Seq<TokV>, p: int) -> Parsed
    decreases ts.len() - p, 7int,
{
    match unary_at(ts, p) {
        Ok((v, q)) => if on(p, q, ts.len()) {
            more_factors(ts, q, v)
        } else {
            Err(CalcErrV::NoParen)
        },
        Err(e) => Err(e),
    }
}

pub open spec fn more_factors(ts: Seq<TokV>, p: int, v: Seq<StepV>) -> Parsed
    decreases ts.len() - p, 6int,
{
    match op_at(ts, p) {
        Some(c) => if c == '*' || c == '/' || c == '%' {
            match unary_at(ts, p + 1) {
                Ok((w, q)) => if on(p + 1, q, ts.len()) {
                    more_factors(ts, q, v + w + seq![StepV::Bin(c)])
                } else {
                    Err(CalcErrV::NoParen)
                },
                Err(e) => Err(e),
            }
        } else {
            Ok((v, p))
        },
        None => Ok((v, p)),
    }
}

/// Signs, which bind looser than powers.
pub open spec fn unary_at(ts: Seq<TokV>, p: int) -> Parsed
    decreases ts.len() - p, 5int,
{
    if op_at(ts, p) == Some('-') {
        match unary_at(ts, p + 1) {
            Ok((v, q)) => Ok((v + seq![StepV::Neg], q)),
            Err(e) => Err(e),
        }
    } else if op_at(ts, p) == Some('+') {
        unary_at(ts, p + 1)
    } else {
        power_at(ts, p)
    }
}

/// Powers, from right to left; the exponent may have a sign.
pub open spec fn power_at(ts: Seq<TokV>, p: int) -> Parsed
    decreases ts.len() - p, 4int,
{
    match atom_at(ts, p) {
        Ok((v, q)) => if on(p, q, ts.len()) && op_at(ts, q) == Some('^') {
            match unary_at(ts, q + 1) {
                Ok((w, r)) => Ok((v + w + seq![StepV::Bin('^')], r)),
                Err(e) => Err(e),
            }
        } else {
            Ok((v, q))
        },
        Err(e) => Err(e),
    }
}

/// A parenthesized expression, `p` at its first token.
pub open spec fn group_at(ts: Seq<TokV>, p: int) -> Parsed
    decreases ts.len() - p, 10int,
{
    match expr_at(ts, p) {
        Ok((v, q)) => if closes_at(ts, q) {
            Ok((v, q + 1))
        } else {
            Err(CalcErrV::NoParen)
        },
        Err(e) => Err(e),
    }
}

/// A number, a constant, a call, or a parenthesized expression.
pub open spec fn atom_at(ts: Seq<TokV>, p: int) -> Parsed
    decreases ts.len() - p, 3int,
{
    if p < 0 || p >= ts.len() {
        Err(CalcErrV::NoValue(None))
    } else {
        match ts[p] {
            TokV::Num(s) => Ok((seq![StepV::Num(s)], p + 1)),
            TokV::LParen => group_at(ts, p + 1),
            TokV::Ident(name) => match constant_of(name) {
                Some(c) => Ok((seq![StepV::Const(c)], p + 1)),
                None => if p + 1 < ts.len() && ts[p + 1] is LParen {
                    match group_at(ts, p + 2) {
                        Ok((v, q)) => match func_of(name) {
                            Some(f) => Ok((v + seq![StepV::Call(f)], q)),
                            None => Err(CalcErrV::UnknownFunction(name)),
                        },
                        Err(e) => Err(e),
                    }
                } else {
                    Err(CalcErrV::UnknownName(name))
                },
            },
            TokV::Op(c) => Err(CalcErrV::NoValue(Some(TokV::Op(c)))),
            TokV::RParen => Err(CalcErrV::NoValue(Some(TokV::RParen))),
        }
    }
}

/// The program of an expression: one expression and nothing after it.
pub open spec fn program_of(input: Seq<char>) -> Result<Seq<StepV>, CalcErrV> {
    match tokens_from(input, 0) {
        Ok(ts) => match expr_at(ts, 0) {
            Ok((v, q)) => if q == ts.len() {
                Ok(v)
            } else {
                Err(CalcErrV::Trailing(ts[q]))
            },
            Err(e) => Err(e),
        },
        Err(e) => Err(e),
    }
}

/// The outcome of reading at `p` is what it should be.
spec fn agrees(r: Result<(Vec<Step>, usize), CalcError>, s: Parsed, p: int, n: nat) -> bool {
    match r {
        Ok((v, q)) => s == Parsed::Ok((steps(v@), q as int)) && p < q <= n,
        Err(e) => s == Parsed::Err(e@),
    }
}

fn one(s: Step) -> (r: Vec<Step>)
    ensures
        steps(r@) == seq![s@],
{
    let mut v: Vec<Step> = Vec::new();
    v.push(s);
    assert(steps(v@) =~= seq![s@]);
    v
}

fn then_step(v: &mut Vec<Step>, s: Step)
    ensures
        steps(final(v)@) == steps(old(v)@) + seq![s@],
{
    v.push(s);
    assert(steps(v@) =~= steps(old(v)@) + seq![s@]);
}

fn combine(v: &mut Vec<Step>, w: Vec<Step>, c: char)
    ensures
        steps(final(v)@) == steps(old(v)@) + steps(w@) + seq![StepV::Bin(c)],
{
    let mut w = w;
    let ghost ws = steps(w@);
    v.append(&mut w);
    v.push(Step::Bin(c));
    assert(steps(v@) =~= steps(old(v)@) + ws + seq![StepV::Bin(c)]);
}

fn op(ts: &Vec<Tok>, p: usize) -> (r: Option<char>)
    ensures
        r == op_at(toks(ts@), p as int),
        r is Some ==> p < usize::MAX,
{
    if p < ts.len() {
        match &ts[p] {
            Tok::Op(c) => Some(*c),
            _ => None,
        }
    } else {
        None
    }
}

fn parse_expr(ts: &Vec<Tok>, p: usize) -> (r: Result<(Vec<Step>, usize), CalcError>)
    requires
        p <= ts@.len(),
    ensures
        agrees(r, expr_at(toks(ts@), p as int), p as int, ts@.len()),
    decreases ts@.len() - p, 9int,
{
    let ghost t = toks(ts@);
    let (mut v, mut q) = match parse_term(ts, p) {
        Ok(x) => x,
        Err(e) => {
            return Err(e);
        },
    };
    loop
        invariant
            t == toks(ts@),
            p < q <= ts@.len(),
            p <= ts@.len(),
            expr_at(t, p as int) == more_terms(t, q as int, steps(v@)),
        decreases ts@.len() - q,
    {
        match op(ts, q) {
            Some(c) => {
                if c != '+' && c != '-' {
                    return Ok((v, q));
                }
                match parse_term(ts, q + 1) {
                    Ok((w, n)) => {
                        combine(&mut v, w, c);
                        q = n;
                    },
                    Err(e) => {
                        return Err(e);
                    },
                }
            },
            None => {
                return Ok((v, q));
            },
        }
    }
}

fn parse_term(ts: &Vec<Tok>, p: usize) -> (r: Result<(Vec<Step>, usize), CalcError>)
    requires
        p <= ts@.len(),
    ensures
        agrees(r, term_at(toks(ts@), p as int), p as int, ts@.len()),
    decreases ts@.len() - p, 7int,
{
    let ghost t = toks(ts@);
    let (mut v, mut q) = match parse_unary(ts, p) {
        Ok(x) => x,
        Err(e) => {
            return Err(e);
        },
    };
    loop
        invariant
            t == toks(ts@),
            p < q <= ts@.len(),
            p <= ts@.len(),
            term_at(t, p as int) == more_factors(t, q as int, steps(v@)),
        decreases ts@.len() - q,
    {
        match op(ts, q) {
            Some(c) => {
                if c != '*' && c != '/' && c != '%' {
                    return Ok((v, q));
                }
                match parse_unary(ts, q + 1) {
                    Ok((w, n)) => {
                        combine(&mut v, w, c);
                        q = n;
                    },
                    Err(e) => {
                        return Err(e);
                    },
                }
            },
            None => {
                return Ok((v, q));
            },
        }
    }
}

/// Unary minus binds looser than `^` (so `-2^2` is -4, matching math convention).
fn parse_unary(ts: &Vec<Tok>, p: usize) -> (r: Result<(Vec<Step>, usize), CalcError>)
    requires
        p <= ts@.len(),
    ensures
        agrees(r, unary_at(toks(ts@), p as int), p as int, ts@.len()),
    decreases ts@.len() - p, 5int,
{
    match op(ts, p) {
        Some('-') => match parse_unary(ts, p + 1) {
            Ok((v, q)) => {
                let mut v = v;
                then_step(&mut v, Step::Neg);
                Ok((v, q))
            },
            Err(e) => Err(e),
        },
        Some('+') => parse_unary(ts, p + 1),
        _ => parse_power(ts, p),
    }
}

/// Exponent is right-associative and its right side may have a sign.
fn parse_power(ts: &Vec<Tok>, p: usize) -> (r: Result<(Vec<Step>, usize), CalcError>)
    requires
        p <= ts@.len(),
    ensures
        agrees(r, power_at(toks(ts@), p as int), p as int, ts@.len()),
    decreases ts@.len() - p, 4int,
{
    let (mut v, q) = match parse_atom(ts, p) {
        Ok(x) => x,
        Err(e) => {
            return Err(e);
        },
    };
    match op(ts, q) {
        Some('^') => match parse_unary(ts, q + 1) {
            Ok((w, n)) => {
                combine(&mut v, w, '^');
                Ok((v, n))
            },
            Err(e) => Err(e),
        },
        _ => Ok((v, q)),
    }
}

fn parse_group(ts: &Vec<Tok>, p: usize) -> (r: Result<(Vec<Step>, usize), CalcError>)
    requires
        p <= ts@.len(),
    ensures
        agrees(r, group_at(toks(ts@), p as int), p as int, ts@.len()),
    decreases ts@.len() - p, 10int,
{
    match parse_expr(ts, p) {
        Ok((v, q)) => {
            if q < ts.len() {
                if let Tok::RParen = &ts[q] {
                    return Ok((v, q + 1));
                }
            }
            Err(CalcError::NoParen)
        },
        Err(e) => Err(e),
    }
}

fn parse_atom(ts: &Vec<Tok>, p: usize) -> (r: Result<(Vec<Step>, usize), CalcError>)
    requires
        p <= ts@.len(),
    ensures
        agrees(r, atom_at(toks(ts@), p as int), p as int, ts@.len()),
    decreases ts@.len() - p, 3int,
{
    if p >= ts.len() {
        return Err(CalcError::NoValue(None));
    }
    match &ts[p] {
        Tok::Num(s) => Ok((one(Step::Num(s.clone())), p + 1)),
        Tok::LParen => parse_group(ts, p + 1),
        Tok::Ident(name) => {
            if let Some(c) = constant(name.as_str()) {
                return Ok((one(Step::Const(c)), p + 1));
            }
            let call = if p + 1 < ts.len() {
                match &ts[p + 1] {
                    Tok::LParen => true,
                    _ => false,
                }
            } else {
                false
            };
            if !call {
                return Err(CalcError::UnknownName(name.clone()));
            }
            match parse_group(ts, p + 2) {
                Ok((v, q)) => match func(name.as_str()) {
                    Some(f) => {
                        let mut v = v;
                        then_step(&mut v, Step::Call(f));
                        Ok((v, q))
                    },
                    None => Err(CalcError::UnknownFunction(name.clone())),
                },
                Err(e) => Err(e),
            }
        },
        Tok::Op(c) => Err(CalcError::NoValue(Some(Tok::Op(*c)))),
        Tok::RParen => Err(CalcError::NoValue(Some(Tok::RParen))),
    }
}

/// The program of an expression, or why it has none.
pub fn parse(input: &str) -> (r: Result<Vec<Step>, CalcError>)
    ensures
        match r {
            Ok(v) => program_of(input@) == Result::<Seq<StepV>, CalcErrV>::Ok(steps(v@)),
            Err(e) => program_of(input@) == Result::<Seq<StepV>, CalcErrV>::Err(e@),
        },
{
    let ts = match tokenize(input) {
        Ok(ts) => ts,
        Err(e) => {
            return Err(e);
        },
    };
    match parse_expr(&ts, 0) {
        Ok((v, q)) => if q == ts.len() {
            Ok(v)
        } else {
            assert(toks(ts@)[q as int] == ts@[q as int]@);
            Err(CalcError::Trailing(ts[q].copy()))
        },
        Err(e) => Err(e),
    }
}

/// Height of a stack of `d` numbers after a program, if it never runs out of them.
pub open spec fn height(v: Seq<StepV>, d: int) -> Option<int>
    decreases v.len(),
{
    if v.len() == 0 {
        Some(d)
    } else {
        match height(v.drop_last(), d) {
            Some(h) => match v.last() {
                StepV::Num(_) | StepV::Const(_) => Some(h + 1),
                StepV::Neg | StepV::Call(_) => if h >= 1 {
                    Some(h)
                } else {
                    None
                },
                StepV::Bin(_) => if h >= 2 {
                    Some(h - 1)
                } else {
                    None
                },
            },
            None => None,
        }
    }
}

/// A program that leaves one number more on any stack.
pub open spec fn yields_one(v: Seq<StepV>) -> bool {
    forall|d: int| d >= 0 ==> #[trigger] height(v, d) == Some(d + 1)
}

proof fn lemma_height_joined(v: Seq<StepV>, w: Seq<StepV>, d: int)
    requires
        height(v, d) is Some,
    ensures
        height(v + w, d) == height(w, height(v, d)->0),
    decreases w.len(),
{
    if w.len() == 0 {
        assert(v + w =~= v);
    } else {
        lemma_height_joined(v, w.drop_last(), d);
        assert((v + w).drop_last() =~= v + w.drop_last());
        assert((v + w).last() == w.last());
    }
}

proof fn lemma_one_step(s: StepV)
    requires
        s is Num || s is Const,
    ensures
        yields_one(seq![s]),
{
    assert forall|d: int| d >= 0 implies #[trigger] height(seq![s], d) == Some(d + 1) by {
        assert(seq![s].drop_last() =~= Seq::empty());
        assert(height(Seq::<StepV>::empty(), d) == Some(d));
    }
}

proof fn lemma_then(v: Seq<StepV>, s: StepV)
    requires
        yields_one(v),
        s is Neg || s is Call,
    ensures
        yields_one(v + seq![s]),
{
    assert forall|d: int| d >= 0 implies #[trigger] height(v + seq![s], d) == Some(d + 1) by {
        assert((v + seq![s]).drop_last() =~= v);
        assert((v + seq![s]).last() == s);
        assert(height(v, d) == Some(d + 1));
    }
}

proof fn lemma_combined(v: Seq<StepV>, w: Seq<StepV>, c: char)
    requires
        yields_one(v),
        yields_one(w),
    ensures
        yields_one(v + w + seq![StepV::Bin(c)]),
{
    let x = v + w + seq![StepV::Bin(c)];
    assert forall|d: int| d >= 0 implies #[trigger] height(x, d) == Some(d + 1) by {
        assert(height(v, d) == Some(d + 1));
        lemma_height_joined(v, w, d);
        assert(height(w, d + 1) == Some(d + 2));
        assert(x.drop_last() =~= v + w);
        assert(x.last() == StepV::Bin(c));
    }
}

spec fn good(r: Parsed) -> bool {
    r is Ok ==> yields_one((r->Ok_0).0)
}

proof fn lemma_expr(ts: Seq<TokV>, p: int)
    ensures
        good(expr_at(ts, p)),
    decreases ts.len() - p, 9int,
{
    lemma_term(ts, p);
    if let Ok((v, q)) = term_at(ts, p) {
        if on(p, q, ts.len()) {
            lemma_more_terms(ts, q, v);
        }
    }
}

proof fn lemma_more_terms(ts: Seq<TokV>, p: int, v: Seq<StepV>)
    requires
        yields_one(v),
    ensures
        good(more_terms(ts, p, v)),
    decreases ts.len() - p, 8int,
{
    if let Some(c) = op_at(ts, p) {
        if c == '+' || c == '-' {
            lemma_term(ts, p + 1);
            if let Ok((w, q)) = term_at(ts, p + 1) {
                if on(p + 1, q, ts.len()) {
                    lemma_combined(v, w, c);
                    lemma_more_terms(ts, q, v + w + seq![StepV::Bin(c)]);
                }
            }
        }
    }
}

proof fn lemma_term(ts: Seq<TokV>, p: int)
    ensures
        good(term_at(ts, p)),
    decreases ts.len() - p, 7int,
{
    lemma_unary(ts, p);
    if let Ok((v, q)) = unary_at(ts, p) {
        if on(p, q, ts.len()) {
            lemma_more_factors(ts, q, v);
        }
    }
}

proof fn lemma_more_factors(ts: Seq<TokV>, p: int, v: Seq<StepV>)
    requires
        yields_one(v),
    ensures
        good(more_factors(ts, p, v)),
    decreases ts.len() - p, 6int,
{
    if let Some(c) = op_at(ts, p) {
        if c == '*' || c == '/' || c == '%' {
            lemma_unary(ts, p + 1);
            if let Ok((w, q)) = unary_at(ts, p + 1) {
                if on(p + 1, q, ts.len()) {
                    lemma_combined(v, w, c);
                    lemma_more_factors(ts, q, v + w + seq![StepV::Bin(c)]);
                }
            }
        }
    }
}

proof fn lemma_unary(ts: Seq<TokV>, p: int)
    ensures
        good(unary_at(ts, p)),
    decreases ts.len() - p, 5int,
{
    if op_at(ts, p) == Some('-') {
        lemma_unary(ts, p + 1);
        if let Ok((v, q)) = unary_at(ts, p + 1) {
            lemma_then(v, StepV::Neg);
        }
    } else if op_at(ts, p) == Some('+') {
        lemma_unary(ts, p + 1);
    } else {
        lemma_power(ts, p);
    }
}

proof fn lemma_power(ts: Seq<TokV>, p: int)
    ensures
        good(power_at(ts, p)),
    decreases ts.len() - p, 4int,
{
    lemma_atom(ts, p);
    if let Ok((v, q)) = atom_at(ts, p) {
        if on(p, q, ts.len()) && op_at(ts, q) == Some('^') {
            lemma_unary(ts, q + 1);
            if let Ok((w, r)) = unary_at(ts, q + 1) {
                lemma_combined(v, w, '^');
            }
        }
    }
}

proof fn lemma_group(ts: Seq<TokV>, p: int)
    ensures
        good(group_at(ts, p)),
    decreases ts.len() - p, 10int,
{
    lemma_expr(ts, p);
}

proof fn lemma_atom(ts: Seq<TokV>, p: int)
    ensures
        good(atom_at(ts, p)),
    decreases ts.len() - p, 3int,
{
    if 0 <= p < ts.len() {
        match ts[p] {
            TokV::Num(s) => lemma_one_step(StepV::Num(s)),
            TokV::LParen => lemma_group(ts, p + 1),
            TokV::Ident(name) => match constant_of(name) {
                Some(c) => lemma_one_step(StepV::Const(c)),
                None => if p + 1 < ts.len() && ts[p + 1] is LParen {
                    lemma_group(ts, p + 2);
                    if let Ok((v, q)) = group_at(ts, p + 2) {
                        if let Some(f) = func_of(name) {
                            lemma_then(v, StepV::Call(f));
                        }
                    }
                },
            },
            _ => {},
        }
    }
}

/// The program of every expression runs: it never takes a number from an empty stack, and
/// leaves exactly its value.
pub proof fn law_program_runs(input: Seq<char>)
    ensures
        program_of(input) matches Ok(v) ==> height(v, 0) == Some(1int),
{
    if let Ok(ts) = tokens_from(input, 0) {
        lemma_expr(ts, 0);
    }
}

impl CalcErrV {
    /// What is told of an error; nothing where it quotes a number, which is told as it reads
    /// once evaluated.
    pub open spec fn told(self) -> Option<Seq<char>> {
        match self {
            CalcErrV::BadNumber(s) => Some("bad number `"@ + s + "`"@),
            CalcErrV::BadChar(c) => Some("unexpected `"@ + seq![c] + "`"@),
            CalcErrV::Trailing(t) => match t.shown() {
                Some(s) => Some("unexpected `"@ + s + "`"@),
                None => None,
            },
            CalcErrV::NoValue(None) => Some("expected a value, found `end`"@),
            CalcErrV::NoValue(Some(t)) => match t.shown() {
                Some(s) => Some("expected a value, found `"@ + s + "`"@),
                None => None,
            },
            CalcErrV::NoParen => Some("expected `)`"@),
            CalcErrV::UnknownName(s) => Some("unknown name `"@ + s + "`"@),
            CalcErrV::UnknownFunction(s) => Some("unknown function `"@ + s + "`"@),
        }
    }
}

impl TokV {
    /// A token as an error quotes it.
    pub open spec fn shown(self) -> Option<Seq<char>> {
        match self {
            TokV::Num(_) => None,
            TokV::Ident(s) => Some(s),
            TokV::Op(c) => Some(seq![c]),
            TokV::LParen => Some("("@),
            TokV::RParen => Some(")"@),
        }
    }
}

fn quoted(head: &str, s: &str) -> (r: String)
    ensures
        r@ == head@ + s@ + "`"@,
{
    crate::text::cat(crate::text::cat(head, s).as_str(), "`")
}

fn char_text(c: char) -> (r: String)
    ensures
        r@ == seq![c],
{
    let mut s = String::new();
    s.push(c);
    assert(s@ =~= seq![c]);
    s
}

impl Tok {
    fn text(&self) -> (r: Option<String>)
        ensures
            match r {
                Some(s) => self@.shown() == Some(s@),
                None => self@.shown() is None,
            },
    {
        match self {
            Tok::Num(_) => None,
            Tok::Ident(s) => Some(s.clone()),
            Tok::Op(c) => Some(char_text(*c)),
            Tok::LParen => Some("(".to_string()),
            Tok::RParen => Some(")".to_string()),
        }
    }
}

impl CalcError {
    /// What to tell of the error; `None` where it quotes a number.
    pub fn message(&self) -> (r: Option<String>)
        ensures
            match r {
                Some(s) => self@.told() == Some(s@),
                None => self@.told() is None,
            },
    {
        match self {
            CalcError::BadNumber(s) => Some(quoted("bad number `", s.as_str())),
            CalcError::BadChar(c) => Some(quoted("unexpected `", char_text(*c).as_str())),
            CalcError::Trailing(t) => match t.text() {
                Some(s) => Some(quoted("unexpected `", s.as_str())),
                None => None,
            },
            CalcError::NoValue(t) => match t {
                Some(t) => match t.text() {
                    Some(s) => Some(quoted("expected a value, found `", s.as_str())),
                    None => None,
                },
                None => Some("expected a value, found `end`".to_string()),
            },
            CalcError::NoParen => Some("expected `)`".to_string()),
            CalcError::UnknownName(s) => Some(quoted("unknown name `", s.as_str())),
            CalcError::UnknownFunction(s) => Some(quoted("unknown function `", s.as_str())),
        }
    }
}

} // verus!
