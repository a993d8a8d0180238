//! Laws of the calculator: how strongly operators bind, and which texts are expressions.

use vstd::prelude::*;

use crate::terminal::calc::{
    atom_at, closes_at, constant_of, expr_at, func_of, group_at, led, more_factors, more_terms,
    name_char, name_end, name_start, num_char, num_end, number_ok, op_at, op_char, power_at,
    program_of, term_at, tokens_from, unary_at, CalcErrV, Constant, Func, StepV, TokV, Tokens,
};
use crate::text::is_space;
use crate::unicode::{ascii_digit, ascii_lower, lower};

verus! {

/// An expression as a tree. Parentheses are a node of their own.
pub enum Tree {
    Num(Seq<char>),
    Const(Seq<char>, Constant),
    Call(Seq<char>, Func, Box<Tree>),
    Paren(Box<Tree>),
    Neg(Box<Tree>),
    Pos(Box<Tree>),
    Bin(Box<Tree>, char, Box<Tree>),
}

/// How strongly a binary operator binds.
pub open spec fn strength(c: char) -> int {
    if c == '^' {
        4
    } else if c == '*' || c == '/' || c == '%' {
        2
    } else if c == '+' || c == '-' {
        1
    } else {
        0
    }
}

/// How strongly an expression holds together: as its outermost operator binds; a sign binds
/// looser than a power and tighter than a product.
pub open spec fn grip(t: Tree) -> int {
    match t {
        Tree::Bin(_, c, _) => strength(c),
        Tree::Neg(_) => 3,
        Tree::Pos(_) => 3,
        _ => 5,
    }
}

/// The tree is one that its text without further parentheses shows: both operands hold together
/// at least as the operator binds, and, of operators that bind alike, sums and products group
/// to the left and powers to the right.
pub open spec fn shows(t: Tree) -> bool
    decreases t,
{
    match t {
        Tree::Num(_) => true,
        Tree::Const(n, c) => constant_of(n) == Some(c),
        Tree::Call(n, f, x) => constant_of(n) is None && func_of(n) == Some(f) && shows(*x),
        Tree::Paren(x) => shows(*x),
        Tree::Neg(x) => shows(*x) && grip(*x) >= 3,
        Tree::Pos(x) => shows(*x) && grip(*x) >= 3,
        Tree::Bin(x, c, y) => shows(*x) && shows(*y) && if c == '^' {
            grip(*x) > 4 && grip(*y) >= 3
        } else {
            strength(c) > 0 && grip(*x) >= strength(c) && grip(*y) > strength(c)
        },
    }
}

/// The tokens of an expression, from left to right.
pub open spec fn written(t: Tree) -> Seq<TokV>
    decreases t,
{
    match t {
        Tree::Num(s) => seq![TokV::Num(s)],
        Tree::Const(n, _) => seq![TokV::Ident(n)],
        Tree::Call(n, _, x) => seq![TokV::Ident(n), TokV::LParen] + written(*x) + seq![TokV::RParen],
        Tree::Paren(x) => seq![TokV::LParen] + written(*x) + seq![TokV::RParen],
        Tree::Neg(x) => seq![TokV::Op('-')] + written(*x),
        Tree::Pos(x) => seq![TokV::Op('+')] + written(*x),
        Tree::Bin(x, c, y) => written(*x) + seq![TokV::Op(c)] + written(*y),
    }
}

/// The program of an expression: the operands' programs, then the operator.
pub open spec fn program(t: Tree) -> Seq<StepV>
    decreases t,
{
    match t {
        Tree::Num(s) => seq![StepV::Num(s)],
        Tree::Const(_, c) => seq![StepV::Const(c)],
        Tree::Call(_, f, x) => program(*x) + seq![StepV::Call(f)],
        Tree::Paren(x) => program(*x),
        Tree::Neg(x) => program(*x) + seq![StepV::Neg],
        Tree::Pos(x) => program(*x),
        Tree::Bin(x, c, y) => program(*x) + program(*y) + seq![StepV::Bin(c)],
    }
}

/// The tokens `w` stand in `ts` at `p`.
spec fn stands(ts: Seq<TokV>, p: int, w: Seq<TokV>) -> bool {
    0 <= p && p + w.len() <= ts.len() && forall|k: int|
        0 <= k < w.len() ==> ts[p + k] == #[trigger] w[k]
}

proof fn lemma_stands_parts(ts: Seq<TokV>, p: int, v: Seq<TokV>, w: Seq<TokV>)
    requires
        stands(ts, p, v + w),
    ensures
        stands(ts, p, v),
        stands(ts, p + v.len(), w),
{
    assert forall|k: int| 0 <= k < v.len() implies ts[p + k] == #[trigger] v[k] by {
        assert((v + w)[k] == v[k]);
    }
    assert forall|k: int| 0 <= k < w.len() implies ts[p + v.len() + k] == #[trigger] w[k] by {
        assert((v + w)[v.len() + k] == w[k]);
    }
}

proof fn lemma_written(t: Tree)
    ensures
        written(t).len() > 0,
        shows(t) ==> grip(t) >= 1,
        shows(t) && grip(t) >= 4 ==> !(written(t)[0] is Op),
    decreases t,
{
    match t {
        Tree::Call(_, _, x) => lemma_written(*x),
        Tree::Paren(x) => lemma_written(*x),
        Tree::Neg(x) => lemma_written(*x),
        Tree::Pos(x) => lemma_written(*x),
        Tree::Bin(x, _, y) => {
            lemma_written(*x);
            lemma_written(*y);
        },
        _ => {},
    }
}

/// The next operator takes the end of a product as its operand.
spec fn tight(next: Option<char>) -> bool {
    next == Some('*') || next == Some('/') || next == Some('%')
}

/// Tokens `[p, q)` that hold together by `g` are read as the program `v`, unless what follows
/// binds their end tighter.
#[verifier::opaque]
spec fn reads(ts: Seq<TokV>, p: int, q: int, g: int, v: Seq<StepV>) -> bool {
    let next = op_at(ts, q);
    &&& g >= 5 ==> atom_at(ts, p) == Ok::<_, CalcErrV>((v, q))
    &&& g >= 4 && next != Some('^') ==> power_at(ts, p) == Ok::<_, CalcErrV>((v, q))
    &&& g >= 3 && next != Some('^') ==> unary_at(ts, p) == Ok::<_, CalcErrV>((v, q))
    &&& g >= 2 && next != Some('^') ==> term_at(ts, p) == more_factors(ts, q, v)
    &&& g >= 1 && next != Some('^') && !tight(next) ==> expr_at(ts, p) == more_terms(ts, q, v)
}

proof fn lemma_term_reads(ts: Seq<TokV>, p: int, q: int, v: Seq<StepV>)
    requires
        0 <= p < q <= ts.len(),
        term_at(ts, p) == more_factors(ts, q, v),
    ensures
        !tight(op_at(ts, q)) ==> expr_at(ts, p) == more_terms(ts, q, v),
{
    if !tight(op_at(ts, q)) {
        assert(more_factors(ts, q, v) == Ok::<_, CalcErrV>((v, q)));
    }
}

proof fn lemma_unary_reads(ts: Seq<TokV>, p: int, q: int, v: Seq<StepV>)
    requires
        0 <= p < q <= ts.len(),
        op_at(ts, q) != Some('^') ==> unary_at(ts, p) == Ok::<_, CalcErrV>((v, q)),
    ensures
        reads(ts, p, q, 3, v),
{
    reveal(reads);
    if op_at(ts, q) != Some('^') {
        assert(term_at(ts, p) == more_factors(ts, q, v));
        lemma_term_reads(ts, p, q, v);
    }
}

proof fn lemma_power_reads(ts: Seq<TokV>, p: int, q: int, v: Seq<StepV>)
    requires
        0 <= p < q <= ts.len(),
        !(ts[p] is Op),
        op_at(ts, q) != Some('^') ==> power_at(ts, p) == Ok::<_, CalcErrV>((v, q)),
    ensures
        reads(ts, p, q, 4, v),
{
    reveal(reads);
    assert(unary_at(ts, p) == power_at(ts, p));
    lemma_unary_reads(ts, p, q, v);
}

proof fn lemma_atom_reads(ts: Seq<TokV>, p: int, q: int, v: Seq<StepV>)
    requires
        0 <= p < q <= ts.len(),
        !(ts[p] is Op),
        atom_at(ts, p) == Ok::<_, CalcErrV>((v, q)),
    ensures
        reads(ts, p, q, 5, v),
{
    reveal(reads);
    if op_at(ts, q) != Some('^') {
        assert(power_at(ts, p) == Ok::<_, CalcErrV>((v, q)));
    }
    lemma_power_reads(ts, p, q, v);
}

proof fn lemma_group_reads(ts: Seq<TokV>, p: int, q: int, g: int, v: Seq<StepV>)
    requires
        0 <= p < q < ts.len(),
        g >= 1,
        reads(ts, p, q, g, v),
        ts[q] is RParen,
    ensures
        group_at(ts, p) == Ok::<_, CalcErrV>((v, q + 1)),
{
    reveal(reads);
    assert(more_terms(ts, q, v) == Ok::<_, CalcErrV>((v, q)));
}

proof fn lemma_bin_reads(
    ts: Seq<TokV>,
    p: int,
    m: int,
    q: int,
    c: char,
    gx: int,
    gy: int,
    v: Seq<StepV>,
    w: Seq<StepV>,
)
    requires
        0 <= p < m,
        m + 1 < q <= ts.len(),
        ts[m] == TokV::Op(c),
        reads(ts, p, m, gx, v),
        reads(ts, m + 1, q, gy, w),
        strength(c) > 0,
        if c == '^' {
            gx > 4 && gy >= 3 && !(ts[p] is Op)
        } else {
            gx >= strength(c) && gy > strength(c)
        },
    ensures
        reads(ts, p, q, strength(c), v + w + seq![StepV::Bin(c)]),
{
    reveal(reads);
    let r = v + w + seq![StepV::Bin(c)];
    assert(op_at(ts, m) == Some(c));
    if op_at(ts, q) != Some('^') {
        if c == '^' {
            assert(power_at(ts, p) == Ok::<_, CalcErrV>((r, q)));
            lemma_power_reads(ts, p, q, r);
        } else if strength(c) == 2 {
            assert(more_factors(ts, m, v) == more_factors(ts, q, r));
            lemma_term_reads(ts, p, q, r);
        } else if !tight(op_at(ts, q)) {
            assert(more_factors(ts, q, w) == Ok::<_, CalcErrV>((w, q)));
            assert(more_terms(ts, m, v) == more_terms(ts, q, r));
        }
    }
}

proof fn lemma_call_reads(
    ts: Seq<TokV>,
    p: int,
    q: int,
    n: Seq<char>,
    f: Func,
    g: int,
    v: Seq<StepV>,
)
    requires
        0 <= p,
        p + 2 < q < ts.len(),
        ts[p] == TokV::Ident(n),
        ts[p + 1] is LParen,
        constant_of(n) is None,
        func_of(n) == Some(f),
        g >= 1,
        reads(ts, p + 2, q, g, v),
        ts[q] is RParen,
    ensures
        reads(ts, p, q + 1, 5, v + seq![StepV::Call(f)]),
{
    lemma_group_reads(ts, p + 2, q, g, v);
    lemma_atom_reads(ts, p, q + 1, v + seq![StepV::Call(f)]);
}

proof fn lemma_paren_reads(ts: Seq<TokV>, p: int, q: int, g: int, v: Seq<StepV>)
    requires
        0 <= p,
        p + 1 < q < ts.len(),
        ts[p] is LParen,
        g >= 1,
        reads(ts, p + 1, q, g, v),
        ts[q] is RParen,
    ensures
        reads(ts, p, q + 1, 5, v),
{
    lemma_group_reads(ts, p + 1, q, g, v);
    lemma_atom_reads(ts, p, q + 1, v);
}

proof fn lemma_sign_reads(ts: Seq<TokV>, p: int, q: int, c: char, g: int, v: Seq<StepV>)
    requires
        0 <= p,
        p + 1 < q <= ts.len(),
        ts[p] == TokV::Op(c),
        g >= 3,
        reads(ts, p + 1, q, g, v),
    ensures
        c == '-' ==> reads(ts, p, q, 3, v + seq![StepV::Neg]),
        c == '+' ==> reads(ts, p, q, 3, v),
{
    reveal(reads);
    assert(op_at(ts, p) == Some(c));
    if c == '-' {
        lemma_unary_reads(ts, p, q, v + seq![StepV::Neg]);
    } else if c == '+' {
        lemma_unary_reads(ts, p, q, v);
    }
}

proof fn lemma_leaf_reads(ts: Seq<TokV>, p: int, t: Tree)
    requires
        0 <= p < ts.len(),
        t is Num || t is Const,
        shows(t),
        ts[p] == written(t)[0],
    ensures
        reads(ts, p, p + 1, 5, program(t)),
{
    lemma_atom_reads(ts, p, p + 1, program(t));
}

/// Reading a tree's tokens gives its program.
proof fn lemma_read(ts: Seq<TokV>, p: int, t: Tree)
    requires
        shows(t),
        stands(ts, p, written(t)),
    ensures
        reads(ts, p, p + written(t).len(), grip(t), program(t)),
    decreases t,
{
    let q = p + written(t).len();
    lemma_written(t);
    assert(ts[p + 0] == written(t)[0]);
    match t {
        Tree::Num(s) => lemma_leaf_reads(ts, p, t),
        Tree::Const(n, c) => lemma_leaf_reads(ts, p, t),
        Tree::Call(n, f, x) => {
            let head = seq![TokV::Ident(n), TokV::LParen];
            lemma_stands_parts(ts, p, head + written(*x), seq![TokV::RParen]);
            lemma_stands_parts(ts, p, head, written(*x));
            assert(ts[p + 1] == head[1]);
            assert(ts[q - 1 + 0] == seq![TokV::RParen][0]);
            lemma_written(*x);
            lemma_read(ts, p + 2, *x);
            lemma_call_reads(ts, p, q - 1, n, f, grip(*x), program(*x));
        },
        Tree::Paren(x) => {
            let head = seq![TokV::LParen];
            lemma_stands_parts(ts, p, head + written(*x), seq![TokV::RParen]);
            lemma_stands_parts(ts, p, head, written(*x));
            assert(ts[q - 1 + 0] == seq![TokV::RParen][0]);
            lemma_written(*x);
            lemma_read(ts, p + 1, *x);
            lemma_paren_reads(ts, p, q - 1, grip(*x), program(*x));
        },
        Tree::Neg(x) => {
            lemma_stands_parts(ts, p, seq![TokV::Op('-')], written(*x));
            lemma_written(*x);
            lemma_read(ts, p + 1, *x);
            lemma_sign_reads(ts, p, q, '-', grip(*x), program(*x));
        },
        Tree::Pos(x) => {
            lemma_stands_parts(ts, p, seq![TokV::Op('+')], written(*x));
            lemma_written(*x);
            lemma_read(ts, p + 1, *x);
            lemma_sign_reads(ts, p, q, '+', grip(*x), program(*x));
        },
        Tree::Bin(x, c, y) => {
            let m = p + written(*x).len();
            let mid = seq![TokV::Op(c)];
            lemma_stands_parts(ts, p, written(*x) + mid, written(*y));
            lemma_stands_parts(ts, p, written(*x), mid);
            assert(ts[m + 0] == mid[0]);
            lemma_written(*x);
            lemma_written(*y);
            assert(ts[p + 0] == written(*x)[0]);
            lemma_read(ts, p, *x);
            lemma_read(ts, m + 1, *y);
            lemma_bin_reads(ts, p, m, q, c, grip(*x), grip(*y), program(*x), program(*y));
        },
    }
}

/// Every expression is read as the tree that its tokens show: products and remainders before
/// sums, signs before products, powers before signs, sums and products from the left and powers
/// from the right.
pub proof fn law_operators_bind(t: Tree)
    requires
        shows(t),
    ensures
        expr_at(written(t), 0) == Ok::<_, CalcErrV>((program(t), written(t).len() as int)),
{
    reveal(reads);
    let ts = written(t);
    lemma_written(t);
    lemma_read(ts, 0, t);
}

/// In `a + b % c` the remainder is taken first; so with each sum and each product.
pub proof fn law_product_before_sum(a: Tree, b: Tree, c: Tree, sum: char, product: char)
    requires
        shows(a),
        shows(b),
        shows(c),
        grip(a) >= 3,
        grip(b) >= 3,
        grip(c) >= 3,
        sum == '+' || sum == '-',
        product == '*' || product == '/' || product == '%',
    ensures
        ({
            let ts = written(a) + seq![TokV::Op(sum)] + (written(b) + seq![TokV::Op(product)]
                + written(c));
            let v = program(a) + (program(b) + program(c) + seq![StepV::Bin(product)])
                + seq![StepV::Bin(sum)];
            expr_at(ts, 0) == Ok::<_, CalcErrV>((v, ts.len() as int))
        }),
{
    let right = Tree::Bin(Box::new(b), product, Box::new(c));
    assert(shows(right));
    let t = Tree::Bin(Box::new(a), sum, Box::new(right));
    assert(shows(t));
    assert(written(right) == written(b) + seq![TokV::Op(product)] + written(c));
    assert(program(right) == program(b) + program(c) + seq![StepV::Bin(product)]);
    assert(written(t) == written(a) + seq![TokV::Op(sum)] + written(right));
    assert(program(t) == program(a) + program(right) + seq![StepV::Bin(sum)]);
    law_operators_bind(t);
}

/// In `a % b + c` the sum is taken last; so with each product and each sum.
pub proof fn law_sum_after_product(a: Tree, b: Tree, c: Tree, sum: char, product: char)
    requires
        shows(a),
        shows(b),
        shows(c),
        grip(a) >= 3,
        grip(b) >= 3,
        grip(c) >= 3,
        sum == '+' || sum == '-',
        product == '*' || product == '/' || product == '%',
    ensures
        ({
            let ts = written(a) + seq![TokV::Op(product)] + written(b) + seq![TokV::Op(sum)]
                + written(c);
            let v = program(a) + program(b) + seq![StepV::Bin(product)] + program(c) + seq![
                StepV::Bin(sum),
            ];
            expr_at(ts, 0) == Ok::<_, CalcErrV>((v, ts.len() as int))
        }),
{
    let left = Tree::Bin(Box::new(a), product, Box::new(b));
    assert(shows(left));
    let t = Tree::Bin(Box::new(left), sum, Box::new(c));
    assert(shows(t));
    assert(written(left) == written(a) + seq![TokV::Op(product)] + written(b));
    assert(program(left) == program(a) + program(b) + seq![StepV::Bin(product)]);
    assert(written(t) == written(left) + seq![TokV::Op(sum)] + written(c));
    assert(program(t) == program(left) + program(c) + seq![StepV::Bin(sum)]);
    law_operators_bind(t);
}

/// A tree stands for what was read from tokens `[p, q)`.
spec fn stands_for(t: Tree, ts: Seq<TokV>, p: int, q: int, g: int, v: Seq<StepV>) -> bool {
    0 <= p < q <= ts.len() && shows(t) && grip(t) >= g && program(t) == v && written(t)
        == ts.subrange(p, q)
}

proof fn lemma_bin_tree(
    ts: Seq<TokV>,
    p: int,
    m: int,
    q: int,
    x: Tree,
    y: Tree,
    c: char,
    v: Seq<StepV>,
    w: Seq<StepV>,
) -> (t: Tree)
    requires
        m < ts.len(),
        ts[m] == TokV::Op(c),
        stands_for(x, ts, p, m, 1, v),
        stands_for(y, ts, m + 1, q, 1, w),
        shows(Tree::Bin(Box::new(x), c, Box::new(y))),
    ensures
        stands_for(t, ts, p, q, strength(c), v + w + seq![StepV::Bin(c)]),
{
    assert(ts.subrange(p, m) + seq![ts[m]] + ts.subrange(m + 1, q) =~= ts.subrange(p, q));
    Tree::Bin(Box::new(x), c, Box::new(y))
}

proof fn lemma_expr_tree(ts: Seq<TokV>, p: int) -> (t: Tree)
    requires
        0 <= p,
        expr_at(ts, p) is Ok,
    ensures
        stands_for(t, ts, p, expr_at(ts, p)->Ok_0.1, 1, expr_at(ts, p)->Ok_0.0),
    decreases ts.len() - p, 9int,
{
    let x = lemma_term_tree(ts, p);
    let (v, q) = term_at(ts, p)->Ok_0;
    lemma_terms_tree(ts, p, q, x, v)
}

proof fn lemma_terms_tree(ts: Seq<TokV>, s: int, p: int, x: Tree, v: Seq<StepV>) -> (t: Tree)
    requires
        stands_for(x, ts, s, p, 1, v),
        more_terms(ts, p, v) is Ok,
    ensures
        stands_for(t, ts, s, more_terms(ts, p, v)->Ok_0.1, 1, more_terms(ts, p, v)->Ok_0.0),
    decreases ts.len() - p, 8int,
{
    let c = op_at(ts, p);
    if c == Some('+') || c == Some('-') {
        let c = c->0;
        let y = lemma_term_tree(ts, p + 1);
        let (w, q) = term_at(ts, p + 1)->Ok_0;
        let z = lemma_bin_tree(ts, s, p, q, x, y, c, v, w);
        lemma_terms_tree(ts, s, q, z, v + w + seq![StepV::Bin(c)])
    } else {
        x
    }
}

proof fn lemma_term_tree(ts: Seq<TokV>, p: int) -> (t: Tree)
    requires
        0 <= p,
        term_at(ts, p) is Ok,
    ensures
        stands_for(t, ts, p, term_at(ts, p)->Ok_0.1, 2, term_at(ts, p)->Ok_0.0),
    decreases ts.len() - p, 7int,
{
    let x = lemma_unary_tree(ts, p);
    let (v, q) = unary_at(ts, p)->Ok_0;
    lemma_factors_tree(ts, p, q, x, v)
}

proof fn lemma_factors_tree(ts: Seq<TokV>, s: int, p: int, x: Tree, v: Seq<StepV>) -> (t: Tree)
    requires
        stands_for(x, ts, s, p, 2, v),
        more_factors(ts, p, v) is Ok,
    ensures
        stands_for(t, ts, s, more_factors(ts, p, v)->Ok_0.1, 2, more_factors(ts, p, v)->Ok_0.0),
    decreases ts.len() - p, 6int,
{
    let c = op_at(ts, p);
    if tight(c) {
        let c = c->0;
        let y = lemma_unary_tree(ts, p + 1);
        let (w, q) = unary_at(ts, p + 1)->Ok_0;
        let z = lemma_bin_tree(ts, s, p, q, x, y, c, v, w);
        lemma_factors_tree(ts, s, q, z, v + w + seq![StepV::Bin(c)])
    } else {
        x
    }
}

proof fn lemma_unary_tree(ts: Seq<TokV>, p: int) -> (t: Tree)
    requires
        0 <= p,
        unary_at(ts, p) is Ok,
    ensures
        stands_for(t, ts, p, unary_at(ts, p)->Ok_0.1, 3, unary_at(ts, p)->Ok_0.0),
    decreases ts.len() - p, 5int,
{
    let q = unary_at(ts, p)->Ok_0.1;
    if op_at(ts, p) == Some('-') {
        let x = lemma_unary_tree(ts, p + 1);
        assert(seq![ts[p]] + ts.subrange(p + 1, q) =~= ts.subrange(p, q));
        Tree::Neg(Box::new(x))
    } else if op_at(ts, p) == Some('+') {
        let x = lemma_unary_tree(ts, p + 1);
        assert(seq![ts[p]] + ts.subrange(p + 1, q) =~= ts.subrange(p, q));
        Tree::Pos(Box::new(x))
    } else {
        lemma_power_tree(ts, p)
    }
}

proof fn lemma_power_tree(ts: Seq<TokV>, p: int) -> (t: Tree)
    requires
        0 <= p,
        power_at(ts, p) is Ok,
    ensures
        stands_for(t, ts, p, power_at(ts, p)->Ok_0.1, 4, power_at(ts, p)->Ok_0.0),
    decreases ts.len() - p, 4int,
{
    let x = lemma_atom_tree(ts, p);
    let (v, q) = atom_at(ts, p)->Ok_0;
    if op_at(ts, q) == Some('^') {
        let y = lemma_unary_tree(ts, q + 1);
        let (w, r) = unary_at(ts, q + 1)->Ok_0;
        lemma_bin_tree(ts, p, q, r, x, y, '^', v, w)
    } else {
        x
    }
}

proof fn lemma_group_tree(ts: Seq<TokV>, p: int) -> (t: Tree)
    requires
        0 <= p,
        group_at(ts, p) is Ok,
    ensures
        stands_for(t, ts, p, group_at(ts, p)->Ok_0.1 - 1, 1, group_at(ts, p)->Ok_0.0),
        closes_at(ts, group_at(ts, p)->Ok_0.1 - 1),
    decreases ts.len() - p, 10int,
{
    lemma_expr_tree(ts, p)
}

proof fn lemma_atom_tree(ts: Seq<TokV>, p: int) -> (t: Tree)
    requires
        0 <= p,
        atom_at(ts, p) is Ok,
    ensures
        stands_for(t, ts, p, atom_at(ts, p)->Ok_0.1, 5, atom_at(ts, p)->Ok_0.0),
    decreases ts.len() - p, 3int,
{
    let q = atom_at(ts, p)->Ok_0.1;
    match ts[p] {
        TokV::Num(s) => {
            assert(seq![ts[p]] =~= ts.subrange(p, q));
            Tree::Num(s)
        },
        TokV::LParen => {
            let x = lemma_group_tree(ts, p + 1);
            assert(seq![ts[p]] + ts.subrange(p + 1, q - 1) + seq![ts[q - 1]] =~= ts.subrange(p, q));
            Tree::Paren(Box::new(x))
        },
        TokV::Ident(n) => match constant_of(n) {
            Some(c) => {
                assert(seq![ts[p]] =~= ts.subrange(p, q));
                Tree::Const(n, c)
            },
            None => {
                let x = lemma_group_tree(ts, p + 2);
                assert(seq![ts[p], ts[p + 1]] + ts.subrange(p + 2, q - 1) + seq![ts[q - 1]]
                    =~= ts.subrange(p, q));
                Tree::Call(n, func_of(n)->0, Box::new(x))
            },
        },
        _ => Tree::Num(Seq::empty()),
    }
}

/// Only expressions are read: tokens that are taken whole are those of a tree, and the program
/// is that tree's.
pub proof fn law_only_expressions_read(ts: Seq<TokV>)
    requires
        expr_at(ts, 0) matches Ok((v, q)) && q == ts.len(),
    ensures
        exists|t: Tree| #[trigger]
            shows(t) && written(t) == ts && program(t) == expr_at(ts, 0)->Ok_0.0,
{
    let t = lemma_expr_tree(ts, 0);
    assert(ts.subrange(0, ts.len() as int) =~= ts);
    assert(shows(t));
}

/// A token that text can spell, names in small letters.
pub open spec fn spellable(t: TokV) -> bool {
    match t {
        TokV::Num(s) => number_ok(s) && forall|i: int| 0 <= i < s.len() ==> num_char(#[trigger] s[i]),
        TokV::Ident(s) => s.len() > 0 && name_start(s[0]) && forall|i: int|
            0 <= i < s.len() ==> ascii_lower(#[trigger] s[i]) || ascii_digit(s[i]),
        TokV::Op(c) => op_char(c),
        _ => true,
    }
}

/// The text of a token.
pub open spec fn spelled(t: TokV) -> Seq<char> {
    match t {
        TokV::Num(s) => s,
        TokV::Ident(s) => s,
        TokV::Op(c) => seq![c],
        TokV::LParen => seq!['('],
        TokV::RParen => seq![')'],
    }
}

/// The texts of tokens, a blank behind each.
pub open spec fn spelled_out(ts: Seq<TokV>) -> Seq<char>
    decreases ts.len(),
{
    if ts.len() == 0 {
        Seq::empty()
    } else {
        spelled(ts[0]) + seq![' '] + spelled_out(ts.skip(1))
    }
}

proof fn lemma_num_ends(s: Seq<char>, i: int, j: int)
    requires
        0 <= i <= j <= s.len(),
        forall|k: int| i <= k < j ==> num_char(#[trigger] s[k]),
        j == s.len() || !num_char(s[j]),
    ensures
        num_end(s, i) == j,
    decreases j - i,
{
    if i < j {
        lemma_num_ends(s, i + 1, j);
    }
}

proof fn lemma_name_ends(s: Seq<char>, i: int, j: int)
    requires
        0 <= i <= j <= s.len(),
        forall|k: int| i <= k < j ==> name_char(#[trigger] s[k]),
        j == s.len() || !name_char(s[j]),
    ensures
        name_end(s, i) == j,
    decreases j - i,
{
    if i < j {
        lemma_name_ends(s, i + 1, j);
    }
}

/// A token's text with a blank behind it is read as that token.
proof fn lemma_token(s: Seq<char>, i: int, t: TokV)
    requires
        spellable(t),
        0 <= i,
        i + spelled(t).len() < s.len(),
        s.subrange(i, i + spelled(t).len()) == spelled(t),
        s[i + spelled(t).len()] == ' ',
    ensures
        tokens_from(s, i) == led(t, tokens_from(s, i + spelled(t).len() + 1)),
{
    let w = spelled(t);
    let j = i + w.len();
    assert forall|k: int| i <= k < j implies #[trigger] s[k] == w[k - i] by {
        assert(s.subrange(i, j)[k - i] == s[k]);
    }
    assert(tokens_from(s, j) == tokens_from(s, j + 1));
    match t {
        TokV::Num(n) => {
            let d = choose|d: int| 0 <= d < n.len() && ascii_digit(#[trigger] n[d]);
            assert(num_char(w[0]));
            lemma_num_ends(s, i, j);
            assert(s.subrange(i, j) == n);
        },
        TokV::Ident(n) => {
            lemma_name_ends(s, i, j);
            assert(lower(n) =~= n);
        },
        _ => {},
    }
}

proof fn lemma_spelled_from(s: Seq<char>, i: int, ts: Seq<TokV>)
    requires
        0 <= i <= s.len(),
        s.skip(i) == spelled_out(ts),
        forall|k: int| 0 <= k < ts.len() ==> spellable(#[trigger] ts[k]),
    ensures
        tokens_from(s, i) == Tokens::Ok(ts),
    decreases ts.len(),
{
    if ts.len() == 0 {
        assert(s.skip(i).len() == 0);
        assert(ts =~= Seq::empty());
    } else {
        let w = spelled(ts[0]);
        let rest = spelled_out(ts.skip(1));
        let j = i + w.len();
        let all = s.skip(i);
        assert(all == w + seq![' '] + rest);
        assert(s.subrange(i, j) =~= all.take(w.len() as int));
        assert(all.take(w.len() as int) =~= w);
        assert(s[j] == all[w.len() as int]);
        assert(s.skip(j + 1) =~= all.skip((w.len() + 1) as int));
        assert(all.skip((w.len() + 1) as int) =~= rest);
        assert(spellable(ts[0]));
        lemma_token(s, i, ts[0]);
        assert forall|k: int| 0 <= k < ts.skip(1).len() implies spellable(
            #[trigger] ts.skip(1)[k],
        ) by {
            assert(spellable(ts[k + 1]));
        }
        lemma_spelled_from(s, j + 1, ts.skip(1));
        assert(seq![ts[0]] + ts.skip(1) =~= ts);
    }
}

/// Tokens written out are read back as they were.
pub proof fn law_tokens_read_back(ts: Seq<TokV>)
    requires
        forall|k: int| 0 <= k < ts.len() ==> spellable(#[trigger] ts[k]),
    ensures
        tokens_from(spelled_out(ts), 0) == Tokens::Ok(ts),
{
    assert(spelled_out(ts).skip(0) =~= spelled_out(ts));
    lemma_spelled_from(spelled_out(ts), 0, ts);
}

/// The text of an expression has that expression's program.
pub proof fn law_text_has_program(t: Tree)
    requires
        shows(t),
        forall|k: int| 0 <= k < written(t).len() ==> spellable(#[trigger] written(t)[k]),
    ensures
        program_of(spelled_out(written(t))) == Ok::<_, CalcErrV>(program(t)),
{
    law_tokens_read_back(written(t));
    law_operators_bind(t);
}

/// Where blanks stand between tokens does not matter: leading ones go, and tokens read from a
/// place are those of the text from there on.
pub proof fn law_blanks_are_skipped(s: Seq<char>, i: int, j: int)
    requires
        0 <= i <= j <= s.len(),
        forall|k: int| i <= k < j ==> is_space(#[trigger] s[k]),
    ensures
        tokens_from(s, i) == tokens_from(s, j),
    decreases j - i,
{
    if i < j {
        law_blanks_are_skipped(s, i + 1, j);
    }
}

} // verus!
