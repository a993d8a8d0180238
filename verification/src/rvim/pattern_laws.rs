//! Laws of substitution: what a replaced line is made of.

use vstd::prelude::*;

use crate::rvim::buffer::TextV;
use crate::rvim::pattern::{
    lemma_next_occ, next_occ, occurrences, occurs, replaced, sub_lines, substituted,
};
use crate::rvim::vim::excmd::split_substitute;

verus! {

/// The pieces `xs` in order, with `sep` between each two of them.
pub open spec fn joined(xs: Seq<Seq<char>>, sep: Seq<char>) -> Seq<char>
    decreases xs.len(),
{
    if xs.len() == 0 {
        Seq::empty()
    } else if xs.len() == 1 {
        xs[0]
    } else {
        xs[0] + sep + joined(xs.skip(1), sep)
    }
}

/// `p` stands nowhere in `x`.
pub open spec fn free_of(x: Seq<char>, p: Seq<char>) -> bool {
    forall|a: Seq<char>, b: Seq<char>| x != #[trigger] (a + p + b)
}

/// In `x` with `p` behind it, `p` stands nowhere further left than that.
pub open spec fn first_behind(x: Seq<char>, p: Seq<char>) -> bool {
    forall|a: Seq<char>, b: Seq<char>| x + p == #[trigger] (a + p + b) ==> a.len() >= x.len()
}

/// The line is the pieces with `p` between them, each `p` the leftmost one of what is left of
/// the line, and none is left over.
pub open spec fn cut_at(line: Seq<char>, p: Seq<char>, xs: Seq<Seq<char>>) -> bool {
    &&& xs.len() >= 1
    &&& line == joined(xs, p)
    &&& forall|k: int| 0 <= k < xs.len() ==> free_of(#[trigger] xs[k], p)
    &&& forall|k: int| 0 <= k < xs.len() - 1 ==> first_behind(#[trigger] xs[k], p)
}

/// Where a pattern splits a sequence, it occurs.
proof fn lemma_split_occurs(x: Seq<char>, p: Seq<char>, a: Seq<char>, b: Seq<char>)
    requires
        x == a + p + b,
    ensures
        occurs(x, p, a.len() as int),
{
    assert(x.subrange(a.len() as int, (a.len() + p.len()) as int) =~= p);
}

/// Where a pattern splits a part of a sequence, it occurs in the sequence.
proof fn lemma_occurs_in_part(
    s: Seq<char>,
    i: int,
    j: int,
    p: Seq<char>,
    a: Seq<char>,
    b: Seq<char>,
)
    requires
        0 <= i <= j <= s.len(),
        s.subrange(i, j) == a + p + b,
    ensures
        occurs(s, p, i + a.len()),
        a.len() + p.len() <= j - i,
{
    let x = s.subrange(i, j);
    lemma_split_occurs(x, p, a, b);
    let k = a.len() as int;
    assert(x.len() == a.len() + p.len() + b.len());
    assert(s.subrange(i + k, i + k + p.len()) =~= x.subrange(k, k + p.len()));
}

proof fn lemma_free(s: Seq<char>, p: Seq<char>, i: int, j: int)
    requires
        0 <= i <= j <= s.len(),
        forall|k: int| i <= k < j ==> !occurs(s, p, k),
        p.len() > 0,
    ensures
        free_of(s.subrange(i, j), p),
{
    let x = s.subrange(i, j);
    assert forall|a: Seq<char>, b: Seq<char>| x != #[trigger] (a + p + b) by {
        if x == a + p + b {
            lemma_occurs_in_part(s, i, j, p, a, b);
        }
    }
}

proof fn lemma_first(s: Seq<char>, p: Seq<char>, i: int, j: int)
    requires
        0 <= i <= j <= s.len(),
        forall|k: int| i <= k < j ==> !occurs(s, p, k),
        occurs(s, p, j),
    ensures
        first_behind(s.subrange(i, j), p),
{
    let x = s.subrange(i, j);
    assert(x + p =~= s.subrange(i, j + p.len())) by {
        assert(s.subrange(j, j + p.len()) == p);
    }
    assert forall|a: Seq<char>, b: Seq<char>| x + p == #[trigger] (a + p + b) implies a.len()
        >= x.len() by {
        lemma_occurs_in_part(s, i, j + p.len(), p, a, b);
    }
}

proof fn lemma_cut(s: Seq<char>, p: Seq<char>, r: Seq<char>, i: int) -> (xs: Seq<Seq<char>>)
    requires
        p.len() > 0,
        0 <= i <= s.len(),
    ensures
        cut_at(s.skip(i), p, xs),
        replaced(s, p, r, i) == joined(xs, r),
        xs.len() == occurrences(s, p, i) + 1,
        joined(xs, r).len() == s.len() - i + occurrences(s, p, i) * (r.len() - p.len()),
    decreases s.len() - i,
{
    lemma_next_occ(s, p, i);
    match next_occ(s, p, i) {
        Some(j) => {
            let ys = lemma_cut(s, p, r, j + p.len());
            let x = s.subrange(i, j);
            let xs = seq![x] + ys;
            assert(xs.skip(1) =~= ys);
            lemma_free(s, p, i, j);
            lemma_first(s, p, i, j);
            assert(s.subrange(j, j + p.len()) == p);
            assert(x + p + s.skip(j + p.len()) =~= s.skip(i));
            assert forall|k: int| 0 <= k < xs.len() implies free_of(#[trigger] xs[k], p) by {
                if k > 0 {
                    assert(xs[k] == ys[k - 1]);
                }
            }
            assert forall|k: int| 0 <= k < xs.len() - 1 implies first_behind(
                #[trigger] xs[k],
                p,
            ) by {
                if k > 0 {
                    assert(xs[k] == ys[k - 1]);
                }
            }
            let n = occurrences(s, p, j + p.len());
            let d = r.len() - p.len();
            assert((n + 1) * d == n * d + d) by (nonlinear_arith);
            xs
        },
        None => {
            let xs = seq![s.skip(i)];
            assert(s.skip(i) =~= s.subrange(i, s.len() as int));
            lemma_free(s, p, i, s.len() as int);
            xs
        },
    }
}

/// Substituting everywhere cuts the line at the pattern, left to right and without overlap, and
/// puts the replacement where the pattern stood; the count is the number of cuts, and each
/// changes the length by the difference of the two.
pub proof fn law_substitute_everywhere(line: Seq<char>, p: Seq<char>, r: Seq<char>)
    requires
        p.len() > 0,
    ensures
        ({
            let (new, n) = substituted(line, p, r, true);
            &&& exists|xs: Seq<Seq<char>>| #[trigger]
                cut_at(line, p, xs) && new == joined(xs, r) && xs.len() == n + 1
            &&& new.len() == line.len() + n * (r.len() - p.len())
        }),
{
    let xs = lemma_cut(line, p, r, 0);
    assert(line.skip(0) =~= line);
    assert(cut_at(line, p, xs));
}

/// There is one way to cut a line at a pattern, so a substitution has one result.
pub proof fn law_cut_is_unique(
    line: Seq<char>,
    p: Seq<char>,
    xs: Seq<Seq<char>>,
    ys: Seq<Seq<char>>,
)
    requires
        p.len() > 0,
        cut_at(line, p, xs),
        cut_at(line, p, ys),
    ensures
        xs == ys,
    decreases xs.len(),
{
    if xs.len() == 1 && ys.len() == 1 {
        assert(xs =~= ys);
    } else if xs.len() == 1 {
        let rest = joined(ys.skip(1), p);
        assert(xs[0] == ys[0] + p + rest);
        assert(free_of(xs[0], p));
    } else if ys.len() == 1 {
        let rest = joined(xs.skip(1), p);
        assert(ys[0] == xs[0] + p + rest);
        assert(free_of(ys[0], p));
    } else {
        let (x, y) = (xs[0], ys[0]);
        let (u, v) = (joined(xs.skip(1), p), joined(ys.skip(1), p));
        lemma_first_once(line, p, x, u, y, v);
        lemma_first_once(line, p, y, v, x, u);
        assert(x =~= line.take(x.len() as int));
        assert(y =~= line.take(y.len() as int));
        assert(u =~= line.skip((x.len() + p.len()) as int));
        assert(v =~= line.skip((y.len() + p.len()) as int));
        assert forall|k: int| 0 <= k < xs.skip(1).len() implies free_of(
            #[trigger] xs.skip(1)[k],
            p,
        ) by {
            assert(free_of(xs[k + 1], p));
        }
        assert forall|k: int| 0 <= k < ys.skip(1).len() implies free_of(
            #[trigger] ys.skip(1)[k],
            p,
        ) by {
            assert(free_of(ys[k + 1], p));
        }
        assert forall|k: int| 0 <= k < xs.skip(1).len() - 1 implies first_behind(
            #[trigger] xs.skip(1)[k],
            p,
        ) by {
            assert(first_behind(xs[k + 1], p));
        }
        assert forall|k: int| 0 <= k < ys.skip(1).len() - 1 implies first_behind(
            #[trigger] ys.skip(1)[k],
            p,
        ) by {
            assert(first_behind(ys[k + 1], p));
        }
        law_cut_is_unique(u, p, xs.skip(1), ys.skip(1));
        assert(xs =~= seq![x] + xs.skip(1));
        assert(ys =~= seq![y] + ys.skip(1));
    }
}

/// Of two splits of a line at a pattern, the one that is leftmost is no longer.
proof fn lemma_first_once(
    line: Seq<char>,
    p: Seq<char>,
    x: Seq<char>,
    u: Seq<char>,
    y: Seq<char>,
    v: Seq<char>,
)
    requires
        line == x + p + u,
        line == y + p + v,
        first_behind(x, p),
    ensures
        x.len() <= y.len(),
{
    if y.len() < x.len() {
        let n = (x.len() - y.len()) as int;
        let b = line.subrange((y.len() + p.len()) as int, (x.len() + p.len()) as int);
        assert(x + p =~= line.take((x.len() + p.len()) as int));
        assert(y + p =~= line.take((y.len() + p.len()) as int));
        assert(x + p =~= y + p + b);
    }
}

/// Substituting once replaces the leftmost pattern alone; a line without it stays as it is.
pub proof fn law_substitute_once(line: Seq<char>, p: Seq<char>, r: Seq<char>)
    requires
        p.len() > 0,
    ensures
        ({
            let (new, n) = substituted(line, p, r, false);
            ||| free_of(line, p) && new == line && n == 0
            ||| n == 1 && exists|a: Seq<char>, b: Seq<char>|
                line == #[trigger] (a + p + b) && new == a + r + b && first_behind(a, p)
        }),
{
    lemma_next_occ(line, p, 0);
    match next_occ(line, p, 0) {
        Some(j) => {
            lemma_first(line, p, 0, j);
            let (a, b) = (line.take(j), line.skip(j + p.len()));
            assert(line.subrange(j, j + p.len()) == p);
            assert(line =~= a + p + b);
            assert(a =~= line.subrange(0, j));
            assert(first_behind(a, p));
        },
        None => {
            lemma_free(line, p, 0, line.len() as int);
            assert(line.subrange(0, line.len() as int) =~= line);
        },
    }
}

/// A substitution over lines changes each of them as it would alone and no line beside them.
/// The count of lines hit is the number of lines of the range that hold the pattern.
pub proof fn law_substitute_range(
    t: TextV,
    first: int,
    p: Seq<char>,
    r: Seq<char>,
    global: bool,
    n: int,
)
    requires
        p.len() > 0,
        0 <= first,
        0 <= n,
        first + n <= t.lines.len(),
    ensures
        ({
            let u = sub_lines(t, first, p, r, global, n);
            &&& u.text.lines.len() == t.lines.len()
            &&& forall|l: int|
                0 <= l < t.lines.len() ==> #[trigger] u.text.lines[l] == if first <= l < first + n {
                    substituted(t.lines[l], p, r, global).0
                } else {
                    t.lines[l]
                }
            &&& u.lines_hit == t.lines.subrange(first, first + n).filter(
                |x: Seq<char>| !free_of(x, p),
            ).len()
            &&& u.subs == t.lines.subrange(first, first + n).fold_left(
                0,
                |k: int, x: Seq<char>| k + substituted(x, p, r, global).1,
            )
            &&& u.lines_hit > 0 ==> first <= u.last_line < first + n && !free_of(
                t.lines[u.last_line],
                p,
            ) && forall|l: int|
                u.last_line < l < first + n ==> free_of(#[trigger] t.lines[l], p)
        }),
    decreases n,
{
    reveal(TextV::line_set);
    let held = |x: Seq<char>| !free_of(x, p);
    let more = |k: int, x: Seq<char>| k + substituted(x, p, r, global).1;
    if n == 0 {
        assert(t.lines.subrange(first, first) =~= Seq::empty());
        reveal(Seq::filter);
    } else {
        law_substitute_range(t, first, p, r, global, n - 1);
        let l = first + n - 1;
        let line = t.lines[l];
        assert(t.lines.subrange(first, first + n) =~= t.lines.subrange(first, l).push(line));
        assert(t.lines.subrange(first, first + n).drop_last() =~= t.lines.subrange(first, l));
        reveal(Seq::filter);
        let u = sub_lines(t, first, p, r, global, n - 1);
        assert(u.text.lines[l] == line);
        lemma_hit(line, p, r, global);
    }
}

proof fn lemma_hit(line: Seq<char>, p: Seq<char>, r: Seq<char>, global: bool)
    requires
        p.len() > 0,
    ensures
        substituted(line, p, r, global).1 > 0 <==> !free_of(line, p),
        substituted(line, p, r, global).1 >= 0,
        free_of(line, p) ==> substituted(line, p, r, global).0 == line,
{
    if global {
        let xs = lemma_cut(line, p, r, 0);
        assert(line.skip(0) =~= line);
        if xs.len() > 1 {
            assert(line == xs[0] + p + joined(xs.skip(1), p));
        } else {
            assert(free_of(xs[0], p));
        }
    } else {
        law_substitute_once(line, p, r);
    }
}

/// What stands between the slashes of `pat/rep/flags`, in that order; a pattern and a
/// replacement hold no slash.
pub proof fn law_substitute_parts(p: Seq<char>, r: Seq<char>, f: Seq<char>)
    requires
        !p.contains('/'),
        !r.contains('/'),
    ensures
        split_substitute(p + seq!['/'] + r + seq!['/'] + f) == (p, r, f),
        split_substitute(p + seq!['/'] + r) == (p, r, Seq::<char>::empty()),
        split_substitute(p) == (p, Seq::<char>::empty(), Seq::<char>::empty()),
{
    let s = p + seq!['/'] + r + seq!['/'] + f;
    let i = p.len() as int;
    let j = i + 1 + r.len();
    lemma_slash(s, 0, i);
    lemma_slash(s, i + 1, j);
    assert(s.take(i) =~= p);
    assert(s.subrange(i + 1, j) =~= r);
    assert(s.skip(j + 1) =~= f);
    let t = p + seq!['/'] + r;
    lemma_slash(t, 0, i);
    lemma_slash(t, i + 1, j);
    assert(t.take(i) =~= p);
    assert(t.skip(i + 1) =~= r);
    lemma_slash(p, 0, i);
}

proof fn lemma_slash(s: Seq<char>, i: int, j: int)
    requires
        0 <= i <= j <= s.len(),
        forall|k: int| i <= k < j ==> #[trigger] s[k] != '/',
        j == s.len() || s[j] == '/',
    ensures
        crate::rvim::objects::next_char(s, '/', i) == j,
    decreases j - i,
{
    if i < j {
        lemma_slash(s, i + 1, j);
    }
}

} // verus!
