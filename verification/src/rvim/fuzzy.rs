//! Fuzzy subsequence matching with scoring.

use vstd::prelude::*;

use crate::text::to_chars;
use crate::unicode::{is_lower, is_upper, lower, lower_char};

verus! {

pub const START_BONUS: i32 = 10;

pub const BOUNDARY_BONUS: i32 = 8;

pub const CAMEL_BONUS: i32 = 6;

pub const CONSECUTIVE_BONUS: i32 = 5;

pub const GAP_PENALTY: i32 = 1;

/// Case-folded char equality.
pub open spec fn same_folded(a: char, b: char) -> bool {
    a == b || lower(seq![a]) == lower(seq![b])
}

pub open spec fn is_boundary(c: char) -> bool {
    c == '/' || c == '.' || c == '_' || c == '-' || c == ' '
}

/// Positional bonus for matching candidate char `j`.
pub open spec fn bonus(c: Seq<char>, j: int) -> int {
    if j == 0 {
        START_BONUS as int
    } else if is_boundary(c[j - 1]) {
        BOUNDARY_BONUS as int
    } else if is_lower(c[j - 1]) && is_upper(c[j]) {
        CAMEL_BONUS as int
    } else {
        0
    }
}

/// What it is worth to match neighbouring query chars at `k` and `j`: a bonus side by side, a
/// penalty per char in between.
pub open spec fn link(k: int, j: int) -> int {
    if j == k + 1 {
        CONSECUTIVE_BONUS as int
    } else {
        -(j - k - 1) * GAP_PENALTY
    }
}

/// `e` is a way to find the query in the candidate: ascending indices of matching chars.
pub open spec fn embeds(q: Seq<char>, c: Seq<char>, e: Seq<int>) -> bool {
    &&& e.len() == q.len()
    &&& forall|i: int| 0 <= i < e.len() ==> 0 <= #[trigger] e[i] < c.len() && same_folded(q[i], c[e[i]])
    &&& forall|i: int, k: int| 0 <= i < k < e.len() ==> #[trigger] e[i] < #[trigger] e[k]
}

/// The score of matched indices.
pub open spec fn embed_score(c: Seq<char>, e: Seq<int>) -> int
    decreases e.len(),
{
    if e.len() == 0 {
        0
    } else if e.len() == 1 {
        bonus(c, e[0])
    } else {
        embed_score(c, e.drop_last()) + link(e[e.len() - 2], e.last()) + bonus(c, e.last())
    }
}

/// Best score with query char `i` matched at candidate char `j`.
pub open spec fn best_at(q: Seq<char>, c: Seq<char>, i: int, j: int) -> Option<int>
    decreases i, c.len() + 1,
{
    if i < 0 || j < 0 || j >= c.len() || !same_folded(q[i], c[j]) {
        None
    } else if i == 0 {
        Some(bonus(c, j))
    } else {
        match parent(q, c, i, j, j) {
            None => None,
            Some(k) => match best_at(q, c, i - 1, k) {
                None => None,
                Some(v) => Some(v + link(k, j) + bonus(c, j)),
            },
        }
    }
}

/// Where, below `lim`, the query char before `i` is best matched if `i` is matched at `j`; the
/// rightmost of equally good places.
pub open spec fn parent(q: Seq<char>, c: Seq<char>, i: int, j: int, lim: int) -> Option<int>
    decreases i, lim,
{
    if i <= 0 || lim <= 0 || lim > c.len() {
        None
    } else {
        let p = parent(q, c, i, j, lim - 1);
        match best_at(q, c, i - 1, lim - 1) {
            None => p,
            Some(v) => match p {
                None => Some(lim - 1),
                Some(k) => if v + link(lim - 1, j) >= best_at(q, c, i - 1, k)->0 + link(k, j) {
                    Some(lim - 1)
                } else {
                    p
                },
            },
        }
    }
}

/// Where, below `lim`, the last query char is best matched; the leftmost of equally good
/// places.
pub open spec fn best_end(q: Seq<char>, c: Seq<char>, lim: int) -> Option<int>
    decreases lim,
{
    if lim <= 0 {
        None
    } else {
        let p = best_end(q, c, lim - 1);
        match best_at(q, c, q.len() - 1, lim - 1) {
            None => p,
            Some(v) => match p {
                None => Some(lim - 1),
                Some(k) => if v > best_at(q, c, q.len() - 1, k)->0 {
                    Some(lim - 1)
                } else {
                    p
                },
            },
        }
    }
}

/// The matched indices up to query char `i` at `j`.
pub open spec fn path(q: Seq<char>, c: Seq<char>, i: int, j: int) -> Seq<int>
    decreases i,
{
    if i <= 0 {
        seq![j]
    } else {
        path(q, c, i - 1, parent(q, c, i, j, j)->0).push(j)
    }
}

/// The best match of the query in the candidate: its score and its indices.
pub open spec fn fuzzy(q: Seq<char>, c: Seq<char>) -> Option<(int, Seq<int>)> {
    if q.len() == 0 {
        Some((0, Seq::empty()))
    } else {
        match best_end(q, c, c.len() as int) {
            None => None,
            Some(j) => Some((best_at(q, c, q.len() - 1, j)->0, path(q, c, q.len() - 1, j))),
        }
    }
}

/// The nearest 32-bit number.
pub open spec fn saturated(x: int) -> i32 {
    if x < i32::MIN {
        i32::MIN
    } else if x > i32::MAX {
        i32::MAX
    } else {
        x as i32
    }
}

proof fn lemma_parent(q: Seq<char>, c: Seq<char>, i: int, j: int, lim: int)
    ensures
        match parent(q, c, i, j, lim) {
            Some(p) => {
                &&& 0 <= p < lim
                &&& p < c.len()
                &&& best_at(q, c, i - 1, p) is Some
                &&& forall|k: int|
                    0 <= k < lim && (#[trigger] best_at(q, c, i - 1, k)) is Some ==> best_at(
                        q,
                        c,
                        i - 1,
                        k,
                    )->0 + link(k, j) <= best_at(q, c, i - 1, p)->0 + link(p, j)
            },
            None => i > 0 && lim <= c.len() ==> forall|k: int|
                0 <= k < lim ==> (#[trigger] best_at(q, c, i - 1, k)) is None,
        },
    decreases lim,
{
    if !(i <= 0 || lim <= 0 || lim > c.len()) {
        lemma_parent(q, c, i, j, lim - 1);
    }
}

/// Moving the right end one step further leaves the order of the places left of it as it was.
proof fn lemma_parent_shift(q: Seq<char>, c: Seq<char>, i: int, j: int, lim: int)
    requires
        lim <= j - 1,
    ensures
        parent(q, c, i, j, lim) == parent(q, c, i, j + 1, lim),
    decreases lim,
{
    if !(i <= 0 || lim <= 0 || lim > c.len()) {
        lemma_parent_shift(q, c, i, j, lim - 1);
        lemma_parent(q, c, i, j, lim - 1);
    }
}

proof fn lemma_best_end(q: Seq<char>, c: Seq<char>, lim: int)
    requires
        q.len() > 0,
        lim <= c.len(),
    ensures
        match best_end(q, c, lim) {
            Some(p) => {
                &&& 0 <= p < lim
                &&& best_at(q, c, q.len() - 1, p) is Some
                &&& forall|k: int|
                    0 <= k < lim && (#[trigger] best_at(q, c, q.len() - 1, k)) is Some ==> best_at(
                        q,
                        c,
                        q.len() - 1,
                        k,
                    )->0 <= best_at(q, c, q.len() - 1, p)->0
            },
            None => forall|k: int|
                0 <= k < lim ==> (#[trigger] best_at(q, c, q.len() - 1, k)) is None,
        },
    decreases lim,
{
    if lim > 0 {
        lemma_best_end(q, c, lim - 1);
    }
}

proof fn lemma_bounds(q: Seq<char>, c: Seq<char>, i: int, j: int)
    ensures
        best_at(q, c, i, j) matches Some(v) ==> -j <= v <= 15 * (i + 1) && i <= j,
    decreases i,
{
    if i > 0 && best_at(q, c, i, j) is Some {
        lemma_parent(q, c, i, j, j);
        lemma_bounds(q, c, i - 1, parent(q, c, i, j, j)->0);
    }
}

proof fn lemma_path(q: Seq<char>, c: Seq<char>, i: int, j: int)
    requires
        0 <= i < q.len(),
        best_at(q, c, i, j) is Some,
    ensures
        embeds(q.take(i + 1), c, path(q, c, i, j)),
        path(q, c, i, j).last() == j,
        embed_score(c, path(q, c, i, j)) == best_at(q, c, i, j)->0,
    decreases i,
{
    let e = path(q, c, i, j);
    if i > 0 {
        let k = parent(q, c, i, j, j)->0;
        lemma_parent(q, c, i, j, j);
        lemma_path(q, c, i - 1, k);
        let d = path(q, c, i - 1, k);
        assert(e.drop_last() =~= d);
        assert(d.len() == i);
        assert forall|x: int| 0 <= x < e.len() implies 0 <= #[trigger] e[x] < c.len()
            && same_folded(q.take(i + 1)[x], c[e[x]]) by {
            if x < i {
                assert(e[x] == d[x]);
                assert(q.take(i)[x] == q[x]);
            }
        }
        assert forall|x: int, y: int| 0 <= x < y < e.len() implies #[trigger] e[x] < #[trigger] e[y] by {
            if y < i {
                assert(d[x] < d[y]);
            } else if x < i - 1 {
                assert(d[x] < d[i - 1]);
            }
        }
    }
}

proof fn lemma_best_at_bounds_embeds(q: Seq<char>, c: Seq<char>, i: int, e: Seq<int>)
    requires
        0 <= i < q.len(),
        embeds(q.take(i + 1), c, e),
    ensures
        best_at(q, c, i, e.last()) is Some,
        embed_score(c, e) <= best_at(q, c, i, e.last())->0,
    decreases i,
{
    let j = e.last();
    assert(q.take(i + 1)[i] == q[i]);
    assert(e[i] == j);
    if i > 0 {
        let d = e.drop_last();
        assert forall|x: int| 0 <= x < d.len() implies 0 <= #[trigger] d[x] < c.len()
            && same_folded(q.take(i)[x], c[d[x]]) by {
            assert(d[x] == e[x]);
            assert(q.take(i)[x] == q.take(i + 1)[x]);
        }
        assert forall|x: int, y: int| 0 <= x < y < d.len() implies #[trigger] d[x] < #[trigger] d[y] by {
            assert(e[x] < e[y]);
        }
        lemma_best_at_bounds_embeds(q, c, i - 1, d);
        let k = d.last();
        assert(e[i - 1] == k);
        assert(e[i - 1] < e[i]);
        lemma_parent(q, c, i, j, j);
    }
}

/// A match found is the best there is: its indices embed the query in the candidate, they
/// score what is reported, and no other embedding scores more. No match is reported only when
/// the query cannot be embedded at all.
pub proof fn law_fuzzy_is_best(q: Seq<char>, c: Seq<char>)
    ensures
        match fuzzy(q, c) {
            Some((s, e)) => {
                &&& embeds(q, c, e)
                &&& embed_score(c, e) == s
                &&& forall|f: Seq<int>| #[trigger] embeds(q, c, f) ==> embed_score(c, f) <= s
            },
            None => forall|f: Seq<int>| !(#[trigger] embeds(q, c, f)),
        },
{
    if q.len() > 0 {
        let m = q.len() - 1;
        assert(q.take(m + 1) =~= q);
        lemma_best_end(q, c, c.len() as int);
        assert forall|f: Seq<int>| #[trigger] embeds(q, c, f) implies best_end(
            q,
            c,
            c.len() as int,
        ) matches Some(j) && embed_score(c, f) <= best_at(q, c, m, j)->0 by {
            lemma_best_at_bounds_embeds(q, c, m, f);
            assert(0 <= f[m] < c.len());
        }
        if let Some(j) = best_end(q, c, c.len() as int) {
            lemma_path(q, c, m, j);
        }
    } else {
        assert forall|f: Seq<int>| #[trigger] embeds(q, c, f) implies embed_score(c, f) <= 0 by {}
    }
}

/// A query is never found in a shorter candidate.
pub proof fn law_fuzzy_needs_length(q: Seq<char>, c: Seq<char>)
    requires
        q.len() > c.len(),
    ensures
        fuzzy(q, c) is None,
{
    lemma_best_end(q, c, c.len() as int);
    if let Some(j) = best_end(q, c, c.len() as int) {
        lemma_bounds(q, c, q.len() - 1, j);
    }
}

fn chars_eq(a: char, b: char) -> (r: bool)
    ensures
        r == same_folded(a, b),
{
    a == b || lower_char(a) == lower_char(b)
}

fn match_bonus(cand: &[char], j: usize) -> (r: i128)
    requires
        j < cand@.len(),
    ensures
        r == bonus(cand@, j as int),
        0 <= r <= 10,
{
    if j == 0 {
        return START_BONUS as i128;
    }
    let prev = cand[j - 1];
    if prev == '/' || prev == '.' || prev == '_' || prev == '-' || prev == ' ' {
        return BOUNDARY_BONUS as i128;
    }
    if prev.is_lowercase() && cand[j].is_uppercase() {
        return CAMEL_BONUS as i128;
    }
    0
}

/// One row of best scores: query char `i` at every candidate char.
spec fn row_ok(q: Seq<char>, c: Seq<char>, i: int, row: Seq<Option<i128>>, n: int) -> bool {
    row.len() == n && forall|j: int|
        0 <= j < n ==> match #[trigger] row[j] {
            Some(v) => best_at(q, c, i, j) == Some(v as int),
            None => best_at(q, c, i, j) is None,
        }
}

/// The predecessors of one row's matches.
spec fn parents_ok(q: Seq<char>, c: Seq<char>, i: int, par: Seq<usize>, n: int) -> bool {
    par.len() == n && forall|j: int|
        0 <= j < n && best_at(q, c, i, j) is Some && i > 0 ==> parent(q, c, i, j, j) == Some(
            #[trigger] par[j] as int,
        )
}

/// The first row: the first query char wherever it matches.
fn first_row(q: &Vec<char>, cand: &Vec<char>) -> (r: Vec<Option<i128>>)
    requires
        q@.len() > 0,
    ensures
        row_ok(q@, cand@, 0, r@, cand@.len() as int),
{
    let mut row: Vec<Option<i128>> = Vec::new();
    for j in 0..cand.len()
        invariant
            q@.len() > 0,
            row_ok(q@, cand@, 0, row@, j as int),
    {
        if chars_eq(q[0], cand[j]) {
            row.push(Some(match_bonus(cand.as_slice(), j)));
        } else {
            row.push(None);
        }
    }
    row
}

/// The next row and its predecessors from the row before.
fn next_row(q: &Vec<char>, cand: &Vec<char>, i: usize, prev: &Vec<Option<i128>>) -> (r: (
    Vec<Option<i128>>,
    Vec<usize>,
))
    requires
        0 < i < q@.len(),
        row_ok(q@, cand@, i - 1, prev@, cand@.len() as int),
    ensures
        row_ok(q@, cand@, i as int, r.0@, cand@.len() as int),
        parents_ok(q@, cand@, i as int, r.1@, cand@.len() as int),
{
    let mut row: Vec<Option<i128>> = Vec::new();
    let mut par: Vec<usize> = Vec::new();
    // Best gapped predecessor left of the adjacent one, with its value for this column.
    let mut gap: Option<(i128, usize)> = None;
    for j in 0..cand.len()
        invariant
            0 < i < q@.len(),
            row_ok(q@, cand@, i - 1, prev@, cand@.len() as int),
            row_ok(q@, cand@, i as int, row@, j as int),
            parents_ok(q@, cand@, i as int, par@, j as int),
            match gap {
                Some((v, k)) => {
                    &&& parent(q@, cand@, i as int, j as int, j - 1) == Some(k as int)
                    &&& 0 <= k < j - 1
                    &&& best_at(q@, cand@, i - 1, k as int) is Some
                    &&& v == best_at(q@, cand@, i - 1, k as int)->0 + link(k as int, j as int)
                },
                None => parent(q@, cand@, i as int, j as int, j - 1) is None,
            },
    {
        let ghost iv = i as int;
        let ghost jv = j as int;
        if j == 0 {
            row.push(None);
            par.push(0);
        } else {
            let adj = prev[j - 1];
            proof {
                lemma_bounds(q@, cand@, iv - 1, jv - 1);
                if gap is Some {
                    lemma_bounds(q@, cand@, iv - 1, (gap->0).1 as int);
                }
            }
            let mut val: Option<(i128, usize)> = match adj {
                Some(v) => Some((v + CONSECUTIVE_BONUS as i128, j - 1)),
                None => None,
            };
            if let Some((g, k)) = gap {
                let better = match val {
                    Some((v, _)) => g > v,
                    None => true,
                };
                if better {
                    val = Some((g, k));
                }
            }
            assert(match val {
                Some((v, k)) => parent(q@, cand@, iv, jv, jv) == Some(k as int) && best_at(
                    q@,
                    cand@,
                    iv - 1,
                    k as int,
                ) is Some && v == best_at(q@, cand@, iv - 1, k as int)->0 + link(k as int, jv),
                None => parent(q@, cand@, iv, jv, jv) is None,
            });
            match val {
                Some((v, k)) => {
                    if chars_eq(q[i], cand[j]) {
                        row.push(Some(v + match_bonus(cand.as_slice(), j)));
                    } else {
                        row.push(None);
                    }
                    par.push(k);
                },
                None => {
                    row.push(None);
                    par.push(0);
                },
            }
            // Fold the adjacent place into the gapped ones for the next column.
            proof {
                lemma_parent_shift(q@, cand@, iv, jv, jv - 1);
            }
            let entering: Option<i128> = match adj {
                Some(v) => Some(v - GAP_PENALTY as i128),
                None => None,
            };
            gap = match (entering, gap) {
                (Some(e), Some((g, k))) => {
                    if e >= g - GAP_PENALTY as i128 {
                        Some((e, j - 1))
                    } else {
                        Some((g - GAP_PENALTY as i128, k))
                    }
                },
                (Some(e), None) => Some((e, j - 1)),
                (None, Some((g, k))) => Some((g - GAP_PENALTY as i128, k)),
                (None, None) => None,
            };
        }
    }
    (row, par)
}

fn to_i32(x: i128) -> (r: i32)
    ensures
        r == saturated(x as int),
{
    if x < i32::MIN as i128 {
        i32::MIN
    } else if x > i32::MAX as i128 {
        i32::MAX
    } else {
        x as i32
    }
}

/// The indices as plain numbers.
pub open spec fn ints(v: Seq<usize>) -> Seq<int> {
    Seq::new(v.len(), |i: int| v[i] as int)
}

/// Score `query` against `candidate`; `None` when it is not a subsequence.
/// Higher is better; returns the matched char indices for highlighting.
pub fn fuzzy_match(query: &str, candidate: &str) -> (r: Option<(i32, Vec<usize>)>)
    ensures
        match fuzzy(query@, candidate@) {
            Some((s, e)) => r is Some && (r->0).0 == saturated(s) && ints((r->0).1@) == e,
            None => r is None,
        },
{
    let q = to_chars(query);
    let cand = to_chars(candidate);
    let (m, n): (usize, usize) = (q.len(), cand.len());
    if m == 0 {
        let e: Vec<usize> = Vec::new();
        assert(ints(e@) =~= Seq::<int>::empty());
        return Some((0, e));
    }
    if m > n {
        proof {
            law_fuzzy_needs_length(q@, cand@);
        }
        return None;
    }
    let mut row = first_row(&q, &cand);
    let mut parents: Vec<Vec<usize>> = Vec::new();
    parents.push(Vec::new());
    for i in 1..m
        invariant
            m == q@.len(),
            n == cand@.len(),
            parents@.len() == i,
            row_ok(q@, cand@, i - 1, row@, n as int),
            forall|k: int|
                0 < k < i ==> parents_ok(q@, cand@, k, (#[trigger] parents@[k])@, n as int),
    {
        let (next, par) = next_row(&q, &cand, i, &row);
        row = next;
        parents.push(par);
    }
    let mut best: Option<(i128, usize)> = None;
    for j in 0..n
        invariant
            m == q@.len(),
            n == cand@.len(),
            m > 0,
            row_ok(q@, cand@, m - 1, row@, n as int),
            match best {
                Some((v, k)) => best_end(q@, cand@, j as int) == Some(k as int) && k < j && best_at(
                    q@,
                    cand@,
                    m - 1,
                    k as int,
                ) == Some(v as int),
                None => best_end(q@, cand@, j as int) is None,
            },
    {
        if let Some(v) = row[j] {
            let better = match best {
                Some((b, _)) => v > b,
                None => true,
            };
            if better {
                best = Some((v, j));
            }
        }
    }
    match best {
        None => None,
        Some((v, end)) => {
            let mut indices: Vec<usize> = Vec::new();
            let mut j: usize = end;
            let mut i: usize = m - 1;
            proof {
                lemma_path(q@, cand@, m - 1, end as int);
            }
            indices.push(j);
            assert(ints(indices@).reverse() =~= seq![j as int]);
            assert(path(q@, cand@, i as int, j as int) =~= path(q@, cand@, i as int, j as int).drop_last()
                + seq![j as int]);
            while i > 0
                invariant
                    i < m,
                    m == q@.len(),
                    n == cand@.len(),
                    parents@.len() == m,
                    forall|k: int|
                        0 < k < m ==> parents_ok(q@, cand@, k, (#[trigger] parents@[k])@, n as int),
                    0 <= j < n,
                    best_at(q@, cand@, i as int, j as int) is Some,
                    path(q@, cand@, m - 1, end as int) == path(
                        q@,
                        cand@,
                        i as int,
                        j as int,
                    ).drop_last() + ints(indices@).reverse(),
                decreases i,
            {
                let ghost before = indices@;
                let ghost (iv, jv) = (i as int, j as int);
                assert(parents_ok(q@, cand@, iv, parents@[iv]@, n as int));
                let p: usize = parents[i][j];
                proof {
                    lemma_parent(q@, cand@, iv, jv, jv);
                    assert(parent(q@, cand@, iv, jv, jv) == Some(p as int));
                    lemma_path(q@, cand@, iv - 1, p as int);
                }
                indices.push(p);
                proof {
                    let whole = path(q@, cand@, iv - 1, p as int);
                    assert(path(q@, cand@, iv, jv).drop_last() =~= whole);
                    assert(whole =~= whole.drop_last() + seq![p as int]);
                    assert(ints(indices@).reverse() =~= seq![p as int] + ints(before).reverse());
                    assert(whole + ints(before).reverse() =~= whole.drop_last() + ints(
                        indices@,
                    ).reverse());
                }
                j = p;
                i = i - 1;
            }
            let ghost rev = ints(indices@).reverse();
            assert(path(q@, cand@, 0, j as int).drop_last() =~= Seq::<int>::empty());
            assert(path(q@, cand@, m - 1, end as int) =~= rev);
            let out = reversed(&indices);
            assert(ints(out@) =~= rev);
            Some((to_i32(v), out))
        },
    }
}

fn reversed(v: &Vec<usize>) -> (r: Vec<usize>)
    ensures
        r@ == v@.reverse(),
{
    let mut r: Vec<usize> = Vec::new();
    let n: usize = v.len();
    for i in 0..n
        invariant
            n == v@.len(),
            r@ =~= v@.reverse().take(i as int),
    {
        assert(v@.reverse().take(i + 1) =~= v@.reverse().take(i as int).push(v@[n - 1 - i]));
        r.push(v[n - 1 - i]);
    }
    assert(v@.reverse().take(n as int) =~= v@.reverse());
    r
}

/// Where a match is worth more: at the start, then behind a separator, then at a capital behind
/// a small letter; nowhere else.
pub proof fn law_bonus(c: Seq<char>, j: int)
    requires
        0 <= j < c.len(),
    ensures
        bonus(c, j) >= 0,
        j == 0 ==> bonus(c, j) > BOUNDARY_BONUS,
        j > 0 && is_boundary(c[j - 1]) ==> CAMEL_BONUS < bonus(c, j) < bonus(c, 0),
        j > 0 && !is_boundary(c[j - 1]) ==> (bonus(c, j) > 0 <==> is_lower(c[j - 1]) && is_upper(
            c[j],
        )),
{
}

/// Side by side is worth more than apart, and each char between costs as much.
pub proof fn law_link(k: int, j: int)
    requires
        k < j,
    ensures
        link(k, k + 1) > 0,
        j > k + 1 ==> link(k, j) < 0 && link(k, j + 1) == link(k, j) - 1,
{
}

} // verus!
