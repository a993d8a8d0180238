//! Laws of the lexer: where comments, strings and words end.

use vstd::prelude::*;

use crate::rvim::lexer::{
    attribute_end, comment_end, number_char, number_end, quoted_end, raw_closes, raw_end, token,
    two_at, word_char, word_end, LexV,
};
use crate::rvim::theme::SYN_COMMENT;

verus! {

/// Chars that make up no comment mark, whatever stands beside them.
pub open spec fn plain(x: Seq<char>) -> bool {
    forall|i: int| 0 <= i < x.len() ==> #[trigger] x[i] != '/' && x[i] != '*'
}

proof fn lemma_plain(s: Seq<char>, i: int, n: int, depth: nat)
    requires
        0 <= i,
        0 <= n,
        i + n <= s.len(),
        depth > 0,
        plain(s.subrange(i, i + n)),
    ensures
        comment_end(s, i, depth) == comment_end(s, i + n, depth),
    decreases n,
{
    if n > 0 {
        let x = s.subrange(i, i + n);
        assert(x[0] == s[i]);
        let y = s.subrange(i + 1, i + n);
        assert forall|k: int| 0 <= k < y.len() implies #[trigger] y[k] != '/' && y[k] != '*' by {
            assert(x[k + 1] == y[k]);
        }
        lemma_plain(s, i + 1, n - 1, depth);
        assert(!two_at(s, i, '*', '/') && !two_at(s, i, '/', '*'));
    }
}

/// Comments nest: one that holds another goes on behind it, to its own end; where that does not
/// come, it is still open at the end of the line, once.
pub proof fn law_comments_nest(x: Seq<char>, y: Seq<char>, z: Seq<char>, rest: Seq<char>)
    requires
        plain(x),
        plain(y),
        plain(z),
    ensures
        ({
            let inner = seq!['/', '*'] + x + seq!['/', '*'] + y + seq!['*', '/'] + z;
            let whole = inner + seq!['*', '/'];
            &&& token(whole + rest, 0) == (whole.len() as int, Some(SYN_COMMENT), LexV::Code)
            &&& token(inner, 0) == (inner.len() as int, Some(SYN_COMMENT), LexV::Comment(1))
        }),
{
    let inner = seq!['/', '*'] + x + seq!['/', '*'] + y + seq!['*', '/'] + z;
    let whole = inner + seq!['*', '/'];
    let s = whole + rest;
    let e = inner.len() as int;
    assert(s.take(e) =~= inner);
    assert(inner.take(e) =~= inner);
    lemma_nest(s, x, y, z);
    lemma_nest(inner, x, y, z);
    assert(s[e] == '*' && s[e + 1] == '/');
    assert(two_at(s, e, '*', '/'));
    assert(comment_end(s, e, 1) == comment_end(s, e + 2, 0));
    assert(comment_end(inner, e, 1) == (e, 1nat));
    assert(two_at(s, 0, '/', '*') && two_at(inner, 0, '/', '*'));
    assert(!two_at(s, 0, '/', '/') && !two_at(inner, 0, '/', '/'));
}

proof fn lemma_nest(s: Seq<char>, x: Seq<char>, y: Seq<char>, z: Seq<char>)
    requires
        plain(x),
        plain(y),
        plain(z),
        ({
            let inner = seq!['/', '*'] + x + seq!['/', '*'] + y + seq!['*', '/'] + z;
            s.len() >= inner.len() && s.take(inner.len() as int) == inner
        }),
    ensures
        s.len() >= 2 && s[0] == '/' && s[1] == '*',
        comment_end(s, 2, 1) == comment_end(s, (6 + x.len() + y.len() + z.len()) as int, 1),
{
    let inner = seq!['/', '*'] + x + seq!['/', '*'] + y + seq!['*', '/'] + z;
    let t = s.take(inner.len() as int);
    let a: int = 2 + x.len() as int;
    let b: int = a + 2 + y.len();
    let c: int = b + 2 + z.len();
    assert(t[0] == s[0] && t[1] == s[1]);
    assert(t[a] == s[a] && t[a + 1] == s[a + 1]);
    assert(t[b] == s[b] && t[b + 1] == s[b + 1]);
    assert(inner[0] == '/' && inner[1] == '*');
    assert(inner[a] == '/' && inner[a + 1] == '*');
    assert(inner[b] == '*' && inner[b + 1] == '/');
    assert(s.subrange(2, 2 + x.len() as int) =~= x) by {
        assert(t.subrange(2, a) =~= x);
    }
    assert(s.subrange(a + 2, a + 2 + y.len() as int) =~= y) by {
        assert(t.subrange(a + 2, b) =~= y);
    }
    assert(s.subrange(b + 2, b + 2 + z.len() as int) =~= z) by {
        assert(t.subrange(b + 2, c) =~= z);
    }
    lemma_plain(s, 2, x.len() as int, 1);
    assert(two_at(s, a, '/', '*'));
    assert(comment_end(s, a, 1) == comment_end(s, a + 2, 2));
    lemma_plain(s, a + 2, y.len() as int, 2);
    assert(two_at(s, b, '*', '/'));
    assert(comment_end(s, b, 2) == comment_end(s, b + 2, 1));
    lemma_plain(s, b + 2, z.len() as int, 1);
}

/// What a string is made of, between its quotes: chars, and chars with a backslash before them.
pub open spec fn spelled(units: Seq<(bool, char)>) -> Seq<char>
    decreases units.len(),
{
    if units.len() == 0 {
        Seq::empty()
    } else {
        (if units[0].0 {
            seq!['\\', units[0].1]
        } else {
            seq![units[0].1]
        }) + spelled(units.skip(1))
    }
}

/// A string goes up to the first quote that no backslash escapes; a backslash escapes a quote, a
/// backslash, or any other char.
pub proof fn law_string_ends(s: Seq<char>, i: int, units: Seq<(bool, char)>, quote: char)
    requires
        0 <= i,
        quote != '\\',
        forall|k: int|
            0 <= k < units.len() && !(#[trigger] units[k]).0 ==> units[k].1 != quote && units[k].1
                != '\\',
        i + spelled(units).len() < s.len(),
        s.subrange(i, i + spelled(units).len()) == spelled(units),
        s[i + spelled(units).len()] == quote,
    ensures
        quoted_end(s, i, quote) == i + spelled(units).len() + 1,
    decreases units.len(),
{
    let w = spelled(units);
    if units.len() > 0 {
        let rest = units.skip(1);
        let n: int = if units[0].0 {
            2
        } else {
            1
        };
        assert(s.subrange(i, i + w.len())[0] == s[i]);
        if units[0].0 {
            assert(w[0] == '\\');
        } else {
            assert(w[0] == units[0].1);
        }
        assert(s.subrange(i + n, i + n + spelled(rest).len()) =~= s.subrange(i, i + w.len()).skip(
            n,
        ));
        assert(w.skip(n) =~= spelled(rest));
        assert forall|k: int| 0 <= k < rest.len() && !(#[trigger] rest[k]).0 implies rest[k].1
            != quote && rest[k].1 != '\\' by {
            assert(rest[k] == units[k + 1]);
        }
        law_string_ends(s, i + n, rest, quote);
    }
}

/// A quote at column `j` with as many hashes behind it as began the string.
pub open spec fn closer(s: Seq<char>, j: int, hashes: nat) -> bool {
    0 <= j && j + hashes < s.len() && s[j] == '"' && s.subrange(j + 1, j + 1 + hashes) == Seq::new(
        hashes,
        |k: int| '#',
    )
}

/// A raw string goes up to the first quote with as many hashes behind it as began it, and has no
/// end on a line without one.
pub proof fn law_raw_ends(s: Seq<char>, i: int, hashes: nat)
    requires
        0 <= i,
    ensures
        match raw_end(s, i, hashes) {
            Some(e) => {
                let j = e - 1 - hashes;
                i <= j && closer(s, j, hashes) && forall|k: int|
                    i <= k < j ==> !#[trigger] closer(s, k, hashes)
            },
            None => forall|k: int| i <= k ==> !#[trigger] closer(s, k, hashes),
        },
    decreases s.len() - i,
{
    if i < s.len() {
        let h = Seq::new(hashes, |k: int| '#');
        if i + hashes < s.len() {
            let t = s.subrange(i + 1, i + 1 + hashes);
            if closer(s, i, hashes) {
                assert forall|k: int| i < k <= i + hashes implies #[trigger] s[k] == '#' by {
                    assert(t[k - i - 1] == s[k]);
                    assert(h[k - i - 1] == '#');
                }
            }
            if raw_closes(s, i, hashes) {
                assert(t =~= h);
            }
        }
        if !raw_closes(s, i, hashes) {
            law_raw_ends(s, i + 1, hashes);
        }
    }
}

/// A word is all of a run of letters, digits and underscores.
pub proof fn law_word_ends(s: Seq<char>, i: int)
    requires
        0 <= i <= s.len(),
    ensures
        i <= word_end(s, i) <= s.len(),
        forall|k: int| i <= k < word_end(s, i) ==> word_char(#[trigger] s[k]),
        word_end(s, i) < s.len() ==> !word_char(s[word_end(s, i)]),
    decreases s.len() - i,
{
    if i < s.len() && word_char(s[i]) {
        law_word_ends(s, i + 1);
    }
}

/// An attribute goes up to the first closing bracket.
pub proof fn law_attribute_ends(s: Seq<char>, i: int)
    requires
        0 <= i <= s.len(),
    ensures
        ({
            let e = attribute_end(s, i);
            &&& i <= e <= s.len()
            &&& forall|k: int| i <= k < e - 1 ==> #[trigger] s[k] != ']'
            &&& e < s.len() ==> i < e && s[e - 1] == ']'
        }),
    decreases s.len() - i,
{
    if i < s.len() && s[i] != ']' {
        law_attribute_ends(s, i + 1);
    }
}

/// A number is all of a run of word chars and of points that a digit follows.
pub proof fn law_number_ends(s: Seq<char>, i: int)
    requires
        0 <= i <= s.len(),
    ensures
        ({
            let e = number_end(s, i);
            &&& i <= e <= s.len()
            &&& forall|k: int|
                i <= k < e ==> word_char(#[trigger] s[k]) || s[k] == '.' && k + 1 < s.len() && '0'
                    <= s[k + 1] <= '9'
            &&& e < s.len() ==> !word_char(s[e]) && !(s[e] == '.' && e + 1 < s.len() && '0' <= s[e
                + 1] <= '9')
        }),
    decreases s.len() - i,
{
    if number_char(s, i) {
        law_number_ends(s, i + 1);
    }
}

} // verus!
