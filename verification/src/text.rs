//! Sequences of characters: splitting into lines, joining, and moving between strings and
//! character vectors.

use vstd::prelude::*;

verus! {

/// The pieces of `s` between occurrences of `sep`; always at least one piece.
pub open spec fn split_on(s: Seq<char>, sep: char) -> Seq<Seq<char>>
    decreases s.len(),
{
    if s.len() == 0 {
        seq![Seq::<char>::empty()]
    } else {
        let p = split_on(s.drop_last(), sep);
        if s.last() == sep {
            p.push(Seq::<char>::empty())
        } else {
            p.update(p.len() - 1, p.last().push(s.last()))
        }
    }
}

/// The pieces in order with `sep` between neighbours.
pub open spec fn join_with(p: Seq<Seq<char>>, sep: char) -> Seq<char>
    decreases p.len(),
{
    if p.len() == 0 {
        Seq::empty()
    } else if p.len() == 1 {
        p[0]
    } else {
        join_with(p.drop_last(), sep).push(sep) + p.last()
    }
}

/// The lines of a text: what lies between its line breaks.
pub open spec fn lines_of(s: Seq<char>) -> Seq<Seq<char>> {
    split_on(s, '\n')
}

/// The text of some lines, a line break between neighbours.
pub open spec fn unlines(p: Seq<Seq<char>>) -> Seq<char> {
    join_with(p, '\n')
}

/// The contents of a sequence of strings.
pub open spec fn texts(v: Seq<String>) -> Seq<Seq<char>> {
    Seq::new(v.len(), |i: int| v[i]@)
}

pub proof fn lemma_split_nonempty(s: Seq<char>, sep: char)
    ensures
        split_on(s, sep).len() >= 1,
    decreases s.len(),
{
    if s.len() > 0 {
        lemma_split_nonempty(s.drop_last(), sep);
    }
}

/// Splitting a text and joining the pieces gives the text back.
pub proof fn law_join_split(s: Seq<char>, sep: char)
    ensures
        join_with(split_on(s, sep), sep) == s,
    decreases s.len(),
{
    if s.len() > 0 {
        let d = s.drop_last();
        let p = split_on(d, sep);
        law_join_split(d, sep);
        lemma_split_nonempty(d, sep);
        let q = split_on(s, sep);
        if s.last() == sep {
            assert(q.drop_last() =~= p);
            assert(join_with(q, sep) =~= s);
        } else {
            assert(q.drop_last() =~= p.drop_last());
            assert(q.last() =~= p.last().push(s.last()));
            assert(join_with(q, sep) =~= join_with(p, sep).push(s.last()));
            assert(d.push(s.last()) =~= s);
        }
    } else {
        assert(join_with(split_on(s, sep), sep) =~= s);
    }
}

/// A piece of a split holds no separator.
pub proof fn law_split_pieces(s: Seq<char>, sep: char)
    ensures
        forall|i: int, j: int|
            0 <= i < split_on(s, sep).len() && 0 <= j < split_on(s, sep)[i].len()
                ==> #[trigger] split_on(s, sep)[i][j] != sep,
    decreases s.len(),
{
    if s.len() > 0 {
        law_split_pieces(s.drop_last(), sep);
        lemma_split_nonempty(s.drop_last(), sep);
    }
}

/// Appending a text without separators extends the last piece.
proof fn lemma_split_append(s: Seq<char>, t: Seq<char>, sep: char)
    requires
        !t.contains(sep),
    ensures
        split_on(s + t, sep) == split_on(s, sep).update(
            split_on(s, sep).len() - 1,
            split_on(s, sep).last() + t,
        ),
    decreases t.len(),
{
    let p = split_on(s, sep);
    lemma_split_nonempty(s, sep);
    if t.len() == 0 {
        assert(s + t =~= s);
        assert(p.last() + t =~= p.last());
        assert(p.update(p.len() - 1, p.last() + t) =~= p);
    } else {
        assert forall|i: int| 0 <= i < t.drop_last().len() implies t.drop_last()[i] != sep by {
            assert(t.contains(t[i]));
        }
        lemma_split_append(s, t.drop_last(), sep);
        assert((s + t).drop_last() =~= s + t.drop_last());
        assert(t.contains(t.last()));
        assert((p.last() + t.drop_last()).push(t.last()) =~= p.last() + t);
        assert(split_on(s + t, sep) =~= p.update(p.len() - 1, p.last() + t));
    }
}

/// Joining pieces that hold no separator and splitting the result gives the pieces back.
pub proof fn law_split_join(p: Seq<Seq<char>>, sep: char)
    requires
        p.len() >= 1,
        forall|i: int| 0 <= i < p.len() ==> !(#[trigger] p[i]).contains(sep),
    ensures
        split_on(join_with(p, sep), sep) == p,
    decreases p.len(),
{
    if p.len() == 1 {
        lemma_split_append(Seq::empty(), p[0], sep);
        assert(Seq::<char>::empty() + p[0] =~= p[0]);
        assert(split_on(p[0], sep) =~= p);
    } else {
        law_split_join(p.drop_last(), sep);
        let j = join_with(p.drop_last(), sep).push(sep);
        assert(j.drop_last() =~= join_with(p.drop_last(), sep));
        assert(split_on(j, sep) =~= p.drop_last().push(Seq::empty()));
        lemma_split_append(j, p.last(), sep);
        assert(Seq::<char>::empty() + p.last() =~= p.last());
        assert(split_on(j + p.last(), sep) =~= p);
    }
}

/// `String::push`: appends one character.
pub assume_specification[ String::push ](s: &mut String, c: char)
    ensures
        final(s)@ == old(s)@.push(c),
;

/// The characters of `s`.
pub fn to_chars(s: &str) -> (r: Vec<char>)
    ensures
        r@ == s@,
{
    let mut r: Vec<char> = Vec::new();
    for c in it: s.chars()
        invariant
            it.seq() == s@,
            r@ == s@.take(it.index() as int),
    {
        assert(s@.take(it.index() + 1) =~= s@.take(it.index() as int).push(c));
        r.push(c);
    }
    assert(s@.take(s@.len() as int) =~= s@);
    r
}

/// The string with exactly the characters of `v`.
pub fn from_chars(v: &[char]) -> (r: String)
    ensures
        r@ == v@,
{
    let mut r = String::new();
    for i in 0..v.len()
        invariant
            r@ == v@.take(i as int),
    {
        assert(v@.take(i + 1) =~= v@.take(i as int).push(v@[i as int]));
        r.push(v[i]);
    }
    assert(v@.take(v@.len() as int) =~= v@);
    r
}

/// Contents of a sequence of strings after the ways a sequence is changed.
pub broadcast proof fn lemma_texts_push(v: Seq<String>, s: String)
    ensures
        #[trigger] texts(v.push(s)) == texts(v).push(s@),
{
    assert(texts(v.push(s)) =~= texts(v).push(s@));
}

pub broadcast proof fn lemma_texts_update(v: Seq<String>, i: int, s: String)
    requires
        0 <= i < v.len(),
    ensures
        #[trigger] texts(v.update(i, s)) == texts(v).update(i, s@),
{
    assert(texts(v.update(i, s)) =~= texts(v).update(i, s@));
}

pub broadcast proof fn lemma_texts_insert(v: Seq<String>, i: int, s: String)
    requires
        0 <= i <= v.len(),
    ensures
        #[trigger] texts(v.insert(i, s)) == texts(v).insert(i, s@),
{
    assert(texts(v.insert(i, s)) =~= texts(v).insert(i, s@));
}

pub broadcast proof fn lemma_texts_remove(v: Seq<String>, i: int)
    requires
        0 <= i < v.len(),
    ensures
        #[trigger] texts(v.remove(i)) == texts(v).remove(i),
{
    assert(texts(v.remove(i)) =~= texts(v).remove(i));
}

pub broadcast proof fn lemma_texts_subrange(v: Seq<String>, i: int, j: int)
    requires
        0 <= i <= j <= v.len(),
    ensures
        #[trigger] texts(v.subrange(i, j)) == texts(v).subrange(i, j),
{
    assert(texts(v.subrange(i, j)) =~= texts(v).subrange(i, j));
}

pub broadcast proof fn lemma_texts_add(v: Seq<String>, w: Seq<String>)
    ensures
        #[trigger] texts(v + w) == texts(v) + texts(w),
{
    assert(texts(v + w) =~= texts(v) + texts(w));
}

pub broadcast group group_texts {
    lemma_texts_push,
    lemma_texts_update,
    lemma_texts_insert,
    lemma_texts_remove,
    lemma_texts_subrange,
    lemma_texts_add,
}

/// `s` split at every `sep`.
pub fn split_at_char(s: &str, sep: char) -> (r: Vec<String>)
    ensures
        texts(r@) == split_on(s@, sep),
{
    broadcast use group_texts;
    let mut r: Vec<String> = Vec::new();
    let mut cur = String::new();
    assert(texts(r@).push(cur@) =~= split_on(s@.take(0), sep));
    for c in it: s.chars()
        invariant
            it.seq() == s@,
            texts(r@).push(cur@) == split_on(s@.take(it.index() as int), sep),
    {
        let ghost next = s@.take(it.index() + 1);
        assert(next.drop_last() =~= s@.take(it.index() as int));
        assert(next.last() == c);
        if c == sep {
            r.push(cur);
            cur = String::new();
        } else {
            let ghost before = cur@;
            cur.push(c);
            assert(texts(r@).push(cur@) =~= texts(r@).push(before).update(
                texts(r@).len() as int,
                cur@,
            ));
        }
    }
    assert(s@.take(s@.len() as int) =~= s@);
    r.push(cur);
    r
}

/// The lines of `s`.
pub fn split_lines(s: &str) -> (r: Vec<String>)
    ensures
        texts(r@) == lines_of(s@),
        r@.len() >= 1,
{
    let r = split_at_char(s, '\n');
    proof {
        lemma_split_nonempty(s@, '\n');
    }
    r
}

/// The strings in order with a line break between neighbours.
pub fn join_lines(v: &[String]) -> (r: String)
    ensures
        r@ == unlines(texts(v@)),
{
    let mut r = String::new();
    for i in 0..v.len()
        invariant
            r@ == unlines(texts(v@).take(i as int)),
    {
        let ghost t = texts(v@).take(i + 1);
        assert(t.drop_last() =~= texts(v@).take(i as int));
        if i > 0 {
            r.push('\n');
        }
        r.append(v[i].as_str());
        if i == 0 {
            assert(r@ =~= t[0]);
        }
    }
    assert(texts(v@).take(v@.len() as int) =~= texts(v@));
    r
}

/// Unicode `White_Space`.
pub open spec fn is_space(c: char) -> bool {
    let u = c as int;
    0x9 <= u <= 0xd || u == 0x20 || u == 0x85 || u == 0xa0 || u == 0x1680 || 0x2000 <= u <= 0x200a
        || u == 0x2028 || u == 0x2029 || u == 0x202f || u == 0x205f || u == 0x3000
}

/// Whether `c` is Unicode whitespace.
pub fn whitespace(c: char) -> (r: bool)
    ensures
        r == is_space(c),
{
    let u: u32 = c as u32;
    (0x9 <= u && u <= 0xd) || u == 0x20 || u == 0x85 || u == 0xa0 || u == 0x1680 || (0x2000 <= u
        && u <= 0x200a) || u == 0x2028 || u == 0x2029 || u == 0x202f || u == 0x205f || u == 0x3000
}

/// How many leading characters of `s` are whitespace.
pub open spec fn space_prefix(s: Seq<char>) -> int
    decreases s.len(),
{
    if s.len() > 0 && is_space(s[0]) {
        1 + space_prefix(s.skip(1))
    } else {
        0
    }
}

/// The prefix is all whitespace and ends the text or stops before a non-blank.
pub proof fn lemma_space_prefix(s: Seq<char>)
    ensures
        0 <= space_prefix(s) <= s.len(),
        forall|i: int| 0 <= i < space_prefix(s) ==> is_space(#[trigger] s[i]),
        space_prefix(s) < s.len() ==> !is_space(s[space_prefix(s)]),
    decreases s.len(),
{
    if s.len() > 0 && is_space(s[0]) {
        let t = s.skip(1);
        lemma_space_prefix(t);
        assert forall|i: int| 0 <= i < space_prefix(s) implies is_space(#[trigger] s[i]) by {
            if i > 0 {
                assert(t[i - 1] == s[i]);
            }
        }
    }
}

/// The prefix is the only length with these properties.
pub proof fn lemma_space_prefix_is(s: Seq<char>, n: int)
    requires
        0 <= n <= s.len(),
        forall|i: int| 0 <= i < n ==> is_space(#[trigger] s[i]),
        n < s.len() ==> !is_space(s[n]),
    ensures
        space_prefix(s) == n,
{
    lemma_space_prefix(s);
    if n < space_prefix(s) {
        assert(is_space(s[n]));
    }
    if space_prefix(s) < n {
        assert(is_space(s[space_prefix(s)]));
    }
}

/// `s` without its leading whitespace.
pub open spec fn trim_start_of(s: Seq<char>) -> Seq<char> {
    s.skip(space_prefix(s))
}

/// Length of the leading whitespace of `s`.
pub fn leading_space(s: &[char]) -> (n: usize)
    ensures
        n == space_prefix(s@),
        n <= s@.len(),
{
    let mut n: usize = 0;
    while n < s.len() && whitespace(s[n])
        invariant
            0 <= n <= s@.len(),
            forall|i: int| 0 <= i < n ==> is_space(#[trigger] s@[i]),
        ensures
            n < s@.len() ==> !is_space(s@[n as int]),
        decreases s@.len() - n,
    {
        n = n + 1;
    }
    proof {
        lemma_space_prefix_is(s@, n as int);
    }
    n
}

/// How many trailing characters of `s` are whitespace.
pub open spec fn space_suffix(s: Seq<char>) -> int
    decreases s.len(),
{
    if s.len() > 0 && is_space(s.last()) {
        1 + space_suffix(s.drop_last())
    } else {
        0
    }
}

/// `s` without its trailing whitespace.
pub open spec fn trim_end_of(s: Seq<char>) -> Seq<char> {
    s.take(s.len() - space_suffix(s))
}

/// `s` without leading and trailing whitespace.
pub open spec fn trim_of(s: Seq<char>) -> Seq<char> {
    trim_end_of(trim_start_of(s))
}

/// Length of `s` without its trailing whitespace.
pub fn trimmed_len(s: &[char]) -> (n: usize)
    ensures
        n == s@.len() - space_suffix(s@),
        n <= s@.len(),
{
    let mut n: usize = s.len();
    assert(s@.take(n as int) =~= s@);
    while n > 0 && whitespace(s[n - 1])
        invariant
            n <= s@.len(),
            space_suffix(s@) == (s@.len() - n) + space_suffix(s@.take(n as int)),
        ensures
            n == s@.len() - space_suffix(s@),
        decreases n,
    {
        assert(s@.take(n as int).drop_last() =~= s@.take(n - 1));
        n = n - 1;
    }
    n
}

/// `s` trimmed at both ends.
pub fn trim(s: &str) -> (r: String)
    ensures
        r@ == trim_of(s@),
{
    let chars = to_chars(s);
    let from: usize = leading_space(chars.as_slice());
    let rest = copy_range(chars.as_slice(), from, chars.len());
    assert(rest@ =~= trim_start_of(s@));
    let to: usize = trimmed_len(rest.as_slice());
    let out = copy_range(rest.as_slice(), 0, to);
    assert(out@ =~= trim_of(s@));
    from_chars(out.as_slice())
}

/// The characters of `v[from..to]`.
pub fn copy_range(v: &[char], from: usize, to: usize) -> (r: Vec<char>)
    requires
        from <= to <= v@.len(),
    ensures
        r@ == v@.subrange(from as int, to as int),
{
    let mut r: Vec<char> = Vec::new();
    for i in from..to
        invariant
            from <= i <= to <= v@.len(),
            r@ == v@.subrange(from as int, i as int),
    {
        assert(v@.subrange(from as int, i + 1) =~= v@.subrange(from as int, i as int).push(
            v@[i as int],
        ));
        r.push(v[i]);
    }
    r
}

/// The string with the characters of `v[from..to]`.
pub fn range_string(v: &[char], from: usize, to: usize) -> (r: String)
    requires
        from <= to <= v@.len(),
    ensures
        r@ == v@.subrange(from as int, to as int),
{
    from_chars(copy_range(v, from, to).as_slice())
}

/// `a` followed by `b`.
pub fn cat(a: &str, b: &str) -> (r: String)
    ensures
        r@ == a@ + b@,
{
    let mut r = a.to_string();
    r.append(b);
    r
}

/// The characters of `v` except the last.
pub fn without_last(s: &str) -> (r: String)
    ensures
        r@ == (if s@.len() == 0 {
            s@
        } else {
            s@.drop_last()
        }),
{
    let mut chars = to_chars(s);
    let _popped = chars.pop();
    from_chars(chars.as_slice())
}

/// `c` repeated `n` times.
pub open spec fn run_of(c: char, n: int) -> Seq<char> {
    Seq::new(n as nat, |i: int| c)
}

/// A string of `n` copies of `c`.
pub fn repeat_char(c: char, n: usize) -> (r: String)
    ensures
        r@ == run_of(c, n as int),
{
    let mut r = String::new();
    for i in 0..n
        invariant
            r@ =~= run_of(c, i as int),
    {
        r.push(c);
    }
    r
}

/// The digit of `d`, 0 to 9.
pub open spec fn digit(d: int) -> char {
    (48 + d) as char
}

/// Decimal notation.
pub open spec fn decimal_of(n: nat) -> Seq<char>
    decreases n,
{
    if n < 10 {
        seq![digit(n as int)]
    } else {
        decimal_of(n / 10).push(digit((n % 10) as int))
    }
}

/// `n` in decimal.
pub fn decimal(n: usize) -> (r: String)
    ensures
        r@ == decimal_of(n as nat),
{
    decimal_wide(n as u128)
}

/// `n` in decimal.
pub fn decimal_wide(n: u128) -> (r: String)
    ensures
        r@ == decimal_of(n as nat),
    decreases n,
{
    let d: u8 = 48u8 + (n % 10) as u8;
    let c = d as char;
    let mut r = if n < 10 {
        String::new()
    } else {
        decimal_wide(n / 10)
    };
    r.push(c);
    assert(n < 10 ==> r@ =~= seq![digit(n as int)]);
    r
}

/// `a` comes strictly before `b` in the order of strings (character by character).
pub open spec fn before(a: Seq<char>, b: Seq<char>) -> bool
    decreases a.len(),
{
    if b.len() == 0 {
        false
    } else if a.len() == 0 {
        true
    } else {
        a[0] < b[0] || (a[0] == b[0] && before(a.skip(1), b.skip(1)))
    }
}

/// Whether `a` comes strictly before `b` in the order of strings.
pub fn str_before(a: &str, b: &str) -> (r: bool)
    ensures
        r == before(a@, b@),
{
    let x = to_chars(a);
    let y = to_chars(b);
    let mut i: usize = 0;
    assert(x@.skip(0) =~= x@);
    assert(y@.skip(0) =~= y@);
    while i < x.len() && i < y.len()
        invariant
            i <= x@.len(),
            i <= y@.len(),
            x@ == a@,
            y@ == b@,
            before(x@, y@) == before(x@.skip(i as int), y@.skip(i as int)),
        decreases x@.len() - i,
    {
        assert(x@.skip(i as int).skip(1) =~= x@.skip(i + 1));
        assert(y@.skip(i as int).skip(1) =~= y@.skip(i + 1));
        if x[i] < y[i] {
            return true;
        }
        if x[i] > y[i] {
            return false;
        }
        i = i + 1;
    }
    i < y.len()
}

/// No string comes before itself.
pub proof fn lemma_before_irreflexive(a: Seq<char>)
    ensures
        !before(a, a),
    decreases a.len(),
{
    if a.len() > 0 {
        lemma_before_irreflexive(a.skip(1));
    }
}

pub proof fn lemma_before_transitive(a: Seq<char>, b: Seq<char>, c: Seq<char>)
    requires
        before(a, b),
        before(b, c),
    ensures
        before(a, c),
    decreases a.len(),
{
    if a.len() > 0 && b.len() > 0 && c.len() > 0 && a[0] == b[0] && b[0] == c[0] {
        lemma_before_transitive(a.skip(1), b.skip(1), c.skip(1));
    }
}

/// Of two different strings one comes before the other.
pub proof fn lemma_before_total(a: Seq<char>, b: Seq<char>)
    requires
        a != b,
    ensures
        before(a, b) || before(b, a),
    decreases a.len(),
{
    if a.len() == 0 || b.len() == 0 {
        if a.len() == 0 && b.len() == 0 {
            assert(a =~= b);
        }
    } else if a[0] == b[0] {
        if a.skip(1) == b.skip(1) {
            assert(a =~= seq![a[0]] + a.skip(1));
            assert(b =~= seq![b[0]] + b.skip(1));
        }
        lemma_before_total(a.skip(1), b.skip(1));
    }
}

/// `str::len`: the length in bytes. A string never holds more than `isize::MAX` bytes.
#[verifier::external_body]
pub(crate) fn byte_len(s: &str) -> (r: usize)
    ensures
        r == vstd::utf8::encode_utf8(s@).len(),
        r <= isize::MAX,
{
    s.len()
}

/// `Vec::len`. A vector never holds more than `isize::MAX` bytes, so never more strings than
/// that.
#[verifier::external_body]
pub(crate) fn vec_len(v: &Vec<String>) -> (r: usize)
    ensures
        r == v@.len(),
        r <= isize::MAX,
{
    v.len()
}

proof fn lemma_chars_within_bytes(s: Seq<char>)
    ensures
        s.len() <= vstd::utf8::encode_utf8(s).len(),
    decreases s.len(),
{
    if s.len() > 0 {
        lemma_chars_within_bytes(s.drop_first());
    }
}

/// Number of characters of `s`.
pub fn char_count(s: &str) -> (r: usize)
    ensures
        r == s@.len(),
        r <= isize::MAX,
        r < usize::MAX,
{
    let _b: usize = byte_len(s);
    proof {
        lemma_chars_within_bytes(s@);
    }
    s.unicode_len()
}

/// `s` written `n` times.
pub open spec fn times(s: Seq<char>, n: int) -> Seq<char>
    decreases n,
{
    if n <= 0 {
        Seq::empty()
    } else {
        times(s, n - 1) + s
    }
}

/// `s` written `n` times.
pub fn repeat_str(s: &str, n: usize) -> (r: String)
    ensures
        r@ == times(s@, n as int),
{
    let mut r = String::new();
    for i in 0..n
        invariant
            r@ == times(s@, i as int),
    {
        r.append(s);
    }
    r
}

/// Some lines `n` times over.
pub open spec fn lines_times(p: Seq<Seq<char>>, n: int) -> Seq<Seq<char>>
    decreases n,
{
    if n <= 0 {
        Seq::empty()
    } else {
        lines_times(p, n - 1) + p
    }
}

/// Some lines `n` times over.
pub fn repeat_lines(p: &Vec<String>, n: usize) -> (r: Vec<String>)
    ensures
        texts(r@) == lines_times(texts(p@), n as int),
{
    broadcast use group_texts;

    let mut r: Vec<String> = Vec::new();
    assert(texts(r@) =~= Seq::<Seq<char>>::empty());
    for i in 0..n
        invariant
            texts(r@) == lines_times(texts(p@), i as int),
    {
        let ghost before = texts(r@);
        for j in 0..p.len()
            invariant
                texts(r@) =~= before + texts(p@).take(j as int),
        {
            let s = p[j].clone();
            assert(texts(p@).take(j + 1) =~= texts(p@).take(j as int).push(s@));
            let ghost was = texts(r@);
            r.push(s);
            assert(texts(r@) =~= was.push(s@));
        }
        assert(texts(p@).take(p@.len() as int) =~= texts(p@));
    }
    r
}

} // verus!
