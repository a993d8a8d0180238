//! Integers as text, in any base.

use vstd::prelude::*;

use crate::text::{cat, decimal_of, decimal_wide, range_string, to_chars, trim, trim_of};

verus! {

/// Value of a digit up to `z`, if it is one of the base.
pub open spec fn digit_value(c: char, base: int) -> Option<int> {
    let v: int = if '0' <= c && c <= '9' {
        c as int - '0' as int
    } else if 'a' <= c && c <= 'z' {
        c as int - 'a' as int + 10
    } else if 'A' <= c && c <= 'Z' {
        c as int - 'A' as int + 10
    } else {
        99
    };
    if v < base {
        Some(v)
    } else {
        None
    }
}

/// Every char is a digit of the base.
pub open spec fn all_digits(s: Seq<char>, base: int) -> bool {
    forall|i: int| 0 <= i < s.len() ==> digit_value(#[trigger] s[i], base) is Some
}

/// The number that digits write.
pub open spec fn digits_value(s: Seq<char>, base: int) -> int
    decreases s.len(),
{
    if s.len() == 0 {
        0
    } else {
        digits_value(s.drop_last(), base) * base + match digit_value(s.last(), base) {
            Some(v) => v,
            None => 0,
        }
    }
}

/// The 64-bit integer a text writes in a base: an optional sign and at least one digit.
pub open spec fn int_text(s: Seq<char>, base: int) -> Option<int> {
    let signed = s.len() > 0 && (s[0] == '+' || s[0] == '-');
    let body = if signed {
        s.skip(1)
    } else {
        s
    };
    let size = digits_value(body, base);
    let v = if signed && s[0] == '-' {
        -size
    } else {
        size
    };
    if body.len() > 0 && all_digits(body, base) && i64::MIN <= v <= i64::MAX {
        Some(v)
    } else {
        None
    }
}

fn digit_of(c: char, base: u32) -> (r: Option<u32>)
    requires
        base <= 36,
    ensures
        match r {
            Some(v) => digit_value(c, base as int) == Some(v as int) && v < base,
            None => digit_value(c, base as int) is None,
        },
{
    let v: u32 = if '0' <= c && c <= '9' {
        c as u32 - '0' as u32
    } else if 'a' <= c && c <= 'z' {
        c as u32 - 'a' as u32 + 10
    } else if 'A' <= c && c <= 'Z' {
        c as u32 - 'A' as u32 + 10
    } else {
        99
    };
    if v < base {
        Some(v)
    } else {
        None
    }
}

proof fn lemma_value_grows(s: Seq<char>, k: int, base: int)
    requires
        0 <= k <= s.len(),
        base >= 1,
    ensures
        0 <= digits_value(s.take(k), base) <= digits_value(s, base),
    decreases s.len(),
{
    if k == s.len() {
        assert(s.take(k) =~= s);
        if s.len() > 0 {
            lemma_value_grows(s.drop_last(), s.len() - 1, base);
            assert(s.drop_last().take(s.len() - 1) =~= s.drop_last());
            let v = digits_value(s.drop_last(), base);
            assert(v * base >= 0) by (nonlinear_arith)
                requires
                    v >= 0,
                    base >= 1,
            ;
        }
    } else {
        lemma_value_grows(s.drop_last(), k, base);
        assert(s.drop_last().take(k) =~= s.take(k));
        let v = digits_value(s.drop_last(), base);
        assert(v * base >= v) by (nonlinear_arith)
            requires
                v >= 0,
                base >= 1,
        ;
    }
}

/// The integer a text writes in a base, if it writes one.
pub fn parse_radix(s: &str, base: u32) -> (r: Option<i64>)
    requires
        2 <= base <= 36,
    ensures
        match r {
            Some(v) => int_text(s@, base as int) == Some(v as int),
            None => int_text(s@, base as int) is None,
        },
{
    let v = to_chars(s);
    let n: usize = v.len();
    let signed = n > 0 && (v[0] == '+' || v[0] == '-');
    let from: usize = if signed {
        1
    } else {
        0
    };
    let ghost body = if signed {
        s@.skip(1)
    } else {
        s@
    };
    if from == n {
        return None;
    }
    let mut size: i128 = 0;
    let mut i: usize = from;
    assert(body.take(0) =~= Seq::empty());
    while i < n
        invariant
            2 <= base <= 36,
            n == v@.len(),
            v@ == s@,
            from <= i <= n,
            body == (if signed {
                s@.skip(1)
            } else {
                s@
            }),
            signed == (n > 0 && (s@[0] == '+' || s@[0] == '-')),
            from == (if signed {
                1int
            } else {
                0
            }),
            size == digits_value(body.take(i - from), base as int),
            0 <= size <= 0x1_0000_0000_0000_0000,
            forall|k: int|
                0 <= k < i - from ==> digit_value(#[trigger] body[k], base as int) is Some,
        decreases n - i,
    {
        assert(body[i - from] == v@[i as int]);
        let d: u32 = match digit_of(v[i], base) {
            Some(d) => d,
            None => {
                return None;
            },
        };
        assert(0 <= size * base + d <= 0x1_0000_0000_0000_0000 * 36 + 36) by (nonlinear_arith)
            requires
                0 <= size <= 0x1_0000_0000_0000_0000,
                2 <= base <= 36,
                0 <= d < 36,
        ;
        size = size * base as i128 + d as i128;
        proof {
            let t = body.take(i - from + 1);
            assert(t.drop_last() =~= body.take(i - from));
            assert(t.last() == v@[i as int]);
        }
        i = i + 1;
        if size > 0x1_0000_0000_0000_0000 {
            proof {
                lemma_value_grows(body, i - from, base as int);
            }
            return None;
        }
    }
    assert(body.take(n - from) =~= body);
    let value: i128 = if signed && v[0] == '-' {
        -size
    } else {
        size
    };
    if value < i64::MIN as i128 || value > i64::MAX as i128 {
        None
    } else {
        Some(value as i64)
    }
}

/// The digits of a text after its prefix, and their base.
pub open spec fn based(s: Seq<char>) -> (Seq<char>, int) {
    if s.len() >= 2 && s[0] == '0' && (s[1] == 'x' || s[1] == 'X') {
        (s.skip(2), 16)
    } else if s.len() >= 2 && s[0] == '0' && (s[1] == 'b' || s[1] == 'B') {
        (s.skip(2), 2)
    } else if s.len() >= 2 && s[0] == '0' && (s[1] == 'o' || s[1] == 'O') {
        (s.skip(2), 8)
    } else {
        (s, 10)
    }
}

/// An integer negated in 64 bits; the least one stays.
pub open spec fn negated(v: int) -> int {
    if v == i64::MIN {
        v
    } else {
        -v
    }
}

/// A text without a leading minus.
pub open spec fn unsigned_part(s: Seq<char>) -> Seq<char> {
    let t = trim_of(s);
    if t.len() > 0 && t[0] == '-' {
        t.skip(1)
    } else {
        t
    }
}

/// The integer a text writes, in base 16, 2, 8 or 10 by its prefix; else what is not one.
pub open spec fn int_of(s: Seq<char>) -> Result<int, Seq<char>> {
    let t = trim_of(s);
    let u = unsigned_part(s);
    let (digits, base) = based(u);
    match int_text(digits, base) {
        Some(v) => Ok(
            if t.len() > 0 && t[0] == '-' {
                negated(v)
            } else {
                v
            },
        ),
        None => Err(u),
    }
}

/// Read an integer; the error is the text that is none.
pub fn parse_int(s: &str) -> (r: Result<i64, String>)
    ensures
        match r {
            Ok(v) => int_of(s@) == Result::<int, Seq<char>>::Ok(v as int),
            Err(t) => int_of(s@) == Result::<int, Seq<char>>::Err(t@),
        },
{
    let t = to_chars(trim(s).as_str());
    let minus = t.len() > 0 && t[0] == '-';
    let from: usize = if minus {
        1
    } else {
        0
    };
    let u = range_string(t.as_slice(), from, t.len());
    assert(u@ =~= unsigned_part(s@));
    let w = to_chars(u.as_str());
    let (skip, base): (usize, u32) = if w.len() >= 2 && w[0] == '0' && (w[1] == 'x' || w[1] == 'X') {
        (2, 16)
    } else if w.len() >= 2 && w[0] == '0' && (w[1] == 'b' || w[1] == 'B') {
        (2, 2)
    } else if w.len() >= 2 && w[0] == '0' && (w[1] == 'o' || w[1] == 'O') {
        (2, 8)
    } else {
        (0, 10)
    };
    let digits = range_string(w.as_slice(), skip, w.len());
    assert(digits@ =~= based(u@).0);
    match parse_radix(digits.as_str(), base) {
        Some(v) => if minus && v != i64::MIN {
            Ok(-v)
        } else {
            Ok(v)
        },
        None => Err(u),
    }
}

/// The digit of a value below 16.
pub open spec fn digit_char(v: int) -> char {
    if v < 10 {
        ('0' as u32 + v) as char
    } else {
        ('a' as u32 + (v - 10)) as char
    }
}

/// A number in a base, without leading zeros.
pub open spec fn base_text(n: nat, base: nat) -> Seq<char>
    decreases n,
{
    if base < 2 || n < base || !(0 <= n / base < n) {
        seq![digit_char(n as int)]
    } else {
        base_text(n / base, base).push(digit_char((n % base) as int))
    }
}

pub(crate) fn digit_text(v: u32) -> (r: char)
    requires
        v < 16,
    ensures
        r == digit_char(v as int),
{
    match v {
        0 => '0',
        1 => '1',
        2 => '2',
        3 => '3',
        4 => '4',
        5 => '5',
        6 => '6',
        7 => '7',
        8 => '8',
        9 => '9',
        10 => 'a',
        11 => 'b',
        12 => 'c',
        13 => 'd',
        14 => 'e',
        _ => 'f',
    }
}

/// Write a number in a base.
pub fn to_base(n: u64, base: u64) -> (r: String)
    requires
        2 <= base <= 16,
    ensures
        r@ == base_text(n as nat, base as nat),
    decreases n,
{
    if n < base {
        let mut s = String::new();
        s.push(digit_text(n as u32));
        assert(s@ =~= seq![digit_char(n as int)]);
        s
    } else {
        assert(n / base < n) by (nonlinear_arith)
            requires
                n >= base,
                base >= 2,
        ;
        let mut s = to_base(n / base, base);
        let d: u64 = n % base;
        s.push(digit_text(d as u32));
        s
    }
}

/// An integer in two's complement.
pub open spec fn unsigned_of(n: int) -> nat {
    (if n < 0 {
        n + 0x1_0000_0000_0000_0000
    } else {
        n
    }) as nat
}

/// An integer with its sign, in base ten.
pub open spec fn signed_text(n: int) -> Seq<char> {
    if n < 0 {
        "-"@ + decimal_of((-n) as nat)
    } else {
        decimal_of(n as nat)
    }
}

/// An integer with its base's prefix.
pub open spec fn converted(n: int, base: int) -> Seq<char> {
    if base == 16 {
        "0x"@ + base_text(unsigned_of(n), 16)
    } else if base == 2 {
        "0b"@ + base_text(unsigned_of(n), 2)
    } else if base == 8 {
        "0o"@ + base_text(unsigned_of(n), 8)
    } else {
        signed_text(n)
    }
}

/// Write an integer in base 16, 2, 8 or ten.
pub fn convert_text(n: i64, base: u32) -> (r: String)
    ensures
        r@ == converted(n as int, base as int),
{
    let wide: u64 = if n < 0 {
        (n as i128 + 0x1_0000_0000_0000_0000) as u64
    } else {
        n as u64
    };
    if base == 16 {
        cat("0x", to_base(wide, 16).as_str())
    } else if base == 2 {
        cat("0b", to_base(wide, 2).as_str())
    } else if base == 8 {
        cat("0o", to_base(wide, 8).as_str())
    } else if n < 0 {
        cat("-", decimal_wide((-(n as i128)) as u128).as_str())
    } else {
        decimal_wide(n as u128)
    }
}

/// A number reads back as itself: the digits written for it have its value.
pub proof fn law_base_reads_back(n: nat, base: nat)
    requires
        2 <= base <= 16,
    ensures
        all_digits(base_text(n, base), base as int),
        digits_value(base_text(n, base), base as int) == n,
        base_text(n, base).len() > 0,
    decreases n,
{
    let t = base_text(n, base);
    if n < base {
        assert(t =~= seq![digit_char(n as int)]);
        assert(t.drop_last() =~= Seq::empty());
        lemma_digit(n as int, base as int);
        assert(digits_value(t.drop_last(), base as int) * base == 0);
        assert(digits_value(t, base as int) == n);
    } else {
        assert(n / base < n && n / base * base + n % base == n && 0 <= n % base < base)
            by (nonlinear_arith)
            requires
                n >= base,
                base >= 2,
        ;
        law_base_reads_back(n / base, base);
        let u = base_text(n / base, base);
        let d = (n % base) as int;
        lemma_digit(d, base as int);
        assert(t =~= u.push(digit_char(d)));
        assert(t.drop_last() =~= u);
        assert(digits_value(t, base as int) == digits_value(u, base as int) * base + d);
        assert(digits_value(u, base as int) == n / base);
        assert forall|i: int| 0 <= i < t.len() implies digit_value(
            #[trigger] t[i],
            base as int,
        ) is Some by {
            if i < u.len() {
                assert(t[i] == u[i]);
            }
        }
    }
}

proof fn lemma_digit(v: int, base: int)
    requires
        0 <= v < base <= 16,
    ensures
        digit_value(digit_char(v), base) == Some(v),
{
}

} // verus!
