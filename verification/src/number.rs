//! Numbers written as text, and text read as numbers.

use vstd::prelude::*;
use crate::search::first_is;

verus! {

/// The decimal digit for a number below ten.
pub open spec fn digit_char(d: int) -> char {
    if d == 0 {
        '0'
    } else if d == 1 {
        '1'
    } else if d == 2 {
        '2'
    } else if d == 3 {
        '3'
    } else if d == 4 {
        '4'
    } else if d == 5 {
        '5'
    } else if d == 6 {
        '6'
    } else if d == 7 {
        '7'
    } else if d == 8 {
        '8'
    } else {
        '9'
    }
}

/// The decimal digits of `n`, most significant first.
pub open spec fn decimal(n: nat) -> Seq<char>
    decreases n,
{
    if n < 10 {
        seq![digit_char(n as int)]
    } else {
        decimal(n / 10).push(digit_char((n % 10) as int))
    }
}

fn digit_of(d: u128) -> (c: char)
    requires
        d < 10,
    ensures
        c == digit_char(d as int),
{
    if d == 0 {
        '0'
    } else if d == 1 {
        '1'
    } else if d == 2 {
        '2'
    } else if d == 3 {
        '3'
    } else if d == 4 {
        '4'
    } else if d == 5 {
        '5'
    } else if d == 6 {
        '6'
    } else if d == 7 {
        '7'
    } else if d == 8 {
        '8'
    } else {
        '9'
    }
}

/// Writes `n` in decimal.
pub fn decimal_of(n: u128) -> (r: Vec<char>)
    ensures
        r@ == decimal(n as nat),
    decreases n,
{
    if n < 10 {
        let mut r: Vec<char> = Vec::new();
        r.push(digit_of(n));
        assert(r@ =~= seq![digit_char(n as int)]);
        r
    } else {
        let mut r = decimal_of(n / 10);
        r.push(digit_of(n % 10));
        r
    }
}

/// The value of `c` as a digit in the given radix, which is at most 36:
/// `0` to `9`, then the letters in either case.
pub open spec fn digit_value(c: char, radix: int) -> Option<int> {
    let n = c as u32 as int;
    let v = if 48 <= n <= 57 {
        n - 48
    } else if 97 <= n <= 122 {
        n - 87
    } else if 65 <= n <= 90 {
        n - 55
    } else {
        radix
    };
    if v < radix {
        Some(v)
    } else {
        None
    }
}

/// Whether every value of `s` is a digit in the given radix.
pub open spec fn all_digits(s: Seq<char>, radix: int) -> bool {
    forall|i: int| 0 <= i < s.len() ==> (#[trigger] digit_value(s[i], radix)) is Some
}

/// The number that the first `n` digits of `s` write.
pub open spec fn digits_value(s: Seq<char>, radix: int, n: int) -> int
    decreases n,
{
    if n <= 0 {
        0
    } else {
        digits_value(s, radix, n - 1) * radix + digit_value(s[n - 1], radix).unwrap()
    }
}

/// The digits of a number written with an optional `+` before it.
pub open spec fn unsigned_digits(s: Seq<char>) -> Seq<char> {
    if first_is(s, '+') {
        s.subrange(1, s.len() as int)
    } else {
        s
    }
}

/// The number that `s` writes in the given radix, if `s` is an optional `+`
/// and then at least one digit, and the number is at most `max`.
pub open spec fn parsed(s: Seq<char>, radix: int, max: int) -> Option<int> {
    let t = unsigned_digits(s);
    if t.len() > 0 && all_digits(t, radix) && digits_value(t, radix, t.len() as int) <= max {
        Some(digits_value(t, radix, t.len() as int))
    } else {
        None
    }
}

/// A parsed number as a mathematical integer.
pub open spec fn val(r: Option<u64>) -> Option<int> {
    match r {
        Some(k) => Some(k as int),
        None => None,
    }
}

proof fn lemma_digits_value_grows(s: Seq<char>, radix: int, k: int, n: int)
    requires
        0 <= k <= n <= s.len(),
        2 <= radix,
        all_digits(s, radix),
    ensures
        0 <= digits_value(s, radix, k) <= digits_value(s, radix, n),
    decreases n,
{
    if k < n {
        lemma_digits_value_grows(s, radix, k, n - 1);
        let a = digits_value(s, radix, n - 1);
        assert(digit_value(s[n - 1], radix) is Some);
        assert(a * radix >= a) by (nonlinear_arith)
            requires
                a >= 0,
                radix >= 2,
        ;
    } else {
        if k > 0 {
            lemma_digits_value_grows(s, radix, k - 1, k - 1);
            let a = digits_value(s, radix, k - 1);
            assert(digit_value(s[k - 1], radix) is Some);
            assert(a * radix >= 0) by (nonlinear_arith)
                requires
                    a >= 0,
                    radix >= 2,
            ;
        }
    }
}

fn digit_value_of(c: char, radix: u64) -> (r: Option<u64>)
    requires
        2 <= radix <= 36,
    ensures
        val(r) == digit_value(c, radix as int),
        r matches Some(d) ==> d < radix,
{
    let n: u32 = c as u32;
    let v: u64 = if 48 <= n && n <= 57 {
        (n - 48) as u64
    } else if 97 <= n && n <= 122 {
        (n - 87) as u64
    } else if 65 <= n && n <= 90 {
        (n - 55) as u64
    } else {
        radix
    };
    if v < radix {
        Some(v)
    } else {
        None
    }
}

pub(crate) fn parse_number(v: &Vec<char>, radix: u64, max: u64) -> (r: Option<u64>)
    requires
        2 <= radix <= 36,
    ensures
        val(r) == parsed(v@, radix as int, max as int),
{
    let from: usize = if v.len() > 0 && v[0] == '+' {
        1
    } else {
        0
    };
    let ghost t = unsigned_digits(v@);
    if from >= v.len() {
        return None;
    }
    let mut acc: u64 = 0;
    let mut k: usize = from;
    while k < v.len()
        invariant
            from <= k <= v.len(),
            from <= 1,
            2 <= radix <= 36,
            t == v@.subrange(from as int, v.len() as int),
            t == unsigned_digits(v@),
            forall|j: int|
                0 <= j < k - from ==> (#[trigger] digit_value(t[j], radix as int)) is Some,
            acc == digits_value(t, radix as int, k - from),
            acc <= max,
        decreases v.len() - k,
    {
        match digit_value_of(v[k], radix) {
            None => {
                assert(digit_value(t[k - from], radix as int) is None);
                return None;
            },
            Some(d) => {
                if d > max || acc > (max - d) / radix {
                    proof {
                        let next = digits_value(t, radix as int, k - from + 1);
                        assert(next == acc * radix + d);
                        assert(acc * radix + d > max) by (nonlinear_arith)
                            requires
                                d > max || acc > (max - d) / (radix as int),
                                radix >= 2,
                                d >= 0,
                                acc >= 0,
                                max >= 0,
                        ;
                        if all_digits(t, radix as int) {
                            lemma_digits_value_grows(t, radix as int, k - from + 1, t.len() as int);
                        }
                    }
                    return None;
                }
                assert(acc * radix + d <= max) by (nonlinear_arith)
                    requires
                        acc <= (max - d) / (radix as int),
                        radix >= 2,
                        d <= max,
                ;
                acc = acc * radix + d;
                k += 1;
            },
        }
    }
    Some(acc)
}

} // verus!
