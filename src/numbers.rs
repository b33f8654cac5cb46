//! Decimal numbers in text: reading `u16` and `i128` as their `FromStr`
//! impls do, and writing integers in decimal.

use vstd::prelude::*;

use crate::text::{is_space, push_char};

verus! {

/// Whether `c` is one of the decimal digits `0` to `9`.
pub open spec fn is_digit(c: char) -> bool {
    '0' <= c <= '9'
}

/// The number that the decimal digit `c` stands for.
pub open spec fn digit_value(c: char) -> int {
    c as u32 - 48
}

/// Whether every char of `s` is a decimal digit.
pub open spec fn all_digits(s: Seq<char>) -> bool {
    forall|i: int| 0 <= i < s.len() ==> is_digit(#[trigger] s[i])
}

/// The number that the decimal digits `s` stand for, most significant first.
pub open spec fn digits_value(s: Seq<char>) -> nat
    decreases s.len(),
{
    if s.len() == 0 {
        0
    } else {
        (digits_value(s.drop_last()) * 10 + digit_value(s.last())) as nat
    }
}

/// Dropping trailing digits never makes a number larger.
pub proof fn lemma_digits_prefix(s: Seq<char>, k: int)
    requires
        all_digits(s),
        0 <= k <= s.len(),
    ensures
        digits_value(s.take(k)) <= digits_value(s),
    decreases s.len(),
{
    if k < s.len() {
        assert(all_digits(s.drop_last()));
        lemma_digits_prefix(s.drop_last(), k);
        assert(s.drop_last().take(k) =~= s.take(k));
    } else {
        assert(s.take(k) =~= s);
    }
}

/// The digits of `v` after `start` as a number, or `None` where one of them
/// is no digit or the number exceeds `bound`.
pub fn parse_digits(v: &Vec<char>, start: usize, bound: u128) -> (r: Option<u128>)
    requires
        start <= v@.len(),
        bound + 9 <= u128::MAX,
    ensures
        r == (if all_digits(v@.skip(start as int)) && digits_value(v@.skip(start as int))
            <= bound {
            Some(digits_value(v@.skip(start as int)) as u128)
        } else {
            None
        }),
{
    let ghost s = v@.skip(start as int);
    let n = v.len();
    let mut acc: u128 = 0;
    let mut i: usize = start;
    assert(s.take(0) =~= Seq::<char>::empty());
    while i < n
        invariant
            start <= i <= n == v@.len(),
            s == v@.skip(start as int),
            all_digits(s.take(i - start)),
            acc == digits_value(s.take(i - start)),
            acc <= bound,
            bound + 9 <= u128::MAX,
        decreases n - i,
    {
        let c = v[i];
        assert(s[i - start] == c);
        if !('0' <= c && c <= '9') {
            assert(!is_digit(s[i - start]));
            return None;
        }
        let d: u128 = (c as u32 - 48) as u128;
        assert(d <= 9);
        let ghost next = s.take(i + 1 - start);
        assert(next.drop_last() =~= s.take(i - start));
        assert(next.last() == c);
        assert(all_digits(next));
        if acc > bound / 10 {
            assert(acc * 10 + d > bound) by (nonlinear_arith)
                requires
                    acc > bound / 10,
                    d >= 0,
            ;
            proof {
                if all_digits(s) {
                    lemma_digits_prefix(s, i + 1 - start);
                }
            }
            return None;
        }
        assert(acc * 10 <= bound) by (nonlinear_arith)
            requires
                acc <= bound / 10,
        ;
        let m = acc * 10 + d;
        if m > bound {
            proof {
                if all_digits(s) {
                    lemma_digits_prefix(s, i + 1 - start);
                }
            }
            return None;
        }
        acc = m;
        i = i + 1;
    }
    assert(s.take(n - start) =~= s);
    Some(acc)
}

/// `s` without one leading `+`.
pub open spec fn unsigned_digits(s: Seq<char>) -> Seq<char> {
    if s.len() > 0 && s[0] == '+' {
        s.drop_first()
    } else {
        s
    }
}

/// What `u16`'s `FromStr` accepts: an optional `+` and at least one decimal
/// digit, for a number of at most 65535.
pub open spec fn parse_u16(s: Seq<char>) -> Option<nat> {
    let d = unsigned_digits(s);
    if d.len() > 0 && all_digits(d) && digits_value(d) <= u16::MAX {
        Some(digits_value(d))
    } else {
        None
    }
}

/// What `i128`'s `FromStr` accepts: an optional sign and at least one decimal
/// digit, for a number in the range of `i128`.
pub open spec fn parse_i128(s: Seq<char>) -> Option<int> {
    if s.len() > 0 && s[0] == '-' {
        let d = s.drop_first();
        if d.len() > 0 && all_digits(d) && -digits_value(d) >= i128::MIN {
            Some(-digits_value(d))
        } else {
            None
        }
    } else {
        let d = unsigned_digits(s);
        if d.len() > 0 && all_digits(d) && digits_value(d) <= i128::MAX {
            Some(digits_value(d) as int)
        } else {
            None
        }
    }
}

/// Reads `v` as an unsigned 16-bit decimal number.
pub fn chars_to_u16(v: &Vec<char>) -> (r: Option<u16>)
    ensures
        r matches Some(x) ==> parse_u16(v@) == Some(x as nat),
        r is None ==> parse_u16(v@) is None,
{
    let start: usize = if v.len() > 0 && v[0] == '+' {
        1
    } else {
        0
    };
    assert(v@.skip(start as int) =~= unsigned_digits(v@));
    if start == v.len() {
        return None;
    }
    match parse_digits(v, start, 65535) {
        Some(x) => Some(x as u16),
        None => None,
    }
}

/// Reads `v` as a signed 128-bit decimal number.
pub fn chars_to_i128(v: &Vec<char>) -> (r: Option<i128>)
    ensures
        r matches Some(x) ==> parse_i128(v@) == Some(x as int),
        r is None ==> parse_i128(v@) is None,
{
    if v.len() > 0 && v[0] == '-' {
        assert(v@.skip(1) =~= v@.drop_first());
        if v.len() == 1 {
            return None;
        }
        match parse_digits(v, 1, 0x8000_0000_0000_0000_0000_0000_0000_0000) {
            Some(m) => {
                if m == 0x8000_0000_0000_0000_0000_0000_0000_0000 {
                    Some(i128::MIN)
                } else {
                    Some(-(m as i128))
                }
            },
            None => None,
        }
    } else {
        let start: usize = if v.len() > 0 && v[0] == '+' {
            1
        } else {
            0
        };
        assert(v@.skip(start as int) =~= unsigned_digits(v@));
        if start == v.len() {
            return None;
        }
        match parse_digits(v, start, 0x7fff_ffff_ffff_ffff_ffff_ffff_ffff_ffff) {
            Some(m) => Some(m as i128),
            None => None,
        }
    }
}

/// The decimal digit for `d`, which is below ten.
pub open spec fn digit_char(d: nat) -> char {
    ((d + 48) as u8) as char
}

/// The decimal digits of `n`, most significant first, without leading zeros.
pub open spec fn decimal(n: nat) -> Seq<char>
    decreases n,
{
    if n < 10 {
        seq![digit_char(n)]
    } else {
        decimal(n / 10).push(digit_char(n % 10))
    }
}

/// The decimal text of `v`: a `-` before the digits of a negative number.
pub open spec fn int_text(v: int) -> Seq<char> {
    if v < 0 {
        seq!['-'] + decimal((-v) as nat)
    } else {
        decimal(v as nat)
    }
}

/// Appends the decimal digits of `n` to `out`.
pub fn push_decimal(out: &mut String, n: u128)
    ensures
        final(out)@ == old(out)@ + decimal(n as nat),
    decreases n,
{
    if n >= 10 {
        push_decimal(out, n / 10);
    }
    let d: u8 = (n % 10) as u8;
    push_char(out, (d + 48) as char);
    assert(out@ =~= old(out)@ + decimal(n as nat));
}

/// Appends the decimal text of `v` to `out`.
pub fn push_int(out: &mut String, v: i128)
    ensures
        final(out)@ == old(out)@ + int_text(v as int),
{
    if v < 0 {
        push_char(out, '-');
        let m: u128 = if v == i128::MIN {
            0x8000_0000_0000_0000_0000_0000_0000_0000
        } else {
            (-v) as u128
        };
        push_decimal(out, m);
        assert(out@ =~= old(out)@ + int_text(v as int));
    } else {
        push_decimal(out, v as u128);
    }
}

/// The digit for a number below ten is a digit that stands for it.
pub proof fn lemma_digit_char(d: nat)
    requires
        d < 10,
    ensures
        is_digit(digit_char(d)),
        digit_value(digit_char(d)) == d,
{
}

/// The decimal text of a number is made of digits that read back as it.
pub proof fn lemma_decimal(n: nat)
    ensures
        decimal(n).len() > 0,
        all_digits(decimal(n)),
        digits_value(decimal(n)) == n,
    decreases n,
{
    lemma_digit_char((n % 10) as nat);
    if n >= 10 {
        lemma_decimal(n / 10);
        let s = decimal(n);
        assert(s.drop_last() =~= decimal(n / 10));
        assert(n == (n / 10) * 10 + n % 10);
        assert(s.last() == digit_char((n % 10) as nat));
        assert(digits_value(s) == digits_value(s.drop_last()) * 10 + digit_value(s.last()));
        assert(digits_value(s) == n);
        assert forall|i: int| 0 <= i < s.len() implies is_digit(#[trigger] s[i]) by {
            if i < s.len() - 1 {
                assert(s[i] == decimal(n / 10)[i]);
            }
        }
    } else {
        assert(decimal(n).drop_last() =~= Seq::<char>::empty());
        assert(n % 10 == n);
        let s = decimal(n);
        assert(digits_value(s) == digits_value(s.drop_last()) * 10 + digit_value(s.last()));
        assert(digits_value(s) == n);
    }
}

/// The decimal text of any `i128` reads back as that number.
pub proof fn lemma_int_text(v: int)
    requires
        i128::MIN <= v <= i128::MAX,
    ensures
        parse_i128(int_text(v)) == Some(v),
        int_text(v).len() > 0,
        !is_space(int_text(v)[0]),
        !is_space(int_text(v).last()),
{
    if v < 0 {
        let d = decimal((-v) as nat);
        lemma_decimal((-v) as nat);
        assert((seq!['-'] + d).drop_first() =~= d);
        assert(is_digit(d.last()));
        assert((seq!['-'] + d).last() == d.last());
    } else {
        let d = decimal(v as nat);
        lemma_decimal(v as nat);
        assert(is_digit(d[0]));
        assert(is_digit(d.last()));
    }
}

} // verus!
