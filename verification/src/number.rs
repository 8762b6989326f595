//! Numbers in text: decimal numerals and the numerals that are read back.
use vstd::prelude::*;
use vstd::string::*;

use crate::text;

verus! {

/// The character of the digit `d`.
pub open spec fn digit_char(d: nat) -> char {
    (('0' as nat) + d) as char
}

/// The decimal numeral of `n`, without leading zeros.
pub open spec fn numeral(n: nat) -> Seq<char>
    decreases n,
{
    if n < 10 {
        seq![digit_char(n)]
    } else {
        numeral(n / 10).push(digit_char(n % 10))
    }
}

/// The decimal numeral of `n`, with a minus sign where it is negative.
pub open spec fn signed_numeral(n: int) -> Seq<char> {
    if n < 0 {
        seq!['-'] + numeral((-n) as nat)
    } else {
        numeral(n as nat)
    }
}

/// What the digit `c` is worth in base `radix`, if it is a digit there.
pub open spec fn digit_value(c: char, radix: nat) -> Option<nat> {
    if '0' <= c <= '9' && (c as nat) - ('0' as nat) < radix {
        Some(((c as nat) - ('0' as nat)) as nat)
    } else {
        None
    }
}

/// What a run of digits is worth in base `radix`.
pub open spec fn digits_value(s: Seq<char>, radix: nat) -> Option<nat>
    decreases s.len(),
{
    if s.len() == 0 {
        Some(0)
    } else {
        match (digits_value(s.drop_last(), radix), digit_value(s.last(), radix)) {
            (Some(v), Some(d)) => Some(v * radix + d),
            _ => None,
        }
    }
}

/// The number that `s` stands for in base `radix`, in decimal digits: an optional
/// plus sign and at least one digit, and no more than `max`.
pub open spec fn parsed(s: Seq<char>, radix: nat, max: nat) -> Option<nat> {
    let digits = if s.len() > 0 && s[0] == '+' {
        s.skip(1)
    } else {
        s
    };
    if digits.len() == 0 {
        None
    } else {
        match digits_value(digits, radix) {
            Some(v) if v <= max => Some(v),
            _ => None,
        }
    }
}

/// The decimal numeral of `n`.
pub fn decimal(n: u128) -> (r: String)
    ensures
        r@ == numeral(n as nat),
    decreases n,
{
    let last: u8 = (n % 10) as u8;
    let c: char = (48u8 + last) as char;
    assert(c == digit_char((n % 10) as nat));
    if n < 10 {
        let mut out: String = String::new();
        out.push(c);
        assert(out@ =~= seq![c]);
        out
    } else {
        let mut out: String = decimal(n / 10);
        out.push(c);
        out
    }
}

/// The decimal numeral of `n`, with a minus sign where it is negative.
pub fn signed_decimal(n: i64) -> (r: String)
    ensures
        r@ == signed_numeral(n as int),
{
    if n < 0 {
        let magnitude: u128 = (-(n as i128)) as u128;
        let mut out: String = String::new();
        out.push('-');
        assert(out@ =~= seq!['-']);
        out.append(decimal(magnitude).as_str());
        out
    } else {
        decimal(n as u128)
    }
}

/// More digits never make a number smaller.
proof fn lemma_digits_grow(s: Seq<char>, n: int, radix: nat)
    requires
        0 <= n <= s.len(),
        radix > 0,
    ensures
        digits_value(s.take(n), radix) is None ==> digits_value(s, radix) is None,
        digits_value(s.take(n), radix) matches Some(v) ==> (digits_value(s, radix) matches Some(w)
            ==> v <= w),
    decreases s.len() - n,
{
    if n == s.len() {
        assert(s.take(n) =~= s);
    } else {
        lemma_digits_grow(s, n + 1, radix);
        assert(s.take(n + 1).drop_last() =~= s.take(n));
        if let Some(v) = digits_value(s.take(n), radix) {
            assert(v <= v * radix) by (nonlinear_arith)
                requires
                    radix > 0,
            ;
        }
    }
}

/// The number that `text` stands for in base `radix`, if it is at most `max`. Only
/// the decimal digits count, however large the base.
pub fn parse(text: &str, radix: u32, max: u32) -> (r: Option<u32>)
    ensures
        r is Some <==> parsed(text@, radix as nat, max as nat) is Some,
        r matches Some(v) ==> parsed(text@, radix as nat, max as nat) == Some(v as nat),
{
    let chars: Vec<char> = text::to_chars(text);
    let n: usize = chars.len();
    let start: usize = if n > 0 && chars[0] == '+' {
        1
    } else {
        0
    };
    let ghost digits = chars@.skip(start as int);
    assert(start == 0 ==> digits =~= text@);
    if start == n {
        return None;
    }
    let mut value: u64 = 0;
    let mut i: usize = start;
    assert(digits.take(0) =~= Seq::<char>::empty());
    while i < n
        invariant
            start <= i <= n,
            n == chars@.len(),
            digits == chars@.skip(start as int),
            value <= max,
            digits_value(digits.take(i - start), radix as nat) == Some(value as nat),
            parsed(text@, radix as nat, max as nat) == match digits_value(digits, radix as nat) {
                Some(v) if v <= max => Some(v),
                _ => None,
            },
        decreases n - i,
    {
        let c: char = chars[i];
        proof {
            if radix > 0 {
                lemma_digits_grow(digits, i - start + 1, radix as nat);
            } else {
                assert(digits_value(digits, radix as nat) is None);
            }
            assert(digits.take(i - start + 1).drop_last() =~= digits.take(i - start));
            assert(digits.take(i - start + 1).last() == c);
        }
        if c < '0' || c > '9' {
            return None;
        }
        let d: u32 = c as u32 - 48;
        if d >= radix {
            return None;
        }
        assert(value * radix <= 0xffff_ffff * 0xffff_ffff) by (nonlinear_arith)
            requires
                value <= 0xffff_ffff,
                radix <= 0xffff_ffff,
        ;
        value = value * (radix as u64) + d as u64;
        if value > max as u64 {
            return None;
        }
        i = i + 1;
    }
    assert(digits.take(n - start) =~= digits);
    Some(value as u32)
}

/// Reading a decimal numeral gives back the number that it was written for.
pub proof fn law_numeral_is_read_back(n: nat, max: nat)
    requires
        n <= max,
    ensures
        parsed(numeral(n), 10, max) == Some(n),
{
    lemma_numeral_digits(n);
}

/// A numeral holds digits alone, and they are worth the number.
proof fn lemma_numeral_digits(n: nat)
    ensures
        numeral(n).len() > 0,
        '0' <= numeral(n)[0] <= '9',
        digits_value(numeral(n), 10) == Some(n),
    decreases n,
{
    if n < 10 {
        let s = seq![digit_char(n)];
        assert(s.drop_last() =~= Seq::<char>::empty());
        assert(digits_value(s.drop_last(), 10) == Some(0nat));
        assert(digit_value(s.last(), 10) == Some(n));
    } else {
        lemma_numeral_digits(n / 10);
        let front = numeral(n / 10);
        let s = front.push(digit_char(n % 10));
        assert(s.drop_last() =~= front);
        assert(digit_value(s.last(), 10) == Some(n % 10));
        assert(s[0] == front[0]);
    }
}

/// The numeral of a number is made of digits, and there is one.
pub proof fn law_numeral_holds_digits(n: nat)
    ensures
        numeral(n).len() > 0,
        forall|i: int| 0 <= i < numeral(n).len() ==> '0' <= #[trigger] numeral(n)[i] <= '9',
    decreases n,
{
    if n >= 10 {
        law_numeral_holds_digits(n / 10);
    }
}

/// A numeral has no zero in front, unless it is the numeral of zero.
pub proof fn law_numeral_has_no_leading_zero(n: nat)
    ensures
        numeral(n)[0] == '0' <==> n == 0,
    decreases n,
{
    if n >= 10 {
        law_numeral_has_no_leading_zero(n / 10);
        law_numeral_holds_digits(n / 10);
    }
}

/// Different numbers have different numerals.
pub proof fn law_numerals_are_distinct(m: nat, n: nat)
    requires
        numeral(m) == numeral(n),
    ensures
        m == n,
{
    law_numeral_is_read_back(m, m + n);
    law_numeral_is_read_back(n, m + n);
}

/// A negative number is written as its opposite with a minus sign in front, and any
/// other as it is.
pub proof fn law_minus_sign_marks_negative(n: nat)
    ensures
        signed_numeral(n as int) == numeral(n),
        n > 0 ==> signed_numeral(-(n as int)) == seq!['-'] + numeral(n),
{
}

/// A digit is worth its distance from zero, if that is less than the base; no other
/// character is a digit.
pub proof fn law_digit_is_its_distance_from_zero(c: char, radix: nat)
    ensures
        digit_value(c, radix) is Some <==> 48 <= c as int <= 57 && c as int - 48 < radix,
        digit_value(c, radix) matches Some(v) ==> v == c as int - 48,
{
}

/// One more digit makes a number its product with the base, and that digit; with
/// anything that is no digit, it is no number.
pub proof fn law_digits_are_positional(s: Seq<char>, c: char, radix: nat)
    ensures
        digits_value(Seq::empty(), radix) == Some(0nat),
        digits_value(s.push(c), radix) is Some <==> digits_value(s, radix) is Some && digit_value(
            c,
            radix,
        ) is Some,
        digits_value(s.push(c), radix) matches Some(w) ==> w == digits_value(s, radix)->0 * radix
            + digit_value(c, radix)->0,
{
    assert(s.push(c).drop_last() =~= s);
}

/// A number is read just where there is at least one digit, nothing but digits
/// behind an optional plus sign, and the number is no more than the limit.
pub proof fn law_number_is_digits_within_the_limit(s: Seq<char>, radix: nat, max: nat)
    ensures
        parsed(Seq::empty(), radix, max) is None,
        parsed(seq!['+'] + s, radix, max) is Some <==> s.len() > 0 && digits_value(s, radix) is Some
            && digits_value(s, radix)->0 <= max,
        parsed(seq!['+'] + s, radix, max) matches Some(v) ==> digits_value(s, radix) == Some(v),
        s.len() > 0 && s[0] != '+' ==> parsed(s, radix, max) == parsed(
            seq!['+'] + s,
            radix,
            max,
        ),
{
    assert((seq!['+'] + s).skip(1) =~= s);
}

} // verus!
