//! Decimal digits as text.

use vstd::prelude::*;

verus! {

/// `String::push` of the standard library appends one character to the end of
/// the string and leaves the characters before it as they were.
pub assume_specification[ String::push ](s: &mut String, c: char)
    ensures
        final(s)@ == old(s)@.push(c),
;

/// Whether `c` is one of the ten decimal digits.
pub open spec fn is_digit(c: char) -> bool {
    '0' <= c <= '9'
}

/// The number that the decimal digit `c` stands for.
pub open spec fn digit_value(c: char) -> int {
    c as int - '0' as int
}

/// The decimal digit that stands for `d`, for `d` from 0 to 9.
pub open spec fn digit_char(d: int) -> char {
    (d + '0' as int) as char
}

/// Whether `s` holds decimal digits only.
pub open spec fn all_digits(s: Seq<char>) -> bool {
    forall|i: int| 0 <= i < s.len() ==> is_digit(#[trigger] s[i])
}

/// The number that a sequence of decimal digits denotes; leading zeros count
/// for nothing and the empty sequence denotes zero.
pub open spec fn digits_value(s: Seq<char>) -> nat
    decreases s.len(),
{
    if s.len() == 0 {
        0
    } else {
        (digits_value(s.drop_last()) * 10 + digit_value(s.last())) as nat
    }
}

/// The decimal digits of `n`, most significant first, without leading zeros;
/// zero is the single digit `0`.
pub open spec fn digits(n: nat) -> Seq<char>
    decreases n,
{
    if n < 10 {
        seq![digit_char(n as int)]
    } else {
        digits(n / 10).push(digit_char((n % 10) as int))
    }
}

/// The last `width` decimal digits of `n`, most significant first, with
/// leading zeros where `n` has fewer digits.
pub open spec fn low_digits(n: nat, width: nat) -> Seq<char>
    decreases width,
{
    if width == 0 {
        Seq::empty()
    } else {
        low_digits(n / 10, (width - 1) as nat).push(digit_char((n % 10) as int))
    }
}

/// `n` without its last `width` decimal digits.
pub open spec fn high_part(n: nat, width: nat) -> nat
    decreases width,
{
    if width == 0 {
        n
    } else {
        high_part(n / 10, (width - 1) as nat)
    }
}

/// The text of a whole number: a minus sign where it is negative, and its
/// digits.
pub open spec fn text_of_integer(value: int) -> Seq<char> {
    if value < 0 {
        seq!['-'] + digits((-value) as nat)
    } else {
        digits(value as nat)
    }
}

/// The digit character for a number below ten.
pub(crate) fn digit_to_char(d: u8) -> (c: char)
    requires
        d < 10,
    ensures
        c == digit_char(d as int),
{
    let code: u8 = 48 + d;
    code as char
}

/// The value of a decimal digit, or `None` for any other character.
pub(crate) fn char_to_digit(c: char) -> (r: Option<u8>)
    ensures
        r is Some <==> is_digit(c),
        r matches Some(d) ==> d == digit_value(c),
{
    if c >= '0' && c <= '9' {
        let code: u32 = c as u32;
        Some((code - 48) as u8)
    } else {
        None
    }
}

/// Appends the decimal digits of `n` to `out`.
pub(crate) fn push_digits(out: &mut String, n: u64)
    ensures
        final(out)@ == old(out)@ + digits(n as nat),
    decreases n,
{
    if n >= 10 {
        push_digits(out, n / 10);
    }
    out.push(digit_to_char((n % 10) as u8));
    proof {
        if n >= 10 {
            assert(old(out)@ + digits(n as nat) =~= (old(out)@ + digits((n / 10) as nat)).push(
                digit_char((n % 10) as int),
            ));
        } else {
            assert(old(out)@ + digits(n as nat) =~= old(out)@.push(digit_char(n as int)));
        }
    }
}

/// Appends the last `width` decimal digits of `n` to `out`.
pub(crate) fn push_low_digits(out: &mut String, n: u64, width: u8)
    ensures
        final(out)@ == old(out)@ + low_digits(n as nat, width as nat),
    decreases width,
{
    if width > 0 {
        push_low_digits(out, n / 10, width - 1);
        out.push(digit_to_char((n % 10) as u8));
        proof {
            assert(old(out)@ + low_digits(n as nat, width as nat) =~= (old(out)@ + low_digits(
                (n / 10) as nat,
                (width - 1) as nat,
            )).push(digit_char((n % 10) as int)));
        }
    } else {
        proof {
            assert(old(out)@ + low_digits(n as nat, 0) =~= old(out)@);
        }
    }
}

/// Appends the text of a whole number to `out`.
pub(crate) fn push_integer(out: &mut String, value: i32)
    ensures
        final(out)@ == old(out)@ + text_of_integer(value as int),
{
    if value < 0 {
        out.push('-');
        let magnitude: u64 = (-(value as i64)) as u64;
        push_digits(out, magnitude);
        assert(out@ =~= old(out)@ + text_of_integer(value as int));
    } else {
        push_digits(out, value as u64);
    }
}

/// `n` without its last `width` decimal digits.
pub(crate) fn drop_low_digits(n: u64, width: u8) -> (r: u64)
    ensures
        r == high_part(n as nat, width as nat),
    decreases width,
{
    if width == 0 || n == 0 {
        proof {
            lemma_high_part_of_zero(width as nat);
        }
        n
    } else {
        drop_low_digits(n / 10, width - 1)
    }
}

/// Zero has no digits to lose.
pub proof fn lemma_high_part_of_zero(width: nat)
    ensures
        high_part(0, width) == 0,
    decreases width,
{
    if width > 0 {
        lemma_high_part_of_zero((width - 1) as nat);
    }
}

/// The digits of a number hold digits only, and at least one.
pub proof fn lemma_digits_are_digits(n: nat)
    ensures
        all_digits(digits(n)),
        digits(n).len() >= 1,
    decreases n,
{
    if n >= 10 {
        lemma_digits_are_digits(n / 10);
    }
}

/// The low digits of a number hold digits only, as many as were asked for.
pub proof fn lemma_low_digits_are_digits(n: nat, width: nat)
    ensures
        all_digits(low_digits(n, width)),
        low_digits(n, width).len() == width,
    decreases width,
{
    if width > 0 {
        lemma_low_digits_are_digits(n / 10, (width - 1) as nat);
    }
}

/// The digits of a number denote that number.
pub proof fn lemma_digits_value(n: nat)
    ensures
        digits_value(digits(n)) == n,
    decreases n,
{
    if n < 10 {
        assert(digits(n).drop_last() =~= Seq::<char>::empty());
        assert(digits_value(Seq::<char>::empty()) == 0);
    } else {
        lemma_digits_value(n / 10);
        assert(digits(n).drop_last() =~= digits(n / 10));
    }
}

/// Splitting a number into its high part and its low digits loses nothing:
/// the digits of the one followed by the other denote the number.
pub proof fn lemma_split_value(n: nat, width: nat)
    ensures
        digits_value(digits(high_part(n, width)) + low_digits(n, width)) == n,
    decreases width,
{
    if width == 0 {
        lemma_digits_value(n);
        assert(digits(n) + low_digits(n, 0) =~= digits(n));
    } else {
        let w = (width - 1) as nat;
        lemma_split_value(n / 10, w);
        let whole = digits(high_part(n, width)) + low_digits(n, width);
        assert(whole.drop_last() =~= digits(high_part(n / 10, w)) + low_digits(n / 10, w));
        assert(whole.last() == digit_char((n % 10) as int));
    }
}

} // verus!
