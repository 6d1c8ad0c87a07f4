//! Decimal digits and the decimal text of integers.

use vstd::prelude::*;
use vstd::string::StringExecFns;

verus! {

/// `c` is one of the ten characters `'0'` to `'9'`.
pub open spec fn is_digit(c: char) -> bool {
    '0' <= c && c <= '9'
}

/// The number that the digit `c` stands for.
pub open spec fn digit_value(c: char) -> int
    recommends
        is_digit(c),
{
    c as int - '0' as int
}

/// The character that stands for the number `d`, for `d` from 0 to 9.
pub open spec fn digit_char(d: int) -> char
    recommends
        0 <= d <= 9,
{
    (d + '0' as int) as char
}

/// Every character of `s` is a digit.
pub open spec fn all_digits(s: Seq<char>) -> bool {
    forall|i: int| 0 <= i < s.len() ==> is_digit(#[trigger] s[i])
}

/// The number written by the digits of `s`, most significant first. The
/// empty sequence writes zero.
pub open spec fn digits_value(s: Seq<char>) -> int
    recommends
        all_digits(s),
    decreases s.len(),
{
    if s.len() == 0 {
        0
    } else {
        10 * digits_value(s.drop_last()) + digit_value(s.last())
    }
}

/// The shortest decimal text of `n`: no leading zero, except for zero
/// itself, which is written `"0"`.
pub open spec fn decimal_text(n: nat) -> Seq<char>
    decreases n,
{
    if n < 10 {
        seq![digit_char(n as int)]
    } else {
        decimal_text(n / 10).push(digit_char((n % 10) as int))
    }
}

/// The last `width` decimal digits of `n`, with leading zeros kept.
pub open spec fn fixed_width_text(n: nat, width: nat) -> Seq<char>
    decreases width,
{
    if width == 0 {
        Seq::empty()
    } else {
        fixed_width_text(n / 10, (width - 1) as nat).push(digit_char((n % 10) as int))
    }
}

/// The decimal text of an integer: a minus sign before the digits of a
/// negative number, no sign otherwise.
pub open spec fn signed_text(v: int) -> Seq<char> {
    if v < 0 {
        seq!['-'] + decimal_text((-v) as nat)
    } else {
        decimal_text(v as nat)
    }
}

/// The text of `v` padded with a zero to at least two characters: one
/// digit gets a leading zero, and anything that already fills two
/// characters, sign included, is written as it is.
pub open spec fn two_digit_text(v: int) -> Seq<char> {
    if 0 <= v < 10 {
        seq!['0'] + decimal_text(v as nat)
    } else {
        signed_text(v)
    }
}

/// The one-character string of the digit `d`.
pub(crate) fn digit_str(d: u8) -> (s: &'static str)
    requires
        d <= 9,
    ensures
        s@ == seq![digit_char(d as int)],
{
    proof {
        reveal_strlit("0");
        reveal_strlit("1");
        reveal_strlit("2");
        reveal_strlit("3");
        reveal_strlit("4");
        reveal_strlit("5");
        reveal_strlit("6");
        reveal_strlit("7");
        reveal_strlit("8");
        reveal_strlit("9");
    }
    let s = match d {
        0 => "0",
        1 => "1",
        2 => "2",
        3 => "3",
        4 => "4",
        5 => "5",
        6 => "6",
        7 => "7",
        8 => "8",
        _ => "9",
    };
    assert(s@ =~= seq![digit_char(d as int)]);
    s
}

/// Reads one character as a digit.
pub(crate) fn digit_of_char(c: char) -> (d: Option<u8>)
    ensures
        d is Some <==> is_digit(c),
        d matches Some(v) ==> v as int == digit_value(c) && v <= 9,
{
    let code: u32 = c as u32;
    if 48 <= code && code <= 57 {
        Some((code - 48) as u8)
    } else {
        None
    }
}

/// Appends the shortest decimal text of `n`.
pub(crate) fn push_decimal(out: &mut String, n: u64)
    ensures
        final(out)@ == old(out)@ + decimal_text(n as nat),
    decreases n,
{
    if n >= 10 {
        push_decimal(out, n / 10);
    }
    out.append(digit_str((n % 10) as u8));
    assert(out@ =~= old(out)@ + decimal_text(n as nat));
}

/// Appends the last `width` decimal digits of `n`.
pub(crate) fn push_fixed_width(out: &mut String, n: u64, width: u32)
    ensures
        final(out)@ == old(out)@ + fixed_width_text(n as nat, width as nat),
    decreases width,
{
    if width > 0 {
        push_fixed_width(out, n / 10, width - 1);
        out.append(digit_str((n % 10) as u8));
    }
    assert(out@ =~= old(out)@ + fixed_width_text(n as nat, width as nat));
}

/// Appends the decimal text of `v`, with a minus sign if it is negative.
pub(crate) fn push_signed(out: &mut String, v: i64)
    requires
        i64::MIN < v,
    ensures
        final(out)@ == old(out)@ + signed_text(v as int),
{
    if v < 0 {
        proof {
            reveal_strlit("-");
        }
        out.append("-");
        push_decimal(out, (-v) as u64);
        assert(out@ =~= old(out)@ + signed_text(v as int));
    } else {
        push_decimal(out, v as u64);
    }
}

/// Appends the text of `v` padded with a zero to at least two characters.
pub(crate) fn push_two_digit(out: &mut String, v: i64)
    requires
        i64::MIN < v,
    ensures
        final(out)@ == old(out)@ + two_digit_text(v as int),
{
    if 0 <= v && v < 10 {
        proof {
            reveal_strlit("0");
        }
        out.append("0");
        push_decimal(out, v as u64);
        assert(out@ =~= old(out)@ + two_digit_text(v as int));
    } else {
        push_signed(out, v);
    }
}

/// Each of the ten digit characters stands for the number it was made from.
pub proof fn lemma_digit_char_reads_back(d: int)
    requires
        0 <= d <= 9,
    ensures
        is_digit(digit_char(d)),
        digit_value(digit_char(d)) == d,
{
}

/// Reading the decimal text of a number gives the number back.
pub proof fn lemma_decimal_text_reads_back(n: nat)
    ensures
        decimal_text(n).len() >= 1,
        all_digits(decimal_text(n)),
        digits_value(decimal_text(n)) == n,
    decreases n,
{
    let text = decimal_text(n);
    lemma_digit_char_reads_back((n % 10) as int);
    if n < 10 {
        assert(text.drop_last() =~= Seq::<char>::empty());
        assert(digits_value(text.drop_last()) == 0);
    } else {
        lemma_decimal_text_reads_back(n / 10);
        assert(text.drop_last() =~= decimal_text(n / 10));
    }
}

/// A number from 0 to 99 padded to two characters is its tens digit
/// followed by its units digit, and reads back as the number.
pub proof fn lemma_two_digit_text_reads_back(v: int)
    requires
        0 <= v <= 99,
    ensures
        two_digit_text(v) == seq![digit_char(v / 10), digit_char(v % 10)],
        all_digits(two_digit_text(v)),
        digits_value(two_digit_text(v)) == v,
{
    let text = seq![digit_char(v / 10), digit_char(v % 10)];
    reveal_with_fuel(decimal_text, 2);
    assert(two_digit_text(v) =~= text);
    lemma_digit_char_reads_back(v / 10);
    lemma_digit_char_reads_back(v % 10);
    reveal_with_fuel(digits_value, 3);
    assert(text.drop_last() =~= seq![digit_char(v / 10)]);
    assert(text.drop_last().drop_last() =~= Seq::<char>::empty());
}

} // verus!
