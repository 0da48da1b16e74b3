//! Whole numbers as decimal text.
use crate::text::chars_of;
use vstd::prelude::*;

verus! {

/// The digit that stands for `d`.
pub open spec fn digit(d: int) -> char {
    (48 + d) as char
}

/// Whether `c` is one of the ten decimal digits.
pub open spec fn is_digit(c: char) -> bool {
    '0' <= c <= '9'
}

/// `n` in decimal, without leading zeros.
pub open spec fn decimal(n: nat) -> Seq<char>
    decreases n,
{
    if n < 10 {
        seq![digit(n as int)]
    } else {
        decimal(n / 10).push(digit((n % 10) as int))
    }
}

/// The number that a row of digits stands for.
pub open spec fn digits_value(digits: Seq<char>) -> nat
    decreases digits.len(),
{
    if digits.len() == 0 {
        0
    } else {
        digits_value(digits.drop_last()) * 10 + (digits.last() as nat - 48) as nat
    }
}

/// A row of digits, and at least one.
pub open spec fn is_number(s: Seq<char>) -> bool {
    s.len() > 0 && forall|i: int| 0 <= i < s.len() ==> is_digit(#[trigger] s[i])
}

/// `s` without the plus sign that may stand in front of a number.
pub open spec fn unsigned_part(s: Seq<char>) -> Seq<char> {
    if s.len() > 0 && s[0] == '+' {
        s.skip(1)
    } else {
        s
    }
}

/// The number that `s` writes: digits behind an optional plus sign, and no more than a `u64` holds.
pub open spec fn parsed(s: Seq<char>) -> Option<u64> {
    let digits = unsigned_part(s);
    if is_number(digits) && digits_value(digits) <= u64::MAX {
        Some(digits_value(digits) as u64)
    } else {
        None
    }
}

/// `n` written behind what `out` holds.
pub fn push_decimal(out: &mut String, n: u64)
    ensures
        final(out)@ == old(out)@ + decimal(n as nat),
    decreases n,
{
    if n >= 10 {
        push_decimal(out, n / 10);
    }
    out.push((48 + (n % 10) as u8) as char);
    assert(out@ =~= old(out)@ + decimal(n as nat));
}

/// `n` in decimal.
pub fn decimal_text(n: u64) -> (out: String)
    ensures
        out@ == decimal(n as nat),
{
    let mut out = String::new();
    push_decimal(&mut out, n);
    assert(out@ =~= decimal(n as nat));
    out
}

/// The number that `s` writes, if it writes one.
pub fn parse_u64(s: &str) -> (n: Option<u64>)
    ensures
        n == parsed(s@),
{
    let chars = chars_of(s);
    let first: usize = if chars.len() > 0 && chars[0] == '+' { 1 } else { 0 };
    let ghost digits = unsigned_part(s@);
    assert(digits =~= s@.skip(first as int));
    if first == chars.len() {
        return None;
    }
    let mut value: u64 = 0;
    for i in first..chars.len()
        invariant
            chars@ == s@,
            first <= i <= s@.len(),
            digits == s@.skip(first as int),
            digits == unsigned_part(s@),
            forall|j: int| 0 <= j < i - first ==> is_digit(#[trigger] digits[j]),
            value == digits_value(digits.take(i - first)),
    {
        let c = chars[i];
        assert(digits[i - first] == c);
        if !('0' <= c && c <= '9') {
            return None;
        }
        let d: u64 = (c as u32 - 48) as u64;
        proof {
            assert(digits.take(i + 1 - first).drop_last() =~= digits.take(i - first));
        }
        if value > (u64::MAX - d) / 10 {
            proof {
                lemma_value_grows(digits, i + 1 - first);
                assert(value * 10 + d > u64::MAX);
            }
            return None;
        }
        value = value * 10 + d;
    }
    assert(digits.take(digits.len() as int) =~= digits);
    Some(value)
}

/// More digits never make a number smaller.
proof fn lemma_value_grows(digits: Seq<char>, n: int)
    requires
        0 <= n <= digits.len(),
    ensures
        digits_value(digits.take(n)) <= digits_value(digits),
    decreases digits.len() - n,
{
    if n == digits.len() {
        assert(digits.take(n) =~= digits);
    } else {
        assert(digits.take(n + 1).drop_last() =~= digits.take(n));
        lemma_value_grows(digits, n + 1);
    }
}

/// A number in decimal is a row of digits that stands for that number.
pub proof fn lemma_decimal_is_number(n: nat)
    ensures
        is_number(decimal(n)),
        digits_value(decimal(n)) == n,
    decreases n,
{
    if n < 10 {
        assert(decimal(n).drop_last() =~= Seq::empty());
        assert(digits_value(Seq::<char>::empty()) == 0);
    } else {
        lemma_decimal_is_number(n / 10);
        assert(decimal(n).drop_last() =~= decimal(n / 10));
    }
}

/// Reading back what was written gives the number that was written.
pub proof fn law_parse_of_decimal(n: u64)
    ensures
        parsed(decimal(n as nat)) == Some(n),
{
    lemma_decimal_is_number(n as nat);
    assert(is_digit(decimal(n as nat)[0]));
}

/// A number in decimal has no zero in front, unless it is zero.
pub proof fn law_decimal_has_no_leading_zero(n: nat)
    ensures
        decimal(n)[0] == '0' <==> n == 0,
        n < 10 <==> decimal(n).len() == 1,
    decreases n,
{
    if n >= 10 {
        law_decimal_has_no_leading_zero(n / 10);
        lemma_decimal_is_number(n / 10);
        assert(decimal(n)[0] == decimal(n / 10)[0]);
    }
}

/// One digit more makes a number tenfold and adds the digit.
pub proof fn law_digits_count_by_place(digits: Seq<char>, d: char)
    requires
        '0' <= d <= '9',
    ensures
        digits_value(digits.push(d)) == 10 * digits_value(digits) + (d as int - '0' as int),
        digits_value(seq![d]) == d as int - '0' as int,
        digits_value(Seq::<char>::empty()) == 0,
{
    assert(digits.push(d).drop_last() =~= digits);
    assert(seq![d].drop_last() =~= Seq::<char>::empty());
    assert(digits_value(Seq::<char>::empty()) == 0);
}

/// A text is read as a number exactly where it is one or more digits, maybe behind a plus sign,
/// that stand for no more than a `u64` holds.
pub proof fn law_only_digits_are_read(digits: Seq<char>, s: Seq<char>)
    ensures
        digits.len() > 0 && (forall|i: int|
            0 <= i < digits.len() ==> '0' <= #[trigger] digits[i] <= '9') && digits_value(digits)
            <= 0xffff_ffff_ffff_ffff ==> {
            &&& parsed(digits) == Some(digits_value(digits) as u64)
            &&& parsed(seq!['+'] + digits) == Some(digits_value(digits) as u64)
        },
        parsed(s) is Some ==> {
            &&& s.len() > 0
            &&& forall|i: int|
                0 <= i < s.len() ==> '0' <= #[trigger] s[i] <= '9' || (i == 0 && s[0] == '+'
                    && s.len() > 1)
        },
{
    assert((seq!['+'] + digits).skip(1) =~= digits);
    if parsed(s) is Some && s.len() > 0 && s[0] == '+' {
        assert forall|i: int| 1 <= i < s.len() implies '0' <= #[trigger] s[i] <= '9' by {
            assert(is_digit(s.skip(1)[i - 1]));
        }
    }
    if parsed(s) is Some && s.len() > 0 && s[0] != '+' {
        assert forall|i: int| 0 <= i < s.len() implies '0' <= #[trigger] s[i] <= '9' by {
            assert(is_digit(s[i]));
        }
    }
}

} // verus!
