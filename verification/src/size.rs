//! Sizes for people: a number of bytes in the largest fitting unit, with two decimals.
use crate::number::{
    decimal, digit, digits_value, is_number, lemma_decimal_is_number, push_decimal,
};
use vstd::arithmetic::div_mod::{lemma_div_denominator, lemma_fundamental_div_mod};
use vstd::prelude::*;

verus! {

/// `n / d` rounded to the nearest whole number, and to the even one of two that are equally near.
pub open spec fn round_half_even(n: nat, d: nat) -> nat {
    let q = n / d;
    let r = n % d;
    if 2 * r < d || (2 * r == d && q % 2 == 0) {
        q
    } else {
        q + 1
    }
}

/// The distance between neighbouring double-precision numbers around `n`: as many powers of two
/// as `n` has binary digits beyond the 53 of a mantissa.
pub open spec fn double_step(n: nat) -> nat
    decreases n,
{
    if n < 0x20_0000_0000_0000 {
        1
    } else {
        2 * double_step(n / 2)
    }
}

/// The double-precision number nearest to `n`.
pub open spec fn as_double(n: nat) -> nat {
    round_half_even(n, double_step(n)) * double_step(n)
}

/// The unit in which `bytes` are shown: the largest of five in which they come to one or more.
pub open spec fn unit_of(bytes: u64) -> (nat, Seq<char>) {
    if bytes < 0x400 {
        (1, "B"@)
    } else if bytes < 0x10_0000 {
        (0x400, "KB"@)
    } else if bytes < 0x4000_0000 {
        (0x10_0000, "MB"@)
    } else if bytes < 0x100_0000_0000 {
        (0x4000_0000, "GB"@)
    } else {
        (0x100_0000_0000, "TB"@)
    }
}

/// A number of hundredths, with two decimals.
pub open spec fn two_decimals(hundredths: nat) -> Seq<char> {
    decimal(hundredths / 100) + "."@ + seq![
        digit((hundredths / 10 % 10) as int),
        digit((hundredths % 10) as int),
    ]
}

/// `bytes` as people read them.
pub open spec fn readable(bytes: u64) -> Seq<char> {
    if bytes == 0 {
        "0 B"@
    } else {
        let unit = unit_of(bytes);
        two_decimals(round_half_even(100 * as_double(bytes as nat), unit.0)) + " "@ + unit.1
    }
}

/// `n / d` rounded to the nearest whole number, and to the even one of two that are equally near.
fn round_div(n: u128, d: u128) -> (q: u128)
    requires
        0 < d,
        n <= 0x2_0000_0000_0000_0000 * 100,
        d <= 0x1_0000_0000_0000_0000,
    ensures
        q == round_half_even(n as nat, d as nat),
        q * d <= n + d,
{
    let q: u128 = n / d;
    let r: u128 = n % d;
    proof {
        lemma_fundamental_div_mod(n as int, d as int);
        assert(q <= n) by (nonlinear_arith)
            requires
                n == d * q + r,
                0 < d,
                0 <= r,
                0 <= q,
        ;
        assert((q + 1) * d == q * d + d) by (nonlinear_arith);
        assert(d * q == q * d) by (nonlinear_arith);
    }
    if 2 * r < d || (2 * r == d && q % 2 == 0) {
        q
    } else {
        q + 1
    }
}

/// The double-precision number nearest to `n`.
fn nearest_double(n: u64) -> (value: u128)
    ensures
        value == as_double(n as nat),
        value <= 0x2_0000_0000_0000_0000,
        n < 0x20_0000_0000_0000 ==> value == n,
{
    let mut step: u64 = 1;
    let mut top: u64 = n;
    while top >= 0x20_0000_0000_0000
        invariant
            1 <= step <= 0x1000,
            n < 0x20_0000_0000_0000 ==> step == 1,
            top == n / step,
            step * top <= n,
            double_step(n as nat) == step * double_step(top as nat),
        decreases top,
    {
        proof {
            lemma_div_denominator(n as int, step as int, 2);
            assert(step < 0x800) by (nonlinear_arith)
                requires
                    step * top <= n,
                    top >= 0x20_0000_0000_0000,
                    n <= u64::MAX,
            ;
            let half = top / 2;
            assert(2 * step * half <= n) by (nonlinear_arith)
                requires
                    step * top <= n,
                    2 * half <= top,
                    0 <= half,
                    0 < step,
            ;
            assert(step * (2 * double_step(half as nat)) == (2 * step) * double_step(half as nat))
                by (nonlinear_arith);
        }
        top = top / 2;
        step = step * 2;
    }
    assert(step * double_step(top as nat) == step) by (nonlinear_arith)
        requires
            double_step(top as nat) == 1,
    ;
    let q: u128 = round_div(n as u128, step as u128);
    proof {
        if step == 1 {
            assert(q == n);
            assert(q * 1 == q);
        }
    }
    q * (step as u128)
}

/// `bytes` in the largest unit of `B`, `KB`, `MB`, `GB` and `TB` in which they come to one or
/// more, with two decimals.
pub fn format_bytes(bytes: u64) -> (out: String)
    ensures
        out@ == readable(bytes),
{
    if bytes == 0 {
        return "0 B".to_string();
    }
    let unit: (u128, &str) = if bytes < 0x400 {
        (1, "B")
    } else if bytes < 0x10_0000 {
        (0x400, "KB")
    } else if bytes < 0x4000_0000 {
        (0x10_0000, "MB")
    } else if bytes < 0x100_0000_0000 {
        (0x4000_0000, "GB")
    } else {
        (0x100_0000_0000, "TB")
    };
    let value: u128 = nearest_double(bytes);
    let hundredths: u128 = round_div(100 * value, unit.0);
    assert(hundredths <= 0x1_0000_0000_0000) by {
        if bytes < 0x400 {
            assert(hundredths * 1 == hundredths);
        }
    }
    let mut out = String::new();
    push_decimal(&mut out, (hundredths / 100) as u64);
    out.append(".");
    out.push((48 + (hundredths / 10 % 10) as u8) as char);
    out.push((48 + (hundredths % 10) as u8) as char);
    assert(out@ =~= two_decimals(hundredths as nat));
    out.append(" ");
    out.append(unit.1);
    out
}

/// Up to the largest number that a double holds exactly, the hundredths shown are as near to the
/// true size as hundredths can be: off by no more than half of one.
pub proof fn law_shown_size_is_nearest(bytes: u64)
    requires
        bytes < 0x20_0000_0000_0000,
    ensures
        ({
            let unit = unit_of(bytes).0;
            let shown = round_half_even(100 * as_double(bytes as nat), unit);
            -unit <= 2 * (shown * unit - 100 * bytes) <= unit
        }),
{
    let unit = unit_of(bytes).0;
    let n = bytes as nat;
    assert(double_step(n) == 1);
    assert(as_double(n) == n) by {
        assert(round_half_even(n, 1) == n);
        assert(n * 1 == n);
    }
    let q = (100 * n) / unit;
    let r = (100 * n) % unit;
    lemma_fundamental_div_mod((100 * n) as int, unit as int);
    assert((q + 1) * unit == q * unit + unit) by (nonlinear_arith);
    assert(unit * q == q * unit) by (nonlinear_arith);
}

/// Whether `text` gives a size in a unit: a number with two decimals, the name of the unit, and
/// between them a blank; and no other number of hundredths is nearer to the size.
pub open spec fn reads_as(text: Seq<char>, bytes: u64, unit: nat, name: Seq<char>) -> bool {
    exists|whole: Seq<char>, hundredths: Seq<char>| #[trigger]
        (whole + "."@ + hundredths + " "@ + name) == text && is_number(whole) && is_number(
            hundredths,
        ) && hundredths.len() == 2 && {
            let shown = 100 * digits_value(whole) + digits_value(hundredths);
            -unit <= 2 * (shown * unit - 100 * bytes) <= unit
        }
}

/// A size is read in the largest of the units bytes, kibibytes, mebibytes, gibibytes and tebibytes
/// of which there is one, to the nearest hundredth.
pub proof fn law_size_reads_as_it_is(bytes: u64)
    requires
        0 < bytes < 0x20_0000_0000_0000,
    ensures
        bytes < 1024 ==> reads_as(readable(bytes), bytes, 1, "B"@),
        1024 <= bytes < 1024 * 1024 ==> reads_as(readable(bytes), bytes, 1024, "KB"@),
        1024 * 1024 <= bytes < 1024 * 1024 * 1024 ==> reads_as(
            readable(bytes),
            bytes,
            1024 * 1024,
            "MB"@,
        ),
        1024 * 1024 * 1024 <= bytes < 1024 * 1024 * 1024 * 1024 ==> reads_as(
            readable(bytes),
            bytes,
            1024 * 1024 * 1024,
            "GB"@,
        ),
        1024 * 1024 * 1024 * 1024 <= bytes ==> reads_as(
            readable(bytes),
            bytes,
            1024 * 1024 * 1024 * 1024,
            "TB"@,
        ),
        readable(0) == "0 B"@,
{
    let unit = unit_of(bytes);
    let shown = round_half_even(100 * as_double(bytes as nat), unit.0);
    law_shown_size_is_nearest(bytes);
    let whole = decimal(shown / 100);
    let hundredths = seq![
        digit((shown / 10 % 10) as int),
        digit((shown % 10) as int),
    ];
    lemma_decimal_is_number(shown / 100);
    assert(digits_value(hundredths) == shown % 100) by {
        let first = seq![digit((shown / 10 % 10) as int)];
        assert(hundredths.drop_last() =~= first);
        assert(first.drop_last() =~= Seq::<char>::empty());
        assert(digits_value(Seq::<char>::empty()) == 0);
        assert(digits_value(first) == shown / 10 % 10);
        assert(shown % 100 == (shown / 10 % 10) * 10 + shown % 10);
    }
    assert(100 * digits_value(whole) + digits_value(hundredths) == shown);
    assert(whole + "."@ + hundredths + " "@ + unit.1 == readable(bytes));
    assert(is_number(hundredths));
    assert(reads_as(readable(bytes), bytes, unit.0, unit.1));
}

} // verus!
