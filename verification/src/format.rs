//! Numbers and sizes as text.

use vstd::prelude::*;
use vstd::arithmetic::div_mod::lemma_fundamental_div_mod;

verus! {

/// The character of a decimal digit.
pub open spec fn digit_char(d: nat) -> char {
    if d == 0 {
        '0'
    } else if d == 1 {
        '1'
    } else if d == 2 {
        '2'
    } else if d == 3 {
        '3'
    } else if d == 4 {
        '4'
    } else if d == 5 {
        '5'
    } else if d == 6 {
        '6'
    } else if d == 7 {
        '7'
    } else if d == 8 {
        '8'
    } else {
        '9'
    }
}

/// A number in decimal, without leading zeros.
pub open spec fn decimal_text(n: nat) -> Seq<char>
    decreases n,
{
    if n < 10 {
        seq![digit_char(n)]
    } else {
        decimal_text(n / 10).push(digit_char(n % 10))
    }
}

/// The quotient of `num` by `den`, rounded to the nearest whole number; a
/// quotient that lies just between two goes to the even one.
pub open spec fn round_half_even(num: nat, den: nat) -> nat {
    let q = num / den;
    let r = num % den;
    if 2 * r > den || (2 * r == den && q % 2 == 1) {
        q + 1
    } else {
        q
    }
}

/// The distance between neighbouring double-precision numbers around
/// `bytes`: up to 2^53 every whole number is one, from there on the
/// distance doubles with every power of two.
pub open spec fn float_step(bytes: nat) -> nat {
    if bytes < 0x20_0000_0000_0000 {
        1
    } else if bytes < 0x40_0000_0000_0000 {
        2
    } else if bytes < 0x80_0000_0000_0000 {
        4
    } else if bytes < 0x100_0000_0000_0000 {
        8
    } else if bytes < 0x200_0000_0000_0000 {
        16
    } else if bytes < 0x400_0000_0000_0000 {
        32
    } else if bytes < 0x800_0000_0000_0000 {
        64
    } else if bytes < 0x1000_0000_0000_0000 {
        128
    } else if bytes < 0x2000_0000_0000_0000 {
        256
    } else if bytes < 0x4000_0000_0000_0000 {
        512
    } else if bytes < 0x8000_0000_0000_0000 {
        1024
    } else {
        2048
    }
}

/// The double-precision number nearest to `bytes`. Sizes are shown as
/// double-precision arithmetic gives them, so a size beyond 2^53 is
/// rounded before it is scaled.
pub open spec fn nearest_float(bytes: nat) -> nat {
    round_half_even(bytes, float_step(bytes)) * float_step(bytes)
}

/// The unit in which a size is shown: the largest of B, KB, MB, GB, TB in
/// which it is at least one.
pub open spec fn size_unit(size: nat) -> nat {
    if size < 0x400 {
        0
    } else if size < 0x10_0000 {
        1
    } else if size < 0x4000_0000 {
        2
    } else if size < 0x100_0000_0000 {
        3
    } else {
        4
    }
}

/// The number of bytes in one of a unit.
pub open spec fn unit_bytes(unit: nat) -> nat {
    if unit == 0 {
        1
    } else if unit == 1 {
        0x400
    } else if unit == 2 {
        0x10_0000
    } else if unit == 3 {
        0x4000_0000
    } else {
        0x100_0000_0000
    }
}

/// The name of a unit.
pub open spec fn unit_name(unit: nat) -> Seq<char> {
    if unit == 0 {
        "B"@
    } else if unit == 1 {
        "KB"@
    } else if unit == 2 {
        "MB"@
    } else if unit == 3 {
        "GB"@
    } else {
        "TB"@
    }
}

/// A number of hundredths with two decimals: 1234 is `12.34`.
pub open spec fn hundredths_text(h: nat) -> Seq<char> {
    decimal_text(h / 100) + seq!['.', digit_char(h / 10 % 10), digit_char(h % 10)]
}

/// A size in bytes as text: in the largest unit in which it is at least
/// one, with two decimals, rounded to the nearest hundredth.
pub open spec fn size_text(bytes: nat) -> Seq<char> {
    let size = nearest_float(bytes);
    let unit = size_unit(size);
    hundredths_text(round_half_even(size * 100, unit_bytes(unit))) + seq![' '] + unit_name(unit)
}

/// Rounding a quotient gives at most one more than the quotient.
proof fn lemma_round_bound(num: nat, den: nat)
    requires
        den > 0,
    ensures
        round_half_even(num, den) * den <= num + den,
        round_half_even(num, den) <= num / den + 1,
{
    lemma_fundamental_div_mod(num as int, den as int);
    let q = num / den;
    assert(q * den <= num) by (nonlinear_arith)
        requires
            num == den * q + num % den,
            num % den >= 0,
    ;
    assert((q + 1) * den == q * den + den) by (nonlinear_arith);
}

fn digit(d: u128) -> (s: &'static str)
    requires
        d < 10,
    ensures
        s@ == seq![digit_char(d as nat)],
{
    proof {
        reveal_strlit("0");
        reveal_strlit("1");
        reveal_strlit("2");
        reveal_strlit("3");
        reveal_strlit("4");
        reveal_strlit("5");
        reveal_strlit("6");
        reveal_strlit("7");
        reveal_strlit("8");
        reveal_strlit("9");
    }
    let s = if d == 0 {
        "0"
    } else if d == 1 {
        "1"
    } else if d == 2 {
        "2"
    } else if d == 3 {
        "3"
    } else if d == 4 {
        "4"
    } else if d == 5 {
        "5"
    } else if d == 6 {
        "6"
    } else if d == 7 {
        "7"
    } else if d == 8 {
        "8"
    } else {
        "9"
    };
    s
}

/// Writes a number in decimal.
pub fn decimal(n: u128) -> (s: String)
    ensures
        s@ == decimal_text(n as nat),
    decreases n,
{
    if n < 10 {
        digit(n).to_owned()
    } else {
        let mut s = decimal(n / 10);
        s.append(digit(n % 10));
        s
    }
}

fn round_to_nearest(num: u128, den: u128) -> (q: u128)
    requires
        den > 0,
        num < 0x1_0000_0000_0000_0000_0000_0000,
    ensures
        q == round_half_even(num as nat, den as nat),
{
    let q = num / den;
    let r = num % den;
    if r > den - r || (r == den - r && q % 2 == 1) {
        q + 1
    } else {
        q
    }
}

fn step_of(bytes: u64) -> (step: u128)
    ensures
        step == float_step(bytes as nat),
{
    if bytes < 0x20_0000_0000_0000 {
        1
    } else if bytes < 0x40_0000_0000_0000 {
        2
    } else if bytes < 0x80_0000_0000_0000 {
        4
    } else if bytes < 0x100_0000_0000_0000 {
        8
    } else if bytes < 0x200_0000_0000_0000 {
        16
    } else if bytes < 0x400_0000_0000_0000 {
        32
    } else if bytes < 0x800_0000_0000_0000 {
        64
    } else if bytes < 0x1000_0000_0000_0000 {
        128
    } else if bytes < 0x2000_0000_0000_0000 {
        256
    } else if bytes < 0x4000_0000_0000_0000 {
        512
    } else if bytes < 0x8000_0000_0000_0000 {
        1024
    } else {
        2048
    }
}

/// Writes a number of hundredths with two decimals.
pub fn hundredths(h: u128) -> (s: String)
    ensures
        s@ == hundredths_text(h as nat),
{
    let mut s = decimal(h / 100);
    proof {
        reveal_strlit(".");
    }
    s.append(".");
    s.append(digit(h / 10 % 10));
    s.append(digit(h % 10));
    s
}

/// Writes a size in bytes as text, as `1.50 KB`.
pub fn format_size(bytes: u64) -> (s: String)
    ensures
        s@ == size_text(bytes as nat),
{
    let step = step_of(bytes);
    proof {
        lemma_round_bound(bytes as nat, step as nat);
    }
    let size: u128 = round_to_nearest(bytes as u128, step) * step;
    let (name, scale): (&str, u128) = if size < 0x400 {
        ("B", 1)
    } else if size < 0x10_0000 {
        ("KB", 0x400)
    } else if size < 0x4000_0000 {
        ("MB", 0x10_0000)
    } else if size < 0x100_0000_0000 {
        ("GB", 0x4000_0000)
    } else {
        ("TB", 0x100_0000_0000)
    };
    let mut s = hundredths(round_to_nearest(size * 100, scale));
    proof {
        reveal_strlit(" ");
    }
    s.append(" ");
    s.append(name);
    s
}

} // verus!
