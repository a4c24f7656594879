//! Text building blocks shared by the display helpers: decimal and hexadecimal
//! digits, and rounding of a binary fraction to a fixed number of decimals.

use vstd::prelude::*;

verus! {

/// The ASCII digit for `d` (0..=9), or the upper-case hex digit for 10..=15.
pub open spec fn digit_char(d: nat) -> char {
    if d < 10 {
        ((d + 48) as u8) as char
    } else {
        ((d + 55) as u8) as char
    }
}

/// Decimal representation of `n`, most significant digit first, no leading zeros.
pub open spec fn decimal(n: nat) -> Seq<char>
    decreases n,
{
    if n < 10 {
        seq![digit_char(n)]
    } else {
        decimal(n / 10).push(digit_char(n % 10))
    }
}

/// Two upper-case hex digits of a byte.
pub open spec fn hex_byte(b: u8) -> Seq<char> {
    seq![digit_char(b as nat / 16), digit_char(b as nat % 16)]
}

/// Nearest integer to `num / den`; an exact half goes to the even neighbour.
pub open spec fn round_half_even(num: nat, den: nat) -> nat
    recommends
        den > 0,
{
    let q = num / den;
    let r = num % den;
    if 2 * r > den || (2 * r == den && q % 2 == 1) {
        q + 1
    } else {
        q
    }
}

/// A one-character string holding the digit `d`.
fn digit_str(d: u64) -> (s: &'static str)
    requires
        d < 16,
    ensures
        s@ == seq![digit_char(d as nat)],
{
    proof {
        reveal_strlit("0");
        reveal_strlit("1");
        reveal_strlit("2");
        reveal_strlit("3");
        reveal_strlit("4");
        reveal_strlit("5");
        reveal_strlit("6");
        reveal_strlit("7");
        reveal_strlit("8");
        reveal_strlit("9");
        reveal_strlit("A");
        reveal_strlit("B");
        reveal_strlit("C");
        reveal_strlit("D");
        reveal_strlit("E");
        reveal_strlit("F");
    }
    match d {
        0 => "0",
        1 => "1",
        2 => "2",
        3 => "3",
        4 => "4",
        5 => "5",
        6 => "6",
        7 => "7",
        8 => "8",
        9 => "9",
        10 => "A",
        11 => "B",
        12 => "C",
        13 => "D",
        14 => "E",
        _ => "F",
    }
}

/// Appends the decimal representation of `n` to `out`.
pub fn push_decimal(out: &mut String, n: u64)
    ensures
        final(out)@ == old(out)@ + decimal(n as nat),
    decreases n,
{
    if n >= 10 {
        push_decimal(out, n / 10);
    }
    let s = digit_str(n % 10);
    out.append(s);
    proof {
        if n >= 10 {
            assert(decimal(n as nat) == decimal((n / 10) as nat).push(digit_char((n % 10) as nat)));
        }
    }
}

/// Appends two upper-case hex digits for `b` to `out`.
pub fn push_hex_byte(out: &mut String, b: u8)
    ensures
        final(out)@ == old(out)@ + hex_byte(b),
{
    out.append(digit_str((b / 16) as u64));
    out.append(digit_str((b % 16) as u64));
}

/// `round_half_even` on machine integers.
pub fn round_half_even_u128(num: u128, den: u128) -> (r: u128)
    requires
        den > 0,
        num / den < u128::MAX,
    ensures
        r == round_half_even(num as nat, den as nat),
{
    let q = num / den;
    let r = num % den;
    if r > den - r || (r == den - r && q % 2 == 1) {
        q + 1
    } else {
        q
    }
}

/// Appends `tenths / 10` in decimal, a point, and the last digit of `tenths`.
pub fn push_tenths(out: &mut String, tenths: u64)
    ensures
        final(out)@ == old(out)@ + decimal((tenths / 10) as nat) + seq!['.'] + seq![digit_char((tenths % 10) as nat)],
{
    push_decimal(out, tenths / 10);
    proof {
        reveal_strlit(".");
    }
    out.append(".");
    out.append(digit_str(tenths % 10));
}

/// Gap between neighbouring `f64` values around `n` (for `n < 2^64`): 1 below 2^53,
/// doubling with each further power of two.
pub open spec fn f64_spacing(n: nat) -> nat {
    if n < 0x20_0000_0000_0000 { 1 }
    else if n < 0x40_0000_0000_0000 { 2 }
    else if n < 0x80_0000_0000_0000 { 4 }
    else if n < 0x100_0000_0000_0000 { 8 }
    else if n < 0x200_0000_0000_0000 { 16 }
    else if n < 0x400_0000_0000_0000 { 32 }
    else if n < 0x800_0000_0000_0000 { 64 }
    else if n < 0x1000_0000_0000_0000 { 128 }
    else if n < 0x2000_0000_0000_0000 { 256 }
    else if n < 0x4000_0000_0000_0000 { 512 }
    else if n < 0x8000_0000_0000_0000 { 1024 }
    else { 2048 }
}

/// The value of `n as f64` for a 64-bit unsigned `n`: the nearest multiple of the
/// spacing, an exact half going to the even multiple.
pub open spec fn f64_of_u64(n: u64) -> nat {
    f64_spacing(n as nat) * round_half_even(n as nat, f64_spacing(n as nat))
}

/// Digits printed by `{:.1}` for the value `num / den`: the number of tenths, rounded
/// to nearest with ties to even, split into whole part, point and one decimal.
pub open spec fn one_decimal(num: nat, den: nat) -> Seq<char>
    recommends
        den > 0,
{
    let tenths = round_half_even(num * 10, den);
    decimal(tenths / 10) + seq!['.'] + seq![digit_char(tenths % 10)]
}

fn f64_spacing_exec(n: u64) -> (r: u128)
    ensures
        r == f64_spacing(n as nat),
        1 <= r <= 2048,
{
    if n < 0x20_0000_0000_0000 { 1 }
    else if n < 0x40_0000_0000_0000 { 2 }
    else if n < 0x80_0000_0000_0000 { 4 }
    else if n < 0x100_0000_0000_0000 { 8 }
    else if n < 0x200_0000_0000_0000 { 16 }
    else if n < 0x400_0000_0000_0000 { 32 }
    else if n < 0x800_0000_0000_0000 { 64 }
    else if n < 0x1000_0000_0000_0000 { 128 }
    else if n < 0x2000_0000_0000_0000 { 256 }
    else if n < 0x4000_0000_0000_0000 { 512 }
    else if n < 0x8000_0000_0000_0000 { 1024 }
    else { 2048 }
}

/// `n as f64`, computed exactly in integers.
pub fn f64_of_u64_exec(n: u64) -> (r: u128)
    ensures
        r == f64_of_u64(n),
        r <= 0x1_0000_0000_0000_0000,
{
    let sp = f64_spacing_exec(n);
    let q = round_half_even_u128(n as u128, sp);
    proof {
        assert(q <= n as nat / sp as nat + 1);
        assert((n as nat / sp as nat) * sp as nat <= n as nat) by (nonlinear_arith)
            requires sp > 0;
        assert((n as nat / sp as nat + 1) * sp as nat == (n as nat / sp as nat) * sp as nat + sp as nat) by (nonlinear_arith);
        assert(q as nat * sp as nat <= (n as nat / sp as nat + 1) * sp as nat) by (nonlinear_arith)
            requires q <= n as nat / sp as nat + 1, sp > 0;
        if n >= 0xF800_0000_0000_0000u64 {
            assert(sp == 2048);
            assert(n as nat / 2048 <= 0x1F_FFFF_FFFF_FFFF);
            assert(q as nat * 2048 <= 0x1_0000_0000_0000_0000) by (nonlinear_arith)
                requires q as nat <= n as nat / 2048 + 1, n as nat / 2048 <= 0x1F_FFFF_FFFF_FFFF;
        }
    }
    sp * q
}

/// Appends the `{:.1}` rendering of `num / den` to `out`.
pub fn push_one_decimal(out: &mut String, num: u128, den: u128)
    requires
        den >= 16,
        num <= 0x1_0000_0000_0000_0000,
    ensures
        final(out)@ == old(out)@ + one_decimal(num as nat, den as nat),
{
    let tenths = round_half_even_u128(num * 10, den);
    proof {
        assert(tenths <= (num * 10) as nat / den as nat + 1);
        assert((num * 10) as nat / den as nat <= (num * 10) as nat / 16) by (nonlinear_arith)
            requires den >= 16;
        assert((num * 10) as nat / 16 <= 0xA000_0000_0000_0000);
    }
    push_tenths(out, tenths as u64);
}

proof fn lemma_digit_char_injective(a: nat, b: nat)
    requires
        a < 16,
        b < 16,
        digit_char(a) == digit_char(b),
    ensures
        a == b,
{
    assert(digit_char(a) as u32 == digit_char(b) as u32);
}

/// The number a string of decimal digits denotes (most significant digit first).
pub open spec fn digits_value(s: Seq<char>) -> nat
    decreases s.len(),
{
    if s.len() == 0 {
        0
    } else {
        digits_value(s.drop_last()) * 10 + (s.last() as nat - 48) as nat
    }
}

/// `decimal(n)` is the usual decimal numeral of `n`: a non-empty string of the digits `0`
/// to `9`, without a leading zero (but for `0` itself), that denotes `n`.
pub proof fn law_decimal_denotes(n: nat)
    ensures
        decimal(n).len() > 0,
        forall|i: int| 0 <= i < decimal(n).len() ==> '0' <= #[trigger] decimal(n)[i] && decimal(n)[i] <= '9',
        n > 0 ==> decimal(n)[0] != '0',
        digits_value(decimal(n)) == n,
    decreases n,
{
    if n >= 10 {
        law_decimal_denotes(n / 10);
        let d = decimal(n);
        assert(d.drop_last() =~= decimal(n / 10));
        assert(d.last() == digit_char(n % 10));
        assert(digit_char(n % 10) as nat == n % 10 + 48);
        assert forall|i: int| 0 <= i < d.len() implies '0' <= #[trigger] d[i] && d[i] <= '9' by {
            if i < d.len() - 1 {
                assert(d[i] == decimal(n / 10)[i]);
            }
        }
        assert(d[0] == decimal(n / 10)[0]);
        assert(n == (n / 10) * 10 + n % 10);
        assert((d.last() as nat - 48) as nat == n % 10);
        assert(digits_value(d) == digits_value(decimal(n / 10)) * 10 + n % 10);
    } else {
        assert(digit_char(n) as nat == n + 48);
        assert(decimal(n).drop_last() =~= Seq::<char>::empty());
        assert(digits_value(decimal(n)) == digits_value(Seq::<char>::empty()) * 10 + n);
    }
}

/// Different numbers have different decimal numerals.
pub proof fn law_decimal_injective(a: nat, b: nat)
    requires
        decimal(a) == decimal(b),
    ensures
        a == b,
{
    law_decimal_denotes(a);
    law_decimal_denotes(b);
}

/// Two bytes print as the same two hex digits only when they are equal.
pub proof fn law_hex_byte_injective(a: u8, b: u8)
    requires
        hex_byte(a) == hex_byte(b),
    ensures
        a == b,
{
    assert(hex_byte(a)[0] == hex_byte(b)[0]);
    assert(hex_byte(a)[1] == hex_byte(b)[1]);
    lemma_digit_char_injective(a as nat / 16, b as nat / 16);
    lemma_digit_char_injective(a as nat % 16, b as nat % 16);
}

} // verus!
