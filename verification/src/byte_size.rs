//! Sizes in bytes, and how they are printed in MiB with one decimal.
//!
//! A printed size is that of a double-precision division by 2^20 rounded to one decimal:
//! the byte count is first rounded to 53 significant bits, the quotient is exact, and the
//! tenths are rounded to nearest. Both roundings take ties to even.

use crate::decimal;
use crate::decimal::format_unsigned;
use vstd::prelude::*;

verus! {

/// The integer nearest to `num / den`, of two equally near ones the even one.
pub open spec fn round_half_even(num: nat, den: nat) -> nat {
    let q = num / den;
    let r = num % den;
    if 2 * r < den || (2 * r == den && q % 2 == 0) {
        q
    } else {
        q + 1
    }
}

/// The distance between doubles around `n`: 1 below 2^53, and doubling with every power of
/// two from there.
pub open spec fn double_spacing(n: nat) -> nat
    decreases n,
{
    if n < 0x20_0000_0000_0000 {
        1
    } else {
        2 * double_spacing(n / 2)
    }
}

/// The double nearest to `n`.
pub open spec fn nearest_double(n: nat) -> nat {
    round_half_even(n, double_spacing(n)) * double_spacing(n)
}

/// A byte count in tenths of a MiB.
pub open spec fn mib_tenths(bytes: nat) -> nat {
    round_half_even(nearest_double(bytes) * 10, 1_048_576)
}

/// A byte count in MiB with one decimal.
pub open spec fn mib_text(bytes: nat) -> Seq<char> {
    decimal::decimal(mib_tenths(bytes) / 10) + "."@ + decimal::decimal(
        mib_tenths(bytes) % 10,
    ) + " MiB"@
}

/// Whether so many KiB can be counted in bytes.
pub open spec fn kib_fits(value: int) -> bool {
    value * 1024 <= u64::MAX
}

/// Whether so many MiB can be counted in bytes.
pub open spec fn mib_fits(value: int) -> bool {
    value * 1_048_576 <= u64::MAX
}

/// Whether so many GiB can be counted in bytes.
pub open spec fn gib_fits(value: int) -> bool {
    value * 1_073_741_824 <= u64::MAX
}

/// KiB in bytes.
pub fn kib(value: u64) -> (r: u64)
    requires
        kib_fits(value as int),
    ensures
        r == value * 1024,
{
    value * 1024
}

/// MiB in bytes.
pub fn mib(value: u64) -> (r: u64)
    requires
        mib_fits(value as int),
    ensures
        r == value * 1_048_576,
{
    value * 1024 * 1024
}

/// GiB in bytes.
pub fn gib(value: u64) -> (r: u64)
    requires
        gib_fits(value as int),
    ensures
        r == value * 1_073_741_824,
{
    value * 1024 * 1024 * 1024
}

/// The spacing is at most a 2^52th of the number, but for small numbers.
proof fn lemma_spacing_bound(n: nat)
    ensures
        double_spacing(n) >= 1,
        n >= 0x10_0000_0000_0000 ==> double_spacing(n) * 0x10_0000_0000_0000 <= n,
    decreases n,
{
    if n >= 0x20_0000_0000_0000 {
        lemma_spacing_bound(n / 2);
    }
}

/// The distance between doubles around `n`.
fn spacing(n: u64) -> (r: u64)
    ensures
        r == double_spacing(n as nat),
        1 <= r <= 4096,
    decreases n,
{
    proof {
        lemma_spacing_bound(n as nat);
    }
    if n < 0x20_0000_0000_0000 {
        1
    } else {
        2 * spacing(n / 2)
    }
}

/// Divides and rounds to nearest, ties to even.
fn divide_rounded(num: u128, den: u128) -> (r: u128)
    requires
        0 < den <= 0x1_0000_0000,
    ensures
        r == round_half_even(num as nat, den as nat),
        r <= num / den + 1,
{
    let q: u128 = num / den;
    let rest: u128 = num % den;
    if 2 * rest < den || (2 * rest == den && q % 2 == 0) {
        q
    } else {
        assert(q < u128::MAX) by (nonlinear_arith)
            requires
                q == num / den,
                rest == num % den,
                2 * rest >= den,
                den > 0,
        ;
        q + 1
    }
}

/// Prints a byte count in MiB with one decimal.
pub fn format_bytes(bytes: u64) -> (r: String)
    ensures
        r@ == mib_text(bytes as nat),
{
    let gap: u128 = spacing(bytes) as u128;
    let steps: u128 = divide_rounded(bytes as u128, gap);
    assert(steps <= bytes + 1) by (nonlinear_arith)
        requires
            steps <= (bytes as u128) / gap + 1,
            gap >= 1,
            bytes >= 0,
    ;
    assert(0 <= steps * gap <= 0x1_0000_0000_0000_0000 * 4096) by (nonlinear_arith)
        requires
            0 <= steps <= 0x1_0000_0000_0000_0000,
            1 <= gap <= 4096,
    ;
    let rounded: u128 = steps * gap;
    let tenths: u128 = divide_rounded(rounded * 10, 1_048_576);
    let mut r = format_unsigned(tenths / 10);
    r.append(".");
    r.append(format_unsigned(tenths % 10).as_str());
    r.append(" MiB");
    r
}

/// Below 2^53 bytes, the printed number of tenths is off by at most half of one.
pub proof fn printed_size_is_nearest(bytes: nat)
    requires
        bytes < 0x20_0000_0000_0000,
    ensures
        -1_048_576 <= 2 * (mib_tenths(bytes) * 1_048_576 - bytes * 10) <= 1_048_576,
{
    assert(double_spacing(bytes) == 1);
    assert(round_half_even(bytes, 1) == bytes);
    assert(nearest_double(bytes) == bytes);
}

} // verus!
