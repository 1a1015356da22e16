//! What the printed size of a number of bytes is, said of the number and the text.

use crate::{byte_size, decimal};
use crate::byte_size::{format_bytes, gib, kib, mib};
use vstd::arithmetic::div_mod::lemma_fundamental_div_mod;
use vstd::arithmetic::mul::lemma_mul_is_distributive_add_other_way;
use vstd::prelude::*;

verus! {

/// Whether `k` is the integer nearest to `num / den`, and the even one of two that are.
pub open spec fn is_nearest(k: nat, num: nat, den: nat) -> bool {
    &&& 2 * num - den <= 2 * (k * den) <= 2 * num + den
    &&& 2 * (k * den) == 2 * num - den || 2 * (k * den) == 2 * num + den ==> k % 2 == 0
}

/// Whether `n` is a power of two.
pub open spec fn is_power_of_two(n: nat) -> bool
    decreases n,
{
    n == 1 || (n > 0 && n % 2 == 0 && is_power_of_two(n / 2))
}

/// Whether doubles around `n` are `gap` apart: a double has 53 significant bits.
pub open spec fn is_gap(n: nat, gap: nat) -> bool {
    ||| gap == 1 && n < 0x20_0000_0000_0000
    ||| is_power_of_two(gap) && gap * 0x10_0000_0000_0000 <= n < gap * 0x20_0000_0000_0000
}

/// Whether `d` is the double nearest to `n`.
pub open spec fn is_nearest_double(d: nat, n: nat) -> bool {
    exists|gap: nat, k: nat| #[trigger]
        is_nearest(k, n, gap) && is_gap(n, gap) && d == k * gap
}

proof fn lemma_round_half_even(num: nat, den: nat)
    requires
        den > 0,
    ensures
        is_nearest(byte_size::round_half_even(num, den), num, den),
{
    let q = num / den;
    let r = num % den;
    lemma_fundamental_div_mod(num as int, den as int);
    assert(q * den == den * q) by (nonlinear_arith);
    lemma_mul_is_distributive_add_other_way(den as int, q as int, 1);
    assert((q + 1) * den == q * den + den);
    assert(0 <= r < den);
    assert(num == q * den + r);
}

proof fn lemma_spacing_is_gap(n: nat)
    ensures
        is_gap(n, byte_size::double_spacing(n)),
        is_power_of_two(byte_size::double_spacing(n)),
        byte_size::double_spacing(n) > 0,
    decreases n,
{
    if n >= 0x20_0000_0000_0000 {
        lemma_spacing_is_gap(n / 2);
        let half = byte_size::double_spacing(n / 2);
        assert((2 * half) / 2 == half);
    }
}

/// A size is printed in MiB with one decimal: the nearest double, in tenths of a MiB, rounded
/// to the nearest.
pub proof fn size_is_printed_to_the_nearest_tenth(bytes: u64, r: String)
    requires
        call_ensures(format_bytes, (bytes,), r),
    ensures
        exists|d: nat, tenths: nat|
            {
                &&& is_nearest_double(d, bytes as nat)
                &&& #[trigger] is_nearest(tenths, d * 10, 1_048_576)
                &&& r@ == decimal::decimal(tenths / 10) + "."@ + decimal::decimal(tenths % 10)
                    + " MiB"@
            },
{
    let n = bytes as nat;
    let gap = byte_size::double_spacing(n);
    lemma_spacing_is_gap(n);
    lemma_round_half_even(n, gap);
    let k = byte_size::round_half_even(n, gap);
    let d = byte_size::nearest_double(n);
    assert(is_nearest(k, n, gap) && is_gap(n, gap) && d == k * gap);
    assert(is_nearest_double(d, n));
    lemma_round_half_even(d * 10, 1_048_576);
    assert(is_nearest(byte_size::mib_tenths(n), d * 10, 1_048_576));
}

/// A KiB is 1024 bytes, a MiB 1024 KiB, and a GiB 1024 MiB.
pub proof fn units_are_1024_of_the_next(value: u64, kibs: u64, mibs: u64, gibs: u64)
    requires
        call_ensures(kib, (value,), kibs),
        call_ensures(mib, (value,), mibs),
        call_ensures(gib, (value,), gibs),
    ensures
        kibs == 1024 * value,
        mibs == 1024 * kibs,
        gibs == 1024 * mibs,
{
}

/// Below 2^53 bytes a size is printed as the tenth of a MiB that is nearest to it.
pub proof fn small_size_is_printed_to_the_nearest_tenth(bytes: u64, r: String)
    requires
        call_ensures(format_bytes, (bytes,), r),
        bytes < 0x20_0000_0000_0000,
    ensures
        exists|tenths: nat|
            {
                &&& #[trigger] is_nearest(tenths, (bytes * 10) as nat, 1_048_576)
                &&& r@ == decimal::decimal(tenths / 10) + "."@ + decimal::decimal(tenths % 10)
                    + " MiB"@
            },
{
    let n = bytes as nat;
    assert(byte_size::double_spacing(n) == 1);
    lemma_round_half_even(n, 1);
    assert(byte_size::nearest_double(n) == n);
    lemma_round_half_even((bytes * 10) as nat, 1_048_576);
    assert(is_nearest(byte_size::mib_tenths(n), (bytes * 10) as nat, 1_048_576));
}

} // verus!
