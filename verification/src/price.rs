use vstd::arithmetic::div_mod::{
    lemma_fundamental_div_mod, lemma_hoist_over_denominator, lemma_mod_bound,
};
use vstd::arithmetic::mul::{lemma_mul_inequality, lemma_mul_nonnegative};
use vstd::prelude::*;

use crate::address::Address;

verus! {

/// Why a venue's raw on-chain data could not be turned into a normalized
/// price.  Either way the venue is treated as unavailable for the cycle,
/// never as a fault.
#[derive(Clone, Copy, Debug, PartialEq, Eq, Structural)]
pub enum DataError {
    /// A reserve slot was empty; a ratio over it would divide by zero.
    ZeroReserve,
    /// The scaled value does not fit the 128-bit price representation.
    ValueTooLarge,
}

/// 10^e as a mathematical integer.
pub open spec fn pow10_spec(e: nat) -> nat
    decreases e,
{
    if e == 0 {
        1
    } else {
        10 * pow10_spec((e - 1) as nat)
    }
}

pub proof fn lemma_pow10_pos(e: nat)
    ensures
        pow10_spec(e) >= 1,
    decreases e,
{
    if e > 0 {
        lemma_pow10_pos((e - 1) as nat);
    }
}

pub proof fn lemma_pow10_monotonic(a: nat, b: nat)
    requires
        a <= b,
    ensures
        pow10_spec(a) <= pow10_spec(b),
    decreases b,
{
    if a < b {
        lemma_pow10_monotonic(a, (b - 1) as nat);
        lemma_pow10_pos((b - 1) as nat);
    }
}

proof fn lemma_pow10_38_value()
    ensures
        pow10_spec(38) == 100000000000000000000000000000000000000,
{
    reveal_with_fuel(pow10_spec, 39);
}

/// 10^e, exactly.
pub fn pow10(e: u32) -> (r: u128)
    requires
        e <= 38,
    ensures
        r == pow10_spec(e as nat),
{
    let mut r: u128 = 1;
    let mut i: u32 = 0;
    while i < e
        invariant
            i <= e,
            e <= 38,
            r == pow10_spec(i as nat),
        decreases e - i,
    {
        proof {
            lemma_pow10_monotonic((i + 1) as nat, 38);
            lemma_pow10_38_value();
        }
        r = r * 10;
        i = i + 1;
    }
    r
}

/// For positive `m`, `a <= max / m` is exactly the no-overflow test for
/// `a * m <= max`.
proof fn lemma_div_bound_is_mul_bound(a: int, m: int, max: int)
    requires
        m > 0,
        a >= 0,
        max >= 0,
    ensures
        (a <= max / m) == (a * m <= max),
{
    lemma_fundamental_div_mod(max, m);
    lemma_mod_bound(max, m);
    assert(m * (max / m) == (max / m) * m) by (nonlinear_arith);
    if a <= max / m {
        lemma_mul_inequality(a, max / m, m);
    } else {
        lemma_mul_inequality(max / m + 1, a, m);
        assert((max / m + 1) * m == (max / m) * m + m) by (nonlinear_arith);
    }
}

pub proof fn lemma_pow10_add(a: nat, b: nat)
    ensures
        pow10_spec(a + b) == pow10_spec(a) * pow10_spec(b),
    decreases b,
{
    if b == 0 {
        assert(pow10_spec(a) * pow10_spec(0) == pow10_spec(a)) by (nonlinear_arith)
            requires
                pow10_spec(0) == 1,
        ;
    } else {
        let p = pow10_spec(a) as int;
        let q = pow10_spec((b - 1) as nat) as int;
        lemma_pow10_add(a, (b - 1) as nat);
        assert((a + b - 1) as nat == a + (b - 1) as nat);
        assert(pow10_spec(a + b) == 10 * pow10_spec((a + b - 1) as nat));
        assert(pow10_spec(a + b) == 10 * (p * q));
        assert(pow10_spec(b) == 10 * q);
        assert(10 * (p * q) == p * (10 * q)) by (nonlinear_arith);
        assert(p * (10 * q) == p * (pow10_spec(b) as int)) by (nonlinear_arith)
            requires
                pow10_spec(b) == 10 * q,
        ;
        assert(pow10_spec(a + b) == pow10_spec(a) * pow10_spec(b));
    }
}

/// Splitting a scaled division at the quotient: for positive `d`,
/// `(x * m) / d == (x / d) * m + ((x % d) * m) / d`, exactly.
proof fn lemma_scaled_div_split(x: int, m: int, d: int)
    requires
        d > 0,
        x >= 0,
        m >= 0,
    ensures
        (x * m) / d == (x / d) * m + ((x % d) * m) / d,
{
    lemma_fundamental_div_mod(x, d);
    lemma_mod_bound(x, d);
    let q = x / d;
    let r = x % d;
    assert(x * m == (r * m) + (q * m) * d) by (nonlinear_arith)
        requires
            x == d * q + r,
    ;
    lemma_hoist_over_denominator(r * m, q * m, d as nat);
}

/// Normalized price of one base unit in quote units, in fixed point with 18
/// fractional decimal digits, from decimal-adjusted pool reserves:
/// floor(reserve_quote * 10^(18 + dec_base - dec_quote) / reserve_base).
pub open spec fn reserve_price_spec(
    reserve_base: u128,
    reserve_quote: u128,
    dec_base: u8,
    dec_quote: u8,
) -> int
    recommends
        dec_quote <= 18 + dec_base,
        reserve_base > 0,
{
    (reserve_quote * pow10_spec((18 + dec_base - dec_quote) as nat)) / (reserve_base as int)
}

/// Whether the staged exact division behind `reserve_price` stays within
/// 128-bit intermediates: the two scaled remainders fit, and so does the
/// price itself.  The scale 10^e is split into near-halves `a * b`, so the
/// remainder terms are far smaller than the naive product
/// `reserve_quote * 10^e`.
pub open spec fn reserve_scaling_fits(
    reserve_base: u128,
    reserve_quote: u128,
    dec_base: u8,
    dec_quote: u8,
) -> bool
    recommends
        reserve_base > 0,
        dec_base <= 18,
        dec_quote <= 18,
{
    let e = (18 + dec_base - dec_quote) as nat;
    let a = pow10_spec(e / 2);
    let b = pow10_spec((e - e / 2) as nat);
    let r0 = (reserve_quote as int) % (reserve_base as int);
    let r1 = (r0 * a) % (reserve_base as int);
    &&& r0 * a <= u128::MAX
    &&& r1 * b <= u128::MAX
    &&& reserve_price_spec(reserve_base, reserve_quote, dec_base, dec_quote) <= u128::MAX
}

/// Price from a pool's reserves once the slots are matched to the assets:
/// `reserve_base` backs the base asset and `reserve_quote` the quote asset.
/// The scaled division is staged through quotient and remainder, so the
/// result is exact whenever `reserve_scaling_fits` holds.  A zero reserve is
/// reported as unavailable, never divided by; a value beyond 128 bits is
/// reported as out of range.
pub fn reserve_price(
    reserve_base: u128,
    reserve_quote: u128,
    dec_base: u8,
    dec_quote: u8,
) -> (r: Result<u128, DataError>)
    requires
        dec_base <= 18,
        dec_quote <= 18,
    ensures
        (reserve_base == 0 || reserve_quote == 0) <==> r == Err::<u128, DataError>(
            DataError::ZeroReserve,
        ),
        (reserve_base != 0 && reserve_quote != 0 && !reserve_scaling_fits(
            reserve_base,
            reserve_quote,
            dec_base,
            dec_quote,
        )) <==> r == Err::<u128, DataError>(DataError::ValueTooLarge),
        (reserve_base != 0 && reserve_quote != 0 && reserve_scaling_fits(
            reserve_base,
            reserve_quote,
            dec_base,
            dec_quote,
        )) ==> r == Ok::<u128, DataError>(
            reserve_price_spec(reserve_base, reserve_quote, dec_base, dec_quote) as u128,
        ),
{
    if reserve_base == 0 || reserve_quote == 0 {
        return Err(DataError::ZeroReserve);
    }
    let e: u32 = 18 + dec_base as u32 - dec_quote as u32;
    let e1: u32 = e / 2;
    let e2: u32 = e - e1;
    let a: u128 = pow10(e1);
    let b: u128 = pow10(e2);
    proof {
        lemma_pow10_pos(e1 as nat);
        lemma_pow10_pos(e2 as nat);
        lemma_pow10_add(e1 as nat, e2 as nat);
        lemma_pow10_pos(e as nat);
        lemma_pow10_monotonic(e as nat, 38);
        lemma_pow10_38_value();
    }
    let s: u128 = a * b;
    let q0: u128 = reserve_quote / reserve_base;
    let r0: u128 = reserve_quote % reserve_base;
    proof {
        lemma_div_bound_is_mul_bound(r0 as int, a as int, u128::MAX as int);
    }
    if r0 > u128::MAX / a {
        return Err(DataError::ValueTooLarge);
    }
    let t1: u128 = r0 * a;
    let q1: u128 = t1 / reserve_base;
    let r1: u128 = t1 % reserve_base;
    proof {
        lemma_div_bound_is_mul_bound(r1 as int, b as int, u128::MAX as int);
    }
    if r1 > u128::MAX / b {
        return Err(DataError::ValueTooLarge);
    }
    let t2: u128 = r1 * b;
    let q2: u128 = t2 / reserve_base;
    let ghost total = reserve_price_spec(reserve_base, reserve_quote, dec_base, dec_quote);
    proof {
        lemma_scaled_div_split(reserve_quote as int, s as int, reserve_base as int);
        assert((r0 as int) * (s as int) == (t1 as int) * (b as int)) by (nonlinear_arith)
            requires
                s == a * b,
                t1 == r0 * a,
        ;
        lemma_scaled_div_split(t1 as int, b as int, reserve_base as int);
        assert(total == q0 * s + q1 * b + q2);
        lemma_mul_nonnegative(q0 as int, s as int);
        lemma_mul_nonnegative(q1 as int, b as int);
        lemma_div_bound_is_mul_bound(q0 as int, s as int, u128::MAX as int);
    }
    if q0 > u128::MAX / s {
        return Err(DataError::ValueTooLarge);
    }
    let h0: u128 = q0 * s;
    proof {
        lemma_div_bound_is_mul_bound(q1 as int, b as int, (u128::MAX - h0) as int);
    }
    if q1 > (u128::MAX - h0) / b {
        return Err(DataError::ValueTooLarge);
    }
    let h1: u128 = h0 + q1 * b;
    if q2 > u128::MAX - h1 {
        return Err(DataError::ValueTooLarge);
    }
    Ok(h1 + q2)
}

/// Price from a pool's raw reserve slots.  Pool contracts store their two
/// tokens sorted by address, slot 0 holding the lower one, so the slots are
/// matched to the assets from the token addresses, never taken by position.
pub fn pool_price(
    reserve0: u128,
    reserve1: u128,
    base: &Address,
    quote: &Address,
    dec_base: u8,
    dec_quote: u8,
) -> (r: Result<u128, DataError>)
    requires
        dec_base <= 18,
        dec_quote <= 18,
    ensures
        ({
            let rb = if base.value() < quote.value() {
                reserve0
            } else {
                reserve1
            };
            let rq = if base.value() < quote.value() {
                reserve1
            } else {
                reserve0
            };
            &&& ((rb == 0 || rq == 0) <==> r == Err::<u128, DataError>(DataError::ZeroReserve))
            &&& ((rb != 0 && rq != 0 && !reserve_scaling_fits(rb, rq, dec_base, dec_quote))
                <==> r == Err::<u128, DataError>(DataError::ValueTooLarge))
            &&& ((rb != 0 && rq != 0 && reserve_scaling_fits(rb, rq, dec_base, dec_quote))
                ==> r == Ok::<u128, DataError>(
                reserve_price_spec(rb, rq, dec_base, dec_quote) as u128,
            ))
        }),
{
    if base.lt(quote) {
        reserve_price(reserve0, reserve1, dec_base, dec_quote)
    } else {
        reserve_price(reserve1, reserve0, dec_base, dec_quote)
    }
}

/// Normalized price from a router quote: the quote-asset amount received for
/// one base unit, rescaled to 18 fractional decimal digits.
pub open spec fn route_price_spec(amount_out: u128, dec_quote: u8) -> int
    recommends
        dec_quote <= 18,
{
    amount_out * pow10_spec((18 - dec_quote) as nat)
}

/// Price from the output amount a router quotes for exactly one base unit.
pub fn route_price(amount_out: u128, dec_quote: u8) -> (r: Result<u128, DataError>)
    requires
        dec_quote <= 18,
    ensures
        route_price_spec(amount_out, dec_quote) <= u128::MAX ==> r == Ok::<u128, DataError>(
            route_price_spec(amount_out, dec_quote) as u128,
        ),
        route_price_spec(amount_out, dec_quote) > u128::MAX <==> r == Err::<u128, DataError>(
            DataError::ValueTooLarge,
        ),
{
    let m: u128 = pow10(18 - dec_quote as u32);
    proof {
        lemma_pow10_pos((18 - dec_quote) as nat);
        lemma_div_bound_is_mul_bound(amount_out as int, m as int, u128::MAX as int);
    }
    if amount_out > u128::MAX / m {
        return Err(DataError::ValueTooLarge);
    }
    Ok(amount_out * m)
}

/// The input amount that stands for exactly one unit of the base asset:
/// 10^dec_base of its smallest denomination.
pub fn unit_amount(dec_base: u8) -> (r: u128)
    requires
        dec_base <= 18,
    ensures
        r == pow10_spec(dec_base as nat),
{
    pow10(dec_base as u32)
}

} // verus!
