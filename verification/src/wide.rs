use vstd::prelude::*;

verus! {

/// Splits `x * c` into `(high, low)` limbs with `low < 2^64`, so a product of
/// up to 192 bits is held exactly in machine words.
fn mul_wide(x: u128, c: u64) -> (p: (u128, u128))
    ensures
        p.1 < 0x10000000000000000,
        p.0 * 0x10000000000000000 + p.1 == x * c,
{
    let xh: u128 = x / 0x10000000000000000u128;
    let xl: u128 = x % 0x10000000000000000u128;
    let cw: u128 = c as u128;
    proof {
        assert(xh * cw <= 0xffffffffffffffffu128 * 0xffffffffffffffffu128)
            by (nonlinear_arith)
            requires
                xh <= 0xffffffffffffffffu128,
                cw <= 0xffffffffffffffffu128,
        ;
        assert(xl * cw <= 0xffffffffffffffffu128 * 0xffffffffffffffffu128)
            by (nonlinear_arith)
            requires
                xl <= 0xffffffffffffffffu128,
                cw <= 0xffffffffffffffffu128,
        ;
    }
    let p1: u128 = xh * cw;
    let p2: u128 = xl * cw;
    let hi: u128 = p1 + p2 / 0x10000000000000000u128;
    let lo: u128 = p2 % 0x10000000000000000u128;
    proof {
        assert((xh * 0x10000000000000000 + xl) * cw == xh * cw * 0x10000000000000000 + xl * cw)
            by (nonlinear_arith);
    }
    (hi, lo)
}

/// Decides `x * a <= y * b` exactly, although either product may exceed the
/// 128-bit range.
pub(crate) fn le_prod(x: u128, a: u64, y: u128, b: u64) -> (r: bool)
    ensures
        r == (x * a <= y * b),
{
    let (xh, xl) = mul_wide(x, a);
    let (yh, yl) = mul_wide(y, b);
    if xh < yh {
        true
    } else if xh == yh {
        xl <= yl
    } else {
        false
    }
}

} // verus!
