use rust_decimal::prelude::ToPrimitive;
use rust_decimal::Decimal;
use vstd::prelude::*;

verus! {

/// A non-negative decimal number `mantissa / 10^scale`, the form in which
/// `rust_decimal` stores its values.
#[derive(Debug, Clone, Copy, PartialEq, Eq, Structural)]
pub struct DecimalParts {
    pub mantissa: u128,
    pub scale: u32,
}

/// One more than the largest mantissa a decimal holds (96 bits).
pub const MANTISSA_LIMIT: u128 = 0x1_0000_0000_0000_0000_0000_0000;

/// The largest scale a decimal holds.
pub const MAX_SCALE: u32 = 28;

pub open spec fn pow10(n: nat) -> nat
    decreases n,
{
    if n == 0 {
        1
    } else {
        10 * pow10((n - 1) as nat)
    }
}

impl DecimalParts {
    /// Both parts are in the range that a decimal can represent.
    pub open spec fn wf(self) -> bool {
        self.mantissa < MANTISSA_LIMIT && self.scale <= MAX_SCALE
    }
}

/// Relies on `Decimal::from_i128_with_scale` (which panics outside the ranges that
/// `requires` states) and `Decimal::checked_mul`: a product whose mantissa fits in 96 bits
/// at a scale of at most 28 is exact (zero comes back as a zero mantissa), and what comes
/// back is always a representable decimal.
#[verifier::external_body]
fn decimal_checked_mul(a: DecimalParts, b: DecimalParts) -> (r: Option<DecimalParts>)
    requires
        a.wf(),
        b.wf(),
    ensures
        a.mantissa * b.mantissa < MANTISSA_LIMIT && a.scale + b.scale <= MAX_SCALE ==> {
            &&& r is Some
            &&& a.mantissa * b.mantissa != 0 ==> r->Some_0 == (DecimalParts {
                mantissa: (a.mantissa * b.mantissa) as u128,
                scale: (a.scale + b.scale) as u32,
            })
            &&& a.mantissa * b.mantissa == 0 ==> r->Some_0.mantissa == 0
        },
        r matches Some(c) ==> c.wf(),
{
    let x = Decimal::from_i128_with_scale(a.mantissa as i128, a.scale);
    let y = Decimal::from_i128_with_scale(b.mantissa as i128, b.scale);
    match x.checked_mul(y) {
        Some(p) => Some(DecimalParts { mantissa: p.mantissa() as u128, scale: p.scale() }),
        None => None,
    }
}

/// Relies on `Decimal::from_i128_with_scale` and `ToPrimitive::to_u64` for `Decimal`:
/// the integer part of a non-negative decimal (truncated), when it fits in `u64`.
#[verifier::external_body]
fn decimal_to_u64(d: DecimalParts) -> (r: Option<u64>)
    requires
        d.wf(),
    ensures
        r == (if d.mantissa as nat / pow10(d.scale as nat) <= u64::MAX {
            Some((d.mantissa as nat / pow10(d.scale as nat)) as u64)
        } else {
            None
        }),
{
    Decimal::from_i128_with_scale(d.mantissa as i128, d.scale).to_u64()
}

/// The fixed-point product of two nanosecond counts: both are read as seconds and
/// multiplied, and the product is read back as whole nanoseconds (rounded down), when it
/// fits in `u64`.
pub open spec fn fixed_product(x: nat, y: nat) -> Option<u64> {
    let p = x * y / 1_000_000_000;
    if p <= u64::MAX {
        Some(p as u64)
    } else {
        None
    }
}

/// Multiplies `x` nanoseconds by `y` nanoseconds read as a number of seconds, in decimal
/// fixed point, so that fractions of a second are kept to the nanosecond.
pub fn mul_as_seconds(x: u64, y: u64) -> (r: Option<u64>)
    ensures
        r == fixed_product(x as nat, y as nat),
{
    assert((x as nat) * (y as nat) <= u64::MAX as nat * u64::MAX as nat) by (nonlinear_arith);
    assert(u64::MAX as nat * u64::MAX as nat <= u128::MAX) by (nonlinear_arith);
    let wide: u128 = (x as u128) * (y as u128);
    if wide >= MANTISSA_LIMIT {
        // at least 2^96 / 10^9 nanoseconds, beyond what u64 holds
        assert(wide as nat / 1_000_000_000 > u64::MAX) by (nonlinear_arith)
            requires
                wide >= 0x1_0000_0000_0000_0000_0000_0000,
        ;
        return None;
    }
    let a = DecimalParts { mantissa: x as u128, scale: 0 };
    // y nanoseconds are y / 10^9 seconds
    let b = DecimalParts { mantissa: y as u128, scale: 9 };
    proof {
        reveal_with_fuel(pow10, 10);
    }
    assert(pow10(9) == 1_000_000_000);
    assert(pow10(0) == 1);
    match decimal_checked_mul(a, b) {
        Some(p) => {
            assert(p.mantissa as nat / pow10(p.scale as nat) == wide as nat / 1_000_000_000) by {
                if wide == 0 {
                    assert(p.mantissa == 0);
                    assert(pow10(p.scale as nat) > 0) by {
                        lemma_pow10_positive(p.scale as nat);
                    }
                }
            }
            decimal_to_u64(p)
        },
        None => None,
    }
}

pub proof fn lemma_pow10_positive(n: nat)
    ensures
        pow10(n) > 0,
    decreases n,
{
    if n > 0 {
        lemma_pow10_positive((n - 1) as nat);
    }
}

} // verus!
