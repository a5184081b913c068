//! Fixed-point decimal quantities.
//!
//! A [`Quantity<D>`] is a non-negative decimal number with exactly `D`
//! fractional digits, held as raw units of `10^-D`. Two quantities are only
//! directly combinable (added, subtracted, compared) when they share `D`;
//! cross-scale values must go through [`Quantity::rescale`] first. Raising the
//! scale never loses precision; lowering it truncates, as does every division
//! here. Every monetary value in this crate is a `Quantity`; token ledger
//! amounts use 8 fractional digits, internal cycle accounting uses 12.

use vstd::prelude::*;

verus! {

/// 10 to the power `d`.
pub open spec fn pow10(d: nat) -> nat
    decreases d,
{
    if d == 0 {
        1
    } else {
        10 * pow10((d - 1) as nat)
    }
}

pub proof fn lemma_pow10_positive(d: nat)
    ensures
        pow10(d) >= 1,
    decreases d,
{
    if d > 0 {
        lemma_pow10_positive((d - 1) as nat);
    }
}

pub proof fn lemma_pow10_increases(a: nat, b: nat)
    requires
        a <= b,
    ensures
        pow10(a) <= pow10(b),
    decreases b,
{
    if a < b {
        lemma_pow10_increases(a, (b - 1) as nat);
        lemma_pow10_positive((b - 1) as nat);
    }
}

/// Computes `10^d` in machine arithmetic.
pub fn pow10_u128(d: u32) -> (r: u128)
    requires
        pow10(d as nat) <= u128::MAX,
    ensures
        r == pow10(d as nat),
{
    let mut i: u32 = 0;
    let mut r: u128 = 1;
    while i < d
        invariant
            i <= d,
            r == pow10(i as nat),
            pow10(d as nat) <= u128::MAX,
        decreases d - i,
    {
        proof {
            lemma_pow10_increases((i + 1) as nat, d as nat);
            assert(pow10((i + 1) as nat) == 10 * pow10(i as nat));
        }
        r = r * 10;
        i = i + 1;
    }
    r
}

/// A non-negative fixed-point decimal quantity with `D` fractional digits.
///
/// `units` is the raw integer count of `10^-D` units; the represented number
/// is `units / 10^D`. Negative amounts are not representable: a balance can
/// never go below zero.
#[derive(Clone, Copy, Debug)]
pub struct Quantity<const D: u32> {
    pub units: u128,
}

/// Token-ledger scale: 8 fractional digits.
pub type E8s = Quantity<8>;

/// Cycle-accounting scale: 12 fractional digits.
pub type TCycles = Quantity<12>;

impl<const D: u32> Quantity<D> {
    /// The quantity of `units` raw `10^-D` units.
    pub fn new(units: u128) -> (r: Self)
        ensures
            r.units == units,
    {
        Quantity { units }
    }

    pub fn zero() -> (r: Self)
        ensures
            r.units == 0,
    {
        Quantity { units: 0 }
    }

    pub fn from_u64(v: u64) -> (r: Self)
        ensures
            r.units == v,
    {
        Quantity { units: v as u128 }
    }

    pub fn is_zero(&self) -> (r: bool)
        ensures
            r <==> self.units == 0,
    {
        self.units == 0
    }

    /// Exact addition; the caller must show the sum fits in the raw units.
    pub fn plus(self, other: Self) -> (r: Self)
        requires
            self.units + other.units <= u128::MAX,
        ensures
            r.units == self.units + other.units,
    {
        Quantity { units: self.units + other.units }
    }

    /// Subtraction saturating at zero: a balance never goes negative.
    pub fn saturating_minus(self, other: Self) -> (r: Self)
        ensures
            r.units == if self.units >= other.units {
                self.units - other.units
            } else {
                0
            },
    {
        if self.units >= other.units {
            Quantity { units: self.units - other.units }
        } else {
            Quantity { units: 0 }
        }
    }

    /// Multiplication by a plain (non-scaled) factor.
    pub fn times(self, k: u64) -> (r: Self)
        requires
            self.units * k <= u128::MAX,
        ensures
            r.units == self.units * k,
    {
        Quantity { units: self.units * (k as u128) }
    }

    /// Division by a plain (non-scaled) divisor; truncates.
    pub fn divided_by(self, k: u64) -> (r: Self)
        requires
            k > 0,
        ensures
            r.units == (self.units as int) / (k as int),
    {
        Quantity { units: self.units / (k as u128) }
    }

    /// Fixed-point multiplication: `(self * other) / 10^D`; truncates.
    pub fn fixed_mul(self, other: Self) -> (r: Self)
        requires
            self.units * other.units <= u128::MAX,
            pow10(D as nat) <= u128::MAX,
        ensures
            r.units == (self.units * other.units) as int / (pow10(D as nat) as int),
    {
        let base = pow10_u128(D);
        proof {
            lemma_pow10_positive(D as nat);
        }
        Quantity { units: (self.units * other.units) / base }
    }

    /// Fixed-point division: `(self * 10^D) / other`; truncates.
    pub fn fixed_div(self, other: Self) -> (r: Self)
        requires
            other.units > 0,
            self.units * pow10(D as nat) <= u128::MAX,
            pow10(D as nat) <= u128::MAX,
        ensures
            r.units == (self.units * pow10(D as nat)) as int / (other.units as int),
    {
        let base = pow10_u128(D);
        Quantity { units: (self.units * base) / other.units }
    }

    /// Pro-rata share: `(self * num) / den`, exact product then truncated
    /// division, so no precision is lost before the final division.
    pub fn prorate(self, num: Self, den: Self) -> (r: Self)
        requires
            den.units > 0,
            self.units * num.units <= u128::MAX,
        ensures
            r.units == (self.units * num.units) as int / (den.units as int),
    {
        Quantity { units: (self.units * num.units) / den.units }
    }

    /// Changes the number of fractional digits. Raising the scale multiplies
    /// the raw units by a power of ten and is exact; lowering it divides,
    /// truncating the digits that no longer fit.
    pub fn rescale<const D2: u32>(self) -> (r: Quantity<D2>)
        requires
            D2 >= D ==> self.units * pow10((D2 - D) as nat) <= u128::MAX && pow10((D2 - D) as nat)
                <= u128::MAX,
            D2 < D ==> pow10((D - D2) as nat) <= u128::MAX,
        ensures
            D2 >= D ==> r.units == self.units * pow10((D2 - D) as nat),
            D2 < D ==> r.units == (self.units as int) / (pow10((D - D2) as nat) as int),
    {
        if D2 >= D {
            let base = pow10_u128(D2 - D);
            proof {
                lemma_pow10_positive((D2 - D) as nat);
            }
            Quantity { units: self.units * base }
        } else {
            let base = pow10_u128(D - D2);
            proof {
                lemma_pow10_positive((D - D2) as nat);
            }
            Quantity { units: self.units / base }
        }
    }
}

} // verus!
