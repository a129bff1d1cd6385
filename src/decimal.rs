//! Fixed-point decimals with 18 fractional digits, held as a count of attos.

use vstd::prelude::*;

verus! {

/// The number of attos in one whole unit.
pub const ONE_ATTOS: i128 = 1_000_000_000_000_000_000;

/// The number of attos in one whole unit, as a mathematical integer.
pub open spec fn scale() -> int {
    1_000_000_000_000_000_000
}

/// Whether `x` fits in an `i128`.
pub open spec fn fits(x: int) -> bool {
    i128::MIN <= x <= i128::MAX
}

pub open spec fn abs(x: int) -> int {
    if x >= 0 { x } else { -x }
}

/// Integer division rounded toward zero (`d != 0`).
pub open spec fn div_trunc(x: int, d: int) -> int {
    if (x >= 0) == (d > 0) || x == 0 {
        abs(x) / abs(d)
    } else {
        -(abs(x) / abs(d))
    }
}

/// The product of two decimals given in attos, truncated to 18 places.
pub open spec fn mul_attos(a: int, b: int) -> int {
    div_trunc(a * b, scale())
}

/// The quotient of two decimals given in attos, truncated to 18 places.
pub open spec fn div_attos(a: int, b: int) -> int {
    div_trunc(a * scale(), b)
}

/// A signed fixed-point number: `attos / 10^18`.
#[derive(Clone, Copy, Debug, PartialEq, Eq, Structural)]
pub struct Decimal {
    pub attos: i128,
}

impl View for Decimal {
    type V = int;

    open spec fn view(&self) -> int {
        self.attos as int
    }
}

/// Relies on radix_common's `Decimal::checked_mul`: the product truncated toward
/// zero to 18 places, `None` when it leaves the 192-bit range; the result is then
/// narrowed to `i128`.
#[verifier::external_body]
fn outside_mul(a: i128, b: i128) -> (r: Option<i128>)
    ensures
        r == (if fits(mul_attos(a as int, b as int)) {
            Some(mul_attos(a as int, b as int) as i128)
        } else {
            None
        }),
{
    let x = scrypto::math::Decimal::from_attos(scrypto::math::I192::from(a));
    let y = scrypto::math::Decimal::from_attos(scrypto::math::I192::from(b));
    match scrypto::math::CheckedMul::checked_mul(x, y) {
        Some(p) => i128::try_from(p.attos()).ok(),
        None => None,
    }
}

/// Relies on radix_common's `Decimal::checked_div`: the quotient truncated toward
/// zero to 18 places, `None` for a zero divisor or when it leaves the 192-bit
/// range; the result is then narrowed to `i128`.
#[verifier::external_body]
fn outside_div(a: i128, b: i128) -> (r: Option<i128>)
    ensures
        r == (if b != 0 && fits(div_attos(a as int, b as int)) {
            Some(div_attos(a as int, b as int) as i128)
        } else {
            None
        }),
{
    let x = scrypto::math::Decimal::from_attos(scrypto::math::I192::from(a));
    let y = scrypto::math::Decimal::from_attos(scrypto::math::I192::from(b));
    match scrypto::math::CheckedDiv::checked_div(x, y) {
        Some(q) => i128::try_from(q.attos()).ok(),
        None => None,
    }
}

impl Decimal {
    pub fn zero() -> (r: Decimal)
        ensures
            r@ == 0,
    {
        Decimal { attos: 0 }
    }

    pub fn one() -> (r: Decimal)
        ensures
            r@ == scale(),
    {
        Decimal { attos: ONE_ATTOS }
    }

    pub fn from_attos(attos: i128) -> (r: Decimal)
        ensures
            r@ == attos,
    {
        Decimal { attos }
    }

    /// The whole number `n`.
    pub fn from_int(n: i64) -> (r: Decimal)
        ensures
            r@ == n * scale(),
    {
        assert(i64::MIN * scale() <= n * scale() <= i64::MAX * scale()) by (nonlinear_arith)
            requires i64::MIN <= n <= i64::MAX;
        Decimal { attos: (n as i128) * ONE_ATTOS }
    }

    pub fn is_negative(&self) -> (r: bool)
        ensures
            r == (self@ < 0),
    {
        self.attos < 0
    }

    pub fn lt(&self, o: &Decimal) -> (r: bool)
        ensures
            r == (self@ < o@),
    {
        self.attos < o.attos
    }

    pub fn le(&self, o: &Decimal) -> (r: bool)
        ensures
            r == (self@ <= o@),
    {
        self.attos <= o.attos
    }

    pub fn checked_add(&self, o: &Decimal) -> (r: Option<Decimal>)
        ensures
            r == (if fits(self@ + o@) { Some(Decimal { attos: (self@ + o@) as i128 }) } else { None }),
    {
        match self.attos.checked_add(o.attos) {
            Some(a) => Some(Decimal { attos: a }),
            None => None,
        }
    }

    pub fn checked_sub(&self, o: &Decimal) -> (r: Option<Decimal>)
        ensures
            r == (if fits(self@ - o@) { Some(Decimal { attos: (self@ - o@) as i128 }) } else { None }),
    {
        match self.attos.checked_sub(o.attos) {
            Some(a) => Some(Decimal { attos: a }),
            None => None,
        }
    }

    pub fn checked_mul(&self, o: &Decimal) -> (r: Option<Decimal>)
        ensures
            r == (if fits(mul_attos(self@, o@)) {
                Some(Decimal { attos: mul_attos(self@, o@) as i128 })
            } else {
                None
            }),
    {
        match outside_mul(self.attos, o.attos) {
            Some(a) => Some(Decimal { attos: a }),
            None => None,
        }
    }

    pub fn checked_div(&self, o: &Decimal) -> (r: Option<Decimal>)
        ensures
            r == (if o@ != 0 && fits(div_attos(self@, o@)) {
                Some(Decimal { attos: div_attos(self@, o@) as i128 })
            } else {
                None
            }),
    {
        match outside_div(self.attos, o.attos) {
            Some(a) => Some(Decimal { attos: a }),
            None => None,
        }
    }
}

} // verus!
