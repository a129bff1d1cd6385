//! How a liquidated position's collateral is split between the liquidator,
//! the protocol's treasury and the position's owner.

use vstd::prelude::*;
use crate::decimal::{div_attos, fits, mul_attos, scale, Decimal};

verus! {

/// Collateral value over debt value, in STAB-internal units:
/// `mcr * cr / lcr`.
pub open spec fn cr_percentage_of(mcr: int, cr: int, lcr: int) -> int {
    div_attos(mul_attos(mcr, cr), lcr)
}

/// Amounts handed out by a liquidation.
#[derive(Clone, Copy, Debug, PartialEq, Eq, Structural)]
pub struct LiquidationSplit {
    /// Collateral to the liquidator.
    pub to_liquidator: Decimal,
    /// Collateral to the protocol's treasury.
    pub to_treasury: Decimal,
    /// Collateral value received per unit of debt value repaid.
    pub percentage_received: Decimal,
}

/// The split of `amount` collateral at collateral percentage `crp`, with the
/// liquidator's fine `a` and the protocol's fine `b`, as
/// `(to_liquidator, to_treasury, percentage_received)`. Three regimes:
/// above `1 + a + b` both fines are paid in full and the rest stays with the
/// position; above `1 + a` the liquidator's fine is paid in full and the
/// treasury takes the rest; otherwise the liquidator takes everything.
pub open spec fn split_of(amount: int, crp: int, a: int, b: int) -> (int, int, int) {
    let owed = scale() + a;
    if crp > scale() + a + b {
        let base = div_attos(amount, crp);
        (mul_attos(owed, base), if b > 0 { mul_attos(b, base) } else { 0 }, owed)
    } else if crp > owed {
        let liq = mul_attos(owed, div_attos(amount, crp));
        (liq, amount - liq, owed)
    } else {
        (amount, 0, crp)
    }
}

/// Whether every intermediate of `split_of(amount, crp, a, b)` fits.
pub open spec fn split_fits(amount: int, crp: int, a: int, b: int) -> bool {
    let owed = scale() + a;
    &&& fits(owed)
    &&& fits(scale() + a + b)
    &&& if crp > scale() + a + b {
        let base = div_attos(amount, crp);
        &&& crp != 0
        &&& fits(base)
        &&& fits(mul_attos(owed, base))
        &&& (b > 0 ==> fits(mul_attos(b, base)))
    } else if crp > owed {
        let liq = mul_attos(owed, div_attos(amount, crp));
        &&& crp != 0
        &&& fits(div_attos(amount, crp))
        &&& fits(liq)
        &&& fits(amount - liq)
    } else {
        true
    }
}

/// Splits `amount` collateral of a position liquidated at collateral
/// percentage `crp` (see `split_of`); `None` when a quantity leaves the range
/// of `Decimal`.
pub fn liquidation_split(amount: Decimal, crp: Decimal, a: Decimal, b: Decimal) -> (r: Option<LiquidationSplit>)
    ensures
        match r {
            Some(s) => split_fits(amount@, crp@, a@, b@) && (s.to_liquidator@, s.to_treasury@, s.percentage_received@)
                == split_of(amount@, crp@, a@, b@),
            None => !split_fits(amount@, crp@, a@, b@),
        },
{
    let one = Decimal::one();
    let owed = match one.checked_add(&a) {
        Some(v) => v,
        None => return None,
    };
    let both = match owed.checked_add(&b) {
        Some(v) => v,
        None => return None,
    };
    if both.lt(&crp) {
        let base = match amount.checked_div(&crp) {
            Some(v) => v,
            None => return None,
        };
        let liq = match owed.checked_mul(&base) {
            Some(v) => v,
            None => return None,
        };
        let tre = if Decimal::zero().lt(&b) {
            match b.checked_mul(&base) {
                Some(v) => v,
                None => return None,
            }
        } else {
            Decimal::zero()
        };
        Some(LiquidationSplit { to_liquidator: liq, to_treasury: tre, percentage_received: owed })
    } else if owed.lt(&crp) {
        let base = match amount.checked_div(&crp) {
            Some(v) => v,
            None => return None,
        };
        let liq = match owed.checked_mul(&base) {
            Some(v) => v,
            None => return None,
        };
        let tre = match amount.checked_sub(&liq) {
            Some(v) => v,
            None => return None,
        };
        Some(LiquidationSplit { to_liquidator: liq, to_treasury: tre, percentage_received: owed })
    } else {
        Some(LiquidationSplit { to_liquidator: amount, to_treasury: Decimal::zero(), percentage_received: crp })
    }
}

} // verus!
