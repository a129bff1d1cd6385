//! Off-equilibrium operations on a single position: force-liquidation of the
//! lowest-ratio position and force-minting against the highest.

use vstd::prelude::*;
use crate::decimal::{div_attos, fits, mul_attos, scale, Decimal};
use crate::types::{Bucket, Cdp, CdpStatus, EngineError, Resource};
use crate::cr_index::{is_highest_of, is_lowest};
use crate::state::{lemma_debt_update, lemma_index_remove, lemma_marked_set, lemma_minted_update, Stabilis};

verus! {

/// Collateral taken from a position force-liquidated with `payment` against
/// debt `minted`: `amount * p * take / crp`, where `p` is the repaid share of
/// the debt (1 when `payment >= minted`), without going below zero left.
pub open spec fn force_taken(amount: int, payment: int, minted: int, take: int, crp: int) -> int {
    let p = if payment > minted { scale() } else { div_attos(payment, minted) };
    let raw = div_attos(mul_attos(mul_attos(amount, p), take), crp);
    if amount - raw < 0 { amount } else { raw }
}

impl Stabilis {
    /// The position force-operations on `parent` start from: the lowest entry.
    pub open spec fn force_target(&self, parent: usize) -> usize {
        self.cr_index.entries@[self.lowest_pos(parent)].id
    }

    /// Collateral percentage of position `c`: `mcr * cr / lcr` with its ratio
    /// under the current redemption rate.
    pub open spec fn cr_percentage(&self, c: Cdp) -> int {
        let info = self.collaterals@[c.parent as int];
        div_attos(mul_attos(info.mcr@, self.fresh_cr(c)), info.liquidation_collateral_ratio@)
    }

    /// Whether the quantities a force-liquidation of `c` with `payment` and
    /// `take` computes before settling stay in range.
    pub open spec fn force_terms_fit(&self, c: Cdp, payment: int, take: int) -> bool {
        let info = self.collaterals@[c.parent as int];
        let num = mul_attos(info.mcr@, self.fresh_cr(c));
        let crp = div_attos(num, info.liquidation_collateral_ratio@);
        let p = if payment > c.minted_stab@ { scale() } else { div_attos(payment, c.minted_stab@) };
        let part = mul_attos(c.collateral_amount@, p);
        let raw = div_attos(mul_attos(part, take), crp);
        &&& fits(num)
        &&& info.liquidation_collateral_ratio@ != 0
        &&& fits(crp)
        &&& fits(p)
        &&& fits(part)
        &&& fits(mul_attos(part, take))
        &&& crp != 0
        &&& fits(raw)
        &&& fits(c.collateral_amount@ - raw)
    }

    /// The first check that `force_liquidate(parent, payment, take, non_markable)`
    /// fails, if any; `Overflow` when a quantity it computes leaves the range.
    pub open spec fn force_liquidate_refusal(&self, parent: usize, payment: Bucket, take: Decimal, non_markable: bool) -> Option<EngineError> {
        let id = self.force_target(parent);
        let c = self.cdp(id);
        let crp = self.cr_percentage(c);
        let partial = payment.amount@ < c.minted_stab@;
        let left = c.collateral_amount@ - force_taken(c.collateral_amount@, payment.amount@, c.minted_stab@, take@, crp);
        let minted = c.minted_stab@ - payment.amount@;
        if self.parameters.stop_force_liquidate {
            Some(EngineError::OperationDisabled)
        } else if payment.resource != Resource::Stab {
            Some(EngineError::WrongResource)
        } else if parent >= self.collaterals@.len() {
            Some(EngineError::NotAccepted)
        } else if !(exists|p: int| is_lowest(self.cr_index.entries@, parent, p)) {
            Some(EngineError::NoLoans)
        } else if !self.fresh_cr_fits(c) {
            Some(EngineError::Overflow)
        } else if non_markable && self.fresh_cr(c) <= self.lcr(parent) {
            Some(EngineError::ForceLiquidateMarkable)
        } else if !self.force_terms_fit(c, payment.amount@, take@) {
            Some(EngineError::Overflow)
        } else if partial && crp <= scale() {
            Some(EngineError::InsufficientPayment)
        } else if !partial {
            if self.debts_fit(parent, c.collateral, -c.minted_stab@) && fits(payment.amount@ - c.minted_stab@) {
                None
            } else {
                Some(EngineError::Overflow)
            }
        } else if !self.ratio_fits(c, left, minted) {
            Some(EngineError::Overflow)
        } else if self.window_full_for(parent, self.ratio_with(c, left, minted), id) {
            Some(EngineError::CrWindowFull)
        } else if self.cr_index.entries@.len() >= usize::MAX - 1 || !self.debts_fit(parent, c.collateral, -payment.amount@) {
            Some(EngineError::Overflow)
        } else {
            None
        }
    }

    /// What a successful `force_liquidate(parent, payment, take, non_markable)` does,
    /// handing out `col` and `change`.
    pub open spec fn force_liquidate_effect(s0: Stabilis, s1: Stabilis, parent: usize, payment: Bucket, take: Decimal, non_markable: bool, col: Bucket, change: Bucket) -> bool {
        let id = s0.force_target(parent);
        let c = s0.cdp(id);
        let taken = force_taken(c.collateral_amount@, payment.amount@, c.minted_stab@, take@, s0.cr_percentage(c));
        let left = c.collateral_amount@ - taken;
        &&& s0.force_liquidate_refusal(parent, payment, take, non_markable).is_none()
        &&& col == (Bucket { resource: c.collateral, amount: Decimal { attos: taken as i128 } })
        &&& if payment.amount@ >= c.minted_stab@ {
            &&& change == (Bucket { resource: Resource::Stab, amount: Decimal { attos: (payment.amount@ - c.minted_stab@) as i128 } })
            &&& s1.cdps@ == s0.cdps@.update(id - 1, Cdp {
                status: CdpStatus::ForceLiquidated,
                minted_stab: Decimal { attos: 0 },
                collateral_amount: Decimal { attos: left as i128 },
                ..c
            })
            &&& Stabilis::debts_moved(s0, s1, c, -c.minted_stab@, None)
            &&& s1.cr_index.entries@ == s0.cr_index.entries@.remove(s0.lowest_pos(parent))
            &&& s1.markers == s0.markers
            &&& s1.marked == s0.marked
            &&& s1.receipts == s0.receipts
            &&& s1.marker_placing_counter == s0.marker_placing_counter
            &&& s1.parameters == s0.parameters
        } else {
            let minted = c.minted_stab@ - payment.amount@;
            &&& change == (Bucket { resource: Resource::Stab, amount: Decimal { attos: 0 } })
            &&& Stabilis::restate_effect(s0, s1, id, Cdp {
                minted_stab: Decimal { attos: minted as i128 },
                collateral_amount: Decimal { attos: left as i128 },
                collateral_stab_ratio: Decimal { attos: s0.ratio_with(c, left, minted) as i128 },
                ..c
            })
        }
    }

    /// Takes part of the collateral of the lowest-ratio position of `parent`
    /// for `payment` STAB: the repaid share of the debt, times `take`, over
    /// the position's collateral percentage. A payment of the whole debt or
    /// more liquidates the position in full; below a collateral percentage
    /// of 1 only that is allowed. With `non_markable`, only a position above
    /// the liquidation ratio may be taken. Returns the collateral taken and
    /// the change.
    #[verifier::rlimit(40)]
    pub fn force_liquidate(&mut self, parent: usize, payment: Bucket, take: Decimal, non_markable: bool) -> (r: Result<(Bucket, Bucket), EngineError>)
        requires
            old(self).wf(),
            payment.amount@ >= 0,
        ensures
            final(self).wf(),
            r.is_err() ==> *final(self) == *old(self),
            final(self).internal_stab_price == old(self).internal_stab_price,
            final(self).collaterals@.len() == old(self).collaterals@.len(),
            match old(self).force_liquidate_refusal(parent, payment, take, non_markable) {
                Some(e) => r == Err::<(Bucket, Bucket), EngineError>(e),
                None => r.is_ok(),
            },
            match r {
                Ok((col, change)) => Stabilis::force_liquidate_effect(*old(self), *final(self), parent, payment, take, non_markable, col, change),
                Err(_) => true,
            },
    {
        if self.parameters.stop_force_liquidate {
            return Err(EngineError::OperationDisabled);
        }
        if payment.resource != Resource::Stab {
            return Err(EngineError::WrongResource);
        }
        if parent >= self.collaterals.len() {
            return Err(EngineError::NotAccepted);
        }
        let p = match self.cr_index.lowest(parent) {
            Some(p) => p,
            None => return Err(EngineError::NoLoans),
        };
        proof {
            self.lemma_lowest_unique(parent, p as int);
        }
        let id = self.cr_index.entries[p].id;
        let c = self.cdps[id - 1];
        proof {
            assert(self.cdp_ok(self.cdps@[id - 1]));
        }
        let info = self.collaterals[parent];
        let backing = match self.pool_to_real(c.collateral_amount, c.collateral) {
            Some(v) => v,
            None => return Err(EngineError::Overflow),
        };
        let cr = match backing.checked_div(&c.minted_stab) {
            Some(v) => v,
            None => return Err(EngineError::Overflow),
        };
        if non_markable && cr.le(&info.liquidation_collateral_ratio) {
            return Err(EngineError::ForceLiquidateMarkable);
        }
        let crp = match info.mcr.checked_mul(&cr) {
            Some(v) => match v.checked_div(&info.liquidation_collateral_ratio) {
                Some(w) => w,
                None => return Err(EngineError::Overflow),
            },
            None => return Err(EngineError::Overflow),
        };
        let full = !payment.amount.lt(&c.minted_stab);
        let share = if c.minted_stab.lt(&payment.amount) {
            Decimal::one()
        } else {
            match payment.amount.checked_div(&c.minted_stab) {
                Some(v) => v,
                None => return Err(EngineError::Overflow),
            }
        };
        let raw = match c.collateral_amount.checked_mul(&share) {
            Some(v) => match v.checked_mul(&take) {
                Some(w) => match w.checked_div(&crp) {
                    Some(x) => x,
                    None => return Err(EngineError::Overflow),
                },
                None => return Err(EngineError::Overflow),
            },
            None => return Err(EngineError::Overflow),
        };
        let left = match c.collateral_amount.checked_sub(&raw) {
            Some(v) => v,
            None => return Err(EngineError::Overflow),
        };
        let (left, taken) = if left.is_negative() { (Decimal::zero(), c.collateral_amount) } else { (left, raw) };
        if !full && !Decimal::one().lt(&crp) {
            return Err(EngineError::InsufficientPayment);
        }
        if full {
            let minus = Decimal::from_attos(0 - c.minted_stab.attos);
            let totals = match self.shifted_debts(parent, c.collateral, minus) {
                Some(t) => t,
                None => return Err(EngineError::Overflow),
            };
            let change = match payment.amount.checked_sub(&c.minted_stab) {
                Some(v) => v,
                None => return Err(EngineError::Overflow),
            };
            let c1 = Cdp { status: CdpStatus::ForceLiquidated, minted_stab: Decimal::zero(), collateral_amount: left, ..c };
            let ghost s0 = *self;
            self.set_debts(parent, c.collateral, totals);
            self.cr_index.remove_at(p);
            self.cdps.set(id - 1, c1);
            proof {
                lemma_debt_update(s0.cdps@, id - 1, c1);
                lemma_minted_update(s0.collaterals@, parent as int, self.collaterals@[parent as int]);
                lemma_index_remove(s0.cr_index.entries@, s0.cdps@, p as int, c1);
                lemma_marked_set(s0.marked@, s0.cdps@, s0.markers@, id - 1, c1);
                self.lemma_cdps_frame(s0);
            }
            Ok((Bucket { resource: c.collateral, amount: taken }, Bucket { resource: Resource::Stab, amount: change }))
        } else {
            let minted = match c.minted_stab.checked_sub(&payment.amount) {
                Some(v) => v,
                None => return Err(EngineError::Overflow),
            };
            let (new_cr, window) = match self.evaluate(id, c, left, minted) {
                Ok(x) => x,
                Err(e) => return Err(e),
            };
            if window {
                return Err(EngineError::CrWindowFull);
            }
            if self.cr_index.entries.len() >= usize::MAX - 1 {
                return Err(EngineError::Overflow);
            }
            let minus = Decimal::from_attos(0 - payment.amount.attos);
            let totals = match self.shifted_debts(parent, c.collateral, minus) {
                Some(t) => t,
                None => return Err(EngineError::Overflow),
            };
            self.restate(id, Cdp { minted_stab: minted, collateral_amount: left, collateral_stab_ratio: new_cr, ..c }, totals);
            Ok((Bucket { resource: c.collateral, amount: taken }, Bucket { resource: Resource::Stab, amount: Decimal::zero() }))
        }
    }

    /// Position of the highest-ratio entry of `parent` holding `r`.
    pub open spec fn highest_pos(&self, parent: usize, r: Resource) -> int {
        choose|p: int| is_highest_of(self.cr_index.entries@, parent, r, p)
    }

    proof fn lemma_highest_unique(&self, parent: usize, r: Resource, p: int)
        requires
            is_highest_of(self.cr_index.entries@, parent, r, p),
        ensures
            self.highest_pos(parent, r) == p,
    {
        let q = self.highest_pos(parent, r);
        assert(is_highest_of(self.cr_index.entries@, parent, r, q));
        if q < p {
            assert(self.cr_index.entries@[q].cr@ < self.cr_index.entries@[p].cr@);
        } else if p < q {
            assert(self.cr_index.entries@[p].cr@ < self.cr_index.entries@[q].cr@);
        }
    }

    /// The terms of a force-mint on position `c` with `pct`:
    /// `(pr, k, a)` where `pr` is the parent collateral one unit of `c`'s
    /// collateral redeems for, `k = internal / (pr * price) * pct` is the
    /// collateral supplied per STAB minted, and `a` is the largest addition of
    /// collateral that keeps the ratio at `multiplier * lcr` or above:
    /// `a = k * (c * pr - minCr * s) / (minCr - k * pr)`.
    pub open spec fn force_mint_terms(&self, c: Cdp, pct: int) -> (int, int, int) {
        let info = self.collaterals@[c.parent as int];
        let pr = self.real_amount(c.collateral, scale());
        let min_cr = mul_attos(self.parameters.force_mint_cr_multiplier@, info.liquidation_collateral_ratio@);
        let k = mul_attos(div_attos(self.internal_stab_price@, mul_attos(pr, info.usd_price@)), pct);
        let a = div_attos(
            mul_attos(k, mul_attos(c.collateral_amount@, pr) - mul_attos(min_cr, c.minted_stab@)),
            min_cr - mul_attos(k, pr),
        );
        (pr, k, a)
    }

    /// Whether the quantities a force-mint on `c` with `payment` and `pct`
    /// computes up to the STAB it mints stay in range.
    pub open spec fn force_mint_terms_fit(&self, c: Cdp, payment: int, pct: int) -> bool {
        let info = self.collaterals@[c.parent as int];
        let pr = self.real_amount(c.collateral, scale());
        let min_cr = mul_attos(self.parameters.force_mint_cr_multiplier@, info.liquidation_collateral_ratio@);
        let value = mul_attos(pr, info.usd_price@);
        let per = div_attos(self.internal_stab_price@, value);
        let k = mul_attos(per, pct);
        let held = mul_attos(c.collateral_amount@, pr);
        let floor = mul_attos(min_cr, c.minted_stab@);
        let room = mul_attos(k, held - floor);
        let denom = min_cr - mul_attos(k, pr);
        let a = div_attos(room, denom);
        let kept = if payment > a { a } else { payment };
        &&& fits(pr)
        &&& fits(min_cr)
        &&& fits(value)
        &&& value != 0
        &&& fits(per)
        &&& fits(k)
        &&& fits(held)
        &&& fits(floor)
        &&& fits(held - floor)
        &&& fits(room)
        &&& fits(mul_attos(k, pr))
        &&& fits(denom)
        &&& denom != 0
        &&& fits(a)
        &&& k != 0
        &&& fits(div_attos(kept, k))
    }

    /// The first check that `force_mint(parent, payment, pct)` fails, if any;
    /// `Overflow` when a quantity it computes leaves the range.
    pub open spec fn force_mint_refusal(&self, parent: usize, payment: Bucket, pct: Decimal) -> Option<EngineError> {
        let id = self.cr_index.entries@[self.highest_pos(parent, payment.resource)].id;
        let c = self.cdp(id);
        let (pr, k, a) = self.force_mint_terms(c, pct@);
        let kept = if payment.amount@ > a { a } else { payment.amount@ };
        let stab = div_attos(kept, k);
        let amount = c.collateral_amount@ + kept;
        let minted = c.minted_stab@ + stab;
        if self.parameters.stop_force_mint {
            Some(EngineError::OperationDisabled)
        } else if parent >= self.collaterals@.len() {
            Some(EngineError::NotAccepted)
        } else if !(exists|p: int| is_highest_of(self.cr_index.entries@, parent, payment.resource, p)) {
            Some(EngineError::NoSuitableCdp)
        } else if !self.force_mint_terms_fit(c, payment.amount@, pct@) {
            Some(EngineError::Overflow)
        } else if a < 0 || stab < 0 {
            Some(EngineError::InsufficientCollateral)
        } else if !fits(amount) || !fits(minted) || !self.ratio_fits(c, amount, minted) {
            Some(EngineError::Overflow)
        } else if self.window_full_for(parent, self.ratio_with(c, amount, minted), id) {
            Some(EngineError::CrWindowFull)
        } else if self.cr_index.entries@.len() >= usize::MAX - 1 || (payment.amount@ > a && !fits(payment.amount@ - a))
            || !self.debts_fit(parent, c.collateral, stab) {
            Some(EngineError::Overflow)
        } else {
            None
        }
    }

    /// What a successful `force_mint(parent, payment, pct)` does, handing
    /// out `stab_out` and `excess`.
    pub open spec fn force_mint_effect(s0: Stabilis, s1: Stabilis, parent: usize, payment: Bucket, pct: Decimal, stab_out: Bucket, excess: Option<Bucket>) -> bool {
        let id = s0.cr_index.entries@[s0.highest_pos(parent, payment.resource)].id;
        let c = s0.cdp(id);
        let (pr, k, a) = s0.force_mint_terms(c, pct@);
        let kept = if payment.amount@ > a { a } else { payment.amount@ };
        let stab = div_attos(kept, k);
        let amount = c.collateral_amount@ + kept;
        let minted = c.minted_stab@ + stab;
        &&& s0.force_mint_refusal(parent, payment, pct).is_none()
        &&& stab_out == (Bucket { resource: Resource::Stab, amount: Decimal { attos: stab as i128 } })
        &&& excess == if payment.amount@ > a {
            Some(Bucket { resource: payment.resource, amount: Decimal { attos: (payment.amount@ - a) as i128 } })
        } else {
            None
        }
        &&& Stabilis::restate_effect(s0, s1, id, Cdp {
            minted_stab: Decimal { attos: minted as i128 },
            collateral_amount: Decimal { attos: amount as i128 },
            collateral_stab_ratio: Decimal { attos: s0.ratio_with(c, amount, minted) as i128 },
            ..c
        })
    }

    /// Adds collateral `payment` to the highest-ratio position of `parent`
    /// holding that resource, minting STAB for it at `k` collateral per STAB,
    /// as far as the position's ratio stays at the force-mint minimum; the
    /// excess is returned. Returns the STAB minted and the excess, if any.
    pub fn force_mint(&mut self, parent: usize, payment: Bucket, pct: Decimal) -> (r: Result<(Bucket, Option<Bucket>), EngineError>)
        requires
            old(self).wf(),
            payment.amount@ >= 0,
        ensures
            final(self).wf(),
            r.is_err() ==> *final(self) == *old(self),
            final(self).internal_stab_price == old(self).internal_stab_price,
            final(self).collaterals@.len() == old(self).collaterals@.len(),
            match old(self).force_mint_refusal(parent, payment, pct) {
                Some(e) => r == Err::<(Bucket, Option<Bucket>), EngineError>(e),
                None => r.is_ok(),
            },
            match r {
                Ok((stab_out, excess)) => Stabilis::force_mint_effect(*old(self), *final(self), parent, payment, pct, stab_out, excess),
                Err(_) => true,
            },
    {
        if self.parameters.stop_force_mint {
            return Err(EngineError::OperationDisabled);
        }
        if parent >= self.collaterals.len() {
            return Err(EngineError::NotAccepted);
        }
        let p = match self.cr_index.highest_of(parent, payment.resource) {
            Some(p) => p,
            None => return Err(EngineError::NoSuitableCdp),
        };
        proof {
            self.lemma_highest_unique(parent, payment.resource, p as int);
        }
        let id = self.cr_index.entries[p].id;
        let c = self.cdps[id - 1];
        proof {
            assert(self.cdp_ok(self.cdps@[id - 1]));
        }
        let info = self.collaterals[parent];
        let pr = match self.pool_to_real(Decimal::one(), c.collateral) {
            Some(v) => v,
            None => return Err(EngineError::Overflow),
        };
        let min_cr = match self.parameters.force_mint_cr_multiplier.checked_mul(&info.liquidation_collateral_ratio) {
            Some(v) => v,
            None => return Err(EngineError::Overflow),
        };
        let value = match pr.checked_mul(&info.usd_price) {
            Some(v) => v,
            None => return Err(EngineError::Overflow),
        };
        let k = match self.internal_stab_price.checked_div(&value) {
            Some(v) => match v.checked_mul(&pct) {
                Some(w) => w,
                None => return Err(EngineError::Overflow),
            },
            None => return Err(EngineError::Overflow),
        };
        let held = match c.collateral_amount.checked_mul(&pr) {
            Some(v) => v,
            None => return Err(EngineError::Overflow),
        };
        let floor = match min_cr.checked_mul(&c.minted_stab) {
            Some(v) => v,
            None => return Err(EngineError::Overflow),
        };
        let room = match held.checked_sub(&floor) {
            Some(v) => match k.checked_mul(&v) {
                Some(w) => w,
                None => return Err(EngineError::Overflow),
            },
            None => return Err(EngineError::Overflow),
        };
        let kpr = match k.checked_mul(&pr) {
            Some(v) => v,
            None => return Err(EngineError::Overflow),
        };
        let denom = match min_cr.checked_sub(&kpr) {
            Some(v) => v,
            None => return Err(EngineError::Overflow),
        };
        let a = match room.checked_div(&denom) {
            Some(v) => v,
            None => return Err(EngineError::Overflow),
        };
        let kept = if a.lt(&payment.amount) { a } else { payment.amount };
        let stab = match kept.checked_div(&k) {
            Some(v) => v,
            None => return Err(EngineError::Overflow),
        };
        if a.is_negative() || stab.is_negative() {
            return Err(EngineError::InsufficientCollateral);
        }
        let amount = match c.collateral_amount.checked_add(&kept) {
            Some(v) => v,
            None => return Err(EngineError::Overflow),
        };
        let minted = match c.minted_stab.checked_add(&stab) {
            Some(v) => v,
            None => return Err(EngineError::Overflow),
        };
        let (cr, window) = match self.evaluate(id, c, amount, minted) {
            Ok(x) => x,
            Err(e) => return Err(e),
        };
        if window {
            return Err(EngineError::CrWindowFull);
        }
        if self.cr_index.entries.len() >= usize::MAX - 1 {
            return Err(EngineError::Overflow);
        }
        let excess = if a.lt(&payment.amount) {
            match payment.amount.checked_sub(&a) {
                Some(v) => Some(Bucket { resource: payment.resource, amount: v }),
                None => return Err(EngineError::Overflow),
            }
        } else {
            None
        };
        let totals = match self.shifted_debts(parent, c.collateral, stab) {
            Some(t) => t,
            None => return Err(EngineError::Overflow),
        };
        self.restate(id, Cdp { minted_stab: minted, collateral_amount: amount, collateral_stab_ratio: cr, ..c }, totals);
        Ok((Bucket { resource: Resource::Stab, amount: stab }, excess))
    }
}

} // verus!
