//! Liquidation of marked positions, and the save of those whose ratio has
//! recovered.

use vstd::prelude::*;
use crate::decimal::{div_attos, fits, mul_attos, scale, Decimal};
use crate::types::{
    Bucket, Cdp, CdpMarker, CdpStatus, CdpUpdate, CollateralInfo, EngineError, LiquidationReceipt, PoolUnitInfo, Resource,
};
use crate::cr_index::CrEntry;
use crate::liquidation::{cr_percentage_of, liquidation_split, split_fits, split_of};
use crate::state::{entry_of, lemma_debt_update, lemma_index_add, lemma_index_set, lemma_marked_remove, lemma_marker_owned, lemma_markers_frame, lemma_minted_update, queue_has, Stabilis};

verus! {

/// What a liquidation attempt came to.
#[derive(Clone, Copy, Debug, PartialEq, Eq, Structural)]
pub enum LiquidationOutcome {
    /// The position was liquidated: `collateral` goes to the liquidator,
    /// `change` is the unspent payment, `receipt` the liquidation receipt's id.
    Liquidated { collateral: Bucket, change: Bucket, receipt: usize },
    /// The position's ratio had recovered: it is healthy again, the payment is
    /// handed back untouched, and `marker` is the id of a `Saved` marker.
    Saved { payment: Bucket, marker: usize },
}

impl Stabilis {
    /// Position of the queue entry of position `id`, if any.
    pub(crate) fn find_marked(&self, id: usize) -> (r: Option<usize>)
        ensures
            match r {
                Some(p) => p < self.marked@.len() && self.marked@[p as int].id == id,
                None => !queue_has(self.marked@, id),
            },
    {
        let mut i: usize = 0;
        while i < self.marked.len()
            invariant
                i <= self.marked@.len(),
                forall|j: int| 0 <= j < i ==> self.marked@[j].id != id,
            decreases self.marked@.len() - i,
        {
            if self.marked[i].id == id {
                return Some(i);
            }
            i = i + 1;
        }
        None
    }

    /// The first check that a liquidation through marker `mid` fails, if any,
    /// with `delay` minutes required since the mark.
    pub open spec fn liquidation_refusal(&self, mid: usize, payment: Bucket, now: u64, delay: u64) -> Option<EngineError> {
        let m = self.markers@[mid - 1];
        let c = self.cdp(m.marked_id);
        if self.parameters.stop_liquidations {
            Some(EngineError::OperationDisabled)
        } else if m.used {
            Some(EngineError::MarkerAlreadyUsed)
        } else if m.mark_type != CdpUpdate::Marked {
            Some(EngineError::MarkerWrongType)
        } else if !self.has_cdp(m.marked_id) {
            Some(EngineError::UnknownCdp)
        } else if c.marker_id != mid {
            Some(EngineError::MarkerAlreadyUsed)
        } else if payment.amount@ < c.minted_stab@ {
            Some(EngineError::InsufficientPayment)
        } else if (now as int) < m.time_marked + delay * 60 {
            Some(EngineError::TooEarly)
        } else if c.status != CdpStatus::Marked {
            Some(EngineError::NotMarked)
        } else if !self.fresh_cr_fits(c) {
            Some(EngineError::Overflow)
        } else if self.fresh_cr(c) < self.lcr(c.parent) {
            if self.liquidation_fits(c, payment) { None } else { Some(EngineError::Overflow) }
        } else if self.marker_placing_counter == u64::MAX || self.markers@.len() >= usize::MAX - 1
            || self.cr_index.entries@.len() >= usize::MAX - 1 {
            Some(EngineError::Overflow)
        } else if self.window_full(c.parent, self.fresh_cr(c)) {
            Some(EngineError::CrWindowFull)
        } else {
            None
        }
    }

    /// Whether every quantity a liquidation of `c` paid with `payment`
    /// computes stays in range, and the fines leave no negative remainder.
    pub open spec fn liquidation_fits(&self, c: Cdp, payment: Bucket) -> bool {
        let info = self.collaterals@[c.parent as int];
        let lcr = info.liquidation_collateral_ratio@;
        let num = mul_attos(info.mcr@, self.fresh_cr(c));
        let crp = div_attos(num, lcr);
        let a = self.parameters.liquidation_liquidation_fine@;
        let b = self.parameters.stabilis_liquidation_fine@;
        let (liq, tre, pr) = split_of(c.collateral_amount@, crp, a, b);
        let treasury = match c.collateral {
            Resource::PoolUnit(j) => self.pool_units@[j as int].treasury@,
            _ => info.treasury@,
        };
        &&& fits(num)
        &&& lcr != 0
        &&& fits(crp)
        &&& split_fits(c.collateral_amount@, crp, a, b)
        &&& fits(c.collateral_amount@ - liq)
        &&& fits(c.collateral_amount@ - liq - tre)
        &&& c.collateral_amount@ - liq - tre >= 0
        &&& fits(scale() + a)
        &&& self.debts_fit(c.parent, c.collateral, -c.minted_stab@)
        &&& fits(treasury + tre)
        &&& fits(payment.amount@ - c.minted_stab@)
        &&& self.receipts@.len() < usize::MAX - 1
    }

    /// What a successful liquidation attempt through marker `mid` does, from
    /// `s0` to `s1`, with outcome `out`.
    pub open spec fn liquidation_effect(
        s0: Stabilis,
        s1: Stabilis,
        mid: usize,
        payment: Bucket,
        now: u64,
        delay: u64,
        out: LiquidationOutcome,
    ) -> bool {
        let m = s0.markers@[mid - 1];
        let id = m.marked_id;
        let c = s0.cdp(id);
        let cr = s0.fresh_cr(c);
        let info = s0.collaterals@[c.parent as int];
        let a = s0.parameters.liquidation_liquidation_fine@;
        let b = s0.parameters.stabilis_liquidation_fine@;
        let crp = cr_percentage_of(info.mcr@, cr, info.liquidation_collateral_ratio@);
        let (liq, tre, pr) = split_of(c.collateral_amount@, crp, a, b);
        &&& s0.liquidation_refusal(mid, payment, now, delay).is_none()
        &&& !queue_has(s1.marked@, id)
        &&& s1.internal_stab_price == s0.internal_stab_price
        &&& s1.parameters == s0.parameters
        &&& if cr < info.liquidation_collateral_ratio@ {
            &&& out == LiquidationOutcome::Liquidated {
                collateral: Bucket { resource: c.collateral, amount: Decimal { attos: liq as i128 } },
                change: Bucket { resource: Resource::Stab, amount: Decimal { attos: (payment.amount@ - c.minted_stab@) as i128 } },
                receipt: (s0.receipts@.len() + 1) as usize,
            }
            &&& s1.cdps@ == s0.cdps@.update(id - 1, Cdp {
                status: CdpStatus::Liquidated,
                collateral_amount: Decimal { attos: (c.collateral_amount@ - liq - tre) as i128 },
                ..c
            })
            &&& s1.receipts@ == s0.receipts@.push(LiquidationReceipt {
                collateral: c.collateral,
                stab_paid: c.minted_stab,
                percentage_owed: Decimal { attos: (scale() + a) as i128 },
                percentage_received: Decimal { attos: pr as i128 },
                cdp_liquidated: id,
                date_liquidated: now,
            })
            &&& s1.markers@ == s0.markers@.update(mid - 1, CdpMarker { used: true, ..m })
            &&& s1.marked@ == s0.marked@.remove(s0.queue_pos(id))
            &&& s1.cr_index == s0.cr_index
            &&& s1.marker_placing_counter == s0.marker_placing_counter
            &&& s1.circulating_stab@ == s0.circulating_stab@ - c.minted_stab@
            &&& s1.collaterals@.len() == s0.collaterals@.len()
            &&& forall|i: int| 0 <= i < s0.collaterals@.len() && i != c.parent ==> s1.collaterals@[i] == s0.collaterals@[i]
            &&& s1.collaterals@[c.parent as int].minted_stab@ == info.minted_stab@ - c.minted_stab@
            &&& s1.pool_units@.len() == s0.pool_units@.len()
            &&& forall|j: int| 0 <= j < s0.pool_units@.len() && c.collateral != Resource::PoolUnit(j as usize)
                ==> s1.pool_units@[j] == s0.pool_units@[j]
            &&& match c.collateral {
                Resource::PoolUnit(j) => {
                    let pool = s0.pool_units@[j as int];
                    &&& s1.collaterals@[c.parent as int] == (CollateralInfo {
                        minted_stab: s1.collaterals@[c.parent as int].minted_stab,
                        ..info
                    })
                    &&& s1.pool_units@[j as int] == (PoolUnitInfo {
                        minted_stab: s1.pool_units@[j as int].minted_stab,
                        treasury: s1.pool_units@[j as int].treasury,
                        ..pool
                    })
                    &&& s1.pool_units@[j as int].minted_stab@ == pool.minted_stab@ - c.minted_stab@
                    &&& s1.pool_units@[j as int].treasury@ == pool.treasury@ + tre
                },
                _ => {
                    &&& s1.collaterals@[c.parent as int] == (CollateralInfo {
                        minted_stab: s1.collaterals@[c.parent as int].minted_stab,
                        treasury: s1.collaterals@[c.parent as int].treasury,
                        ..info
                    })
                    &&& s1.collaterals@[c.parent as int].treasury@ == info.treasury@ + tre
                },
            }
        } else {
            let c1 = Cdp { status: CdpStatus::Healthy, collateral_stab_ratio: Decimal { attos: cr as i128 }, ..c };
            &&& out == LiquidationOutcome::Saved { payment, marker: (s0.markers@.len() + 1) as usize }
            &&& s1.cdps@ == s0.cdps@.update(id - 1, c1)
            &&& s1.cr_index.entries@ == s0.cr_index.entries@.push(entry_of(id - 1, c1))
            &&& s1.markers@ == s0.markers@.update(mid - 1, CdpMarker { used: true, ..m }).push(CdpMarker {
                mark_type: CdpUpdate::Saved,
                time_marked: now,
                marked_id: id,
                marker_placing: (s0.marker_placing_counter + 1) as u64,
                used: false,
            })
            &&& s1.circulating_stab == s0.circulating_stab
            &&& s1.collaterals@ == s0.collaterals@.update(c.parent as int, Stabilis::after_insert(
                info,
                Decimal { attos: cr as i128 },
                false,
            ))
            &&& s1.pool_units == s0.pool_units
            &&& s1.receipts@ == s0.receipts@
            &&& s1.marker_placing_counter == s0.marker_placing_counter + 1
            &&& s1.marked@ == s0.marked@.remove(s0.queue_pos(id))
        }
    }

    /// Liquidates, or saves, the position that marker `mid` marked.
    fn try_liquidate(&mut self, mid: usize, payment: Bucket, now: u64, delay: u64) -> (r: Result<LiquidationOutcome, EngineError>)
        requires
            old(self).wf(),
            1 <= mid <= old(self).markers@.len(),
            payment.resource == Resource::Stab,
            payment.amount@ >= 0,
        ensures
            final(self).wf(),
            r.is_err() ==> *final(self) == *old(self),
            match old(self).liquidation_refusal(mid, payment, now, delay) {
                Some(e) => r == Err::<LiquidationOutcome, EngineError>(e),
                None => r.is_ok(),
            },
            match r {
                Ok(out) => Stabilis::liquidation_effect(*old(self), *final(self), mid, payment, now, delay, out),
                Err(_) => true,
            },
    {
        let m = self.markers[mid - 1];
        if self.parameters.stop_liquidations {
            return Err(EngineError::OperationDisabled);
        }
        if m.used {
            return Err(EngineError::MarkerAlreadyUsed);
        }
        if m.mark_type != CdpUpdate::Marked {
            return Err(EngineError::MarkerWrongType);
        }
        let id = m.marked_id;
        if id == 0 || id > self.cdps.len() {
            return Err(EngineError::UnknownCdp);
        }
        let c = self.cdps[id - 1];
        if c.marker_id != mid {
            return Err(EngineError::MarkerAlreadyUsed);
        }
        if payment.amount.lt(&c.minted_stab) {
            return Err(EngineError::InsufficientPayment);
        }
        if (now as u128) < (m.time_marked as u128) + (delay as u128) * 60 {
            return Err(EngineError::TooEarly);
        }
        if c.status != CdpStatus::Marked {
            return Err(EngineError::NotMarked);
        }
        proof {
            assert(self.cdp_ok(self.cdps@[id - 1]));
            assert(queue_has(self.marked@, id));
        }
        let backing = match self.pool_to_real(c.collateral_amount, c.collateral) {
            Some(v) => v,
            None => return Err(EngineError::Overflow),
        };
        let cr = match backing.checked_div(&c.minted_stab) {
            Some(v) => v,
            None => return Err(EngineError::Overflow),
        };
        let info = self.collaterals[c.parent];
        let lcr = info.liquidation_collateral_ratio;
        let q = match self.find_marked(id) {
            Some(q) => q,
            None => return Err(EngineError::Overflow),
        };
        let ghost s0 = *self;
        proof {
            lemma_marker_owned(s0.marked@, s0.cdps@, s0.markers@, id - 1);
            let k = s0.queue_pos(id);
            assert(0 <= k < s0.marked@.len() && s0.marked@[k].id == id);
            assert(k == q as int);
        }
        if cr.lt(&lcr) {
            let crp = match info.mcr.checked_mul(&cr) {
                Some(v) => match v.checked_div(&lcr) {
                    Some(w) => w,
                    None => return Err(EngineError::Overflow),
                },
                None => return Err(EngineError::Overflow),
            };
            let split = match liquidation_split(
                c.collateral_amount,
                crp,
                self.parameters.liquidation_liquidation_fine,
                self.parameters.stabilis_liquidation_fine,
            ) {
                Some(s) => s,
                None => return Err(EngineError::Overflow),
            };
            let leftover = match c.collateral_amount.checked_sub(&split.to_liquidator) {
                Some(v) => match v.checked_sub(&split.to_treasury) {
                    Some(w) => w,
                    None => return Err(EngineError::Overflow),
                },
                None => return Err(EngineError::Overflow),
            };
            if leftover.is_negative() {
                return Err(EngineError::Overflow);
            }
            let owed = match Decimal::one().checked_add(&self.parameters.liquidation_liquidation_fine) {
                Some(v) => v,
                None => return Err(EngineError::Overflow),
            };
            let minus = Decimal::from_attos(0 - c.minted_stab.attos);
            let totals = match self.shifted_debts(c.parent, c.collateral, minus) {
                Some(t) => t,
                None => return Err(EngineError::Overflow),
            };
            let new_treasury = match c.collateral {
                Resource::PoolUnit(j) => self.pool_units[j].treasury.checked_add(&split.to_treasury),
                _ => info.treasury.checked_add(&split.to_treasury),
            };
            let new_treasury = match new_treasury {
                Some(v) => v,
                None => return Err(EngineError::Overflow),
            };
            let change = match payment.amount.checked_sub(&c.minted_stab) {
                Some(v) => v,
                None => return Err(EngineError::Overflow),
            };
            if self.receipts.len() >= usize::MAX - 1 {
                return Err(EngineError::Overflow);
            }
            let receipt = LiquidationReceipt {
                collateral: c.collateral,
                stab_paid: c.minted_stab,
                percentage_owed: owed,
                percentage_received: split.percentage_received,
                cdp_liquidated: id,
                date_liquidated: now,
            };
            let c1 = Cdp { status: CdpStatus::Liquidated, collateral_amount: leftover, ..c };
            self.set_debts(c.parent, c.collateral, totals);
            let ghost s_mid = *self;
            match c.collateral {
                Resource::PoolUnit(j) => {
                    let mut pool = self.pool_units[j];
                    pool.treasury = new_treasury;
                    self.pool_units.set(j, pool);
                },
                _ => {
                    let mut col = self.collaterals[c.parent];
                    col.treasury = new_treasury;
                    self.collaterals.set(c.parent, col);
                },
            }
            self.receipts.push(receipt);
            self.marked.remove(q);
            self.markers.set(mid - 1, CdpMarker { used: true, ..m });
            self.cdps.set(id - 1, c1);
            proof {
                lemma_debt_update(s0.cdps@, id - 1, c1);
                lemma_minted_update(s0.collaterals@, c.parent as int, s_mid.collaterals@[c.parent as int]);
                if !(c.collateral is PoolUnit) {
                    lemma_minted_update(s_mid.collaterals@, c.parent as int, self.collaterals@[c.parent as int]);
                }
                lemma_index_set(s0.cr_index.entries@, s0.cdps@, id - 1, c1);
                lemma_marked_remove(s0.marked@, s0.cdps@, s0.markers@, q as int, c1);
                lemma_markers_frame(self.marked@, self.cdps@, s0.markers@, self.markers@, mid - 1);
                self.lemma_cdps_frame(s0);
                assert(!queue_has(self.marked@, id));
            }
            Ok(LiquidationOutcome::Liquidated {
                collateral: Bucket { resource: c.collateral, amount: split.to_liquidator },
                change: Bucket { resource: Resource::Stab, amount: change },
                receipt: self.receipts.len(),
            })
        } else {
            if self.marker_placing_counter == u64::MAX || self.markers.len() >= usize::MAX - 1
                || self.cr_index.entries.len() >= usize::MAX - 1 {
                return Err(EngineError::Overflow);
            }
            let n = self.cr_index.bucket_count(c.parent, cr);
            if n > 0 && n >= self.parameters.max_vector_length {
                return Err(EngineError::CrWindowFull);
            }
            let placing = self.marker_placing_counter + 1;
            let new_mid = self.markers.len() + 1;
            let c1 = Cdp { status: CdpStatus::Healthy, collateral_stab_ratio: cr, ..c };
            self.marked.remove(q);
            self.markers.set(mid - 1, CdpMarker { used: true, ..m });
            self.markers.push(CdpMarker {
                mark_type: CdpUpdate::Saved,
                time_marked: now,
                marked_id: id,
                marker_placing: placing,
                used: false,
            });
            self.marker_placing_counter = placing;
            self.cr_index.insert(CrEntry { parent: c.parent, cr, id, collateral: c.collateral });
            self.cdps.set(id - 1, c1);
            proof {
                lemma_debt_update(s0.cdps@, id - 1, c1);
                lemma_index_add(s0.cr_index.entries@, s0.cdps@, id - 1, c1);
                lemma_marked_remove(s0.marked@, s0.cdps@, s0.markers@, q as int, c1);
                lemma_markers_frame(self.marked@, self.cdps@, s0.markers@, self.markers@, mid - 1);
                self.lemma_cdps_frame(s0);
                assert(!queue_has(self.marked@, id));
            }
            self.note_insert(c.parent, cr, false);
            Ok(LiquidationOutcome::Saved { payment, marker: new_mid })
        }
    }

    /// Liquidates the position marked by marker `marker_id`, paying with
    /// `payment`, once the liquidation delay has passed since the mark.
    pub fn liquidate_position_with_marker(&mut self, marker_id: usize, payment: Bucket, now: u64) -> (r: Result<LiquidationOutcome, EngineError>)
        requires
            old(self).wf(),
            payment.amount@ >= 0,
        ensures
            final(self).wf(),
            r.is_err() ==> *final(self) == *old(self),
            payment.resource != Resource::Stab ==> r == Err::<LiquidationOutcome, EngineError>(EngineError::WrongResource),
            payment.resource == Resource::Stab && !(1 <= marker_id <= old(self).markers@.len()) ==> r
                == Err::<LiquidationOutcome, EngineError>(EngineError::UnknownMarker),
            payment.resource == Resource::Stab && 1 <= marker_id <= old(self).markers@.len() ==> {
                let delay = old(self).parameters.liquidation_delay;
                &&& match old(self).liquidation_refusal(marker_id, payment, now, delay) {
                    Some(e) => r == Err::<LiquidationOutcome, EngineError>(e),
                    None => r.is_ok(),
                }
                &&& match r {
                    Ok(out) => Stabilis::liquidation_effect(*old(self), *final(self), marker_id, payment, now, delay, out),
                    Err(_) => true,
                }
            },
    {
        if payment.resource != Resource::Stab {
            return Err(EngineError::WrongResource);
        }
        if marker_id == 0 || marker_id > self.markers.len() {
            return Err(EngineError::UnknownMarker);
        }
        let delay = self.parameters.liquidation_delay;
        self.try_liquidate(marker_id, payment, now, delay)
    }

    /// The position a liquidation without marker targets: the `n`-th marked
    /// position in order of marking when `skip` is `Some(n)`, else `cdp_id`.
    pub open spec fn unmarked_target(&self, skip: Option<u64>, cdp_id: usize) -> Result<usize, EngineError> {
        match skip {
            Some(n) => if self.marked@.len() == 0 {
                Err(EngineError::NoLoans)
            } else if n >= self.marked@.len() {
                Err(EngineError::SkipOutOfRange)
            } else {
                Ok(self.marked@[n as int].id)
            },
            None => Ok(cdp_id),
        }
    }

    /// Liquidates a marked position without holding its marker, once the
    /// liquidation delay and the extra unmarked delay have passed. The target
    /// is the `n`-th marked position when `skip` is `Some(n)`, else `cdp_id`.
    pub fn liquidate_position_without_marker(
        &mut self,
        payment: Bucket,
        skip: Option<u64>,
        cdp_id: usize,
        now: u64,
    ) -> (r: Result<LiquidationOutcome, EngineError>)
        requires
            old(self).wf(),
            payment.amount@ >= 0,
        ensures
            final(self).wf(),
            r.is_err() ==> *final(self) == *old(self),
            payment.resource != Resource::Stab ==> r == Err::<LiquidationOutcome, EngineError>(EngineError::WrongResource),
            payment.resource == Resource::Stab ==> match old(self).unmarked_target(skip, cdp_id) {
                Err(e) => r == Err::<LiquidationOutcome, EngineError>(e),
                Ok(id) => if !old(self).has_cdp(id) {
                    r == Err::<LiquidationOutcome, EngineError>(EngineError::UnknownCdp)
                } else if old(self).cdp(id).marker_id == 0 {
                    r == Err::<LiquidationOutcome, EngineError>(EngineError::NotMarked)
                } else if old(self).cdp(id).marker_id > old(self).markers@.len() {
                    r == Err::<LiquidationOutcome, EngineError>(EngineError::UnknownMarker)
                } else {
                    let mid = old(self).cdp(id).marker_id;
                    let delay = old(self).parameters.liquidation_delay + old(self).parameters.unmarked_delay;
                    &&& (delay > u64::MAX ==> r == Err::<LiquidationOutcome, EngineError>(EngineError::Overflow))
                    &&& (delay <= u64::MAX ==> match old(self).liquidation_refusal(mid, payment, now, delay as u64) {
                        Some(e) => r == Err::<LiquidationOutcome, EngineError>(e),
                        None => r.is_ok(),
                    })
                    &&& match r {
                        Ok(out) => Stabilis::liquidation_effect(*old(self), *final(self), mid, payment, now, delay as u64, out),
                        Err(_) => true,
                    }
                },
            },
    {
        if payment.resource != Resource::Stab {
            return Err(EngineError::WrongResource);
        }
        let id = match skip {
            Some(n) => {
                if self.marked.len() == 0 {
                    return Err(EngineError::NoLoans);
                }
                if n >= self.marked.len() as u64 {
                    return Err(EngineError::SkipOutOfRange);
                }
                self.marked[n as usize].id
            },
            None => cdp_id,
        };
        if id == 0 || id > self.cdps.len() {
            return Err(EngineError::UnknownCdp);
        }
        let mid = self.cdps[id - 1].marker_id;
        if mid == 0 {
            return Err(EngineError::NotMarked);
        }
        if mid > self.markers.len() {
            return Err(EngineError::UnknownMarker);
        }
        let delay = match self.parameters.liquidation_delay.checked_add(self.parameters.unmarked_delay) {
            Some(d) => d,
            None => return Err(EngineError::Overflow),
        };
        self.try_liquidate(mid, payment, now, delay)
    }
}

} // verus!
