//! Operations that change a live position's collateral or debt and
//! re-evaluate its ratio: top-up, collateral removal, partial repayment and
//! further borrowing.

use vstd::prelude::*;
use crate::decimal::{div_attos, fits, Decimal};
use crate::types::{Bucket, Cdp, CdpMarker, CdpStatus, EngineError, Resource};
use crate::cr_index::{bucket_len_except, has_id, CrEntry};
use crate::state::{
    entry_of, is_active, lemma_debt_update, lemma_index_add, lemma_index_remove, lemma_marked_remove,
    lemma_marked_set, lemma_marker_owned, lemma_markers_frame, lemma_minted_update, queue_has,
    Stabilis,
};

verus! {

impl Stabilis {
    /// What replacing live position `id` by healthy `c1` does, from `s0` to
    /// `s1`: the position is re-indexed under its new ratio, the debt totals
    /// move by the change in its debt, and a mark on it is spent.
    pub open spec fn restate_effect(s0: Stabilis, s1: Stabilis, id: usize, c1: Cdp) -> bool {
        let c = s0.cdp(id);
        let delta = c1.minted_stab@ - c.minted_stab@;
        &&& s1.cdps@ == s0.cdps@.update(id - 1, c1)
        &&& Stabilis::debts_moved(s0, s1, c, delta, Some(c1.collateral_stab_ratio))
        &&& s1.cr_index.entries@.last() == entry_of(id - 1, c1)
        &&& !queue_has(s1.marked@, id)
        &&& if c.status == CdpStatus::Marked {
            &&& s1.markers@ == s0.markers@.update(c.marker_id - 1, CdpMarker { used: true, ..s0.markers@[c.marker_id - 1] })
            &&& s1.marked@ == s0.marked@.remove(s0.queue_pos(id))
            &&& s1.cr_index.entries@ == s0.cr_index.entries@.push(entry_of(id - 1, c1))
        } else {
            &&& s1.markers == s0.markers
            &&& s1.marked == s0.marked
            &&& s1.cr_index.entries@ == s0.cr_index.entries@.remove(s0.index_pos(id)).push(entry_of(id - 1, c1))
        }
        &&& s1.receipts == s0.receipts
        &&& s1.marker_placing_counter == s0.marker_placing_counter
        &&& s1.internal_stab_price == s0.internal_stab_price
        &&& s1.parameters == s0.parameters
    }

    /// Replaces live position `id` by healthy `c1` and records the new debt
    /// totals `totals`.
    pub(crate) fn restate(&mut self, id: usize, c1: Cdp, totals: (Decimal, Decimal, Decimal))
        requires
            old(self).wf(),
            old(self).has_cdp(id),
            is_active(old(self).cdp(id).status),
            c1.status == CdpStatus::Healthy,
            c1.parent == old(self).cdp(id).parent,
            c1.collateral == old(self).cdp(id).collateral,
            c1.is_pool_unit == old(self).cdp(id).is_pool_unit,
            c1.minted_stab@ > 0,
            c1.collateral_amount@ >= 0,
            old(self).cr_index.entries@.len() < usize::MAX - 1,
            ({
                let c = old(self).cdp(id);
                let delta = c1.minted_stab@ - c.minted_stab@;
                &&& totals.0@ == old(self).collaterals@[c.parent as int].minted_stab@ + delta
                &&& totals.2@ == old(self).circulating_stab@ + delta
                &&& match c.collateral {
                    Resource::PoolUnit(j) => totals.1@ == old(self).pool_units@[j as int].minted_stab@ + delta,
                    _ => true,
                }
            }),
        ensures
            final(self).wf(),
            Stabilis::restate_effect(*old(self), *final(self), id, c1),
            final(self).receipts == old(self).receipts,
            final(self).collaterals@.len() == old(self).collaterals@.len(),
    {
        let c = self.cdps[id - 1];
        proof {
            assert(self.cdp_ok(self.cdps@[id - 1]));
        }
        let ghost s0 = *self;
        self.set_debts(c.parent, c.collateral, totals);
        let ghost s1 = *self;
        if c.status == CdpStatus::Healthy {
            let p = match self.cr_index.find(id) {
                Some(p) => p,
                None => {
                    proof {
                        assert(has_id(s0.cr_index.entries@, id));
                    }
                    return;
                },
            };
            proof {
                let k = s0.index_pos(id);
                assert(0 <= k < s0.cr_index.entries@.len() && s0.cr_index.entries@[k].id == id);
                assert(k == p as int);
            }
            self.cr_index.remove_at(p);
            let ghost rest = self.cr_index.entries@;
            self.cr_index.insert(CrEntry { parent: c.parent, cr: c1.collateral_stab_ratio, id, collateral: c.collateral });
            self.cdps.set(id - 1, c1);
            proof {
                let tmp = Cdp { status: CdpStatus::Closed, ..c };
                lemma_index_remove(s0.cr_index.entries@, s0.cdps@, p as int, tmp);
                lemma_index_add(rest, s0.cdps@.update(id - 1, tmp), id - 1, c1);
                assert(s0.cdps@.update(id - 1, tmp).update(id - 1, c1) =~= self.cdps@);
                lemma_marked_set(s0.marked@, s0.cdps@, s0.markers@, id - 1, c1);
                assert(!queue_has(self.marked@, id)) by {
                    if queue_has(self.marked@, id) {
                        let i = choose|i: int| 0 <= i < self.marked@.len() && self.marked@[i].id == id;
                        assert(self.marked@[i] == s0.marked@[i]);
                    }
                }
            }
        } else {
            proof {
                assert(queue_has(s0.marked@, id));
            }
            let q = match self.find_marked(id) {
                Some(q) => q,
                None => return,
            };
            let mid = c.marker_id;
            proof {
                assert(crate::state::marker_ok(s0.markers@, id - 1, mid));
                lemma_marker_owned(s0.marked@, s0.cdps@, s0.markers@, id - 1);
            }
            let m = self.markers[mid - 1];
            proof {
                let k = s0.queue_pos(id);
                assert(0 <= k < s0.marked@.len() && s0.marked@[k].id == id);
                assert(k == q as int);
            }
            self.marked.remove(q);
            self.markers.set(mid - 1, CdpMarker { used: true, ..m });
            self.cr_index.insert(CrEntry { parent: c.parent, cr: c1.collateral_stab_ratio, id, collateral: c.collateral });
            self.cdps.set(id - 1, c1);
            proof {
                lemma_index_add(s0.cr_index.entries@, s0.cdps@, id - 1, c1);
                lemma_marked_remove(s0.marked@, s0.cdps@, s0.markers@, q as int, c1);
                lemma_markers_frame(self.marked@, self.cdps@, s0.markers@, self.markers@, mid - 1);
                assert(!queue_has(self.marked@, id));
            }
        }
        proof {
            lemma_debt_update(s0.cdps@, id - 1, c1);
            lemma_minted_update(s0.collaterals@, c.parent as int, s1.collaterals@[c.parent as int]);
            self.lemma_cdps_frame(s0);
        }
        self.note_insert(c.parent, c1.collateral_stab_ratio, false);
    }

    /// Whether re-indexing position `id` under ratio `cr` of `parent` would
    /// overflow its bucket.
    pub open spec fn window_full_for(&self, parent: usize, cr: int, id: usize) -> bool {
        let n = bucket_len_except(self.cr_index.entries@, parent, cr, id);
        n > 0 && n >= self.parameters.max_vector_length
    }

    /// The ratio of position `c` with `amount` collateral and `minted` debt,
    /// under the current redemption rates.
    pub open spec fn ratio_with(&self, c: Cdp, amount: int, minted: int) -> int {
        div_attos(self.real_amount(c.collateral, amount), minted)
    }

    /// Whether evaluating `ratio_with(c, amount, minted)` stays in range.
    pub open spec fn ratio_fits(&self, c: Cdp, amount: int, minted: int) -> bool {
        fits(self.real_amount(c.collateral, amount)) && minted != 0 && fits(self.ratio_with(c, amount, minted))
    }

    /// The ratio of `c` with `amount` collateral and `minted` debt, and
    /// whether its bucket would then be full.
    pub(crate) fn evaluate(&self, id: usize, c: Cdp, amount: Decimal, minted: Decimal) -> (r: Result<(Decimal, bool), EngineError>)
        requires
            self.wf(),
            self.has_cdp(id),
            c == self.cdp(id),
        ensures
            r.is_ok() <==> self.ratio_fits(c, amount@, minted@),
            match r {
                Ok((cr, full)) => cr@ == self.ratio_with(c, amount@, minted@) && full == self.window_full_for(c.parent, cr@, id),
                Err(e) => e == EngineError::Overflow,
            },
    {
        proof {
            assert(self.cdp_ok(self.cdps@[id - 1]));
        }
        let backing = match self.pool_to_real(amount, c.collateral) {
            Some(v) => v,
            None => return Err(EngineError::Overflow),
        };
        let cr = match backing.checked_div(&minted) {
            Some(v) => v,
            None => return Err(EngineError::Overflow),
        };
        let n = self.cr_index.bucket_count_except(c.parent, cr, id);
        Ok((cr, n > 0 && n >= self.parameters.max_vector_length))
    }

    /// The first check that `top_up_cdp(id, collateral)` fails, if any.
    pub open spec fn top_up_refusal(&self, id: usize, collateral: Bucket) -> Option<EngineError> {
        let c = self.cdp(id);
        let cr = self.ratio_with(c, c.collateral_amount@ + collateral.amount@, c.minted_stab@);
        if !self.has_cdp(id) {
            Some(EngineError::UnknownCdp)
        } else if !is_active(c.status) {
            Some(EngineError::NotHealthy)
        } else if collateral.resource != c.collateral {
            Some(EngineError::WrongResource)
        } else if !fits(c.collateral_amount@ + collateral.amount@)
            || !self.ratio_fits(c, c.collateral_amount@ + collateral.amount@, c.minted_stab@) {
            Some(EngineError::Overflow)
        } else if cr <= self.lcr(c.parent) {
            Some(EngineError::InsufficientCollateral)
        } else if self.window_full_for(c.parent, cr, id) {
            Some(EngineError::CrWindowFull)
        } else if self.cr_index.entries@.len() >= usize::MAX - 1 {
            Some(EngineError::Overflow)
        } else {
            None
        }
    }

    /// Adds `collateral` to a healthy or marked position; a marked position
    /// whose new ratio is above the liquidation ratio becomes healthy.
    pub fn top_up_cdp(&mut self, id: usize, collateral: Bucket) -> (r: Result<(), EngineError>)
        requires
            old(self).wf(),
            collateral.amount@ >= 0,
        ensures
            final(self).wf(),
            r.is_err() ==> *final(self) == *old(self),
            match old(self).top_up_refusal(id, collateral) {
                Some(e) => r == Err::<(), EngineError>(e),
                None => r.is_ok(),
            },
            r.is_ok() ==> {
                let c = old(self).cdp(id);
                let amount = c.collateral_amount@ + collateral.amount@;
                &&& old(self).top_up_refusal(id, collateral).is_none()
                &&& Stabilis::restate_effect(*old(self), *final(self), id, Cdp {
                    collateral_amount: Decimal { attos: amount as i128 },
                    collateral_stab_ratio: Decimal { attos: old(self).ratio_with(c, amount, c.minted_stab@) as i128 },
                    status: CdpStatus::Healthy,
                    ..c
                })
            },
    {
        if id == 0 || id > self.cdps.len() {
            return Err(EngineError::UnknownCdp);
        }
        let c = self.cdps[id - 1];
        if c.status != CdpStatus::Healthy && c.status != CdpStatus::Marked {
            return Err(EngineError::NotHealthy);
        }
        if collateral.resource != c.collateral {
            return Err(EngineError::WrongResource);
        }
        let amount = match c.collateral_amount.checked_add(&collateral.amount) {
            Some(v) => v,
            None => return Err(EngineError::Overflow),
        };
        let (cr, full) = match self.evaluate(id, c, amount, c.minted_stab) {
            Ok(x) => x,
            Err(e) => return Err(e),
        };
        if cr.le(&self.collaterals[c.parent].liquidation_collateral_ratio) {
            return Err(EngineError::InsufficientCollateral);
        }
        if full {
            return Err(EngineError::CrWindowFull);
        }
        if self.cr_index.entries.len() >= usize::MAX - 1 {
            return Err(EngineError::Overflow);
        }
        let totals = self.current_debts(c.parent, c.collateral);
        self.restate(id, Cdp { collateral_amount: amount, collateral_stab_ratio: cr, status: CdpStatus::Healthy, ..c }, totals);
        Ok(())
    }

    /// The current debt totals of `parent`, of pool unit `r` if it is one, and
    /// of the circulating supply.
    fn current_debts(&self, parent: usize, r: Resource) -> (out: (Decimal, Decimal, Decimal))
        requires
            self.wf(),
            parent < self.collaterals@.len(),
            match r {
                Resource::PoolUnit(j) => j < self.pool_units@.len(),
                _ => true,
            },
        ensures
            out.0 == self.collaterals@[parent as int].minted_stab,
            out.2 == self.circulating_stab,
            match r {
                Resource::PoolUnit(j) => out.1 == self.pool_units@[j as int].minted_stab,
                _ => true,
            },
    {
        let pool = match r {
            Resource::PoolUnit(j) => self.pool_units[j].minted_stab,
            _ => Decimal::zero(),
        };
        (self.collaterals[parent].minted_stab, pool, self.circulating_stab)
    }

    /// The first check that `remove_collateral(id, amount)` fails, if any.
    pub open spec fn remove_refusal(&self, id: usize, amount: Decimal) -> Option<EngineError> {
        let c = self.cdp(id);
        let cr = self.ratio_with(c, c.collateral_amount@ - amount@, c.minted_stab@);
        if !self.has_cdp(id) {
            Some(EngineError::UnknownCdp)
        } else if c.status != CdpStatus::Healthy {
            Some(EngineError::NotHealthy)
        } else if self.parameters.stop_closings {
            Some(EngineError::OperationDisabled)
        } else if amount@ > c.collateral_amount@ {
            Some(EngineError::InsufficientCollateral)
        } else if !self.ratio_fits(c, c.collateral_amount@ - amount@, c.minted_stab@) {
            Some(EngineError::Overflow)
        } else if cr <= self.lcr(c.parent) {
            Some(EngineError::InsufficientCollateral)
        } else if self.window_full_for(c.parent, cr, id) {
            Some(EngineError::CrWindowFull)
        } else if self.cr_index.entries@.len() >= usize::MAX - 1 {
            Some(EngineError::Overflow)
        } else {
            None
        }
    }

    /// Takes `amount` of collateral out of a healthy position whose ratio
    /// stays above the liquidation ratio.
    pub fn remove_collateral(&mut self, id: usize, amount: Decimal) -> (r: Result<Bucket, EngineError>)
        requires
            old(self).wf(),
            amount@ >= 0,
        ensures
            final(self).wf(),
            r.is_err() ==> *final(self) == *old(self),
            match old(self).remove_refusal(id, amount) {
                Some(e) => r == Err::<Bucket, EngineError>(e),
                None => r.is_ok(),
            },
            r.is_ok() ==> {
                let c = old(self).cdp(id);
                let left = c.collateral_amount@ - amount@;
                &&& old(self).remove_refusal(id, amount).is_none()
                &&& r == Ok::<Bucket, EngineError>(Bucket { resource: c.collateral, amount })
                &&& Stabilis::restate_effect(*old(self), *final(self), id, Cdp {
                    collateral_amount: Decimal { attos: left as i128 },
                    collateral_stab_ratio: Decimal { attos: old(self).ratio_with(c, left, c.minted_stab@) as i128 },
                    ..c
                })
            },
    {
        if id == 0 || id > self.cdps.len() {
            return Err(EngineError::UnknownCdp);
        }
        let c = self.cdps[id - 1];
        if c.status != CdpStatus::Healthy {
            return Err(EngineError::NotHealthy);
        }
        if self.parameters.stop_closings {
            return Err(EngineError::OperationDisabled);
        }
        if c.collateral_amount.lt(&amount) {
            return Err(EngineError::InsufficientCollateral);
        }
        let left = match c.collateral_amount.checked_sub(&amount) {
            Some(v) => v,
            None => return Err(EngineError::Overflow),
        };
        let (cr, full) = match self.evaluate(id, c, left, c.minted_stab) {
            Ok(x) => x,
            Err(e) => return Err(e),
        };
        if cr.le(&self.collaterals[c.parent].liquidation_collateral_ratio) {
            return Err(EngineError::InsufficientCollateral);
        }
        if full {
            return Err(EngineError::CrWindowFull);
        }
        if self.cr_index.entries.len() >= usize::MAX - 1 {
            return Err(EngineError::Overflow);
        }
        let totals = self.current_debts(c.parent, c.collateral);
        self.restate(id, Cdp { collateral_amount: left, collateral_stab_ratio: cr, ..c }, totals);
        Ok(Bucket { resource: c.collateral, amount })
    }

    /// The first check that `borrow_more(id, amount)` fails, if any.
    pub open spec fn borrow_refusal(&self, id: usize, amount: Decimal) -> Option<EngineError> {
        let c = self.cdp(id);
        let cr = self.ratio_with(c, c.collateral_amount@, c.minted_stab@ + amount@);
        if !self.has_cdp(id) {
            Some(EngineError::UnknownCdp)
        } else if c.status != CdpStatus::Healthy {
            Some(EngineError::NotHealthy)
        } else if self.parameters.stop_openings {
            Some(EngineError::OperationDisabled)
        } else if !fits(c.minted_stab@ + amount@) || !self.ratio_fits(c, c.collateral_amount@, c.minted_stab@ + amount@) {
            Some(EngineError::Overflow)
        } else if cr <= self.lcr(c.parent) {
            Some(EngineError::InsufficientCollateral)
        } else if !self.share_fits(c.collateral, c.parent, amount@) {
            Some(EngineError::Overflow)
        } else if self.share_exceeded(c.collateral, c.parent, amount@) {
            Some(EngineError::ShareCapExceeded)
        } else if self.window_full_for(c.parent, cr, id) {
            Some(EngineError::CrWindowFull)
        } else if self.cr_index.entries@.len() >= usize::MAX - 1 {
            Some(EngineError::Overflow)
        } else {
            None
        }
    }

    /// Mints `amount` more STAB against a healthy position whose ratio stays
    /// above the liquidation ratio and whose collateral's share stays capped.
    pub fn borrow_more(&mut self, id: usize, amount: Decimal) -> (r: Result<Bucket, EngineError>)
        requires
            old(self).wf(),
            amount@ >= 0,
        ensures
            final(self).wf(),
            r.is_err() ==> *final(self) == *old(self),
            match old(self).borrow_refusal(id, amount) {
                Some(e) => r == Err::<Bucket, EngineError>(e),
                None => r.is_ok(),
            },
            r.is_ok() ==> {
                let c = old(self).cdp(id);
                let minted = c.minted_stab@ + amount@;
                &&& old(self).borrow_refusal(id, amount).is_none()
                &&& r == Ok::<Bucket, EngineError>(Bucket { resource: Resource::Stab, amount })
                &&& Stabilis::restate_effect(*old(self), *final(self), id, Cdp {
                    minted_stab: Decimal { attos: minted as i128 },
                    collateral_stab_ratio: Decimal { attos: old(self).ratio_with(c, c.collateral_amount@, minted) as i128 },
                    ..c
                })
            },
    {
        if id == 0 || id > self.cdps.len() {
            return Err(EngineError::UnknownCdp);
        }
        let c = self.cdps[id - 1];
        if c.status != CdpStatus::Healthy {
            return Err(EngineError::NotHealthy);
        }
        if self.parameters.stop_openings {
            return Err(EngineError::OperationDisabled);
        }
        proof {
            assert(self.cdp_ok(self.cdps@[id - 1]));
        }
        let minted = match c.minted_stab.checked_add(&amount) {
            Some(v) => v,
            None => return Err(EngineError::Overflow),
        };
        let (cr, full) = match self.evaluate(id, c, c.collateral_amount, minted) {
            Ok(x) => x,
            Err(e) => return Err(e),
        };
        let info = self.collaterals[c.parent];
        if cr.le(&info.liquidation_collateral_ratio) {
            return Err(EngineError::InsufficientCollateral);
        }
        let totals = match self.shifted_debts(c.parent, c.collateral, amount) {
            Some(t) => t,
            None => return Err(EngineError::Overflow),
        };
        let share = match totals.0.checked_div(&totals.2) {
            Some(v) => v,
            None => return Err(EngineError::Overflow),
        };
        let mut over = info.max_stab_share.lt(&share);
        if let Resource::PoolUnit(j) = c.collateral {
            let pool_share = match totals.1.checked_div(&totals.0) {
                Some(v) => v,
                None => return Err(EngineError::Overflow),
            };
            over = over || self.pool_units[j].max_pool_share.lt(&pool_share);
        }
        if over {
            return Err(EngineError::ShareCapExceeded);
        }
        if full {
            return Err(EngineError::CrWindowFull);
        }
        if self.cr_index.entries.len() >= usize::MAX - 1 {
            return Err(EngineError::Overflow);
        }
        self.restate(id, Cdp { minted_stab: minted, collateral_stab_ratio: cr, ..c }, totals);
        Ok(Bucket { resource: Resource::Stab, amount })
    }

    /// The first check that `partial_close_cdp(id, repayment)` fails, if any,
    /// when it does not hand over to `close_cdp`.
    pub open spec fn partial_close_refusal(&self, id: usize, repayment: Bucket) -> Option<EngineError> {
        let c = self.cdp(id);
        let minted = c.minted_stab@ - repayment.amount@;
        let cr = self.ratio_with(c, c.collateral_amount@, minted);
        if self.parameters.stop_closings {
            Some(EngineError::OperationDisabled)
        } else if repayment.resource != Resource::Stab {
            Some(EngineError::WrongResource)
        } else if !self.has_cdp(id) {
            Some(EngineError::UnknownCdp)
        } else if minted <= 0 {
            None
        } else if minted < self.parameters.minimum_mint@ {
            Some(EngineError::BelowMinimumMint)
        } else if !is_active(c.status) {
            Some(EngineError::NotHealthy)
        } else if !self.ratio_fits(c, c.collateral_amount@, minted) {
            Some(EngineError::Overflow)
        } else if cr <= self.lcr(c.parent) {
            Some(EngineError::InsufficientCollateral)
        } else if self.window_full_for(c.parent, cr, id) {
            Some(EngineError::CrWindowFull)
        } else if self.cr_index.entries@.len() >= usize::MAX - 1 || !self.debts_fit(c.parent, c.collateral, -repayment.amount@) {
            Some(EngineError::Overflow)
        } else {
            None
        }
    }

    /// Repays part of a healthy or marked position's debt with `repayment`;
    /// a marked position whose new ratio is above the liquidation ratio
    /// becomes healthy. A repayment of the whole debt or more closes the
    /// position as `close_cdp` does, and returns its collateral and change.
    pub fn partial_close_cdp(&mut self, id: usize, repayment: Bucket) -> (r: Result<Option<(Bucket, Bucket)>, EngineError>)
        requires
            old(self).wf(),
            repayment.amount@ >= 0,
        ensures
            final(self).wf(),
            r.is_err() ==> *final(self) == *old(self),
            match old(self).partial_close_refusal(id, repayment) {
                Some(e) => r == Err::<Option<(Bucket, Bucket)>, EngineError>(e),
                None => old(self).cdp(id).minted_stab@ - repayment.amount@ <= 0 || r.is_ok(),
            },
            old(self).partial_close_refusal(id, repayment).is_none() && old(self).cdp(id).minted_stab@
                - repayment.amount@ <= 0 ==> match old(self).close_refusal(id, repayment) {
                Some(e) => r == Err::<Option<(Bucket, Bucket)>, EngineError>(e),
                None => r.is_ok(),
            },
            match r {
                Ok(Some((col, left))) => old(self).cdp(id).minted_stab@ - repayment.amount@ <= 0
                    && Stabilis::close_effect(*old(self), *final(self), id, repayment, col, left),
                Ok(None) => {
                    let c = old(self).cdp(id);
                    let minted = c.minted_stab@ - repayment.amount@;
                    &&& minted > 0
                    &&& old(self).partial_close_refusal(id, repayment).is_none()
                    &&& Stabilis::restate_effect(*old(self), *final(self), id, Cdp {
                        minted_stab: Decimal { attos: minted as i128 },
                        collateral_stab_ratio: Decimal { attos: old(self).ratio_with(c, c.collateral_amount@, minted) as i128 },
                        status: CdpStatus::Healthy,
                        ..c
                    })
                },
                Err(_) => true,
            },
    {
        if self.parameters.stop_closings {
            return Err(EngineError::OperationDisabled);
        }
        if repayment.resource != Resource::Stab {
            return Err(EngineError::WrongResource);
        }
        if id == 0 || id > self.cdps.len() {
            return Err(EngineError::UnknownCdp);
        }
        let c = self.cdps[id - 1];
        if !repayment.amount.lt(&c.minted_stab) {
            return match self.close_cdp(id, repayment) {
                Ok(x) => Ok(Some(x)),
                Err(e) => Err(e),
            };
        }
        let minted = match c.minted_stab.checked_sub(&repayment.amount) {
            Some(v) => v,
            None => return Err(EngineError::Overflow),
        };
        if minted.lt(&self.parameters.minimum_mint) {
            return Err(EngineError::BelowMinimumMint);
        }
        if c.status != CdpStatus::Healthy && c.status != CdpStatus::Marked {
            return Err(EngineError::NotHealthy);
        }
        let (cr, full) = match self.evaluate(id, c, c.collateral_amount, minted) {
            Ok(x) => x,
            Err(e) => return Err(e),
        };
        if cr.le(&self.collaterals[c.parent].liquidation_collateral_ratio) {
            return Err(EngineError::InsufficientCollateral);
        }
        if full {
            return Err(EngineError::CrWindowFull);
        }
        if self.cr_index.entries.len() >= usize::MAX - 1 {
            return Err(EngineError::Overflow);
        }
        proof {
            assert(self.cdp_ok(self.cdps@[id - 1]));
        }
        let minus = Decimal::from_attos(0 - repayment.amount.attos);
        let totals = match self.shifted_debts(c.parent, c.collateral, minus) {
            Some(t) => t,
            None => return Err(EngineError::Overflow),
        };
        self.restate(id, Cdp { minted_stab: minted, collateral_stab_ratio: cr, status: CdpStatus::Healthy, ..c }, totals);
        Ok(None)
    }
}

} // verus!
