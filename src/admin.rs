//! The owner's administration of prices, collaterals and parameters.

use vstd::prelude::*;
use crate::decimal::{div_attos, fits, Decimal};
use crate::types::{Bucket, CollateralInfo, EngineError, PoolUnitInfo, ProtocolParameters, Resource};
use crate::state::{lcr_of, positions_unchanged, lemma_minted_update, minted_sum, Stabilis};

verus! {

/// `s1` differs from `s0` at most in its parameters.
pub open spec fn same_but_parameters(s0: Stabilis, s1: Stabilis) -> bool {
    &&& s1.collaterals == s0.collaterals
    &&& s1.pool_units == s0.pool_units
    &&& s1.cr_index == s0.cr_index
    &&& s1.cdps == s0.cdps
    &&& s1.markers == s0.markers
    &&& s1.marked == s0.marked
    &&& s1.receipts == s0.receipts
    &&& s1.internal_stab_price == s0.internal_stab_price
    &&& s1.circulating_stab == s0.circulating_stab
    &&& s1.marker_placing_counter == s0.marker_placing_counter
}

/// Whether two collateral tables agree on everything but the liquidation
/// ratio.
pub open spec fn same_but_lcr(a: Seq<CollateralInfo>, b: Seq<CollateralInfo>) -> bool {
    &&& a.len() == b.len()
    &&& forall|i: int| 0 <= i < a.len() ==> (#[trigger] b[i]) == (CollateralInfo {
        liquidation_collateral_ratio: b[i].liquidation_collateral_ratio,
        ..a[i]
    })
}

proof fn lemma_minted_same_but_lcr(a: Seq<CollateralInfo>, b: Seq<CollateralInfo>)
    requires
        same_but_lcr(a, b),
    ensures
        minted_sum(a) == minted_sum(b),
    decreases a.len(),
{
    if a.len() > 0 {
        assert(b[b.len() - 1] == (CollateralInfo {
            liquidation_collateral_ratio: b[b.len() - 1].liquidation_collateral_ratio,
            ..a[a.len() - 1]
        }));
        assert forall|i: int| 0 <= i < a.drop_last().len() implies (#[trigger] b.drop_last()[i]) == (CollateralInfo {
            liquidation_collateral_ratio: b.drop_last()[i].liquidation_collateral_ratio,
            ..a.drop_last()[i]
        }) by {
            assert(b[i] == (CollateralInfo { liquidation_collateral_ratio: b[i].liquidation_collateral_ratio, ..a[i] }));
        }
        lemma_minted_same_but_lcr(a.drop_last(), b.drop_last());
    }
}

impl Stabilis {
    /// The internal price of STAB.
    pub fn return_internal_price(&self) -> (r: Decimal)
        ensures
            r == self.internal_stab_price,
    {
        self.internal_stab_price
    }

    /// When `change_internal_price(new_price)` succeeds: every collateral's
    /// new liquidation ratio fits.
    pub open spec fn internal_price_fits(&self, new_price: Decimal) -> bool {
        forall|i: int| 0 <= i < self.collaterals@.len() ==> {
            let x = #[trigger] self.collaterals@[i];
            fits(div_attos(new_price@, x.usd_price@)) && fits(lcr_of(x.mcr@, new_price@, x.usd_price@))
        }
    }

    /// What a successful `change_internal_price(new_price)` does: the price
    /// changes and every liquidation ratio follows; nothing else moves.
    pub open spec fn internal_price_effect(s0: Stabilis, s1: Stabilis, new_price: Decimal) -> bool {
        &&& s1.internal_stab_price == new_price
        &&& s1.collaterals@.len() == s0.collaterals@.len()
        &&& forall|i: int| 0 <= i < s0.collaterals@.len() ==> {
            let x = s0.collaterals@[i];
            #[trigger] s1.collaterals@[i] == (CollateralInfo {
                liquidation_collateral_ratio: Decimal { attos: lcr_of(x.mcr@, new_price@, x.usd_price@) as i128 },
                ..x
            })
        }
        &&& s1.pool_units == s0.pool_units
        &&& positions_unchanged(s0, s1)
    }

    /// Sets STAB's internal price and recomputes every collateral's
    /// liquidation ratio as `mcr * (new_price / usd_price)`.
    pub fn change_internal_price(&mut self, new_price: Decimal) -> (r: Result<(), EngineError>)
        requires
            old(self).wf(),
        ensures
            final(self).wf(),
            r.is_err() ==> *final(self) == *old(self) && r == Err::<(), EngineError>(EngineError::Overflow),
            r.is_ok() <==> old(self).internal_price_fits(new_price),
            r.is_ok() ==> Stabilis::internal_price_effect(*old(self), *final(self), new_price),
    {
        let mut cols: Vec<CollateralInfo> = Vec::new();
        let mut i: usize = 0;
        while i < self.collaterals.len()
            invariant
                self.wf(),
                *self == *old(self),
                i <= self.collaterals@.len(),
                cols@.len() == i,
                forall|j: int| 0 <= j < i ==> {
                    let x = self.collaterals@[j];
                    #[trigger] cols@[j] == (CollateralInfo {
                        liquidation_collateral_ratio: Decimal { attos: lcr_of(x.mcr@, new_price@, x.usd_price@) as i128 },
                        ..x
                    })
                },
                forall|j: int| 0 <= j < i ==> {
                    let x = #[trigger] self.collaterals@[j];
                    fits(div_attos(new_price@, x.usd_price@)) && fits(lcr_of(x.mcr@, new_price@, x.usd_price@))
                },
            decreases self.collaterals@.len() - i,
        {
            let x = self.collaterals[i];
            let lcr = match new_price.checked_div(&x.usd_price) {
                Some(q) => match x.mcr.checked_mul(&q) {
                    Some(v) => v,
                    None => return Err(EngineError::Overflow),
                },
                None => return Err(EngineError::Overflow),
            };
            cols.push(CollateralInfo { liquidation_collateral_ratio: lcr, ..x });
            i = i + 1;
        }
        let ghost s0 = *self;
        self.collaterals = cols;
        self.internal_stab_price = new_price;
        proof {
            lemma_minted_same_but_lcr(s0.collaterals@, self.collaterals@);
            assert forall|k: int| 0 <= k < self.collaterals@.len() implies (#[trigger] self.collaterals@[k]).usd_price@ != 0
                && self.collaterals@[k].liquidation_collateral_ratio@ == lcr_of(
                self.collaterals@[k].mcr@,
                self.internal_stab_price@,
                self.collaterals@[k].usd_price@,
            ) by {
                assert(s0.collaterals@[k].usd_price@ != 0);
            }
            assert forall|k: int| 0 <= k < self.cdps@.len() implies self.cdp_ok(#[trigger] self.cdps@[k]) by {
                assert(s0.cdp_ok(s0.cdps@[k]));
            }
            assert forall|j: int| 0 <= j < self.pool_units@.len() implies #[trigger] self.pool_units@[j].parent
                < self.collaterals@.len() by {
                assert(s0.pool_units@[j].parent < s0.collaterals@.len());
            }
        }
        Ok(())
    }

    /// Changes collateral `i`'s acceptance, minimum ratio and share cap; its
    /// liquidation ratio follows the new minimum ratio.
    pub fn edit_collateral(&mut self, i: usize, new_mcr: Decimal, accepted: bool, max_share: Decimal) -> (r: Result<(), EngineError>)
        requires
            old(self).wf(),
        ensures
            final(self).wf(),
            r.is_err() ==> *final(self) == *old(self),
            r == Err::<(), EngineError>(EngineError::NotAccepted) <==> i >= old(self).collaterals@.len(),
            i < old(self).collaterals@.len() ==> (r.is_ok() <==> {
                let x = old(self).collaterals@[i as int];
                fits(div_attos(old(self).internal_stab_price@, x.usd_price@))
                    && fits(lcr_of(new_mcr@, old(self).internal_stab_price@, x.usd_price@))
            }),
            r.is_ok() ==> {
                let x = old(self).collaterals@[i as int];
                &&& final(self).collaterals@ == old(self).collaterals@.update(i as int, CollateralInfo {
                    mcr: new_mcr,
                    accepted,
                    max_stab_share: max_share,
                    liquidation_collateral_ratio: Decimal {
                        attos: lcr_of(new_mcr@, old(self).internal_stab_price@, x.usd_price@) as i128,
                    },
                    ..x
                })
                &&& final(self).pool_units == old(self).pool_units
                &&& final(self).internal_stab_price == old(self).internal_stab_price
                &&& positions_unchanged(*old(self), *final(self))
            },
    {
        if i >= self.collaterals.len() {
            return Err(EngineError::NotAccepted);
        }
        let x = self.collaterals[i];
        let lcr = match self.internal_stab_price.checked_div(&x.usd_price) {
            Some(q) => match new_mcr.checked_mul(&q) {
                Some(v) => v,
                None => return Err(EngineError::Overflow),
            },
            None => return Err(EngineError::Overflow),
        };
        let info = CollateralInfo { mcr: new_mcr, accepted, max_stab_share: max_share, liquidation_collateral_ratio: lcr, ..x };
        let ghost s0 = *self;
        self.collaterals.set(i, info);
        proof {
            lemma_minted_update(s0.collaterals@, i as int, info);
            assert forall|k: int| 0 <= k < self.collaterals@.len() implies (#[trigger] self.collaterals@[k]).usd_price@ != 0
                && self.collaterals@[k].liquidation_collateral_ratio@ == lcr_of(
                self.collaterals@[k].mcr@,
                self.internal_stab_price@,
                self.collaterals@[k].usd_price@,
            ) by {
                assert(s0.collaterals@[k].usd_price@ != 0);
            }
            assert forall|k: int| 0 <= k < self.cdps@.len() implies self.cdp_ok(#[trigger] self.cdps@[k]) by {
                assert(s0.cdp_ok(s0.cdps@[k]));
            }
            assert forall|j: int| 0 <= j < self.pool_units@.len() implies #[trigger] self.pool_units@[j].parent
                < self.collaterals@.len() by {
                assert(s0.pool_units@[j].parent < s0.collaterals@.len());
            }
        }
        Ok(())
    }

    /// Changes pool unit `j`'s acceptance and share cap.
    pub fn edit_pool_collateral(&mut self, j: usize, accepted: bool, max_share: Decimal) -> (r: Result<(), EngineError>)
        requires
            old(self).wf(),
        ensures
            final(self).wf(),
            r.is_err() ==> *final(self) == *old(self),
            r.is_err() <==> j >= old(self).pool_units@.len(),
            r.is_ok() ==> final(self).pool_units@ == old(self).pool_units@.update(j as int, PoolUnitInfo {
                accepted,
                max_pool_share: max_share,
                ..old(self).pool_units@[j as int]
            }),
            r.is_ok() ==> final(self).collaterals == old(self).collaterals && final(self).internal_stab_price
                == old(self).internal_stab_price && positions_unchanged(*old(self), *final(self)),
    {
        if j >= self.pool_units.len() {
            return Err(EngineError::NotAccepted);
        }
        let x = self.pool_units[j];
        let ghost s0 = *self;
        self.pool_units.set(j, PoolUnitInfo { accepted, max_pool_share: max_share, ..x });
        proof {
            self.lemma_pool_units_frame(s0);
        }
        Ok(())
    }

    /// Records the parent collateral one unit of pool unit `j` now redeems for.
    pub fn set_redemption_rate(&mut self, j: usize, rate: Decimal) -> (r: Result<(), EngineError>)
        requires
            old(self).wf(),
        ensures
            final(self).wf(),
            r.is_err() ==> *final(self) == *old(self),
            r.is_err() <==> j >= old(self).pool_units@.len(),
            r.is_ok() ==> final(self).pool_units@ == old(self).pool_units@.update(j as int, PoolUnitInfo {
                redemption_rate: rate,
                ..old(self).pool_units@[j as int]
            }),
            r.is_ok() ==> final(self).collaterals == old(self).collaterals && final(self).internal_stab_price
                == old(self).internal_stab_price && positions_unchanged(*old(self), *final(self)),
    {
        if j >= self.pool_units.len() {
            return Err(EngineError::NotAccepted);
        }
        let x = self.pool_units[j];
        let ghost s0 = *self;
        self.pool_units.set(j, PoolUnitInfo { redemption_rate: rate, ..x });
        proof {
            self.lemma_pool_units_frame(s0);
        }
        Ok(())
    }

    /// Well-formedness survives a change of pool units that keeps their
    /// number and parents, all else unchanged.
    proof fn lemma_pool_units_frame(&self, s0: Stabilis)
        requires
            s0.wf(),
            self.pool_units@.len() == s0.pool_units@.len(),
            forall|j: int| 0 <= j < s0.pool_units@.len() ==> (#[trigger] self.pool_units@[j]).parent
                == s0.pool_units@[j].parent,
            self.collaterals == s0.collaterals,
            self.cr_index == s0.cr_index,
            self.cdps == s0.cdps,
            self.markers == s0.markers,
            self.marked == s0.marked,
            self.receipts == s0.receipts,
            self.internal_stab_price == s0.internal_stab_price,
            self.circulating_stab == s0.circulating_stab,
        ensures
            self.wf(),
    {
        assert forall|k: int| 0 <= k < self.cdps@.len() implies self.cdp_ok(#[trigger] self.cdps@[k]) by {
            assert(s0.cdp_ok(s0.cdps@[k]));
            match self.cdps@[k].collateral {
                Resource::PoolUnit(j) => {
                    assert(self.pool_units@[j as int].parent == s0.pool_units@[j as int].parent);
                },
                _ => {},
            }
        }
        assert forall|j: int| 0 <= j < self.pool_units@.len() implies #[trigger] self.pool_units@[j].parent
            < self.collaterals@.len() by {
            assert(s0.pool_units@[j].parent < s0.collaterals@.len());
        }
    }

    /// Takes `amount` out of a treasury: that of pool unit `r` when `r` is
    /// one and `fallback` is false, else that of parent collateral `r` (or
    /// of the pool unit's parent).
    pub fn empty_collateral_treasury(&mut self, amount: Decimal, r: Resource, fallback: bool) -> (out: Result<Bucket, EngineError>)
        requires
            old(self).wf(),
            amount@ >= 0,
        ensures
            final(self).wf(),
            out.is_err() ==> *final(self) == *old(self),
            out.is_ok() ==> out == Ok::<Bucket, EngineError>(Bucket {
                resource: match r {
                    Resource::PoolUnit(j) => if fallback { Resource::Collateral(old(self).pool_units@[j as int].parent) } else { r },
                    _ => r,
                },
                amount,
            }),
            out.is_ok() ==> final(self).internal_stab_price == old(self).internal_stab_price && positions_unchanged(
                *old(self),
                *final(self),
            ),
            match r {
                Resource::PoolUnit(j) => if j >= old(self).pool_units@.len() {
                    out == Err::<Bucket, EngineError>(EngineError::NotAccepted)
                } else if !fallback {
                    let t = old(self).pool_units@[j as int].treasury@;
                    &&& (out.is_ok() <==> amount@ <= t)
                    &&& out.is_ok() ==> final(self).pool_units@ == old(self).pool_units@.update(j as int, PoolUnitInfo {
                        treasury: Decimal { attos: (t - amount@) as i128 },
                        ..old(self).pool_units@[j as int]
                    }) && final(self).collaterals == old(self).collaterals
                } else {
                    let i = old(self).pool_units@[j as int].parent;
                    let t = old(self).collaterals@[i as int].treasury@;
                    &&& (out.is_ok() <==> amount@ <= t)
                    &&& out.is_ok() ==> final(self).collaterals@ == old(self).collaterals@.update(i as int, CollateralInfo {
                        treasury: Decimal { attos: (t - amount@) as i128 },
                        ..old(self).collaterals@[i as int]
                    }) && final(self).pool_units == old(self).pool_units
                },
                Resource::Collateral(i) => if i >= old(self).collaterals@.len() {
                    out == Err::<Bucket, EngineError>(EngineError::NotAccepted)
                } else {
                    let t = old(self).collaterals@[i as int].treasury@;
                    &&& (out.is_ok() <==> amount@ <= t)
                    &&& out.is_ok() ==> final(self).collaterals@ == old(self).collaterals@.update(i as int, CollateralInfo {
                        treasury: Decimal { attos: (t - amount@) as i128 },
                        ..old(self).collaterals@[i as int]
                    }) && final(self).pool_units == old(self).pool_units
                },
                _ => out == Err::<Bucket, EngineError>(EngineError::NotAccepted),
            },
    {
        let (use_pool, idx) = match r {
            Resource::PoolUnit(j) => {
                if j >= self.pool_units.len() {
                    return Err(EngineError::NotAccepted);
                }
                if fallback { (false, self.pool_units[j].parent) } else { (true, j) }
            },
            Resource::Collateral(i) => {
                if i >= self.collaterals.len() {
                    return Err(EngineError::NotAccepted);
                }
                (false, i)
            },
            _ => return Err(EngineError::NotAccepted),
        };
        let ghost s0 = *self;
        if use_pool {
            let x = self.pool_units[idx];
            if x.treasury.lt(&amount) {
                return Err(EngineError::InsufficientCollateral);
            }
            let t = match x.treasury.checked_sub(&amount) {
                Some(v) => v,
                None => return Err(EngineError::Overflow),
            };
            self.pool_units.set(idx, PoolUnitInfo { treasury: t, ..x });
            proof {
                self.lemma_pool_units_frame(s0);
            }
            Ok(Bucket { resource: r, amount })
        } else {
            let x = self.collaterals[idx];
            if x.treasury.lt(&amount) {
                return Err(EngineError::InsufficientCollateral);
            }
            let t = match x.treasury.checked_sub(&amount) {
                Some(v) => v,
                None => return Err(EngineError::Overflow),
            };
            let info = CollateralInfo { treasury: t, ..x };
            self.collaterals.set(idx, info);
            proof {
                lemma_minted_update(s0.collaterals@, idx as int, info);
                self.lemma_cdps_frame(s0);
            }
            Ok(Bucket { resource: Resource::Collateral(idx), amount })
        }
    }

    /// Checks that marker `mid` may be burned: it has been used.
    pub fn burn_marker(&self, mid: usize) -> (r: Result<(), EngineError>)
        ensures
            r.is_ok() <==> 1 <= mid <= self.markers@.len() && self.markers@[mid - 1].used,
            r == Err::<(), EngineError>(EngineError::UnknownMarker) <==> !(1 <= mid <= self.markers@.len()),
    {
        if mid == 0 || mid > self.markers.len() {
            return Err(EngineError::UnknownMarker);
        }
        if self.markers[mid - 1].used {
            Ok(())
        } else {
            Err(EngineError::ReceiptNotBurnable)
        }
    }

    /// Sets the delay, in minutes, between a mark and a liquidation by the marker.
    pub fn set_liquidation_delay(&mut self, minutes: u64)
        ensures
            final(self).parameters == (ProtocolParameters { liquidation_delay: minutes, ..old(self).parameters }),
            same_but_parameters(*old(self), *final(self)),
    {
        self.parameters.liquidation_delay = minutes;
    }

    /// Sets the extra delay, in minutes, before anyone may liquidate.
    pub fn set_unmarked_delay(&mut self, minutes: u64)
        ensures
            final(self).parameters == (ProtocolParameters { unmarked_delay: minutes, ..old(self).parameters }),
            same_but_parameters(*old(self), *final(self)),
    {
        self.parameters.unmarked_delay = minutes;
    }

    /// Enables or disables groups of operations.
    pub fn set_stops(&mut self, liquidations: bool, openings: bool, closings: bool, force_mint: bool, force_liquidate: bool)
        ensures
            final(self).parameters == (ProtocolParameters {
                stop_liquidations: liquidations,
                stop_openings: openings,
                stop_closings: closings,
                stop_force_mint: force_mint,
                stop_force_liquidate: force_liquidate,
                ..old(self).parameters
            }),
            same_but_parameters(*old(self), *final(self)),
    {
        self.parameters.stop_liquidations = liquidations;
        self.parameters.stop_openings = openings;
        self.parameters.stop_closings = closings;
        self.parameters.stop_force_mint = force_mint;
        self.parameters.stop_force_liquidate = force_liquidate;
    }

    /// Sets the capacity of a ratio bucket.
    pub fn set_max_vector_length(&mut self, n: u64)
        ensures
            final(self).parameters == (ProtocolParameters { max_vector_length: n, ..old(self).parameters }),
            same_but_parameters(*old(self), *final(self)),
    {
        self.parameters.max_vector_length = n;
    }

    /// Sets the smallest debt a position may have.
    pub fn set_minimum_mint(&mut self, amount: Decimal)
        ensures
            final(self).parameters == (ProtocolParameters { minimum_mint: amount, ..old(self).parameters }),
            same_but_parameters(*old(self), *final(self)),
    {
        self.parameters.minimum_mint = amount;
    }

    /// Sets the liquidator's and the protocol's liquidation fines.
    pub fn set_fines(&mut self, liquidator_fine: Decimal, stabilis_fine: Decimal)
        ensures
            final(self).parameters == (ProtocolParameters {
                liquidation_liquidation_fine: liquidator_fine,
                stabilis_liquidation_fine: stabilis_fine,
                ..old(self).parameters
            }),
            same_but_parameters(*old(self), *final(self)),
    {
        self.parameters.liquidation_liquidation_fine = liquidator_fine;
        self.parameters.stabilis_liquidation_fine = stabilis_fine;
    }

    /// Sets the multiple of the liquidation ratio a force-mint keeps.
    pub fn set_force_mint_multiplier(&mut self, multiplier: Decimal)
        ensures
            final(self).parameters == (ProtocolParameters { force_mint_cr_multiplier: multiplier, ..old(self).parameters }),
            same_but_parameters(*old(self), *final(self)),
    {
        self.parameters.force_mint_cr_multiplier = multiplier;
    }
}

} // verus!
