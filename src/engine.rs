//! Position operations: opening, closing, and the owner's administration of
//! collaterals and parameters.

use vstd::prelude::*;
use crate::decimal::{div_attos, fits, mul_attos, Decimal};
use crate::types::{
    Bucket, Cdp, CdpMarker, CdpStatus, CdpUpdate, CollateralInfo, EngineError, PoolUnitInfo, ProtocolParameters, Resource,
};
use crate::cr_index::{bucket_len, has_id, is_lowest, CrEntry, CrIndex};
use crate::state::{collateral_total, collateral_total_fits, debt, is_active, lcr_coherent, positions_unchanged, lcr_of, entry_of, lemma_debt_push, lemma_debt_update, lemma_index_add, lemma_index_new, lemma_index_remove, lemma_index_set, lemma_marked_add, lemma_marked_new, lemma_marked_set, lemma_markers_frame, lemma_minted_push, lemma_minted_update, MarkedEntry, Stabilis};

verus! {

/// The default protocol parameters: minimum mint 1, buckets of 250, delays
/// of 5 minutes, fines of 0.10 and 0.05, nothing stopped, force-mint
/// multiplier 3.
pub open spec fn default_parameters_spec() -> ProtocolParameters {
    ProtocolParameters {
        minimum_mint: Decimal { attos: 1_000_000_000_000_000_000 },
        max_vector_length: 250,
        liquidation_delay: 5,
        unmarked_delay: 5,
        liquidation_liquidation_fine: Decimal { attos: 100_000_000_000_000_000 },
        stabilis_liquidation_fine: Decimal { attos: 50_000_000_000_000_000 },
        stop_liquidations: false,
        stop_openings: false,
        stop_closings: false,
        stop_force_mint: false,
        stop_force_liquidate: false,
        force_mint_cr_multiplier: Decimal { attos: 3_000_000_000_000_000_000 },
    }
}

/// Default protocol parameters.
pub fn default_parameters() -> (r: ProtocolParameters)
    ensures
        r == default_parameters_spec(),
{
    ProtocolParameters {
        minimum_mint: Decimal::from_attos(1_000_000_000_000_000_000),
        max_vector_length: 250,
        liquidation_delay: 5,
        unmarked_delay: 5,
        liquidation_liquidation_fine: Decimal::from_attos(100_000_000_000_000_000),
        stabilis_liquidation_fine: Decimal::from_attos(50_000_000_000_000_000),
        stop_liquidations: false,
        stop_openings: false,
        stop_closings: false,
        stop_force_mint: false,
        stop_force_liquidate: false,
        force_mint_cr_multiplier: Decimal::from_attos(3_000_000_000_000_000_000),
    }
}

impl Stabilis {
    /// The parent collateral and pool-unit flag of an accepted collateral resource.
    pub open spec fn accepted_parent(&self, r: Resource) -> Option<(usize, bool)> {
        match r {
            Resource::Collateral(i) => if i < self.collaterals@.len()
                && self.collaterals@[i as int].accepted {
                Some((i, false))
            } else {
                None
            },
            Resource::PoolUnit(j) => if j < self.pool_units@.len() && self.pool_units@[j as int].accepted {
                Some((self.pool_units@[j as int].parent, true))
            } else {
                None
            },
            _ => None,
        }
    }

    /// Parent collateral that `amount` of resource `r` redeems for.
    pub open spec fn real_amount(&self, r: Resource, amount: int) -> int {
        match r {
            Resource::PoolUnit(j) => mul_attos(amount, self.pool_units@[j as int].redemption_rate@),
            _ => amount,
        }
    }

    /// Whether adding `stab` to the debt backed by `r` (parent `parent`)
    /// would push a share over its cap.
    pub open spec fn share_exceeded(&self, r: Resource, parent: usize, stab: int) -> bool {
        let info = self.collaterals@[parent as int];
        ||| div_attos(info.minted_stab@ + stab, self.circulating_stab@ + stab) > info.max_stab_share@
        ||| match r {
            Resource::PoolUnit(j) => div_attos(
                self.pool_units@[j as int].minted_stab@ + stab,
                info.minted_stab@ + stab,
            ) > self.pool_units@[j as int].max_pool_share@,
            _ => false,
        }
    }

    /// Whether the bucket of `parent` at ratio `cr` is full.
    pub open spec fn window_full(&self, parent: usize, cr: int) -> bool {
        let n = bucket_len(self.cr_index.entries@, parent, cr);
        n > 0 && n >= self.parameters.max_vector_length
    }

    /// What a successful `open_cdp(c, stab)` does, from `s0` to `s1`, handing
    /// out `stab_out` and the id `id`.
    pub open spec fn open_effect(s0: Stabilis, s1: Stabilis, c: Bucket, stab: Decimal, stab_out: Bucket, id: usize) -> bool {
        let parent = s0.accepted_parent(c.resource).unwrap().0;
        &&& s0.open_refusal(c, stab).is_none()
        &&& stab_out == (Bucket { resource: Resource::Stab, amount: stab })
        &&& id == s0.cdps@.len() + 1
        &&& s1.cdps@ == s0.cdps@.push(s0.opened_cdp(c, stab))
        &&& s1.cr_index.entries@ == s0.cr_index.entries@.push(entry_of(s0.cdps@.len() as int, s0.opened_cdp(c, stab)))
        &&& s1.circulating_stab@ == s0.circulating_stab@ + stab@
        &&& s1.collaterals@.len() == s0.collaterals@.len()
        &&& forall|i: int| 0 <= i < s0.collaterals@.len() && i != parent ==> s1.collaterals@[i] == s0.collaterals@[i]
        &&& s1.collaterals@[parent as int] == (CollateralInfo {
            minted_stab: s1.collaterals@[parent as int].minted_stab,
            ..Stabilis::after_insert(s0.collaterals@[parent as int], s0.opened_cdp(c, stab).collateral_stab_ratio, true)
        })
        &&& s1.collaterals@[parent as int].minted_stab@ == s0.collaterals@[parent as int].minted_stab@ + stab@
        &&& Stabilis::pool_debt_moved(s0, s1, c.resource, stab@)
        &&& s1.receipts == s0.receipts
        &&& s1.marker_placing_counter == s0.marker_placing_counter
        &&& s1.internal_stab_price == s0.internal_stab_price
        &&& s1.parameters == s0.parameters
        &&& s1.markers@ == s0.markers@
        &&& s1.marked@ == s0.marked@
    }

    /// The first check that `open_cdp(c, stab)` fails, if any; `Overflow`
    /// when a quantity it computes leaves the range of `Decimal`.
    pub open spec fn open_refusal(&self, c: Bucket, stab: Decimal) -> Option<EngineError> {
        if stab@ < self.parameters.minimum_mint@ || stab@ <= 0 {
            Some(EngineError::BelowMinimumMint)
        } else if self.parameters.stop_openings {
            Some(EngineError::OperationDisabled)
        } else if self.accepted_parent(c.resource).is_none() {
            Some(EngineError::NotAccepted)
        } else {
            let parent = self.accepted_parent(c.resource).unwrap().0;
            let info = self.collaterals@[parent as int];
            let backing = self.real_amount(c.resource, c.amount@);
            let value = mul_attos(info.usd_price@, backing);
            let owed = mul_attos(self.internal_stab_price@, stab@);
            let needed = mul_attos(owed, info.mcr@);
            if !(fits(backing) && fits(value) && fits(owed) && fits(needed)) {
                Some(EngineError::Overflow)
            } else if value < needed {
                Some(EngineError::InsufficientCollateral)
            } else if !self.share_fits(c.resource, parent, stab@) {
                Some(EngineError::Overflow)
            } else if self.share_exceeded(c.resource, parent, stab@) {
                Some(EngineError::ShareCapExceeded)
            } else if !fits(div_attos(backing, stab@)) || self.cdps@.len() >= usize::MAX - 1
                || self.cr_index.entries@.len() >= usize::MAX - 1 {
                Some(EngineError::Overflow)
            } else if self.window_full(parent, div_attos(backing, stab@)) {
                Some(EngineError::CrWindowFull)
            } else {
                None
            }
        }
    }

    /// Whether the new debt totals and shares that adding `stab` to the debt
    /// backed by `r` (parent `parent`) computes all fit.
    pub open spec fn share_fits(&self, r: Resource, parent: usize, stab: int) -> bool {
        let info = self.collaterals@[parent as int];
        let minted = info.minted_stab@ + stab;
        let circ = self.circulating_stab@ + stab;
        &&& fits(minted)
        &&& fits(circ)
        &&& circ != 0
        &&& fits(div_attos(minted, circ))
        &&& match r {
            Resource::PoolUnit(j) => {
                let pool = self.pool_units@[j as int].minted_stab@ + stab;
                fits(pool) && minted != 0 && fits(div_attos(pool, minted))
            },
            _ => true,
        }
    }

    /// The position `open_cdp(c, stab)` creates.
    pub open spec fn opened_cdp(&self, c: Bucket, stab: Decimal) -> Cdp {
        let (parent, pool) = self.accepted_parent(c.resource).unwrap();
        Cdp {
            collateral: c.resource,
            parent,
            is_pool_unit: pool,
            collateral_amount: c.amount,
            minted_stab: stab,
            collateral_stab_ratio: Decimal {
                attos: div_attos(self.real_amount(c.resource, c.amount@), stab@) as i128,
            },
            status: CdpStatus::Healthy,
            marker_id: 0,
        }
    }

    /// An engine with no collateral and no position, internal price 1.
    pub fn new(parameters: ProtocolParameters) -> (r: Stabilis)
        ensures
            r.wf(),
            r.parameters == parameters,
            r.internal_stab_price@ == 1_000_000_000_000_000_000,
            r.circulating_stab@ == 0,
            r.cdps@.len() == 0,
            r.cr_index.entries@.len() == 0,
            r.markers@.len() == 0,
            r.marked@.len() == 0,
            r.receipts@.len() == 0,
            r.marker_placing_counter == 0,
            r.collaterals@.len() == 0,
            r.pool_units@.len() == 0,
    {
        Stabilis {
            collaterals: Vec::new(),
            pool_units: Vec::new(),
            cr_index: CrIndex::new(),
            cdps: Vec::new(),
            markers: Vec::new(),
            marked: Vec::new(),
            receipts: Vec::new(),
            internal_stab_price: Decimal::one(),
            circulating_stab: Decimal::zero(),
            marker_placing_counter: 0,
            parameters,
        }
    }

    /// An engine with the default parameters, no collateral and no position.
    pub fn instantiate() -> (r: Stabilis)
        ensures
            r.wf(),
            r.parameters == default_parameters_spec(),
            r.internal_stab_price@ == 1_000_000_000_000_000_000,
            r.circulating_stab@ == 0,
            r.cdps@.len() == 0,
            r.cr_index.entries@.len() == 0,
            r.markers@.len() == 0,
            r.marked@.len() == 0,
            r.receipts@.len() == 0,
            r.marker_placing_counter == 0,
            r.collaterals@.len() == 0,
            r.pool_units@.len() == 0,
    {
        Stabilis::new(default_parameters())
    }

    /// Parent collateral that `amount` of collateral `r` redeems for.
    pub(crate) fn pool_to_real(&self, amount: Decimal, r: Resource) -> (out: Option<Decimal>)
        requires
            match r {
                Resource::PoolUnit(j) => j < self.pool_units@.len(),
                _ => true,
            },
        ensures
            match out {
                Some(d) => d@ == self.real_amount(r, amount@),
                None => match r {
                    Resource::PoolUnit(j) => !crate::decimal::fits(self.real_amount(r, amount@)),
                    _ => false,
                },
            },
    {
        match r {
            Resource::PoolUnit(j) => amount.checked_mul(&self.pool_units[j].redemption_rate),
            _ => Some(amount),
        }
    }

    pub(crate) fn find_accepted_parent(&self, r: Resource) -> (out: Option<(usize, bool)>)
        requires
            self.wf(),
        ensures
            out == self.accepted_parent(r),
    {
        match r {
            Resource::Collateral(i) => {
                if i < self.collaterals.len() && self.collaterals[i].accepted {
                    Some((i, false))
                } else {
                    None
                }
            },
            Resource::PoolUnit(j) => {
                if j < self.pool_units.len() && self.pool_units[j].accepted {
                    Some((self.pool_units[j].parent, true))
                } else {
                    None
                }
            },
            _ => None,
        }
    }

    /// Whether a collateral is registered under `address`.
    pub open spec fn collateral_address_taken(&self, address: u64) -> bool {
        exists|i: int| 0 <= i < self.collaterals@.len() && self.collaterals@[i].address == address
    }

    /// Whether a pool unit is registered under `address`.
    pub open spec fn pool_address_taken(&self, address: u64) -> bool {
        exists|j: int| 0 <= j < self.pool_units@.len() && self.pool_units@[j].address == address
    }

    fn find_collateral_address(&self, address: u64) -> (r: bool)
        ensures
            r == self.collateral_address_taken(address),
    {
        let mut i: usize = 0;
        while i < self.collaterals.len()
            invariant
                i <= self.collaterals@.len(),
                forall|k: int| 0 <= k < i ==> self.collaterals@[k].address != address,
            decreases self.collaterals@.len() - i,
        {
            if self.collaterals[i].address == address {
                return true;
            }
            i = i + 1;
        }
        false
    }

    fn find_pool_address(&self, address: u64) -> (r: bool)
        ensures
            r == self.pool_address_taken(address),
    {
        let mut j: usize = 0;
        while j < self.pool_units.len()
            invariant
                j <= self.pool_units@.len(),
                forall|k: int| 0 <= k < j ==> self.pool_units@[k].address != address,
            decreases self.pool_units@.len() - j,
        {
            if self.pool_units[j].address == address {
                return true;
            }
            j = j + 1;
        }
        false
    }

    /// The record `add_collateral(address, mcr, price)` adds.
    pub open spec fn new_collateral(&self, address: u64, mcr: Decimal, price: Decimal) -> CollateralInfo {
        CollateralInfo {
            address,
            mcr,
            usd_price: price,
            liquidation_collateral_ratio: Decimal { attos: lcr_of(mcr@, self.internal_stab_price@, price@) as i128 },
            accepted: true,
            max_stab_share: Decimal { attos: 1_000_000_000_000_000_000 },
            minted_stab: Decimal { attos: 0 },
            treasury: Decimal { attos: 0 },
            initialized: false,
            highest_cr: Decimal { attos: 0 },
        }
    }

    /// When `add_collateral(mcr, price)` succeeds: the table has room, the
    /// price is not zero and the liquidation ratio fits.
    pub open spec fn add_collateral_fits(&self, mcr: Decimal, price: Decimal) -> bool {
        &&& self.collaterals@.len() < usize::MAX - 1
        &&& price@ != 0
        &&& fits(div_attos(self.internal_stab_price@, price@))
        &&& fits(lcr_of(mcr@, self.internal_stab_price@, price@))
    }

    /// What a successful `add_collateral(mcr, price)` returning `i` does.
    pub open spec fn add_collateral_effect(s0: Stabilis, s1: Stabilis, address: u64, mcr: Decimal, price: Decimal, i: usize) -> bool {
        &&& i == s0.collaterals@.len()
        &&& s1.collaterals@ == s0.collaterals@.push(s0.new_collateral(address, mcr, price))
        &&& s1.pool_units == s0.pool_units
        &&& s1.internal_stab_price == s0.internal_stab_price
        &&& positions_unchanged(s0, s1)
    }

    /// When `change_collateral_price(i, price)` succeeds: collateral `i`
    /// exists, the price is not zero and the new liquidation ratio fits.
    pub open spec fn price_fits(&self, i: usize, price: Decimal) -> bool {
        &&& i < self.collaterals@.len()
        &&& price@ != 0
        &&& fits(div_attos(self.internal_stab_price@, price@))
        &&& fits(lcr_of(self.collaterals@[i as int].mcr@, self.internal_stab_price@, price@))
    }

    /// What a successful `change_collateral_price(i, price)` does: collateral
    /// `i` takes the price and its liquidation ratio follows; nothing else moves.
    pub open spec fn price_effect(s0: Stabilis, s1: Stabilis, i: usize, price: Decimal) -> bool {
        let x = s0.collaterals@[i as int];
        &&& i < s0.collaterals@.len()
        &&& s1.collaterals@ == s0.collaterals@.update(i as int, CollateralInfo {
            usd_price: price,
            liquidation_collateral_ratio: Decimal { attos: lcr_of(x.mcr@, s0.internal_stab_price@, price@) as i128 },
            ..x
        })
        &&& s1.internal_stab_price == s0.internal_stab_price
        &&& s1.pool_units == s0.pool_units
        &&& positions_unchanged(s0, s1)
    }

    /// Registers a parent collateral with minimum ratio `mcr` and a first
    /// price; returns its index.
    pub fn add_collateral(&mut self, address: u64, mcr: Decimal, initial_price: Decimal) -> (r: Result<usize, EngineError>)
        requires
            old(self).wf(),
        ensures
            final(self).wf(),
            match r {
                Ok(i) => Stabilis::add_collateral_effect(*old(self), *final(self), address, mcr, initial_price, i),
                Err(_) => *final(self) == *old(self),
            },
            r == Err::<usize, EngineError>(EngineError::AlreadyAccepted) <==> old(self).collateral_address_taken(address),
            !old(self).collateral_address_taken(address) ==> (r.is_ok() <==> old(self).add_collateral_fits(mcr, initial_price)),
            !old(self).collateral_address_taken(address) && r.is_err() ==> r == Err::<usize, EngineError>(EngineError::Overflow),
    {
        if self.find_collateral_address(address) {
            return Err(EngineError::AlreadyAccepted);
        }
        if self.collaterals.len() >= usize::MAX - 1 {
            return Err(EngineError::Overflow);
        }
        let lcr = match self.internal_stab_price.checked_div(&initial_price) {
            Some(q) => match mcr.checked_mul(&q) {
                Some(v) => v,
                None => return Err(EngineError::Overflow),
            },
            None => return Err(EngineError::Overflow),
        };
        let info = CollateralInfo {
            address,
            mcr,
            usd_price: initial_price,
            liquidation_collateral_ratio: lcr,
            accepted: true,
            max_stab_share: Decimal::one(),
            minted_stab: Decimal::zero(),
            treasury: Decimal::zero(),
            initialized: false,
            highest_cr: Decimal::zero(),
        };
        let ghost old_c = self.collaterals@;
        self.collaterals.push(info);
        proof {
            lemma_minted_push(old_c, info);
            assert forall|k: int| 0 <= k < self.collaterals@.len() implies (#[trigger] self.collaterals@[k]).usd_price@ != 0
                && self.collaterals@[k].liquidation_collateral_ratio@ == lcr_of(
                self.collaterals@[k].mcr@,
                self.internal_stab_price@,
                self.collaterals@[k].usd_price@,
            ) by {
                if k < old_c.len() {
                    assert(self.collaterals@[k] == old_c[k]);
                }
            }
            assert forall|k: int| 0 <= k < self.cdps@.len() implies self.cdp_ok(#[trigger] self.cdps@[k]) by {
                assert(old(self).cdp_ok(self.cdps@[k]));
            }
            assert forall|j: int| 0 <= j < self.pool_units@.len() implies #[trigger] self.pool_units@[j].parent
                < self.collaterals@.len() by {
                assert(old(self).pool_units@[j].parent < old(self).collaterals@.len());
            }
        }
        Ok(self.collaterals.len() - 1)
    }

    /// Registers a pool unit of parent collateral `parent`, redeeming at
    /// `redemption_rate`; returns its index.
    pub fn add_pool_collateral(
        &mut self,
        address: u64,
        parent: usize,
        lsu: bool,
        redemption_rate: Decimal,
        initial_acceptance: bool,
    ) -> (r: Result<usize, EngineError>)
        requires
            old(self).wf(),
        ensures
            final(self).wf(),
            match r {
                Ok(j) => {
                    &&& parent < old(self).collaterals@.len()
                    &&& j == old(self).pool_units@.len()
                    &&& final(self).pool_units@ == old(self).pool_units@.push(PoolUnitInfo {
                        address,
                        parent,
                        lsu,
                        redemption_rate,
                        accepted: initial_acceptance,
                        max_pool_share: Decimal { attos: 1_000_000_000_000_000_000 },
                        minted_stab: Decimal { attos: 0 },
                        treasury: Decimal { attos: 0 },
                    })
                    &&& final(self).collaterals@ == old(self).collaterals@
                    &&& final(self).internal_stab_price == old(self).internal_stab_price
                    &&& positions_unchanged(*old(self), *final(self))
                },
                Err(_) => *final(self) == *old(self),
            },
            r == Err::<usize, EngineError>(EngineError::AlreadyAccepted) <==> old(self).pool_address_taken(address),
            !old(self).pool_address_taken(address) ==> (r == Err::<usize, EngineError>(EngineError::NotAccepted)
                <==> parent >= old(self).collaterals@.len()),
            !old(self).pool_address_taken(address) && parent < old(self).collaterals@.len() ==> (r.is_ok()
                <==> old(self).pool_units@.len() < usize::MAX - 1),
    {
        if self.find_pool_address(address) {
            return Err(EngineError::AlreadyAccepted);
        }
        if parent >= self.collaterals.len() {
            return Err(EngineError::NotAccepted);
        }
        if self.pool_units.len() >= usize::MAX - 1 {
            return Err(EngineError::Overflow);
        }
        let info = PoolUnitInfo {
            address,
            parent,
            lsu,
            redemption_rate,
            accepted: initial_acceptance,
            max_pool_share: Decimal::one(),
            minted_stab: Decimal::zero(),
            treasury: Decimal::zero(),
        };
        self.pool_units.push(info);
        proof {
            assert forall|k: int| 0 <= k < self.cdps@.len() implies self.cdp_ok(#[trigger] self.cdps@[k]) by {
                assert(old(self).cdp_ok(self.cdps@[k]));
                match self.cdps@[k].collateral {
                    Resource::PoolUnit(j) => {
                        assert(self.pool_units@[j as int] == old(self).pool_units@[j as int]);
                    },
                    _ => {},
                }
            }
            assert forall|j: int| 0 <= j < self.pool_units@.len() implies #[trigger] self.pool_units@[j].parent
                < self.collaterals@.len() by {
                if j < old(self).pool_units@.len() {
                    assert(old(self).pool_units@[j].parent < old(self).collaterals@.len());
                }
            }
        }
        Ok(self.pool_units.len() - 1)
    }

    /// Sets the price of collateral `i` and recomputes its liquidation ratio
    /// as `mcr * (internal price / new_price)`.
    pub fn change_collateral_price(&mut self, i: usize, new_price: Decimal) -> (r: Result<(), EngineError>)
        requires
            old(self).wf(),
        ensures
            final(self).wf(),
            match r {
                Ok(()) => Stabilis::price_effect(*old(self), *final(self), i, new_price),
                Err(e) => *final(self) == *old(self) && (e == EngineError::NotAccepted <==> i
                    >= old(self).collaterals@.len()),
            },
            i < old(self).collaterals@.len() ==> (r.is_ok() <==> old(self).price_fits(i, new_price)),
            i < old(self).collaterals@.len() && r.is_err() ==> r == Err::<(), EngineError>(EngineError::Overflow),
    {
        if i >= self.collaterals.len() {
            return Err(EngineError::NotAccepted);
        }
        let mut info = self.collaterals[i];
        let lcr = match self.internal_stab_price.checked_div(&new_price) {
            Some(q) => match info.mcr.checked_mul(&q) {
                Some(v) => v,
                None => return Err(EngineError::Overflow),
            },
            None => return Err(EngineError::Overflow),
        };
        info.usd_price = new_price;
        info.liquidation_collateral_ratio = lcr;
        let ghost old_c = self.collaterals@;
        self.collaterals.set(i, info);
        proof {
            lemma_minted_update(old_c, i as int, info);
            assert forall|k: int| 0 <= k < self.collaterals@.len() implies (#[trigger] self.collaterals@[k]).usd_price@ != 0
                && self.collaterals@[k].liquidation_collateral_ratio@ == lcr_of(
                self.collaterals@[k].mcr@,
                self.internal_stab_price@,
                self.collaterals@[k].usd_price@,
            ) by {
                if k != i {
                    assert(self.collaterals@[k] == old_c[k]);
                }
            }
            assert forall|k: int| 0 <= k < self.cdps@.len() implies self.cdp_ok(#[trigger] self.cdps@[k]) by {
                assert(old(self).cdp_ok(self.cdps@[k]));
            }
            assert forall|j: int| 0 <= j < self.pool_units@.len() implies #[trigger] self.pool_units@[j].parent
                < self.collaterals@.len() by {
                assert(old(self).pool_units@[j].parent < old(self).collaterals@.len());
            }
        }
        Ok(())
    }

    /// The record of collateral `x` once ratio `cr` is indexed under it, by
    /// an opening when `opening`.
    pub open spec fn after_insert(x: CollateralInfo, cr: Decimal, opening: bool) -> CollateralInfo {
        CollateralInfo {
            highest_cr: if x.highest_cr@ < cr@ { cr } else { x.highest_cr },
            initialized: x.initialized || opening,
            ..x
        }
    }

    /// Records that ratio `cr` was indexed under collateral `parent`: its
    /// highest ratio rises to `cr` if below, and an opening marks it
    /// initialized.
    pub(crate) fn note_insert(&mut self, parent: usize, cr: Decimal, opening: bool)
        requires
            old(self).wf(),
            parent < old(self).collaterals@.len(),
        ensures
            final(self).wf(),
            final(self).collaterals@ == old(self).collaterals@.update(
                parent as int,
                Stabilis::after_insert(old(self).collaterals@[parent as int], cr, opening),
            ),
            final(self).pool_units == old(self).pool_units,
            final(self).internal_stab_price == old(self).internal_stab_price,
            positions_unchanged(*old(self), *final(self)),
    {
        let x = self.collaterals[parent];
        let info = CollateralInfo {
            highest_cr: if x.highest_cr.lt(&cr) { cr } else { x.highest_cr },
            initialized: x.initialized || opening,
            ..x
        };
        let ghost s0 = *self;
        self.collaterals.set(parent, info);
        proof {
            lemma_minted_update(s0.collaterals@, parent as int, info);
            self.lemma_cdps_frame(s0);
        }
    }

    /// Opens a position backed by `collateral`, minting `stab_to_mint` STAB;
    /// returns the STAB and the new position's id.
    pub fn open_cdp(&mut self, collateral: Bucket, stab_to_mint: Decimal) -> (r: Result<(Bucket, usize), EngineError>)
        requires
            old(self).wf(),
            collateral.amount@ >= 0,
        ensures
            final(self).wf(),
            r.is_err() ==> *final(self) == *old(self),
            match old(self).open_refusal(collateral, stab_to_mint) {
                Some(e) => r == Err::<(Bucket, usize), EngineError>(e),
                None => r.is_ok(),
            },
            match r {
                Ok((stab, id)) => Stabilis::open_effect(*old(self), *final(self), collateral, stab_to_mint, stab, id),
                Err(_) => true,
            },
    {
        if stab_to_mint.attos < self.parameters.minimum_mint.attos || stab_to_mint.attos <= 0 {
            return Err(EngineError::BelowMinimumMint);
        }
        if self.parameters.stop_openings {
            return Err(EngineError::OperationDisabled);
        }
        let (parent, is_pool) = match self.find_accepted_parent(collateral.resource) {
            Some(x) => x,
            None => return Err(EngineError::NotAccepted),
        };
        let backing = match self.pool_to_real(collateral.amount, collateral.resource) {
            Some(v) => v,
            None => return Err(EngineError::Overflow),
        };
        let info = self.collaterals[parent];
        let value = match info.usd_price.checked_mul(&backing) {
            Some(v) => v,
            None => return Err(EngineError::Overflow),
        };
        let needed = match self.internal_stab_price.checked_mul(&stab_to_mint) {
            Some(v) => match v.checked_mul(&info.mcr) {
                Some(w) => w,
                None => return Err(EngineError::Overflow),
            },
            None => return Err(EngineError::Overflow),
        };
        if value.lt(&needed) {
            return Err(EngineError::InsufficientCollateral);
        }
        let new_parent_minted = match info.minted_stab.checked_add(&stab_to_mint) {
            Some(v) => v,
            None => return Err(EngineError::Overflow),
        };
        let new_circulating = match self.circulating_stab.checked_add(&stab_to_mint) {
            Some(v) => v,
            None => return Err(EngineError::Overflow),
        };
        let share = match new_parent_minted.checked_div(&new_circulating) {
            Some(v) => v,
            None => return Err(EngineError::Overflow),
        };
        let mut new_pool_minted = Decimal::zero();
        let mut over = info.max_stab_share.lt(&share);
        if let Resource::PoolUnit(j) = collateral.resource {
            let pool = self.pool_units[j];
            new_pool_minted = match pool.minted_stab.checked_add(&stab_to_mint) {
                Some(v) => v,
                None => return Err(EngineError::Overflow),
            };
            let pool_share = match new_pool_minted.checked_div(&new_parent_minted) {
                Some(v) => v,
                None => return Err(EngineError::Overflow),
            };
            over = over || pool.max_pool_share.lt(&pool_share);
        }
        if over {
            return Err(EngineError::ShareCapExceeded);
        }
        let cr = match backing.checked_div(&stab_to_mint) {
            Some(v) => v,
            None => return Err(EngineError::Overflow),
        };
        if self.cdps.len() >= usize::MAX - 1 || self.cr_index.entries.len() >= usize::MAX - 1 {
            return Err(EngineError::Overflow);
        }
        let n = self.cr_index.bucket_count(parent, cr);
        if n > 0 && n >= self.parameters.max_vector_length {
            return Err(EngineError::CrWindowFull);
        }
        let cdp = Cdp {
            collateral: collateral.resource,
            parent,
            is_pool_unit: is_pool,
            collateral_amount: collateral.amount,
            minted_stab: stab_to_mint,
            collateral_stab_ratio: cr,
            status: CdpStatus::Healthy,
            marker_id: 0,
        };
        assert(cdp == old(self).opened_cdp(collateral, stab_to_mint));
        let id = self.cdps.len() + 1;
        let ghost old_cdps = self.cdps@;
        let ghost old_cols = self.collaterals@;
        let ghost old_entries = self.cr_index.entries@;
        let mut new_info = info;
        new_info.minted_stab = new_parent_minted;
        self.collaterals.set(parent, new_info);
        if let Resource::PoolUnit(j) = collateral.resource {
            let mut pool = self.pool_units[j];
            pool.minted_stab = new_pool_minted;
            self.pool_units.set(j, pool);
        }
        self.circulating_stab = new_circulating;
        self.cr_index.insert(CrEntry { parent, cr, id, collateral: collateral.resource });
        self.cdps.push(cdp);
        proof {
            lemma_debt_push(old_cdps, cdp);
            lemma_minted_update(old_cols, parent as int, new_info);
            lemma_index_new(old_entries, old_cdps, cdp);
            assert(self.cr_index.entries@ == old_entries.push(entry_of(old_cdps.len() as int, cdp)));
            lemma_marked_new(self.marked@, old_cdps, self.markers@, cdp);
            assert forall|k: int| 0 <= k < self.cdps@.len() implies self.cdp_ok(#[trigger] self.cdps@[k]) by {
                if k < old_cdps.len() {
                    assert(old(self).cdp_ok(old_cdps[k]));
                    assert(self.cdps@[k] == old_cdps[k]);
                    match self.cdps@[k].collateral {
                        Resource::PoolUnit(j) => {
                            assert(self.pool_units@[j as int].parent == old(self).pool_units@[j as int].parent);
                        },
                        _ => {},
                    }
                } else {
                    match cdp.collateral {
                        Resource::PoolUnit(j) => {
                            assert(self.pool_units@[j as int].parent == old(self).pool_units@[j as int].parent);
                        },
                        _ => {},
                    }
                }
            }
            assert forall|j: int| 0 <= j < self.pool_units@.len() implies #[trigger] self.pool_units@[j].parent
                < self.collaterals@.len() by {
                assert(old(self).pool_units@[j].parent < old(self).collaterals@.len());
            }
        }
        self.note_insert(parent, cr, true);
        Ok((Bucket { resource: Resource::Stab, amount: stab_to_mint }, id))
    }

    /// The first check that `close_cdp(id, payment)` fails, if any.
    pub open spec fn close_refusal(&self, id: usize, payment: Bucket) -> Option<EngineError> {
        if !self.has_cdp(id) {
            Some(EngineError::UnknownCdp)
        } else if payment.amount@ < self.cdp(id).minted_stab@ {
            Some(EngineError::InsufficientPayment)
        } else if self.parameters.stop_closings {
            Some(EngineError::OperationDisabled)
        } else if self.cdp(id).status != CdpStatus::Healthy {
            Some(EngineError::NotHealthy)
        } else if payment.resource != Resource::Stab {
            Some(EngineError::WrongResource)
        } else if !self.debts_fit(self.cdp(id).parent, self.cdp(id).collateral, -self.cdp(id).minted_stab@)
            || !fits(payment.amount@ - self.cdp(id).minted_stab@) {
            Some(EngineError::Overflow)
        } else {
            None
        }
    }

    /// `s1` is `s0` with `delta` added to the debt recorded for position
    /// `c`'s parent collateral, for its pool unit if it is one, and to the
    /// circulating supply; every other collateral and pool unit is unchanged.
    /// When `inserted` is `Some(cr)`, the position was re-indexed under `cr`
    /// and the parent's record notes it (see `after_insert`).
    pub open spec fn debts_moved(s0: Stabilis, s1: Stabilis, c: Cdp, delta: int, inserted: Option<Decimal>) -> bool {
        &&& s1.circulating_stab@ == s0.circulating_stab@ + delta
        &&& s1.collaterals@.len() == s0.collaterals@.len()
        &&& forall|i: int| 0 <= i < s0.collaterals@.len() && i != c.parent ==> s1.collaterals@[i] == s0.collaterals@[i]
        &&& s1.collaterals@[c.parent as int] == (CollateralInfo {
            minted_stab: s1.collaterals@[c.parent as int].minted_stab,
            ..match inserted {
                Some(cr) => Stabilis::after_insert(s0.collaterals@[c.parent as int], cr, false),
                None => s0.collaterals@[c.parent as int],
            }
        })
        &&& s1.collaterals@[c.parent as int].minted_stab@ == s0.collaterals@[c.parent as int].minted_stab@ + delta
        &&& Stabilis::pool_debt_moved(s0, s1, c.collateral, delta)
    }

    /// `s1`'s pool units are `s0`'s, with `delta` added to the debt recorded
    /// for pool unit `r` if it is one.
    pub open spec fn pool_debt_moved(s0: Stabilis, s1: Stabilis, r: Resource, delta: int) -> bool {
        &&& s1.pool_units@.len() == s0.pool_units@.len()
        &&& forall|j: int| 0 <= j < s0.pool_units@.len() && r != Resource::PoolUnit(j as usize)
            ==> s1.pool_units@[j] == s0.pool_units@[j]
        &&& match r {
            Resource::PoolUnit(j) => {
                &&& s1.pool_units@[j as int] == (PoolUnitInfo {
                    minted_stab: s1.pool_units@[j as int].minted_stab,
                    ..s0.pool_units@[j as int]
                })
                &&& s1.pool_units@[j as int].minted_stab@ == s0.pool_units@[j as int].minted_stab@ + delta
            },
            _ => true,
        }
    }

    /// What a successful `close_cdp(id, payment)` does, from `s0` to `s1`,
    /// handing out `col` and `left`.
    pub open spec fn close_effect(s0: Stabilis, s1: Stabilis, id: usize, payment: Bucket, col: Bucket, left: Bucket) -> bool {
        let c = s0.cdp(id);
        &&& s0.close_refusal(id, payment).is_none()
        &&& col == (Bucket { resource: c.collateral, amount: c.collateral_amount })
        &&& left == (Bucket { resource: Resource::Stab, amount: Decimal { attos: (payment.amount@ - c.minted_stab@) as i128 } })
        &&& s1.cdps@ == s0.cdps@.update(id - 1, Cdp { status: CdpStatus::Closed, collateral_amount: Decimal { attos: 0 }, ..c })
        &&& s1.cr_index.entries@ == s0.cr_index.entries@.remove(s0.index_pos(id))
        &&& Stabilis::debts_moved(s0, s1, c, -c.minted_stab@, None)
        &&& s1.receipts == s0.receipts
        &&& s1.marker_placing_counter == s0.marker_placing_counter
        &&& s1.internal_stab_price == s0.internal_stab_price
        &&& s1.parameters == s0.parameters
        &&& s1.markers@ == s0.markers@
        &&& s1.marked@ == s0.marked@
    }

    /// Position in the ratio index of the entry of position `id`.
    pub open spec fn index_pos(&self, id: usize) -> int {
        choose|p: int| 0 <= p < self.cr_index.entries@.len() && self.cr_index.entries@[p].id == id
    }

    /// The collateral total of `parent`: the backing, at stored ratio times
    /// debt, of all its live positions; `None` when a sum leaves the range.
    pub fn collateral_amount(&self, parent: usize) -> (r: Option<Decimal>)
        ensures
            r.is_some() <==> collateral_total_fits(self.cdps@, parent),
            match r {
                Some(d) => d@ == collateral_total(self.cdps@, parent),
                None => true,
            },
    {
        let mut total = Decimal::zero();
        let mut i: usize = 0;
        while i < self.cdps.len()
            invariant
                i <= self.cdps@.len(),
                collateral_total_fits(self.cdps@.subrange(0, i as int), parent),
                total@ == collateral_total(self.cdps@.subrange(0, i as int), parent),
            decreases self.cdps@.len() - i,
        {
            let c = self.cdps[i];
            let ghost pre = self.cdps@.subrange(0, i as int);
            let ghost next = self.cdps@.subrange(0, i as int + 1);
            assert(next.drop_last() =~= pre);
            if (c.status == CdpStatus::Healthy || c.status == CdpStatus::Marked) && c.parent == parent {
                let term = match c.collateral_stab_ratio.checked_mul(&c.minted_stab) {
                    Some(v) => v,
                    None => {
                        proof {
                            if collateral_total_fits(self.cdps@, parent) {
                                lemma_total_fits_prefix(self.cdps@, parent, i as int + 1);
                            }
                        }
                        return None;
                    },
                };
                total = match total.checked_add(&term) {
                    Some(v) => v,
                    None => {
                        proof {
                            if collateral_total_fits(self.cdps@, parent) {
                                lemma_total_fits_prefix(self.cdps@, parent, i as int + 1);
                            }
                        }
                        return None;
                    },
                };
            }
            i = i + 1;
        }
        assert(self.cdps@.subrange(0, i as int) =~= self.cdps@);
        Some(total)
    }

    /// Position in the queue of marked positions of the entry of position `id`.
    pub open spec fn queue_pos(&self, id: usize) -> int {
        choose|p: int| 0 <= p < self.marked@.len() && self.marked@[p].id == id
    }

    /// Whether position `id`'s receipt may be burned.
    pub open spec fn receipt_burnable(&self, id: usize) -> bool {
        &&& self.has_cdp(id)
        &&& (self.cdp(id).status == CdpStatus::Liquidated || self.cdp(id).status == CdpStatus::ForceLiquidated
            || self.cdp(id).status == CdpStatus::Closed)
        &&& self.cdp(id).collateral_amount@ == 0
    }

    /// Whether adding `delta` to the debt totals of `parent`, of pool unit `r`
    /// if it is one, and of the circulating supply keeps them in range.
    pub open spec fn debts_fit(&self, parent: usize, r: Resource, delta: int) -> bool {
        &&& fits(self.collaterals@[parent as int].minted_stab@ + delta)
        &&& fits(self.circulating_stab@ + delta)
        &&& match r {
            Resource::PoolUnit(j) => fits(self.pool_units@[j as int].minted_stab@ + delta),
            _ => true,
        }
    }

    /// New debt totals of the parent, of the pool unit if `r` is one, and of
    /// the circulating supply, after adding `delta`.
    pub(crate) fn shifted_debts(&self, parent: usize, r: Resource, delta: Decimal) -> (out: Option<(Decimal, Decimal, Decimal)>)
        requires
            self.wf(),
            parent < self.collaterals@.len(),
            match r {
                Resource::PoolUnit(j) => j < self.pool_units@.len(),
                _ => true,
            },
        ensures
            match out {
                Some((a, b, c)) => {
                    &&& a@ == self.collaterals@[parent as int].minted_stab@ + delta@
                    &&& c@ == self.circulating_stab@ + delta@
                    &&& match r {
                        Resource::PoolUnit(j) => b@ == self.pool_units@[j as int].minted_stab@ + delta@,
                        _ => true,
                    }
                },
                None => !self.debts_fit(parent, r, delta@),
            },
    {
        let a = match self.collaterals[parent].minted_stab.checked_add(&delta) {
            Some(v) => v,
            None => return None,
        };
        let c = match self.circulating_stab.checked_add(&delta) {
            Some(v) => v,
            None => return None,
        };
        let b = match r {
            Resource::PoolUnit(j) => match self.pool_units[j].minted_stab.checked_add(&delta) {
                Some(v) => v,
                None => return None,
            },
            _ => Decimal::zero(),
        };
        Some((a, b, c))
    }

    /// Records new debt totals computed by `shifted_debts`.
    pub(crate) fn set_debts(&mut self, parent: usize, r: Resource, totals: (Decimal, Decimal, Decimal))
        requires
            parent < old(self).collaterals@.len(),
            match r {
                Resource::PoolUnit(j) => j < old(self).pool_units@.len(),
                _ => true,
            },
        ensures
            final(self).collaterals@ == old(self).collaterals@.update(parent as int, CollateralInfo {
                minted_stab: totals.0,
                ..old(self).collaterals@[parent as int]
            }),
            final(self).pool_units@.len() == old(self).pool_units@.len(),
            forall|j: int| 0 <= j < old(self).pool_units@.len() ==> (#[trigger] final(self).pool_units@[j]).parent
                == old(self).pool_units@[j].parent,
            forall|j: int| 0 <= j < old(self).pool_units@.len() && r != Resource::PoolUnit(j as usize)
                ==> final(self).pool_units@[j] == old(self).pool_units@[j],
            match r {
                Resource::PoolUnit(j) => final(self).pool_units@[j as int] == (PoolUnitInfo {
                    minted_stab: totals.1,
                    ..old(self).pool_units@[j as int]
                }),
                _ => true,
            },
            final(self).circulating_stab == totals.2,
            final(self).cdps == old(self).cdps,
            final(self).cr_index == old(self).cr_index,
            final(self).markers == old(self).markers,
            final(self).marked == old(self).marked,
            final(self).receipts == old(self).receipts,
            final(self).internal_stab_price == old(self).internal_stab_price,
            final(self).marker_placing_counter == old(self).marker_placing_counter,
            final(self).parameters == old(self).parameters,
    {
        let mut info = self.collaterals[parent];
        info.minted_stab = totals.0;
        self.collaterals.set(parent, info);
        if let Resource::PoolUnit(j) = r {
            let mut pool = self.pool_units[j];
            pool.minted_stab = totals.1;
            self.pool_units.set(j, pool);
        }
        self.circulating_stab = totals.2;
    }

    /// Closes a healthy position by repaying its whole debt out of `payment`;
    /// returns the collateral and what is left of the payment.
    pub fn close_cdp(&mut self, id: usize, payment: Bucket) -> (r: Result<(Bucket, Bucket), EngineError>)
        requires
            old(self).wf(),
            payment.amount@ >= 0,
        ensures
            final(self).wf(),
            r.is_err() ==> *final(self) == *old(self),
            match old(self).close_refusal(id, payment) {
                Some(e) => r == Err::<(Bucket, Bucket), EngineError>(e),
                None => r.is_ok(),
            },
            match r {
                Ok((col, left)) => Stabilis::close_effect(*old(self), *final(self), id, payment, col, left),
                Err(_) => true,
            },
    {
        if id == 0 || id > self.cdps.len() {
            return Err(EngineError::UnknownCdp);
        }
        let c = self.cdps[id - 1];
        if payment.amount.lt(&c.minted_stab) {
            return Err(EngineError::InsufficientPayment);
        }
        if self.parameters.stop_closings {
            return Err(EngineError::OperationDisabled);
        }
        if c.status != CdpStatus::Healthy {
            return Err(EngineError::NotHealthy);
        }
        if payment.resource != Resource::Stab {
            return Err(EngineError::WrongResource);
        }
        proof {
            assert(self.cdp_ok(self.cdps@[id - 1]));
        }
        let minus = Decimal::from_attos(0 - c.minted_stab.attos);
        let totals = match self.shifted_debts(c.parent, c.collateral, minus) {
            Some(t) => t,
            None => return Err(EngineError::Overflow),
        };
        let left = match payment.amount.checked_sub(&c.minted_stab) {
            Some(v) => v,
            None => return Err(EngineError::Overflow),
        };
        let p = match self.cr_index.find(id) {
            Some(p) => p,
            None => {
                proof {
                    assert(has_id(self.cr_index.entries@, id));
                }
                return Err(EngineError::Overflow);
            },
        };
        let closed = Cdp { status: CdpStatus::Closed, collateral_amount: Decimal::zero(), ..c };
        let ghost s0 = *self;
        proof {
            let q = s0.index_pos(id);
            assert(0 <= q < s0.cr_index.entries@.len() && s0.cr_index.entries@[q].id == id);
            assert(q == p as int);
        }
        self.set_debts(c.parent, c.collateral, totals);
        self.cr_index.remove_at(p);
        self.cdps.set(id - 1, closed);
        proof {
            lemma_debt_update(s0.cdps@, id - 1, closed);
            lemma_minted_update(s0.collaterals@, c.parent as int, self.collaterals@[c.parent as int]);
            lemma_index_remove(s0.cr_index.entries@, s0.cdps@, p as int, closed);
            lemma_marked_set(s0.marked@, s0.cdps@, s0.markers@, id - 1, closed);
            self.lemma_cdps_frame(s0);
        }
        Ok((Bucket { resource: c.collateral, amount: c.collateral_amount }, Bucket { resource: Resource::Stab, amount: left }))
    }

    /// Consistency of every position with the collateral tables survives a
    /// change that keeps pool units' parents and the number of collaterals.
    pub(crate) proof fn lemma_cdps_frame(&self, s0: Stabilis)
        requires
            s0.wf(),
            self.collaterals@.len() == s0.collaterals@.len(),
            self.pool_units@.len() == s0.pool_units@.len(),
            forall|j: int| 0 <= j < s0.pool_units@.len() ==> (#[trigger] self.pool_units@[j]).parent
                == s0.pool_units@[j].parent,
            self.internal_stab_price == s0.internal_stab_price,
            forall|i: int| 0 <= i < s0.collaterals@.len() ==> {
                let x = #[trigger] self.collaterals@[i];
                let x0 = s0.collaterals@[i];
                x.mcr == x0.mcr && x.usd_price == x0.usd_price && x.liquidation_collateral_ratio
                    == x0.liquidation_collateral_ratio
            },
            self.cdps@.len() == s0.cdps@.len(),
            forall|k: int| 0 <= k < self.cdps@.len() ==> {
                let c = #[trigger] self.cdps@[k];
                let c0 = s0.cdps@[k];
                &&& c.parent == c0.parent
                &&& c.collateral == c0.collateral
                &&& c.is_pool_unit == c0.is_pool_unit
                &&& c.collateral_amount@ >= 0
                &&& (is_active(c.status) ==> c.minted_stab@ > 0)
                &&& (c.status == CdpStatus::Closed ==> c.collateral_amount@ == 0)
            },
        ensures
            forall|k: int| 0 <= k < self.cdps@.len() ==> self.cdp_ok(#[trigger] self.cdps@[k]),
            forall|j: int| 0 <= j < self.pool_units@.len() ==> #[trigger] self.pool_units@[j].parent
                < self.collaterals@.len(),
            lcr_coherent(self.collaterals@, self.internal_stab_price@),
    {
        assert forall|i: int| 0 <= i < self.collaterals@.len() implies (#[trigger] self.collaterals@[i]).usd_price@ != 0
            && self.collaterals@[i].liquidation_collateral_ratio@ == lcr_of(
            self.collaterals@[i].mcr@,
            self.internal_stab_price@,
            self.collaterals@[i].usd_price@,
        ) by {
            assert(s0.collaterals@[i].usd_price@ != 0);
        }
        assert forall|k: int| 0 <= k < self.cdps@.len() implies self.cdp_ok(#[trigger] self.cdps@[k]) by {
            assert(s0.cdp_ok(s0.cdps@[k]));
            match self.cdps@[k].collateral {
                Resource::PoolUnit(j) => {
                    assert(self.pool_units@[j as int].parent == s0.pool_units@[j as int].parent);
                },
                _ => {},
            }
        }
        assert forall|j: int| 0 <= j < self.pool_units@.len() implies #[trigger] self.pool_units@[j].parent
            < self.collaterals@.len() by {
            assert(s0.pool_units@[j].parent < s0.collaterals@.len());
        }
    }

    /// Hands out what is left of a liquidated position's collateral.
    pub fn retrieve_leftover_collateral(&mut self, id: usize) -> (r: Result<Bucket, EngineError>)
        requires
            old(self).wf(),
        ensures
            final(self).wf(),
            r.is_err() ==> *final(self) == *old(self),
            r == Err::<Bucket, EngineError>(EngineError::UnknownCdp) <==> !old(self).has_cdp(id),
            old(self).has_cdp(id) ==> {
                let c = old(self).cdp(id);
                let liquidated = c.status == CdpStatus::Liquidated || c.status == CdpStatus::ForceLiquidated;
                &&& (r == Err::<Bucket, EngineError>(EngineError::NotLiquidated) <==> !liquidated)
                &&& (r == Err::<Bucket, EngineError>(EngineError::NoLeftover) <==> liquidated && c.collateral_amount@ <= 0)
                &&& (r == Err::<Bucket, EngineError>(EngineError::OperationDisabled) <==> liquidated
                    && c.collateral_amount@ > 0 && old(self).parameters.stop_closings)
                &&& (r.is_ok() <==> liquidated && c.collateral_amount@ > 0 && !old(self).parameters.stop_closings)
                &&& (r.is_ok() ==> {
                    &&& r == Ok::<Bucket, EngineError>(Bucket { resource: c.collateral, amount: c.collateral_amount })
                    &&& final(self).cdps@ == old(self).cdps@.update(id - 1, Cdp { collateral_amount: Decimal { attos: 0 }, ..c })
                    &&& final(self).receipt_burnable(id)
                    &&& final(self).circulating_stab == old(self).circulating_stab
                    &&& final(self).collaterals == old(self).collaterals
                    &&& final(self).pool_units == old(self).pool_units
                    &&& final(self).cr_index == old(self).cr_index
                    &&& final(self).markers == old(self).markers
                    &&& final(self).marked == old(self).marked
                    &&& final(self).receipts == old(self).receipts
                    &&& final(self).marker_placing_counter == old(self).marker_placing_counter
                    &&& final(self).parameters == old(self).parameters
                    &&& final(self).internal_stab_price == old(self).internal_stab_price
                })
            },
    {
        if id == 0 || id > self.cdps.len() {
            return Err(EngineError::UnknownCdp);
        }
        let c = self.cdps[id - 1];
        if c.status != CdpStatus::Liquidated && c.status != CdpStatus::ForceLiquidated {
            return Err(EngineError::NotLiquidated);
        }
        if c.collateral_amount.attos <= 0 {
            return Err(EngineError::NoLeftover);
        }
        if self.parameters.stop_closings {
            return Err(EngineError::OperationDisabled);
        }
        let emptied = Cdp { collateral_amount: Decimal::zero(), ..c };
        let ghost s0 = *self;
        self.cdps.set(id - 1, emptied);
        proof {
            lemma_debt_update(s0.cdps@, id - 1, emptied);
            lemma_index_set(s0.cr_index.entries@, s0.cdps@, id - 1, emptied);
            lemma_marked_set(s0.marked@, s0.cdps@, s0.markers@, id - 1, emptied);
            self.lemma_cdps_frame(s0);
        }
        Ok(Bucket { resource: c.collateral, amount: c.collateral_amount })
    }

    /// Checks that position `id`'s receipt may be burned: the position is
    /// closed or liquidated and holds no collateral.
    pub fn burn_loan_receipt(&self, id: usize) -> (r: Result<(), EngineError>)
        requires
            self.wf(),
        ensures
            r.is_ok() <==> self.receipt_burnable(id),
            r == Err::<(), EngineError>(EngineError::UnknownCdp) <==> !self.has_cdp(id),
            r.is_err() && self.has_cdp(id) ==> r == Err::<(), EngineError>(EngineError::ReceiptNotBurnable),
    {
        if id == 0 || id > self.cdps.len() {
            return Err(EngineError::UnknownCdp);
        }
        let c = self.cdps[id - 1];
        let terminal = c.status == CdpStatus::Liquidated || c.status == CdpStatus::ForceLiquidated
            || c.status == CdpStatus::Closed;
        if terminal && c.collateral_amount.attos == 0 {
            Ok(())
        } else {
            Err(EngineError::ReceiptNotBurnable)
        }
    }

    /// Position of the entry with the lowest ratio for `parent`.
    pub open spec fn lowest_pos(&self, parent: usize) -> int {
        choose|p: int| is_lowest(self.cr_index.entries@, parent, p)
    }

    /// The first check that `mark_for_liquidation(parent, now)` fails, if any.
    pub open spec fn mark_refusal(&self, parent: usize) -> Option<EngineError> {
        if parent >= self.collaterals@.len() {
            Some(EngineError::NotAccepted)
        } else if !(exists|p: int| is_lowest(self.cr_index.entries@, parent, p)) {
            Some(EngineError::NoLoans)
        } else if self.cr_index.entries@[self.lowest_pos(parent)].cr@ >= self.lcr(parent) {
            Some(EngineError::MarkNotEligible)
        } else if !self.fresh_cr_fits(self.cdp(self.cr_index.entries@[self.lowest_pos(parent)].id))
            || self.marker_placing_counter == u64::MAX || self.markers@.len() >= usize::MAX - 1 {
            Some(EngineError::Overflow)
        } else {
            None
        }
    }

    /// Whether evaluating `fresh_cr(c)` stays in range.
    pub open spec fn fresh_cr_fits(&self, c: Cdp) -> bool {
        fits(self.real_amount(c.collateral, c.collateral_amount@)) && fits(self.fresh_cr(c))
    }

    /// The ratio of position `c` under the current redemption rates.
    pub open spec fn fresh_cr(&self, c: Cdp) -> int {
        div_attos(self.real_amount(c.collateral, c.collateral_amount@), c.minted_stab@)
    }

    /// What a successful `mark_for_liquidation(parent, now)` does, from `s0`
    /// to `s1`, issuing marker `mid`.
    pub open spec fn mark_effect(s0: Stabilis, s1: Stabilis, parent: usize, now: u64, mid: usize) -> bool {
        let p = s0.lowest_pos(parent);
        let id = s0.cr_index.entries@[p].id;
        let c = s0.cdp(id);
        let cr = s0.fresh_cr(c);
        let rest = s0.cr_index.entries@.remove(p);
        let saved = cr > s0.lcr(parent) && bucket_len(rest, parent, cr) < s0.parameters.max_vector_length;
        let placing = (s0.marker_placing_counter + 1) as u64;
        &&& s0.mark_refusal(parent).is_none()
        &&& mid == s0.markers@.len() + 1
        &&& s1.marker_placing_counter == placing
        &&& s1.markers@ == s0.markers@.push(CdpMarker {
            mark_type: if saved { CdpUpdate::Saved } else { CdpUpdate::Marked },
            time_marked: now,
            marked_id: id,
            marker_placing: placing,
            used: false,
        })
        &&& if saved {
            let c1 = Cdp { collateral_stab_ratio: Decimal { attos: cr as i128 }, ..c };
            &&& s1.cdps@ == s0.cdps@.update(id - 1, c1)
            &&& s1.cr_index.entries@ == rest.push(entry_of(id - 1, c1))
            &&& s1.marked@ == s0.marked@
        } else {
            &&& s1.cdps@ == s0.cdps@.update(id - 1, Cdp { status: CdpStatus::Marked, marker_id: mid, ..c })
            &&& s1.cr_index.entries@ == rest
            &&& s1.marked@ == s0.marked@.push(MarkedEntry { placing, id })
        }
        &&& s1.collaterals@ == if saved {
            s0.collaterals@.update(parent as int, Stabilis::after_insert(
                s0.collaterals@[parent as int],
                Decimal { attos: cr as i128 },
                false,
            ))
        } else {
            s0.collaterals@
        }
        &&& s1.pool_units == s0.pool_units
        &&& s1.receipts == s0.receipts
        &&& s1.circulating_stab == s0.circulating_stab
        &&& s1.internal_stab_price == s0.internal_stab_price
        &&& s1.parameters == s0.parameters
    }

    /// Marks the healthy position of `parent` with the lowest stored ratio,
    /// if that ratio is below the liquidation ratio. If its ratio under the
    /// current redemption rate is above the liquidation ratio and its bucket
    /// has room, it is re-indexed instead and the marker says `Saved`.
    /// Returns the new marker's id.
    pub fn mark_for_liquidation(&mut self, parent: usize, now: u64) -> (r: Result<usize, EngineError>)
        requires
            old(self).wf(),
        ensures
            final(self).wf(),
            r.is_err() ==> *final(self) == *old(self),
            match old(self).mark_refusal(parent) {
                Some(e) => r == Err::<usize, EngineError>(e),
                None => r.is_ok(),
            },
            match r {
                Ok(mid) => Stabilis::mark_effect(*old(self), *final(self), parent, now, mid),
                Err(_) => true,
            },
    {
        if parent >= self.collaterals.len() {
            return Err(EngineError::NotAccepted);
        }
        let p = match self.cr_index.lowest(parent) {
            Some(p) => p,
            None => return Err(EngineError::NoLoans),
        };
        let ghost s0 = *self;
        proof {
            assert(is_lowest(s0.cr_index.entries@, parent, p as int));
            self.lemma_lowest_unique(parent, p as int);
        }
        let e = self.cr_index.entries[p];
        let id = e.id;
        let c = self.cdps[id - 1];
        let lcr = self.collaterals[parent].liquidation_collateral_ratio;
        if !c.collateral_stab_ratio.lt(&lcr) {
            return Err(EngineError::MarkNotEligible);
        }
        proof {
            assert(self.cdp_ok(self.cdps@[id - 1]));
        }
        let backing = match self.pool_to_real(c.collateral_amount, c.collateral) {
            Some(v) => v,
            None => return Err(EngineError::Overflow),
        };
        let cr = match backing.checked_div(&c.minted_stab) {
            Some(v) => v,
            None => return Err(EngineError::Overflow),
        };
        if self.marker_placing_counter == u64::MAX || self.markers.len() >= usize::MAX - 1 {
            return Err(EngineError::Overflow);
        }
        let placing = self.marker_placing_counter + 1;
        let mid = self.markers.len() + 1;
        self.cr_index.remove_at(p);
        let ghost rest = self.cr_index.entries@;
        let n = self.cr_index.bucket_count(parent, cr);
        let saved = lcr.lt(&cr) && n < self.parameters.max_vector_length;
        let marker = CdpMarker {
            mark_type: if saved { CdpUpdate::Saved } else { CdpUpdate::Marked },
            time_marked: now,
            marked_id: id,
            marker_placing: placing,
            used: false,
        };
        self.markers.push(marker);
        self.marker_placing_counter = placing;
        proof {
            lemma_markers_frame(s0.marked@, s0.cdps@, s0.markers@, self.markers@, -1);
        }
        if saved {
            let c1 = Cdp { collateral_stab_ratio: cr, ..c };
            let tmp = Cdp { status: CdpStatus::Closed, ..c };
            self.cr_index.insert(CrEntry { parent: c.parent, cr, id, collateral: c.collateral });
            self.cdps.set(id - 1, c1);
            proof {
                lemma_index_remove(s0.cr_index.entries@, s0.cdps@, p as int, tmp);
                lemma_index_add(rest, s0.cdps@.update(id - 1, tmp), id - 1, c1);
                assert(s0.cdps@.update(id - 1, tmp).update(id - 1, c1) =~= self.cdps@);
                lemma_marked_set(s0.marked@, s0.cdps@, self.markers@, id - 1, c1);
                lemma_debt_update(s0.cdps@, id - 1, c1);
            }
        } else {
            let c1 = Cdp { status: CdpStatus::Marked, marker_id: mid, ..c };
            self.marked.push(MarkedEntry { placing, id });
            self.cdps.set(id - 1, c1);
            proof {
                lemma_index_remove(s0.cr_index.entries@, s0.cdps@, p as int, c1);
                lemma_marked_add(s0.marked@, s0.cdps@, self.markers@, id - 1, c1, placing);
                lemma_debt_update(s0.cdps@, id - 1, c1);
            }
        }
        proof {
            self.lemma_cdps_frame(s0);
        }
        if saved {
            self.note_insert(parent, cr, false);
        }
        Ok(mid)
    }

    /// At most one entry is the lowest for a parent.
    pub(crate) proof fn lemma_lowest_unique(&self, parent: usize, p: int)
        requires
            is_lowest(self.cr_index.entries@, parent, p),
        ensures
            self.lowest_pos(parent) == p,
    {
        let q = self.lowest_pos(parent);
        assert(is_lowest(self.cr_index.entries@, parent, q));
        if q < p {
            assert(self.cr_index.entries@[p].cr@ < self.cr_index.entries@[q].cr@);
        } else if p < q {
            assert(self.cr_index.entries@[q].cr@ < self.cr_index.entries@[p].cr@);
        }
    }
}

/// A sequence whose collateral total fits has a prefix whose total fits.
proof fn lemma_total_fits_prefix(s: Seq<Cdp>, parent: usize, n: int)
    requires
        0 <= n <= s.len(),
        collateral_total_fits(s, parent),
    ensures
        collateral_total_fits(s.subrange(0, n), parent),
    decreases s.len(),
{
    if n < s.len() {
        assert(s.drop_last().subrange(0, n) =~= s.subrange(0, n));
        lemma_total_fits_prefix(s.drop_last(), parent, n);
    } else {
        assert(s.subrange(0, n) =~= s);
    }
}

} // verus!
