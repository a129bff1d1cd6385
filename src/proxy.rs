//! The forwarder that owns the engine and the controller: it keeps the
//! oracle's timestamps per collateral, the quote asset's price, and the
//! percentages used by force operations, and keeps the controller's internal
//! price and the engine's in step.

use vstd::prelude::*;
use crate::decimal::{fits, mul_attos, Decimal};
use crate::types::{Bucket, EngineError};
use crate::state::Stabilis;
use crate::controller::{InterestParameters, PegController, StabPriceData};

verus! {

pub struct Proxy {
    pub stabilis: Stabilis,
    pub controller: PegController,
    /// Timestamp of the last price of each collateral, by index.
    pub collateral_timestamps: Vec<u64>,
    /// Index of the collateral that is the pool's quote asset.
    pub xrd: usize,
    /// Price of the quote asset.
    pub xrd_price: Decimal,
    pub percentage_to_supply: Decimal,
    pub percentage_to_take: Decimal,
    pub reward_per_second: Decimal,
}

impl Proxy {
    pub open spec fn wf(&self) -> bool {
        &&& self.stabilis.wf()
        &&& self.controller.wf()
        &&& self.collateral_timestamps@.len() == self.stabilis.collaterals@.len()
        &&& self.xrd < self.stabilis.collaterals@.len()
        &&& self.controller.data.internal_price == self.stabilis.internal_stab_price
    }

    /// `p1` keeps `p0`'s own fields: timestamps, quote asset and its price,
    /// percentages and reward rate.
    pub open spec fn own_fields_unchanged(p0: Proxy, p1: Proxy) -> bool {
        &&& p1.collateral_timestamps == p0.collateral_timestamps
        &&& p1.xrd == p0.xrd
        &&& p1.xrd_price == p0.xrd_price
        &&& p1.percentage_to_supply == p0.percentage_to_supply
        &&& p1.percentage_to_take == p0.percentage_to_take
        &&& p1.reward_per_second == p0.reward_per_second
    }

    /// A forwarder over `stabilis`, whose collateral `xrd` is the pool's quote
    /// asset, priced at `xrd_price`, with all timestamps at `now`.
    pub fn new(stabilis: Stabilis, xrd: usize, xrd_price: Decimal, now: u64) -> (r: Result<Proxy, EngineError>)
        requires
            stabilis.wf(),
        ensures
            r.is_ok() <==> xrd < stabilis.collaterals@.len(),
            match r {
                Ok(p) => {
                    &&& p.wf()
                    &&& p.stabilis == stabilis
                    &&& p.xrd_price == xrd_price
                    &&& forall|i: int| 0 <= i < p.collateral_timestamps@.len() ==> p.collateral_timestamps@[i] == now
                    &&& p.controller.data.interest_rate@ == crate::decimal::scale()
                    &&& p.controller.number_of_cached_prices == 50
                },
                Err(e) => e == EngineError::NotAccepted,
            },
    {
        if xrd >= stabilis.collaterals.len() {
            return Err(EngineError::NotAccepted);
        }
        let mut stamps: Vec<u64> = Vec::new();
        let mut i: usize = 0;
        while i < stabilis.collaterals.len()
            invariant
                i <= stabilis.collaterals@.len(),
                stamps@.len() == i,
                forall|j: int| 0 <= j < i ==> stamps@[j] == now,
            decreases stabilis.collaterals@.len() - i,
        {
            stamps.push(now);
            i = i + 1;
        }
        let controller = PegController::new(stabilis.internal_stab_price, now, 50);
        Ok(Proxy {
            stabilis,
            controller,
            collateral_timestamps: stamps,
            xrd,
            xrd_price,
            percentage_to_supply: Decimal::from_attos(1_050_000_000_000_000_000),
            percentage_to_take: Decimal::from_attos(950_000_000_000_000_000),
            reward_per_second: Decimal::from_attos(20_000_000_000_000_000),
        })
    }

    /// Registers a collateral with the engine, its timestamp at `now`.
    pub fn add_collateral(&mut self, address: u64, mcr: Decimal, initial_price: Decimal, now: u64) -> (r: Result<usize, EngineError>)
        requires
            old(self).wf(),
        ensures
            final(self).wf(),
            r.is_err() ==> *final(self) == *old(self),
            r == Err::<usize, EngineError>(EngineError::AlreadyAccepted) <==> old(self).stabilis.collateral_address_taken(address),
            !old(self).stabilis.collateral_address_taken(address) ==> (r.is_ok()
                <==> old(self).stabilis.add_collateral_fits(mcr, initial_price)),
            match r {
                Ok(i) => {
                    &&& Stabilis::add_collateral_effect(old(self).stabilis, final(self).stabilis, address, mcr, initial_price, i)
                    &&& final(self).collateral_timestamps@ == old(self).collateral_timestamps@.push(now)
                    &&& final(self).controller == old(self).controller
                    &&& final(self).xrd == old(self).xrd
                    &&& final(self).xrd_price == old(self).xrd_price
                },
                Err(_) => true,
            },
    {
        let i = match self.stabilis.add_collateral(address, mcr, initial_price) {
            Ok(i) => i,
            Err(e) => return Err(e),
        };
        self.collateral_timestamps.push(now);
        Ok(i)
    }

    /// Records an oracle price of collateral `asset` stamped `timestamp`, and
    /// returns by how many seconds it is newer than the last one. An unknown
    /// asset is skipped (0 seconds, nothing changes); a price not newer than
    /// the recorded one is refused.
    pub fn record_price(&mut self, asset: usize, price: Decimal, timestamp: u64) -> (r: Result<u64, EngineError>)
        requires
            old(self).wf(),
        ensures
            final(self).wf(),
            r.is_err() ==> *final(self) == *old(self),
            asset >= old(self).collateral_timestamps@.len() ==> r == Ok::<u64, EngineError>(0) && *final(self) == *old(self),
            asset < old(self).collateral_timestamps@.len() ==> {
                let stored = old(self).collateral_timestamps@[asset as int];
                &&& (timestamp <= stored ==> r == Err::<u64, EngineError>(EngineError::OracleStale))
                &&& (timestamp > stored ==> (r.is_ok() <==> old(self).stabilis.price_fits(asset, price)))
                &&& (timestamp > stored && !old(self).stabilis.price_fits(asset, price) ==> r
                    == Err::<u64, EngineError>(EngineError::Overflow))
                &&& (r.is_ok() ==> {
                    &&& timestamp > stored
                    &&& r == Ok::<u64, EngineError>((timestamp - stored) as u64)
                    &&& Stabilis::price_effect(old(self).stabilis, final(self).stabilis, asset, price)
                    &&& final(self).collateral_timestamps@ == old(self).collateral_timestamps@.update(asset as int, timestamp)
                    &&& final(self).xrd_price == if asset == old(self).xrd { price } else { old(self).xrd_price }
                    &&& final(self).xrd == old(self).xrd
                    &&& final(self).controller == old(self).controller
                })
            },
    {
        if asset >= self.collateral_timestamps.len() {
            return Ok(0);
        }
        let stored = self.collateral_timestamps[asset];
        if timestamp <= stored {
            return Err(EngineError::OracleStale);
        }
        match self.stabilis.change_collateral_price(asset, price) {
            Ok(()) => {},
            Err(e) => return Err(e),
        }
        if asset == self.xrd {
            self.xrd_price = price;
        }
        self.collateral_timestamps.set(asset, timestamp);
        Ok(timestamp - stored)
    }

    /// One controller tick at `now` with STAB's pool price (see
    /// `PegController::update_rate`); returns the minutes by which the
    /// internal price is then to compound, if any.
    pub fn update_rate(&mut self, now: u64, pool_price: Decimal) -> (r: Result<Option<Decimal>, EngineError>)
        requires
            old(self).wf(),
        ensures
            final(self).wf(),
            r.is_err() ==> *final(self) == *old(self),
            r.is_err() <==> old(self).controller.tick_due(now) && !old(self).controller.tick_fits(
                now,
                pool_price@,
                old(self).xrd_price@,
            ),
            r == Ok::<Option<Decimal>, EngineError>(None) <==> !old(self).controller.tick_due(now),
            r == Ok::<Option<Decimal>, EngineError>(None) ==> *final(self) == *old(self),
            match r {
                Ok(Some(minutes)) => PegController::tick_effect(
                    old(self).controller,
                    final(self).controller,
                    now,
                    pool_price@,
                    old(self).xrd_price@,
                    minutes,
                ),
                _ => true,
            },
            final(self).stabilis == old(self).stabilis,
            Proxy::own_fields_unchanged(*old(self), *final(self)),
    {
        let x = self.xrd_price;
        self.controller.update_rate(now, pool_price, x)
    }

    /// Grows the internal price by `growth` (the interest rate raised to the
    /// minutes of the last tick) in the controller and in the engine, which
    /// recomputes every liquidation ratio; returns the new internal price.
    pub fn apply_growth(&mut self, growth: Decimal) -> (r: Result<Decimal, EngineError>)
        requires
            old(self).wf(),
        ensures
            final(self).wf(),
            r.is_err() ==> *final(self) == *old(self),
            r.is_ok() <==> {
                let price = mul_attos(old(self).stabilis.internal_stab_price@, growth@);
                fits(price) && old(self).stabilis.internal_price_fits(Decimal { attos: price as i128 })
            },
            r.is_err() ==> r == Err::<Decimal, EngineError>(EngineError::Overflow),
            r.is_ok() ==> {
                let price = Decimal { attos: mul_attos(old(self).stabilis.internal_stab_price@, growth@) as i128 };
                &&& r == Ok::<Decimal, EngineError>(price)
                &&& Stabilis::internal_price_effect(old(self).stabilis, final(self).stabilis, price)
                &&& final(self).controller == (PegController {
                    data: StabPriceData { internal_price: price, ..old(self).controller.data },
                    ..old(self).controller
                })
            },
            Proxy::own_fields_unchanged(*old(self), *final(self)),
    {
        let ghost c0 = self.controller;
        let price = match self.controller.compound(growth) {
            Ok(p) => p,
            Err(e) => return Err(e),
        };
        match self.stabilis.change_internal_price(price) {
            Ok(()) => Ok(price),
            Err(e) => {
                let old_price = self.stabilis.internal_stab_price;
                self.controller.data.internal_price = old_price;
                proof {
                    assert(self.controller.data == c0.data);
                    assert(self.controller == c0);
                }
                Err(e)
            },
        }
    }

    /// Force-liquidates the lowest-ratio position of `parent` with the
    /// forwarder's percentage to take, only above the liquidation ratio.
    pub fn force_liquidate(&mut self, parent: usize, payment: Bucket) -> (r: Result<(Bucket, Bucket), EngineError>)
        requires
            old(self).wf(),
            payment.amount@ >= 0,
        ensures
            final(self).wf(),
            r.is_err() ==> *final(self) == *old(self),
            match old(self).stabilis.force_liquidate_refusal(parent, payment, old(self).percentage_to_take, true) {
                Some(e) => r == Err::<(Bucket, Bucket), EngineError>(e),
                None => r.is_ok(),
            },
            match r {
                Ok((col, change)) => Stabilis::force_liquidate_effect(
                    old(self).stabilis,
                    final(self).stabilis,
                    parent,
                    payment,
                    old(self).percentage_to_take,
                    true,
                    col,
                    change,
                ),
                Err(_) => true,
            },
            final(self).controller == old(self).controller,
            Proxy::own_fields_unchanged(*old(self), *final(self)),
    {
        let take = self.percentage_to_take;
        self.stabilis.force_liquidate(parent, payment, take, true)
    }

    /// Force-mints against the highest-ratio position of `parent` holding the
    /// payment's resource, with the forwarder's percentage to supply.
    pub fn force_mint(&mut self, parent: usize, payment: Bucket) -> (r: Result<(Bucket, Option<Bucket>), EngineError>)
        requires
            old(self).wf(),
            payment.amount@ >= 0,
        ensures
            final(self).wf(),
            r.is_err() ==> *final(self) == *old(self),
            match old(self).stabilis.force_mint_refusal(parent, payment, old(self).percentage_to_supply) {
                Some(e) => r == Err::<(Bucket, Option<Bucket>), EngineError>(e),
                None => r.is_ok(),
            },
            match r {
                Ok((stab_out, excess)) => Stabilis::force_mint_effect(
                    old(self).stabilis,
                    final(self).stabilis,
                    parent,
                    payment,
                    old(self).percentage_to_supply,
                    stab_out,
                    excess,
                ),
                Err(_) => true,
            },
            final(self).controller == old(self).controller,
            Proxy::own_fields_unchanged(*old(self), *final(self)),
    {
        let pct = self.percentage_to_supply;
        self.stabilis.force_mint(parent, payment, pct)
    }

    /// Sets the percentages used by force-mint and force-liquidation.
    pub fn set_force_mint_liq_percentage(&mut self, to_supply: Decimal, to_take: Decimal)
        requires
            old(self).wf(),
        ensures
            final(self).wf(),
            final(self).percentage_to_supply == to_supply,
            final(self).percentage_to_take == to_take,
            final(self).stabilis == old(self).stabilis,
    {
        self.percentage_to_supply = to_supply;
        self.percentage_to_take = to_take;
    }

    /// Sets the reward paid per second of fresher prices.
    pub fn set_reward_per_second(&mut self, per_second: Decimal)
        requires
            old(self).wf(),
        ensures
            final(self).wf(),
            final(self).reward_per_second == per_second,
            final(self).stabilis == old(self).stabilis,
    {
        self.reward_per_second = per_second;
    }

    /// The internal price of STAB.
    pub fn get_internal_price(&self) -> (r: Decimal)
        requires
            self.wf(),
        ensures
            r == self.stabilis.internal_stab_price,
            r == self.controller.data.internal_price,
    {
        self.stabilis.internal_stab_price
    }

    /// Sets the controller's cap on the price error and its multiplier on
    /// the market price.
    pub fn set_price_error(&mut self, max_error: Decimal, offset: Decimal)
        requires
            old(self).wf(),
        ensures
            final(self).wf(),
            final(self).controller.parameters == (InterestParameters {
                max_price_error: max_error,
                price_error_offset: offset,
                ..old(self).controller.parameters
            }),
            final(self).stabilis == old(self).stabilis,
    {
        self.controller.set_price_error(max_error, offset);
    }

    /// Sets the fraction of the internal price within which errors move nothing.
    pub fn set_allowed_deviation(&mut self, deviation: Decimal)
        requires
            old(self).wf(),
        ensures
            final(self).wf(),
            final(self).controller.parameters == (InterestParameters { allowed_deviation: deviation, ..old(self).controller.parameters }),
            final(self).stabilis == old(self).stabilis,
    {
        self.controller.set_allowed_deviation(deviation);
    }

    /// Sets the capacity of the controller's window of price errors and
    /// empties it.
    pub fn set_number_of_prices_cached(&mut self, n: usize) -> (r: Result<(), EngineError>)
        requires
            old(self).wf(),
        ensures
            final(self).wf(),
            r.is_err() <==> !(1 <= n < usize::MAX),
            r.is_ok() ==> final(self).controller.number_of_cached_prices == n
                && final(self).controller.data.latest_stab_price_errors@.len() == 0,
            final(self).stabilis == old(self).stabilis,
    {
        self.controller.set_number_of_prices_cached(n)
    }

    /// Sets the bounds of the interest rate.
    pub fn set_minmax_interest(&mut self, min_rate: Decimal, max_rate: Decimal)
        requires
            old(self).wf(),
        ensures
            final(self).wf(),
            final(self).controller.parameters.min_interest_rate == min_rate,
            final(self).controller.parameters.max_interest_rate == max_rate,
            final(self).stabilis == old(self).stabilis,
    {
        self.controller.set_minmax_interest(min_rate, max_rate);
    }

    /// Sets the minutes between controller ticks.
    pub fn set_update_delays(&mut self, minutes: u64)
        requires
            old(self).wf(),
        ensures
            final(self).wf(),
            final(self).controller.update_delay == minutes,
            final(self).stabilis == old(self).stabilis,
    {
        self.controller.set_update_delays(minutes);
    }

    /// Sets the controller's integral and proportional gains.
    pub fn set_ks(&mut self, ki: Decimal, kp: Decimal)
        requires
            old(self).wf(),
        ensures
            final(self).wf(),
            final(self).controller.parameters.ki == ki,
            final(self).controller.parameters.kp == kp,
            final(self).stabilis == old(self).stabilis,
    {
        self.controller.set_ks(ki, kp);
    }

    /// Sets STAB's internal price in the engine, which recomputes every
    /// liquidation ratio, and in the controller.
    pub fn change_internal_price(&mut self, new_price: Decimal) -> (r: Result<(), EngineError>)
        requires
            old(self).wf(),
        ensures
            final(self).wf(),
            r.is_err() ==> *final(self) == *old(self) && r == Err::<(), EngineError>(EngineError::Overflow),
            r.is_ok() <==> old(self).stabilis.internal_price_fits(new_price),
            r.is_ok() ==> {
                &&& Stabilis::internal_price_effect(old(self).stabilis, final(self).stabilis, new_price)
                &&& final(self).controller == (PegController {
                    data: StabPriceData { internal_price: new_price, ..old(self).controller.data },
                    ..old(self).controller
                })
            },
            Proxy::own_fields_unchanged(*old(self), *final(self)),
    {
        match self.stabilis.change_internal_price(new_price) {
            Ok(()) => {},
            Err(e) => return Err(e),
        }
        self.controller.data.internal_price = new_price;
        Ok(())
    }
}

} // verus!
