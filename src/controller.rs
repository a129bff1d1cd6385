//! The peg controller: a PID-style loop that reads STAB's market price,
//! keeps a bounded window of price errors with a cached sum, and moves the
//! interest rate by which the internal price compounds.

use vstd::prelude::*;
use crate::decimal::{div_attos, fits, mul_attos, scale, Decimal, ONE_ATTOS};
use crate::types::EngineError;

verus! {

/// Gains and bounds of the controller.
#[derive(Clone, Copy, Debug, PartialEq, Eq, Structural)]
pub struct InterestParameters {
    pub kp: Decimal,
    pub ki: Decimal,
    pub max_interest_rate: Decimal,
    pub min_interest_rate: Decimal,
    /// Fraction of the internal price below which an error moves nothing.
    pub allowed_deviation: Decimal,
    /// Largest price error taken into account.
    pub max_price_error: Decimal,
    /// Multiplier on the market price.
    pub price_error_offset: Decimal,
}

/// The controller's state.
pub struct StabPriceData {
    /// The latest price errors; slot `k` holds the error of key `k + 1`.
    pub latest_stab_price_errors: Vec<Decimal>,
    /// Sum of the latest price errors.
    pub latest_stab_price_errors_total: Decimal,
    /// Seconds since the epoch at the last update.
    pub last_update: u64,
    /// Key of the last error written.
    pub last_changed_price: usize,
    pub internal_price: Decimal,
    /// Whether the window has wrapped.
    pub full_cache: bool,
    /// Per-minute interest rate.
    pub interest_rate: Decimal,
}

pub struct PegController {
    pub parameters: InterestParameters,
    pub data: StabPriceData,
    /// Capacity of the window of price errors.
    pub number_of_cached_prices: usize,
    /// Minutes between updates.
    pub update_delay: u64,
}

/// Sum of a sequence of decimals.
pub open spec fn sum_of(s: Seq<Decimal>) -> int
    decreases s.len(),
{
    if s.len() == 0 { 0 } else { sum_of(s.drop_last()) + s.last()@ }
}

proof fn lemma_sum_push(s: Seq<Decimal>, d: Decimal)
    ensures
        sum_of(s.push(d)) == sum_of(s) + d@,
{
    assert(s.push(d).drop_last() =~= s);
}

proof fn lemma_sum_update(s: Seq<Decimal>, k: int, d: Decimal)
    requires
        0 <= k < s.len(),
    ensures
        sum_of(s.update(k, d)) == sum_of(s) - s[k]@ + d@,
    decreases s.len(),
{
    let t = s.update(k, d);
    if k == s.len() - 1 {
        assert(t.drop_last() =~= s.drop_last());
    } else {
        assert(t.drop_last() =~= s.drop_last().update(k, d));
        lemma_sum_update(s.drop_last(), k, d);
    }
}

/// The price error of market price `pool_price * xrd_price * offset` against
/// `internal`, capped above at `max_error`.
pub open spec fn price_error_of(pool_price: int, xrd_price: int, offset: int, internal: int, max_error: int) -> int {
    let e = mul_attos(mul_attos(pool_price, xrd_price), offset) - internal;
    if e > max_error { max_error } else { e }
}

/// The interest rate after an error `err` with window sum `total` over `n`
/// slots, `minutes` after the last update:
/// `rate - (kp * err / internal + ki * total / (internal * n)) * minutes`,
/// kept within `[min, max]`, when `|err|` exceeds the allowed deviation of
/// the internal price; `rate` otherwise.
pub open spec fn next_rate(p: InterestParameters, rate: int, internal: int, err: int, total: int, n: int, minutes: int) -> int {
    let abs_err = if err >= 0 { err } else { -err };
    if abs_err > mul_attos(p.allowed_deviation@, internal) {
        let drift = mul_attos(p.kp@, div_attos(err, internal)) + mul_attos(
            p.ki@,
            div_attos(total, mul_attos(internal, n * scale())),
        );
        let r = rate - mul_attos(drift, minutes);
        if r > p.max_interest_rate@ {
            p.max_interest_rate@
        } else if r < p.min_interest_rate@ {
            p.min_interest_rate@
        } else {
            r
        }
    } else {
        rate
    }
}

impl PegController {
    /// The window holds as many errors as keys written since it was last
    /// emptied, at most its capacity, and the cached sum is their sum.
    pub open spec fn wf(&self) -> bool {
        let d = self.data;
        &&& 1 <= self.number_of_cached_prices < usize::MAX
        &&& d.last_changed_price <= self.number_of_cached_prices
        &&& d.latest_stab_price_errors@.len() == if d.full_cache {
            self.number_of_cached_prices as int
        } else {
            d.last_changed_price as int
        }
        &&& d.full_cache ==> d.last_changed_price >= 1
        &&& d.latest_stab_price_errors_total@ == sum_of(d.latest_stab_price_errors@)
    }

    /// A controller at internal price `internal_price`, last updated at `now`,
    /// with rate 1, an empty window of `n` slots and the default gains.
    pub fn new(internal_price: Decimal, now: u64, n: usize) -> (r: PegController)
        requires
            1 <= n < usize::MAX,
        ensures
            r.wf(),
            r.data.internal_price == internal_price,
            r.data.interest_rate@ == scale(),
            r.data.last_update == now,
            r.data.latest_stab_price_errors@.len() == 0,
            r.number_of_cached_prices == n,
            r.update_delay == 1,
    {
        PegController {
            parameters: InterestParameters {
                kp: Decimal::from_attos(765_178_570),
                ki: Decimal::from_attos(765_178_570),
                max_interest_rate: Decimal::from_attos(1_000_000_771_500_000_000),
                min_interest_rate: Decimal::from_attos(999_999_228_700_000_000),
                allowed_deviation: Decimal::from_attos(5_000_000_000_000_000),
                max_price_error: Decimal::from_attos(500_000_000_000_000_000),
                price_error_offset: Decimal::one(),
            },
            data: StabPriceData {
                latest_stab_price_errors: Vec::new(),
                latest_stab_price_errors_total: Decimal::zero(),
                last_update: now,
                last_changed_price: 0,
                internal_price,
                full_cache: false,
                interest_rate: Decimal::one(),
            },
            number_of_cached_prices: n,
            update_delay: 1,
        }
    }

    /// The key the next price error is written to.
    pub open spec fn next_key(&self) -> int {
        if self.data.last_changed_price >= self.number_of_cached_prices { 1 } else { self.data.last_changed_price + 1 }
    }

    /// The error the next write evicts from the window, zero if none.
    pub open spec fn evicted(&self) -> int {
        if self.data.full_cache || self.data.last_changed_price >= self.number_of_cached_prices {
            self.data.latest_stab_price_errors@[self.next_key() - 1]@
        } else {
            0
        }
    }

    /// The window's sum once `err` is written, `None` if it leaves the range.
    fn total_after(&self, err: Decimal) -> (r: Option<Decimal>)
        requires
            self.wf(),
        ensures
            match r {
                Some(t) => t@ == self.data.latest_stab_price_errors_total@ + err@ - self.evicted(),
                None => !fits(self.data.latest_stab_price_errors_total@ + err@ - self.evicted()),
            },
    {
        let n = self.number_of_cached_prices;
        let wraps = self.data.last_changed_price >= n;
        let key: usize = if wraps { 1 } else { self.data.last_changed_price + 1 };
        let out = if self.data.full_cache || wraps { self.data.latest_stab_price_errors[key - 1] } else { Decimal::zero() };
        match self.data.latest_stab_price_errors_total.checked_add(&err) {
            Some(v) => v.checked_sub(&out),
            None => {
                let t = self.data.latest_stab_price_errors_total.checked_sub(&out);
                match t {
                    Some(w) => w.checked_add(&err),
                    None => None,
                }
            },
        }
    }

    /// Records price error `err` in the window: the next key in turn,
    /// wrapping to key 1 after the capacity, replacing the error it held.
    pub fn push_price_error(&mut self, err: Decimal) -> (r: Result<(), ()>)
        requires
            old(self).wf(),
        ensures
            final(self).wf(),
            r.is_err() ==> *final(self) == *old(self),
            r.is_ok() <==> fits(old(self).data.latest_stab_price_errors_total@ + err@ - old(self).evicted()),
            r.is_ok() ==> {
                let d0 = old(self).data;
                let d1 = final(self).data;
                let wraps = d0.last_changed_price >= old(self).number_of_cached_prices;
                let key = if wraps { 1 } else { d0.last_changed_price + 1 };
                &&& d1.last_changed_price == key
                &&& d1.full_cache == (d0.full_cache || wraps)
                &&& d1.latest_stab_price_errors@ == if d1.full_cache && d0.full_cache || wraps {
                    d0.latest_stab_price_errors@.update(key - 1, err)
                } else {
                    d0.latest_stab_price_errors@.push(err)
                }
                &&& d1.latest_stab_price_errors@[key - 1] == err
                &&& d1.latest_stab_price_errors_total@ == d0.latest_stab_price_errors_total@ + err@ - old(self).evicted()
                &&& d1.internal_price == d0.internal_price
                &&& d1.interest_rate == d0.interest_rate
                &&& d1.last_update == d0.last_update
                &&& final(self).parameters == old(self).parameters
                &&& final(self).number_of_cached_prices == old(self).number_of_cached_prices
                &&& final(self).update_delay == old(self).update_delay
            },
    {
        let n = self.number_of_cached_prices;
        let wraps = self.data.last_changed_price >= n;
        let key: usize = if wraps { 1 } else { self.data.last_changed_price + 1 };
        let full = self.data.full_cache || wraps;
        let ghost e0 = self.data.latest_stab_price_errors@;
        let total = match self.total_after(err) {
            Some(t) => t,
            None => return Err(()),
        };
        if full {
            self.data.latest_stab_price_errors.set(key - 1, err);
            self.data.latest_stab_price_errors_total = total;
            proof {
                lemma_sum_update(e0, key - 1, err);
            }
        } else {
            self.data.latest_stab_price_errors.push(err);
            self.data.latest_stab_price_errors_total = total;
            proof {
                lemma_sum_push(e0, err);
            }
        }
        self.data.full_cache = full;
        self.data.last_changed_price = key;
        Ok(())
    }
    /// Minutes, as a decimal, from `since` to `now` seconds.
    pub open spec fn minutes_between(since: u64, now: u64) -> int {
        (now - since) * scale() / 60
    }

    /// Whether a tick at `now` changes anything: `update_delay` minutes have
    /// passed since the last one.
    pub open spec fn tick_due(&self, now: u64) -> bool {
        now >= self.data.last_update && PegController::minutes_between(self.data.last_update, now)
            >= self.update_delay * scale()
    }

    /// Whether every quantity a tick at `now` computes stays in range.
    pub open spec fn tick_fits(&self, now: u64, pool_price: int, xrd_price: int) -> bool {
        let p = self.parameters;
        let d = self.data;
        let quote = mul_attos(pool_price, xrd_price);
        let market = mul_attos(quote, p.price_error_offset@);
        let err = price_error_of(pool_price, xrd_price, p.price_error_offset@, d.internal_price@, p.max_price_error@);
        let total = d.latest_stab_price_errors_total@ + err - self.evicted();
        &&& fits(quote)
        &&& fits(market)
        &&& fits(market - d.internal_price@)
        &&& fits(total)
        &&& rate_fits(p, d.interest_rate@, d.internal_price@, err, total, self.number_of_cached_prices as int,
            PegController::minutes_between(d.last_update, now))
    }

    /// What a tick at `now` with prices `pool_price` and `xrd_price` that
    /// returns `minutes` does, from `c0` to `c1`: the capped error goes to the
    /// next key of the window, the sum follows, the rate moves as `next_rate`
    /// says, the tick time becomes `now`; nothing else changes.
    pub open spec fn tick_effect(c0: PegController, c1: PegController, now: u64, pool_price: int, xrd_price: int, minutes: Decimal) -> bool {
        let d0 = c0.data;
        let d1 = c1.data;
        let p = c0.parameters;
        let err = price_error_of(pool_price, xrd_price, p.price_error_offset@, d0.internal_price@, p.max_price_error@);
        let wraps = d0.last_changed_price >= c0.number_of_cached_prices;
        let key = c0.next_key();
        let e = Decimal { attos: err as i128 };
        &&& c0.tick_due(now)
        &&& minutes@ == PegController::minutes_between(d0.last_update, now)
        &&& c1 == (PegController {
            data: StabPriceData {
                latest_stab_price_errors: d1.latest_stab_price_errors,
                latest_stab_price_errors_total: d1.latest_stab_price_errors_total,
                last_changed_price: key as usize,
                full_cache: d0.full_cache || wraps,
                interest_rate: d1.interest_rate,
                last_update: now,
                ..d0
            },
            ..c0
        })
        &&& d1.latest_stab_price_errors@ == if d0.full_cache || wraps {
            d0.latest_stab_price_errors@.update(key - 1, e)
        } else {
            d0.latest_stab_price_errors@.push(e)
        }
        &&& d1.latest_stab_price_errors_total@ == d0.latest_stab_price_errors_total@ + err - c0.evicted()
        &&& d1.interest_rate@ == next_rate(p, d0.interest_rate@, d0.internal_price@, err,
            d1.latest_stab_price_errors_total@, c0.number_of_cached_prices as int, minutes@)
    }

    /// Runs one tick of the controller at `now` (seconds), given STAB's
    /// price in the pool's quote asset and that asset's price. Before
    /// `update_delay` minutes have passed since the last tick nothing changes
    /// and `None` is returned. Otherwise the capped price error is recorded in
    /// the window, the interest rate moves (see `next_rate`), the tick time
    /// becomes `now`, and the elapsed minutes are returned: the internal price
    /// is then to grow by `interest_rate ^ minutes` through `compound`.
    pub fn update_rate(&mut self, now: u64, pool_price: Decimal, xrd_price: Decimal) -> (r: Result<Option<Decimal>, EngineError>)
        requires
            old(self).wf(),
        ensures
            final(self).wf(),
            r.is_err() ==> *final(self) == *old(self) && r == Err::<Option<Decimal>, EngineError>(EngineError::Overflow),
            r.is_err() <==> old(self).tick_due(now) && !old(self).tick_fits(now, pool_price@, xrd_price@),
            r == Ok::<Option<Decimal>, EngineError>(None) <==> !old(self).tick_due(now),
            r == Ok::<Option<Decimal>, EngineError>(None) ==> *final(self) == *old(self),
            match r {
                Ok(Some(minutes)) => PegController::tick_effect(*old(self), *final(self), now, pool_price@, xrd_price@, minutes),
                _ => true,
            },
    {
        if now < self.data.last_update {
            return Ok(None);
        }
        let secs = now - self.data.last_update;
        let minutes = Decimal::from_attos((secs as i128) * ONE_ATTOS / 60);
        let delay = Decimal::from_attos((self.update_delay as i128) * ONE_ATTOS);
        if minutes.lt(&delay) {
            return Ok(None);
        }
        let p = self.parameters;
        let market = match pool_price.checked_mul(&xrd_price) {
            Some(v) => match v.checked_mul(&p.price_error_offset) {
                Some(w) => w,
                None => return Err(EngineError::Overflow),
            },
            None => return Err(EngineError::Overflow),
        };
        let mut err = match market.checked_sub(&self.data.internal_price) {
            Some(v) => v,
            None => return Err(EngineError::Overflow),
        };
        if p.max_price_error.lt(&err) {
            err = p.max_price_error;
        }
        let total = match self.total_after(err) {
            Some(t) => t,
            None => return Err(EngineError::Overflow),
        };
        let rate = match next_interest_rate(
            p,
            self.data.interest_rate,
            self.data.internal_price,
            err,
            total,
            self.number_of_cached_prices,
            minutes,
        ) {
            Some(r) => r,
            None => return Err(EngineError::Overflow),
        };
        match self.push_price_error(err) {
            Ok(()) => {},
            Err(()) => return Err(EngineError::Overflow),
        }
        self.data.interest_rate = rate;
        self.data.last_update = now;
        Ok(Some(minutes))
    }

    /// Multiplies the internal price by `growth`, the interest rate raised to
    /// the minutes elapsed at the last tick; returns the new internal price.
    pub fn compound(&mut self, growth: Decimal) -> (r: Result<Decimal, EngineError>)
        requires
            old(self).wf(),
        ensures
            final(self).wf(),
            r.is_err() ==> *final(self) == *old(self) && r == Err::<Decimal, EngineError>(EngineError::Overflow),
            r.is_ok() <==> fits(mul_attos(old(self).data.internal_price@, growth@)),
            r.is_ok() ==> {
                &&& r == Ok::<Decimal, EngineError>(final(self).data.internal_price)
                &&& final(self).data.internal_price@ == mul_attos(old(self).data.internal_price@, growth@)
                &&& *final(self) == (PegController {
                    data: StabPriceData { internal_price: final(self).data.internal_price, ..old(self).data },
                    ..*old(self)
                })
            },
    {
        let price = match self.data.internal_price.checked_mul(&growth) {
            Some(v) => v,
            None => return Err(EngineError::Overflow),
        };
        self.data.internal_price = price;
        Ok(price)
    }

    /// Sets the window's capacity and empties it.
    pub fn set_number_of_prices_cached(&mut self, n: usize) -> (r: Result<(), EngineError>)
        requires
            old(self).wf(),
        ensures
            final(self).wf(),
            r.is_err() <==> !(1 <= n < usize::MAX),
            r.is_err() ==> *final(self) == *old(self),
            r.is_ok() ==> {
                &&& final(self).number_of_cached_prices == n
                &&& final(self).data.latest_stab_price_errors@.len() == 0
                &&& final(self).data.latest_stab_price_errors_total@ == 0
                &&& final(self).data.last_changed_price == 0
                &&& !final(self).data.full_cache
                &&& final(self).data.internal_price == old(self).data.internal_price
                &&& final(self).data.interest_rate == old(self).data.interest_rate
            },
    {
        if n == 0 || n == usize::MAX {
            return Err(EngineError::Overflow);
        }
        self.number_of_cached_prices = n;
        self.data.latest_stab_price_errors = Vec::new();
        self.data.latest_stab_price_errors_total = Decimal::zero();
        self.data.last_changed_price = 0;
        self.data.full_cache = false;
        Ok(())
    }

    /// Sets the cap on the price error and the multiplier on the market price.
    pub fn set_price_error(&mut self, max_error: Decimal, offset: Decimal)
        requires
            old(self).wf(),
        ensures
            final(self).wf(),
            final(self).parameters == (InterestParameters { max_price_error: max_error, price_error_offset: offset, ..old(self).parameters }),
            final(self).data == old(self).data,
    {
        self.parameters.max_price_error = max_error;
        self.parameters.price_error_offset = offset;
    }

    /// Sets the fraction of the internal price within which errors move nothing.
    pub fn set_allowed_deviation(&mut self, deviation: Decimal)
        requires
            old(self).wf(),
        ensures
            final(self).wf(),
            final(self).parameters == (InterestParameters { allowed_deviation: deviation, ..old(self).parameters }),
            final(self).data == old(self).data,
    {
        self.parameters.allowed_deviation = deviation;
    }

    /// Sets the bounds of the interest rate.
    pub fn set_minmax_interest(&mut self, min_rate: Decimal, max_rate: Decimal)
        requires
            old(self).wf(),
        ensures
            final(self).wf(),
            final(self).parameters == (InterestParameters {
                min_interest_rate: min_rate,
                max_interest_rate: max_rate,
                ..old(self).parameters
            }),
            final(self).data == old(self).data,
    {
        self.parameters.min_interest_rate = min_rate;
        self.parameters.max_interest_rate = max_rate;
    }

    /// Sets the proportional and integral gains.
    pub fn set_ks(&mut self, ki: Decimal, kp: Decimal)
        requires
            old(self).wf(),
        ensures
            final(self).wf(),
            final(self).parameters == (InterestParameters { ki, kp, ..old(self).parameters }),
            final(self).data == old(self).data,
    {
        self.parameters.ki = ki;
        self.parameters.kp = kp;
    }

    /// Sets the minutes between ticks.
    pub fn set_update_delays(&mut self, minutes: u64)
        requires
            old(self).wf(),
        ensures
            final(self).wf(),
            final(self).update_delay == minutes,
            final(self).parameters == old(self).parameters,
            final(self).data == old(self).data,
    {
        self.update_delay = minutes;
    }
}

/// Whether every quantity `next_rate(p, rate, internal, err, total, n,
/// minutes)` computes stays in range.
pub open spec fn rate_fits(p: InterestParameters, rate: int, internal: int, err: int, total: int, n: int, minutes: int) -> bool {
    let abs_err = if err >= 0 { err } else { -err };
    let band = mul_attos(p.allowed_deviation@, internal);
    &&& fits(abs_err)
    &&& fits(band)
    &&& (abs_err > band ==> {
        let ratio = div_attos(err, internal);
        let scaled = mul_attos(internal, n * scale());
        let avg = div_attos(total, scaled);
        let drift = mul_attos(p.kp@, ratio) + mul_attos(p.ki@, avg);
        &&& n <= i64::MAX
        &&& internal != 0
        &&& fits(ratio)
        &&& fits(mul_attos(p.kp@, ratio))
        &&& fits(scaled)
        &&& scaled != 0
        &&& fits(avg)
        &&& fits(mul_attos(p.ki@, avg))
        &&& fits(drift)
        &&& fits(mul_attos(drift, minutes))
        &&& fits(rate - mul_attos(drift, minutes))
    })
}

/// The controller's next interest rate (see `next_rate`), `None` when a
/// quantity leaves the range of `Decimal`.
pub fn next_interest_rate(
    p: InterestParameters,
    rate: Decimal,
    internal: Decimal,
    err: Decimal,
    total: Decimal,
    n: usize,
    minutes: Decimal,
) -> (r: Option<Decimal>)
    requires
        n < usize::MAX,
    ensures
        match r {
            Some(v) => v@ == next_rate(p, rate@, internal@, err@, total@, n as int, minutes@)
                && rate_fits(p, rate@, internal@, err@, total@, n as int, minutes@),
            None => !rate_fits(p, rate@, internal@, err@, total@, n as int, minutes@),
        },
{
    let abs_err = if err.is_negative() {
        match Decimal::zero().checked_sub(&err) {
            Some(v) => v,
            None => return None,
        }
    } else {
        err
    };
    let band = match p.allowed_deviation.checked_mul(&internal) {
        Some(v) => v,
        None => return None,
    };
    if !band.lt(&abs_err) {
        return Some(rate);
    }
    if n as u128 > (i64::MAX as u128) {
        return None;
    }
    let slots = Decimal::from_int(n as i64);
    let prop = match err.checked_div(&internal) {
        Some(v) => match p.kp.checked_mul(&v) {
            Some(w) => w,
            None => return None,
        },
        None => return None,
    };
    let scaled = match internal.checked_mul(&slots) {
        Some(v) => v,
        None => return None,
    };
    let integ = match total.checked_div(&scaled) {
        Some(v) => match p.ki.checked_mul(&v) {
            Some(w) => w,
            None => return None,
        },
        None => return None,
    };
    let drift = match prop.checked_add(&integ) {
        Some(v) => match v.checked_mul(&minutes) {
            Some(w) => w,
            None => return None,
        },
        None => return None,
    };
    let r = match rate.checked_sub(&drift) {
        Some(v) => v,
        None => return None,
    };
    if p.max_interest_rate.lt(&r) {
        Some(p.max_interest_rate)
    } else if r.lt(&p.min_interest_rate) {
        Some(p.min_interest_rate)
    } else {
        Some(r)
    }
}

} // verus!
