//! Constant-product pricing of the STAB liquidity pool.

use vstd::prelude::*;
use crate::decimal::{div_attos, fits, mul_attos, scale, Decimal};

verus! {

/// STAB's price in the quote asset: quote reserve over STAB reserve.
pub fn get_stab_price(stab_reserve: Decimal, quote_reserve: Decimal) -> (r: Option<Decimal>)
    ensures
        r == (if stab_reserve@ != 0 && fits(div_attos(quote_reserve@, stab_reserve@)) {
            Some(Decimal { attos: div_attos(quote_reserve@, stab_reserve@) as i128 })
        } else {
            None
        }),
{
    quote_reserve.checked_div(&stab_reserve)
}

/// Output of a swap of `input` into a pool with reserves `input_reserve`
/// and `output_reserve` and fee fraction `fee`:
/// `input * output_reserve * (1 - fee) / (input_reserve + input * (1 - fee))`.
pub open spec fn swap_output_of(input: int, input_reserve: int, output_reserve: int, fee: int) -> int {
    let keep = scale() - fee;
    div_attos(mul_attos(mul_attos(input, output_reserve), keep), input_reserve + mul_attos(input, keep))
}

/// Whether every quantity `swap_output_of` computes stays in range and its
/// denominator is not zero.
pub open spec fn swap_fits(input: int, input_reserve: int, output_reserve: int, fee: int) -> bool {
    let keep = scale() - fee;
    let num = mul_attos(mul_attos(input, output_reserve), keep);
    let den = input_reserve + mul_attos(input, keep);
    &&& fits(keep)
    &&& fits(mul_attos(input, output_reserve))
    &&& fits(num)
    &&& fits(mul_attos(input, keep))
    &&& fits(den)
    &&& den != 0
    &&& fits(div_attos(num, den))
}

/// The output of a swap (see `swap_output_of`); `None` when a quantity leaves
/// the range of `Decimal` or the denominator is zero.
pub fn swap_output(input: Decimal, input_reserve: Decimal, output_reserve: Decimal, fee: Decimal) -> (r: Option<Decimal>)
    ensures
        match r {
            Some(v) => v@ == swap_output_of(input@, input_reserve@, output_reserve@, fee@),
            None => !swap_fits(input@, input_reserve@, output_reserve@, fee@),
        },
        r.is_some() <==> swap_fits(input@, input_reserve@, output_reserve@, fee@),
{
    let keep = match Decimal::one().checked_sub(&fee) {
        Some(v) => v,
        None => return None,
    };
    let num = match input.checked_mul(&output_reserve) {
        Some(v) => match v.checked_mul(&keep) {
            Some(w) => w,
            None => return None,
        },
        None => return None,
    };
    let den = match input.checked_mul(&keep) {
        Some(v) => match input_reserve.checked_add(&v) {
            Some(w) => w,
            None => return None,
        },
        None => return None,
    };
    num.checked_div(&den)
}

/// The reward for `updated_seconds` of fresher prices at `per_second`, if
/// the reward vault holds more than it; `None` (no reward, no error) otherwise.
pub fn price_update_reward(updated_seconds: u64, per_second: Decimal, vault: Decimal) -> (r: Option<Decimal>)
    ensures
        r == (if fits(mul_attos(updated_seconds * scale(), per_second@)) && mul_attos(updated_seconds * scale(), per_second@) < vault@ {
            Some(Decimal { attos: mul_attos(updated_seconds * scale(), per_second@) as i128 })
        } else {
            None
        }),
{
    let secs = Decimal::from_attos((updated_seconds as i128) * crate::decimal::ONE_ATTOS);
    match secs.checked_mul(&per_second) {
        Some(v) => if v.lt(&vault) { Some(v) } else { None },
        None => None,
    }
}

} // verus!
