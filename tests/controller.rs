use stabilis::controller::{next_interest_rate, PegController};
use stabilis::decimal::Decimal;
use stabilis::engine::default_parameters;
use stabilis::proxy::Proxy;
use stabilis::state::Stabilis;
use stabilis::types::{Bucket, EngineError, Resource};

const T0: u64 = 1_700_000_000;

fn dec(n: i64) -> Decimal {
    Decimal::from_int(n)
}

fn attos(a: i128) -> Decimal {
    Decimal::from_attos(a)
}

#[test]
fn tick_waits_for_update_delay() {
    let mut c = PegController::new(dec(1), T0, 3);
    assert_eq!(c.update_rate(T0 + 30, dec(1), dec(1)), Ok(None));
    assert_eq!(c.data.latest_stab_price_errors.len(), 0);
    assert_eq!(c.data.last_update, T0);
    assert_eq!(c.update_rate(T0 - 1, dec(1), dec(1)), Ok(None));
}

#[test]
fn tick_within_deviation_keeps_rate() {
    let mut c = PegController::new(dec(1), T0, 3);
    let m = c.update_rate(T0 + 120, dec(1), dec(1)).unwrap();
    assert_eq!(m, Some(dec(2)));
    assert_eq!(c.data.interest_rate, dec(1));
    assert_eq!(c.data.latest_stab_price_errors, vec![dec(0)]);
    assert_eq!(c.data.last_update, T0 + 120);
}

#[test]
fn tick_caps_error_and_clamps_rate() {
    let mut c = PegController::new(dec(1), T0, 3);
    c.set_ks(dec(0), dec(1));
    let m = c.update_rate(T0 + 120, dec(2), dec(1)).unwrap();
    assert_eq!(m, Some(dec(2)));
    assert_eq!(c.data.latest_stab_price_errors, vec![attos(500_000_000_000_000_000)]);
    assert_eq!(c.data.latest_stab_price_errors_total, attos(500_000_000_000_000_000));
    assert_eq!(c.data.interest_rate, c.parameters.min_interest_rate);
}

#[test]
fn low_market_price_raises_rate_to_max() {
    let mut c = PegController::new(dec(1), T0, 3);
    c.set_ks(dec(0), dec(1));
    c.update_rate(T0 + 60, attos(500_000_000_000_000_000), dec(1)).unwrap();
    assert_eq!(c.data.interest_rate, c.parameters.max_interest_rate);
}

#[test]
fn window_wraps_and_keeps_sum() {
    let mut c = PegController::new(dec(1), T0, 2);
    c.push_price_error(dec(1)).unwrap();
    c.push_price_error(dec(2)).unwrap();
    assert!(!c.data.full_cache);
    c.push_price_error(dec(5)).unwrap();
    assert!(c.data.full_cache);
    assert_eq!(c.data.last_changed_price, 1);
    assert_eq!(c.data.latest_stab_price_errors, vec![dec(5), dec(2)]);
    assert_eq!(c.data.latest_stab_price_errors_total, dec(7));
    c.push_price_error(dec(-1)).unwrap();
    assert_eq!(c.data.latest_stab_price_errors_total, dec(4));
    assert_eq!(c.set_number_of_prices_cached(0), Err(EngineError::Overflow));
    c.set_number_of_prices_cached(4).unwrap();
    assert_eq!(c.data.latest_stab_price_errors_total, dec(0));
    assert_eq!(c.data.latest_stab_price_errors.len(), 0);
}

#[test]
fn integral_term_uses_window_average() {
    let mut c = PegController::new(dec(1), T0, 2);
    let p = c.parameters;
    let mut q = p;
    q.kp = dec(0);
    q.ki = attos(1_000_000_000_000_000);
    q.min_interest_rate = dec(0);
    q.max_interest_rate = dec(2);
    let r = next_interest_rate(q, dec(1), dec(1), dec(-1), dec(-2), 2, dec(1)).unwrap();
    assert_eq!(r, attos(1_001_000_000_000_000_000));
    c.set_allowed_deviation(dec(10));
    let r = next_interest_rate(c.parameters, dec(1), dec(1), dec(-1), dec(-2), 2, dec(1)).unwrap();
    assert_eq!(r, dec(1));
}

#[test]
fn compound_multiplies_internal_price() {
    let mut c = PegController::new(dec(1), T0, 3);
    assert_eq!(c.compound(attos(1_500_000_000_000_000_000)), Ok(attos(1_500_000_000_000_000_000)));
    assert_eq!(c.data.internal_price, attos(1_500_000_000_000_000_000));
}

fn proxy() -> Proxy {
    let mut s = Stabilis::new(default_parameters());
    s.add_collateral(100, attos(1_500_000_000_000_000_000), dec(1)).unwrap();
    Proxy::new(s, 0, attos(41_000_000_000_000_000), T0).unwrap()
}

#[test]
fn proxy_records_fresh_prices_only() {
    let mut p = proxy();
    assert_eq!(p.record_price(0, attos(500_000_000_000_000_000), T0), Err(EngineError::OracleStale));
    assert_eq!(p.record_price(7, dec(3), T0 + 10), Ok(0));
    assert_eq!(p.record_price(0, attos(500_000_000_000_000_000), T0 + 10), Ok(10));
    assert_eq!(p.xrd_price, attos(500_000_000_000_000_000));
    assert_eq!(p.stabilis.collaterals[0].liquidation_collateral_ratio, dec(3));
    assert_eq!(p.collateral_timestamps[0], T0 + 10);
}

#[test]
fn proxy_growth_moves_both_prices_and_lcr() {
    let mut p = proxy();
    assert_eq!(p.apply_growth(dec(2)), Ok(dec(2)));
    assert_eq!(p.get_internal_price(), dec(2));
    assert_eq!(p.controller.data.internal_price, dec(2));
    assert_eq!(p.stabilis.collaterals[0].liquidation_collateral_ratio, dec(3));
}

#[test]
fn proxy_force_operations_use_its_percentages() {
    let mut p = proxy();
    p.stabilis.open_cdp(Bucket { resource: Resource::Collateral(0), amount: dec(1000) }, dec(500)).unwrap();
    let (col, change) = p.force_liquidate(0, Bucket { resource: Resource::Stab, amount: dec(500) }).unwrap();
    assert_eq!(col.amount, dec(475));
    assert_eq!(change.amount, dec(0));
    assert_eq!(Proxy::new(Stabilis::new(default_parameters()), 0, dec(1), T0).err(), Some(EngineError::NotAccepted));
}

#[test]
fn proxy_tick_uses_quote_price() {
    let mut p = proxy();
    let m = p.update_rate(T0 + 60, attos(24_390_243_902_439_024_390)).unwrap();
    assert_eq!(m, Some(dec(1)));
    assert_eq!(p.controller.data.latest_stab_price_errors.len(), 1);
}

#[test]
fn proxy_internal_price_change_keeps_controller_in_step() {
    let mut p = proxy();
    p.change_internal_price(dec(2)).unwrap();
    assert_eq!(p.controller.data.internal_price, dec(2));
    assert_eq!(p.stabilis.internal_stab_price, dec(2));
    assert_eq!(p.stabilis.collaterals[0].liquidation_collateral_ratio, dec(3));
    assert_eq!(p.add_collateral(100, dec(2), dec(1), T0), Err(EngineError::AlreadyAccepted));
    assert_eq!(p.add_collateral(101, dec(2), dec(1), T0 + 5), Ok(1));
    assert_eq!(p.collateral_timestamps, vec![T0, T0 + 5]);
}
