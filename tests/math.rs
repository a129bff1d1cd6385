use stabilis::decimal::Decimal;
use stabilis::liquidation::liquidation_split;
use stabilis::pool::{get_stab_price, price_update_reward, swap_output};

fn dec(n: i64) -> Decimal {
    Decimal::from_int(n)
}

fn attos(a: i128) -> Decimal {
    Decimal::from_attos(a)
}

#[test]
fn decimal_mul_truncates_to_18_places() {
    assert_eq!(attos(2_500_000_000_000_000_000).checked_mul(&dec(4)), Some(dec(10)));
    assert_eq!(attos(-1_500_000_000_000_000_000).checked_mul(&dec(2)), Some(dec(-3)));
    assert_eq!(attos(1).checked_mul(&attos(1)), Some(dec(0)));
    assert_eq!(dec(i64::MAX).checked_mul(&dec(i64::MAX)), None);
}

#[test]
fn decimal_div_truncates_toward_zero() {
    assert_eq!(dec(1).checked_div(&dec(3)), Some(attos(333_333_333_333_333_333)));
    assert_eq!(dec(-1).checked_div(&dec(3)), Some(attos(-333_333_333_333_333_333)));
    assert_eq!(dec(1000).checked_div(&dec(500)), Some(dec(2)));
    assert_eq!(dec(1).checked_div(&dec(0)), None);
    assert_eq!(dec(i64::MAX).checked_div(&attos(1)), None);
}

#[test]
fn decimal_add_sub_are_exact() {
    assert_eq!(dec(2).checked_add(&dec(3)), Some(dec(5)));
    assert_eq!(dec(2).checked_sub(&dec(3)), Some(dec(-1)));
    assert_eq!(attos(i128::MAX).checked_add(&attos(1)), None);
}

#[test]
fn split_above_both_fines() {
    let s = liquidation_split(dec(1000), attos(1_250_000_000_000_000_000), attos(100_000_000_000_000_000), attos(50_000_000_000_000_000)).unwrap();
    assert_eq!(s.to_liquidator, dec(880));
    assert_eq!(s.to_treasury, dec(40));
    assert_eq!(s.percentage_received, attos(1_100_000_000_000_000_000));
}

#[test]
fn split_between_fines() {
    let s = liquidation_split(dec(4500), attos(1_125_000_000_000_000_000), attos(100_000_000_000_000_000), attos(50_000_000_000_000_000)).unwrap();
    assert_eq!(s.to_liquidator, dec(4400));
    assert_eq!(s.to_treasury, dec(100));
}

#[test]
fn split_below_liquidator_fine() {
    let s = liquidation_split(dec(2100), attos(1_050_000_000_000_000_000), attos(100_000_000_000_000_000), attos(50_000_000_000_000_000)).unwrap();
    assert_eq!(s.to_liquidator, dec(2100));
    assert_eq!(s.to_treasury, dec(0));
    assert_eq!(s.percentage_received, attos(1_050_000_000_000_000_000));
}

#[test]
fn split_without_protocol_fine() {
    let s = liquidation_split(dec(1000), attos(1_250_000_000_000_000_000), attos(100_000_000_000_000_000), dec(0)).unwrap();
    assert_eq!(s.to_liquidator, dec(880));
    assert_eq!(s.to_treasury, dec(0));
}

#[test]
fn pool_price_is_reserve_ratio() {
    assert_eq!(get_stab_price(dec(100), dec(50)), Some(attos(500_000_000_000_000_000)));
    assert_eq!(get_stab_price(dec(0), dec(50)), None);
}

#[test]
fn swap_follows_constant_product() {
    assert_eq!(swap_output(dec(10), dec(100), dec(100), dec(0)), Some(attos(9_090_909_090_909_090_909)));
    assert_eq!(swap_output(dec(10), dec(100), dec(100), attos(1_000_000_000_000_000)), Some(attos(9_082_643_876_716_065_096)));
}

#[test]
fn reward_paid_only_from_sufficient_vault() {
    let per_second = attos(20_000_000_000_000_000);
    assert_eq!(price_update_reward(100, per_second, dec(5)), Some(dec(2)));
    assert_eq!(price_update_reward(100, per_second, dec(2)), None);
    assert_eq!(price_update_reward(0, per_second, dec(2)), Some(dec(0)));
}
