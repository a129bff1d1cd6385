use stabilis::decimal::Decimal;
use stabilis::engine::default_parameters;
use stabilis::liquidate::LiquidationOutcome;
use stabilis::state::Stabilis;
use stabilis::types::{Bucket, CdpStatus, CdpUpdate, EngineError, Resource};

const T0: u64 = 1_700_000_000;

fn dec(n: i64) -> Decimal {
    Decimal::from_int(n)
}

fn col(n: i64) -> Bucket {
    Bucket { resource: Resource::Collateral(0), amount: dec(n) }
}

fn stab(n: i64) -> Bucket {
    Bucket { resource: Resource::Stab, amount: dec(n) }
}

/// An engine with one collateral at index 0: mcr 1.5, price 1.
fn publish_and_setup() -> Stabilis {
    let mut s = Stabilis::new(default_parameters());
    let i = s.add_collateral(100, Decimal::from_attos(1_500_000_000_000_000_000), dec(1)).unwrap();
    assert_eq!(i, 0);
    s
}

/// As `publish_and_setup`, plus pool unit 0 of collateral 0 at rate 1.
fn setup_with_pool() -> Stabilis {
    let mut s = publish_and_setup();
    let j = s.add_pool_collateral(200, 0, false, dec(1), true).unwrap();
    assert_eq!(j, 0);
    s
}

fn pool(n: i64) -> Bucket {
    Bucket { resource: Resource::PoolUnit(0), amount: dec(n) }
}

fn half() -> Decimal {
    Decimal::from_attos(500_000_000_000_000_000)
}

#[test]
fn deploys() {
    let s = publish_and_setup();
    assert_eq!(s.collaterals.len(), 1);
    assert_eq!(s.circulating_stab, dec(0));
}

#[test]
fn can_open_cdp() {
    let mut s = publish_and_setup();
    let (minted, id) = s.open_cdp(col(1000), dec(500)).unwrap();
    assert_eq!(minted.amount, dec(500));
    assert_eq!(minted.resource, Resource::Stab);
    assert_eq!(id, 1);
    assert_eq!(s.cdps[0].collateral_stab_ratio, dec(2));
    assert_eq!(s.circulating_stab, dec(500));
    assert_eq!(s.collaterals[0].minted_stab, dec(500));
}

#[test]
fn cant_open_cdp_insufficient_collateral() {
    let mut s = publish_and_setup();
    let result = s.open_cdp(col(10), dec(500));
    assert_eq!(result, Err(EngineError::InsufficientCollateral));
    assert_eq!(s.cdps.len(), 0);
}

#[test]
fn can_close_cdp() {
    let mut s = publish_and_setup();
    let (minted, id) = s.open_cdp(col(1000), dec(500)).unwrap();
    let (collateral, leftover) = s.close_cdp(id, minted).unwrap();
    assert_eq!(collateral.amount, dec(1000));
    assert_eq!(collateral.resource, Resource::Collateral(0));
    assert_eq!(leftover.amount, dec(0));
    assert_eq!(s.cdps[0].status, CdpStatus::Closed);
    assert_eq!(s.circulating_stab, dec(0));
    assert_eq!(s.collaterals[0].minted_stab, dec(0));
}

#[test]
fn can_partial_close_cdp() {
    let mut s = publish_and_setup();
    let (_minted, id) = s.open_cdp(col(1000), dec(500)).unwrap();
    let r = s.partial_close_cdp(id, stab(100)).unwrap();
    assert_eq!(r, None);
    assert_eq!(s.cdps[0].minted_stab, dec(400));
    assert_eq!(s.cdps[0].collateral_stab_ratio, Decimal::from_attos(2_500_000_000_000_000_000));
    assert_eq!(s.circulating_stab, dec(400));
}

#[test]
fn cant_close_cdp_insufficient_repayment() {
    let mut s = publish_and_setup();
    let (_minted, id) = s.open_cdp(col(1000), dec(500)).unwrap();
    assert_eq!(s.close_cdp(id, stab(400)), Err(EngineError::InsufficientPayment));
}

#[test]
fn cant_partial_close_cdp_below_minimum_mint() {
    let mut s = publish_and_setup();
    let (_minted, id) = s.open_cdp(col(1000), dec(500)).unwrap();
    let payment = Bucket { resource: Resource::Stab, amount: Decimal::from_attos(499_500_000_000_000_000_000) };
    assert_eq!(s.partial_close_cdp(id, payment), Err(EngineError::BelowMinimumMint));
    assert_eq!(s.cdps[0].minted_stab, dec(500));
}

#[test]
fn cant_close_cdp_wrong_resource() {
    let mut s = publish_and_setup();
    let (_minted, id) = s.open_cdp(col(1000), dec(500)).unwrap();
    assert_eq!(s.close_cdp(id, col(500)), Err(EngineError::WrongResource));
}

#[test]
fn cant_partial_close_cdp_wrong_resource() {
    let mut s = publish_and_setup();
    let (_minted, id) = s.open_cdp(col(1000), dec(500)).unwrap();
    assert_eq!(s.partial_close_cdp(id, col(500)), Err(EngineError::WrongResource));
}

#[test]
fn can_top_up_cdp() {
    let mut s = publish_and_setup();
    let (_minted, id) = s.open_cdp(col(1000), dec(500)).unwrap();
    assert_eq!(s.top_up_cdp(id, col(500)), Ok(()));
    assert_eq!(s.cdps[0].collateral_amount, dec(1500));
    assert_eq!(s.cdps[0].collateral_stab_ratio, dec(3));
}

#[test]
fn cant_top_up_cdp_wrong_payment() {
    let mut s = publish_and_setup();
    let (_minted, id) = s.open_cdp(col(1000), dec(500)).unwrap();
    assert_eq!(s.top_up_cdp(id, stab(500)), Err(EngineError::WrongResource));
}

#[test]
fn can_top_up_cdp_and_remove() {
    let mut s = publish_and_setup();
    let (minted, id) = s.open_cdp(col(1000), dec(500)).unwrap();
    assert_eq!(s.top_up_cdp(id, col(500)), Ok(()));
    let (collateral, leftover) = s.close_cdp(id, minted).unwrap();
    assert_eq!(collateral.amount, dec(1500));
    assert_eq!(leftover.amount, dec(0));
}

#[test]
fn can_remove_collateral() {
    let mut s = publish_and_setup();
    let (_minted, id) = s.open_cdp(col(1000), dec(500)).unwrap();
    let removed = s.remove_collateral(id, dec(100)).unwrap();
    assert_eq!(removed.amount, dec(100));
    assert_eq!(removed.resource, Resource::Collateral(0));
    assert_eq!(s.cdps[0].collateral_amount, dec(900));
}

#[test]
fn cant_remove_collateral_below_mcr() {
    let mut s = publish_and_setup();
    let (_minted, id) = s.open_cdp(col(1000), dec(500)).unwrap();
    assert_eq!(s.remove_collateral(id, dec(400)), Err(EngineError::InsufficientCollateral));
}

#[test]
fn can_borrow_more() {
    let mut s = publish_and_setup();
    let (_minted, id) = s.open_cdp(col(1000), dec(500)).unwrap();
    let more = s.borrow_more(id, dec(100)).unwrap();
    assert_eq!(more.amount, dec(100));
    assert_eq!(s.cdps[0].minted_stab, dec(600));
    assert_eq!(s.circulating_stab, dec(600));
}

#[test]
fn can_mark_for_liquidation() {
    let mut s = publish_and_setup();
    s.open_cdp(col(1000), dec(500)).unwrap();
    s.change_collateral_price(0, half()).unwrap();
    let mid = s.mark_for_liquidation(0, T0).unwrap();
    assert_eq!(mid, 1);
    assert_eq!(s.markers[0].mark_type, CdpUpdate::Marked);
    assert_eq!(s.cdps[0].status, CdpStatus::Marked);
    assert_eq!(s.marked.len(), 1);
    assert_eq!(s.cr_index.entries.len(), 0);
}

#[test]
fn can_mark_for_liquidation_pool_unit() {
    let mut s = setup_with_pool();
    s.open_cdp(pool(1000), dec(500)).unwrap();
    s.change_collateral_price(0, half()).unwrap();
    let mid = s.mark_for_liquidation(0, T0).unwrap();
    assert_eq!(s.markers[mid - 1].mark_type, CdpUpdate::Marked);
    assert_eq!(s.cdps[0].status, CdpStatus::Marked);
}

#[test]
fn can_save_cdp_with_pool_unit_through_marking() {
    let mut s = setup_with_pool();
    s.open_cdp(pool(1000), dec(500)).unwrap();
    s.change_collateral_price(0, half()).unwrap();
    s.set_redemption_rate(0, dec(2)).unwrap();
    let mid = s.mark_for_liquidation(0, T0).unwrap();
    assert_eq!(s.markers[mid - 1].mark_type, CdpUpdate::Saved);
    assert_eq!(s.cdps[0].status, CdpStatus::Healthy);
    assert_eq!(s.cdps[0].collateral_stab_ratio, dec(4));
}

#[test]
fn can_liquidate_with_marker() {
    let mut s = publish_and_setup();
    s.open_cdp(col(1000), dec(500)).unwrap();
    s.change_collateral_price(0, half()).unwrap();
    let mid = s.mark_for_liquidation(0, T0).unwrap();
    let out = s.liquidate_position_with_marker(mid, stab(600), T0 + 5 * 60).unwrap();
    match out {
        LiquidationOutcome::Liquidated { collateral, change, receipt } => {
            assert_eq!(collateral.amount, dec(1000));
            assert_eq!(change.amount, dec(100));
            assert_eq!(receipt, 1);
        },
        _ => panic!("expected a liquidation"),
    }
    assert_eq!(s.cdps[0].status, CdpStatus::Liquidated);
    assert!(s.markers[mid - 1].used);
    assert_eq!(s.circulating_stab, dec(0));
}

#[test]
fn cant_liquidate_with_marker_before_time() {
    let mut s = publish_and_setup();
    s.open_cdp(col(1000), dec(500)).unwrap();
    s.change_collateral_price(0, half()).unwrap();
    let mid = s.mark_for_liquidation(0, T0).unwrap();
    let r = s.liquidate_position_with_marker(mid, stab(600), T0 + 4 * 60);
    assert_eq!(r, Err(EngineError::TooEarly));
    assert_eq!(s.cdps[0].status, CdpStatus::Marked);
}

#[test]
fn cant_liquidate_using_marker_save_receipt() {
    let mut s = setup_with_pool();
    s.open_cdp(pool(1000), dec(500)).unwrap();
    s.change_collateral_price(0, half()).unwrap();
    s.set_redemption_rate(0, dec(2)).unwrap();
    let mid = s.mark_for_liquidation(0, T0).unwrap();
    let r = s.liquidate_position_with_marker(mid, stab(600), T0 + 5 * 60);
    assert_eq!(r, Err(EngineError::MarkerWrongType));
}

#[test]
fn can_only_save_appreciated_pool_cdp() {
    let mut s = setup_with_pool();
    s.open_cdp(pool(1000), dec(500)).unwrap();
    s.change_collateral_price(0, half()).unwrap();
    let mid = s.mark_for_liquidation(0, T0).unwrap();
    s.set_redemption_rate(0, dec(2)).unwrap();
    let out = s.liquidate_position_with_marker(mid, stab(600), T0 + 5 * 60).unwrap();
    match out {
        LiquidationOutcome::Saved { payment, marker } => {
            assert_eq!(payment.amount, dec(600));
            assert_eq!(s.markers[marker - 1].mark_type, CdpUpdate::Saved);
        },
        _ => panic!("expected a save"),
    }
    assert_eq!(s.cdps[0].status, CdpStatus::Healthy);
    assert!(s.markers[mid - 1].used);
}

#[test]
fn can_liquidate_pool_cdp() {
    let mut s = setup_with_pool();
    s.open_cdp(pool(1000), dec(500)).unwrap();
    s.change_collateral_price(0, half()).unwrap();
    let mid = s.mark_for_liquidation(0, T0).unwrap();
    let out = s.liquidate_position_with_marker(mid, stab(600), T0 + 5 * 60).unwrap();
    match out {
        LiquidationOutcome::Liquidated { collateral, change, .. } => {
            assert_eq!(collateral.amount, dec(1000));
            assert_eq!(collateral.resource, Resource::PoolUnit(0));
            assert_eq!(change.amount, dec(100));
        },
        _ => panic!("expected a liquidation"),
    }
}

#[test]
fn can_liquidate_without_marker_by_id() {
    let mut s = publish_and_setup();
    let (_minted, id) = s.open_cdp(col(1000), dec(500)).unwrap();
    s.change_collateral_price(0, half()).unwrap();
    s.mark_for_liquidation(0, T0).unwrap();
    let out = s.liquidate_position_without_marker(stab(600), None, id, T0 + 10 * 60).unwrap();
    match out {
        LiquidationOutcome::Liquidated { collateral, change, .. } => {
            assert_eq!(collateral.amount, dec(1000));
            assert_eq!(change.amount, dec(100));
        },
        _ => panic!("expected a liquidation"),
    }
}

#[test]
fn cant_liquidate_without_marker_by_id_before_time() {
    let mut s = publish_and_setup();
    let (_minted, id) = s.open_cdp(col(1000), dec(500)).unwrap();
    s.change_collateral_price(0, half()).unwrap();
    s.mark_for_liquidation(0, T0).unwrap();
    let r = s.liquidate_position_without_marker(stab(600), None, id, T0 + 9 * 60);
    assert_eq!(r, Err(EngineError::TooEarly));
}

#[test]
fn can_liquidate_without_marker_automatic() {
    let mut s = publish_and_setup();
    let (_minted, id) = s.open_cdp(col(1000), dec(500)).unwrap();
    s.change_collateral_price(0, half()).unwrap();
    s.mark_for_liquidation(0, T0).unwrap();
    let out = s.liquidate_position_without_marker(stab(600), Some(0), id, T0 + 10 * 60).unwrap();
    match out {
        LiquidationOutcome::Liquidated { collateral, change, .. } => {
            assert_eq!(collateral.amount, dec(1000));
            assert_eq!(change.amount, dec(100));
        },
        _ => panic!("expected a liquidation"),
    }
}

#[test]
fn cant_liquidate_without_marker_automatic_before_time() {
    let mut s = publish_and_setup();
    let (_minted, id) = s.open_cdp(col(1000), dec(500)).unwrap();
    s.change_collateral_price(0, half()).unwrap();
    s.mark_for_liquidation(0, T0).unwrap();
    let r = s.liquidate_position_without_marker(stab(600), Some(0), id, T0 + 9 * 60);
    assert_eq!(r, Err(EngineError::TooEarly));
}

#[test]
fn can_return_internal_price() {
    let s = publish_and_setup();
    assert_eq!(s.return_internal_price(), dec(1));
}

#[test]
fn correct_liquidation_fines_over_115_cr() {
    let mut s = publish_and_setup();
    let (_minted, id) = s.open_cdp(col(1000), dec(400)).unwrap();
    s.change_internal_price(dec(2)).unwrap();
    s.change_collateral_price(0, dec(1)).unwrap();
    s.mark_for_liquidation(0, T0).unwrap();
    let out = s.liquidate_position_without_marker(stab(500), Some(0), id, T0 + 10 * 60).unwrap();
    let retrieved = s.retrieve_leftover_collateral(id).unwrap();
    assert_eq!(retrieved.amount, dec(80));
    assert_eq!(retrieved.resource, Resource::Collateral(0));
    match out {
        LiquidationOutcome::Liquidated { collateral, .. } => {
            assert_eq!(collateral.amount, dec(880));
            assert_eq!(collateral.resource, Resource::Collateral(0));
        },
        _ => panic!("expected a liquidation"),
    }
    let fee = s.empty_collateral_treasury(dec(40), Resource::Collateral(0), false).unwrap();
    assert_eq!(fee.amount, dec(40));
    assert_eq!(fee.resource, Resource::Collateral(0));
    let impossible = s.empty_collateral_treasury(Decimal::from_attos(100_000_000_000_000_000), Resource::Collateral(0), false);
    assert!(impossible.is_err());
}

#[test]
fn correct_liquidation_fines_between_110_115_cr() {
    let mut s = publish_and_setup();
    let (_minted, id) = s.open_cdp(col(4500), dec(2000)).unwrap();
    s.change_internal_price(dec(2)).unwrap();
    s.change_collateral_price(0, dec(1)).unwrap();
    s.mark_for_liquidation(0, T0).unwrap();
    let out = s.liquidate_position_without_marker(stab(2000), Some(0), id, T0 + 10 * 60).unwrap();
    match out {
        LiquidationOutcome::Liquidated { collateral, .. } => {
            assert_eq!(collateral.amount, dec(4400));
            assert_eq!(collateral.resource, Resource::Collateral(0));
        },
        _ => panic!("expected a liquidation"),
    }
    assert_eq!(s.cdps[0].collateral_amount, dec(0));
    let fee = s.empty_collateral_treasury(dec(100), Resource::Collateral(0), false).unwrap();
    assert_eq!(fee.amount, dec(100));
    assert_eq!(fee.resource, Resource::Collateral(0));
    let impossible = s.empty_collateral_treasury(Decimal::from_attos(100_000_000_000_000_000), Resource::Collateral(0), false);
    assert!(impossible.is_err());
}

#[test]
fn correct_liquidation_fines_below_110_cr() {
    let mut s = publish_and_setup();
    let (_minted, id) = s.open_cdp(col(2100), dec(1000)).unwrap();
    s.change_internal_price(dec(2)).unwrap();
    s.change_collateral_price(0, dec(1)).unwrap();
    s.mark_for_liquidation(0, T0).unwrap();
    let out = s.liquidate_position_without_marker(stab(1000), Some(0), id, T0 + 10 * 60).unwrap();
    match out {
        LiquidationOutcome::Liquidated { collateral, .. } => {
            assert_eq!(collateral.amount, dec(2100));
            assert_eq!(collateral.resource, Resource::Collateral(0));
        },
        _ => panic!("expected a liquidation"),
    }
    assert_eq!(s.receipts[0].percentage_received, Decimal::from_attos(1_050_000_000_000_000_000));
    let impossible = s.empty_collateral_treasury(Decimal::from_attos(100_000_000_000_000_000), Resource::Collateral(0), false);
    assert!(impossible.is_err());
}

#[test]
fn force_liquidate_with_sufficient_collateral() {
    let mut s = publish_and_setup();
    s.open_cdp(col(1000), dec(500)).unwrap();
    let (returned, change) = s.force_liquidate(0, stab(500), dec(1), true).unwrap();
    assert_eq!(returned.amount, dec(500));
    assert_eq!(change.amount, dec(0));
    assert_eq!(s.cdps[0].status, CdpStatus::ForceLiquidated);
    assert_eq!(s.cdps[0].collateral_amount, dec(500));
}

#[test]
fn force_liquidate_partly() {
    let mut s = publish_and_setup();
    let (_minted, id) = s.open_cdp(col(1000), dec(500)).unwrap();
    let (returned, change) = s.force_liquidate(0, stab(10), dec(1), true).unwrap();
    assert_eq!(returned.amount, dec(10));
    assert_eq!(change.amount, dec(0));
    assert_eq!(s.cdps[0].minted_stab, dec(490));
    let (collateral, leftover) = s.close_cdp(id, stab(490)).unwrap();
    assert_eq!(collateral.amount, dec(990));
    assert_eq!(leftover.amount, dec(0));
}

#[test]
fn cant_force_liquidate_markable() {
    let mut s = publish_and_setup();
    s.open_cdp(col(1000), dec(500)).unwrap();
    s.change_collateral_price(0, half()).unwrap();
    let r = s.force_liquidate(0, stab(500), dec(1), true);
    assert_eq!(r, Err(EngineError::ForceLiquidateMarkable));
}

#[test]
fn force_mint_valid_parameters() {
    let mut s = publish_and_setup();
    s.open_cdp(col(1000), dec(100)).unwrap();
    let (minted, excess) = s.force_mint(0, col(100), dec(1)).unwrap();
    assert_eq!(minted.amount, dec(100));
    assert_eq!(excess, None);
}

#[test]
fn force_mint_excessive_collateral() {
    let mut s = publish_and_setup();
    s.open_cdp(col(360), dec(10)).unwrap();
    let (minted, excess) = s.force_mint(0, col(100), dec(1)).unwrap();
    assert_eq!(minted.amount, dec(90));
    let excess = excess.unwrap();
    assert_eq!(excess.amount, dec(10));
    assert_eq!(s.cdps[0].minted_stab, dec(100));
    assert_eq!(s.cdps[0].collateral_amount, dec(450));
    assert_eq!(s.circulating_stab, dec(100));
}

#[test]
fn fail_force_mint_invalid_collateral() {
    let mut s = publish_and_setup();
    s.open_cdp(col(1000), dec(500)).unwrap();
    let invalid = Bucket { resource: Resource::Other(18), amount: dec(500) };
    assert!(s.force_mint(0, invalid, dec(1)).is_err());
    assert!(s.force_mint(1, invalid, dec(1)).is_err());
}
