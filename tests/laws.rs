use stabilis::decimal::Decimal;
use stabilis::engine::default_parameters;
use stabilis::liquidate::LiquidationOutcome;
use stabilis::state::Stabilis;
use stabilis::types::{Bucket, CdpStatus, CdpUpdate, EngineError, Resource};

const T0: u64 = 1_700_000_000;

fn dec(n: i64) -> Decimal {
    Decimal::from_int(n)
}

fn attos(a: i128) -> Decimal {
    Decimal::from_attos(a)
}

fn col(i: usize, n: i64) -> Bucket {
    Bucket { resource: Resource::Collateral(i), amount: dec(n) }
}

fn stab(n: i64) -> Bucket {
    Bucket { resource: Resource::Stab, amount: dec(n) }
}

fn engine() -> Stabilis {
    let mut s = Stabilis::new(default_parameters());
    s.add_collateral(100, attos(1_500_000_000_000_000_000), dec(1)).unwrap();
    s.add_collateral(101, dec(2), dec(1)).unwrap();
    s
}

fn check_accounting(s: &Stabilis) {
    let mut live = dec(0);
    for c in s.cdps.iter() {
        if c.status == CdpStatus::Healthy || c.status == CdpStatus::Marked {
            live = live.checked_add(&c.minted_stab).unwrap();
        }
    }
    let mut parents = dec(0);
    for c in s.collaterals.iter() {
        parents = parents.checked_add(&c.minted_stab).unwrap();
    }
    assert_eq!(live, s.circulating_stab);
    assert_eq!(parents, s.circulating_stab);
}

fn check_index(s: &Stabilis) {
    for (k, c) in s.cdps.iter().enumerate() {
        let id = k + 1;
        let indexed: Vec<_> = s.cr_index.entries.iter().filter(|e| e.id == id).collect();
        let queued = s.marked.iter().filter(|e| e.id == id).count();
        match c.status {
            CdpStatus::Healthy => {
                assert_eq!(indexed.len(), 1);
                assert_eq!(indexed[0].cr, c.collateral_stab_ratio);
                assert_eq!(indexed[0].parent, c.parent);
                assert_eq!(queued, 0);
            },
            CdpStatus::Marked => {
                assert_eq!(indexed.len(), 0);
                assert_eq!(queued, 1);
            },
            _ => {
                assert_eq!(indexed.len(), 0);
                assert_eq!(queued, 0);
            },
        }
    }
}

#[test]
fn accounting_and_index_hold_over_a_sequence() {
    let mut s = engine();
    let (_a, a) = s.open_cdp(col(0, 1000), dec(500)).unwrap();
    let (_b, b) = s.open_cdp(col(1, 900), dec(300)).unwrap();
    let (_c, c) = s.open_cdp(col(0, 3000), dec(400)).unwrap();
    check_accounting(&s);
    check_index(&s);
    s.borrow_more(b, dec(50)).unwrap();
    s.partial_close_cdp(c, stab(100)).unwrap();
    s.top_up_cdp(a, col(0, 100)).unwrap();
    check_accounting(&s);
    check_index(&s);
    s.change_collateral_price(0, attos(500_000_000_000_000_000)).unwrap();
    s.mark_for_liquidation(0, T0).unwrap();
    check_accounting(&s);
    check_index(&s);
    assert_eq!(s.cdps[a - 1].status, CdpStatus::Marked);
    s.liquidate_position_without_marker(stab(600), Some(0), 0, T0 + 600).unwrap();
    check_accounting(&s);
    check_index(&s);
    s.close_cdp(b, stab(350)).unwrap();
    s.force_liquidate(0, stab(100), dec(1), false).unwrap();
    check_accounting(&s);
    check_index(&s);
    assert_eq!(s.cdps[c - 1].minted_stab, dec(200));
}

#[test]
fn lcr_follows_every_price_change() {
    let mut s = engine();
    assert_eq!(s.collaterals[0].liquidation_collateral_ratio, attos(1_500_000_000_000_000_000));
    s.change_collateral_price(0, dec(3)).unwrap();
    assert_eq!(s.collaterals[0].liquidation_collateral_ratio, attos(499_999_999_999_999_999));
    s.change_internal_price(dec(2)).unwrap();
    assert_eq!(s.collaterals[0].liquidation_collateral_ratio, attos(999_999_999_999_999_999));
    assert_eq!(s.collaterals[1].liquidation_collateral_ratio, dec(4));
    assert_eq!(s.change_collateral_price(0, dec(0)), Err(EngineError::Overflow));
    s.edit_collateral(1, dec(3), true, dec(1)).unwrap();
    assert_eq!(s.collaterals[1].liquidation_collateral_ratio, dec(6));
}

#[test]
fn terminal_positions_are_retrievable_then_burnable() {
    let mut s = engine();
    let (_m, id) = s.open_cdp(col(0, 1000), dec(400)).unwrap();
    s.change_internal_price(dec(2)).unwrap();
    s.mark_for_liquidation(0, T0).unwrap();
    assert_eq!(s.burn_loan_receipt(id), Err(EngineError::ReceiptNotBurnable));
    s.liquidate_position_without_marker(stab(400), None, id, T0 + 600).unwrap();
    assert_eq!(s.burn_loan_receipt(id), Err(EngineError::ReceiptNotBurnable));
    let left = s.retrieve_leftover_collateral(id).unwrap();
    assert_eq!(left.amount, dec(80));
    assert_eq!(s.burn_loan_receipt(id), Ok(()));
    assert_eq!(s.retrieve_leftover_collateral(id), Err(EngineError::NoLeftover));
    assert_eq!(s.burn_loan_receipt(9), Err(EngineError::UnknownCdp));
    assert_eq!(s.burn_marker(1), Ok(()));
}

#[test]
fn open_close_round_trip_restores_aggregates() {
    let mut s = engine();
    s.open_cdp(col(1, 900), dec(300)).unwrap();
    let before_circ = s.circulating_stab;
    let before = s.collaterals.clone();
    let index_before = s.cr_index.entries.clone();
    let (minted, id) = s.open_cdp(col(0, 1000), dec(500)).unwrap();
    assert_eq!(s.collaterals[0].highest_cr, dec(2));
    assert!(s.collaterals[0].initialized);
    assert_eq!(s.collateral_amount(0), Some(dec(1000)));
    let (back, left) = s.close_cdp(id, minted).unwrap();
    assert_eq!(back, col(0, 1000));
    assert_eq!(left.amount, dec(0));
    assert_eq!(s.circulating_stab, before_circ);
    assert_eq!(s.cr_index.entries, index_before);
    assert_eq!(s.collateral_amount(0), Some(dec(0)));
    for (now, then) in s.collaterals.iter().zip(before.iter()) {
        assert_eq!(now.minted_stab, then.minted_stab);
        assert_eq!(now.mcr, then.mcr);
        assert_eq!(now.liquidation_collateral_ratio, then.liquidation_collateral_ratio);
        assert_eq!(now.treasury, then.treasury);
    }
}

#[test]
fn open_then_close_returns_collateral() {
    let mut s = engine();
    let (minted, id) = s.open_cdp(col(0, 1000), dec(500)).unwrap();
    assert_eq!(minted, stab(500));
    assert_eq!(id, 1);
    let (back, left) = s.close_cdp(1, stab(500)).unwrap();
    assert_eq!(back.amount, dec(1000));
    assert_eq!(left.amount, dec(0));
    assert_eq!(s.cdps[0].status, CdpStatus::Closed);
    assert_eq!(s.close_cdp(1, stab(500)), Err(EngineError::NotHealthy));
}

#[test]
fn mark_then_liquidate_with_marker() {
    let mut s = engine();
    s.open_cdp(col(0, 1000), dec(500)).unwrap();
    s.change_collateral_price(0, attos(500_000_000_000_000_000)).unwrap();
    assert_eq!(s.collaterals[0].liquidation_collateral_ratio, dec(3));
    let mid = s.mark_for_liquidation(0, T0).unwrap();
    assert_eq!(s.markers[mid - 1].mark_type, CdpUpdate::Marked);
    let out = s.liquidate_position_with_marker(mid, stab(600), T0 + 300).unwrap();
    assert_eq!(out, LiquidationOutcome::Liquidated { collateral: col(0, 1000), change: stab(100), receipt: 1 });
    assert_eq!(s.cdps[0].status, CdpStatus::Liquidated);
    assert_eq!(s.liquidate_position_with_marker(mid, stab(600), T0 + 300), Err(EngineError::MarkerAlreadyUsed));
}

#[test]
fn liquidation_before_delay_is_too_early() {
    let mut s = engine();
    s.open_cdp(col(0, 1000), dec(500)).unwrap();
    s.change_collateral_price(0, attos(500_000_000_000_000_000)).unwrap();
    let mid = s.mark_for_liquidation(0, T0).unwrap();
    assert_eq!(s.liquidate_position_with_marker(mid, stab(600), T0 + 240), Err(EngineError::TooEarly));
    assert_eq!(s.liquidate_position_with_marker(mid, stab(499), T0 + 300), Err(EngineError::InsufficientPayment));
    assert_eq!(s.liquidate_position_with_marker(mid, col(0, 600), T0 + 300), Err(EngineError::WrongResource));
    assert_eq!(s.liquidate_position_with_marker(5, stab(600), T0 + 300), Err(EngineError::UnknownMarker));
}

#[test]
fn mark_refusals() {
    let mut s = engine();
    assert_eq!(s.mark_for_liquidation(0, T0), Err(EngineError::NoLoans));
    assert_eq!(s.mark_for_liquidation(5, T0), Err(EngineError::NotAccepted));
    s.open_cdp(col(0, 1000), dec(500)).unwrap();
    assert_eq!(s.mark_for_liquidation(0, T0), Err(EngineError::MarkNotEligible));
    assert_eq!(s.liquidate_position_without_marker(stab(600), Some(0), 0, T0), Err(EngineError::NoLoans));
    s.change_collateral_price(0, attos(500_000_000_000_000_000)).unwrap();
    s.mark_for_liquidation(0, T0).unwrap();
    assert_eq!(s.liquidate_position_without_marker(stab(600), Some(1), 0, T0 + 600), Err(EngineError::SkipOutOfRange));
}

#[test]
fn appreciated_pool_unit_is_saved_at_mark() {
    let mut s = engine();
    s.add_pool_collateral(200, 0, true, dec(1), true).unwrap();
    s.open_cdp(Bucket { resource: Resource::PoolUnit(0), amount: dec(1000) }, dec(500)).unwrap();
    s.change_collateral_price(0, attos(500_000_000_000_000_000)).unwrap();
    s.set_redemption_rate(0, dec(2)).unwrap();
    let mid = s.mark_for_liquidation(0, T0).unwrap();
    assert_eq!(s.markers[mid - 1].mark_type, CdpUpdate::Saved);
    assert_eq!(s.liquidate_position_with_marker(mid, stab(600), T0 + 300), Err(EngineError::MarkerWrongType));
}

#[test]
fn fee_split_between_fines() {
    let mut s = engine();
    let (_m, id) = s.open_cdp(col(0, 4500), dec(2000)).unwrap();
    s.change_internal_price(dec(2)).unwrap();
    s.change_collateral_price(0, dec(1)).unwrap();
    let mid = s.mark_for_liquidation(0, T0).unwrap();
    assert_eq!(s.collateral_amount(0), Some(dec(4500)));
    let out = s.liquidate_position_with_marker(mid, stab(2000), T0 + 300).unwrap();
    assert_eq!(s.collateral_amount(0), Some(dec(0)));
    assert_eq!(out, LiquidationOutcome::Liquidated { collateral: col(0, 4400), change: stab(0), receipt: 1 });
    assert_eq!(s.collaterals[0].treasury, dec(100));
    assert_eq!(s.cdps[id - 1].collateral_amount, dec(0));
}

#[test]
fn force_mint_returns_excess() {
    let mut s = engine();
    s.open_cdp(col(0, 360), dec(10)).unwrap();
    let (minted, excess) = s.force_mint(0, col(0, 100), dec(1)).unwrap();
    assert_eq!(minted, stab(90));
    assert_eq!(excess, Some(col(0, 10)));
    assert_eq!(s.cdps[0].minted_stab, dec(100));
}

#[test]
fn partial_close_of_whole_debt_closes() {
    let mut s = engine();
    let (_m, id) = s.open_cdp(col(0, 1000), dec(500)).unwrap();
    let r = s.partial_close_cdp(id, stab(600)).unwrap();
    assert_eq!(r, Some((col(0, 1000), stab(100))));
    assert_eq!(s.cdps[0].status, CdpStatus::Closed);
    let (_m, id2) = s.open_cdp(col(0, 1000), dec(500)).unwrap();
    let r = s.partial_close_cdp(id2, stab(500)).unwrap();
    assert_eq!(r, Some((col(0, 1000), stab(0))));
}

#[test]
fn force_liquidate_below_one_needs_full_payment() {
    let mut s = engine();
    s.open_cdp(col(0, 1000), dec(500)).unwrap();
    s.change_collateral_price(0, attos(400_000_000_000_000_000)).unwrap();
    assert_eq!(s.force_liquidate(0, stab(100), dec(1), false), Err(EngineError::InsufficientPayment));
    let (taken, change) = s.force_liquidate(0, stab(600), dec(1), false).unwrap();
    assert_eq!(taken.amount, dec(1000));
    assert_eq!(change.amount, dec(100));
    assert_eq!(s.cdps[0].status, CdpStatus::ForceLiquidated);
}

#[test]
fn open_refusals() {
    let mut s = engine();
    assert_eq!(s.open_cdp(col(0, 1000), attos(500_000_000_000_000_000)), Err(EngineError::BelowMinimumMint));
    assert_eq!(s.open_cdp(col(7, 1000), dec(5)), Err(EngineError::NotAccepted));
    assert_eq!(s.open_cdp(stab(1000), dec(5)), Err(EngineError::NotAccepted));
    s.edit_collateral(0, attos(1_500_000_000_000_000_000), true, attos(500_000_000_000_000_000)).unwrap();
    s.open_cdp(col(1, 1000), dec(100)).unwrap();
    assert_eq!(s.open_cdp(col(0, 1000), dec(200)), Err(EngineError::ShareCapExceeded));
    s.set_stops(false, true, false, false, false);
    assert_eq!(s.open_cdp(col(0, 1000), dec(5)), Err(EngineError::OperationDisabled));
}

#[test]
fn full_bucket_is_refused() {
    let mut s = engine();
    s.set_max_vector_length(2);
    s.open_cdp(col(0, 1000), dec(500)).unwrap();
    s.open_cdp(col(0, 1000), dec(500)).unwrap();
    assert_eq!(s.open_cdp(col(0, 1000), dec(500)), Err(EngineError::CrWindowFull));
    s.open_cdp(col(0, 1001), dec(500)).unwrap();
    assert_eq!(s.cdps.len(), 3);
}

#[test]
fn lowest_ratio_is_marked_first_in_order() {
    let mut s = engine();
    s.open_cdp(col(0, 1200), dec(500)).unwrap();
    s.open_cdp(col(0, 1000), dec(500)).unwrap();
    s.open_cdp(col(0, 1000), dec(500)).unwrap();
    s.change_collateral_price(0, attos(500_000_000_000_000_000)).unwrap();
    s.mark_for_liquidation(0, T0).unwrap();
    assert_eq!(s.cdps[1].status, CdpStatus::Marked);
    assert_eq!(s.cdps[2].status, CdpStatus::Healthy);
    s.mark_for_liquidation(0, T0).unwrap();
    assert_eq!(s.cdps[2].status, CdpStatus::Marked);
    assert_eq!(s.marked[0].id, 2);
    assert_eq!(s.marked[1].id, 3);
    assert!(s.marked[0].placing < s.marked[1].placing);
}

#[test]
fn remaining_refusals() {
    let mut s = engine();
    let (_m, id) = s.open_cdp(col(0, 1000), dec(500)).unwrap();
    assert_eq!(s.liquidate_position_without_marker(stab(600), None, id, T0), Err(EngineError::NotMarked));
    assert_eq!(s.liquidate_position_without_marker(stab(600), None, 9, T0), Err(EngineError::UnknownCdp));
    assert_eq!(s.retrieve_leftover_collateral(id), Err(EngineError::NotLiquidated));
    assert_eq!(s.retrieve_leftover_collateral(0), Err(EngineError::UnknownCdp));
    s.add_pool_collateral(200, 0, false, dec(1), true).unwrap();
    let units = Bucket { resource: Resource::PoolUnit(0), amount: dec(10) };
    assert_eq!(s.force_mint(0, units, dec(1)), Err(EngineError::NoSuitableCdp));
    assert_eq!(s.add_pool_collateral(201, 5, false, dec(1), true), Err(EngineError::NotAccepted));
    assert_eq!(s.add_pool_collateral(200, 0, false, dec(1), true), Err(EngineError::AlreadyAccepted));
    assert_eq!(s.add_collateral(100, dec(2), dec(1)), Err(EngineError::AlreadyAccepted));
    assert_eq!(s.top_up_cdp(id, units), Err(EngineError::WrongResource));
    assert_eq!(s.borrow_more(id, dec(10_000)), Err(EngineError::InsufficientCollateral));
    s.set_stops(false, false, true, false, false);
    assert_eq!(s.close_cdp(id, stab(500)), Err(EngineError::OperationDisabled));
    assert_eq!(s.remove_collateral(id, dec(1)), Err(EngineError::OperationDisabled));
    assert_eq!(s.cdps[0].status, CdpStatus::Healthy);
}

#[test]
fn highest_ratio_follows_insertions() {
    let mut s = engine();
    assert!(!s.collaterals[0].initialized);
    assert_eq!(s.collaterals[0].highest_cr, dec(0));
    let (_m, id) = s.open_cdp(col(0, 1000), dec(500)).unwrap();
    s.open_cdp(col(0, 3000), dec(1000)).unwrap();
    assert_eq!(s.collaterals[0].highest_cr, dec(3));
    s.top_up_cdp(id, col(0, 1500)).unwrap();
    assert_eq!(s.collaterals[0].highest_cr, dec(5));
    s.remove_collateral(id, dec(1000)).unwrap();
    assert_eq!(s.collaterals[0].highest_cr, dec(5));
    assert_eq!(s.collateral_amount(0), Some(dec(4500)));
    assert!(!s.collaterals[1].initialized);
}
