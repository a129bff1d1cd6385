//! Properties that relate several operations of the engine.

use vstd::prelude::*;
use crate::decimal::Decimal;
use crate::types::{Bucket, CdpStatus, CollateralInfo, Resource};
use crate::cr_index::has_id;
use crate::state::{collateral_total, debt_sum, lcr_of, lemma_total_update, minted_sum, queue_has, Stabilis};
use crate::decimal::mul_attos;
use crate::liquidate::LiquidationOutcome;

verus! {

/// Opening a position and then closing it with exactly the STAB it minted is
/// allowed, returns all of its collateral and no STAB, and leaves the
/// circulating supply, the debt of every collateral and pool unit, and the
/// ratio index as they were. Of the collateral records only the notes that
/// a ratio was once indexed (`initialized`, `highest_cr`) may have moved.
pub proof fn lemma_open_close_round_trip(
    s0: Stabilis,
    s1: Stabilis,
    s2: Stabilis,
    collateral: Bucket,
    stab: Decimal,
    stab_out: Bucket,
    id: usize,
    col: Bucket,
    left: Bucket,
)
    requires
        s0.wf(),
        !s0.parameters.stop_closings,
        Stabilis::open_effect(s0, s1, collateral, stab, stab_out, id),
    ensures
        s1.close_refusal(id, stab_out).is_none(),
        Stabilis::close_effect(s1, s2, id, stab_out, col, left) ==> {
            &&& col == collateral
            &&& left.amount@ == 0
            &&& s2.cdp(id).status == CdpStatus::Closed
            &&& s2.circulating_stab@ == s0.circulating_stab@
            &&& s2.collaterals@.len() == s0.collaterals@.len()
            &&& forall|i: int| 0 <= i < s0.collaterals@.len() ==> #[trigger] s2.collaterals@[i] == (CollateralInfo {
                initialized: s2.collaterals@[i].initialized,
                highest_cr: s2.collaterals@[i].highest_cr,
                ..s0.collaterals@[i]
            })
            &&& s2.pool_units@ == s0.pool_units@
            &&& s2.cr_index.entries@ == s0.cr_index.entries@
        },
{
    assert(s1.cdp(id) == s0.opened_cdp(collateral, stab));
    if Stabilis::close_effect(s1, s2, id, stab_out, col, left) {
        let parent = s1.cdp(id).parent;
        assert(s2.collaterals@[parent as int].minted_stab == s0.collaterals@[parent as int].minted_stab);
        let e = s0.cr_index.entries@;
        let p = s1.index_pos(id);
        assert(s1.cr_index.entries@[e.len() as int].id == id);
        assert(p == e.len()) by {
            if p != e.len() {
                assert(s1.cr_index.entries@[p] == e[p]);
                assert(e[p].id <= s0.cdps@.len());
            }
        }
        assert(s2.cr_index.entries@ =~= e);
        match collateral.resource {
            Resource::PoolUnit(j) => {
                assert(s2.pool_units@[j as int] == s0.pool_units@[j as int]);
            },
            _ => {},
        }
        assert(s2.pool_units@ =~= s0.pool_units@);
    }
}

/// In every well-formed state the circulating supply equals both the debt of
/// the live positions and the sum of the debts recorded per parent collateral.
pub proof fn lemma_accounting_closure(s: Stabilis)
    requires
        s.wf(),
    ensures
        debt_sum(s.cdps@) == s.circulating_stab@,
        minted_sum(s.collaterals@) == s.circulating_stab@,
{
}

/// In every well-formed state a healthy position appears exactly once in the
/// ratio index, under its parent and its stored ratio, and not in the queue
/// of marked positions; a marked position appears in the queue and not in
/// the index; a closed or liquidated position appears in neither.
pub proof fn lemma_index_consistency(s: Stabilis, id: usize)
    requires
        s.wf(),
        s.has_cdp(id),
    ensures
        s.cdp(id).status == CdpStatus::Healthy ==> {
            let e = s.cr_index.entries@;
            &&& exists|i: int| 0 <= i < e.len() && e[i].id == id && e[i].parent == s.cdp(id).parent
                && e[i].cr == s.cdp(id).collateral_stab_ratio
            &&& forall|i: int, j: int| 0 <= i < e.len() && 0 <= j < e.len() && e[i].id == id && e[j].id == id ==> i == j
            &&& !queue_has(s.marked@, id)
        },
        s.cdp(id).status == CdpStatus::Marked ==> queue_has(s.marked@, id) && !has_id(s.cr_index.entries@, id),
        s.cdp(id).status != CdpStatus::Healthy && s.cdp(id).status != CdpStatus::Marked ==> !queue_has(s.marked@, id)
            && !has_id(s.cr_index.entries@, id),
{
    let e = s.cr_index.entries@;
    let k = id - 1;
    assert(s.cdps@[k] == s.cdp(id));
    if s.cdp(id).status == CdpStatus::Healthy {
        let i = choose|i: int| 0 <= i < e.len() && e[i].id == id;
        assert(e[i].parent == s.cdp(id).parent && e[i].cr == s.cdp(id).collateral_stab_ratio);
    }
    if queue_has(s.marked@, id) {
        let i = choose|i: int| 0 <= i < s.marked@.len() && s.marked@[i].id == id;
        assert(s.cdps@[s.marked@[i].id - 1].status == CdpStatus::Marked);
    }
    if has_id(e, id) {
        let i = choose|i: int| 0 <= i < e.len() && e[i].id == id;
        assert(s.cdps@[e[i].id - 1].status == CdpStatus::Healthy);
    }
}

/// In every well-formed state, which every price change preserves, each
/// collateral's liquidation ratio is `mcr * (internal price / usd price)`.
pub proof fn lemma_lcr_coherence(s: Stabilis, i: int)
    requires
        s.wf(),
        0 <= i < s.collaterals@.len(),
    ensures
        s.collaterals@[i].liquidation_collateral_ratio@ == lcr_of(
            s.collaterals@[i].mcr@,
            s.internal_stab_price@,
            s.collaterals@[i].usd_price@,
        ),
{
    assert(s.collaterals@[i].usd_price@ != 0);
}

/// A position in a terminal state either may already have its receipt
/// burned, or was liquidated and still holds collateral, which
/// `retrieve_leftover_collateral` hands out in full, after which the receipt
/// may be burned.
pub proof fn lemma_terminal_reachable(s: Stabilis, id: usize)
    requires
        s.wf(),
        s.has_cdp(id),
        s.cdp(id).status != CdpStatus::Healthy,
        s.cdp(id).status != CdpStatus::Marked,
    ensures
        s.receipt_burnable(id) || ((s.cdp(id).status == CdpStatus::Liquidated || s.cdp(id).status
            == CdpStatus::ForceLiquidated) && s.cdp(id).collateral_amount@ > 0),
{
    assert(s.cdp_ok(s.cdps@[id - 1]));
}

/// A liquidation takes the liquidated position's backing, its stored ratio
/// times its debt, off its parent's collateral total.
pub proof fn lemma_liquidation_lowers_collateral_total(
    s0: Stabilis,
    s1: Stabilis,
    mid: usize,
    payment: Bucket,
    now: u64,
    delay: u64,
    out: LiquidationOutcome,
)
    requires
        s0.wf(),
        1 <= mid <= s0.markers@.len(),
        Stabilis::liquidation_effect(s0, s1, mid, payment, now, delay, out),
        out is Liquidated,
    ensures
        ({
            let c = s0.cdp(s0.markers@[mid - 1].marked_id);
            collateral_total(s1.cdps@, c.parent) == collateral_total(s0.cdps@, c.parent) - mul_attos(
                c.collateral_stab_ratio@,
                c.minted_stab@,
            )
        }),
{
    let id = s0.markers@[mid - 1].marked_id;
    let c = s0.cdp(id);
    let cr = s0.fresh_cr(c);
    if cr >= s0.collaterals@[c.parent as int].liquidation_collateral_ratio@ {
        assert(out is Saved);
    }
    let c1 = s1.cdps@[id - 1];
    assert(s1.cdps@ == s0.cdps@.update(id - 1, c1));
    lemma_total_update(s0.cdps@, id - 1, c1, c.parent);
}

/// Closing a position takes its backing, its stored ratio times its debt,
/// off its parent's collateral total.
pub proof fn lemma_close_lowers_collateral_total(s0: Stabilis, s1: Stabilis, id: usize, payment: Bucket, col: Bucket, left: Bucket)
    requires
        s0.wf(),
        Stabilis::close_effect(s0, s1, id, payment, col, left),
    ensures
        collateral_total(s1.cdps@, s0.cdp(id).parent) == collateral_total(s0.cdps@, s0.cdp(id).parent) - mul_attos(
            s0.cdp(id).collateral_stab_ratio@,
            s0.cdp(id).minted_stab@,
        ),
{
    let c = s0.cdp(id);
    lemma_total_update(s0.cdps@, id - 1, s1.cdps@[id - 1], c.parent);
}

} // verus!
