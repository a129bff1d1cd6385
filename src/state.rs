//! The engine's state, its well-formedness, and the lemmas that carry
//! well-formedness across a change of one position.

use vstd::prelude::*;
use crate::decimal::{div_attos, mul_attos, Decimal};
use crate::types::{Cdp, CdpMarker, CdpStatus, CdpUpdate, CollateralInfo, LiquidationReceipt, PoolUnitInfo, ProtocolParameters, Resource};
use crate::cr_index::{has_id, ids_unique, CrEntry, CrIndex};

verus! {

/// A position waiting for liquidation, keyed by its placement number.
#[derive(Clone, Copy, Debug, PartialEq, Eq, Structural)]
pub struct MarkedEntry {
    pub placing: u64,
    pub id: usize,
}

/// The engine. Position `k + 1` is `cdps[k]`, marker `k + 1` is `markers[k]`,
/// liquidation receipt `k + 1` is `receipts[k]`.
pub struct Stabilis {
    pub collaterals: Vec<CollateralInfo>,
    pub pool_units: Vec<PoolUnitInfo>,
    pub cr_index: CrIndex,
    pub cdps: Vec<Cdp>,
    pub markers: Vec<CdpMarker>,
    /// Marked positions, in order of marking.
    pub marked: Vec<MarkedEntry>,
    pub receipts: Vec<LiquidationReceipt>,
    pub internal_stab_price: Decimal,
    pub circulating_stab: Decimal,
    pub marker_placing_counter: u64,
    pub parameters: ProtocolParameters,
}

pub open spec fn is_active(s: CdpStatus) -> bool {
    s == CdpStatus::Healthy || s == CdpStatus::Marked
}

/// The debt a position contributes to the circulating supply.
pub open spec fn debt(c: Cdp) -> int {
    if is_active(c.status) { c.minted_stab@ } else { 0 }
}

pub open spec fn debt_sum(s: Seq<Cdp>) -> int
    decreases s.len(),
{
    if s.len() == 0 { 0 } else { debt_sum(s.drop_last()) + debt(s.last()) }
}

pub open spec fn minted_sum(s: Seq<CollateralInfo>) -> int
    decreases s.len(),
{
    if s.len() == 0 { 0 } else { minted_sum(s.drop_last()) + s.last().minted_stab@ }
}

/// The parent collateral position `c` holds for collateral `parent`, valued
/// at its stored ratio times its debt; zero unless it is live and of `parent`.
pub open spec fn backing_of(c: Cdp, parent: usize) -> int {
    if is_active(c.status) && c.parent == parent {
        mul_attos(c.collateral_stab_ratio@, c.minted_stab@)
    } else {
        0
    }
}

/// The collateral total of `parent`: the backing of all its live positions.
pub open spec fn collateral_total(s: Seq<Cdp>, parent: usize) -> int
    decreases s.len(),
{
    if s.len() == 0 { 0 } else { collateral_total(s.drop_last(), parent) + backing_of(s.last(), parent) }
}

/// Every partial sum of `collateral_total(s, parent)`, and every term, fits.
pub open spec fn collateral_total_fits(s: Seq<Cdp>, parent: usize) -> bool
    decreases s.len(),
{
    if s.len() == 0 {
        true
    } else {
        &&& collateral_total_fits(s.drop_last(), parent)
        &&& (is_active(s.last().status) && s.last().parent == parent ==> crate::decimal::fits(
            mul_attos(s.last().collateral_stab_ratio@, s.last().minted_stab@),
        ))
        &&& crate::decimal::fits(collateral_total(s, parent))
    }
}

pub proof fn lemma_total_update(s: Seq<Cdp>, k: int, c: Cdp, parent: usize)
    requires
        0 <= k < s.len(),
    ensures
        collateral_total(s.update(k, c), parent) == collateral_total(s, parent) - backing_of(s[k], parent)
            + backing_of(c, parent),
    decreases s.len(),
{
    let t = s.update(k, c);
    if k == s.len() - 1 {
        assert(t.drop_last() =~= s.drop_last());
    } else {
        assert(t.drop_last() =~= s.drop_last().update(k, c));
        lemma_total_update(s.drop_last(), k, c, parent);
    }
}

/// The index entry that position `k` (0-based) should have.
pub open spec fn entry_of(k: int, c: Cdp) -> CrEntry {
    CrEntry { parent: c.parent, cr: c.collateral_stab_ratio, id: (k + 1) as usize, collateral: c.collateral }
}

/// The ratio index holds exactly the healthy positions, once each, under
/// their stored ratio.
pub open spec fn index_ok(s: Seq<CrEntry>, cdps: Seq<Cdp>) -> bool {
    &&& ids_unique(s)
    &&& forall|i: int|
        #![trigger s[i]]
        0 <= i < s.len() ==> 1 <= s[i].id <= cdps.len() && cdps[s[i].id - 1].status
            == CdpStatus::Healthy && s[i] == entry_of(s[i].id - 1, cdps[s[i].id - 1])
    &&& forall|k: int|
        #![trigger cdps[k]]
        0 <= k < cdps.len() && cdps[k].status == CdpStatus::Healthy ==> has_id(s, (k + 1) as usize)
}

pub open spec fn queue_has(q: Seq<MarkedEntry>, id: usize) -> bool {
    exists|i: int| 0 <= i < q.len() && q[i].id == id
}

/// Marker `m` is an unused `Marked` marker of position `k` (0-based).
pub open spec fn marker_ok(markers: Seq<CdpMarker>, k: int, m: usize) -> bool {
    &&& 1 <= m <= markers.len()
    &&& !markers[m - 1].used
    &&& markers[m - 1].mark_type == CdpUpdate::Marked
    &&& markers[m - 1].marked_id == k + 1
}

/// The queue holds exactly the marked positions, once each, and each marked
/// position refers to its live marker.
pub open spec fn marked_ok(q: Seq<MarkedEntry>, cdps: Seq<Cdp>, markers: Seq<CdpMarker>) -> bool {
    &&& forall|i: int, j: int|
        0 <= i < q.len() && 0 <= j < q.len() && i != j ==> q[i].id != q[j].id
    &&& forall|i: int|
        #![trigger q[i]]
        0 <= i < q.len() ==> 1 <= q[i].id <= cdps.len() && cdps[q[i].id - 1].status
            == CdpStatus::Marked
    &&& forall|k: int|
        #![trigger cdps[k]]
        0 <= k < cdps.len() && cdps[k].status == CdpStatus::Marked ==> queue_has(q, (k + 1) as usize)
            && marker_ok(markers, k, cdps[k].marker_id)
}

/// The liquidation ratio of a collateral with minimum ratio `mcr` and price
/// `price` when STAB's internal price is `internal`: `mcr * (internal / price)`.
pub open spec fn lcr_of(mcr: int, internal: int, price: int) -> int {
    mul_attos(mcr, div_attos(internal, price))
}

/// Every collateral has a nonzero price and its liquidation ratio agrees with
/// its minimum ratio, its price and the internal price.
pub open spec fn lcr_coherent(cols: Seq<CollateralInfo>, internal: int) -> bool {
    forall|i: int|
        0 <= i < cols.len() ==> (#[trigger] cols[i]).usd_price@ != 0
            && cols[i].liquidation_collateral_ratio@ == lcr_of(cols[i].mcr@, internal, cols[i].usd_price@)
}

/// `s1` keeps `s0`'s positions, ratio index, markers, queue of marked
/// positions, receipts, placement counter, parameters and circulating supply.
pub open spec fn positions_unchanged(s0: Stabilis, s1: Stabilis) -> bool {
    &&& s1.cdps == s0.cdps
    &&& s1.cr_index == s0.cr_index
    &&& s1.markers == s0.markers
    &&& s1.marked == s0.marked
    &&& s1.receipts == s0.receipts
    &&& s1.marker_placing_counter == s0.marker_placing_counter
    &&& s1.parameters == s0.parameters
    &&& s1.circulating_stab == s0.circulating_stab
}

impl Stabilis {
    /// Position `c` is consistent with the collateral tables.
    pub open spec fn cdp_ok(&self, c: Cdp) -> bool {
        &&& c.parent < self.collaterals@.len()
        &&& match c.collateral {
            Resource::Collateral(i) => i == c.parent && !c.is_pool_unit,
            Resource::PoolUnit(j) => j < self.pool_units@.len() && self.pool_units@[j as int].parent
                == c.parent && c.is_pool_unit,
            _ => false,
        }
        &&& is_active(c.status) ==> c.minted_stab@ > 0
        &&& c.collateral_amount@ >= 0
        &&& c.status == CdpStatus::Closed ==> c.collateral_amount@ == 0
    }

    pub open spec fn wf(&self) -> bool {
        &&& self.cdps@.len() < usize::MAX
        &&& self.markers@.len() < usize::MAX
        &&& self.receipts@.len() < usize::MAX
        &&& self.cr_index.entries@.len() < usize::MAX
        &&& self.collaterals@.len() < usize::MAX
        &&& self.pool_units@.len() < usize::MAX
        &&& forall|j: int|
            0 <= j < self.pool_units@.len() ==> #[trigger] self.pool_units@[j].parent
                < self.collaterals@.len()
        &&& forall|k: int| 0 <= k < self.cdps@.len() ==> self.cdp_ok(#[trigger] self.cdps@[k])
        &&& debt_sum(self.cdps@) == self.circulating_stab@
        &&& minted_sum(self.collaterals@) == self.circulating_stab@
        &&& index_ok(self.cr_index.entries@, self.cdps@)
        &&& marked_ok(self.marked@, self.cdps@, self.markers@)
        &&& lcr_coherent(self.collaterals@, self.internal_stab_price@)
    }

    /// Position `id`, which must exist.
    pub open spec fn cdp(&self, id: usize) -> Cdp {
        self.cdps@[id - 1]
    }

    pub open spec fn has_cdp(&self, id: usize) -> bool {
        1 <= id <= self.cdps@.len()
    }

    /// The liquidation ratio of collateral `i`.
    pub open spec fn lcr(&self, i: usize) -> int {
        self.collaterals@[i as int].liquidation_collateral_ratio@
    }
}

pub proof fn lemma_debt_update(s: Seq<Cdp>, k: int, c: Cdp)
    requires
        0 <= k < s.len(),
    ensures
        debt_sum(s.update(k, c)) == debt_sum(s) - debt(s[k]) + debt(c),
    decreases s.len(),
{
    let t = s.update(k, c);
    if k == s.len() - 1 {
        assert(t.drop_last() =~= s.drop_last());
    } else {
        assert(t.drop_last() =~= s.drop_last().update(k, c));
        lemma_debt_update(s.drop_last(), k, c);
    }
}

pub proof fn lemma_debt_push(s: Seq<Cdp>, c: Cdp)
    ensures
        debt_sum(s.push(c)) == debt_sum(s) + debt(c),
{
    assert(s.push(c).drop_last() =~= s);
}

pub proof fn lemma_minted_update(s: Seq<CollateralInfo>, k: int, c: CollateralInfo)
    requires
        0 <= k < s.len(),
    ensures
        minted_sum(s.update(k, c)) == minted_sum(s) - s[k].minted_stab@ + c.minted_stab@,
    decreases s.len(),
{
    let t = s.update(k, c);
    if k == s.len() - 1 {
        assert(t.drop_last() =~= s.drop_last());
    } else {
        assert(t.drop_last() =~= s.drop_last().update(k, c));
        lemma_minted_update(s.drop_last(), k, c);
    }
}

pub proof fn lemma_minted_push(s: Seq<CollateralInfo>, c: CollateralInfo)
    ensures
        minted_sum(s.push(c)) == minted_sum(s) + c.minted_stab@,
{
    assert(s.push(c).drop_last() =~= s);
}

/// Changing a position that is neither indexed before nor after keeps the index.
pub proof fn lemma_index_set(s: Seq<CrEntry>, cdps: Seq<Cdp>, k: int, c: Cdp)
    requires
        cdps.len() < usize::MAX,
        index_ok(s, cdps),
        0 <= k < cdps.len(),
        cdps[k].status != CdpStatus::Healthy,
        c.status != CdpStatus::Healthy,
    ensures
        index_ok(s, cdps.update(k, c)),
{
    let t = cdps.update(k, c);
    assert forall|k2: int| 0 <= k2 < t.len() && t[k2].status == CdpStatus::Healthy implies has_id(
        s,
        (k2 + 1) as usize,
    ) by {
        assert(cdps[k2] == t[k2]);
    }
}

/// Removing the entry of a position that stops being healthy keeps the index.
pub proof fn lemma_index_remove(s: Seq<CrEntry>, cdps: Seq<Cdp>, p: int, c: Cdp)
    requires
        cdps.len() < usize::MAX,
        index_ok(s, cdps),
        0 <= p < s.len(),
        c.status != CdpStatus::Healthy,
    ensures
        index_ok(s.remove(p), cdps.update(s[p].id - 1, c)),
{
    let k = s[p].id - 1;
    let t = cdps.update(k, c);
    let s2 = s.remove(p);
    assert forall|i: int| 0 <= i < s2.len() implies 1 <= s2[i].id <= t.len() && t[s2[i].id - 1].status
        == CdpStatus::Healthy && s2[i] == entry_of(s2[i].id - 1, t[s2[i].id - 1]) by {
        if i < p {
            assert(s2[i] == s[i]);
        } else {
            assert(s2[i] == s[i + 1]);
        }
    }
    assert forall|k2: int| 0 <= k2 < t.len() && t[k2].status == CdpStatus::Healthy implies has_id(
        s2,
        (k2 + 1) as usize,
    ) by {
        assert(cdps[k2] == t[k2]);
        let i = choose|i: int| 0 <= i < s.len() && s[i].id == (k2 + 1) as usize;
        if i < p {
            assert(s2[i] == s[i]);
        } else {
            assert(s2[i - 1] == s[i]);
        }
    }
}

/// A position becoming healthy gets its entry appended.
pub proof fn lemma_index_add(s: Seq<CrEntry>, cdps: Seq<Cdp>, k: int, c: Cdp)
    requires
        cdps.len() < usize::MAX,
        index_ok(s, cdps),
        0 <= k < cdps.len(),
        cdps[k].status != CdpStatus::Healthy,
        c.status == CdpStatus::Healthy,
    ensures
        index_ok(s.push(entry_of(k, c)), cdps.update(k, c)),
{
    let t = cdps.update(k, c);
    let s2 = s.push(entry_of(k, c));
    assert forall|i: int| 0 <= i < s.len() implies s[i].id != (k + 1) as usize by {
        assert(cdps[s[i].id - 1].status == CdpStatus::Healthy);
    }
    assert forall|k2: int| 0 <= k2 < t.len() && t[k2].status == CdpStatus::Healthy implies has_id(
        s2,
        (k2 + 1) as usize,
    ) by {
        if k2 == k {
            assert(s2[s.len() as int].id == (k + 1) as usize);
        } else {
            let i = choose|i: int| 0 <= i < s.len() && s[i].id == (k2 + 1) as usize;
            assert(s2[i] == s[i]);
        }
    }
    assert forall|i: int| 0 <= i < s2.len() implies 1 <= s2[i].id <= t.len() && t[s2[i].id - 1].status
        == CdpStatus::Healthy && s2[i] == entry_of(s2[i].id - 1, t[s2[i].id - 1]) by {
        if i < s.len() {
            assert(s2[i] == s[i]);
        }
    }
}

/// A new healthy position gets its entry appended.
pub proof fn lemma_index_new(s: Seq<CrEntry>, cdps: Seq<Cdp>, c: Cdp)
    requires
        index_ok(s, cdps),
        c.status == CdpStatus::Healthy,
        cdps.len() < usize::MAX,
    ensures
        index_ok(s.push(entry_of(cdps.len() as int, c)), cdps.push(c)),
{
    let k = cdps.len() as int;
    let t = cdps.push(c);
    let s2 = s.push(entry_of(k, c));
    assert forall|i: int| 0 <= i < s.len() implies s[i].id != (k + 1) as usize by {
        assert(cdps[s[i].id - 1].status == CdpStatus::Healthy);
    }
    assert forall|k2: int| 0 <= k2 < t.len() && t[k2].status == CdpStatus::Healthy implies has_id(
        s2,
        (k2 + 1) as usize,
    ) by {
        if k2 == k {
            assert(s2[s.len() as int].id == (k + 1) as usize);
        } else {
            assert(t[k2] == cdps[k2]);
            let i = choose|i: int| 0 <= i < s.len() && s[i].id == (k2 + 1) as usize;
            assert(s2[i] == s[i]);
        }
    }
    assert forall|i: int| 0 <= i < s2.len() implies 1 <= s2[i].id <= t.len() && t[s2[i].id - 1].status
        == CdpStatus::Healthy && s2[i] == entry_of(s2[i].id - 1, t[s2[i].id - 1]) by {
        if i < s.len() {
            assert(s2[i] == s[i]);
            assert(t[s[i].id - 1] == cdps[s[i].id - 1]);
        }
    }
}

/// Changing a position that is neither marked before nor after keeps the queue.
pub proof fn lemma_marked_set(q: Seq<MarkedEntry>, cdps: Seq<Cdp>, markers: Seq<CdpMarker>, k: int, c: Cdp)
    requires
        cdps.len() < usize::MAX,
        marked_ok(q, cdps, markers),
        0 <= k < cdps.len(),
        cdps[k].status != CdpStatus::Marked,
        c.status != CdpStatus::Marked,
    ensures
        marked_ok(q, cdps.update(k, c), markers),
{
    let t = cdps.update(k, c);
    assert forall|k2: int| 0 <= k2 < t.len() && t[k2].status == CdpStatus::Marked implies queue_has(
        q,
        (k2 + 1) as usize,
    ) && marker_ok(markers, k2, t[k2].marker_id) by {
        assert(cdps[k2] == t[k2]);
    }
}

/// A new position that is not marked keeps the queue.
pub proof fn lemma_marked_new(q: Seq<MarkedEntry>, cdps: Seq<Cdp>, markers: Seq<CdpMarker>, c: Cdp)
    requires
        cdps.len() < usize::MAX,
        marked_ok(q, cdps, markers),
        c.status != CdpStatus::Marked,
    ensures
        marked_ok(q, cdps.push(c), markers),
{
    let t = cdps.push(c);
    assert forall|i: int| 0 <= i < q.len() implies 1 <= q[i].id <= t.len() && t[q[i].id - 1].status
        == CdpStatus::Marked by {
        assert(t[q[i].id - 1] == cdps[q[i].id - 1]);
    }
    assert forall|k2: int| 0 <= k2 < t.len() && t[k2].status == CdpStatus::Marked implies queue_has(
        q,
        (k2 + 1) as usize,
    ) && marker_ok(markers, k2, t[k2].marker_id) by {
        assert(cdps[k2] == t[k2]);
    }
}

/// Markers that no marked position refers to may change, and new ones may be
/// added, without disturbing the queue.
pub proof fn lemma_markers_frame(
    q: Seq<MarkedEntry>,
    cdps: Seq<Cdp>,
    markers: Seq<CdpMarker>,
    markers2: Seq<CdpMarker>,
    skip: int,
)
    requires
        marked_ok(q, cdps, markers),
        markers2.len() >= markers.len(),
        forall|j: int| 0 <= j < markers.len() && j != skip ==> markers2[j] == markers[j],
        forall|k: int|
            0 <= k < cdps.len() && cdps[k].status == CdpStatus::Marked ==> cdps[k].marker_id - 1 != skip,
    ensures
        marked_ok(q, cdps, markers2),
{
    assert forall|k2: int| 0 <= k2 < cdps.len() && cdps[k2].status == CdpStatus::Marked implies queue_has(
        q,
        (k2 + 1) as usize,
    ) && marker_ok(markers2, k2, cdps[k2].marker_id) by {
        assert(markers2[cdps[k2].marker_id - 1] == markers[cdps[k2].marker_id - 1]);
    }
}

/// Only position `k` refers to the marker that position `k` refers to.
pub proof fn lemma_marker_owned(q: Seq<MarkedEntry>, cdps: Seq<Cdp>, markers: Seq<CdpMarker>, k: int)
    requires
        marked_ok(q, cdps, markers),
        0 <= k < cdps.len(),
        cdps[k].status == CdpStatus::Marked,
    ensures
        forall|k2: int|
            0 <= k2 < cdps.len() && k2 != k && cdps[k2].status == CdpStatus::Marked
                ==> cdps[k2].marker_id != cdps[k].marker_id,
{
    assert forall|k2: int|
        0 <= k2 < cdps.len() && k2 != k && cdps[k2].status == CdpStatus::Marked implies cdps[k2].marker_id
        != cdps[k].marker_id by {
        assert(marker_ok(markers, k2, cdps[k2].marker_id));
        assert(marker_ok(markers, k, cdps[k].marker_id));
    }
}

/// Removing the queue entry of a position that stops being marked keeps the queue.
pub proof fn lemma_marked_remove(q: Seq<MarkedEntry>, cdps: Seq<Cdp>, markers: Seq<CdpMarker>, p: int, c: Cdp)
    requires
        cdps.len() < usize::MAX,
        marked_ok(q, cdps, markers),
        0 <= p < q.len(),
        c.status != CdpStatus::Marked,
    ensures
        marked_ok(q.remove(p), cdps.update(q[p].id - 1, c), markers),
{
    let k = q[p].id - 1;
    let t = cdps.update(k, c);
    let q2 = q.remove(p);
    assert forall|i: int| 0 <= i < q2.len() implies 1 <= q2[i].id <= t.len() && t[q2[i].id - 1].status
        == CdpStatus::Marked by {
        if i < p {
            assert(q2[i] == q[i]);
        } else {
            assert(q2[i] == q[i + 1]);
        }
    }
    assert forall|k2: int| 0 <= k2 < t.len() && t[k2].status == CdpStatus::Marked implies queue_has(
        q2,
        (k2 + 1) as usize,
    ) && marker_ok(markers, k2, t[k2].marker_id) by {
        assert(cdps[k2] == t[k2]);
        let i = choose|i: int| 0 <= i < q.len() && q[i].id == (k2 + 1) as usize;
        if i < p {
            assert(q2[i] == q[i]);
        } else {
            assert(q2[i - 1] == q[i]);
        }
    }
}

/// A position becoming marked, with a live marker, gets its queue entry appended.
pub proof fn lemma_marked_add(
    q: Seq<MarkedEntry>,
    cdps: Seq<Cdp>,
    markers: Seq<CdpMarker>,
    k: int,
    c: Cdp,
    placing: u64,
)
    requires
        cdps.len() < usize::MAX,
        marked_ok(q, cdps, markers),
        0 <= k < cdps.len(),
        cdps[k].status != CdpStatus::Marked,
        c.status == CdpStatus::Marked,
        marker_ok(markers, k, c.marker_id),
    ensures
        marked_ok(q.push(MarkedEntry { placing, id: (k + 1) as usize }), cdps.update(k, c), markers),
{
    let t = cdps.update(k, c);
    let e = MarkedEntry { placing, id: (k + 1) as usize };
    let q2 = q.push(e);
    assert forall|i: int| 0 <= i < q.len() implies q[i].id != (k + 1) as usize by {
        assert(cdps[q[i].id - 1].status == CdpStatus::Marked);
    }
    assert forall|k2: int| 0 <= k2 < t.len() && t[k2].status == CdpStatus::Marked implies queue_has(
        q2,
        (k2 + 1) as usize,
    ) && marker_ok(markers, k2, t[k2].marker_id) by {
        if k2 == k {
            assert(q2[q.len() as int].id == (k + 1) as usize);
        } else {
            assert(cdps[k2] == t[k2]);
            let i = choose|i: int| 0 <= i < q.len() && q[i].id == (k2 + 1) as usize;
            assert(q2[i] == q[i]);
        }
    }
    assert forall|i: int| 0 <= i < q2.len() implies 1 <= q2[i].id <= t.len() && t[q2[i].id - 1].status
        == CdpStatus::Marked by {
        if i < q.len() {
            assert(q2[i] == q[i]);
        }
    }
}

} // verus!
