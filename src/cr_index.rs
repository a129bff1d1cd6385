//! Ordered index of collateral ratios: for each parent collateral, the
//! positions it backs, found by lowest or highest ratio, ties in order of
//! insertion. A bucket is the set of entries sharing a parent and a ratio.

use vstd::prelude::*;
use crate::decimal::Decimal;
use crate::types::Resource;

verus! {

/// One indexed position.
#[derive(Clone, Copy, Debug, PartialEq, Eq, Structural)]
pub struct CrEntry {
    pub parent: usize,
    pub cr: Decimal,
    pub id: usize,
    pub collateral: Resource,
}

/// Entries in order of insertion.
pub struct CrIndex {
    pub entries: Vec<CrEntry>,
}

/// Whether some entry of `s` indexes position `id`.
pub open spec fn has_id(s: Seq<CrEntry>, id: usize) -> bool {
    exists|i: int| 0 <= i < s.len() && s[i].id == id
}

/// Whether no two entries of `s` index the same position.
pub open spec fn ids_unique(s: Seq<CrEntry>) -> bool {
    forall|i: int, j: int| 0 <= i < s.len() && 0 <= j < s.len() && i != j ==> s[i].id != s[j].id
}

/// The number of entries of `s` in the bucket of `parent` at ratio `cr`.
pub open spec fn bucket_len(s: Seq<CrEntry>, parent: usize, cr: int) -> nat
    decreases s.len(),
{
    if s.len() == 0 {
        0
    } else {
        bucket_len(s.drop_last(), parent, cr) + (if s.last().parent == parent && s.last().cr@ == cr {
            1nat
        } else {
            0nat
        })
    }
}

/// The number of entries of `s` in the bucket of `parent` at ratio `cr`,
/// not counting position `except`.
pub open spec fn bucket_len_except(s: Seq<CrEntry>, parent: usize, cr: int, except: usize) -> nat
    decreases s.len(),
{
    if s.len() == 0 {
        0
    } else {
        bucket_len_except(s.drop_last(), parent, cr, except) + (if s.last().parent == parent && s.last().cr@ == cr
            && s.last().id != except {
            1nat
        } else {
            0nat
        })
    }
}

/// Whether entry `p` of `s` has the lowest ratio among those of `parent`, and
/// comes first among those with its ratio.
pub open spec fn is_lowest(s: Seq<CrEntry>, parent: usize, p: int) -> bool {
    &&& 0 <= p < s.len()
    &&& s[p].parent == parent
    &&& forall|j: int| 0 <= j < s.len() && s[j].parent == parent ==> s[p].cr@ <= s[j].cr@
    &&& forall|j: int| 0 <= j < p && s[j].parent == parent ==> s[p].cr@ < s[j].cr@
}

/// Whether entry `p` of `s` has the highest ratio among those of `parent`
/// holding `collateral`, and comes first among those with its ratio.
pub open spec fn is_highest_of(s: Seq<CrEntry>, parent: usize, collateral: Resource, p: int) -> bool {
    &&& 0 <= p < s.len()
    &&& s[p].parent == parent
    &&& s[p].collateral == collateral
    &&& forall|j: int|
        0 <= j < s.len() && s[j].parent == parent && s[j].collateral == collateral ==> s[j].cr@
            <= s[p].cr@
    &&& forall|j: int|
        0 <= j < p && s[j].parent == parent && s[j].collateral == collateral ==> s[j].cr@ < s[p].cr@
}

impl CrIndex {
    pub fn new() -> (r: CrIndex)
        ensures
            r.entries@ == Seq::<CrEntry>::empty(),
    {
        CrIndex { entries: Vec::new() }
    }

    /// The number of entries in the bucket of `parent` at ratio `cr`.
    pub fn bucket_count(&self, parent: usize, cr: Decimal) -> (r: u64)
        requires
            self.entries@.len() < u64::MAX,
        ensures
            r == bucket_len(self.entries@, parent, cr@),
    {
        let mut n: u64 = 0;
        let mut i: usize = 0;
        while i < self.entries.len()
            invariant
                i <= self.entries@.len() < u64::MAX,
                n == bucket_len(self.entries@.subrange(0, i as int), parent, cr@),
                n <= i,
            decreases self.entries@.len() - i,
        {
            let e = self.entries[i];
            assert(self.entries@.subrange(0, i as int + 1).drop_last() =~= self.entries@.subrange(0, i as int));
            if e.parent == parent && e.cr.attos == cr.attos {
                n = n + 1;
            }
            i = i + 1;
        }
        assert(self.entries@.subrange(0, i as int) =~= self.entries@);
        n
    }

    /// The number of entries in the bucket of `parent` at ratio `cr`, not
    /// counting position `except`.
    pub fn bucket_count_except(&self, parent: usize, cr: Decimal, except: usize) -> (r: u64)
        requires
            self.entries@.len() < u64::MAX,
        ensures
            r == bucket_len_except(self.entries@, parent, cr@, except),
    {
        let mut n: u64 = 0;
        let mut i: usize = 0;
        while i < self.entries.len()
            invariant
                i <= self.entries@.len() < u64::MAX,
                n == bucket_len_except(self.entries@.subrange(0, i as int), parent, cr@, except),
                n <= i,
            decreases self.entries@.len() - i,
        {
            let e = self.entries[i];
            assert(self.entries@.subrange(0, i as int + 1).drop_last() =~= self.entries@.subrange(0, i as int));
            if e.parent == parent && e.cr.attos == cr.attos && e.id != except {
                n = n + 1;
            }
            i = i + 1;
        }
        assert(self.entries@.subrange(0, i as int) =~= self.entries@);
        n
    }

    /// Adds `e` at the end.
    pub fn insert(&mut self, e: CrEntry)
        ensures
            final(self).entries@ == old(self).entries@.push(e),
    {
        self.entries.push(e);
    }

    /// Position of the entry of position `id`, if any.
    pub fn find(&self, id: usize) -> (r: Option<usize>)
        ensures
            match r {
                Some(p) => p < self.entries@.len() && self.entries@[p as int].id == id,
                None => !has_id(self.entries@, id),
            },
    {
        let mut i: usize = 0;
        while i < self.entries.len()
            invariant
                i <= self.entries@.len(),
                forall|j: int| 0 <= j < i ==> self.entries@[j].id != id,
            decreases self.entries@.len() - i,
        {
            if self.entries[i].id == id {
                return Some(i);
            }
            i = i + 1;
        }
        None
    }

    /// Removes the entry at position `p`.
    pub fn remove_at(&mut self, p: usize) -> (r: CrEntry)
        requires
            p < old(self).entries@.len(),
        ensures
            r == old(self).entries@[p as int],
            final(self).entries@ == old(self).entries@.remove(p as int),
    {
        self.entries.remove(p)
    }

    /// Position of the entry with the lowest ratio for `parent`, first inserted
    /// among equals; `None` if `parent` has no entry.
    pub fn lowest(&self, parent: usize) -> (r: Option<usize>)
        ensures
            match r {
                Some(p) => is_lowest(self.entries@, parent, p as int),
                None => forall|j: int| 0 <= j < self.entries@.len() ==> self.entries@[j].parent != parent,
            },
    {
        let mut best: Option<usize> = None;
        let mut i: usize = 0;
        while i < self.entries.len()
            invariant
                i <= self.entries@.len(),
                match best {
                    Some(p) => p < i && is_lowest(self.entries@.subrange(0, i as int), parent, p as int),
                    None => forall|j: int| 0 <= j < i ==> self.entries@[j].parent != parent,
                },
            decreases self.entries@.len() - i,
        {
            let e = self.entries[i];
            if e.parent == parent {
                match best {
                    None => {
                        best = Some(i);
                    },
                    Some(p) => {
                        if e.cr.attos < self.entries[p].cr.attos {
                            best = Some(i);
                        }
                    },
                }
            }
            i = i + 1;
        }
        assert(self.entries@.subrange(0, i as int) =~= self.entries@);
        best
    }

    /// Position of the entry with the highest ratio for `parent` holding
    /// `collateral`, first inserted among equals; `None` if there is none.
    pub fn highest_of(&self, parent: usize, collateral: Resource) -> (r: Option<usize>)
        ensures
            match r {
                Some(p) => is_highest_of(self.entries@, parent, collateral, p as int),
                None => forall|j: int|
                    0 <= j < self.entries@.len() ==> !(self.entries@[j].parent == parent
                        && self.entries@[j].collateral == collateral),
            },
    {
        let mut best: Option<usize> = None;
        let mut i: usize = 0;
        while i < self.entries.len()
            invariant
                i <= self.entries@.len(),
                match best {
                    Some(p) => p < i && is_highest_of(self.entries@.subrange(0, i as int), parent, collateral, p as int),
                    None => forall|j: int|
                        0 <= j < i ==> !(self.entries@[j].parent == parent
                            && self.entries@[j].collateral == collateral),
                },
            decreases self.entries@.len() - i,
        {
            let e = self.entries[i];
            if e.parent == parent && e.collateral == collateral {
                match best {
                    None => {
                        best = Some(i);
                    },
                    Some(p) => {
                        if e.cr.attos > self.entries[p].cr.attos {
                            best = Some(i);
                        }
                    },
                }
            }
            i = i + 1;
        }
        assert(self.entries@.subrange(0, i as int) =~= self.entries@);
        best
    }
}

} // verus!
