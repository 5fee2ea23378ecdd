//! The page mapper: a four-level translation structure from virtual pages to
//! physical frames.
//!
//! Tables live in arenas, one per level; an entry of a directory level names
//! a table of the level below, and a leaf entry names the mapped frame.  Each
//! missing intermediate table is created on demand and consumes one physical
//! frame from the frame allocator; when no frame can be had, the whole call
//! fails and no translation visible to the caller has changed.  Mapping runs
//! only during single-threaded boot, so the structure needs no locking.

use vstd::prelude::*;

verus! {

use vstd::arithmetic::div_mod::lemma_fundamental_div_mod;
use vstd::arithmetic::div_mod::lemma_mod_bound;
use vstd::arithmetic::div_mod::lemma_div_denominator;
use vstd::arithmetic::div_mod::lemma_multiply_divide_lt;
use vstd::arithmetic::div_mod::lemma_div_pos_is_pos;
use crate::frame::BootFrameAllocator;
use crate::frame::exhausted;

/// One more than the largest valid page number: four levels of nine bits.
pub const PAGE_LIMIT: u64 = 0x10_0000_0000;

/// Access flags of one mapping.  The heap maps its pages writable and
/// non-executable.
#[derive(Debug, Clone, Copy, PartialEq, Eq, Structural)]
pub struct PageFlags {
    pub writable: bool,
    pub no_execute: bool,
}

/// One leaf translation: the backing frame's base address and the flags.
#[derive(Debug, Clone, Copy, PartialEq, Eq, Structural)]
pub struct MapEntry {
    pub frame: u64,
    pub flags: PageFlags,
}

/// Why a mapping call failed.
#[derive(Debug, Clone, Copy, PartialEq, Eq, Structural)]
pub enum MapError {
    /// The frame allocator ran out while a new table level was needed.
    FrameAllocationFailed,
}

/// The page number's index into the top-level table.
pub open spec fn idx4s(page: u64) -> int {
    page as int / 512 / 512 / 512
}

/// The page number's index into the third-level table.
pub open spec fn idx3s(page: u64) -> int {
    (page as int / 512 / 512) % 512
}

/// The page number's index into the second-level table.
pub open spec fn idx2s(page: u64) -> int {
    (page as int / 512) % 512
}

/// The page number's index into the leaf table.
pub open spec fn idx1s(page: u64) -> int {
    page as int % 512
}

/// Two valid pages with the same four indices are the same page.
proof fn lemma_page_identity(p: u64, q: u64)
    requires
        p < PAGE_LIMIT,
        q < PAGE_LIMIT,
        idx1s(p) == idx1s(q),
        idx2s(p) == idx2s(q),
        idx3s(p) == idx3s(q),
        idx4s(p) == idx4s(q),
    ensures
        p == q,
{
    lemma_fundamental_div_mod(p as int, 512);
    lemma_fundamental_div_mod(p as int / 512, 512);
    lemma_fundamental_div_mod(p as int / 512 / 512, 512);
    lemma_fundamental_div_mod(q as int, 512);
    lemma_fundamental_div_mod(q as int / 512, 512);
    lemma_fundamental_div_mod(q as int / 512 / 512, 512);
}

/// A valid page's top-level index is in range.
proof fn lemma_idx4_bound(p: u64)
    requires
        p < PAGE_LIMIT,
    ensures
        0 <= idx4s(p) < 512,
{
    lemma_div_pos_is_pos(p as int, 512);
    lemma_div_pos_is_pos(p as int / 512, 512);
    lemma_div_pos_is_pos(p as int / 512 / 512, 512);
    lemma_div_denominator(p as int, 512, 512);
    lemma_div_denominator(p as int, (512 * 512) as int, 512);
    lemma_multiply_divide_lt(p as int, (512 * 512 * 512) as int, 512);
}

/// A directory table of one level: the frame that backs it and its entries,
/// each naming a table of the level below.
struct DirTable {
    frame: u64,
    entries: Vec<Option<usize>>,
}

/// A leaf table: the frame that backs it and its translation entries.
struct LeafTable {
    frame: u64,
    entries: Vec<Option<MapEntry>>,
}

/// A directory level is well formed with respect to the level below: every
/// table has 512 entries, every entry points into the level below, and no
/// two entries anywhere in the level name the same table below.
spec fn dir_level_wf(ts: Seq<DirTable>, below: int) -> bool {
    &&& forall|t: int| 0 <= t < ts.len() ==> (#[trigger] ts[t]).entries@.len() == 512
    &&& forall|t: int, i: int|
        #![trigger ts[t].entries@[i]]
        0 <= t < ts.len() && 0 <= i < 512 ==> (ts[t].entries@[i] matches Some(v) ==> v < below)
    &&& forall|t1: int, i1: int, t2: int, i2: int|
        #![trigger ts[t1].entries@[i1], ts[t2].entries@[i2]]
        0 <= t1 < ts.len() && 0 <= i1 < 512 && 0 <= t2 < ts.len() && 0 <= i2 < 512
            && ts[t1].entries@[i1] is Some && ts[t1].entries@[i1] == ts[t2].entries@[i2] ==> (t1
            == t2 && i1 == i2)
}

/// The four-level translation structure.
pub struct PageTables {
    l4: Vec<Option<usize>>,
    l3: Vec<DirTable>,
    l2: Vec<DirTable>,
    l1: Vec<LeafTable>,
}

impl PageTables {
    /// The arenas are tied together level by level, and within each level no
    /// table is named twice, so distinct walks never share a lower table.
    pub closed spec fn wf(&self) -> bool {
        &&& self.l4@.len() == 512
        &&& forall|i: int|
            0 <= i < 512 ==> (#[trigger] self.l4@[i] matches Some(t) ==> t < self.l3@.len())
        &&& forall|i1: int, i2: int|
            #![trigger self.l4@[i1], self.l4@[i2]]
            0 <= i1 < 512 && 0 <= i2 < 512 && self.l4@[i1] is Some && self.l4@[i1] == self.l4@[i2]
                ==> i1 == i2
        &&& dir_level_wf(self.l3@, self.l2@.len() as int)
        &&& dir_level_wf(self.l2@, self.l1@.len() as int)
        &&& forall|t: int|
            0 <= t < self.l1@.len() ==> (#[trigger] self.l1@[t]).entries@.len() == 512
    }

    /// The translation the structure encodes for one page: the walk through
    /// the four levels, or None wherever it stops short.
    pub closed spec fn translates(&self, page: u64) -> Option<MapEntry> {
        match self.l4@[idx4s(page)] {
            Some(t3) => match self.l3@[t3 as int].entries@[idx3s(page)] {
                Some(t2) => match self.l2@[t2 as int].entries@[idx2s(page)] {
                    Some(t1) => self.l1@[t1 as int].entries@[idx1s(page)],
                    None => None,
                },
                None => None,
            },
            None => None,
        }
    }

    /// An empty structure: a top-level table with no entries, so nothing
    /// translates.
    pub fn new() -> (pt: PageTables)
        ensures
            pt.wf(),
            forall|p: u64| p < PAGE_LIMIT ==> #[trigger] pt.translates(p) is None,
    {
        let pt = PageTables {
            l4: empty_dir_entries(),
            l3: Vec::new(),
            l2: Vec::new(),
            l1: Vec::new(),
        };
        proof {
            assert forall|p: u64| p < PAGE_LIMIT implies #[trigger] pt.translates(p) is None by {
                lemma_idx4_bound(p);
            }
        }
        pt
    }

    /// Look one page's translation up.
    pub fn translate(&self, page: u64) -> (r: Option<MapEntry>)
        requires
            self.wf(),
            page < PAGE_LIMIT,
        ensures
            r == self.translates(page),
    {
        let (i4, i3, i2, i1) = page_indices(page);
        match self.l4[i4] {
            Some(t3) => match self.l3[t3].entries[i3] {
                Some(t2) => match self.l2[t2].entries[i2] {
                    Some(t1) => self.l1[t1].entries[i1],
                    None => None,
                },
                None => None,
            },
            None => None,
        }
    }

    /// Create or update the translation of one page to one frame.  Each
    /// missing table level consumes a frame from the allocator; if the
    /// allocator runs out, the call fails before any translation visible to
    /// the caller has changed — on failure every page still translates as it
    /// did before.
    pub fn map_page(
        &mut self,
        page: u64,
        frame: u64,
        flags: PageFlags,
        alloc: &mut BootFrameAllocator,
    ) -> (r: Result<(), MapError>)
        requires
            old(self).wf(),
            old(alloc).wf(),
            page < PAGE_LIMIT,
        ensures
            final(self).wf(),
            final(alloc).wf(),
            final(alloc).memory_map() == old(alloc).memory_map(),
            final(alloc)@.frames == old(alloc)@.frames,
            old(alloc)@.pos <= final(alloc)@.pos <= old(alloc)@.pos + 3,
            r is Ok ==> final(self).translates(page) == Some(MapEntry { frame, flags }),
            r is Ok ==> forall|p: u64|
                p < PAGE_LIMIT && p != page ==> #[trigger] final(self).translates(p) == old(
                    self,
                ).translates(p),
            r is Err ==> r == Err::<(), MapError>(MapError::FrameAllocationFailed) && exhausted(
                final(alloc)@,
            ) && forall|p: u64|
                p < PAGE_LIMIT ==> #[trigger] final(self).translates(p) == old(self).translates(p),
            old(alloc)@.pos + 3 <= old(alloc)@.frames.len() ==> r is Ok,
    {
        let (i4, i3, i2, i1) = page_indices(page);
        let ghost snap0 = *self;

        // Level 4 -> 3.
        let t3: usize = match self.l4[i4] {
            Some(t) => t,
            None => {
                let fr = match alloc.allocate_frame() {
                    Some(fr) => fr,
                    None => {
                        return Err(MapError::FrameAllocationFailed);
                    },
                };
                let fresh = self.l3.len();
                self.l3.push(DirTable { frame: fr, entries: empty_dir_entries() });
                self.l4.set(i4, Some(fresh));
                proof {
                    lemma_preserved_after_l4_set(snap0, *self, i4 as int, fresh as int);
                }
                fresh
            },
        };
        let ghost snap1 = *self;
        assert(self.l4@[i4 as int] == Some(t3) && (t3 as int) < self.l3@.len());

        // Level 3 -> 2.
        let t2: usize = match self.l3[t3].entries[i3] {
            Some(t) => t,
            None => {
                let fr = match alloc.allocate_frame() {
                    Some(fr) => fr,
                    None => {
                        proof {
                            lemma_translates_trans(snap0, snap1, *self);
                        }
                        return Err(MapError::FrameAllocationFailed);
                    },
                };
                let fresh = self.l2.len();
                self.l2.push(DirTable { frame: fr, entries: empty_dir_entries() });
                let tbl = &mut self.l3[t3];
                tbl.entries.set(i3, Some(fresh));
                proof {
                    lemma_preserved_after_l3_set(snap1, *self, t3 as int, i3 as int, fresh as int);
                }
                fresh
            },
        };
        let ghost snap2 = *self;
        assert(self.l3@[t3 as int].entries@[i3 as int] == Some(t2) && (t2 as int)
            < self.l2@.len());

        // Level 2 -> 1.
        let t1: usize = match self.l2[t2].entries[i2] {
            Some(t) => t,
            None => {
                let fr = match alloc.allocate_frame() {
                    Some(fr) => fr,
                    None => {
                        proof {
                            lemma_translates_trans(snap0, snap1, *self);
                        }
                        return Err(MapError::FrameAllocationFailed);
                    },
                };
                let fresh = self.l1.len();
                self.l1.push(LeafTable { frame: fr, entries: empty_leaf_entries() });
                let tbl = &mut self.l2[t2];
                tbl.entries.set(i2, Some(fresh));
                proof {
                    lemma_preserved_after_l2_set(snap2, *self, t2 as int, i2 as int, fresh as int);
                }
                fresh
            },
        };
        let ghost snap3 = *self;
        assert(self.l2@[t2 as int].entries@[i2 as int] == Some(t1) && (t1 as int)
            < self.l1@.len());

        // The leaf write: the one visible change.
        let leaf = &mut self.l1[t1];
        leaf.entries.set(i1, Some(MapEntry { frame, flags }));
        proof {
            lemma_translates_trans(snap0, snap1, snap2);
            lemma_translates_trans(snap0, snap2, snap3);
            lemma_leaf_write(snap3, *self, page, MapEntry { frame, flags });
            lemma_translates_trans_except(snap0, snap3, *self, page);
        }
        Ok(())
    }
}

/// Compute a page's four level indices.
fn page_indices(page: u64) -> (r: (usize, usize, usize, usize))
    requires
        page < PAGE_LIMIT,
    ensures
        r.0 as int == idx4s(page) && r.0 < 512,
        r.1 as int == idx3s(page) && r.1 < 512,
        r.2 as int == idx2s(page) && r.2 < 512,
        r.3 as int == idx1s(page) && r.3 < 512,
{
    proof {
        lemma_idx4_bound(page);
        lemma_mod_bound(page as int, 512);
        lemma_mod_bound(page as int / 512, 512);
        lemma_mod_bound(page as int / 512 / 512, 512);
        lemma_div_pos_is_pos(page as int, 512);
        lemma_div_pos_is_pos(page as int / 512, 512);
    }
    let i1 = (page % 512) as usize;
    let i2 = ((page / 512) % 512) as usize;
    let i3 = ((page / 512 / 512) % 512) as usize;
    let i4 = (page / 512 / 512 / 512) as usize;
    (i4, i3, i2, i1)
}

/// A table of 512 empty directory entries.
fn empty_dir_entries() -> (v: Vec<Option<usize>>)
    ensures
        v@.len() == 512,
        forall|i: int| 0 <= i < 512 ==> #[trigger] v@[i] is None,
{
    let mut v: Vec<Option<usize>> = Vec::new();
    let mut i: usize = 0;
    while i < 512
        invariant
            i <= 512,
            v@.len() == i,
            forall|j: int| 0 <= j < i ==> #[trigger] v@[j] is None,
        decreases 512 - i,
    {
        v.push(None);
        i = i + 1;
    }
    v
}

/// A table of 512 empty leaf entries.
fn empty_leaf_entries() -> (v: Vec<Option<MapEntry>>)
    ensures
        v@.len() == 512,
        forall|i: int| 0 <= i < 512 ==> #[trigger] v@[i] is None,
{
    let mut v: Vec<Option<MapEntry>> = Vec::new();
    let mut i: usize = 0;
    while i < 512
        invariant
            i <= 512,
            v@.len() == i,
            forall|j: int| 0 <= j < i ==> #[trigger] v@[j] is None,
        decreases 512 - i,
    {
        v.push(None);
        i = i + 1;
    }
    v
}

/// Preservation is transitive.
proof fn lemma_translates_trans(a: PageTables, b: PageTables, c: PageTables)
    requires
        forall|p: u64| p < PAGE_LIMIT ==> #[trigger] b.translates(p) == a.translates(p),
        forall|p: u64| p < PAGE_LIMIT ==> #[trigger] c.translates(p) == b.translates(p),
    ensures
        forall|p: u64| p < PAGE_LIMIT ==> #[trigger] c.translates(p) == a.translates(p),
{
}

/// Preservation composes with a final single-page change.
proof fn lemma_translates_trans_except(a: PageTables, b: PageTables, c: PageTables, page: u64)
    requires
        forall|p: u64| p < PAGE_LIMIT ==> #[trigger] b.translates(p) == a.translates(p),
        forall|p: u64|
            p < PAGE_LIMIT && p != page ==> #[trigger] c.translates(p) == b.translates(p),
    ensures
        forall|p: u64|
            p < PAGE_LIMIT && p != page ==> #[trigger] c.translates(p) == a.translates(p),
{
}

/// Adding a fresh, empty third-level table under a previously empty top-level
/// slot keeps the structure well formed and translates nothing new.
proof fn lemma_preserved_after_l4_set(a: PageTables, b: PageTables, i4: int, fresh: int)
    requires
        a.wf(),
        0 <= i4 < 512,
        a.l4@[i4] is None,
        fresh == a.l3@.len(),
        0 <= fresh <= usize::MAX,
        b.l4@ == a.l4@.update(i4, Some(fresh as usize)),
        b.l3@.len() == a.l3@.len() + 1,
        forall|t: int| 0 <= t < a.l3@.len() ==> #[trigger] b.l3@[t] == a.l3@[t],
        b.l3@[fresh].entries@.len() == 512,
        forall|i: int| 0 <= i < 512 ==> #[trigger] b.l3@[fresh].entries@[i] is None,
        b.l2@ == a.l2@,
        b.l1@ == a.l1@,
    ensures
        b.wf(),
        forall|p: u64| p < PAGE_LIMIT ==> #[trigger] b.translates(p) == a.translates(p),
{
    assert(dir_level_wf(b.l3@, b.l2@.len() as int)) by {
        assert forall|t: int| 0 <= t < b.l3@.len() implies (#[trigger] b.l3@[t]).entries@.len()
            == 512 by {
            if t < a.l3@.len() {
                assert(b.l3@[t] == a.l3@[t]);
            }
        }
        assert forall|t: int, i: int|
            #![trigger b.l3@[t].entries@[i]]
            0 <= t < b.l3@.len() && 0 <= i < 512 implies (b.l3@[t].entries@[i] matches Some(v)
            ==> v < b.l2@.len() as int) by {
            if t < a.l3@.len() {
                assert(b.l3@[t] == a.l3@[t]);
                assert(a.l3@[t].entries@[i] matches Some(v) ==> v < a.l2@.len());
            } else {
                assert(b.l3@[t].entries@[i] is None);
            }
        }
        assert forall|t1: int, i1: int, t2: int, i2: int|
            #![trigger b.l3@[t1].entries@[i1], b.l3@[t2].entries@[i2]]
            0 <= t1 < b.l3@.len() && 0 <= i1 < 512 && 0 <= t2 < b.l3@.len() && 0 <= i2 < 512
                && b.l3@[t1].entries@[i1] is Some && b.l3@[t1].entries@[i1] == b.l3@[t2].entries@[i2]
            implies (t1 == t2 && i1 == i2) by {
            if t1 < a.l3@.len() && t2 < a.l3@.len() {
                assert(b.l3@[t1] == a.l3@[t1]);
                assert(b.l3@[t2] == a.l3@[t2]);
                assert(a.l3@[t1].entries@[i1] is Some && a.l3@[t1].entries@[i1]
                    == a.l3@[t2].entries@[i2]);
            } else if t1 >= a.l3@.len() {
                assert(b.l3@[t1].entries@[i1] is None);
            } else {
                assert(b.l3@[t2].entries@[i2] is None);
            }
        }
    }
    assert forall|i1: int, i2: int|
        #![trigger b.l4@[i1], b.l4@[i2]]
        0 <= i1 < 512 && 0 <= i2 < 512 && b.l4@[i1] is Some && b.l4@[i1] == b.l4@[i2] implies i1
        == i2 by {
        if i1 != i4 && i2 != i4 {
            assert(b.l4@[i1] == a.l4@[i1]);
            assert(b.l4@[i2] == a.l4@[i2]);
        } else if i1 == i4 && i2 != i4 {
            let v = b.l4@[i2];
            assert(a.l4@[i2] == v);
            assert(v matches Some(t) ==> t < a.l3@.len());
        } else if i2 == i4 && i1 != i4 {
            let v = b.l4@[i1];
            assert(a.l4@[i1] == v);
            assert(v matches Some(t) ==> t < a.l3@.len());
        }
    }
    assert forall|p: u64| p < PAGE_LIMIT implies #[trigger] b.translates(p) == a.translates(p) by {
        lemma_idx4_bound(p);
        lemma_mod_bound(p as int, 512);
        lemma_mod_bound(p as int / 512, 512);
        lemma_mod_bound(p as int / 512 / 512, 512);
        if idx4s(p) == i4 {
            assert(a.translates(p) is None);
            assert(b.l4@[idx4s(p)] == Some(fresh as usize));
            assert(b.l3@[fresh].entries@[idx3s(p)] is None);
            assert(b.translates(p) is None);
        } else {
            assert(b.l4@[idx4s(p)] == a.l4@[idx4s(p)]);
            match a.l4@[idx4s(p)] {
                Some(t3) => {
                    assert((t3 as int) < a.l3@.len());
                    assert(b.l3@[t3 as int] == a.l3@[t3 as int]);
                },
                None => {},
            }
        }
    }
}

/// Adding a fresh, empty second-level table under a previously empty
/// third-level slot keeps the structure well formed and translates nothing
/// new.
proof fn lemma_preserved_after_l3_set(a: PageTables, b: PageTables, t3: int, i3: int, fresh: int)
    requires
        a.wf(),
        0 <= t3 < a.l3@.len(),
        0 <= i3 < 512,
        a.l3@[t3].entries@[i3] is None,
        fresh == a.l2@.len(),
        0 <= fresh <= usize::MAX,
        b.l4@ == a.l4@,
        b.l3@.len() == a.l3@.len(),
        forall|t: int| 0 <= t < a.l3@.len() && t != t3 ==> #[trigger] b.l3@[t] == a.l3@[t],
        b.l3@[t3].entries@ == a.l3@[t3].entries@.update(i3, Some(fresh as usize)),
        b.l2@.len() == a.l2@.len() + 1,
        forall|t: int| 0 <= t < a.l2@.len() ==> #[trigger] b.l2@[t] == a.l2@[t],
        b.l2@[fresh].entries@.len() == 512,
        forall|i: int| 0 <= i < 512 ==> #[trigger] b.l2@[fresh].entries@[i] is None,
        b.l1@ == a.l1@,
    ensures
        b.wf(),
        forall|p: u64| p < PAGE_LIMIT ==> #[trigger] b.translates(p) == a.translates(p),
{
    assert(b.l3@[t3].entries@.len() == 512);
    assert(dir_level_wf(b.l3@, b.l2@.len() as int)) by {
        assert forall|t: int| 0 <= t < b.l3@.len() implies (#[trigger] b.l3@[t]).entries@.len()
            == 512 by {
            if t != t3 {
                assert(b.l3@[t] == a.l3@[t]);
            }
        }
        assert forall|t: int, i: int|
            #![trigger b.l3@[t].entries@[i]]
            0 <= t < b.l3@.len() && 0 <= i < 512 implies (b.l3@[t].entries@[i] matches Some(v)
            ==> v < b.l2@.len() as int) by {
            if t != t3 {
                assert(b.l3@[t] == a.l3@[t]);
                assert(a.l3@[t].entries@[i] matches Some(v) ==> v < a.l2@.len());
            } else if i != i3 {
                assert(b.l3@[t].entries@[i] == a.l3@[t3].entries@[i]);
                assert(a.l3@[t3].entries@[i] matches Some(v) ==> v < a.l2@.len());
            }
        }
        assert forall|t1: int, i1: int, t2: int, i2: int|
            #![trigger b.l3@[t1].entries@[i1], b.l3@[t2].entries@[i2]]
            0 <= t1 < b.l3@.len() && 0 <= i1 < 512 && 0 <= t2 < b.l3@.len() && 0 <= i2 < 512
                && b.l3@[t1].entries@[i1] is Some && b.l3@[t1].entries@[i1] == b.l3@[t2].entries@[i2]
            implies (t1 == t2 && i1 == i2) by {
            let v1 = b.l3@[t1].entries@[i1];
            if (t1 != t3 || i1 != i3) && (t2 != t3 || i2 != i3) {
                assert(a.l3@[t1].entries@[i1] == v1);
                assert(a.l3@[t2].entries@[i2] == v1);
            } else if t1 == t3 && i1 == i3 && (t2 != t3 || i2 != i3) {
                assert(v1 == Some(fresh as usize));
                assert(a.l3@[t2].entries@[i2] == v1);
                assert(a.l3@[t2].entries@[i2] matches Some(v) ==> v < a.l2@.len());
            } else if t2 == t3 && i2 == i3 && (t1 != t3 || i1 != i3) {
                assert(b.l3@[t2].entries@[i2] == Some(fresh as usize));
                assert(a.l3@[t1].entries@[i1] == v1);
                assert(a.l3@[t1].entries@[i1] matches Some(v) ==> v < a.l2@.len());
            }
        }
    }
    assert(dir_level_wf(b.l2@, b.l1@.len() as int)) by {
        assert forall|t: int| 0 <= t < b.l2@.len() implies (#[trigger] b.l2@[t]).entries@.len()
            == 512 by {
            if t < a.l2@.len() {
                assert(b.l2@[t] == a.l2@[t]);
            }
        }
        assert forall|t: int, i: int|
            #![trigger b.l2@[t].entries@[i]]
            0 <= t < b.l2@.len() && 0 <= i < 512 implies (b.l2@[t].entries@[i] matches Some(v)
            ==> v < b.l1@.len() as int) by {
            if t < a.l2@.len() {
                assert(b.l2@[t] == a.l2@[t]);
                assert(a.l2@[t].entries@[i] matches Some(v) ==> v < a.l1@.len());
            } else {
                assert(b.l2@[t].entries@[i] is None);
            }
        }
        assert forall|t1: int, i1: int, t2: int, i2: int|
            #![trigger b.l2@[t1].entries@[i1], b.l2@[t2].entries@[i2]]
            0 <= t1 < b.l2@.len() && 0 <= i1 < 512 && 0 <= t2 < b.l2@.len() && 0 <= i2 < 512
                && b.l2@[t1].entries@[i1] is Some && b.l2@[t1].entries@[i1] == b.l2@[t2].entries@[i2]
            implies (t1 == t2 && i1 == i2) by {
            if t1 < a.l2@.len() && t2 < a.l2@.len() {
                assert(b.l2@[t1] == a.l2@[t1]);
                assert(b.l2@[t2] == a.l2@[t2]);
                assert(a.l2@[t1].entries@[i1] is Some && a.l2@[t1].entries@[i1]
                    == a.l2@[t2].entries@[i2]);
            } else if t1 >= a.l2@.len() {
                assert(b.l2@[t1].entries@[i1] is None);
            } else {
                assert(b.l2@[t2].entries@[i2] is None);
            }
        }
    }
    assert forall|p: u64| p < PAGE_LIMIT implies #[trigger] b.translates(p) == a.translates(p) by {
        lemma_idx4_bound(p);
        lemma_mod_bound(p as int, 512);
        lemma_mod_bound(p as int / 512, 512);
        lemma_mod_bound(p as int / 512 / 512, 512);
        match a.l4@[idx4s(p)] {
            Some(pt3) => {
                assert((pt3 as int) < a.l3@.len());
                if pt3 as int == t3 {
                    if idx3s(p) == i3 {
                        assert(a.translates(p) is None);
                        assert(b.l3@[t3].entries@[i3] == Some(fresh as usize));
                        assert(b.l2@[fresh].entries@[idx2s(p)] is None);
                        assert(b.translates(p) is None);
                    } else {
                        assert(b.l3@[t3].entries@[idx3s(p)] == a.l3@[t3].entries@[idx3s(p)]);
                        match a.l3@[t3].entries@[idx3s(p)] {
                            Some(pt2) => {
                                assert((pt2 as int) < a.l2@.len());
                                assert(b.l2@[pt2 as int] == a.l2@[pt2 as int]);
                            },
                            None => {},
                        }
                    }
                } else {
                    assert(b.l3@[pt3 as int] == a.l3@[pt3 as int]);
                    match a.l3@[pt3 as int].entries@[idx3s(p)] {
                        Some(pt2) => {
                            assert((pt2 as int) < a.l2@.len());
                            assert(b.l2@[pt2 as int] == a.l2@[pt2 as int]);
                        },
                        None => {},
                    }
                }
            },
            None => {},
        }
    }
}

/// Adding a fresh, empty leaf table under a previously empty second-level
/// slot keeps the structure well formed and translates nothing new.
proof fn lemma_preserved_after_l2_set(a: PageTables, b: PageTables, t2: int, i2: int, fresh: int)
    requires
        a.wf(),
        0 <= t2 < a.l2@.len(),
        0 <= i2 < 512,
        a.l2@[t2].entries@[i2] is None,
        fresh == a.l1@.len(),
        0 <= fresh <= usize::MAX,
        b.l4@ == a.l4@,
        b.l3@ == a.l3@,
        b.l2@.len() == a.l2@.len(),
        forall|t: int| 0 <= t < a.l2@.len() && t != t2 ==> #[trigger] b.l2@[t] == a.l2@[t],
        b.l2@[t2].entries@ == a.l2@[t2].entries@.update(i2, Some(fresh as usize)),
        b.l1@.len() == a.l1@.len() + 1,
        forall|t: int| 0 <= t < a.l1@.len() ==> #[trigger] b.l1@[t] == a.l1@[t],
        b.l1@[fresh].entries@.len() == 512,
        forall|i: int| 0 <= i < 512 ==> #[trigger] b.l1@[fresh].entries@[i] is None,
    ensures
        b.wf(),
        forall|p: u64| p < PAGE_LIMIT ==> #[trigger] b.translates(p) == a.translates(p),
{
    assert(b.l2@[t2].entries@.len() == 512);
    assert(dir_level_wf(b.l2@, b.l1@.len() as int)) by {
        assert forall|t: int| 0 <= t < b.l2@.len() implies (#[trigger] b.l2@[t]).entries@.len()
            == 512 by {
            if t != t2 {
                assert(b.l2@[t] == a.l2@[t]);
            }
        }
        assert forall|t: int, i: int|
            #![trigger b.l2@[t].entries@[i]]
            0 <= t < b.l2@.len() && 0 <= i < 512 implies (b.l2@[t].entries@[i] matches Some(v)
            ==> v < b.l1@.len() as int) by {
            if t != t2 {
                assert(b.l2@[t] == a.l2@[t]);
                assert(a.l2@[t].entries@[i] matches Some(v) ==> v < a.l1@.len());
            } else if i != i2 {
                assert(b.l2@[t].entries@[i] == a.l2@[t2].entries@[i]);
                assert(a.l2@[t2].entries@[i] matches Some(v) ==> v < a.l1@.len());
            }
        }
        assert forall|t1: int, i1: int, tb: int, ib: int|
            #![trigger b.l2@[t1].entries@[i1], b.l2@[tb].entries@[ib]]
            0 <= t1 < b.l2@.len() && 0 <= i1 < 512 && 0 <= tb < b.l2@.len() && 0 <= ib < 512
                && b.l2@[t1].entries@[i1] is Some && b.l2@[t1].entries@[i1] == b.l2@[tb].entries@[ib]
            implies (t1 == tb && i1 == ib) by {
            let v1 = b.l2@[t1].entries@[i1];
            if (t1 != t2 || i1 != i2) && (tb != t2 || ib != i2) {
                assert(a.l2@[t1].entries@[i1] == v1);
                assert(a.l2@[tb].entries@[ib] == v1);
            } else if t1 == t2 && i1 == i2 && (tb != t2 || ib != i2) {
                assert(v1 == Some(fresh as usize));
                assert(a.l2@[tb].entries@[ib] == v1);
                assert(a.l2@[tb].entries@[ib] matches Some(v) ==> v < a.l1@.len());
            } else if tb == t2 && ib == i2 && (t1 != t2 || i1 != i2) {
                assert(b.l2@[tb].entries@[ib] == Some(fresh as usize));
                assert(a.l2@[t1].entries@[i1] == v1);
                assert(a.l2@[t1].entries@[i1] matches Some(v) ==> v < a.l1@.len());
            }
        }
    }
    assert forall|p: u64| p < PAGE_LIMIT implies #[trigger] b.translates(p) == a.translates(p) by {
        lemma_idx4_bound(p);
        lemma_mod_bound(p as int, 512);
        lemma_mod_bound(p as int / 512, 512);
        lemma_mod_bound(p as int / 512 / 512, 512);
        match a.l4@[idx4s(p)] {
            Some(pt3) => {
                assert((pt3 as int) < a.l3@.len());
                match a.l3@[pt3 as int].entries@[idx3s(p)] {
                    Some(pt2) => {
                        assert((pt2 as int) < a.l2@.len());
                        if pt2 as int == t2 {
                            if idx2s(p) == i2 {
                                assert(a.translates(p) is None);
                                assert(b.l2@[t2].entries@[i2] == Some(fresh as usize));
                                assert(b.l1@[fresh].entries@[idx1s(p)] is None);
                                assert(b.translates(p) is None);
                            } else {
                                assert(b.l2@[t2].entries@[idx2s(p)] == a.l2@[t2].entries@[idx2s(
                                    p,
                                )]);
                                match a.l2@[t2].entries@[idx2s(p)] {
                                    Some(pt1) => {
                                        assert((pt1 as int) < a.l1@.len());
                                        assert(b.l1@[pt1 as int] == a.l1@[pt1 as int]);
                                    },
                                    None => {},
                                }
                            }
                        } else {
                            assert(b.l2@[pt2 as int] == a.l2@[pt2 as int]);
                            match a.l2@[pt2 as int].entries@[idx2s(p)] {
                                Some(pt1) => {
                                    assert((pt1 as int) < a.l1@.len());
                                    assert(b.l1@[pt1 as int] == a.l1@[pt1 as int]);
                                },
                                None => {},
                            }
                        }
                    },
                    None => {},
                }
            },
            None => {},
        }
    }
}

/// The third-level table a page's walk goes through.
spec fn walk_t3(a: PageTables, page: u64) -> int {
    a.l4@[idx4s(page)].unwrap() as int
}

/// The second-level table a page's walk goes through.
spec fn walk_t2(a: PageTables, page: u64) -> int {
    a.l3@[walk_t3(a, page)].entries@[idx3s(page)].unwrap() as int
}

/// The leaf table a page's walk goes through.
spec fn walk_t1(a: PageTables, page: u64) -> int {
    a.l2@[walk_t2(a, page)].entries@[idx2s(page)].unwrap() as int
}

/// The leaf write maps exactly the one page and leaves every other valid
/// page's translation as it was.
proof fn lemma_leaf_write(a: PageTables, b: PageTables, page: u64, entry: MapEntry)
    requires
        a.wf(),
        page < PAGE_LIMIT,
        a.l4@[idx4s(page)] is Some,
        walk_t3(a, page) < a.l3@.len(),
        a.l3@[walk_t3(a, page)].entries@[idx3s(page)] is Some,
        walk_t2(a, page) < a.l2@.len(),
        a.l2@[walk_t2(a, page)].entries@[idx2s(page)] is Some,
        walk_t1(a, page) < a.l1@.len(),
        b.l4@ == a.l4@,
        b.l3@ == a.l3@,
        b.l2@ == a.l2@,
        b.l1@.len() == a.l1@.len(),
        forall|t: int|
            0 <= t < a.l1@.len() && t != walk_t1(a, page) ==> #[trigger] b.l1@[t] == a.l1@[t],
        b.l1@[walk_t1(a, page)].entries@ == a.l1@[walk_t1(a, page)].entries@.update(
            idx1s(page),
            Some(entry),
        ),
    ensures
        b.wf(),
        b.translates(page) == Some(entry),
        forall|p: u64|
            p < PAGE_LIMIT && p != page ==> #[trigger] b.translates(p) == a.translates(p),
{
    let t3 = walk_t3(a, page);
    let t2 = walk_t2(a, page);
    let t1 = walk_t1(a, page);
    lemma_idx4_bound(page);
    lemma_mod_bound(page as int, 512);
    lemma_mod_bound(page as int / 512, 512);
    lemma_mod_bound(page as int / 512 / 512, 512);
    assert forall|t: int| 0 <= t < b.l1@.len() implies (#[trigger] b.l1@[t]).entries@.len()
        == 512 by {
        if t != t1 {
            assert(b.l1@[t] == a.l1@[t]);
        }
    }
    assert(b.translates(page) == Some(entry));
    assert forall|p: u64| p < PAGE_LIMIT && p != page implies #[trigger] b.translates(p)
        == a.translates(p) by {
        lemma_idx4_bound(p);
        lemma_mod_bound(p as int, 512);
        lemma_mod_bound(p as int / 512, 512);
        lemma_mod_bound(p as int / 512 / 512, 512);
        match a.l4@[idx4s(p)] {
            Some(pt3) => {
                assert((pt3 as int) < a.l3@.len());
                match a.l3@[pt3 as int].entries@[idx3s(p)] {
                    Some(pt2) => {
                        assert((pt2 as int) < a.l2@.len());
                        match a.l2@[pt2 as int].entries@[idx2s(p)] {
                            Some(pt1) => {
                                assert((pt1 as int) < a.l1@.len());
                                if pt1 as int == t1 {
                                    // The walks share the leaf table, so by
                                    // injectivity they share every level and
                                    // the two pages differ only in the leaf
                                    // index.
                                    assert(a.l2@[pt2 as int].entries@[idx2s(p)]
                                        == a.l2@[t2].entries@[idx2s(page)]);
                                    assert(pt2 as int == t2 && idx2s(p) == idx2s(page));
                                    assert(a.l3@[pt3 as int].entries@[idx3s(p)]
                                        == a.l3@[t3].entries@[idx3s(page)]);
                                    assert(pt3 as int == t3 && idx3s(p) == idx3s(page));
                                    assert(a.l4@[idx4s(p)] == a.l4@[idx4s(page)]);
                                    assert(idx4s(p) == idx4s(page));
                                    if idx1s(p) == idx1s(page) {
                                        lemma_page_identity(p, page);
                                    }
                                    assert(b.l1@[t1].entries@[idx1s(p)]
                                        == a.l1@[t1].entries@[idx1s(p)]);
                                } else {
                                    assert(b.l1@[pt1 as int] == a.l1@[pt1 as int]);
                                }
                            },
                            None => {},
                        }
                    },
                    None => {},
                }
            },
            None => {},
        }
    }
}

} // verus!
