//! The physical frame allocator: a bump cursor over the firmware memory map.
//!
//! Usable regions are partitioned into frame-aligned 4096-byte frames; the
//! allocator exposes them in map order through a cursor that only moves
//! forward.  Frames are never reclaimed: the kernel maps its heap once at
//! boot and never unmaps, so the cursor position is the sole bookkeeping and
//! no dynamic allocation is needed.

use vstd::prelude::*;

verus! {

use vstd::arithmetic::div_mod::lemma_fundamental_div_mod;
use vstd::arithmetic::div_mod::lemma_mod_bound;
use crate::FRAME_SIZE;

/// One firmware-supplied physical memory region: base address, byte length,
/// and whether the kernel may use it.
#[derive(Debug, Clone, Copy, PartialEq, Eq, Structural)]
pub struct MemoryRegion {
    pub start: u64,
    pub len: u64,
    pub usable: bool,
}

/// A region's end stays within the physical address space, and a usable
/// region starts on a frame boundary, so the frames it is partitioned into
/// are frame-aligned.
pub open spec fn region_wf(r: MemoryRegion) -> bool {
    &&& r.start + r.len <= u64::MAX
    &&& r.usable ==> r.start % FRAME_SIZE == 0
}

pub open spec fn regions_wf(rs: Seq<MemoryRegion>) -> bool {
    forall|i: int| 0 <= i < rs.len() ==> region_wf(#[trigger] rs[i])
}

/// How many whole frames a region contributes: none when it is not usable.
pub open spec fn region_frame_count(r: MemoryRegion) -> int {
    if r.usable {
        r.len as int / FRAME_SIZE as int
    } else {
        0
    }
}

/// The frame base addresses a single region contributes, in ascending order.
pub open spec fn region_frames(r: MemoryRegion) -> Seq<u64> {
    Seq::new(
        region_frame_count(r) as nat,
        |k: int| (r.start + k * FRAME_SIZE as int) as u64,
    )
}

/// All frames of the memory map, region by region in map order.
pub open spec fn map_frames(rs: Seq<MemoryRegion>) -> Seq<u64>
    decreases rs.len(),
{
    if rs.len() == 0 {
        Seq::<u64>::empty()
    } else {
        region_frames(rs[0]) + map_frames(rs.drop_first())
    }
}

/// The regions come sorted by address and do not overlap.
pub open spec fn regions_sorted_disjoint(rs: Seq<MemoryRegion>) -> bool {
    forall|i: int, j: int|
        #![trigger rs[i], rs[j]]
        0 <= i < j < rs.len() ==> rs[i].start + rs[i].len <= rs[j].start
}

/// Mathematical state of the allocator: the flattened frame sequence of its
/// memory map and the monotonic cursor into it.
#[verifier::ext_equal]
pub struct AllocModel {
    pub frames: Seq<u64>,
    pub pos: nat,
}

/// The cursor has walked past every frame the map offers.
pub open spec fn exhausted(m: AllocModel) -> bool {
    m.pos >= m.frames.len()
}

/// One allocation: hand out the frame under the cursor and advance, or
/// answer None, changing nothing, once the cursor is past the end.
pub open spec fn alloc_step(m: AllocModel) -> (AllocModel, Option<u64>) {
    if m.pos < m.frames.len() {
        (AllocModel { frames: m.frames, pos: m.pos + 1 }, Some(m.frames[m.pos as int]))
    } else {
        (m, None)
    }
}

/// A frame allocator over the firmware memory map.
pub struct BootFrameAllocator {
    regions: Vec<MemoryRegion>,
    region_idx: usize,
    frame_idx: u64,
}

impl View for BootFrameAllocator {
    type V = AllocModel;

    closed spec fn view(&self) -> AllocModel {
        AllocModel {
            frames: map_frames(self.regions@),
            pos: (map_frames(self.regions@.take(self.region_idx as int)).len() + self.frame_idx) as nat,
        }
    }
}

/// `map_frames` splits at any region boundary.
proof fn lemma_map_frames_split(rs: Seq<MemoryRegion>, i: int)
    requires
        0 <= i <= rs.len(),
    ensures
        map_frames(rs) == map_frames(rs.take(i)) + map_frames(rs.skip(i)),
    decreases i,
{
    if i == 0 {
        assert(rs.take(0) =~= Seq::<MemoryRegion>::empty());
        assert(rs.skip(0) =~= rs);
        assert(map_frames(rs.take(0)) + map_frames(rs) =~= map_frames(rs));
    } else {
        let t = rs.take(i);
        assert(t.len() == i);
        assert(t[0] == rs[0]);
        assert(t.drop_first() =~= rs.drop_first().take(i - 1));
        assert(rs.skip(i) =~= rs.drop_first().skip(i - 1));
        lemma_map_frames_split(rs.drop_first(), i - 1);
        assert(region_frames(rs[0]) + (map_frames(rs.drop_first().take(i - 1)) + map_frames(
            rs.skip(i),
        )) =~= (region_frames(rs[0]) + map_frames(rs.drop_first().take(i - 1))) + map_frames(
            rs.skip(i),
        ));
    }
}

/// The frames past region boundary `i` start with region `i`'s own frames.
proof fn lemma_map_frames_skip_unfold(rs: Seq<MemoryRegion>, i: int)
    requires
        0 <= i < rs.len(),
    ensures
        map_frames(rs.skip(i)) == region_frames(rs[i]) + map_frames(rs.skip(i + 1)),
{
    assert(rs.skip(i).len() > 0);
    assert(rs.skip(i)[0] == rs[i]);
    assert(rs.skip(i).drop_first() =~= rs.skip(i + 1));
}

impl BootFrameAllocator {
    /// Every region end fits the address space; the cursor stands inside or
    /// just past its current region.
    pub closed spec fn wf(&self) -> bool {
        &&& regions_wf(self.regions@)
        &&& self.region_idx as int <= self.regions@.len()
        &&& self.region_idx as int == self.regions@.len() ==> self.frame_idx == 0
        &&& (self.region_idx as int) < self.regions@.len() ==> self.frame_idx as int
            <= region_frame_count(self.regions@[self.region_idx as int])
    }

    /// The memory map this allocator draws from.
    pub closed spec fn memory_map(&self) -> Seq<MemoryRegion> {
        self.regions@
    }

    /// Start a fresh cursor at the first frame of the map.
    pub fn init(regions: Vec<MemoryRegion>) -> (a: BootFrameAllocator)
        requires
            regions_wf(regions@),
        ensures
            a.wf(),
            a.memory_map() == regions@,
            a@ == (AllocModel { frames: map_frames(regions@), pos: 0 }),
    {
        let a = BootFrameAllocator { regions, region_idx: 0, frame_idx: 0 };
        proof {
            if a.regions@.len() > 0 {
                lemma_fundamental_div_mod(a.regions@[0].len as int, FRAME_SIZE as int);
                lemma_mod_bound(a.regions@[0].len as int, FRAME_SIZE as int);
            }
            assert(a.regions@.take(0) =~= Seq::<MemoryRegion>::empty());
        }
        a
    }

    /// Hand out the next usable frame, in ascending map order, or None —
    /// permanently — once the map is exhausted.  The cursor only moves
    /// forward, so no frame is ever handed out twice.
    pub fn allocate_frame(&mut self) -> (r: Option<u64>)
        requires
            old(self).wf(),
        ensures
            final(self).wf(),
            final(self).memory_map() == old(self).memory_map(),
            (final(self)@, r) == alloc_step(old(self)@),
            r matches Some(f) ==> f % FRAME_SIZE == 0,
    {
        loop
            invariant
                self.wf(),
                self.memory_map() == old(self).memory_map(),
                self@ == old(self)@,
            decreases self.regions@.len() - self.region_idx,
        {
            if self.region_idx >= self.regions.len() {
                proof {
                    assert(self.regions@.take(self.regions@.len() as int) =~= self.regions@);
                }
                return None;
            }
            let reg = self.regions[self.region_idx];
            proof {
                lemma_fundamental_div_mod(reg.len as int, FRAME_SIZE as int);
                lemma_mod_bound(reg.len as int, FRAME_SIZE as int);
            }
            let count: u64 = if reg.usable {
                reg.len / FRAME_SIZE
            } else {
                0
            };
            assert(count as int == region_frame_count(reg));
            assert(count * FRAME_SIZE <= reg.len);
            if self.frame_idx < count {
                let addr = reg.start + self.frame_idx * FRAME_SIZE;
                proof {
                    vstd::arithmetic::div_mod::lemma_mod_multiples_vanish(
                        self.frame_idx as int,
                        reg.start as int,
                        FRAME_SIZE as int,
                    );
                    assert(FRAME_SIZE as int * self.frame_idx as int == self.frame_idx as int
                        * FRAME_SIZE as int) by (nonlinear_arith);
                }
                let ghost i = self.region_idx as int;
                let ghost k = self.frame_idx as int;
                let ghost rs = self.regions@;
                self.frame_idx = self.frame_idx + 1;
                proof {
                    lemma_map_frames_split(rs, i);
                    lemma_map_frames_skip_unfold(rs, i);
                    let tk = map_frames(rs.take(i)).len() as int;
                    assert(map_frames(rs)[tk + k] == region_frames(rs[i])[k]);
                    assert(region_frames(rs[i])[k] == addr);
                }
                return Some(addr);
            }
            proof {
                let i = self.region_idx as int;
                let rs = self.regions@;
                lemma_map_frames_split(rs.take(i + 1), i);
                assert(rs.take(i + 1).take(i) =~= rs.take(i));
                assert(rs.take(i + 1).skip(i) =~= seq![rs[i]]);
                assert(seq![rs[i]].drop_first() =~= Seq::<MemoryRegion>::empty());
                assert(map_frames(seq![rs[i]]) == region_frames(seq![rs[i]][0]) + map_frames(
                    seq![rs[i]].drop_first(),
                ));
                assert(seq![rs[i]][0] == rs[i]);
                assert(map_frames(Seq::<MemoryRegion>::empty()) == Seq::<u64>::empty());
                assert(region_frames(rs[i]) + Seq::<u64>::empty() =~= region_frames(rs[i]));
                assert(map_frames(seq![rs[i]]) == region_frames(rs[i]));
                assert(map_frames(rs.take(i + 1)).len() == map_frames(rs.take(i)).len()
                    + region_frame_count(rs[i]));
            }
            self.region_idx = self.region_idx + 1;
            self.frame_idx = 0;
        }
    }
}

/// Every frame of a map whose regions all start at or above `lo` lies at or
/// above `lo`.
proof fn lemma_frames_lower_bound(rs: Seq<MemoryRegion>, lo: int)
    requires
        regions_wf(rs),
        forall|i: int| 0 <= i < rs.len() ==> lo <= #[trigger] rs[i].start,
    ensures
        forall|a: int| 0 <= a < map_frames(rs).len() ==> lo <= #[trigger] map_frames(rs)[a],
    decreases rs.len(),
{
    if rs.len() > 0 {
        let d = rs.drop_first();
        assert forall|i: int| 0 <= i < d.len() implies lo <= #[trigger] d[i].start by {
            assert(d[i] == rs[i + 1]);
        }
        assert(regions_wf(d)) by {
            assert forall|i: int| 0 <= i < d.len() implies region_wf(#[trigger] d[i]) by {
                assert(d[i] == rs[i + 1]);
            }
        }
        lemma_frames_lower_bound(d, lo);
        lemma_fundamental_div_mod(rs[0].len as int, FRAME_SIZE as int);
        lemma_mod_bound(rs[0].len as int, FRAME_SIZE as int);
        let c0 = region_frame_count(rs[0]);
        assert forall|a: int| 0 <= a < map_frames(rs).len() implies lo
            <= #[trigger] map_frames(rs)[a] by {
            if a < c0 {
                assert(map_frames(rs)[a] == region_frames(rs[0])[a]);
                assert(rs[0].start + a * FRAME_SIZE as int + FRAME_SIZE as int <= rs[0].start
                    + c0 * FRAME_SIZE as int);
                assert(region_frames(rs[0])[a] == rs[0].start + a * FRAME_SIZE as int);
            } else {
                assert(map_frames(rs)[a] == map_frames(d)[a - c0]);
            }
        }
    }
}

/// In a sorted, disjoint memory map the flattened frame sequence is strictly
/// increasing.
proof fn lemma_map_frames_increasing(rs: Seq<MemoryRegion>)
    requires
        regions_wf(rs),
        regions_sorted_disjoint(rs),
    ensures
        forall|a: int, b: int|
            #![trigger map_frames(rs)[a], map_frames(rs)[b]]
            0 <= a < b < map_frames(rs).len() ==> map_frames(rs)[a] < map_frames(rs)[b],
    decreases rs.len(),
{
    if rs.len() > 0 {
        let d = rs.drop_first();
        assert forall|i: int, j: int|
            #![trigger d[i], d[j]]
            0 <= i < j < d.len() implies d[i].start + d[i].len <= d[j].start by {
            assert(d[i] == rs[i + 1]);
            assert(d[j] == rs[j + 1]);
        }
        assert(regions_wf(d)) by {
            assert forall|i: int| 0 <= i < d.len() implies region_wf(#[trigger] d[i]) by {
                assert(d[i] == rs[i + 1]);
            }
        }
        lemma_map_frames_increasing(d);
        let end0 = rs[0].start + rs[0].len;
        assert forall|i: int| 0 <= i < d.len() implies end0 <= #[trigger] d[i].start by {
            assert(d[i] == rs[i + 1]);
        }
        lemma_frames_lower_bound(d, end0);
        lemma_fundamental_div_mod(rs[0].len as int, FRAME_SIZE as int);
        lemma_mod_bound(rs[0].len as int, FRAME_SIZE as int);
        let c0 = region_frame_count(rs[0]);
        assert forall|a: int, b: int|
            #![trigger map_frames(rs)[a], map_frames(rs)[b]]
            0 <= a < b < map_frames(rs).len() implies map_frames(rs)[a] < map_frames(rs)[b] by {
            if b < c0 {
                assert(map_frames(rs)[a] == region_frames(rs[0])[a]);
                assert(map_frames(rs)[b] == region_frames(rs[0])[b]);
                assert(rs[0].start + b * FRAME_SIZE as int + FRAME_SIZE as int <= rs[0].start + c0
                    * FRAME_SIZE as int);
            } else if a < c0 {
                assert(map_frames(rs)[a] == region_frames(rs[0])[a]);
                assert(rs[0].start + a * FRAME_SIZE as int + FRAME_SIZE as int <= rs[0].start + c0
                    * FRAME_SIZE as int);
                assert(map_frames(rs)[b] == map_frames(d)[b - c0]);
                assert(end0 <= map_frames(d)[b - c0]);
            } else {
                assert(map_frames(rs)[a] == map_frames(d)[a - c0]);
                assert(map_frames(rs)[b] == map_frames(d)[b - c0]);
            }
        }
    }
}

/// The allocator never yields the same frame address twice: in a well-formed,
/// sorted, disjoint memory map, distinct cursor positions hold distinct
/// addresses, and each allocation advances the cursor by exactly one.
pub proof fn lemma_no_frame_twice(rs: Seq<MemoryRegion>, a: int, b: int)
    requires
        regions_wf(rs),
        regions_sorted_disjoint(rs),
        0 <= a < b < map_frames(rs).len(),
    ensures
        map_frames(rs)[a] != map_frames(rs)[b],
{
    lemma_map_frames_increasing(rs);
}

/// Exhaustion is terminal: once an allocation answers None, the state is
/// unchanged and every later allocation answers None as well.
pub proof fn lemma_exhaustion_is_permanent(m: AllocModel)
    requires
        alloc_step(m).1 is None,
    ensures
        alloc_step(m).0 == m,
        alloc_step(alloc_step(m).0).1 is None,
{
}

} // verus!
