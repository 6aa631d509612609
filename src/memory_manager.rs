use vstd::prelude::*;

verus! {

/// Size in bytes of one page frame.
pub const PAGE_SIZE: usize = 4096;

/// Number of page frames the manager can track: 64 GiB of physical memory.
pub const MAX_NUM_PAGE_FRAME: usize = 16_777_216;

/// Bytes of bitmap, one bit per frame.
pub const BITMAP_SIZE: usize = 2_097_152;

/// Index of a physical page frame.
#[derive(Clone, Copy, Debug, PartialEq, Eq, Structural)]
pub struct FrameID(pub usize);

impl FrameID {
    /// The frame `offset` frames after this one.
    pub fn offset(&self, offset: usize) -> (r: Self)
        requires
            self.0 + offset <= usize::MAX,
        ensures
            r.0 == self.0 + offset,
    {
        FrameID(self.0 + offset)
    }

    /// Physical address of the frame's first byte.
    pub fn get_addr(&self) -> (r: usize)
        requires
            self.0 * PAGE_SIZE <= usize::MAX,
        ensures
            r == self.0 * PAGE_SIZE,
    {
        self.0 * PAGE_SIZE
    }
}

/// One entry of the firmware's memory map, in 4 KiB pages.
#[derive(Clone, Copy, Debug, PartialEq, Eq, Structural)]
pub struct MemoryRegion {
    pub phys_start: u64,
    pub page_count: u64,
    /// Whether the kernel may use the region once boot services are gone.
    pub usable: bool,
}

/// Physical address one past the last byte of `r`.
pub open spec fn region_end(r: MemoryRegion) -> int {
    r.phys_start + r.page_count * PAGE_SIZE
}

/// Where the region before the `i`th one ends, 0 for the first.
pub open spec fn previous_end(regions: Seq<MemoryRegion>, i: int) -> int {
    if i == 0 {
        0
    } else {
        region_end(regions[i - 1])
    }
}

/// Whether walking the `i`th region marks frame `f` in use: the whole pages
/// of the hole between the previous region's end and this region's start,
/// and all of this region's pages when it is not usable.
pub open spec fn marked_by(regions: Seq<MemoryRegion>, i: int, f: int) -> bool {
    let prev = previous_end(regions, i);
    let r = regions[i];
    ||| prev < r.phys_start && prev / PAGE_SIZE as int <= f < prev / PAGE_SIZE as int + (r.phys_start
        - prev) / PAGE_SIZE as int
    ||| !r.usable && (r.phys_start as int) / PAGE_SIZE as int <= f < (r.phys_start as int)
        / PAGE_SIZE as int + r.page_count
}

/// Whether one of the first `n` regions marks frame `f` in use.
pub open spec fn marked_by_any(regions: Seq<MemoryRegion>, n: int, f: int) -> bool {
    exists|i: int| 0 <= i < n && #[trigger] marked_by(regions, i, f)
}

/// Bit `f % 8` of byte `f / 8`: whether frame `f` is in use.
pub open spec fn bit_of(map: Seq<u8>, f: int) -> bool {
    (map[f / 8] >> ((f % 8) as u8)) & 1 == 1
}

/// Physical page frames, each marked free or in use by one bit, handed out
/// first fit from the managed range.
pub struct BitmapMemoryManager {
    alloc_map: Vec<u8>,
    range_begin: FrameID,
    range_end: FrameID,
}

impl BitmapMemoryManager {
    pub closed spec fn wf(&self) -> bool {
        &&& self.alloc_map@.len() == BITMAP_SIZE
        &&& self.range_begin.0 <= self.range_end.0 <= MAX_NUM_PAGE_FRAME
    }

    /// Whether frame `f` is marked in use.
    pub closed spec fn is_allocated(&self, f: int) -> bool {
        bit_of(self.alloc_map@, f)
    }

    /// First frame of the managed range.
    pub closed spec fn begin(&self) -> nat {
        self.range_begin.0 as nat
    }

    /// One past the last frame of the managed range.
    pub closed spec fn end(&self) -> nat {
        self.range_end.0 as nat
    }

    /// Whether `n` frames from `start` lie in the managed range and are all
    /// free.
    pub open spec fn fits(&self, start: int, n: int) -> bool {
        &&& self.begin() <= start
        &&& start + n <= self.end()
        &&& forall|f: int| start <= f < start + n ==> !self.is_allocated(f)
    }

    /// Whether the frames below `MAX_NUM_PAGE_FRAME` that are in use are
    /// those of `old` and, in addition, exactly those from `start` for `n`
    /// frames (`set`) or those of `old` except those (`!set`).
    pub open spec fn marks_range(&self, old: &Self, start: int, n: int, set: bool) -> bool {
        forall|f: int|
            0 <= f < MAX_NUM_PAGE_FRAME ==> #[trigger] self.is_allocated(f) == if start <= f < start + n {
                set
            } else {
                old.is_allocated(f)
            }
    }

    /// A manager of all `MAX_NUM_PAGE_FRAME` frames, all free.
    pub fn new() -> (r: Self)
        ensures
            r.wf(),
            r.begin() == 0,
            r.end() == MAX_NUM_PAGE_FRAME,
            forall|f: int| 0 <= f < MAX_NUM_PAGE_FRAME ==> !r.is_allocated(f),
    {
        let alloc_map: Vec<u8> = vec![0u8; BITMAP_SIZE];
        let r = BitmapMemoryManager {
            alloc_map,
            range_begin: FrameID(0),
            range_end: FrameID(MAX_NUM_PAGE_FRAME),
        };
        proof {
            assert forall|f: int| 0 <= f < MAX_NUM_PAGE_FRAME implies !r.is_allocated(f) by {
                let k = (f % 8) as u8;
                assert(r.alloc_map@[f / 8] == 0u8);
                assert(k < 8);
                assert((0u8 >> k) & 1 == 0) by (bit_vector);
            }
        }
        r
    }

    /// Takes the firmware's memory map, in address order: marks in use every
    /// frame of a hole between regions and of a region that is not usable,
    /// then manages the frames from 1 up to where the last region ends.
    /// Every region must end within the memory that the manager tracks.
    pub fn init_from_regions(&mut self, regions: &[MemoryRegion])
        requires
            old(self).wf(),
            old(self).begin() == 0,
            old(self).end() == MAX_NUM_PAGE_FRAME,
            regions@.len() > 0,
            forall|i: int|
                0 <= i < regions@.len() ==> region_end(#[trigger] regions@[i]) <= MAX_NUM_PAGE_FRAME
                    * PAGE_SIZE,
            region_end(regions@.last()) >= PAGE_SIZE,
        ensures
            final(self).wf(),
            final(self).begin() == 1,
            final(self).end() == region_end(regions@.last()) / PAGE_SIZE as int,
            forall|f: int|
                0 <= f < MAX_NUM_PAGE_FRAME ==> #[trigger] final(self).is_allocated(f) == (old(
                    self,
                ).is_allocated(f) || marked_by_any(regions@, regions@.len() as int, f)),
    {
        let page = PAGE_SIZE as u64;
        let mut available_end: u64 = 0;
        let mut i: usize = 0;
        while i < regions.len()
            invariant
                self.wf(),
                self.begin() == 0,
                self.end() == MAX_NUM_PAGE_FRAME,
                i <= regions@.len(),
                page == PAGE_SIZE,
                forall|j: int|
                    0 <= j < regions@.len() ==> region_end(#[trigger] regions@[j]) <= MAX_NUM_PAGE_FRAME
                        * PAGE_SIZE,
                available_end == previous_end(regions@, i as int),
                forall|f: int|
                    0 <= f < MAX_NUM_PAGE_FRAME ==> #[trigger] self.is_allocated(f) == (old(
                        self,
                    ).is_allocated(f) || marked_by_any(regions@, i as int, f)),
            decreases regions@.len() - i,
        {
            let r = regions[i];
            let ghost before = *self;
            proof {
                assert(region_end(regions@[i as int]) <= MAX_NUM_PAGE_FRAME * PAGE_SIZE);
            }
            if available_end < r.phys_start {
                let start = FrameID((available_end / page) as usize);
                let n = ((r.phys_start - available_end) / page) as usize;
                proof {
                    lemma_hole_below_start(available_end as int, r.phys_start as int);
                }
                self.mark_allocated(start, n);
            }
            let ghost middle = *self;
            let end = r.phys_start + r.page_count * page;
            if !r.usable {
                let start = FrameID((r.phys_start / page) as usize);
                proof {
                    assert(r.phys_start / 4096 + r.page_count <= MAX_NUM_PAGE_FRAME) by {
                        lemma_region_frames(r.phys_start as int, r.page_count as int);
                    }
                }
                self.mark_allocated(start, r.page_count as usize);
            }
            proof {
                assert forall|f: int| 0 <= f < MAX_NUM_PAGE_FRAME implies #[trigger] self.is_allocated(f)
                    == (old(self).is_allocated(f) || marked_by_any(regions@, i + 1, f)) by {
                    assert(before.is_allocated(f) == (old(self).is_allocated(f) || marked_by_any(
                        regions@,
                        i as int,
                        f,
                    )));
                    if marked_by_any(regions@, i + 1, f) && !marked_by_any(regions@, i as int, f) {
                        let j = choose|j: int| 0 <= j < i + 1 && #[trigger] marked_by(regions@, j, f);
                        assert(j == i);
                    }
                    if marked_by(regions@, i as int, f) {
                        assert(marked_by_any(regions@, i + 1, f));
                    }
                    if marked_by_any(regions@, i as int, f) {
                        let j = choose|j: int| 0 <= j < i && #[trigger] marked_by(regions@, j, f);
                        assert(marked_by(regions@, j, f));
                        assert(marked_by_any(regions@, i + 1, f));
                    }
                }
            }
            available_end = end;
            i = i + 1;
        }
        let last = FrameID((available_end / page) as usize);
        proof {
            assert(available_end == region_end(regions@.last()));
        }
        self.set_memory_range(FrameID(1), last);
    }

    /// Restricts allocation to the frames from `range_begin` up to, not
    /// including, `range_end`.
    pub fn set_memory_range(&mut self, range_begin: FrameID, range_end: FrameID)
        requires
            old(self).wf(),
            range_begin.0 <= range_end.0 <= MAX_NUM_PAGE_FRAME,
        ensures
            final(self).wf(),
            final(self).begin() == range_begin.0,
            final(self).end() == range_end.0,
            forall|f: int| final(self).is_allocated(f) == old(self).is_allocated(f),
    {
        self.range_begin = range_begin;
        self.range_end = range_end;
    }

    pub fn get_bit(&self, frame_id: FrameID) -> (r: bool)
        requires
            self.wf(),
            frame_id.0 < MAX_NUM_PAGE_FRAME,
        ensures
            r == self.is_allocated(frame_id.0 as int),
    {
        let byte_idx = frame_id.0 / 8;
        let bit_idx = (frame_id.0 % 8) as u8;
        let byte = self.alloc_map[byte_idx];
        let mask: u8 = 1u8 << bit_idx;
        assert((byte & (1u8 << bit_idx) != 0) == ((byte >> bit_idx) & 1 == 1)) by (bit_vector)
            requires
                bit_idx < 8,
        ;
        (byte & mask) != 0
    }

    pub fn set_bit(&mut self, frame_id: FrameID, allocated: bool)
        requires
            old(self).wf(),
            frame_id.0 < MAX_NUM_PAGE_FRAME,
        ensures
            final(self).wf(),
            final(self).begin() == old(self).begin(),
            final(self).end() == old(self).end(),
            final(self).marks_range(old(self), frame_id.0 as int, 1, allocated),
    {
        let byte_idx = frame_id.0 / 8;
        let bit_idx = (frame_id.0 % 8) as u8;
        let byte = self.alloc_map[byte_idx];
        let new_byte: u8 = if allocated {
            byte | (1u8 << bit_idx)
        } else {
            byte & !(1u8 << bit_idx)
        };
        self.alloc_map.set(byte_idx, new_byte);
        proof {
            assert forall|f: int| 0 <= f < MAX_NUM_PAGE_FRAME implies #[trigger] self.is_allocated(f)
                == if frame_id.0 <= f < frame_id.0 + 1 {
                allocated
            } else {
                old(self).is_allocated(f)
            } by {
                if f / 8 == byte_idx {
                    let k = (f % 8) as u8;
                    lemma_bit_update(byte, bit_idx, k, allocated);
                }
            }
        }
    }

    /// Marks the `num_frames` frames from `start_frame` in use.
    fn mark_allocated(&mut self, start_frame: FrameID, num_frames: usize)
        requires
            old(self).wf(),
            old(self).begin() <= start_frame.0,
            start_frame.0 + num_frames <= old(self).end(),
        ensures
            final(self).wf(),
            final(self).begin() == old(self).begin(),
            final(self).end() == old(self).end(),
            final(self).marks_range(old(self), start_frame.0 as int, num_frames as int, true),
    {
        self.set_range(start_frame, num_frames, true);
    }

    /// Marks the `num_frames` frames from `start_frame` free again.
    pub fn free(&mut self, start_frame: FrameID, num_frames: usize)
        requires
            old(self).wf(),
            old(self).begin() <= start_frame.0,
            start_frame.0 + num_frames <= old(self).end(),
        ensures
            final(self).wf(),
            final(self).begin() == old(self).begin(),
            final(self).end() == old(self).end(),
            final(self).marks_range(old(self), start_frame.0 as int, num_frames as int, false),
    {
        self.set_range(start_frame, num_frames, false);
    }

    fn set_range(&mut self, start_frame: FrameID, num_frames: usize, allocated: bool)
        requires
            old(self).wf(),
            start_frame.0 + num_frames <= old(self).end(),
        ensures
            final(self).wf(),
            final(self).begin() == old(self).begin(),
            final(self).end() == old(self).end(),
            final(self).marks_range(old(self), start_frame.0 as int, num_frames as int, allocated),
    {
        let mut i: usize = 0;
        while i < num_frames
            invariant
                self.wf(),
                self.begin() == old(self).begin(),
                self.end() == old(self).end(),
                start_frame.0 + num_frames <= self.end(),
                i <= num_frames,
                self.marks_range(old(self), start_frame.0 as int, i as int, allocated),
            decreases num_frames - i,
        {
            self.set_bit(start_frame.offset(i), allocated);
            i = i + 1;
        }
    }

    /// First fit: finds the lowest frame from which `num_frames` frames of
    /// the managed range are all free, marks them in use and returns it;
    /// `None`, changing nothing, when there is no such frame.
    pub fn allocate(&mut self, num_frames: usize) -> (r: Option<FrameID>)
        requires
            old(self).wf(),
        ensures
            final(self).wf(),
            final(self).begin() == old(self).begin(),
            final(self).end() == old(self).end(),
            match r {
                Some(start) => {
                    &&& old(self).fits(start.0 as int, num_frames as int)
                    &&& forall|s: int| old(self).begin() <= s < start.0 ==> !old(self).fits(s, num_frames as int)
                    &&& final(self).marks_range(old(self), start.0 as int, num_frames as int, true)
                },
                None => {
                    &&& forall|s: int| !old(self).fits(s, num_frames as int)
                    &&& forall|f: int| final(self).is_allocated(f) == old(self).is_allocated(f)
                },
            },
    {
        let mut start_frame_id = self.range_begin;
        loop
            invariant
                self.wf(),
                *self == *old(self),
                self.begin() <= start_frame_id.0 <= self.end(),
                forall|s: int| self.begin() <= s < start_frame_id.0 ==> !self.fits(s, num_frames as int),
            decreases self.end() - start_frame_id.0,
        {
            let mut i: usize = 0;
            let mut blocked = false;
            while i < num_frames
                invariant_except_break
                    !blocked,
                invariant
                    self.wf(),
                    *self == *old(self),
                    self.begin() <= start_frame_id.0 <= self.end(),
                    start_frame_id.0 + i <= self.end(),
                    i <= num_frames,
                    forall|s: int| self.begin() <= s < start_frame_id.0 ==> !self.fits(s, num_frames as int),
                    forall|f: int| start_frame_id.0 <= f < start_frame_id.0 + i ==> !self.is_allocated(f),
                ensures
                    blocked ==> i < num_frames && start_frame_id.0 + i < self.end() && self.is_allocated(
                        start_frame_id.0 + i,
                    ),
                    !blocked ==> i == num_frames,
                decreases num_frames - i,
            {
                if start_frame_id.0 + i >= self.range_end.0 {
                    proof {
                        assert forall|s: int| !self.fits(s, num_frames as int) by {
                            if self.begin() <= s < start_frame_id.0 {
                            }
                        }
                    }
                    return None;
                }
                if self.get_bit(start_frame_id.offset(i)) {
                    blocked = true;
                    break;
                }
                i = i + 1;
            }
            if !blocked {
                self.mark_allocated(start_frame_id, num_frames);
                return Some(start_frame_id);
            }
            proof {
                assert forall|s: int| self.begin() <= s < start_frame_id.0 + i + 1 implies !self.fits(
                    s,
                    num_frames as int,
                ) by {
                    if s >= start_frame_id.0 {
                        assert(self.is_allocated(start_frame_id.0 + i));
                    }
                }
            }
            start_frame_id = start_frame_id.offset(i + 1);
        }
    }
}

proof fn lemma_hole_below_start(prev: int, start: int)
    requires
        0 <= prev < start,
    ensures
        prev / 4096 + (start - prev) / 4096 <= start / 4096,
{
    vstd::arithmetic::div_mod::lemma_fundamental_div_mod(prev, 4096);
    vstd::arithmetic::div_mod::lemma_fundamental_div_mod(start - prev, 4096);
    vstd::arithmetic::div_mod::lemma_fundamental_div_mod(start, 4096);
    assert(prev / 4096 + (start - prev) / 4096 <= start / 4096) by (nonlinear_arith)
        requires
            prev == 4096 * (prev / 4096) + prev % 4096,
            start - prev == 4096 * ((start - prev) / 4096) + (start - prev) % 4096,
            start == 4096 * (start / 4096) + start % 4096,
            0 <= prev % 4096 < 4096,
            0 <= (start - prev) % 4096 < 4096,
            0 <= start % 4096 < 4096,
    ;
}

proof fn lemma_region_frames(start: int, count: int)
    requires
        0 <= start,
        0 <= count,
        start + count * 4096 <= MAX_NUM_PAGE_FRAME * 4096,
    ensures
        start / 4096 + count <= MAX_NUM_PAGE_FRAME,
{
    vstd::arithmetic::div_mod::lemma_fundamental_div_mod(start, 4096);
    assert(start / 4096 + count <= MAX_NUM_PAGE_FRAME) by (nonlinear_arith)
        requires
            start == 4096 * (start / 4096) + start % 4096,
            0 <= start % 4096 < 4096,
            start + count * 4096 <= MAX_NUM_PAGE_FRAME * 4096,
    ;
}

proof fn lemma_bit_update(byte: u8, bit: u8, k: u8, set: bool)
    requires
        bit < 8,
        k < 8,
    ensures
        set ==> ((byte | (1u8 << bit)) >> k) & 1 == if k == bit {
            1u8
        } else {
            (byte >> k) & 1
        },
        !set ==> ((byte & !(1u8 << bit)) >> k) & 1 == if k == bit {
            0u8
        } else {
            (byte >> k) & 1
        },
{
    assert(((byte | (1u8 << bit)) >> k) & 1 == if k == bit {
        1u8
    } else {
        (byte >> k) & 1
    }) by (bit_vector)
        requires
            bit < 8,
            k < 8,
    ;
    assert(((byte & !(1u8 << bit)) >> k) & 1 == if k == bit {
        0u8
    } else {
        (byte >> k) & 1
    }) by (bit_vector)
        requires
            bit < 8,
            k < 8,
    ;
}

} // verus!
