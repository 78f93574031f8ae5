//! A bump-pointer allocator of physical memory frames, walking a fixed
//! list of memory areas.
//!
//! The boot-time memory map is handed in as plain values: each area is a
//! start address, a byte length and a usability flag, and a frame is its
//! number (its start address divided by the page size). The allocator
//! hands out the frames of one usable area after another and never frees.

use vstd::prelude::*;

verus! {

/// Bytes per physical frame.
pub const PAGE_SIZE: u64 = 4096;

/// One area of the boot-time memory map: a span of physical memory and
/// whether it is usable for allocation.
#[derive(Debug, Clone, Copy, PartialEq, Eq, Structural)]
pub struct MemoryArea {
    pub start_addr: u64,
    pub len: u64,
    pub usable: bool,
}

/// An area the allocator can reason about: non-empty, and its last byte
/// address does not wrap.
pub open spec fn area_wf(a: MemoryArea) -> bool {
    &&& a.len >= 1
    &&& a.start_addr + a.len - 1 <= u64::MAX
}

/// The frame number containing an area's first byte.
pub open spec fn area_first_frame(a: MemoryArea) -> int {
    a.start_addr as int / PAGE_SIZE as int
}

/// The frame number containing an area's last byte.
pub open spec fn area_last_frame(a: MemoryArea) -> int {
    (a.start_addr + a.len - 1) / PAGE_SIZE as int
}

/// The area the allocator moves to for a given frame cursor: the first
/// usable area of the map whose last frame is not below the cursor.
pub open spec fn find_area(regions: Seq<MemoryArea>, next: u64) -> Option<MemoryArea>
    decreases regions.len(),
{
    if regions.len() == 0 {
        None
    } else if regions[0].usable && area_last_frame(regions[0]) >= next {
        Some(regions[0])
    } else {
        find_area(regions.drop_first(), next)
    }
}

proof fn lemma_find_area_hit(regions: Seq<MemoryArea>, next: u64, i: int)
    requires
        0 <= i < regions.len(),
        regions[i].usable && area_last_frame(regions[i]) >= next,
        forall|j: int|
            0 <= j < i ==> !((#[trigger] regions[j]).usable && area_last_frame(regions[j])
                >= next),
    ensures
        find_area(regions, next) == Some(regions[i]),
    decreases i,
{
    if i > 0 {
        lemma_find_area_hit(regions.drop_first(), next, i - 1);
    }
}

proof fn lemma_find_area_miss(regions: Seq<MemoryArea>, next: u64)
    requires
        forall|j: int|
            0 <= j < regions.len() ==> !((#[trigger] regions[j]).usable && area_last_frame(
                regions[j],
            ) >= next),
    ensures
        find_area(regions, next) is None,
    decreases regions.len(),
{
    if regions.len() > 0 {
        lemma_find_area_miss(regions.drop_first(), next);
    }
}

/// Whatever area the cursor moves to is a usable area of the map whose
/// last frame is not below the cursor.
pub proof fn lemma_find_area_mem(regions: Seq<MemoryArea>, next: u64)
    ensures
        find_area(regions, next) matches Some(a) ==> exists|i: int|
            0 <= i < regions.len() && regions[i] == a && a.usable && area_last_frame(a) >= next,
    decreases regions.len(),
{
    if regions.len() > 0 {
        if regions[0].usable && area_last_frame(regions[0]) >= next {
            assert(0 <= 0 < regions.len() && regions[0] == find_area(regions, next)->Some_0);
        } else {
            lemma_find_area_mem(regions.drop_first(), next);
            match find_area(regions.drop_first(), next) {
                Some(a) => {
                    let i = choose|i: int|
                        0 <= i < regions.drop_first().len() && regions.drop_first()[i] == a
                            && a.usable && area_last_frame(a) >= next;
                    assert(regions[i + 1] == a);
                },
                None => {},
            }
        }
    }
}

/// A bump allocator over the boot-time memory map: a frame cursor, the
/// area it currently allocates from, and the map itself.
#[derive(Debug)]
pub struct BumpAllocator {
    pub next_free_frame: u64,
    pub current_region: Option<MemoryArea>,
    pub regions: Vec<MemoryArea>,
}

impl BumpAllocator {
    /// The allocator's invariant: every area of the map is well formed,
    /// and the current area, if any, is a usable area of the map.
    pub open spec fn wf(self) -> bool {
        &&& forall|i: int| 0 <= i < self.regions@.len() ==> area_wf(#[trigger] self.regions@[i])
        &&& (self.current_region matches Some(a) ==> a.usable && area_first_frame(a)
            <= self.next_free_frame && exists|i: int|
            0 <= i < self.regions@.len() && self.regions@[i] == a)
    }

    /// A fresh allocator over the given memory map, positioned on the
    /// first usable area, if the map has one.
    pub fn new(regions: Vec<MemoryArea>) -> (r: BumpAllocator)
        requires
            forall|i: int| 0 <= i < regions@.len() ==> area_wf(#[trigger] regions@[i]),
        ensures
            r.wf(),
            r.regions == regions,
            r.current_region == find_area(regions@, 0),
            match find_area(regions@, 0) {
                Some(a) => r.next_free_frame == area_first_frame(a),
                None => r.next_free_frame == 0,
            },
    {
        let mut allocator = BumpAllocator { next_free_frame: 0, current_region: None, regions };
        allocator.choose_next_area();
        allocator
    }

    /// Moves the cursor to the first usable area of the map that still has
    /// a frame at or past the cursor, and rewinds the cursor to that
    /// area's first frame; with no such area the allocator is exhausted.
    #[verifier::loop_isolation(false)]
    fn choose_next_area(&mut self)
        requires
            old(self).wf(),
        ensures
            final(self).wf(),
            final(self).regions == old(self).regions,
            final(self).current_region == find_area(
                old(self).regions@,
                old(self).next_free_frame,
            ),
            match find_area(old(self).regions@, old(self).next_free_frame) {
                Some(a) => final(self).next_free_frame == area_first_frame(a),
                None => final(self).next_free_frame == old(self).next_free_frame,
            },
    {
        let n = self.regions.len();
        let next = self.next_free_frame;
        let mut i: usize = 0;
        while i < n
            invariant
                self == old(self),
                next == self.next_free_frame,
                n == self.regions@.len(),
                i <= n,
                forall|j: int|
                    0 <= j < i ==> !((#[trigger] self.regions@[j]).usable && area_last_frame(
                        self.regions@[j],
                    ) >= next),
            decreases n - i,
        {
            let area = self.regions[i];
            proof {
                assert(area_wf(area));
            }
            if area.usable && (area.start_addr + (area.len - 1)) / PAGE_SIZE >= next {
                proof {
                    lemma_find_area_hit(self.regions@, next, i as int);
                }
                self.current_region = Some(area);
                self.next_free_frame = area.start_addr / PAGE_SIZE;
                return ;
            }
            i += 1;
        }
        proof {
            lemma_find_area_miss(self.regions@, next);
        }
        self.current_region = None;
    }

    /// Hands out the frame under the cursor, moving to the next usable
    /// area first when the current one is exhausted; `None` once no area
    /// has a frame left. A returned frame lies in a usable area of the
    /// map, and the cursor advances just past it.
    pub fn allocate_frame(&mut self) -> (r: Option<u64>)
        requires
            old(self).wf(),
        ensures
            final(self).wf(),
            final(self).regions == old(self).regions,
            match r {
                Some(f) => final(self).next_free_frame == f + 1 && (exists|i: int|
                    0 <= i < old(self).regions@.len() && {
                        let a = #[trigger] old(self).regions@[i];
                        a.usable && area_first_frame(a) <= f <= area_last_frame(a)
                    }),
                None => final(self).current_region is None,
            },
            match old(self).current_region {
                Some(a) => if old(self).next_free_frame <= area_last_frame(a) {
                    r == Some(old(self).next_free_frame)
                        && final(self).current_region == old(self).current_region
                } else {
                    match find_area(old(self).regions@, old(self).next_free_frame) {
                        Some(b) => r == Some(area_first_frame(b) as u64)
                            && final(self).current_region == Some(b),
                        None => r is None,
                    }
                },
                None => r is None && *final(self) == *old(self),
            },
    {
        let area = match self.current_region {
            None => {
                return None;
            },
            Some(a) => a,
        };
        proof {
            assert(area_wf(area));
            lemma_find_area_mem(self.regions@, self.next_free_frame);
        }
        let current_region_last_frame = (area.start_addr + (area.len - 1)) / PAGE_SIZE;
        if self.next_free_frame > current_region_last_frame {
            // the current area is used up: move to the next one and, if
            // there is one, hand out its first frame
            self.choose_next_area();
            match self.current_region {
                None => None,
                Some(fresh) => {
                    proof {
                        assert(area_wf(fresh));
                        assert(area_first_frame(fresh) <= area_last_frame(fresh)) by {
                            assert(fresh.start_addr <= fresh.start_addr + fresh.len - 1);
                            vstd::arithmetic::div_mod::lemma_div_is_ordered(
                                fresh.start_addr as int,
                                fresh.start_addr + fresh.len - 1,
                                PAGE_SIZE as int,
                            );
                        }
                    }
                    let ghost iw = choose|i: int|
                        0 <= i < self.regions@.len() && self.regions@[i] == fresh;
                    let found = self.next_free_frame;
                    self.next_free_frame = found + 1;
                    proof {
                        assert(self.regions@[iw] == fresh);
                        assert(old(self).regions@[iw] == fresh);
                    }
                    Some(found)
                },
            }
        } else {
            let ghost iw = choose|i: int|
                0 <= i < self.regions@.len() && self.regions@[i] == area;
            let found = self.next_free_frame;
            self.next_free_frame = found + 1;
            proof {
                assert(self.regions@[iw] == area);
                assert(old(self).regions@[iw] == area);
            }
            Some(found)
        }
    }

    /// Frames are never returned: deallocation is accepted and ignored.
    pub fn deallocate_frame(&mut self, _frame: u64)
        ensures
            *final(self) == *old(self),
    {
    }
}

} // verus!
