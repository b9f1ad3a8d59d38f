//! The ranges of physical memory, as the system lists them.
//!
//! The list is a block of bytes: a 32-bit count of full descriptors, then
//! the descriptors, 36 bytes apart. A full descriptor holds, from its
//! twelfth byte on, a 32-bit count of partial descriptors and then those,
//! 20 bytes each: a kind, a share disposition, 16 bits of flags, and the
//! start and the size of a range as 64-bit numbers. All numbers are
//! little-endian.

use vstd::prelude::*;
use crate::bytes::{le_u16, le_u32, le_u64, read_u16, read_u32, read_u64};

verus! {

#[derive(Clone, Copy, Debug, PartialEq, Eq, Structural)]
pub struct PhysicalRegion {
    pub beginning: u64,
    pub size: u64,
    pub flags: u16,
    pub readwrite: bool,
    pub readonly: bool,
    pub writeonly: bool,
    pub prefetchable: bool,
    pub cacheable: bool,
    pub write_combined: bool,
}

/// The kind of a descriptor of memory.
pub const RESOURCE_TYPE_MEMORY: u8 = 3;

/// The kind of a descriptor of memory whose size is given in larger units.
pub const RESOURCE_TYPE_MEMORY_LARGE: u8 = 7;

pub const CM_RESOURCE_MEMORY_READ_WRITE: u16 = 0x0000;

pub const CM_RESOURCE_MEMORY_READ_ONLY: u16 = 0x0001;

pub const CM_RESOURCE_MEMORY_WRITE_ONLY: u16 = 0x0002;

pub const CM_RESOURCE_MEMORY_PREFETCHABLE: u16 = 0x0004;

pub const CM_RESOURCE_MEMORY_COMBINEDWRITE: u16 = 0x0008;

pub const CM_RESOURCE_MEMORY_CACHEABLE: u16 = 0x0020;

/// The size is given in units of 256 bytes.
pub const CM_RESOURCE_MEMORY_LARGE_40: u16 = 0x0200;

/// The size is given in units of 65 536 bytes.
pub const CM_RESOURCE_MEMORY_LARGE_48: u16 = 0x0400;

/// The size is given in units of 4 294 967 296 bytes.
pub const CM_RESOURCE_MEMORY_LARGE_64: u16 = 0x0800;

/// The smallest region that can hold a trap frame.
pub const SMALLEST_REGION: u64 = 400;

/// The size in bytes of a range, from the kind and the flags of its
/// descriptor and the size declared there: the size itself for memory; for
/// large memory the size in the unit that the flags name, as far as 64 bits
/// hold it; nothing for any other kind.
pub open spec fn region_size(kind: u8, flags: u16, declared: u64) -> u64 {
    if kind == 3 {
        declared
    } else if kind == 7 {
        if flags & 0x0200 != 0 {
            (declared * 0x100 % 0x1_0000_0000_0000_0000) as u64
        } else if flags & 0x0400 != 0 {
            (declared * 0x1_0000 % 0x1_0000_0000_0000_0000) as u64
        } else if flags & 0x0800 != 0 {
            (declared * 0x1_0000_0000 % 0x1_0000_0000_0000_0000) as u64
        } else {
            0
        }
    } else {
        0
    }
}

/// The region that a descriptor describes.
pub open spec fn region_of(kind: u8, flags: u16, beginning: u64, declared: u64) -> PhysicalRegion {
    PhysicalRegion {
        beginning,
        size: region_size(kind, flags, declared),
        flags,
        readwrite: flags & 0xFF == 0,
        readonly: flags & 0x0001 != 0,
        writeonly: flags & 0x0002 != 0,
        prefetchable: flags & 0x0004 != 0,
        cacheable: flags & 0x0020 != 0,
        write_combined: flags & 0x0008 != 0,
    }
}

/// The region that the partial descriptor at a byte offset describes.
pub open spec fn descriptor_at(blob: Seq<u8>, offset: int) -> PhysicalRegion {
    region_of(
        blob[offset],
        le_u16(blob, offset + 2) as u16,
        le_u64(blob, offset + 4) as u64,
        le_u64(blob, offset + 12) as u64,
    )
}

/// Where the full descriptor of the given number starts.
pub open spec fn full_offset(number: int) -> int {
    4 + 36 * number
}

/// How many partial descriptors a full descriptor has.
pub open spec fn partial_count(blob: Seq<u8>, number: int) -> int {
    le_u32(blob, full_offset(number) + 12)
}

/// Where a partial descriptor of a full descriptor starts.
pub open spec fn partial_offset(number: int, partial: int) -> int {
    full_offset(number) + 16 + 20 * partial
}

/// The regions of the first `count` partial descriptors of a full
/// descriptor.
pub open spec fn partials(blob: Seq<u8>, number: int, count: int) -> Seq<PhysicalRegion> {
    Seq::new(count as nat, |partial: int| descriptor_at(blob, partial_offset(number, partial)))
}

/// The regions of the first `count` full descriptors.
pub open spec fn regions_upto(blob: Seq<u8>, count: int) -> Seq<PhysicalRegion>
    decreases count,
{
    if count <= 0 {
        Seq::empty()
    } else {
        regions_upto(blob, count - 1) + partials(blob, count - 1, partial_count(blob, count - 1))
    }
}

/// Do the first `count` full descriptors lie in the block, with all their
/// partial descriptors?
pub open spec fn list_fits(blob: Seq<u8>, count: int) -> bool
    decreases count,
{
    if count <= 0 {
        true
    } else {
        &&& list_fits(blob, count - 1)
        &&& full_offset(count - 1) + 16 <= blob.len()
        &&& partial_offset(count - 1, partial_count(blob, count - 1)) <= blob.len()
    }
}

/// The regions that a block lists, if everything it announces lies in it.
pub open spec fn resource_list(blob: Seq<u8>) -> Option<Seq<PhysicalRegion>> {
    if blob.len() >= 4 && list_fits(blob, le_u32(blob, 0)) {
        Some(regions_upto(blob, le_u32(blob, 0)))
    } else {
        None
    }
}

/// Can the trap frame be sought in the region: is it open for reading and
/// writing and large enough to hold a frame?
pub open spec fn searchable(region: PhysicalRegion) -> bool {
    region.readwrite && region.size >= 400
}

/// Those of the regions in which the frame can be sought, in their order.
pub open spec fn searchable_of(regions: Seq<PhysicalRegion>) -> Seq<PhysicalRegion>
    decreases regions.len(),
{
    if regions.len() == 0 {
        Seq::empty()
    } else if searchable(regions.last()) {
        searchable_of(regions.drop_last()).push(regions.last())
    } else {
        searchable_of(regions.drop_last())
    }
}

/// Does no region stand before a larger one?
pub open spec fn largest_first(regions: Seq<PhysicalRegion>) -> bool {
    forall|i: int, j: int| 0 <= i <= j < regions.len() ==> regions[i].size >= regions[j].size
}

/// A list of regions with one more region put in: behind every region
/// that is no smaller, before those that are smaller and stand last.
pub open spec fn placed(regions: Seq<PhysicalRegion>, region: PhysicalRegion) -> Seq<
    PhysicalRegion,
>
    decreases regions.len(),
{
    if regions.len() == 0 {
        seq![region]
    } else if regions.last().size >= region.size {
        regions.push(region)
    } else {
        placed(regions.drop_last(), region).push(regions.last())
    }
}

/// The regions in which the frame can be sought, in the order in which
/// they are searched: the largest first, regions of one size in the order
/// in which they are listed.
pub open spec fn ordered(regions: Seq<PhysicalRegion>) -> Seq<PhysicalRegion>
    decreases regions.len(),
{
    if regions.len() == 0 {
        Seq::empty()
    } else if searchable(regions.last()) {
        placed(ordered(regions.drop_last()), regions.last())
    } else {
        ordered(regions.drop_last())
    }
}

/// Putting a region into a list adds it once and keeps the others, and
/// keeps the list largest first if it was so.
pub proof fn lemma_placed(regions: Seq<PhysicalRegion>, region: PhysicalRegion)
    ensures
        placed(regions, region).len() == regions.len() + 1,
        placed(regions, region).to_multiset() == regions.to_multiset().insert(region),
        largest_first(regions) ==> largest_first(placed(regions, region)),
        forall|i: int|
            0 <= i < placed(regions, region).len() ==> #[trigger] placed(regions, region)[i]
                == region || exists|j: int|
                0 <= j < regions.len() && regions[j] == placed(regions, region)[i],
    decreases regions.len(),
{
    let result = placed(regions, region);
    if regions.len() == 0 {
        assert(result =~= regions.push(region));
        vstd::seq_lib::to_multiset_build(regions, region);
    } else if regions.last().size >= region.size {
        vstd::seq_lib::to_multiset_build(regions, region);
        assert forall|i: int| 0 <= i < result.len() implies #[trigger] result[i] == region
            || exists|j: int| 0 <= j < regions.len() && regions[j] == result[i] by {
            if i < regions.len() {
                assert(regions[i] == result[i]);
            }
        }
    } else {
        let front = regions.drop_last();
        let inner = placed(front, region);
        lemma_placed(front, region);
        assert(regions =~= front.push(regions.last()));
        vstd::seq_lib::to_multiset_build(front, regions.last());
        vstd::seq_lib::to_multiset_build(inner, regions.last());
        assert(result.to_multiset() =~= regions.to_multiset().insert(region));
        assert forall|i: int| 0 <= i < result.len() implies #[trigger] result[i] == region
            || exists|j: int| 0 <= j < regions.len() && regions[j] == result[i] by {
            if i < inner.len() {
                assert(result[i] == inner[i]);
                if inner[i] != region {
                    let j = choose|j: int| 0 <= j < front.len() && front[j] == inner[i];
                    assert(regions[j] == result[i]);
                }
            } else {
                assert(regions[regions.len() - 1] == result[i]);
            }
        }
        if largest_first(regions) {
            assert(largest_first(front)) by {
                assert forall|i: int, j: int| 0 <= i <= j < front.len() implies front[i].size
                    >= front[j].size by {
                    assert(regions[i].size >= regions[j].size);
                }
            }
            assert forall|i: int, j: int| 0 <= i <= j < result.len() implies result[i].size
                >= result[j].size by {
                if j < inner.len() {
                    assert(inner[i].size >= inner[j].size);
                } else if i < inner.len() {
                    assert(result[i] == inner[i]);
                    if inner[i] != region {
                        let k = choose|k: int| 0 <= k < front.len() && front[k] == inner[i];
                        assert(regions[k].size >= regions[regions.len() - 1].size);
                    }
                }
            }
        }
    }
}

/// The order of the search holds just the regions in which the frame can
/// be sought, each as often as it is listed, and no region before a
/// larger one.
pub proof fn lemma_ordered(regions: Seq<PhysicalRegion>)
    ensures
        largest_first(ordered(regions)),
        ordered(regions).to_multiset() == searchable_of(regions).to_multiset(),
        ordered(regions).len() == searchable_of(regions).len(),
    decreases regions.len(),
{
    if regions.len() > 0 {
        lemma_ordered(regions.drop_last());
        if searchable(regions.last()) {
            lemma_placed(ordered(regions.drop_last()), regions.last());
            vstd::seq_lib::to_multiset_build(searchable_of(regions.drop_last()), regions.last());
        }
    }
}

/// A region put in at the place behind which every region is smaller and
/// before which the region, if there is one, is no smaller, is placed.
proof fn lemma_placed_at(regions: Seq<PhysicalRegion>, region: PhysicalRegion, at: int)
    requires
        0 <= at <= regions.len(),
        at > 0 ==> regions[at - 1].size >= region.size,
        forall|k: int| at <= k < regions.len() ==> regions[k].size < region.size,
    ensures
        placed(regions, region) == regions.insert(at, region),
    decreases regions.len(),
{
    if regions.len() == 0 {
        assert(regions.insert(at, region) =~= seq![region]);
    } else if at == regions.len() {
        assert(regions.insert(at, region) =~= regions.push(region));
    } else {
        lemma_placed_at(regions.drop_last(), region, at);
        assert(regions.insert(at, region) =~= regions.drop_last().insert(at, region).push(
            regions.last(),
        ));
    }
}

impl PhysicalRegion {
    /// The region that a descriptor describes.
    pub fn new(kind: u8, flags: u16, beginning: u64, declared: u64) -> (r: PhysicalRegion)
        ensures
            r == region_of(kind, flags, beginning, declared),
    {
        let size: u64 = if kind == RESOURCE_TYPE_MEMORY {
            declared
        } else if kind == RESOURCE_TYPE_MEMORY_LARGE {
            if flags & CM_RESOURCE_MEMORY_LARGE_40 != 0 {
                (declared as u128 * 0x100 % 0x1_0000_0000_0000_0000) as u64
            } else if flags & CM_RESOURCE_MEMORY_LARGE_48 != 0 {
                (declared as u128 * 0x1_0000 % 0x1_0000_0000_0000_0000) as u64
            } else if flags & CM_RESOURCE_MEMORY_LARGE_64 != 0 {
                (declared as u128 * 0x1_0000_0000 % 0x1_0000_0000_0000_0000) as u64
            } else {
                0
            }
        } else {
            0
        };
        PhysicalRegion {
            beginning,
            size,
            flags,
            readwrite: flags & 0xFF == CM_RESOURCE_MEMORY_READ_WRITE,
            readonly: flags & CM_RESOURCE_MEMORY_READ_ONLY != 0,
            writeonly: flags & CM_RESOURCE_MEMORY_WRITE_ONLY != 0,
            prefetchable: flags & CM_RESOURCE_MEMORY_PREFETCHABLE != 0,
            cacheable: flags & CM_RESOURCE_MEMORY_CACHEABLE != 0,
            write_combined: flags & CM_RESOURCE_MEMORY_COMBINEDWRITE != 0,
        }
    }

    /// Can the trap frame be sought in the region?
    pub fn is_searchable(&self) -> (r: bool)
        ensures
            r == searchable(*self),
    {
        self.readwrite && self.size >= SMALLEST_REGION
    }
}

/// Reads the list of physical memory ranges from the block of bytes that
/// the system keeps it in.
pub fn parse_physical_memory_ranges(blob: &[u8]) -> (r: Option<Vec<PhysicalRegion>>)
    ensures
        match r {
            Some(regions) => resource_list(blob@) == Some(regions@),
            None => resource_list(blob@) is None,
        },
{
    let length = blob.len();
    if length < 4 {
        return None;
    }
    let count = read_u32(blob, 0);
    let mut regions: Vec<PhysicalRegion> = Vec::new();
    let mut number: u32 = 0;
    while number < count
        invariant
            length == blob@.len(),
            length >= 4,
            count == le_u32(blob@, 0),
            0 <= number <= count,
            list_fits(blob@, number as int),
            regions@ == regions_upto(blob@, number as int),
        decreases count - number,
    {
        let full: u64 = 4 + 36 * number as u64;
        if full + 16 > length as u64 {
            proof {
                if list_fits(blob@, count as int) {
                    lemma_fits_prefix(blob@, number + 1, count as int);
                }
            }
            return None;
        }
        let full = full as usize;
        let partial_total = read_u32(blob, full + 12);
        let end: u64 = full as u64 + 16 + 20 * partial_total as u64;
        if end > length as u64 {
            proof {
                if list_fits(blob@, count as int) {
                    lemma_fits_prefix(blob@, number + 1, count as int);
                }
            }
            return None;
        }
        let ghost before = regions@;
        let mut partial: u32 = 0;
        proof {
            assert(partials(blob@, number as int, 0) =~= Seq::<PhysicalRegion>::empty());
            assert(before + Seq::<PhysicalRegion>::empty() =~= before);
        }
        while partial < partial_total
            invariant
                length == blob@.len(),
                full == full_offset(number as int),
                partial_total == partial_count(blob@, number as int),
                partial_offset(number as int, partial_total as int) <= length,
                0 <= partial <= partial_total,
                regions@ == before + partials(blob@, number as int, partial as int),
            decreases partial_total - partial,
        {
            let at: usize = full + 16 + 20 * partial as usize;
            let region = PhysicalRegion::new(
                blob[at],
                read_u16(blob, at + 2),
                read_u64(blob, at + 4),
                read_u64(blob, at + 12),
            );
            regions.push(region);
            partial += 1;
            proof {
                assert(regions@ =~= before + partials(blob@, number as int, partial as int));
            }
        }
        number += 1;
    }
    Some(regions)
}

/// A list that fits fits at each of its beginnings.
proof fn lemma_fits_prefix(blob: Seq<u8>, shorter: int, count: int)
    requires
        shorter <= count,
        list_fits(blob, count),
    ensures
        list_fits(blob, shorter),
    decreases count - shorter,
{
    if shorter < count {
        lemma_fits_prefix(blob, shorter, count - 1);
    }
}

/// The regions in which the trap frame is sought, in the order in which
/// they are searched: those open for reading and writing that can hold a
/// frame, the largest first.
pub fn search_order(regions: &Vec<PhysicalRegion>) -> (r: Vec<PhysicalRegion>)
    ensures
        r@ == ordered(regions@),
        largest_first(r@),
        r@.to_multiset() == searchable_of(regions@).to_multiset(),
{
    let mut out: Vec<PhysicalRegion> = Vec::new();
    let mut i: usize = 0;
    proof {
        assert(regions@.take(0) =~= Seq::<PhysicalRegion>::empty());
    }
    while i < regions.len()
        invariant
            0 <= i <= regions@.len(),
            out@ == ordered(regions@.take(i as int)),
            out@.len() <= i,
        decreases regions@.len() - i,
    {
        proof {
            assert(regions@.take(i + 1).drop_last() =~= regions@.take(i as int));
        }
        let region = regions[i];
        if region.is_searchable() {
            let mut at: usize = out.len();
            while at > 0 && out[at - 1].size < region.size
                invariant
                    0 <= at <= out@.len(),
                    forall|k: int| at <= k < out@.len() ==> out@[k].size < region.size,
                decreases at,
            {
                at -= 1;
            }
            proof {
                lemma_placed_at(out@, region, at as int);
            }
            out.insert(at, region);
        }
        i += 1;
    }
    proof {
        assert(regions@.take(i as int) =~= regions@);
        lemma_ordered(regions@);
    }
    out
}

} // verus!
