//! The patcher: seeks the trap frame of a marked thread in the regions of
//! physical memory and raises the privilege level saved there.

use vstd::prelude::*;
use crate::bytes::le_u32;
use crate::iopl::level::Level;
use crate::iopl::patcher_impl::{eflags_in, find_eflags, with_iopl};
use crate::iopl::phys_mapper::{MapEvent, Mapper, Mapping};
use crate::iopl::phys_ranges::{ordered, search_order, PhysicalRegion};
use crate::iopl::types::{ContextKeeper, ThreadState};

verus! {

/// Why the privilege level was not raised.
#[derive(Clone, Copy, Debug, PartialEq, Eq, Structural)]
pub enum IoplError {
    /// The system lists no region of physical memory.
    NoPhysicalRegions,
    /// No region that could be mapped holds the trap frame.
    EflagsNotFound,
}

pub struct Patcher<PhysMapper: Mapper> {
    mapper: PhysMapper,
}

/// Did a request map a range that holds the trap frame of the thread?
pub open spec fn holds_frame(event: MapEvent, state: ThreadState) -> bool {
    match event.content {
        Some(bytes) => eflags_in(bytes, state) is Some,
        None => false,
    }
}

/// Are these the requests of a search through the candidates: one for
/// each candidate in turn, as far as the search went, and none but the
/// last for a range that holds the frame; and did the search stop before
/// the last candidate only because it had found the frame?
pub open spec fn is_search(
    candidates: Seq<PhysicalRegion>,
    attempts: Seq<MapEvent>,
    state: ThreadState,
) -> bool {
    &&& attempts.len() <= candidates.len()
    &&& forall|i: int|
        0 <= i < attempts.len() ==> (#[trigger] attempts[i]).phys_addr == candidates[i].beginning
            && attempts[i].size == candidates[i].size
    &&& forall|i: int| 0 <= i < attempts.len() - 1 ==> !holds_frame(#[trigger] attempts[i], state)
    &&& attempts.len() < candidates.len() ==> attempts.len() > 0 && holds_frame(
        attempts.last(),
        state,
    )
}

impl<PhysMapper: Mapper> Patcher<PhysMapper> {
    /// The mapper through which regions are mapped.
    pub closed spec fn mapper(&self) -> PhysMapper {
        self.mapper
    }

    pub fn new(mapper: PhysMapper) -> (r: Self)
        ensures
            r.mapper() == mapper,
    {
        Self { mapper }
    }

    /// Gives the mapper back.
    pub fn into_mapper(self) -> (r: PhysMapper)
        ensures
            r == self.mapper(),
    {
        self.mapper
    }

    /// Patches a mapped region at the place where a search has found the
    /// flags word of the trap frame. Where a place is given and a 32-bit
    /// word lies there, the registers of the thread are put back first and
    /// then the privilege level is put into that word; nothing else in the
    /// region changes. Otherwise nothing happens at all.
    pub fn patch_found<K: ContextKeeper>(
        mapped: &mut PhysMapper::Type,
        found: Option<usize>,
        level: Level,
        keeper: &mut K,
    ) -> (patched: bool)
        ensures
            patched == match found {
                Some(at) => at + 4 <= old(mapped).bytes().len(),
                None => false,
            },
            final(mapped).bytes().len() == old(mapped).bytes().len(),
            !patched ==> final(mapped).bytes() == old(mapped).bytes() && final(keeper).restored()
                == old(keeper).restored(),
            patched ==> {
                let at = found->0 as int;
                &&& final(keeper).restored()
                &&& le_u32(final(mapped).bytes(), at) == with_iopl(
                    le_u32(old(mapped).bytes(), at) as u32,
                    level,
                )
                &&& forall|i: int|
                    0 <= i < old(mapped).bytes().len() && !(at <= i < at + 4)
                        ==> final(mapped).bytes()[i] == old(mapped).bytes()[i]
            },
    {
        let at = match found {
            Some(at) => at,
            None => {
                return false;
            },
        };
        let size = mapped.size();
        if at > size || size - at < 4 {
            return false;
        }
        keeper.restore();
        let bits: u32 = level.value() << crate::iopl::consts::EFLAGS_IOPL_OFFSET;
        mapped.or_word(at, bits);
        true
    }

    /// Seeks the trap frame in a mapped region. Where it is found, the
    /// registers of the thread are put back first and then the privilege
    /// level is put into the flags word of the frame; nothing else in the
    /// region changes. Where it is not found, nothing happens at all.
    pub fn patch_mapping<K: ContextKeeper>(
        mapped: &mut PhysMapper::Type,
        state: &ThreadState,
        level: Level,
        keeper: &mut K,
    ) -> (found: bool)
        ensures
            found == eflags_in(old(mapped).bytes(), *state) is Some,
            final(mapped).bytes().len() == old(mapped).bytes().len(),
            !found ==> final(mapped).bytes() == old(mapped).bytes() && final(keeper).restored()
                == old(keeper).restored(),
            found ==> {
                let at = eflags_in(old(mapped).bytes(), *state)->0;
                &&& final(keeper).restored()
                &&& le_u32(final(mapped).bytes(), at) == with_iopl(
                    le_u32(old(mapped).bytes(), at) as u32,
                    level,
                )
                &&& forall|i: int|
                    0 <= i < old(mapped).bytes().len() && !(at <= i < at + 4)
                        ==> final(mapped).bytes()[i] == old(mapped).bytes()[i]
            },
    {
        let found = find_eflags(mapped.mapping(), state);
        Self::patch_found(mapped, found, level, keeper)
    }

    /// Seeks the trap frame in the regions, the largest first, leaving out
    /// those that cannot hold it or are not open for reading and writing.
    /// Each region is mapped in its turn, searched and patched as
    /// `patch_mapping` says, and unmapped; a region that cannot be mapped is
    /// passed over. The search ends with the first region that holds the
    /// frame, and fails if none does or if there is no region at all. The
    /// registers of the thread are put back in any case.
    pub fn patch_regions<K: ContextKeeper>(
        &mut self,
        regions: &Vec<PhysicalRegion>,
        state: &ThreadState,
        level: Level,
        keeper: &mut K,
    ) -> (r: Result<(), IoplError>)
        ensures
            final(keeper).restored(),
            regions@.len() == 0 ==> {
                &&& r == Err::<(), IoplError>(IoplError::NoPhysicalRegions)
                &&& final(self).mapper().asked() == old(self).mapper().asked()
            },
            regions@.len() > 0 ==> {
                let before = old(self).mapper().asked();
                let after = final(self).mapper().asked();
                let attempts = after.skip(before.len() as int);
                &&& after.len() >= before.len()
                &&& after.take(before.len() as int) == before
                &&& is_search(ordered(regions@), attempts, *state)
                &&& r == if attempts.len() > 0 && holds_frame(attempts.last(), *state) {
                    Ok::<(), IoplError>(())
                } else {
                    Err::<(), IoplError>(IoplError::EflagsNotFound)
                }
            },
    {
        if regions.len() == 0 {
            keeper.restore();
            return Err(IoplError::NoPhysicalRegions);
        }
        let candidates = search_order(regions);
        let ghost before = self.mapper.asked();
        let mut i: usize = 0;
        proof {
            assert(before.take(before.len() as int) =~= before);
        }
        while i < candidates.len()
            invariant
                0 <= i <= candidates@.len(),
                regions@.len() > 0,
                candidates@ == ordered(regions@),
                before == old(self).mapper().asked(),
                self.mapper.asked().len() == before.len() + i,
                self.mapper.asked().take(before.len() as int) == before,
                forall|k: int|
                    0 <= k < i ==> {
                        let attempt = #[trigger] self.mapper.asked()[before.len() + k];
                        &&& attempt.phys_addr == candidates@[k].beginning
                        &&& attempt.size == candidates@[k].size
                        &&& !holds_frame(attempt, *state)
                    },
            decreases candidates@.len() - i,
        {
            let region = candidates[i];
            let ghost so_far = self.mapper.asked();
            let answer = self.mapper.map(region.beginning, region.size);
            proof {
                assert(self.mapper.asked().take(before.len() as int) =~= so_far.take(
                    before.len() as int,
                ));
                assert forall|k: int| 0 <= k < i implies {
                    let attempt = #[trigger] self.mapper.asked()[before.len() + k];
                    &&& attempt.phys_addr == candidates@[k].beginning
                    &&& attempt.size == candidates@[k].size
                    &&& !holds_frame(attempt, *state)
                } by {
                    assert(self.mapper.asked()[before.len() + k] == so_far[before.len() + k]);
                }
            }
            match answer {
                Some(mapped) => {
                    let mut mapped = mapped;
                    let found = Self::patch_mapping(&mut mapped, state, level, keeper);
                    mapped.unmap();
                    if found {
                        proof {
                            let after = self.mapper.asked();
                            let attempts = after.skip(before.len() as int);
                            assert(attempts.len() == i + 1);
                            assert forall|k: int| 0 <= k < attempts.len() implies (
                            #[trigger] attempts[k]).phys_addr == candidates@[k].beginning
                                && attempts[k].size == candidates@[k].size by {
                                assert(attempts[k] == after[before.len() + k]);
                            }
                            assert forall|k: int| 0 <= k < attempts.len() - 1 implies !holds_frame(
                                #[trigger] attempts[k],
                                *state,
                            ) by {
                                assert(attempts[k] == after[before.len() + k]);
                            }
                            assert(attempts.last() == after[before.len() + i]);
                        }
                        return Ok(());
                    }
                },
                None => {},
            }
            i += 1;
        }
        keeper.restore();
        proof {
            let after = self.mapper.asked();
            let attempts = after.skip(before.len() as int);
            assert forall|k: int| 0 <= k < attempts.len() implies (#[trigger] attempts[k]).phys_addr
                == candidates@[k].beginning && attempts[k].size == candidates@[k].size
                && !holds_frame(attempts[k], *state) by {
                assert(attempts[k] == after[before.len() + k]);
            }
            if attempts.len() > 0 {
                assert(!holds_frame(attempts[attempts.len() - 1], *state));
            }
        }
        Err(IoplError::EflagsNotFound)
    }
}

} // verus!
