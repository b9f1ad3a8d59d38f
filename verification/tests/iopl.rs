use beesynth::iopl::consts;
use beesynth::iopl::iopl_patcher::{IoplError, Patcher};
use beesynth::iopl::ktrap_frame::TrapFrame;
use beesynth::iopl::level::Level;
use beesynth::iopl::patcher_impl::{find_eflags, find_in, first_found, is_desired, needs_workers, raise, worker_ranges, FIRST_INDEX};
use beesynth::iopl::phys_mapper::{Image, ImageMapper, Mapper, Mapping, MemoryImage};
use beesynth::iopl::phys_ranges::{parse_physical_memory_ranges, search_order, PhysicalRegion};
use beesynth::iopl::types::{ContextKeeper, Registers, RestoreLog, ThreadState};

fn put_u64(bytes: &mut [u8], at: usize, value: u64) {
    bytes[at..at + 8].copy_from_slice(&value.to_le_bytes());
}

fn put_frame(bytes: &mut [u8], start: usize, rip: u64, rsp: u64, ss: u16, eflags: u32) {
    put_u64(bytes, start + 48, consts::MARK_RAX);
    put_u64(bytes, start + 56, consts::MARK_RCX);
    put_u64(bytes, start + 64, consts::MARK_RDX);
    put_u64(bytes, start + 72, consts::MARK_R8);
    put_u64(bytes, start + 80, consts::MARK_R9);
    put_u64(bytes, start + 360, rip);
    bytes[start + 376..start + 380].copy_from_slice(&eflags.to_le_bytes());
    put_u64(bytes, start + 384, rsp);
    bytes[start + 392..start + 394].copy_from_slice(&ss.to_le_bytes());
}

const RIP: u64 = 0x7FF6_1234_5678;
const RSP: u64 = 0x00AB_CDEF_0010;

#[test]
fn iopl_marker_placement() {
    let state = ThreadState::new(RIP, RSP);
    let mut memory = vec![0_u8; 8192];
    let start = 2000;
    put_frame(&mut memory, start, RIP, RSP, 0x2b, 0x0000_0246);
    assert_eq!(TrapFrame::OFFSET_EFLAGS, 376);
    assert_eq!(find_eflags(&memory, &state), Some(start + TrapFrame::OFFSET_EFLAGS));
    assert!(is_desired(&memory, start + 376, &state));
    assert!(!is_desired(&memory, start + 372, &state));
    let frame = TrapFrame::read(&memory, start);
    assert_eq!(frame.rax, 0x1EE7_C0DE);
    assert_eq!(frame.rcx, 0xC0_FFEE);
    assert_eq!(frame.rdx, 0xC_ACA0);
    assert_eq!(frame.r8, 0x7EA);
    assert_eq!(frame.r9, 0xFA_CADE);
    assert_eq!((frame.rip, frame.rsp, frame.seg_ss, frame.eflags), (RIP, RSP, 0x2b, 0x246));
    // A frame alone: the flags word lies 376 bytes into it.
    let mut frame_alone = vec![0_u8; 400];
    put_frame(&mut frame_alone, 0, RIP, RSP, 0x2b, 0x0000_0246);
    assert_eq!(find_eflags(&frame_alone, &state), Some(TrapFrame::OFFSET_EFLAGS));
    assert_eq!(frame_alone.len(), 400);
}

#[test]
fn frames_that_are_not_the_threads_are_passed_over() {
    let state = ThreadState::new(RIP, RSP);
    let mut memory = vec![0_u8; 8192];
    put_frame(&mut memory, 1600, RIP + 1, RSP, 0x2b, 0x246);
    put_frame(&mut memory, 2400, RIP, RSP - 8, 0x2b, 0x246);
    put_frame(&mut memory, 3200, RIP, RSP, 0x18, 0x246);
    assert_eq!(find_eflags(&memory, &state), None);
    put_frame(&mut memory, 4000, RIP, RSP, 0x2b, 0x246);
    put_frame(&mut memory, 4800, RIP, RSP, 0x2b, 0x246);
    assert_eq!(find_eflags(&memory, &state), Some(4376));
    memory[4000 + 48] ^= 1;
    assert_eq!(find_eflags(&memory, &state), Some(5176));
}

#[test]
fn the_search_looks_at_every_word_and_needs_the_whole_frame() {
    let state = ThreadState::new(RIP, RSP);
    assert_eq!(FIRST_INDEX * 4, TrapFrame::OFFSET_EFLAGS);
    // A region that holds one frame and nothing else.
    let mut memory = vec![0_u8; 400];
    put_frame(&mut memory, 0, RIP, RSP, 0x2b, 0);
    assert_eq!(find_eflags(&memory, &state), Some(376));
    // Frames near the start of a region.
    for start in [0_usize, 4, 372, 852, 856, 1228, 1232] {
        let mut memory = vec![0_u8; 4096];
        put_frame(&mut memory, start, RIP, RSP, 0x2b, 0);
        assert_eq!(find_eflags(&memory, &state), Some(start + 376));
    }
    // A frame that does not start at a multiple of four is not seen.
    let mut memory = vec![0_u8; 4096];
    put_frame(&mut memory, 2002, RIP, RSP, 0x2b, 0);
    assert_eq!(find_eflags(&memory, &state), None);
    // A frame cut off by the end of the region is not seen.
    let mut memory = vec![0_u8; 4096];
    put_frame(&mut memory, 4096 - 400, RIP, RSP, 0x2b, 0);
    assert_eq!(find_eflags(&memory, &state), Some(4096 - 24));
    assert_eq!(find_eflags(&memory[..4095], &state), None);
    assert_eq!(find_eflags(&[], &state), None);
    assert_eq!(find_eflags(&memory[..1000], &state), None);
    assert_eq!(find_eflags(&[0_u8; 399], &state), None);
}

#[test]
fn workers_share_a_region() {
    let state = ThreadState::new(RIP, RSP);
    let mut memory = vec![0_u8; 40_000];
    put_frame(&mut memory, 30_000, RIP, RSP, 0x2b, 0);
    let words = memory.len() / 4;
    let ranges = worker_ranges(words, 4);
    assert_eq!(ranges, vec![(94, 2570), (2570, 5046), (5046, 7522), (7522, 10_000)]);
    let finds: Vec<Option<usize>> = ranges.iter().map(|(from, to)| find_in(&memory, &state, *from, *to)).collect();
    assert_eq!(finds, vec![None, None, None, Some(30_376)]);
    assert_eq!(first_found(&finds), find_eflags(&memory, &state));
    assert_eq!(first_found(&vec![None, Some(8), Some(4)]), Some(8));
    assert_eq!(first_found(&vec![]), None);
    // What is left over when the words are dealt out goes to the last worker.
    assert_eq!(worker_ranges(10_001, 4).len(), 4);
    assert_eq!(worker_ranges(10_001, 4).last(), Some(&(7_522, 10_001)));
    assert_eq!(worker_ranges(10_001, 1), vec![(94, 10_001)]);
    assert_eq!(worker_ranges(96, 4), vec![(94, 96)]);
    assert_eq!(worker_ranges(94, 4), vec![]);
    // A frame at the very start of a region falls to the first worker.
    let mut memory = vec![0_u8; 40_000];
    put_frame(&mut memory, 0, RIP, RSP, 0x2b, 0);
    let finds: Vec<Option<usize>> =
        worker_ranges(10_000, 4).iter().map(|(from, to)| find_in(&memory, &state, *from, *to)).collect();
    assert_eq!(finds, vec![Some(376), None, None, None]);
    assert!(!needs_workers(256 * 1024 * 1024));
    assert!(needs_workers(256 * 1024 * 1024 + 1));
}

#[test]
fn privilege_bits() {
    assert_eq!(raise(0x0000_0246, Level::Ring3), 0x0000_3246);
    assert_eq!(raise(0x0000_0246, Level::Ring0), 0x0000_0246);
    assert_eq!(raise(0x0000_1246, Level::Ring2), 0x0000_3246);
    assert_eq!(raise(0xFFFF_CFFF, Level::Ring1), 0xFFFF_DFFF);
    assert_eq!(Level::Ring3.value(), 3);
    assert_eq!(consts::EFLAGS_IOPL_OFFSET, 12);
    assert_eq!(consts::CONTEXT_ALL, 0x10_001F);
}

#[test]
fn registers_are_marked() {
    let registers = Registers { rax: 1, rcx: 2, rdx: 3, r8: 4, r9: 5, rip: RIP, rsp: RSP };
    let marked = registers.marked();
    assert_eq!(marked, Registers { rax: 0x1EE7_C0DE, rcx: 0xC0_FFEE, rdx: 0xC_ACA0, r8: 0x7EA, r9: 0xFA_CADE, rip: RIP, rsp: RSP });
    assert_eq!(registers.state(), ThreadState::new(RIP, RSP));
    assert_eq!(marked.state().rip(), RIP);
    assert_eq!(marked.state().rsp(), RSP);
}

fn descriptor(kind: u8, flags: u16, start: u64, size: u64) -> Vec<u8> {
    let mut bytes = vec![kind, 0];
    bytes.extend_from_slice(&flags.to_le_bytes());
    bytes.extend_from_slice(&start.to_le_bytes());
    bytes.extend_from_slice(&size.to_le_bytes());
    bytes
}

fn resource_list(descriptors: &[Vec<u8>]) -> Vec<u8> {
    let mut blob = vec![];
    blob.extend_from_slice(&1_u32.to_le_bytes());
    blob.extend_from_slice(&0_u32.to_le_bytes());
    blob.extend_from_slice(&0_u32.to_le_bytes());
    blob.extend_from_slice(&1_u16.to_le_bytes());
    blob.extend_from_slice(&1_u16.to_le_bytes());
    blob.extend_from_slice(&(descriptors.len() as u32).to_le_bytes());
    for d in descriptors {
        blob.extend_from_slice(d);
    }
    blob
}

#[test]
fn physical_memory_ranges() {
    let blob = resource_list(&[
        descriptor(3, 0, 0x1000, 0x9_F000),
        descriptor(7, 0x0200, 0x10_0000, 0x1234),
        descriptor(7, 0x0400, 0x1_0000_0000, 0x2),
        descriptor(7, 0x0800 | 0x0001, 0x2_0000_0000, 0x3),
        descriptor(7, 0x0004 | 0x0020 | 0x0008 | 0x0002, 5, 6),
        descriptor(1, 0, 7, 8),
        descriptor(7, 0x0200, 9, u64::MAX),
    ]);
    let regions = parse_physical_memory_ranges(&blob).unwrap();
    let brief: Vec<(u64, u64, bool)> = regions.iter().map(|r| (r.beginning, r.size, r.readwrite)).collect();
    assert_eq!(brief, vec![
        (0x1000, 0x9_F000, true),
        (0x10_0000, 0x12_3400, true),
        (0x1_0000_0000, 0x2_0000, true),
        (0x2_0000_0000, 0x3_0000_0000, false),
        (5, 0, false),
        (7, 0, true),
        (9, 0xFFFF_FFFF_FFFF_FF00, true),
    ]);
    assert_eq!(regions[0], PhysicalRegion::new(3, 0, 0x1000, 0x9_F000));
    assert!(regions[3].readonly && !regions[3].writeonly);
    let r = regions[4];
    assert!(r.prefetchable && r.cacheable && r.write_combined && r.writeonly && !r.readonly);
    assert_eq!(r.flags, 0x002E);
}

#[test]
fn lists_that_do_not_fit_their_block() {
    let blob = resource_list(&[descriptor(3, 0, 1, 2), descriptor(3, 0, 3, 4)]);
    assert_eq!(parse_physical_memory_ranges(&blob).map(|r| r.len()), Some(2));
    assert!(parse_physical_memory_ranges(&blob[..blob.len() - 1]).is_none());
    assert!(parse_physical_memory_ranges(&blob[..19]).is_none());
    assert!(parse_physical_memory_ranges(&[1, 0, 0]).is_none());
    assert_eq!(parse_physical_memory_ranges(&[0, 0, 0, 0]), Some(vec![]));
    let mut two = blob.clone();
    two[0] = 2;
    assert!(parse_physical_memory_ranges(&two).is_none());
    // A second full descriptor starts 36 bytes behind the first.
    let mut room = vec![0_u8; 4 + 36 + 16];
    room[0] = 2;
    assert_eq!(parse_physical_memory_ranges(&room), Some(vec![]));
}

#[test]
fn regions_are_searched_largest_first() {
    let regions = vec![
        PhysicalRegion::new(3, 0, 0xA, 1000),
        PhysicalRegion::new(3, 0, 0xB, 399),
        PhysicalRegion::new(3, 1, 0xC, 5000),
        PhysicalRegion::new(3, 0, 0xD, 400),
        PhysicalRegion::new(3, 0, 0xE, 70_000),
        PhysicalRegion::new(3, 0, 0xF, 1000),
    ];
    assert!(regions[0].is_searchable());
    assert!(!regions[1].is_searchable());
    assert!(!regions[2].is_searchable());
    let order: Vec<u64> = search_order(&regions).iter().map(|r| r.beginning).collect();
    assert_eq!(order, vec![0xE, 0xA, 0xF, 0xD]);
    assert!(search_order(&vec![]).is_empty());
}

struct Memory {
    bytes: Vec<u8>,
    shared: std::rc::Rc<std::cell::RefCell<Vec<(u64, Vec<u8>)>>>,
    address: u64,
}

impl Mapping for Memory {
    fn size(&self) -> usize {
        self.bytes.len()
    }

    fn mapping(&self) -> &[u8] {
        &self.bytes
    }

    fn or_word(&mut self, byte_offset: usize, bits: u32) {
        let mut word = [0_u8; 4];
        word.copy_from_slice(&self.bytes[byte_offset..byte_offset + 4]);
        let value = u32::from_le_bytes(word) | bits;
        self.bytes[byte_offset..byte_offset + 4].copy_from_slice(&value.to_le_bytes());
    }

    fn unmap(self) {
        self.shared.borrow_mut().push((self.address, self.bytes));
    }
}

struct Machine {
    ram: Vec<(u64, Vec<u8>)>,
    unmapped: std::rc::Rc<std::cell::RefCell<Vec<(u64, Vec<u8>)>>>,
}

impl Mapper for Machine {
    type Type = Memory;

    fn map(&mut self, phys_addr: u64, size: u64) -> Option<Memory> {
        let (_, bytes) = self.ram.iter().find(|(address, bytes)| *address == phys_addr && bytes.len() as u64 == size)?;
        Some(Memory { bytes: bytes.clone(), shared: self.unmapped.clone(), address: phys_addr })
    }
}

struct Keeper {
    restored: u32,
}

impl ContextKeeper for Keeper {
    fn restore(&mut self) {
        self.restored += 1;
    }
}

#[test]
fn patcher_raises_the_level_in_the_frame() {
    let state = ThreadState::new(RIP, RSP);
    let mut with_frame = vec![0_u8; 6000];
    put_frame(&mut with_frame, 3000, RIP, RSP, 0x2b, 0x0000_0202);
    let unmapped = std::rc::Rc::new(std::cell::RefCell::new(vec![]));
    let machine = Machine {
        ram: vec![(0x1000, vec![0_u8; 9000]), (0x8000, with_frame.clone())],
        unmapped: unmapped.clone(),
    };
    let regions = vec![
        PhysicalRegion::new(3, 0, 0x8000, 6000),
        PhysicalRegion::new(3, 0, 0x1000, 9000),
        PhysicalRegion::new(3, 0, 0x4_0000, 100_000),
    ];
    let mut patcher = Patcher::new(machine);
    let mut keeper = Keeper { restored: 0 };
    assert_eq!(patcher.patch_regions(&regions, &state, Level::Ring3, &mut keeper), Ok(()));
    assert_eq!(keeper.restored, 1);
    let seen = unmapped.borrow();
    assert_eq!(seen.len(), 2);
    assert_eq!(seen[0], (0x1000, vec![0_u8; 9000]));
    let mut expected = with_frame;
    expected[3376..3380].copy_from_slice(&0x0000_3202_u32.to_le_bytes());
    assert_eq!(seen[1], (0x8000, expected));
}

#[test]
fn patcher_gives_up_without_a_frame() {
    let state = ThreadState::new(RIP, RSP);
    let unmapped = std::rc::Rc::new(std::cell::RefCell::new(vec![]));
    let machine = Machine { ram: vec![(0x1000, vec![0_u8; 9000])], unmapped: unmapped.clone() };
    let mut patcher = Patcher::new(machine);
    let mut keeper = Keeper { restored: 0 };
    let regions = vec![PhysicalRegion::new(3, 0, 0x1000, 9000)];
    assert_eq!(patcher.patch_regions(&regions, &state, Level::Ring3, &mut keeper), Err(IoplError::EflagsNotFound));
    assert_eq!(keeper.restored, 1);
    assert_eq!(unmapped.borrow().len(), 1);
    assert_eq!(patcher.patch_regions(&vec![], &state, Level::Ring3, &mut keeper), Err(IoplError::NoPhysicalRegions));
    assert_eq!(keeper.restored, 2);
    assert_eq!(unmapped.borrow().len(), 1);
}

struct OneImage {
    bytes: Vec<u8>,
}

impl Mapper for OneImage {
    type Type = MemoryImage;

    fn map(&mut self, _phys_addr: u64, _size: u64) -> Option<MemoryImage> {
        Some(MemoryImage::new(self.bytes.clone()))
    }
}

#[test]
fn a_mapping_is_patched_where_the_frame_lies() {
    let state = ThreadState::new(RIP, RSP);
    let mut bytes = vec![0xFF_u8; 5000];
    put_frame(&mut bytes, 2400, RIP, RSP, 0x2b, 0x0000_0206);
    let mut image = MemoryImage::new(bytes.clone());
    assert_eq!(image.size(), 5000);
    let mut keeper = RestoreLog::new();
    assert!(!keeper.was_restored());
    assert!(Patcher::<OneImage>::patch_mapping(&mut image, &state, Level::Ring3, &mut keeper));
    assert!(keeper.was_restored());
    bytes[2776..2780].copy_from_slice(&0x0000_3206_u32.to_le_bytes());
    assert_eq!(image.content(), &bytes);

    let mut blank = MemoryImage::new(vec![0_u8; 5000]);
    let mut keeper = RestoreLog::new();
    assert!(!Patcher::<OneImage>::patch_mapping(&mut blank, &state, Level::Ring3, &mut keeper));
    assert!(!keeper.was_restored());
    assert_eq!(blank.mapping(), vec![0_u8; 5000].as_slice());

    let mut image = MemoryImage::new(vec![0x10, 0x20, 0x30, 0x40, 0x50]);
    image.or_word(1, 0x0102_0304);
    assert_eq!(image.content(), &vec![0x10, 0x24, 0x33, 0x42, 0x51]);
    image.unmap();
}

#[test]
fn regions_of_one_size_are_searched_as_listed() {
    let regions = vec![
        PhysicalRegion::new(3, 0, 0x1, 500),
        PhysicalRegion::new(3, 0, 0x2, 600),
        PhysicalRegion::new(3, 0, 0x3, 500),
        PhysicalRegion::new(3, 0, 0x4, 600),
        PhysicalRegion::new(3, 0, 0x5, 500),
        PhysicalRegion::new(3, 0, 0x6, 9000),
    ];
    let order: Vec<u64> = search_order(&regions).iter().map(|r| r.beginning).collect();
    assert_eq!(order, vec![0x6, 0x2, 0x4, 0x1, 0x3, 0x5]);
}

struct Asked {
    requests: Vec<(u64, u64)>,
    frame_at: u64,
    refuse: u64,
}

impl Mapper for Asked {
    type Type = MemoryImage;

    fn map(&mut self, phys_addr: u64, size: u64) -> Option<MemoryImage> {
        self.requests.push((phys_addr, size));
        if phys_addr == self.refuse {
            return None;
        }
        let mut bytes = vec![0_u8; size as usize];
        if phys_addr == self.frame_at {
            put_frame(&mut bytes, 1000, RIP, RSP, 0x2b, 0x0000_0202);
        }
        Some(MemoryImage::new(bytes))
    }
}

#[test]
fn the_search_ends_with_the_first_region_that_holds_the_frame() {
    let state = ThreadState::new(RIP, RSP);
    let regions = vec![
        PhysicalRegion::new(3, 0, 0x10, 1000),
        PhysicalRegion::new(3, 0, 0x20, 4000),
        PhysicalRegion::new(3, 0, 0x30, 3000),
        PhysicalRegion::new(3, 0, 0x40, 2000),
        PhysicalRegion::new(3, 1, 0x50, 8000),
    ];
    let mut keeper = RestoreLog::new();
    let mut patcher = Patcher::new(Asked { requests: vec![], frame_at: 0x40, refuse: 0x30 });
    assert_eq!(patcher.patch_regions(&regions, &state, Level::Ring3, &mut keeper), Ok(()));
    assert!(keeper.was_restored());
    assert_eq!(patcher.into_mapper().requests, vec![(0x20, 4000), (0x30, 3000), (0x40, 2000)]);

    let mut keeper = RestoreLog::new();
    let mut patcher = Patcher::new(Asked { requests: vec![], frame_at: 0x30, refuse: 0x30 });
    assert_eq!(
        patcher.patch_regions(&regions, &state, Level::Ring3, &mut keeper),
        Err(IoplError::EflagsNotFound)
    );
    assert!(keeper.was_restored());
    assert_eq!(
        patcher.into_mapper().requests,
        vec![(0x20, 4000), (0x30, 3000), (0x40, 2000), (0x10, 1000)]
    );
}

#[test]
fn images_are_mapped_by_address_and_size() {
    let state = ThreadState::new(RIP, RSP);
    let mut with_frame = vec![0_u8; 3000];
    put_frame(&mut with_frame, 2000, RIP, RSP, 0x2b, 0x0000_0002);
    let mut mapper = ImageMapper::new(vec![
        Image { phys_addr: 0x7000, content: vec![1, 2, 3] },
        Image { phys_addr: 0x9000, content: with_frame },
    ]);
    assert!(mapper.map(0x7000, 4).is_none());
    assert!(mapper.map(0x8000, 3).is_none());
    assert_eq!(mapper.map(0x7000, 3).map(|image| image.content().clone()), Some(vec![1, 2, 3]));

    let regions = vec![
        PhysicalRegion::new(3, 0, 0x7000, 3),
        PhysicalRegion::new(3, 0, 0x9000, 3000),
    ];
    let mut keeper = RestoreLog::new();
    let mut patcher = Patcher::new(mapper);
    assert_eq!(patcher.patch_regions(&regions, &state, Level::Ring3, &mut keeper), Ok(()));
    assert!(keeper.was_restored());

    let mut keeper = RestoreLog::new();
    let short = vec![PhysicalRegion::new(3, 0, 0x7000, 3)];
    assert_eq!(
        patcher.patch_regions(&short, &state, Level::Ring3, &mut keeper),
        Err(IoplError::EflagsNotFound)
    );
    assert!(keeper.was_restored());
}

#[test]
fn a_found_place_is_patched_only_where_a_word_lies() {
    let mut keeper = RestoreLog::new();
    let mut image = MemoryImage::new(vec![0x02, 0x02, 0, 0, 0xFF, 0xFF]);
    assert!(!Patcher::<OneImage>::patch_found(&mut image, None, Level::Ring3, &mut keeper));
    assert!(!Patcher::<OneImage>::patch_found(&mut image, Some(3), Level::Ring3, &mut keeper));
    assert!(!Patcher::<OneImage>::patch_found(&mut image, Some(usize::MAX), Level::Ring3, &mut keeper));
    assert!(!keeper.was_restored());
    assert_eq!(image.content(), &vec![0x02, 0x02, 0, 0, 0xFF, 0xFF]);
    assert!(Patcher::<OneImage>::patch_found(&mut image, Some(0), Level::Ring3, &mut keeper));
    assert!(keeper.was_restored());
    assert_eq!(image.content(), &vec![0x02, 0x32, 0, 0, 0xFF, 0xFF]);
}

#[test]
fn an_empty_list_of_regions_puts_the_registers_back() {
    let state = ThreadState::new(RIP, RSP);
    let mut keeper = RestoreLog::new();
    let mut patcher = Patcher::new(ImageMapper::new(vec![]));
    assert_eq!(
        patcher.patch_regions(&vec![], &state, Level::Ring3, &mut keeper),
        Err(IoplError::NoPhysicalRegions)
    );
    assert!(keeper.was_restored());
}
