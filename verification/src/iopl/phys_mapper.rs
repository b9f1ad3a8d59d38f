//! Windows of physical memory in the address space of the process.

use vstd::prelude::*;
use crate::bytes::{le_u32, read_u32};

verus! {

/// A mapped range of physical memory.
pub trait Mapping {
    /// The bytes of the range as they stand. An implementation that is
    /// not verified leaves this unsaid.
    open spec fn bytes(&self) -> Seq<u8> {
        arbitrary()
    }

    fn size(&self) -> (r: usize)
        ensures
            r == self.bytes().len(),
    ;

    fn mapping(&self) -> (r: &[u8])
        ensures
            r@ == self.bytes(),
    ;

    /// Sets, in the 32-bit word at a byte offset, the bits given; every
    /// other byte stays as it is.
    fn or_word(&mut self, byte_offset: usize, bits: u32)
        requires
            byte_offset + 4 <= old(self).bytes().len(),
        ensures
            final(self).bytes().len() == old(self).bytes().len(),
            le_u32(final(self).bytes(), byte_offset as int) == (le_u32(
                old(self).bytes(),
                byte_offset as int,
            ) as u32) | bits,
            forall|i: int|
                0 <= i < old(self).bytes().len() && !(byte_offset <= i < byte_offset + 4)
                    ==> final(self).bytes()[i] == old(self).bytes()[i],
    ;

    fn unmap(self);
}

/// A copy of a range of memory, held in ordinary memory. It lets the
/// patcher run without a driver.
pub struct MemoryImage {
    content: Vec<u8>,
}

impl MemoryImage {
    pub fn new(content: Vec<u8>) -> (r: Self)
        ensures
            r.bytes() == content@,
    {
        MemoryImage { content }
    }

    /// The bytes of the image.
    pub fn content(&self) -> (r: &Vec<u8>)
        ensures
            r@ == self.bytes(),
    {
        &self.content
    }
}

impl Mapping for MemoryImage {
    closed spec fn bytes(&self) -> Seq<u8> {
        self.content@
    }

    fn size(&self) -> (r: usize) {
        self.content.len()
    }

    fn mapping(&self) -> (r: &[u8]) {
        self.content.as_slice()
    }

    fn or_word(&mut self, byte_offset: usize, bits: u32) {
        let _length = self.content.len();
        let word = read_u32(self.content.as_slice(), byte_offset) | bits;
        self.content.set(byte_offset, (word % 256) as u8);
        self.content.set(byte_offset + 1, (word / 256 % 256) as u8);
        self.content.set(byte_offset + 2, (word / 65_536 % 256) as u8);
        self.content.set(byte_offset + 3, (word / 16_777_216) as u8);
    }

    fn unmap(self) {
    }
}

/// One request to map a range: where it starts, how long it is and, if
/// it was mapped, the bytes it then held.
pub ghost struct MapEvent {
    pub phys_addr: u64,
    pub size: u64,
    pub content: Option<Seq<u8>>,
}

/// Something that can map ranges of physical memory.
///
/// An implementation keeps, in its model, the list of the requests it was
/// given and what came of them; the patcher is specified by what it
/// appends to that list.
pub trait Mapper {
    type Type: Mapping;

    /// Every request made so far, oldest first. An implementation that is
    /// not verified leaves this unsaid.
    open spec fn asked(&self) -> Seq<MapEvent> {
        arbitrary()
    }

    /// Maps `size` bytes from the physical address on, or fails.
    fn map(&mut self, phys_addr: u64, size: u64) -> (r: Option<Self::Type>)
        ensures
            final(self).asked() == old(self).asked().push(
                MapEvent {
                    phys_addr,
                    size,
                    content: match r {
                        Some(mapped) => Some(mapped.bytes()),
                        None => None,
                    },
                },
            ),
    ;
}

/// A range of memory kept under the physical address it stands for.
pub struct Image {
    pub phys_addr: u64,
    pub content: Vec<u8>,
}

/// The first of the images that stands for the range asked for.
pub open spec fn image_of(images: Seq<Image>, phys_addr: u64, size: u64) -> Option<Seq<u8>>
    decreases images.len(),
{
    if images.len() == 0 {
        None
    } else if images[0].phys_addr == phys_addr && images[0].content@.len() == size {
        Some(images[0].content@)
    } else {
        image_of(images.drop_first(), phys_addr, size)
    }
}

/// A mapper over ranges held in ordinary memory: a range is mapped by
/// copying the image kept for it. It lets the patcher run without a
/// driver.
pub struct ImageMapper {
    images: Vec<Image>,
    requests: Ghost<Seq<MapEvent>>,
}

impl ImageMapper {
    /// The images kept.
    pub closed spec fn images(&self) -> Seq<Image> {
        self.images@
    }

    pub fn new(images: Vec<Image>) -> (r: Self)
        ensures
            r.images() == images@,
            r.asked() == Seq::<MapEvent>::empty(),
    {
        ImageMapper { images, requests: Ghost(Seq::empty()) }
    }
}

impl Mapper for ImageMapper {
    type Type = MemoryImage;

    closed spec fn asked(&self) -> Seq<MapEvent> {
        self.requests@
    }

    /// Maps the range if an image is kept for it.
    fn map(&mut self, phys_addr: u64, size: u64) -> (r: Option<MemoryImage>)
        ensures
            final(self).images() == old(self).images(),
            match r {
                Some(mapped) => image_of(old(self).images(), phys_addr, size) == Some(
                    mapped.bytes(),
                ),
                None => image_of(old(self).images(), phys_addr, size) is None,
            },
    {
        let mut i: usize = 0;
        proof {
            assert(self.images@.skip(0) =~= self.images@);
        }
        while i < self.images.len()
            invariant
                0 <= i <= self.images@.len(),
                self.images@ == old(self).images@,
                self.requests@ == old(self).requests@,
                image_of(self.images@, phys_addr, size) == image_of(
                    self.images@.skip(i as int),
                    phys_addr,
                    size,
                ),
            decreases self.images@.len() - i,
        {
            proof {
                assert(self.images@.skip(i as int).drop_first() =~= self.images@.skip(i + 1));
            }
            let image = &self.images[i];
            if image.phys_addr == phys_addr && image.content.len() as u64 == size {
                let mut content: Vec<u8> = Vec::new();
                let mut k: usize = 0;
                while k < image.content.len()
                    invariant
                        0 <= k <= image.content@.len(),
                        content@ == image.content@.take(k as int),
                    decreases image.content@.len() - k,
                {
                    content.push(image.content[k]);
                    proof {
                        assert(content@ =~= image.content@.take(k + 1));
                    }
                    k += 1;
                }
                proof {
                    assert(content@ =~= image.content@);
                }
                self.requests = Ghost(
                    self.requests@.push(MapEvent { phys_addr, size, content: Some(content@) }),
                );
                return Some(MemoryImage::new(content));
            }
            i += 1;
        }
        self.requests = Ghost(self.requests@.push(MapEvent { phys_addr, size, content: None }));
        None
    }
}

} // verus!
