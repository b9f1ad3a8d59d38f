//! The header of a RIFF/WAVE file and the way to its samples.
//!
//! All numbers in the file are little-endian. The file starts with a header
//! of 36 bytes; subchunks of eight header bytes and a payload follow each
//! other from byte 12 on, the first of them inside the header. The samples
//! are the payload of the first subchunk called `data`.

use vstd::prelude::*;
use crate::bytes::{le_u16, le_u32, read_i16, read_i32, read_u16, read_u32, signed16, signed32};

verus! {

/// The eight bytes in front of a subchunk's payload.
#[derive(Clone, Copy, Debug, PartialEq, Eq, Structural)]
pub struct SubchunkHeader {
    /// `fmt ` for the first subchunk; `data` for the samples.
    pub subchunk_id: u32,
    /// The size of the payload, this header not counted.
    pub subchunk_size: u32,
}

impl SubchunkHeader {
    /// `fmt `
    pub const FMT_SIGNATURE: u32 = 0x2074_6D66;

    /// `data`
    pub const DATA_SIGNATURE: u32 = 0x6174_6164;

    /// The size of a subchunk's header.
    pub const SIZE: usize = 8;

    /// The subchunk header that the bytes at `at` write.
    pub open spec fn at(bytes: Seq<u8>, at: int) -> SubchunkHeader {
        SubchunkHeader {
            subchunk_id: le_u32(bytes, at) as u32,
            subchunk_size: le_u32(bytes, at + 4) as u32,
        }
    }

    /// Reads the subchunk header at `at`.
    pub fn read(bytes: &[u8], at: usize) -> (r: SubchunkHeader)
        requires
            at + 8 <= bytes@.len(),
        ensures
            r == Self::at(bytes@, at as int),
    {
        let _length = bytes.len();
        SubchunkHeader { subchunk_id: read_u32(bytes, at), subchunk_size: read_u32(bytes, at + 4) }
    }

    /// Where the next subchunk starts, when this one starts at `offset`.
    pub fn next(&self, offset: u64) -> (r: u64)
        requires
            offset <= 0xFFFF_FFFF_FFFF,
        ensures
            r == offset + 8 + self.subchunk_size,
    {
        offset + 8 + self.subchunk_size as u64
    }

    pub fn is_fmt(&self) -> (r: bool)
        ensures
            r == (self.subchunk_id == 0x2074_6D66),
    {
        self.subchunk_id == Self::FMT_SIGNATURE
    }

    pub fn is_data(&self) -> (r: bool)
        ensures
            r == (self.subchunk_id == 0x6174_6164),
    {
        self.subchunk_id == Self::DATA_SIGNATURE
    }
}

/// The first 36 bytes of a wave file.
#[derive(Clone, Copy, Debug, PartialEq, Eq, Structural)]
pub struct WavHeader {
    /// `RIFF`
    pub chunk_id: u32,
    pub chunk_size: u32,
    /// `WAVE`
    pub format: u32,
    /// The header of the `fmt ` subchunk.
    pub first_subchunk_header: SubchunkHeader,
    /// 1 for uncompressed samples.
    pub audio_format: u16,
    pub num_channels: u16,
    /// In hertz.
    pub sample_rate: u32,
    /// Bytes per second.
    pub byte_rate: u32,
    /// Bytes per sample, all channels counted.
    pub block_align: u16,
    pub bits_per_sample: u16,
}

impl WavHeader {
    /// `RIFF`
    pub const RIFF_SIGNATURE: u32 = 0x4646_4952;

    /// `WAVE`
    pub const WAVE_SIGNATURE: u32 = 0x4556_4157;

    /// The size of the header in the file.
    pub const SIZE: usize = 36;

    /// The header that the first bytes of a file write.
    pub open spec fn of(bytes: Seq<u8>) -> WavHeader {
        WavHeader {
            chunk_id: le_u32(bytes, 0) as u32,
            chunk_size: le_u32(bytes, 4) as u32,
            format: le_u32(bytes, 8) as u32,
            first_subchunk_header: SubchunkHeader::at(bytes, 12),
            audio_format: le_u16(bytes, 20) as u16,
            num_channels: le_u16(bytes, 22) as u16,
            sample_rate: le_u32(bytes, 24) as u32,
            byte_rate: le_u32(bytes, 28) as u32,
            block_align: le_u16(bytes, 32) as u16,
            bits_per_sample: le_u16(bytes, 34) as u16,
        }
    }

    /// Do the bytes start like a wave file: are there at least 36 of them,
    /// the first four `RIFF` and the ninth to twelfth `WAVE`?
    pub open spec fn looks_like_wav(bytes: Seq<u8>) -> bool {
        &&& bytes.len() >= 36
        &&& bytes.subrange(0, 4) == seq![0x52u8, 0x49u8, 0x46u8, 0x46u8]
        &&& bytes.subrange(8, 12) == seq![0x57u8, 0x41u8, 0x56u8, 0x45u8]
    }

    pub fn is_wav(buf: &[u8]) -> (r: bool)
        ensures
            r == Self::looks_like_wav(buf@),
    {
        if buf.len() < Self::SIZE {
            return false;
        }
        let r = buf[0] == 0x52 && buf[1] == 0x49 && buf[2] == 0x46 && buf[3] == 0x46 && buf[8]
            == 0x57 && buf[9] == 0x41 && buf[10] == 0x56 && buf[11] == 0x45;
        proof {
            let riff = seq![0x52u8, 0x49u8, 0x46u8, 0x46u8];
            let wave = seq![0x57u8, 0x41u8, 0x56u8, 0x45u8];
            if r {
                assert(buf@.subrange(0, 4) =~= riff);
                assert(buf@.subrange(8, 12) =~= wave);
            } else {
                if buf@.subrange(0, 4) == riff && buf@.subrange(8, 12) == wave {
                    assert(buf@.subrange(0, 4)[0] == riff[0]);
                    assert(buf@.subrange(0, 4)[1] == riff[1]);
                    assert(buf@.subrange(0, 4)[2] == riff[2]);
                    assert(buf@.subrange(0, 4)[3] == riff[3]);
                    assert(buf@.subrange(8, 12)[0] == wave[0]);
                    assert(buf@.subrange(8, 12)[1] == wave[1]);
                    assert(buf@.subrange(8, 12)[2] == wave[2]);
                    assert(buf@.subrange(8, 12)[3] == wave[3]);
                }
            }
        }
        r
    }

    /// Reads the header of a wave file.
    pub fn read(buf: &[u8]) -> (r: WavHeader)
        requires
            buf@.len() >= 36,
        ensures
            r == Self::of(buf@),
    {
        WavHeader {
            chunk_id: read_u32(buf, 0),
            chunk_size: read_u32(buf, 4),
            format: read_u32(buf, 8),
            first_subchunk_header: SubchunkHeader::read(buf, 12),
            audio_format: read_u16(buf, 20),
            num_channels: read_u16(buf, 22),
            sample_rate: read_u32(buf, 24),
            byte_rate: read_u32(buf, 28),
            block_align: read_u16(buf, 32),
            bits_per_sample: read_u16(buf, 34),
        }
    }
}

/// The samples of a wave file, all channels interleaved.
#[derive(Debug)]
pub enum Wave {
    /// No samples were found, or their width is none of 8, 16 and 32 bits.
    Unknown,
    Wave8(Vec<u8>),
    Wave16(Vec<i16>),
    Wave32(Vec<i32>),
}

/// The place of the first `data` subchunk at or after `offset`, where a
/// subchunk starts.
///
/// A subchunk whose eight header bytes do not all lie in the file ends the
/// search without a find, and so does one that starts at or after `limit`,
/// unless it is the one the search starts with.
pub open spec fn data_offset(bytes: Seq<u8>, offset: int, limit: int) -> Option<int>
    decreases bytes.len() - offset,
{
    if offset < 0 || offset + 8 > bytes.len() {
        None
    } else if le_u32(bytes, offset) == 0x6174_6164 {
        Some(offset)
    } else {
        let next = offset + 8 + le_u32(bytes, offset + 4);
        if next >= limit || next + 8 > bytes.len() {
            None
        } else {
            data_offset(bytes, next, limit)
        }
    }
}

/// The 16-bit samples that `count` pairs of bytes from `at` on write.
pub open spec fn samples16(bytes: Seq<u8>, at: int, count: int) -> Seq<i16> {
    Seq::new(count as nat, |i: int| signed16(le_u16(bytes, at + 2 * i)) as i16)
}

/// The 32-bit samples that `count` groups of four bytes from `at` on write.
pub open spec fn samples32(bytes: Seq<u8>, at: int, count: int) -> Seq<i32> {
    Seq::new(count as nat, |i: int| signed32(le_u32(bytes, at + 4 * i)) as i32)
}

/// The place and the size of the sample bytes of a wave file: the payload
/// of its first `data` subchunk, sought from byte 12 up to eight bytes
/// before the end that the header gives, if all of it lies in the file.
pub open spec fn payload(bytes: Seq<u8>) -> Option<(int, int)> {
    match data_offset(bytes, 12, WavHeader::of(bytes).chunk_size - 8) {
        Some(offset) => {
            let size = le_u32(bytes, offset + 4);
            if offset + 8 + size <= bytes.len() {
                Some((offset + 8, size))
            } else {
                None
            }
        },
        None => None,
    }
}

/// What `data_offset` finds is a subchunk called `data` whose header lies
/// in the file at or after the place where the search started.
pub proof fn lemma_data_offset(bytes: Seq<u8>, offset: int, limit: int)
    ensures
        data_offset(bytes, offset, limit) matches Some(found) ==> 0 <= offset <= found && found
            + 8 <= bytes.len() && le_u32(bytes, found) == 0x6174_6164,
    decreases bytes.len() - offset,
{
    if 0 <= offset && offset + 8 <= bytes.len() && le_u32(bytes, offset) != 0x6174_6164 {
        let next = offset + 8 + le_u32(bytes, offset + 4);
        if !(next >= limit || next + 8 > bytes.len()) {
            lemma_data_offset(bytes, next, limit);
        }
    }
}

/// The payload lies in the file, behind the header.
pub proof fn lemma_payload(bytes: Seq<u8>)
    ensures
        payload(bytes) matches Some((at, size)) ==> 20 <= at && 0 <= size <= 0xFFFF_FFFF && at
            + size <= bytes.len(),
{
    lemma_data_offset(bytes, 12, WavHeader::of(bytes).chunk_size - 8);
}

/// A wave file looked at through its header.
pub struct WaveView<'a> {
    data: &'a [u8],
    header: WavHeader,
}

/// The bytes are no wave file.
#[derive(Clone, Copy, Debug, PartialEq, Eq, Structural)]
pub struct NotWav;

impl<'a> WaveView<'a> {
    /// The bytes of the file.
    pub closed spec fn bytes(&self) -> Seq<u8> {
        self.data@
    }

    /// The header kept in the view.
    pub closed spec fn spec_header(&self) -> WavHeader {
        self.header
    }

    /// A view is only made of bytes that start like a wave file, and keeps
    /// their header.
    #[verifier::type_invariant]
    spec fn wf(&self) -> bool {
        WavHeader::looks_like_wav(self.data@) && self.header == WavHeader::of(self.data@)
    }

    /// Looks at bytes as a wave file, if they start like one.
    pub fn try_from(data: &'a [u8]) -> (r: Result<WaveView<'a>, NotWav>)
        ensures
            r is Ok <==> WavHeader::looks_like_wav(data@),
            r matches Ok(view) ==> view.bytes() == data@ && view.spec_header() == WavHeader::of(
                data@,
            ),
    {
        if !WavHeader::is_wav(data) {
            return Err(NotWav);
        }
        Ok(WaveView { data, header: WavHeader::read(data) })
    }

    pub fn header(&self) -> (r: &WavHeader)
        ensures
            *r == self.spec_header(),
            *r == WavHeader::of(self.bytes()),
            self.bytes().len() >= 36,
    {
        proof {
            use_type_invariant(self);
        }
        &self.header
    }

    /// Finds the `data` subchunk and says where its payload starts and how
    /// many bytes it has.
    pub fn find_payload(&self) -> (r: Option<(usize, usize)>)
        ensures
            match r {
                Some((at, size)) => payload(self.bytes()) == Some((at as int, size as int)) && at
                    + size <= self.bytes().len(),
                None => payload(self.bytes()) is None,
            },
    {
        proof {
            use_type_invariant(self);
        }
        let length = self.data.len();
        let limit: i64 = self.header.chunk_size as i64 - 8;
        let mut offset: usize = 12;
        let mut header = SubchunkHeader::read(self.data, offset);
        while !header.is_data()
            invariant
                offset + 8 <= length,
                length == self.data@.len(),
                limit == WavHeader::of(self.data@).chunk_size - 8,
                header == SubchunkHeader::at(self.data@, offset as int),
                data_offset(self.data@, 12, limit as int) == data_offset(
                    self.data@,
                    offset as int,
                    limit as int,
                ),
            decreases length - offset,
        {
            let next: u128 = offset as u128 + 8 + header.subchunk_size as u128;
            if next as i128 >= limit as i128 || next + 8 > length as u128 {
                return None;
            }
            offset = next as usize;
            header = SubchunkHeader::read(self.data, offset);
        }
        let size = header.subchunk_size as u128;
        if size > (length - offset - 8) as u128 {
            return None;
        }
        Some((offset + 8, size as usize))
    }

    /// The samples of the file, as wide as the header says.
    pub fn lookup_samples(&self) -> (r: Wave)
        ensures
            match r {
                Wave::Unknown => payload(self.bytes()) is None || (self.spec_header().bits_per_sample
                    != 8 && self.spec_header().bits_per_sample != 16
                    && self.spec_header().bits_per_sample != 32),
                Wave::Wave8(samples) => payload(self.bytes()) matches Some((at, size))
                    && self.spec_header().bits_per_sample == 8 && samples@
                    == self.bytes().subrange(at, at + size),
                Wave::Wave16(samples) => payload(self.bytes()) matches Some((at, size))
                    && self.spec_header().bits_per_sample == 16 && samples@ == samples16(
                    self.bytes(),
                    at,
                    size / 2,
                ),
                Wave::Wave32(samples) => payload(self.bytes()) matches Some((at, size))
                    && self.spec_header().bits_per_sample == 32 && samples@ == samples32(
                    self.bytes(),
                    at,
                    size / 4,
                ),
            },
    {
        let (at, size) = match self.find_payload() {
            Some(found) => found,
            None => {
                return Wave::Unknown;
            },
        };
        let width = self.header.bits_per_sample;
        let length = self.data.len();
        if width == 8 {
            let mut samples: Vec<u8> = Vec::new();
            let mut i: usize = 0;
            while i < size
                invariant
                    at + size <= self.data@.len(),
                    length == self.data@.len(),
                    0 <= i <= size,
                    samples@ == self.data@.subrange(at as int, at + i),
                decreases size - i,
            {
                samples.push(self.data[at + i]);
                i += 1;
                proof {
                    assert(samples@ =~= self.data@.subrange(at as int, at + i));
                }
            }
            Wave::Wave8(samples)
        } else if width == 16 {
            let count = size / 2;
            let mut samples: Vec<i16> = Vec::new();
            let mut i: usize = 0;
            while i < count
                invariant
                    at + size <= self.data@.len(),
                    length == self.data@.len(),
                    count == size / 2,
                    0 <= i <= count,
                    samples@ == samples16(self.data@, at as int, i as int),
                decreases count - i,
            {
                samples.push(read_i16(self.data, at + 2 * i));
                i += 1;
                proof {
                    assert(samples@ =~= samples16(self.data@, at as int, i as int));
                }
            }
            Wave::Wave16(samples)
        } else if width == 32 {
            let count = size / 4;
            let mut samples: Vec<i32> = Vec::new();
            let mut i: usize = 0;
            while i < count
                invariant
                    at + size <= self.data@.len(),
                    length == self.data@.len(),
                    count == size / 4,
                    0 <= i <= count,
                    samples@ == samples32(self.data@, at as int, i as int),
                decreases count - i,
            {
                samples.push(read_i32(self.data, at + 4 * i));
                i += 1;
                proof {
                    assert(samples@ =~= samples32(self.data@, at as int, i as int));
                }
            }
            Wave::Wave32(samples)
        } else {
            Wave::Unknown
        }
    }
}

/// An 8-bit sample as a 16-bit sample: moved so that 127 becomes zero,
/// widened, and kept within 16 bits.
pub open spec fn as16_from8(sample: u8) -> int {
    if sample == 255 {
        32_767
    } else {
        (sample - 127) * 256
    }
}

/// The upper half of a 32-bit sample, rounded towards zero.
pub open spec fn as16_from32(sample: i32) -> int {
    if sample >= 0 {
        sample / 65_536
    } else {
        -((-sample) / 65_536)
    }
}

impl Wave {
    /// The samples as 16-bit samples, with a small loss of amplitude.
    pub fn into_i16(self) -> (r: Vec<i16>)
        ensures
            match self {
                Wave::Unknown => r@.len() == 0,
                Wave::Wave8(data) => r@.len() == data@.len() && forall|i: int|
                    0 <= i < r@.len() ==> #[trigger] r@[i] == as16_from8(data@[i]),
                Wave::Wave16(data) => r@ == data@,
                Wave::Wave32(data) => r@.len() == data@.len() && forall|i: int|
                    0 <= i < r@.len() ==> #[trigger] r@[i] == as16_from32(data@[i]),
            },
    {
        match self {
            Wave::Unknown => Vec::new(),
            Wave::Wave8(data) => {
                let mut out: Vec<i16> = Vec::new();
                let mut i: usize = 0;
                while i < data.len()
                    invariant
                        0 <= i <= data@.len(),
                        out@.len() == i,
                        forall|k: int| 0 <= k < i ==> #[trigger] out@[k] == as16_from8(data@[k]),
                    decreases data@.len() - i,
                {
                    let sample = data[i];
                    out.push(
                        if sample == 255 {
                            32_767
                        } else {
                            (sample as i16 - 127) * 256
                        },
                    );
                    i += 1;
                }
                out
            },
            Wave::Wave16(data) => data,
            Wave::Wave32(data) => {
                let mut out: Vec<i16> = Vec::new();
                let mut i: usize = 0;
                while i < data.len()
                    invariant
                        0 <= i <= data@.len(),
                        out@.len() == i,
                        forall|k: int| 0 <= k < i ==> #[trigger] out@[k] == as16_from32(data@[k]),
                    decreases data@.len() - i,
                {
                    out.push((data[i] / 65_536) as i16);
                    i += 1;
                }
                out
            },
        }
    }
}

} // verus!
