//! The layout of an extended module.
//!
//! The file starts with a header of 336 bytes. Pattern headers follow, each
//! nine bytes of numbers, and behind each header the notes of the pattern.
//! A note is stored either in full, as five bytes, or packed: a first byte
//! with its highest bit set says by its other bits which of the five
//! fields are given. All numbers are little-endian.

use vstd::prelude::*;
use crate::audio_classifier::{bytes_start_with, starts_with};
use crate::bytes::{le_u16, le_u32, read_u16, read_u32};
use crate::note::frequency::{freq_of_semitone, semitone_freq, MilliHertz};

verus! {

pub type PatternIndex = u8;

/// The numbers of the header of a module.
#[derive(Clone, Copy, Debug, PartialEq, Eq, Structural)]
pub struct XmHeader {
    pub must_be_0x1a: u8,
    pub version_number: u16,
    pub header_size: u32,
    pub song_length: u16,
    pub restart_position: u16,
    pub number_of_channels: u16,
    pub number_of_patterns: u16,
    pub number_of_instruments: u16,
    pub flags: u16,
    pub default_tempo: u16,
    pub default_bpm: u16,
}

/// The header of a pattern.
#[derive(Clone, Copy, Debug, PartialEq, Eq, Structural)]
pub struct PatternHeader {
    pub pattern_header_length: u32,
    pub packing_type: u8,
    pub number_of_rows_in_pattern: u16,
    pub packed_pattern_data_size: u16,
}

#[derive(Clone, Copy, Debug, PartialEq, Eq, Structural)]
pub enum PatternType {
    Fixed,
    Packed,
}

/// The first byte of a stored note.
#[derive(Clone, Copy, Debug, PartialEq, Eq, Structural)]
pub struct Pattern {
    pub note_or_flags: u8,
}

/// A note stored in full.
#[derive(Clone, Copy, Debug, PartialEq, Eq, Structural)]
pub struct FixedPattern {
    pub note: u8,
    pub instrument: u8,
    pub volume_column_byte: u8,
    pub effect_type: u8,
    pub effect_parameter: u8,
}

/// The first byte of a packed note.
#[derive(Clone, Copy, Debug, PartialEq, Eq, Structural)]
pub struct PackedPattern {
    pub mask: u8,
}

/// What a stored note says.
#[derive(Default, Clone, Copy, Debug, PartialEq, Eq, Structural)]
pub struct PatternData {
    /// The frequency of the note in millihertz; zero for no note.
    pub note_freq: Option<MilliHertz>,
    /// The number of the note, from 1 for the C of octave 1 to 96 for the B
    /// of octave 8; zero for no note.
    pub note: Option<u8>,
    pub instrument: u8,
    pub volume: u8,
    pub effect: u8,
    pub effect_param: u8,
}

/// The size of the header of a module.
pub const XM_HEADER_SIZE: usize = 336;

/// The size of the header of a pattern.
pub const PATTERN_HEADER_SIZE: usize = 9;

/// The size of a note stored in full.
pub const FIXED_PATTERN_SIZE: usize = 5;

/// The highest number of a note.
pub const LAST_NOTE: u8 = 96;

/// The text every module starts with: `Extended Module:`.
pub open spec fn module_signature() -> Seq<u8> {
    seq![0x45u8, 0x78u8, 0x74u8, 0x65u8, 0x6Eu8, 0x64u8, 0x65u8, 0x64u8, 0x20u8, 0x4Du8, 0x6Fu8, 0x64u8, 0x75u8, 0x6Cu8, 0x65u8, 0x3Au8]
}

/// The name of the tracker, as it stands from the 39th byte on:
/// `FastTracker v2.00   `.
pub open spec fn tracker_signature() -> Seq<u8> {
    seq![0x46u8, 0x61u8, 0x73u8, 0x74u8, 0x54u8, 0x72u8, 0x61u8, 0x63u8, 0x6Bu8, 0x65u8, 0x72u8, 0x20u8, 0x76u8, 0x32u8, 0x2Eu8, 0x30u8, 0x30u8, 0x20u8, 0x20u8, 0x20u8]
}

/// Do the bytes start like an extended module: are there at least 336 of
/// them, the first sixteen the signature of a module and those from the
/// 39th on the name of the tracker?
pub open spec fn looks_like_xm(raw: Seq<u8>) -> bool {
    &&& raw.len() >= 336
    &&& starts_with(raw, module_signature())
    &&& starts_with(raw.skip(38), tracker_signature())
}

/// The frequency of a note of a module, in millihertz: that of the note's
/// semitone, note 1 being semitone 12; zero for note 0, which is no note.
pub open spec fn note_freq(note: u8) -> int {
    if note == 0 {
        0
    } else {
        semitone_freq(note + 11)
    }
}

/// What a note stored in full says; a number above 96 is no note.
pub open spec fn fixed_data(pattern: FixedPattern) -> PatternData {
    PatternData {
        note_freq: if pattern.note <= 96 {
            Some(note_freq(pattern.note) as u64)
        } else {
            None
        },
        note: if pattern.note <= 96 {
            Some(pattern.note)
        } else {
            None
        },
        instrument: pattern.instrument,
        volume: pattern.volume_column_byte,
        effect: pattern.effect_type,
        effect_param: pattern.effect_parameter,
    }
}

/// How many of the eight bits of a byte are set.
pub open spec fn bit_count(mask: u8) -> int {
    mask % 2 + mask / 2 % 2 + mask / 4 % 2 + mask / 8 % 2 + mask / 16 % 2 + mask / 32 % 2 + mask
        / 64 % 2 + mask / 128
}

/// Is the bit of a field set in the mask of a packed note? The fields are
/// numbered from 0 for the note to 4 for the parameter of the effect.
pub open spec fn has_field(mask: u8, field: int) -> bool {
    if field == 0 {
        mask % 2 == 1
    } else if field == 1 {
        mask / 2 % 2 == 1
    } else if field == 2 {
        mask / 4 % 2 == 1
    } else if field == 3 {
        mask / 8 % 2 == 1
    } else {
        mask / 16 % 2 == 1
    }
}

/// The byte of a field of the packed note at `at`: the byte that lies as
/// many places behind the mask as the field's number and one more, if the
/// field is given; zero if it is not.
pub open spec fn packed_field(raw: Seq<u8>, at: int, field: int) -> u8 {
    if has_field(raw[at], field) {
        raw[at + 1 + field]
    } else {
        0
    }
}

/// What the packed note at `at` says.
pub open spec fn packed_data(raw: Seq<u8>, at: int) -> PatternData {
    let note = packed_field(raw, at, 0);
    PatternData {
        note_freq: if note <= 96 {
            Some(note_freq(note) as u64)
        } else {
            None
        },
        note: if note <= 96 {
            Some(note)
        } else {
            None
        },
        instrument: packed_field(raw, at, 1),
        volume: packed_field(raw, at, 2),
        effect: packed_field(raw, at, 3),
        effect_param: packed_field(raw, at, 4),
    }
}

/// The header of the pattern at `at`.
pub open spec fn pattern_header_at(raw: Seq<u8>, at: int) -> PatternHeader {
    PatternHeader {
        pattern_header_length: le_u32(raw, at) as u32,
        packing_type: raw[at + 4],
        number_of_rows_in_pattern: le_u16(raw, at + 5) as u16,
        packed_pattern_data_size: le_u16(raw, at + 7) as u16,
    }
}

/// Where the pattern header behind the one at `at` starts.
pub open spec fn next_header(raw: Seq<u8>, at: int) -> int {
    at + le_u32(raw, at) + le_u16(raw, at + 7)
}

/// The places of the first `count` pattern headers from `at` on, if they
/// all lie in the file.
pub open spec fn header_places(raw: Seq<u8>, at: int, count: nat) -> Option<Seq<int>>
    decreases count,
{
    if count == 0 {
        Some(Seq::empty())
    } else if at < 0 || at + 9 > raw.len() {
        None
    } else {
        match header_places(raw, next_header(raw, at), (count - 1) as nat) {
            Some(rest) => Some(seq![at] + rest),
            None => None,
        }
    }
}

/// The frequency of a note of a module.
pub fn frequency_of_note(note: u8) -> (r: MilliHertz)
    requires
        note <= 96,
    ensures
        r == note_freq(note),
{
    if note == 0 {
        0
    } else {
        freq_of_semitone(note + 11)
    }
}

impl XmHeader {
    /// The header that the first bytes of a file write.
    pub open spec fn of(raw: Seq<u8>) -> XmHeader {
        XmHeader {
            must_be_0x1a: raw[37],
            version_number: le_u16(raw, 58) as u16,
            header_size: le_u32(raw, 60) as u32,
            song_length: le_u16(raw, 64) as u16,
            restart_position: le_u16(raw, 66) as u16,
            number_of_channels: le_u16(raw, 68) as u16,
            number_of_patterns: le_u16(raw, 70) as u16,
            number_of_instruments: le_u16(raw, 72) as u16,
            flags: le_u16(raw, 74) as u16,
            default_tempo: le_u16(raw, 76) as u16,
            default_bpm: le_u16(raw, 78) as u16,
        }
    }

    /// Reads the header of a module.
    pub fn from_raw(xm_file: &[u8]) -> (r: XmHeader)
        requires
            xm_file@.len() >= 336,
        ensures
            r == Self::of(xm_file@),
    {
        XmHeader {
            must_be_0x1a: xm_file[37],
            version_number: read_u16(xm_file, 58),
            header_size: read_u32(xm_file, 60),
            song_length: read_u16(xm_file, 64),
            restart_position: read_u16(xm_file, 66),
            number_of_channels: read_u16(xm_file, 68),
            number_of_patterns: read_u16(xm_file, 70),
            number_of_instruments: read_u16(xm_file, 72),
            flags: read_u16(xm_file, 74),
            default_tempo: read_u16(xm_file, 76),
            default_bpm: read_u16(xm_file, 78),
        }
    }

    /// The pattern that is played at a place of the song.
    pub fn pattern_at(xm_file: &[u8], position: u8) -> (r: PatternIndex)
        requires
            xm_file@.len() >= 336,
        ensures
            r == xm_file@[80 + position],
    {
        xm_file[80 + position as usize]
    }

    /// Where the first pattern header starts.
    pub fn first_pattern_header(&self) -> (r: usize)
        ensures
            r == 336,
    {
        XM_HEADER_SIZE
    }

    pub fn is_xm(raw: &[u8]) -> (r: bool)
        ensures
            r == looks_like_xm(raw@),
    {
        if raw.len() < XM_HEADER_SIZE {
            return false;
        }
        let signature: Vec<u8> = vec![0x45, 0x78, 0x74, 0x65, 0x6E, 0x64, 0x65, 0x64, 0x20, 0x4D, 0x6F, 0x64, 0x75, 0x6C, 0x65, 0x3A];
        let tracker: Vec<u8> = vec![0x46, 0x61, 0x73, 0x74, 0x54, 0x72, 0x61, 0x63, 0x6B, 0x65, 0x72, 0x20, 0x76, 0x32, 0x2E, 0x30, 0x30, 0x20, 0x20, 0x20];
        proof {
            assert(signature@ =~= module_signature());
            assert(tracker@ =~= tracker_signature());
        }
        if !bytes_start_with(raw, signature.as_slice()) {
            return false;
        }
        let mut i: usize = 0;
        while i < tracker.len()
            invariant
                raw@.len() >= 336,
                tracker@ == tracker_signature(),
                0 <= i <= tracker@.len(),
                forall|k: int| 0 <= k < i ==> raw@[38 + k] == tracker@[k],
            decreases tracker@.len() - i,
        {
            if raw[38 + i] != tracker[i] {
                proof {
                    assert(raw@.skip(38).take(tracker@.len() as int)[i as int] == raw@[38 + i]);
                }
                return false;
            }
            i += 1;
        }
        proof {
            assert(raw@.skip(38).take(tracker@.len() as int) =~= tracker@);
        }
        true
    }

    /// The places and the headers of the patterns of a module, if they all
    /// lie in the file.
    pub fn pattern_headers(xm_file: &[u8]) -> (r: Option<Vec<(usize, PatternHeader)>>)
        requires
            xm_file@.len() >= 336,
        ensures
            match r {
                Some(headers) => header_places(
                    xm_file@,
                    336,
                    Self::of(xm_file@).number_of_patterns as nat,
                ) matches Some(places) && headers@.len() == places.len() && forall|i: int|
                    0 <= i < headers@.len() ==> (#[trigger] headers@[i]).0 == places[i]
                        && headers@[i].1 == pattern_header_at(xm_file@, places[i]),
                None => header_places(
                    xm_file@,
                    336,
                    Self::of(xm_file@).number_of_patterns as nat,
                ) is None,
            },
    {
        let length = xm_file.len();
        let count = read_u16(xm_file, 70);
        let mut headers: Vec<(usize, PatternHeader)> = Vec::new();
        let mut at: u128 = XM_HEADER_SIZE as u128;
        let mut left: u16 = count;
        let ghost mut places: Seq<int> = Seq::empty();
        while left > 0
            invariant
                length == xm_file@.len(),
                count == Self::of(xm_file@).number_of_patterns,
                0 <= left <= count,
                0 <= at <= 336 + (count - left) * 0x1_0001_0000,
                headers@.len() == places.len(),
                forall|i: int|
                    0 <= i < headers@.len() ==> (#[trigger] headers@[i]).0 == places[i]
                        && headers@[i].1 == pattern_header_at(xm_file@, places[i]),
                header_places(xm_file@, 336, count as nat) == match header_places(
                    xm_file@,
                    at as int,
                    left as nat,
                ) {
                    Some(rest) => Some(places + rest),
                    None => None,
                },
            decreases left,
        {
            if at + 9 > length as u128 {
                proof {
                    assert(header_places(xm_file@, at as int, left as nat) is None);
                }
                return None;
            }
            let place = at as usize;
            let header = PatternHeader::read(xm_file, place);
            headers.push((place, header));
            proof {
                let next = next_header(xm_file@, at as int);
                match header_places(xm_file@, next, (left - 1) as nat) {
                    Some(rest) => {
                        assert(places + (seq![at as int] + rest) =~= places.push(at as int)
                            + rest);
                    },
                    None => {},
                }
                places = places.push(at as int);
            }
            at = at + header.pattern_header_length as u128 + header.packed_pattern_data_size as u128;
            left -= 1;
        }
        proof {
            assert(places + Seq::<int>::empty() =~= places);
        }
        Some(headers)
    }
}

impl PatternHeader {
    /// Reads the pattern header at `at`.
    pub fn read(raw: &[u8], at: usize) -> (r: PatternHeader)
        requires
            at + 9 <= raw@.len(),
        ensures
            r == pattern_header_at(raw@, at as int),
    {
        let _length = raw.len();
        PatternHeader {
            pattern_header_length: read_u32(raw, at),
            packing_type: raw[at + 4],
            number_of_rows_in_pattern: read_u16(raw, at + 5),
            packed_pattern_data_size: read_u16(raw, at + 7),
        }
    }

    /// Where the first note of the pattern lies, when the header lies at
    /// `at`.
    pub fn first_pattern(&self, at: usize) -> (r: u64)
        requires
            at <= 0xFFFF_FFFF_FFFF,
        ensures
            r == at + self.pattern_header_length,
    {
        at as u64 + self.pattern_header_length as u64
    }
}

impl Pattern {
    /// Reads the first byte of the note at `at`.
    pub fn read(raw: &[u8], at: usize) -> (r: Pattern)
        requires
            at < raw@.len(),
        ensures
            r.note_or_flags == raw@[at as int],
    {
        Pattern { note_or_flags: raw[at] }
    }

    /// How the note is stored: packed if the highest bit of its first byte
    /// is set, in full if not.
    pub fn pattern_type(&self) -> (r: PatternType)
        ensures
            r == if self.note_or_flags >= 128 {
                PatternType::Packed
            } else {
                PatternType::Fixed
            },
    {
        if self.note_or_flags >= 128 {
            PatternType::Packed
        } else {
            PatternType::Fixed
        }
    }

    /// The note at `at` as one stored in full.
    pub fn as_fixed(raw: &[u8], at: usize) -> (r: FixedPattern)
        requires
            at + 5 <= raw@.len(),
        ensures
            r == (FixedPattern {
                note: raw@[at as int],
                instrument: raw@[at + 1],
                volume_column_byte: raw@[at + 2],
                effect_type: raw@[at + 3],
                effect_parameter: raw@[at + 4],
            }),
    {
        let _length = raw.len();
        FixedPattern {
            note: raw[at],
            instrument: raw[at + 1],
            volume_column_byte: raw[at + 2],
            effect_type: raw[at + 3],
            effect_parameter: raw[at + 4],
        }
    }

    /// The first byte of the note as the mask of a packed note.
    pub fn as_packed(&self) -> (r: PackedPattern)
        ensures
            r.mask == self.note_or_flags,
    {
        PackedPattern { mask: self.note_or_flags }
    }
}

impl FixedPattern {
    /// How many bytes the note takes.
    pub fn len(&self) -> (r: usize)
        ensures
            r == 5,
    {
        FIXED_PATTERN_SIZE
    }

    /// What the note says.
    pub fn pattern(&self) -> (r: PatternData)
        ensures
            r == fixed_data(*self),
    {
        let known = self.note <= LAST_NOTE;
        PatternData {
            note_freq: if known {
                Some(frequency_of_note(self.note))
            } else {
                None
            },
            note: if known {
                Some(self.note)
            } else {
                None
            },
            instrument: self.instrument,
            volume: self.volume_column_byte,
            effect: self.effect_type,
            effect_param: self.effect_parameter,
        }
    }
}

impl PackedPattern {
    pub const HAS_NOTE_MASK: u8 = 0b0000_0001;

    pub const HAS_INSTRUMENT_MASK: u8 = 0b0000_0010;

    pub const HAS_VOLUME_MASK: u8 = 0b0000_0100;

    pub const HAS_EFFECT_TYPE_MASK: u8 = 0b0000_1000;

    pub const HAS_EFFECT_PARAMETER_MASK: u8 = 0b0001_0000;

    /// How many bytes the note takes: one for each bit set in its mask.
    pub fn len(&self) -> (r: usize)
        ensures
            r == bit_count(self.mask),
    {
        let m = self.mask;
        (m % 2 + m / 2 % 2 + m / 4 % 2 + m / 8 % 2 + m / 16 % 2 + m / 32 % 2 + m / 64 % 2 + m
            / 128) as usize
    }

    /// Does the mask give no field at all?
    pub fn is_empty(&self) -> (r: bool)
        ensures
            r == (self.mask % 128 == 0),
    {
        self.mask % 128 == 0
    }

    /// Is the field of a number given?
    pub fn has(&self, field: u8) -> (r: bool)
        requires
            field <= 4,
        ensures
            r == has_field(self.mask, field as int),
    {
        if field == 0 {
            self.mask % 2 == 1
        } else if field == 1 {
            self.mask / 2 % 2 == 1
        } else if field == 2 {
            self.mask / 4 % 2 == 1
        } else if field == 3 {
            self.mask / 8 % 2 == 1
        } else {
            self.mask / 16 % 2 == 1
        }
    }

    /// What the packed note at `at` says.
    pub fn pattern(raw: &[u8], at: usize) -> (r: PatternData)
        requires
            at + 6 <= raw@.len(),
        ensures
            r == packed_data(raw@, at as int),
    {
        let _length = raw.len();
        let packed = PackedPattern { mask: raw[at] };
        let note = if packed.has(0) {
            raw[at + 1]
        } else {
            0
        };
        let known = note <= LAST_NOTE;
        PatternData {
            note_freq: if known {
                Some(frequency_of_note(note))
            } else {
                None
            },
            note: if known {
                Some(note)
            } else {
                None
            },
            instrument: if packed.has(1) {
                raw[at + 2]
            } else {
                0
            },
            volume: if packed.has(2) {
                raw[at + 3]
            } else {
                0
            },
            effect: if packed.has(3) {
                raw[at + 4]
            } else {
                0
            },
            effect_param: if packed.has(4) {
                raw[at + 5]
            } else {
                0
            },
        }
    }
}

} // verus!
