//! Telling the kinds of input files apart by their first bytes.

use vstd::prelude::*;
use crate::wave::wav_header::WavHeader;

verus! {

#[derive(Clone, Copy, Debug, PartialEq, Eq, Structural)]
pub enum AudioType {
    Unknown,
    Mp3,
    Wav,
    Synth,
}

/// The line every score listing starts with: `#!/bin/beesynth`.
pub open spec fn synth_tag() -> Seq<u8> {
    seq![
        0x23u8,
        0x21u8,
        0x2Fu8,
        0x62u8,
        0x69u8,
        0x6Eu8,
        0x2Fu8,
        0x62u8,
        0x65u8,
        0x65u8,
        0x73u8,
        0x79u8,
        0x6Eu8,
        0x74u8,
        0x68u8,
    ]
}

/// Do the bytes start with the given ones?
pub open spec fn starts_with(bytes: Seq<u8>, start: Seq<u8>) -> bool {
    bytes.len() >= start.len() && bytes.take(start.len() as int) == start
}

/// Do the bytes start like an MP3 file: with the tag `ID3`, or with the
/// frame header FF FB?
pub open spec fn looks_like_mp3(bytes: Seq<u8>) -> bool {
    starts_with(bytes, seq![0x49u8, 0x44u8, 0x33u8]) || starts_with(bytes, seq![0xFFu8, 0xFBu8])
}

/// Do the bytes start like a score listing?
pub open spec fn looks_like_synth(bytes: Seq<u8>) -> bool {
    starts_with(bytes, synth_tag())
}

/// The kind of file that the bytes start like: a wave file before an MP3
/// file before a score listing.
pub open spec fn kind_of(bytes: Seq<u8>) -> AudioType {
    if WavHeader::looks_like_wav(bytes) {
        AudioType::Wav
    } else if looks_like_mp3(bytes) {
        AudioType::Mp3
    } else if looks_like_synth(bytes) {
        AudioType::Synth
    } else {
        AudioType::Unknown
    }
}

/// Does `buf` start with `start`?
pub fn bytes_start_with(buf: &[u8], start: &[u8]) -> (r: bool)
    ensures
        r == starts_with(buf@, start@),
{
    if buf.len() < start.len() {
        return false;
    }
    let mut i: usize = 0;
    while i < start.len()
        invariant
            start@.len() <= buf@.len(),
            0 <= i <= start@.len(),
            forall|k: int| 0 <= k < i ==> buf@[k] == start@[k],
        decreases start@.len() - i,
    {
        if buf[i] != start[i] {
            proof {
                assert(buf@.take(start@.len() as int)[i as int] == buf@[i as int]);
            }
            return false;
        }
        i += 1;
    }
    proof {
        assert(buf@.take(start@.len() as int) =~= start@);
    }
    true
}

pub fn is_mp3(buf: &[u8]) -> (r: bool)
    ensures
        r == looks_like_mp3(buf@),
{
    let tag: Vec<u8> = vec![0x49, 0x44, 0x33];
    let frame: Vec<u8> = vec![0xFF, 0xFB];
    proof {
        assert(tag@ =~= seq![0x49u8, 0x44u8, 0x33u8]);
        assert(frame@ =~= seq![0xFFu8, 0xFBu8]);
    }
    bytes_start_with(buf, tag.as_slice()) || bytes_start_with(buf, frame.as_slice())
}

pub fn is_synth(buf: &[u8]) -> (r: bool)
    ensures
        r == looks_like_synth(buf@),
{
    let tag: Vec<u8> = vec![
        0x23,
        0x21,
        0x2F,
        0x62,
        0x69,
        0x6E,
        0x2F,
        0x62,
        0x65,
        0x65,
        0x73,
        0x79,
        0x6E,
        0x74,
        0x68,
    ];
    proof {
        assert(tag@ =~= synth_tag());
    }
    bytes_start_with(buf, tag.as_slice())
}

impl AudioType {
    pub fn classify(buf: &[u8]) -> (r: Self)
        ensures
            r == kind_of(buf@),
    {
        if WavHeader::is_wav(buf) {
            AudioType::Wav
        } else if is_mp3(buf) {
            AudioType::Mp3
        } else if is_synth(buf) {
            AudioType::Synth
        } else {
            AudioType::Unknown
        }
    }
}

} // verus!
