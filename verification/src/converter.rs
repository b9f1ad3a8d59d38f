//! What the conversion of other audio formats to wave files needs to
//! know: where a converted file is kept and how its samples are coded.
//!
//! Converted files are kept under a name made of the hash of the source
//! file, the sample width and the sample rate, so that a file is converted
//! once for each setting.

use vstd::prelude::*;
use crate::text::{decimal_text, push_decimal};

verus! {

/// The seed of the hash of source files.
pub const HASH_SEED: u64 = 0x1EE7_C0DE;

/// The sample width that files are converted to, in bits.
pub const DEFAULT_BITNESS: u8 = 16;

/// The sample rate that files are converted to, in hertz.
pub const DEFAULT_SAMPLE_RATE: u32 = 22_050;

/// The hash that wyhash gives bytes under a seed.
pub uninterp spec fn wyhash_of(data: Seq<u8>, seed: u64) -> u64;

/// Hashes bytes with `wyhash::wyhash`. The hash is a function of the bytes
/// and the seed; nothing more is claimed of it.
#[verifier::external_body]
fn wyhash(data: &[u8], seed: u64) -> (r: u64)
    ensures
        r == wyhash_of(data@, seed),
{
    wyhash::wyhash(data, seed)
}

/// The name under which a converted file is kept:
/// `{hash}_{bitness}_{sample_rate}.wav`, the numbers in base ten.
pub open spec fn cache_name(hash: u64, bitness: u8, sample_rate: u32) -> Seq<char> {
    decimal_text(hash as nat) + "_"@ + decimal_text(bitness as nat) + "_"@ + decimal_text(
        sample_rate as nat,
    ) + ".wav"@
}

/// The name of the coding of samples of a width, for the widths that can
/// be had.
pub open spec fn encoder_of(bitness: u8) -> Option<Seq<char>> {
    if bitness == 8 {
        Some("pcm_u8"@)
    } else if bitness == 16 {
        Some("pcm_s16le"@)
    } else if bitness == 24 {
        Some("pcm_s24le"@)
    } else if bitness == 32 {
        Some("pcm_s32le"@)
    } else {
        None
    }
}

/// The hash of a source file.
pub fn calc_hash(data: &[u8]) -> (r: u64)
    ensures
        r == wyhash_of(data@, 0x1EE7_C0DE),
{
    wyhash(data, HASH_SEED)
}

/// The name under which the conversion of a file with the given hash is
/// kept.
pub fn cache_file_name(hash: u64, bitness: u8, sample_rate: u32) -> (r: String)
    ensures
        r@ == cache_name(hash, bitness, sample_rate),
{
    let mut out = String::new();
    push_decimal(&mut out, hash);
    out.append("_");
    push_decimal(&mut out, bitness as u64);
    out.append("_");
    push_decimal(&mut out, sample_rate as u64);
    out.append(".wav");
    proof {
        assert(out@ =~= cache_name(hash, bitness, sample_rate));
    }
    out
}

/// The name under which the conversion of a source file is kept.
pub fn cache_file_name_of(data: &[u8], bitness: u8, sample_rate: u32) -> (r: String)
    ensures
        r@ == cache_name(wyhash_of(data@, 0x1EE7_C0DE), bitness, sample_rate),
{
    cache_file_name(calc_hash(data), bitness, sample_rate)
}

/// The name of the coding of samples of a width.
pub fn encoder_name(bitness: u8) -> (r: Option<&'static str>)
    ensures
        match r {
            Some(name) => encoder_of(bitness) == Some(name@),
            None => encoder_of(bitness) is None,
        },
{
    if bitness == 8 {
        Some("pcm_u8")
    } else if bitness == 16 {
        Some("pcm_s16le")
    } else if bitness == 24 {
        Some("pcm_s24le")
    } else if bitness == 32 {
        Some("pcm_s32le")
    } else {
        None
    }
}

} // verus!
