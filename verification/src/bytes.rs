//! Little-endian numbers in byte sequences.

use vstd::prelude::*;

verus! {

/// The number that two bytes at `at` write, low byte first.
pub open spec fn le_u16(bytes: Seq<u8>, at: int) -> int {
    bytes[at] as int + 256 * (bytes[at + 1] as int)
}

/// The number that four bytes at `at` write, low byte first.
pub open spec fn le_u32(bytes: Seq<u8>, at: int) -> int {
    bytes[at] as int + 256 * (bytes[at + 1] as int) + 65_536 * (bytes[at + 2] as int) + 16_777_216
        * (bytes[at + 3] as int)
}

/// The signed number that a 16-bit pattern stands for.
pub open spec fn signed16(pattern: int) -> int {
    if pattern >= 32_768 {
        pattern - 65_536
    } else {
        pattern
    }
}

/// The signed number that a 32-bit pattern stands for.
pub open spec fn signed32(pattern: int) -> int {
    if pattern >= 2_147_483_648 {
        pattern - 4_294_967_296
    } else {
        pattern
    }
}

pub fn read_u16(bytes: &[u8], at: usize) -> (r: u16)
    requires
        at + 2 <= bytes@.len(),
    ensures
        r == le_u16(bytes@, at as int),
{
    let _length = bytes.len();
    bytes[at] as u16 + 256 * (bytes[at + 1] as u16)
}

pub fn read_u32(bytes: &[u8], at: usize) -> (r: u32)
    requires
        at + 4 <= bytes@.len(),
    ensures
        r == le_u32(bytes@, at as int),
{
    let _length = bytes.len();
    bytes[at] as u32 + 256 * (bytes[at + 1] as u32) + 65_536 * (bytes[at + 2] as u32) + 16_777_216
        * (bytes[at + 3] as u32)
}

pub fn read_i16(bytes: &[u8], at: usize) -> (r: i16)
    requires
        at + 2 <= bytes@.len(),
    ensures
        r == signed16(le_u16(bytes@, at as int)),
{
    let pattern = read_u16(bytes, at);
    if pattern >= 32_768 {
        (pattern as i32 - 65_536) as i16
    } else {
        pattern as i16
    }
}

pub fn read_i32(bytes: &[u8], at: usize) -> (r: i32)
    requires
        at + 4 <= bytes@.len(),
    ensures
        r == signed32(le_u32(bytes@, at as int)),
{
    let pattern = read_u32(bytes, at);
    if pattern >= 2_147_483_648 {
        (pattern as i64 - 4_294_967_296) as i32
    } else {
        pattern as i32
    }
}

/// The number that eight bytes at `at` write, low byte first.
pub open spec fn le_u64(bytes: Seq<u8>, at: int) -> int {
    le_u32(bytes, at) + 0x1_0000_0000 * le_u32(bytes, at + 4)
}

pub fn read_u64(bytes: &[u8], at: usize) -> (r: u64)
    requires
        at + 8 <= bytes@.len(),
    ensures
        r == le_u64(bytes@, at as int),
{
    let _length = bytes.len();
    read_u32(bytes, at) as u64 + 0x1_0000_0000 * (read_u32(bytes, at + 4) as u64)
}

} // verus!
