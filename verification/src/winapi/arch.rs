//! The architecture a program is built for.

use vstd::prelude::*;

verus! {

#[allow(non_camel_case_types)]
#[derive(Clone, Copy, Debug, PartialEq, Eq, Structural)]
pub enum Arch {
    Unknown,
    i386,
    x64,
}

/// The architecture this code is built for, told by the width of its
/// addresses: 64 bits for x64, 32 bits for i386.
pub fn current() -> (r: Arch)
    ensures
        r == if usize::BITS == 64 {
            Arch::x64
        } else if usize::BITS == 32 {
            Arch::i386
        } else {
            Arch::Unknown
        },
{
    if usize::BITS == 64 {
        Arch::x64
    } else if usize::BITS == 32 {
        Arch::i386
    } else {
        Arch::Unknown
    }
}

} // verus!
