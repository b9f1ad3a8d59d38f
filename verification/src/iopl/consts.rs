//! The numbers the patcher works with.

use vstd::prelude::*;

verus! {

pub const CONTEXT_AMD64: u32 = 0x10_0000;

pub const CONTEXT_CONTROL: u32 = CONTEXT_AMD64 | 0x0000_0001;

pub const CONTEXT_INTEGER: u32 = CONTEXT_AMD64 | 0x0000_0002;

pub const CONTEXT_SEGMENTS: u32 = CONTEXT_AMD64 | 0x0000_0004;

pub const CONTEXT_FLOATING_POINT: u32 = CONTEXT_AMD64 | 0x0000_0008;

pub const CONTEXT_DEBUG_REGISTERS: u32 = CONTEXT_AMD64 | 0x0000_0010;

pub const CONTEXT_ALL: u32 = CONTEXT_CONTROL | CONTEXT_INTEGER | CONTEXT_SEGMENTS
    | CONTEXT_FLOATING_POINT | CONTEXT_DEBUG_REGISTERS;

/// The place of the privilege level in the flags word: bits 12 and 13.
pub const EFLAGS_IOPL_OFFSET: u32 = 12;

/// The marks put into the registers of the thread to find its trap frame.
pub const MARK_RAX: u64 = 0x1EE7_C0DE;

pub const MARK_RCX: u64 = 0xC0_FFEE;

pub const MARK_RDX: u64 = 0xC_ACA0;

pub const MARK_R8: u64 = 0x7EA;

pub const MARK_R9: u64 = 0xFA_CADE;

/// The selector of the data segment of 64-bit user code.
pub const USER_STACK_SELECTOR: u16 = 0x2b;

} // verus!
