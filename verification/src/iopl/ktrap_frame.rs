//! The trap frame: the registers that the kernel saves on its stack when a
//! thread enters it.
//!
//! The frame is 400 bytes long. Only the fields that the patcher reads are
//! kept here, with the places they have in the frame.

use vstd::prelude::*;
use crate::bytes::{le_u16, le_u32, le_u64, read_u16, read_u32, read_u64};

verus! {

/// The debug registers as saved on a trap from user code.
#[derive(Default, Clone, Copy, Debug, PartialEq, Eq, Structural)]
pub struct DrRegs {
    pub dr0: u64,
    pub dr1: u64,
    pub dr2: u64,
    pub dr3: u64,
    pub dr6: u64,
    pub dr7: u64,
}

/// What stands in the place of the debug registers on a trap from kernel
/// code.
#[derive(Default, Clone, Copy, Debug, PartialEq, Eq, Structural)]
pub struct ShadowStackFrame {
    pub shadow_stack_frame: u64,
    pub spare0: u64,
    pub spare1: u64,
    pub spare2: u64,
    pub spare3: u64,
    pub spare4: u64,
}

#[derive(Default, Clone, Copy, Debug, PartialEq, Eq, Structural)]
pub struct SpecialDebugRegisters {
    pub debug_control: u64,
    pub last_branch_to_rip: u64,
    pub last_branch_from_rip: u64,
    pub last_exception_to_rip: u64,
    pub last_exception_from_rip: u64,
}

/// The fields of a trap frame that tell whose it is, and its flags.
#[derive(Default, Clone, Copy, Debug, PartialEq, Eq, Structural)]
pub struct TrapFrame {
    pub rax: u64,
    pub rcx: u64,
    pub rdx: u64,
    pub r8: u64,
    pub r9: u64,
    pub rip: u64,
    pub eflags: u32,
    pub rsp: u64,
    pub seg_ss: u16,
}

impl TrapFrame {
    /// The size of the frame in bytes.
    pub const SIZE: usize = 400;

    pub const OFFSET_RAX: usize = 48;

    pub const OFFSET_RCX: usize = 56;

    pub const OFFSET_RDX: usize = 64;

    pub const OFFSET_R8: usize = 72;

    pub const OFFSET_R9: usize = 80;

    pub const OFFSET_RIP: usize = 360;

    pub const OFFSET_EFLAGS: usize = 376;

    pub const OFFSET_RSP: usize = 384;

    pub const OFFSET_SEG_SS: usize = 392;

    /// The frame that the 400 bytes from `start` on hold.
    pub open spec fn at(bytes: Seq<u8>, start: int) -> TrapFrame {
        TrapFrame {
            rax: le_u64(bytes, start + 48) as u64,
            rcx: le_u64(bytes, start + 56) as u64,
            rdx: le_u64(bytes, start + 64) as u64,
            r8: le_u64(bytes, start + 72) as u64,
            r9: le_u64(bytes, start + 80) as u64,
            rip: le_u64(bytes, start + 360) as u64,
            eflags: le_u32(bytes, start + 376) as u32,
            rsp: le_u64(bytes, start + 384) as u64,
            seg_ss: le_u16(bytes, start + 392) as u16,
        }
    }

    /// Reads the frame that starts at `start`.
    pub fn read(bytes: &[u8], start: usize) -> (r: TrapFrame)
        requires
            start + 400 <= bytes@.len(),
        ensures
            r == Self::at(bytes@, start as int),
    {
        let _length = bytes.len();
        TrapFrame {
            rax: read_u64(bytes, start + Self::OFFSET_RAX),
            rcx: read_u64(bytes, start + Self::OFFSET_RCX),
            rdx: read_u64(bytes, start + Self::OFFSET_RDX),
            r8: read_u64(bytes, start + Self::OFFSET_R8),
            r9: read_u64(bytes, start + Self::OFFSET_R9),
            rip: read_u64(bytes, start + Self::OFFSET_RIP),
            eflags: read_u32(bytes, start + Self::OFFSET_EFLAGS),
            rsp: read_u64(bytes, start + Self::OFFSET_RSP),
            seg_ss: read_u16(bytes, start + Self::OFFSET_SEG_SS),
        }
    }
}

} // verus!
