//! What is kept of a thread while its trap frame is sought.

use vstd::prelude::*;

verus! {

/// Where a suspended thread stands: its instruction and stack pointers.
#[derive(Default, Clone, Copy, Debug, PartialEq, Eq, Structural)]
pub struct ThreadState {
    rip: u64,
    rsp: u64,
}

impl ThreadState {
    pub closed spec fn spec_rip(&self) -> u64 {
        self.rip
    }

    pub closed spec fn spec_rsp(&self) -> u64 {
        self.rsp
    }

    pub fn new(rip: u64, rsp: u64) -> (r: Self)
        ensures
            r.spec_rip() == rip,
            r.spec_rsp() == rsp,
    {
        Self { rip, rsp }
    }

    pub fn rip(&self) -> (r: u64)
        ensures
            r == self.spec_rip(),
    {
        self.rip
    }

    pub fn rsp(&self) -> (r: u64)
        ensures
            r == self.spec_rsp(),
    {
        self.rsp
    }
}

/// The registers of a thread that the patcher reads or marks.
#[derive(Default, Clone, Copy, Debug, PartialEq, Eq, Structural)]
pub struct Registers {
    pub rax: u64,
    pub rcx: u64,
    pub rdx: u64,
    pub r8: u64,
    pub r9: u64,
    pub rip: u64,
    pub rsp: u64,
}

impl Registers {
    /// The registers with the marks in place of the five that a trap
    /// saves first; instruction and stack pointer stay.
    pub fn marked(self) -> (r: Registers)
        ensures
            r == (Registers {
                rax: 0x1EE7_C0DE,
                rcx: 0xC0_FFEE,
                rdx: 0xC_ACA0,
                r8: 0x7EA,
                r9: 0xFA_CADE,
                rip: self.rip,
                rsp: self.rsp,
            }),
    {
        Registers {
            rax: crate::iopl::consts::MARK_RAX,
            rcx: crate::iopl::consts::MARK_RCX,
            rdx: crate::iopl::consts::MARK_RDX,
            r8: crate::iopl::consts::MARK_R8,
            r9: crate::iopl::consts::MARK_R9,
            rip: self.rip,
            rsp: self.rsp,
        }
    }

    /// Where the thread stands.
    pub fn state(&self) -> (r: ThreadState)
        ensures
            r.spec_rip() == self.rip,
            r.spec_rsp() == self.rsp,
    {
        ThreadState::new(self.rip, self.rsp)
    }
}

/// Something that can put the registers of the thread back as they were
/// before they were marked.
pub trait ContextKeeper {
    /// Were the registers put back? An implementation that is not
    /// verified leaves this unsaid.
    open spec fn restored(&self) -> bool {
        arbitrary()
    }

    fn restore(&mut self)
        ensures
            final(self).restored(),
    ;
}

/// A keeper that keeps nothing and only remembers whether it was asked to
/// put the registers back. It lets the patcher run without a thread.
pub struct RestoreLog {
    asked: bool,
}

impl RestoreLog {
    pub fn new() -> (r: Self)
        ensures
            !r.restored(),
    {
        RestoreLog { asked: false }
    }

    /// Was the keeper asked to put the registers back?
    pub fn was_restored(&self) -> (r: bool)
        ensures
            r == self.restored(),
    {
        self.asked
    }
}

impl ContextKeeper for RestoreLog {
    closed spec fn restored(&self) -> bool {
        self.asked
    }

    fn restore(&mut self) {
        self.asked = true;
    }
}

} // verus!
