//! Raising the I/O privilege level of a thread.
//!
//! The thread's registers are marked, the trap frame that the kernel saved
//! for it is sought in physical memory by those marks, and the privilege
//! bits of the flags word saved there are set.

pub mod consts;
pub mod iopl_patcher;
pub mod ktrap_frame;
pub mod level;
pub mod patcher_impl;
pub mod phys_mapper;
pub mod phys_ranges;
pub mod types;
