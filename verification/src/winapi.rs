//! What the program needs to know of the operating system: control codes,
//! priorities, service states and the architecture it runs on.

pub mod arch;
pub mod ioctl;
pub mod sched;
pub mod scm;
