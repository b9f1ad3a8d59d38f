//! The speaker itself: timer frequencies and divisors, the port interface
//! and the driver that programs the timer through it.

pub mod generic;
pub mod port_accessor;
pub mod sound_emitter;
