//! The players: what is sent to the speaker, and when, for baked positions
//! and for frequency channels.

pub mod amplitudes;
pub mod frequencies;

use vstd::prelude::*;

verus! {

/// Something that tells when playing is to stop.
pub trait StopFlag {
    fn is_stopped(&self) -> bool;
}

/// A flag that never asks to stop.
pub struct NeverStop;

impl StopFlag for NeverStop {
    fn is_stopped(&self) -> (r: bool)
        ensures
            !r,
    {
        false
    }
}

} // verus!
