//! Priorities and processor affinity.

use vstd::prelude::*;

verus! {

#[derive(Clone, Copy, Debug, PartialEq, Eq, Structural)]
pub enum Priority {
    Idle,
    Lowest,
    Lower,
    Normal,
    Higher,
    Highest,
    Realtime,
}

#[derive(Clone, Copy, Debug, PartialEq, Eq, Structural)]
pub enum Affinity {
    /// No processor in particular.
    All,
    /// The processor of the given number.
    Exact(usize),
    /// The processors whose bits are set.
    Mask(usize),
}

pub const IDLE_PRIORITY_CLASS: u32 = 0x40;

pub const BELOW_NORMAL_PRIORITY_CLASS: u32 = 0x4000;

pub const NORMAL_PRIORITY_CLASS: u32 = 0x20;

pub const ABOVE_NORMAL_PRIORITY_CLASS: u32 = 0x8000;

pub const HIGH_PRIORITY_CLASS: u32 = 0x80;

pub const REALTIME_PRIORITY_CLASS: u32 = 0x100;

pub const THREAD_PRIORITY_IDLE: i32 = -15;

pub const THREAD_PRIORITY_LOWEST: i32 = -2;

pub const THREAD_PRIORITY_BELOW_NORMAL: i32 = -1;

pub const THREAD_PRIORITY_NORMAL: i32 = 0;

pub const THREAD_PRIORITY_ABOVE_NORMAL: i32 = 1;

pub const THREAD_PRIORITY_HIGHEST: i32 = 2;

pub const THREAD_PRIORITY_TIME_CRITICAL: i32 = 15;

/// The priority class of a process for a priority. There is one class for
/// both priorities below normal.
pub open spec fn process_class(priority: Priority) -> u32 {
    match priority {
        Priority::Idle => 0x40,
        Priority::Lowest | Priority::Lower => 0x4000,
        Priority::Normal => 0x20,
        Priority::Higher => 0x8000,
        Priority::Highest => 0x80,
        Priority::Realtime => 0x100,
    }
}

/// The priority of a thread for a priority.
pub open spec fn thread_level(priority: Priority) -> int {
    match priority {
        Priority::Idle => -15,
        Priority::Lowest => -2,
        Priority::Lower => -1,
        Priority::Normal => 0,
        Priority::Higher => 1,
        Priority::Highest => 2,
        Priority::Realtime => 15,
    }
}

/// Two to the given power.
pub open spec fn bit(number: nat) -> nat {
    vstd::arithmetic::power2::pow2(number)
}

impl Priority {
    pub fn get_process_priority_class(self) -> (r: u32)
        ensures
            r == process_class(self),
    {
        match self {
            Priority::Idle => IDLE_PRIORITY_CLASS,
            Priority::Lowest | Priority::Lower => BELOW_NORMAL_PRIORITY_CLASS,
            Priority::Normal => NORMAL_PRIORITY_CLASS,
            Priority::Higher => ABOVE_NORMAL_PRIORITY_CLASS,
            Priority::Highest => HIGH_PRIORITY_CLASS,
            Priority::Realtime => REALTIME_PRIORITY_CLASS,
        }
    }

    pub fn get_thread_priority(self) -> (r: i32)
        ensures
            r == thread_level(self),
    {
        match self {
            Priority::Idle => THREAD_PRIORITY_IDLE,
            Priority::Lowest => THREAD_PRIORITY_LOWEST,
            Priority::Lower => THREAD_PRIORITY_BELOW_NORMAL,
            Priority::Normal => THREAD_PRIORITY_NORMAL,
            Priority::Higher => THREAD_PRIORITY_ABOVE_NORMAL,
            Priority::Highest => THREAD_PRIORITY_HIGHEST,
            Priority::Realtime => THREAD_PRIORITY_TIME_CRITICAL,
        }
    }
}

impl Affinity {
    /// The mask of processors that the affinity stands for: none for all
    /// processors, one bit for an exact processor. A processor whose number
    /// has no bit in a mask gives nothing.
    pub fn mask(self) -> (r: Option<usize>)
        ensures
            match self {
                Affinity::All => r == Some(0usize),
                Affinity::Exact(number) => if number < usize::BITS {
                    r is Some && r->0 == bit(number as nat)
                } else {
                    r is None
                },
                Affinity::Mask(mask) => r == Some(mask),
            },
    {
        match self {
            Affinity::All => Some(0),
            Affinity::Exact(number) => {
                if number >= usize::BITS as usize {
                    return None;
                }
                let mut mask: usize = 1;
                let mut i: usize = 0;
                proof {
                    vstd::arithmetic::power2::lemma2_to64();
                }
                while i < number
                    invariant
                        0 <= i <= number < usize::BITS,
                        mask == bit(i as nat),
                    decreases number - i,
                {
                    proof {
                        vstd::arithmetic::power2::lemma_pow2_unfold((i + 1) as nat);
                        vstd::arithmetic::power2::lemma_pow2_strictly_increases(
                            (i + 1) as nat,
                            usize::BITS as nat,
                        );
                        vstd::arithmetic::power2::lemma2_to64();
                        vstd::arithmetic::power2::lemma2_to64_rest();
                    }
                    mask = mask * 2;
                    i += 1;
                }
                Some(mask)
            },
            Affinity::Mask(mask) => Some(mask),
        }
    }
}

/// The processor that the playing thread is pinned to: the last one.
pub fn last_cpu(cpu_count: usize) -> (r: Option<Affinity>)
    ensures
        r == if cpu_count > 0 {
            Some(Affinity::Exact((cpu_count - 1) as usize))
        } else {
            None
        },
{
    if cpu_count > 0 {
        Some(Affinity::Exact(cpu_count - 1))
    } else {
        None
    }
}

} // verus!
