//! Frequencies and divisors of the programmable interval timer.
//!
//! The timer's input clock runs at 1 193 182 Hz and is divided by a 16-bit
//! divisor, so the speaker can be driven at any frequency between
//! 1 193 182 / 65 535 (a little over 18 Hz) and 1 193 182 Hz.

use vstd::prelude::*;

verus! {

pub type Hertz = u32;

pub struct ClockGenerator;

impl ClockGenerator {
    /// Input clock of the timer, in Hz.
    pub const BASE_FREQ: u32 = 1_193_182;
}

/// The frequency nearest to `freq_hz` that the timer can produce.
pub open spec fn clamp_hz(freq_hz: int) -> int {
    if freq_hz < 19 {
        19
    } else if freq_hz > 1_193_182 {
        1_193_182
    } else {
        freq_hz
    }
}

/// A frequency that the timer can produce.
#[derive(Clone, Copy)]
pub struct BeeperFrequency(Hertz);

impl BeeperFrequency {
    /// Lowest frequency: 1 193 182 / 65 535, rounded up.
    pub const MIN_HZ: Hertz = 19;

    /// Highest frequency: the undivided clock.
    pub const MAX_HZ: Hertz = 1_193_182;

    #[verifier::type_invariant]
    spec fn in_band(self) -> bool {
        19 <= self.0 <= 1_193_182
    }

    /// The frequency in Hz.
    pub closed spec fn hz(self) -> int {
        self.0 as int
    }

    /// The value that `new_clamped` makes of `freq_hz`.
    pub closed spec fn clamped(freq_hz: int) -> Self {
        BeeperFrequency(clamp_hz(freq_hz) as u32)
    }

    /// `clamped` carries the clamped frequency.
    pub proof fn lemma_clamped(freq_hz: int)
        ensures
            Self::clamped(freq_hz).hz() == clamp_hz(freq_hz),
    {
    }

    /// Clamps the given frequency into the timer's band.
    pub fn new_clamped(freq_hz: Hertz) -> (r: Self)
        ensures
            r == Self::clamped(freq_hz as int),
            r.hz() == clamp_hz(freq_hz as int),
    {
        if freq_hz < 19 {
            BeeperFrequency(19)
        } else if freq_hz > 1_193_182 {
            BeeperFrequency(1_193_182)
        } else {
            BeeperFrequency(freq_hz)
        }
    }

    /// Accepts the frequency only if the timer can produce it.
    pub fn new(freq_hz: Hertz) -> (r: Option<Self>)
        ensures
            r is Some <==> 19 <= freq_hz <= 1_193_182,
            r is Some ==> r->0.hz() == freq_hz,
    {
        if 19 <= freq_hz && freq_hz <= 1_193_182 {
            Some(BeeperFrequency(freq_hz))
        } else {
            None
        }
    }

    pub fn get(&self) -> (r: Hertz)
        ensures
            r == self.hz(),
            19 <= r <= 1_193_182,
    {
        proof {
            use_type_invariant(self);
        }
        self.0
    }
}

impl From<u32> for BeeperFrequency {
    fn from(freq_hz: u32) -> (r: Self) {
        Self::new_clamped(freq_hz)
    }
}

impl vstd::std_specs::convert::FromSpecImpl<u32> for BeeperFrequency {
    open spec fn obeys_from_spec() -> bool {
        true
    }

    open spec fn from_spec(freq_hz: u32) -> Self {
        Self::clamped(freq_hz as int)
    }
}

impl From<u16> for BeeperFrequency {
    fn from(freq_hz: u16) -> (r: Self) {
        Self::new_clamped(freq_hz as u32)
    }
}

impl vstd::std_specs::convert::FromSpecImpl<u16> for BeeperFrequency {
    open spec fn obeys_from_spec() -> bool {
        true
    }

    open spec fn from_spec(freq_hz: u16) -> Self {
        Self::clamped(freq_hz as int)
    }
}

impl From<u8> for BeeperFrequency {
    fn from(freq_hz: u8) -> (r: Self) {
        Self::new_clamped(freq_hz as u32)
    }
}

impl vstd::std_specs::convert::FromSpecImpl<u8> for BeeperFrequency {
    open spec fn obeys_from_spec() -> bool {
        true
    }

    open spec fn from_spec(freq_hz: u8) -> Self {
        Self::clamped(freq_hz as int)
    }
}

/// The divisor that the timer is loaded with for a frequency: the clock
/// divided by the clamped frequency, rounded down.
pub open spec fn divisor_of(freq_hz: int) -> int {
    1_193_182int / clamp_hz(freq_hz)
}

/// For every frequency the divisor fits the timer's 16-bit register and is
/// not zero, and it is the largest one whose output is not below the clamped
/// frequency: dividing the clock by it gives at least that frequency, and
/// dividing by the next divisor gives less.
pub proof fn lemma_divisor_of(freq_hz: int)
    ensures
        1 <= divisor_of(freq_hz) <= 62_799,
        1_193_182int / divisor_of(freq_hz) >= clamp_hz(freq_hz),
        1_193_182int / (divisor_of(freq_hz) + 1) < clamp_hz(freq_hz),
        divisor_of(freq_hz) * clamp_hz(freq_hz) <= 1_193_182 < (divisor_of(freq_hz) + 1)
            * clamp_hz(freq_hz),
{
    let base: int = 1_193_182;
    let f = clamp_hz(freq_hz);
    let d = divisor_of(freq_hz);
    let r = base % f;
    vstd::arithmetic::div_mod::lemma_fundamental_div_mod(base, f);
    vstd::arithmetic::div_mod::lemma_mod_bound(base, f);
    assert(base == f * d + r);
    assert(d >= 1 && d <= 62_799) by (nonlinear_arith)
        requires
            19 <= f <= 1_193_182,
            1_193_182 == f * d + r,
            0 <= r < f,
    ;
    assert(d * f <= base < (d + 1) * f) by (nonlinear_arith)
        requires
            base == f * d + r,
            0 <= r < f,
    ;
    let up = base / d;
    vstd::arithmetic::div_mod::lemma_fundamental_div_mod(base, d);
    vstd::arithmetic::div_mod::lemma_mod_bound(base, d);
    assert(up >= f) by (nonlinear_arith)
        requires
            d >= 1,
            d * f <= base,
            base == d * up + base % d,
            0 <= base % d < d,
    ;
    let down = base / (d + 1);
    vstd::arithmetic::div_mod::lemma_fundamental_div_mod(base, d + 1);
    vstd::arithmetic::div_mod::lemma_mod_bound(base, d + 1);
    assert(down < f) by (nonlinear_arith)
        requires
            d + 1 >= 1,
            base == (d + 1) * down + base % (d + 1),
            0 <= base % (d + 1),
            base < (d + 1) * f,
    ;
}

/// Clamping a frequency a second time changes nothing, and so the divisor
/// of a clamped frequency is that of the frequency itself.
pub proof fn lemma_divisor_clamped(freq_hz: int)
    ensures
        clamp_hz(clamp_hz(freq_hz)) == clamp_hz(freq_hz),
        divisor_of(clamp_hz(freq_hz)) == divisor_of(freq_hz),
{
}

/// A divisor for the timer's 16-bit register; never zero.
#[derive(Clone, Copy)]
pub struct BeeperDivisor(u16);

impl BeeperDivisor {
    pub const MIN_VALUE: u16 = 1;

    pub const MAX_VALUE: u16 = 65_535;

    #[verifier::type_invariant]
    spec fn nonzero(self) -> bool {
        self.0 >= 1
    }

    /// The value loaded into the timer.
    pub closed spec fn value(self) -> int {
        self.0 as int
    }

    /// The divisor that `from_freq` makes of `freq_hz`.
    pub closed spec fn of_freq(freq_hz: int) -> Self {
        BeeperDivisor(divisor_of(freq_hz) as u16)
    }

    /// `of_freq` carries the quotient of the clock by the clamped frequency.
    pub proof fn lemma_of_freq(freq_hz: int)
        ensures
            Self::of_freq(freq_hz).value() == divisor_of(freq_hz),
    {
        lemma_divisor_of(freq_hz);
    }

    /// Takes the divisor as it is, but for zero, which becomes one.
    pub fn new(divisor: u16) -> (r: Self)
        ensures
            r.value() == if divisor == 0 { 1 } else { divisor as int },
    {
        if divisor == 0 {
            BeeperDivisor(1)
        } else {
            BeeperDivisor(divisor)
        }
    }

    /// The divisor that makes the timer run at `freq_hz`, clamped to its band.
    pub fn from_freq(freq_hz: Hertz) -> (r: Self)
        ensures
            r == Self::of_freq(freq_hz as int),
            r.value() == divisor_of(freq_hz as int),
            1 <= r.value() <= 65_535,
    {
        let freq = BeeperFrequency::new_clamped(freq_hz).get();
        proof {
            lemma_divisor_of(freq_hz as int);
        }
        let quotient: u32 = ClockGenerator::BASE_FREQ / freq;
        BeeperDivisor(quotient as u16)
    }

    pub fn get(&self) -> (r: u16)
        ensures
            r == self.value(),
            r >= 1,
    {
        proof {
            use_type_invariant(self);
        }
        self.0
    }
}

impl From<BeeperFrequency> for BeeperDivisor {
    fn from(freq: BeeperFrequency) -> (r: Self) {
        Self::from_freq(freq.get())
    }
}

impl vstd::std_specs::convert::FromSpecImpl<BeeperFrequency> for BeeperDivisor {
    open spec fn obeys_from_spec() -> bool {
        true
    }

    open spec fn from_spec(freq: BeeperFrequency) -> Self {
        Self::of_freq(freq.hz())
    }
}

/// One request to the speaker.
#[derive(Clone, Copy, Debug, PartialEq, Eq, Structural)]
pub enum SpeakerOp {
    /// Put the timer's channel 2 into square-wave mode.
    Prepare,
    /// Connect the timer to the speaker and let it sound.
    Play,
    /// Disconnect the timer and silence the speaker.
    Mute,
    /// Load the timer with a divisor.
    SetDivisor(u16),
    /// Push the cone out.
    Up,
    /// Pull the cone back.
    Down,
}

/// A speaker that can be driven by the timer or moved directly.
///
/// An implementation keeps, in its model, the list of the requests it was
/// given; the players are specified by what they append to that list.
pub trait SoundEmitter {
    /// Every request made so far, oldest first. An implementation that
    /// is not verified leaves this unsaid.
    open spec fn ops(&self) -> Seq<SpeakerOp> {
        arbitrary()
    }

    /// Sets the timer's mode and says whether the speaker is ready.
    fn prepare(&mut self) -> (ready: bool)
        ensures
            final(self).ops() == old(self).ops().push(SpeakerOp::Prepare),
    ;

    fn play(&mut self)
        ensures
            final(self).ops() == old(self).ops().push(SpeakerOp::Play),
    ;

    fn mute(&mut self)
        ensures
            final(self).ops() == old(self).ops().push(SpeakerOp::Mute),
    ;

    fn set_divisor(&mut self, divisor: BeeperDivisor)
        ensures
            final(self).ops() == old(self).ops().push(SpeakerOp::SetDivisor(divisor.value() as u16)),
    ;

    fn set_frequency(&mut self, freq: BeeperFrequency)
        ensures
            final(self).ops() == old(self).ops().push(
                SpeakerOp::SetDivisor(divisor_of(freq.hz()) as u16),
            ),
    ;

    fn up(&mut self)
        ensures
            final(self).ops() == old(self).ops().push(SpeakerOp::Up),
    ;

    fn down(&mut self)
        ensures
            final(self).ops() == old(self).ops().push(SpeakerOp::Down),
    ;
}

} // verus!
