//! The data that runs through the filter chain.
//!
//! Amplitudes are fixed-point numbers: a sample of `FULL_SCALE` stands for
//! +1.0 and one of `-FULL_SCALE` for -1.0. Frequencies are whole numbers of
//! millihertz, durations whole numbers of nanoseconds.

use vstd::prelude::*;
use crate::note::frequency::MilliHertz;

verus! {

/// Where the speaker's cone is held.
#[derive(Default, Clone, Copy, Debug, PartialOrd, PartialEq, Eq, Structural)]
pub enum Position {
    #[default]
    Down,
    Up,
}

/// The kind of data a filter takes.
#[derive(Clone, Copy, Debug, PartialEq, Eq, Structural)]
pub enum Type {
    Amplitude,
    Frequency,
}

/// Nanoseconds.
pub type Nsec = u64;

/// Ticks of the time-stamp counter.
pub type Ticks = u64;

/// Whole hertz, as the timer takes them.
pub type HertzInt = u32;

/// One amplitude sample.
pub type Sample = i32;

/// The sample that stands for an amplitude of 1.0.
pub const FULL_SCALE: Sample = 0x7FFF_FFFF;

pub const NANOS_IN_SEC: u64 = 1_000_000_000;

/// Mono samples and the rate they were taken at.
#[derive(Default, Clone, Debug)]
pub struct WaveData {
    pub samples: Vec<Sample>,
    pub sample_rate: u16,
}

impl WaveData {
    /// Can the wave be given a time axis? Its rate must not be zero, and it
    /// must not hold more samples than a wave file can.
    pub open spec fn wf(&self) -> bool {
        self.sample_rate > 0 && self.samples@.len() <= 0xFFFF_FFFF
    }

    pub fn is_well_formed(&self) -> (r: bool)
        ensures
            r == self.wf(),
    {
        self.sample_rate > 0 && self.samples.len() <= 0xFFFF_FFFF
    }

    /// How long one sample lasts, rounded down to whole nanoseconds.
    pub open spec fn sample_duration(&self) -> int {
        1_000_000_000int / (self.sample_rate as int)
    }
}

/// A frequency held for a time; zero hertz is silence.
#[derive(Default, Clone, Copy, Debug)]
pub struct FreqRecord<HzType> {
    pub freq: HzType,
    pub duration: Nsec,
}

pub type FreqRecordMilli = FreqRecord<MilliHertz>;

pub type FreqRecordInt = FreqRecord<HertzInt>;

pub type FreqChannel<HzType> = Vec<FreqRecord<HzType>>;

pub type FreqData<HzType> = Vec<FreqChannel<HzType>>;

/// A position of the cone held for a time.
#[derive(Default, Clone, Copy, Debug, PartialEq, Eq, Structural)]
pub struct PositionRecord {
    pub position: Position,
    pub duration: Nsec,
}

pub type PositionData = Vec<PositionRecord>;

/// What runs through the filter chain: samples, or per channel the
/// frequencies to play, or the positions of the cone.
pub enum Data {
    Amplitude(WaveData),
    Frequency(FreqData<MilliHertz>),
    Position(PositionData),
}

impl Data {
    /// Is the data fit for filtering? A wave must be well formed.
    pub open spec fn wf(&self) -> bool {
        match self {
            Data::Amplitude(wave) => wave.wf(),
            _ => true,
        }
    }

    /// Is the data of the kind that a filter of the given type takes?
    pub open spec fn is_of(&self, kind: Type) -> bool {
        match kind {
            Type::Amplitude => self is Amplitude,
            Type::Frequency => self is Frequency,
        }
    }

    pub fn is_well_formed(&self) -> (r: bool)
        ensures
            r == self.wf(),
    {
        match self {
            Data::Amplitude(wave) => wave.is_well_formed(),
            _ => true,
        }
    }

    /// Is there nothing to play: no sample, no channel, no position?
    pub fn is_empty(&self) -> (r: bool)
        ensures
            r == match self {
                Data::Amplitude(wave) => wave.samples@.len() == 0,
                Data::Frequency(freq) => freq@.len() == 0,
                Data::Position(pos) => pos@.len() == 0,
            },
    {
        match self {
            Data::Amplitude(wave) => wave.samples.len() == 0,
            Data::Frequency(freq) => freq.len() == 0,
            Data::Position(pos) => pos.len() == 0,
        }
    }
}

/// One link of the filter chain.
pub trait Filter {
    /// The kind of data the filter takes. An implementation that is not
    /// verified leaves this unsaid.
    open spec fn input_type(&self) -> Type {
        arbitrary()
    }

    fn filter_type(&self) -> (r: Type)
        ensures
            r == self.input_type(),
    ;

    /// Transforms the data, or refuses data of another kind than the
    /// filter's.
    fn filter(&self, data: Data) -> (r: Option<Data>)
        requires
            data.wf(),
        ensures
            r is Some <==> data.is_of(self.input_type()),
            r is Some ==> r->0.wf(),
    ;
}

} // verus!
