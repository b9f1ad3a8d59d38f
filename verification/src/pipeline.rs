//! The filter chain: which filters a run is made of, whether they fit
//! together, and what is done to samples that no filter has baked.

use vstd::prelude::*;
use crate::wave::bakery::{baked, total_duration, Bakery, Strategy};
use crate::wave::filter::Data;

verus! {

/// The percentage that samples are baked by when no bakery is asked for.
pub const DEFAULT_BAKE_PERCENTAGE: u8 = 5;

/// The interval, in nanoseconds, at which channels take turns when none is
/// asked for.
pub const DEFAULT_SWITCH_INTERVAL: u64 = 20_000_000;

/// The kinds of data that run through the chain.
#[derive(Clone, Copy, Debug, PartialEq, Eq, Structural)]
pub enum DataKind {
    Amplitude,
    Frequency,
    Position,
}

/// A filter of the chain and its settings.
#[derive(Clone, Copy, Debug, PartialEq, Eq, Structural)]
pub enum FilterSpec {
    /// Passes what lies below a frequency in hertz.
    LowPass { sample_rate: u32, cutoff: u32 },
    /// Passes what lies above a frequency in hertz.
    HighPass { sample_rate: u32, cutoff: u32 },
    /// Bakes samples by their sign.
    BakeSimple,
    /// Bakes samples by their change, with a threshold in percent.
    BakeDifferential(u8),
    /// Extracts the frequencies that stand out.
    ExtractFreq {
        lower_bound_hz: Option<u32>,
        upper_bound_hz: Option<u32>,
        sampling_size: u32,
        step_by: u32,
        sample_rate: u32,
        number_of_peaks: u8,
    },
    /// Moves frequencies to the nearest notes.
    NoteMatcher,
}

/// The kind of data a filter takes.
pub open spec fn takes(filter: FilterSpec) -> DataKind {
    match filter {
        FilterSpec::NoteMatcher => DataKind::Frequency,
        _ => DataKind::Amplitude,
    }
}

/// The kind of data a filter gives.
pub open spec fn gives(filter: FilterSpec) -> DataKind {
    match filter {
        FilterSpec::LowPass { .. } | FilterSpec::HighPass { .. } => DataKind::Amplitude,
        FilterSpec::BakeSimple | FilterSpec::BakeDifferential(_) => DataKind::Position,
        FilterSpec::ExtractFreq { .. } | FilterSpec::NoteMatcher => DataKind::Frequency,
    }
}

/// The kind of data that comes out of the filters from `from` on when data
/// of the given kind goes in, or the place of the first filter that is
/// handed data of a kind it does not take.
pub open spec fn chain_result(filters: Seq<FilterSpec>, from: int, kind: DataKind) -> Result<
    DataKind,
    int,
>
    decreases filters.len() - from,
{
    if from < 0 || from >= filters.len() {
        Ok(kind)
    } else if takes(filters[from]) != kind {
        Err(from)
    } else {
        chain_result(filters, from + 1, gives(filters[from]))
    }
}

/// The kind of some data.
pub open spec fn kind_of(data: Data) -> DataKind {
    match data {
        Data::Amplitude(_) => DataKind::Amplitude,
        Data::Frequency(_) => DataKind::Frequency,
        Data::Position(_) => DataKind::Position,
    }
}

impl FilterSpec {
    /// The kind of data the filter takes.
    pub fn input_kind(&self) -> (r: DataKind)
        ensures
            r == takes(*self),
    {
        match self {
            FilterSpec::NoteMatcher => DataKind::Frequency,
            _ => DataKind::Amplitude,
        }
    }

    /// The kind of data the filter gives.
    pub fn output_kind(&self) -> (r: DataKind)
        ensures
            r == gives(*self),
    {
        match self {
            FilterSpec::LowPass { .. } | FilterSpec::HighPass { .. } => DataKind::Amplitude,
            FilterSpec::BakeSimple | FilterSpec::BakeDifferential(_) => DataKind::Position,
            FilterSpec::ExtractFreq { .. } | FilterSpec::NoteMatcher => DataKind::Frequency,
        }
    }
}

/// The kind of some data.
pub fn data_kind(data: &Data) -> (r: DataKind)
    ensures
        r == kind_of(*data),
{
    match data {
        Data::Amplitude(_) => DataKind::Amplitude,
        Data::Frequency(_) => DataKind::Frequency,
        Data::Position(_) => DataKind::Position,
    }
}

/// Checks that each filter of a chain is handed the kind of data it takes
/// and says what kind comes out at the end.
pub fn check_chain(filters: &Vec<FilterSpec>, kind: DataKind) -> (r: Result<DataKind, usize>)
    ensures
        match r {
            Ok(out) => chain_result(filters@, 0, kind) == Ok::<DataKind, int>(out),
            Err(at) => chain_result(filters@, 0, kind) == Err::<DataKind, int>(at as int),
        },
{
    let mut current = kind;
    let mut i: usize = 0;
    while i < filters.len()
        invariant
            0 <= i <= filters@.len(),
            chain_result(filters@, 0, kind) == chain_result(filters@, i as int, current),
        decreases filters@.len() - i,
    {
        if filters[i].input_kind() != current {
            return Err(i);
        }
        current = filters[i].output_kind();
        i += 1;
    }
    Ok(current)
}

/// Makes data playable at the end of the chain: samples that no filter has
/// baked are baked by their change, with a threshold of five percent;
/// frequencies and positions stay as they are.
pub fn finish(data: Data) -> (r: Data)
    requires
        data.wf(),
    ensures
        match data {
            Data::Amplitude(wave) => r matches Data::Position(records) && records@ == baked(
                wave,
                Strategy::Differential(5),
            ) && total_duration(records@) == wave.samples@.len() * wave.sample_duration(),
            _ => r == data,
        },
{
    match data {
        Data::Amplitude(wave) => {
            let bakery = Bakery::new(Strategy::Differential(DEFAULT_BAKE_PERCENTAGE));
            Data::Position(bakery.bake(&wave))
        },
        other => other,
    }
}

} // verus!
