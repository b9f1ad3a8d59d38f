//! Baking: turning amplitude samples into positions of the speaker's cone.
//!
//! Each sample is given a position, up or down, and neighbouring samples
//! with one position are joined into a single record that lasts as long as
//! all of them together.

use vstd::prelude::*;
use crate::wave::filter::{
    Data, Filter, Position, PositionData, PositionRecord, Sample, Type, WaveData, NANOS_IN_SEC,
};

verus! {

pub type Percentage = u8;

/// How samples are given their positions.
#[derive(Clone, Copy, Debug)]
pub enum Strategy {
    /// Up for a sample above zero, down otherwise.
    Simple,
    /// Keep the position until a sample, taken as a percentage of the one
    /// before it, exceeds the given threshold; then go up if the amplitude
    /// rose and down if it did not.
    Differential(Percentage),
}

pub struct Bakery {
    strategy: Strategy,
}

/// A run of samples with one position: the position and how many samples.
pub type Run = (Position, nat);

/// The position of a sample by its sign.
pub open spec fn position_by_sign(sample: int) -> Position {
    if sample > 0 {
        Position::Up
    } else {
        Position::Down
    }
}

/// Does `sample`, as a percentage of `previous`, exceed `threshold`? The
/// quotient `sample · 100 / previous` is meant exactly, so the comparison
/// is made after multiplying by `previous`, minding its sign. There is no
/// percentage of zero.
pub open spec fn exceeds(previous: int, sample: int, threshold: int) -> bool {
    if previous > 0 {
        sample * 100 > threshold * previous
    } else if previous < 0 {
        sample * 100 < threshold * previous
    } else {
        false
    }
}

/// The position that the differential strategy turns to at a sample, if it
/// turns at all.
pub open spec fn turn(previous: int, sample: int, threshold: int) -> Option<Position> {
    if exceeds(previous, sample, threshold) {
        Some(
            if sample - previous > 0 {
                Position::Up
            } else {
                Position::Down
            },
        )
    } else {
        None
    }
}

/// The positions of the samples under the simple strategy.
pub open spec fn simple_positions(samples: Seq<Sample>) -> Seq<Position> {
    Seq::new(samples.len(), |i: int| position_by_sign(samples[i] as int))
}

/// The positions of the samples under the differential strategy: the first
/// by its sign, each later one turned to or kept from the one before.
pub open spec fn differential_positions(samples: Seq<Sample>, threshold: int) -> Seq<Position>
    decreases samples.len(),
{
    if samples.len() == 0 {
        Seq::empty()
    } else if samples.len() == 1 {
        seq![position_by_sign(samples[0] as int)]
    } else {
        let before = differential_positions(samples.drop_last(), threshold);
        let n = samples.len() as int;
        match turn(samples[n - 2] as int, samples[n - 1] as int, threshold) {
            Some(position) => before.push(position),
            None => before.push(before.last()),
        }
    }
}

/// The positions of the samples under a strategy.
pub open spec fn positions(samples: Seq<Sample>, strategy: Strategy) -> Seq<Position> {
    match strategy {
        Strategy::Simple => simple_positions(samples),
        Strategy::Differential(threshold) => differential_positions(samples, threshold as int),
    }
}

/// The runs of equal neighbours in a sequence of positions.
pub open spec fn runs(positions: Seq<Position>) -> Seq<Run>
    decreases positions.len(),
{
    if positions.len() == 0 {
        Seq::empty()
    } else {
        let before = runs(positions.drop_last());
        let position = positions.last();
        if before.len() > 0 && before.last().0 == position {
            before.update(before.len() - 1, (position, before.last().1 + 1))
        } else {
            before.push((position, 1))
        }
    }
}

/// The records that stand for runs of samples that last `step` nanoseconds
/// each.
pub open spec fn records_of(runs: Seq<Run>, step: int) -> Seq<PositionRecord> {
    Seq::new(
        runs.len(),
        |i: int| PositionRecord { position: runs[i].0, duration: (runs[i].1 * step) as u64 },
    )
}

/// What baking makes of a wave.
pub open spec fn baked(wave: WaveData, strategy: Strategy) -> Seq<PositionRecord> {
    records_of(runs(positions(wave.samples@, strategy)), wave.sample_duration())
}

/// The number of samples in a sequence of runs.
pub open spec fn run_total(runs: Seq<Run>) -> int
    decreases runs.len(),
{
    if runs.len() == 0 {
        0
    } else {
        run_total(runs.drop_last()) + runs.last().1
    }
}

/// The time that a sequence of records takes.
pub open spec fn total_duration(records: Seq<PositionRecord>) -> int
    decreases records.len(),
{
    if records.len() == 0 {
        0
    } else {
        total_duration(records.drop_last()) + records.last().duration
    }
}

/// The positions that a sequence of runs stands for, one for each sample.
pub open spec fn expand(runs: Seq<Run>) -> Seq<Position>
    decreases runs.len(),
{
    if runs.len() == 0 {
        Seq::empty()
    } else {
        expand(runs.drop_last()) + Seq::new(runs.last().1, |i: int| runs.last().0)
    }
}

/// Runs are not empty, no more than the samples they were made of, hold
/// all of them, change position from each to the next, and stand for the
/// positions they were made of.
pub proof fn lemma_runs(positions: Seq<Position>)
    ensures
        runs(positions).len() <= positions.len(),
        positions.len() > 0 ==> runs(positions).len() > 0 && runs(positions).last().0
            == positions.last(),
        forall|i: int| 0 <= i < runs(positions).len() ==> (#[trigger] runs(positions)[i]).1 >= 1,
        forall|i: int|
            0 < i < runs(positions).len() ==> (#[trigger] runs(positions)[i]).0 != runs(
                positions,
            )[i - 1].0,
        run_total(runs(positions)) == positions.len(),
        expand(runs(positions)) == positions,
    decreases positions.len(),
{
    if positions.len() > 0 {
        let shorter = positions.drop_last();
        lemma_runs(shorter);
        let before = runs(shorter);
        let position = positions.last();
        let after = runs(positions);
        if before.len() > 0 && before.last().0 == position {
            assert(after.drop_last() =~= before.drop_last());
            let grown = Seq::new(after.last().1, |i: int| position);
            let old_tail = Seq::new(before.last().1, |i: int| position);
            assert(grown =~= old_tail.push(position));
            assert(expand(after) =~= expand(before).push(position));
        } else {
            assert(after.drop_last() =~= before);
            assert(Seq::new(1nat, |i: int| position) =~= seq![position]);
            assert(expand(after) =~= expand(before).push(position));
        }
        assert(shorter.push(position) =~= positions);
    }
}

/// The records of some runs take as long as all their samples together.
pub proof fn lemma_records_duration(runs: Seq<Run>, step: int)
    requires
        0 <= step,
        run_total(runs) * step <= u64::MAX,
        forall|i: int| 0 <= i < runs.len() ==> (#[trigger] runs[i]).1 >= 0,
    ensures
        total_duration(records_of(runs, step)) == run_total(runs) * step,
    decreases runs.len(),
{
    if runs.len() > 0 {
        let shorter = runs.drop_last();
        lemma_run_total_nonnegative(shorter);
        let count = runs.last().1 as int;
        assert(run_total(shorter) * step <= run_total(runs) * step && count * step <= run_total(
            runs,
        ) * step && run_total(runs) * step == run_total(shorter) * step + count * step && 0
            <= count * step) by (nonlinear_arith)
            requires
                run_total(runs) == run_total(shorter) + count,
                0 <= run_total(shorter),
                0 <= count,
                0 <= step,
        ;
        lemma_records_duration(shorter, step);
        assert(records_of(runs, step).drop_last() =~= records_of(shorter, step));
    }
}

proof fn lemma_run_total_nonnegative(runs: Seq<Run>)
    ensures
        run_total(runs) >= 0,
    decreases runs.len(),
{
    if runs.len() > 0 {
        lemma_run_total_nonnegative(runs.drop_last());
    }
}

/// Baking makes no more records than there are samples, and together they
/// last as long as all the samples.
pub proof fn lemma_baked(wave: WaveData, strategy: Strategy)
    requires
        wave.wf(),
    ensures
        baked(wave, strategy).len() <= wave.samples@.len(),
        positions(wave.samples@, strategy).len() == wave.samples@.len(),
        total_duration(baked(wave, strategy)) == wave.samples@.len() * wave.sample_duration(),
{
    let p = positions(wave.samples@, strategy);
    lemma_positions_len(wave.samples@, strategy);
    lemma_runs(p);
    lemma_step_bound(wave.sample_rate as int, wave.samples@.len() as int);
    lemma_records_duration(runs(p), wave.sample_duration());
}

proof fn lemma_positions_len(samples: Seq<Sample>, strategy: Strategy)
    ensures
        positions(samples, strategy).len() == samples.len(),
    decreases samples.len(),
{
    match strategy {
        Strategy::Simple => {},
        Strategy::Differential(threshold) => {
            if samples.len() > 1 {
                lemma_positions_len(samples.drop_last(), strategy);
            }
        },
    }
}

proof fn lemma_step_bound(rate: int, count: int)
    requires
        0 < rate,
        0 <= count <= 0xFFFF_FFFF,
    ensures
        0 <= 1_000_000_000int / rate <= 1_000_000_000,
        count * (1_000_000_000int / rate) <= 0xFFFF_FFFF * 1_000_000_000,
        0xFFFF_FFFF * 1_000_000_000 < u64::MAX,
{
    let step = 1_000_000_000int / rate;
    vstd::arithmetic::div_mod::lemma_div_pos_is_pos(1_000_000_000, rate);
    vstd::arithmetic::div_mod::lemma_div_is_ordered_by_denominator(1_000_000_000, 1, rate);
    assert(1_000_000_000int / 1 == 1_000_000_000);
    assert(count * step <= 0xFFFF_FFFF * 1_000_000_000) by (nonlinear_arith)
        requires
            0 <= count <= 0xFFFF_FFFF,
            0 <= step <= 1_000_000_000,
    ;
}

impl Bakery {
    /// The strategy the bakery works by.
    pub closed spec fn strategy(&self) -> Strategy {
        self.strategy
    }

    pub fn new(strategy: Strategy) -> (r: Self)
        ensures
            r.strategy() == strategy,
    {
        Self { strategy }
    }

    /// Does `sample`, as a percentage of `previous`, exceed `threshold`?
    pub fn sample_exceeds(previous: Sample, sample: Sample, threshold: Percentage) -> (r: bool)
        ensures
            r == exceeds(previous as int, sample as int, threshold as int),
    {
        let scaled: i64 = sample as i64 * 100;
        assert(-0x80_0000_0000 <= threshold * previous <= 0x80_0000_0000) by (nonlinear_arith)
            requires
                0 <= threshold <= 255,
                -0x8000_0000 <= previous <= 0x7FFF_FFFF,
        ;
        let bound: i64 = threshold as i64 * previous as i64;
        if previous > 0 {
            scaled > bound
        } else if previous < 0 {
            scaled < bound
        } else {
            false
        }
    }

    /// Bakes a wave into positions of the cone.
    pub fn bake(&self, wave: &WaveData) -> (r: PositionData)
        requires
            wave.wf(),
        ensures
            r@ == baked(*wave, self.strategy()),
            r@.len() <= wave.samples@.len(),
            total_duration(r@) == wave.samples@.len() * wave.sample_duration(),
    {
        let step: u64 = NANOS_IN_SEC / (wave.sample_rate as u64);
        let count = wave.samples.len();
        let ghost all = positions(wave.samples@, self.strategy);
        let mut out: PositionData = Vec::new();
        let mut last = Position::Down;
        let mut i: usize = 0;
        proof {
            lemma_positions_len(wave.samples@, self.strategy);
            lemma_step_bound(wave.sample_rate as int, count as int);
            assert(all.take(0) =~= Seq::<Position>::empty());
            assert(out@ =~= records_of(runs(all.take(0)), step as int));
        }
        while i < count
            invariant
                wave.wf(),
                count == wave.samples@.len(),
                step == wave.sample_duration(),
                all == positions(wave.samples@, self.strategy),
                all.len() == count,
                0 <= i <= count,
                out@ == records_of(runs(all.take(i as int)), step as int),
                i > 0 ==> last == all[i - 1],
            decreases count - i,
        {
            let sample = wave.samples[i];
            let by_sign = if sample > 0 {
                Position::Up
            } else {
                Position::Down
            };
            let position = match self.strategy {
                Strategy::Simple => by_sign,
                Strategy::Differential(threshold) => {
                    if i == 0 {
                        by_sign
                    } else {
                        let previous = wave.samples[i - 1];
                        if Self::sample_exceeds(previous, sample, threshold) {
                            if sample as i64 - previous as i64 > 0 {
                                Position::Up
                            } else {
                                Position::Down
                            }
                        } else {
                            last
                        }
                    }
                },
            };
            proof {
                lemma_position_at(wave.samples@, self.strategy, i as int);
                assert(position == all[i as int]);
                let before = all.take(i as int);
                let now = all.take(i + 1);
                assert(now.drop_last() =~= before);
                assert(now.last() == position);
                lemma_runs(before);
                lemma_runs(now);
                lemma_step_bound(wave.sample_rate as int, count as int);
                let r = runs(now);
                assert((r.last().1 as int) * (step as int) <= (0xFFFF_FFFF as int) * (
                1_000_000_000 as int)) by {
                    lemma_run_total_nonnegative(r.drop_last());
                    assert(r.last().1 <= run_total(r));
                    assert((r.last().1 as int) * (step as int) <= (0xFFFF_FFFF as int) * (
                    1_000_000_000 as int)) by (nonlinear_arith)
                        requires
                            0 <= r.last().1 <= 0xFFFF_FFFF,
                            0 <= step <= 1_000_000_000,
                    ;
                }
            }
            let joined = out.len() > 0 && out[out.len() - 1].position == position;
            proof {
                let before = runs(all.take(i as int));
                let after = runs(all.take(i + 1));
                if joined {
                    assert(out@[out@.len() - 1].position == before.last().0);
                    assert(after.last().1 == before.last().1 + 1);
                    assert((before.last().1 + 1) * step == before.last().1 * step + step)
                        by (nonlinear_arith);
                    assert(0 <= before.last().1 * step) by (nonlinear_arith)
                        requires
                            0 <= before.last().1,
                            0 <= step,
                    ;
                    assert(out@[out@.len() - 1].duration == before.last().1 * step);
                }
            }
            if joined {
                let at = out.len() - 1;
                let longer = PositionRecord { position, duration: out[at].duration + step };
                out.set(at, longer);
            } else {
                out.push(PositionRecord { position, duration: step });
            }
            proof {
                let before = runs(all.take(i as int));
                let after = runs(all.take(i + 1));
                if joined {
                    assert((before.last().1 + 1) * step == before.last().1 * step + step)
                        by (nonlinear_arith);
                } else {
                    assert(1 * step == step);
                }
                assert(out@ =~= records_of(after, step as int));
            }
            last = position;
            i += 1;
        }
        proof {
            assert(all.take(count as int) =~= all);
            lemma_baked(*wave, self.strategy);
        }
        out
    }
}

/// The position of each sample, from the sample and the one before it.
proof fn lemma_position_at(samples: Seq<Sample>, strategy: Strategy, i: int)
    requires
        0 <= i < samples.len(),
    ensures
        positions(samples, strategy).len() == samples.len(),
        positions(samples, strategy)[i] == match strategy {
            Strategy::Simple => position_by_sign(samples[i] as int),
            Strategy::Differential(threshold) => if i == 0 {
                position_by_sign(samples[0] as int)
            } else {
                match turn(samples[i - 1] as int, samples[i] as int, threshold as int) {
                    Some(position) => position,
                    None => positions(samples, strategy)[i - 1],
                }
            },
        },
    decreases samples.len(),
{
    lemma_positions_len(samples, strategy);
    match strategy {
        Strategy::Simple => {},
        Strategy::Differential(threshold) => {
            if samples.len() > 1 {
                lemma_positions_len(samples.drop_last(), strategy);
                if i < samples.len() - 1 {
                    lemma_position_at(samples.drop_last(), strategy, i);
                }
            }
        },
    }
}

impl Filter for Bakery {
    open spec fn input_type(&self) -> Type {
        Type::Amplitude
    }

    fn filter_type(&self) -> (r: Type) {
        Type::Amplitude
    }

    /// Bakes a wave; anything else is refused.
    fn filter(&self, data: Data) -> (r: Option<Data>)
        ensures
            match data {
                Data::Amplitude(wave) => r matches Some(Data::Position(records)) && records@
                    == baked(wave, self.strategy()) && records@.len() <= wave.samples@.len()
                    && total_duration(records@) == wave.samples@.len() * wave.sample_duration(),
                _ => r is None,
            },
    {
        match data {
            Data::Amplitude(wave) => Some(Data::Position(self.bake(&wave))),
            _ => None,
        }
    }
}

} // verus!
