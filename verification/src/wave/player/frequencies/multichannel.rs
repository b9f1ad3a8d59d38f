//! Several channels on one speaker.
//!
//! The speaker can sound one frequency at a time. Channels therefore take
//! turns: all of them run on in time, and every so often the speaker is
//! tuned to the next channel that has a tone to play.
//!
//! Time is counted in ticks of the time-stamp counter, which the caller
//! reads and hands in. The scheduler decides, for each reading, what is
//! sent to the speaker and whether anything is left to play.

use vstd::prelude::*;
use crate::beeper::sound_emitter::{divisor_of, BeeperFrequency, SoundEmitter, SpeakerOp};
use crate::wave::filter::{FreqRecord, HertzInt, Nsec, Ticks};
use crate::wave::player::frequencies::{handed, Peeker};

verus! {

/// What a channel is doing.
#[derive(Clone, Copy)]
pub enum State {
    /// Sounding a frequency, for so many ticks more.
    Freq(BeeperFrequency, Ticks),
    /// Silent, for so many ticks more.
    Mute(Ticks),
    /// Done.
    TheEnd,
}

pub struct Channel {
    state: State,
    channel_number: usize,
}

/// The ticks that nanoseconds take at a rate of `ticks_per_usec` ticks in
/// a microsecond, rounded down; no more than a counter can hold.
pub open spec fn ticks_of(nanoseconds: int, ticks_per_usec: int) -> int {
    let ticks = nanoseconds * ticks_per_usec / 1000;
    if ticks > u64::MAX {
        u64::MAX as int
    } else {
        ticks
    }
}

/// What a channel does while it plays a record: it sounds the record's
/// frequency, clamped to what the timer can produce, or is silent if the
/// frequency is zero.
pub open spec fn state_of(freq: HertzInt, duration: int, ticks_per_usec: int) -> State {
    if freq > 0 {
        State::Freq(
            BeeperFrequency::clamped(freq as int),
            ticks_of(duration, ticks_per_usec) as u64,
        )
    } else {
        State::Mute(ticks_of(duration, ticks_per_usec) as u64)
    }
}

/// What a channel turns to when it has used up its record and `overflow`
/// more ticks, and how many of the records taken from the source it uses.
///
/// Records no longer than what is left of the overflow are passed over,
/// each taking its length off the overflow. The first longer record is
/// played, shortened by what is left of the overflow. If the records give
/// out, the channel is done. The overflow, counted in ticks, is taken off
/// the record's nanoseconds as it is.
pub open spec fn refill(taken: Seq<FreqRecord<HertzInt>>, overflow: int, ticks_per_usec: int) -> (
    State,
    int,
)
    decreases taken.len(),
{
    if taken.len() == 0 {
        (State::TheEnd, 0)
    } else if taken[0].duration <= overflow {
        let rest = refill(taken.drop_first(), overflow - taken[0].duration, ticks_per_usec);
        (rest.0, rest.1 + 1)
    } else {
        (state_of(taken[0].freq, taken[0].duration - overflow, ticks_per_usec), 1)
    }
}

/// What a channel does after `ticks` more ticks, given the records taken
/// from the source in that time, and how many of them it uses.
pub open spec fn spent(
    state: State,
    taken: Seq<FreqRecord<HertzInt>>,
    ticks: int,
    ticks_per_usec: int,
) -> (State, int) {
    match state {
        State::TheEnd => (State::TheEnd, 0),
        State::Freq(freq, remaining) => if remaining > ticks {
            (State::Freq(freq, (remaining - ticks) as u64), 0)
        } else {
            refill(taken, ticks - remaining, ticks_per_usec)
        },
        State::Mute(remaining) => if remaining > ticks {
            (State::Mute((remaining - ticks) as u64), 0)
        } else {
            refill(taken, ticks - remaining, ticks_per_usec)
        },
    }
}

/// Has a channel gone from one state to another by spending `ticks` ticks,
/// taking from its source the first `taken` of the records pending and all
/// of them used?
pub open spec fn has_spent(
    before: State,
    pending: Seq<FreqRecord<HertzInt>>,
    taken: int,
    ticks: int,
    ticks_per_usec: int,
    after: State,
) -> bool {
    &&& 0 <= taken <= pending.len()
    &&& spent(before, pending.take(taken), ticks, ticks_per_usec) == (after, taken)
}

/// Does a channel use up its record within `ticks` ticks, so that it has
/// to ask its source for the next?
pub open spec fn runs_out(state: State, ticks: int) -> bool {
    match state {
        State::TheEnd => false,
        State::Freq(_, remaining) => remaining <= ticks,
        State::Mute(remaining) => remaining <= ticks,
    }
}

/// The answers a channel gets from its source while it goes from one
/// state to another by spending `ticks` ticks: the records it takes and,
/// if it runs out and ends up done, the answer that nothing is left.
pub open spec fn answers_spent(
    before: State,
    taken: Seq<FreqRecord<HertzInt>>,
    ticks: int,
    after: State,
) -> Seq<Option<FreqRecord<HertzInt>>> {
    if runs_out(before, ticks) && after is TheEnd {
        handed(taken).push(None)
    } else {
        handed(taken)
    }
}

/// The ticks that nanoseconds take.
pub fn ticks_for(nanoseconds: Nsec, ticks_per_usec: u64) -> (r: Ticks)
    ensures
        r == ticks_of(nanoseconds as int, ticks_per_usec as int),
{
    assert(nanoseconds * ticks_per_usec <= u64::MAX * u64::MAX) by (nonlinear_arith)
        requires
            nanoseconds <= u64::MAX,
            ticks_per_usec <= u64::MAX,
    ;
    let ticks: u128 = nanoseconds as u128 * ticks_per_usec as u128 / 1000;
    if ticks > u64::MAX as u128 {
        u64::MAX
    } else {
        ticks as u64
    }
}

/// What a channel does while it plays a record.
pub fn state_for(freq: HertzInt, duration: Nsec, ticks_per_usec: u64) -> (r: State)
    ensures
        r == state_of(freq, duration as int, ticks_per_usec as int),
{
    if freq > 0 {
        State::Freq(BeeperFrequency::new_clamped(freq), ticks_for(duration, ticks_per_usec))
    } else {
        State::Mute(ticks_for(duration, ticks_per_usec))
    }
}

impl Channel {
    /// What the channel is doing.
    pub closed spec fn spec_state(&self) -> State {
        self.state
    }

    /// The number under which the source knows the channel.
    pub closed spec fn number(&self) -> int {
        self.channel_number as int
    }

    pub fn new(channel_number: usize, state: State) -> (r: Self)
        ensures
            r.spec_state() == state,
            r.number() == channel_number,
    {
        Self { state, channel_number }
    }

    pub fn channel_number(&self) -> (r: usize)
        ensures
            r == self.number(),
    {
        self.channel_number
    }

    pub fn state(&self) -> (r: &State)
        ensures
            *r == self.spec_state(),
    {
        &self.state
    }

    /// Lets `ticks` ticks pass on the channel, taking from the source the
    /// records that follow the one it plays as they are needed.
    pub fn spend<P: Peeker>(&mut self, peeker: &mut P, ticks: Ticks, ticks_per_usec: u64) -> (r:
        State)
        ensures
            r == final(self).spec_state(),
            final(self).number() == old(self).number(),
            final(peeker).channels() == old(peeker).channels(),
            forall|other: int|
                other != old(self).number() ==> final(peeker).pending(other) == old(
                    peeker,
                ).pending(other),
            forall|other: int|
                other != old(self).number() ==> final(peeker).answered(other) == old(
                    peeker,
                ).answered(other),
            ({
                let pending = old(peeker).pending(old(self).number());
                let taken = pending.len() - final(peeker).pending(old(self).number()).len();
                &&& final(peeker).pending(old(self).number()) == pending.skip(taken)
                &&& has_spent(
                    old(self).spec_state(),
                    pending,
                    taken,
                    ticks as int,
                    ticks_per_usec as int,
                    final(self).spec_state(),
                )
                &&& final(peeker).answered(old(self).number()) == old(peeker).answered(
                    old(self).number(),
                ) + answers_spent(
                    old(self).spec_state(),
                    pending.take(taken),
                    ticks as int,
                    final(self).spec_state(),
                )
            }),
    {
        let ghost all = peeker.pending(self.channel_number as int);
        let ghost heard = peeker.answered(self.channel_number as int);
        proof {
            assert(all.take(0) =~= Seq::<FreqRecord<HertzInt>>::empty());
            assert(heard + handed(all.take(0)) =~= heard);
        }
        let remaining = match self.state {
            State::Freq(_, remaining) => remaining,
            State::Mute(remaining) => remaining,
            State::TheEnd => {
                proof {
                    assert(all.skip(0) =~= all);
                    assert(has_spent(
                        self.spec_state(),
                        all,
                        0,
                        ticks as int,
                        ticks_per_usec as int,
                        self.spec_state(),
                    ));
                }
                return self.state;
            },
        };
        if remaining > ticks {
            self.state = match self.state {
                State::Freq(freq, _) => State::Freq(freq, remaining - ticks),
                _ => State::Mute(remaining - ticks),
            };
            proof {
                assert(all.skip(0) =~= all);
                assert(has_spent(
                    old(self).spec_state(),
                    all,
                    0,
                    ticks as int,
                    ticks_per_usec as int,
                    self.spec_state(),
                ));
            }
            return self.state;
        }
        let first_overflow = ticks - remaining;
        let mut overflow = first_overflow;
        let ghost mut done: int = 0;
        proof {
            assert(all.skip(0) =~= all);
            assert(all.take(0) =~= Seq::<FreqRecord<HertzInt>>::empty());
        }
        proof {
            assert forall|tail: Seq<FreqRecord<HertzInt>>|
                #![trigger refill(all.take(0) + tail, first_overflow as int, ticks_per_usec as int)]
                refill(all.take(0) + tail, first_overflow as int, ticks_per_usec as int) == (
                    refill(tail, first_overflow as int, ticks_per_usec as int).0,
                    refill(tail, first_overflow as int, ticks_per_usec as int).1 + 0,
                ) by {
                assert(all.take(0) + tail =~= tail);
            }
        }
        loop
            invariant
                self.channel_number == old(self).channel_number,
                all == old(peeker).pending(old(self).number()),
                forall|some: Seq<FreqRecord<HertzInt>>|
                    #![trigger spent(old(self).spec_state(), some, ticks as int, ticks_per_usec as int)]
                    spent(old(self).spec_state(), some, ticks as int, ticks_per_usec as int)
                        == refill(some, first_overflow as int, ticks_per_usec as int),
                0 <= done <= all.len(),
                peeker.pending(old(self).number()) == all.skip(done),
                peeker.channels() == old(peeker).channels(),
                forall|other: int|
                    other != old(self).number() ==> peeker.pending(other) == old(peeker).pending(
                        other,
                    ),
                heard == old(peeker).answered(old(self).number()),
                runs_out(old(self).spec_state(), ticks as int),
                peeker.answered(old(self).number()) == heard + handed(all.take(done)),
                forall|other: int|
                    other != old(self).number() ==> peeker.answered(other) == old(
                        peeker,
                    ).answered(other),
                forall|tail: Seq<FreqRecord<HertzInt>>|
                    #![trigger refill(all.take(done) + tail, first_overflow as int, ticks_per_usec as int)]
                    refill(all.take(done) + tail, first_overflow as int, ticks_per_usec as int)
                        == (
                        refill(tail, overflow as int, ticks_per_usec as int).0,
                        refill(tail, overflow as int, ticks_per_usec as int).1 + done,
                    ),
            decreases peeker.pending(old(self).number()).len(),
        {
            let next_sample = match peeker.peek(self.channel_number) {
                Some(sample) => sample,
                None => {
                    self.state = State::TheEnd;
                    proof {
                        let none = Seq::<FreqRecord<HertzInt>>::empty();
                        assert(all.take(done) + none =~= all.take(done));
                        assert(refill(
                            all.take(done) + none,
                            first_overflow as int,
                            ticks_per_usec as int,
                        ) == (State::TheEnd, done));
                        assert(peeker.answered(old(self).number()) =~= heard + handed(
                            all.take(done),
                        ).push(None));
                        assert(has_spent(
                            old(self).spec_state(),
                            all,
                            done,
                            ticks as int,
                            ticks_per_usec as int,
                            self.spec_state(),
                        ));
                    }
                    return self.state;
                },
            };
            proof {
                assert(next_sample == all[done]);
                assert(all.skip(done).drop_first() =~= all.skip(done + 1));
                assert(all.take(done + 1).drop_last() =~= all.take(done));
                assert(peeker.answered(old(self).number()) =~= heard + handed(
                    all.take(done + 1),
                ));
            }
            if next_sample.duration <= overflow {
                proof {
                    let before = overflow as int;
                    assert forall|tail: Seq<FreqRecord<HertzInt>>|
                        #![trigger refill(all.take(done + 1) + tail, first_overflow as int, ticks_per_usec as int)]
                        refill(
                            all.take(done + 1) + tail,
                            first_overflow as int,
                            ticks_per_usec as int,
                        ) == (
                            refill(
                                tail,
                                before - next_sample.duration,
                                ticks_per_usec as int,
                            ).0,
                            refill(tail, before - next_sample.duration, ticks_per_usec as int).1
                                + done + 1,
                        ) by {
                        let longer = seq![next_sample] + tail;
                        assert(all.take(done + 1) + tail =~= all.take(done) + longer);
                        assert(longer.drop_first() =~= tail);
                        assert(longer[0] == next_sample);
                    }
                }
                overflow -= next_sample.duration;
                proof {
                    done = done + 1;
                }
                continue ;
            }
            self.state = state_for(
                next_sample.freq,
                next_sample.duration - overflow,
                ticks_per_usec,
            );
            proof {
                let one = seq![next_sample];
                assert(all.take(done + 1) =~= all.take(done) + one);
                assert(one.drop_first() =~= Seq::<FreqRecord<HertzInt>>::empty());
                assert(one[0] == next_sample);
                assert(refill(one, overflow as int, ticks_per_usec as int) == (
                    self.spec_state(),
                    1int,
                ));
                assert(refill(
                    all.take(done) + one,
                    first_overflow as int,
                    ticks_per_usec as int,
                ) == (self.spec_state(), done + 1));
                assert(has_spent(
                    old(self).spec_state(),
                    all,
                    done + 1,
                    ticks as int,
                    ticks_per_usec as int,
                    self.spec_state(),
                ));
            }
            return self.state;
        }
    }
}

/// The first of the channels from `from` up to `to` that sounds.
pub open spec fn first_sound(states: Seq<State>, from: int, to: int) -> Option<int>
    decreases to - from,
{
    if from >= to {
        None
    } else if states[from] is Freq {
        Some(from)
    } else {
        first_sound(states, from + 1, to)
    }
}

/// Does any channel sound?
pub open spec fn any_sound(states: Seq<State>) -> bool {
    first_sound(states, 0, states.len() as int) is Some
}

/// The first of the channels from `from` up to `to` that is not done.
pub open spec fn first_unfinished(states: Seq<State>, from: int, to: int) -> Option<int>
    decreases to - from,
{
    if from >= to {
        None
    } else if !(states[from] is TheEnd) {
        Some(from)
    } else {
        first_unfinished(states, from + 1, to)
    }
}

/// Has any channel something left to play?
pub open spec fn any_unfinished(states: Seq<State>) -> bool {
    first_unfinished(states, 0, states.len() as int) is Some
}

/// The channel whose turn is next: the first sounding one after `index`,
/// going round to the start and up to `index` itself.
pub open spec fn next_voice(states: Seq<State>, index: int) -> int {
    match first_sound(states, index + 1, states.len() as int) {
        Some(voice) => voice,
        None => match first_sound(states, 0, index + 1) {
            Some(voice) => voice,
            None => index,
        },
    }
}

/// What the scheduler holds.
pub ghost struct SchedulerView {
    /// What each channel is doing.
    pub states: Seq<State>,
    /// The numbers under which the source knows the channels.
    pub numbers: Seq<int>,
    /// Is the speaker silenced?
    pub is_mute: bool,
    /// The count of the last reading.
    pub last_tick: u64,
    /// The count at which the speaker was last tuned to another channel.
    pub last_switch: u64,
    /// The channel the speaker is tuned to.
    pub index: int,
    /// The ticks between two turns.
    pub switch_ticks: u64,
    /// The ticks in a microsecond.
    pub ticks_per_usec: u64,
}

/// What a reading of the counter leads to.
pub ghost struct Turn {
    /// Is anything left to play?
    pub running: bool,
    /// Is the speaker silenced afterwards?
    pub is_mute: bool,
    /// What is sent to the speaker.
    pub ops: Seq<SpeakerOp>,
    /// The channel the speaker is tuned to afterwards.
    pub index: int,
    /// The count at which it was last tuned.
    pub last_switch: u64,
}

/// The divisor of a sounding channel.
pub open spec fn voice_divisor(state: State) -> u16 {
    match state {
        State::Freq(freq, _) => divisor_of(freq.hz()) as u16,
        _ => 0,
    }
}

/// What the scheduler does at the count `now`, once every channel has
/// spent the ticks since the last reading and is in the given state.
///
/// If all channels are done, nothing is left to play. Otherwise the
/// speaker is silenced if no channel sounds and it is not silent yet, and
/// set to play if one does and it is silent. If a channel sounds and the
/// time between two turns has passed since the last one, the speaker is
/// tuned to the next sounding channel.
pub open spec fn turn(before: SchedulerView, states: Seq<State>, now: u64) -> Turn {
    if !any_unfinished(states) {
        Turn {
            running: false,
            is_mute: before.is_mute,
            ops: Seq::empty(),
            index: before.index,
            last_switch: before.last_switch,
        }
    } else {
        let sound = any_sound(states);
        let toggled = sound == before.is_mute;
        let is_mute = if toggled {
            !before.is_mute
        } else {
            before.is_mute
        };
        let toggle: Seq<SpeakerOp> = if !toggled {
            Seq::empty()
        } else if before.is_mute {
            seq![SpeakerOp::Play]
        } else {
            seq![SpeakerOp::Mute]
        };
        if !sound || now - before.last_switch < before.switch_ticks {
            Turn {
                running: true,
                is_mute,
                ops: toggle,
                index: before.index,
                last_switch: before.last_switch,
            }
        } else {
            let voice = next_voice(states, before.index);
            Turn {
                running: true,
                is_mute,
                ops: toggle.push(SpeakerOp::SetDivisor(voice_divisor(states[voice]))),
                index: voice,
                last_switch: now,
            }
        }
    }
}

/// What the scheduler holds after a reading of the counter at which the
/// channels were in the given states.
pub open spec fn after_turn(before: SchedulerView, states: Seq<State>, now: u64) -> SchedulerView {
    SchedulerView {
        states,
        numbers: before.numbers,
        is_mute: turn(before, states, now).is_mute,
        last_tick: now,
        last_switch: turn(before, states, now).last_switch,
        index: turn(before, states, now).index,
        switch_ticks: before.switch_ticks,
        ticks_per_usec: before.ticks_per_usec,
    }
}

/// What `first_sound` finds sounds, lies in the range, and nothing before
/// it in the range sounds.
pub proof fn lemma_first_sound(states: Seq<State>, from: int, to: int)
    requires
        0 <= from,
        to <= states.len(),
    ensures
        match first_sound(states, from, to) {
            Some(voice) => from <= voice < to && states[voice] is Freq,
            None => forall|i: int| from <= i < to ==> !(#[trigger] states[i] is Freq),
        },
    decreases to - from,
{
    if from < to && !(states[from] is Freq) {
        lemma_first_sound(states, from + 1, to);
    }
}

/// The numbers of the channels of a list.
pub open spec fn states_numbers(channels: Seq<Channel>) -> Seq<int> {
    Seq::new(channels.len(), |i: int| channels[i].number())
}

/// What the channels of a list are doing.
pub open spec fn states_of(channels: Seq<Channel>) -> Seq<State> {
    Seq::new(channels.len(), |i: int| channels[i].spec_state())
}

/// Finds the first of the channels from `from` up to `to` that sounds.
fn find_sound(channels: &Vec<Channel>, from: usize, to: usize) -> (r: Option<usize>)
    requires
        to <= channels@.len(),
    ensures
        match r {
            Some(voice) => first_sound(states_of(channels@), from as int, to as int) == Some(
                voice as int,
            ) && from <= voice < to,
            None => first_sound(states_of(channels@), from as int, to as int) is None,
        },
{
    let mut i: usize = from;
    while i < to
        invariant
            to <= channels@.len(),
            from <= i,
            first_sound(states_of(channels@), from as int, to as int) == first_sound(
                states_of(channels@),
                i as int,
                to as int,
            ),
        decreases to - i,
    {
        match channels[i].state {
            State::Freq(_, _) => {
                return Some(i);
            },
            _ => {},
        }
        i += 1;
    }
    None
}

/// Finds the first of the channels that is not done.
fn find_unfinished(channels: &Vec<Channel>) -> (r: bool)
    ensures
        r == any_unfinished(states_of(channels@)),
{
    let mut i: usize = 0;
    while i < channels.len()
        invariant
            0 <= i <= channels@.len(),
            first_unfinished(states_of(channels@), 0, channels@.len() as int) == first_unfinished(
                states_of(channels@),
                i as int,
                channels@.len() as int,
            ),
        decreases channels@.len() - i,
    {
        match channels[i].state {
            State::TheEnd => {},
            _ => {
                return true;
            },
        }
        i += 1;
    }
    false
}

/// The round-robin of several frequency channels on one speaker.
pub struct Scheduler {
    channels: Vec<Channel>,
    is_mute: bool,
    previous_tick_count: Ticks,
    channel_switch_timestamp: Ticks,
    channel_index: usize,
    ticks_per_switch_interval: Ticks,
    ticks_per_usec: u64,
}

impl View for Scheduler {
    type V = SchedulerView;

    closed spec fn view(&self) -> SchedulerView {
        SchedulerView {
            states: Seq::new(self.channels@.len(), |i: int| self.channels@[i].spec_state()),
            numbers: Seq::new(self.channels@.len(), |i: int| self.channels@[i].number()),
            is_mute: self.is_mute,
            last_tick: self.previous_tick_count,
            last_switch: self.channel_switch_timestamp,
            index: self.channel_index as int,
            switch_ticks: self.ticks_per_switch_interval,
            ticks_per_usec: self.ticks_per_usec,
        }
    }
}

/// Is the scheduler's state sound: do no two channels share a number, was
/// the last turn not after the last reading, and is the current channel
/// one of the channels, if there are any?
pub open spec fn sound_view(view: SchedulerView) -> bool {
    &&& view.states.len() == view.numbers.len()
    &&& forall|i: int, j: int|
        0 <= i < j < view.numbers.len() ==> view.numbers[i] < view.numbers[j]
    &&& forall|i: int| 0 <= i < view.numbers.len() ==> 0 <= #[trigger] view.numbers[i]
    &&& view.last_switch <= view.last_tick
    &&& 0 <= view.index
    &&& view.states.len() > 0 ==> view.index < view.states.len()
}

/// Is no channel known to the source under the given number?
pub open spec fn unlisted(numbers: Seq<int>, number: int) -> bool {
    forall|i: int| 0 <= i < numbers.len() ==> #[trigger] numbers[i] != number
}

/// The answer to the first request for a record of a channel that was or
/// was not opened.
pub open spec fn first_answer(pending: Seq<FreqRecord<HertzInt>>, opened: bool) -> Option<
    FreqRecord<HertzInt>,
> {
    if opened {
        Some(pending[0])
    } else {
        None
    }
}

impl Scheduler {
    /// Asks the source once for a record of each of its channels, in their
    /// order, opens every channel that hands one out, prepares the speaker
    /// and sets it to play.
    pub fn start<E: SoundEmitter, P: Peeker>(
        emitter: &mut E,
        peeker: &mut P,
        ticks_per_usec: u64,
        switch_interval: Nsec,
        now: Ticks,
    ) -> (r: Scheduler)
        ensures
            final(emitter).ops() == old(emitter).ops() + seq![SpeakerOp::Prepare, SpeakerOp::Play],
            final(peeker).channels() == old(peeker).channels(),
            sound_view(r@),
            !r@.is_mute,
            r@.last_tick == now,
            r@.last_switch == now,
            r@.index == 0,
            r@.switch_ticks == ticks_of(switch_interval as int, ticks_per_usec as int),
            r@.ticks_per_usec == ticks_per_usec,
            forall|i: int|
                0 <= i < r@.numbers.len() ==> {
                    let number = #[trigger] r@.numbers[i];
                    let pending = old(peeker).pending(number);
                    &&& number < old(peeker).channels()
                    &&& pending.len() > 0
                    &&& final(peeker).pending(number) == pending.drop_first()
                    &&& r@.states[i] == state_of(
                        pending[0].freq,
                        pending[0].duration as int,
                        ticks_per_usec as int,
                    )
                },
            forall|number: int|
                unlisted(r@.numbers, number) ==> final(peeker).pending(number) == old(
                    peeker,
                ).pending(number),
            forall|number: int|
                0 <= number < old(peeker).channels() ==> #[trigger] final(peeker).answered(number)
                    == old(peeker).answered(number).push(
                    first_answer(old(peeker).pending(number), !unlisted(r@.numbers, number)),
                ),
            forall|number: int|
                number < 0 || number >= old(peeker).channels() ==> #[trigger] final(peeker).answered(
                    number,
                ) == old(peeker).answered(number),
    {
        let ticks_per_switch_interval = ticks_for(switch_interval, ticks_per_usec);
        let mut channels: Vec<Channel> = Vec::new();
        let count = peeker.channel_count();
        let mut channel_number: usize = 0;
        while channel_number < count
            invariant
                0 <= channel_number <= count,
                count == old(peeker).channels(),
                peeker.channels() == old(peeker).channels(),
                forall|i: int|
                    0 <= i < channels@.len() ==> {
                        let number = #[trigger] channels@[i].number();
                        let pending = old(peeker).pending(number);
                        &&& 0 <= number < channel_number
                        &&& pending.len() > 0
                        &&& peeker.pending(number) == pending.drop_first()
                        &&& channels@[i].spec_state() == state_of(
                            pending[0].freq,
                            pending[0].duration as int,
                            ticks_per_usec as int,
                        )
                    },
                forall|i: int, j: int|
                    0 <= i < j < channels@.len() ==> channels@[i].number() < channels@[j].number(),
                forall|number: int|
                    (forall|i: int|
                        0 <= i < channels@.len() ==> #[trigger] channels@[i].number() != number)
                        ==> peeker.pending(number) == old(peeker).pending(number),
                forall|number: int|
                    0 <= number < channel_number ==> #[trigger] peeker.answered(number) == old(
                        peeker,
                    ).answered(number).push(
                        first_answer(
                            old(peeker).pending(number),
                            !unlisted(states_numbers(channels@), number),
                        ),
                    ),
                forall|number: int|
                    number < 0 || number >= channel_number ==> #[trigger] peeker.answered(number)
                        == old(peeker).answered(number),
            decreases count - channel_number,
        {
            let ghost before = channels@;
            let ghost source = *peeker;
            assert(peeker.pending(channel_number as int) == old(peeker).pending(
                channel_number as int,
            ));
            let answer = peeker.peek(channel_number);
            proof {
                assert(unlisted(states_numbers(before), channel_number as int));
                assert forall|number: int| 0 <= number < channel_number implies #[trigger] peeker.answered(
                    number,
                ) == source.answered(number) by {}
            }
            match answer {
                Some(sample) => {
                    channels.push(
                        Channel {
                            state: state_for(sample.freq, sample.duration, ticks_per_usec),
                            channel_number,
                        },
                    );
                    proof {
                        assert forall|number: int|
                            (forall|i: int|
                                0 <= i < channels@.len() ==> #[trigger] channels@[i].number()
                                    != number) implies peeker.pending(number) == old(
                            peeker,
                        ).pending(number) by {
                            assert(channels@[before.len() as int].number() != number);
                            assert forall|i: int| 0 <= i < before.len() implies #[trigger] before[i].number()
                                != number by {
                                assert(channels@[i].number() != number);
                            }
                        }
                        let listed = states_numbers(channels@);
                        assert(listed[before.len() as int] == channel_number);
                        assert(!unlisted(listed, channel_number as int));
                        assert forall|number: int| 0 <= number < channel_number implies unlisted(
                            listed,
                            number,
                        ) == unlisted(states_numbers(before), number) by {
                            if unlisted(listed, number) {
                                assert forall|i: int| 0 <= i < before.len() implies #[trigger] states_numbers(
                                    before,
                                )[i] != number by {
                                    assert(listed[i] != number);
                                }
                            } else {
                                let i = choose|i: int| 0 <= i < listed.len() && listed[i] == number;
                                assert(i < before.len());
                                assert(states_numbers(before)[i] == number);
                            }
                        }
                    }
                },
                None => {},
            }
            channel_number += 1;
        }
        let _ready = emitter.prepare();
        emitter.play();
        let r = Scheduler {
            channels,
            is_mute: false,
            previous_tick_count: now,
            channel_switch_timestamp: now,
            channel_index: 0,
            ticks_per_switch_interval,
            ticks_per_usec,
        };
        proof {
            assert(emitter.ops() =~= old(emitter).ops() + seq![
                SpeakerOp::Prepare,
                SpeakerOp::Play,
            ]);
            assert forall|number: int| unlisted(r@.numbers, number) implies peeker.pending(number)
                == old(peeker).pending(number) by {
                assert forall|i: int| 0 <= i < r.channels@.len() implies #[trigger] r.channels@[i].number()
                    != number by {
                    assert(r@.numbers[i] != number);
                }
            }
        }
        r
    }

    /// Takes in a reading of the counter: lets the ticks since the last
    /// reading pass on every channel, then sends the speaker what the
    /// moment asks for. Says whether anything is left to play.
    pub fn step<E: SoundEmitter, P: Peeker>(
        &mut self,
        emitter: &mut E,
        peeker: &mut P,
        now: Ticks,
    ) -> (running: bool)
        requires
            sound_view(old(self)@),
            now >= old(self)@.last_tick,
        ensures
            sound_view(final(self)@),
            final(self)@.numbers == old(self)@.numbers,
            final(self)@.states.len() == old(self)@.states.len(),
            final(self)@.last_tick == now,
            final(self)@.switch_ticks == old(self)@.switch_ticks,
            final(self)@.ticks_per_usec == old(self)@.ticks_per_usec,
            final(peeker).channels() == old(peeker).channels(),
            forall|i: int|
                0 <= i < old(self)@.numbers.len() ==> {
                    let number = #[trigger] old(self)@.numbers[i];
                    let pending = old(peeker).pending(number);
                    let taken = pending.len() - final(peeker).pending(number).len();
                    &&& final(peeker).pending(number) == pending.skip(taken)
                    &&& has_spent(
                        old(self)@.states[i],
                        pending,
                        taken,
                        now - old(self)@.last_tick,
                        old(self)@.ticks_per_usec as int,
                        final(self)@.states[i],
                    )
                    &&& final(peeker).answered(number) == old(peeker).answered(number)
                        + answers_spent(
                        old(self)@.states[i],
                        pending.take(taken),
                        now - old(self)@.last_tick,
                        final(self)@.states[i],
                    )
                },
            forall|number: int|
                unlisted(old(self)@.numbers, number) ==> final(peeker).pending(number) == old(
                    peeker,
                ).pending(number),
            forall|number: int|
                unlisted(old(self)@.numbers, number) ==> final(peeker).answered(number) == old(
                    peeker,
                ).answered(number),
            final(self)@ == after_turn(old(self)@, final(self)@.states, now),
            running == turn(old(self)@, final(self)@.states, now).running,
            final(self)@.is_mute == turn(old(self)@, final(self)@.states, now).is_mute,
            final(self)@.index == turn(old(self)@, final(self)@.states, now).index,
            final(self)@.last_switch == turn(old(self)@, final(self)@.states, now).last_switch,
            final(emitter).ops() == old(emitter).ops() + turn(
                old(self)@,
                final(self)@.states,
                now,
            ).ops,
    {
        let ghost before = self@;
        let elapsed = now - self.previous_tick_count;
        self.previous_tick_count = now;
        let count = self.channels.len();
        let rate = self.ticks_per_usec;
        let mut i: usize = 0;
        while i < count
            invariant
                0 <= i <= count,
                count == self.channels@.len(),
                before == old(self)@,
                sound_view(before),
                rate == before.ticks_per_usec,
                elapsed == now - before.last_tick,
                self@.numbers == before.numbers,
                self@.states.len() == before.states.len(),
                self.is_mute == before.is_mute,
                self.channel_index == before.index,
                self.channel_switch_timestamp == before.last_switch,
                self.ticks_per_switch_interval == before.switch_ticks,
                self.ticks_per_usec == before.ticks_per_usec,
                self.previous_tick_count == now,
                peeker.channels() == old(peeker).channels(),
                forall|k: int|
                    0 <= k < i ==> {
                        let number = #[trigger] before.numbers[k];
                        let pending = old(peeker).pending(number);
                        let taken = pending.len() - peeker.pending(number).len();
                        &&& peeker.pending(number) == pending.skip(taken)
                        &&& has_spent(
                            before.states[k],
                            pending,
                            taken,
                            elapsed as int,
                            rate as int,
                            self@.states[k],
                        )
                        &&& peeker.answered(number) == old(peeker).answered(number)
                            + answers_spent(
                            before.states[k],
                            pending.take(taken),
                            elapsed as int,
                            self@.states[k],
                        )
                    },
                forall|k: int| i <= k < count ==> #[trigger] self@.states[k] == before.states[k],
                forall|k: int|
                    i <= k < count ==> peeker.pending(#[trigger] before.numbers[k]) == old(
                        peeker,
                    ).pending(before.numbers[k]) && peeker.answered(before.numbers[k]) == old(
                        peeker,
                    ).answered(before.numbers[k]),
                forall|number: int|
                    unlisted(before.numbers, number) ==> peeker.pending(number) == old(
                        peeker,
                    ).pending(number),
                forall|number: int|
                    unlisted(before.numbers, number) ==> peeker.answered(number) == old(
                        peeker,
                    ).answered(number),
            decreases count - i,
        {
            let ghost source = *peeker;
            let ghost states = self@.states;
            let ghost list = self.channels@;
            proof {
                assert(list[i as int].number() == before.numbers[i as int]) by {
                    assert(self@.numbers[i as int] == before.numbers[i as int]);
                }
                assert(list[i as int].spec_state() == before.states[i as int]) by {
                    assert(states[i as int] == before.states[i as int]);
                }
            }
            let mut channel = self.channels.remove(i);
            let _state = channel.spend(peeker, elapsed, rate);
            let ghost after = channel.spec_state();
            self.channels.insert(i, channel);
            proof {
                assert(self.channels@ =~= list.update(i as int, channel));
                assert(self@.numbers =~= before.numbers) by {
                    assert forall|k: int| 0 <= k < count implies self@.numbers[k]
                        == before.numbers[k] by {
                        if k != i {
                            assert(self.channels@[k] == list[k]);
                            assert(list[k].number() == states_numbers(list)[k]);
                        }
                    }
                }
                assert(self@.states =~= states.update(i as int, after));
                assert forall|k: int| 0 <= k < i + 1 implies {
                    let number = #[trigger] before.numbers[k];
                    let pending = old(peeker).pending(number);
                    let taken = pending.len() - peeker.pending(number).len();
                    &&& peeker.pending(number) == pending.skip(taken)
                    &&& has_spent(
                        before.states[k],
                        pending,
                        taken,
                        elapsed as int,
                        rate as int,
                        self@.states[k],
                    )
                    &&& peeker.answered(number) == old(peeker).answered(number) + answers_spent(
                        before.states[k],
                        pending.take(taken),
                        elapsed as int,
                        self@.states[k],
                    )
                } by {
                    if k < i {
                        assert(before.numbers[k] != before.numbers[i as int]);
                        assert(source.pending(before.numbers[k]) == peeker.pending(
                            before.numbers[k],
                        ));
                        assert(source.answered(before.numbers[k]) == peeker.answered(
                            before.numbers[k],
                        ));
                    }
                }
                assert forall|k: int| i + 1 <= k < count implies #[trigger] self@.states[k]
                    == before.states[k] by {
                    assert(self.channels@[k] == list[k]);
                    assert(states[k] == before.states[k]);
                }
                assert forall|k: int| i + 1 <= k < count implies peeker.pending(
                    #[trigger] before.numbers[k],
                ) == old(peeker).pending(before.numbers[k]) && peeker.answered(before.numbers[k])
                    == old(peeker).answered(before.numbers[k]) by {
                    assert(before.numbers[i as int] != before.numbers[k]);
                    assert(source.pending(before.numbers[k]) == old(peeker).pending(
                        before.numbers[k],
                    ));
                    assert(source.answered(before.numbers[k]) == old(peeker).answered(
                        before.numbers[k],
                    ));
                }
                assert forall|number: int| unlisted(before.numbers, number) implies peeker.pending(
                    number,
                ) == old(peeker).pending(number) && peeker.answered(number) == old(
                    peeker,
                ).answered(number) by {
                    assert(before.numbers[i as int] != number);
                }
            }
            i += 1;
        }
        proof {
            assert(states_of(self.channels@) =~= self@.states);
        }
        let ghost decided = turn(before, self@.states, now);
        if !find_unfinished(&self.channels) {
            proof {
                assert(emitter.ops() + decided.ops =~= emitter.ops());
            }
            return false;
        }
        let has_sound = find_sound(&self.channels, 0, count).is_some();
        if has_sound == self.is_mute {
            if self.is_mute {
                emitter.play();
                self.is_mute = false;
            } else {
                emitter.mute();
                self.is_mute = true;
            }
        }
        if !has_sound || now - self.channel_switch_timestamp < self.ticks_per_switch_interval {
            proof {
                assert(emitter.ops() =~= old(emitter).ops() + decided.ops);
            }
            return true;
        }
        proof {
            lemma_first_sound(self@.states, 0, count as int);
            lemma_first_sound(self@.states, before.index + 1, count as int);
            lemma_first_sound(self@.states, 0, before.index + 1);
        }
        let voice = match find_sound(&self.channels, self.channel_index + 1, count) {
            Some(voice) => voice,
            None => match find_sound(&self.channels, 0, self.channel_index + 1) {
                Some(voice) => voice,
                None => self.channel_index,
            },
        };
        match self.channels[voice].state {
            State::Freq(freq, _) => {
                emitter.set_frequency(freq);
            },
            _ => {
                proof {
                    let found = first_sound(self@.states, 0, count as int)->0;
                    assert(self@.states[found] is Freq);
                    assert(false);
                }
            },
        }
        self.channel_index = voice;
        self.channel_switch_timestamp = now;
        proof {
            assert(emitter.ops() =~= old(emitter).ops() + decided.ops);
        }
        true
    }

    /// The count of the last reading.
    pub fn last_tick(&self) -> (r: Ticks)
        ensures
            r == self@.last_tick,
    {
        self.previous_tick_count
    }

    /// Is the speaker silenced?
    pub fn is_mute(&self) -> (r: bool)
        ensures
            r == self@.is_mute,
    {
        self.is_mute
    }

    /// The number of channels that were opened.
    pub fn channel_count(&self) -> (r: usize)
        ensures
            r == self@.states.len(),
    {
        self.channels.len()
    }

    /// What the channel at a place among those opened is doing.
    pub fn channel_state(&self, at: usize) -> (r: State)
        requires
            at < self@.states.len(),
        ensures
            r == self@.states[at as int],
    {
        self.channels[at].state
    }

    /// Silences the speaker when everything is played.
    pub fn finish<E: SoundEmitter>(self, emitter: &mut E)
        ensures
            final(emitter).ops() == old(emitter).ops().push(SpeakerOp::Mute),
    {
        emitter.mute();
    }
}

} // verus!
