//! What holds of the scheduler over a whole run.
//!
//! A run is a course of readings of the counter. At each reading the
//! channels have spent the ticks since the reading before, and the
//! scheduler takes one turn. Whatever the channels are doing at the
//! readings, the speaker is never tuned twice within the time between two
//! turns, and two channels that both sound are tuned to in alternation. A
//! channel only ever sounds a frequency of one of its records.

use vstd::prelude::*;
use crate::beeper::sound_emitter::{BeeperFrequency, SpeakerOp};
use crate::wave::filter::{FreqRecord, HertzInt};
use crate::wave::player::frequencies::multichannel::{
    after_turn, any_sound, any_unfinished, first_sound, next_voice, refill, spent, turn,
    voice_divisor, SchedulerView, State, Turn,
};

verus! {

/// One reading of the counter: the count, and what the channels are doing
/// once they have spent the ticks since the reading before.
pub ghost struct Reading {
    pub now: u64,
    pub states: Seq<State>,
}

/// How often a list of requests tunes the speaker.
pub open spec fn tunings(ops: Seq<SpeakerOp>) -> nat
    decreases ops.len(),
{
    if ops.len() == 0 {
        0
    } else if ops.last() is SetDivisor {
        tunings(ops.drop_last()) + 1
    } else {
        tunings(ops.drop_last())
    }
}

/// What the scheduler holds after a course of readings.
pub open spec fn after_course(start: SchedulerView, course: Seq<Reading>) -> SchedulerView
    decreases course.len(),
{
    if course.len() == 0 {
        start
    } else {
        after_turn(after_course(start, course.drop_last()), course.last().states, course.last().now)
    }
}

/// The turn taken at the reading of number `k` of a course.
pub open spec fn turn_at(start: SchedulerView, course: Seq<Reading>, k: int) -> Turn {
    turn(after_course(start, course.take(k)), course[k].states, course[k].now)
}

/// Is the speaker tuned at the reading of number `k` of a course?
pub open spec fn tunes_at(start: SchedulerView, course: Seq<Reading>, k: int) -> bool {
    tunings(turn_at(start, course, k).ops) > 0
}

/// How often the speaker is tuned over a course.
pub open spec fn tunings_in(start: SchedulerView, course: Seq<Reading>) -> nat
    decreases course.len(),
{
    if course.len() == 0 {
        0
    } else {
        tunings_in(start, course.drop_last()) + tunings(
            turn(after_course(start, course.drop_last()), course.last().states, course.last().now).ops,
        )
    }
}

/// Do two channels both sound?
pub open spec fn two_voices(states: Seq<State>) -> bool {
    states.len() == 2 && states[0] is Freq && states[1] is Freq
}

/// Is the frequency that of one of the records, clamped to what the timer
/// can produce?
pub open spec fn is_tone_of(freq: BeeperFrequency, records: Seq<FreqRecord<HertzInt>>) -> bool {
    exists|k: int|
        0 <= k < records.len() && (#[trigger] records[k]).freq > 0 && freq
            == BeeperFrequency::clamped(records[k].freq as int)
}

/// A channel that turns to a record sounds the frequency of one of the
/// records it took.
pub proof fn lemma_refill_sounds_a_record(
    taken: Seq<FreqRecord<HertzInt>>,
    overflow: int,
    ticks_per_usec: int,
)
    ensures
        refill(taken, overflow, ticks_per_usec).0 matches State::Freq(freq, _) ==> is_tone_of(
            freq,
            taken,
        ),
    decreases taken.len(),
{
    if taken.len() > 0 {
        if taken[0].duration <= overflow {
            let rest = taken.drop_first();
            lemma_refill_sounds_a_record(rest, overflow - taken[0].duration, ticks_per_usec);
            match refill(taken, overflow, ticks_per_usec).0 {
                State::Freq(freq, _) => {
                    let k = choose|k: int|
                        0 <= k < rest.len() && (#[trigger] rest[k]).freq > 0 && freq
                            == BeeperFrequency::clamped(rest[k].freq as int);
                    assert(taken[k + 1] == rest[k]);
                },
                _ => {},
            }
        } else {
            match refill(taken, overflow, ticks_per_usec).0 {
                State::Freq(freq, _) => {
                    assert(taken[0].freq > 0);
                },
                _ => {},
            }
        }
    }
}

/// A channel only ever sounds the frequency it sounded before or that of
/// one of the records it took since.
pub proof fn lemma_spent_sounds_a_record(
    state: State,
    taken: Seq<FreqRecord<HertzInt>>,
    ticks: int,
    ticks_per_usec: int,
)
    ensures
        spent(state, taken, ticks, ticks_per_usec).0 matches State::Freq(freq, _) ==> (
        state matches State::Freq(before, _) && freq == before) || is_tone_of(freq, taken),
{
    match state {
        State::TheEnd => {},
        State::Freq(_, remaining) => {
            if remaining <= ticks {
                lemma_refill_sounds_a_record(taken, ticks - remaining, ticks_per_usec);
            }
        },
        State::Mute(remaining) => {
            if remaining <= ticks {
                lemma_refill_sounds_a_record(taken, ticks - remaining, ticks_per_usec);
            }
        },
    }
}

/// What `first_sound` finds lies in the range it was sought in.
proof fn lemma_first_sound_range(states: Seq<State>, from: int, to: int)
    ensures
        first_sound(states, from, to) matches Some(voice) ==> from <= voice < to,
    decreases to - from,
{
    if from < to && !(states[from] is Freq) {
        lemma_first_sound_range(states, from + 1, to);
    }
}

/// A turn tunes the speaker at most once, and only if a channel sounds and
/// at least the time between two turns has passed since it was last tuned.
/// The speaker is then tuned to the next sounding channel by the last
/// request of the turn, and the reading is kept as the time it was last
/// tuned. A turn that does not tune the speaker leaves the channel it is
/// tuned to and the time it was last tuned as they were.
pub proof fn lemma_turn_tunes_once(before: SchedulerView, states: Seq<State>, now: u64)
    ensures
        tunings(turn(before, states, now).ops) <= 1,
        tunings(turn(before, states, now).ops) == 1 <==> any_unfinished(states) && any_sound(
            states,
        ) && now - before.last_switch >= before.switch_ticks,
        tunings(turn(before, states, now).ops) == 1 ==> {
            let taken = turn(before, states, now);
            &&& taken.last_switch == now
            &&& taken.index == next_voice(states, before.index)
            &&& taken.ops.len() > 0
            &&& taken.ops.last() == SpeakerOp::SetDivisor(voice_divisor(states[taken.index]))
        },
        tunings(turn(before, states, now).ops) == 0 ==> {
            let taken = turn(before, states, now);
            &&& taken.last_switch == before.last_switch
            &&& taken.index == before.index
        },
        turn(before, states, now).running == any_unfinished(states),
        before.index >= 0 ==> turn(before, states, now).index >= 0,
{
    let taken = turn(before, states, now);
    let none = Seq::<SpeakerOp>::empty();
    let play = seq![SpeakerOp::Play];
    let mute = seq![SpeakerOp::Mute];
    assert(tunings(none) == 0);
    assert(tunings(play) == 0) by {
        assert(play.drop_last() =~= none);
    }
    assert(tunings(mute) == 0) by {
        assert(mute.drop_last() =~= none);
    }
    if any_unfinished(states) {
        let sound = any_sound(states);
        let toggled = sound == before.is_mute;
        let toggle: Seq<SpeakerOp> = if !toggled {
            none
        } else if before.is_mute {
            play
        } else {
            mute
        };
        assert(tunings(toggle) == 0);
        if sound && now - before.last_switch >= before.switch_ticks {
            let voice = next_voice(states, before.index);
            let tune = SpeakerOp::SetDivisor(voice_divisor(states[voice]));
            assert(taken.ops == toggle.push(tune));
            assert(toggle.push(tune).drop_last() =~= toggle);
            lemma_first_sound_range(states, before.index + 1, states.len() as int);
            lemma_first_sound_range(states, 0, before.index + 1);
        } else {
            assert(taken.ops == toggle);
        }
    } else {
        assert(taken.ops == none);
    }
}

/// Where two channels both sound, the next to be tuned to is the other
/// one.
pub proof fn lemma_two_voices_take_turns(states: Seq<State>, index: int)
    requires
        two_voices(states),
        0 <= index,
    ensures
        next_voice(states, index) == if index == 0 {
            1int
        } else {
            0int
        },
{
    if index == 0 {
        assert(first_sound(states, 1, 2) == Some(1int)) by {
            reveal_with_fuel(first_sound, 2);
        }
    } else {
        assert(first_sound(states, index + 1, 2) is None);
        assert(first_sound(states, 0, index + 1) == Some(0int));
    }
}

/// Over a course the time between two turns stays what it was, the
/// channel tuned to stays one that can be counted, and the time the
/// speaker was last tuned never goes back: it is the time at the start or
/// one of the readings.
pub proof fn lemma_course_keeps(start: SchedulerView, course: Seq<Reading>)
    ensures
        after_course(start, course).switch_ticks == start.switch_ticks,
        after_course(start, course).last_switch >= start.last_switch,
        start.index >= 0 ==> after_course(start, course).index >= 0,
        after_course(start, course).last_switch == start.last_switch || exists|k: int|
            0 <= k < course.len() && after_course(start, course).last_switch == (
            #[trigger] course[k]).now,
    decreases course.len(),
{
    if course.len() > 0 {
        let shorter = course.drop_last();
        let before = after_course(start, shorter);
        lemma_course_keeps(start, shorter);
        lemma_turn_tunes_once(before, course.last().states, course.last().now);
        let after = after_course(start, course);
        if after.last_switch != start.last_switch {
            if after.last_switch == before.last_switch {
                let k = choose|k: int|
                    0 <= k < shorter.len() && before.last_switch == (#[trigger] shorter[k]).now;
                assert(course[k] == shorter[k]);
            } else {
                assert(after.last_switch == course[course.len() - 1].now);
            }
        }
    }
}

/// The time the speaker was last tuned never goes back from one reading
/// of a course to a later one.
pub proof fn lemma_last_switch_grows(start: SchedulerView, course: Seq<Reading>, a: int, b: int)
    requires
        0 <= a <= b <= course.len(),
    ensures
        after_course(start, course.take(a)).last_switch <= after_course(
            start,
            course.take(b),
        ).last_switch,
    decreases b - a,
{
    if a < b {
        lemma_last_switch_grows(start, course, a, b - 1);
        assert(course.take(b).drop_last() =~= course.take(b - 1));
        let before = after_course(start, course.take(b - 1));
        lemma_turn_tunes_once(before, course[b - 1].states, course[b - 1].now);
    }
}

/// Between two readings of a course at which the speaker is tuned lies at
/// least the time between two turns.
pub proof fn lemma_tunings_lie_apart(start: SchedulerView, course: Seq<Reading>, i: int, j: int)
    requires
        0 <= i < j < course.len(),
        tunes_at(start, course, i),
        tunes_at(start, course, j),
    ensures
        course[j].now - course[i].now >= start.switch_ticks,
{
    let at_i = after_course(start, course.take(i));
    let at_j = after_course(start, course.take(j));
    lemma_turn_tunes_once(at_i, course[i].states, course[i].now);
    lemma_turn_tunes_once(at_j, course[j].states, course[j].now);
    lemma_course_keeps(start, course.take(j));
    assert(course.take(i + 1).drop_last() =~= course.take(i));
    assert(after_course(start, course.take(i + 1)).last_switch == course[i].now);
    lemma_last_switch_grows(start, course, i + 1, j);
}

/// The speaker is tuned over a course no more often than the time between
/// two turns fits into the time from when it was last tuned at the start
/// to when it was last tuned at the end.
pub proof fn lemma_tunings_bounded(start: SchedulerView, course: Seq<Reading>)
    ensures
        tunings_in(start, course) * start.switch_ticks <= after_course(start, course).last_switch
            - start.last_switch,
    decreases course.len(),
{
    if course.len() > 0 {
        let shorter = course.drop_last();
        let before = after_course(start, shorter);
        lemma_tunings_bounded(start, shorter);
        lemma_course_keeps(start, shorter);
        lemma_turn_tunes_once(before, course.last().states, course.last().now);
        let earlier = tunings_in(start, shorter) as int;
        let step = start.switch_ticks as int;
        assert((earlier + 1) * step == earlier * step + step) by (nonlinear_arith);
    } else {
        assert(0 * start.switch_ticks == 0);
    }
}

/// The channel the speaker is tuned to stays the same over readings at
/// which it is not tuned.
pub proof fn lemma_index_rests(start: SchedulerView, course: Seq<Reading>, a: int, b: int)
    requires
        0 <= a <= b <= course.len(),
        forall|k: int| a <= k < b ==> !#[trigger] tunes_at(start, course, k),
    ensures
        after_course(start, course.take(b)).index == after_course(start, course.take(a)).index,
    decreases b - a,
{
    if a < b {
        lemma_index_rests(start, course, a, b - 1);
        assert(course.take(b).drop_last() =~= course.take(b - 1));
        let before = after_course(start, course.take(b - 1));
        assert(!tunes_at(start, course, b - 1));
        lemma_turn_tunes_once(before, course[b - 1].states, course[b - 1].now);
    }
}

/// Two channels that both sound are tuned to in alternation: of two
/// readings at which the speaker is tuned, with none between them at
/// which it is, the later tunes it to the other channel than the earlier.
pub proof fn lemma_tunings_alternate(start: SchedulerView, course: Seq<Reading>, i: int, j: int)
    requires
        start.index >= 0,
        0 <= i < j < course.len(),
        tunes_at(start, course, i),
        tunes_at(start, course, j),
        forall|k: int| i < k < j ==> !#[trigger] tunes_at(start, course, k),
        two_voices(course[i].states),
        two_voices(course[j].states),
    ensures
        0 <= turn_at(start, course, i).index <= 1,
        turn_at(start, course, j).index == 1 - turn_at(start, course, i).index,
        turn_at(start, course, i).ops.last() == SpeakerOp::SetDivisor(
            voice_divisor(course[i].states[turn_at(start, course, i).index]),
        ),
        turn_at(start, course, j).ops.last() == SpeakerOp::SetDivisor(
            voice_divisor(course[j].states[1 - turn_at(start, course, i).index]),
        ),
{
    let at_i = after_course(start, course.take(i));
    let at_j = after_course(start, course.take(j));
    lemma_course_keeps(start, course.take(i));
    lemma_turn_tunes_once(at_i, course[i].states, course[i].now);
    lemma_two_voices_take_turns(course[i].states, at_i.index);
    assert(course.take(i + 1).drop_last() =~= course.take(i));
    assert(after_course(start, course.take(i + 1)).index == turn_at(start, course, i).index);
    lemma_index_rests(start, course, i + 1, j);
    lemma_turn_tunes_once(at_j, course[j].states, course[j].now);
    lemma_two_voices_take_turns(course[j].states, at_j.index);
}

} // verus!
