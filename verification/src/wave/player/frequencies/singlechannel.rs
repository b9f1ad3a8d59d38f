//! Playing one channel of frequencies.

use vstd::prelude::*;
use crate::beeper::sound_emitter::{divisor_of, BeeperFrequency, SoundEmitter, SpeakerOp};
use crate::nano_sleep::NanoWaiter;
use crate::wave::filter::{FreqRecord, HertzInt};
use crate::wave::player::frequencies::{handed, Peeker};

verus! {

/// Is the speaker silent after the records were played, if it was or was
/// not before? It is after silence, and is not after a tone.
pub open spec fn muted_after(records: Seq<FreqRecord<HertzInt>>, muted: bool) -> bool {
    if records.len() == 0 {
        muted
    } else {
        records.last().freq == 0
    }
}

/// The requests that playing the records makes: for a tone its divisor,
/// followed by a request to play if the speaker was silent; for silence a
/// request to be silent, unless the speaker is so already.
pub open spec fn tones(records: Seq<FreqRecord<HertzInt>>, muted: bool) -> Seq<SpeakerOp>
    decreases records.len(),
{
    if records.len() == 0 {
        Seq::empty()
    } else {
        let before = records.drop_last();
        let was_muted = muted_after(before, muted);
        let record = records.last();
        if record.freq != 0 {
            let tuned = tones(before, muted).push(
                SpeakerOp::SetDivisor(divisor_of(record.freq as int) as u16),
            );
            if was_muted {
                tuned.push(SpeakerOp::Play)
            } else {
                tuned
            }
        } else if !was_muted {
            tones(before, muted).push(SpeakerOp::Mute)
        } else {
            tones(before, muted)
        }
    }
}

/// The times that playing the records waits for.
pub open spec fn waits(records: Seq<FreqRecord<HertzInt>>) -> Seq<u64> {
    Seq::new(records.len(), |i: int| records[i].duration)
}

/// Plays the records of channel 0 until the source hands out no more: the
/// speaker is prepared and set to play, the source is asked until it first
/// answers with nothing, the records it handed out before are played, and
/// the speaker is silenced.
pub fn play<E: SoundEmitter, W: NanoWaiter, P: Peeker>(
    emitter: &mut E,
    waiter: &mut W,
    peeker: &mut P,
)
    ensures
        ({
            let all = old(peeker).pending(0);
            let played = all.len() - final(peeker).pending(0).len();
            &&& 0 <= played <= all.len()
            &&& final(peeker).pending(0) == all.skip(played)
            &&& final(peeker).answered(0) == (old(peeker).answered(0) + handed(
                all.take(played),
            )).push(None)
            &&& final(emitter).ops() == old(emitter).ops() + seq![
                SpeakerOp::Prepare,
                SpeakerOp::Play,
            ] + tones(all.take(played), false) + seq![SpeakerOp::Mute]
            &&& final(waiter).slept() == old(waiter).slept() + waits(all.take(played))
        }),
        final(peeker).channels() == old(peeker).channels(),
        forall|other: int| other != 0 ==> final(peeker).pending(other) == old(peeker).pending(other),
        forall|other: int|
            other != 0 ==> final(peeker).answered(other) == old(peeker).answered(other),
        final(waiter).ticks_per_usec() == old(waiter).ticks_per_usec(),
{
    let ghost all = peeker.pending(0);
    let ghost start = emitter.ops() + seq![SpeakerOp::Prepare, SpeakerOp::Play];
    let ghost mut done: int = 0;
    let _ready = emitter.prepare();
    emitter.play();
    let mut is_mute = false;
    proof {
        assert(emitter.ops() =~= start);
        assert(all.skip(0) =~= all);
        assert(all.take(0) =~= Seq::<FreqRecord<HertzInt>>::empty());
        assert(start + Seq::<SpeakerOp>::empty() =~= start);
        assert(waits(all.take(0)) =~= Seq::<u64>::empty());
        assert(waiter.slept() + Seq::<u64>::empty() =~= waiter.slept());
        assert(peeker.answered(0) + handed(all.take(0)) =~= peeker.answered(0));
    }
    loop
        invariant_except_break
            peeker.answered(0) == old(peeker).answered(0) + handed(all.take(done)),
        invariant
            0 <= done <= all.len(),
            all == old(peeker).pending(0),
            start == old(emitter).ops() + seq![SpeakerOp::Prepare, SpeakerOp::Play],
            peeker.pending(0) == all.skip(done),
            peeker.channels() == old(peeker).channels(),
            forall|other: int| other != 0 ==> peeker.pending(other) == old(peeker).pending(other),
            forall|other: int| other != 0 ==> peeker.answered(other) == old(peeker).answered(other),
            emitter.ops() == start + tones(all.take(done), false),
            is_mute == muted_after(all.take(done), false),
            waiter.slept() == old(waiter).slept() + waits(all.take(done)),
            waiter.ticks_per_usec() == old(waiter).ticks_per_usec(),
        ensures
            peeker.answered(0) == (old(peeker).answered(0) + handed(all.take(done))).push(None),
        decreases peeker.pending(0).len(),
    {
        let sample = match peeker.peek(0) {
            Some(sample) => sample,
            None => {
                break ;
            },
        };
        proof {
            assert(sample == all[done]);
            assert(all.skip(done).drop_first() =~= all.skip(done + 1));
            assert(all.take(done + 1).drop_last() =~= all.take(done));
            assert(peeker.answered(0) =~= old(peeker).answered(0) + handed(all.take(done + 1)));
        }
        if sample.freq != 0 {
            let beeper_freq = BeeperFrequency::new_clamped(sample.freq);
            proof {
                crate::beeper::sound_emitter::lemma_divisor_clamped(sample.freq as int);
            }
            emitter.set_frequency(beeper_freq);
            if is_mute {
                emitter.play();
                is_mute = false;
            }
        } else if !is_mute {
            emitter.mute();
            is_mute = true;
        }
        proof {
            assert(emitter.ops() =~= start + tones(all.take(done + 1), false));
        }
        waiter.nano_sleep(sample.duration);
        proof {
            assert(waits(all.take(done + 1)) =~= waits(all.take(done)).push(sample.duration));
            assert(waiter.slept() =~= old(waiter).slept() + waits(all.take(done + 1)));
            done = done + 1;
        }
    }
    emitter.mute();
    proof {
        assert(emitter.ops() =~= old(emitter).ops() + seq![SpeakerOp::Prepare, SpeakerOp::Play]
            + tones(all.take(done), false) + seq![SpeakerOp::Mute]);
    }
}

} // verus!
