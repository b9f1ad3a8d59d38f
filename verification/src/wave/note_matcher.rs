//! The note matcher: every frequency moves to that of the nearest note.

use vstd::prelude::*;
use crate::note::frequency::{
    lemma_nearest_of_semitone_freq, lemma_nearest_semitone, lemma_semitone_freq,
    nearest_semitone, semitone_freq, MilliHertz,
};
use crate::note::Note;
use crate::wave::filter::{Data, Filter, FreqChannel, FreqData, FreqRecord, Type};

verus! {

pub struct NoteMatcher;

/// The frequency of the note nearest to a frequency.
pub open spec fn matched_freq(freq: int) -> int {
    semitone_freq(nearest_semitone(freq))
}

/// A record with its frequency moved to the nearest note.
pub open spec fn matched_record(record: FreqRecord<MilliHertz>) -> FreqRecord<MilliHertz> {
    FreqRecord { freq: matched_freq(record.freq as int) as u64, duration: record.duration }
}

/// A channel with every frequency moved to the nearest note.
pub open spec fn matched_channel(channel: Seq<FreqRecord<MilliHertz>>) -> Seq<
    FreqRecord<MilliHertz>,
> {
    Seq::new(channel.len(), |i: int| matched_record(channel[i]))
}

/// A matched frequency is the frequency of a note, and matching it again
/// leaves it where it is.
pub proof fn lemma_matched_freq(freq: int)
    ensures
        16_351 <= matched_freq(freq) <= 40_780_036_010,
        matched_freq(matched_freq(freq)) == matched_freq(freq),
{
    lemma_nearest_semitone(freq, 0);
    let semitone = nearest_semitone(freq);
    lemma_semitone_freq(semitone);
    lemma_nearest_of_semitone_freq(semitone);
}

/// Matching a channel that was matched changes nothing.
pub proof fn lemma_matched_channel_idempotent(channel: Seq<FreqRecord<MilliHertz>>)
    ensures
        matched_channel(matched_channel(channel)) == matched_channel(channel),
{
    let once = matched_channel(channel);
    assert forall|i: int| 0 <= i < once.len() implies matched_record(once[i]) == once[i] by {
        lemma_matched_freq(channel[i].freq as int);
    }
    assert(matched_channel(once) =~= once);
}

impl NoteMatcher {
    /// Moves every frequency of a channel to the nearest note.
    pub fn match_channel(channel: &FreqChannel<MilliHertz>) -> (r: FreqChannel<MilliHertz>)
        ensures
            r@ == matched_channel(channel@),
    {
        let mut out: FreqChannel<MilliHertz> = Vec::new();
        let mut i: usize = 0;
        while i < channel.len()
            invariant
                0 <= i <= channel@.len(),
                out@ == matched_channel(channel@.take(i as int)),
            decreases channel@.len() - i,
        {
            let record = channel[i];
            let note = Note::find_nearest(record.freq);
            proof {
                lemma_nearest_semitone(record.freq as int, 0);
                crate::note::lemma_note_of_semitone(nearest_semitone(record.freq as int));
                lemma_semitone_freq(nearest_semitone(record.freq as int));
            }
            out.push(FreqRecord { freq: note.freq(), duration: record.duration });
            i += 1;
            proof {
                assert(out@ =~= matched_channel(channel@.take(i as int)));
            }
        }
        proof {
            assert(channel@.take(i as int) =~= channel@);
        }
        out
    }

    /// Moves every frequency of every channel to the nearest note.
    pub fn match_all(channels: &FreqData<MilliHertz>) -> (r: FreqData<MilliHertz>)
        ensures
            r@.len() == channels@.len(),
            forall|i: int|
                0 <= i < r@.len() ==> (#[trigger] r@[i])@ == matched_channel(channels@[i]@),
    {
        let mut out: FreqData<MilliHertz> = Vec::new();
        let mut i: usize = 0;
        while i < channels.len()
            invariant
                0 <= i <= channels@.len(),
                out@.len() == i,
                forall|k: int|
                    0 <= k < i ==> (#[trigger] out@[k])@ == matched_channel(channels@[k]@),
            decreases channels@.len() - i,
        {
            out.push(Self::match_channel(&channels[i]));
            i += 1;
        }
        out
    }
}

impl Filter for NoteMatcher {
    open spec fn input_type(&self) -> Type {
        Type::Frequency
    }

    fn filter_type(&self) -> (r: Type) {
        Type::Frequency
    }

    /// Matches frequencies channel by channel; anything else is refused.
    fn filter(&self, data: Data) -> (r: Option<Data>)
        ensures
            match data {
                Data::Frequency(channels) => r matches Some(Data::Frequency(matched))
                    && matched@.len() == channels@.len() && forall|i: int|
                    0 <= i < matched@.len() ==> (#[trigger] matched@[i])@ == matched_channel(
                        channels@[i]@,
                    ),
                _ => r is None,
            },
    {
        match data {
            Data::Frequency(channels) => Some(Data::Frequency(Self::match_all(&channels))),
            _ => None,
        }
    }
}

} // verus!
