//! The channels of a score and the frequencies they are played as.

use vstd::prelude::*;
use crate::note::frequency::{semitone_freq, MilliHertz};
use crate::synth::note_record::{styled_msec, unstyled_msec, NoteRecord, NoteStyle};
use crate::wave::filter::{Data, FreqChannel, FreqData, FreqRecord};

verus! {

pub type Channel = Vec<NoteRecord>;

/// The voices of a score, each a list of note records, and its tempo.
pub struct Channels {
    channels: Vec<Channel>,
    bpm: u16,
}

/// What a score holds.
pub ghost struct ChannelsView {
    pub channels: Seq<Seq<NoteRecord>>,
    pub bpm: u16,
}

impl View for Channels {
    type V = ChannelsView;

    closed spec fn view(&self) -> ChannelsView {
        ChannelsView {
            channels: Seq::new(self.channels@.len(), |i: int| self.channels@[i]@),
            bpm: self.bpm,
        }
    }
}

/// What one note record is played as: its tone for the time its style
/// holds it and, unless it is legato, silence for what is left of its
/// time; a rest is silence for all of its time, whatever its style.
pub open spec fn record_freqs(record: NoteRecord, bpm: int) -> Seq<FreqRecord<MilliHertz>> {
    let full = unstyled_msec(bpm, record.divisor) * 1_000_000;
    let held = styled_msec(bpm, record.divisor, record.style) * 1_000_000;
    match record.note {
        Some(note) => {
            let tone = FreqRecord {
                freq: semitone_freq(note.semitone_index()) as u64,
                duration: held as u64,
            };
            if record.style != NoteStyle::Legato && full > held {
                seq![tone, FreqRecord { freq: 0u64, duration: (full - held) as u64 }]
            } else {
                seq![tone]
            }
        },
        None => seq![FreqRecord { freq: 0u64, duration: full as u64 }],
    }
}

/// What a channel is played as: its records one after the other.
pub open spec fn channel_freqs(channel: Seq<NoteRecord>, bpm: int) -> Seq<FreqRecord<MilliHertz>>
    decreases channel.len(),
{
    if channel.len() == 0 {
        Seq::empty()
    } else {
        channel_freqs(channel.drop_last(), bpm) + record_freqs(channel.last(), bpm)
    }
}

/// Can the score be played: is its tempo not zero, and has every note a
/// semitone number that fits a byte?
pub open spec fn playable(score: ChannelsView) -> bool {
    &&& score.bpm > 0
    &&& forall|i: int, j: int|
        0 <= i < score.channels.len() && 0 <= j < score.channels[i].len() ==> (
        #[trigger] score.channels[i][j]).in_range()
}

impl Channels {
    pub fn new(bpm: u16) -> (r: Channels)
        ensures
            r@.bpm == bpm,
            r@.channels == Seq::<Seq<NoteRecord>>::empty(),
    {
        let r = Channels { channels: Vec::new(), bpm };
        assert(r@.channels =~= Seq::<Seq<NoteRecord>>::empty());
        r
    }

    pub fn push(&mut self, channel: Channel)
        ensures
            final(self)@.bpm == old(self)@.bpm,
            final(self)@.channels == old(self)@.channels.push(channel@),
    {
        self.channels.push(channel);
        assert(self@.channels =~= old(self)@.channels.push(channel@));
    }

    pub fn bpm(&self) -> (r: u16)
        ensures
            r == self@.bpm,
    {
        self.bpm
    }

    pub fn channels(&self) -> (r: &Vec<Channel>)
        ensures
            r@.len() == self@.channels.len(),
            forall|i: int| 0 <= i < r@.len() ==> (#[trigger] r@[i])@ == self@.channels[i],
    {
        &self.channels
    }

    /// Can the score be played?
    pub fn is_playable(&self) -> (r: bool)
        ensures
            r == playable(self@),
    {
        if self.bpm == 0 {
            return false;
        }
        let mut i: usize = 0;
        while i < self.channels.len()
            invariant
                0 <= i <= self.channels@.len(),
                forall|a: int, b: int|
                    0 <= a < i && 0 <= b < self@.channels[a].len() ==> (
                    #[trigger] self@.channels[a][b]).in_range(),
            decreases self.channels@.len() - i,
        {
            let channel = &self.channels[i];
            let mut j: usize = 0;
            while j < channel.len()
                invariant
                    0 <= i < self.channels@.len(),
                    channel@ == self@.channels[i as int],
                    0 <= j <= channel@.len(),
                    forall|b: int| 0 <= b < j ==> (#[trigger] channel@[b]).in_range(),
                decreases channel@.len() - j,
            {
                if !channel[j].is_in_range() {
                    assert(!self@.channels[i as int][j as int].in_range());
                    return false;
                }
                j += 1;
            }
            i += 1;
        }
        true
    }

    /// What one record is played as, appended to `out`.
    fn push_record(out: &mut FreqChannel<MilliHertz>, record: &NoteRecord, bpm: u16)
        requires
            bpm > 0,
            record.in_range(),
        ensures
            final(out)@ == old(out)@ + record_freqs(*record, bpm as int),
    {
        let full = record.duration_nsec_unstyled(bpm);
        match record.freq() {
            Some(freq) => {
                let held = record.duration_nsec(bpm);
                out.push(FreqRecord { freq, duration: held });
                let legato = match record.style() {
                    NoteStyle::Legato => true,
                    _ => false,
                };
                if !legato && full > held {
                    out.push(FreqRecord { freq: 0, duration: full - held });
                }
            },
            None => {
                out.push(FreqRecord { freq: 0, duration: full });
            },
        }
        proof {
            assert(final(out)@ =~= old(out)@ + record_freqs(*record, bpm as int));
        }
    }

    /// The frequencies the score is played as, channel by channel.
    pub fn to_freq_data(&self) -> (r: FreqData<MilliHertz>)
        requires
            playable(self@),
        ensures
            r@.len() == self@.channels.len(),
            forall|i: int|
                0 <= i < r@.len() ==> (#[trigger] r@[i])@ == channel_freqs(
                    self@.channels[i],
                    self@.bpm as int,
                ),
    {
        let mut data: FreqData<MilliHertz> = Vec::new();
        let mut i: usize = 0;
        while i < self.channels.len()
            invariant
                playable(self@),
                0 <= i <= self.channels@.len(),
                data@.len() == i,
                forall|a: int|
                    0 <= a < i ==> (#[trigger] data@[a])@ == channel_freqs(
                        self@.channels[a],
                        self@.bpm as int,
                    ),
            decreases self.channels@.len() - i,
        {
            let channel = &self.channels[i];
            let mut freqs: FreqChannel<MilliHertz> = Vec::new();
            let mut j: usize = 0;
            proof {
                assert(channel@.take(0) =~= Seq::<NoteRecord>::empty());
            }
            while j < channel.len()
                invariant
                    playable(self@),
                    0 <= i < self.channels@.len(),
                    channel@ == self@.channels[i as int],
                    0 <= j <= channel@.len(),
                    freqs@ == channel_freqs(channel@.take(j as int), self@.bpm as int),
                decreases channel@.len() - j,
            {
                proof {
                    assert(self@.channels[i as int][j as int].in_range());
                    assert(channel@.take(j + 1).drop_last() =~= channel@.take(j as int));
                }
                Self::push_record(&mut freqs, &channel[j], self.bpm);
                j += 1;
            }
            proof {
                assert(channel@.take(j as int) =~= channel@);
            }
            data.push(freqs);
            i += 1;
        }
        data
    }

    /// The score as data for the filter chain, if it can be played.
    pub fn into_data(self) -> (r: Option<Data>)
        ensures
            r is Some <==> playable(self@),
            r matches Some(data) ==> data matches Data::Frequency(freqs) && freqs@.len()
                == self@.channels.len() && forall|i: int|
                0 <= i < freqs@.len() ==> (#[trigger] freqs@[i])@ == channel_freqs(
                    self@.channels[i],
                    self@.bpm as int,
                ),
    {
        if self.is_playable() {
            Some(Data::Frequency(self.to_freq_data()))
        } else {
            None
        }
    }
}

} // verus!
