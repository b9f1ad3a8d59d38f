//! Playing frequency channels.
//!
//! One channel is played record by record. Several channels share the one
//! speaker by taking turns.

pub mod course;
pub mod multichannel;
pub mod singlechannel;

use vstd::prelude::*;
use crate::note::frequency::MilliHertz;
use crate::wave::filter::{FreqRecord, HertzInt};
use crate::wave::player::StopFlag;

verus! {

/// A source of frequency records that hands them out channel by channel,
/// each channel's one by one.
pub trait Peeker {
    /// The number of channels. An implementation that is not verified
    /// leaves this unsaid.
    open spec fn channels(&self) -> nat {
        arbitrary()
    }

    /// The records of a channel not handed out yet. An implementation
    /// that is not verified leaves this unsaid.
    open spec fn pending(&self, channel: int) -> Seq<FreqRecord<HertzInt>> {
        arbitrary()
    }

    /// Every answer given so far to a request for a record of a channel,
    /// oldest first. An implementation that is not verified leaves this
    /// unsaid.
    open spec fn answered(&self, channel: int) -> Seq<Option<FreqRecord<HertzInt>>> {
        arbitrary()
    }

    /// Hands out the next record of a channel. A source may stop before
    /// the channel has run dry; it then keeps what it has.
    fn peek(&mut self, channel_number: usize) -> (r: Option<FreqRecord<HertzInt>>)
        ensures
            final(self).channels() == old(self).channels(),
            final(self).answered(channel_number as int) == old(self).answered(
                channel_number as int,
            ).push(r),
            forall|other: int|
                other != channel_number ==> final(self).answered(other) == old(self).answered(
                    other,
                ),
            forall|other: int|
                other != channel_number ==> final(self).pending(other) == old(self).pending(other),
            match r {
                Some(record) => old(self).pending(channel_number as int).len() > 0 && record
                    == old(self).pending(channel_number as int)[0] && final(self).pending(
                    channel_number as int,
                ) == old(self).pending(channel_number as int).drop_first(),
                None => final(self).pending(channel_number as int) == old(self).pending(
                    channel_number as int,
                ),
            },
    ;

    fn channel_count(&self) -> (r: usize)
        ensures
            r == self.channels(),
    ;
}

/// The whole hertz of a frequency in millihertz, rounded down; no more
/// than 32 bits hold.
pub open spec fn whole_hertz(freq: MilliHertz) -> HertzInt {
    if freq / 1000 > 0xFFFF_FFFF {
        0xFFFF_FFFFu32
    } else {
        (freq / 1000) as u32
    }
}

/// A record as it is handed to a player: its frequency in whole hertz.
pub open spec fn in_hertz(record: FreqRecord<MilliHertz>) -> FreqRecord<HertzInt> {
    FreqRecord { freq: whole_hertz(record.freq), duration: record.duration }
}

/// The records of a channel as they are handed to a player.
pub open spec fn channel_in_hertz(channel: Seq<FreqRecord<MilliHertz>>) -> Seq<
    FreqRecord<HertzInt>,
> {
    Seq::new(channel.len(), |i: int| in_hertz(channel[i]))
}

/// The answers by which a source hands out the records.
pub open spec fn handed(records: Seq<FreqRecord<HertzInt>>) -> Seq<Option<FreqRecord<HertzInt>>> {
    Seq::new(records.len(), |i: int| Some(records[i]))
}

/// A channel and how far it has been handed out.
pub struct Queue {
    records: Vec<FreqRecord<MilliHertz>>,
    next: usize,
}

impl Queue {
    /// The records not handed out yet.
    pub closed spec fn left(&self) -> Seq<FreqRecord<HertzInt>> {
        if self.next <= self.records@.len() {
            channel_in_hertz(self.records@.skip(self.next as int))
        } else {
            Seq::empty()
        }
    }
}

/// The source that hands out the records of frequency channels one by one
/// until they have run out or a flag asks to stop.
pub struct FrequencyPeeker<S: StopFlag> {
    channels: Vec<Queue>,
    stop: S,
    answers: Ghost<Map<int, Seq<Option<FreqRecord<HertzInt>>>>>,
    flags: Ghost<Seq<bool>>,
}

impl<S: StopFlag> FrequencyPeeker<S> {
    /// What the flag said each time it was asked, oldest first.
    pub closed spec fn stops(&self) -> Seq<bool> {
        self.flags@
    }

    pub fn new(stop: S) -> (r: Self)
        ensures
            r.channels() == 0,
            forall|channel: int|
                #[trigger] r.answered(channel) == Seq::<Option<FreqRecord<HertzInt>>>::empty(),
            r.stops() == Seq::<bool>::empty(),
    {
        FrequencyPeeker {
            channels: Vec::new(),
            stop,
            answers: Ghost(Map::empty()),
            flags: Ghost(Seq::empty()),
        }
    }

    /// Adds a channel behind those that are there.
    pub fn add(&mut self, channel: Vec<FreqRecord<MilliHertz>>)
        ensures
            final(self).channels() == old(self).channels() + 1,
            final(self).pending(old(self).channels() as int) == channel_in_hertz(channel@),
            forall|other: int|
                0 <= other < old(self).channels() ==> final(self).pending(other) == old(
                    self,
                ).pending(other),
            forall|any: int| final(self).answered(any) == old(self).answered(any),
            final(self).stops() == old(self).stops(),
    {
        proof {
            assert(channel@.skip(0) =~= channel@);
        }
        self.channels.push(Queue { records: channel, next: 0 });
    }
}

impl<S: StopFlag> Peeker for FrequencyPeeker<S> {
    closed spec fn channels(&self) -> nat {
        self.channels@.len()
    }

    closed spec fn pending(&self, channel: int) -> Seq<FreqRecord<HertzInt>> {
        if 0 <= channel < self.channels@.len() {
            self.channels@[channel].left()
        } else {
            Seq::empty()
        }
    }

    closed spec fn answered(&self, channel: int) -> Seq<Option<FreqRecord<HertzInt>>> {
        if self.answers@.dom().contains(channel) {
            self.answers@[channel]
        } else {
            Seq::empty()
        }
    }

    /// Asks the flag, and hands out nothing if it asks to stop or the
    /// channel's records have run out.
    fn peek(&mut self, channel_number: usize) -> (r: Option<FreqRecord<HertzInt>>)
        ensures
            final(self).stops().len() == old(self).stops().len() + 1,
            final(self).stops().drop_last() == old(self).stops(),
            r is None <==> final(self).stops().last() || old(self).pending(
                channel_number as int,
            ).len() == 0,
    {
        let ghost so_far = self.answered(channel_number as int);
        let stopped = self.stop.is_stopped();
        self.flags = Ghost(self.flags@.push(stopped));
        proof {
            assert(self.flags@.drop_last() =~= old(self).flags@);
        }
        if stopped || channel_number >= self.channels.len() {
            self.answers = Ghost(self.answers@.insert(channel_number as int, so_far.push(None)));
            return None;
        }
        let at = self.channels[channel_number].next;
        if at >= self.channels[channel_number].records.len() {
            self.answers = Ghost(self.answers@.insert(channel_number as int, so_far.push(None)));
            return None;
        }
        let record = self.channels[channel_number].records[at];
        let hertz = record.freq / 1000;
        let freq: HertzInt = if hertz > 0xFFFF_FFFF {
            0xFFFF_FFFF
        } else {
            hertz as u32
        };
        let ghost list = self.channels@;
        let mut queue = self.channels.remove(channel_number);
        queue.next = at + 1;
        proof {
            let all = queue.records@;
            assert(channel_in_hertz(all.skip(at + 1)) =~= channel_in_hertz(
                all.skip(at as int),
            ).drop_first());
        }
        self.channels.insert(channel_number, queue);
        proof {
            assert(self.channels@ =~= list.update(channel_number as int, queue));
        }
        let answer = FreqRecord { freq, duration: record.duration };
        self.answers = Ghost(
            self.answers@.insert(channel_number as int, so_far.push(Some(answer))),
        );
        Some(answer)
    }

    fn channel_count(&self) -> (r: usize) {
        self.channels.len()
    }
}

/// How channels are played.
#[derive(Clone, Copy, Debug, PartialEq, Eq, Structural)]
pub enum Mode {
    /// There is nothing to play.
    Silent,
    /// There is one channel: its records are played one after the other.
    Single,
    /// There are several channels: they take turns at the speaker.
    Shared,
}

/// How the given number of channels is played.
pub fn mode_for(channel_count: usize) -> (r: Mode)
    ensures
        r == if channel_count == 0 {
            Mode::Silent
        } else if channel_count == 1 {
            Mode::Single
        } else {
            Mode::Shared
        },
{
    if channel_count == 0 {
        Mode::Silent
    } else if channel_count == 1 {
        Mode::Single
    } else {
        Mode::Shared
    }
}

} // verus!
