//! Playing positions of the cone.
//!
//! The cone starts down. Each record moves it, if it is not already where
//! the record wants it, and then holds it for the record's time.

use vstd::prelude::*;
use crate::beeper::sound_emitter::{SoundEmitter, SpeakerOp};
use crate::nano_sleep::NanoWaiter;
use crate::wave::filter::{Position, PositionRecord};
use crate::wave::player::StopFlag;

verus! {

/// A source of position records that hands them out one by one.
pub trait Peeker {
    /// The records not handed out yet. An implementation that is not
    /// verified leaves this unsaid.
    open spec fn pending(&self) -> Seq<PositionRecord> {
        arbitrary()
    }

    /// Every answer given so far, oldest first. An implementation that
    /// is not verified leaves this unsaid.
    open spec fn answered(&self) -> Seq<Option<PositionRecord>> {
        arbitrary()
    }

    /// Hands out the next record. A source may stop before it has run
    /// dry; it then keeps what it has.
    fn peek(&mut self) -> (r: Option<PositionRecord>)
        ensures
            final(self).answered() == old(self).answered().push(r),
            match r {
                Some(record) => old(self).pending().len() > 0 && record == old(self).pending()[0]
                    && final(self).pending() == old(self).pending().drop_first(),
                None => final(self).pending() == old(self).pending(),
            },
    ;
}

/// The source that hands out baked positions one by one until they have
/// run out or a flag asks to stop.
pub struct AmplitudePeeker<S: StopFlag> {
    records: Vec<PositionRecord>,
    next: usize,
    stop: S,
    answers: Ghost<Seq<Option<PositionRecord>>>,
    flags: Ghost<Seq<bool>>,
}

impl<S: StopFlag> AmplitudePeeker<S> {
    /// What the flag said each time it was asked, oldest first.
    pub closed spec fn stops(&self) -> Seq<bool> {
        self.flags@
    }

    pub fn new(records: Vec<PositionRecord>, stop: S) -> (r: Self)
        ensures
            r.pending() == records@,
            r.answered() == Seq::<Option<PositionRecord>>::empty(),
            r.stops() == Seq::<bool>::empty(),
    {
        let r = AmplitudePeeker {
            records,
            next: 0,
            stop,
            answers: Ghost(Seq::empty()),
            flags: Ghost(Seq::empty()),
        };
        proof {
            assert(r.records@.skip(0) =~= r.records@);
        }
        r
    }
}

impl<S: StopFlag> Peeker for AmplitudePeeker<S> {
    closed spec fn pending(&self) -> Seq<PositionRecord> {
        if self.next <= self.records@.len() {
            self.records@.skip(self.next as int)
        } else {
            Seq::empty()
        }
    }

    closed spec fn answered(&self) -> Seq<Option<PositionRecord>> {
        self.answers@
    }

    /// Asks the flag, and hands out nothing if it asks to stop or the
    /// records have run out.
    fn peek(&mut self) -> (r: Option<PositionRecord>)
        ensures
            final(self).stops().len() == old(self).stops().len() + 1,
            final(self).stops().drop_last() == old(self).stops(),
            r is None <==> final(self).stops().last() || old(self).pending().len() == 0,
    {
        let stopped = self.stop.is_stopped();
        self.flags = Ghost(self.flags@.push(stopped));
        proof {
            assert(self.flags@.drop_last() =~= old(self).flags@);
        }
        if stopped || self.next >= self.records.len() {
            self.answers = Ghost(self.answers@.push(None));
            return None;
        }
        let record = self.records[self.next];
        self.next += 1;
        self.answers = Ghost(self.answers@.push(Some(record)));
        proof {
            assert(self.records@.skip(self.next as int) =~= old(self).records@.skip(
                old(self).next as int,
            ).drop_first());
        }
        Some(record)
    }
}

/// The request that moves the cone to a position.
pub open spec fn move_to(position: Position) -> SpeakerOp {
    match position {
        Position::Up => SpeakerOp::Up,
        Position::Down => SpeakerOp::Down,
    }
}

/// The requests that playing the records makes when the cone stands at
/// `from`: one for every record whose position differs from that of the
/// record before it.
pub open spec fn moves(records: Seq<PositionRecord>, from: Position) -> Seq<SpeakerOp>
    decreases records.len(),
{
    if records.len() == 0 {
        Seq::empty()
    } else {
        let before = records.drop_last();
        let last = if before.len() == 0 {
            from
        } else {
            before.last().position
        };
        if records.last().position != last {
            moves(before, from).push(move_to(records.last().position))
        } else {
            moves(before, from)
        }
    }
}

/// The answers by which a source hands out the records.
pub open spec fn handed(records: Seq<PositionRecord>) -> Seq<Option<PositionRecord>> {
    Seq::new(records.len(), |i: int| Some(records[i]))
}

/// The times that playing the records waits for.
pub open spec fn waits(records: Seq<PositionRecord>) -> Seq<u64> {
    Seq::new(records.len(), |i: int| records[i].duration)
}

/// Plays the records of the source until it hands out no more: the
/// source is asked until it first answers with nothing, the records it
/// handed out before are played, and the rest stays pending.
pub fn play<E: SoundEmitter, P: Peeker, W: NanoWaiter>(
    emitter: &mut E,
    peeker: &mut P,
    waiter: &mut W,
)
    ensures
        ({
            let all = old(peeker).pending();
            let played = all.len() - final(peeker).pending().len();
            &&& 0 <= played <= all.len()
            &&& final(peeker).pending() == all.skip(played)
            &&& final(peeker).answered() == (old(peeker).answered() + handed(
                all.take(played),
            )).push(None)
            &&& final(emitter).ops() == old(emitter).ops() + moves(
                all.take(played),
                Position::Down,
            )
            &&& final(waiter).slept() == old(waiter).slept() + waits(all.take(played))
        }),
        final(waiter).ticks_per_usec() == old(waiter).ticks_per_usec(),
{
    let ghost all = peeker.pending();
    let ghost mut done: int = 0;
    let mut prev_position = Position::Down;
    proof {
        assert(all.skip(0) =~= all);
        assert(all.take(0) =~= Seq::<PositionRecord>::empty());
        assert(emitter.ops() + Seq::<SpeakerOp>::empty() =~= emitter.ops());
        assert(waits(all.take(0)) =~= Seq::<u64>::empty());
        assert(waiter.slept() + Seq::<u64>::empty() =~= waiter.slept());
        assert(peeker.answered() + handed(all.take(0)) =~= peeker.answered());
    }
    loop
        invariant_except_break
            peeker.answered() == old(peeker).answered() + handed(all.take(done)),
        invariant
            0 <= done <= all.len(),
            all == old(peeker).pending(),
            peeker.pending() == all.skip(done),
            emitter.ops() == old(emitter).ops() + moves(all.take(done), Position::Down),
            waiter.slept() == old(waiter).slept() + waits(all.take(done)),
            waiter.ticks_per_usec() == old(waiter).ticks_per_usec(),
            prev_position == if done == 0 {
                Position::Down
            } else {
                all[done - 1].position
            },
        ensures
            peeker.answered() == (old(peeker).answered() + handed(all.take(done))).push(None),
        decreases peeker.pending().len(),
    {
        let ghost pending = peeker.pending();
        let ghost ops = emitter.ops();
        let ghost slept = waiter.slept();
        let sample = match peeker.peek() {
            Some(sample) => sample,
            None => {
                break ;
            },
        };
        proof {
            assert(sample == all[done]);
            assert(all.skip(done).drop_first() =~= all.skip(done + 1));
            assert(all.take(done + 1).drop_last() =~= all.take(done));
            assert(peeker.answered() =~= old(peeker).answered() + handed(all.take(done + 1)));
        }
        if sample.position != prev_position {
            match sample.position {
                Position::Up => emitter.up(),
                Position::Down => emitter.down(),
            }
            prev_position = sample.position;
            proof {
                assert(emitter.ops() =~= old(emitter).ops() + moves(
                    all.take(done + 1),
                    Position::Down,
                ));
            }
        }
        waiter.nano_sleep(sample.duration);
        proof {
            assert(waits(all.take(done + 1)) =~= waits(all.take(done)).push(sample.duration));
            assert(waiter.slept() =~= old(waiter).slept() + waits(all.take(done + 1)));
            done = done + 1;
        }
    }
}

} // verus!
