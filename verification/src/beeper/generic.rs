//! The speaker driven through an I/O port interface.
//!
//! Port 0x43 takes the timer's mode word, port 0x42 the divisor of channel 2
//! (low byte, then high byte), and bits 0 and 1 of port 0x61 connect the
//! timer to the speaker and open its gate.

use vstd::prelude::*;
use crate::beeper::port_accessor::{
    lemma_writes_of_push, writes_of, PortAccessor, PortEvent, PortWrite,
};
use crate::beeper::sound_emitter::{
    divisor_of, lemma_divisor_of, BeeperDivisor, BeeperFrequency, SoundEmitter, SpeakerOp,
};

verus! {

/// Port of the timer's mode register.
pub const PIT_CONTROL_PORT: u16 = 0x43;

/// Port of the divisor of the timer's channel 2.
pub const PIT_CHANNEL2_PORT: u16 = 0x42;

/// Port whose two lowest bits gate the speaker.
pub const SPEAKER_PORT: u16 = 0x61;

/// Channel 2, low byte then high byte, square wave, binary counting.
pub const PIT_SQUARE_WAVE_MODE: u8 = 0xB6;

/// The low byte of a divisor.
pub open spec fn low_byte(divisor: int) -> u8 {
    (divisor % 256) as u8
}

/// The high byte of a divisor.
pub open spec fn high_byte(divisor: int) -> u8 {
    ((divisor / 256) % 256) as u8
}

/// Is `after` what `before` becomes by one more write of `value` to
/// `port`, whether or not the write goes through?
pub open spec fn wrote(before: Seq<PortEvent>, after: Seq<PortEvent>, port: u16, value: u8) -> bool {
    ||| after == before.push(PortEvent::Write { port, value, done: true })
    ||| after == before.push(PortEvent::Write { port, value, done: false })
}

/// Is `after` what `before` becomes by loading a divisor: two more
/// requests, a write of its low byte and then one of its high byte?
pub open spec fn loaded(before: Seq<PortEvent>, after: Seq<PortEvent>, divisor: int) -> bool {
    &&& after.len() == before.len() + 2
    &&& wrote(before, after.drop_last(), 0x42, low_byte(divisor))
    &&& wrote(after.drop_last(), after, 0x42, high_byte(divisor))
}

/// The two port writes that load a divisor: low byte first.
pub open spec fn divisor_writes(divisor: int) -> Seq<PortWrite> {
    seq![(PIT_CHANNEL2_PORT, low_byte(divisor)), (PIT_CHANNEL2_PORT, high_byte(divisor))]
}

pub struct Beeper<IoPorts: PortAccessor> {
    port_accessor: IoPorts,
    control_port_value: u8,
    ops: Ghost<Seq<SpeakerOp>>,
}

impl<IoPorts: PortAccessor> Beeper<IoPorts> {
    /// The port interface the driver writes to.
    pub closed spec fn ports(&self) -> IoPorts {
        self.port_accessor
    }

    /// The value of the speaker port that `prepare` last read; zero before.
    pub closed spec fn control(&self) -> u8 {
        self.control_port_value
    }

    /// What the port interface has been asked so far, and how it went.
    pub open spec fn traffic(&self) -> Seq<PortEvent> {
        self.ports().traffic()
    }

    /// What the port interface has been sent so far.
    pub open spec fn written(&self) -> Seq<PortWrite> {
        writes_of(self.traffic())
    }

    pub fn new(port_accessor: IoPorts) -> (r: Self)
        ensures
            r.ports() == port_accessor,
            r.control() == 0,
            r.ops() == Seq::<SpeakerOp>::empty(),
    {
        Beeper { port_accessor, control_port_value: 0, ops: Ghost(Seq::empty()) }
    }

    /// The port interface, to look at what was sent.
    pub fn port_accessor(&self) -> (r: &IoPorts)
        ensures
            *r == self.ports(),
    {
        &self.port_accessor
    }

    /// Gives the port interface back.
    pub fn into_inner(self) -> (r: IoPorts)
        ensures
            r == self.ports(),
    {
        self.port_accessor
    }
}

impl<IoPorts: PortAccessor> SoundEmitter for Beeper<IoPorts> {
    closed spec fn ops(&self) -> Seq<SpeakerOp> {
        self.ops@
    }

    /// Writes the mode word, then reads the speaker port and keeps its
    /// value. Fails, leaving the kept value as it was, when either request
    /// fails; the read is not tried after a failed write.
    fn prepare(&mut self) -> (ready: bool)
        ensures
            final(self).written() == old(self).written().push(
                (PIT_CONTROL_PORT, PIT_SQUARE_WAVE_MODE),
            ),
            ({
                let before = old(self).traffic();
                let after = final(self).traffic();
                let refused = before.push(
                    PortEvent::Write { port: 0x43, value: 0xB6, done: false },
                );
                let sent = before.push(PortEvent::Write { port: 0x43, value: 0xB6, done: true });
                if ready {
                    after == sent.push(
                        PortEvent::Read { port: 0x61, value: Some(final(self).control()) },
                    )
                } else {
                    &&& final(self).control() == old(self).control()
                    &&& after == refused || after == sent.push(
                        PortEvent::Read { port: 0x61, value: None },
                    )
                }
            }),
    {
        self.ops = Ghost(self.ops@.push(SpeakerOp::Prepare));
        let ghost before = self.port_accessor.traffic();
        let sent = self.port_accessor.write_byte(PIT_CONTROL_PORT, PIT_SQUARE_WAVE_MODE);
        proof {
            lemma_writes_of_push(
                before,
                PortEvent::Write { port: PIT_CONTROL_PORT, value: PIT_SQUARE_WAVE_MODE, done: sent },
            );
        }
        if !sent {
            return false;
        }
        let ghost between = self.port_accessor.traffic();
        let read = self.port_accessor.read_byte(SPEAKER_PORT);
        proof {
            lemma_writes_of_push(between, PortEvent::Read { port: SPEAKER_PORT, value: read });
        }
        match read {
            Some(value) => {
                self.control_port_value = value;
                true
            },
            None => false,
        }
    }

    fn play(&mut self)
        ensures
            wrote(old(self).traffic(), final(self).traffic(), 0x61, old(self).control() | 0b11),
            final(self).written() == old(self).written().push(
                (SPEAKER_PORT, old(self).control() | 0b11),
            ),
            final(self).control() == old(self).control(),
    {
        self.ops = Ghost(self.ops@.push(SpeakerOp::Play));
        let ghost before = self.port_accessor.traffic();
        let sent = self.port_accessor.write_byte(SPEAKER_PORT, self.control_port_value | 0b11);
        proof {
            lemma_writes_of_push(
                before,
                PortEvent::Write { port: SPEAKER_PORT, value: old(self).control() | 0b11, done: sent },
            );
        }
    }

    fn mute(&mut self)
        ensures
            wrote(old(self).traffic(), final(self).traffic(), 0x61, old(self).control() & !0b11u8),
            final(self).written() == old(self).written().push(
                (SPEAKER_PORT, old(self).control() & !0b11u8),
            ),
            final(self).control() == old(self).control(),
    {
        self.ops = Ghost(self.ops@.push(SpeakerOp::Mute));
        let ghost before = self.port_accessor.traffic();
        let sent = self.port_accessor.write_byte(SPEAKER_PORT, self.control_port_value & !0b11u8);
        proof {
            lemma_writes_of_push(
                before,
                PortEvent::Write { port: SPEAKER_PORT, value: old(self).control() & !0b11u8, done: sent },
            );
        }
    }

    fn set_divisor(&mut self, divisor: BeeperDivisor)
        ensures
            loaded(old(self).traffic(), final(self).traffic(), divisor.value()),
            final(self).written() == old(self).written() + divisor_writes(divisor.value()),
            final(self).control() == old(self).control(),
    {
        self.ops = Ghost(self.ops@.push(SpeakerOp::SetDivisor(divisor.value() as u16)));
        let value = divisor.get();
        let low: u8 = (value % 256) as u8;
        let high: u8 = (value / 256) as u8;
        let ghost before = self.port_accessor.traffic();
        let first = self.port_accessor.write_byte(PIT_CHANNEL2_PORT, low);
        let ghost between = self.port_accessor.traffic();
        let second = self.port_accessor.write_byte(PIT_CHANNEL2_PORT, high);
        proof {
            lemma_writes_of_push(
                before,
                PortEvent::Write { port: PIT_CHANNEL2_PORT, value: low, done: first },
            );
            lemma_writes_of_push(
                between,
                PortEvent::Write { port: PIT_CHANNEL2_PORT, value: high, done: second },
            );
            assert(self.traffic().drop_last() =~= between);
            assert(self.written() =~= old(self).written() + divisor_writes(divisor.value()));
        }
    }

    fn set_frequency(&mut self, freq: BeeperFrequency)
        ensures
            loaded(old(self).traffic(), final(self).traffic(), divisor_of(freq.hz())),
            final(self).written() == old(self).written() + divisor_writes(divisor_of(freq.hz())),
            final(self).control() == old(self).control(),
    {
        let divisor = BeeperDivisor::from_freq(freq.get());
        proof {
            lemma_divisor_of(freq.hz());
        }
        self.set_divisor(divisor);
    }

    fn up(&mut self)
        ensures
            wrote(old(self).traffic(), final(self).traffic(), 0x61, old(self).control() | 0b10),
            final(self).written() == old(self).written().push(
                (SPEAKER_PORT, old(self).control() | 0b10),
            ),
            final(self).control() == old(self).control(),
    {
        self.ops = Ghost(self.ops@.push(SpeakerOp::Up));
        let ghost before = self.port_accessor.traffic();
        let sent = self.port_accessor.write_byte(SPEAKER_PORT, self.control_port_value | 0b10);
        proof {
            lemma_writes_of_push(
                before,
                PortEvent::Write { port: SPEAKER_PORT, value: old(self).control() | 0b10, done: sent },
            );
        }
    }

    fn down(&mut self)
        ensures
            wrote(old(self).traffic(), final(self).traffic(), 0x61, old(self).control() & !0b10u8),
            final(self).written() == old(self).written().push(
                (SPEAKER_PORT, old(self).control() & !0b10u8),
            ),
            final(self).control() == old(self).control(),
    {
        self.ops = Ghost(self.ops@.push(SpeakerOp::Down));
        let ghost before = self.port_accessor.traffic();
        let sent = self.port_accessor.write_byte(SPEAKER_PORT, self.control_port_value & !0b10u8);
        proof {
            lemma_writes_of_push(
                before,
                PortEvent::Write { port: SPEAKER_PORT, value: old(self).control() & !0b10u8, done: sent },
            );
        }
    }
}

} // verus!
