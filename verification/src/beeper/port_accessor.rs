//! Byte-wide access to x86 I/O ports.

use vstd::prelude::*;

verus! {

/// One write request: the port and the byte sent to it.
pub type PortWrite = (u16, u8);

/// One request to a port and how it went.
#[derive(Clone, Copy, Debug, PartialEq, Eq, Structural)]
pub enum PortEvent {
    /// A byte was asked for and was, or was not, read.
    Read { port: u16, value: Option<u8> },
    /// A byte was sent and did, or did not, go through.
    Write { port: u16, value: u8, done: bool },
}

/// The write requests among some requests, in their order.
pub open spec fn writes_of(traffic: Seq<PortEvent>) -> Seq<PortWrite>
    decreases traffic.len(),
{
    if traffic.len() == 0 {
        Seq::empty()
    } else {
        match traffic.last() {
            PortEvent::Write { port, value, .. } => writes_of(traffic.drop_last()).push(
                (port, value),
            ),
            PortEvent::Read { .. } => writes_of(traffic.drop_last()),
        }
    }
}

/// One more request behind some requests: a write adds to the writes, a
/// read does not.
pub proof fn lemma_writes_of_push(traffic: Seq<PortEvent>, event: PortEvent)
    ensures
        writes_of(traffic.push(event)) == match event {
            PortEvent::Write { port, value, .. } => writes_of(traffic).push((port, value)),
            PortEvent::Read { .. } => writes_of(traffic),
        },
{
    assert(traffic.push(event).drop_last() =~= traffic);
}

/// Whatever can read and write single bytes on I/O ports.
///
/// An implementation keeps, in its model, the list of the requests it was
/// given and how they went; the speaker driver is specified by what it
/// appends to that list.
pub trait PortAccessor {
    /// Every request made so far, oldest first. An implementation that is
    /// not verified leaves this unsaid.
    open spec fn traffic(&self) -> Seq<PortEvent> {
        arbitrary()
    }

    /// Reads one byte from a port, or fails.
    fn read_byte(&mut self, port_number: u16) -> (r: Option<u8>)
        ensures
            final(self).traffic() == old(self).traffic().push(
                PortEvent::Read { port: port_number, value: r },
            ),
    ;

    /// Sends one byte to a port and says whether the request went through.
    fn write_byte(&mut self, port_number: u16, value: u8) -> (ok: bool)
        ensures
            final(self).traffic() == old(self).traffic().push(
                PortEvent::Write { port: port_number, value, done: ok },
            ),
    ;
}

/// A port space that only remembers what was asked of it, lets every write
/// through and always answers a read with the same byte. It lets the
/// driver run without hardware.
pub struct PortLog {
    events: Vec<PortEvent>,
    answer: Option<u8>,
}

impl PortLog {
    /// The byte every read is answered with, if reads succeed at all.
    pub closed spec fn answer(&self) -> Option<u8> {
        self.answer
    }

    /// An empty log whose reads return `answer`.
    pub fn new(answer: Option<u8>) -> (r: Self)
        ensures
            r.traffic() == Seq::<PortEvent>::empty(),
            r.answer() == answer,
    {
        PortLog { events: Vec::new(), answer }
    }

    /// The requests received so far, oldest first.
    pub fn events(&self) -> (r: &Vec<PortEvent>)
        ensures
            r@ == self.traffic(),
    {
        &self.events
    }

    /// The writes received so far, oldest first.
    pub fn writes(&self) -> (r: Vec<PortWrite>)
        ensures
            r@ == writes_of(self.traffic()),
    {
        let mut out: Vec<PortWrite> = Vec::new();
        let mut i: usize = 0;
        proof {
            assert(self.events@.take(0) =~= Seq::<PortEvent>::empty());
        }
        while i < self.events.len()
            invariant
                0 <= i <= self.events@.len(),
                out@ == writes_of(self.events@.take(i as int)),
            decreases self.events@.len() - i,
        {
            proof {
                assert(self.events@.take(i + 1).drop_last() =~= self.events@.take(i as int));
            }
            match self.events[i] {
                PortEvent::Write { port, value, .. } => {
                    out.push((port, value));
                },
                PortEvent::Read { .. } => {},
            }
            i += 1;
        }
        proof {
            assert(self.events@.take(i as int) =~= self.events@);
        }
        out
    }
}

impl PortAccessor for PortLog {
    closed spec fn traffic(&self) -> Seq<PortEvent> {
        self.events@
    }

    fn read_byte(&mut self, port_number: u16) -> (r: Option<u8>)
        ensures
            r == old(self).answer(),
            final(self).answer() == old(self).answer(),
    {
        self.events.push(PortEvent::Read { port: port_number, value: self.answer });
        self.answer
    }

    fn write_byte(&mut self, port_number: u16, value: u8) -> (ok: bool)
        ensures
            ok,
            final(self).answer() == old(self).answer(),
    {
        self.events.push(PortEvent::Write { port: port_number, value, done: true });
        true
    }
}

} // verus!
