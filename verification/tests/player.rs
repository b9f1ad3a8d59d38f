use beesynth::beeper::generic::Beeper;
use beesynth::beeper::port_accessor::{PortAccessor, PortEvent, PortLog};
use beesynth::beeper::sound_emitter::{BeeperDivisor, BeeperFrequency, SoundEmitter, SpeakerOp};
use beesynth::nano_sleep::{NanoWaiter, SleepLog};
use beesynth::wave::filter::{FreqRecord, Position, PositionRecord};
use beesynth::wave::player::amplitudes;
use beesynth::wave::player::frequencies;
use beesynth::wave::player::frequencies::multichannel::{Channel, Scheduler, State};
use beesynth::wave::player::frequencies::singlechannel;

struct Recorder {
    ops: Vec<SpeakerOp>,
}

impl SoundEmitter for Recorder {
    fn prepare(&mut self) -> bool {
        self.ops.push(SpeakerOp::Prepare);
        true
    }

    fn play(&mut self) {
        self.ops.push(SpeakerOp::Play);
    }

    fn mute(&mut self) {
        self.ops.push(SpeakerOp::Mute);
    }

    fn set_divisor(&mut self, divisor: BeeperDivisor) {
        self.ops.push(SpeakerOp::SetDivisor(divisor.get()));
    }

    fn set_frequency(&mut self, freq: BeeperFrequency) {
        self.ops.push(SpeakerOp::SetDivisor(BeeperDivisor::from(freq).get()));
    }

    fn up(&mut self) {
        self.ops.push(SpeakerOp::Up);
    }

    fn down(&mut self) {
        self.ops.push(SpeakerOp::Down);
    }
}

struct Sleeper {
    slept: Vec<u64>,
    rate: u64,
}

impl NanoWaiter for Sleeper {
    fn nano_sleep(&mut self, nanoseconds: u64) {
        self.slept.push(nanoseconds);
    }

    fn ticks_in_microsecond(&self) -> u64 {
        self.rate
    }
}

struct Positions {
    records: Vec<PositionRecord>,
    next: usize,
    stop_after: usize,
}

impl amplitudes::Peeker for Positions {
    fn peek(&mut self) -> Option<PositionRecord> {
        if self.next >= self.stop_after || self.next >= self.records.len() {
            return None;
        }
        self.next += 1;
        Some(self.records[self.next - 1])
    }
}

struct Tones {
    channels: Vec<Vec<FreqRecord<u32>>>,
    next: Vec<usize>,
}

impl Tones {
    fn new(channels: Vec<Vec<FreqRecord<u32>>>) -> Self {
        let next = vec![0; channels.len()];
        Tones { channels, next }
    }
}

impl frequencies::Peeker for Tones {
    fn peek(&mut self, channel_number: usize) -> Option<FreqRecord<u32>> {
        let channel = self.channels.get(channel_number)?;
        let record = channel.get(self.next[channel_number])?;
        self.next[channel_number] += 1;
        Some(*record)
    }

    fn channel_count(&self) -> usize {
        self.channels.len()
    }
}

fn record(position: Position, duration: u64) -> PositionRecord {
    PositionRecord { position, duration }
}

fn tone(freq: u32, duration: u64) -> FreqRecord<u32> {
    FreqRecord { freq, duration }
}

#[test]
fn positions_move_the_cone_only_when_they_change() {
    let mut emitter = Recorder { ops: vec![] };
    let mut waiter = Sleeper { slept: vec![], rate: 1000 };
    let mut peeker = Positions {
        records: vec![
            record(Position::Down, 5),
            record(Position::Up, 10),
            record(Position::Up, 20),
            record(Position::Down, 30),
            record(Position::Up, 40),
        ],
        next: 0,
        stop_after: 5,
    };
    amplitudes::play(&mut emitter, &mut peeker, &mut waiter);
    assert_eq!(emitter.ops, vec![SpeakerOp::Up, SpeakerOp::Down, SpeakerOp::Up]);
    assert_eq!(waiter.slept, vec![5, 10, 20, 30, 40]);
    assert_eq!(peeker.next, 5);
}

#[test]
fn positions_stop_when_the_source_stops() {
    let mut emitter = Recorder { ops: vec![] };
    let mut waiter = Sleeper { slept: vec![], rate: 1000 };
    let mut peeker = Positions {
        records: vec![record(Position::Up, 10), record(Position::Down, 30), record(Position::Up, 40)],
        next: 0,
        stop_after: 2,
    };
    amplitudes::play(&mut emitter, &mut peeker, &mut waiter);
    assert_eq!(emitter.ops, vec![SpeakerOp::Up, SpeakerOp::Down]);
    assert_eq!(waiter.slept, vec![10, 30]);
}

#[test]
fn single_channel_plays_tones_and_rests() {
    let mut emitter = Recorder { ops: vec![] };
    let mut waiter = Sleeper { slept: vec![], rate: 1000 };
    let mut peeker = Tones::new(vec![vec![tone(440, 100), tone(0, 50), tone(0, 60), tone(880, 70), tone(5, 80)]]);
    singlechannel::play(&mut emitter, &mut waiter, &mut peeker);
    assert_eq!(emitter.ops, vec![
        SpeakerOp::Prepare,
        SpeakerOp::Play,
        SpeakerOp::SetDivisor(2711),
        SpeakerOp::Mute,
        SpeakerOp::SetDivisor(1355),
        SpeakerOp::Play,
        SpeakerOp::SetDivisor(62_799),
        SpeakerOp::Mute,
    ]);
    assert_eq!(waiter.slept, vec![100, 50, 60, 70, 80]);
}

#[test]
fn modes_by_channel_count() {
    assert_eq!(frequencies::mode_for(0), frequencies::Mode::Silent);
    assert_eq!(frequencies::mode_for(1), frequencies::Mode::Single);
    assert_eq!(frequencies::mode_for(2), frequencies::Mode::Shared);
    assert_eq!(frequencies::mode_for(9), frequencies::Mode::Shared);
}

#[test]
fn polyphony_switching() {
    let mut emitter = Recorder { ops: vec![] };
    let mut peeker = Tones::new(vec![vec![tone(440, 1_000_000_000)], vec![tone(880, 1_000_000_000)]]);
    // One tick of the clock is one nanosecond.
    let mut now: u64 = 5_000;
    let mut scheduler = Scheduler::start(&mut emitter, &mut peeker, 1000, 20_000_000, now);
    assert_eq!(scheduler.channel_count(), 2);
    let mut steps = 0;
    loop {
        now += 1_000_000;
        assert!(now >= scheduler.last_tick());
        if !scheduler.step(&mut emitter, &mut peeker, now) {
            break;
        }
        steps += 1;
    }
    scheduler.finish(&mut emitter);
    assert_eq!(steps, 999);
    assert_eq!(&emitter.ops[..2], &[SpeakerOp::Prepare, SpeakerOp::Play]);
    assert_eq!(emitter.ops.last(), Some(&SpeakerOp::Mute));
    let tunings: Vec<u16> = emitter.ops.iter().filter_map(|op| match op {
        SpeakerOp::SetDivisor(divisor) => Some(*divisor),
        _ => None,
    }).collect();
    assert_eq!(tunings.len(), 49);
    for (i, divisor) in tunings.iter().enumerate() {
        let expected = if i % 2 == 0 { 1355 } else { 2711 };
        assert_eq!(*divisor, expected);
    }
    assert_eq!(emitter.ops.len(), 2 + 49 + 1);
}

#[test]
fn scheduler_silences_between_tones() {
    let mut emitter = Recorder { ops: vec![] };
    let mut peeker = Tones::new(vec![
        vec![tone(440, 10_000), tone(0, 10_000), tone(440, 10_000)],
        vec![tone(0, 30_000)],
    ]);
    let mut scheduler = Scheduler::start(&mut emitter, &mut peeker, 1000, 5_000, 0);
    assert!(!scheduler.is_mute());
    let mut log = vec![];
    let mut now = 0;
    loop {
        now += 5_000;
        let before = emitter.ops.len();
        let running = scheduler.step(&mut emitter, &mut peeker, now);
        log.push((now, emitter.ops[before..].to_vec(), scheduler.is_mute()));
        if !running {
            break;
        }
    }
    assert_eq!(log, vec![
        (5_000, vec![SpeakerOp::SetDivisor(2711)], false),
        (10_000, vec![SpeakerOp::Mute], true),
        (15_000, vec![], true),
        (20_000, vec![SpeakerOp::Play, SpeakerOp::SetDivisor(2711)], false),
        (25_000, vec![SpeakerOp::SetDivisor(2711)], false),
        (30_000, vec![], false),
    ]);
}

#[test]
fn channel_spends_ticks_and_takes_the_next_record() {
    let mut peeker = Tones::new(vec![vec![], vec![tone(100, 30), tone(200, 5_000), tone(0, 7_000)]]);
    let mut channel = Channel::new(1, State::Mute(1_000));
    assert_eq!(channel.channel_number(), 1);
    assert!(matches!(channel.spend(&mut peeker, 400, 2000), State::Mute(600)));
    assert!(matches!(channel.state(), State::Mute(600)));
    // 1000 ticks: 400 more than are left; the first record is shorter than that and
    // is passed over, the second is shortened by the 370 that remain.
    match channel.spend(&mut peeker, 1_000, 2000) {
        State::Freq(freq, ticks) => {
            assert_eq!(freq.get(), 200);
            assert_eq!(ticks, (5_000 - 370) * 2);
        }
        _ => panic!("the channel sounds"),
    }
    assert!(matches!(channel.spend(&mut peeker, 9_260, 2000), State::Mute(14_000)));
    assert!(matches!(channel.spend(&mut peeker, 14_000, 2000), State::TheEnd));
    assert!(matches!(channel.spend(&mut peeker, 1, 2000), State::TheEnd));
}

#[test]
fn beeper_writes_ports() {
    let mut beeper = Beeper::new(PortLog::new(Some(0b1010_0101)));
    assert!(beeper.prepare());
    beeper.play();
    beeper.set_frequency(BeeperFrequency::new_clamped(440));
    beeper.up();
    beeper.down();
    beeper.mute();
    beeper.set_divisor(BeeperDivisor::new(0));
    let writes = beeper.into_inner();
    assert_eq!(writes.writes(), vec![
        (0x43, 0xB6),
        (0x61, 0b1010_0111),
        (0x42, 0x97),
        (0x42, 0x0A),
        (0x61, 0b1010_0111),
        (0x61, 0b1010_0101),
        (0x61, 0b1010_0100),
        (0x42, 1),
        (0x42, 0),
    ]);
}

#[test]
fn beeper_fails_to_prepare_without_a_port_answer() {
    let mut beeper = Beeper::new(PortLog::new(None));
    assert!(!beeper.prepare());
    beeper.play();
    assert_eq!(beeper.port_accessor().writes(), vec![(0x43, 0xB6), (0x61, 0b11)]);
    assert_eq!(beeper.port_accessor().events(), &vec![
        PortEvent::Write { port: 0x43, value: 0xB6, done: true },
        PortEvent::Read { port: 0x61, value: None },
        PortEvent::Write { port: 0x61, value: 0b11, done: true },
    ]);
}

/// Ports that refuse every write.
struct DeadPorts {
    asked: usize,
}

impl PortAccessor for DeadPorts {
    fn read_byte(&mut self, _port: u16) -> Option<u8> {
        self.asked += 1;
        Some(0xFF)
    }

    fn write_byte(&mut self, _port: u16, _value: u8) -> bool {
        self.asked += 1;
        false
    }
}

#[test]
fn beeper_does_not_read_after_a_failed_mode_write() {
    let mut beeper = Beeper::new(DeadPorts { asked: 0 });
    assert!(!beeper.prepare());
    assert_eq!(beeper.into_inner().asked, 1);
}

#[test]
fn beeper_keeps_the_byte_it_read() {
    let mut beeper = Beeper::new(PortLog::new(Some(0b0011_0000)));
    assert!(beeper.prepare());
    beeper.up();
    beeper.down();
    assert_eq!(beeper.port_accessor().events(), &vec![
        PortEvent::Write { port: 0x43, value: 0xB6, done: true },
        PortEvent::Read { port: 0x61, value: Some(0b0011_0000) },
        PortEvent::Write { port: 0x61, value: 0b0011_0010, done: true },
        PortEvent::Write { port: 0x61, value: 0b0011_0000, done: true },
    ]);
}

#[test]
fn the_speaker_runs_without_a_clock() {
    let mut beeper = Beeper::new(PortLog::new(Some(0)));
    let mut waiter = SleepLog::new(2400);
    assert_eq!(waiter.ticks_in_microsecond(), 2400);
    let mut peeker = Tones::new(vec![vec![tone(1_193_182, 100), tone(0, 50)]]);
    singlechannel::play(&mut beeper, &mut waiter, &mut peeker);
    assert_eq!(waiter.waits(), &vec![100, 50]);
    assert_eq!(beeper.port_accessor().writes(), vec![
        (0x43, 0xB6),
        (0x61, 0b11),
        (0x42, 1),
        (0x42, 0),
        (0x61, 0),
        (0x61, 0),
    ]);
}

#[test]
fn tunings_lie_an_interval_apart_and_alternate() {
    let mut emitter = Recorder { ops: vec![] };
    let mut peeker = Tones::new(vec![vec![tone(440, 1_000_000_000)], vec![tone(880, 1_000_000_000)]]);
    let mut now: u64 = 0;
    let mut scheduler = Scheduler::start(&mut emitter, &mut peeker, 1000, 20_000_000, now);
    let mut tuned: Vec<(u64, u16)> = vec![];
    let mut step: u64 = 1;
    loop {
        // Readings at uneven distances.
        step = step * 7 % 3_000_001 + 1;
        now += step;
        let before = emitter.ops.len();
        let running = scheduler.step(&mut emitter, &mut peeker, now);
        let sent = &emitter.ops[before..];
        let tunings: Vec<u16> = sent.iter().filter_map(|op| match op {
            SpeakerOp::SetDivisor(divisor) => Some(*divisor),
            _ => None,
        }).collect();
        assert!(tunings.len() <= 1);
        if let Some(divisor) = tunings.first() {
            assert_eq!(sent.last(), Some(&SpeakerOp::SetDivisor(*divisor)));
            tuned.push((now, *divisor));
        }
        if !running {
            break;
        }
    }
    scheduler.finish(&mut emitter);
    assert_eq!(emitter.ops.last(), Some(&SpeakerOp::Mute));
    assert!(tuned.len() >= 40 && tuned.len() <= 50);
    for pair in tuned.windows(2) {
        assert!(pair[1].0 - pair[0].0 >= 20_000_000);
        assert_ne!(pair[0].1, pair[1].1);
        assert!(pair[1].1 == 2711 || pair[1].1 == 1355);
    }
}
