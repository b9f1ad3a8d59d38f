use beesynth::pipeline;
use beesynth::wave::bakery::{Bakery, Strategy};
use beesynth::wave::filter::{Data, Filter, FreqRecord, Position, PositionRecord, Type, WaveData, FULL_SCALE};
use beesynth::wave::note_matcher::NoteMatcher;

fn amplitude(value: f32) -> i32 {
    (f64::from(value) * f64::from(FULL_SCALE)) as i32
}

fn wave(samples: &[f32], sample_rate: u16) -> WaveData {
    WaveData { samples: samples.iter().map(|s| amplitude(*s)).collect(), sample_rate }
}

fn positions(data: Option<Data>) -> Vec<(Position, u64)> {
    match data {
        Some(Data::Position(records)) => records.iter().map(|r| (r.position, r.duration)).collect(),
        _ => panic!("baking gives positions"),
    }
}

#[test]
fn bake_simple_scenario() {
    let bakery = Bakery::new(Strategy::Simple);
    let data = Data::Amplitude(wave(&[0.5, 0.1, -0.2, -0.3, 0.4], 10));
    assert!(data.is_well_formed());
    // Two samples above zero, two that are not, one above zero: a tenth of a
    // second each.
    assert_eq!(positions(bakery.filter(data)), vec![
        (Position::Up, 200_000_000),
        (Position::Down, 200_000_000),
        (Position::Up, 100_000_000),
    ]);
}

#[test]
fn bake_simple_counts_and_total_duration() {
    let bakery = Bakery::new(Strategy::Simple);
    for rate in [1_u16, 7, 22_050, 44_100, 65_535] {
        let samples: Vec<i32> = (0..1000_i32).map(|i| (i * 7919 % 13 - 6) * 1000).collect();
        let count = samples.len() as u64;
        let baked = positions(bakery.filter(Data::Amplitude(WaveData { samples, sample_rate: rate })));
        assert!(baked.len() as u64 <= count);
        let total: u64 = baked.iter().map(|r| r.1).sum();
        assert_eq!(total, count * (1_000_000_000 / u64::from(rate)));
        for pair in baked.windows(2) {
            assert_ne!(pair[0].0, pair[1].0);
        }
    }
}

#[test]
fn zero_is_down_and_an_empty_wave_bakes_to_nothing() {
    let bakery = Bakery::new(Strategy::Simple);
    assert_eq!(positions(bakery.filter(Data::Amplitude(wave(&[0.0, 0.0], 4)))), vec![(Position::Down, 500_000_000)]);
    assert_eq!(positions(bakery.filter(Data::Amplitude(wave(&[], 4)))), vec![]);
    let tiny = WaveData { samples: vec![1, -1, i32::MIN, i32::MAX], sample_rate: 1000 };
    assert_eq!(positions(bakery.filter(Data::Amplitude(tiny))), vec![
        (Position::Up, 1_000_000),
        (Position::Down, 2_000_000),
        (Position::Up, 1_000_000),
    ]);
}

#[test]
fn bakery_refuses_what_is_no_wave() {
    for strategy in [Strategy::Simple, Strategy::Differential(5)] {
        let bakery = Bakery::new(strategy);
        assert!(matches!(bakery.filter_type(), Type::Amplitude));
        let baked = vec![PositionRecord { position: Position::Up, duration: 7 }];
        assert!(bakery.filter(Data::Position(baked)).is_none());
        assert!(bakery.filter(Data::Position(vec![])).is_none());
        let tones = vec![vec![FreqRecord { freq: 440_000_u64, duration: 7 }]];
        assert!(bakery.filter(Data::Frequency(tones)).is_none());
    }
}

#[test]
fn bake_differential() {
    let bakery = Bakery::new(Strategy::Differential(50));
    // 0.5; 0.1 is 20 % of 0.5: kept; -0.2 is -200 % of 0.1: kept; -0.3 is 150 % of
    // -0.2 and fell: down; 0.4 is -133 % of -0.3: kept; 0.8 is 200 % of 0.4 and rose: up;
    // 0.5 is 62.5 % of 0.8 and fell: down.
    let data = Data::Amplitude(wave(&[0.5, 0.1, -0.2, -0.3, 0.4, 0.8, 0.5], 1000));
    assert_eq!(positions(bakery.filter(data)), vec![
        (Position::Up, 3_000_000),
        (Position::Down, 2_000_000),
        (Position::Up, 1_000_000),
        (Position::Down, 1_000_000),
    ]);
}

#[test]
fn bake_differential_keeps_the_position_after_silence() {
    let bakery = Bakery::new(Strategy::Differential(5));
    let data = Data::Amplitude(wave(&[-0.5, 0.0, 0.9, 0.0, -0.9], 1000));
    // Nothing is a percentage of zero, and zero is no percentage above five.
    assert_eq!(positions(bakery.filter(data)), vec![(Position::Down, 5_000_000)]);
    assert!(Bakery::sample_exceeds(100, 6, 5));
    assert!(!Bakery::sample_exceeds(100, 5, 5));
    assert!(Bakery::sample_exceeds(-100, -6, 5));
    assert!(!Bakery::sample_exceeds(-100, 6, 5));
    assert!(!Bakery::sample_exceeds(0, 6, 5));
    assert!(Bakery::sample_exceeds(1, i32::MAX, 255));
    assert!(!Bakery::sample_exceeds(i32::MIN, i32::MAX, 0));
}

#[test]
fn what_is_left_as_samples_is_baked_at_the_end() {
    let finished = pipeline::finish(Data::Amplitude(wave(&[0.5, 0.6, 0.1, 0.2], 1000)));
    let by_hand = Bakery::new(Strategy::Differential(5)).filter(Data::Amplitude(wave(&[0.5, 0.6, 0.1, 0.2], 1000)));
    assert_eq!(positions(Some(finished)), positions(by_hand));
    let tones = Data::Frequency(vec![vec![FreqRecord { freq: 1_u64, duration: 2 }]]);
    assert!(matches!(pipeline::finish(tones), Data::Frequency(channels) if channels[0][0].duration == 2));
}

#[test]
fn note_matcher_moves_to_notes_and_then_rests() {
    let matcher = NoteMatcher;
    assert!(matches!(matcher.filter_type(), Type::Frequency));
    let data = Data::Frequency(vec![
        vec![FreqRecord { freq: 441_000, duration: 5 }, FreqRecord { freq: 0, duration: 6 }],
        vec![],
        vec![FreqRecord { freq: 466_200, duration: 7 }, FreqRecord { freq: u64::MAX, duration: 8 }],
    ]);
    let Some(Data::Frequency(once)) = matcher.filter(data) else {
        panic!("the matcher takes frequencies");
    };
    let flat = |channels: &Vec<Vec<FreqRecord<u64>>>| -> Vec<Vec<(u64, u64)>> {
        channels.iter().map(|c| c.iter().map(|r| (r.freq, r.duration)).collect()).collect()
    };
    assert_eq!(flat(&once), vec![
        vec![(440_000, 5), (16_351, 6)],
        vec![],
        vec![(466_163, 7), (40_780_036_010, 8)],
    ]);
    let expected = flat(&once);
    let Some(Data::Frequency(twice)) = matcher.filter(Data::Frequency(once)) else {
        panic!("the matcher takes frequencies");
    };
    assert_eq!(flat(&twice), expected);
    assert!(matcher.filter(Data::Position(vec![])).is_none());
    assert!(matcher.filter(Data::Amplitude(WaveData { samples: vec![], sample_rate: 1 })).is_none());
}

#[test]
fn data_emptiness_and_well_formedness() {
    assert!(Data::Amplitude(WaveData::default()).is_empty());
    assert!(!Data::Amplitude(WaveData::default()).is_well_formed());
    assert!(Data::Amplitude(WaveData { samples: vec![], sample_rate: 1 }).is_well_formed());
    assert!(!Data::Amplitude(WaveData { samples: vec![1], sample_rate: 1 }).is_empty());
    assert!(Data::Frequency(vec![]).is_empty());
    assert!(!Data::Frequency(vec![vec![]]).is_empty());
    assert!(Data::Position(vec![]).is_empty());
    assert!(Data::Position(vec![]).is_well_formed());
    assert_eq!(Position::default(), Position::Down);
}
