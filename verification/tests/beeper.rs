use beesynth::beeper::sound_emitter::{BeeperDivisor, BeeperFrequency, ClockGenerator};

#[test]
fn pit_divisor_boundary() {
    let low = BeeperFrequency::new_clamped(18);
    assert_eq!(low.get(), 19);
    assert_eq!(BeeperDivisor::from(low).get(), 62_799);
    assert_eq!(1_193_182 / 19, 62_799);
    let high = BeeperFrequency::new_clamped(2_000_000);
    assert_eq!(high.get(), 1_193_182);
    assert_eq!(BeeperDivisor::from(high).get(), 1);
}

#[test]
fn divisor_is_in_band_and_gives_back_the_frequency() {
    let mut f: u32 = 19;
    while f <= 1_193_182 {
        let d = u32::from(BeeperDivisor::from_freq(f).get());
        assert!((1..=65_535).contains(&d));
        assert_eq!(d, 1_193_182 / f);
        assert!(1_193_182 / d >= f);
        assert!(1_193_182 / (d + 1) < f);
        f += if f < 70_000 { 1 } else { 997 };
    }
    assert_eq!(BeeperDivisor::from_freq(1_193_182).get(), 1);
    assert_eq!(BeeperDivisor::from_freq(440).get(), 2711);
}

#[test]
fn frequencies_are_clamped_or_refused() {
    assert_eq!(ClockGenerator::BASE_FREQ, 1_193_182);
    assert_eq!(BeeperFrequency::MIN_HZ, 19);
    assert_eq!(BeeperFrequency::MAX_HZ, 1_193_182);
    assert!(BeeperFrequency::new(18).is_none());
    assert_eq!(BeeperFrequency::new(19).map(|f| f.get()), Some(19));
    assert_eq!(BeeperFrequency::new(1_193_182).map(|f| f.get()), Some(1_193_182));
    assert!(BeeperFrequency::new(1_193_183).is_none());
    assert_eq!(BeeperFrequency::new_clamped(0).get(), 19);
    assert_eq!(BeeperFrequency::new_clamped(440).get(), 440);
    assert_eq!(BeeperFrequency::from(7_u8).get(), 19);
    assert_eq!(BeeperFrequency::from(200_u8).get(), 200);
    assert_eq!(BeeperFrequency::from(60_000_u16).get(), 60_000);
    assert_eq!(BeeperFrequency::from(u32::MAX).get(), 1_193_182);
}

#[test]
fn divisor_zero_becomes_one() {
    assert_eq!(BeeperDivisor::new(0).get(), 1);
    assert_eq!(BeeperDivisor::new(1).get(), 1);
    assert_eq!(BeeperDivisor::new(65_535).get(), 65_535);
    assert_eq!(BeeperDivisor::MIN_VALUE, 1);
    assert_eq!(BeeperDivisor::MAX_VALUE, 65_535);
    assert_eq!(BeeperDivisor::from_freq(0).get(), 62_799);
    assert_eq!(BeeperDivisor::from_freq(u32::MAX).get(), 1);
}
