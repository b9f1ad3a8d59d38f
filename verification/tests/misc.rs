use beesynth::converter;
use beesynth::inpout::interface::{make_ioctl, port_read_request, port_write_request, Func, Mapping32, Mapping64, PhysMapping, PortByte, PortDword, PortTrait, PortWord};
use beesynth::inpout::loader::{LoadError, Loader, Outcome, Step};
use beesynth::nano_sleep::{mean_without_outliers, median_of, Calibration, NanoSleep, Wait};
use beesynth::params::{parse_option, parse_params, parse_synth_params, parse_wave_params, BeeperType, Command, Param, ParamError, ParamErrorKind};
use beesynth::pipeline::{check_chain, DataKind, FilterSpec};
use beesynth::text;
use beesynth::wave::filter::FreqRecord;
use beesynth::wave::freq_extractor::FreqExtractor;
use beesynth::wave::player::amplitudes::{AmplitudePeeker, Peeker as PositionPeeker};
use beesynth::wave::player::frequencies::{FrequencyPeeker, Peeker as TonePeeker};
use beesynth::wave::player::{NeverStop, StopFlag};
use beesynth::wave::filter::{Position, PositionRecord};
use beesynth::winapi::arch::{current, Arch};
use beesynth::winapi::ioctl::{DeviceAccess, Ioctl, Method};
use beesynth::winapi::sched::{last_cpu, Affinity, Priority};
use beesynth::winapi::scm::ServiceStatus;

#[test]
fn tukey_example() {
    let mut deltas = vec![70_u64, 73, 68, 3000, 71, 71, 69, 8000, 65, 78];
    deltas.sort_unstable();
    assert_eq!(median_of(&deltas[..5]), 69);
    assert_eq!(median_of(&deltas[5..]), 78);
    assert_eq!(median_of(&[4, 9]), 6);
    assert_eq!(median_of(&[u64::MAX - 1, u64::MAX]), u64::MAX - 1);
    // The fences are 42 and 105: 3000 and 8000 fall outside.
    assert_eq!(mean_without_outliers(&deltas), (65 + 68 + 69 + 70 + 71 + 71 + 73 + 78) / 8);
    assert_eq!(mean_without_outliers(&[5, 5]), 5);
    assert_eq!(mean_without_outliers(&[1, 2, 90]), 31);
    assert_eq!(mean_without_outliers(&[10, 10, 11, 11, 90]), 26);
    assert_eq!(mean_without_outliers(&[10, 10, 10, 11, 11, 11, 900]), 10);
    assert_eq!(mean_without_outliers(&[u64::MAX, u64::MAX, u64::MAX]), u64::MAX);
}

#[test]
fn calibration_by_base_frequency() {
    let deltas = vec![2470_u64, 2473, 2468, 30_000, 2471, 2471, 2469, 80_000, 2465, 2478];
    let sleep = NanoSleep::calibrated(3000, 800, deltas).unwrap();
    assert_eq!(sleep.ticks_in_microsecond(), 3000);
    assert_eq!(sleep.correction_ticks(), 2470 - 2400);
    // Sorting matters: the same measurements in another order give the same.
    let again = NanoSleep::calibrated(3000, 800, vec![80_000, 2465, 2478, 2470, 2473, 2468, 30_000, 2471, 2471, 2469]).unwrap();
    assert_eq!(again, sleep);
    assert_eq!(NanoSleep::calibrated(3000, 800, vec![10, 20, 30]).unwrap().correction_ticks(), 0);
    assert!(NanoSleep::calibrated(3000, 800, vec![2470]).is_none());
    assert!(NanoSleep::calibrated(3000, 800, vec![]).is_none());
}

#[test]
fn calibration_by_the_wall_clock() {
    let sleep = NanoSleep::timed(3_000_123_456, 1000);
    assert_eq!(sleep.ticks_in_microsecond(), 3000);
    assert_eq!(sleep.correction_ticks(), 0);
    assert_eq!(NanoSleep::timed(999, 1).ticks_in_microsecond(), 0);
    assert_eq!(NanoSleep::choose_calibration(Some(true), Some(2400)), Calibration::Invariant(2400));
    assert_eq!(NanoSleep::choose_calibration(Some(false), Some(2400)), Calibration::Timed);
    assert_eq!(NanoSleep::choose_calibration(None, Some(2400)), Calibration::Timed);
    assert_eq!(NanoSleep::choose_calibration(Some(true), None), Calibration::Timed);
    // Whatever this machine says, it is one of the two.
    assert!(matches!(NanoSleep::calibration(), Calibration::Invariant(_) | Calibration::Timed));
}

#[test]
fn waits() {
    let sleep = NanoSleep::from_parts(3000, 70);
    assert_eq!(sleep.plan(1_000_000, 0), Wait::Nothing);
    assert_eq!(sleep.plan(1_000_000, 7), Wait::Nothing);
    assert_eq!(sleep.plan(1_000_000, 8), Wait::OneRead);
    assert_eq!(sleep.plan(1_000_000, 12), Wait::OneRead);
    assert_eq!(sleep.plan(1_000_000, 13), Wait::Until(1_000_000 - 70 + 39));
    assert_eq!(sleep.plan(1_000_000, 800), Wait::Until(1_000_000 - 70 + 2400));
    assert_eq!(sleep.plan(50, 800), Wait::Until(2400));
    assert_eq!(sleep.plan(u64::MAX, 800), Wait::Until(u64::MAX));
    assert_eq!(sleep.plan(0, u64::MAX), Wait::Until(u64::MAX));
}

#[test]
fn control_codes() {
    assert_eq!(make_ioctl(Func::ReadPortByte).raw(), 0x9C40_2004);
    assert_eq!(make_ioctl(Func::UnmapPhysicalMemory).raw(), 0x9C40_2020);
    assert_eq!(Ioctl::new(Method::Neither, DeviceAccess::Write, 0x22, 0x7FF).raw(), 0x8022_BFFF);
    assert_eq!(Ioctl::make_buffered(1).raw(), 0x8022_2004);
    assert_eq!(Ioctl::make_in_direct(1).raw(), 0x8022_2005);
    assert_eq!(Ioctl::make_out_direct(1).raw(), 0x8022_2006);
    assert_eq!(Ioctl::make_neither(1).raw(), 0x8022_2007);
    assert_eq!(Ioctl::new(Method::Buffered, DeviceAccess::Read, 0xFFFF_FFFF, 0xFFFF_FFFF).raw(), 0xFFFF_7FFC);
    let code = make_ioctl(Func::MapPhysicalMemory);
    assert_eq!((code.transfer_type(), code.function_code(), code.device_type()), (0, 7, 40_000 - 32_768));
    assert_eq!(Ioctl::default().raw(), 0);
    for (func, number) in [
        (Func::ReadPortByte, 1),
        (Func::WritePortByte, 2),
        (Func::ReadPortWord, 3),
        (Func::WritePortWord, 4),
        (Func::ReadPortDword, 5),
        (Func::WritePortDword, 6),
        (Func::MapPhysicalMemory, 7),
        (Func::UnmapPhysicalMemory, 8),
    ] {
        assert_eq!(u32::from(func), number);
    }
    assert_eq!(PortByte::read_fn_number(), Func::ReadPortByte);
    assert_eq!(PortByte::write_fn_number(), Func::WritePortByte);
    assert_eq!(PortWord::read_fn_number(), Func::ReadPortWord);
    assert_eq!(PortWord::write_fn_number(), Func::WritePortWord);
    assert_eq!(PortDword::read_fn_number(), Func::ReadPortDword);
    assert_eq!(PortDword::write_fn_number(), Func::WritePortDword);
}

#[test]
fn driver_requests() {
    assert_eq!(port_read_request(0x0061), vec![0x61, 0x00]);
    assert_eq!(port_write_request(0x0043, 0xB6, 1), vec![0x43, 0x00, 0xB6]);
    assert_eq!(port_write_request(0x1234, 0xABCD, 2), vec![0x34, 0x12, 0xCD, 0xAB]);
    assert_eq!(port_write_request(0x1234, 0x89AB_CDEF, 4), vec![0x34, 0x12, 0xEF, 0xCD, 0xAB, 0x89]);
    let request = Mapping64::request(0x1_0000_0000, 0x2000);
    assert_eq!(request.to_bytes().len(), 32);
    assert_eq!(&request.to_bytes()[8..24], &[0, 0x20, 0, 0, 0, 0, 0, 0, 0, 0, 0, 0, 1, 0, 0, 0]);
    assert_eq!(Mapping32::request(0x1_0000_0000, 0x2000), None);
    assert_eq!(Mapping32::request(0x1000, 0x1_0000_0000), None);
    let small = Mapping32::request(0xFFFF_FFFF, 0x2000).unwrap();
    assert_eq!(small.to_bytes(), vec![0, 0, 0, 0, 0, 0x20, 0, 0, 0xFF, 0xFF, 0xFF, 0xFF, 0, 0, 0, 0]);
    let mapping = PhysMapping { section: 5, size: 6, phys_address: 7, mapped: 8 };
    assert!(mapping.is_valid());
    assert!(!PhysMapping::default().is_valid());
    assert!(!PhysMapping { mapped: 0, ..mapping }.is_valid());
    assert_eq!(PhysMapping::from(Mapping64::of(mapping)), mapping);
    assert_eq!(Mapping32::of(mapping).map(PhysMapping::from), Some(mapping));
    assert_eq!(Mapping32::of(PhysMapping { mapped: 1 << 32, ..mapping }), None);
    assert_eq!(Mapping32::of(PhysMapping { section: 1 << 32, ..mapping }), None);
}

fn run(outcomes: &[Outcome]) -> (Vec<Step>, Loader) {
    let mut loader = Loader::new();
    let mut steps = vec![];
    for outcome in outcomes {
        assert!(!loader.is_over());
        steps.push(loader.step());
        loader = loader.next(*outcome);
    }
    (steps, loader)
}

#[test]
fn loading_the_driver() {
    let (bad_path, done, failed) = (Outcome::BadPath, Outcome::Done, Outcome::Failed);
    let (steps, end) = run(&[done]);
    assert_eq!((steps, end.step()), (vec![Step::OpenDevice], Step::Success));
    assert!(end.is_over());
    assert_eq!(end.next(failed), end);

    let (steps, end) = run(&[failed, done, done, done]);
    assert_eq!(steps, vec![Step::OpenDevice, Step::OpenService, Step::StartService, Step::OpenDevice]);
    assert_eq!(end.step(), Step::Success);

    let (steps, end) = run(&[failed, failed, done, done, done, done]);
    assert_eq!(steps, vec![Step::OpenDevice, Step::OpenService, Step::ExtractFile, Step::CreateService, Step::StartService, Step::OpenDevice]);
    assert_eq!(end.step(), Step::Success);

    // A service that does not start is deleted and made anew, once.
    let (steps, end) = run(&[failed, done, failed, done, done, done, failed]);
    assert_eq!(steps, vec![
        Step::OpenDevice,
        Step::OpenService,
        Step::StartService,
        Step::DeleteService,
        Step::ExtractFile,
        Step::CreateService,
        Step::StartService,
    ]);
    assert_eq!(end.step(), Step::Failure(LoadError::StartService));

    assert_eq!(run(&[failed, failed, failed]).1.step(), Step::Failure(LoadError::Unpack));
    assert_eq!(run(&[failed, failed, done, failed]).1.step(), Step::Failure(LoadError::CreateService));
    assert_eq!(run(&[failed, failed, done, bad_path]).1.step(), Step::Failure(LoadError::InvalidPath));
    assert_eq!(run(&[failed, done, failed, failed]).1.step(), Step::Failure(LoadError::DeleteService));
    assert_eq!(run(&[failed, done, done, failed]).1.step(), Step::Failure(LoadError::OpenDevice));

    // However the steps go, the loading is over after fifteen of them.
    for pattern in 0..(1_u32 << 15) {
        let mut loader = Loader::new();
        let mut taken = 0;
        let mut deleted = 0;
        while !loader.is_over() {
            if loader.step() == Step::DeleteService {
                deleted += 1;
            }
            let outcome = if pattern >> taken & 1 == 1 { done } else { failed };
            loader = loader.next(outcome);
            taken += 1;
            assert!(taken <= 15);
        }
        assert!(deleted <= 1);
    }
}

#[test]
fn cache_names_and_encoders() {
    assert_eq!(converter::cache_file_name(0, 8, 1), "0_8_1.wav");
    assert_eq!(converter::cache_file_name(u64::MAX, 16, 22_050), "18446744073709551615_16_22050.wav");
    let data = b"some song";
    assert_eq!(converter::calc_hash(data), wyhash::wyhash(data, 0x1EE7_C0DE));
    assert_ne!(converter::calc_hash(data), converter::calc_hash(b"another song"));
    assert_ne!(converter::calc_hash(&[0, 1, 2]), 0xb0f9_4152_0b1a_d95d);
    assert_eq!(wyhash::wyhash(&[0, 1, 2], 3), 0xb0f9_4152_0b1a_d95d);
    assert_eq!(
        converter::cache_file_name_of(data, converter::DEFAULT_BITNESS, converter::DEFAULT_SAMPLE_RATE),
        format!("{}_16_22050.wav", wyhash::wyhash(data, 0x1EE7_C0DE))
    );
    assert_eq!(converter::encoder_name(8), Some("pcm_u8"));
    assert_eq!(converter::encoder_name(16), Some("pcm_s16le"));
    assert_eq!(converter::encoder_name(24), Some("pcm_s24le"));
    assert_eq!(converter::encoder_name(32), Some("pcm_s32le"));
    assert_eq!(converter::encoder_name(0), None);
    assert_eq!(converter::encoder_name(12), None);
}

fn args(list: &[&str]) -> Vec<String> {
    list.iter().map(|s| (*s).to_string()).collect()
}

fn parsed(list: &[&str]) -> Result<(String, Vec<Param>), ParamError> {
    match parse_params(&args(list))? {
        Command::Play { path, params } => Ok((path.into_iter().collect(), params)),
        Command::Help => panic!("help was not asked for"),
    }
}

#[test]
fn program_arguments() {
    assert_eq!(parsed(&[]), Ok((String::new(), vec![])));
    assert_eq!(parsed(&["song.mp3"]), Ok(("song.mp3".to_string(), vec![])));
    assert_eq!(parsed(&["a.wav", "--iopl", "b.wav"]), Ok(("b.wav".to_string(), vec![Param::Iopl])));
    assert_eq!(
        parsed(&["--low-pass=100", "--high-pass=4000", "--bake-diff=5", "--switch-interval=35000000", "--bake-simple", "--note-matcher", "-x"]),
        Ok(("-x".to_string(), vec![
            Param::LowPass(100),
            Param::HighPass(4000),
            Param::BakeDifferential(5),
            Param::SwitchInterval(35_000_000),
            Param::BakeSimple,
            Param::NoteMatcher,
        ]))
    );
    assert_eq!(
        parsed(&["--extract-freq=min=300,max=4000,sampling=4096,step=32,channels=2"]),
        Ok((String::new(), vec![Param::ExtractFreq(Some(300), Some(4000), Some(4096), Some(32), Some(2))]))
    );
    assert_eq!(
        parsed(&["--extract-freq=channels=3,min=1,min=2=9"]),
        Ok((String::new(), vec![Param::ExtractFreq(Some(2), None, None, None, Some(3))]))
    );
    assert_eq!(parsed(&["--extract-freq"]), Ok((String::new(), vec![Param::ExtractFreq(None, None, None, None, None)])));
    assert_eq!(parsed(&["--iopl=whatever"]), Ok((String::new(), vec![Param::Iopl])));
    assert_eq!(parsed(&["--switch-interval=+18446744073709551615"]), Ok((String::new(), vec![Param::SwitchInterval(u64::MAX)])));
    assert!(matches!(parse_params(&args(&["--iopl", "--help", "--bogus"])), Ok(Command::Help)));
}

#[test]
fn argument_errors() {
    let error = |list: &[&str]| parsed(list).err();
    let at = |kind, index| Some(ParamError { kind, index });
    assert_eq!(error(&["--bogus", "--help"]), at(ParamErrorKind::UnknownParameter, 0));
    assert_eq!(error(&["x", "--low-pass"]), at(ParamErrorKind::MissingValue, 1));
    assert_eq!(error(&["--low-pass="]), at(ParamErrorKind::BadValue, 0));
    assert_eq!(error(&["--low-pass=4294967296"]), at(ParamErrorKind::BadValue, 0));
    assert_eq!(error(&["--high-pass=-1"]), at(ParamErrorKind::BadValue, 0));
    assert_eq!(error(&["--bake-diff=256"]), at(ParamErrorKind::BadValue, 0));
    assert_eq!(error(&["--switch-interval=18446744073709551616"]), at(ParamErrorKind::BadValue, 0));
    assert_eq!(error(&["--switch-interval"]), at(ParamErrorKind::MissingValue, 0));
    assert_eq!(error(&["--extract-freq="]), at(ParamErrorKind::MissingValue, 0));
    assert_eq!(error(&["--extract-freq=min"]), at(ParamErrorKind::MissingValue, 0));
    assert_eq!(error(&["--extract-freq=min=1,,max=2"]), at(ParamErrorKind::MissingValue, 0));
    assert_eq!(error(&["--extract-freq=top=1"]), at(ParamErrorKind::UnknownParameter, 0));
    assert_eq!(error(&["--extract-freq=channels=256"]), at(ParamErrorKind::BadValue, 0));
    assert_eq!(error(&["--extract-freq=min=x,top=1"]), at(ParamErrorKind::BadValue, 0));
    assert_eq!(error(&["--"]), at(ParamErrorKind::UnknownParameter, 0));
    let arg: Vec<char> = "--bake-diff=7".chars().collect();
    assert_eq!(parse_option(&arg), Ok(Some(Param::BakeDifferential(7))));
}

#[test]
fn play_settings() {
    let params = vec![
        Param::HighPass(300),
        Param::Iopl,
        Param::LowPass(4000),
        Param::ExtractFreq(Some(100), None, None, Some(64), None),
        Param::SwitchInterval(7),
        Param::NoteMatcher,
        Param::BakeSimple,
        Param::BakeDifferential(9),
    ];
    let play = parse_wave_params(&params, 22_050);
    assert_eq!(play.beeper_type, BeeperType::Iopl);
    assert_eq!(play.switch_interval, 7);
    assert_eq!(play.filters, vec![
        FilterSpec::HighPass { sample_rate: 22_050, cutoff: 300 },
        FilterSpec::LowPass { sample_rate: 22_050, cutoff: 4000 },
        FilterSpec::ExtractFreq {
            lower_bound_hz: Some(100),
            upper_bound_hz: None,
            sampling_size: 4096,
            step_by: 64,
            sample_rate: 22_050,
            number_of_peaks: 2,
        },
        FilterSpec::NoteMatcher,
        FilterSpec::BakeSimple,
        FilterSpec::BakeDifferential(9),
    ]);
    let plain = parse_wave_params(&vec![], 8000);
    assert_eq!((plain.beeper_type, plain.switch_interval, plain.filters.len()), (BeeperType::Ioctl, 20_000_000, 0));
    let synth = parse_synth_params(&vec![Param::SwitchInterval(5), Param::Iopl]).ok().unwrap();
    assert_eq!((synth.beeper_type, synth.switch_interval, synth.filters.len()), (BeeperType::Iopl, 5, 0));
    assert_eq!(parse_synth_params(&vec![Param::Iopl, Param::NoteMatcher, Param::BakeSimple]).err(), Some(1));
}

#[test]
fn filter_chains() {
    let low = FilterSpec::LowPass { sample_rate: 1, cutoff: 1 };
    let extract = FilterSpec::ExtractFreq {
        lower_bound_hz: None,
        upper_bound_hz: None,
        sampling_size: 4096,
        step_by: 32,
        sample_rate: 1,
        number_of_peaks: 2,
    };
    assert_eq!(check_chain(&vec![], DataKind::Amplitude), Ok(DataKind::Amplitude));
    assert_eq!(check_chain(&vec![low, low, FilterSpec::BakeSimple], DataKind::Amplitude), Ok(DataKind::Position));
    assert_eq!(check_chain(&vec![low, extract, FilterSpec::NoteMatcher, FilterSpec::NoteMatcher], DataKind::Amplitude), Ok(DataKind::Frequency));
    assert_eq!(check_chain(&vec![low, FilterSpec::NoteMatcher], DataKind::Amplitude), Err(1));
    assert_eq!(check_chain(&vec![FilterSpec::BakeSimple, FilterSpec::BakeDifferential(5)], DataKind::Amplitude), Err(1));
    assert_eq!(check_chain(&vec![FilterSpec::NoteMatcher, FilterSpec::BakeSimple], DataKind::Frequency), Err(1));
    assert_eq!(check_chain(&vec![FilterSpec::BakeSimple], DataKind::Position), Err(0));
    assert_eq!(low.input_kind(), DataKind::Amplitude);
    assert_eq!(extract.output_kind(), DataKind::Frequency);
}

#[test]
fn peaks_are_followed_through_windows() {
    let extractor = FreqExtractor::new(Some(100), None, 1000, 250, 8000, 2);
    assert!(extractor.is_usable());
    assert_eq!((extractor.sampling_size(), extractor.step_by(), extractor.number_of_peaks()), (1000, 250, 2));
    assert_eq!(extractor.lower_index(), 12);
    assert_eq!(extractor.upper_index(), 500);
    assert_eq!(extractor.step_duration(), 31_250_000);
    assert_eq!(extractor.bin_frequency(55), 440_000);
    assert_eq!(extractor.window_count(999), 0);
    assert_eq!(extractor.window_count(1000), 0);
    assert_eq!(extractor.window_count(1001), 1);
    assert_eq!(extractor.window_count(1250), 1);
    assert_eq!(extractor.window_count(1251), 2);
    assert_eq!(extractor.window_start(3), 750);
    // The peak finder gives the highest peak first.
    let spectrum = |peaks: &[(usize, i64)]| -> Vec<i64> {
        let mut s = vec![0_i64; 200];
        for (at, height) in peaks {
            s[*at] = *height;
        }
        s
    };
    let spectra = vec![
        spectrum(&[(43, 9000), (100, 5000)]),
        spectrum(&[(43, 9000), (100, 9500), (150, 100)]),
        spectrum(&[(43, 8000)]),
        spectrum(&[]),
        spectrum(&[(1, 70)]),
    ];
    let data = extractor.extract(&spectra);
    let flat: Vec<Vec<(u64, u64)>> = data.iter().map(|c| c.iter().map(|r| (r.freq, r.duration)).collect()).collect();
    assert_eq!(flat, vec![
        vec![(440_000, 31_250_000), (896_000, 31_250_000), (440_000, 31_250_000), (104_000, 31_250_000)],
        vec![(896_000, 31_250_000), (440_000, 31_250_000)],
    ]);
    // A frequency of less than a twentieth of the last one lengthens the last record.
    let windows = vec![vec![188_usize], vec![0], vec![0, 5], vec![]];
    let data = extractor.track(&windows);
    let flat: Vec<Vec<(u64, u64)>> = data.iter().map(|c| c.iter().map(|r| (r.freq, r.duration)).collect()).collect();
    assert_eq!(flat, vec![vec![(1_600_000, 31_250_000), (96_000, 31_250_000), (96_000, 31_250_000)], vec![(136_000, 31_250_000)]]);
    let windows = vec![vec![988_usize], vec![0], vec![0]];
    let data = extractor.track(&windows);
    assert_eq!(data[0].iter().map(|r| (r.freq, r.duration)).collect::<Vec<_>>(), vec![(8_000_000, 93_750_000)]);
    assert!(!FreqExtractor::new(None, None, 0, 1, 1, 1).is_usable());
    assert!(!FreqExtractor::new(None, None, 1, 0, 1, 1).is_usable());
    assert!(!FreqExtractor::new(None, None, 1, 1, 0, 1).is_usable());
}

struct Stop(std::rc::Rc<std::cell::Cell<bool>>);

impl StopFlag for Stop {
    fn is_stopped(&self) -> bool {
        self.0.get()
    }
}

#[test]
fn peekers_hand_out_until_stopped() {
    let flag = std::rc::Rc::new(std::cell::Cell::new(false));
    let records = vec![
        PositionRecord { position: Position::Up, duration: 1 },
        PositionRecord { position: Position::Down, duration: 2 },
        PositionRecord { position: Position::Up, duration: 3 },
    ];
    let mut peeker = AmplitudePeeker::new(records.clone(), Stop(flag.clone()));
    assert_eq!(peeker.peek(), Some(records[0]));
    assert_eq!(peeker.peek(), Some(records[1]));
    flag.set(true);
    assert_eq!(peeker.peek(), None);
    flag.set(false);
    assert_eq!(peeker.peek(), Some(records[2]));
    assert_eq!(peeker.peek(), None);
    assert!(!NeverStop.is_stopped());

    let mut tones = FrequencyPeeker::new(Stop(flag.clone()));
    assert_eq!(tones.channel_count(), 0);
    assert!(tones.peek(0).is_none());
    tones.add(vec![FreqRecord { freq: 440_999, duration: 5 }, FreqRecord { freq: 999, duration: 6 }]);
    tones.add(vec![FreqRecord { freq: u64::MAX, duration: 7 }]);
    assert_eq!(tones.channel_count(), 2);
    let brief = |r: Option<FreqRecord<u32>>| r.map(|r| (r.freq, r.duration));
    assert_eq!(brief(tones.peek(1)), Some((u32::MAX, 7)));
    assert_eq!(brief(tones.peek(0)), Some((440, 5)));
    flag.set(true);
    assert_eq!(brief(tones.peek(0)), None);
    flag.set(false);
    assert_eq!(brief(tones.peek(0)), Some((0, 6)));
    assert_eq!(brief(tones.peek(0)), None);
    assert_eq!(brief(tones.peek(1)), None);
    assert_eq!(brief(tones.peek(2)), None);
}

#[test]
fn system_numbers() {
    assert_eq!(Priority::Idle.get_process_priority_class(), 0x40);
    assert_eq!(Priority::Lowest.get_process_priority_class(), 0x4000);
    assert_eq!(Priority::Lower.get_process_priority_class(), 0x4000);
    assert_eq!(Priority::Normal.get_process_priority_class(), 0x20);
    assert_eq!(Priority::Higher.get_process_priority_class(), 0x8000);
    assert_eq!(Priority::Highest.get_process_priority_class(), 0x80);
    assert_eq!(Priority::Realtime.get_process_priority_class(), 0x100);
    let levels: Vec<i32> = [Priority::Idle, Priority::Lowest, Priority::Lower, Priority::Normal, Priority::Higher, Priority::Highest, Priority::Realtime]
        .iter()
        .map(|p| p.get_thread_priority())
        .collect();
    assert_eq!(levels, vec![-15, -2, -1, 0, 1, 2, 15]);
    assert_eq!(Affinity::All.mask(), Some(0));
    assert_eq!(Affinity::Exact(0).mask(), Some(1));
    assert_eq!(Affinity::Exact(5).mask(), Some(32));
    assert_eq!(Affinity::Exact(usize::BITS as usize - 1).mask(), Some(1 << (usize::BITS - 1)));
    assert_eq!(Affinity::Exact(usize::BITS as usize).mask(), None);
    assert_eq!(Affinity::Mask(0b1010).mask(), Some(0b1010));
    assert_eq!(last_cpu(8), Some(Affinity::Exact(7)));
    assert_eq!(last_cpu(0), None);
    for raw in 0..10_u32 {
        let status = ServiceStatus::from_raw_status(raw);
        assert_eq!(status == ServiceStatus::Unknown, raw == 0 || raw > 7);
        assert_eq!(ServiceStatus::from_raw_status(status.raw()), status);
    }
    assert_eq!(ServiceStatus::from_raw_status(4), ServiceStatus::Running);
    assert_eq!(ServiceStatus::Running.to_string(), "RUNNING");
    assert_eq!(ServiceStatus::StartPending.to_string(), "START_PENDING");
    assert_eq!(ServiceStatus::Unknown.as_str(), "UNKNOWN");
    assert_eq!(current(), if usize::BITS == 64 { Arch::x64 } else { Arch::i386 });
}

#[test]
fn text_tools() {
    let chars = |s: &str| -> Vec<char> { s.chars().collect() };
    let strings = |list: Vec<Vec<char>>| -> Vec<String> { list.into_iter().map(|w| w.into_iter().collect()).collect() };
    assert_eq!(text::chars_of("a\u{266F}b"), vec!['a', '\u{266F}', 'b']);
    assert_eq!(text::parse_unsigned(&chars("0"), 0), Some(0));
    assert_eq!(text::parse_unsigned(&chars("+007"), 7), Some(7));
    assert_eq!(text::parse_unsigned(&chars("8"), 7), None);
    assert_eq!(text::parse_unsigned(&chars("18446744073709551615"), u64::MAX), Some(u64::MAX));
    assert_eq!(text::parse_unsigned(&chars("18446744073709551616"), u64::MAX), None);
    assert_eq!(text::parse_unsigned(&chars("99999999999999999999999"), u64::MAX), None);
    for bad in ["", "+", "-1", "1 ", " 1", "1+", "++1", "0x10", "\u{661}"] {
        assert_eq!(text::parse_unsigned(&chars(bad), u64::MAX), None, "{bad:?}");
        assert!(bad.parse::<u64>().is_err());
    }
    assert_eq!(strings(text::split_on(&chars("a,b,,c,"), ',')), vec!["a", "b", "", "c", ""]);
    assert_eq!(strings(text::split_on(&chars(""), ',')), vec![""]);
    assert_eq!(strings(text::words(&chars("  one\ttwo \u{3000} three\r\n"))), vec!["one", "two", "three"]);
    assert_eq!(strings(text::words(&chars(" \n "))), Vec::<String>::new());
    assert_eq!(text::trim(&chars(" \u{a0} a b \t")), chars("a b"));
    assert_eq!(text::trim(&chars(" \t ")), chars(""));
    for c in ['\0', '\t', '\n', '\u{b}', '\u{c}', '\r', ' ', '\u{85}', '\u{a0}', '\u{1680}', '\u{2000}', '\u{200a}', '\u{200b}', '\u{2028}', '\u{2029}', '\u{202f}', '\u{205f}', '\u{3000}', 'x', '\u{feff}'] {
        assert_eq!(text::char_is_whitespace(c), c.is_whitespace(), "{c:?}");
    }
    let mut out = String::from("n=");
    text::push_decimal(&mut out, 0);
    text::push_decimal(&mut out, 1_000_000_007);
    assert_eq!(out, "n=01000000007");
    assert!(text::spells(&chars("bpm"), "bpm"));
    assert!(!text::spells(&chars("bpm "), "bpm"));
    assert_eq!(text::find_char_from(&chars("a:b:c"), ':', 2), Some(3));
    assert_eq!(text::find_char_from(&chars("a:b:c"), ':', 4), None);
    assert_eq!(text::skip_digits_from(&chars("a12b"), 1), 3);
}
