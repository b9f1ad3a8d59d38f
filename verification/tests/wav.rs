use beesynth::audio_classifier::{is_mp3, is_synth, AudioType};
use beesynth::wave::filter::{Data, FULL_SCALE};
use beesynth::wave::wav_extractor::{every_nth, scale};
use beesynth::wave::wav_header::{NotWav, SubchunkHeader, Wave, WavHeader, WaveView};

fn wav_file(channels: u16, rate: u32, bits: u16, extra: &[u8], data: &[u8]) -> Vec<u8> {
    let mut file = Vec::new();
    file.extend_from_slice(b"RIFF");
    file.extend_from_slice(&(4 + 24 + extra.len() as u32 + 8 + data.len() as u32).to_le_bytes());
    file.extend_from_slice(b"WAVE");
    file.extend_from_slice(b"fmt ");
    file.extend_from_slice(&16_u32.to_le_bytes());
    file.extend_from_slice(&1_u16.to_le_bytes());
    file.extend_from_slice(&channels.to_le_bytes());
    file.extend_from_slice(&rate.to_le_bytes());
    file.extend_from_slice(&(rate * u32::from(channels) * u32::from(bits) / 8).to_le_bytes());
    file.extend_from_slice(&(channels * bits / 8).to_le_bytes());
    file.extend_from_slice(&bits.to_le_bytes());
    file.extend_from_slice(extra);
    file.extend_from_slice(b"data");
    file.extend_from_slice(&(data.len() as u32).to_le_bytes());
    file.extend_from_slice(data);
    file
}

fn samples_of(file: &[u8]) -> (Vec<i32>, u16) {
    match WaveView::try_from(file).unwrap().into_data() {
        Some(Data::Amplitude(wave)) => (wave.samples, wave.sample_rate),
        _ => panic!("a wave file gives samples"),
    }
}

#[test]
fn header_fields() {
    let file = wav_file(2, 44_100, 16, &[], &[1, 2, 3, 4, 5, 6, 7, 8, 9, 10, 11, 12]);
    assert!(WavHeader::is_wav(&file));
    let view = WaveView::try_from(file.as_slice()).unwrap();
    let header = view.header();
    assert_eq!(header.chunk_id, WavHeader::RIFF_SIGNATURE);
    assert_eq!(header.format, WavHeader::WAVE_SIGNATURE);
    assert_eq!(header.chunk_size as usize, file.len() - 8);
    assert!(header.first_subchunk_header.is_fmt());
    assert!(!header.first_subchunk_header.is_data());
    assert_eq!(header.first_subchunk_header.subchunk_size, 16);
    assert_eq!(header.first_subchunk_header.next(12), 36);
    assert_eq!(header.audio_format, 1);
    assert_eq!(header.num_channels, 2);
    assert_eq!(header.sample_rate, 44_100);
    assert_eq!(header.byte_rate, 176_400);
    assert_eq!(header.block_align, 4);
    assert_eq!(header.bits_per_sample, 16);
    assert_eq!(view.find_payload(), Some((44, 12)));
    assert_eq!(SubchunkHeader::read(&file, 36).subchunk_id, SubchunkHeader::DATA_SIGNATURE);
    assert!(SubchunkHeader::read(&file, 36).is_data());
}

#[test]
fn what_is_no_wave_file() {
    assert!(!WavHeader::is_wav(b""));
    assert!(!WavHeader::is_wav(b"RIFF....WAVE"));
    let mut file = wav_file(1, 8000, 8, &[], &[]);
    assert!(WavHeader::is_wav(&file[..36]));
    assert!(!WavHeader::is_wav(&file[..35]));
    file[8] = b'w';
    assert!(!WavHeader::is_wav(&file));
    assert_eq!(WaveView::try_from(file.as_slice()).err(), Some(NotWav));
    file[8] = b'W';
    file[3] = b'X';
    assert!(WaveView::try_from(file.as_slice()).is_err());
}

#[test]
fn samples_of_each_width() {
    let file = wav_file(1, 8000, 8, &[], &[0, 127, 128, 254, 255, 127, 127, 127, 127]);
    assert!(matches!(WaveView::try_from(file.as_slice()).unwrap().lookup_samples(), Wave::Wave8(s) if s == [0, 127, 128, 254, 255, 127, 127, 127, 127]));
    assert_eq!(samples_of(&file), (vec![-FULL_SCALE, 0, 16_909_320, FULL_SCALE, FULL_SCALE, 0, 0, 0, 0], 8000));

    let mut data = vec![];
    for s in [0_i16, 1, -1, 32_767, -32_767, -32_768] {
        data.extend_from_slice(&s.to_le_bytes());
    }
    let file = wav_file(1, 22_050, 16, &[], &data);
    assert!(matches!(WaveView::try_from(file.as_slice()).unwrap().lookup_samples(), Wave::Wave16(s) if s == [0, 1, -1, 32_767, -32_767, -32_768]));
    assert_eq!(samples_of(&file), (vec![0, 65_538, -65_538, FULL_SCALE, -FULL_SCALE, -FULL_SCALE], 22_050));

    let mut data = vec![];
    for s in [0_i32, 1, -1, i32::MAX, i32::MIN, 123_456_789] {
        data.extend_from_slice(&s.to_le_bytes());
    }
    data.extend_from_slice(&[9, 9, 9]);
    let file = wav_file(1, 96_000, 32, &[], &data);
    assert!(matches!(WaveView::try_from(file.as_slice()).unwrap().lookup_samples(), Wave::Wave32(s) if s == [0, 1, -1, i32::MAX, i32::MIN, 123_456_789]));
    assert_eq!(samples_of(&file), (vec![0, 1, -1, FULL_SCALE, -FULL_SCALE, 123_456_789], (96_000_u32 % 65_536) as u16));
}

#[test]
fn amplitudes_follow_the_floating_point_formula() {
    for s in [-32_768_i64, -20_000, -1, 0, 1, 12_345, 32_767] {
        let exact = (s as f64 / 32_767.0).clamp(-1.0, 1.0) * f64::from(FULL_SCALE);
        assert!((f64::from(scale(s, 32_767)) - exact).abs() <= 1.0);
    }
    for s in 0..=255_i64 {
        let exact = ((s - 127) as f64 / 127.0).clamp(-1.0, 1.0) * f64::from(FULL_SCALE);
        assert!((f64::from(scale(s - 127, 127)) - exact).abs() <= 1.0);
        assert_eq!(scale(s - 127, 127) > 0, s > 127);
    }
}

#[test]
fn only_the_first_channel_is_kept() {
    let mut data = vec![];
    for s in [10_i32, 20, 30, 11, 21, 31, 12, 22] {
        data.extend_from_slice(&s.to_le_bytes());
    }
    let file = wav_file(3, 100, 32, &[], &data);
    assert_eq!(samples_of(&file).0, vec![10, 11, 12]);
    assert_eq!(every_nth(&vec![1, 2, 3, 4, 5, 6], 2), vec![1, 3, 5]);
    assert_eq!(every_nth(&vec![1, 2, 3, 4, 5], 2), vec![1, 3, 5]);
    assert_eq!(every_nth(&vec![1, 2, 3], 1), vec![1, 2, 3]);
    assert_eq!(every_nth(&vec![1, 2, 3], 7), vec![1]);
    assert_eq!(every_nth(&vec![], 7), Vec::<i32>::new());
}

#[test]
fn subchunks_before_the_samples_are_passed_over() {
    let mut extra = vec![];
    extra.extend_from_slice(b"LIST");
    extra.extend_from_slice(&6_u32.to_le_bytes());
    extra.extend_from_slice(b"abcdef");
    let file = wav_file(1, 100, 8, &extra, &[200, 100, 1, 2, 3, 4, 5, 6, 7]);
    assert_eq!(WaveView::try_from(file.as_slice()).unwrap().find_payload(), Some((58, 9)));
    assert_eq!(samples_of(&file).0.len(), 9);
    // A subchunk of samples is only sought up to eight bytes before the end that
    // the header gives, so the samples of this file are not found.
    let file = wav_file(1, 100, 8, &extra, &[200, 100]);
    assert_eq!(WaveView::try_from(file.as_slice()).unwrap().find_payload(), None);
}

#[test]
fn files_without_readable_samples() {
    // The samples are announced but are not all there.
    let mut file = wav_file(1, 100, 8, &[], &[1, 2, 3, 4, 5, 6, 7, 8, 9, 10]);
    file.truncate(file.len() - 1);
    let view = WaveView::try_from(file.as_slice()).unwrap();
    assert_eq!(view.find_payload(), None);
    assert!(matches!(view.lookup_samples(), Wave::Unknown));
    assert_eq!(samples_of(&file), (vec![], 100));

    // A width that cannot be read.
    let file = wav_file(1, 100, 24, &[], &[1, 2, 3, 4, 5, 6, 7, 8, 9]);
    assert!(matches!(WaveView::try_from(file.as_slice()).unwrap().lookup_samples(), Wave::Unknown));
    assert_eq!(samples_of(&file), (vec![], 100));

    // No data subchunk before the end that the header gives.
    let mut file = wav_file(1, 100, 8, &[], &[1, 2, 3, 4, 5, 6, 7, 8, 9]);
    assert!(WaveView::try_from(file.as_slice()).unwrap().find_payload().is_some());
    file[36] = b'D';
    assert_eq!(WaveView::try_from(file.as_slice()).unwrap().find_payload(), None);

    // Samples, but no channel.
    let file = wav_file(0, 100, 8, &[], &[1, 2, 3, 4, 5, 6, 7, 8, 9]);
    assert!(WaveView::try_from(file.as_slice()).unwrap().into_data().is_none());
    let file = wav_file(0, 100, 24, &[], &[1, 2, 3, 4, 5, 6, 7, 8, 9]);
    assert!(WaveView::try_from(file.as_slice()).unwrap().into_data().is_some());
}

#[test]
fn waves_as_sixteen_bit_samples() {
    assert_eq!(Wave::Unknown.into_i16(), Vec::<i16>::new());
    assert_eq!(Wave::Wave8(vec![0, 127, 128, 254, 255]).into_i16(), vec![-32_512, 0, 256, 32_512, 32_767]);
    assert_eq!(Wave::Wave16(vec![5, -5]).into_i16(), vec![5, -5]);
    assert_eq!(Wave::Wave32(vec![65_536, -65_536, 65_535, -65_535, i32::MAX, i32::MIN]).into_i16(), vec![1, -1, 0, 0, 32_767, -32_768]);
}

#[test]
fn classification() {
    assert_eq!(AudioType::classify(&wav_file(1, 1, 8, &[], &[])), AudioType::Wav);
    assert_eq!(AudioType::classify(b"ID3\x04rest"), AudioType::Mp3);
    assert_eq!(AudioType::classify(b"\xFF\xFBrest"), AudioType::Mp3);
    assert_eq!(AudioType::classify(b"#!/bin/beesynth\n@bpm: 1\n"), AudioType::Synth);
    assert_eq!(AudioType::classify(b"#!/bin/beesynth"), AudioType::Synth);
    assert_eq!(AudioType::classify(b"#!/bin/beesynt"), AudioType::Unknown);
    assert_eq!(AudioType::classify(b"HD3"), AudioType::Unknown);
    assert_eq!(AudioType::classify(b""), AudioType::Unknown);
    assert_eq!(AudioType::classify(b"\xFF"), AudioType::Unknown);
    assert!(is_mp3(b"ID3"));
    assert!(!is_mp3(b"ID"));
    assert!(is_synth(b"#!/bin/beesynth and more"));
    assert!(!is_synth(b" #!/bin/beesynth"));
}
