use beesynth::note::Note;
use beesynth::xm::xm_header::{
    frequency_of_note, FixedPattern, PackedPattern, Pattern, PatternData, PatternHeader, PatternType, XmHeader,
};

fn module(patterns: &[Vec<u8>]) -> Vec<u8> {
    let mut file = vec![0_u8; 336];
    file[..17].copy_from_slice(b"Extended Module: ");
    file[17..37].copy_from_slice(b"a song              ");
    file[37] = 0x1a;
    file[38..58].copy_from_slice(b"FastTracker v2.00   ");
    file[58..60].copy_from_slice(&0x0104_u16.to_le_bytes());
    file[60..64].copy_from_slice(&276_u32.to_le_bytes());
    file[64..66].copy_from_slice(&3_u16.to_le_bytes());
    file[68..70].copy_from_slice(&2_u16.to_le_bytes());
    file[70..72].copy_from_slice(&(patterns.len() as u16).to_le_bytes());
    file[76..78].copy_from_slice(&6_u16.to_le_bytes());
    file[78..80].copy_from_slice(&125_u16.to_le_bytes());
    file[80] = 1;
    file[81] = 0;
    file[82] = 1;
    for notes in patterns {
        file.extend_from_slice(&9_u32.to_le_bytes());
        file.push(0);
        file.extend_from_slice(&64_u16.to_le_bytes());
        file.extend_from_slice(&(notes.len() as u16).to_le_bytes());
        file.extend_from_slice(notes);
    }
    file
}

#[test]
fn module_header() {
    let file = module(&[vec![1, 2, 3, 4, 5], vec![0x80], vec![]]);
    assert!(XmHeader::is_xm(&file));
    let header = XmHeader::from_raw(&file);
    assert_eq!(header.must_be_0x1a, 0x1a);
    assert_eq!(header.version_number, 0x0104);
    assert_eq!(header.header_size, 276);
    assert_eq!(header.song_length, 3);
    assert_eq!(header.number_of_channels, 2);
    assert_eq!(header.number_of_patterns, 3);
    assert_eq!((header.default_tempo, header.default_bpm), (6, 125));
    assert_eq!(header.first_pattern_header(), 336);
    assert_eq!((XmHeader::pattern_at(&file, 0), XmHeader::pattern_at(&file, 1), XmHeader::pattern_at(&file, 255)), (1, 0, 0));
    let headers = XmHeader::pattern_headers(&file).unwrap();
    let places: Vec<usize> = headers.iter().map(|h| h.0).collect();
    assert_eq!(places, vec![336, 350, 360]);
    assert_eq!(headers[1].1, PatternHeader { pattern_header_length: 9, packing_type: 0, number_of_rows_in_pattern: 64, packed_pattern_data_size: 1 });
    assert_eq!(headers[0].1.first_pattern(336), 345);
    assert_eq!(PatternHeader::read(&file, 350), headers[1].1);
    assert!(XmHeader::pattern_headers(&file[..file.len() - 1]).is_none());
    assert!(XmHeader::pattern_headers(&file[..355]).is_none());
}

#[test]
fn what_is_no_module() {
    let file = module(&[]);
    assert!(XmHeader::is_xm(&file));
    assert!(!XmHeader::is_xm(&file[..335]));
    let mut bad = file.clone();
    bad[15] = b';';
    assert!(!XmHeader::is_xm(&bad));
    let mut bad = file.clone();
    bad[57] = b'!';
    assert!(!XmHeader::is_xm(&bad));
    let mut fine = file.clone();
    fine[16] = b'?';
    fine[20] = b'?';
    assert!(XmHeader::is_xm(&fine));
    assert!(!XmHeader::is_xm(b""));
}

#[test]
fn notes_in_full_and_packed() {
    let full = [46_u8, 7, 0x40, 3, 9];
    assert_eq!(Pattern::read(&full, 0).pattern_type(), PatternType::Fixed);
    let fixed = Pattern::as_fixed(&full, 0);
    assert_eq!(fixed, FixedPattern { note: 46, instrument: 7, volume_column_byte: 0x40, effect_type: 3, effect_parameter: 9 });
    assert_eq!(fixed.len(), 5);
    assert_eq!(fixed.pattern(), PatternData { note_freq: Some(440_000), note: Some(46), instrument: 7, volume: 0x40, effect: 3, effect_param: 9 });
    let none = FixedPattern { note: 97, ..fixed };
    assert_eq!((none.pattern().note, none.pattern().note_freq), (None, None));
    let rest = FixedPattern { note: 0, ..fixed };
    assert_eq!((rest.pattern().note, rest.pattern().note_freq), (Some(0), Some(0)));

    let packed = [0x80 | 0b0_0101, 1, 22, 33, 44, 55];
    let first = Pattern::read(&packed, 0);
    assert_eq!(first.pattern_type(), PatternType::Packed);
    let mask = first.as_packed();
    assert_eq!(mask, PackedPattern { mask: 0x85 });
    assert_eq!(mask.len(), 3);
    assert!(!mask.is_empty());
    assert!(mask.has(0) && !mask.has(1) && mask.has(2) && !mask.has(3) && !mask.has(4));
    assert_eq!(PackedPattern::pattern(&packed, 0), PatternData { note_freq: Some(32_703), note: Some(1), instrument: 0, volume: 33, effect: 0, effect_param: 0 });
    let all = [0x9F_u8, 200, 22, 33, 44, 55];
    assert_eq!(PackedPattern::pattern(&all, 0), PatternData { note_freq: None, note: None, instrument: 22, volume: 33, effect: 44, effect_param: 55 });
    let blank = [0x80_u8, 1, 2, 3, 4, 5];
    assert!(PackedPattern { mask: 0x80 }.is_empty());
    assert_eq!(PackedPattern { mask: 0x80 }.len(), 1);
    assert_eq!(PackedPattern { mask: 0xFF }.len(), 8);
    assert_eq!(PackedPattern::pattern(&blank, 0), PatternData { note_freq: Some(0), note: Some(0), ..PatternData::default() });
}

#[test]
fn module_notes_are_the_notes_from_c1_on() {
    assert_eq!(frequency_of_note(0), 0);
    assert_eq!(frequency_of_note(1), Note::C(1).freq());
    assert_eq!(frequency_of_note(46), Note::A(4).freq());
    assert_eq!(frequency_of_note(96), Note::B(8).freq());
    let table = [(1_u8, 32.70_f64), (13, 65.41), (30, 174.61), (46, 440.00), (85, 4186.01), (96, 7902.13)];
    for (note, hertz) in table {
        assert!((frequency_of_note(note) as f64 / 1000.0 - hertz).abs() < 0.01);
    }
}
