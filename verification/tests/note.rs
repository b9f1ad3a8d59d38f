use std::str::FromStr;

use beesynth::note::frequency::freq_of_semitone;
use beesynth::note::{Note, NoteParseError, Shift};

#[test]
fn lib_test() {
    assert_eq!(Note::from_str("c4s").unwrap(), Note::Cs(4));
    assert_eq!(Note::from_str("C4#").unwrap(), Note::Db(4));
    assert_eq!(Note::from_str("c135s").unwrap().to_string(), "C135#");
    assert_eq!(Note::from_semitone(16), Note::E(1));

    for i in 0..=u8::MAX {
        let probe_note = Note::from_semitone(i);

        let found = Note::find_nearest(probe_note.freq());
        assert_eq!(found, probe_note);

        let found = Note::find_nearest(probe_note.freq());
        assert_eq!(found, probe_note);
    }
}

#[test]
fn nearest_note_scenarios() {
    assert_eq!(Note::find_nearest(441_000), Note::A(4));
    assert_eq!(Note::find_nearest(466_200), Note::As(4));
    assert_eq!(Note::find_nearest(466_200), Note::Bb(4));
    assert_eq!(Note::find_nearest(0), Note::C(0));
    assert_eq!(Note::find_nearest(u64::MAX), Note::Ds(21));
}

#[test]
fn nearest_note_prefers_the_lower_on_a_tie() {
    let mut ties = 0;
    for s in 0..u8::MAX {
        let low = freq_of_semitone(s);
        let high = freq_of_semitone(s + 1);
        let middle = low + (high - low) / 2;
        assert_eq!(Note::find_nearest(middle), Note::from_semitone(s));
        assert_eq!(Note::find_nearest(middle + 1), Note::from_semitone(s + 1));
        if (high - low) % 2 == 0 {
            ties += 1;
        }
    }
    assert!(ties > 0);
}

#[test]
fn frequencies_in_millihertz() {
    assert_eq!(Note::A(4).freq(), 440_000);
    assert_eq!(Note::C(0).freq(), 16_351);
    assert_eq!(Note::E(3).freq(), 164_813);
    assert_eq!(Note::F(3).freq(), 174_614);
    assert_eq!(Note::A(5).freq(), 880_000);
    assert_eq!(Note::Ds(21).freq(), 40_780_036_010);
    assert_eq!(freq_of_semitone(69), 880_000);
    let expected = 440.0_f64 * 2.0_f64.powf((40.0 - 57.0) / 12.0);
    assert!((Note::E(3).freq() as f64 / 1000.0 - expected).abs() < 0.001);
}

#[test]
fn frequency_matches_the_formula_for_every_semitone() {
    for s in 0..=u8::MAX {
        let expected = 440_000.0_f64 * 2.0_f64.powf((f64::from(s) - 57.0) / 12.0);
        let got = freq_of_semitone(s) as f64;
        assert!(got <= expected + 1e-3 && expected < got + 1.0 + 1e-3, "semitone {s}");
    }
}

#[test]
fn enharmonic_notes_are_equal() {
    for octave in [0_u8, 4, 21] {
        assert_eq!(Note::Cs(octave), Note::Db(octave));
        assert_eq!(Note::Ds(octave), Note::Eb(octave));
        assert_eq!(Note::Fs(octave), Note::Gb(octave));
        assert_eq!(Note::Gs(octave), Note::Ab(octave));
        assert_eq!(Note::As(octave), Note::Bb(octave));
        assert_eq!(Note::Cs(octave).semitone_number(), Note::Db(octave).semitone_number());
    }
    assert_ne!(Note::C(4), Note::Cs(4));
    assert_ne!(Note::C(4), Note::C(5));
}

#[test]
fn semitone_numbers() {
    assert_eq!(Note::C(0).semitone_number(), 0);
    assert_eq!(Note::A(4).semitone_number(), 57);
    assert_eq!(Note::Ds(21).semitone_number(), 255);
    assert!(Note::Ds(21).has_semitone_number());
    assert!(!Note::E(21).has_semitone_number());
    assert!(!Note::C(22).has_semitone_number());
    assert_eq!(Note::from_semitone(255), Note::Ds(21));
    assert_eq!(Note::Gb(3).octave_number(), 3);
    assert_eq!(Note::Gb(3).semitone_shift(), Shift::Bemolle);
    assert_eq!(Note::Gs(3).semitone_shift(), Shift::Diesis);
    assert_eq!(Note::G(3).semitone_shift(), Shift::Natural);
    assert_eq!(Shift::default(), Shift::Natural);
}

#[test]
fn note_names_that_move_to_a_neighbour() {
    assert_eq!(Note::from_str("E4#").unwrap(), Note::F(4));
    assert_eq!(Note::from_str("F4b").unwrap(), Note::E(4));
    assert_eq!(Note::from_str("B4#").unwrap(), Note::C(5));
    assert_eq!(Note::from_str("C4b").unwrap(), Note::B(3));
    assert_eq!(Note::from_str("A4\u{266F}").unwrap(), Note::As(4));
    assert_eq!(Note::from_str("A4\u{266D}").unwrap(), Note::Ab(4));
    assert_eq!(Note::from_str("g007").unwrap(), Note::G(7));
    assert_eq!(Note::from_str("D3bxyz").unwrap(), Note::Db(3));
}

#[test]
fn note_parse_errors() {
    assert_eq!(Note::from_str(""), Err(NoteParseError::MissingLetter));
    assert_eq!(Note::from_str("C"), Err(NoteParseError::MissingOctave));
    assert_eq!(Note::from_str("C#4"), Err(NoteParseError::MissingOctave));
    assert_eq!(Note::from_str("C256"), Err(NoteParseError::OctaveOutOfRange));
    assert_eq!(Note::from_str("C4x"), Err(NoteParseError::BadShift));
    assert_eq!(Note::from_str("H4x"), Err(NoteParseError::BadShift));
    assert_eq!(Note::from_str("H4"), Err(NoteParseError::BadLetter));
    assert_eq!(Note::from_str("C0b"), Err(NoteParseError::TooLow));
    assert_eq!(Note::from_str("B255#"), Err(NoteParseError::TooHigh));
    assert_eq!(Note::from_str("B254#").unwrap(), Note::C(255));
}

#[test]
fn note_text_reads_back() {
    for s in 0..=u8::MAX {
        let note = Note::from_semitone(s);
        assert_eq!(Note::from_str(&note.to_string()).unwrap(), note);
    }
    assert_eq!(Note::Db(12).to_string(), "D12b");
    assert_eq!(Note::B(0).to_string(), "B0");
    assert_eq!(Note::Bb(255).to_string(), "B255b");
}
