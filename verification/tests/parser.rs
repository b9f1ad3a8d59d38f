use std::str::FromStr;

use beesynth::note::{Note, NoteParseError};
use beesynth::synth::note_record::{NoteDivisor, NoteRecord, NoteRecordError, NoteStyle};
use beesynth::synth::parser::{ParseError, ParseErrorKind, Parser};
use beesynth::wave::filter::Data;

#[test]
fn parser_test() {
    let str = r#"#!/bin/beesynth
        @name  :sample   
        @bpm: 120


        @channels   : ch1 ch2

@ch1  : !Q:E3 ~Q:E3 Q:F3
@ch2  : ~E:E4 ~E:0  H:E3
!Q:E3 ~Q:E3 Q:F3
@ch1  : !Q:E3 ~Q:E3 Q:F3
    "#;

    let channels = Parser::new(str).parse().unwrap();
    assert_eq!(channels.bpm(), 120);
    assert_eq!(channels.channels().len(), 2);

    let channel_list = channels.channels();

    assert_eq!(channel_list[0], vec![
        NoteRecord::new(Some(Note::E(3)), NoteDivisor::Quarter, NoteStyle::Staccato),
        NoteRecord::new(Some(Note::E(3)), NoteDivisor::Quarter, NoteStyle::Legato),
        NoteRecord::new(Some(Note::F(3)), NoteDivisor::Quarter, NoteStyle::NonLegato),
        NoteRecord::new(Some(Note::E(3)), NoteDivisor::Quarter, NoteStyle::Staccato),
        NoteRecord::new(Some(Note::E(3)), NoteDivisor::Quarter, NoteStyle::Legato),
        NoteRecord::new(Some(Note::F(3)), NoteDivisor::Quarter, NoteStyle::NonLegato)
    ]);

    assert_eq!(channel_list[1], vec![
        NoteRecord::new(Some(Note::E(4)), NoteDivisor::Eighth, NoteStyle::Legato),
        NoteRecord::new(None, NoteDivisor::Eighth, NoteStyle::Legato),
        NoteRecord::new(Some(Note::E(3)), NoteDivisor::Half, NoteStyle::NonLegato),
        NoteRecord::new(Some(Note::E(3)), NoteDivisor::Quarter, NoteStyle::Staccato),
        NoteRecord::new(Some(Note::E(3)), NoteDivisor::Quarter, NoteStyle::Legato),
        NoteRecord::new(Some(Note::F(3)), NoteDivisor::Quarter, NoteStyle::NonLegato)
    ]);
}

#[test]
fn score_scenario() {
    let listing = "#!/bin/beesynth\n@bpm: 120\n@channels: c1\n@c1: !Q:E3 ~Q:E3 Q:F3\n";
    let channels = Parser::new(listing).parse().unwrap();
    let Some(Data::Frequency(data)) = channels.into_data() else {
        panic!("a score with a tempo gives frequencies");
    };
    assert_eq!(data.len(), 1);
    let got: Vec<(u64, u64)> = data[0].iter().map(|r| (r.freq, r.duration)).collect();
    assert_eq!(got, vec![
        (164_813, 125_000_000),
        (0, 375_000_000),
        (164_813, 500_000_000),
        (174_614, 400_000_000),
        (0, 100_000_000),
    ]);
    let tones: Vec<f64> = got.iter().filter(|r| r.0 != 0).map(|r| r.0 as f64 / 1000.0).collect();
    for (tone, expected) in tones.iter().zip([164.81_f64, 164.81, 174.61]) {
        assert!((tone - expected).abs() < 0.01);
    }
}

#[test]
fn durations_of_styles() {
    let quarter = |style| NoteRecord::new(Some(Note::A(4)), NoteDivisor::Quarter, style);
    assert_eq!(quarter(NoteStyle::Legato).duration_nsec_unstyled(120), 500_000_000);
    assert_eq!(quarter(NoteStyle::NonLegato).duration_nsec(120), 400_000_000);
    assert_eq!(quarter(NoteStyle::Legato).duration_nsec(120), 500_000_000);
    assert_eq!(quarter(NoteStyle::Staccato).duration_nsec(120), 125_000_000);
    assert_eq!(quarter(NoteStyle::Prolongate).duration_nsec(120), 750_000_000);
    let odd = NoteRecord::new(None, NoteDivisor::SixtyFourth, NoteStyle::NonLegato);
    assert_eq!(odd.duration_nsec_unstyled(7), 535_000_000);
    assert_eq!(odd.duration_nsec(7), 428_000_000);
    assert_eq!(odd.duration_nsec_unstyled(65_535), 0);
    assert_eq!(NoteRecord::new(None, NoteDivisor::Whole, NoteStyle::Prolongate).duration_nsec(1), 360_000_000_000);
}

#[test]
fn rests_and_prolonged_notes_as_frequencies() {
    let listing = "@bpm: 60\n@channels: a\n@a: .H:A4 !W:0 ~Q:C0\n";
    let channels = Parser::new(listing).parse().unwrap();
    let Some(Data::Frequency(data)) = channels.into_data() else {
        panic!("a score with a tempo gives frequencies");
    };
    let got: Vec<(u64, u64)> = data[0].iter().map(|r| (r.freq, r.duration)).collect();
    assert_eq!(got, vec![
        (440_000, 3_000_000_000),
        (0, 4_000_000_000),
        (16_351, 1_000_000_000),
    ]);
}

#[test]
fn unplayable_scores_give_no_data() {
    let silent = Parser::new("@bpm: 0\n@channels: a\n@a: Q:A4\n").parse().unwrap();
    assert!(!silent.is_playable());
    assert!(silent.into_data().is_none());
    let high = Parser::new("@bpm: 90\n@channels: a\n@a: Q:A4 Q:E21\n").parse().unwrap();
    assert!(!high.is_playable());
    assert!(high.into_data().is_none());
    let fine = Parser::new("@bpm: 90\n@channels: a\n@a: Q:A4 Q:D21#\n").parse().unwrap();
    assert!(fine.is_playable());
}

#[test]
fn channels_are_played_in_the_order_listed() {
    let listing = "@bpm: 100\n@channels: zed alpha zed nobody\n@alpha: Q:A4\n@zed: H:B4\n@other: W:C4\n";
    let channels = Parser::new(listing).parse().unwrap();
    let list = channels.channels();
    assert_eq!(list.len(), 2);
    assert_eq!(list[0], vec![NoteRecord::new(Some(Note::B(4)), NoteDivisor::Half, NoteStyle::NonLegato)]);
    assert_eq!(list[1], vec![NoteRecord::new(Some(Note::A(4)), NoteDivisor::Quarter, NoteStyle::NonLegato)]);
}

#[test]
fn comments_and_blank_lines_are_skipped() {
    let listing = "# a comment\n; another\n\n   \n@bpm: 90 ; tempo\n@channels: a\n@a: Q:A4 ; Q:B4\nQ:C4\r\n";
    let channels = Parser::new(listing).parse().unwrap();
    assert_eq!(channels.bpm(), 90);
    assert_eq!(channels.channels()[0], vec![
        NoteRecord::new(Some(Note::A(4)), NoteDivisor::Quarter, NoteStyle::NonLegato),
        NoteRecord::new(Some(Note::C(4)), NoteDivisor::Quarter, NoteStyle::NonLegato),
    ]);
}

#[test]
fn turning_to_the_current_channel_again_starts_it_anew() {
    let listing = "@bpm: 90\n@channels: a\n@a: Q:A4\n@a: Q:B4\n";
    let channels = Parser::new(listing).parse().unwrap();
    assert_eq!(channels.channels()[0], vec![
        NoteRecord::new(Some(Note::B(4)), NoteDivisor::Quarter, NoteStyle::NonLegato),
    ]);
}

#[test]
fn listing_errors() {
    let parse = |listing: &str| Parser::new(listing).parse().err();
    assert_eq!(parse("@channels: a\n@a: Q:A4\n"), Some(ParseError::new(ParseErrorKind::BpmNotSet, 3)));
    assert_eq!(parse("@bpm: 12x\n"), Some(ParseError::new(ParseErrorKind::InvalidBpm, 0)));
    assert_eq!(parse("@bpm: 65536\n"), Some(ParseError::new(ParseErrorKind::InvalidBpm, 0)));
    assert_eq!(parse("@bpm: 1\n@bpm: 2\n"), Some(ParseError::new(ParseErrorKind::BpmAlreadySet, 1)));
    assert_eq!(parse("\n@bpm\n"), Some(ParseError::new(ParseErrorKind::InvalidMeta, 1)));
    assert_eq!(parse("@bpm:\n"), Some(ParseError::new(ParseErrorKind::InvalidMeta, 0)));
    assert_eq!(parse("@ : 5\n"), Some(ParseError::new(ParseErrorKind::InvalidMeta, 0)));
    assert_eq!(parse("@: 5\n"), Some(ParseError::new(ParseErrorKind::InvalidMeta, 0)));
    assert_eq!(
        parse("@bpm: 5\n@a: Q:A4 Z:A4 Q:\n"),
        Some(ParseError::new(ParseErrorKind::BadNote(NoteRecordError::UnknownDivisor), 1))
    );
    assert_eq!(
        parse("@bpm: 5\nQ:A4\n  Q:C0b\n"),
        Some(ParseError::new(ParseErrorKind::BadNote(NoteRecordError::BadNote(NoteParseError::TooLow)), 2))
    );
    assert_eq!(parse("@bpm: +65535\n"), None);
}

#[test]
fn note_record_errors() {
    assert_eq!(NoteRecord::from_str(""), Err(NoteRecordError::Empty));
    assert_eq!(NoteRecord::from_str("QA4"), Err(NoteRecordError::MissingDelimiter));
    assert_eq!(NoteRecord::from_str(":A4"), Err(NoteRecordError::MissingParams));
    assert_eq!(NoteRecord::from_str("Q:"), Err(NoteRecordError::MissingNote));
    assert_eq!(NoteRecord::from_str("!:A4"), Err(NoteRecordError::UnknownDivisor));
    assert_eq!(NoteRecord::from_str("F:A4"), Err(NoteRecordError::UnknownDivisor));
    assert_eq!(NoteRecord::from_str("Q:H4"), Err(NoteRecordError::BadNote(NoteParseError::BadLetter)));
    assert_eq!(NoteRecord::from_str("Q:00"), Err(NoteRecordError::BadNote(NoteParseError::BadLetter)));
    assert_eq!(NoteRecord::from_str("Q:C"), Err(NoteRecordError::BadNote(NoteParseError::MissingOctave)));
}

#[test]
fn note_record_text_reads_back() {
    let divisors = [
        (NoteDivisor::Whole, "W", "1"),
        (NoteDivisor::Half, "H", "2"),
        (NoteDivisor::Quarter, "Q", "4"),
        (NoteDivisor::Eighth, "E", "8"),
        (NoteDivisor::Sixtinth, "S", "16"),
        (NoteDivisor::ThirtySecond, "T", "32"),
        (NoteDivisor::SixtyFourth, "X", "64"),
    ];
    let styles = [
        (NoteStyle::NonLegato, ""),
        (NoteStyle::Legato, "~"),
        (NoteStyle::Staccato, "!"),
        (NoteStyle::Prolongate, "."),
    ];
    for (divisor, letter, number) in divisors {
        assert_eq!(NoteDivisor::from_str(letter), Ok(divisor));
        assert_eq!(NoteDivisor::from_str(number), Ok(divisor));
        assert_eq!(u8::from(divisor).to_string(), number);
        for (style, sign) in styles {
            assert_eq!(NoteStyle::from_str(sign), Ok(style));
            for note in [None, Some(Note::Cs(4)), Some(Note::Bb(10))] {
                let record = NoteRecord::new(note, divisor, style);
                let text = record.to_string();
                assert!(text.starts_with(&format!("{sign}{letter}:")));
                assert_eq!(NoteRecord::from_str(&text).unwrap(), record);
                let by_number = text.replacen(letter, number, 1);
                assert_eq!(NoteRecord::from_str(&by_number).unwrap(), record);
            }
        }
    }
    assert_eq!(NoteRecord::new(None, NoteDivisor::Half, NoteStyle::Staccato).to_string(), "!H:0");
    assert_eq!(NoteRecord::default().to_string(), "Q:0");
    assert!(NoteStyle::from_str("~~").is_err());
    assert!(NoteStyle::is_note_style('!'));
    assert!(!NoteStyle::is_note_style('Q'));
}

#[test]
fn a_score_is_written_as_a_listing() {
    let listing = "@bpm: 97\n@channels: lead bass\n@lead: !Q:E3 ~H:0 .X:B10b\nQ:F3\n@bass: W:C2#\n";
    let channels = Parser::new(listing).parse().unwrap();
    assert_eq!(
        channels.to_listing(),
        "#!/bin/beesynth\n@bpm:97\n@channels:c0 c1\n@c0:!Q:E3 ~H:0 .X:B10b Q:F3\n@c1:W:C2#\n"
    );
    let silent = Parser::new("@bpm: 0").parse().unwrap();
    assert_eq!(silent.to_listing(), "#!/bin/beesynth\n@bpm:0\n");
    assert_eq!(Parser::new(&silent.to_listing()).parse().unwrap().channels().len(), 0);
}

#[test]
fn parse_write_parse() {
    let listings = [
        "#!/bin/beesynth\n        @name  :sample   \n        @bpm: 120\n\n        @channels   : ch1 ch2\n\n@ch1  : !Q:E3 ~Q:E3 Q:F3\n@ch2  : ~E:E4 ~E:0  H:E3\n!Q:E3 ~Q:E3 Q:F3\n@ch1  : !Q:E3 ~Q:E3 Q:F3\n    ",
        "@bpm: 65535\n@channels: a b c d e f g h i j k l\n@l: 64:A0\n@k: 32:B1b\n@j: 16:C2#\n@i: 8:D3\n@h: 4:E4\n@g: 2:F5s\n@f: 1:G6\n@e: S:A255\n@d: T:0\n@c: X:C0\n@b: Q:B254#\n@a: .W:C1b\n",
        "Q:A4 Q:B4\n@bpm: 1\n@channels:  x\n@x: H:C4\n@y: H:D4\n",
        "@bpm: 9\n@channels: a a\n@a: H:C4\n",
        "@bpm: 9\n",
    ];
    for listing in listings {
        let first = Parser::new(listing).parse().unwrap();
        let written = first.to_listing();
        let second = Parser::new(&written).parse().unwrap();
        assert_eq!(second.bpm(), first.bpm());
        assert_eq!(second.channels(), first.channels());
        assert_eq!(second.to_listing(), written);
    }
}

#[test]
fn divisors_and_styles_are_read_from_strings() {
    assert_eq!(NoteDivisor::from_str("W"), Ok(NoteDivisor::Whole));
    assert_eq!(NoteDivisor::from_str("2"), Ok(NoteDivisor::Half));
    assert_eq!(NoteDivisor::from_str("Q"), Ok(NoteDivisor::Quarter));
    assert_eq!(NoteDivisor::from_str("8"), Ok(NoteDivisor::Eighth));
    assert_eq!(NoteDivisor::from_str(""), Err(NoteRecordError::UnknownDivisor));
    assert_eq!(NoteDivisor::from_str("Z"), Err(NoteRecordError::UnknownDivisor));
    assert_eq!(NoteDivisor::from_str("QQ"), Err(NoteRecordError::UnknownDivisor));
    assert_eq!(NoteStyle::from_str(""), Ok(NoteStyle::NonLegato));
    assert_eq!(NoteStyle::from_str("!"), Ok(NoteStyle::Staccato));
    assert_eq!(NoteStyle::from_str("~"), Ok(NoteStyle::Legato));
    assert_eq!(NoteStyle::from_str("."), Ok(NoteStyle::Prolongate));
    assert!(NoteStyle::from_str("?").is_err());
    assert!(NoteStyle::from_str("!!").is_err());
    assert_eq!(
        NoteRecord::from_str("!Q:E3"),
        Ok(NoteRecord::new(Some(Note::E(3)), NoteDivisor::Quarter, NoteStyle::Staccato))
    );
}
