//! One note of a score: what sounds, for how long and in which manner.
//!
//! A record is written as an optional style sign, a duration, a colon and
//! either a note or `0` for a rest, as in `!Q:E3` or `H:0`.

use vstd::prelude::*;
use crate::note::frequency::{is_semitone_freq, semitone_freq, MilliHertz};
use crate::note::{
    lemma_note_round_trip, lemma_note_text_shape, note_letter, note_text, parse_note, Note,
    NoteParseError,
};
use crate::text::{
    chars_of, find, find_char_from, is_digit, is_whitespace, lemma_find_first, lemma_find_from,
    subvec,
};

verus! {

/// The part of a whole note that a note lasts.
#[derive(Debug, PartialEq, Eq, Copy, Clone, Structural)]
pub enum NoteDivisor {
    Whole,
    Half,
    Quarter,
    Eighth,
    Sixtinth,
    ThirtySecond,
    SixtyFourth,
}

/// The manner in which a note is played.
#[derive(Debug, PartialEq, Eq, Clone, Copy, Structural)]
pub enum NoteStyle {
    /// Held for four fifths of its time, then released.
    NonLegato,
    /// Held for all of its time.
    Legato,
    /// Held for a quarter of its time, then released.
    Staccato,
    /// Held for one and a half times its time.
    Prolongate,
}

#[derive(Debug, PartialEq)]
pub struct NoteRecord {
    pub note: Option<Note>,
    pub divisor: NoteDivisor,
    pub style: NoteStyle,
}

/// Why a text is not a note record.
#[derive(Clone, Copy, Debug, PartialEq, Eq, Structural)]
pub enum NoteRecordError {
    /// The text is empty.
    Empty,
    /// The text holds no colon.
    MissingDelimiter,
    /// Nothing stands before the colon.
    MissingParams,
    /// Nothing stands after the colon.
    MissingNote,
    /// What stands before the colon, after the style sign, is no duration.
    UnknownDivisor,
    /// What stands after the colon is neither `0` nor a note.
    BadNote(NoteParseError),
}

/// Into how many parts the divisor cuts a whole note.
pub open spec fn divisor_value(divisor: NoteDivisor) -> int {
    match divisor {
        NoteDivisor::Whole => 1,
        NoteDivisor::Half => 2,
        NoteDivisor::Quarter => 4,
        NoteDivisor::Eighth => 8,
        NoteDivisor::Sixtinth => 16,
        NoteDivisor::ThirtySecond => 32,
        NoteDivisor::SixtyFourth => 64,
    }
}

/// The letter a divisor is written with.
pub open spec fn divisor_letter(divisor: NoteDivisor) -> char {
    match divisor {
        NoteDivisor::Whole => 'W',
        NoteDivisor::Half => 'H',
        NoteDivisor::Quarter => 'Q',
        NoteDivisor::Eighth => 'E',
        NoteDivisor::Sixtinth => 'S',
        NoteDivisor::ThirtySecond => 'T',
        NoteDivisor::SixtyFourth => 'X',
    }
}

/// The divisor that a text names, by its letter or by its number.
pub open spec fn divisor_of_text(text: Seq<char>) -> Option<NoteDivisor> {
    if text == seq!['W'] || text == seq!['1'] {
        Some(NoteDivisor::Whole)
    } else if text == seq!['H'] || text == seq!['2'] {
        Some(NoteDivisor::Half)
    } else if text == seq!['Q'] || text == seq!['4'] {
        Some(NoteDivisor::Quarter)
    } else if text == seq!['E'] || text == seq!['8'] {
        Some(NoteDivisor::Eighth)
    } else if text == seq!['S'] || text == seq!['1', '6'] {
        Some(NoteDivisor::Sixtinth)
    } else if text == seq!['T'] || text == seq!['3', '2'] {
        Some(NoteDivisor::ThirtySecond)
    } else if text == seq!['X'] || text == seq!['6', '4'] {
        Some(NoteDivisor::SixtyFourth)
    } else {
        None
    }
}

/// Is the character one of the style signs?
pub open spec fn is_style_char(sym: char) -> bool {
    sym == '~' || sym == '!' || sym == '.'
}

/// The style that a sign stands for.
pub open spec fn style_of_char(sym: char) -> NoteStyle {
    if sym == '~' {
        NoteStyle::Legato
    } else if sym == '!' {
        NoteStyle::Staccato
    } else if sym == '.' {
        NoteStyle::Prolongate
    } else {
        NoteStyle::NonLegato
    }
}

/// The style that a text names: a single style sign, or nothing for
/// non-legato.
pub open spec fn style_of_text(text: Seq<char>) -> Option<NoteStyle> {
    if text.len() == 0 {
        Some(NoteStyle::NonLegato)
    } else if text.len() == 1 && is_style_char(text[0]) {
        Some(style_of_char(text[0]))
    } else {
        None
    }
}

/// The sign a style is written with; nothing for non-legato.
pub open spec fn style_text(style: NoteStyle) -> Seq<char> {
    match style {
        NoteStyle::NonLegato => Seq::empty(),
        NoteStyle::Legato => seq!['~'],
        NoteStyle::Staccato => seq!['!'],
        NoteStyle::Prolongate => seq!['.'],
    }
}

/// The share of its time that a styled note is held, as a fraction.
pub open spec fn multiplier(style: NoteStyle) -> (int, int) {
    match style {
        NoteStyle::NonLegato => (4, 5),
        NoteStyle::Legato => (1, 1),
        NoteStyle::Staccato => (1, 4),
        NoteStyle::Prolongate => (3, 2),
    }
}

/// The time, in whole milliseconds, of a note without regard to its style:
/// four beats of a minute's `bpm`-th part each, cut by the divisor.
pub open spec fn unstyled_msec(bpm: int, divisor: NoteDivisor) -> int {
    (4 * 60_000int) / (bpm * divisor_value(divisor))
}

/// The time, in whole milliseconds, that a note is held in its style.
pub open spec fn styled_msec(bpm: int, divisor: NoteDivisor, style: NoteStyle) -> int {
    (multiplier(style).0 * 4 * 60_000int) / (multiplier(style).1 * bpm * divisor_value(divisor))
}

/// The record that a text writes.
pub open spec fn parse_record(text: Seq<char>) -> Result<NoteRecord, NoteRecordError> {
    if text.len() == 0 {
        Err(NoteRecordError::Empty)
    } else {
        match find(text, ':') {
            None => Err(NoteRecordError::MissingDelimiter),
            Some(at) => if at <= 0 {
                Err(NoteRecordError::MissingParams)
            } else if at >= text.len() - 1 {
                Err(NoteRecordError::MissingNote)
            } else {
                let styled = is_style_char(text[0]);
                let style = if styled {
                    style_of_char(text[0])
                } else {
                    NoteStyle::NonLegato
                };
                let duration = if styled {
                    text.subrange(1, at)
                } else {
                    text.subrange(0, at)
                };
                let token = text.skip(at + 1);
                match divisor_of_text(duration) {
                    None => Err(NoteRecordError::UnknownDivisor),
                    Some(divisor) => if token == seq!['0'] {
                        Ok(NoteRecord { note: None, divisor, style })
                    } else {
                        match parse_note(token) {
                            Ok(note) => Ok(NoteRecord { note: Some(note), divisor, style }),
                            Err(error) => Err(NoteRecordError::BadNote(error)),
                        }
                    },
                }
            },
        }
    }
}

/// A record in writing.
pub open spec fn record_text(record: NoteRecord) -> Seq<char> {
    style_text(record.style) + seq![divisor_letter(record.divisor), ':'] + match record.note {
        Some(note) => note_text(note),
        None => seq!['0'],
    }
}

impl NoteDivisor {
    /// Into how many parts the divisor cuts a whole note.
    pub fn value(self) -> (r: u8)
        ensures
            r == divisor_value(self),
    {
        match self {
            NoteDivisor::Whole => 1,
            NoteDivisor::Half => 2,
            NoteDivisor::Quarter => 4,
            NoteDivisor::Eighth => 8,
            NoteDivisor::Sixtinth => 16,
            NoteDivisor::ThirtySecond => 32,
            NoteDivisor::SixtyFourth => 64,
        }
    }

    /// The letter the divisor is written with.
    pub fn as_ref(&self) -> (r: &'static str)
        ensures
            r@ == seq![divisor_letter(*self)],
    {
        proof {
            reveal_strlit("W");
            reveal_strlit("H");
            reveal_strlit("Q");
            reveal_strlit("E");
            reveal_strlit("S");
            reveal_strlit("T");
            reveal_strlit("X");
        }
        let r = match self {
            NoteDivisor::Whole => "W",
            NoteDivisor::Half => "H",
            NoteDivisor::Quarter => "Q",
            NoteDivisor::Eighth => "E",
            NoteDivisor::Sixtinth => "S",
            NoteDivisor::ThirtySecond => "T",
            NoteDivisor::SixtyFourth => "X",
        };
        assert(r@ =~= seq![divisor_letter(*self)]);
        r
    }

    /// Reads a divisor from its letter or its number.
    pub fn parse(text: &[char]) -> (r: Option<NoteDivisor>)
        ensures
            r == divisor_of_text(text@),
    {
        if text.len() == 1 {
            let c = text[0];
            assert(text@ =~= seq![c]);
            if c == 'W' || c == '1' {
                Some(NoteDivisor::Whole)
            } else if c == 'H' || c == '2' {
                Some(NoteDivisor::Half)
            } else if c == 'Q' || c == '4' {
                Some(NoteDivisor::Quarter)
            } else if c == 'E' || c == '8' {
                Some(NoteDivisor::Eighth)
            } else if c == 'S' {
                Some(NoteDivisor::Sixtinth)
            } else if c == 'T' {
                Some(NoteDivisor::ThirtySecond)
            } else if c == 'X' {
                Some(NoteDivisor::SixtyFourth)
            } else {
                assert(seq!['1', '6'].len() == 2);
                assert(seq!['3', '2'].len() == 2);
                assert(seq!['6', '4'].len() == 2);
                None
            }
        } else if text.len() == 2 {
            let a = text[0];
            let b = text[1];
            assert(text@ =~= seq![a, b]);
            assert(forall|c: char| (#[trigger] seq![c]).len() == 1);
            if a == '1' && b == '6' {
                Some(NoteDivisor::Sixtinth)
            } else if a == '3' && b == '2' {
                Some(NoteDivisor::ThirtySecond)
            } else if a == '6' && b == '4' {
                Some(NoteDivisor::SixtyFourth)
            } else {
                assert(seq!['1', '6'][0] == '1' && seq!['1', '6'][1] == '6');
                assert(seq!['3', '2'][0] == '3' && seq!['3', '2'][1] == '2');
                assert(seq!['6', '4'][0] == '6' && seq!['6', '4'][1] == '4');
                None
            }
        } else {
            assert(forall|c: char| (#[trigger] seq![c]).len() == 1);
            assert(seq!['1', '6'].len() == 2);
            assert(seq!['3', '2'].len() == 2);
            assert(seq!['6', '4'].len() == 2);
            None
        }
    }
}

impl From<NoteDivisor> for u8 {
    fn from(value: NoteDivisor) -> (r: Self) {
        value.value()
    }
}

impl vstd::std_specs::convert::FromSpecImpl<NoteDivisor> for u8 {
    open spec fn obeys_from_spec() -> bool {
        true
    }

    open spec fn from_spec(value: NoteDivisor) -> Self {
        divisor_value(value) as u8
    }
}

impl core::str::FromStr for NoteDivisor {
    type Err = NoteRecordError;

    /// Reads a divisor from its letter or its number; any other text is
    /// an unknown divisor.
    fn from_str(divisor: &str) -> (r: Result<Self, Self::Err>)
        ensures
            r == match divisor_of_text(divisor@) {
                Some(found) => Ok::<NoteDivisor, NoteRecordError>(found),
                None => Err::<NoteDivisor, NoteRecordError>(NoteRecordError::UnknownDivisor),
            },
    {
        let text = chars_of(divisor);
        match NoteDivisor::parse(text.as_slice()) {
            Some(divisor) => Ok(divisor),
            None => Err(NoteRecordError::UnknownDivisor),
        }
    }
}

impl NoteStyle {
    /// The share of its time that a note of this style is held: the
    /// numerator and the denominator of the fraction.
    pub fn multiplier(self) -> (r: (u8, u8))
        ensures
            r.0 == multiplier(self).0,
            r.1 == multiplier(self).1,
            1 <= r.0 <= 4,
            1 <= r.1 <= 5,
    {
        match self {
            NoteStyle::NonLegato => (4, 5),
            NoteStyle::Legato => (1, 1),
            NoteStyle::Staccato => (1, 4),
            NoteStyle::Prolongate => (3, 2),
        }
    }

    pub fn is_note_style(sym: char) -> (r: bool)
        ensures
            r == is_style_char(sym),
    {
        sym == '~' || sym == '!' || sym == '.'
    }

    /// The style a sign stands for; non-legato for any other character.
    pub fn from_char(sym: char) -> (r: NoteStyle)
        ensures
            r == style_of_char(sym),
    {
        if sym == '~' {
            NoteStyle::Legato
        } else if sym == '!' {
            NoteStyle::Staccato
        } else if sym == '.' {
            NoteStyle::Prolongate
        } else {
            NoteStyle::NonLegato
        }
    }

    /// The sign the style is written with.
    pub fn as_ref(&self) -> (r: &'static str)
        ensures
            r@ == style_text(*self),
    {
        proof {
            reveal_strlit("");
            reveal_strlit("~");
            reveal_strlit("!");
            reveal_strlit(".");
        }
        let r = match self {
            NoteStyle::NonLegato => "",
            NoteStyle::Legato => "~",
            NoteStyle::Staccato => "!",
            NoteStyle::Prolongate => ".",
        };
        assert(r@ =~= style_text(*self));
        r
    }

    /// Reads a style from its sign, or from nothing.
    pub fn parse(text: &[char]) -> (r: Option<NoteStyle>)
        ensures
            r == style_of_text(text@),
    {
        if text.len() == 0 {
            Some(NoteStyle::NonLegato)
        } else if text.len() == 1 && Self::is_note_style(text[0]) {
            Some(Self::from_char(text[0]))
        } else {
            None
        }
    }
}

/// Why a text is not a style.
#[derive(Clone, Copy, Debug, PartialEq, Eq, Structural)]
pub struct UnknownStyle;

impl core::str::FromStr for NoteStyle {
    type Err = UnknownStyle;

    /// Reads a style from its sign, or from nothing; any other text is an
    /// unknown style.
    fn from_str(style: &str) -> (r: Result<Self, Self::Err>)
        ensures
            r == match style_of_text(style@) {
                Some(found) => Ok::<NoteStyle, UnknownStyle>(found),
                None => Err::<NoteStyle, UnknownStyle>(UnknownStyle),
            },
    {
        let text = chars_of(style);
        match NoteStyle::parse(text.as_slice()) {
            Some(style) => Ok(style),
            None => Err(UnknownStyle),
        }
    }
}

impl Default for NoteRecord {
    fn default() -> (r: Self)
        ensures
            r.note is None,
            r.divisor == NoteDivisor::Quarter,
            r.style == NoteStyle::NonLegato,
    {
        NoteRecord { note: None, divisor: NoteDivisor::Quarter, style: NoteStyle::NonLegato }
    }
}

impl NoteRecord {
    pub fn new(note: Option<Note>, divisor: NoteDivisor, style: NoteStyle) -> (r: NoteRecord)
        ensures
            r == (NoteRecord { note, divisor, style }),
    {
        NoteRecord { note, divisor, style }
    }

    /// Has the record a frequency to ask for: is it a rest, or a note whose
    /// semitone number fits a byte?
    pub open spec fn in_range(&self) -> bool {
        match self.note {
            Some(note) => note.semitone_index() <= 255,
            None => true,
        }
    }

    pub fn is_in_range(&self) -> (r: bool)
        ensures
            r == self.in_range(),
    {
        match self.note {
            Some(note) => note.has_semitone_number(),
            None => true,
        }
    }

    /// The frequency of the record's note; none for a rest.
    pub fn freq(&self) -> (r: Option<MilliHertz>)
        requires
            self.in_range(),
        ensures
            match self.note {
                Some(note) => r == Some(semitone_freq(note.semitone_index()) as u64)
                    && is_semitone_freq(note.semitone_index(), r->0 as int),
                None => r is None,
            },
    {
        match self.note {
            Some(note) => Some(note.freq()),
            None => None,
        }
    }

    pub fn divisor(&self) -> (r: NoteDivisor)
        ensures
            r == self.divisor,
    {
        self.divisor
    }

    pub fn style(&self) -> (r: NoteStyle)
        ensures
            r == self.style,
    {
        self.style
    }

    /// The record's time in nanoseconds without regard to its style: a
    /// whole number of milliseconds.
    pub fn duration_nsec_unstyled(&self, bpm: u16) -> (r: u64)
        requires
            bpm > 0,
        ensures
            r == unstyled_msec(bpm as int, self.divisor) * 1_000_000,
            r <= 240_000_000_000,
    {
        let cut = self.divisor.value();
        assert(0 < bpm * cut <= 65_535 * 64) by (nonlinear_arith)
            requires
                0 < bpm <= 65_535,
                1 <= cut <= 64,
        ;
        let parts: u64 = bpm as u64 * cut as u64;
        proof {
            lemma_msec_bound(240_000, parts as int);
        }
        let duration_msec: u64 = 240_000 / parts;
        duration_msec * 1_000_000
    }

    /// The time in nanoseconds that the record's note is held in its
    /// style: a whole number of milliseconds.
    pub fn duration_nsec(&self, bpm: u16) -> (r: u64)
        requires
            bpm > 0,
        ensures
            r == styled_msec(bpm as int, self.divisor, self.style) * 1_000_000,
            r <= 960_000_000_000,
    {
        let (numerator, denominator) = self.style.multiplier();
        let cut = self.divisor.value();
        let whole: u64 = numerator as u64 * 4 * 60_000;
        assert(0 < denominator * bpm <= 5 * 65_535 && 0 < denominator * bpm * cut <= 5 * 65_535
            * 64) by (nonlinear_arith)
            requires
                0 < bpm <= 65_535,
                1 <= cut <= 64,
                1 <= denominator <= 5,
        ;
        let parts: u64 = denominator as u64 * bpm as u64 * cut as u64;
        proof {
            lemma_msec_bound(whole as int, parts as int);
        }
        let duration_msec: u64 = whole / parts;
        duration_msec * 1_000_000
    }

    /// Reads a record from its text.
    pub fn parse(text: &[char]) -> (r: Result<NoteRecord, NoteRecordError>)
        ensures
            r == parse_record(text@),
    {
        if text.len() == 0 {
            return Err(NoteRecordError::Empty);
        }
        proof {
            lemma_find_from(text@, ':', 0);
        }
        let at = match find_char_from(text, ':', 0) {
            Some(at) => at,
            None => {
                return Err(NoteRecordError::MissingDelimiter);
            },
        };
        if at == 0 {
            return Err(NoteRecordError::MissingParams);
        }
        if at == text.len() - 1 {
            return Err(NoteRecordError::MissingNote);
        }
        let styled = NoteStyle::is_note_style(text[0]);
        let style = if styled {
            NoteStyle::from_char(text[0])
        } else {
            NoteStyle::NonLegato
        };
        let duration = if styled {
            subvec(text, 1, at)
        } else {
            subvec(text, 0, at)
        };
        let divisor = match NoteDivisor::parse(duration.as_slice()) {
            Some(divisor) => divisor,
            None => {
                return Err(NoteRecordError::UnknownDivisor);
            },
        };
        let token = subvec(text, at + 1, text.len());
        proof {
            assert(token@ =~= text@.skip(at + 1));
        }
        if token.len() == 1 && token[0] == '0' {
            assert(token@ =~= seq!['0']);
            return Ok(NoteRecord { note: None, divisor, style });
        }
        proof {
            assert(token@ != seq!['0']) by {
                if token@ == seq!['0'] {
                    assert(seq!['0'].len() == 1);
                    assert(seq!['0'][0] == '0');
                }
            }
        }
        match Note::parse(token.as_slice()) {
            Ok(note) => Ok(NoteRecord { note: Some(note), divisor, style }),
            Err(error) => Err(NoteRecordError::BadNote(error)),
        }
    }

    /// Appends the record's text to `out`.
    pub fn write_to(&self, out: &mut String)
        ensures
            final(out)@ == old(out)@ + record_text(*self),
    {
        proof {
            reveal_strlit(":");
            reveal_strlit("0");
        }
        out.append(self.style.as_ref());
        out.append(self.divisor.as_ref());
        out.append(":");
        match self.note {
            Some(note) => {
                note.write_to(out);
            },
            None => {
                out.append("0");
            },
        }
        proof {
            assert(final(out)@ =~= old(out)@ + record_text(*self));
        }
    }

    /// The record in writing.
    pub fn to_string(&self) -> (r: String)
        ensures
            r@ == record_text(*self),
    {
        let mut out = String::new();
        self.write_to(&mut out);
        proof {
            assert(Seq::<char>::empty() + record_text(*self) =~= record_text(*self));
        }
        out
    }
}

impl core::str::FromStr for NoteRecord {
    type Err = NoteRecordError;

    /// Reads a record from its text.
    fn from_str(record: &str) -> (r: Result<Self, Self::Err>)
        ensures
            r == parse_record(record@),
    {
        let text = chars_of(record);
        NoteRecord::parse(text.as_slice())
    }
}

/// A record's text is made of its style's sign, if it has one, the letter
/// of its divisor, a colon and its note or `0`; there is no white space in
/// it, no line feed and no semicolon, and it does not start with `@` or `#`.
pub proof fn lemma_record_text_shape(record: NoteRecord)
    ensures
        ({
            let text = record_text(record);
            let colon = style_text(record.style).len() as int + 1;
            &&& text.len() >= colon + 2
            &&& text[colon] == ':'
            &&& text[colon - 1] == divisor_letter(record.divisor)
            &&& record.style != NoteStyle::NonLegato ==> text[0] == style_text(record.style)[0]
            &&& text.skip(colon + 1) == match record.note {
                Some(note) => note_text(note),
                None => seq!['0'],
            }
            &&& forall|i: int|
                0 <= i < text.len() ==> !is_whitespace(#[trigger] text[i]) && text[i] != ';'
                    && text[i] != '\n' && text[i] != '@' && (i != colon ==> text[i] != ':')
            &&& text[0] != '#'
        }),
{
    let text = record_text(record);
    let colon = style_text(record.style).len() as int + 1;
    let tail = match record.note {
        Some(note) => note_text(note),
        None => seq!['0'],
    };
    match record.note {
        Some(note) => {
            lemma_note_text_shape(note);
        },
        None => {},
    }
    assert(text.skip(colon + 1) =~= tail);
    assert forall|i: int| 0 <= i < text.len() implies !is_whitespace(#[trigger] text[i]) && text[i]
        != ';' && text[i] != '\n' && text[i] != '@' && (i != colon ==> text[i] != ':') by {
        if i > colon {
            assert(text[i] == tail[i - colon - 1]);
            match record.note {
                Some(note) => {
                    let k = i - colon - 1;
                    if k >= 1 {
                        assert(is_digit(note_text(note)[k]) || note_text(note)[k] == '#'
                            || note_text(note)[k] == 'b');
                    }
                },
                None => {},
            }
        }
    }
}

/// A record written and read again is the record it was.
pub proof fn lemma_record_round_trip(record: NoteRecord)
    ensures
        parse_record(record_text(record)) == Ok::<NoteRecord, NoteRecordError>(record),
{
    let text = record_text(record);
    let colon = style_text(record.style).len() as int + 1;
    lemma_record_text_shape(record);
    assert forall|j: int| 0 <= j < colon implies #[trigger] text[j] != ':' by {}
    lemma_find_first(text, ':', colon);
    let styled = is_style_char(text[0]);
    assert(styled == (record.style != NoteStyle::NonLegato));
    let duration = if styled {
        text.subrange(1, colon)
    } else {
        text.subrange(0, colon)
    };
    assert(duration =~= seq![divisor_letter(record.divisor)]);
    assert(divisor_of_text(seq![divisor_letter(record.divisor)]) == Some(record.divisor)) by {
        let one = seq![divisor_letter(record.divisor)];
        assert(one[0] == divisor_letter(record.divisor));
        assert(seq!['W'][0] == 'W' && seq!['1'][0] == '1');
        assert(seq!['H'][0] == 'H' && seq!['2'][0] == '2');
        assert(seq!['Q'][0] == 'Q' && seq!['4'][0] == '4');
        assert(seq!['E'][0] == 'E' && seq!['8'][0] == '8');
        assert(seq!['S'][0] == 'S' && seq!['1', '6'].len() == 2);
        assert(seq!['T'][0] == 'T' && seq!['3', '2'].len() == 2);
        assert(seq!['X'][0] == 'X' && seq!['6', '4'].len() == 2);
        match record.divisor {
            NoteDivisor::Whole => {
                assert(one =~= seq!['W']);
            },
            NoteDivisor::Half => {
                assert(one =~= seq!['H']);
            },
            NoteDivisor::Quarter => {
                assert(one =~= seq!['Q']);
            },
            NoteDivisor::Eighth => {
                assert(one =~= seq!['E']);
            },
            NoteDivisor::Sixtinth => {
                assert(one =~= seq!['S']);
            },
            NoteDivisor::ThirtySecond => {
                assert(one =~= seq!['T']);
            },
            NoteDivisor::SixtyFourth => {
                assert(one =~= seq!['X']);
            },
        }
    }
    let token = text.skip(colon + 1);
    match record.note {
        Some(note) => {
            lemma_note_round_trip(note);
            lemma_note_text_shape(note);
            assert(token[0] == note_letter(note));
            assert(seq!['0'][0] == '0');
        },
        None => {},
    }
}

proof fn lemma_msec_bound(whole: int, parts: int)
    requires
        0 <= whole <= 960_000,
        0 < parts,
    ensures
        0 <= whole / parts <= whole,
{
    vstd::arithmetic::div_mod::lemma_div_pos_is_pos(whole, parts);
    vstd::arithmetic::div_mod::lemma_div_is_ordered_by_denominator(whole, 1, parts);
    assert(whole / 1 == whole);
}

} // verus!
