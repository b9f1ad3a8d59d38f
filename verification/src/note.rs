//! Musical notes: names, octaves, semitone numbers and their text form.
//!
//! A note is a letter with an optional accidental and an octave number. Two
//! spellings of one pitch, such as C sharp and D flat, are different values
//! that compare equal.

pub mod frequency;

use vstd::prelude::*;
use crate::text::{
    chars_of, decimal_text, decimal_value, is_digit, lemma_decimal_text,
    lemma_skip_digits_bounds, lemma_skip_digits_run, parse_unsigned, push_decimal, skip_digits,
    skip_digits_from, subvec,
};

verus! {

pub type SemitoneNumber = u8;

pub type OctaveNumber = u8;

#[derive(Default, PartialEq, Eq, PartialOrd, Ord, Copy, Clone, Debug, Structural)]
pub enum Shift {
    #[default]
    Natural,
    Diesis,
    Bemolle,
}

#[derive(PartialOrd, Copy, Clone, Debug)]
pub enum Note {
    C(OctaveNumber),
    Cs(OctaveNumber),
    Db(OctaveNumber),
    D(OctaveNumber),
    Ds(OctaveNumber),
    Eb(OctaveNumber),
    E(OctaveNumber),
    F(OctaveNumber),
    Fs(OctaveNumber),
    Gb(OctaveNumber),
    G(OctaveNumber),
    Gs(OctaveNumber),
    Ab(OctaveNumber),
    A(OctaveNumber),
    As(OctaveNumber),
    Bb(OctaveNumber),
    B(OctaveNumber),
}

/// Why a text is not a note.
#[derive(Clone, Copy, Debug, PartialEq, Eq, Structural)]
pub enum NoteParseError {
    /// The text is empty.
    MissingLetter,
    /// No digit follows the first character.
    MissingOctave,
    /// The octave number is above 255.
    OctaveOutOfRange,
    /// The character after the octave is no accidental.
    BadShift,
    /// The first character is none of the letters A to G.
    BadLetter,
    /// C flat of octave 0 would lie below the lowest note.
    TooLow,
    /// B sharp of octave 255 would lie above the highest octave.
    TooHigh,
}

/// The note with the given semitone number, sharps for the black keys.
pub open spec fn note_of_semitone(semitone: int) -> Note {
    let octave = (semitone / 12) as u8;
    let class = semitone % 12;
    if class == 0 {
        Note::C(octave)
    } else if class == 1 {
        Note::Cs(octave)
    } else if class == 2 {
        Note::D(octave)
    } else if class == 3 {
        Note::Ds(octave)
    } else if class == 4 {
        Note::E(octave)
    } else if class == 5 {
        Note::F(octave)
    } else if class == 6 {
        Note::Fs(octave)
    } else if class == 7 {
        Note::G(octave)
    } else if class == 8 {
        Note::Gs(octave)
    } else if class == 9 {
        Note::A(octave)
    } else if class == 10 {
        Note::As(octave)
    } else {
        Note::B(octave)
    }
}

/// The accidental that a character writes, if it writes one.
pub open spec fn shift_of(c: char) -> Option<Shift> {
    if c == 's' || c == '#' || c == '\u{266F}' {
        Some(Shift::Diesis)
    } else if c == 'b' || c == '\u{266D}' {
        Some(Shift::Bemolle)
    } else {
        None
    }
}

/// The note that a letter, an octave and an accidental name. E sharp is F,
/// F flat is E, B sharp is the C of the next octave and C flat the B of the
/// octave before.
pub open spec fn compose(letter: char, octave: u8, shift: Shift) -> Result<Note, NoteParseError> {
    if letter == 'A' || letter == 'a' {
        Ok(
            match shift {
                Shift::Natural => Note::A(octave),
                Shift::Diesis => Note::As(octave),
                Shift::Bemolle => Note::Ab(octave),
            },
        )
    } else if letter == 'B' || letter == 'b' {
        match shift {
            Shift::Natural => Ok(Note::B(octave)),
            Shift::Diesis => if octave < 255 {
                Ok(Note::C((octave + 1) as u8))
            } else {
                Err(NoteParseError::TooHigh)
            },
            Shift::Bemolle => Ok(Note::Bb(octave)),
        }
    } else if letter == 'C' || letter == 'c' {
        match shift {
            Shift::Natural => Ok(Note::C(octave)),
            Shift::Diesis => Ok(Note::Cs(octave)),
            Shift::Bemolle => if octave > 0 {
                Ok(Note::B((octave - 1) as u8))
            } else {
                Err(NoteParseError::TooLow)
            },
        }
    } else if letter == 'D' || letter == 'd' {
        Ok(
            match shift {
                Shift::Natural => Note::D(octave),
                Shift::Diesis => Note::Ds(octave),
                Shift::Bemolle => Note::Db(octave),
            },
        )
    } else if letter == 'E' || letter == 'e' {
        Ok(
            match shift {
                Shift::Natural => Note::E(octave),
                Shift::Diesis => Note::F(octave),
                Shift::Bemolle => Note::Eb(octave),
            },
        )
    } else if letter == 'F' || letter == 'f' {
        Ok(
            match shift {
                Shift::Natural => Note::F(octave),
                Shift::Diesis => Note::Fs(octave),
                Shift::Bemolle => Note::E(octave),
            },
        )
    } else if letter == 'G' || letter == 'g' {
        Ok(
            match shift {
                Shift::Natural => Note::G(octave),
                Shift::Diesis => Note::Gs(octave),
                Shift::Bemolle => Note::Gb(octave),
            },
        )
    } else {
        Err(NoteParseError::BadLetter)
    }
}

/// The note that a text names: a letter, the octave in digits and at most
/// one accidental. Whatever follows the accidental is not looked at.
pub open spec fn parse_note(text: Seq<char>) -> Result<Note, NoteParseError> {
    if text.len() == 0 {
        Err(NoteParseError::MissingLetter)
    } else {
        let end = skip_digits(text, 1);
        let octave = decimal_value(text.subrange(1, end));
        if end == 1 {
            Err(NoteParseError::MissingOctave)
        } else if octave > 255 {
            Err(NoteParseError::OctaveOutOfRange)
        } else if end < text.len() {
            match shift_of(text[end]) {
                Some(shift) => compose(text[0], octave as u8, shift),
                None => Err(NoteParseError::BadShift),
            }
        } else {
            compose(text[0], octave as u8, Shift::Natural)
        }
    }
}

/// Do two notes sound the same? They do when they lie in one octave at one
/// place, however they are spelled. This is what `==` means on notes.
pub open spec fn same_pitch(a: Note, b: Note) -> bool {
    a.octave() == b.octave() && a.pitch_class() == b.pitch_class()
}

/// The letter a note is written with.
pub open spec fn note_letter(note: Note) -> char {
    match note {
        Note::C(_) | Note::Cs(_) => 'C',
        Note::Db(_) | Note::D(_) | Note::Ds(_) => 'D',
        Note::Eb(_) | Note::E(_) => 'E',
        Note::F(_) | Note::Fs(_) => 'F',
        Note::Gb(_) | Note::G(_) | Note::Gs(_) => 'G',
        Note::Ab(_) | Note::A(_) | Note::As(_) => 'A',
        Note::Bb(_) | Note::B(_) => 'B',
    }
}

/// The sign a note's accidental is written with; nothing for a natural.
pub open spec fn shift_text(shift: Shift) -> Seq<char> {
    match shift {
        Shift::Natural => Seq::empty(),
        Shift::Diesis => seq!['#'],
        Shift::Bemolle => seq!['b'],
    }
}

/// A note in writing: the letter, the octave, the accidental.
pub open spec fn note_text(note: Note) -> Seq<char> {
    seq![note_letter(note)] + decimal_text(note.octave() as nat) + shift_text(note.shift())
}

impl Note {
    pub const SEMITONE_COUNT: u8 = 12;

    /// The octave the note lies in.
    pub open spec fn octave(self) -> int {
        match self {
            Note::C(o)
            | Note::Cs(o)
            | Note::Db(o)
            | Note::D(o)
            | Note::Ds(o)
            | Note::Eb(o)
            | Note::E(o)
            | Note::F(o)
            | Note::Fs(o)
            | Note::Gb(o)
            | Note::G(o)
            | Note::Gs(o)
            | Note::Ab(o)
            | Note::A(o)
            | Note::As(o)
            | Note::Bb(o)
            | Note::B(o) => o as int,
        }
    }

    /// The place of the note within its octave, counted in semitones from C.
    pub open spec fn pitch_class(self) -> int {
        match self {
            Note::C(_) => 0,
            Note::Cs(_) | Note::Db(_) => 1,
            Note::D(_) => 2,
            Note::Ds(_) | Note::Eb(_) => 3,
            Note::E(_) => 4,
            Note::F(_) => 5,
            Note::Fs(_) | Note::Gb(_) => 6,
            Note::G(_) => 7,
            Note::Gs(_) | Note::Ab(_) => 8,
            Note::A(_) => 9,
            Note::As(_) | Note::Bb(_) => 10,
            Note::B(_) => 11,
        }
    }

    /// The number of semitones from C of octave 0 up to the note.
    pub open spec fn semitone_index(self) -> int {
        self.octave() * 12 + self.pitch_class()
    }

    /// The accidental the note is spelled with.
    pub open spec fn shift(self) -> Shift {
        match self {
            Note::Cs(_) | Note::Ds(_) | Note::Fs(_) | Note::Gs(_) | Note::As(_) => Shift::Diesis,
            Note::Db(_) | Note::Eb(_) | Note::Gb(_) | Note::Ab(_) | Note::Bb(_) => Shift::Bemolle,
            _ => Shift::Natural,
        }
    }

    pub fn from_semitone(semitone: SemitoneNumber) -> (r: Note)
        ensures
            r == note_of_semitone(semitone as int),
            r.semitone_index() == semitone,
    {
        let octave = semitone / Self::SEMITONE_COUNT;
        let class = semitone - octave * Self::SEMITONE_COUNT;
        if class == 0 {
            Note::C(octave)
        } else if class == 1 {
            Note::Cs(octave)
        } else if class == 2 {
            Note::D(octave)
        } else if class == 3 {
            Note::Ds(octave)
        } else if class == 4 {
            Note::E(octave)
        } else if class == 5 {
            Note::F(octave)
        } else if class == 6 {
            Note::Fs(octave)
        } else if class == 7 {
            Note::G(octave)
        } else if class == 8 {
            Note::Gs(octave)
        } else if class == 9 {
            Note::A(octave)
        } else if class == 10 {
            Note::As(octave)
        } else {
            Note::B(octave)
        }
    }

    pub fn octave_number(&self) -> (r: OctaveNumber)
        ensures
            r == self.octave(),
    {
        match *self {
            Note::C(octave_number)
            | Note::Cs(octave_number)
            | Note::Db(octave_number)
            | Note::D(octave_number)
            | Note::Ds(octave_number)
            | Note::Eb(octave_number)
            | Note::E(octave_number)
            | Note::F(octave_number)
            | Note::Fs(octave_number)
            | Note::Gb(octave_number)
            | Note::G(octave_number)
            | Note::Gs(octave_number)
            | Note::Ab(octave_number)
            | Note::A(octave_number)
            | Note::As(octave_number)
            | Note::Bb(octave_number)
            | Note::B(octave_number) => octave_number,
        }
    }

    pub fn semitone_shift(&self) -> (r: Shift)
        ensures
            r == self.shift(),
    {
        match *self {
            Note::Cs(_) | Note::Ds(_) | Note::Fs(_) | Note::Gs(_) | Note::As(_) => Shift::Diesis,
            Note::Db(_) | Note::Eb(_) | Note::Gb(_) | Note::Ab(_) | Note::Bb(_) => Shift::Bemolle,
            _ => Shift::Natural,
        }
    }

    /// The note's place within its octave, in semitones from C.
    pub fn pitch_class_number(&self) -> (r: u8)
        ensures
            r == self.pitch_class(),
            r < 12,
    {
        match *self {
            Note::C(_) => 0,
            Note::Cs(_) | Note::Db(_) => 1,
            Note::D(_) => 2,
            Note::Ds(_) | Note::Eb(_) => 3,
            Note::E(_) => 4,
            Note::F(_) => 5,
            Note::Fs(_) | Note::Gb(_) => 6,
            Note::G(_) => 7,
            Note::Gs(_) | Note::Ab(_) => 8,
            Note::A(_) => 9,
            Note::As(_) | Note::Bb(_) => 10,
            Note::B(_) => 11,
        }
    }

    /// Can the note's semitone number be held in a byte? It can up to the
    /// D sharp of octave 21.
    pub fn has_semitone_number(&self) -> (r: bool)
        ensures
            r == (self.semitone_index() <= 255),
    {
        let octave = self.octave_number();
        octave < 21 || (octave == 21 && self.pitch_class_number() <= 3)
    }

    pub fn semitone_number(&self) -> (r: SemitoneNumber)
        requires
            self.semitone_index() <= 255,
        ensures
            r == self.semitone_index(),
    {
        self.octave_number() * Self::SEMITONE_COUNT + self.pitch_class_number()
    }

    /// Reads a note from its text.
    pub fn parse(text: &[char]) -> (r: Result<Note, NoteParseError>)
        ensures
            r == parse_note(text@),
    {
        if text.len() == 0 {
            return Err(NoteParseError::MissingLetter);
        }
        let end = skip_digits_from(text, 1);
        if end == 1 {
            return Err(NoteParseError::MissingOctave);
        }
        let digits = subvec(text, 1, end);
        proof {
            lemma_skip_digits_bounds(text@, 1);
            assert(digits@[0] != '+') by {
                assert(is_digit(digits@[0]));
            }
        }
        let octave: u8 = match parse_unsigned(digits.as_slice(), 255) {
            Some(value) => value as u8,
            None => {
                return Err(NoteParseError::OctaveOutOfRange);
            },
        };
        let shift = if end < text.len() {
            match Self::parse_shift(text[end]) {
                Some(shift) => shift,
                None => {
                    return Err(NoteParseError::BadShift);
                },
            }
        } else {
            Shift::Natural
        };
        Self::from_parts(text[0], octave, shift)
    }

    /// Reads an accidental.
    pub fn parse_shift(c: char) -> (r: Option<Shift>)
        ensures
            r == shift_of(c),
    {
        if c == 's' || c == '#' || c == '\u{266F}' {
            Some(Shift::Diesis)
        } else if c == 'b' || c == '\u{266D}' {
            Some(Shift::Bemolle)
        } else {
            None
        }
    }

    /// Puts a note together from its letter, octave and accidental.
    pub fn from_parts(letter: char, octave: OctaveNumber, shift: Shift) -> (r: Result<
        Note,
        NoteParseError,
    >)
        ensures
            r == compose(letter, octave, shift),
    {
        if letter == 'A' || letter == 'a' {
            Ok(
                match shift {
                    Shift::Natural => Note::A(octave),
                    Shift::Diesis => Note::As(octave),
                    Shift::Bemolle => Note::Ab(octave),
                },
            )
        } else if letter == 'B' || letter == 'b' {
            match shift {
                Shift::Natural => Ok(Note::B(octave)),
                Shift::Diesis => if octave < 255 {
                    Ok(Note::C(octave + 1))
                } else {
                    Err(NoteParseError::TooHigh)
                },
                Shift::Bemolle => Ok(Note::Bb(octave)),
            }
        } else if letter == 'C' || letter == 'c' {
            match shift {
                Shift::Natural => Ok(Note::C(octave)),
                Shift::Diesis => Ok(Note::Cs(octave)),
                Shift::Bemolle => if octave > 0 {
                    Ok(Note::B(octave - 1))
                } else {
                    Err(NoteParseError::TooLow)
                },
            }
        } else if letter == 'D' || letter == 'd' {
            Ok(
                match shift {
                    Shift::Natural => Note::D(octave),
                    Shift::Diesis => Note::Ds(octave),
                    Shift::Bemolle => Note::Db(octave),
                },
            )
        } else if letter == 'E' || letter == 'e' {
            Ok(
                match shift {
                    Shift::Natural => Note::E(octave),
                    Shift::Diesis => Note::F(octave),
                    Shift::Bemolle => Note::Eb(octave),
                },
            )
        } else if letter == 'F' || letter == 'f' {
            Ok(
                match shift {
                    Shift::Natural => Note::F(octave),
                    Shift::Diesis => Note::Fs(octave),
                    Shift::Bemolle => Note::E(octave),
                },
            )
        } else if letter == 'G' || letter == 'g' {
            Ok(
                match shift {
                    Shift::Natural => Note::G(octave),
                    Shift::Diesis => Note::Gs(octave),
                    Shift::Bemolle => Note::Gb(octave),
                },
            )
        } else {
            Err(NoteParseError::BadLetter)
        }
    }

    /// Appends the note's text to `out`.
    pub fn write_to(&self, out: &mut String)
        ensures
            final(out)@ == old(out)@ + note_text(*self),
    {
        proof {
            reveal_strlit("A");
            reveal_strlit("B");
            reveal_strlit("C");
            reveal_strlit("D");
            reveal_strlit("E");
            reveal_strlit("F");
            reveal_strlit("G");
            reveal_strlit("#");
            reveal_strlit("b");
            reveal_strlit("");
        }
        let letter = match *self {
            Note::C(_) | Note::Cs(_) => "C",
            Note::Db(_) | Note::D(_) | Note::Ds(_) => "D",
            Note::Eb(_) | Note::E(_) => "E",
            Note::F(_) | Note::Fs(_) => "F",
            Note::Gb(_) | Note::G(_) | Note::Gs(_) => "G",
            Note::Ab(_) | Note::A(_) | Note::As(_) => "A",
            Note::Bb(_) | Note::B(_) => "B",
        };
        assert(letter@ =~= seq![note_letter(*self)]);
        out.append(letter);
        push_decimal(out, self.octave_number() as u64);
        let sign = match self.semitone_shift() {
            Shift::Natural => "",
            Shift::Diesis => "#",
            Shift::Bemolle => "b",
        };
        assert(sign@ =~= shift_text(self.shift()));
        out.append(sign);
        proof {
            assert(final(out)@ =~= old(out)@ + note_text(*self));
        }
    }

    /// The note in writing.
    pub fn to_string(&self) -> (r: String)
        ensures
            r@ == note_text(*self),
    {
        let mut out = String::new();
        self.write_to(&mut out);
        proof {
            assert(Seq::<char>::empty() + note_text(*self) =~= note_text(*self));
        }
        out
    }
}

impl PartialEq for Note {
    /// Two notes are equal when they sound the same, however they are
    /// spelled.
    fn eq(&self, other: &Self) -> (r: bool) {
        self.octave_number() == other.octave_number() && self.pitch_class_number()
            == other.pitch_class_number()
    }
}

impl vstd::std_specs::cmp::PartialEqSpecImpl for Note {
    open spec fn obeys_eq_spec() -> bool {
        true
    }

    open spec fn eq_spec(&self, other: &Self) -> bool {
        same_pitch(*self, *other)
    }
}

impl core::str::FromStr for Note {
    type Err = NoteParseError;

    /// Reads a note from its text.
    fn from_str(name: &str) -> (r: Result<Self, Self::Err>)
        ensures
            r == parse_note(name@),
    {
        let text = chars_of(name);
        Note::parse(text.as_slice())
    }
}

/// A note's text is its letter, then the digits of its octave, then at most
/// one sign, which is no digit.
pub proof fn lemma_note_text_shape(note: Note)
    ensures
        ({
            let text = note_text(note);
            let digits = decimal_text(note.octave() as nat);
            &&& text.len() == 1 + digits.len() + shift_text(note.shift()).len()
            &&& digits.len() >= 1
            &&& text[0] == note_letter(note)
            &&& forall|i: int| 0 <= i < digits.len() ==> #[trigger] text[1 + i] == digits[i]
            &&& text.subrange(1, 1 + digits.len() as int) == digits
            &&& note.shift() == Shift::Diesis ==> text[1 + digits.len() as int] == '#'
            &&& note.shift() == Shift::Bemolle ==> text[1 + digits.len() as int] == 'b'
            &&& forall|i: int| 1 <= i < text.len() ==> is_digit(#[trigger] text[i]) || text[i] == '#'
                || text[i] == 'b'
        }),
{
    let text = note_text(note);
    let digits = decimal_text(note.octave() as nat);
    lemma_decimal_text(note.octave() as nat);
    assert(text.subrange(1, 1 + digits.len() as int) =~= digits);
    assert forall|i: int| 1 <= i < text.len() implies is_digit(#[trigger] text[i]) || text[i]
        == '#' || text[i] == 'b' by {
        if i < 1 + digits.len() {
            assert(text[i] == digits[i - 1]);
            assert(is_digit(digits[i - 1]));
        }
    }
}

/// A note written and read again is the note it was, spelling and all.
pub proof fn lemma_note_round_trip(note: Note)
    ensures
        parse_note(note_text(note)) == Ok::<Note, NoteParseError>(note),
{
    let text = note_text(note);
    let digits = decimal_text(note.octave() as nat);
    let end = 1 + digits.len();
    lemma_note_text_shape(note);
    lemma_decimal_text(note.octave() as nat);
    assert forall|i: int| 1 <= i < end implies is_digit(#[trigger] text[i]) by {
        assert(text[1 + (i - 1)] == digits[i - 1]);
        assert(is_digit(digits[i - 1]));
    }
    lemma_skip_digits_run(text, 1, end as int);
}

/// Notes compare equal exactly when their semitone numbers agree.
pub proof fn lemma_equal_notes(a: Note, b: Note)
    ensures
        same_pitch(a, b) <==> a.semitone_index() == b.semitone_index(),
{
}

/// A sharp and the flat of the next letter are one pitch in every octave:
/// they have one semitone number and compare equal.
pub proof fn lemma_enharmonic(octave: u8)
    ensures
        Note::Cs(octave).semitone_index() == Note::Db(octave).semitone_index(),
        Note::Ds(octave).semitone_index() == Note::Eb(octave).semitone_index(),
        Note::Fs(octave).semitone_index() == Note::Gb(octave).semitone_index(),
        Note::Gs(octave).semitone_index() == Note::Ab(octave).semitone_index(),
        Note::As(octave).semitone_index() == Note::Bb(octave).semitone_index(),
        same_pitch(Note::Cs(octave), Note::Db(octave)),
        same_pitch(Note::Ds(octave), Note::Eb(octave)),
        same_pitch(Note::Fs(octave), Note::Gb(octave)),
        same_pitch(Note::Gs(octave), Note::Ab(octave)),
        same_pitch(Note::As(octave), Note::Bb(octave)),
{
}

/// The note made from a semitone number has that number, and is spelled
/// with a sharp or no accidental.
pub proof fn lemma_note_of_semitone(semitone: int)
    requires
        0 <= semitone <= 255,
    ensures
        note_of_semitone(semitone).semitone_index() == semitone,
        note_of_semitone(semitone).shift() != Shift::Bemolle,
{
}

} // verus!
