//! The parser of score listings.
//!
//! A listing is read line by line; a line ends at a line feed. A line that
//! starts with `#` is skipped, and so is what follows a `;`. What is left is
//! stripped of white space at both ends and is then either nothing, a meta
//! line or a line of notes.
//!
//! A meta line is `@key: value`. The keys `bpm`, `channels` and `name` set
//! the tempo, the list of channels to play and the title; any other key
//! names a channel, turns to it and appends the notes of the value. A line
//! of notes appends to the channel last turned to.
//!
//! Turning to a channel puts the notes gathered so far aside under the name
//! of the channel that was current, unless the name does not change or
//! there are no notes, and goes on with the notes put aside under the new
//! name, or with none.

use vstd::prelude::*;
use crate::synth::channel::{Channel, Channels, ChannelsView};
use crate::synth::note_record::{parse_record, NoteRecord, NoteRecordError};
use crate::text::{
    chars_of, chars_equal, fields_of, find, find_char_from, lemma_find_from, parse_unsigned,
    spells, split_on, subvec, trim, trimmed, unsigned_of, views, words, words_of,
};

verus! {

/// What is wrong with a listing.
#[derive(Clone, Copy, Debug, PartialEq, Eq, Structural)]
pub enum ParseErrorKind {
    /// A meta line lacks its colon, its key or its value.
    InvalidMeta,
    /// The value of `bpm` is no number from 0 to 65535.
    InvalidBpm,
    /// The tempo is set a second time.
    BpmAlreadySet,
    /// A word of a line of notes is no note record.
    BadNote(NoteRecordError),
    /// The listing never sets the tempo.
    BpmNotSet,
}

/// What is wrong with a listing, and in which line, counted from zero. A
/// listing found wanting only at its end names the number of its lines.
#[derive(Clone, Copy, Debug, PartialEq, Eq, Structural)]
pub struct ParseError {
    pub kind: ParseErrorKind,
    pub line: usize,
}

impl ParseError {
    pub fn new(kind: ParseErrorKind, line: usize) -> (r: ParseError)
        ensures
            r == (ParseError { kind, line }),
    {
        ParseError { kind, line }
    }
}

/// A channel put aside: its name and its notes.
pub type Saved = (Seq<char>, Seq<NoteRecord>);

/// What the parser knows after some lines.
pub ghost struct ScoreState {
    /// The channels put aside, in the order in which their names came up.
    pub saved: Seq<Saved>,
    /// The names after `@channels:`.
    pub active: Seq<Seq<char>>,
    /// The name of the channel that notes are appended to.
    pub current_name: Seq<char>,
    /// The notes of that channel.
    pub current: Seq<NoteRecord>,
    /// The title.
    pub name: Seq<char>,
    /// The tempo, once set.
    pub bpm: Option<u16>,
}

/// The state before the first line.
pub open spec fn initial_state() -> ScoreState {
    ScoreState {
        saved: Seq::empty(),
        active: Seq::empty(),
        current_name: Seq::empty(),
        current: Seq::empty(),
        name: Seq::empty(),
        bpm: None,
    }
}

/// The place at or after `from` of the first channel put aside under a
/// name.
pub open spec fn lookup_from(saved: Seq<Saved>, name: Seq<char>, from: int) -> Option<int>
    decreases saved.len() - from,
{
    if from < 0 || from >= saved.len() {
        None
    } else if saved[from].0 == name {
        Some(from)
    } else {
        lookup_from(saved, name, from + 1)
    }
}

/// The place of the channel put aside under a name.
pub open spec fn lookup(saved: Seq<Saved>, name: Seq<char>) -> Option<int> {
    lookup_from(saved, name, 0)
}

/// Puts notes aside under a name, in place of what was there.
pub open spec fn put_aside(saved: Seq<Saved>, name: Seq<char>, notes: Seq<NoteRecord>) -> Seq<
    Saved,
> {
    match lookup(saved, name) {
        Some(i) => saved.update(i, (name, notes)),
        None => saved.push((name, notes)),
    }
}

/// The records that the words of a line write, or what is wrong with the
/// first word that writes none.
pub open spec fn parse_records(words: Seq<Seq<char>>) -> Result<Seq<NoteRecord>, NoteRecordError>
    decreases words.len(),
{
    if words.len() == 0 {
        Ok(Seq::empty())
    } else {
        match parse_records(words.drop_last()) {
            Err(error) => Err(error),
            Ok(before) => match parse_record(words.last()) {
                Ok(record) => Ok(before.push(record)),
                Err(error) => Err(error),
            },
        }
    }
}

/// Appends the notes of a line to the current channel.
pub open spec fn append_notes(state: ScoreState, line: Seq<char>) -> Result<
    ScoreState,
    ParseErrorKind,
> {
    match parse_records(words_of(line)) {
        Ok(records) => Ok(ScoreState { current: state.current + records, ..state }),
        Err(error) => Err(ParseErrorKind::BadNote(error)),
    }
}

/// Turns to the channel of the given name.
pub open spec fn turn_to(state: ScoreState, name: Seq<char>) -> ScoreState {
    let saved = if name != state.current_name && state.current.len() > 0 {
        put_aside(state.saved, state.current_name, state.current)
    } else {
        state.saved
    };
    match lookup(saved, name) {
        Some(i) => ScoreState {
            saved: saved.update(i, (name, Seq::empty())),
            current_name: name,
            current: saved[i].1,
            ..state
        },
        None => ScoreState { saved, current_name: name, current: Seq::empty(), ..state },
    }
}

/// Takes in a meta line's key, with its `@`, and value.
pub open spec fn apply_meta(state: ScoreState, name: Seq<char>, value: Seq<char>) -> Result<
    ScoreState,
    ParseErrorKind,
> {
    if name.len() < 2 {
        Err(ParseErrorKind::InvalidMeta)
    } else {
        let key = name.skip(1);
        if key == "bpm"@ {
            match unsigned_of(value, 65_535) {
                None => Err(ParseErrorKind::InvalidBpm),
                Some(bpm) => if state.bpm is Some {
                    Err(ParseErrorKind::BpmAlreadySet)
                } else {
                    Ok(ScoreState { bpm: Some(bpm as u16), ..state })
                },
            }
        } else if key == "channels"@ {
            Ok(ScoreState { active: fields_of(value, ' '), ..state })
        } else if key == "name"@ {
            Ok(ScoreState { name: value, ..state })
        } else {
            append_notes(turn_to(state, key), value)
        }
    }
}

/// Takes in a meta line: the key stands before the first colon, the value
/// after it, and neither is empty once stripped of white space.
pub open spec fn parse_meta_line(state: ScoreState, line: Seq<char>) -> Result<
    ScoreState,
    ParseErrorKind,
> {
    match find(line, ':') {
        None => Err(ParseErrorKind::InvalidMeta),
        Some(colon) => {
            let name = trimmed(line.take(colon));
            let value = trimmed(line.skip(colon + 1));
            if name.len() == 0 || value.len() == 0 {
                Err(ParseErrorKind::InvalidMeta)
            } else {
                apply_meta(state, name, value)
            }
        },
    }
}

/// What of a line is not comment, stripped of white space.
pub open spec fn line_body(raw: Seq<char>) -> Seq<char> {
    if raw.len() > 0 && raw[0] == '#' {
        Seq::empty()
    } else {
        match find(raw, ';') {
            Some(at) => trimmed(raw.take(at)),
            None => trimmed(raw),
        }
    }
}

/// Takes in one line.
pub open spec fn parse_line(state: ScoreState, raw: Seq<char>) -> Result<
    ScoreState,
    ParseErrorKind,
> {
    let body = line_body(raw);
    if body.len() == 0 {
        Ok(state)
    } else if body[0] == '@' {
        parse_meta_line(state, body)
    } else {
        append_notes(state, body)
    }
}

/// Takes in the lines from `from` on.
pub open spec fn parse_lines(state: ScoreState, lines: Seq<Seq<char>>, from: int) -> Result<
    ScoreState,
    ParseError,
>
    decreases lines.len() - from,
{
    if from < 0 || from >= lines.len() {
        Ok(state)
    } else {
        match parse_line(state, lines[from]) {
            Ok(next) => parse_lines(next, lines, from + 1),
            Err(kind) => Err(ParseError { kind, line: from as usize }),
        }
    }
}

/// The channels put aside under the names from `from` on, in the order of
/// the names; a name under which nothing is left to take gives nothing.
pub open spec fn pick(saved: Seq<Saved>, active: Seq<Seq<char>>, from: int) -> Seq<
    Seq<NoteRecord>,
>
    decreases active.len() - from,
{
    if from < 0 || from >= active.len() {
        Seq::empty()
    } else {
        match lookup(saved, active[from]) {
            Some(i) => seq![saved[i].1] + pick(saved.remove(i), active, from + 1),
            None => pick(saved, active, from + 1),
        }
    }
}

/// The score that a state amounts to once the last line is taken in.
pub open spec fn finish(state: ScoreState) -> Result<ChannelsView, ParseErrorKind> {
    let saved = if state.current.len() > 0 {
        put_aside(state.saved, state.current_name, state.current)
    } else {
        state.saved
    };
    match state.bpm {
        None => Err(ParseErrorKind::BpmNotSet),
        Some(bpm) => Ok(ChannelsView { channels: pick(saved, state.active, 0), bpm }),
    }
}

/// The score that a listing writes.
pub open spec fn parse_listing(text: Seq<char>) -> Result<ChannelsView, ParseError> {
    parse_from(initial_state(), text)
}

/// The score that a listing amounts to when it is taken in from a given
/// state.
pub open spec fn parse_from(state: ScoreState, text: Seq<char>) -> Result<
    ChannelsView,
    ParseError,
> {
    let lines = fields_of(text, '\n');
    match parse_lines(state, lines, 0) {
        Err(error) => Err(error),
        Ok(state) => match finish(state) {
            Ok(score) => Ok(score),
            Err(kind) => Err(ParseError { kind, line: lines.len() as usize }),
        },
    }
}

/// A channel put aside.
pub struct NamedChannel {
    pub name: Vec<char>,
    pub notes: Channel,
}

/// What a list of channels put aside holds.
pub open spec fn saved_view(list: Seq<NamedChannel>) -> Seq<Saved> {
    Seq::new(list.len(), |i: int| (list[i].name@, list[i].notes@))
}

pub struct Parser {
    listing: Vec<char>,
    channels: Vec<NamedChannel>,
    active_channels: Vec<Vec<char>>,
    current_name: Vec<char>,
    current: Channel,
    name: Vec<char>,
    bpm: Option<u16>,
}

impl View for Parser {
    type V = ScoreState;

    closed spec fn view(&self) -> ScoreState {
        ScoreState {
            saved: saved_view(self.channels@),
            active: views(self.active_channels@),
            current_name: self.current_name@,
            current: self.current@,
            name: self.name@,
            bpm: self.bpm,
        }
    }
}

/// What `lookup_from` finds lies at or after `from` and bears the name.
pub proof fn lemma_lookup_from(saved: Seq<Saved>, name: Seq<char>, from: int)
    requires
        0 <= from,
    ensures
        match lookup_from(saved, name, from) {
            Some(i) => from <= i < saved.len() && saved[i].0 == name,
            None => forall|j: int| from <= j < saved.len() ==> (#[trigger] saved[j]).0 != name,
        },
    decreases saved.len() - from,
{
    if from < saved.len() && saved[from].0 != name {
        lemma_lookup_from(saved, name, from + 1);
    }
}

/// Finds the channel put aside under a name.
fn find_saved(list: &Vec<NamedChannel>, name: &[char]) -> (r: Option<usize>)
    ensures
        match r {
            Some(i) => lookup(saved_view(list@), name@) == Some(i as int) && i < list@.len(),
            None => lookup(saved_view(list@), name@) is None,
        },
{
    let mut i: usize = 0;
    while i < list.len()
        invariant
            0 <= i <= list@.len(),
            lookup(saved_view(list@), name@) == lookup_from(saved_view(list@), name@, i as int),
        decreases list@.len() - i,
    {
        if chars_equal(list[i].name.as_slice(), name) {
            return Some(i);
        }
        i += 1;
    }
    None
}

/// Puts notes aside under a name, in place of what was there.
fn save(list: &mut Vec<NamedChannel>, name: Vec<char>, notes: Channel)
    ensures
        saved_view(final(list)@) == put_aside(saved_view(old(list)@), name@, notes@),
{
    match find_saved(list, name.as_slice()) {
        Some(i) => {
            let _replaced = list.remove(i);
            list.insert(i, NamedChannel { name, notes });
            assert(saved_view(list@) =~= put_aside(saved_view(old(list)@), name@, notes@));
        },
        None => {
            list.push(NamedChannel { name, notes });
            assert(saved_view(list@) =~= put_aside(saved_view(old(list)@), name@, notes@));
        },
    }
}

/// Reads the records that the words of a line write.
fn read_records(line: &[char]) -> (r: Result<Vec<NoteRecord>, NoteRecordError>)
    ensures
        match r {
            Ok(records) => parse_records(words_of(line@)) == Ok::<
                Seq<NoteRecord>,
                NoteRecordError,
            >(records@),
            Err(error) => parse_records(words_of(line@)) == Err::<
                Seq<NoteRecord>,
                NoteRecordError,
            >(error),
        },
{
    let tokens = words(line);
    let ghost all = views(tokens@);
    let mut out: Vec<NoteRecord> = Vec::new();
    let mut i: usize = 0;
    proof {
        assert(all.take(0) =~= Seq::<Seq<char>>::empty());
    }
    while i < tokens.len()
        invariant
            all == views(tokens@),
            all == words_of(line@),
            0 <= i <= tokens@.len(),
            parse_records(all.take(i as int)) == Ok::<Seq<NoteRecord>, NoteRecordError>(out@),
        decreases tokens@.len() - i,
    {
        proof {
            assert(all.take(i + 1).drop_last() =~= all.take(i as int));
            assert(all.take(i + 1).last() == tokens@[i as int]@);
        }
        match NoteRecord::parse(tokens[i].as_slice()) {
            Ok(record) => {
                out.push(record);
            },
            Err(error) => {
                proof {
                    lemma_first_error(all, i + 1);
                }
                return Err(error);
            },
        }
        i += 1;
    }
    proof {
        assert(all.take(i as int) =~= all);
    }
    Ok(out)
}

/// An error among the first words of a line is the error of the line.
proof fn lemma_first_error(words: Seq<Seq<char>>, n: int)
    requires
        0 <= n <= words.len(),
        parse_records(words.take(n)) is Err,
    ensures
        parse_records(words) == parse_records(words.take(n)),
    decreases words.len() - n,
{
    if n < words.len() {
        assert(words.take(n + 1).drop_last() =~= words.take(n));
        lemma_first_error(words, n + 1);
    } else {
        assert(words.take(n) =~= words);
    }
}

/// Appending one vector to another.
fn append_all(to: &mut Vec<NoteRecord>, from: Vec<NoteRecord>)
    ensures
        final(to)@ == old(to)@ + from@,
{
    let mut from = from;
    to.append(&mut from);
}

impl Parser {
    /// The listing to parse.
    pub closed spec fn text(&self) -> Seq<char> {
        self.listing@
    }

    pub fn new(listing: &str) -> (r: Parser)
        ensures
            r.text() == listing@,
            r@ == initial_state(),
    {
        let r = Parser {
            listing: chars_of(listing),
            channels: Vec::new(),
            active_channels: Vec::new(),
            current_name: Vec::new(),
            current: Vec::new(),
            name: Vec::new(),
            bpm: None,
        };
        proof {
            assert(r@.saved =~= Seq::<Saved>::empty());
            assert(r@.active =~= Seq::<Seq<char>>::empty());
        }
        r
    }

    /// Appends the notes of a line to the current channel.
    pub fn append_note_line(&mut self, line: &[char]) -> (r: Result<(), ParseErrorKind>)
        ensures
            final(self).text() == old(self).text(),
            match r {
                Ok(()) => append_notes(old(self)@, line@) == Ok::<ScoreState, ParseErrorKind>(
                    final(self)@,
                ),
                Err(kind) => append_notes(old(self)@, line@) == Err::<ScoreState, ParseErrorKind>(
                    kind,
                ),
            },
    {
        match read_records(line) {
            Ok(records) => {
                append_all(&mut self.current, records);
                Ok(())
            },
            Err(error) => Err(ParseErrorKind::BadNote(error)),
        }
    }

    /// Turns to the channel of the given name.
    fn turn(&mut self, key: Vec<char>)
        ensures
            final(self).text() == old(self).text(),
            final(self)@ == turn_to(old(self)@, key@),
    {
        if !chars_equal(key.as_slice(), self.current_name.as_slice()) && self.current.len() > 0 {
            let mut name: Vec<char> = Vec::new();
            let mut notes: Channel = Vec::new();
            core::mem::swap(&mut self.current_name, &mut name);
            core::mem::swap(&mut self.current, &mut notes);
            save(&mut self.channels, name, notes);
        }
        let ghost saved = saved_view(self.channels@);
        match find_saved(&self.channels, key.as_slice()) {
            Some(i) => {
                let taken = self.channels.remove(i);
                self.channels.insert(i, NamedChannel { name: taken.name, notes: Vec::new() });
                self.current = taken.notes;
                proof {
                    lemma_lookup_from(saved, key@, 0);
                    assert(saved_view(self.channels@) =~= saved.update(
                        i as int,
                        (key@, Seq::empty()),
                    ));
                }
            },
            None => {
                self.current = Vec::new();
            },
        }
        self.current_name = key;
    }

    /// Takes in a meta line's key, with its `@`, and value.
    pub fn parse_meta(&mut self, name: &[char], value: &[char]) -> (r: Result<(), ParseErrorKind>)
        ensures
            final(self).text() == old(self).text(),
            match r {
                Ok(()) => apply_meta(old(self)@, name@, value@) == Ok::<
                    ScoreState,
                    ParseErrorKind,
                >(final(self)@),
                Err(kind) => apply_meta(old(self)@, name@, value@) == Err::<
                    ScoreState,
                    ParseErrorKind,
                >(kind),
            },
    {
        if name.len() < 2 {
            return Err(ParseErrorKind::InvalidMeta);
        }
        let key = subvec(name, 1, name.len());
        proof {
            assert(key@ =~= name@.skip(1));
        }
        if spells(key.as_slice(), "bpm") {
            let bpm: u16 = match parse_unsigned(value, 65_535) {
                Some(bpm) => bpm as u16,
                None => {
                    return Err(ParseErrorKind::InvalidBpm);
                },
            };
            if self.bpm.is_some() {
                return Err(ParseErrorKind::BpmAlreadySet);
            }
            self.bpm = Some(bpm);
            Ok(())
        } else if spells(key.as_slice(), "channels") {
            self.active_channels = split_on(value, ' ');
            Ok(())
        } else if spells(key.as_slice(), "name") {
            self.name = subvec(value, 0, value.len());
            proof {
                assert(self.name@ =~= value@);
            }
            Ok(())
        } else {
            self.turn(key);
            self.append_note_line(value)
        }
    }

    /// Takes in one line.
    fn take_line(&mut self, raw: &[char]) -> (r: Result<(), ParseErrorKind>)
        ensures
            final(self).text() == old(self).text(),
            match r {
                Ok(()) => parse_line(old(self)@, raw@) == Ok::<ScoreState, ParseErrorKind>(
                    final(self)@,
                ),
                Err(kind) => parse_line(old(self)@, raw@) == Err::<ScoreState, ParseErrorKind>(
                    kind,
                ),
            },
    {
        if raw.len() > 0 && raw[0] == '#' {
            return Ok(());
        }
        proof {
            lemma_find_from(raw@, ';', 0);
        }
        let body = match find_char_from(raw, ';', 0) {
            Some(at) => {
                let kept = subvec(raw, 0, at);
                proof {
                    assert(kept@ =~= raw@.take(at as int));
                }
                trim(kept.as_slice())
            },
            None => trim(raw),
        };
        if body.len() == 0 {
            return Ok(());
        }
        if body[0] != '@' {
            return self.append_note_line(body.as_slice());
        }
        proof {
            lemma_find_from(body@, ':', 0);
        }
        let colon = match find_char_from(body.as_slice(), ':', 0) {
            Some(colon) => colon,
            None => {
                return Err(ParseErrorKind::InvalidMeta);
            },
        };
        let before = subvec(body.as_slice(), 0, colon);
        let after = subvec(body.as_slice(), colon + 1, body.len());
        proof {
            assert(before@ =~= body@.take(colon as int));
            assert(after@ =~= body@.skip(colon + 1));
        }
        let name = trim(before.as_slice());
        let value = trim(after.as_slice());
        if name.len() == 0 || value.len() == 0 {
            return Err(ParseErrorKind::InvalidMeta);
        }
        self.parse_meta(name.as_slice(), value.as_slice())
    }

    /// Reads the listing.
    pub fn parse(self) -> (r: Result<Channels, ParseError>)
        ensures
            match r {
                Ok(channels) => parse_from(self@, self.text()) == Ok::<ChannelsView, ParseError>(
                    channels@,
                ),
                Err(error) => parse_from(self@, self.text()) == Err::<ChannelsView, ParseError>(
                    error,
                ),
            },
    {
        let mut parser = self;
        let lines = split_on(parser.listing.as_slice(), '\n');
        let ghost all = views(lines@);
        let mut i: usize = 0;
        while i < lines.len()
            invariant
                all == views(lines@),
                all == fields_of(self.text(), '\n'),
                parser.text() == self.text(),
                0 <= i <= lines@.len(),
                parse_lines(self@, all, 0) == parse_lines(parser@, all, i as int),
            decreases lines@.len() - i,
        {
            match parser.take_line(lines[i].as_slice()) {
                Ok(()) => {},
                Err(kind) => {
                    return Err(ParseError::new(kind, i));
                },
            }
            i += 1;
        }
        let count = lines.len();
        if parser.current.len() > 0 {
            let mut name: Vec<char> = Vec::new();
            let mut notes: Channel = Vec::new();
            core::mem::swap(&mut parser.current_name, &mut name);
            core::mem::swap(&mut parser.current, &mut notes);
            save(&mut parser.channels, name, notes);
        }
        let bpm = match parser.bpm {
            Some(bpm) => bpm,
            None => {
                return Err(ParseError::new(ParseErrorKind::BpmNotSet, count));
            },
        };
        let mut channels = Channels::new(bpm);
        let mut saved = parser.channels;
        let active = parser.active_channels;
        let ghost first = saved_view(saved@);
        let ghost names = views(active@);
        let mut k: usize = 0;
        proof {
            assert(channels@.channels + pick(first, names, 0) =~= pick(first, names, 0));
        }
        while k < active.len()
            invariant
                names == views(active@),
                0 <= k <= active@.len(),
                channels@.bpm == bpm,
                channels@.channels + pick(saved_view(saved@), names, k as int) == pick(
                    first,
                    names,
                    0,
                ),
            decreases active@.len() - k,
        {
            let ghost before = saved_view(saved@);
            let ghost done = channels@.channels;
            match find_saved(&saved, active[k].as_slice()) {
                Some(at) => {
                    let taken = saved.remove(at);
                    channels.push(taken.notes);
                    proof {
                        assert(saved_view(saved@) =~= before.remove(at as int));
                        assert(done.push(before[at as int].1) + pick(
                            before.remove(at as int),
                            names,
                            k + 1,
                        ) =~= done + (seq![before[at as int].1] + pick(
                            before.remove(at as int),
                            names,
                            k + 1,
                        )));
                    }
                },
                None => {},
            }
            k += 1;
        }
        proof {
            assert(channels@.channels + Seq::<Seq<NoteRecord>>::empty() =~= channels@.channels);
        }
        Ok(channels)
    }
}

} // verus!
