//! Writing a score as a listing, and the proof that reading the listing
//! gives the score back.
//!
//! The listing names the channels `c0`, `c1` and so on, in their order,
//! and writes each channel on a line of its own.

use vstd::prelude::*;
use crate::synth::channel::{Channels, ChannelsView};
use crate::synth::note_record::{
    lemma_record_round_trip, lemma_record_text_shape, record_text, NoteRecord, NoteRecordError,
};
use crate::synth::parser::{
    apply_meta, initial_state, lemma_lookup_from, line_body, lookup, lookup_from, parse_line,
    parse_lines, parse_listing, parse_records, pick, put_aside, turn_to, ParseError,
    ParseErrorKind, Saved, ScoreState,
};
use crate::text::{
    decimal_text, fields_of, find, is_digit, is_whitespace, lemma_decimal_text, lemma_find_first,
    lemma_find_none, lemma_skip_whitespace_bounds, lemma_skip_word_bounds,
    lemma_skips_after_skip, lemma_trim_end_bounds, push_decimal, skip_whitespace, skip_word,
    trim_end_index, trimmed, words_of,
};

verus! {

/// The name that the listing gives the channel of a number.
pub open spec fn channel_name(number: nat) -> Seq<char> {
    seq!['c'] + decimal_text(number)
}

/// The names of the channels from `from` up to `count`, with a blank
/// between each two.
pub open spec fn names_text(from: nat, count: nat) -> Seq<char>
    decreases count - from,
{
    if from >= count {
        Seq::empty()
    } else if from + 1 == count {
        channel_name(from)
    } else {
        channel_name(from) + seq![' '] + names_text(from + 1, count)
    }
}

/// The records of a channel in writing, with a blank between each two.
pub open spec fn records_text(records: Seq<NoteRecord>) -> Seq<char>
    decreases records.len(),
{
    if records.len() == 0 {
        Seq::empty()
    } else if records.len() == 1 {
        record_text(records[0])
    } else {
        record_text(records[0]) + seq![' '] + records_text(records.drop_first())
    }
}

/// The line of a channel: `@`, its name, a colon and its records.
pub open spec fn channel_line(number: nat, records: Seq<NoteRecord>) -> Seq<char> {
    seq!['@'] + channel_name(number) + seq![':'] + records_text(records)
}

/// The line that sets the tempo.
pub open spec fn bpm_line(bpm: u16) -> Seq<char> {
    "@bpm:"@ + decimal_text(bpm as nat)
}

/// The line that lists the channels.
pub open spec fn channels_line(count: nat) -> Seq<char> {
    "@channels:"@ + names_text(0, count)
}

/// The lines of the channels from `from` on.
pub open spec fn channel_lines(channels: Seq<Seq<NoteRecord>>, from: nat) -> Seq<Seq<char>>
    decreases channels.len() - from,
{
    if from >= channels.len() {
        Seq::empty()
    } else {
        seq![channel_line(from, channels[from as int])] + channel_lines(channels, from + 1)
    }
}

/// The lines of the listing of a score: the signature, the tempo, the list
/// of channels if there are any, and the channels.
pub open spec fn listing_lines(score: ChannelsView) -> Seq<Seq<char>> {
    let head = seq!["#!/bin/beesynth"@, bpm_line(score.bpm)];
    if score.channels.len() == 0 {
        head
    } else {
        head + seq![channels_line(score.channels.len())] + channel_lines(score.channels, 0)
    }
}

/// Lines put together to a text, a line feed behind each.
pub open spec fn joined(lines: Seq<Seq<char>>) -> Seq<char>
    decreases lines.len(),
{
    if lines.len() == 0 {
        Seq::empty()
    } else {
        lines[0] + seq!['\n'] + joined(lines.drop_first())
    }
}

/// The listing of a score.
pub open spec fn listing_text(score: ChannelsView) -> Seq<char> {
    joined(listing_lines(score))
}

/// Can the score be written as a listing that reads back? It can if none
/// of its channels is empty: a channel without notes has no line.
pub open spec fn writable(score: ChannelsView) -> bool {
    forall|i: int| 0 <= i < score.channels.len() ==> (#[trigger] score.channels[i]).len() > 0
}

/// A text without line feeds in its lines is cut into those lines, and an
/// empty piece behind the last line feed.
pub proof fn lemma_fields_of_joined(lines: Seq<Seq<char>>)
    requires
        forall|i: int, j: int|
            0 <= i < lines.len() && 0 <= j < lines[i].len() ==> (#[trigger] lines[i][j]) != '\n',
    ensures
        fields_of(joined(lines), '\n') == lines.push(Seq::empty()),
    decreases lines.len(),
{
    let text = joined(lines);
    if lines.len() == 0 {
        lemma_find_none(text, '\n');
        assert(seq![text] =~= lines.push(Seq::empty()));
    } else {
        let first = lines[0];
        let rest = lines.drop_first();
        assert forall|j: int| 0 <= j < first.len() implies #[trigger] text[j] != '\n' by {
            assert(text[j] == lines[0][j]);
        }
        lemma_find_first(text, '\n', first.len() as int);
        assert(text.take(first.len() as int) =~= first);
        assert(text.skip(first.len() as int + 1) =~= joined(rest));
        assert forall|i: int, j: int| 0 <= i < rest.len() && 0 <= j < rest[i].len() implies (
        #[trigger] rest[i][j]) != '\n' by {
            assert(rest[i][j] == lines[i + 1][j]);
        }
        lemma_fields_of_joined(rest);
        assert(seq![first] + rest.push(Seq::empty()) =~= lines.push(Seq::empty()));
    }
}

/// A text that neither starts nor ends with white space is not changed by
/// trimming.
pub proof fn lemma_trimmed_tight(s: Seq<char>)
    requires
        s.len() > 0,
        !is_whitespace(s[0]),
        !is_whitespace(s.last()),
    ensures
        trimmed(s) == s,
{
    assert(skip_whitespace(s, 0) == 0);
    assert(trim_end_index(s, s.len() as int) == s.len());
    assert(s.subrange(0, s.len() as int) =~= s);
}

/// The name of a channel starts with `c`, goes on with digits, and is the
/// name of no other channel.
pub proof fn lemma_channel_name(number: nat)
    ensures
        channel_name(number).len() >= 2,
        channel_name(number)[0] == 'c',
        forall|i: int| 1 <= i < channel_name(number).len() ==> is_digit(
            #[trigger] channel_name(number)[i],
        ),
        forall|other: nat| channel_name(other) == channel_name(number) ==> other == number,
        channel_name(number) != "bpm"@,
        channel_name(number) != "channels"@,
        channel_name(number) != "name"@,
{
    let name = channel_name(number);
    let digits = decimal_text(number);
    lemma_decimal_text(number);
    assert forall|i: int| 1 <= i < name.len() implies is_digit(#[trigger] name[i]) by {
        assert(name[i] == digits[i - 1]);
    }
    assert forall|other: nat| channel_name(other) == name implies other == number by {
        lemma_decimal_text(other);
        assert(channel_name(other).subrange(1, channel_name(other).len() as int) =~= decimal_text(
            other,
        ));
        assert(name.subrange(1, name.len() as int) =~= digits);
    }
    reveal_strlit("bpm");
    reveal_strlit("channels");
    reveal_strlit("name");
    assert("bpm"@[0] == 'b');
    assert("name"@[0] == 'n');
    assert("channels"@[1] == 'h');
    assert(is_digit(name[1]));
}

/// The names of the channels from `from` up to `count`.
pub open spec fn names(from: nat, count: nat) -> Seq<Seq<char>> {
    Seq::new((count - from) as nat, |i: int| channel_name((from + i) as nat))
}

/// The list of names is made of names' characters and blanks, starts with
/// a name and ends with one.
proof fn lemma_names_text_shape(from: nat, count: nat)
    requires
        from < count,
    ensures
        names_text(from, count).len() >= 2,
        names_text(from, count)[0] == 'c',
        is_digit(names_text(from, count).last()),
        forall|i: int|
            0 <= i < names_text(from, count).len() ==> {
                let c = #[trigger] names_text(from, count)[i];
                c == 'c' || is_digit(c) || c == ' '
            },
    decreases count - from,
{
    let name = channel_name(from);
    lemma_channel_name(from);
    let text = names_text(from, count);
    if from + 1 < count {
        let rest = names_text(from + 1, count);
        lemma_names_text_shape(from + 1, count);
        assert(text[0] == name[0]);
        assert(text.last() == rest.last());
        assert forall|i: int| 0 <= i < text.len() implies {
            let c = #[trigger] text[i];
            c == 'c' || is_digit(c) || c == ' '
        } by {
            if i < name.len() {
                assert(text[i] == name[i]);
            } else if i > name.len() {
                assert(text[i] == rest[i - name.len() - 1]);
            }
        }
    } else {
        assert(is_digit(name[name.len() - 1]));
    }
}

/// Cutting the list of names at its blanks gives the names.
proof fn lemma_fields_of_names(from: nat, count: nat)
    requires
        from < count,
    ensures
        fields_of(names_text(from, count), ' ') == names(from, count),
    decreases count - from,
{
    let name = channel_name(from);
    let text = names_text(from, count);
    lemma_channel_name(from);
    if from + 1 < count {
        let rest = names_text(from + 1, count);
        assert forall|j: int| 0 <= j < name.len() implies #[trigger] text[j] != ' ' by {
            assert(text[j] == name[j]);
            if j >= 1 {
                assert(is_digit(name[j]));
            }
        }
        lemma_find_first(text, ' ', name.len() as int);
        assert(text.take(name.len() as int) =~= name);
        assert(text.skip(name.len() as int + 1) =~= rest);
        lemma_fields_of_names(from + 1, count);
        assert(seq![name] + names(from + 1, count) =~= names(from, count));
    } else {
        assert forall|j: int| 0 <= j < text.len() implies #[trigger] text[j] != ' ' by {
            if j >= 1 {
                assert(is_digit(name[j]));
            }
        }
        lemma_find_none(text, ' ');
        assert(seq![name] =~= names(from, count));
    }
}

/// The texts of some records.
pub open spec fn record_texts(records: Seq<NoteRecord>) -> Seq<Seq<char>> {
    Seq::new(records.len(), |i: int| record_text(records[i]))
}

/// The records of a channel in writing have no white space but the blanks
/// between them, no line feed and no semicolon, and neither start nor end
/// with a blank.
proof fn lemma_records_text_shape(records: Seq<NoteRecord>)
    requires
        records.len() > 0,
    ensures
        records_text(records).len() >= 3,
        !is_whitespace(records_text(records)[0]),
        !is_whitespace(records_text(records).last()),
        forall|i: int|
            0 <= i < records_text(records).len() ==> {
                let c = #[trigger] records_text(records)[i];
                c != ';' && c != '\n' && (is_whitespace(c) ==> c == ' ')
            },
    decreases records.len(),
{
    let first = record_text(records[0]);
    let text = records_text(records);
    lemma_record_text_shape(records[0]);
    if records.len() > 1 {
        let rest = records_text(records.drop_first());
        lemma_records_text_shape(records.drop_first());
        assert(text[0] == first[0]);
        assert(text.last() == rest.last());
        assert forall|i: int| 0 <= i < text.len() implies {
            let c = #[trigger] text[i];
            c != ';' && c != '\n' && (is_whitespace(c) ==> c == ' ')
        } by {
            if i < first.len() {
                assert(text[i] == first[i]);
            } else if i > first.len() {
                assert(text[i] == rest[i - first.len() - 1]);
            }
        }
    } else {
        assert(text.last() == first[first.len() - 1]);
    }
}

/// The words of the records of a channel in writing are the texts of the
/// records.
proof fn lemma_words_of_records(records: Seq<NoteRecord>)
    ensures
        words_of(records_text(records)) == record_texts(records),
    decreases records.len(),
{
    let text = records_text(records);
    if records.len() == 0 {
        assert(words_of(text) =~= record_texts(records));
    } else {
        let first = record_text(records[0]);
        lemma_record_text_shape(records[0]);
        assert forall|i: int| 0 <= i < first.len() implies !is_whitespace(#[trigger] text[i]) by {
            assert(text[i] == first[i]);
        }
        assert(skip_whitespace(text, 0) == 0);
        lemma_word_run(text, 0, first.len() as int);
        assert(text.subrange(0, first.len() as int) =~= first);
        if records.len() == 1 {
            assert(text.skip(first.len() as int) =~= Seq::<char>::empty());
            assert(words_of(Seq::<char>::empty()) =~= Seq::<Seq<char>>::empty());
            assert(seq![first] + Seq::<Seq<char>>::empty() =~= record_texts(records));
        } else {
            let rest = records_text(records.drop_first());
            let tail = text.skip(first.len() as int);
            lemma_words_of_records(records.drop_first());
            lemma_records_text_shape(records.drop_first());
            assert(tail =~= seq![' '] + rest);
            lemma_words_after_blank(rest);
            assert(seq![first] + record_texts(records.drop_first()) =~= record_texts(records));
        }
    }
}

/// A run of characters that are no white space, up to the end of the text
/// or to a white space, is skipped as one word.
proof fn lemma_word_run(s: Seq<char>, from: int, to: int)
    requires
        0 <= from <= to <= s.len(),
        forall|i: int| from <= i < to ==> !is_whitespace(#[trigger] s[i]),
        to < s.len() ==> is_whitespace(s[to]),
    ensures
        skip_word(s, from) == to,
    decreases to - from,
{
    if from < to {
        assert(!is_whitespace(s[from]));
        lemma_word_run(s, from + 1, to);
    }
}

/// A blank in front of a text that starts with a word does not change its
/// words.
proof fn lemma_words_after_blank(s: Seq<char>)
    requires
        s.len() > 0,
        !is_whitespace(s[0]),
    ensures
        words_of(seq![' '] + s) == words_of(s),
{
    let t = seq![' '] + s;
    assert(t.skip(1) =~= s);
    assert(is_whitespace(t[0]));
    assert(skip_whitespace(s, 0) == 0);
    assert(skip_whitespace(t, 1) == 1);
    assert(skip_whitespace(t, 0) == 1);
    lemma_skips_after_skip(t, 1, 1);
    lemma_skip_word_bounds(s, 0);
    let end = skip_word(s, 0);
    assert(skip_word(t, 1) == end + 1);
    assert(t.subrange(1, end + 1) =~= s.subrange(0, end));
    assert(t.skip(end + 1) =~= s.skip(end));
    assert(end > 0);
}

/// The texts of records read back as the records.
proof fn lemma_parse_record_texts(records: Seq<NoteRecord>)
    ensures
        parse_records(record_texts(records)) == Ok::<Seq<NoteRecord>, NoteRecordError>(records),
    decreases records.len(),
{
    if records.len() > 0 {
        let shorter = records.drop_last();
        lemma_parse_record_texts(shorter);
        lemma_record_round_trip(records.last());
        assert(record_texts(records).drop_last() =~= record_texts(shorter));
        assert(shorter.push(records.last()) =~= records);
    } else {
        assert(records =~= Seq::<NoteRecord>::empty());
    }
}

/// A line made of a key that starts with `@`, a colon and a value is
/// taken in as a meta line of that key and value, if the key has no colon,
/// neither has a semicolon, and neither starts or ends with white space.
proof fn lemma_meta_line(state: ScoreState, head: Seq<char>, value: Seq<char>)
    requires
        head.len() > 0,
        head[0] == '@',
        !is_whitespace(head.last()),
        forall|i: int| 0 <= i < head.len() ==> #[trigger] head[i] != ':' && head[i] != ';',
        value.len() > 0,
        !is_whitespace(value[0]),
        !is_whitespace(value.last()),
        forall|i: int| 0 <= i < value.len() ==> #[trigger] value[i] != ';',
    ensures
        parse_line(state, head + seq![':'] + value) == apply_meta(state, head, value),
{
    let line = head + seq![':'] + value;
    assert(line[0] == head[0]);
    assert(line.last() == value.last());
    assert forall|i: int| 0 <= i < line.len() implies #[trigger] line[i] != ';' by {
        if i < head.len() {
            assert(line[i] == head[i]);
        } else if i > head.len() {
            assert(line[i] == value[i - head.len() - 1]);
        }
    }
    lemma_find_none(line, ';');
    lemma_trimmed_tight(line);
    assert(line_body(line) == line);
    assert forall|i: int| 0 <= i < head.len() implies #[trigger] line[i] != ':' by {
        assert(line[i] == head[i]);
    }
    lemma_find_first(line, ':', head.len() as int);
    assert(line.take(head.len() as int) =~= head);
    assert(line.skip(head.len() as int + 1) =~= value);
    lemma_trimmed_tight(head);
    lemma_trimmed_tight(value);
}

/// The line of the signature and an empty line change nothing.
proof fn lemma_idle_lines(state: ScoreState)
    ensures
        parse_line(state, "#!/bin/beesynth"@) == Ok::<ScoreState, ParseErrorKind>(state),
        parse_line(state, Seq::empty()) == Ok::<ScoreState, ParseErrorKind>(state),
{
    reveal_strlit("#!/bin/beesynth");
    let none = Seq::<char>::empty();
    lemma_find_none(none, ';');
    assert(trimmed(none) =~= none);
}

/// The line of the tempo sets the tempo.
proof fn lemma_bpm_line(state: ScoreState, bpm: u16)
    requires
        state.bpm is None,
    ensures
        parse_line(state, bpm_line(bpm)) == Ok::<ScoreState, ParseErrorKind>(
            ScoreState { bpm: Some(bpm), ..state },
        ),
{
    reveal_strlit("@bpm:");
    reveal_strlit("bpm");
    let digits = decimal_text(bpm as nat);
    lemma_decimal_text(bpm as nat);
    let head = seq!['@', 'b', 'p', 'm'];
    assert(bpm_line(bpm) =~= head + seq![':'] + digits);
    assert(is_digit(digits[0]) && is_digit(digits.last()));
    assert forall|i: int| 0 <= i < digits.len() implies #[trigger] digits[i] != ';' by {
        assert(is_digit(digits[i]));
    }
    lemma_meta_line(state, head, digits);
    assert(head.skip(1) =~= "bpm"@);
}

/// The line of the channels sets the names of the channels to play.
proof fn lemma_channels_line(state: ScoreState, count: nat)
    requires
        count > 0,
    ensures
        parse_line(state, channels_line(count)) == Ok::<ScoreState, ParseErrorKind>(
            ScoreState { active: names(0, count), ..state },
        ),
{
    reveal_strlit("@channels:");
    reveal_strlit("channels");
    reveal_strlit("bpm");
    let list = names_text(0, count);
    lemma_names_text_shape(0, count);
    lemma_fields_of_names(0, count);
    let head = seq!['@', 'c', 'h', 'a', 'n', 'n', 'e', 'l', 's'];
    assert(channels_line(count) =~= head + seq![':'] + list);
    assert forall|i: int| 0 <= i < list.len() implies #[trigger] list[i] != ';' by {
        let c = list[i];
        assert(c == 'c' || is_digit(c) || c == ' ');
    }
    lemma_meta_line(state, head, list);
    assert(head.skip(1) =~= "channels"@);
    assert("channels"@.len() != "bpm"@.len());
}

/// The channels put aside once the first `count` channels were turned
/// from.
pub open spec fn saved_upto(channels: Seq<Seq<NoteRecord>>, count: nat) -> Seq<Saved> {
    Seq::new(count, |i: int| (channel_name(i as nat), channels[i]))
}

/// What the parser knows after the lines of the first `done` channels.
pub open spec fn state_after(score: ChannelsView, done: nat) -> ScoreState {
    ScoreState {
        saved: if done == 0 {
            Seq::empty()
        } else {
            saved_upto(score.channels, (done - 1) as nat)
        },
        active: names(0, score.channels.len()),
        current_name: if done == 0 {
            Seq::empty()
        } else {
            channel_name((done - 1) as nat)
        },
        current: if done == 0 {
            Seq::empty()
        } else {
            score.channels[done - 1]
        },
        name: Seq::empty(),
        bpm: Some(score.bpm),
    }
}

/// Nothing is put aside under the name of a channel that was not turned
/// from yet.
proof fn lemma_not_saved(channels: Seq<Seq<NoteRecord>>, count: nat, number: nat)
    requires
        count <= number,
    ensures
        lookup(saved_upto(channels, count), channel_name(number)) is None,
{
    let saved = saved_upto(channels, count);
    crate::synth::parser::lemma_lookup_from(saved, channel_name(number), 0);
    assert forall|j: int| 0 <= j < saved.len() implies (#[trigger] saved[j]).0 != channel_name(
        number,
    ) by {
        lemma_channel_name(number);
    }
}

/// The line of a channel turns to the channel and gives it its records.
proof fn lemma_channel_line(score: ChannelsView, number: nat)
    requires
        writable(score),
        number < score.channels.len(),
    ensures
        parse_line(state_after(score, number), channel_line(number, score.channels[number as int]))
            == Ok::<ScoreState, ParseErrorKind>(state_after(score, number + 1)),
{
    let state = state_after(score, number);
    let name = channel_name(number);
    let records = score.channels[number as int];
    let value = records_text(records);
    let head = seq!['@'] + name;
    lemma_channel_name(number);
    lemma_records_text_shape(records);
    lemma_words_of_records(records);
    lemma_parse_record_texts(records);
    assert(channel_line(number, records) =~= head + seq![':'] + value);
    assert forall|i: int| 0 <= i < head.len() implies #[trigger] head[i] != ':' && head[i]
        != ';' by {
        if i >= 1 {
            assert(head[i] == name[i - 1]);
            if i >= 2 {
                assert(is_digit(name[i - 1]));
            }
        }
    }
    assert(head.last() == name.last());
    assert(is_digit(name[name.len() - 1]));
    lemma_meta_line(state, head, value);
    assert(head.skip(1) =~= name);
    let turned = turn_to(state, name);
    if number == 0 {
        assert(lookup(Seq::<Saved>::empty(), name) is None);
        assert(turned.saved =~= saved_upto(score.channels, 0));
    } else {
        let before = (number - 1) as nat;
        lemma_channel_name(before);
        assert(name != channel_name(before));
        assert(state.current.len() > 0);
        lemma_not_saved(score.channels, before, before);
        assert(saved_upto(score.channels, before).push(
            (channel_name(before), score.channels[before as int]),
        ) =~= saved_upto(score.channels, number));
        lemma_not_saved(score.channels, number, number);
    }
    assert(turned.current + records =~= records);
}

/// Taking in the lines of the channels from `number` on leads from the
/// state after `number` channels to the state after all of them.
proof fn lemma_channel_lines(score: ChannelsView, lines: Seq<Seq<char>>, base: int, number: nat)
    requires
        writable(score),
        number <= score.channels.len(),
        0 <= base,
        lines.len() == base + score.channels.len() + 1,
        forall|k: int|
            0 <= k < score.channels.len() ==> #[trigger] lines[base + k] == channel_line(
                k as nat,
                score.channels[k],
            ),
        lines[base + score.channels.len()] == Seq::<char>::empty(),
    ensures
        parse_lines(state_after(score, number), lines, base + number) == Ok::<
            ScoreState,
            ParseError,
        >(state_after(score, score.channels.len())),
    decreases score.channels.len() - number,
{
    let state = state_after(score, number);
    if number < score.channels.len() {
        lemma_channel_line(score, number);
        assert(lines[base + number] == channel_line(number, score.channels[number as int]));
        lemma_channel_lines(score, lines, base, number + 1);
        assert(parse_line(state, lines[base + number]) == Ok::<ScoreState, ParseErrorKind>(
            state_after(score, number + 1),
        ));
        assert(base + (number + 1) == base + number + 1);
    } else {
        lemma_idle_lines(state);
        assert(parse_line(state, lines[base + number]) == Ok::<ScoreState, ParseErrorKind>(state));
        assert(parse_lines(state, lines, base + number + 1) == Ok::<ScoreState, ParseError>(
            state,
        ));
    }
}

/// The channels put aside are picked in the order of their names.
proof fn lemma_pick(channels: Seq<Seq<NoteRecord>>, from: nat)
    requires
        from <= channels.len(),
    ensures
        pick(
            saved_upto(channels, channels.len()).skip(from as int),
            names(0, channels.len()),
            from as int,
        ) == channels.skip(from as int),
    decreases channels.len() - from,
{
    let all = saved_upto(channels, channels.len());
    let left = all.skip(from as int);
    let list = names(0, channels.len());
    if from < channels.len() {
        assert(left[0] == all[from as int]);
        assert(list[from as int] == channel_name(from));
        assert(lookup_from(left, list[from as int], 0) == Some(0int));
        assert(left.remove(0) =~= all.skip(from as int + 1));
        lemma_pick(channels, from + 1);
        assert(seq![channels[from as int]] + channels.skip(from as int + 1) =~= channels.skip(
            from as int,
        ));
    } else {
        assert(channels.skip(from as int) =~= Seq::<Seq<NoteRecord>>::empty());
    }
}

/// A score written as a listing and read again is the score it was.
pub proof fn lemma_listing_round_trip(score: ChannelsView)
    requires
        writable(score),
    ensures
        parse_listing(listing_text(score)) == Ok::<ChannelsView, ParseError>(score),
{
    let lines = listing_lines(score);
    let count = score.channels.len();
    let all = lines.push(Seq::empty());
    lemma_lines_without_feeds(score);
    lemma_fields_of_joined(lines);
    let start = initial_state();
    lemma_idle_lines(start);
    lemma_bpm_line(start, score.bpm);
    let tempo = ScoreState { bpm: Some(score.bpm), ..start };
    assert(all[0] == "#!/bin/beesynth"@);
    assert(all[1] == bpm_line(score.bpm));
    if count == 0 {
        assert(all.len() == 3);
        assert(all[2] == Seq::<char>::empty());
        lemma_idle_lines(tempo);
        assert(parse_lines(tempo, all, 3) == Ok::<ScoreState, ParseError>(tempo));
        assert(parse_lines(tempo, all, 2) == Ok::<ScoreState, ParseError>(tempo));
        assert(parse_lines(start, all, 1) == Ok::<ScoreState, ParseError>(tempo));
        assert(parse_lines(start, all, 0) == Ok::<ScoreState, ParseError>(tempo));
        assert(pick(tempo.saved, tempo.active, 0) =~= score.channels);
    } else {
        lemma_channels_line(tempo, count);
        let listed = ScoreState { active: names(0, count), ..tempo };
        assert(listed == state_after(score, 0));
        assert(all[2] == channels_line(count));
        lemma_channel_lines_at(score.channels, 0);
        assert(all.len() == 3 + count + 1);
        assert forall|k: int| 0 <= k < count implies #[trigger] all[3 + k] == channel_line(
            k as nat,
            score.channels[k],
        ) by {
            assert(all[3 + k] == channel_lines(score.channels, 0)[k]);
        }
        lemma_channel_lines(score, all, 3, 0);
        let end = state_after(score, count);
        assert(parse_lines(listed, all, 3) == Ok::<ScoreState, ParseError>(end));
        assert(parse_lines(tempo, all, 2) == Ok::<ScoreState, ParseError>(end));
        assert(parse_lines(start, all, 1) == Ok::<ScoreState, ParseError>(end));
        assert(parse_lines(start, all, 0) == Ok::<ScoreState, ParseError>(end));
        let last = (count - 1) as nat;
        lemma_not_saved(score.channels, last, last);
        assert(end.current.len() > 0);
        assert(put_aside(end.saved, end.current_name, end.current) =~= saved_upto(
            score.channels,
            count,
        ));
        lemma_pick(score.channels, 0);
        assert(saved_upto(score.channels, count).skip(0) =~= saved_upto(score.channels, count));
        assert(score.channels.skip(0) =~= score.channels);
    }
}

/// The lines of the channels from `from` on are as many as those channels,
/// each the line of its channel.
proof fn lemma_channel_lines_at(channels: Seq<Seq<NoteRecord>>, from: nat)
    requires
        from <= channels.len(),
    ensures
        channel_lines(channels, from).len() == channels.len() - from,
        forall|k: int|
            0 <= k < channels.len() - from ==> #[trigger] channel_lines(channels, from)[k]
                == channel_line((from + k) as nat, channels[from + k]),
    decreases channels.len() - from,
{
    if from < channels.len() {
        lemma_channel_lines_at(channels, from + 1);
        assert forall|k: int| 0 <= k < channels.len() - from implies #[trigger] channel_lines(
            channels,
            from,
        )[k] == channel_line((from + k) as nat, channels[from + k]) by {
            if k > 0 {
                assert(channel_lines(channels, from)[k] == channel_lines(channels, from + 1)[k
                    - 1]);
            }
        }
    }
}

/// No line of a listing holds a line feed.
proof fn lemma_lines_without_feeds(score: ChannelsView)
    requires
        writable(score),
    ensures
        forall|i: int, j: int|
            0 <= i < listing_lines(score).len() && 0 <= j < listing_lines(score)[i].len() ==> (
            #[trigger] listing_lines(score)[i][j]) != '\n',
{
    let lines = listing_lines(score);
    let count = score.channels.len();
    reveal_strlit("#!/bin/beesynth");
    reveal_strlit("@bpm:");
    reveal_strlit("@channels:");
    lemma_decimal_text(score.bpm as nat);
    assert forall|i: int, j: int| 0 <= i < lines.len() && 0 <= j < lines[i].len() implies (
    #[trigger] lines[i][j]) != '\n' by {
        let line = lines[i];
        if i == 0 {
        } else if i == 1 {
            let digits = decimal_text(score.bpm as nat);
            if j >= 5 {
                assert(line[j] == digits[j - 5]);
                assert(is_digit(digits[j - 5]));
            }
        } else if i == 2 {
            lemma_names_text_shape(0, count);
            if j >= 10 {
                let c = names_text(0, count)[j - 10];
                assert(line[j] == c);
                assert(c == 'c' || is_digit(c) || c == ' ');
            }
        } else {
            let k = i - 3;
            lemma_channel_lines_at(score.channels, 0);
            assert(line == channel_lines(score.channels, 0)[k]);
            let name = channel_name(k as nat);
            let records = score.channels[k];
            lemma_channel_name(k as nat);
            lemma_records_text_shape(records);
            if j >= 1 && j < 1 + name.len() {
                assert(line[j] == name[j - 1]);
                if j >= 2 {
                    assert(is_digit(name[j - 1]));
                }
            } else if j > 1 + name.len() {
                assert(line[j] == records_text(records)[j - 2 - name.len()]);
            }
        }
    }
}

/// Is the state of the parser tidy? No two channels are put aside under
/// one name, and notes are missing only under the name of the channel that
/// is current and has notes.
pub open spec fn tidy(state: ScoreState) -> bool {
    &&& forall|i: int, j: int|
        0 <= i < j < state.saved.len() ==> (#[trigger] state.saved[i]).0 != (
        #[trigger] state.saved[j]).0
    &&& forall|i: int|
        0 <= i < state.saved.len() && (#[trigger] state.saved[i]).1.len() == 0
            ==> state.saved[i].0 == state.current_name && state.current.len() > 0
}

/// Putting notes aside keeps names apart, and leaves the notes of the
/// other names as they are.
proof fn lemma_put_aside(saved: Seq<Saved>, name: Seq<char>, notes: Seq<NoteRecord>)
    requires
        forall|i: int, j: int|
            0 <= i < j < saved.len() ==> (#[trigger] saved[i]).0 != (#[trigger] saved[j]).0,
    ensures
        ({
            let after = put_aside(saved, name, notes);
            &&& forall|i: int, j: int|
                0 <= i < j < after.len() ==> (#[trigger] after[i]).0 != (#[trigger] after[j]).0
            &&& forall|i: int|
                0 <= i < after.len() ==> (#[trigger] after[i]) == (name, notes) || (i
                    < saved.len() && after[i] == saved[i] && saved[i].0 != name)
        }),
{
    lemma_lookup_from(saved, name, 0);
    let after = put_aside(saved, name, notes);
    match lookup(saved, name) {
        Some(at) => {
            assert forall|i: int, j: int| 0 <= i < j < after.len() implies (#[trigger] after[i]).0
                != (#[trigger] after[j]).0 by {
                assert(after[i].0 == saved[i].0);
                assert(after[j].0 == saved[j].0);
            }
            assert forall|i: int| 0 <= i < after.len() implies (#[trigger] after[i]) == (
                name,
                notes,
            ) || (i < saved.len() && after[i] == saved[i] && saved[i].0 != name) by {
                if i != at {
                    if i < at {
                        assert(saved[i].0 != saved[at].0);
                    } else {
                        assert(saved[at].0 != saved[i].0);
                    }
                }
            }
        },
        None => {
            assert forall|i: int, j: int| 0 <= i < j < after.len() implies (#[trigger] after[i]).0
                != (#[trigger] after[j]).0 by {
                if j == saved.len() {
                    assert(saved[i].0 != name);
                }
            }
        },
    }
}

/// Text that has something left when trimmed has a word.
proof fn lemma_words_of_trimmed(s: Seq<char>)
    requires
        s.len() > 0,
        !is_whitespace(s[0]),
    ensures
        words_of(s).len() > 0,
{
    assert(skip_whitespace(s, 0) == 0);
    lemma_skip_word_bounds(s, 0);
    assert(skip_word(s, 0) > 0) by {
        assert(skip_word(s, 0) == skip_word(s, 1));
        lemma_skip_word_bounds(s, 1);
    }
}

/// Reading words gives as many records as there are words.
proof fn lemma_parse_records_len(words: Seq<Seq<char>>)
    ensures
        parse_records(words) matches Ok(records) ==> records.len() == words.len(),
    decreases words.len(),
{
    if words.len() > 0 {
        lemma_parse_records_len(words.drop_last());
    }
}

/// What is left of a text when trimmed does not start with white space.
proof fn lemma_trimmed_starts_tight(s: Seq<char>)
    ensures
        trimmed(s).len() > 0 ==> !is_whitespace(trimmed(s)[0]),
{
    lemma_skip_whitespace_bounds(s, 0);
    lemma_trim_end_bounds(s, s.len() as int);
}

/// Taking in a line keeps the state tidy.
proof fn lemma_line_keeps_tidy(state: ScoreState, raw: Seq<char>)
    requires
        tidy(state),
    ensures
        parse_line(state, raw) matches Ok(next) ==> tidy(next),
{
    let body = line_body(raw);
    if body.len() > 0 && parse_line(state, raw) is Ok {
        if body[0] == '@' {
            match find(body, ':') {
                Some(colon) => {
                    let name = trimmed(body.take(colon));
                    let value = trimmed(body.skip(colon + 1));
                    if name.len() >= 2 && value.len() > 0 {
                        let key = name.skip(1);
                        if key != "bpm"@ && key != "channels"@ && key != "name"@ {
                            lemma_trimmed_starts_tight(body.skip(colon + 1));
                            lemma_words_of_trimmed(value);
                            lemma_parse_records_len(words_of(value));
                            lemma_turn_keeps_names_apart(state, key);
                        }
                    }
                },
                None => {},
            }
        }
    }
}

/// Turning to a channel keeps names apart and leaves notes missing only
/// under the name turned to.
proof fn lemma_turn_keeps_names_apart(state: ScoreState, name: Seq<char>)
    requires
        tidy(state),
    ensures
        ({
            let turned = turn_to(state, name);
            &&& turned.current_name == name
            &&& forall|i: int, j: int|
                0 <= i < j < turned.saved.len() ==> (#[trigger] turned.saved[i]).0 != (
                #[trigger] turned.saved[j]).0
            &&& forall|i: int|
                0 <= i < turned.saved.len() && (#[trigger] turned.saved[i]).1.len() == 0
                    ==> turned.saved[i].0 == name
        }),
{
    let aside = if name != state.current_name && state.current.len() > 0 {
        put_aside(state.saved, state.current_name, state.current)
    } else {
        state.saved
    };
    lemma_put_aside(state.saved, state.current_name, state.current);
    lemma_lookup_from(aside, name, 0);
    let turned = turn_to(state, name);
    assert forall|i: int| 0 <= i < aside.len() && (#[trigger] aside[i]).1.len() == 0 implies aside[i].0
        == name by {
        if name != state.current_name && state.current.len() > 0 {
            if aside[i] != (state.current_name, state.current) {
                assert(aside[i] == state.saved[i]);
            }
        } else {
            assert(aside[i] == state.saved[i]);
        }
    }
    match lookup(aside, name) {
        Some(at) => {
            assert forall|i: int, j: int| 0 <= i < j < turned.saved.len() implies (
            #[trigger] turned.saved[i]).0 != (#[trigger] turned.saved[j]).0 by {
                assert(turned.saved[i].0 == aside[i].0);
                assert(turned.saved[j].0 == aside[j].0);
            }
            assert forall|i: int|
                0 <= i < turned.saved.len() && (#[trigger] turned.saved[i]).1.len()
                    == 0 implies turned.saved[i].0 == name by {
                if i != at {
                    assert(turned.saved[i] == aside[i]);
                }
            }
        },
        None => {},
    }
}

/// Taking in lines keeps the state tidy.
proof fn lemma_lines_keep_tidy(state: ScoreState, lines: Seq<Seq<char>>, from: int)
    requires
        tidy(state),
        0 <= from,
    ensures
        parse_lines(state, lines, from) matches Ok(end) ==> tidy(end),
    decreases lines.len() - from,
{
    if from < lines.len() {
        lemma_line_keeps_tidy(state, lines[from]);
        match parse_line(state, lines[from]) {
            Ok(next) => {
                lemma_lines_keep_tidy(next, lines, from + 1);
            },
            Err(_) => {},
        }
    }
}

/// Channels picked from channels that all have notes all have notes.
proof fn lemma_pick_nonempty(saved: Seq<Saved>, active: Seq<Seq<char>>, from: int)
    requires
        0 <= from,
        forall|i: int| 0 <= i < saved.len() ==> (#[trigger] saved[i]).1.len() > 0,
    ensures
        forall|k: int|
            0 <= k < pick(saved, active, from).len() ==> (#[trigger] pick(saved, active, from)[k]).len()
                > 0,
    decreases active.len() - from,
{
    if from < active.len() {
        lemma_lookup_from(saved, active[from], 0);
        match lookup(saved, active[from]) {
            Some(at) => {
                let rest = saved.remove(at);
                assert forall|i: int| 0 <= i < rest.len() implies (#[trigger] rest[i]).1.len()
                    > 0 by {
                    if i < at {
                        assert(rest[i] == saved[i]);
                    } else {
                        assert(rest[i] == saved[i + 1]);
                    }
                }
                lemma_pick_nonempty(rest, active, from + 1);
                let picked = pick(saved, active, from);
                assert(picked == seq![saved[at].1] + pick(rest, active, from + 1));
                assert forall|k: int| 0 <= k < picked.len() implies (#[trigger] picked[k]).len()
                    > 0 by {
                    if k > 0 {
                        assert(picked[k] == pick(rest, active, from + 1)[k - 1]);
                    } else {
                        assert(picked[0] == saved[at].1);
                    }
                }
            },
            None => {
                lemma_pick_nonempty(saved, active, from + 1);
                assert(pick(saved, active, from) == pick(saved, active, from + 1));
            },
        }
    }
}

/// The score that a listing writes has no channel without notes.
pub proof fn lemma_parsed_is_writable(text: Seq<char>)
    ensures
        parse_listing(text) matches Ok(score) ==> writable(score),
{
    let lines = fields_of(text, '\n');
    assert(tidy(initial_state()));
    lemma_lines_keep_tidy(initial_state(), lines, 0);
    match parse_lines(initial_state(), lines, 0) {
        Ok(state) => {
            let saved = if state.current.len() > 0 {
                put_aside(state.saved, state.current_name, state.current)
            } else {
                state.saved
            };
            lemma_put_aside(state.saved, state.current_name, state.current);
            assert forall|i: int| 0 <= i < saved.len() implies (#[trigger] saved[i]).1.len()
                > 0 by {
                if state.current.len() > 0 {
                    if saved[i] != (state.current_name, state.current) {
                        assert(saved[i] == state.saved[i]);
                    }
                } else {
                    assert(saved[i] == state.saved[i]);
                }
            }
            lemma_pick_nonempty(saved, state.active, 0);
        },
        Err(_) => {},
    }
}

/// Reading a listing, writing what was read and reading that again gives
/// what was read at first.
pub proof fn lemma_parse_emit_parse(text: Seq<char>)
    ensures
        parse_listing(text) matches Ok(score) ==> parse_listing(listing_text(score)) == Ok::<
            ChannelsView,
            ParseError,
        >(score),
{
    lemma_parsed_is_writable(text);
    match parse_listing(text) {
        Ok(score) => {
            lemma_listing_round_trip(score);
        },
        Err(_) => {},
    }
}

/// One more line at the end of a text.
proof fn lemma_joined_push(lines: Seq<Seq<char>>, line: Seq<char>)
    ensures
        joined(lines.push(line)) == joined(lines) + line + seq!['\n'],
    decreases lines.len(),
{
    let longer = lines.push(line);
    assert(longer.len() > 0);
    if lines.len() == 0 {
        assert(longer.drop_first() =~= Seq::<Seq<char>>::empty());
        assert(longer[0] == line);
        assert(joined(longer.drop_first()) =~= Seq::<char>::empty());
        assert(joined(lines) =~= Seq::<char>::empty());
        assert(joined(longer) == longer[0] + seq!['\n'] + joined(longer.drop_first()));
        assert(joined(longer) =~= joined(lines) + line + seq!['\n']);
    } else {
        assert(longer.drop_first() =~= lines.drop_first().push(line));
        assert(longer[0] == lines[0]);
        lemma_joined_push(lines.drop_first(), line);
        assert(joined(longer) == longer[0] + seq!['\n'] + joined(longer.drop_first()));
        assert(joined(lines) == lines[0] + seq!['\n'] + joined(lines.drop_first()));
        assert(joined(longer) =~= joined(lines) + line + seq!['\n']);
    }
}

/// One more name at the end of a list of names.
proof fn lemma_names_text_push(from: nat, count: nat)
    requires
        from < count,
    ensures
        names_text(from, count + 1) == names_text(from, count) + seq![' '] + channel_name(count),
    decreases count - from,
{
    if from + 1 < count {
        lemma_names_text_push(from + 1, count);
        assert(names_text(from, count + 1) =~= names_text(from, count) + seq![' ']
            + channel_name(count));
    } else {
        assert(names_text(from + 1, count + 1) == channel_name(count));
        assert(names_text(from, count + 1) =~= names_text(from, count) + seq![' ']
            + channel_name(count));
    }
}

/// One more record at the end of the records of a channel.
proof fn lemma_records_text_push(records: Seq<NoteRecord>, record: NoteRecord)
    requires
        records.len() > 0,
    ensures
        records_text(records.push(record)) == records_text(records) + seq![' '] + record_text(
            record,
        ),
    decreases records.len(),
{
    let longer = records.push(record);
    assert(longer[0] == records[0]);
    if records.len() == 1 {
        assert(longer.drop_first() =~= seq![record]);
        assert(records_text(seq![record]) == record_text(seq![record][0]));
        assert(records_text(longer) =~= records_text(records) + seq![' '] + record_text(record));
    } else {
        assert(longer.drop_first() =~= records.drop_first().push(record));
        lemma_records_text_push(records.drop_first(), record);
        assert(records_text(longer) =~= records_text(records) + seq![' '] + record_text(record));
    }
}

/// The lines of the first channels are the first of the lines of all.
proof fn lemma_channel_lines_push(channels: Seq<Seq<NoteRecord>>, count: nat, from: nat)
    requires
        from <= count < channels.len(),
    ensures
        channel_lines(channels.take(count as int + 1), from) == channel_lines(
            channels.take(count as int),
            from,
        ).push(channel_line(count, channels[count as int])),
    decreases count - from,
{
    let shorter = channels.take(count as int);
    let longer = channels.take(count as int + 1);
    if from < count {
        lemma_channel_lines_push(channels, count, from + 1);
        assert(shorter[from as int] == longer[from as int]);
        assert(channel_lines(longer, from) =~= channel_lines(shorter, from).push(
            channel_line(count, channels[count as int]),
        ));
    } else {
        assert(channel_lines(longer, from + 1) =~= Seq::<Seq<char>>::empty());
        assert(channel_lines(shorter, from) =~= Seq::<Seq<char>>::empty());
        assert(channel_lines(longer, from) =~= seq![
            channel_line(count, channels[count as int]),
        ]);
    }
}

impl Channels {
    /// The score as a listing.
    #[verifier::loop_isolation(false)]
    pub fn to_listing(&self) -> (r: String)
        ensures
            r@ == listing_text(self@),
    {
        proof {
            reveal_strlit("\n");
            reveal_strlit(" ");
            reveal_strlit("@");
            reveal_strlit("c");
            reveal_strlit(":");
            assert("\n"@ =~= seq!['\n']);
            assert(" "@ =~= seq![' ']);
            assert("@"@ =~= seq!['@']);
            assert("c"@ =~= seq!['c']);
            assert(":"@ =~= seq![':']);
        }
        let channels = self.channels();
        let count = channels.len();
        let ghost all = self@.channels;
        let ghost head = seq!["#!/bin/beesynth"@, bpm_line(self@.bpm)];
        let mut out = String::new();
        out.append("#!/bin/beesynth");
        out.append("\n");
        out.append("@bpm:");
        push_decimal(&mut out, self.bpm() as u64);
        out.append("\n");
        proof {
            let one = seq!["#!/bin/beesynth"@];
            lemma_joined_push(Seq::empty(), "#!/bin/beesynth"@);
            lemma_joined_push(one, bpm_line(self@.bpm));
            assert(Seq::<Seq<char>>::empty().push("#!/bin/beesynth"@) =~= one);
            assert(one.push(bpm_line(self@.bpm)) =~= head);
            assert(out@ =~= joined(head));
        }
        if count == 0 {
            return out;
        }
        out.append("@channels:");
        let mut k: usize = 0;
        while k < count
            invariant
                0 <= k <= count,
                count == all.len(),
                out@ == joined(head) + "@channels:"@ + names_text(0, k as nat),
            decreases count - k,
        {
            if k > 0 {
                out.append(" ");
            }
            out.append("c");
            push_decimal(&mut out, k as u64);
            proof {
                if k > 0 {
                    lemma_names_text_push(0, k as nat);
                }
                assert(out@ =~= joined(head) + "@channels:"@ + names_text(0, (k + 1) as nat));
            }
            k += 1;
        }
        out.append("\n");
        let ghost listed = head.push(channels_line(count as nat));
        proof {
            lemma_joined_push(head, channels_line(count as nat));
            assert(out@ =~= joined(listed));
            assert(all.take(0) =~= Seq::<Seq<NoteRecord>>::empty());
            assert(channel_lines(all.take(0), 0) =~= Seq::<Seq<char>>::empty());
            assert(listed + channel_lines(all.take(0), 0) =~= listed);
        }
        let mut k: usize = 0;
        while k < count
            invariant
                0 <= k <= count,
                count == all.len(),
                count == channels@.len(),
                all == self@.channels,
                forall|i: int| 0 <= i < channels@.len() ==> (#[trigger] channels@[i])@ == all[i],
                out@ == joined(listed + channel_lines(all.take(k as int), 0)),
            decreases count - k,
        {
            let ghost before = out@;
            let channel = &channels[k];
            out.append("@");
            out.append("c");
            push_decimal(&mut out, k as u64);
            out.append(":");
            let mut j: usize = 0;
            proof {
                assert(channel@.take(0) =~= Seq::<NoteRecord>::empty());
            }
            while j < channel.len()
                invariant
                    0 <= j <= channel@.len(),
                    out@ == before + seq!['@'] + channel_name(k as nat) + seq![':'] + records_text(
                        channel@.take(j as int),
                    ),
                decreases channel@.len() - j,
            {
                if j > 0 {
                    out.append(" ");
                }
                channel[j].write_to(&mut out);
                proof {
                    let done = channel@.take(j as int);
                    assert(channel@.take(j + 1) =~= done.push(channel@[j as int]));
                    if j > 0 {
                        lemma_records_text_push(done, channel@[j as int]);
                    } else {
                        assert(done.push(channel@[j as int])[0] == channel@[j as int]);
                    }
                    assert(out@ =~= before + seq!['@'] + channel_name(k as nat) + seq![':']
                        + records_text(channel@.take(j + 1)));
                }
                j += 1;
            }
            out.append("\n");
            proof {
                assert(channel@.take(j as int) =~= channel@);
                assert(channel@ == all[k as int]);
                let lines = listed + channel_lines(all.take(k as int), 0);
                let line = channel_line(k as nat, all[k as int]);
                lemma_channel_lines_push(all, k as nat, 0);
                lemma_joined_push(lines, line);
                assert(lines.push(line) =~= listed + channel_lines(all.take(k + 1), 0));
                assert(out@ =~= joined(lines) + line + seq!['\n']);
            }
            k += 1;
        }
        proof {
            assert(all.take(k as int) =~= all);
            assert(listed =~= head + seq![channels_line(count as nat)]);
        }
        out
    }
}

} // verus!
