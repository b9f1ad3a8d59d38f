//! Characters, decimal numbers and the few string operations the parsers need.
//!
//! Text is handled as sequences of characters: a `&str` is turned into a
//! `Vec<char>` once, and everything after that works on slices of it.

use vstd::prelude::*;

verus! {

/// Is `c` one of the ASCII digits?
pub open spec fn is_digit(c: char) -> bool {
    '0' <= c && c <= '9'
}

/// The value of an ASCII digit.
pub open spec fn digit_value(c: char) -> int {
    c as int - '0' as int
}

/// Has `c` the Unicode property White_Space?
pub open spec fn is_whitespace(c: char) -> bool {
    let u = c as u32;
    ||| 0x09 <= u <= 0x0D
    ||| u == 0x20
    ||| u == 0x85
    ||| u == 0xA0
    ||| u == 0x1680
    ||| 0x2000 <= u <= 0x200A
    ||| u == 0x2028
    ||| u == 0x2029
    ||| u == 0x202F
    ||| u == 0x205F
    ||| u == 0x3000
}

/// Is every character of `s` a digit?
pub open spec fn all_digits(s: Seq<char>) -> bool {
    forall|i: int| 0 <= i < s.len() ==> is_digit(#[trigger] s[i])
}

/// The number that a run of digits writes in base ten; zero for no digits.
pub open spec fn decimal_value(s: Seq<char>) -> int
    decreases s.len(),
{
    if s.len() == 0 {
        0
    } else {
        decimal_value(s.drop_last()) * 10 + digit_value(s.last())
    }
}

/// What is left of `s` after an optional leading plus sign.
pub open spec fn unsigned_digits(s: Seq<char>) -> Seq<char> {
    if s.len() > 0 && s[0] == '+' {
        s.skip(1)
    } else {
        s
    }
}

/// The unsigned number that `s` writes, if it writes one no larger than
/// `max`: an optional plus sign followed by at least one digit and nothing
/// else.
pub open spec fn unsigned_of(s: Seq<char>, max: int) -> Option<int> {
    let digits = unsigned_digits(s);
    if digits.len() > 0 && all_digits(digits) && decimal_value(digits) <= max {
        Some(decimal_value(digits))
    } else {
        None
    }
}

/// The index of the first `c` in `s` at or after `from`, if there is one.
pub open spec fn find_from(s: Seq<char>, c: char, from: int) -> Option<int>
    decreases s.len() - from,
{
    if from < 0 || from >= s.len() {
        None
    } else if s[from] == c {
        Some(from)
    } else {
        find_from(s, c, from + 1)
    }
}

/// The index of the first `c` in `s`, if there is one.
pub open spec fn find(s: Seq<char>, c: char) -> Option<int> {
    find_from(s, c, 0)
}

/// The pieces of `s` between occurrences of `sep`; always at least one,
/// and empty pieces are kept.
pub open spec fn fields_of(s: Seq<char>, sep: char) -> Seq<Seq<char>>
    decreases s.len(),
{
    match find(s, sep) {
        None => seq![s],
        Some(i) => if 0 <= i < s.len() {
            seq![s.take(i)] + fields_of(s.skip(i + 1), sep)
        } else {
            seq![s]
        },
    }
}

/// The index of the first character at or after `from` that is not white
/// space, or the length of `s`.
pub open spec fn skip_whitespace(s: Seq<char>, from: int) -> int
    decreases s.len() - from,
{
    if 0 <= from < s.len() && is_whitespace(s[from]) {
        skip_whitespace(s, from + 1)
    } else {
        from
    }
}

/// The index of the first white space at or after `from`, or the length
/// of `s`.
pub open spec fn skip_word(s: Seq<char>, from: int) -> int
    decreases s.len() - from,
{
    if 0 <= from < s.len() && !is_whitespace(s[from]) {
        skip_word(s, from + 1)
    } else {
        from
    }
}

/// One past the index of the last character before `to` that is not white
/// space, or zero.
pub open spec fn trim_end_index(s: Seq<char>, to: int) -> int
    decreases to,
{
    if 0 < to <= s.len() && is_whitespace(s[to - 1]) {
        trim_end_index(s, to - 1)
    } else {
        to
    }
}

/// `s` without the white space at its two ends.
pub open spec fn trimmed(s: Seq<char>) -> Seq<char> {
    let start = skip_whitespace(s, 0);
    if start >= s.len() {
        Seq::empty()
    } else {
        s.subrange(start, trim_end_index(s, s.len() as int))
    }
}

/// The maximal runs of characters of `s` that are not white space.
pub open spec fn words_of(s: Seq<char>) -> Seq<Seq<char>>
    decreases s.len(),
{
    let start = skip_whitespace(s, 0);
    let end = skip_word(s, start);
    if 0 <= start < end <= s.len() {
        seq![s.subrange(start, end)] + words_of(s.skip(end))
    } else {
        Seq::empty()
    }
}

/// The index of the first character at or after `from` that is no digit, or
/// the length of `s`.
pub open spec fn skip_digits(s: Seq<char>, from: int) -> int
    decreases s.len() - from,
{
    if 0 <= from < s.len() && is_digit(s[from]) {
        skip_digits(s, from + 1)
    } else {
        from
    }
}

pub proof fn lemma_skip_digits_bounds(s: Seq<char>, from: int)
    requires
        0 <= from <= s.len(),
    ensures
        from <= skip_digits(s, from) <= s.len(),
        all_digits(s.subrange(from, skip_digits(s, from))),
        skip_digits(s, from) < s.len() ==> !is_digit(s[skip_digits(s, from)]),
    decreases s.len() - from,
{
    if from < s.len() && is_digit(s[from]) {
        lemma_skip_digits_bounds(s, from + 1);
        let to = skip_digits(s, from);
        assert forall|i: int| 0 <= i < s.subrange(from, to).len() implies is_digit(
            #[trigger] s.subrange(from, to)[i],
        ) by {
            if i > 0 {
                assert(s.subrange(from, to)[i] == s.subrange(from + 1, to)[i - 1]);
            }
        }
    }
}

/// A run of digits that ends at the end of the text or before a character
/// that is no digit is skipped as a whole.
pub proof fn lemma_skip_digits_run(s: Seq<char>, from: int, to: int)
    requires
        0 <= from <= to <= s.len(),
        forall|i: int| from <= i < to ==> is_digit(#[trigger] s[i]),
        to < s.len() ==> !is_digit(s[to]),
    ensures
        skip_digits(s, from) == to,
    decreases to - from,
{
    if from < to {
        assert(is_digit(s[from]));
        lemma_skip_digits_run(s, from + 1, to);
    }
}

/// The character that writes the digit `d`.
pub open spec fn digit_char(d: int) -> char {
    if d == 0 {
        '0'
    } else if d == 1 {
        '1'
    } else if d == 2 {
        '2'
    } else if d == 3 {
        '3'
    } else if d == 4 {
        '4'
    } else if d == 5 {
        '5'
    } else if d == 6 {
        '6'
    } else if d == 7 {
        '7'
    } else if d == 8 {
        '8'
    } else {
        '9'
    }
}

/// A number written in base ten, without leading zeros.
pub open spec fn decimal_text(n: nat) -> Seq<char>
    decreases n,
{
    if n < 10 {
        seq![digit_char(n as int)]
    } else {
        decimal_text(n / 10).push(digit_char((n % 10) as int))
    }
}

/// What `decimal_text` writes is a run of digits and reads back as the
/// number it was written from.
pub proof fn lemma_decimal_text(n: nat)
    ensures
        decimal_text(n).len() >= 1,
        all_digits(decimal_text(n)),
        decimal_value(decimal_text(n)) == n,
    decreases n,
{
    if n < 10 {
        assert(decimal_text(n).drop_last() =~= Seq::<char>::empty());
        assert(decimal_value(decimal_text(n).drop_last()) == 0);
    } else {
        lemma_decimal_text(n / 10);
        let t = decimal_text(n);
        assert(t.drop_last() =~= decimal_text(n / 10));
        assert(t.last() == digit_char((n % 10) as int));
        assert forall|i: int| 0 <= i < t.len() implies is_digit(#[trigger] t[i]) by {
            if i < t.len() - 1 {
                assert(t[i] == decimal_text(n / 10)[i]);
            }
        }
    }
}

pub proof fn lemma_skip_whitespace_bounds(s: Seq<char>, from: int)
    requires
        0 <= from <= s.len(),
    ensures
        from <= skip_whitespace(s, from) <= s.len(),
        forall|i: int| from <= i < skip_whitespace(s, from) ==> is_whitespace(#[trigger] s[i]),
        skip_whitespace(s, from) < s.len() ==> !is_whitespace(s[skip_whitespace(s, from)]),
    decreases s.len() - from,
{
    if from < s.len() && is_whitespace(s[from]) {
        lemma_skip_whitespace_bounds(s, from + 1);
    }
}

pub proof fn lemma_skip_word_bounds(s: Seq<char>, from: int)
    requires
        0 <= from <= s.len(),
    ensures
        from <= skip_word(s, from) <= s.len(),
        forall|i: int| from <= i < skip_word(s, from) ==> !is_whitespace(#[trigger] s[i]),
        skip_word(s, from) < s.len() ==> is_whitespace(s[skip_word(s, from)]),
    decreases s.len() - from,
{
    if from < s.len() && !is_whitespace(s[from]) {
        lemma_skip_word_bounds(s, from + 1);
    }
}

pub proof fn lemma_trim_end_bounds(s: Seq<char>, to: int)
    requires
        0 <= to <= s.len(),
    ensures
        0 <= trim_end_index(s, to) <= to,
        forall|i: int| trim_end_index(s, to) <= i < to ==> is_whitespace(#[trigger] s[i]),
        trim_end_index(s, to) > 0 ==> !is_whitespace(s[trim_end_index(s, to) - 1]),
    decreases to,
{
    if 0 < to && is_whitespace(s[to - 1]) {
        lemma_trim_end_bounds(s, to - 1);
    }
}

/// `find_from` finds the first occurrence and nothing before it.
pub proof fn lemma_find_from(s: Seq<char>, c: char, from: int)
    requires
        0 <= from,
    ensures
        match find_from(s, c, from) {
            Some(i) => from <= i < s.len() && s[i] == c && forall|j: int|
                from <= j < i ==> #[trigger] s[j] != c,
            None => forall|j: int| from <= j < s.len() ==> #[trigger] s[j] != c,
        },
    decreases s.len() - from,
{
    if from < s.len() && s[from] != c {
        lemma_find_from(s, c, from + 1);
    }
}

/// A character that does not occur before a place where it stands is found
/// there.
pub proof fn lemma_find_first(s: Seq<char>, c: char, at: int)
    requires
        0 <= at < s.len(),
        s[at] == c,
        forall|j: int| 0 <= j < at ==> #[trigger] s[j] != c,
    ensures
        find(s, c) == Some(at),
{
    lemma_find_from(s, c, 0);
}

/// A character that does not occur is not found.
pub proof fn lemma_find_none(s: Seq<char>, c: char)
    requires
        forall|j: int| 0 <= j < s.len() ==> #[trigger] s[j] != c,
    ensures
        find(s, c) is None,
{
    lemma_find_from(s, c, 0);
}

pub fn char_is_digit(c: char) -> (r: bool)
    ensures
        r == is_digit(c),
{
    '0' <= c && c <= '9'
}

pub fn char_is_whitespace(c: char) -> (r: bool)
    ensures
        r == is_whitespace(c),
{
    let u: u32 = c as u32;
    (0x09 <= u && u <= 0x0D) || u == 0x20 || u == 0x85 || u == 0xA0 || u == 0x1680 || (0x2000
        <= u && u <= 0x200A) || u == 0x2028 || u == 0x2029 || u == 0x202F || u == 0x205F || u
        == 0x3000
}

/// The characters of a string slice, in order.
pub fn chars_of(s: &str) -> (r: Vec<char>)
    ensures
        r@ == s@,
{
    let mut out: Vec<char> = Vec::new();
    for c in it: s.chars()
        invariant
            out@.len() == it.index(),
            forall|j: int| 0 <= j < out@.len() ==> out@[j] == it.seq()[j],
    {
        out.push(c);
    }
    proof {
        assert(out@ =~= s@);
    }
    out
}

/// A copy of the characters of `s` from `from` up to `to`.
pub fn subvec(s: &[char], from: usize, to: usize) -> (r: Vec<char>)
    requires
        from <= to <= s@.len(),
    ensures
        r@ == s@.subrange(from as int, to as int),
{
    let mut out: Vec<char> = Vec::new();
    let mut i: usize = from;
    while i < to
        invariant
            from <= i <= to <= s@.len(),
            out@ == s@.subrange(from as int, i as int),
        decreases to - i,
    {
        out.push(s[i]);
        i += 1;
        proof {
            assert(out@ =~= s@.subrange(from as int, i as int));
        }
    }
    out
}

/// Finds the first `c` at or after `from`.
pub fn find_char_from(s: &[char], c: char, from: usize) -> (r: Option<usize>)
    ensures
        match r {
            Some(i) => find_from(s@, c, from as int) == Some(i as int),
            None => find_from(s@, c, from as int) is None,
        },
{
    let mut i: usize = from;
    while i < s.len()
        invariant
            from <= i,
            find_from(s@, c, from as int) == find_from(s@, c, i as int),
        decreases s@.len() - i,
    {
        if s[i] == c {
            return Some(i);
        }
        i += 1;
    }
    None
}

/// The number written by `s`, if `unsigned_of` finds one.
pub fn parse_unsigned(s: &[char], max: u64) -> (r: Option<u64>)
    ensures
        match r {
            Some(v) => unsigned_of(s@, max as int) == Some(v as int),
            None => unsigned_of(s@, max as int) is None,
        },
{
    let start: usize = if s.len() > 0 && s[0] == '+' {
        1
    } else {
        0
    };
    let ghost digits = unsigned_digits(s@);
    proof {
        assert(digits =~= s@.skip(start as int));
    }
    if start == s.len() {
        return None;
    }
    let mut value: u64 = 0;
    let mut i: usize = start;
    while i < s.len()
        invariant
            start <= i <= s@.len(),
            digits == s@.skip(start as int),
            digits == unsigned_digits(s@),
            all_digits(digits.take(i - start)),
            value == decimal_value(digits.take(i - start)),
            value <= max,
        decreases s@.len() - i,
    {
        let c = s[i];
        let ghost longer = digits.take(i - start + 1);
        proof {
            lemma_decimal_value_monotone(digits, i - start + 1);
            assert(longer.drop_last() =~= digits.take(i - start));
            assert(longer.last() == c);
            assert(digits[i - start] == c);
        }
        if !char_is_digit(c) {
            return None;
        }
        let d: u64 = (c as u32 - '0' as u32) as u64;
        proof {
            assert(decimal_value(longer) == value * 10 + d);
            assert forall|j: int| 0 <= j < longer.len() implies is_digit(#[trigger] longer[j]) by {
                if j < i - start {
                    assert(longer[j] == digits.take(i - start)[j]);
                }
            }
        }
        if d > max || value > (max - d) / 10 {
            proof {
                if d <= max {
                    assert(value * 10 + d > max) by (nonlinear_arith)
                        requires
                            value > (max - d) / 10,
                            0 <= d <= max,
                    ;
                }
            }
            return None;
        }
        assert(value * 10 + d <= max) by (nonlinear_arith)
            requires
                value <= (max - d) / 10,
                0 <= d <= max,
        ;
        value = value * 10 + d;
        i += 1;
    }
    proof {
        assert(digits.take(i - start) =~= digits);
    }
    Some(value)
}

/// A run of digits is worth at least as much as each of its prefixes, and a
/// prefix with a character that is no digit spoils every longer prefix.
pub proof fn lemma_decimal_value_monotone(s: Seq<char>, n: int)
    requires
        0 <= n <= s.len(),
    ensures
        all_digits(s) ==> 0 <= decimal_value(s.take(n)) <= decimal_value(s),
        !all_digits(s.take(n)) ==> !all_digits(s),
    decreases s.len() - n,
{
    if !all_digits(s.take(n)) {
        let i = choose|i: int| 0 <= i < s.take(n).len() && !is_digit(#[trigger] s.take(n)[i]);
        assert(!is_digit(s[i]));
    }
    if all_digits(s) {
        lemma_decimal_value_nonnegative(s.take(n));
        if n < s.len() {
            lemma_decimal_value_monotone(s, n + 1);
            assert(s.take(n + 1).drop_last() =~= s.take(n));
            assert(is_digit(s[n]));
            assert(s.take(n + 1).last() == s[n]);
        } else {
            assert(s.take(n) =~= s);
        }
    }
}

pub proof fn lemma_decimal_value_nonnegative(s: Seq<char>)
    requires
        all_digits(s),
    ensures
        decimal_value(s) >= 0,
    decreases s.len(),
{
    if s.len() > 0 {
        assert(is_digit(s[s.len() - 1]));
        lemma_decimal_value_nonnegative(s.drop_last());
    }
}

/// The character sequences held by a list of character vectors.
pub open spec fn views(list: Seq<Vec<char>>) -> Seq<Seq<char>> {
    Seq::new(list.len(), |i: int| list[i]@)
}

/// Searching from `from` is searching in what is left after skipping `from`
/// characters.
pub proof fn lemma_find_from_skip(s: Seq<char>, c: char, from: int)
    requires
        0 <= from <= s.len(),
    ensures
        find_from(s, c, from) == match find(s.skip(from), c) {
            Some(i) => Some(i + from),
            None => None,
        },
{
    let rest = s.skip(from);
    lemma_find_from(s, c, from);
    lemma_find_from(rest, c, 0);
    match find_from(s, c, from) {
        Some(i) => {
            assert(rest[i - from] == c);
            match find(rest, c) {
                Some(k) => {
                    assert(s[k + from] == c);
                    if k < i - from {
                        assert(s[k + from] != c);
                    }
                    if i - from < k {
                        assert(rest[i - from] != c);
                    }
                },
                None => {},
            }
        },
        None => {
            match find(rest, c) {
                Some(k) => {
                    assert(s[k + from] == c);
                },
                None => {},
            }
        },
    }
}

/// Cuts `s` at every `sep`.
pub fn split_on(s: &[char], sep: char) -> (r: Vec<Vec<char>>)
    ensures
        views(r@) == fields_of(s@, sep),
{
    let mut out: Vec<Vec<char>> = Vec::new();
    let mut pos: usize = 0;
    proof {
        assert(s@.skip(0) =~= s@);
        assert(views(out@) + fields_of(s@, sep) =~= fields_of(s@, sep));
    }
    loop
        invariant_except_break
            pos <= s@.len(),
            fields_of(s@, sep) == views(out@) + fields_of(s@.skip(pos as int), sep),
        ensures
            views(out@) == fields_of(s@, sep),
        decreases s@.len() - pos,
    {
        let ghost rest = s@.skip(pos as int);
        let ghost before = views(out@);
        proof {
            lemma_find_from_skip(s@, sep, pos as int);
            lemma_find_from(rest, sep, 0);
            lemma_find_from(s@, sep, pos as int);
        }
        match find_char_from(s, sep, pos) {
            Some(i) => {
                assert(pos <= i < s.len());
                out.push(subvec(s, pos, i));
                proof {
                    assert(rest.take(i - pos) =~= s@.subrange(pos as int, i as int));
                    assert(rest.skip(i - pos + 1) =~= s@.skip(i + 1));
                    assert(views(out@) =~= before.push(rest.take(i - pos)));
                    assert(before + (seq![rest.take(i - pos)] + fields_of(
                        s@.skip(i + 1),
                        sep,
                    )) =~= before.push(rest.take(i - pos)) + fields_of(s@.skip(i + 1), sep));
                }
                pos = i + 1;
            },
            None => {
                out.push(subvec(s, pos, s.len()));
                proof {
                    assert(rest =~= s@.subrange(pos as int, s@.len() as int));
                    assert(views(out@) =~= before.push(rest));
                    assert(before + seq![rest] =~= before.push(rest));
                }
                break ;
            },
        }
    }
    out
}

/// The index of the first character at or after `from` that is not white
/// space.
pub fn skip_whitespace_from(s: &[char], from: usize) -> (r: usize)
    requires
        from <= s@.len(),
    ensures
        r == skip_whitespace(s@, from as int),
        from <= r <= s@.len(),
{
    let mut i: usize = from;
    while i < s.len() && char_is_whitespace(s[i])
        invariant
            from <= i <= s@.len(),
            skip_whitespace(s@, from as int) == skip_whitespace(s@, i as int),
        decreases s@.len() - i,
    {
        i += 1;
    }
    i
}

/// The index of the first white space at or after `from`.
pub fn skip_word_from(s: &[char], from: usize) -> (r: usize)
    requires
        from <= s@.len(),
    ensures
        r == skip_word(s@, from as int),
        from <= r <= s@.len(),
{
    let mut i: usize = from;
    while i < s.len() && !char_is_whitespace(s[i])
        invariant
            from <= i <= s@.len(),
            skip_word(s@, from as int) == skip_word(s@, i as int),
        decreases s@.len() - i,
    {
        i += 1;
    }
    i
}

/// `s` without the white space at its two ends.
pub fn trim(s: &[char]) -> (r: Vec<char>)
    ensures
        r@ == trimmed(s@),
{
    let start = skip_whitespace_from(s, 0);
    if start >= s.len() {
        return Vec::new();
    }
    let mut end: usize = s.len();
    while end > 0 && char_is_whitespace(s[end - 1])
        invariant
            0 <= end <= s@.len(),
            trim_end_index(s@, s@.len() as int) == trim_end_index(s@, end as int),
        decreases end,
    {
        end -= 1;
    }
    proof {
        lemma_skip_whitespace_bounds(s@, 0);
        lemma_trim_end_bounds(s@, s@.len() as int);
        if end <= start {
            assert(is_whitespace(s@[start as int]));
        }
    }
    subvec(s, start, end)
}

/// Skipping white space and then a word in what is left after `from`
/// characters is doing so in the whole from `from`.
pub proof fn lemma_skips_after_skip(s: Seq<char>, from: int, at: int)
    requires
        0 <= from <= at <= s.len(),
    ensures
        skip_whitespace(s.skip(from), at - from) == skip_whitespace(s, at) - from,
        skip_word(s.skip(from), at - from) == skip_word(s, at) - from,
    decreases s.len() - at,
{
    if at < s.len() {
        assert(s.skip(from)[at - from] == s[at]);
        lemma_skips_after_skip(s, from, at + 1);
    }
}

/// The words of `s`: its maximal runs without white space.
pub fn words(s: &[char]) -> (r: Vec<Vec<char>>)
    ensures
        views(r@) == words_of(s@),
{
    let mut out: Vec<Vec<char>> = Vec::new();
    let mut pos: usize = 0;
    proof {
        assert(s@.skip(0) =~= s@);
        assert(views(out@) + words_of(s@) =~= words_of(s@));
    }
    loop
        invariant_except_break
            pos <= s@.len(),
            words_of(s@) == views(out@) + words_of(s@.skip(pos as int)),
        ensures
            views(out@) == words_of(s@),
        decreases s@.len() - pos,
    {
        let ghost rest = s@.skip(pos as int);
        let ghost before = views(out@);
        let start = skip_whitespace_from(s, pos);
        let end = skip_word_from(s, start);
        proof {
            lemma_skips_after_skip(s@, pos as int, pos as int);
            lemma_skips_after_skip(s@, pos as int, start as int);
        }
        if start == end {
            proof {
                assert(words_of(rest) =~= Seq::<Seq<char>>::empty());
                assert(before + Seq::<Seq<char>>::empty() =~= before);
            }
            break ;
        }
        out.push(subvec(s, start, end));
        proof {
            let word = rest.subrange(start - pos, end - pos);
            assert(word =~= s@.subrange(start as int, end as int));
            assert(rest.skip(end - pos) =~= s@.skip(end as int));
            assert(views(out@) =~= before.push(word));
            assert(before + (seq![word] + words_of(s@.skip(end as int))) =~= before.push(word)
                + words_of(s@.skip(end as int)));
        }
        pos = end;
    }
    out
}

/// The index of the first character at or after `from` that is no digit.
pub fn skip_digits_from(s: &[char], from: usize) -> (r: usize)
    requires
        from <= s@.len(),
    ensures
        r == skip_digits(s@, from as int),
        from <= r <= s@.len(),
{
    let mut i: usize = from;
    while i < s.len() && char_is_digit(s[i])
        invariant
            from <= i <= s@.len(),
            skip_digits(s@, from as int) == skip_digits(s@, i as int),
        decreases s@.len() - i,
    {
        i += 1;
    }
    i
}

/// The one-character string that writes the digit `d`.
pub fn digit_str(d: u64) -> (r: &'static str)
    requires
        d < 10,
    ensures
        r@ == seq![digit_char(d as int)],
{
    proof {
        reveal_strlit("0");
        reveal_strlit("1");
        reveal_strlit("2");
        reveal_strlit("3");
        reveal_strlit("4");
        reveal_strlit("5");
        reveal_strlit("6");
        reveal_strlit("7");
        reveal_strlit("8");
        reveal_strlit("9");
    }
    let r = if d == 0 {
        "0"
    } else if d == 1 {
        "1"
    } else if d == 2 {
        "2"
    } else if d == 3 {
        "3"
    } else if d == 4 {
        "4"
    } else if d == 5 {
        "5"
    } else if d == 6 {
        "6"
    } else if d == 7 {
        "7"
    } else if d == 8 {
        "8"
    } else {
        "9"
    };
    assert(r@ =~= seq![digit_char(d as int)]);
    r
}

/// Appends `n`, written in base ten, to `out`.
pub fn push_decimal(out: &mut String, n: u64)
    ensures
        final(out)@ == old(out)@ + decimal_text(n as nat),
    decreases n,
{
    if n >= 10 {
        push_decimal(out, n / 10);
    }
    out.append(digit_str(n % 10));
    proof {
        if n < 10 {
            assert(n % 10 == n);
        } else {
            assert(old(out)@ + decimal_text((n / 10) as nat) + seq![digit_char((n % 10) as int)]
                =~= old(out)@ + decimal_text(n as nat));
        }
    }
}

/// Do two texts hold the same characters?
pub fn chars_equal(a: &[char], b: &[char]) -> (r: bool)
    ensures
        r == (a@ == b@),
{
    if a.len() != b.len() {
        return false;
    }
    let mut i: usize = 0;
    while i < a.len()
        invariant
            a@.len() == b@.len(),
            0 <= i <= a@.len(),
            forall|j: int| 0 <= j < i ==> a@[j] == b@[j],
        decreases a@.len() - i,
    {
        if a[i] != b[i] {
            return false;
        }
        i += 1;
    }
    proof {
        assert(a@ =~= b@);
    }
    true
}

/// Does the text spell the given word?
pub fn spells(text: &[char], word: &str) -> (r: bool)
    ensures
        r == (text@ == word@),
{
    let letters = chars_of(word);
    chars_equal(text, letters.as_slice())
}

} // verus!
