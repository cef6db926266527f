//! Character-level helpers shared by both pipelines: conversion between
//! strings and character vectors, and decimal and binary numerals.

use vstd::prelude::*;
use vstd::slice::slice_subrange;
use vstd::std_specs::iter::IteratorSpec;

verus! {

/// `String::push` appends exactly one character to the end of the string.
pub assume_specification[ String::push ](s: &mut String, ch: char)
    ensures
        final(s)@ == old(s)@.push(ch),
;

/// The character that writes the decimal digit `d`.
pub open spec fn digit_char(d: nat) -> char {
    if d == 0 {
        '0'
    } else if d == 1 {
        '1'
    } else if d == 2 {
        '2'
    } else if d == 3 {
        '3'
    } else if d == 4 {
        '4'
    } else if d == 5 {
        '5'
    } else if d == 6 {
        '6'
    } else if d == 7 {
        '7'
    } else if d == 8 {
        '8'
    } else {
        '9'
    }
}

/// The decimal numeral of `n`: no sign, no padding, no leading zero but for
/// zero itself.
pub open spec fn decimal(n: nat) -> Seq<char>
    decreases n,
{
    if n < 10 {
        seq![digit_char(n)]
    } else {
        decimal(n / 10).push(digit_char(n % 10))
    }
}

fn digit(d: u8) -> (c: char)
    requires
        d < 10,
    ensures
        c == digit_char(d as nat),
{
    if d == 0 {
        '0'
    } else if d == 1 {
        '1'
    } else if d == 2 {
        '2'
    } else if d == 3 {
        '3'
    } else if d == 4 {
        '4'
    } else if d == 5 {
        '5'
    } else if d == 6 {
        '6'
    } else if d == 7 {
        '7'
    } else if d == 8 {
        '8'
    } else {
        '9'
    }
}

/// Appends the decimal numeral of `n` to `out`.
pub fn push_decimal(out: &mut String, n: u128)
    ensures
        final(out)@ == old(out)@ + decimal(n as nat),
    decreases n,
{
    if n < 10 {
        out.push(digit(n as u8));
    } else {
        push_decimal(out, n / 10);
        out.push(digit((n % 10) as u8));
    }
}

/// The characters of `s`, in order.
pub fn chars_of(s: &str) -> (v: Vec<char>)
    ensures
        v@ == s@,
{
    let mut v: Vec<char> = Vec::new();
    for c in it: s.chars()
        invariant
            it.seq() == s@,
            v@ == it.history(),
    {
        v.push(c);
    }
    v
}

/// Whether `c` is one of the ten decimal digits.
pub open spec fn is_digit(c: char) -> bool {
    '0' <= c <= '9'
}

/// A decimal numeral is not empty and holds digits only.
pub proof fn lemma_decimal_digits(n: nat)
    ensures
        decimal(n).len() >= 1,
        forall|i: int| 0 <= i < decimal(n).len() ==> is_digit(#[trigger] decimal(n)[i]),
    decreases n,
{
    if n >= 10 {
        lemma_decimal_digits(n / 10);
    }
}

/// Two numbers with the same decimal numeral are the same number.
pub proof fn lemma_decimal_injective(n: nat, m: nat)
    requires
        decimal(n) == decimal(m),
    ensures
        n == m,
    decreases n,
{
    lemma_decimal_digits(n / 10);
    lemma_decimal_digits(m / 10);
    if n >= 10 && m >= 10 {
        assert(decimal(n).drop_last() =~= decimal(n / 10));
        assert(decimal(m).drop_last() =~= decimal(m / 10));
        assert(decimal(n).last() == digit_char(n % 10));
        assert(decimal(m).last() == digit_char(m % 10));
        lemma_decimal_injective(n / 10, m / 10);
    } else if n < 10 && m < 10 {
        assert(decimal(n)[0] == digit_char(n));
        assert(decimal(m)[0] == digit_char(m));
    } else if n < 10 {
        assert(decimal(m).len() == decimal(m / 10).len() + 1);
    } else {
        assert(decimal(n).len() == decimal(n / 10).len() + 1);
    }
}

/// The text that `str::to_uppercase` makes of `text`: each character
/// replaced by its upper-case form in Unicode, which may be several
/// characters long.
pub uninterp spec fn uppercase(text: Seq<char>) -> Seq<char>;

/// `str::to_uppercase` returns the upper-case form of the whole text. What
/// that is for a given text is left to Unicode's tables; only that it
/// depends on the text alone is assumed.
pub assume_specification[ str::to_uppercase ](text: &str) -> (upper: String)
    ensures
        upper@ == uppercase(text@),
;

/// Whether `c` has Unicode's property `White_Space`, as `char::is_whitespace`
/// tells.
pub uninterp spec fn is_white_space(c: char) -> bool;

/// `char::is_whitespace` tells whether the character has the property
/// `White_Space`. Which characters have it is left to Unicode's tables.
pub assume_specification[ char::is_whitespace ](c: char) -> (white: bool)
    ensures
        white == is_white_space(c),
;

/// The text that holds the characters of `chars`.
pub fn string_from(chars: &[char]) -> (text: String)
    ensures
        text@ == chars@,
{
    let mut text = String::new();
    let mut i: usize = 0;
    while i < chars.len()
        invariant
            i <= chars.len(),
            text@ == chars@.take(i as int),
        decreases chars.len() - i,
    {
        text.push(chars[i]);
        i = i + 1;
    }
    text
}

/// Whether `chars` spells `text`.
pub fn spells(chars: &[char], text: &str) -> (same: bool)
    ensures
        same == (chars@ == text@),
{
    let mut i: usize = 0;
    for c in it: text.chars()
        invariant
            it.seq() == text@,
            i == it.index(),
            i <= chars.len(),
            forall|j: int| 0 <= j < i ==> chars@[j] == text@[j],
    {
        if i >= chars.len() {
            return false;
        }
        if chars[i] != c {
            return false;
        }
        i = i + 1;
    }
    if i == chars.len() {
        assert(chars@ =~= text@);
        true
    } else {
        false
    }
}

/// The index of the first `c` in `text`, or the length of `text` if it
/// holds none.
pub open spec fn position(text: Seq<char>, c: char) -> int
    decreases text.len(),
{
    if text.len() == 0 || text[0] == c {
        0
    } else {
        1 + position(text.skip(1), c)
    }
}

/// `position` lies within the text or at its end, no `c` stands before it,
/// and where it lies within the text a `c` stands at it.
pub proof fn lemma_position(text: Seq<char>, c: char)
    ensures
        0 <= position(text, c) <= text.len(),
        forall|j: int| 0 <= j < position(text, c) ==> text[j] != c,
        position(text, c) < text.len() ==> text[position(text, c)] == c,
    decreases text.len(),
{
    if text.len() != 0 && text[0] != c {
        let rest = text.skip(1);
        lemma_position(rest, c);
        assert forall|j: int| 0 <= j < position(text, c) implies text[j] != c by {
            if j > 0 {
                assert(rest[j - 1] == text[j]);
            }
        }
    }
}

/// The index of the first `c` in `text`, or the length of `text` if it
/// holds none.
pub fn find(text: &[char], c: char) -> (i: usize)
    ensures
        i == position(text@, c),
        i <= text@.len(),
{
    let mut i: usize = 0;
    while i < text.len() && text[i] != c
        invariant
            i <= text.len(),
            forall|j: int| 0 <= j < i ==> text@[j] != c,
        decreases text.len() - i,
    {
        i = i + 1;
    }
    proof {
        lemma_position(text@, c);
    }
    i
}

/// Whether `text` holds `c`.
pub fn holds(text: &[char], c: char) -> (found: bool)
    ensures
        found == text@.contains(c),
{
    let i = find(text, c);
    proof {
        lemma_position(text@, c);
    }
    i < text.len()
}

/// The number that the decimal digit `c` writes.
pub open spec fn digit_value(c: char) -> nat {
    if c == '1' {
        1
    } else if c == '2' {
        2
    } else if c == '3' {
        3
    } else if c == '4' {
        4
    } else if c == '5' {
        5
    } else if c == '6' {
        6
    } else if c == '7' {
        7
    } else if c == '8' {
        8
    } else if c == '9' {
        9
    } else {
        0
    }
}

/// The number that a row of decimal digits writes, the most significant
/// first.
pub open spec fn digits_value(digits: Seq<char>) -> nat
    decreases digits.len(),
{
    if digits.len() == 0 {
        0
    } else {
        digits_value(digits.drop_last()) * 10 + digit_value(digits.last())
    }
}

/// Whether `text` holds decimal digits only.
pub open spec fn all_digits(text: Seq<char>) -> bool {
    forall|i: int| 0 <= i < text.len() ==> is_digit(#[trigger] text[i])
}

/// What `str::parse::<u16>` makes of `text`: the number written by one or
/// more decimal digits, with or without a `+` before them, if it is at most
/// 65535. Nothing else is a number: not the empty text, not a sign alone,
/// not a `-`, not a blank.
pub open spec fn parse_u16(text: Seq<char>) -> Option<u16> {
    let digits = if text.len() > 0 && text[0] == '+' {
        text.skip(1)
    } else {
        text
    };
    if digits.len() > 0 && all_digits(digits) && digits_value(digits) <= u16::MAX {
        Some(digits_value(digits) as u16)
    } else {
        None
    }
}

/// More digits never write a smaller number.
proof fn lemma_digits_value_grows(digits: Seq<char>, n: int)
    requires
        0 <= n <= digits.len(),
    ensures
        digits_value(digits.take(n)) <= digits_value(digits),
    decreases digits.len() - n,
{
    if n < digits.len() {
        lemma_digits_value_grows(digits, n + 1);
        assert(digits.take(n + 1).drop_last() =~= digits.take(n));
    } else {
        assert(digits.take(n) =~= digits);
    }
}

/// Reads `text` as `str::parse::<u16>` does.
pub fn read_u16(text: &[char]) -> (number: Option<u16>)
    ensures
        number == parse_u16(text@),
{
    let start: usize = if text.len() > 0 && text[0] == '+' {
        1
    } else {
        0
    };
    let ghost digits = text@.skip(start as int);
    if start == text.len() {
        return None;
    }
    let mut value: u32 = 0;
    let mut i: usize = start;
    while i < text.len()
        invariant
            start <= i <= text.len(),
            digits == text@.skip(start as int),
            digits == if text@.len() > 0 && text@[0] == '+' {
                text@.skip(1)
            } else {
                text@
            },
            all_digits(digits.take(i - start)),
            value == digits_value(digits.take(i - start)),
            value <= u16::MAX,
        decreases text.len() - i,
    {
        let c = text[i];
        if !('0' <= c && c <= '9') {
            assert(!is_digit(digits[i - start]));
            return None;
        }
        let d: u32 = if c == '1' {
            1
        } else if c == '2' {
            2
        } else if c == '3' {
            3
        } else if c == '4' {
            4
        } else if c == '5' {
            5
        } else if c == '6' {
            6
        } else if c == '7' {
            7
        } else if c == '8' {
            8
        } else if c == '9' {
            9
        } else {
            0
        };
        let next = value * 10 + d;
        proof {
            let longer = digits.take(i - start + 1);
            assert(longer.drop_last() =~= digits.take(i - start));
            assert forall|j: int| 0 <= j < longer.len() implies is_digit(#[trigger] longer[j]) by {
                if j < i - start {
                    assert(longer[j] == digits.take(i - start)[j]);
                }
            }
        }
        if next > 0xFFFF {
            proof {
                lemma_digits_value_grows(digits, i - start + 1);
            }
            return None;
        }
        value = next;
        i = i + 1;
    }
    assert(digits.take(i - start) =~= digits);
    Some(value as u16)
}

/// The texts that a list of strings holds, in order.
pub open spec fn texts(strings: Seq<String>) -> Seq<Seq<char>> {
    strings.map_values(|string: String| string@)
}

/// The words of `text`, as `str::split_whitespace` yields them: the longest
/// runs of characters that are no white space, in order. Read from the left,
/// a character that is no white space starts a word where it follows white
/// space or nothing, and lengthens the last word where it follows another
/// such character.
pub open spec fn words(text: Seq<char>) -> Seq<Seq<char>>
    decreases text.len(),
{
    if text.len() == 0 {
        Seq::<Seq<char>>::empty()
    } else {
        let before = text.drop_last();
        if is_white_space(text.last()) {
            words(before)
        } else if before.len() > 0 && !is_white_space(before.last()) {
            words(before).drop_last().push(words(before).last().push(text.last()))
        } else {
            words(before).push(seq![text.last()])
        }
    }
}

/// The words of `text`, as `str::split_whitespace` yields them.
pub fn split_words(text: &[char]) -> (list: Vec<String>)
    ensures
        texts(list@) == words(text@),
{
    let mut list: Vec<String> = Vec::new();
    let mut start: usize = 0;
    let mut inside = false;
    let mut i: usize = 0;
    while i < text.len()
        invariant
            i <= text.len(),
            inside ==> start < i && !is_white_space(text@[i - 1]) && words(text@.take(i as int))
                == texts(list@).push(text@.subrange(start as int, i as int)),
            !inside ==> (i == 0 || is_white_space(text@[i - 1])) && words(text@.take(i as int))
                == texts(list@),
        decreases text.len() - i,
    {
        assert(text@.take(i + 1).drop_last() =~= text@.take(i as int));
        if text[i].is_whitespace() {
            if inside {
                list.push(string_from(slice_subrange(text, start, i)));
                inside = false;
            }
        } else {
            if inside {
                assert(text@.subrange(start as int, i as int).push(text@[i as int])
                    =~= text@.subrange(start as int, i + 1));
            } else {
                assert(seq![text@[i as int]] =~= text@.subrange(i as int, i + 1));
                start = i;
                inside = true;
            }
        }
        i = i + 1;
    }
    assert(text@.take(i as int) =~= text@);
    if inside {
        list.push(string_from(slice_subrange(text, start, i)));
    }
    list
}

/// Where the comment of `line` starts: the index of the first `//`, or the
/// length of `line` if it holds none.
pub open spec fn comment_start(line: Seq<char>) -> int
    decreases line.len(),
{
    if line.len() < 2 {
        line.len() as int
    } else if line[0] == '/' && line[1] == '/' {
        0
    } else {
        1 + comment_start(line.skip(1))
    }
}

/// `comment_start` lies within the line or at its end, no `//` starts
/// before it, and where it lies within the line a `//` starts at it.
pub proof fn lemma_comment_start(line: Seq<char>)
    ensures
        0 <= comment_start(line) <= line.len(),
        forall|j: int|
            0 <= j < comment_start(line) && j + 1 < line.len() ==> !(#[trigger] line[j] == '/'
                && line[j + 1] == '/'),
        comment_start(line) < line.len() ==> comment_start(line) + 1 < line.len()
            && line[comment_start(line)] == '/' && line[comment_start(line) + 1] == '/',
    decreases line.len(),
{
    if line.len() >= 2 && !(line[0] == '/' && line[1] == '/') {
        let rest = line.skip(1);
        lemma_comment_start(rest);
        assert forall|j: int| 0 <= j < comment_start(line) && j + 1 < line.len() implies !(
        #[trigger] line[j] == '/' && line[j + 1] == '/') by {
            if j > 0 {
                assert(rest[j - 1] == line[j]);
            }
        }
    }
}

/// `text` without the white space at its start.
pub open spec fn trim_start(text: Seq<char>) -> Seq<char>
    decreases text.len(),
{
    if text.len() > 0 && is_white_space(text[0]) {
        trim_start(text.skip(1))
    } else {
        text
    }
}

/// `text` without the white space at its end.
pub open spec fn trim_end(text: Seq<char>) -> Seq<char>
    decreases text.len(),
{
    if text.len() > 0 && is_white_space(text.last()) {
        trim_end(text.drop_last())
    } else {
        text
    }
}

/// `text` without the white space at its start and at its end, as
/// `str::trim` returns it.
pub open spec fn trim(text: Seq<char>) -> Seq<char> {
    trim_end(trim_start(text))
}

/// What is left of a line of source: the text before the first `//`,
/// trimmed.
pub open spec fn clean_line(line: Seq<char>) -> Seq<char> {
    trim(line.subrange(0, comment_start(line)))
}

/// The pieces into which the line feeds cut `text`: one more than there are
/// line feeds, none of which is kept.
pub open spec fn raw_lines(text: Seq<char>) -> Seq<Seq<char>>
    decreases text.len(),
{
    if text.len() == 0 {
        seq![Seq::<char>::empty()]
    } else if text.last() == '\n' {
        raw_lines(text.drop_last()).push(Seq::<char>::empty())
    } else {
        raw_lines(text.drop_last()).drop_last().push(
            raw_lines(text.drop_last()).last().push(text.last()),
        )
    }
}

/// The lines of `lines` cleaned, without those of which nothing is left.
pub open spec fn cleaned(lines: Seq<Seq<char>>) -> Seq<Seq<char>>
    decreases lines.len(),
{
    if lines.len() == 0 {
        Seq::<Seq<char>>::empty()
    } else if clean_line(lines.last()).len() == 0 {
        cleaned(lines.drop_last())
    } else {
        cleaned(lines.drop_last()).push(clean_line(lines.last()))
    }
}

/// The lines of a source text that hold something: each line cut at its
/// comment and trimmed, the empty ones left out.
pub open spec fn source_lines(source: Seq<char>) -> Seq<Seq<char>> {
    cleaned(raw_lines(source))
}

/// What is left of a cleaned line starts and ends with a character that is
/// no white space.
pub proof fn lemma_trim_ends(text: Seq<char>)
    ensures
        trim(text).len() > 0 ==> !is_white_space(trim(text)[0]) && !is_white_space(
            trim(text).last(),
        ),
{
    lemma_trim_start(text);
    lemma_trim_end(trim_start(text));
}

/// `trim_start` drops a run of white space from the start and nothing
/// else.
pub proof fn lemma_trim_start(text: Seq<char>)
    ensures
        trim_start(text).len() <= text.len(),
        trim_start(text) == text.subrange(
            text.len() - trim_start(text).len(),
            text.len() as int,
        ),
        forall|j: int| 0 <= j < text.len() - trim_start(text).len() ==> is_white_space(text[j]),
        trim_start(text).len() > 0 ==> !is_white_space(trim_start(text)[0]),
    decreases text.len(),
{
    if text.len() > 0 && is_white_space(text[0]) {
        let rest = text.skip(1);
        lemma_trim_start(rest);
        let kept = trim_start(rest).len();
        assert forall|j: int| 0 <= j < text.len() - kept implies is_white_space(text[j]) by {
            if j > 0 {
                assert(rest[j - 1] == text[j]);
            }
        }
    }
}

/// `trim_end` drops a run of white space from the end and nothing else.
pub proof fn lemma_trim_end(text: Seq<char>)
    ensures
        trim_end(text).len() <= text.len(),
        trim_end(text) == text.subrange(0, trim_end(text).len() as int),
        forall|j: int| trim_end(text).len() <= j < text.len() ==> is_white_space(text[j]),
        trim_end(text).len() > 0 ==> !is_white_space(trim_end(text).last()),
    decreases text.len(),
{
    if text.len() > 0 && is_white_space(text.last()) {
        let rest = text.drop_last();
        lemma_trim_end(rest);
        assert forall|j: int| trim_end(text).len() <= j < text.len() implies is_white_space(
            text[j],
        ) by {
            if j < rest.len() {
                assert(rest[j] == text[j]);
            }
        }
    }
}

/// What is left of a line of source: the text before the first `//`,
/// trimmed.
pub fn clean<'a>(line: &'a [char]) -> (kept: &'a [char])
    ensures
        kept@ == clean_line(line@),
{
    let length = line.len();
    let mut cut: usize = 0;
    if length >= 2 {
        while cut < length - 1 && !(line[cut] == '/' && line[cut + 1] == '/')
            invariant
                length == line.len(),
                length >= 2,
                cut <= length - 1,
                forall|j: int|
                    0 <= j < cut && j + 1 < line.len() ==> !(#[trigger] line@[j] == '/' && line@[j
                        + 1] == '/'),
            decreases length - cut,
        {
            cut = cut + 1;
        }
        if cut >= length - 1 {
            cut = length;
        }
    } else {
        cut = length;
    }
    proof {
        lemma_comment_start(line@);
    }
    let ghost code = line@.subrange(0, cut as int);
    let mut start: usize = 0;
    while start < cut && line[start].is_whitespace()
        invariant
            start <= cut <= line.len(),
            code == line@.subrange(0, cut as int),
            forall|j: int| 0 <= j < start ==> is_white_space(code[j]),
        decreases cut - start,
    {
        start = start + 1;
    }
    let mut end: usize = cut;
    while start < end && line[end - 1].is_whitespace()
        invariant
            start <= end <= cut <= line.len(),
            code == line@.subrange(0, cut as int),
            forall|j: int| end <= j < cut ==> is_white_space(code[j]),
        decreases end - start,
    {
        end = end - 1;
    }
    proof {
        lemma_trim_start(code);
        let middle = trim_start(code);
        assert(middle.len() == cut - start) by {
            if middle.len() > cut - start {
                assert(middle[0] == code[cut - middle.len()]);
            }
            if middle.len() < cut - start {
                assert(is_white_space(code[start as int]));
            }
        }
        lemma_trim_end(middle);
        let inner = trim_end(middle);
        assert(inner.len() == end - start) by {
            if inner.len() > end - start {
                assert(inner.last() == middle[inner.len() - 1]);
                assert(middle[inner.len() - 1] == code[start + inner.len() - 1]);
            }
            if inner.len() < end - start {
                assert(middle[end - start - 1] == code[end - 1]);
                assert(is_white_space(middle[end - start - 1]));
            }
        }
    }
    slice_subrange(line, start, end)
}

/// The lines of a source text that hold something: each line cut at its
/// comment and trimmed, the empty ones left out.
pub fn lines_of(source: &str) -> (lines: Vec<String>)
    ensures
        texts(lines@) == source_lines(source@),
{
    let chars = chars_of(source);
    let text = chars.as_slice();
    let mut lines: Vec<String> = Vec::new();
    let ghost mut done: Seq<Seq<char>> = Seq::empty();
    let mut start: usize = 0;
    let mut i: usize = 0;
    assert(text@.take(0) =~= Seq::<char>::empty());
    while i < text.len()
        invariant
            start <= i <= text.len(),
            raw_lines(text@.take(i as int)) == done.push(text@.subrange(start as int, i as int)),
            texts(lines@) == cleaned(done),
        decreases text.len() - i,
    {
        assert(text@.take(i + 1).drop_last() =~= text@.take(i as int));
        let ghost raw = text@.subrange(start as int, i as int);
        assert(done.push(raw).drop_last() =~= done);
        if text[i] == '\n' {
            let kept = clean(slice_subrange(text, start, i));
            if kept.len() > 0 {
                lines.push(string_from(kept));
            }
            proof {
                done = done.push(raw);
                assert(text@.subrange(i + 1, i + 1) =~= Seq::<char>::empty());
            }
            start = i + 1;
        } else {
            assert(raw.push(text@[i as int]) =~= text@.subrange(start as int, i + 1));
        }
        i = i + 1;
    }
    assert(text@.take(i as int) =~= text@);
    let ghost raw = text@.subrange(start as int, i as int);
    assert(done.push(raw).drop_last() =~= done);
    let kept = clean(slice_subrange(text, start, i));
    if kept.len() > 0 {
        lines.push(string_from(kept));
    }
    lines
}

} // verus!
