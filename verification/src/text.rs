//! Sequences of characters: white space, trimming, cutting into pieces, and
//! decimal numbers.

use crate::util::rows_of;
use vstd::prelude::*;

verus! {

/// Whether a character is white space: one of the twenty-five characters
/// that Unicode marks `White_Space`.
pub open spec fn is_space(c: char) -> bool {
    let code = c as u32;
    ||| 0x09 <= code <= 0x0d
    ||| code == 0x20
    ||| code == 0x85
    ||| code == 0xa0
    ||| code == 0x1680
    ||| 0x2000 <= code <= 0x200a
    ||| code == 0x2028
    ||| code == 0x2029
    ||| code == 0x202f
    ||| code == 0x205f
    ||| code == 0x3000
}

/// A text without the white space at its start.
pub open spec fn trim_start(text: Seq<char>) -> Seq<char>
    decreases text.len(),
{
    if text.len() > 0 && is_space(text[0]) {
        trim_start(text.drop_first())
    } else {
        text
    }
}

/// A text without the white space at its end.
pub open spec fn trim_end(text: Seq<char>) -> Seq<char>
    decreases text.len(),
{
    if text.len() > 0 && is_space(text.last()) {
        trim_end(text.drop_last())
    } else {
        text
    }
}

/// A text without the white space at its start and at its end.
pub open spec fn trim(text: Seq<char>) -> Seq<char> {
    trim_end(trim_start(text))
}

/// The pieces of a text between the occurrences of `at`, in order. There is
/// one piece more than there are occurrences; a piece may be empty.
pub open spec fn split(text: Seq<char>, at: char) -> Seq<Seq<char>>
    decreases text.len(),
{
    if text.len() == 0 {
        seq![Seq::<char>::empty()]
    } else {
        let earlier = split(text.drop_last(), at);
        if text.last() == at {
            earlier.push(Seq::<char>::empty())
        } else {
            earlier.drop_last().push(earlier.last().push(text.last()))
        }
    }
}

/// The pieces of a text put together again, with `with` between each two.
pub open spec fn join(pieces: Seq<Seq<char>>, with: char) -> Seq<char>
    decreases pieces.len(),
{
    if pieces.len() == 0 {
        Seq::empty()
    } else if pieces.len() == 1 {
        pieces[0]
    } else {
        join(pieces.drop_last(), with).push(with) + pieces.last()
    }
}

/// Whether every character of a text is white space.
pub open spec fn all_space(text: Seq<char>) -> bool {
    forall|i: int| 0 <= i < text.len() ==> is_space(#[trigger] text[i])
}

/// Cutting a text at a character leaves at least one piece, none of the
/// pieces holds that character, and the pieces put together again with that
/// character between them are the text.
pub proof fn lemma_split_is_undone_by_join(text: Seq<char>, at: char)
    ensures
        split(text, at).len() >= 1,
        forall|i: int, j: int|
            #![trigger split(text, at)[i][j]]
            0 <= i < split(text, at).len() && 0 <= j < split(text, at)[i].len() ==> split(
                text,
                at,
            )[i][j] != at,
        join(split(text, at), at) == text,
    decreases text.len(),
{
    if text.len() > 0 {
        let earlier = split(text.drop_last(), at);
        let pieces = split(text, at);
        lemma_split_is_undone_by_join(text.drop_last(), at);
        if text.last() == at {
            assert(pieces.drop_last() =~= earlier);
            assert(join(pieces, at) =~= text);
        } else {
            let grown = earlier.last().push(text.last());
            assert(pieces.last() == grown);
            if earlier.len() > 1 {
                assert(pieces.drop_last() =~= earlier.drop_last());
                assert(join(pieces, at) =~= join(earlier, at).push(text.last()));
            }
            assert(join(pieces, at) =~= text);
            assert forall|i: int, j: int|
                0 <= i < pieces.len() && 0 <= j < pieces[i].len() implies #[trigger] pieces[i][j]
                != at by {
                if i < pieces.len() - 1 {
                    assert(pieces[i] == earlier[i]);
                } else if j < earlier.last().len() {
                    assert(pieces[i][j] == earlier[i][j]);
                }
            }
        }
    } else {
        assert(join(split(text, at), at) =~= text);
    }
}

/// What `trim_start` leaves is the end of the text from some place on: all
/// before that place is white space, and no white space stands at that place.
pub proof fn lemma_trim_start(text: Seq<char>) -> (start: int)
    ensures
        0 <= start <= text.len(),
        trim_start(text) == text.skip(start),
        all_space(text.take(start)),
        start < text.len() ==> !is_space(text[start]),
    decreases text.len(),
{
    if text.len() > 0 && is_space(text[0]) {
        let later = lemma_trim_start(text.drop_first());
        assert(text.drop_first().skip(later) =~= text.skip(later + 1));
        assert forall|i: int| 0 <= i < later + 1 implies is_space(
            #[trigger] text.take(later + 1)[i],
        ) by {
            if i > 0 {
                assert(text.take(later + 1)[i] == text.drop_first().take(later)[i - 1]);
            }
        }
        later + 1
    } else {
        assert(text.skip(0) =~= text);
        0
    }
}

/// What `trim_end` leaves is the start of the text up to some place: all
/// from that place on is white space, and no white space stands just before it.
pub proof fn lemma_trim_end(text: Seq<char>) -> (end: int)
    ensures
        0 <= end <= text.len(),
        trim_end(text) == text.take(end),
        all_space(text.skip(end)),
        end > 0 ==> !is_space(text[end - 1]),
    decreases text.len(),
{
    if text.len() > 0 && is_space(text.last()) {
        let end = lemma_trim_end(text.drop_last());
        assert(text.drop_last().take(end) =~= text.take(end));
        assert forall|i: int| 0 <= i < text.len() - end implies is_space(
            #[trigger] text.skip(end)[i],
        ) by {
            if i < text.len() - end - 1 {
                assert(text.skip(end)[i] == text.drop_last().skip(end)[i]);
            }
        }
        end
    } else {
        assert(text.take(text.len() as int) =~= text);
        text.len() as int
    }
}

/// What `trim` leaves is a part of the text with white space alone before it
/// and after it; where it leaves anything, that starts and ends with a
/// character that is no white space.
pub proof fn lemma_trim(text: Seq<char>) -> (part: (int, int))
    ensures
        0 <= part.0 <= part.1 <= text.len(),
        trim(text) == text.subrange(part.0, part.1),
        all_space(text.take(part.0)),
        all_space(text.skip(part.1)),
        part.0 < part.1 ==> !is_space(text[part.0]) && !is_space(text[part.1 - 1]),
{
    let start = lemma_trim_start(text);
    let rest = text.skip(start);
    let end = lemma_trim_end(rest);
    assert(rest.take(end) =~= text.subrange(start, start + end));
    assert(rest.skip(end) =~= text.skip(start + end));
    if end > 0 {
        assert(rest[end - 1] == text[start + end - 1]);
    }
    (start, start + end)
}

/// Whether a character is one of the digits `0` to `9`.
pub open spec fn is_digit(c: char) -> bool {
    '0' <= c <= '9'
}

/// The number that a sequence of digits writes in base ten.
pub open spec fn decimal(digits: Seq<char>) -> int
    decreases digits.len(),
{
    if digits.len() == 0 {
        0
    } else {
        10 * decimal(digits.drop_last()) + (digits.last() as int - '0' as int)
    }
}

/// Whether a text is made of digits alone.
pub open spec fn all_digits(text: Seq<char>) -> bool {
    forall|i: int| 0 <= i < text.len() ==> is_digit(#[trigger] text[i])
}

/// A token without the `+` that it may start with.
pub open spec fn unsigned(token: Seq<char>) -> Seq<char> {
    if token.len() > 0 && token[0] == '+' {
        token.skip(1)
    } else {
        token
    }
}

/// The number that a token writes, where it writes one that fits in a
/// `u32`: an optional `+`, then one or more digits.
pub open spec fn number(token: Seq<char>) -> Option<u32> {
    let digits = unsigned(token);
    if digits.len() > 0 && all_digits(digits) && decimal(digits) <= u32::MAX {
        Some(decimal(digits) as u32)
    } else {
        None
    }
}

/// The characters of a string.
pub fn chars_of(text: &str) -> (chars: Vec<char>)
    ensures
        chars@ == text@,
{
    let mut chars: Vec<char> = Vec::new();
    for c in it: text.chars()
        invariant
            chars@ == it.seq().take(it.index() as int),
    {
        chars.push(c);
    }
    chars
}

/// Tells whether a character is white space.
pub fn is_whitespace(c: char) -> (space: bool)
    ensures
        space == is_space(c),
{
    let code: u32 = c as u32;
    (0x09 <= code && code <= 0x0d) || code == 0x20 || code == 0x85 || code == 0xa0 || code
        == 0x1680 || (0x2000 <= code && code <= 0x200a) || code == 0x2028 || code == 0x2029 || code
        == 0x202f || code == 0x205f || code == 0x3000
}

/// Cuts a text at every occurrence of `at`.
pub fn split_chars(text: &Vec<char>, at: char) -> (pieces: Vec<Vec<char>>)
    ensures
        rows_of(pieces@) == split(text@, at),
{
    let mut pieces: Vec<Vec<char>> = Vec::new();
    let mut piece: Vec<char> = Vec::new();
    let mut i: usize = 0;
    while i < text.len()
        invariant
            i <= text.len(),
            rows_of(pieces@).push(piece@) == split(text@.take(i as int), at),
        decreases text.len() - i,
    {
        let c = text[i];
        let ghost earlier = rows_of(pieces@).push(piece@);
        proof {
            assert(text@.take(i + 1).drop_last() =~= text@.take(i as int));
            assert(earlier.drop_last() =~= rows_of(pieces@));
        }
        if c == at {
            pieces.push(piece);
            piece = Vec::new();
            assert(rows_of(pieces@).push(piece@) =~= earlier.push(Seq::<char>::empty()));
        } else {
            piece.push(c);
            assert(rows_of(pieces@).push(piece@) =~= earlier.drop_last().push(
                earlier.last().push(c),
            ));
        }
        i += 1;
    }
    proof {
        assert(text@.take(text.len() as int) =~= text@);
        assert(rows_of(pieces@.push(piece)) =~= rows_of(pieces@).push(piece@));
    }
    pieces.push(piece);
    pieces
}

/// Removes the white space at both ends of a text.
pub fn trim_chars(text: &Vec<char>) -> (trimmed: Vec<char>)
    ensures
        trimmed@ == trim(text@),
{
    let mut start: usize = 0;
    assert(text@.skip(0) =~= text@);
    while start < text.len() && is_whitespace(text[start])
        invariant
            start <= text.len(),
            trim_start(text@) == trim_start(text@.skip(start as int)),
        decreases text.len() - start,
    {
        proof {
            assert(text@.skip(start as int).drop_first() =~= text@.skip(start + 1));
        }
        start += 1;
    }
    assert(trim_start(text@) == text@.skip(start as int));
    let mut end: usize = text.len();
    proof {
        assert(text@.skip(start as int) =~= text@.subrange(start as int, end as int));
    }
    while end > start && is_whitespace(text[end - 1])
        invariant
            start <= end <= text.len(),
            trim(text@) == trim_end(text@.subrange(start as int, end as int)),
        decreases end,
    {
        proof {
            assert(text@.subrange(start as int, end as int).drop_last() =~= text@.subrange(
                start as int,
                end - 1,
            ));
        }
        end -= 1;
    }
    assert(trim(text@) == text@.subrange(start as int, end as int));
    let mut trimmed: Vec<char> = Vec::new();
    let mut i: usize = start;
    while i < end
        invariant
            start <= i <= end <= text.len(),
            trimmed@ == text@.subrange(start as int, i as int),
        decreases end - i,
    {
        trimmed.push(text[i]);
        i += 1;
        assert(trimmed@ =~= text@.subrange(start as int, i as int));
    }
    trimmed
}

/// A sequence of digits writes no smaller a number than any of its beginnings.
proof fn lemma_decimal_grows(digits: Seq<char>, len: int)
    requires
        0 <= len <= digits.len(),
        all_digits(digits),
    ensures
        0 <= decimal(digits.take(len)) <= decimal(digits),
    decreases digits.len(),
{
    if len == digits.len() {
        assert(digits.take(len) =~= digits);
        if len > 0 {
            lemma_decimal_grows(digits.drop_last(), len - 1);
        }
    } else {
        lemma_decimal_grows(digits.drop_last(), len);
        assert(digits.drop_last().take(len) =~= digits.take(len));
        assert(is_digit(digits.last()));
    }
}

/// Reads the number that a token writes.
pub fn parse_number(token: &Vec<char>) -> (value: Option<u32>)
    ensures
        value == number(token@),
{
    let start: usize = if token.len() > 0 && token[0] == '+' {
        1
    } else {
        0
    };
    let ghost digits = unsigned(token@);
    assert(digits =~= token@.skip(start as int));
    if start == token.len() {
        return None;
    }
    let mut value: u64 = 0;
    let mut i: usize = start;
    while i < token.len()
        invariant
            start <= i <= token.len(),
            digits == unsigned(token@),
            digits == token@.skip(start as int),
            all_digits(digits.take(i - start)),
            value == decimal(digits.take(i - start)),
            value <= u32::MAX,
        decreases token.len() - i,
    {
        let c = token[i];
        assert(c == digits[i - start]);
        if !('0' <= c && c <= '9') {
            assert(!is_digit(digits[i - start]));
            return None;
        }
        proof {
            assert(digits.take(i - start + 1).drop_last() =~= digits.take(i - start));
            assert forall|k: int| 0 <= k < i - start + 1 implies is_digit(
                #[trigger] digits.take(i - start + 1)[k],
            ) by {
                if k < i - start {
                    assert(digits.take(i - start + 1)[k] == digits.take(i - start)[k]);
                }
            }
        }
        value = value * 10 + (c as u64 - '0' as u64);
        i += 1;
        if value > u32::MAX as u64 {
            proof {
                if all_digits(digits) {
                    lemma_decimal_grows(digits, i - start);
                }
            }
            return None;
        }
    }
    proof {
        assert(digits.take(i - start) =~= digits);
    }
    Some(value as u32)
}

} // verus!
