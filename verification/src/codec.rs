//! The positional codec: splitting a raw export blob on the reserved
//! delimiter, reading segments by fixed index with empty-string defaulting,
//! and the total numeric parse that coerces any failure to 0.

use vstd::prelude::*;
use vstd::string::*;

verus! {

/// The reserved delimiter that separates the segments of a character code.
pub const DELIMITER: char = '§';

/// True when `c` is an ASCII decimal digit.
pub open spec fn is_ascii_digit(c: char) -> bool {
    48 <= c as int && c as int <= 57
}

/// Numeric value of one ASCII decimal digit.
pub open spec fn digit_value(c: char) -> int {
    c as int - 48
}

/// Value of a sequence of decimal digits, most significant digit first.
pub open spec fn decimal_value(s: Seq<char>) -> int
    decreases s.len(),
{
    if s.len() == 0 {
        0
    } else {
        decimal_value(s.drop_last()) * 10 + digit_value(s.last())
    }
}

/// The digit part of a numeral: everything after an optional leading '+'.
pub open spec fn digits_part(s: Seq<char>) -> Seq<char> {
    if s.len() > 0 && s[0] == '+' {
        s.drop_first()
    } else {
        s
    }
}

/// Whether `s` is a numeral accepted when parsing a `u8`: an optional leading
/// '+', then at least one ASCII digit, with a value that fits in a `u8`.
pub open spec fn is_u8_numeral(s: Seq<char>) -> bool {
    &&& digits_part(s).len() > 0
    &&& forall|i: int| 0 <= i < digits_part(s).len() ==> is_ascii_digit(#[trigger] digits_part(s)[i])
    &&& decimal_value(digits_part(s)) <= 255
}

/// Total numeric decoding: the numeral's value, or 0 on any parse failure.
pub open spec fn u8_or_zero(s: Seq<char>) -> u8 {
    if is_u8_numeral(s) {
        decimal_value(digits_part(s)) as u8
    } else {
        0
    }
}

proof fn lemma_decimal_value_nonneg(s: Seq<char>)
    requires
        forall|i: int| 0 <= i < s.len() ==> is_ascii_digit(#[trigger] s[i]),
    ensures
        decimal_value(s) >= 0,
    decreases s.len(),
{
    if s.len() > 0 {
        lemma_decimal_value_nonneg(s.drop_last());
    }
}

/// Parse a `u8` from text, substituting 0 for any failure, as the defaulting
/// policy of the codec demands.
pub fn parse_u8_or_zero(s: &str) -> (r: u8)
    ensures
        r == u8_or_zero(s@),
{
    let len = s.unicode_len();
    let mut start: usize = 0;
    if len > 0 && s.get_char(0) == '+' {
        start = 1;
    }
    proof {
        assert(digits_part(s@) =~= s@.subrange(start as int, s@.len() as int));
    }
    if start >= len {
        return 0;
    }
    let mut i: usize = start;
    let mut value: u32 = 0;
    let mut too_big = false;
    while i < len
        invariant
            start <= i <= len,
            len == s@.len(),
            digits_part(s@) =~= s@.subrange(start as int, s@.len() as int),
            forall|j: int| start <= j < i ==> is_ascii_digit(#[trigger] s@[j]),
            !too_big ==> value == decimal_value(s@.subrange(start as int, i as int)) && value
                <= 255,
            too_big ==> decimal_value(s@.subrange(start as int, i as int)) > 255,
        decreases len - i,
    {
        let c = s.get_char(i);
        let cu = c as u32;
        if cu < 48 || cu > 57 {
            assert(digits_part(s@)[i - start] == s@[i as int]);
            return 0;
        }
        let d = cu - 48;
        proof {
            assert(s@.subrange(start as int, i + 1).drop_last() =~= s@.subrange(
                start as int,
                i as int,
            ));
            assert(s@.subrange(start as int, i + 1).last() == s@[i as int]);
        }
        if !too_big {
            value = value * 10 + d;
            if value > 255 {
                too_big = true;
            }
        }
        i = i + 1;
    }
    proof {
        assert(s@.subrange(start as int, i as int) =~= digits_part(s@));
        assert(forall|j: int|
            0 <= j < digits_part(s@).len() ==> is_ascii_digit(#[trigger] digits_part(s@)[j]));
        lemma_decimal_value_nonneg(digits_part(s@));
    }
    if too_big {
        0
    } else {
        value as u8
    }
}

/// The segments of `s`: the delimiter-separated pieces, left to right.
/// An input without the delimiter is one segment; an empty input is one
/// empty segment.
pub open spec fn spec_split(s: Seq<char>) -> Seq<Seq<char>>
    decreases s.len(),
{
    if s.len() == 0 {
        seq![Seq::<char>::empty()]
    } else if s.last() == DELIMITER {
        spec_split(s.drop_last()).push(Seq::<char>::empty())
    } else {
        let parts = spec_split(s.drop_last());
        parts.update(parts.len() - 1, parts.last().push(s.last()))
    }
}

pub proof fn lemma_split_nonempty(s: Seq<char>)
    ensures
        spec_split(s).len() >= 1,
    decreases s.len(),
{
    if s.len() > 0 {
        lemma_split_nonempty(s.drop_last());
    }
}

/// The piece at index `i`, or empty text when the list is too short.
pub open spec fn nth_or_blank(parts: Seq<Seq<char>>, i: int) -> Seq<char> {
    if 0 <= i < parts.len() {
        parts[i]
    } else {
        Seq::empty()
    }
}

/// Segment `i` of the raw input under the positional format, with the
/// empty-string default for indices beyond the end of the input.
pub open spec fn segment(s: Seq<char>, i: int) -> Seq<char> {
    nth_or_blank(spec_split(s), i)
}

/// Split a raw character code on the reserved delimiter, preserving order.
pub fn split_code(s: &str) -> (parts: Vec<String>)
    ensures
        parts.deep_view() == spec_split(s@),
{
    let len = s.unicode_len();
    let mut parts: Vec<String> = Vec::new();
    let mut start: usize = 0;
    let mut i: usize = 0;
    proof {
        assert(s@.subrange(0, 0) =~= Seq::<char>::empty());
        assert(parts.deep_view() =~= Seq::<Seq<char>>::empty());
        assert(parts.deep_view().push(s@.subrange(0, 0)) =~= seq![Seq::<char>::empty()]);
    }
    while i < len
        invariant
            start <= i <= len,
            len == s@.len(),
            parts.deep_view().push(s@.subrange(start as int, i as int)) =~= spec_split(
                s@.subrange(0, i as int),
            ),
        decreases len - i,
    {
        let ghost prev_parts = parts.deep_view();
        proof {
            assert(s@.subrange(0, i + 1).drop_last() =~= s@.subrange(0, i as int));
            assert(s@.subrange(0, i + 1).last() == s@[i as int]);
            lemma_split_nonempty(s@.subrange(0, i as int));
        }
        let c = s.get_char(i);
        if c == DELIMITER {
            let piece = s.substring_char(start, i);
            parts.push(piece.to_owned());
            proof {
                assert(parts.deep_view() =~= prev_parts.push(s@.subrange(
                    start as int,
                    i as int,
                )));
                assert(spec_split(s@.subrange(0, i + 1)) =~= parts.deep_view().push(
                    Seq::<char>::empty(),
                ));
            }
            start = i + 1;
            proof {
                assert(s@.subrange(start as int, i + 1) =~= Seq::<char>::empty());
            }
        } else {
            proof {
                let old_split = spec_split(s@.subrange(0, i as int));
                assert(s@.subrange(start as int, i + 1) =~= s@.subrange(
                    start as int,
                    i as int,
                ).push(s@[i as int]));
                assert(spec_split(s@.subrange(0, i + 1)) =~= old_split.update(
                    old_split.len() - 1,
                    old_split.last().push(s@[i as int]),
                ));
                assert(old_split.update(old_split.len() - 1, old_split.last().push(s@[i as int]))
                    =~= parts.deep_view().push(s@.subrange(start as int, i + 1)));
            }
        }
        i = i + 1;
    }
    let piece = s.substring_char(start, len);
    parts.push(piece.to_owned());
    proof {
        assert(s@.subrange(0, len as int) =~= s@);
        assert(parts.deep_view() =~= spec_split(s@));
    }
    parts
}

/// Fetch segment `index` of a split code, or empty text when the code has
/// fewer segments: the defaulting policy for truncated input.
pub fn get_or_blank_str<'a>(character_code: &'a Vec<String>, index: usize) -> (r: &'a str)
    ensures
        r@ == nth_or_blank(character_code.deep_view(), index as int),
{
    if index < character_code.len() {
        character_code[index].as_str()
    } else {
        proof {
            reveal_strlit("");
            assert(""@ =~= Seq::<char>::empty());
        }
        ""
    }
}

} // verus!
