//! Release dates: the date in front of a timestamp, and the date in a release
//! tag.
use vstd::prelude::*;

use crate::numbers::{ascii_digit, is_ascii_digit};
use crate::text::{chars_of, law_trimming_takes_the_white_space_around, lemma_trimmed_len, text_between, trim, trimmed, white_space};

verus! {

/// `c` can stand in a date.
pub open spec fn date_char(c: char) -> bool {
    ascii_digit(c) || c == '-'
}

/// The date that a timestamp begins with: its first ten characters, white
/// space aside, if all of them are digits or dashes.
pub open spec fn normalized_date(raw: Seq<char>) -> Option<Seq<char>> {
    let value = trimmed(raw);
    if value.len() >= 10 && forall|i: int| 0 <= i < 10 ==> date_char(#[trigger] value[i]) {
        Some(value.take(10))
    } else {
        None
    }
}

/// White space aside, `raw` has fewer than ten bytes of UTF-8, or a character
/// ends with the tenth.
pub open spec fn date_can_be_cut(raw: Seq<char>) -> bool {
    let bytes = vstd::utf8::encode_utf8(trimmed(raw));
    bytes.len() < 10 || vstd::utf8::is_char_boundary(bytes, 10)
}

/// Whether the first ten bytes of a timestamp can be cut off between two
/// characters.
pub fn can_cut_date(raw: &str) -> (r: bool)
    ensures
        r == date_can_be_cut(raw@),
{
    let value = trim(raw);
    let text = value.as_str();
    text.as_bytes().len() < 10 || text.is_char_boundary(10)
}

/// The date that a timestamp begins with.
pub fn normalize_release_date(raw: &str) -> (r: Option<String>)
    requires
        date_can_be_cut(raw@),
    ensures
        crate::text::opt_text(r) == normalized_date(raw@),
{
    let value = chars_of(trim(raw).as_str());
    if value.len() < 10 {
        return None;
    }
    let mut i: usize = 0;
    while i < 10
        invariant
            i <= 10,
            value@ == trimmed(raw@),
            value@.len() >= 10,
            forall|k: int| 0 <= k < i ==> date_char(#[trigger] value@[k]),
        decreases 10 - i,
    {
        if !is_ascii_digit(value[i]) && value[i] != '-' {
            return None;
        }
        i += 1;
    }
    let date = text_between(&value, 0, 10);
    assert(date@ == value@.take(10));
    Some(date)
}

/// The digits of `s`, in order.
pub open spec fn digits_in(s: Seq<char>) -> Seq<char> {
    s.filter(|c: char| ascii_digit(c))
}

/// The date that a release tag holds: its first eight digits, as year, month
/// and day.
pub open spec fn tag_date(tag: Seq<char>) -> Option<Seq<char>> {
    let digits = digits_in(tag);
    if digits.len() < 8 {
        None
    } else {
        Some(
            digits.subrange(0, 4) + "-"@ + digits.subrange(4, 6) + "-"@ + digits.subrange(6, 8),
        )
    }
}

/// The date that a release tag holds.
pub fn release_date_from_tag(tag: &str) -> (r: Option<String>)
    ensures
        crate::text::opt_text(r) == tag_date(tag@),
{
    let v = chars_of(tag);
    let mut digits: Vec<char> = Vec::new();
    let mut i: usize = 0;
    assert(v@.take(0) == Seq::<char>::empty());
    while i < v.len()
        invariant
            v@ == tag@,
            i <= v@.len(),
            digits@ == digits_in(v@.take(i as int)),
        decreases v@.len() - i,
    {
        assert(v@.take(i + 1).drop_last() == v@.take(i as int));
        reveal(Seq::filter);
        if is_ascii_digit(v[i]) {
            digits.push(v[i]);
        }
        i += 1;
    }
    assert(v@.take(i as int) == v@);
    if digits.len() < 8 {
        return None;
    }
    let mut out = text_between(&digits, 0, 4);
    out.append("-");
    out.append(text_between(&digits, 4, 6).as_str());
    out.append("-");
    out.append(text_between(&digits, 6, 8).as_str());
    Some(out)
}

/// Text of date characters alone has no white space to trim.
proof fn lemma_date_is_trimmed(s: Seq<char>)
    requires
        s.len() > 0,
        forall|i: int| 0 <= i < s.len() ==> date_char(#[trigger] s[i]),
    ensures
        trimmed(s) == s,
{
    assert(!white_space(s[0]));
    assert(!white_space(s.last()));
}

/// A normalized date is its own normalized date.
pub proof fn law_normalized_date_is_stable(raw: Seq<char>)
    ensures
        normalized_date(raw) matches Some(date) ==> normalized_date(date) == Some(date),
{
    if let Some(date) = normalized_date(raw) {
        lemma_date_is_trimmed(date);
        assert(date.take(10) == date);
    }
}

/// The date taken from a tag is ten characters long and is its own normalized
/// date.
pub proof fn law_tag_date_is_normalized(tag: Seq<char>)
    ensures
        tag_date(tag) matches Some(date) ==> date.len() == 10 && normalized_date(date) == Some(
            date,
        ),
{
    if let Some(date) = tag_date(tag) {
        let digits = digits_in(tag);
        reveal_strlit("-");
        assert forall|i: int| 0 <= i < digits.len() implies ascii_digit(#[trigger] digits[i]) by {
            tag.lemma_filter_pred(|c: char| ascii_digit(c), i);
        }
        assert forall|i: int| 0 <= i < date.len() implies date_char(#[trigger] date[i]) by {
            if i < 4 {
                assert(date[i] == digits[i]);
            } else if i == 4 || i == 7 {
                assert(date[i] == '-');
            } else if i < 7 {
                assert(date[i] == digits[i - 1]);
            } else {
                assert(date[i] == digits[i - 2]);
            }
        }
        lemma_date_is_trimmed(date);
        assert(date.take(10) == date);
    }
}

/// A text of ten digits and dashes, with anything behind it and white space
/// around it all, is a timestamp of that date. What behind the white space in
/// front is shorter, or has another character among its first ten, is none.
pub proof fn law_timestamp_begins_with_its_date(
    front: Seq<char>,
    date: Seq<char>,
    rest: Seq<char>,
    back: Seq<char>,
)
    requires
        forall|i: int| 0 <= i < front.len() ==> white_space(#[trigger] front[i]),
        forall|i: int| 0 <= i < back.len() ==> white_space(#[trigger] back[i]),
        date.len() == 10,
        rest.len() == 0 || !white_space(rest.last()),
        !white_space(date[0]),
        rest.len() == 0 ==> !white_space(date[9]),
    ensures
        (forall|i: int|
            0 <= i < 10 ==> (48 <= (#[trigger] date[i]) as int <= 57 || date[i] == '-'))
            ==> normalized_date(front + (date + rest) + back) == Some(date),
        (exists|i: int|
            0 <= i < 10 && !(48 <= (#[trigger] date[i]) as int <= 57 || date[i] == '-'))
            ==> normalized_date(front + (date + rest) + back) is None,
{
    let value = date + rest;
    assert(value[0] == date[0]);
    assert(value.last() == (if rest.len() == 0 {
        date[9]
    } else {
        rest.last()
    }));
    law_trimming_takes_the_white_space_around(front, value, back);
    assert(value.take(10) == date);
    assert(forall|i: int| 0 <= i < 10 ==> #[trigger] value[i] == date[i]);
    if exists|i: int| 0 <= i < 10 && !(48 <= (#[trigger] date[i]) as int <= 57 || date[i] == '-') {
        let i = choose|i: int|
            0 <= i < 10 && !(48 <= (#[trigger] date[i]) as int <= 57 || date[i] == '-');
        assert(!date_char(value[i]));
    } else {
        assert forall|i: int| 0 <= i < 10 implies date_char(#[trigger] value[i]) by {
            assert(48 <= date[i] as int <= 57 || date[i] == '-');
        }
    }
}

/// A text of fewer than ten characters has no date.
pub proof fn law_short_text_has_no_date(raw: Seq<char>)
    requires
        raw.len() < 10,
    ensures
        normalized_date(raw) is None,
{
    lemma_trimmed_len(raw);
}

/// The digits of a text are those of its parts, one behind the other; a digit by
/// itself is one, and no other character is.
pub proof fn law_digits_are_found_in_order(s: Seq<char>, c: char)
    ensures
        digits_in(Seq::empty()) == Seq::<char>::empty(),
        48 <= c as int <= 57 ==> digits_in(s.push(c)) == digits_in(s).push(c),
        !(48 <= c as int <= 57) ==> digits_in(s.push(c)) == digits_in(s),
{
    reveal(Seq::filter);
    assert(s.push(c).drop_last() == s);
}

/// The date of a tag with the digits `y y y y m m d d` in front of all its other
/// digits is `yyyy-mm-dd`; a tag with fewer than eight digits has none.
pub proof fn law_tag_date_is_made_of_its_digits(tag: Seq<char>)
    ensures
        tag_date(tag) is Some <==> digits_in(tag).len() >= 8,
        tag_date(tag) matches Some(date) ==> date == seq![
            digits_in(tag)[0],
            digits_in(tag)[1],
            digits_in(tag)[2],
            digits_in(tag)[3],
            '-',
            digits_in(tag)[4],
            digits_in(tag)[5],
            '-',
            digits_in(tag)[6],
            digits_in(tag)[7],
        ],
{
    reveal_strlit("-");
}

/// A timestamp can be cut behind its tenth byte, white space aside, just if it has
/// no tenth byte or a character ends with it.
pub proof fn law_dates_are_cut_between_characters(raw: Seq<char>)
    ensures
        date_can_be_cut(raw) <==> {
            let bytes = vstd::utf8::encode_utf8(trimmed(raw));
            bytes.len() < 10 || vstd::utf8::is_char_boundary(bytes, 10)
        },
{
}

} // verus!
