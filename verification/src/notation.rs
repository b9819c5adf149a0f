//! Reading the compact notation of a month, `"<year>-<month>"`.
//!
//! The text is cut at its first `-`. What stands before it is read as the
//! year, a whole number with an optional sign; what stands after it is read
//! as the month, a whole number with an optional `+`. Nothing else is
//! accepted: no spaces, no further `-`, no empty part. A number may have any
//! number of digits.
//!
//! Since the text is cut at the first `-`, a `-` never reaches the year: a
//! year before year 0 has no notation (see `lemma_notation_of_parts`).

use vstd::prelude::*;

verus! {

/// Whether `c` is one of the digits `0` to `9`.
pub open spec fn is_digit(c: char) -> bool {
    '0' <= c <= '9'
}

/// The value of the digit `c`.
pub open spec fn digit_value(c: char) -> int {
    c as int - '0' as int
}

/// Whether `s` is a number without sign: one digit or more, and nothing else.
pub open spec fn is_number(s: Seq<char>) -> bool {
    s.len() > 0 && forall|i: int| 0 <= i < s.len() ==> is_digit(#[trigger] s[i])
}

/// The value of a run of digits, read in decimal.
pub open spec fn number_value(s: Seq<char>) -> int
    decreases s.len(),
{
    if s.len() == 0 {
        0
    } else {
        number_value(s.drop_last()) * 10 + digit_value(s.last())
    }
}

/// The value of `s` read as a whole number that may start with `+`, or
/// `None` where `s` is no such number.
pub open spec fn parse_unsigned(s: Seq<char>) -> Option<int> {
    let digits = if s.len() > 0 && s[0] == '+' {
        s.skip(1)
    } else {
        s
    };
    if is_number(digits) {
        Some(number_value(digits))
    } else {
        None
    }
}

/// The value of `s` read as a whole number that may start with `+` or `-`,
/// or `None` where `s` is no such number.
pub open spec fn parse_signed(s: Seq<char>) -> Option<int> {
    if s.len() > 0 && s[0] == '-' {
        if is_number(s.skip(1)) {
            Some(-number_value(s.skip(1)))
        } else {
            None
        }
    } else {
        parse_unsigned(s)
    }
}

/// Whether `i` is the place of the first `-` in `s`.
pub open spec fn is_first_dash(s: Seq<char>, i: int) -> bool {
    &&& 0 <= i < s.len()
    &&& s[i] == '-'
    &&& forall|j: int| 0 <= j < i ==> s[j] != '-'
}

/// Whether `s` holds a `-` at all.
pub open spec fn has_dash(s: Seq<char>) -> bool {
    exists|i: int| is_first_dash(s, i)
}

/// The place of the first `-` in `s`, where it has one.
pub open spec fn first_dash(s: Seq<char>) -> int {
    choose|i: int| is_first_dash(s, i)
}

/// The year and the month together, where both were read.
pub open spec fn pair_of(year: Option<int>, month: Option<int>) -> Option<(int, int)> {
    match (year, month) {
        (Some(year), Some(month)) => Some((year, month)),
        _ => None,
    }
}

/// The year and the month that `s` denotes, in this order, or `None` where
/// `s` is not the notation of a month.
pub open spec fn parse_notation(s: Seq<char>) -> Option<(int, int)> {
    if has_dash(s) {
        let dash: int = first_dash(s);
        pair_of(
            parse_signed(s.subrange(0, dash)),
            parse_unsigned(s.subrange(dash + 1, s.len() as int)),
        )
    } else {
        None
    }
}

/// `value`, held to the range from `low` to `high`.
pub open spec fn clamp(value: int, low: int, high: int) -> int {
    if value < low {
        low
    } else if value > high {
        high
    } else {
        value
    }
}

/// The year and the month that `s` denotes, the year held to the range of
/// `i32` and the month to that of `u32`.
pub open spec fn held_notation(s: Seq<char>) -> Option<(i32, u32)> {
    match parse_notation(s) {
        Some((year, month)) => Some(
            (
                clamp(year, i32::MIN as int, i32::MAX as int) as i32,
                clamp(month, 0, u32::MAX as int) as u32,
            ),
        ),
        None => None,
    }
}

/// A text has at most one first `-`.
pub proof fn lemma_first_dash_unique(s: Seq<char>, i: int)
    requires
        is_first_dash(s, i),
    ensures
        has_dash(s),
        first_dash(s) == i,
{
}

/// A number without sign is not negative, and more digits never make it
/// smaller.
pub proof fn lemma_number_value_grows(s: Seq<char>)
    requires
        forall|i: int| 0 <= i < s.len() ==> is_digit(#[trigger] s[i]),
    ensures
        0 <= number_value(s),
        s.len() > 0 ==> number_value(s.drop_last()) <= number_value(s),
    decreases s.len(),
{
    if s.len() > 0 {
        lemma_number_value_grows(s.drop_last());
    }
}

/// A number read without sign is not negative.
pub proof fn lemma_parse_unsigned_not_negative(s: Seq<char>)
    ensures
        parse_unsigned(s) matches Some(value) ==> value >= 0,
{
    if s.len() > 0 && s[0] == '+' {
        if is_number(s.skip(1)) {
            lemma_number_value_grows(s.skip(1));
        }
    } else if is_number(s) {
        lemma_number_value_grows(s);
    }
}

/// The month of a notation is not negative.
pub proof fn lemma_notation_month_not_negative(s: Seq<char>)
    ensures
        parse_notation(s) matches Some((year, month)) ==> month >= 0,
{
    if has_dash(s) {
        lemma_parse_unsigned_not_negative(s.subrange(first_dash(s) + 1, s.len() as int));
    }
}

/// A part without `-`, then a `-`, then a second part: this is the notation
/// of a month exactly when both parts are whole numbers that may start with
/// `+`, and these are then the year and the month. A year before year 0
/// cannot be written, for its sign would be taken for the separator.
pub proof fn lemma_notation_of_parts(year_part: Seq<char>, month_part: Seq<char>)
    requires
        forall|i: int| 0 <= i < year_part.len() ==> year_part[i] != '-',
    ensures
        parse_notation(year_part + seq!['-'] + month_part) == pair_of(
            parse_unsigned(year_part),
            parse_unsigned(month_part),
        ),
{
    let s = year_part + seq!['-'] + month_part;
    let dash: int = year_part.len() as int;
    assert forall|j: int| 0 <= j < dash implies s[j] != '-' by {
        assert(s[j] == year_part[j]);
    }
    lemma_first_dash_unique(s, dash);
    assert(s.subrange(0, dash) =~= year_part);
    assert(s.subrange(dash + 1, s.len() as int) =~= month_part);
}

/// The characters of a string, in a vector.
fn chars_of(s: &str) -> (chars: Vec<char>)
    ensures
        chars@ == s@,
{
    let mut chars: Vec<char> = Vec::new();
    for c in it: s.chars()
        invariant
            it.seq() == s@,
            chars@ == s@.take(it.index() as int),
    {
        chars.push(c);
    }
    chars
}

/// The place of the first `-` in `text`.
fn find_dash(text: &Vec<char>) -> (dash: Option<usize>)
    ensures
        dash.is_some() == has_dash(text@),
        dash matches Some(i) ==> is_first_dash(text@, i as int),
{
    let mut i: usize = 0;
    while i < text.len()
        invariant
            i <= text.len(),
            forall|j: int| 0 <= j < i ==> text@[j] != '-',
        decreases text.len() - i,
    {
        if text[i] == '-' {
            proof {
                lemma_first_dash_unique(text@, i as int);
            }
            return Some(i);
        }
        i += 1;
    }
    assert(!has_dash(text@)) by {
        if has_dash(text@) {
            let j: int = first_dash(text@);
        }
    }
    None
}

/// The greatest value that [`read_digits`] tells apart from greater ones.
const DIGITS_LIMIT: u64 = 0xffff_ffff;

/// Reads the digits of `text` from `from` up to `to`. Where there is at
/// least one character and each is a digit, the result is their value,
/// or some number above `DIGITS_LIMIT` where the value is above it.
fn read_digits(text: &Vec<char>, from: usize, to: usize) -> (value: Option<u64>)
    requires
        from <= to <= text.len(),
    ensures
        value.is_some() == is_number(text@.subrange(from as int, to as int)),
        value matches Some(v) ==> v == number_value(text@.subrange(from as int, to as int)) || (v
            > DIGITS_LIMIT && number_value(text@.subrange(from as int, to as int)) > DIGITS_LIMIT),
{
    let ghost digits = text@.subrange(from as int, to as int);
    if from == to {
        return None;
    }
    let mut value: u64 = 0;
    let mut i: usize = from;
    while i < to
        invariant
            from <= i <= to <= text.len(),
            digits == text@.subrange(from as int, to as int),
            forall|j: int| 0 <= j < i - from ==> is_digit(#[trigger] digits[j]),
            number_value(digits.take(i - from)) <= DIGITS_LIMIT ==> value == number_value(
                digits.take(i - from),
            ),
            number_value(digits.take(i - from)) > DIGITS_LIMIT ==> value > DIGITS_LIMIT,
        decreases to - i,
    {
        let c: char = text[i];
        if !(c >= '0' && c <= '9') {
            assert(!is_digit(digits[i - from]));
            return None;
        }
        proof {
            let longer = digits.take(i - from + 1);
            assert(longer.drop_last() =~= digits.take(i - from));
            lemma_number_value_grows(longer);
        }
        if value <= DIGITS_LIMIT {
            value = value * 10 + (c as u64 - '0' as u64);
        }
        i += 1;
    }
    assert(digits.take(to - from) =~= digits);
    Some(value)
}

/// Reads `text` from `from` up to `to` as a whole number that may start with
/// `+`, held to the range of `u32`.
fn read_unsigned(text: &Vec<char>, from: usize, to: usize) -> (value: Option<u32>)
    requires
        from <= to <= text.len(),
    ensures
        value.is_some() == parse_unsigned(text@.subrange(from as int, to as int)).is_some(),
        value matches Some(v) ==> v == clamp(
            parse_unsigned(text@.subrange(from as int, to as int))->0,
            0,
            u32::MAX as int,
        ),
{
    let ghost part = text@.subrange(from as int, to as int);
    let start: usize = if from < to && text[from] == '+' {
        assert(part.skip(1) =~= text@.subrange(from + 1, to as int));
        from + 1
    } else {
        from
    };
    proof {
        lemma_parse_unsigned_not_negative(part);
    }
    match read_digits(text, start, to) {
        Some(v) => if v > DIGITS_LIMIT {
            Some(u32::MAX)
        } else {
            Some(v as u32)
        },
        None => None,
    }
}

/// Reads `text` from `from` up to `to` as a whole number that may start with
/// `+` or `-`, held to the range of `i32`.
fn read_signed(text: &Vec<char>, from: usize, to: usize) -> (value: Option<i32>)
    requires
        from <= to <= text.len(),
    ensures
        value.is_some() == parse_signed(text@.subrange(from as int, to as int)).is_some(),
        value matches Some(v) ==> v == clamp(
            parse_signed(text@.subrange(from as int, to as int))->0,
            i32::MIN as int,
            i32::MAX as int,
        ),
{
    let ghost part = text@.subrange(from as int, to as int);
    if from < to && text[from] == '-' {
        assert(part.skip(1) =~= text@.subrange(from + 1, to as int));
        proof {
            if is_number(part.skip(1)) {
                lemma_number_value_grows(part.skip(1));
            }
        }
        match read_digits(text, from + 1, to) {
            Some(v) => if v > 0x8000_0000 {
                Some(i32::MIN)
            } else {
                Some((-(v as i64)) as i32)
            },
            None => None,
        }
    } else {
        proof {
            lemma_parse_unsigned_not_negative(part);
        }
        match read_unsigned(text, from, to) {
            Some(v) => if v > 0x7fff_ffff {
                Some(i32::MAX)
            } else {
                Some(v as i32)
            },
            None => None,
        }
    }
}

/// Reads the notation of a month. The result is the year and the month, in
/// this order, the year held to the range of `i32` and the month to that
/// of `u32`; or `None` where `notation` is not the notation of a month.
pub fn read_notation(notation: &str) -> (r: Option<(i32, u32)>)
    ensures
        r == held_notation(notation@),
{
    let text = chars_of(notation);
    match find_dash(&text) {
        None => None,
        Some(dash) => {
            proof {
                lemma_first_dash_unique(text@, dash as int);
            }
            match (read_signed(&text, 0, dash), read_unsigned(&text, dash + 1, text.len())) {
                (Some(year), Some(month)) => Some((year, month)),
                _ => None,
            }
        },
    }
}

} // verus!
