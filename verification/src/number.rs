//! The text of a JSON number.

use vstd::prelude::*;
use vstd::string::*;

verus! {

/// One of the ten decimal digits.
pub open spec fn is_digit(c: char) -> bool {
    48 <= c as u32 <= 57
}

/// The first place at or after `from` that holds no digit.
pub open spec fn digits_end(text: Seq<char>, from: int) -> int
    decreases text.len() - from,
{
    if 0 <= from < text.len() && is_digit(text[from]) {
        digits_end(text, from + 1)
    } else {
        from
    }
}

/// The place after the optional minus sign.
pub open spec fn after_sign(text: Seq<char>) -> int {
    if text.len() > 0 && text[0] == '-' {
        1
    } else {
        0
    }
}

/// The place after the integer part: a single zero, or a digit that is not
/// zero followed by any digits. `None` where there is no integer part.
pub open spec fn after_integer(text: Seq<char>) -> Option<int> {
    let start = after_sign(text);
    if start < text.len() && text[start] == '0' {
        Some(start + 1)
    } else if start < text.len() && is_digit(text[start]) {
        Some(digits_end(text, start))
    } else {
        None
    }
}

/// The place after the optional fraction: a point followed by at least
/// one digit. `None` where a point is followed by no digit.
pub open spec fn after_fraction(text: Seq<char>, from: int) -> Option<int> {
    if 0 <= from < text.len() && text[from] == '.' {
        if from + 1 < text.len() && is_digit(text[from + 1]) {
            Some(digits_end(text, from + 1))
        } else {
            None
        }
    } else {
        Some(from)
    }
}

/// The place after the optional exponent: `e` or `E`, an optional sign and
/// at least one digit. `None` where the digits are missing.
pub open spec fn after_exponent(text: Seq<char>, from: int) -> Option<int> {
    if 0 <= from < text.len() && (text[from] == 'e' || text[from] == 'E') {
        let digits = if from + 1 < text.len() && (text[from + 1] == '+' || text[from + 1] == '-') {
            from + 2
        } else {
            from + 1
        };
        if digits < text.len() && is_digit(text[digits]) {
            Some(digits_end(text, digits))
        } else {
            None
        }
    } else {
        Some(from)
    }
}

/// The text is a JSON number: an optional minus sign, an integer part
/// without a leading zero, an optional fraction and an optional exponent,
/// and nothing else.
pub open spec fn is_json_number(text: Seq<char>) -> bool {
    match after_integer(text) {
        Some(integer) => match after_fraction(text, integer) {
            Some(fraction) => after_exponent(text, fraction) == Some(text.len() as int),
            None => false,
        },
        None => false,
    }
}

/// The run of digits from `from` on lies within the text.
pub proof fn lemma_digits_end_bounds(text: Seq<char>, from: int)
    requires
        0 <= from <= text.len(),
    ensures
        from <= digits_end(text, from) <= text.len(),
    decreases text.len() - from,
{
    if from < text.len() && is_digit(text[from]) {
        lemma_digits_end_bounds(text, from + 1);
    }
}

/// Whether a character is a decimal digit.
fn digit(c: char) -> (yes: bool)
    ensures
        yes == is_digit(c),
{
    let code = c as u32;
    48 <= code && code <= 57
}

/// The first place at or after `from` that holds no digit.
fn skip_digits(text: &str, len: usize, from: usize) -> (end: usize)
    requires
        len == text@.len(),
        from <= len,
    ensures
        end == digits_end(text@, from as int),
        from <= end <= len,
{
    let mut at = from;
    proof {
        lemma_digits_end_bounds(text@, from as int);
    }
    while at < len && digit(text.get_char(at))
        invariant
            len == text@.len(),
            from <= at <= len,
            digits_end(text@, at as int) == digits_end(text@, from as int),
        decreases len - at,
    {
        at += 1;
    }
    at
}

/// Whether a text is a JSON number.
pub fn is_number_text(text: &str) -> (yes: bool)
    ensures
        yes == is_json_number(text@),
{
    let len = text.unicode_len();
    let start: usize = if len > 0 && text.get_char(0) == '-' {
        1
    } else {
        0
    };
    if start >= len {
        return false;
    }
    let first = text.get_char(start);
    let integer: usize = if first == '0' {
        start + 1
    } else if digit(first) {
        skip_digits(text, len, start)
    } else {
        return false;
    };
    let fraction: usize = if integer < len && text.get_char(integer) == '.' {
        if integer + 1 < len && digit(text.get_char(integer + 1)) {
            skip_digits(text, len, integer + 1)
        } else {
            return false;
        }
    } else {
        integer
    };
    if fraction < len && (text.get_char(fraction) == 'e' || text.get_char(fraction) == 'E') {
        let digits: usize = if fraction + 1 < len && (text.get_char(fraction + 1) == '+'
            || text.get_char(fraction + 1) == '-') {
            fraction + 2
        } else {
            fraction + 1
        };
        if digits < len && digit(text.get_char(digits)) {
            skip_digits(text, len, digits) == len
        } else {
            false
        }
    } else {
        fraction == len
    }
}

} // verus!
