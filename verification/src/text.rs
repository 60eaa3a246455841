//! Small helpers on texts.

use vstd::prelude::*;
use vstd::string::StringExecFns;

verus! {

/// Appends one character to a text.
///
/// Calls `String::push` of the standard library, which is trusted to append
/// exactly the character it is given.
#[verifier::external_body]
pub(crate) fn push_char(text: &mut String, c: char)
    ensures
        final(text)@ == old(text)@.push(c),
{
    text.push(c)
}

/// The characters of a text.
pub fn chars_of(text: &str) -> (chars: Vec<char>)
    ensures
        chars@ == text@,
{
    let mut chars: Vec<char> = Vec::new();
    for c in it: text.chars()
        invariant
            it.seq() == text@,
            chars@ == it.seq().take(it.index() as int),
    {
        chars.push(c);
    }
    assert(chars@ == text@.take(text@.len() as int));
    chars
}

/// The text made of the characters of `chars` from `from` up to `to`.
pub fn text_between(chars: &Vec<char>, from: usize, to: usize) -> (text: String)
    requires
        from <= to <= chars.len(),
    ensures
        text@ == chars@.subrange(from as int, to as int),
{
    let mut text: String = String::new();
    let mut next: usize = from;
    while next < to
        invariant
            from <= next <= to <= chars.len(),
            text@ == chars@.subrange(from as int, next as int),
        decreases to - next,
    {
        push_char(&mut text, chars[next]);
        assert(chars@.subrange(from as int, next + 1) == chars@.subrange(
            from as int,
            next as int,
        ).push(chars@[next as int]));
        next = next + 1;
    }
    text
}

/// Appends a text to a text.
pub fn push_text(text: &mut String, more: &str)
    ensures
        final(text)@ == old(text)@ + more@,
{
    text.append(more);
}

/// Whether two texts are the same.
pub fn same_text(left: &str, right: &str) -> (same: bool)
    ensures
        same == (left@ == right@),
{
    let left_chars: Vec<char> = chars_of(left);
    let right_chars: Vec<char> = chars_of(right);
    if left_chars.len() != right_chars.len() {
        return false;
    }
    let mut next: usize = 0;
    while next < left_chars.len()
        invariant
            next <= left_chars.len(),
            left_chars.len() == right_chars.len(),
            left_chars@ == left@,
            right_chars@ == right@,
            left@.take(next as int) == right@.take(next as int),
        decreases left_chars.len() - next,
    {
        if left_chars[next] != right_chars[next] {
            return false;
        }
        assert(left@.take(next + 1) == left@.take(next as int).push(left@[next as int]));
        assert(right@.take(next + 1) == right@.take(next as int).push(right@[next as int]));
        next = next + 1;
    }
    assert(left@.take(next as int) == left@);
    assert(right@.take(next as int) == right@);
    true
}

/// Whether a character is one of the ten decimal digits.
pub open spec fn is_digit(c: char) -> bool {
    '0' <= c <= '9'
}

/// The number that decimal digits write, the empty row writing zero.
pub open spec fn decimal_value(digits: Seq<char>) -> nat
    decreases digits.len(),
{
    if digits.len() == 0 {
        0
    } else {
        (10 * decimal_value(digits.drop_last()) + (digits.last() as u32 - '0' as u32)) as nat
    }
}

/// A text without the plus sign that may lead it.
pub open spec fn unsigned_part(text: Seq<char>) -> Seq<char> {
    if text.len() > 0 && text[0] == '+' {
        text.drop_first()
    } else {
        text
    }
}

/// The number up to `most` that a text writes in decimal: one digit or
/// more, after a plus sign or none, and nothing else. Nothing where the text
/// is of another shape or writes a larger number.
pub open spec fn parsed_decimal(text: Seq<char>, most: nat) -> Option<nat> {
    let digits = unsigned_part(text);
    if digits.len() > 0 && (forall|at: int| 0 <= at < digits.len() ==> is_digit(#[trigger] digits[at]))
        && decimal_value(digits) <= most {
        Some(decimal_value(digits))
    } else {
        None
    }
}

/// The 16-bit unsigned number that a text writes in decimal.
pub open spec fn parsed_u16(text: Seq<char>) -> Option<u16> {
    match parsed_decimal(text, u16::MAX as nat) {
        Some(value) => Some(value as u16),
        None => None,
    }
}

/// The 64-bit unsigned number that a text writes in decimal.
pub open spec fn parsed_u64(text: Seq<char>) -> Option<u64> {
    match parsed_decimal(text, u64::MAX as nat) {
        Some(value) => Some(value as u64),
        None => None,
    }
}

/// Reads a 16-bit unsigned number with `str::parse` of the standard
/// library.
///
/// Trusted, as the library documents it: a text parses exactly if it is an
/// optional plus sign followed by decimal digits, at least one and nothing
/// else, that write a number of 16 bits; it then parses to that number.
#[verifier::external_body]
pub(crate) fn parse_u16(text: &str) -> (value: Option<u16>)
    ensures
        value == parsed_u16(text@),
{
    text.parse::<u16>().ok()
}

/// Reads a 64-bit unsigned number with `str::parse` of the standard
/// library.
///
/// Trusted, as the library documents it: a text parses exactly if it is an
/// optional plus sign followed by decimal digits, at least one and nothing
/// else, that write a number of 64 bits; it then parses to that number.
#[verifier::external_body]
pub(crate) fn parse_u64(text: &str) -> (value: Option<u64>)
    ensures
        value == parsed_u64(text@),
{
    text.parse::<u64>().ok()
}

} // verus!
