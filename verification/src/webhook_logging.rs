//! The text of an operational log line.

use crate::constants::{BACKGROUND, FAILURE, INFORMATIONAL, LOG, SUCCESSFUL};
use crate::text::{push_char, push_text};
use vstd::prelude::*;

verus! {

/// The escape sequence that colours the words of a log line of a kind.
pub open spec fn log_colour(log_type: LOG) -> Seq<char> {
    match log_type {
        LOG::SUCCESSFUL => SUCCESSFUL@,
        LOG::INFORMATIONAL => INFORMATIONAL@,
        LOG::FAILURE => FAILURE@,
    }
}

/// What one character of a line becomes: a space starts a new word, which
/// is coloured again; every other character stays.
pub open spec fn coloured_char(c: char, colour: Seq<char>) -> Seq<char> {
    if c == ' ' {
        seq![' '] + colour
    } else {
        seq![c]
    }
}

/// A line with each of its words, as single spaces part them, coloured.
pub open spec fn coloured(content: Seq<char>, colour: Seq<char>) -> Seq<char> {
    colour + content.flat_map(|c: char| coloured_char(c, colour))
}

/// The text that is sent for a log line: a code block that holds the
/// background and the coloured words.
pub open spec fn webhook_text(content: Seq<char>, log_type: LOG) -> Seq<char> {
    "```ansi\n"@ + BACKGROUND@ + coloured(content, log_colour(log_type)) + "```"@
}

/// The escape sequence that colours the words of a log line of a kind.
pub fn colour_of(log_type: LOG) -> (colour: &'static str)
    ensures
        colour@ == log_colour(log_type),
{
    match log_type {
        LOG::SUCCESSFUL => SUCCESSFUL,
        LOG::INFORMATIONAL => INFORMATIONAL,
        LOG::FAILURE => FAILURE,
    }
}

/// Builds the text that is sent for a log line of a kind: the line in a
/// code block, on the background, each of its words in the colour of the
/// kind.
pub fn webhook_log(content: &str, log_type: LOG) -> (text: String)
    ensures
        text@ == webhook_text(content@, log_type),
{
    let colour: &'static str = colour_of(log_type);
    let mut text: String = String::new();
    push_text(&mut text, "```ansi\n");
    push_text(&mut text, BACKGROUND);
    push_text(&mut text, colour);
    let ghost head = text@;
    let ghost each = |c: char| coloured_char(c, colour@);
    assert(content@.take(0).flat_map(each) == Seq::<char>::empty());
    for c in it: content.chars()
        invariant
            it.seq() == content@,
            each == |c: char| coloured_char(c, colour@),
            text@ == head + it.seq().take(it.index() as int).flat_map(each),
    {
        proof {
            content@.lemma_flat_map_take_append(each, it.index() as int);
        }
        if c == ' ' {
            push_char(&mut text, ' ');
            push_text(&mut text, colour);
        } else {
            push_char(&mut text, c);
        }
    }
    assert(content@.take(content@.len() as int) == content@);
    push_text(&mut text, "```");
    text
}

} // verus!
