//! Preparing a reply for speech synthesis.

use vstd::prelude::*;
use vstd::std_specs::iter::IteratorSpec;

verus! {

/// What `char::is_alphanumeric` answers for `c`.
pub uninterp spec fn alphanumeric(c: char) -> bool;

/// What `char::is_whitespace` answers for `c`.
pub uninterp spec fn whitespace(c: char) -> bool;

/// The ASCII punctuation characters: `!` to `/`, `:` to `@`, `[` to the
/// backtick, `{` to `~`.
pub open spec fn ascii_punctuation(c: char) -> bool {
    let code = c as u32;
    ||| 0x21 <= code <= 0x2F
    ||| 0x3A <= code <= 0x40
    ||| 0x5B <= code <= 0x60
    ||| 0x7B <= code <= 0x7E
}

/// A character that is passed on to speech synthesis: a letter or digit,
/// white space, or ASCII punctuation.
pub open spec fn speakable(c: char) -> bool {
    alphanumeric(c) || whitespace(c) || ascii_punctuation(c)
}

/// The speakable characters of `text`, in their order.
pub open spec fn speakable_part(text: Seq<char>) -> Seq<char>
    decreases text.len(),
{
    if text.len() == 0 {
        Seq::empty()
    } else if speakable(text.last()) {
        speakable_part(text.drop_last()).push(text.last())
    } else {
        speakable_part(text.drop_last())
    }
}

/// `char::is_alphanumeric`: whether the character is alphabetic or numeric
/// by the Unicode tables of the standard library. The answer depends on the
/// character alone and is given a name.
pub assume_specification[ char::is_alphanumeric ](c: char) -> (answer: bool)
    ensures
        answer == alphanumeric(c),
;

/// `char::is_whitespace`: whether the character has the Unicode property
/// `White_Space`. The answer depends on the character alone and is given a
/// name.
pub assume_specification[ char::is_whitespace ](c: char) -> (answer: bool)
    ensures
        answer == whitespace(c),
;

/// `String::push`: appends one character to the end of the string.
pub assume_specification[ String::push ](text: &mut String, c: char)
    ensures
        final(text)@ == old(text)@.push(c),
;

/// Whether `c` is an ASCII punctuation character.
pub fn is_ascii_punctuation(c: char) -> (answer: bool)
    ensures
        answer == ascii_punctuation(c),
{
    let code: u32 = c as u32;
    (0x21 <= code && code <= 0x2F) || (0x3A <= code && code <= 0x40) || (0x5B <= code && code
        <= 0x60) || (0x7B <= code && code <= 0x7E)
}

/// Whether `c` is passed on to speech synthesis.
pub fn is_speakable(c: char) -> (keep: bool)
    ensures
        keep == speakable(c),
{
    c.is_alphanumeric() || c.is_whitespace() || is_ascii_punctuation(c)
}

/// `reply` without the characters that are not speakable; the others stay
/// in their order.
pub fn speakable_text(reply: &str) -> (cleaned: String)
    ensures
        cleaned@ == speakable_part(reply@),
{
    broadcast use vstd::string::axiom_spec_iter;
    broadcast use vstd::string::next_postcondition;

    let mut cleaned = String::new();
    let mut chars = reply.chars();
    let ghost mut seen: int = 0;
    loop
        invariant
            0 <= seen <= reply@.len(),
            chars.remaining() == reply@.skip(seen),
            cleaned@ == speakable_part(reply@.take(seen)),
        ensures
            cleaned@ == speakable_part(reply@),
        decreases reply@.len() - seen,
    {
        match chars.next() {
            None => {
                proof {
                    assert(reply@.take(seen) =~= reply@);
                }
                break ;
            },
            Some(c) => {
                proof {
                    assert(reply@.take(seen + 1).drop_last() =~= reply@.take(seen));
                    assert(reply@.take(seen + 1).last() == c);
                    assert(reply@.skip(seen).drop_first() =~= reply@.skip(seen + 1));
                    seen = seen + 1;
                }
                if is_speakable(c) {
                    cleaned.push(c);
                }
            },
        }
    }
    cleaned
}

} // verus!
