//! Small questions about text.
use vstd::prelude::*;
use vstd::std_specs::iter::IteratorSpec;

verus! {

/// Whether a character has Unicode's White_Space property.
pub open spec fn is_white_space(c: char) -> bool {
    let code = c as u32;
    ||| 0x9 <= code <= 0xd
    ||| code == 0x20
    ||| code == 0x85
    ||| code == 0xa0
    ||| code == 0x1680
    ||| 0x2000 <= code <= 0x200a
    ||| 0x2028 <= code <= 0x2029
    ||| code == 0x202f
    ||| code == 0x205f
    ||| code == 0x3000
}

/// `char::is_whitespace` tells whether a character has the White_Space property, which the Unicode
/// Character Database gives to the characters that `is_white_space` lists.
pub assume_specification[ char::is_whitespace ](c: char) -> (space: bool)
    ensures
        space == is_white_space(c),
;

/// Whether a text holds nothing but white space.
pub open spec fn blank(text: Seq<char>) -> bool {
    forall|i: int| 0 <= i < text.len() ==> is_white_space(#[trigger] text[i])
}

/// Tells whether `text` is empty once the white space at its ends is trimmed off.
pub fn is_blank(text: &str) -> (answer: bool)
    ensures
        answer == blank(text@),
        answer == (forall|i: int| 0 <= i < text@.len() ==> is_white_space(#[trigger] text@[i])),
{
    for c in it: text.chars()
        invariant
            it.seq() == text@,
            forall|i: int| 0 <= i < it.index() ==> is_white_space(#[trigger] text@[i]),
    {
        if !c.is_whitespace() {
            return false;
        }
    }
    true
}

/// Tells whether `text` begins with `prefix`.
pub fn starts_with(text: &str, prefix: &str) -> (answer: bool)
    ensures
        answer == prefix@.is_prefix_of(text@),
{
    let mut rest = text.chars();
    for c in it: prefix.chars()
        invariant
            it.seq() == prefix@,
            it.index() <= text@.len(),
            rest.remaining() == text@.skip(it.index() as int),
            rest.obeys_prophetic_iter_laws(),
            prefix@.take(it.index() as int) == text@.take(it.index() as int),
    {
        match rest.next() {
            Some(d) => {
                if c != d {
                    return false;
                }
            },
            None => {
                return false;
            },
        }
    }
    true
}

/// The first `count` characters of `text`, or all of them where there are fewer.
pub open spec fn first_chars(text: Seq<char>, count: int) -> Seq<char> {
    if text.len() <= count {
        text
    } else {
        text.take(count)
    }
}

/// Copies the first `count` characters of `text`, or all of them where there are fewer.
pub fn take_chars(text: &str, count: usize) -> (taken: String)
    ensures
        taken@ == first_chars(text@, count as int),
        taken@.is_prefix_of(text@),
        taken@.len() == count || (taken@.len() < count && taken@ == text@),
{
    if text.unicode_len() <= count {
        text.to_owned()
    } else {
        text.substring_char(0, count).to_owned()
    }
}

} // verus!
