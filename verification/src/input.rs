//! Normalising a line of input before it is read as a guess or as feedback.

use vstd::prelude::*;

verus! {

/// Whether a character is white space, as `char::is_whitespace` decides it.
pub uninterp spec fn is_whitespace(c: char) -> bool;

/// The lower-case form of a text, as `str::to_lowercase` gives it.
pub uninterp spec fn lowercase(text: Seq<char>) -> Seq<char>;

/// `char::is_whitespace` tells whether Unicode counts the character as white
/// space. The answer depends on the character alone; that is all this
/// contract claims, by giving the answer a name.
pub assume_specification[ char::is_whitespace ](c: char) -> (answer: bool)
    ensures
        answer == is_whitespace(c),
;

/// `str::to_lowercase` returns the lower-case equivalent of the text as a new
/// `String`. The result depends on the text alone; that is all this contract
/// claims, by giving the result a name.
pub assume_specification[ str::to_lowercase ](text: &str) -> (lower: String)
    ensures
        lower@ == lowercase(text@),
;

/// `String::push` appends the character to the end of the string.
pub assume_specification[ String::push ](text: &mut String, c: char)
    ensures
        final(text)@ == old(text)@.push(c),
;

/// The text without its white-space characters.
pub open spec fn without_whitespace(text: Seq<char>) -> Seq<char> {
    text.filter(|c: char| !is_whitespace(c))
}

/// Strips every white-space character from the line and turns what is left
/// into lower case.
pub fn clean_input_string(s: &mut String)
    ensures
        final(s)@ == lowercase(without_whitespace(old(s)@)),
{
    let mut kept = String::new();
    assert(kept@ =~= without_whitespace(s@.take(0))) by {
        reveal(Seq::filter);
    }
    for c in it: s.as_str().chars()
        invariant
            it.seq() == s@,
            kept@ == without_whitespace(s@.take(it.index())),
    {
        let ghost before = kept@;
        let skipped = c.is_whitespace();
        if !skipped {
            kept.push(c);
        }
        proof {
            reveal(Seq::filter);
            let next = s@.take(it.index() + 1);
            assert(next.drop_last() =~= s@.take(it.index()));
            assert(next.last() == c);
        }
    }
    assert(s@.take(s@.len() as int) =~= s@);
    *s = kept.as_str().to_lowercase();
}

} // verus!
