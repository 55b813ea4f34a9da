//! One attempted word, with the feedback the game gave for it.

use vstd::prelude::*;
use crate::feedback::{is_pattern, marks_of, BadInput, Feedback};

verus! {

/// A five-letter word that was tried, and the feedback for it once it is
/// known.
pub struct Guess {
    /// The letters of the word, position by position.
    pub word: [char; 5],
    /// The feedback of the game, absent until it has been supplied.
    pub feedback: Option<Feedback>,
}

impl Guess {
    /// Makes a guess, without feedback yet, of a word of exactly five
    /// characters; a word of any other length is rejected. The characters
    /// themselves are taken as they are.
    pub fn from_string(s: String) -> (result: Result<Guess, BadInput>)
        ensures
            result is Ok <==> s@.len() == 5,
            result matches Ok(guess) ==> guess.word@ == s@ && guess.feedback is None,
    {
        let mut word: Vec<char> = Vec::new();
        for c in it: s.as_str().chars()
            invariant
                it.seq() == s@,
                word@ == s@.take(it.index()),
        {
            word.push(c);
            assert(word@ =~= s@.take(it.index() + 1));
        }
        assert(word@ =~= s@);
        if word.len() != 5 {
            Err(BadInput)
        } else {
            let guess = Guess { word: [word[0], word[1], word[2], word[3], word[4]], feedback: None };
            assert(guess.word@ =~= s@);
            Ok(guess)
        }
    }

    /// Reads a feedback line and attaches it to the guess, in place of any
    /// feedback attached before. A line that is no feedback pattern is
    /// rejected, and the guess stays as it was.
    pub fn update_with_feedback(&mut self, s: String) -> (result: Result<(), BadInput>)
        ensures
            result is Ok <==> is_pattern(s@),
            final(self).word == old(self).word,
            result is Ok ==> (final(self).feedback matches Some(feedback) && feedback@ == marks_of(s@)),
            result is Err ==> final(self).feedback == old(self).feedback,
    {
        match Feedback::from_string(s) {
            Ok(feedback) => {
                self.feedback = Some(feedback);
                Ok(())
            },
            Err(e) => Err(e),
        }
    }
}

} // verus!
