//! The knowledge accumulated over a session, kept in executable form, and
//! the test of candidate words against it.

use std::collections::HashSet;
use vstd::prelude::*;
use vstd::std_specs::iter::IteratorSpec;
use vstd::utf8::is_scalar;
use crate::feedback::MatchOption;
use crate::guess::Guess;
use crate::knowledge::{are_words, is_subsequence, lemma_learn_first_none, lemma_marked_step, Knowledge};
use crate::laws::lemma_filter_is_subsequence;

verus! {

/// The code point of a letter, under which the hash sets keep it.
spec fn code_of(c: char) -> u32 {
    c as u32
}

/// The letters whose code points are in `codes`.
spec fn letters(codes: Set<u32>) -> Set<char> {
    Set::new(|c: char| codes.contains(code_of(c)))
}

/// The code points of the first `n` letters of `word`.
spec fn codes_of(word: Seq<char>, n: int) -> Set<u32> {
    Set::new(|code: u32| exists|i: int| 0 <= i < n && #[trigger] code_of(word[i]) == code)
}

/// Code points tell letters apart, and the code point of a letter is a
/// Unicode scalar value that leads back to the letter.
proof fn lemma_code_of(a: char, b: char)
    ensures
        code_of(a) == code_of(b) ==> a == b,
        is_scalar(code_of(a)),
        code_of(a) as char == a,
{
}

/// A Unicode scalar value is the code point of the letter it stands for.
proof fn lemma_letter_of(code: u32)
    requires
        is_scalar(code),
    ensures
        code_of(code as char) == code,
{
}

/// Accumulates what every guess and its feedback reveal about the solution,
/// and tests candidate words against it.
///
/// Letters are kept in the hash sets by their code points.
pub struct Matcher {
    cannot_be: [HashSet<u32>; 5],
    must_be: [Option<char>; 5],
    must_contain: HashSet<u32>,
}

impl View for Matcher {
    type V = Knowledge;

    closed spec fn view(&self) -> Knowledge {
        Knowledge {
            forbidden_at: Seq::new(5, |i: int| letters(self.cannot_be@[i]@)),
            fixed_at: self.must_be@,
            must_contain: letters(self.must_contain@),
        }
    }
}

impl Matcher {
    /// The matcher is well formed: only code points of letters are kept
    /// among the required ones.
    pub closed spec fn wf(&self) -> bool {
        forall|code: u32| self.must_contain@.contains(code) ==> is_scalar(code)
    }

    /// A matcher that knows nothing yet: it accepts every word.
    pub fn new() -> (matcher: Matcher)
        ensures
            matcher.wf(),
            matcher@ == Knowledge::empty(),
    {
        let matcher = Matcher {
            cannot_be: [
                HashSet::new(),
                HashSet::new(),
                HashSet::new(),
                HashSet::new(),
                HashSet::new(),
            ],
            must_be: [None; 5],
            must_contain: HashSet::new(),
        };
        assert(matcher@ =~~= Knowledge::empty());
        matcher
    }

    /// Forbids the letter `c` at every position.
    fn forbid_everywhere(&mut self, c: char)
        ensures
            final(self).must_be == old(self).must_be,
            final(self).must_contain == old(self).must_contain,
            forall|j: int|
                0 <= j < 5 ==> (#[trigger] final(self).cannot_be@[j])@ == old(self).cannot_be@[j]@.insert(
                    c as u32,
                ),
    {
        for j in 0..5
            invariant
                self.must_be == old(self).must_be,
                self.must_contain == old(self).must_contain,
                forall|i: int|
                    0 <= i < j ==> (#[trigger] self.cannot_be@[i])@ == old(self).cannot_be@[i]@.insert(
                        c as u32,
                    ),
                forall|i: int| j <= i < 5 ==> #[trigger] self.cannot_be@[i] == old(self).cannot_be@[i],
        {
            self.cannot_be[j].insert(c as u32);
        }
    }

    /// Takes one guess into account. Position by position, a `Correct` mark
    /// fixes the letter there (replacing a letter fixed there earlier), a
    /// `WrongPlace` mark forbids the letter there and requires it somewhere,
    /// and a `WrongLetter` mark forbids the letter at every position. A guess
    /// without feedback changes nothing.
    pub fn update(&mut self, guess: Guess)
        requires
            old(self).wf(),
        ensures
            final(self).wf(),
            final(self)@ == match guess.feedback {
                Some(feedback) => old(self)@.learn(guess.word@, feedback@),
                None => old(self)@,
            },
    {
        match guess.feedback {
            Some(feedback) => {
                let ghost before = self@;
                let ghost word = guess.word@;
                let ghost marks = feedback@;
                proof {
                    lemma_learn_first_none(before, word, marks);
                }
                for idx in 0..5
                    invariant
                        self.wf(),
                        word == guess.word@,
                        marks == feedback@,
                        self@ == before.learn_first(word, marks, idx as int),
                {
                    let c = guess.word[idx];
                    let ghost prev = *self;
                    match feedback.pattern[idx] {
                        MatchOption::Correct => {
                            self.must_be[idx] = Some(c);
                        },
                        MatchOption::WrongPlace => {
                            self.cannot_be[idx].insert(c as u32);
                            self.must_contain.insert(c as u32);
                        },
                        MatchOption::WrongLetter => {
                            self.forbid_everywhere(c);
                        },
                    }
                    proof {
                        lemma_code_of(c, c);
                        let next = before.learn_first(word, marks, idx + 1);
                        assert forall|j: int, d: char| 0 <= j < 5 implies self@.forbidden_at[j].contains(d)
                            == next.forbidden_at[j].contains(d) by {
                            lemma_code_of(d, c);
                            lemma_marked_step(word, marks, idx as int, MatchOption::WrongLetter, d);
                            assert(prev@.forbidden_at[j].contains(d) == prev.cannot_be@[j]@.contains(
                                code_of(d),
                            ));
                        }
                        assert forall|d: char|
                            self@.must_contain.contains(d) == next.must_contain.contains(d) by {
                            lemma_code_of(d, c);
                            lemma_marked_step(word, marks, idx as int, MatchOption::WrongPlace, d);
                            assert(prev@.must_contain.contains(d) == prev.must_contain@.contains(
                                code_of(d),
                            ));
                        }
                        assert(self@ =~~= next);
                    }
                }
            },
            None => {},
        }
    }

    /// Tests a five-letter word against everything learned so far: each
    /// fixed letter must stand at its position, no letter may stand where
    /// it is forbidden, and every required letter must occur in the word.
    /// The matcher is left as it is.
    pub fn is_match(&self, word: &str) -> (accepted: bool)
        requires
            self.wf(),
            word@.len() == 5,
        ensures
            accepted == self@.accepts(word@),
    {
        let mut word_codes: HashSet<u32> = HashSet::new();
        let mut idx: usize = 0;
        for c in it: word.chars()
            invariant
                it.seq() == word@,
                word@.len() == 5,
                idx == it.index(),
                forall|i: int| 0 <= i < idx ==> #[trigger] self@.allows_at(word@, i),
                word_codes@ == codes_of(word@, idx as int),
        {
            match self.must_be[idx] {
                Some(must_be_this_char) => {
                    if c != must_be_this_char {
                        assert(!self@.allows_at(word@, idx as int));
                        return false;
                    }
                },
                None => {},
            }
            if self.cannot_be[idx].contains(&(c as u32)) {
                assert(!self@.allows_at(word@, idx as int));
                return false;
            }
            word_codes.insert(c as u32);
            assert(word_codes@ =~= codes_of(word@, idx + 1)) by {
                assert(code_of(word@[idx as int]) == c as u32);
            }
            idx += 1;
        }
        let ghost required: Seq<u32> = self.must_contain.iter().remaining().unref();
        let ghost mut checked: int = 0;
        for code in it: self.must_contain.iter()
            invariant
                self.wf(),
                it.seq().unref() == required,
                required.to_set() == self.must_contain@,
                checked == it.index(),
                0 <= checked <= required.len(),
                word@.len() == 5,
                word_codes@ == codes_of(word@, 5),
                forall|i: int| 0 <= i < checked ==> word_codes@.contains(#[trigger] required[i]),
        {
            assert(required[checked] == *code);
            if !word_codes.contains(code) {
                let ghost missing = *code as char;
                proof {
                    lemma_letter_of(*code);
                }
                assert(self@.must_contain.contains(missing));
                assert(!word@.contains(missing)) by {
                    if word@.contains(missing) {
                        let i = choose|i: int| 0 <= i < 5 && word@[i] == missing;
                        assert(code_of(word@[i]) == *code);
                    }
                }
                return false;
            }
            proof {
                checked = checked + 1;
            }
        }
        assert forall|c: char| self@.must_contain.contains(c) implies #[trigger] word@.contains(c) by {
            let code = code_of(c);
            assert(required.to_set().contains(code));
            let k = choose|k: int| 0 <= k < required.len() && required[k] == code;
            assert(word_codes@.contains(required[k]));
            let i = choose|i: int| 0 <= i < 5 && #[trigger] code_of(word@[i]) == code;
            lemma_code_of(word@[i], c);
        }
        true
    }

    /// Keeps the words that are consistent with everything learned so far,
    /// in the order in which `words` lists them. Every word must have five
    /// letters.
    pub fn filter<'a>(&self, words: Vec<&'a String>) -> (kept: Vec<&'a String>)
        requires
            self.wf(),
            are_words(words.deep_view()),
        ensures
            kept.deep_view() == self@.filter(words.deep_view()),
            is_subsequence(kept.deep_view(), words.deep_view()),
    {
        let ghost all = words.deep_view();
        let mut kept: Vec<&'a String> = Vec::new();
        assert(kept.deep_view() =~= self@.filter(all.take(0))) by {
            reveal(Seq::filter);
        }
        for i in 0..words.len()
            invariant
                self.wf(),
                all == words.deep_view(),
                are_words(all),
                kept.deep_view() == self@.filter(all.take(i as int)),
        {
            let word = words[i];
            let ghost before = kept.deep_view();
            assert(all[i as int] == word@);
            let accepted = self.is_match(word.as_str());
            if accepted {
                kept.push(word);
            }
            proof {
                reveal(Seq::filter);
                let next = all.take(i + 1);
                assert(next.drop_last() =~= all.take(i as int));
                assert(kept.deep_view() =~= if accepted {
                    before.push(word@)
                } else {
                    before
                });
            }
        }
        proof {
            assert(all.take(words.len() as int) =~= all);
            lemma_filter_is_subsequence(self@, all);
        }
        kept
    }
}

} // verus!
