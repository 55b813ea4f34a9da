//! The mathematical model of what the feedback seen so far has revealed.

use vstd::prelude::*;
use crate::feedback::MatchOption;

verus! {

/// Everything a sequence of guesses has revealed about the solution.
///
/// The two sequences have one entry per position of a word.
#[verifier::ext_equal]
pub struct Knowledge {
    /// For each position, the letters known not to stand there.
    pub forbidden_at: Seq<Set<char>>,
    /// For each position, the letter known to stand there, if any.
    pub fixed_at: Seq<Option<char>>,
    /// The letters known to occur somewhere in the solution.
    pub must_contain: Set<char>,
}

/// Position `i` of the guess `word` holds the letter `c` and carries the mark `m`.
pub open spec fn marked_at(
    word: Seq<char>,
    marks: Seq<MatchOption>,
    i: int,
    m: MatchOption,
    c: char,
) -> bool {
    marks[i] == m && word[i] == c
}

/// One of the first `n` positions of the guess `word` holds the letter `c` and
/// carries the mark `m`.
pub open spec fn marked(
    word: Seq<char>,
    marks: Seq<MatchOption>,
    n: int,
    m: MatchOption,
    c: char,
) -> bool {
    exists|i: int| 0 <= i < n && #[trigger] marked_at(word, marks, i, m, c)
}

/// `sub` can be obtained from `full` by deleting elements: some strictly
/// increasing choice of positions of `full` spells out `sub`.
pub open spec fn is_subsequence<A>(sub: Seq<A>, full: Seq<A>) -> bool {
    exists|at: Seq<int>| #[trigger] embeds(sub, full, at)
}

/// `at` lists, in increasing order, positions of `full` that spell out `sub`.
pub open spec fn embeds<A>(sub: Seq<A>, full: Seq<A>, at: Seq<int>) -> bool {
    &&& at.len() == sub.len()
    &&& forall|i: int| 0 <= i < at.len() ==> 0 <= #[trigger] at[i] < full.len() && sub[i] == full[at[i]]
    &&& forall|i: int, j: int| 0 <= i < j < at.len() ==> #[trigger] at[i] < #[trigger] at[j]
}

/// Every word of the list has one letter per position.
pub open spec fn are_words(words: Seq<Seq<char>>) -> bool {
    forall|i: int| 0 <= i < words.len() ==> (#[trigger] words[i]).len() == Knowledge::word_len()
}

impl Knowledge {
    /// The number of positions of a word.
    pub open spec fn word_len() -> nat {
        5
    }

    /// Both sequences have one entry per position.
    pub open spec fn wf(self) -> bool {
        &&& self.forbidden_at.len() == Self::word_len()
        &&& self.fixed_at.len() == Self::word_len()
    }

    /// What is known before any guess: nothing.
    pub open spec fn empty() -> Knowledge {
        Knowledge {
            forbidden_at: Seq::new(Self::word_len(), |i: int| Set::empty()),
            fixed_at: Seq::new(Self::word_len(), |i: int| None),
            must_contain: Set::empty(),
        }
    }

    /// The knowledge after the first `n` positions of a guess and its marks
    /// have been taken into account.
    ///
    /// A `Correct` mark fixes the letter at its position, replacing what was
    /// fixed there before. A `WrongPlace` mark forbids the letter at its
    /// position and requires it somewhere. A `WrongLetter` mark forbids the
    /// letter at every position, whatever other marks the same letter
    /// carries in the guess.
    pub open spec fn learn_first(self, word: Seq<char>, marks: Seq<MatchOption>, n: int) -> Knowledge {
        Knowledge {
            forbidden_at: Seq::new(
                Self::word_len(),
                |j: int|
                    Set::new(
                        |c: char|
                            self.forbidden_at[j].contains(c) || (j < n && marked_at(
                                word,
                                marks,
                                j,
                                MatchOption::WrongPlace,
                                c,
                            )) || marked(word, marks, n, MatchOption::WrongLetter, c),
                    ),
            ),
            fixed_at: Seq::new(
                Self::word_len(),
                |i: int|
                    if i < n && marks[i] == MatchOption::Correct {
                        Some(word[i])
                    } else {
                        self.fixed_at[i]
                    },
            ),
            must_contain: Set::new(
                |c: char|
                    self.must_contain.contains(c) || marked(
                        word,
                        marks,
                        n,
                        MatchOption::WrongPlace,
                        c,
                    ),
            ),
        }
    }

    /// The knowledge after a whole guess and its marks have been taken into
    /// account.
    pub open spec fn learn(self, word: Seq<char>, marks: Seq<MatchOption>) -> Knowledge {
        self.learn_first(word, marks, Self::word_len() as int)
    }

    /// Position `i` of `word` agrees with what is known of that position.
    pub open spec fn allows_at(self, word: Seq<char>, i: int) -> bool {
        &&& self.fixed_at[i] matches Some(c) ==> word[i] == c
        &&& !self.forbidden_at[i].contains(word[i])
    }

    /// `word` is consistent with everything known: each of its positions
    /// agrees with what is known of it, and every required letter occurs in it.
    pub open spec fn accepts(self, word: Seq<char>) -> bool
        recommends
            word.len() == Self::word_len(),
    {
        &&& forall|i: int| 0 <= i < Self::word_len() ==> #[trigger] self.allows_at(word, i)
        &&& forall|c: char| self.must_contain.contains(c) ==> #[trigger] word.contains(c)
    }

    /// The five-letter words that are consistent with everything known.
    pub open spec fn candidates(self) -> Set<Seq<char>> {
        Set::new(|w: Seq<char>| w.len() == Self::word_len() && self.accepts(w))
    }

    /// The words of `words` that are consistent with everything known, in the
    /// order in which `words` lists them.
    pub open spec fn filter(self, words: Seq<Seq<char>>) -> Seq<Seq<char>> {
        words.filter(|w: Seq<char>| self.accepts(w))
    }

    /// The guess fixes, at some position, another letter than the one fixed
    /// there so far.
    pub open spec fn overwritten_by(self, word: Seq<char>, marks: Seq<MatchOption>) -> bool {
        exists|i: int|
            0 <= i < Self::word_len() && #[trigger] marks[i] == MatchOption::Correct
                && self.fixed_at[i] is Some && self.fixed_at[i] != Some(word[i])
    }
}

/// A guess without any mark taken into account changes nothing.
pub proof fn lemma_learn_first_none(k: Knowledge, word: Seq<char>, marks: Seq<MatchOption>)
    requires
        k.wf(),
    ensures
        k.learn_first(word, marks, 0) == k,
{
    let l = k.learn_first(word, marks, 0);
    assert forall|j: int| 0 <= j < 5 implies l.forbidden_at[j] =~= k.forbidden_at[j] by {}
    assert(l.forbidden_at =~= k.forbidden_at);
    assert(l.fixed_at =~= k.fixed_at);
    assert(l.must_contain =~= k.must_contain);
}

/// A letter carries a mark among the first `n + 1` positions of a guess
/// exactly if it carries it among the first `n` or at position `n`.
pub proof fn lemma_marked_step(word: Seq<char>, marks: Seq<MatchOption>, n: int, m: MatchOption, c: char)
    requires
        0 <= n,
    ensures
        marked(word, marks, n + 1, m, c) <==> marked(word, marks, n, m, c) || marked_at(
            word,
            marks,
            n,
            m,
            c,
        ),
{
    if marked(word, marks, n, m, c) {
        let i = choose|i: int| 0 <= i < n && #[trigger] marked_at(word, marks, i, m, c);
        assert(marked_at(word, marks, i, m, c));
    }
}

} // verus!
