//! The laws that hold of the knowledge a matcher accumulates and of the
//! filtering of a word list.

use vstd::prelude::*;
use crate::feedback::MatchOption;
use crate::knowledge::{embeds, is_subsequence, Knowledge};

verus! {

/// Nothing is known at the start: every word is accepted.
pub proof fn lemma_empty_accepts_all(word: Seq<char>)
    ensures
        Knowledge::empty().wf(),
        Knowledge::empty().accepts(word),
{
}

/// Learning keeps one entry per position, whatever it started from.
pub proof fn lemma_learn_wf(k: Knowledge, word: Seq<char>, marks: Seq<MatchOption>)
    ensures
        k.learn(word, marks).wf(),
{
}

/// Learning only adds to the forbidden letters of each position and to the
/// required letters; none is ever dropped.
pub proof fn lemma_learn_grows(k: Knowledge, word: Seq<char>, marks: Seq<MatchOption>)
    ensures
        forall|i: int|
            0 <= i < Knowledge::word_len() ==> k.forbidden_at[i].subset_of(
                #[trigger] k.learn(word, marks).forbidden_at[i],
            ),
        k.must_contain.subset_of(k.learn(word, marks).must_contain),
{
}

/// A `Correct` mark decides the fixed letter of its position, whatever was
/// fixed there before; the other positions keep theirs.
pub proof fn lemma_learn_last_write_wins(k: Knowledge, word: Seq<char>, marks: Seq<MatchOption>, i: int)
    requires
        0 <= i < Knowledge::word_len(),
    ensures
        marks[i] == MatchOption::Correct ==> k.learn(word, marks).fixed_at[i] == Some(word[i]),
        marks[i] != MatchOption::Correct ==> k.learn(word, marks).fixed_at[i] == k.fixed_at[i],
{
}

/// Feedback only narrows: the words accepted after a guess was learned are
/// among those accepted before it, provided the guess did not replace a
/// fixed letter by another one.
pub proof fn lemma_learn_narrows(k: Knowledge, word: Seq<char>, marks: Seq<MatchOption>)
    requires
        !k.overwritten_by(word, marks),
    ensures
        k.learn(word, marks).candidates().subset_of(k.candidates()),
{
    let l = k.learn(word, marks);
    assert forall|candidate: Seq<char>| l.accepts(candidate) implies k.accepts(candidate) by {
        assert forall|i: int| 0 <= i < Knowledge::word_len() implies #[trigger] k.allows_at(
            candidate,
            i,
        ) by {
            assert(l.allows_at(candidate, i));
            if marks[i] == MatchOption::Correct {
                assert(!(k.fixed_at[i] is Some && k.fixed_at[i] != Some(word[i])));
            }
        }
        assert forall|c: char| k.must_contain.contains(c) implies #[trigger] candidate.contains(
            c,
        ) by {
            assert(l.must_contain.contains(c));
        }
    }
}

/// Where a guess replaces a fixed letter by another one, no word accepted
/// afterwards was accepted before.
pub proof fn lemma_overwrite_excludes(k: Knowledge, word: Seq<char>, marks: Seq<MatchOption>)
    requires
        k.overwritten_by(word, marks),
    ensures
        k.learn(word, marks).candidates().disjoint(k.candidates()),
{
    let l = k.learn(word, marks);
    let i = choose|i: int|
        0 <= i < Knowledge::word_len() && #[trigger] marks[i] == MatchOption::Correct
            && k.fixed_at[i] is Some && k.fixed_at[i] != Some(word[i]);
    assert forall|candidate: Seq<char>| l.accepts(candidate) implies !k.accepts(candidate) by {
        assert(l.allows_at(candidate, i));
        assert(!k.allows_at(candidate, i));
    }
}

/// Knowledge that fixes a letter at a position and forbids it there is
/// contradictory: it accepts no word.
pub proof fn lemma_contradiction_accepts_nothing(k: Knowledge, i: int, word: Seq<char>)
    requires
        0 <= i < Knowledge::word_len(),
        k.fixed_at[i] matches Some(c) && k.forbidden_at[i].contains(c),
    ensures
        !k.accepts(word),
{
    assert(!k.allows_at(word, i));
}

/// Whether a word is accepted depends on the knowledge and the word alone:
/// asking twice gives the same answer.
pub proof fn lemma_accepts_deterministic(a: Knowledge, b: Knowledge, word: Seq<char>)
    requires
        a == b,
    ensures
        a.accepts(word) == b.accepts(word),
{
}

/// Filtering keeps exactly the accepted words.
pub proof fn lemma_filter_keeps_accepted(k: Knowledge, words: Seq<Seq<char>>, w: Seq<char>)
    ensures
        k.filter(words).contains(w) <==> words.contains(w) && k.accepts(w),
    decreases words.len(),
{
    reveal(Seq::filter);
    let pred = |w: Seq<char>| k.accepts(w);
    if words.len() > 0 {
        let init = words.drop_last();
        lemma_filter_keeps_accepted(k, init, w);
        let last = words.last();
        if init.contains(w) {
            let i = choose|i: int| 0 <= i < init.len() && init[i] == w;
            assert(words[i] == w);
        }
        if words.contains(w) {
            let i = choose|i: int| 0 <= i < words.len() && words[i] == w;
            if i < init.len() {
                assert(init[i] == w);
            }
        }
        if pred(last) {
            let kept = init.filter(pred);
            assert(k.filter(words) == kept.push(last));
            assert(kept.push(last)[kept.len() as int] == last);
            if kept.contains(w) {
                let i = choose|i: int| 0 <= i < kept.len() && kept[i] == w;
                assert(kept.push(last)[i] == w);
            }
            if kept.push(last).contains(w) {
                let i = choose|i: int| 0 <= i < kept.push(last).len() && kept.push(last)[i] == w;
                if i < kept.len() {
                    assert(kept[i] == w);
                }
            }
        }
    }
}

/// Filtering preserves the order of the word list: what it yields is a
/// subsequence of the list, never reordered.
pub proof fn lemma_filter_is_subsequence(k: Knowledge, words: Seq<Seq<char>>)
    ensures
        is_subsequence(k.filter(words), words),
    decreases words.len(),
{
    reveal(Seq::filter);
    let pred = |w: Seq<char>| k.accepts(w);
    if words.len() == 0 {
        assert(embeds(k.filter(words), words, Seq::<int>::empty()));
    } else {
        let init = words.drop_last();
        lemma_filter_is_subsequence(k, init);
        let kept = k.filter(init);
        let at = choose|at: Seq<int>| #[trigger] embeds(kept, init, at);
        if pred(words.last()) {
            let at2 = at.push(words.len() - 1);
            assert(k.filter(words) == kept.push(words.last()));
            assert(embeds(k.filter(words), words, at2));
        } else {
            assert(k.filter(words) == kept);
            assert(embeds(k.filter(words), words, at));
        }
    }
}

} // verus!
