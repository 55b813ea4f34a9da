//! Per-letter verdicts, the five-mark feedback pattern, and the single error
//! of the library.

use vstd::prelude::*;
use vstd::string::StringExecFns;

verus! {

/// The verdict of the game on one letter at one position.
#[derive(Debug, Clone, Copy, PartialEq, Eq, Hash, Structural)]
pub enum MatchOption {
    /// The letter stands at this position in the solution.
    Correct,
    /// The letter occurs in the solution, but not at this position.
    WrongPlace,
    /// The letter does not occur in the solution.
    WrongLetter,
}

/// The input was not a five-letter word or a five-mark feedback pattern.
#[derive(Debug, Clone, Copy)]
pub struct BadInput;

/// The verdicts of the game on the five letters of one guess, position by
/// position.
pub struct Feedback {
    /// The mark of each position.
    pub pattern: [MatchOption; 5],
}

/// The mark that a symbol of a feedback line stands for: `*` for a correct
/// letter, `~` for a misplaced one, `x` for an absent one. No other symbol
/// stands for a mark.
pub open spec fn mark_of(symbol: char) -> Option<MatchOption> {
    if symbol == '*' {
        Some(MatchOption::Correct)
    } else if symbol == '~' {
        Some(MatchOption::WrongPlace)
    } else if symbol == 'x' {
        Some(MatchOption::WrongLetter)
    } else {
        None
    }
}

/// `line` is a feedback pattern: five symbols, each standing for a mark.
pub open spec fn is_pattern(line: Seq<char>) -> bool {
    &&& line.len() == 5
    &&& forall|i: int| 0 <= i < line.len() ==> (#[trigger] mark_of(line[i])) is Some
}

/// The marks that the symbols of `line` stand for, position by position.
pub open spec fn marks_of(line: Seq<char>) -> Seq<MatchOption> {
    Seq::new(line.len(), |i: int| mark_of(line[i]).unwrap())
}

impl MatchOption {
    /// Reads one symbol of a feedback line.
    pub fn from_symbol(symbol: char) -> (mark: Option<MatchOption>)
        ensures
            mark == mark_of(symbol),
    {
        if symbol == '*' {
            Some(MatchOption::Correct)
        } else if symbol == '~' {
            Some(MatchOption::WrongPlace)
        } else if symbol == 'x' {
            Some(MatchOption::WrongLetter)
        } else {
            None
        }
    }
}

impl BadInput {
    /// The text shown for this error.
    pub fn message(&self) -> (text: String)
        ensures
            text@ == "guesses must be exactly 5 characters!"@,
    {
        String::from_str("guesses must be exactly 5 characters!")
    }
}

impl View for Feedback {
    type V = Seq<MatchOption>;

    open spec fn view(&self) -> Seq<MatchOption> {
        self.pattern@
    }
}

impl Feedback {
    /// Makes a feedback pattern of five marks; any other number of marks is
    /// rejected.
    pub fn from_vec(v: Vec<MatchOption>) -> (result: Result<Feedback, BadInput>)
        ensures
            result is Ok <==> v@.len() == 5,
            result matches Ok(feedback) ==> feedback@ == v@,
    {
        if v.len() != 5 {
            Err(BadInput)
        } else {
            let feedback = Feedback { pattern: [v[0], v[1], v[2], v[3], v[4]] };
            assert(feedback@ =~= v@);
            Ok(feedback)
        }
    }

    /// Reads a feedback line: exactly five symbols out of `*`, `~` and `x`.
    /// A line of another length, or with any other symbol, is rejected.
    pub fn from_string(s: String) -> (result: Result<Feedback, BadInput>)
        ensures
            result is Ok <==> is_pattern(s@),
            result matches Ok(feedback) ==> feedback@ == marks_of(s@),
    {
        let mut marks: Vec<MatchOption> = Vec::new();
        for symbol in it: s.as_str().chars()
            invariant
                it.seq() == s@,
                marks@.len() == it.index(),
                forall|i: int|
                    0 <= i < marks@.len() ==> #[trigger] mark_of(s@[i]) == Some(marks@[i]),
        {
            match MatchOption::from_symbol(symbol) {
                Some(mark) => marks.push(mark),
                None => {
                    return Err(BadInput);
                },
            }
        }
        assert(marks@ =~= marks_of(s@));
        Feedback::from_vec(marks)
    }
}

} // verus!
