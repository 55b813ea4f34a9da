//! Candidate filtering for a five-letter word-guessing game.
//!
//! A [`Guess`] pairs a five-letter word with the per-letter [`Feedback`] the
//! game gave for it. A [`Matcher`] accumulates the knowledge of every guess it
//! is shown and decides which words are still consistent with all of it.
//! That knowledge is modelled by [`Knowledge`]; the laws that hold of it are
//! stated and proved in [`laws`].

pub mod feedback;
pub mod guess;
pub mod input;
pub mod knowledge;
pub mod laws;
pub mod matcher;

pub use crate::feedback::BadInput;
pub use crate::feedback::Feedback;
pub use crate::feedback::MatchOption;
pub use crate::guess::Guess;
pub use crate::input::clean_input_string;
pub use crate::knowledge::Knowledge;
pub use crate::matcher::Matcher;
