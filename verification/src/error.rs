//! What can go wrong while a router is put together.

use crate::engine::{error_text, error_words};
use vstd::prelude::*;

verus! {

/// Why a route or a router could not be made. Both can only fail while the
/// route table is built; a lookup never fails.
#[derive(Debug)]
pub enum BuildError {
    /// The engine refused the pattern of one route.
    Pattern {
        /// The engine's own words.
        message: String,
    },
    /// The engine refused the patterns of all routes taken together.
    Matcher {
        /// The engine's own words.
        message: String,
    },
}

impl BuildError {
    /// The error for a route whose pattern the engine refused: it carries
    /// what the engine says of `error`.
    pub(crate) fn pattern(error: &regex::Error) -> (made: BuildError)
        ensures
            made is Pattern,
            made.words() == error_words(*error),
    {
        BuildError::Pattern { message: error_text(error) }
    }

    /// The error for a route table that the engine refused as a whole: it
    /// carries what the engine says of `error`.
    pub(crate) fn matcher(error: &regex::Error) -> (made: BuildError)
        ensures
            made is Matcher,
            made.words() == error_words(*error),
    {
        BuildError::Matcher { message: error_text(error) }
    }

    /// The message that the error carries.
    pub open spec fn words(self) -> Seq<char> {
        match self {
            BuildError::Pattern { message } => message@,
            BuildError::Matcher { message } => message@,
        }
    }

    /// What the engine said.
    pub fn message(&self) -> (text: &str)
        ensures
            text@ == self.words(),
    {
        match self {
            BuildError::Pattern { message } => message.as_str(),
            BuildError::Matcher { message } => message.as_str(),
        }
    }
}

} // verus!
