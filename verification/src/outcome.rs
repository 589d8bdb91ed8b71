//! The result of attempting to fetch one source.
//!
//! Every failure mode of a fetch (network error, timeout, missing file,
//! unrecognized scheme) collapses to the empty outcome; no error value ever
//! escapes the fetcher.  A successful outcome always carries a non-empty
//! body: an empty upstream body is absorbed just like a failure, so that the
//! assembler never has to distinguish the two.

use vstd::prelude::*;

verus! {

/// Either a non-empty text body, or an absorbed failure.
pub enum FetchOutcome {
    Success(String),
    Empty,
}

impl View for FetchOutcome {
    type V = Option<Seq<char>>;

    open spec fn view(&self) -> Option<Seq<char>> {
        match self {
            FetchOutcome::Success(s) => Some(s@),
            FetchOutcome::Empty => None,
        }
    }
}

impl FetchOutcome {
    /// A successful outcome never carries an empty body.
    pub open spec fn wf(self) -> bool {
        match self {
            FetchOutcome::Success(s) => s@.len() > 0,
            FetchOutcome::Empty => true,
        }
    }

    /// Wraps fetched text, absorbing the empty string into the empty outcome.
    pub fn from_text(text: String) -> (r: FetchOutcome)
        ensures
            r.wf(),
            text@.len() > 0 ==> r@ == Some(text@),
            text@.len() == 0 ==> r@ is None,
    {
        if text.as_str().unicode_len() > 0 {
            FetchOutcome::Success(text)
        } else {
            FetchOutcome::Empty
        }
    }

    /// Whether this outcome carries a body.
    pub fn is_success(&self) -> (r: bool)
        ensures
            r == (self@ is Some),
    {
        match self {
            FetchOutcome::Success(_) => true,
            FetchOutcome::Empty => false,
        }
    }

    /// The carried body, or the empty string for the empty outcome.
    pub fn into_text(self) -> (r: String)
        ensures
            self@ is Some ==> r@ == self@.unwrap(),
            self@ is None ==> r@ == Seq::<char>::empty(),
    {
        match self {
            FetchOutcome::Success(s) => s,
            FetchOutcome::Empty => String::new(),
        }
    }
}

} // verus!
