//! The interface of a completion source.

use crate::expansion::Expansion;
use std::io::Error;
use vstd::prelude::*;

verus! {

/// A failure of a completion source, as the standard library reports I/O
/// failures. The editor only carries such a value through.
#[verifier::external_type_specification]
#[verifier::external_body]
pub struct ExIoError(Error);

/// A completion source. The editor asks its sources in the order in which they
/// were registered; the first one that takes the line expands it.
///
/// A source may describe itself to the verifier by saying which results its
/// two methods can have. The editor's contracts are stated over these
/// descriptions. A source that gives none can have any result.
pub trait Expands {
    /// Whether `takes` can return `answer` on the line `buffer`.
    open spec fn answers(&self, buffer: Seq<char>, answer: Result<bool, Error>) -> bool {
        true
    }

    /// Whether `expand` can return `found` on the line `buffer`.
    open spec fn finds(&self, buffer: Seq<char>, found: Result<Expansion, Error>) -> bool {
        true
    }

    /// Decides whether this source applies to the line. It fails only when
    /// deciding needs a lookup and the lookup fails.
    fn takes(&self, raw_path: &str) -> (r: Result<bool, Error>)
        ensures
            self.answers(raw_path@, r),
    ;

    /// Completes the line, or fails when the source cannot be queried.
    fn expand(&mut self, raw_path: &str) -> (r: Result<Expansion, Error>)
        ensures
            old(self).finds(raw_path@, r),
    ;
}

} // verus!
