//! The record entity and the error taxonomy of the data-access layer.

use vstd::prelude::*;

verus! {

/// Mathematical image of a [`Record`]: the three text fields as character
/// sequences.
pub struct RecordV {
    pub title: Seq<char>,
    pub author: Seq<char>,
    pub isbn: Seq<char>,
}

/// One stored entity. `isbn` is the unique business key: no two live
/// records of one collection share an `isbn`.
pub struct Record {
    pub title: String,
    pub author: String,
    pub isbn: String,
}

impl View for Record {
    type V = RecordV;

    open spec fn view(&self) -> RecordV {
        RecordV { title: self.title@, author: self.author@, isbn: self.isbn@ }
    }
}

impl Clone for Record {
    fn clone(&self) -> (r: Record)
        ensures
            r == *self,
    {
        Record { title: self.title.clone(), author: self.author.clone(), isbn: self.isbn.clone() }
    }
}

/// Failures a repository operation can surface.
///
/// A row-count mismatch is not here: it is not an execution failure but a
/// policy verdict, and it is reported by the coordinator as part of a
/// sequence outcome.
#[derive(Clone, Copy, PartialEq, Eq, Debug)]
pub enum RepoError {
    /// The unique-key constraint rejected a write (duplicate `isbn`).
    ConstraintViolation,
    /// The session is unusable; the operation did not run.
    ConnectivityFailure,
}

} // verus!
