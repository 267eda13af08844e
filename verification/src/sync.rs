//! What is sent to the remote store, and what came of it.

use crate::document::{rows_text, FieldView, MergedDocument};
use vstd::prelude::*;
use vstd::string::StringExecFns;

verus! {

/// One upsert: the rows in `body` are inserted into `table`, or replace
/// the rows of the same account there.
#[derive(Clone, Debug, PartialEq, Eq)]
pub struct UpsertRequest {
    /// The table that is written to.
    pub table: String,
    /// The rows, as the text of a JSON array.
    pub body: String,
}

/// Whether `request` is the upsert of the one document with `fields`.
pub open spec fn upserts(request: UpsertRequest, fields: Seq<FieldView>) -> bool {
    &&& request.table@ == "accounts"@
    &&& request.body@ == rows_text(fields)
}

impl UpsertRequest {
    /// The upsert that sends one document: a single-row array for the
    /// table `accounts`.
    pub fn for_document(document: &MergedDocument) -> (request: UpsertRequest)
        ensures
            upserts(request, document@),
    {
        UpsertRequest { table: String::from_str("accounts"), body: document.render_rows() }
    }
}

/// What came of one upsert. It is reported, never retried.
#[derive(Clone, Debug, PartialEq, Eq)]
pub enum SyncOutcome {
    /// The store accepted the rows; the text is its answer.
    Success(String),
    /// The rows were not stored; the text says why.
    Failure(String),
}

impl SyncOutcome {
    /// Whether an HTTP status says that the store accepted the request.
    pub open spec fn accepted(status: u16) -> bool {
        200 <= status < 300
    }

    /// The outcome of an upsert that was answered with `status`: a success
    /// for a status from 200 to 299, a failure for every other. The text of
    /// the answer is kept either way.
    pub fn from_response(status: u16, text: String) -> (outcome: SyncOutcome)
        ensures
            match outcome {
                SyncOutcome::Success(kept) => Self::accepted(status) && kept@ == text@,
                SyncOutcome::Failure(kept) => !Self::accepted(status) && kept@ == text@,
            },
    {
        if 200 <= status && status < 300 {
            SyncOutcome::Success(text)
        } else {
            SyncOutcome::Failure(text)
        }
    }

    /// The outcome of an upsert that got no answer: a failure with the
    /// transport's description.
    pub fn from_error(text: String) -> (outcome: SyncOutcome)
        ensures
            outcome matches SyncOutcome::Failure(kept) && kept@ == text@,
    {
        SyncOutcome::Failure(text)
    }

    /// Whether the rows were stored.
    pub fn is_success(&self) -> (stored: bool)
        ensures
            stored == (self is Success),
    {
        match self {
            SyncOutcome::Success(_) => true,
            SyncOutcome::Failure(_) => false,
        }
    }
}

} // verus!
