//! The service-wide error taxonomy: what any operation of the system can
//! report. Parsing keeps its own structured diagnostics; evaluation errors
//! fold in through `from`.

use vstd::prelude::*;

use crate::relation_tuple::Uuid;
use crate::traversal::Error;

verus! {

/// Any failure the service surfaces to a caller.
#[derive(Debug)]
pub enum HeimdallError {
    /// The storage collaborator failed; the message is its report.
    Database(String),
    /// A textual UUID could not be read.
    UuidParse(String),
    /// A namespace referenced by a query or rewrite does not exist.
    NamespaceNotFound(String),
    /// The mapping collaborator had no UUID for this string.
    NoUuidForString(String),
    /// The mapping collaborator had no string for this UUID.
    NoStringForUuid(Uuid),
    /// A relation tuple is malformed; the message names the field.
    InvalidRelationTuple(String),
    /// The evaluator could not decide a query.
    Traversal(Error),
    /// A request was malformed before any work began.
    MalformedInput,
}

pub type HeimdallResult<T> = Result<T, HeimdallError>;

impl From<Error> for HeimdallError {
    fn from(value: Error) -> (r: HeimdallError) {
        HeimdallError::Traversal(value)
    }
}

impl vstd::std_specs::convert::FromSpecImpl<Error> for HeimdallError {
    open spec fn obeys_from_spec() -> bool {
        true
    }

    open spec fn from_spec(value: Error) -> HeimdallError {
        HeimdallError::Traversal(value)
    }
}

} // verus!
