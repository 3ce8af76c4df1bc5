use vstd::prelude::*;

verus! {

/// Failure of a single acquisition leg, carrying the field position where a
/// decode fault was discovered.
#[derive(Clone, Copy, PartialEq, Eq, Structural, Debug)]
pub enum AcqError {
    /// The network or HTTP layer failed before a body was available.
    TransportError,
    /// The response body was not valid text.
    BodyDecodeError,
    /// The expected `key = "..."` assignment was absent from the document.
    MalformedDocument,
    /// The payload ended before the plan's field at this position.
    FieldMissing(usize),
    /// The field at this position did not parse as its declared numeric type.
    FieldUnparseable(usize),
    /// A statistics aggregation was asked for zero samples.
    EmptySeries,
}

/// Failure of a whole poll cycle, as reported when the in-flight request is
/// joined.
#[derive(Clone, Copy, PartialEq, Eq, Structural, Debug)]
pub enum Error {
    /// A leg's execution unit terminated abnormally instead of returning.
    Unexpected,
    /// A leg returned a typed acquisition failure.
    Fetch(AcqError),
}

} // verus!
