use vstd::prelude::*;

verus! {

/// What went wrong while a block was fetched or its transactions were read.
#[derive(Clone, Copy, Debug, PartialEq, Eq, Structural)]
pub enum ErrorKind {
    /// The request could not be sent, or no reply came back.
    TransportError,
    /// The reply's body is not JSON.
    ResponseParseError,
    /// The reply to the hash query has no `result` that is a string.
    MissingHashResult,
    /// The reply to the block query has no `result`.
    MissingBlockResult,
    /// The `result` of the block query is not a string that holds JSON.
    BlockJsonParseError,
    /// The node answered that it has no such block.
    BlockNotFound,
    /// A hash or payload text is too short to carry its prefix.
    InvalidPrefix,
    /// What follows the hash's prefix is not hexadecimal.
    HashDecodeError,
    /// The hash has `actual` bytes where `expected` are required.
    InvalidHashLength { actual: usize, expected: usize },
    /// What follows the payload's prefix is not hexadecimal.
    PayloadDecodeError,
    /// The ledger's decoder rejected the payload.
    TransactionDecodeError,
    /// The payload decodes to the marker for "no transaction".
    TransactionDataAbsent,
}

/// A failure: its kind, and the words of the underlying cause where another
/// crate reported one.
#[derive(Debug, PartialEq, Eq)]
pub struct Failure {
    pub kind: ErrorKind,
    pub detail: String,
}

impl Failure {
    /// A failure with no underlying cause to report.
    pub fn new(kind: ErrorKind) -> (failure: Failure)
        ensures
            failure.kind == kind,
            failure.detail@ == Seq::<char>::empty(),
    {
        Failure { kind, detail: String::new() }
    }

    /// A failure together with the words of its cause.
    pub fn with_detail(kind: ErrorKind, detail: String) -> (failure: Failure)
        ensures
            failure.kind == kind,
            failure.detail == detail,
    {
        Failure { kind, detail }
    }
}

} // verus!
