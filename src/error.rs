use vstd::prelude::*;

verus! {

/// Every way a multipart transfer can fail.
#[derive(Clone, Copy, Debug, PartialEq, Eq, Structural)]
pub enum UploadError {
    /// The source is smaller than one chunk.
    ChunkTooSmall,
    /// The source could not be read.
    SourceReadError,
    /// A part could not be transferred.
    PartTransferError,
    /// The backend reported success but left out a field it must send.
    ProtocolViolation,
    /// The backend refused to open a multipart session.
    SessionInitError,
    /// The backend refused the assembled part list.
    CommitError,
    /// The source is too small for a multipart transfer.
    NotEligibleForMultipart,
}

} // verus!
