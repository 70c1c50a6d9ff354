use vstd::prelude::*;
use notion_client::NotionClientError;

verus! {

#[verifier::external_type_specification]
#[verifier::external_body]
pub struct ExNotionClientError(NotionClientError);

/// The closed set of failures that the accessor reports.
#[derive(Clone, Copy, Debug, PartialEq, Eq, Structural)]
pub enum ErrorKind {
    /// The accessor's configuration cannot be used.
    ConfigInvalid,
    /// The remote service rejected the request as malformed.
    InvalidInput,
    /// Authentication or authorisation failed.
    PermissionDenied,
    /// The record or collection does not exist.
    NotFound,
    /// The path does not name a directory.
    NotADirectory,
    /// The operation is not offered.
    Unsupported,
    /// Anything else, transport and decoding failures included.
    Unexpected,
}

/// A failure, with its kind and the text that explains it.
#[derive(Clone, Debug, PartialEq)]
pub struct Error {
    pub kind: ErrorKind,
    pub message: String,
}

impl Error {
    pub fn new(kind: ErrorKind, message: &str) -> (r: Error)
        ensures
            r.kind == kind,
            r.message@ == message@,
    {
        Error { kind, message: message.to_owned() }
    }

    pub fn kind(&self) -> (r: ErrorKind)
        ensures
            r == self.kind,
    {
        self.kind
    }
}

/// What the remote service reported, in the shapes that matter here.
#[derive(Clone, Debug)]
pub enum RemoteFailure {
    /// A response with an error status code and the service's message.
    Status { status: u32, message: String },
    /// A header of the request could not be built.
    InvalidHeader { detail: String },
    /// Anything else: transport, encoding or decoding.
    Other { detail: String },
}

/// The kind that a remote status code maps to.
pub open spec fn kind_for_status(status: u32) -> ErrorKind {
    if status == 400 {
        ErrorKind::InvalidInput
    } else if status == 401 || status == 403 {
        ErrorKind::PermissionDenied
    } else if status == 404 {
        ErrorKind::NotFound
    } else {
        ErrorKind::Unexpected
    }
}

/// The kind that a remote failure maps to.
pub open spec fn kind_for_failure(f: RemoteFailure) -> ErrorKind {
    match f {
        RemoteFailure::Status { status, .. } => kind_for_status(status),
        _ => ErrorKind::Unexpected,
    }
}

/// The text that a remote failure keeps as context.
pub open spec fn message_for_failure(f: RemoteFailure) -> Seq<char> {
    match f {
        RemoteFailure::Status { message, .. } => message@,
        RemoteFailure::InvalidHeader { detail } => detail@,
        RemoteFailure::Other { detail } => detail@,
    }
}

/// The kind for a remote status code: 400 is invalid input, 401 and 403 are
/// permission failures, 404 is not found, and every other code is unexpected.
pub fn error_kind_for_status(status: u32) -> (r: ErrorKind)
    ensures
        r == kind_for_status(status),
{
    if status == 400 {
        ErrorKind::InvalidInput
    } else if status == 401 || status == 403 {
        ErrorKind::PermissionDenied
    } else if status == 404 {
        ErrorKind::NotFound
    } else {
        ErrorKind::Unexpected
    }
}

/// The error that a remote failure becomes; its text is kept.
pub fn translate_failure(f: RemoteFailure) -> (r: Error)
    ensures
        r.kind == kind_for_failure(f),
        r.message@ == message_for_failure(f),
{
    match f {
        RemoteFailure::Status { status, message } => Error {
            kind: error_kind_for_status(status),
            message,
        },
        RemoteFailure::InvalidHeader { detail } => Error { kind: ErrorKind::Unexpected, message: detail },
        RemoteFailure::Other { detail } => Error { kind: ErrorKind::Unexpected, message: detail },
    }
}

/// What the remote client's error reports, in the shapes that matter here.
pub uninterp spec fn failure_of(e: NotionClientError) -> RemoteFailure;

/// Relies on the variants of `NotionClientError`: the status and message of an
/// error response are moved out, and the other variants keep their text.
#[verifier::external_body]
fn remote_failure_of(err: NotionClientError) -> (r: RemoteFailure)
    ensures
        r == failure_of(err),
{
    match err {
        NotionClientError::InvalidStatusCode { error } => RemoteFailure::Status {
            status: error.status,
            message: error.message,
        },
        NotionClientError::InvalidHeader { source } => RemoteFailure::InvalidHeader {
            detail: source.to_string(),
        },
        other => RemoteFailure::Other { detail: other.to_string() },
    }
}

/// The error that a failure of the remote client becomes.
pub fn map_notion_error(err: NotionClientError) -> (r: Error)
    ensures
        r.kind == kind_for_failure(failure_of(err)),
        r.message@ == message_for_failure(failure_of(err)),
{
    translate_failure(remote_failure_of(err))
}

} // verus!
