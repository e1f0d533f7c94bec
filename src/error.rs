//! The errors a download can end in.
use vstd::prelude::*;

verus! {

/// Why a download failed. The variants that wrap a failure of the HTTP
/// stack or of the file system carry that failure's message.
#[derive(Debug, Clone, PartialEq, Eq)]
pub enum DlError {
    /// The digest could not be computed.
    Checksum,
    /// Integrity was asked for but the server gave no ETag.
    EtagAbsent,
    /// A request or one of its headers could not be built.
    Http(String),
    /// The transport failed.
    Hyper(String),
    /// The URI does not parse.
    InvalidUri(String),
    /// Opening, seeking, writing, reading or inspecting the file failed.
    Io(String),
    /// `Content-Length` is missing or not a number.
    ParseContentLength,
    /// The server does not advertise `Accept-Ranges: bytes`.
    RangeMetadataAbsent,
    /// The server answered with a status that is neither success nor
    /// redirection.
    RequestFailed(u16),
    /// The stream of piece results ended unexpectedly.
    StreamProcessing,
}

/// The description of each kind of error, one text per kind.
pub open spec fn error_text(e: DlError) -> Seq<char> {
    match e {
        DlError::Checksum => "Failed checksum (hashing failed)"@,
        DlError::EtagAbsent => "File does not have an etag"@,
        DlError::Http(_) => "Failed to build request"@,
        DlError::Hyper(_) => "Request transport failed"@,
        DlError::InvalidUri(_) => "Invalid uri"@,
        DlError::Io(_) => "File system operation failed"@,
        DlError::ParseContentLength => "Failed to parse content length header"@,
        DlError::RangeMetadataAbsent => "Server does not support range requests"@,
        DlError::RequestFailed(_) => "Request failed"@,
        DlError::StreamProcessing => "Stream processing error"@,
    }
}

impl DlError {
    /// A short description of the kind of error.
    pub fn description(&self) -> (r: &'static str)
        ensures
            r@ == error_text(*self),
    {
        match self {
            DlError::Checksum => "Failed checksum (hashing failed)",
            DlError::EtagAbsent => "File does not have an etag",
            DlError::Http(_) => "Failed to build request",
            DlError::Hyper(_) => "Request transport failed",
            DlError::InvalidUri(_) => "Invalid uri",
            DlError::Io(_) => "File system operation failed",
            DlError::ParseContentLength => "Failed to parse content length header",
            DlError::RangeMetadataAbsent => "Server does not support range requests",
            DlError::RequestFailed(_) => "Request failed",
            DlError::StreamProcessing => "Stream processing error",
        }
    }
}

/// No two kinds of error share a description.
pub proof fn lemma_error_texts_distinct(a: DlError, b: DlError)
    requires
        error_text(a) == error_text(b),
    ensures
        a == b || (a is Http && b is Http) || (a is Hyper && b is Hyper) || (a is InvalidUri
            && b is InvalidUri) || (a is Io && b is Io) || (a is RequestFailed && b is RequestFailed),
{
    reveal_strlit("Failed checksum (hashing failed)");
    reveal_strlit("File does not have an etag");
    reveal_strlit("Failed to build request");
    reveal_strlit("Request transport failed");
    reveal_strlit("Invalid uri");
    reveal_strlit("File system operation failed");
    reveal_strlit("Failed to parse content length header");
    reveal_strlit("Server does not support range requests");
    reveal_strlit("Request failed");
    reveal_strlit("Stream processing error");
    let (ta, tb) = (error_text(a), error_text(b));
    assert(ta.len() == tb.len() && ta[0] == tb[0]);
    match b {
        DlError::Checksum => assert(tb.len() == 32),
        DlError::EtagAbsent => assert(tb.len() == 26),
        DlError::Http(_) => assert(tb.len() == 23 && tb[0] == 'F'),
        DlError::Hyper(_) => assert(tb.len() == 24),
        DlError::InvalidUri(_) => assert(tb.len() == 11),
        DlError::Io(_) => assert(tb.len() == 28),
        DlError::ParseContentLength => assert(tb.len() == 37),
        DlError::RangeMetadataAbsent => assert(tb.len() == 38),
        DlError::RequestFailed(_) => assert(tb.len() == 14),
        DlError::StreamProcessing => assert(tb.len() == 23 && tb[0] == 'S'),
    }
}

} // verus!
