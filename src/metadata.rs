//! What a HEAD probe tells about the remote file.
use crate::checksum::{integrity, lemma_md5_etag_valid, lower_hex, md5_of};
use crate::error::DlError;
use crate::file::FileDownloader;
use crate::text::{opt_view, parse_u64, str_eq, u64_of_text};
use crate::Config;
use http::Uri;
use vstd::prelude::*;

verus! {

/// The range unit that the server must accept.
pub const BYTES_RANGE_TYPE: &'static str = "bytes";

/// Size and ETag of the remote file.
#[derive(Debug, PartialEq, Eq)]
pub struct Metadata {
    pub file_size: u64,
    pub etag: Option<String>,
}

/// What the answer to a HEAD request says: its status code, and the values
/// of the headers `Accept-Ranges`, `Content-Length` and `ETag`, each present
/// when the header is there and its value is visible ASCII text.
#[derive(Debug, Clone, PartialEq, Eq)]
pub struct HeadResponse {
    pub status: u16,
    pub accept_ranges: Option<String>,
    pub content_length: Option<String>,
    pub etag: Option<String>,
}

/// A status of the 2xx or 3xx classes.
pub open spec fn status_usable(status: u16) -> bool {
    200 <= status < 400
}

/// `s` without one leading and one trailing double quote, where present.
pub open spec fn strip_quotes(s: Seq<char>) -> Seq<char> {
    let a = if s.len() > 0 && s[0] == '"' {
        s.drop_first()
    } else {
        s
    };
    if a.len() > 0 && a.last() == '"' {
        a.drop_last()
    } else {
        a
    }
}

/// The server advertises byte ranges.
pub open spec fn ranges_advertised(accept_ranges: Option<Seq<char>>) -> bool {
    accept_ranges == Some("bytes"@)
}

/// The size that a `Content-Length` value gives, if any.
pub open spec fn length_of(content_length: Option<Seq<char>>) -> Option<u64> {
    match content_length {
        Some(s) => u64_of_text(s),
        None => None,
    }
}

/// What a HEAD answer yields: the file size and the ETag without its quotes,
/// or the first reason, in this order, why the URL is unusable.
pub open spec fn probe_outcome(head: HeadResponse) -> Result<(u64, Option<Seq<char>>), DlError> {
    if !status_usable(head.status) {
        Err(DlError::RequestFailed(head.status))
    } else if !ranges_advertised(opt_view(head.accept_ranges)) {
        Err(DlError::RangeMetadataAbsent)
    } else {
        match length_of(opt_view(head.content_length)) {
            None => Err(DlError::ParseContentLength),
            Some(size) => Ok(
                (
                    size,
                    match head.etag {
                        Some(e) => Some(strip_quotes(e@)),
                        None => None,
                    },
                ),
            ),
        }
    }
}

/// Fails with `RequestFailed` unless the status is a success or a
/// redirection.
pub fn is_success(status: u16) -> (r: Result<(), DlError>)
    ensures
        r == (if status_usable(status) {
            Ok::<(), DlError>(())
        } else {
            Err(DlError::RequestFailed(status))
        }),
{
    if 200 <= status && status < 400 {
        Ok(())
    } else {
        Err(DlError::RequestFailed(status))
    }
}

/// A status of the 2xx class, the only one a ranged GET may answer with.
pub open spec fn piece_status_ok(status: u16) -> bool {
    200 <= status < 300
}

/// Fails with `RequestFailed` unless the answer to a ranged GET is a
/// success.
pub fn piece_status(status: u16) -> (r: Result<(), DlError>)
    ensures
        r == (if piece_status_ok(status) {
            Ok::<(), DlError>(())
        } else {
            Err(DlError::RequestFailed(status))
        }),
{
    if 200 <= status && status < 300 {
        Ok(())
    } else {
        Err(DlError::RequestFailed(status))
    }
}

/// Fails with `RangeMetadataAbsent` unless `Accept-Ranges` is `bytes`.
pub fn have_file_metadata(accept_ranges: &Option<String>) -> (r: Result<(), DlError>)
    ensures
        r == (if ranges_advertised(opt_view(*accept_ranges)) {
            Ok::<(), DlError>(())
        } else {
            Err(DlError::RangeMetadataAbsent)
        }),
{
    proof {
        reveal_strlit("bytes");
    }
    match accept_ranges {
        Some(value) => {
            if str_eq(value.as_str(), BYTES_RANGE_TYPE) {
                Ok(())
            } else {
                Err(DlError::RangeMetadataAbsent)
            }
        },
        None => Err(DlError::RangeMetadataAbsent),
    }
}

/// Reads the file size from `Content-Length`.
pub fn parse_length(content_length: &Option<String>) -> (r: Result<u64, DlError>)
    ensures
        r == (match length_of(opt_view(*content_length)) {
            Some(size) => Ok::<u64, DlError>(size),
            None => Err(DlError::ParseContentLength),
        }),
{
    match content_length {
        Some(value) => match parse_u64(value.as_str()) {
            Some(size) => Ok(size),
            None => Err(DlError::ParseContentLength),
        },
        None => Err(DlError::ParseContentLength),
    }
}

/// Strips one leading and one trailing double quote from `s`, where present.
pub fn unquote(s: &str) -> (r: String)
    ensures
        r@ == strip_quotes(s@),
{
    let len = s.unicode_len();
    let start: usize = if len > 0 && s.get_char(0) == '"' { 1 } else { 0 };
    let end: usize = if len > start && s.get_char(len - 1) == '"' { len - 1 } else { len };
    let r = String::from_str(s.substring_char(start, end));
    assert(r@ =~= strip_quotes(s@));
    r
}

/// The ETag without its enclosing quotes.
pub fn parse_etag(etag: &Option<String>) -> (r: Option<String>)
    ensures
        opt_view(r) == (match *etag {
            Some(e) => Some(strip_quotes(e@)),
            None => None,
        }),
{
    match etag {
        Some(value) => Some(unquote(value.as_str())),
        None => None,
    }
}

/// Reads size and ETag from the headers.
pub fn parse_file_metadata(head: &HeadResponse) -> (r: Result<Metadata, DlError>)
    ensures
        match length_of(opt_view(head.content_length)) {
            Some(size) => r is Ok && r.unwrap().file_size == size && opt_view(r.unwrap().etag) == (
            match head.etag {
                Some(e) => Some(strip_quotes(e@)),
                None => None,
            }),
            None => r == Err::<Metadata, DlError>(DlError::ParseContentLength),
        },
{
    let etag = parse_etag(&head.etag);
    match parse_length(&head.content_length) {
        Ok(file_size) => Ok(Metadata { file_size, etag }),
        Err(e) => Err(e),
    }
}

/// Reads the metadata from a HEAD answer: the status must be a success or a
/// redirection, `Accept-Ranges` must be `bytes`, and `Content-Length` must be
/// a number.
pub fn metadata_of(head: &HeadResponse) -> (r: Result<Metadata, DlError>)
    ensures
        match probe_outcome(*head) {
            Ok((size, etag)) => r is Ok && r.unwrap().file_size == size && opt_view(r.unwrap().etag)
                == etag,
            Err(e) => r == Err::<Metadata, DlError>(e),
        },
{
    match is_success(head.status) {
        Err(e) => return Err(e),
        Ok(()) => {},
    }
    match have_file_metadata(&head.accept_ranges) {
        Err(e) => return Err(e),
        Ok(()) => {},
    }
    parse_file_metadata(head)
}

/// Where and how a file is to be fetched, before its metadata is known.
#[derive(Debug)]
pub struct MetadataDownloader {
    pub uri: Uri,
    pub path: String,
    pub parallelism: usize,
}

impl MetadataDownloader {
    /// Takes URI, path and parallelism from the configuration.
    pub fn from_config(cfg: Config) -> (r: MetadataDownloader)
        ensures
            r.uri == cfg.uri,
            r.path == cfg.path,
            r.parallelism == cfg.parallelism,
    {
        MetadataDownloader { uri: cfg.uri, path: cfg.path, parallelism: cfg.parallelism }
    }

    /// Turns the answer to the HEAD probe into a `FileDownloader`, or into the
    /// reason why the URL cannot be downloaded in ranges.
    pub fn accept_head(self, head: &HeadResponse) -> (r: Result<FileDownloader, DlError>)
        ensures
            match probe_outcome(*head) {
                Ok((size, etag)) => r is Ok && r.unwrap().file_size == size && opt_view(
                    r.unwrap().etag,
                ) == etag && r.unwrap().uri == self.uri && r.unwrap().path == self.path
                    && r.unwrap().parallelism == self.parallelism,
                Err(e) => r == Err::<FileDownloader, DlError>(e),
            },
    {
        match metadata_of(head) {
            Ok(md) => Ok(FileDownloader::from_metadata(self, md)),
            Err(e) => Err(e),
        }
    }
}

/// An ETag header that quotes the lower case hex MD5 digest of the file's
/// bytes, once its quotes are stripped, passes the integrity check.
pub proof fn lemma_quoted_etag_valid(contents: Seq<u8>)
    ensures
        integrity(
            Some(strip_quotes(seq!['"'] + lower_hex(md5_of(contents)) + seq!['"'])),
            contents,
        ) == Ok::<bool, DlError>(true),
{
    let hex = lower_hex(md5_of(contents));
    let quoted = seq!['"'] + hex + seq!['"'];
    assert(quoted.drop_first() =~= hex + seq!['"']);
    assert((hex + seq!['"']).drop_last() =~= hex);
    assert(strip_quotes(quoted) =~= hex);
    lemma_md5_etag_valid(contents);
}

} // verus!
