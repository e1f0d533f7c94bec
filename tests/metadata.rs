use dl::error::DlError;
use dl::metadata::{
    have_file_metadata, is_success, piece_status, metadata_of, parse_etag, parse_length, unquote, HeadResponse,
    Metadata, MetadataDownloader,
};
use dl::text::parse_u64;
use dl::Config;
use http::Uri;

fn some(s: &str) -> Option<String> {
    Some(String::from(s))
}

fn head(status: u16, ranges: Option<&str>, length: Option<&str>, etag: Option<&str>) -> HeadResponse {
    HeadResponse {
        status,
        accept_ranges: ranges.map(String::from),
        content_length: length.map(String::from),
        etag: etag.map(String::from),
    }
}

fn downloader(uri: &'static str) -> MetadataDownloader {
    MetadataDownloader::from_config(Config {
        uri: Uri::from_static(uri),
        path: String::from("data/foo_meta.pdf"),
        parallelism: 4,
    })
}

#[test]
fn fetching_file_metadata() {
    // what the server answers for the small file
    let answer = head(200, Some("bytes"), Some("53143"), Some("\"ac89ac31a669c13ec4ce037f1203022c\""));
    let fd = downloader("https://example.com/resume.pdf").accept_head(&answer).unwrap();

    assert_eq!(fd.file_size, 53143);
    assert_eq!(fd.etag, Some(String::from("ac89ac31a669c13ec4ce037f1203022c")));
    assert_eq!(fd.path, "data/foo_meta.pdf");
    assert_eq!(fd.parallelism, 4);
}

#[test]
fn handling_absent_file_metadata() {
    // what the server answers for a page without range support
    let answer = head(200, None, None, None);
    let err = downloader("https://google.com").accept_head(&answer).err().unwrap();

    assert_eq!(err.description(), DlError::RangeMetadataAbsent.description());
}

#[test]
fn classifying_statuses() {
    assert_eq!(is_success(200), Ok(()));
    assert_eq!(is_success(206), Ok(()));
    assert_eq!(is_success(301), Ok(()));
    assert_eq!(is_success(199), Err(DlError::RequestFailed(199)));
    assert_eq!(is_success(404), Err(DlError::RequestFailed(404)));
}

#[test]
fn requiring_byte_ranges() {
    assert_eq!(have_file_metadata(&some("bytes")), Ok(()));
    assert_eq!(have_file_metadata(&some("none")), Err(DlError::RangeMetadataAbsent));
    assert_eq!(have_file_metadata(&some("Bytes")), Err(DlError::RangeMetadataAbsent));
    assert_eq!(have_file_metadata(&None), Err(DlError::RangeMetadataAbsent));
}

#[test]
fn reading_the_content_length() {
    assert_eq!(parse_length(&some("0")), Ok(0));
    assert_eq!(parse_length(&some("18446744073709551615")), Ok(u64::MAX));
    assert_eq!(parse_length(&some("18446744073709551616")), Err(DlError::ParseContentLength));
    assert_eq!(parse_length(&some("12a")), Err(DlError::ParseContentLength));
    assert_eq!(parse_length(&some("")), Err(DlError::ParseContentLength));
    assert_eq!(parse_length(&None), Err(DlError::ParseContentLength));
}

#[test]
fn reading_numbers_as_std_does() {
    for text in ["0", "+7", "007", "+", "-1", " 1", "1 ", "99999999999999999999", "4096"] {
        assert_eq!(parse_u64(text), text.parse::<u64>().ok(), "{}", text);
    }
}

#[test]
fn stripping_etag_quotes() {
    assert_eq!(parse_etag(&some("\"abc\"")), some("abc"));
    assert_eq!(parse_etag(&some("abc")), some("abc"));
    assert_eq!(parse_etag(&some("\"abc")), some("abc"));
    assert_eq!(parse_etag(&some("\"")), some(""));
    assert_eq!(parse_etag(&some("")), some(""));
    assert_eq!(parse_etag(&some("\"\"a\"\"")), some("\"a\""));
    assert_eq!(parse_etag(&None), None);
    assert_eq!(unquote("W/\"x\""), "W/\"x");
}

#[test]
fn probing_reports_the_first_problem() {
    assert_eq!(metadata_of(&head(500, None, None, None)), Err(DlError::RequestFailed(500)));
    assert_eq!(metadata_of(&head(200, Some("bytes"), None, None)), Err(DlError::ParseContentLength));
    assert_eq!(
        metadata_of(&head(200, Some("bytes"), Some("10"), None)),
        Ok(Metadata { file_size: 10, etag: None })
    );
}

#[test]
fn an_empty_file_has_metadata() {
    assert_eq!(
        metadata_of(&head(302, Some("bytes"), Some("0"), Some("\"d41d8cd98f00b204e9800998ecf8427e\""))),
        Ok(Metadata { file_size: 0, etag: some("d41d8cd98f00b204e9800998ecf8427e") })
    );
}

#[test]
fn a_ranged_get_must_succeed() {
    assert_eq!(piece_status(206), Ok(()));
    assert_eq!(piece_status(200), Ok(()));
    assert_eq!(piece_status(302), Err(DlError::RequestFailed(302)));
    assert_eq!(piece_status(416), Err(DlError::RequestFailed(416)));
    assert_eq!(piece_status(500), Err(DlError::RequestFailed(500)));
}

#[test]
fn describing_errors() {
    assert_eq!(DlError::RangeMetadataAbsent.description(), "Server does not support range requests");
    assert_eq!(DlError::EtagAbsent.description(), "File does not have an etag");
    assert_eq!(DlError::ParseContentLength.description(), "Failed to parse content length header");
    assert_ne!(DlError::Checksum.description(), DlError::StreamProcessing.description());
}
