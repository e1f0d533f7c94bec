//! Integrity check of a downloaded file against an ETag that holds the hex
//! MD5 digest of its bytes.
use crate::error::DlError;
use md5::{Digest, Md5};
use vstd::prelude::*;

verus! {

/// The MD5 digest of `data`.
pub uninterp spec fn md5_of(data: Seq<u8>) -> Seq<u8>;

/// Relies on `md5::Md5` (crate md-5) through the `Digest` trait: the MD5
/// digest of the input, whose output size is 16 bytes.
#[verifier::external_body]
fn md5_digest(data: &[u8]) -> (r: Vec<u8>)
    ensures
        r@ == md5_of(data@),
        r@.len() == 16,
{
    let mut hasher = Md5::new();
    hasher.input(data);
    hasher.result().to_vec()
}

pub open spec fn is_hex_digit(c: char) -> bool {
    ('0' <= c <= '9') || ('a' <= c <= 'f') || ('A' <= c <= 'F')
}

/// The value of a hex digit, either case.
pub open spec fn hex_value(c: char) -> nat {
    if '0' <= c <= '9' {
        ((c as u32) - ('0' as u32)) as nat
    } else if 'a' <= c <= 'f' {
        ((c as u32) - ('a' as u32) + 10) as nat
    } else {
        ((c as u32) - ('A' as u32) + 10) as nat
    }
}

/// `s` is an even number of hex digits.
pub open spec fn is_hex_text(s: Seq<char>) -> bool {
    s.len() % 2 == 0 && forall|i: int| 0 <= i < s.len() ==> is_hex_digit(#[trigger] s[i])
}

/// The bytes that a text of hex digits stands for, two digits a byte, the
/// high half first.
pub open spec fn hex_bytes(s: Seq<char>) -> Seq<u8> {
    Seq::new(
        s.len() / 2,
        |i: int| (hex_value(s[2 * i]) * 16 + hex_value(s[2 * i + 1])) as u8,
    )
}

/// Relies on `hex::decode`: an odd number of digits or a character that is
/// not a hex digit is an error; otherwise each pair of digits gives one
/// byte, high half first, either case accepted.
#[verifier::external_body]
fn hex_decode(s: &str) -> (r: Option<Vec<u8>>)
    ensures
        r.is_some() == is_hex_text(s@),
        r.is_some() ==> r.unwrap()@ == hex_bytes(s@),
{
    hex::decode(s).ok()
}

/// The lower case hex digit of a value below sixteen.
pub open spec fn lower_hex_digit(v: nat) -> char {
    if v < 10 {
        ((v + ('0' as u32)) as u32) as char
    } else {
        ((v - 10 + ('a' as u32)) as u32) as char
    }
}

/// The lower case hex text of `bytes`, two digits a byte.
pub open spec fn lower_hex(bytes: Seq<u8>) -> Seq<char> {
    Seq::new(
        2 * bytes.len(),
        |i: int|
            if i % 2 == 0 {
                lower_hex_digit((bytes[i / 2] / 16) as nat)
            } else {
                lower_hex_digit((bytes[i / 2] % 16) as nat)
            },
    )
}

/// What comparing `digest` with the hex text `sum_hex` gives: whether they
/// are the same bytes. A text that is not hex (such as the ETag of a
/// multipart upload) names no digest, so it never matches.
pub open spec fn digest_check(digest: Seq<u8>, sum_hex: Seq<char>) -> Result<bool, DlError> {
    Ok(is_hex_text(sum_hex) && hex_bytes(sum_hex) == digest)
}

/// What the integrity check of a file with bytes `contents` gives for the
/// ETag `etag`.
pub open spec fn integrity(etag: Option<Seq<char>>, contents: Seq<u8>) -> Result<bool, DlError> {
    match etag {
        None => Err(DlError::EtagAbsent),
        Some(e) => digest_check(md5_of(contents), e),
    }
}

/// The MD5 digest of `contents`.
pub fn md5sum(contents: &[u8]) -> (r: Vec<u8>)
    ensures
        r@ == md5_of(contents@),
        r@.len() == 16,
{
    md5_digest(contents)
}

fn bytes_equal(a: &[u8], b: &[u8]) -> (r: bool)
    ensures
        r == (a@ == b@),
{
    if a.len() != b.len() {
        return false;
    }
    let mut i: usize = 0;
    while i < a.len()
        invariant
            a@.len() == b@.len(),
            i <= a@.len(),
            a@.take(i as int) =~= b@.take(i as int),
        decreases a.len() - i,
    {
        if a[i] != b[i] {
            assert(a@[i as int] != b@[i as int]);
            return false;
        }
        assert(a@.take(i + 1) =~= b@.take(i + 1)) by {
            assert(a@.take(i + 1) =~= a@.take(i as int).push(a@[i as int]));
            assert(b@.take(i + 1) =~= b@.take(i as int).push(b@[i as int]));
        }
        i = i + 1;
    }
    assert(a@ =~= a@.take(i as int));
    assert(b@ =~= b@.take(i as int));
    true
}

/// Compares a computed `digest` with the hex text `sum_hex`.
pub fn digest_matches(digest: &[u8], sum_hex: &str) -> (r: Result<bool, DlError>)
    ensures
        r == digest_check(digest@, sum_hex@),
{
    match hex_decode(sum_hex) {
        None => Ok(false),
        Some(expected) => Ok(bytes_equal(expected.as_slice(), digest)),
    }
}

/// Whether the MD5 digest of `contents` is the one written in hex as
/// `sum_hex`.
pub fn md5sum_check(contents: &[u8], sum_hex: &str) -> (r: Result<bool, DlError>)
    ensures
        r == digest_check(md5_of(contents@), sum_hex@),
{
    let digest = md5sum(contents);
    digest_matches(digest.as_slice(), sum_hex)
}

/// The file to verify and the ETag it is verified against.
#[derive(Debug, PartialEq)]
pub struct HashChecker {
    pub path: String,
    pub etag: Option<String>,
}

impl HashChecker {
    /// Verifies the file's bytes `contents` against the ETag, handing the
    /// path back with the verdict. Without an ETag it fails with
    /// `EtagAbsent`.
    pub fn check(self, contents: &[u8]) -> (r: Result<(String, bool), DlError>)
        ensures
            match integrity(
                match self.etag {
                    Some(e) => Some(e@),
                    None => None,
                },
                contents@,
            ) {
                Ok(valid) => r == Ok::<(String, bool), DlError>((self.path, valid)),
                Err(e) => r == Err::<(String, bool), DlError>(e),
            },
    {
        match self.etag {
            None => Err(DlError::EtagAbsent),
            Some(etag) => match md5sum_check(contents, etag.as_str()) {
                Ok(valid) => Ok((self.path, valid)),
                Err(e) => Err(e),
            },
        }
    }
}

proof fn lemma_lower_hex_digit(v: nat)
    requires
        v < 16,
    ensures
        is_hex_digit(lower_hex_digit(v)),
        hex_value(lower_hex_digit(v)) == v,
{
}

/// Decoding the lower case hex text of some bytes gives those bytes back.
pub proof fn lemma_hex_round_trip(bytes: Seq<u8>)
    ensures
        is_hex_text(lower_hex(bytes)),
        hex_bytes(lower_hex(bytes)) == bytes,
{
    let s = lower_hex(bytes);
    assert forall|i: int| 0 <= i < s.len() implies is_hex_digit(#[trigger] s[i]) by {
        lemma_lower_hex_digit((bytes[i / 2] / 16) as nat);
        lemma_lower_hex_digit((bytes[i / 2] % 16) as nat);
    }
    assert(s.len() % 2 == 0);
    assert forall|i: int| 0 <= i < bytes.len() implies #[trigger] hex_bytes(s)[i] == bytes[i] by {
        assert((2 * i) / 2 == i);
        assert((2 * i + 1) / 2 == i);
        assert((2 * i) % 2 == 0);
        assert((2 * i + 1) % 2 == 1);
        lemma_lower_hex_digit((bytes[i] / 16) as nat);
        lemma_lower_hex_digit((bytes[i] % 16) as nat);
    }
    assert(hex_bytes(s) =~= bytes);
}

/// A file whose ETag is the lower case hex MD5 digest of its bytes passes
/// the integrity check.
pub proof fn lemma_md5_etag_valid(contents: Seq<u8>)
    ensures
        integrity(Some(lower_hex(md5_of(contents))), contents) == Ok::<bool, DlError>(true),
{
    lemma_hex_round_trip(md5_of(contents));
}

} // verus!
