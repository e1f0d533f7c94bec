use dl::checksum::{digest_matches, md5sum, md5sum_check, HashChecker};
use dl::error::DlError;

const FOO: &[u8] = b"foo\n";
const FOO_MD5: &str = "d3b07384d113edec49eaa6238ad5ff00";

#[test]
fn taking_m5sum() {
    assert_eq!(md5sum(FOO), hex::decode("d3b07384d113edec49eaa6238ad5ff00").unwrap(),);
}

#[test]
fn checking_md5sum() {
    assert_eq!(md5sum_check(FOO, "d3b07384d113edec49eaa6238ad5ff00").unwrap(), true,)
}

#[test]
fn running_hash_checker_with_etag() {
    let hc = HashChecker {
        path: String::from("data/foo.txt"),
        etag: Some(String::from("d3b07384d113edec49eaa6238ad5ff00")),
    };
    let (_, valid) = hc.check(FOO).unwrap();
    assert_eq!(valid, true);
}

#[test]
fn running_hash_checker_without_etag() {
    let hc = HashChecker { path: String::from("data/foo.txt"), etag: None };
    let err = hc.check(FOO).err().unwrap();
    assert_eq!(err.description(), DlError::EtagAbsent.description());
}

#[test]
fn hash_checker_hands_the_path_back() {
    let hc = HashChecker { path: String::from("data/foo.txt"), etag: Some(FOO_MD5.to_uppercase()) };
    assert_eq!(hc.check(FOO), Ok((String::from("data/foo.txt"), true)));
}

#[test]
fn hashing_the_empty_input() {
    assert_eq!(md5sum(b""), hex::decode("d41d8cd98f00b204e9800998ecf8427e").unwrap());
}

#[test]
fn md5_of_other_bytes_does_not_match() {
    assert_eq!(md5sum_check(b"bar\n", FOO_MD5), Ok(false));
    let hc = HashChecker { path: String::from("x"), etag: Some(String::from(FOO_MD5)) };
    assert_eq!(hc.check(b"bar\n"), Ok((String::from("x"), false)));
}

#[test]
fn checking_against_text_that_is_not_hex() {
    assert_eq!(md5sum_check(FOO, "not hex"), Ok(false));
    assert_eq!(md5sum_check(FOO, "d3b"), Ok(false));
}

#[test]
fn a_multipart_etag_is_reported_invalid() {
    let hc = HashChecker {
        path: String::from("data/foo.txt"),
        etag: Some(String::from("9b2cf535f27731c974343645a3985328-5")),
    };
    assert_eq!(hc.check(FOO), Ok((String::from("data/foo.txt"), false)));
}

#[test]
fn comparing_a_digest_with_hex() {
    assert_eq!(digest_matches(&[0xab, 0x01], "ab01"), Ok(true));
    assert_eq!(digest_matches(&[0xab, 0x01], "AB01"), Ok(true));
    assert_eq!(digest_matches(&[0xab, 0x01], "ab02"), Ok(false));
    assert_eq!(digest_matches(&[0xab, 0x01], "ab0"), Ok(false));
    assert_eq!(digest_matches(&[0xab, 0x01], "ab0g"), Ok(false));
}

#[test]
fn an_etag_of_the_lower_hex_md5_is_valid() {
    let contents: Vec<u8> = (0..=255u8).collect();
    let etag = hex::encode(md5sum(&contents));
    assert_eq!(md5sum_check(&contents, &etag), Ok(true));
}
