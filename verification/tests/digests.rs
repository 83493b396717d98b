use surge::integrity::{judge, same_digest, IntegrityCheck, IntegrityError};

const ABC_SHA256: &str = "ba7816bf8f01cfea414140de5dae2223b00361a396177a9cb410ff61f20015ad";
const ABC_MD5: &str = "900150983cd24fb0d6963f7d28e17f72";
const EMPTY_SHA256: &str = "e3b0c44298fc1c149afbf4c8996fb92427ae41e4649b934ca495991b7852b855";
const EMPTY_MD5: &str = "d41d8cd98f00b204e9800998ecf8427e";

fn check(sha256: Option<&str>, md5: Option<&str>, buffers: &[&[u8]]) -> Result<(Option<String>, Option<String>), IntegrityError> {
    let mut c = IntegrityCheck::new(sha256.map(String::from), md5.map(String::from));
    for buffer in buffers {
        c.update(buffer);
    }
    c.finish().map(|d| (d.sha256, d.md5))
}

#[test]
fn matching_digests_pass() {
    assert_eq!(
        check(Some(ABC_SHA256), Some(ABC_MD5), &[b"abc"]),
        Ok((Some(ABC_SHA256.to_string()), Some(ABC_MD5.to_string())))
    );
    assert_eq!(check(Some(ABC_SHA256), None, &[b"abc"]), Ok((Some(ABC_SHA256.to_string()), None)));
    assert_eq!(check(None, Some(ABC_MD5), &[b"abc"]), Ok((None, Some(ABC_MD5.to_string()))));
    assert_eq!(check(None, None, &[b"abc"]), Ok((None, None)));
}

#[test]
fn empty_file_has_digests_too() {
    assert!(check(Some(EMPTY_SHA256), Some(EMPTY_MD5), &[]).is_ok());
    assert!(check(Some(EMPTY_SHA256), Some(EMPTY_MD5), &[b""]).is_ok());
}

#[test]
fn mismatch_is_refused() {
    assert_eq!(check(Some(ABC_SHA256), None, &[b"abd"]), Err(IntegrityError::Sha256Mismatch));
    assert_eq!(check(None, Some(ABC_MD5), &[b"abd"]), Err(IntegrityError::Md5Mismatch));
    assert_eq!(check(Some(ABC_SHA256), Some(EMPTY_MD5), &[b"abc"]), Err(IntegrityError::Md5Mismatch));
    assert_eq!(check(Some(EMPTY_SHA256), Some(EMPTY_MD5), &[b"abc"]), Err(IntegrityError::Sha256Mismatch));
    assert_eq!(check(Some(""), None, &[b"abc"]), Err(IntegrityError::Sha256Mismatch));
    let padded = format!(" {}", ABC_SHA256);
    assert_eq!(check(Some(&padded), None, &[b"abc"]), Err(IntegrityError::Sha256Mismatch));
}

#[test]
fn case_of_the_expected_digest_does_not_matter() {
    assert!(check(Some(&ABC_SHA256.to_uppercase()), Some(&ABC_MD5.to_uppercase()), &[b"abc"]).is_ok());
    assert!(same_digest("AbC", "aBc"));
    assert!(!same_digest("AbC", "aBd"));
}

#[test]
fn digest_that_is_no_ascii_text_is_refused() {
    for text in ["\u{212a}", "ABC\u{130}", "\u{ff21}\u{ff22}", "\u{3a3}"] {
        assert_eq!(check(Some(text), None, &[b"abc"]), Err(IntegrityError::Sha256Mismatch));
        assert_eq!(check(None, Some(text), &[b"abc"]), Err(IntegrityError::Md5Mismatch));
    }
    assert!(same_digest("k", "\u{212a}"));
    assert!(!same_digest("K1", "\u{212a}"));
}

#[test]
fn buffers_make_no_difference() {
    assert!(check(Some(ABC_SHA256), Some(ABC_MD5), &[b"a", b"", b"bc"]).is_ok());
    assert!(check(Some(ABC_SHA256), Some(ABC_MD5), &[b"a", b"b", b"c"]).is_ok());
    let long: Vec<u8> = (0..200_000u32).map(|i| (i % 251) as u8).collect();
    let mut whole = IntegrityCheck::new(Some(String::new()), None);
    whole.update(&long);
    assert_eq!(whole.finish().err(), Some(IntegrityError::Sha256Mismatch));
    let digest = format!("{:x}", md5::compute(&long));
    let mut parts = IntegrityCheck::new(None, Some(digest));
    for part in long.chunks(777) {
        parts.update(part);
    }
    assert!(parts.finish().is_ok());
}

#[test]
fn judge_compares_the_digests_asked_for() {
    let some = |s: &str| Some(s.to_string());
    assert_eq!(judge(&some("AA"), "aa", &some("bb"), "BB"), Ok(()));
    assert_eq!(judge(&some("AA"), "ab", &some("bb"), "cc"), Err(IntegrityError::Sha256Mismatch));
    assert_eq!(judge(&some("AA"), "aa", &some("bb"), "cc"), Err(IntegrityError::Md5Mismatch));
    assert_eq!(judge(&None, "aa", &None, "cc"), Ok(()));
}

#[test]
fn refusals_have_texts() {
    assert_eq!(IntegrityError::Sha256Mismatch.message(), "Integrity check failed: SHA256 mismatch");
    assert_eq!(IntegrityError::Md5Mismatch.message(), "Integrity check failed: MD5 mismatch");
}
