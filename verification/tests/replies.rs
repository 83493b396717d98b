use surge::probe::{head_suffices, is_success, reserves_blocks, ProbeError, ResponseHead};

fn head(status: u16, range: Option<&[u8]>, length: Option<&[u8]>, accept: Option<&[u8]>) -> ResponseHead {
    ResponseHead {
        status,
        content_range: range.map(|b| b.to_vec()),
        content_length: length.map(|b| b.to_vec()),
        accept_ranges: accept.map(|b| b.to_vec()),
    }
}

#[test]
fn full_reply_states_its_length() {
    assert_eq!(head(200, None, Some(b"12345"), Some(b"bytes")).inspect(), Ok((12345, true)));
    assert_eq!(head(200, None, Some(b"12345"), Some(b"none")).inspect(), Ok((12345, false)));
    assert_eq!(head(200, None, Some(b"12345"), None).inspect(), Ok((12345, false)));
    assert_eq!(head(200, Some(b"bytes 0-9/10"), Some(b"12345"), None).inspect(), Ok((12345, true)));
    assert_eq!(head(404, None, Some(b"9"), None).inspect(), Ok((9, false)));
}

#[test]
fn partial_reply_states_the_total_behind_the_slash() {
    assert_eq!(head(206, Some(b"bytes 0-0/98765"), Some(b"1"), None).inspect(), Ok((98765, true)));
    assert_eq!(head(206, Some(b"98765"), Some(b"1"), None).inspect(), Ok((98765, true)));
    assert_eq!(head(206, Some(b"a/b/7"), None, Some(b"none")).inspect(), Ok((7, false)));
}

#[test]
fn size_that_is_not_stated_is_an_error() {
    let unknown = Err(ProbeError::UnknownSize);
    assert_eq!(head(206, Some(b"bytes 0-0/*"), Some(b"1"), None).inspect(), unknown);
    assert_eq!(head(206, Some(b"bytes 0-0/"), Some(b"1"), None).inspect(), unknown);
    assert_eq!(head(206, None, Some(b"1"), None).inspect(), unknown);
    assert_eq!(head(200, None, None, None).inspect(), unknown);
    assert_eq!(head(200, None, Some(b" 5"), None).inspect(), unknown);
    assert_eq!(head(200, None, Some(b"5\xff"), None).inspect(), unknown);
    assert_eq!(head(200, None, Some(b"5\n"), None).inspect(), unknown);
    assert_eq!(ProbeError::UnknownSize.message(), "Could not determine size");
}

#[test]
fn accept_ranges_is_compared_byte_by_byte() {
    assert_eq!(head(206, Some(b"x/3"), None, Some(b"Bytes")).inspect(), Ok((3, false)));
    assert_eq!(head(200, None, Some(b"3"), Some(b"bytes ")).inspect(), Ok((3, false)));
    assert_eq!(head(200, None, Some(b"3"), Some(b"")).inspect(), Ok((3, false)));
}

#[test]
fn only_a_successful_head_reply_will_do() {
    assert!(head_suffices(Some(200)));
    assert!(head_suffices(Some(204)));
    assert!(!head_suffices(Some(405)));
    assert!(!head_suffices(None));
    assert!(is_success(299));
    assert!(!is_success(300));
    assert!(!is_success(199));
}

#[test]
fn only_massive_files_reserve_blocks() {
    assert!(!reserves_blocks(1024 * 1024 * 1024));
    assert!(reserves_blocks(1024 * 1024 * 1024 + 1));
}
