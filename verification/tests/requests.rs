use reqwest::header::HeaderMap;
use surge::chunk::Chunk;
use surge::downloader::{DownloadTarget, Downloader};
use surge::fetch::{ChunkTask, Reply};
use surge::headers::{request_headers, HeaderError};

fn build(lines: &[&str], cookie: Option<&str>, referer: Option<&str>) -> Result<HeaderMap, HeaderError> {
    let lines: Vec<String> = lines.iter().map(|l| l.to_string()).collect();
    request_headers(&lines, &cookie.map(String::from), &referer.map(String::from))
}

#[test]
fn lines_become_headers() {
    let map = build(&["Authorization: Bearer token", "X-Time:  12:30 "], None, None).unwrap();
    assert_eq!(map.len(), 2);
    assert_eq!(map.get("authorization").unwrap(), "Bearer token");
    assert_eq!(map.get("x-time").unwrap(), "12:30");
}

#[test]
fn lines_without_a_colon_are_ignored() {
    let map = build(&["no colon here", "A: b", ""], None, None).unwrap();
    assert_eq!(map.len(), 1);
    assert_eq!(map.get("a").unwrap(), "b");
}

#[test]
fn later_header_of_the_same_name_wins() {
    let map = build(&["Accept: a", "ACCEPT: b"], None, None).unwrap();
    assert_eq!(map.len(), 1);
    assert_eq!(map.get("accept").unwrap(), "b");
    assert_eq!(map.get_all("accept").iter().count(), 1);
}

#[test]
fn cookie_and_referer_win_over_lines() {
    let map = build(
        &["Cookie: old", "Referer: old", "X: y"],
        Some("session=123"),
        Some("https://example.com/"),
    )
    .unwrap();
    assert_eq!(map.len(), 3);
    assert_eq!(map.get("cookie").unwrap(), "session=123");
    assert_eq!(map.get("referer").unwrap(), "https://example.com/");
}

#[test]
fn cookie_is_not_trimmed() {
    let map = build(&[], Some(" a "), None).unwrap();
    assert_eq!(map.get("cookie").unwrap(), " a ");
}

#[test]
fn bad_names_are_refused() {
    for line in [": value", "a b: c", "é: x", "a\u{7f}: x", "(a): x", "a\"b: x"] {
        assert_eq!(build(&[line], None, None).unwrap_err(), HeaderError::InvalidName, "{}", line);
    }
    let long = "n".repeat(65_535);
    assert!(build(&[&format!("{}: v", long)], None, None).is_ok());
    assert_eq!(
        build(&[&format!("{}n: v", long)], None, None).unwrap_err(),
        HeaderError::InvalidName
    );
}

#[test]
fn every_name_character_is_accepted() {
    let name = "!#$%&'*+-.^_`|~09azAZ";
    let map = build(&[&format!("{}: v", name)], None, None).unwrap();
    assert_eq!(map.get("!#$%&'*+-.^_`|~09azaz").unwrap(), "v");
}

#[test]
fn bad_values_are_refused() {
    assert_eq!(build(&["a: b\u{1}c"], None, None).unwrap_err(), HeaderError::InvalidValue);
    assert_eq!(build(&["a: b\u{7f}"], None, None).unwrap_err(), HeaderError::InvalidValue);
    assert_eq!(build(&[], Some("a\nb"), None).unwrap_err(), HeaderError::InvalidValue);
    assert_eq!(build(&[], None, Some("a\rb")).unwrap_err(), HeaderError::InvalidValue);
    let map = build(&["a: b\tc", "u: grün"], None, None).unwrap();
    assert_eq!(map.get("a").unwrap(), "b\tc");
    assert_eq!(map.get("u").unwrap().as_bytes(), "grün".as_bytes());
}

#[test]
fn first_error_counts() {
    assert_eq!(
        build(&["ok: 1", "a b: \u{1}", "c: \u{1}"], Some("\n"), None).unwrap_err(),
        HeaderError::InvalidName
    );
    assert_eq!(
        build(&["c: \u{1}", "a b: 1"], None, None).unwrap_err(),
        HeaderError::InvalidValue
    );
}

#[test]
fn many_headers_fit() {
    let lines: Vec<String> = (0..6551).map(|i| format!("x-{}: {}", i, i)).collect();
    let map = request_headers(&lines, &Some("c".to_string()), &Some("r".to_string())).unwrap();
    assert_eq!(map.len(), 6553);
    assert_eq!(map.get("x-6550").unwrap(), "6550");
}

#[test]
fn many_lines_with_few_names_fit() {
    let lines: Vec<String> = (0..40_000).map(|i| format!("X-{}: {}", i % 7, i)).collect();
    let map = request_headers(&lines, &Some("c".to_string()), &None).unwrap();
    assert_eq!(map.len(), 8);
    assert_eq!(map.get("x-6").unwrap(), "39997");
    let same: Vec<String> = (0..7000).map(|i| format!("A: {}", i)).collect();
    assert_eq!(request_headers(&same, &None, &None).unwrap().len(), 1);
}

#[test]
fn full_table_is_reported() {
    let lines: Vec<String> = (0..40_000).map(|i| format!("x-{}: {}", i, i)).collect();
    assert_eq!(request_headers(&lines, &None, &None).unwrap_err(), HeaderError::TooMany);
}

#[test]
fn header_errors_have_texts() {
    assert_eq!(HeaderError::InvalidName.message(), "invalid HTTP header name");
    assert_eq!(HeaderError::InvalidValue.message(), "failed to parse header value");
    assert_eq!(HeaderError::TooMany.message(), "max size reached");
}

#[test]
fn requests_go_to_the_target_of_their_chunk() {
    let mut d = Downloader::new(
        "https://example.com/a".to_string(),
        None,
        8,
        false,
        vec!["X-A: b".to_string()],
        None,
        None,
        None,
        None,
        None,
        false,
        false,
    )
    .unwrap();
    d.targets = vec![
        DownloadTarget { url: "https://example.com/v".to_string(), path: "video".to_string() },
        DownloadTarget { url: "https://example.com/s".to_string(), path: "sound".to_string() },
    ];
    for (idx, url, path) in [(0, "https://example.com/v", "video"), (1, "https://example.com/s", "sound")] {
        let mut task = ChunkTask::new(0, Chunk { start: 100, end: 199, target_idx: idx });
        let request = d.chunk_request(&task).unwrap();
        assert_eq!((request.url, request.path), (url, path));
        assert_eq!(request.range, "bytes=100-199");
        assert_eq!(request.headers, &d.headers);
        assert_eq!(request.headers.get("x-a").unwrap(), "b");
        assert!(request.headers.get("range").is_none());
        task.on_reply(Reply::Status(206));
        task.on_data(30);
        task.on_body_end();
        let request = d.chunk_request(&task).unwrap();
        assert_eq!((request.url, request.range.as_str()), (url, "bytes=130-199"));
        task.on_reply(Reply::Status(206));
        task.on_data(70);
        task.on_body_end();
        assert!(d.chunk_request(&task).is_none());
    }
    let mut task = ChunkTask::new(0, Chunk { start: 0, end: 9, target_idx: 0 });
    for _ in 0..3 {
        assert!(d.chunk_request(&task).is_some());
        task.on_reply(Reply::Nothing);
    }
    assert!(d.chunk_request(&task).is_none());
}
