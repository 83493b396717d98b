use surge::downloader::{
    client_settings, detected_filename, output_of, video_command, video_platform, ClientSettings,
    DownloadTarget, Downloader, SetupError,
};
use surge::headers::HeaderError;
use surge::rate::RateError;

fn some(s: &str) -> Option<String> {
    Some(s.to_string())
}

fn set_up(url: &str, lines: &[&str], limit: Option<&str>, fetched: bool) -> Option<Result<Downloader, SetupError>> {
    Downloader::checked_new(
        url.to_string(),
        None,
        8,
        true,
        lines.iter().map(|l| l.to_string()).collect(),
        some("c=1"),
        None,
        some("ab"),
        None,
        limit.map(String::from),
        true,
        fetched,
    )
}

#[test]
fn video_platforms_are_recognised() {
    for url in [
        "https://www.youtube.com/watch?v=1",
        "https://youtu.be/1",
        "https://facebook.com/v",
        "https://www.instagram.com/p/1",
        "https://tiktok.com/@a/video/1",
        "https://example.com/?u=youtube.com",
    ] {
        assert!(video_platform(url), "{}", url);
    }
    for url in ["https://example.com/youtube", "https://YOUTUBE.COM/", "", "youtube.co"] {
        assert!(!video_platform(url), "{}", url);
    }
}

#[test]
fn file_is_named_after_the_last_segment() {
    assert_eq!(output_of("https://example.com/a/b.zip?x=1#y", &None).unwrap(), "b.zip");
    assert_eq!(output_of("https://example.com/a/", &None).unwrap(), "download");
    assert_eq!(output_of("https://example.com", &None).unwrap(), "download");
    assert_eq!(output_of("data:text/plain,Hello", &None).unwrap(), "download");
    assert_eq!(output_of("mailto:a/b", &None).unwrap(), "download");
    assert_eq!(output_of("https://example.com//a//b", &None).unwrap(), "b");
    assert_eq!(output_of("https://example.com/a//", &None).unwrap(), "download");
    assert_eq!(output_of("https://example.com/a%2Fb", &None).unwrap(), "a%2Fb");
    assert_eq!(output_of("https://example.com/việt nam", &None).unwrap(), "vi%E1%BB%87t%20nam");
    assert_eq!(output_of("https://example.com/a", &some("out/x")).unwrap(), "out/x");
    assert_eq!(output_of("https://example.com/a", &some("")).unwrap(), "");
}

#[test]
fn name_comes_from_the_segments() {
    assert_eq!(detected_filename(&None), "download");
    assert_eq!(detected_filename(&Some(vec![])), "download");
    assert_eq!(detected_filename(&Some(vec!["a".to_string(), String::new()])), "download");
    assert_eq!(detected_filename(&Some(vec!["a".to_string(), "b".to_string()])), "b");
}

#[test]
fn text_that_is_no_url_is_refused() {
    match output_of("not a url", &some("x")) {
        Err(SetupError::Url(e)) => assert_eq!(e, url::ParseError::RelativeUrlWithoutBase),
        _ => panic!("accepted"),
    }
    match set_up("http://", &["a b: c"], Some("0"), false) {
        Some(Err(SetupError::Url(e))) => {
            assert_eq!(e, url::ParseError::EmptyHost);
            assert_eq!(SetupError::Url(e).message(), "Failed to parse URL");
        }
        _ => panic!("accepted"),
    }
}

#[test]
fn video_command_line() {
    let c = video_command("https://youtu.be/1", &some("v.mp4"), &None, &None).unwrap().unwrap();
    assert_eq!(c.program, "yt-dlp");
    assert_eq!(
        c.args,
        ["-f", "bestvideo+bestaudio/best", "-o", "v.mp4", "https://youtu.be/1", "--cookies-from-browser", "chrome"]
    );
    let c = video_command("https://youtu.be/1", &None, &some("best"), &some("jar.txt")).unwrap().unwrap();
    assert_eq!(c.args, ["-f", "best", "-o", "1", "https://youtu.be/1", "--cookies", "jar.txt"]);
    assert!(video_command("https://example.com/1", &None, &None, &None).unwrap().is_none());
    assert!(video_command("youtu.be", &None, &None, &None).is_err());
}

#[test]
fn pool_size_follows_the_workers() {
    let pool = |concurrency, auto| client_settings(concurrency, false, auto).pool_size;
    assert_eq!(pool(8, false), 32);
    assert_eq!(pool(32, false), 32);
    assert_eq!(pool(64, false), 64);
    assert_eq!(pool(500, true), 128);
    assert_eq!(client_settings(1, true, false), ClientSettings { pool_size: 32, insecure: true });
}

#[test]
fn direct_download_has_one_target() {
    let d = set_up("https://example.com/f.bin", &["X-A: b"], Some("10m"), true).unwrap().unwrap();
    assert_eq!(d.url, "https://example.com/f.bin");
    assert_eq!(d.final_output, "f.bin");
    assert!(!d.handled_by_fallback);
    assert_eq!(d.targets.len(), 1);
    assert_eq!(d.targets[0].url, d.url);
    assert_eq!(d.targets[0].path, "f.bin");
    assert_eq!(d.client, Some(ClientSettings { pool_size: 128, insecure: true }));
    assert_eq!(d.headers.get("x-a").unwrap(), "b");
    assert_eq!(d.headers.get("cookie").unwrap(), "c=1");
    assert_eq!(d.limiter.unwrap().quota.burst_size().get(), 10_485_760);
    assert_eq!(d.sha256, some("ab"));
    assert_eq!(d.md5, None);
    assert!(d.auto_concurrency);
    assert_eq!(d.initial_concurrency(), 16);
    assert_eq!(d.concurrency, 8);
}

#[test]
fn fetched_video_needs_nothing_more() {
    let d = set_up("https://youtu.be/1", &["a b: c"], Some("0"), true).unwrap().unwrap();
    assert!(d.handled_by_fallback);
    assert!(d.targets.is_empty());
    assert!(d.headers.is_empty());
    assert!(d.limiter.is_none());
    assert!(d.client.is_none());
    assert!(!d.auto_concurrency);
    assert_eq!(d.final_output, "1");
    assert_eq!(d.initial_concurrency(), 8);
}

#[test]
fn video_that_was_not_fetched_is_downloaded_directly() {
    let d = set_up("https://youtu.be/1", &[], None, false).unwrap().unwrap();
    assert!(!d.handled_by_fallback);
    assert_eq!(d.targets.len(), 1);
    assert!(d.limiter.is_none());
}

#[test]
fn failed_tool_gives_what_any_address_gives() {
    for (lines, limit) in [
        (vec!["X: y"], Some("10M")),
        (vec!["a b: c"], Some("10M")),
        (vec!["a: \u{1}"], None),
        (vec![], Some("ten")),
        (vec![], None),
    ] {
        let video = set_up("https://youtu.be/a.mp4", &lines, limit, false).unwrap();
        let other = set_up("https://example.com/a.mp4", &lines, limit, false).unwrap();
        match (video, other) {
            (Ok(d), Ok(f)) => {
                assert_eq!((d.targets.len(), f.targets.len()), (1, 1));
                assert_eq!(d.targets[0].url, "https://youtu.be/a.mp4");
                assert_eq!(d.targets[0].path, f.targets[0].path);
                assert_eq!(d.headers, f.headers);
                assert_eq!(d.client, f.client);
                assert_eq!(d.final_output, f.final_output);
                assert_eq!(d.limiter.map(|l| l.quota), f.limiter.map(|l| l.quota));
                assert!(!d.handled_by_fallback && !f.handled_by_fallback);
            }
            (Err(d), Err(f)) => assert_eq!(d.message(), f.message()),
            _ => panic!("one was refused"),
        }
    }
}

#[test]
fn header_and_rate_errors_are_reported() {
    match set_up("https://example.com/", &["a b: c"], Some("zero"), false) {
        Some(Err(SetupError::Header(e))) => assert_eq!(e, HeaderError::InvalidName),
        _ => panic!("accepted"),
    }
    match set_up("https://example.com/", &["a: \u{1}"], Some("0"), false) {
        Some(Err(SetupError::Header(e))) => assert_eq!(e, HeaderError::InvalidValue),
        _ => panic!("accepted"),
    }
    match set_up("https://example.com/", &[], Some("zero"), false) {
        Some(Err(SetupError::Rate(e))) => assert_eq!(e, RateError::InvalidNumber),
        _ => panic!("accepted"),
    }
    assert_eq!(SetupError::Rate(RateError::InvalidNumber).message(), "Invalid rate number");
    assert_eq!(
        SetupError::Header(HeaderError::InvalidName).message(),
        "invalid HTTP header name"
    );
}

#[test]
fn limits_without_cells_give_nothing() {
    for limit in ["0", "4G", "8g", "18014398509481984K"] {
        assert!(set_up("https://example.com/", &[], Some(limit), false).is_none());
    }
}

#[test]
fn many_lines_with_few_names_are_set_up() {
    let lines: Vec<&str> = std::iter::repeat("X: y").take(7000).collect();
    let d = set_up("https://example.com/", &lines, None, false).unwrap().unwrap();
    assert_eq!(d.headers.len(), 2);
    assert!(set_up("https://example.com/", &lines, Some("0"), false).is_none());
}

#[test]
fn full_table_comes_before_the_limit() {
    let lines: Vec<String> = (0..40_000).map(|i| format!("x-{}: {}", i, i)).collect();
    let lines: Vec<&str> = lines.iter().map(String::as_str).collect();
    for limit in [None, Some("1M"), Some("0")] {
        match set_up("https://example.com/", &lines, limit, false) {
            Some(Err(SetupError::Header(e))) => assert_eq!(e, HeaderError::TooMany),
            _ => panic!("accepted"),
        }
    }
}

#[test]
fn new_sets_up_what_checked_new_does() {
    let d = Downloader::new(
        "https://example.com/a".to_string(),
        some("b"),
        40,
        false,
        vec![],
        None,
        some("https://r/"),
        None,
        some("cd"),
        some("1K"),
        false,
        false,
    )
    .unwrap();
    assert_eq!(d.final_output, "b");
    assert_eq!(d.client, Some(ClientSettings { pool_size: 40, insecure: false }));
    assert_eq!(d.headers.get("referer").unwrap(), "https://r/");
    assert_eq!(d.limiter.unwrap().quota.burst_size().get(), 1024);
    assert_eq!(d.initial_concurrency(), 40);
    assert_eq!(d.partition_for_target(2048, 0).len(), 1024);
    assert_eq!(d.partition_for_target(500, 0).len(), 1);
}

#[test]
fn fallback_and_merge_command_lines() {
    let mut d = set_up("https://example.com/f.bin", &[], None, false).unwrap().unwrap();
    let c = d.fallback_command();
    assert_eq!(c.program, "yt-dlp");
    assert_eq!(c.args, ["-o", "f.bin", "https://example.com/f.bin"]);
    d.targets = vec![
        DownloadTarget { url: "u".to_string(), path: "video".to_string() },
        DownloadTarget { url: "w".to_string(), path: "audio".to_string() },
    ];
    let c = d.merge_command();
    assert_eq!(c.program, "ffmpeg");
    assert_eq!(c.args, ["-y", "-i", "video", "-i", "audio", "-c", "copy", "f.bin"]);
    assert_eq!(d.merge_leftovers(true), ["video", "audio"]);
    assert!(d.merge_leftovers(false).is_empty());
}
