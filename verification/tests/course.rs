use surge::chunk::Chunk;
use surge::downloader::{DownloadTarget, Downloader};
use surge::fetch::WorkerError;
use surge::run::{is_unauthorized, Run, RunAction, RunError, RunEvent, Stage};

fn downloader(targets: usize, handled: bool, digest: bool) -> Downloader {
    let mut d = Downloader::new(
        "https://example.com/a".to_string(),
        None,
        8,
        false,
        vec![],
        None,
        None,
        None,
        None,
        None,
        false,
        false,
    )
    .unwrap();
    d.targets = (0..targets)
        .map(|i| DownloadTarget { url: format!("u{}", i), path: format!("p{}", i) })
        .collect();
    d.handled_by_fallback = handled;
    if digest {
        d.md5 = Some("00".to_string());
    }
    d
}

fn play(d: &Downloader, events: &[RunEvent]) -> (Run, Vec<RunAction>) {
    let mut run = Run::new();
    let actions = events.iter().map(|e| d.run(&mut run, *e)).collect();
    (run, actions)
}

const RANGED: RunEvent = RunEvent::Inspected { size: 2048, ranges: true };
const WHOLE: RunEvent = RunEvent::Inspected { size: 500, ranges: false };

#[test]
fn one_target_is_inspected_allocated_and_downloaded() {
    let d = downloader(1, false, false);
    let (run, actions) = play(&d, &[RunEvent::Begin, RANGED, RunEvent::Allocated, RunEvent::Downloaded]);
    assert_eq!(
        actions,
        vec![RunAction::Inspect(0), RunAction::Allocate(0, 2048), RunAction::Download, RunAction::Finish]
    );
    assert_eq!(run.stage, Stage::Over);
    assert_eq!(run.chunks.len(), 1024);
    assert_eq!(run.chunks[1], Chunk { start: 2, end: 3, target_idx: 0 });
    assert_eq!(run.total, 2048);
}

#[test]
fn small_target_with_ranges_is_downloaded_whole() {
    let d = downloader(1, false, false);
    let small = RunEvent::Inspected { size: 10, ranges: true };
    let (run, actions) = play(&d, &[RunEvent::Begin, small, RunEvent::Allocated]);
    assert_eq!(actions[2], RunAction::Download);
    assert_eq!(run.chunks, vec![Chunk { start: 0, end: 9, target_idx: 0 }]);
}

#[test]
fn digest_is_checked_before_the_end() {
    let d = downloader(1, false, true);
    let events = [RunEvent::Begin, WHOLE, RunEvent::Allocated, RunEvent::Downloaded, RunEvent::Verified];
    let (run, actions) = play(&d, &events);
    assert_eq!(actions[3..], [RunAction::Verify, RunAction::Finish]);
    assert_eq!(run.chunks, vec![Chunk { start: 0, end: 499, target_idx: 0 }]);
    let events = [RunEvent::Begin, WHOLE, RunEvent::Allocated, RunEvent::Downloaded, RunEvent::Failed];
    let (_, actions) = play(&d, &events);
    assert_eq!(actions[4], RunAction::Abort);
}

#[test]
fn several_targets_are_merged() {
    let d = downloader(2, false, true);
    let (run, actions) = play(
        &d,
        &[
            RunEvent::Begin,
            RANGED,
            RunEvent::Allocated,
            WHOLE,
            RunEvent::Allocated,
            RunEvent::Downloaded,
            RunEvent::Merged,
            RunEvent::Verified,
        ],
    );
    assert_eq!(
        actions,
        vec![
            RunAction::Inspect(0),
            RunAction::Allocate(0, 2048),
            RunAction::Inspect(1),
            RunAction::Allocate(1, 500),
            RunAction::Download,
            RunAction::Merge,
            RunAction::Verify,
            RunAction::Finish,
        ]
    );
    assert_eq!(run.chunks.len(), 1025);
    assert_eq!(run.chunks[1024], Chunk { start: 0, end: 499, target_idx: 1 });
    assert_eq!(run.total, 2548);
    assert!(run.chunks.iter().all(|c| c.target_idx < d.targets.len()));
}

#[test]
fn fetched_file_is_only_checked() {
    let (_, actions) = play(&downloader(0, true, true), &[RunEvent::Begin, RunEvent::Verified]);
    assert_eq!(actions, vec![RunAction::Verify, RunAction::Finish]);
    let (_, actions) = play(&downloader(0, true, false), &[RunEvent::Begin]);
    assert_eq!(actions, vec![RunAction::Finish]);
}

#[test]
fn nothing_to_download_is_an_error() {
    let (_, actions) = play(&downloader(0, false, false), &[RunEvent::Begin]);
    assert_eq!(actions, vec![RunAction::Fail(RunError::NothingToDownload)]);
    assert_eq!(RunError::NothingToDownload.message(), "Nothing to download.");
}

#[test]
fn unauthorized_download_falls_back() {
    let begin = [RunEvent::Begin, WHOLE, RunEvent::Allocated, RunEvent::DownloadFailed { unauthorized: true }];
    let d = downloader(1, false, true);
    let mut events = begin.to_vec();
    events.extend([RunEvent::ToolExited { success: true }, RunEvent::Verified]);
    let (_, actions) = play(&d, &events);
    assert_eq!(actions[3..], [RunAction::RunTool, RunAction::Verify, RunAction::Finish]);
    let mut events = begin.to_vec();
    events.push(RunEvent::ToolExited { success: false });
    let (_, actions) = play(&d, &events);
    assert_eq!(actions[4], RunAction::Fail(RunError::FallbackFailed));
    assert_eq!(RunError::FallbackFailed.message(), "yt-dlp fallback failed");
}

#[test]
fn other_failures_end_the_download() {
    let d = downloader(1, false, false);
    let aborted = RunAction::Abort;
    let (_, actions) = play(
        &d,
        &[RunEvent::Begin, WHOLE, RunEvent::Allocated, RunEvent::DownloadFailed { unauthorized: false }],
    );
    assert_eq!(actions[3], aborted);
    assert_eq!(play(&d, &[RunEvent::Begin, RunEvent::Failed]).1[1], aborted);
    assert_eq!(play(&d, &[RunEvent::Begin, WHOLE, RunEvent::Failed]).1[2], aborted);
}

#[test]
fn failure_text_tells_whether_credentials_are_missing() {
    assert!(is_unauthorized(&WorkerError::Unauthorized.message()));
    assert!(!is_unauthorized(&WorkerError::Exhausted(401).message()));
    assert!(!is_unauthorized(&"401 ".to_string()));
}
