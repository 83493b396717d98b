//! The course of a download, from the first request to the check of the finished file.
use vstd::prelude::*;
use vstd::string::*;
use crate::chunk::{pieces, whole, whole_chunk, Chunk};
use crate::downloader::{Downloader, Setup};
use crate::fetch::{only_unauthorized_reads_401, WorkerError};

verus! {

/// Where a download stands: what it waits for.
#[derive(Clone, Copy, Debug, PartialEq, Eq, Structural)]
pub enum Stage {
    Start,
    /// For what the server says of target number `idx`.
    Inspecting { idx: usize },
    /// For the file of target number `idx`.
    Allocating { idx: usize, size: u64, ranges: bool },
    /// For the workers.
    Downloading,
    /// For the program that takes over from the workers.
    FallingBack,
    /// For the program that merges the targets.
    Merging,
    /// For the check of the digests.
    Verifying,
    /// For nothing more.
    Over,
}

/// What has happened.
#[derive(Clone, Copy, Debug, PartialEq, Eq, Structural)]
pub enum RunEvent {
    Begin,
    /// The server told the size of a target and whether it sends parts of it.
    Inspected { size: u64, ranges: bool },
    /// The file of a target is there.
    Allocated,
    /// The workers have fetched all chunks.
    Downloaded,
    /// A worker failed, maybe because the server asked for credentials.
    DownloadFailed { unauthorized: bool },
    /// The program that took over has ended.
    ToolExited { success: bool },
    /// The program that merges the targets has ended.
    Merged,
    /// The file has the digests that were asked for.
    Verified,
    /// What was waited for went wrong.
    Failed,
}

/// Why a download failed.
#[derive(Clone, Copy, Debug, PartialEq, Eq, Structural)]
pub enum RunError {
    NothingToDownload,
    FallbackFailed,
}

impl RunError {
    pub open spec fn text(self) -> Seq<char> {
        match self {
            RunError::NothingToDownload => "Nothing to download."@,
            RunError::FallbackFailed => "yt-dlp fallback failed"@,
        }
    }

    pub fn message(&self) -> (r: String)
        ensures
            r@ == self.text(),
    {
        match self {
            RunError::NothingToDownload => "Nothing to download.".to_string(),
            RunError::FallbackFailed => "yt-dlp fallback failed".to_string(),
        }
    }
}

/// What to do next.
#[derive(Clone, Copy, Debug, PartialEq, Eq, Structural)]
pub enum RunAction {
    /// Ask the server about this target.
    Inspect(usize),
    /// Make the file of this target, with this size.
    Allocate(usize, u64),
    /// Let the workers fetch all chunks.
    Download,
    /// Let another program fetch the file.
    RunTool,
    /// Merge the targets into the output.
    Merge,
    /// Check the digests of the output.
    Verify,
    /// Be done.
    Finish,
    /// Give up.
    Fail(RunError),
    /// Give up with the error of what was waited for.
    Abort,
}

/// A download under way.
pub struct Run {
    pub stage: Stage,
    /// The chunks of the targets inspected so far.
    pub chunks: Vec<Chunk>,
    /// The size of the targets inspected so far.
    pub total: u64,
}

/// A download under way, as a value.
#[verifier::ext_equal]
pub struct RunState {
    pub stage: Stage,
    pub chunks: Seq<Chunk>,
    pub total: int,
}

impl View for Run {
    type V = RunState;

    open spec fn view(&self) -> RunState {
        RunState { stage: self.stage, chunks: self.chunks@, total: self.total as int }
    }
}

impl Run {
    pub fn new() -> (run: Run)
        ensures
            run@ == RunState::start(),
            forall|d: Downloader| #[trigger] run@.wf(d),
    {
        Run { stage: Stage::Start, chunks: Vec::new(), total: 0 }
    }
}

/// The chunks of a target: its pieces, or all of it at once where the server does not
/// send parts.
pub open spec fn chunks_of(size: u64, ranges: bool, idx: usize) -> Seq<Chunk> {
    if ranges {
        pieces(size, idx)
    } else {
        seq![whole_chunk(size, idx)]
    }
}

impl RunState {
    pub open spec fn start() -> RunState {
        RunState { stage: Stage::Start, chunks: Seq::empty(), total: 0 }
    }

    pub open spec fn at(self, stage: Stage) -> RunState {
        RunState { stage, ..self }
    }

    /// The stage names a target of `d`, and so does each chunk.
    pub open spec fn wf(self, d: Downloader) -> bool {
        &&& match self.stage {
            Stage::Inspecting { idx } => idx < d.targets@.len(),
            Stage::Allocating { idx, .. } => idx < d.targets@.len(),
            _ => true,
        }
        &&& forall|i: int|
            0 <= i < self.chunks.len() ==> (#[trigger] self.chunks[i]).target_idx
                < d.targets@.len()
    }

    /// What this stage waits for, and what it can go on from.
    pub open spec fn accepts(self, event: RunEvent) -> bool {
        match (self.stage, event) {
            (Stage::Start, RunEvent::Begin) => true,
            (Stage::Inspecting { .. }, RunEvent::Inspected { size, .. }) => self.total + size
                <= u64::MAX,
            (Stage::Allocating { .. }, RunEvent::Allocated) => true,
            (Stage::Downloading, RunEvent::Downloaded) => true,
            (Stage::Downloading, RunEvent::DownloadFailed { .. }) => true,
            (Stage::FallingBack, RunEvent::ToolExited { .. }) => true,
            (Stage::Merging, RunEvent::Merged) => true,
            (Stage::Verifying, RunEvent::Verified) => true,
            (Stage::Inspecting { .. }, RunEvent::Failed) => true,
            (Stage::Allocating { .. }, RunEvent::Failed) => true,
            (Stage::FallingBack, RunEvent::Failed) => true,
            (Stage::Merging, RunEvent::Failed) => true,
            (Stage::Verifying, RunEvent::Failed) => true,
            _ => false,
        }
    }

    /// The file is there: check its digests, if any was asked for.
    pub open spec fn settle(self, d: Downloader) -> (RunState, RunAction) {
        if d.wants_digest() {
            (self.at(Stage::Verifying), RunAction::Verify)
        } else {
            (self.at(Stage::Over), RunAction::Finish)
        }
    }

    pub open spec fn fail(self, e: RunError) -> (RunState, RunAction) {
        (self.at(Stage::Over), RunAction::Fail(e))
    }

    pub open spec fn abort(self) -> (RunState, RunAction) {
        (self.at(Stage::Over), RunAction::Abort)
    }

    /// How the download `d` goes on after `event`.
    pub open spec fn step(self, d: Downloader, event: RunEvent) -> (RunState, RunAction) {
        match (self.stage, event) {
            (Stage::Start, RunEvent::Begin) => if d.handled_by_fallback {
                self.settle(d)
            } else if d.targets@.len() == 0 {
                self.fail(RunError::NothingToDownload)
            } else {
                (self.at(Stage::Inspecting { idx: 0 }), RunAction::Inspect(0))
            },
            (Stage::Inspecting { idx }, RunEvent::Inspected { size, ranges }) => (
                RunState {
                    stage: Stage::Allocating { idx, size, ranges },
                    total: self.total + size,
                    ..self
                },
                RunAction::Allocate(idx, size),
            ),
            (Stage::Allocating { idx, size, ranges }, RunEvent::Allocated) => {
                let next = RunState {
                    chunks: self.chunks + chunks_of(size, ranges, idx),
                    ..self
                };
                if idx + 1 < d.targets@.len() {
                    let idx = (idx + 1) as usize;
                    (next.at(Stage::Inspecting { idx }), RunAction::Inspect(idx))
                } else {
                    (next.at(Stage::Downloading), RunAction::Download)
                }
            },
            (Stage::Downloading, RunEvent::Downloaded) => if d.targets@.len() > 1 {
                (self.at(Stage::Merging), RunAction::Merge)
            } else {
                self.settle(d)
            },
            (Stage::Downloading, RunEvent::DownloadFailed { unauthorized }) => if unauthorized {
                (self.at(Stage::FallingBack), RunAction::RunTool)
            } else {
                self.abort()
            },
            (Stage::FallingBack, RunEvent::ToolExited { success }) => if success {
                self.settle(d)
            } else {
                self.fail(RunError::FallbackFailed)
            },
            (Stage::Merging, RunEvent::Merged) => self.settle(d),
            (Stage::Verifying, RunEvent::Verified) => (self.at(Stage::Over), RunAction::Finish),
            _ => self.abort(),
        }
    }

    /// An upper bound on the number of events still to come.
    pub open spec fn rank(self, d: Downloader) -> int {
        match self.stage {
            Stage::Start => 2 * d.targets@.len() as int + 4,
            Stage::Inspecting { idx } => 2 * (d.targets@.len() - idx) + 3,
            Stage::Allocating { idx, .. } => 2 * (d.targets@.len() - idx) + 2,
            Stage::Downloading => 3,
            Stage::FallingBack => 2,
            Stage::Merging => 2,
            Stage::Verifying => 1,
            Stage::Over => 0,
        }
    }
}

/// Whether a failure with this text means that the server asked for credentials.
pub open spec fn asks_for_credentials(message: Seq<char>) -> bool {
    message == "401"@
}

/// Whether a worker failed because the server asked for credentials, by the text of its
/// failure.
pub fn is_unauthorized(message: &String) -> (r: bool)
    ensures
        r == (message@ == "401"@),
        r == asks_for_credentials(message@),
{
    *message == "401".to_string()
}

impl Downloader {
    fn settle(&self, run: &mut Run) -> (action: RunAction)
        ensures
            (final(run)@, action) == old(run)@.settle(*self),
    {
        if self.sha256.is_some() || self.md5.is_some() {
            run.stage = Stage::Verifying;
            RunAction::Verify
        } else {
            run.stage = Stage::Over;
            RunAction::Finish
        }
    }

    /// Takes the download on after `event`.
    pub fn run(&self, run: &mut Run, event: RunEvent) -> (action: RunAction)
        requires
            old(run)@.wf(*self),
            old(run)@.accepts(event),
        ensures
            (final(run)@, action) == old(run)@.step(*self, event),
            final(run)@.wf(*self),
    {
        match (run.stage, event) {
            (Stage::Start, RunEvent::Begin) => {
                if self.handled_by_fallback {
                    self.settle(run)
                } else if self.targets.len() == 0 {
                    run.stage = Stage::Over;
                    RunAction::Fail(RunError::NothingToDownload)
                } else {
                    run.stage = Stage::Inspecting { idx: 0 };
                    RunAction::Inspect(0)
                }
            },
            (Stage::Inspecting { idx }, RunEvent::Inspected { size, ranges }) => {
                run.total = run.total + size;
                run.stage = Stage::Allocating { idx, size, ranges };
                RunAction::Allocate(idx, size)
            },
            (Stage::Allocating { idx, size, ranges }, RunEvent::Allocated) => {
                if ranges {
                    let mut chunks = self.partition_for_target(size, idx);
                    run.chunks.append(&mut chunks);
                } else {
                    run.chunks.push(whole(size, idx));
                }
                assert(run.chunks@ =~= old(run).chunks@ + chunks_of(size, ranges, idx));
                let count: usize = self.targets.len();
                if idx + 1 < count {
                    run.stage = Stage::Inspecting { idx: idx + 1 };
                    RunAction::Inspect(idx + 1)
                } else {
                    run.stage = Stage::Downloading;
                    RunAction::Download
                }
            },
            (Stage::Downloading, RunEvent::Downloaded) => {
                if self.targets.len() > 1 {
                    run.stage = Stage::Merging;
                    RunAction::Merge
                } else {
                    self.settle(run)
                }
            },
            (Stage::Downloading, RunEvent::DownloadFailed { unauthorized }) => {
                if unauthorized {
                    run.stage = Stage::FallingBack;
                    RunAction::RunTool
                } else {
                    run.stage = Stage::Over;
                    RunAction::Abort
                }
            },
            (Stage::FallingBack, RunEvent::ToolExited { success }) => {
                if success {
                    self.settle(run)
                } else {
                    run.stage = Stage::Over;
                    RunAction::Fail(RunError::FallbackFailed)
                }
            },
            (Stage::Merging, RunEvent::Merged) => self.settle(run),
            (Stage::Verifying, RunEvent::Verified) => {
                run.stage = Stage::Over;
                RunAction::Finish
            },
            _ => {
                run.stage = Stage::Over;
                RunAction::Abort
            },
        }
    }
}

/// A download for which a digest was asked ends well only with a file that has it.
pub proof fn finishes_only_when_verified(state: RunState, d: Downloader, event: RunEvent)
    requires
        state.wf(d),
        state.accepts(event),
        d.wants_digest(),
        state.step(d, event).1 == RunAction::Finish,
    ensures
        state.stage == Stage::Verifying,
        event == RunEvent::Verified,
{
}

/// After this event the file is there.
pub open spec fn brings_the_file(d: Downloader, event: RunEvent) -> bool {
    ||| event == RunEvent::Begin && d.handled_by_fallback
    ||| event == RunEvent::Downloaded && d.targets@.len() <= 1
    ||| event == RunEvent::Merged
    ||| event == (RunEvent::ToolExited { success: true })
}

/// The digests are checked as soon as the file is there, in whatever way it came: fetched
/// beforehand, downloaded as one target, merged, or fetched by the program that took over.
pub proof fn verifies_however_the_file_came(state: RunState, d: Downloader, event: RunEvent)
    requires
        state.wf(d),
        state.accepts(event),
        d.wants_digest(),
        brings_the_file(d, event),
    ensures
        state.step(d, event).1 == RunAction::Verify,
{
}

/// Another program takes over if and only if a worker failed because the server asked for
/// credentials.
pub proof fn falls_back_only_when_unauthorized(state: RunState, d: Downloader, event: RunEvent)
    requires
        state.wf(d),
        state.accepts(event),
    ensures
        (state.step(d, event).1 == RunAction::RunTool) == (event == (RunEvent::DownloadFailed {
            unauthorized: true,
        })),
{
}

/// Targets are merged if and only if there are several and all were downloaded.
pub proof fn merges_several_targets(state: RunState, d: Downloader, event: RunEvent)
    requires
        state.wf(d),
        state.accepts(event),
    ensures
        (state.step(d, event).1 == RunAction::Merge) == (event == RunEvent::Downloaded
            && d.targets@.len() > 1),
{
}

/// A download that was set up starts with its only target, unless the file is already
/// there.
pub proof fn set_up_download_has_something_to_do(
    setup: Setup,
    d: Downloader,
    upper: spec_fn(Seq<char>) -> Seq<char>,
)
    requires
        setup.makes(d, upper),
    ensures
        RunState::start().step(d, RunEvent::Begin).1 == if !setup.handled() {
            RunAction::Inspect(0)
        } else if d.wants_digest() {
            RunAction::Verify
        } else {
            RunAction::Finish
        },
{
}

/// Every event brings the download closer to its end, which it therefore reaches.
pub proof fn every_event_leads_on(state: RunState, d: Downloader, event: RunEvent)
    requires
        state.wf(d),
        state.accepts(event),
    ensures
        0 <= state.step(d, event).0.rank(d) < state.rank(d),
        state.step(d, event).0.wf(d),
        (state.step(d, event).0.rank(d) == 0) == (state.step(d, event).1 == RunAction::Finish
            || state.step(d, event).1 == RunAction::Abort || state.step(d, event).1 is Fail),
{
    assert(d.targets.len() == d.targets@.len());
}

/// The chunks and the total size of the first `n` targets, of which the server said this.
pub open spec fn plan(probes: Seq<(u64, bool)>, n: nat) -> (Seq<Chunk>, int)
    decreases n,
{
    if n == 0 {
        (Seq::empty(), 0)
    } else {
        let (chunks, total) = plan(probes, (n - 1) as nat);
        let (size, ranges) = probes[n - 1];
        (chunks + chunks_of(size, ranges, (n - 1) as usize), total + size)
    }
}

/// The state after the first `n` targets were inspected and their files made.
pub open spec fn after_targets(d: Downloader, probes: Seq<(u64, bool)>, n: nat) -> (
    RunState,
    RunAction,
)
    decreases n,
{
    if n == 0 {
        RunState::start().step(d, RunEvent::Begin)
    } else {
        let (size, ranges) = probes[n - 1];
        let inspected = after_targets(d, probes, (n - 1) as nat).0.step(
            d,
            RunEvent::Inspected { size, ranges },
        ).0;
        inspected.step(d, RunEvent::Allocated)
    }
}

/// The workers get the chunks of all targets, in order, and the sum of their sizes. Each chunk
/// names one of the targets.
pub proof fn workers_get_the_chunks_of_all_targets(
    d: Downloader,
    probes: Seq<(u64, bool)>,
    n: nat,
)
    requires
        !d.handled_by_fallback,
        n <= d.targets@.len(),
        d.targets@.len() > 0,
        probes.len() == d.targets@.len(),
    ensures
        ({
            let (state, action) = after_targets(d, probes, n);
            &&& state.wf(d)
            &&& state.chunks == plan(probes, n).0
            &&& state.total == plan(probes, n).1
            &&& if n < d.targets@.len() {
                &&& state.stage == (Stage::Inspecting { idx: n as usize })
                &&& action == RunAction::Inspect(n as usize)
            } else {
                &&& state.stage == Stage::Downloading
                &&& action == RunAction::Download
            }
        }),
    decreases n,
{
    assert(d.targets.len() == d.targets@.len());
    if n > 0 {
        workers_get_the_chunks_of_all_targets(d, probes, (n - 1) as nat);
    }
}

/// Of all failures of workers, only the one that asks for credentials is taken for it; nor is
/// any text but that of three certain digits.
pub proof fn credentials_are_told_by_the_text(e: WorkerError, message: Seq<char>)
    ensures
        asks_for_credentials(e.text()) <==> e == WorkerError::Unauthorized,
        asks_for_credentials(message) <==> message == seq!['4', '0', '1'],
{
    only_unauthorized_reads_401(e);
    reveal_strlit("401");
    assert("401"@ =~= seq!['4', '0', '1']);
}

/// A download begins with its first target. It fails if and only if there is none and no other
/// program has fetched the file; if one has, nothing is downloaded any more.
pub proof fn download_begins_with_its_first_target(state: RunState, d: Downloader)
    requires
        state.stage == Stage::Start,
    ensures
        ({
            let (next, action) = state.step(d, RunEvent::Begin);
            &&& next.chunks == state.chunks
            &&& next.total == state.total
            &&& if d.handled_by_fallback {
                action == if d.sha256 is Some || d.md5 is Some {
                    RunAction::Verify
                } else {
                    RunAction::Finish
                }
            } else if d.targets@.len() == 0 {
                action == RunAction::Fail(RunError::NothingToDownload) && next.stage == Stage::Over
            } else {
                action == RunAction::Inspect(0) && next.stage == (Stage::Inspecting { idx: 0 })
            }
        }),
{
}

/// The file of a target is made with as many bytes as the server says that the target has, no
/// matter which target it is or whether the server sends parts; the total grows by as many.
pub proof fn inspected_target_gets_a_file_of_its_size(
    state: RunState,
    d: Downloader,
    idx: usize,
    size: u64,
    ranges: bool,
)
    requires
        state.stage == (Stage::Inspecting { idx }),
    ensures
        ({
            let (next, action) = state.step(d, RunEvent::Inspected { size, ranges });
            &&& action == RunAction::Allocate(idx, size)
            &&& next.stage == (Stage::Allocating { idx, size, ranges })
            &&& next.total == state.total + size
            &&& next.chunks == state.chunks
        }),
{
}

/// Once the file of a target is there, the chunks of the target join those before, and the next
/// target is inspected; the download starts after the last one.
pub proof fn allocated_target_adds_its_chunks(
    state: RunState,
    d: Downloader,
    idx: usize,
    size: u64,
    ranges: bool,
)
    requires
        state.stage == (Stage::Allocating { idx, size, ranges }),
        idx < d.targets@.len(),
    ensures
        ({
            let (next, action) = state.step(d, RunEvent::Allocated);
            &&& next.total == state.total
            &&& ranges ==> next.chunks == state.chunks + pieces(size, idx)
            &&& !ranges ==> next.chunks == state.chunks.push(whole_chunk(size, idx))
            &&& if idx + 1 < d.targets@.len() {
                &&& action matches RunAction::Inspect(i) && i == idx + 1
                &&& next.stage matches Stage::Inspecting { idx: i } && i == idx + 1
            } else {
                action == RunAction::Download && next.stage == Stage::Downloading
            }
        }),
{
    assert(d.targets.len() == d.targets@.len());
    assert(state.chunks + seq![whole_chunk(size, idx)] =~= state.chunks.push(
        whole_chunk(size, idx),
    ));
}

/// When the chunks are fetched, several targets are merged. Then, or after another program
/// succeeded in place of the workers, the digests are checked if one was asked for, and only
/// then; with that the download is over.
pub proof fn fetched_file_is_merged_and_checked(state: RunState, d: Downloader, event: RunEvent)
    requires
        state.accepts(event),
    ensures
        ({
            let (next, action) = state.step(d, event);
            let digest = d.sha256 is Some || d.md5 is Some;
            let fetched = {
                ||| event == RunEvent::Downloaded && d.targets@.len() <= 1
                ||| event == RunEvent::Merged
                ||| event == (RunEvent::ToolExited { success: true })
            };
            &&& d.wants_digest() <==> digest
            &&& event == RunEvent::Downloaded && d.targets@.len() > 1 ==> action
                == RunAction::Merge && next.stage == Stage::Merging
            &&& fetched && digest ==> action == RunAction::Verify && next.stage == Stage::Verifying
            &&& fetched && !digest ==> action == RunAction::Finish && next.stage == Stage::Over
            &&& event == RunEvent::Verified ==> action == RunAction::Finish && next.stage
                == Stage::Over
        }),
{
}

/// What goes wrong ends the download, but for a server that asks for credentials: then another
/// program is tried, and the download fails only if that does.
pub proof fn failures_end_the_download(state: RunState, d: Downloader, event: RunEvent)
    requires
        state.accepts(event),
    ensures
        ({
            let (next, action) = state.step(d, event);
            &&& event == RunEvent::Failed ==> action == RunAction::Abort && next.stage
                == Stage::Over
            &&& event == (RunEvent::DownloadFailed { unauthorized: false }) ==> action
                == RunAction::Abort && next.stage == Stage::Over
            &&& event == (RunEvent::DownloadFailed { unauthorized: true }) ==> action
                == RunAction::RunTool && next.stage == Stage::FallingBack
            &&& event == (RunEvent::ToolExited { success: false }) ==> action == RunAction::Fail(
                RunError::FallbackFailed,
            ) && next.stage == Stage::Over
            &&& action == RunAction::Abort ==> event == RunEvent::Failed || event == (
            RunEvent::DownloadFailed { unauthorized: false })
        }),
{
}

/// Each stage waits for its own events, and for that of a failure where one can happen; nothing
/// happens any more once a download is over.
pub proof fn each_stage_waits_for_its_events(state: RunState, event: RunEvent)
    ensures
        state.accepts(event) <==> match event {
            RunEvent::Begin => state.stage == Stage::Start,
            RunEvent::Inspected { size, .. } => state.stage is Inspecting && state.total + size
                < 0x1_0000_0000_0000_0000,
            RunEvent::Allocated => state.stage is Allocating,
            RunEvent::Downloaded => state.stage == Stage::Downloading,
            RunEvent::DownloadFailed { .. } => state.stage == Stage::Downloading,
            RunEvent::ToolExited { .. } => state.stage == Stage::FallingBack,
            RunEvent::Merged => state.stage == Stage::Merging,
            RunEvent::Verified => state.stage == Stage::Verifying,
            RunEvent::Failed => state.stage is Inspecting || state.stage is Allocating
                || state.stage == Stage::FallingBack || state.stage == Stage::Merging || state.stage
                == Stage::Verifying,
        },
        RunState::start().stage == Stage::Start,
        RunState::start().chunks.len() == 0,
        RunState::start().total == 0,
{
}

/// Why a download failed is told in these words.
pub proof fn run_errors_read_so(e: RunError)
    ensures
        e.text() == match e {
            RunError::NothingToDownload => "Nothing to download."@,
            RunError::FallbackFailed => "yt-dlp fallback failed"@,
        },
{
}

/// A download under way is seen as it is: its stage, its chunks and its total.
pub proof fn run_is_seen_as_it_is(run: Run)
    ensures
        run@.stage == run.stage,
        run@.chunks == run.chunks@,
        run@.total == run.total,
{
}

} // verus!
