//! One worker fetching one chunk: which range to ask for next, what a reply leads to,
//! and how much progress to report.
use vstd::prelude::*;
use vstd::string::*;
use crate::chunk::{each_byte_is_in_one_piece, pieces, whole_chunk, Chunk};
use crate::probe::is_success;
use crate::text::{
    all_digits, decimal, decimal_is_shortest_and_unique, digits_value, first_of,
    first_of_is_the_first, is_digit, u64_to_string,
};

verus! {

/// How many failed requests end the work on a chunk.
pub const MAX_RETRIES: u32 = 3;

/// How long a worker waits after a failed request.
pub const RETRY_PAUSE_MILLIS: u64 = 500;

/// How many bytes gather before a worker reports progress.
pub const PROGRESS_BATCH: u64 = 0x20_0000;

/// The status of a reply to a request without valid credentials.
pub const UNAUTHORIZED: u16 = 401;

/// Why a worker gave up.
#[derive(Clone, Copy, Debug, PartialEq, Eq, Structural)]
pub enum WorkerError {
    /// The server asked for credentials.
    Unauthorized,
    /// The requests of this worker failed too often.
    Exhausted(usize),
}

impl WorkerError {
    /// The text under which the failure is reported.
    pub open spec fn text(self) -> Seq<char> {
        match self {
            WorkerError::Unauthorized => "401"@,
            WorkerError::Exhausted(id) => "Worker "@ + decimal(id as nat) + " failed"@,
        }
    }

    pub fn message(&self) -> (r: String)
        ensures
            r@ == self.text(),
    {
        match self {
            WorkerError::Unauthorized => "401".to_string(),
            WorkerError::Exhausted(id) => {
                let mut s = "Worker ".to_string();
                s.append(u64_to_string(*id as u64).as_str());
                s.append(" failed");
                s
            },
        }
    }
}

/// What came of a request.
#[derive(Clone, Copy, Debug, PartialEq, Eq, Structural)]
pub enum Reply {
    /// A reply with this status code.
    Status(u16),
    /// No reply at all.
    Nothing,
}

/// What to do after a request.
#[derive(Clone, Copy, Debug, PartialEq, Eq, Structural)]
pub enum ReplyAction {
    /// Write the body of the reply to the target, from this offset on.
    Stream(u64),
    /// Wait for so many milliseconds, then ask for the next range.
    Pause(u64),
    /// Give up.
    Fail(WorkerError),
}

/// A worker's progress on its chunk.
#[derive(Clone, Copy, Debug, PartialEq, Eq, Structural)]
pub struct ChunkTask {
    /// The number of the worker.
    pub worker: usize,
    pub chunk: Chunk,
    /// The offset of the next byte to fetch.
    pub pos: u64,
    /// How many requests may still fail, this one included.
    pub retries: u32,
    /// Bytes received in the current body that were not reported yet.
    pub batch: u64,
}

impl ChunkTask {
    pub open spec fn wf(self) -> bool {
        &&& self.chunk.start <= self.pos
        &&& self.retries <= MAX_RETRIES
        &&& self.batch <= self.pos - self.chunk.start
    }

    /// The task at its start.
    pub open spec fn fresh(worker: usize, chunk: Chunk) -> ChunkTask {
        ChunkTask { worker, chunk, pos: chunk.start, retries: MAX_RETRIES, batch: 0 }
    }

    /// How many bytes of the chunk, counted from its start, were received.
    pub open spec fn received(self) -> int {
        self.pos - self.chunk.start
    }

    /// The range to ask for next: from the first byte still missing to the end of the chunk.
    pub open spec fn range(self) -> Option<(u64, u64)> {
        if self.pos <= self.chunk.end && self.retries > 0 {
            Some((self.pos, self.chunk.end))
        } else {
            None
        }
    }

    /// The whole chunk is there.
    pub open spec fn complete(self) -> bool {
        self.retries > 0 && self.range() is None
    }

    pub open spec fn after_reply(self, reply: Reply) -> (ChunkTask, ReplyAction) {
        match reply {
            Reply::Status(code) if 200 <= code < 300 => {
                (ChunkTask { batch: 0, ..self }, ReplyAction::Stream(self.pos))
            },
            Reply::Status(code) if code == UNAUTHORIZED => {
                (self, ReplyAction::Fail(WorkerError::Unauthorized))
            },
            _ => {
                let next = ChunkTask { retries: (self.retries - 1) as u32, ..self };
                if self.retries == 1 {
                    (next, ReplyAction::Fail(WorkerError::Exhausted(self.worker)))
                } else {
                    (next, ReplyAction::Pause(RETRY_PAUSE_MILLIS))
                }
            },
        }
    }

    pub open spec fn after_data(self, len: u64) -> (ChunkTask, Option<u64>) {
        let next = ChunkTask { pos: (self.pos + len) as u64, ..self };
        let gathered = (self.batch + len) as u64;
        if gathered >= PROGRESS_BATCH {
            (ChunkTask { batch: 0, ..next }, Some(gathered))
        } else {
            (ChunkTask { batch: gathered, ..next }, None)
        }
    }

    pub open spec fn after_body(self) -> (ChunkTask, u64) {
        (ChunkTask { batch: 0, ..self }, self.batch)
    }

    pub fn new(worker: usize, chunk: Chunk) -> (task: ChunkTask)
        ensures
            task == Self::fresh(worker, chunk),
            task.wf(),
    {
        ChunkTask { worker, chunk, pos: chunk.start, retries: MAX_RETRIES, batch: 0 }
    }

    /// The first and last byte to ask for next, or nothing if the work on the chunk is over.
    pub fn next_range(&self) -> (r: Option<(u64, u64)>)
        ensures
            r == self.range(),
    {
        if self.pos <= self.chunk.end && self.retries > 0 {
            Some((self.pos, self.chunk.end))
        } else {
            None
        }
    }

    /// Takes note of what came of the request for the next range.
    pub fn on_reply(&mut self, reply: Reply) -> (action: ReplyAction)
        requires
            old(self).wf(),
            old(self).retries > 0,
        ensures
            (*final(self), action) == old(self).after_reply(reply),
            final(self).wf(),
            action is Stream <==> (reply matches Reply::Status(code) && 200 <= code <= 299),
            action == ReplyAction::Fail(WorkerError::Unauthorized) <==> reply == Reply::Status(401),
            final(self).pos == old(self).pos,
            final(self).chunk == old(self).chunk,
    {
        match reply {
            Reply::Status(code) if is_success(code) => {
                self.batch = 0;
                ReplyAction::Stream(self.pos)
            },
            Reply::Status(code) if code == UNAUTHORIZED => {
                ReplyAction::Fail(WorkerError::Unauthorized)
            },
            _ => {
                self.retries = self.retries - 1;
                if self.retries == 0 {
                    ReplyAction::Fail(WorkerError::Exhausted(self.worker))
                } else {
                    ReplyAction::Pause(RETRY_PAUSE_MILLIS)
                }
            },
        }
    }

    /// Takes note of `len` more bytes written; returns the progress to report, if any.
    pub fn on_data(&mut self, len: u64) -> (report: Option<u64>)
        requires
            old(self).wf(),
            old(self).pos + len <= u64::MAX,
        ensures
            (*final(self), report) == old(self).after_data(len),
            final(self).wf(),
            final(self).pos == old(self).pos + len,
            final(self).chunk == old(self).chunk,
    {
        self.pos = self.pos + len;
        self.batch = self.batch + len;
        if self.batch >= PROGRESS_BATCH {
            let report: u64 = self.batch;
            self.batch = 0;
            Some(report)
        } else {
            None
        }
    }

    /// Takes note that a body is over, be it at its end or because the connection
    /// dropped; returns the progress that remains to be reported.
    pub fn on_body_end(&mut self) -> (report: u64)
        requires
            old(self).wf(),
        ensures
            (*final(self), report) == old(self).after_body(),
            final(self).wf(),
    {
        let report: u64 = self.batch;
        self.batch = 0;
        report
    }
}

/// The value of the `Range` header that asks for the bytes `start` to `end`.
pub open spec fn range_text(start: u64, end: u64) -> Seq<char> {
    "bytes="@ + decimal(start as nat) + "-"@ + decimal(end as nat)
}

/// The first and the last byte that the value of a `Range` header asks for, as a server reads
/// it.
pub open spec fn asked_bytes(range: Seq<char>) -> Option<(nat, nat)> {
    let dash = first_of(range, '-');
    let first = range.subrange(6, dash);
    let last = range.skip(dash + 1);
    if 6 < dash < range.len() && range.take(6) == "bytes="@ && all_digits(first) && all_digits(
        last,
    ) {
        Some((digits_value(first), digits_value(last)))
    } else {
        None
    }
}

/// `range` is the word `bytes`, an equals sign, the digits of `start`, a dash and the digits of
/// `end`.
pub open spec fn spells_out(
    range: Seq<char>,
    first: Seq<char>,
    last: Seq<char>,
    start: nat,
    end: nat,
) -> bool {
    &&& range == seq!['b', 'y', 't', 'e', 's', '='] + first + seq!['-'] + last
    &&& all_digits(first)
    &&& all_digits(last)
    &&& digits_value(first) == start
    &&& digits_value(last) == end
}

/// The value of a `Range` header reads back as the bytes that it asks for: its two numbers are
/// the first and the last of them.
pub proof fn range_reads_back(start: u64, end: u64) -> (r: (Seq<char>, Seq<char>))
    ensures
        spells_out(range_text(start, end), r.0, r.1, start as nat, end as nat),
        r.0.len() > 1 ==> r.0.first() != '0',
        r.1.len() > 1 ==> r.1.first() != '0',
        asked_bytes(range_text(start, end)) == Some((start as nat, end as nat)),
{
    reveal_strlit("bytes=");
    reveal_strlit("-");
    let text = range_text(start, end);
    let first = decimal(start as nat);
    let last = decimal(end as nat);
    decimal_is_shortest_and_unique(start as nat, start as nat);
    decimal_is_shortest_and_unique(end as nat, end as nat);
    assert("bytes="@ =~= seq!['b', 'y', 't', 'e', 's', '=']);
    assert("-"@ =~= seq!['-']);
    let at = (6 + first.len()) as int;
    assert(text[at] == '-');
    assert forall|i: int| 0 <= i < at implies text[i] != '-' by {
        if i >= 6 {
            assert(text[i] == first[i - 6]);
            assert(is_digit(first[i - 6]));
        }
    }
    first_of_is_the_first(text, '-');
    assert(first_of(text, '-') == at);
    assert(text.take(6) =~= "bytes="@);
    assert(text.subrange(6, at) =~= first);
    assert(text.skip(at + 1) =~= last);
    (first, last)
}

/// The value of the `Range` header that asks for the bytes `start` to `end`.
pub fn range_header(start: u64, end: u64) -> (r: String)
    ensures
        r@ == range_text(start, end),
        asked_bytes(r@) == Some((start as nat, end as nat)),
        exists|first: Seq<char>, last: Seq<char>|
            #[trigger] spells_out(r@, first, last, start as nat, end as nat),
{
    proof {
        let (first, last) = range_reads_back(start, end);
        assert(spells_out(range_text(start, end), first, last, start as nat, end as nat));
    }
    let mut s = "bytes=".to_string();
    s.append(u64_to_string(start).as_str());
    s.append("-");
    s.append(u64_to_string(end).as_str());
    s
}

pub open spec fn sum(portions: Seq<u32>) -> int
    decreases portions.len(),
{
    if portions.len() == 0 {
        0
    } else {
        sum(portions.drop_last()) + portions.last()
    }
}

/// How many cells of the rate limit to wait for, one portion after the other, before
/// `len` bytes are written. The limiter grants at most its burst at once, so all portions
/// are a burst long, but for the last, which may be shorter.
pub fn permit_portions(len: u64, burst: u32) -> (portions: Vec<u32>)
    requires
        burst != 0,
    ensures
        sum(portions@) == len,
        forall|i: int| 0 <= i < portions@.len() ==> 1 <= #[trigger] portions@[i] <= burst,
        forall|i: int| 0 <= i < portions@.len() - 1 ==> #[trigger] portions@[i] == burst,
        portions@.len() == 0 <==> len == 0,
        portions@.len() > 0 ==> (portions@.len() - 1) * burst + portions@.last() == len,
{
    let mut portions: Vec<u32> = Vec::new();
    let mut left: u64 = len;
    while left > 0
        invariant
            burst != 0,
            left <= len,
            sum(portions@) == len - left,
            forall|i: int| 0 <= i < portions@.len() ==> 1 <= #[trigger] portions@[i] <= burst,
            forall|i: int| 0 <= i < portions@.len() - 1 ==> #[trigger] portions@[i] == burst,
            left > 0 && portions@.len() > 0 ==> portions@.last() == burst,
            portions@.len() == 0 ==> left == len,
            portions@.len() > 0 ==> len > 0 && (portions@.len() - 1) * burst + portions@.last()
                == len - left,
        decreases left,
    {
        let portion: u32 = if left >= burst as u64 {
            burst
        } else {
            left as u32
        };
        let ghost before = portions@;
        portions.push(portion);
        assert(portions@.drop_last() =~= before);
        assert(before.len() > 0 ==> before.len() * burst == (before.len() - 1) * burst + burst)
            by (nonlinear_arith);
        assert(before.len() == 0 ==> before.len() * burst == 0) by (nonlinear_arith);
        left = left - portion as u64;
    }
    portions
}

/// What can happen to a task.
pub enum TaskEvent {
    Reply(Reply),
    Data(u64),
    BodyEnd,
}

/// `event` can happen to `task`, and does not make the worker give up. A request is only
/// sent once the body before it is over.
pub open spec fn goes_on(task: ChunkTask, event: TaskEvent) -> bool {
    match event {
        TaskEvent::Reply(reply) => {
            &&& task.retries > 0
            &&& task.batch == 0
            &&& !(task.after_reply(reply).1 is Fail)
        },
        TaskEvent::Data(len) => task.pos + len <= u64::MAX,
        TaskEvent::BodyEnd => true,
    }
}

/// The task after `event`, and the progress that it reports.
pub open spec fn after_event(task: ChunkTask, event: TaskEvent) -> (ChunkTask, int) {
    match event {
        TaskEvent::Reply(reply) => (task.after_reply(reply).0, 0),
        TaskEvent::Data(len) => {
            let (next, report) = task.after_data(len);
            (next, report.unwrap_or(0) as int)
        },
        TaskEvent::BodyEnd => {
            let (next, report) = task.after_body();
            (next, report as int)
        },
    }
}

/// The task after several events, and all the progress that it reported.
pub open spec fn after_events(task: ChunkTask, events: Seq<TaskEvent>) -> (ChunkTask, int)
    decreases events.len(),
{
    if events.len() == 0 {
        (task, 0)
    } else {
        let (before, reported) = after_events(task, events.drop_last());
        let (next, report) = after_event(before, events.last());
        (next, reported + report)
    }
}

/// Each of these events can happen to `task` after those before it, and none makes the
/// worker give up.
pub open spec fn all_go_on(task: ChunkTask, events: Seq<TaskEvent>) -> bool
    decreases events.len(),
{
    events.len() > 0 ==> {
        &&& all_go_on(task, events.drop_last())
        &&& goes_on(after_events(task, events.drop_last()).0, events.last())
    }
}

/// How many bytes arrived in these events.
pub open spec fn arrived(events: Seq<TaskEvent>) -> int
    decreases events.len(),
{
    if events.len() == 0 {
        0
    } else {
        arrived(events.drop_last()) + match events.last() {
            TaskEvent::Data(len) => len as int,
            _ => 0,
        }
    }
}

proof fn lemma_events(worker: usize, chunk: Chunk, events: Seq<TaskEvent>)
    requires
        all_go_on(ChunkTask::fresh(worker, chunk), events),
    ensures
        ({
            let (task, reported) = after_events(ChunkTask::fresh(worker, chunk), events);
            &&& task.wf()
            &&& task.retries > 0
            &&& task.chunk == chunk
            &&& task.pos == chunk.start + arrived(events)
            &&& reported + task.batch == arrived(events)
        }),
    decreases events.len(),
{
    if events.len() > 0 {
        lemma_events(worker, chunk, events.drop_last());
    }
}

/// Whatever happened before, dropped connections and failed requests included, the next
/// request starts right behind the bytes that arrived and ends where the chunk ends; when
/// there is none, the whole chunk has arrived.
pub proof fn resumes_where_it_left_off(worker: usize, chunk: Chunk, events: Seq<TaskEvent>)
    requires
        all_go_on(ChunkTask::fresh(worker, chunk), events),
    ensures
        arrived(events) >= 0,
        after_events(ChunkTask::fresh(worker, chunk), events).0.chunk == chunk,
        after_events(ChunkTask::fresh(worker, chunk), events).0.range() == if chunk.start + arrived(
            events,
        ) <= chunk.end {
            Some(((chunk.start + arrived(events)) as u64, chunk.end))
        } else {
            None
        },
{
    lemma_events(worker, chunk, events);
}

/// Each byte counts once as progress, in whatever pieces and bodies it arrives: once a
/// body is over, all that arrived was reported.
pub proof fn progress_counts_each_byte_once(
    worker: usize,
    chunk: Chunk,
    events: Seq<TaskEvent>,
)
    requires
        all_go_on(ChunkTask::fresh(worker, chunk), events),
    ensures
        after_events(ChunkTask::fresh(worker, chunk), events).1 <= arrived(events),
        after_events(ChunkTask::fresh(worker, chunk), events.push(TaskEvent::BodyEnd)).1 == arrived(
            events,
        ),
{
    lemma_events(worker, chunk, events);
    assert(events.push(TaskEvent::BodyEnd).drop_last() =~= events);
}

/// A reply that is of no use: neither a success nor a demand for credentials, or none at all.
pub open spec fn is_useless(reply: Reply) -> bool {
    match reply {
        Reply::Status(code) => (code < 200 || code > 299) && code != 401,
        Reply::Nothing => true,
    }
}

/// What a reply leads to, whatever the task: the body is written, right behind what has
/// arrived, if and only if the status is from 200 to 299; the worker gives up at once if and
/// only if it is 401; any other reply, or none, uses up a retry, keeps the place, and is
/// followed by half a second of waiting unless no retry is left.
pub proof fn every_reply_has_its_consequence(task: ChunkTask, reply: Reply)
    requires
        task.retries > 0,
    ensures
        ({
            let (next, action) = task.after_reply(reply);
            let success = reply matches Reply::Status(code) && 200 <= code <= 299;
            &&& action is Stream <==> success
            &&& success ==> action == ReplyAction::Stream(task.pos) && next.retries == task.retries
                && next.batch == 0
            &&& action == ReplyAction::Fail(WorkerError::Unauthorized) <==> reply
                == Reply::Status(401)
            &&& !success && reply != Reply::Status(401) ==> {
                &&& next.retries == task.retries - 1
                &&& action == if next.retries == 0 {
                    ReplyAction::Fail(WorkerError::Exhausted(task.worker))
                } else {
                    ReplyAction::Pause(500)
                }
            }
            &&& next.pos == task.pos
            &&& next.chunk == task.chunk
            &&& next.worker == task.worker
        }),
{
}

/// The task after requests that got these replies.
pub open spec fn after_replies(task: ChunkTask, replies: Seq<Reply>) -> ChunkTask
    decreases replies.len(),
{
    if replies.len() == 0 {
        task
    } else {
        after_replies(task, replies.drop_last()).after_reply(replies.last()).0
    }
}

/// A worker survives useless replies, of whatever kind and in whatever order, as long as it has
/// retries left, without losing its place, and fails on the one that uses up the last.
pub proof fn useless_replies_are_all_alike(task: ChunkTask, replies: Seq<Reply>, last: Reply)
    requires
        task.wf(),
        replies.len() < task.retries,
        forall|i: int| 0 <= i < replies.len() ==> is_useless(#[trigger] replies[i]),
        is_useless(last),
    ensures
        after_replies(task, replies) == (ChunkTask {
            retries: (task.retries - replies.len()) as u32,
            ..task
        }),
        after_replies(task, replies).after_reply(last).1 == if replies.len() + 1 == task.retries {
            ReplyAction::Fail(WorkerError::Exhausted(task.worker))
        } else {
            ReplyAction::Pause(500)
        },
    decreases replies.len(),
{
    if replies.len() > 0 {
        assert(is_useless(replies.last()));
        assert forall|i: int| 0 <= i < replies.drop_last().len() implies is_useless(
            #[trigger] replies.drop_last()[i],
        ) by {
            assert(is_useless(replies[i]));
        }
        useless_replies_are_all_alike(task, replies.drop_last(), replies.last());
    }
}

/// The task after `n` requests that got no useful reply.
pub open spec fn after_failures(task: ChunkTask, n: nat) -> ChunkTask
    decreases n,
{
    if n == 0 {
        task
    } else {
        after_failures(task, (n - 1) as nat).after_reply(Reply::Nothing).0
    }
}

/// A worker survives failed requests as long as it has retries left, without losing
/// its place, and fails on the one that uses up the last, whichever useless reply that gets.
pub proof fn fails_on_the_last_retry(task: ChunkTask, n: nat)
    requires
        task.wf(),
        n < task.retries,
    ensures
        after_failures(task, n) == (ChunkTask { retries: (task.retries - n) as u32, ..task }),
        after_failures(task, n).after_reply(Reply::Nothing).1 == if n + 1 == task.retries {
            ReplyAction::Fail(WorkerError::Exhausted(task.worker))
        } else {
            ReplyAction::Pause(RETRY_PAUSE_MILLIS)
        },
        forall|reply: Reply|
            is_useless(reply) ==> #[trigger] after_failures(task, n).after_reply(reply)
                == after_failures(task, n).after_reply(Reply::Nothing),
    decreases n,
{
    if n > 0 {
        fails_on_the_last_retry(task, (n - 1) as nat);
    }
}

/// A new task has its whole chunk before it, and gives up on the third failure.
pub proof fn new_task_starts_at_the_first_byte(worker: usize, chunk: Chunk)
    ensures
        ({
            let task = ChunkTask::fresh(worker, chunk);
            &&& task.worker == worker
            &&& task.chunk == chunk
            &&& task.pos == chunk.start
            &&& task.retries == 3
            &&& task.batch == 0
            &&& task.wf()
            &&& chunk.start <= chunk.end ==> task.range() == Some((chunk.start, chunk.end))
        }),
{
}

/// A task asks for what is missing, from its place to the end of its chunk, as long as anything
/// is missing and it has retries left.
pub proof fn task_asks_for_what_is_missing(task: ChunkTask)
    ensures
        task.range() is Some <==> task.pos <= task.chunk.end && task.retries > 0,
        task.range() matches Some((start, end)) ==> start == task.pos && end == task.chunk.end,
        task.complete() <==> task.pos > task.chunk.end && task.retries > 0,
{
}

/// Bytes that arrive move a task on by their number, and count as progress: they are reported
/// once two mebibytes have gathered, with all that gathered, and gather until then.
pub proof fn data_moves_the_task_on(task: ChunkTask, len: u64)
    requires
        task.wf(),
        task.pos + len <= u64::MAX,
    ensures
        ({
            let (next, report) = task.after_data(len);
            &&& next.pos == task.pos + len
            &&& next.chunk == task.chunk
            &&& next.worker == task.worker
            &&& next.retries == task.retries
            &&& if task.batch + len >= 2 * 1024 * 1024 {
                report == Some((task.batch + len) as u64) && next.batch == 0
            } else {
                report is None && next.batch == task.batch + len
            }
        }),
{
}

/// The end of a body reports what has gathered, and changes nothing else.
pub proof fn end_of_body_reports_the_rest(task: ChunkTask)
    ensures
        ({
            let (next, report) = task.after_body();
            &&& report == task.batch
            &&& next.batch == 0
            &&& next.pos == task.pos
            &&& next.chunk == task.chunk
            &&& next.worker == task.worker
            &&& next.retries == task.retries
        }),
{
}

/// The first byte that the server is asked for is the first that is written, at its own place
/// in the file.
pub proof fn first_byte_asked_for_is_first_written(task: ChunkTask, code: u16)
    requires
        task.range() is Some,
        200 <= code <= 299,
    ensures
        ({
            let (start, end) = task.range()->0;
            let action = task.after_reply(Reply::Status(code)).1;
            &&& action matches ReplyAction::Stream(offset) && asked_bytes(range_text(start, end))
                == Some((offset as nat, task.chunk.end as nat))
        }),
{
    let (start, end) = task.range()->0;
    let _ = range_reads_back(start, end);
}

/// The failure of a worker tells its number.
pub proof fn exhausted_worker_is_named(id: usize, other: usize)
    ensures
        WorkerError::Exhausted(id).text() == "Worker "@ + decimal(id as nat) + " failed"@,
        WorkerError::Exhausted(id).text() == WorkerError::Exhausted(other).text() ==> id == other,
        WorkerError::Unauthorized.text() == "401"@,
{
    let a = "Worker "@ + decimal(id as nat) + " failed"@;
    let b = "Worker "@ + decimal(other as nat) + " failed"@;
    if a == b {
        decimal_is_shortest_and_unique(id as nat, other as nat);
        let n = "Worker "@.len() as int;
        let m = " failed"@.len() as int;
        assert(a.subrange(n, a.len() - m) =~= decimal(id as nat));
        assert(b.subrange(n, b.len() - m) =~= decimal(other as nat));
    }
}

/// Portions add up, one after the other.
pub proof fn portions_add_up(portions: Seq<u32>, portion: u32)
    ensures
        sum(Seq::empty()) == 0,
        sum(portions.push(portion)) == sum(portions) + portion,
{
    assert(portions.push(portion).drop_last() =~= portions);
}

/// The failure that asks for credentials is told from any other by its text.
pub proof fn only_unauthorized_reads_401(e: WorkerError)
    ensures
        e.text() == "401"@ <==> e == WorkerError::Unauthorized,
{
    reveal_strlit("401");
    reveal_strlit("Worker ");
    if let WorkerError::Exhausted(id) = e {
        assert(e.text()[0] == 'W');
    }
}

/// When every piece of a target is complete, every byte of the target was received by
/// the task of the piece that it belongs to.
pub proof fn complete_pieces_make_a_complete_target(
    size: u64,
    target_idx: usize,
    tasks: Seq<ChunkTask>,
    offset: int,
)
    requires
        0 <= offset < size,
        tasks.len() == pieces(size, target_idx).len(),
        forall|i: int|
            0 <= i < tasks.len() ==> (#[trigger] tasks[i]).chunk == pieces(size, target_idx)[i]
                && tasks[i].wf() && tasks[i].complete(),
    ensures
        exists|i: int|
            0 <= i < tasks.len() && (#[trigger] tasks[i]).chunk.start <= offset
                < tasks[i].chunk.start + tasks[i].received(),
{
    each_byte_is_in_one_piece(size, target_idx, offset);
    let i = choose|i: int|
        0 <= i < pieces(size, target_idx).len() && (#[trigger] pieces(
            size,
            target_idx,
        )[i]).covers(offset);
    assert(tasks[i].chunk.start <= offset < tasks[i].chunk.start + tasks[i].received());
}

/// When the single chunk of a target that is fetched as a whole is complete, every byte of
/// the target was received.
pub proof fn complete_whole_makes_a_complete_target(
    size: u64,
    target_idx: usize,
    task: ChunkTask,
    offset: int,
)
    requires
        0 <= offset < size,
        task.chunk == whole_chunk(size, target_idx),
        task.wf(),
        task.complete(),
    ensures
        task.chunk.start == 0,
        0 <= offset < task.received(),
{
}

} // verus!
