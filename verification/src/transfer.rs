//! What the workers make of the file of a target: they fetch its chunks side by side, each
//! from a server that may drop connections, and write what arrives where it belongs.
use vstd::prelude::*;
use crate::chunk::{each_byte_is_in_one_piece, pieces_are_contiguous, Chunk};
use crate::fetch::{
    after_event, asked_bytes, goes_on, range_reads_back, range_text, ChunkTask, ReplyAction,
    TaskEvent,
};
use crate::downloader::Downloader;
use crate::run::{
    allocated_target_adds_its_chunks, chunks_of, inspected_target_gets_a_file_of_its_size,
    RunAction, RunEvent, RunState, Stage,
};

verus! {

/// A file after `data` was written into it from offset `at` on.
pub open spec fn written(file: Seq<u8>, at: int, data: Seq<u8>) -> Seq<u8> {
    Seq::new(
        if at + data.len() > file.len() {
            (at + data.len()) as nat
        } else {
            file.len()
        },
        |i: int|
            if at <= i < at + data.len() {
                data[i - at]
            } else if i < file.len() {
                file[i]
            } else {
                0
            },
    )
}

/// The body of a reply, on its way from the server to the file.
pub struct Body {
    /// Where in the target the next byte that the server sends comes from.
    pub from: int,
    /// Where in the target the bytes end that the server was asked for.
    pub until: int,
    /// Where in the file the next byte is written to.
    pub at: int,
}

/// A chunk being fetched, and the body that is being read for it, if there is one.
pub struct Transfer {
    pub task: ChunkTask,
    pub body: Option<Body>,
}

impl Transfer {
    pub open spec fn fresh(worker: usize, chunk: Chunk) -> Transfer {
        Transfer { task: ChunkTask::fresh(worker, chunk), body: None }
    }

    /// The first and the last byte that the next request asks for, as the server reads its
    /// range.
    pub open spec fn asked(self) -> Option<(nat, nat)> {
        match self.task.range() {
            Some((start, end)) => asked_bytes(range_text(start, end)),
            None => None,
        }
    }

    /// `event` can happen next and does not make the worker give up; the bytes that it brings,
    /// if it brings any, are those of `content` that the server was asked for. A request is
    /// only sent when one is needed and no body is being read.
    pub open spec fn accepts(self, event: TaskEvent, data: Seq<u8>, content: Seq<u8>) -> bool {
        &&& goes_on(self.task, event)
        &&& match (event, self.body) {
            (TaskEvent::Reply(_), None) => self.task.range() is Some,
            (TaskEvent::Data(len), Some(body)) => {
                &&& data.len() == len
                &&& body.from + len <= body.until
                &&& data == content.subrange(body.from, body.from + len)
            },
            (TaskEvent::BodyEnd, Some(_)) => true,
            _ => false,
        }
    }

    /// The transfer after `event`. A body starts at the first byte asked for, and is written
    /// from the offset that the task gives.
    pub open spec fn after(self, event: TaskEvent) -> Transfer {
        let task = after_event(self.task, event).0;
        let body = match (event, self.body) {
            (TaskEvent::Reply(reply), _) => match (
                self.task.after_reply(reply).1,
                self.asked(),
            ) {
                (ReplyAction::Stream(offset), Some((first, last))) => Some(
                    Body { from: first as int, until: last as int + 1, at: offset as int },
                ),
                _ => None,
            },
            (TaskEvent::Data(len), Some(body)) => Some(
                Body { from: body.from + len, at: body.at + len, ..body },
            ),
            _ => None,
        };
        Transfer { task, body }
    }
}

/// Something that happens to one of several transfers.
pub struct Step {
    pub transfer: int,
    pub event: TaskEvent,
    pub data: Seq<u8>,
}

/// The transfers of several chunks, and the file that they share.
pub struct Work {
    pub transfers: Seq<Transfer>,
    pub file: Seq<u8>,
}

impl Work {
    /// All chunks are still to be fetched, each by one of the workers.
    pub open spec fn start(workers: Seq<usize>, chunks: Seq<Chunk>, file: Seq<u8>) -> Work {
        Work {
            transfers: Seq::new(chunks.len(), |i: int| Transfer::fresh(workers[i], chunks[i])),
            file,
        }
    }

    pub open spec fn accepts(self, step: Step, content: Seq<u8>) -> bool {
        &&& 0 <= step.transfer < self.transfers.len()
        &&& self.transfers[step.transfer].accepts(step.event, step.data, content)
    }

    pub open spec fn after(self, step: Step) -> Work {
        let transfer = self.transfers[step.transfer];
        Work {
            transfers: self.transfers.update(step.transfer, transfer.after(step.event)),
            file: match (step.event, transfer.body) {
                (TaskEvent::Data(_), Some(body)) => written(self.file, body.at, step.data),
                _ => self.file,
            },
        }
    }

    /// The work after several steps.
    pub open spec fn after_all(self, steps: Seq<Step>) -> Work
        decreases steps.len(),
    {
        if steps.len() == 0 {
            self
        } else {
            self.after_all(steps.drop_last()).after(steps.last())
        }
    }

    /// Each of these steps can follow those before it.
    pub open spec fn accepts_all(self, steps: Seq<Step>, content: Seq<u8>) -> bool
        decreases steps.len(),
    {
        steps.len() > 0 ==> {
            &&& self.accepts_all(steps.drop_last(), content)
            &&& self.after_all(steps.drop_last()).accepts(steps.last(), content)
        }
    }
}

/// No byte belongs to two of the chunks.
pub open spec fn are_apart(chunks: Seq<Chunk>) -> bool {
    forall|i: int, j: int, offset: int|
        0 <= i < chunks.len() && 0 <= j < chunks.len() && (#[trigger] chunks[i].covers(offset)) && (
        #[trigger] chunks[j].covers(offset)) ==> i == j
}

/// The chunks are not empty and lie in a target of `size` bytes.
pub open spec fn lie_within(chunks: Seq<Chunk>, size: nat) -> bool {
    forall|i: int|
        0 <= i < chunks.len() ==> (#[trigger] chunks[i]).start <= chunks[i].end < size
}

/// Whether one of the chunks has the byte at `offset`.
pub open spec fn is_covered(chunks: Seq<Chunk>, offset: int) -> bool {
    exists|i: int| 0 <= i < chunks.len() && #[trigger] chunks[i].covers(offset)
}

/// A transfer reads and writes where its task is, within its chunk.
spec fn is_sound(transfer: Transfer, chunk: Chunk) -> bool {
    let task = transfer.task;
    &&& task.wf()
    &&& task.chunk == chunk
    &&& task.retries > 0
    &&& task.pos <= chunk.end + 1
    &&& transfer.body matches Some(body) ==> body.from == task.pos && body.at == task.pos
        && body.until == chunk.end + 1
}

/// What holds at any time: all bytes received so far are in their places.
spec fn is_on_course(work: Work, chunks: Seq<Chunk>, content: Seq<u8>, before: Seq<u8>) -> bool {
    &&& work.transfers.len() == chunks.len()
    &&& work.file.len() == content.len()
    &&& forall|i: int|
        0 <= i < chunks.len() ==> is_sound(#[trigger] work.transfers[i], chunks[i])
    &&& forall|i: int, offset: int|
        0 <= i < chunks.len() && (#[trigger] chunks[i].covers(offset)) && offset
            < work.transfers[i].task.pos ==> work.file[offset] == content[offset]
    &&& forall|offset: int|
        0 <= offset < content.len() && !is_covered(chunks, offset) ==> #[trigger] work.file[offset]
            == before[offset]
}

proof fn lemma_step_stays_on_course(
    work: Work,
    step: Step,
    chunks: Seq<Chunk>,
    content: Seq<u8>,
    before: Seq<u8>,
)
    requires
        are_apart(chunks),
        lie_within(chunks, content.len()),
        is_on_course(work, chunks, content, before),
        work.accepts(step, content),
    ensures
        is_on_course(work.after(step), chunks, content, before),
{
    let k = step.transfer;
    let old_transfer = work.transfers[k];
    let next = work.after(step);
    let transfer = next.transfers[k];
    assert(is_sound(old_transfer, chunks[k]));
    if let Some((start, end)) = old_transfer.task.range() {
        let _ = range_reads_back(start, end);
    }
    assert(is_sound(transfer, chunks[k]));
    assert forall|i: int| 0 <= i < chunks.len() implies is_sound(
        #[trigger] next.transfers[i],
        chunks[i],
    ) by {
        if i != k {
            assert(next.transfers[i] == work.transfers[i]);
        }
    }
    if let (TaskEvent::Data(len), Some(body)) = (step.event, old_transfer.body) {
        assert(next.file == written(work.file, body.at, step.data));
        assert forall|i: int, offset: int|
            0 <= i < chunks.len() && (#[trigger] chunks[i].covers(offset)) && offset
                < next.transfers[i].task.pos implies next.file[offset] == content[offset] by {
            if body.at <= offset < body.at + len {
                assert(step.data[offset - body.at] == content[offset]);
            } else {
                assert(next.file[offset] == work.file[offset]);
            }
        }
        assert forall|offset: int|
            0 <= offset < content.len() && !is_covered(
                chunks,
                offset,
            ) implies #[trigger] next.file[offset] == before[offset] by {
            assert(!chunks[k].covers(offset));
            assert(next.file[offset] == work.file[offset]);
        }
    } else {
        assert(next.file == work.file);
    }
}

proof fn lemma_stays_on_course(
    workers: Seq<usize>,
    chunks: Seq<Chunk>,
    content: Seq<u8>,
    before: Seq<u8>,
    steps: Seq<Step>,
)
    requires
        are_apart(chunks),
        lie_within(chunks, content.len()),
        before.len() == content.len(),
        Work::start(workers, chunks, before).accepts_all(steps, content),
    ensures
        is_on_course(
            Work::start(workers, chunks, before).after_all(steps),
            chunks,
            content,
            before,
        ),
    decreases steps.len(),
{
    let start = Work::start(workers, chunks, before);
    if steps.len() > 0 {
        lemma_stays_on_course(workers, chunks, content, before, steps.drop_last());
        lemma_step_stays_on_course(
            start.after_all(steps.drop_last()),
            steps.last(),
            chunks,
            content,
            before,
        );
    }
}

/// Whatever happens to the workers, dropped connections and failed requests included, and in
/// whatever order: a chunk that is complete has the bytes that the server has there, any other
/// has them as far as they arrived, and what belongs to no chunk stays as it was.
pub proof fn workers_write_what_the_server_has(
    workers: Seq<usize>,
    chunks: Seq<Chunk>,
    content: Seq<u8>,
    before: Seq<u8>,
    steps: Seq<Step>,
)
    requires
        are_apart(chunks),
        lie_within(chunks, content.len()),
        before.len() == content.len(),
        Work::start(workers, chunks, before).accepts_all(steps, content),
    ensures
        ({
            let work = Work::start(workers, chunks, before).after_all(steps);
            &&& work.transfers.len() == chunks.len()
            &&& work.file.len() == content.len()
            &&& forall|i: int|
                0 <= i < chunks.len() ==> (#[trigger] work.transfers[i]).task.chunk == chunks[i]
            &&& forall|i: int, offset: int|
                0 <= i < chunks.len() && (#[trigger] chunks[i].covers(offset)) && (
                work.transfers[i].task.complete() || offset < work.transfers[i].task.pos)
                    ==> work.file[offset] == content[offset]
            &&& forall|offset: int|
                0 <= offset < content.len() && !is_covered(chunks, offset)
                    ==> #[trigger] work.file[offset] == before[offset]
        }),
{
    lemma_stays_on_course(workers, chunks, content, before, steps);
    let work = Work::start(workers, chunks, before).after_all(steps);
    assert forall|i: int, offset: int|
        0 <= i < chunks.len() && (#[trigger] chunks[i].covers(offset)) && (
        work.transfers[i].task.complete() || offset
            < work.transfers[i].task.pos) implies work.file[offset] == content[offset] by {
        assert(is_sound(work.transfers[i], chunks[i]));
    }
}

/// When all chunks of a target are complete, its file is what the server has, byte for byte,
/// whether the target was cut up or fetched as a whole.
pub proof fn finished_file_is_what_the_server_has(
    size: u64,
    ranges: bool,
    target_idx: usize,
    workers: Seq<usize>,
    content: Seq<u8>,
    before: Seq<u8>,
    steps: Seq<Step>,
)
    requires
        size >= 1,
        content.len() == size,
        before.len() == size,
        Work::start(workers, chunks_of(size, ranges, target_idx), before).accepts_all(
            steps,
            content,
        ),
        forall|i: int|
            0 <= i < chunks_of(size, ranges, target_idx).len() ==> (#[trigger] Work::start(
                workers,
                chunks_of(size, ranges, target_idx),
                before,
            ).after_all(steps).transfers[i]).task.complete(),
    ensures
        Work::start(workers, chunks_of(size, ranges, target_idx), before).after_all(steps).file
            == content,
{
    let chunks = chunks_of(size, ranges, target_idx);
    let work = Work::start(workers, chunks, before).after_all(steps);
    if ranges {
        pieces_are_contiguous(size, target_idx);
        assert forall|i: int, j: int, offset: int|
            0 <= i < chunks.len() && 0 <= j < chunks.len() && (#[trigger] chunks[i].covers(offset))
                && (#[trigger] chunks[j].covers(offset)) implies i == j by {
            each_byte_is_in_one_piece(size, target_idx, offset);
        }
    }
    workers_write_what_the_server_has(workers, chunks, content, before, steps);
    assert forall|offset: int| 0 <= offset < size implies work.file[offset] == content[offset] by {
        if ranges {
            each_byte_is_in_one_piece(size, target_idx, offset);
        } else {
            assert(chunks[0].covers(offset));
        }
        let i = choose|i: int| 0 <= i < chunks.len() && (#[trigger] chunks[i]).covers(offset);
        assert(chunks[i].covers(offset));
        assert(work.transfers[i].task.complete());
    }
    assert(work.file =~= content);
}

/// From the word of the server on the size of a target to the finished file: the file that the
/// download has made, once the chunks that it then has are complete, is what the server has,
/// with that many bytes.
pub proof fn download_makes_what_the_server_has(
    state: RunState,
    d: Downloader,
    idx: usize,
    size: u64,
    ranges: bool,
    workers: Seq<usize>,
    content: Seq<u8>,
    before: Seq<u8>,
    steps: Seq<Step>,
)
    requires
        state.stage == (Stage::Inspecting { idx }),
        idx < d.targets@.len(),
        size >= 1,
        content.len() == size,
        state.step(d, RunEvent::Inspected { size, ranges }).1 matches RunAction::Allocate(_, length)
            && before.len() == length,
        Work::start(workers, new_chunks(state, d, size, ranges), before).accepts_all(
            steps,
            content,
        ),
        forall|i: int|
            0 <= i < new_chunks(state, d, size, ranges).len() ==> (#[trigger] Work::start(
                workers,
                new_chunks(state, d, size, ranges),
                before,
            ).after_all(steps).transfers[i]).task.complete(),
    ensures
        state.step(d, RunEvent::Inspected { size, ranges }).1 == RunAction::Allocate(idx, size),
        Work::start(workers, new_chunks(state, d, size, ranges), before).after_all(steps).file
            == content,
{
    inspected_target_gets_a_file_of_its_size(state, d, idx, size, ranges);
    let inspected = state.step(d, RunEvent::Inspected { size, ranges }).0;
    allocated_target_adds_its_chunks(inspected, d, idx, size, ranges);
    let chunks = chunks_of(size, ranges, idx);
    assert((state.chunks + chunks).skip(state.chunks.len() as int) =~= chunks);
    assert(new_chunks(state, d, size, ranges) =~= chunks);
    finished_file_is_what_the_server_has(size, ranges, idx, workers, content, before, steps);
}

/// The chunks that a target adds to a download, once the server told its size and its file is
/// there.
pub open spec fn new_chunks(state: RunState, d: Downloader, size: u64, ranges: bool) -> Seq<Chunk> {
    state.step(d, RunEvent::Inspected { size, ranges }).0.step(
        d,
        RunEvent::Allocated,
    ).0.chunks.skip(state.chunks.len() as int)
}

} // verus!
