//! The requests of the workers: for which target, with which headers, and for which bytes.
use vstd::prelude::*;
use vstd::string::*;
use vstd::utf8::*;
use reqwest::header::{HeaderMap, HeaderValue};
use crate::downloader::Downloader;
use crate::fetch::{
    after_events, all_go_on, arrived, asked_bytes, range_header, range_reads_back, range_text,
    resumes_where_it_left_off, spells_out, ChunkTask, Reply, ReplyAction, TaskEvent,
};
use crate::headers::{header_entries, Entries};
use crate::run::RunState;

verus! {

/// A `GET` request for bytes of a target, and the file that they are written to.
pub struct ChunkRequest<'a> {
    pub url: &'a str,
    pub path: &'a str,
    pub headers: &'a HeaderMap<HeaderValue>,
    /// The value of the `Range` header, which is added to the others.
    pub range: String,
}

/// A request, as a value.
#[verifier::ext_equal]
pub struct RequestState {
    pub url: Seq<char>,
    pub path: Seq<char>,
    pub headers: Entries,
    pub range: Seq<char>,
}

impl<'a> View for ChunkRequest<'a> {
    type V = RequestState;

    open spec fn view(&self) -> RequestState {
        RequestState {
            url: self.url@,
            path: self.path@,
            headers: header_entries(*self.headers),
            range: self.range@,
        }
    }
}

impl RequestState {
    /// The values that go out under the name of a header, in order.
    pub open spec fn values(self, name: Seq<char>) -> Seq<Seq<u8>> {
        let given = if self.headers.contains_key(name) {
            seq![self.headers[name]]
        } else {
            Seq::empty()
        };
        if name == "range"@ {
            given.push(encode_utf8(self.range))
        } else {
            given
        }
    }
}

/// The next request of `task` in the download `d`, if it has one: it asks the target of the
/// chunk for the bytes that are still missing, with the headers of the download.
pub open spec fn request_of(d: Downloader, task: ChunkTask) -> Option<RequestState> {
    match task.range() {
        Some((start, end)) => {
            let target = d.targets@[task.chunk.target_idx as int];
            Some(
                RequestState {
                    url: target.url@,
                    path: target.path@,
                    headers: header_entries(d.headers),
                    range: range_text(start, end),
                },
            )
        },
        None => None,
    }
}

pub open spec fn opt_request(r: Option<ChunkRequest>) -> Option<RequestState> {
    match r {
        Some(request) => Some(request@),
        None => None,
    }
}

impl Downloader {
    /// The next request of `task`, or nothing if the work on its chunk is over.
    pub fn chunk_request(&self, task: &ChunkTask) -> (r: Option<ChunkRequest<'_>>)
        requires
            task.chunk.target_idx < self.targets@.len(),
        ensures
            opt_request(r) == request_of(*self, *task),
    {
        match task.next_range() {
            Some((start, end)) => {
                let target = &self.targets[task.chunk.target_idx];
                Some(
                    ChunkRequest {
                        url: target.url.as_str(),
                        path: target.path.as_str(),
                        headers: &self.headers,
                        range: range_header(start, end),
                    },
                )
            },
            None => None,
        }
    }
}

/// These headers go out with a request, each with its value, and no others but for the range,
/// which has a single value unless they have one.
pub open spec fn carries_headers(request: RequestState, headers: Entries) -> bool {
    &&& forall|name: Seq<char>|
        name != "range"@ ==> #[trigger] request.values(name) == (if headers.contains_key(name) {
            seq![headers[name]]
        } else {
            Seq::empty()
        })
    &&& request.values("range"@).contains(encode_utf8(request.range))
    &&& headers.contains_key("range"@) ==> request.values("range"@).contains(headers["range"@])
    &&& !headers.contains_key("range"@) ==> request.values("range"@) == seq![
        encode_utf8(request.range),
    ]
}

/// Every request for a chunk goes to the target of the chunk and asks for the bytes right
/// behind those that have arrived, up to the end of the chunk, in the very digits of its range;
/// a body that answers it is written from the first byte asked for on. When there is none, the
/// whole chunk has arrived. It carries each header of the download with its value, and no others
/// but for the range, which is the only one unless the download has a header of that name.
pub proof fn requests_ask_their_target_for_the_rest(
    d: Downloader,
    state: RunState,
    i: int,
    worker: usize,
    events: Seq<TaskEvent>,
)
    requires
        state.wf(d),
        0 <= i < state.chunks.len(),
        all_go_on(ChunkTask::fresh(worker, state.chunks[i]), events),
    ensures
        ({
            let chunk = state.chunks[i];
            let task = after_events(ChunkTask::fresh(worker, chunk), events).0;
            let next = chunk.start + arrived(events);
            &&& task.chunk == chunk
            &&& chunk.target_idx < d.targets@.len()
            &&& match request_of(d, task) {
                Some(request) => {
                    &&& chunk.start <= next <= chunk.end
                    &&& request.url == d.targets@[chunk.target_idx as int].url@
                    &&& request.path == d.targets@[chunk.target_idx as int].path@
                    &&& request.range == range_text(next as u64, chunk.end)
                    &&& asked_bytes(request.range) == Some((next as nat, chunk.end as nat))
                    &&& exists|first: Seq<char>, last: Seq<char>|
                        #[trigger] spells_out(
                            request.range,
                            first,
                            last,
                            next as nat,
                            chunk.end as nat,
                        )
                    &&& forall|code: u16|
                        200 <= code <= 299 ==> (#[trigger] task.after_reply(
                            Reply::Status(code),
                        )).1 == ReplyAction::Stream(next as u64)
                    &&& carries_headers(request, header_entries(d.headers))
                },
                None => next > chunk.end,
            }
        }),
{
    let chunk = state.chunks[i];
    resumes_where_it_left_off(worker, chunk, events);
    let task = after_events(ChunkTask::fresh(worker, chunk), events).0;
    if let Some(request) = request_of(d, task) {
        let next = (chunk.start + arrived(events)) as u64;
        let (first, last) = range_reads_back(next, chunk.end);
        assert(spells_out(request.range, first, last, next as nat, chunk.end as nat));
        let sent = request.values("range"@);
        assert(sent.last() == encode_utf8(request.range));
        assert(request.headers.contains_key("range"@) ==> sent[0] == request.headers["range"@]);
        assert(!request.headers.contains_key("range"@) ==> sent =~= seq![
            encode_utf8(request.range),
        ]);
    }
}

/// A request is seen as it is: its address, its file, its headers and its range.
pub proof fn request_is_seen_as_it_is(request: ChunkRequest)
    ensures
        request@.url == request.url@,
        request@.path == request.path@,
        request@.headers == header_entries(*request.headers),
        request@.range == request.range@,
        opt_request(Some(request)) == Some(request@),
        opt_request(None) is None,
{
}

} // verus!
