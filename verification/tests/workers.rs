use surge::chunk::{partition, whole, Chunk, ChunkQueue};
use surge::fetch::{permit_portions, range_header, ChunkTask, Reply, ReplyAction, WorkerError};
use surge::pool::{ScaleAction, Scaler, SpeedTrend, Sweep};

fn task(start: u64, end: u64) -> ChunkTask {
    ChunkTask::new(7, Chunk { start, end, target_idx: 0 })
}

#[test]
fn range_header_names_both_ends() {
    assert_eq!(range_header(0, 0), "bytes=0-0");
    assert_eq!(range_header(1024, 2047), "bytes=1024-2047");
    assert_eq!(range_header(5, u64::MAX), "bytes=5-18446744073709551615");
}

#[test]
fn chunk_is_fetched_in_one_go() {
    let mut t = task(100, 199);
    assert_eq!(t.next_range(), Some((100, 199)));
    assert_eq!(t.on_reply(Reply::Status(206)), ReplyAction::Stream(100));
    assert_eq!(t.on_data(60), None);
    assert_eq!(t.on_data(40), None);
    assert_eq!(t.on_body_end(), 100);
    assert_eq!(t.next_range(), None);
}

#[test]
fn dropped_connection_resumes_where_it_left_off() {
    let mut t = task(100, 199);
    assert_eq!(t.on_reply(Reply::Status(206)), ReplyAction::Stream(100));
    t.on_data(30);
    assert_eq!(t.on_body_end(), 30);
    assert_eq!(t.next_range(), Some((130, 199)));
    assert_eq!(t.on_reply(Reply::Nothing), ReplyAction::Pause(500));
    assert_eq!(t.next_range(), Some((130, 199)));
    assert_eq!(t.on_reply(Reply::Status(200)), ReplyAction::Stream(130));
    t.on_data(69);
    assert_eq!(t.on_body_end(), 69);
    assert_eq!(t.next_range(), Some((199, 199)));
    t.on_reply(Reply::Status(206));
    t.on_data(1);
    assert_eq!(t.on_body_end(), 1);
    assert_eq!(t.next_range(), None);
}

#[test]
fn third_failed_request_ends_the_work() {
    let mut t = task(0, 9);
    assert_eq!(t.on_reply(Reply::Status(500)), ReplyAction::Pause(500));
    assert_eq!(t.on_reply(Reply::Nothing), ReplyAction::Pause(500));
    assert_eq!(t.on_reply(Reply::Status(404)), ReplyAction::Fail(WorkerError::Exhausted(7)));
    assert_eq!(t.next_range(), None);
    assert_eq!(WorkerError::Exhausted(7).message(), "Worker 7 failed");
    assert_eq!(WorkerError::Exhausted(120).message(), "Worker 120 failed");
}

#[test]
fn unauthorized_ends_the_work_at_once() {
    let mut t = task(0, 9);
    assert_eq!(t.on_reply(Reply::Status(401)), ReplyAction::Fail(WorkerError::Unauthorized));
    assert_eq!(WorkerError::Unauthorized.message(), "401");
}

#[test]
fn every_success_status_streams() {
    for status in [200u16, 206, 299] {
        assert_eq!(task(3, 9).on_reply(Reply::Status(status)), ReplyAction::Stream(3));
    }
    for status in [100u16, 199, 300, 403, 416, 503] {
        assert_eq!(task(3, 9).on_reply(Reply::Status(status)), ReplyAction::Pause(500));
    }
}

#[test]
fn progress_is_reported_in_batches() {
    let mut t = task(0, 10_000_000);
    t.on_reply(Reply::Status(206));
    let mut reported = 0;
    let mut reports = 0;
    for _ in 0..5 {
        if let Some(bytes) = t.on_data(1_048_576) {
            assert_eq!(bytes, 2_097_152);
            reported += bytes;
            reports += 1;
        }
    }
    assert_eq!(reports, 2);
    reported += t.on_body_end();
    assert_eq!(reported, 5 * 1_048_576);
    assert_eq!(t.on_body_end(), 0);
}

#[test]
fn body_beyond_the_chunk_completes_it() {
    let mut t = task(0, 9);
    t.on_reply(Reply::Status(200));
    t.on_data(50);
    t.on_body_end();
    assert_eq!(t.next_range(), None);
    assert_eq!(t.pos, 50);
}

#[test]
fn permits_come_in_portions_of_a_burst() {
    assert_eq!(permit_portions(1, 1000), vec![1]);
    assert_eq!(permit_portions(1000, 1000), vec![1000]);
    assert_eq!(permit_portions(2500, 1000), vec![1000, 1000, 500]);
    assert_eq!(permit_portions(3, 1), vec![1, 1, 1]);
    assert!(permit_portions(0, 5).is_empty());
    assert_eq!(permit_portions((1 << 32) + 5, u32::MAX), vec![u32::MAX, 6]);
}

#[test]
fn complete_whole_chunk_has_every_byte() {
    let mut t = ChunkTask::new(0, whole(300, 0));
    let mut received = 0u64;
    while let Some((start, end)) = t.next_range() {
        assert_eq!((start, end), (received, 299));
        assert_eq!(t.on_reply(Reply::Status(200)), ReplyAction::Stream(received));
        t.on_data(100);
        received += t.on_body_end();
    }
    assert_eq!(received, 300);
    assert_eq!(t.pos, 300);
}

const STEADY: SpeedTrend = SpeedTrend { grew: false, surged: false, fell: false };
const GREW: SpeedTrend = SpeedTrend { grew: true, surged: false, fell: false };
const SURGED: SpeedTrend = SpeedTrend { grew: true, surged: true, fell: false };
const FELL: SpeedTrend = SpeedTrend { grew: false, surged: false, fell: true };

#[test]
fn pool_grows_with_the_speed() {
    let mut s = Scaler::new(16);
    assert_eq!(s.step(false, SURGED), ScaleAction::Spawn { first: 17, count: 16 });
    assert_eq!(s.step(false, GREW), ScaleAction::Spawn { first: 33, count: 4 });
    assert_eq!(s.step(false, STEADY), ScaleAction::Hold);
    assert_eq!(s.current, 36);
}

#[test]
fn pool_stops_at_its_limit() {
    let mut s = Scaler::new(120);
    assert_eq!(s.step(false, SURGED), ScaleAction::Spawn { first: 121, count: 8 });
    assert_eq!(s.step(false, SURGED), ScaleAction::Hold);
    assert_eq!(s.current, 128);
    let mut s = Scaler::new(16);
    for _ in 0..100 {
        s.step(false, GREW);
        assert!(s.current <= 128);
    }
    assert_eq!(s.current, 128);
}

#[test]
fn scaling_stops_for_good() {
    assert_eq!(Scaler::new(16).step(false, FELL), ScaleAction::Stop);
    assert_eq!(Scaler::new(16).step(true, SURGED), ScaleAction::Stop);
    assert_eq!(Scaler::new(16).step(true, STEADY), ScaleAction::Stop);
}

#[test]
fn sweep_visits_each_worker_once() {
    let mut pool = vec!['a', 'b', 'c', 'd', 'e'];
    let done = ['a', 'c', 'd'];
    let mut seen = Vec::new();
    let mut sweep = Sweep::new(pool.len());
    while let Some(i) = sweep.position() {
        seen.push(pool[i]);
        let finished = done.contains(&pool[i]);
        sweep.record(finished);
        if finished {
            pool.remove(i);
        }
    }
    assert_eq!(seen, vec!['a', 'b', 'c', 'd', 'e']);
    assert_eq!(pool, vec!['b', 'e']);
    assert_eq!(Sweep::new(0).position(), None);
}

#[test]
fn flaky_connections_still_make_a_complete_file() {
    let content: Vec<u8> = (0..5000u32).map(|i| (i * 7 % 251) as u8).collect();
    let mut file = vec![0u8; content.len()];
    let mut written = vec![0u32; content.len()];
    let mut progress = 0;
    let mut queue = ChunkQueue::new(partition(content.len() as u64, 0));
    let mut turn = 0usize;
    while let Some(chunk) = queue.take_next() {
        let mut task = ChunkTask::new(0, chunk);
        let mut failures = 0;
        while let Some((start, end)) = task.next_range() {
            turn += 1;
            let reply = if turn % 3 == 0 && failures < 2 {
                failures += 1;
                Reply::Nothing
            } else {
                Reply::Status(206)
            };
            match task.on_reply(reply) {
                ReplyAction::Stream(offset) => {
                    assert_eq!(offset, start);
                    let sent = (end - start + 1).min(1 + turn as u64 % 4);
                    let mut at = offset as usize;
                    for _ in 0..sent {
                        file[at] = content[at];
                        written[at] += 1;
                        at += 1;
                        progress += task.on_data(1).unwrap_or(0);
                    }
                    progress += task.on_body_end();
                }
                ReplyAction::Pause(_) => {}
                ReplyAction::Fail(e) => panic!("{}", e.message()),
            }
        }
    }
    assert_eq!(file, content);
    assert!(written.iter().all(|n| *n == 1));
    assert_eq!(progress, content.len() as u64);
}

#[test]
fn workers_side_by_side_make_the_same_file() {
    let content: Vec<u8> = (0..3000u32).map(|i| (i * 11 % 253) as u8).collect();
    let mut file = vec![0xffu8; content.len()];
    let mut open: Vec<(ChunkTask, Option<u64>)> =
        partition(content.len() as u64, 0).into_iter().map(|c| (ChunkTask::new(0, c), None)).collect();
    let mut turn = 0usize;
    while open.iter().any(|(t, body)| body.is_some() || t.next_range().is_some()) {
        for (t, body) in open.iter_mut() {
            turn += 1;
            match *body {
                None => {
                    if t.next_range().is_some() {
                        if let ReplyAction::Stream(offset) = t.on_reply(Reply::Status(206)) {
                            *body = Some(offset);
                        }
                    }
                }
                Some(at) => {
                    if t.next_range().is_none() || turn % 5 == 0 {
                        t.on_body_end();
                        *body = None;
                    } else {
                        file[at as usize] = content[at as usize];
                        t.on_data(1);
                        *body = Some(at + 1);
                    }
                }
            }
        }
    }
    assert_eq!(file, content);
}
