//! Byte ranges of a target and the queue that hands them to the workers.
use vstd::prelude::*;

verus! {

/// How many pieces a target with range support is cut into, if it has as many bytes.
pub const NUM_CHUNKS: u64 = 1024;

/// The bytes `start` to `end`, both inclusive, of one target.
#[derive(Clone, Copy, Debug, PartialEq, Eq, Structural)]
pub struct Chunk {
    pub start: u64,
    pub end: u64,
    pub target_idx: usize,
}

impl Chunk {
    /// Whether the byte at `offset` belongs to this chunk.
    pub open spec fn covers(self, offset: int) -> bool {
        self.start <= offset <= self.end
    }

    pub open spec fn len(self) -> int {
        self.end - self.start + 1
    }
}

/// Piece number `i` of a target of `size` bytes that is long enough to be cut up: all
/// pieces have the same length, but for the last one, which also takes what the division
/// leaves over.
pub open spec fn piece(size: u64, target_idx: usize, i: int) -> Chunk {
    let step = size as int / 1024;
    Chunk {
        start: (i * step) as u64,
        end: (if i == 1023 {
            size - 1
        } else {
            (i + 1) * step - 1
        }) as u64,
        target_idx,
    }
}

/// The single chunk of a target that is fetched as a whole. An empty target is asked for
/// its first byte all the same.
pub open spec fn whole_chunk(size: u64, target_idx: usize) -> Chunk {
    Chunk {
        start: 0,
        end: if size == 0 {
            0
        } else {
            (size - 1) as u64
        },
        target_idx,
    }
}

/// All pieces of a target of `size` bytes. One that has fewer bytes than there would be
/// pieces stays whole.
pub open spec fn pieces(size: u64, target_idx: usize) -> Seq<Chunk> {
    if size >= 1024 {
        Seq::new(1024, |i: int| piece(size, target_idx, i))
    } else {
        seq![whole_chunk(size, target_idx)]
    }
}

/// The total number of bytes of `chunks`.
pub open spec fn total_len(chunks: Seq<Chunk>) -> int
    decreases chunks.len(),
{
    if chunks.len() == 0 {
        0
    } else {
        total_len(chunks.drop_last()) + chunks.last().len()
    }
}

/// The products in `piece` stay within `size`.
proof fn lemma_piece_bounds(size: u64, i: int)
    requires
        size >= 1024,
        0 <= i < 1024,
    ensures
        size as int / 1024 >= 1,
        0 <= i * (size as int / 1024) <= 1023 * (size as int / 1024) < size,
        i * (size as int / 1024) < (i + 1) * (size as int / 1024) <= size,
        (i + 1) * (size as int / 1024) == i * (size as int / 1024) + size as int / 1024,
{
    let step = size as int / 1024;
    assert(step >= 1 && 1024 * step <= size);
    assert(0 <= i * step <= 1023 * step) by (nonlinear_arith)
        requires
            0 <= i <= 1023,
            step >= 1,
    ;
    assert((i + 1) * step == i * step + step) by (nonlinear_arith);
}

/// Cuts a target of `size` bytes into its pieces.
pub fn partition(size: u64, target_idx: usize) -> (chunks: Vec<Chunk>)
    ensures
        chunks@ == pieces(size, target_idx),
{
    let mut chunks: Vec<Chunk> = Vec::new();
    if size < NUM_CHUNKS {
        chunks.push(whole(size, target_idx));
        assert(chunks@ =~= pieces(size, target_idx));
        return chunks;
    }
    let chunk_size: u64 = size / NUM_CHUNKS;
    let mut i: u64 = 0;
    while i < NUM_CHUNKS
        invariant
            size >= 1024,
            chunk_size == size / 1024,
            i <= 1024,
            chunks@ == pieces(size, target_idx).take(i as int),
        decreases 1024 - i,
    {
        proof {
            lemma_piece_bounds(size, i as int);
        }
        let start: u64 = i * chunk_size;
        let end: u64 = if i == NUM_CHUNKS - 1 {
            size - 1
        } else {
            (i + 1) * chunk_size - 1
        };
        chunks.push(Chunk { start, end, target_idx });
        assert(chunks@ =~= pieces(size, target_idx).take(i + 1));
        i = i + 1;
    }
    assert(pieces(size, target_idx).take(1024) =~= pieces(size, target_idx));
    chunks
}

/// The single chunk of a target that can only be fetched as a whole.
pub fn whole(size: u64, target_idx: usize) -> (chunk: Chunk)
    ensures
        chunk == whole_chunk(size, target_idx),
{
    Chunk { start: 0, end: size.saturating_sub(1), target_idx }
}

/// The pieces lie end to end: the first starts at the first byte, each starts right
/// behind the one before, the last ends at the last byte, and none is empty. There are
/// 1024 of them, or one if the target has fewer bytes than that.
pub proof fn pieces_are_contiguous(size: u64, target_idx: usize)
    requires
        size >= 1,
    ensures
        pieces(size, target_idx).len() == if size >= 1024 {
            1024int
        } else {
            1
        },
        pieces(size, target_idx).first().start == 0,
        pieces(size, target_idx).last().end == size - 1,
        forall|i: int|
            0 <= i < pieces(size, target_idx).len() - 1 ==> (#[trigger] pieces(
                size,
                target_idx,
            )[i]).end + 1 == pieces(size, target_idx)[i + 1].start,
        forall|i: int|
            0 <= i < pieces(size, target_idx).len() ==> (#[trigger] pieces(
                size,
                target_idx,
            )[i]).start <= pieces(size, target_idx)[i].end < size,
        forall|i: int|
            0 <= i < pieces(size, target_idx).len() ==> (#[trigger] pieces(
                size,
                target_idx,
            )[i]).target_idx == target_idx,
{
    let chunks = pieces(size, target_idx);
    if size >= 1024 {
        assert forall|i: int| 0 <= i < 1023 implies (#[trigger] chunks[i]).end + 1 == chunks[i
            + 1].start by {
            lemma_piece_bounds(size, i);
            lemma_piece_bounds(size, i + 1);
        }
        assert forall|i: int| 0 <= i < 1024 implies (#[trigger] chunks[i]).start <= chunks[i].end
            < size by {
            lemma_piece_bounds(size, i);
        }
    }
}

/// The pieces share the target evenly: of 1024 pieces each has a 1024th of the bytes, rounded
/// down, and the last one also those that are left over.
pub proof fn pieces_share_evenly(size: u64, target_idx: usize, i: int)
    requires
        size >= 1024,
        0 <= i < 1024,
    ensures
        ({
            let piece = pieces(size, target_idx)[i];
            let share = size as int / 1024;
            &&& piece.start == i * share
            &&& piece.end - piece.start + 1 == if i < 1023 {
                share
            } else {
                share + size as int % 1024
            }
            &&& piece.target_idx == target_idx
        }),
{
    lemma_piece_bounds(size, i);
}

/// The single chunk of a target that is not cut up has all its bytes and no others. An empty
/// target is asked for its first byte.
pub proof fn whole_chunk_has_all_bytes(size: u64, target_idx: usize, offset: int)
    ensures
        whole_chunk(size, target_idx).target_idx == target_idx,
        size >= 1 ==> (whole_chunk(size, target_idx).start <= offset <= whole_chunk(
            size,
            target_idx,
        ).end <==> 0 <= offset < size),
        size == 0 ==> whole_chunk(size, target_idx).start == 0 && whole_chunk(
            size,
            target_idx,
        ).end == 0,
        size < 1024 ==> pieces(size, target_idx) == seq![whole_chunk(size, target_idx)],
{
}

/// Every byte of the target belongs to exactly one piece.
pub proof fn each_byte_is_in_one_piece(size: u64, target_idx: usize, offset: int)
    requires
        0 <= offset < size,
    ensures
        exists|i: int|
            0 <= i < pieces(size, target_idx).len() && (#[trigger] pieces(
                size,
                target_idx,
            )[i]).covers(offset),
        forall|i: int, j: int|
            0 <= i < pieces(size, target_idx).len() && 0 <= j < pieces(size, target_idx).len() && (
            #[trigger] pieces(size, target_idx)[i]).covers(offset) && (#[trigger] pieces(
                size,
                target_idx,
            )[j]).covers(offset) ==> i == j,
        forall|i: int|
            0 <= i < pieces(size, target_idx).len() ==> ((#[trigger] pieces(
                size,
                target_idx,
            )[i]).covers(offset) <==> pieces(size, target_idx)[i].start <= offset
                <= pieces(size, target_idx)[i].end),
{
    let chunks = pieces(size, target_idx);
    if size < 1024 {
        assert(chunks[0].covers(offset));
    } else {
        lemma_each_byte_is_in_one_piece(size, target_idx, offset);
    }
}

proof fn lemma_each_byte_is_in_one_piece(size: u64, target_idx: usize, offset: int)
    requires
        size >= 1024,
        0 <= offset < size,
    ensures
        exists|i: int| 0 <= i < 1024 && (#[trigger] pieces(size, target_idx)[i]).covers(offset),
        forall|i: int, j: int|
            0 <= i < 1024 && 0 <= j < 1024 && (#[trigger] pieces(size, target_idx)[i]).covers(
                offset,
            ) && (#[trigger] pieces(size, target_idx)[j]).covers(offset) ==> i == j,
{
    let chunks = pieces(size, target_idx);
    let step = size as int / 1024;
    lemma_piece_bounds(size, 0);
    let q = offset / step;
    let k = if q < 1023 {
        q
    } else {
        1023
    };
    vstd::arithmetic::div_mod::lemma_fundamental_div_mod(offset, step);
    vstd::arithmetic::div_mod::lemma_div_pos_is_pos(offset, step);
    assert(q * step <= offset < q * step + step) by {
        assert(step * q == q * step) by (nonlinear_arith);
    }
    lemma_piece_bounds(size, k);
    if q >= 1023 {
        assert(1023 * step <= q * step) by (nonlinear_arith)
            requires
                q >= 1023,
                step >= 1,
        ;
    }
    assert(chunks[k].covers(offset));
    assert forall|i: int, j: int|
        0 <= i < 1024 && 0 <= j < 1024 && (#[trigger] chunks[i]).covers(offset) && (
        #[trigger] chunks[j]).covers(offset) implies i == j by {
        if i < j {
            lemma_pieces_ordered(size, target_idx, i, j);
        } else if j < i {
            lemma_pieces_ordered(size, target_idx, j, i);
        }
    }
}

proof fn lemma_pieces_ordered(size: u64, target_idx: usize, i: int, j: int)
    requires
        size >= 1024,
        0 <= i < j < 1024,
    ensures
        piece(size, target_idx, i).end < piece(size, target_idx, j).start,
{
    let step = size as int / 1024;
    lemma_piece_bounds(size, i);
    lemma_piece_bounds(size, j);
    assert((i + 1) * step <= j * step) by (nonlinear_arith)
        requires
            i + 1 <= j,
            step >= 1,
    ;
}

/// The lengths of the pieces add up to the size of the target.
pub proof fn pieces_add_up_to_size(size: u64, target_idx: usize)
    requires
        size >= 1,
    ensures
        total_len(pieces(size, target_idx)) == size,
{
    let chunks = pieces(size, target_idx);
    if size >= 1024 {
        lemma_total_len_prefix(size, target_idx, 1023);
        lemma_piece_bounds(size, 1023);
        assert(chunks.drop_last() =~= chunks.take(1023));
    } else {
        assert(chunks.drop_last() =~= Seq::empty());
        assert(total_len(chunks.drop_last()) == 0);
    }
}

proof fn lemma_total_len_prefix(size: u64, target_idx: usize, n: int)
    requires
        size >= 1024,
        0 <= n <= 1023,
    ensures
        total_len(pieces(size, target_idx).take(n)) == n * (size as int / 1024),
    decreases n,
{
    let chunks = pieces(size, target_idx);
    if n > 0 {
        lemma_total_len_prefix(size, target_idx, n - 1);
        lemma_piece_bounds(size, n - 1);
        assert(chunks.take(n).drop_last() =~= chunks.take(n - 1));
    } else {
        assert(0 * (size as int / 1024) == 0) by (nonlinear_arith);
    }
}

/// Chunks that no worker has taken yet, in the order in which they are handed out.
pub struct ChunkQueue {
    chunks: Vec<Chunk>,
}

impl View for ChunkQueue {
    type V = Seq<Chunk>;

    closed spec fn view(&self) -> Seq<Chunk> {
        self.chunks@
    }
}

impl ChunkQueue {
    pub fn new(chunks: Vec<Chunk>) -> (q: ChunkQueue)
        ensures
            q@ == chunks@,
    {
        ChunkQueue { chunks }
    }

    pub fn is_empty(&self) -> (r: bool)
        ensures
            r == (self@.len() == 0),
            r == (take_first(self@).0 is None),
    {
        self.chunks.len() == 0
    }

    /// Takes the chunk that has waited longest.
    pub fn take_next(&mut self) -> (r: Option<Chunk>)
        ensures
            (r, final(self)@) == take_first(old(self)@),
    {
        if self.chunks.len() == 0 {
            None
        } else {
            let chunk = self.chunks.remove(0);
            assert(self.chunks@ =~= old(self).chunks@.drop_first());
            Some(chunk)
        }
    }
}

/// What one call of `take_next` returns and leaves in the queue.
pub open spec fn take_first(queue: Seq<Chunk>) -> (Option<Chunk>, Seq<Chunk>) {
    if queue.len() == 0 {
        (None, queue)
    } else {
        (Some(queue.first()), queue.drop_first())
    }
}

/// What `n` calls of `take_next` return, and what they leave in the queue.
pub open spec fn take_times(queue: Seq<Chunk>, n: nat) -> (Seq<Option<Chunk>>, Seq<Chunk>)
    decreases n,
{
    if n == 0 {
        (Seq::empty(), queue)
    } else {
        let (taken, rest) = take_times(queue, (n - 1) as nat);
        let (next, left) = take_first(rest);
        (taken.push(next), left)
    }
}

/// Taking from the queue until it is empty hands out every chunk once, in order, and
/// from then on nothing.
pub proof fn queue_hands_out_each_chunk_once(queue: Seq<Chunk>, n: nat)
    ensures
        take_times(queue, n).0.len() == n,
        forall|i: int|
            0 <= i < n ==> #[trigger] take_times(queue, n).0[i] == (if i < queue.len() {
                Some(queue[i])
            } else {
                None
            }),
        take_times(queue, n).1 == if n < queue.len() {
            queue.skip(n as int)
        } else {
            Seq::empty()
        },
    decreases n,
{
    if n == 0 {
        assert(queue.skip(0) =~= queue);
        assert(queue.len() == 0 ==> queue =~= Seq::empty());
    } else {
        queue_hands_out_each_chunk_once(queue, (n - 1) as nat);
        if n - 1 < queue.len() {
            assert(queue.skip(n - 1).drop_first() =~= queue.skip(n as int));
            assert(n == queue.len() ==> queue.skip(n as int) =~= Seq::empty());
        }
    }
}

} // verus!
