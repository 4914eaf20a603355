//! Copying a serialised record into a destination that address translation
//! has split into chunks.

use vstd::prelude::*;

verus! {

/// Why a syscall of this layer failed.
#[derive(Clone, Copy, Debug, PartialEq, Eq, Structural)]
pub enum MarshalError {
    /// Address translation found no writable memory for the destination.
    InvalidDestination,
    /// A syscall id at or above the number of recognised ids.
    UnknownSyscall,
    /// A reserved syscall that this layer does not carry out.
    Unsupported,
}

impl MarshalError {
    /// The status code that the calling task sees: always negative.
    pub fn status_code(&self) -> (code: isize)
        ensures
            code == -1,
    {
        -1
    }
}

/// The destination of one copy: the byte ranges that address translation
/// returned for a range of user memory, in address order, each holding what
/// that memory holds.
pub struct Destination {
    pub chunks: Vec<Vec<u8>>,
}

impl View for Destination {
    type V = Seq<Seq<u8>>;

    open spec fn view(&self) -> Seq<Seq<u8>> {
        Seq::new(self.chunks@.len(), |i: int| self.chunks@[i]@)
    }
}

impl Destination {
    /// The bytes of the destination in address order: what a reader of the
    /// same user range sees.
    pub fn read_back(&self) -> (out: Vec<u8>)
        ensures
            out@ == flat(self@),
    {
        let mut out: Vec<u8> = Vec::new();
        let mut i: usize = 0;
        while i < self.chunks.len()
            invariant
                i <= self.chunks@.len(),
                out@ == flat_prefix(self@, i as int),
            decreases self.chunks@.len() - i,
        {
            let chunk = &self.chunks[i];
            let ghost start = out@;
            let mut j: usize = 0;
            while j < chunk.len()
                invariant
                    j <= chunk@.len(),
                    out@ == start + chunk@.take(j as int),
                decreases chunk@.len() - j,
            {
                out.push(chunk[j]);
                assert(out@ =~= start + chunk@.take(j + 1));
                j += 1;
            }
            assert(chunk@.take(j as int) =~= chunk@);
            assert(self@[i as int] == chunk@);
            i += 1;
        }
        out
    }
}

/// Number of bytes in the first `i` chunks.
pub open spec fn prefix_len(chunks: Seq<Seq<u8>>, i: int) -> int
    decreases i,
{
    if i <= 0 {
        0
    } else {
        prefix_len(chunks, i - 1) + chunks[i - 1].len()
    }
}

/// Number of bytes in all the chunks.
pub open spec fn total_len(chunks: Seq<Seq<u8>>) -> int {
    prefix_len(chunks, chunks.len() as int)
}

/// The bytes of the first `i` chunks, one chunk after the other.
pub open spec fn flat_prefix(chunks: Seq<Seq<u8>>, i: int) -> Seq<u8>
    decreases i,
{
    if i <= 0 {
        Seq::empty()
    } else {
        flat_prefix(chunks, i - 1) + chunks[i - 1]
    }
}

/// The bytes of all the chunks, one chunk after the other.
pub open spec fn flat(chunks: Seq<Seq<u8>>) -> Seq<u8> {
    flat_prefix(chunks, chunks.len() as int)
}

/// The smaller of two integers.
pub open spec fn min_int(a: int, b: int) -> int {
    if a <= b {
        a
    } else {
        b
    }
}

/// Where in the record the copy stands when it reaches chunk `i`: the bytes
/// of the chunks before it, but no more than the record has.
pub open spec fn cursor_at(chunks: Seq<Seq<u8>>, record: Seq<u8>, i: int) -> int {
    min_int(record.len() as int, prefix_len(chunks, i))
}

/// Number of bytes that chunk `i` receives: what is left of the record, but
/// no more than the chunk holds.
pub open spec fn copy_len_at(chunks: Seq<Seq<u8>>, record: Seq<u8>, i: int) -> int {
    min_int(chunks[i].len() as int, record.len() - cursor_at(chunks, record, i))
}

/// Chunk `i` after the copy: the next bytes of the record, then what the
/// chunk held behind them.
pub open spec fn chunk_after(chunks: Seq<Seq<u8>>, record: Seq<u8>, i: int) -> Seq<u8> {
    let pos = cursor_at(chunks, record, i);
    let n = copy_len_at(chunks, record, i);
    record.subrange(pos, pos + n) + chunks[i].skip(n)
}

/// The chunks after `record` was copied into them from the first chunk on.
pub open spec fn copied(chunks: Seq<Seq<u8>>, record: Seq<u8>) -> Seq<Seq<u8>> {
    Seq::new(chunks.len(), |i: int| chunk_after(chunks, record, i))
}

/// Number of bytes that a copy of `record` into `chunks` writes.
pub open spec fn written_len(chunks: Seq<Seq<u8>>, record: Seq<u8>) -> int {
    min_int(record.len() as int, total_len(chunks))
}

/// A range of user memory to ask address translation for.
#[derive(Clone, Copy, Debug, PartialEq, Eq, Structural)]
pub struct TranslationRequest {
    /// The user address that the range starts at.
    pub ptr: usize,
    /// Number of bytes in the range.
    pub len: usize,
}

/// The range that a copy to `dest_ptr` asks address translation for: it
/// starts there and has the explicit length where one is given, else the
/// length of the record.
pub fn copy_request(dest_ptr: usize, dest_len_hint: Option<usize>, record_len: usize) -> (req: TranslationRequest)
    ensures
        req.ptr == dest_ptr,
        dest_len_hint matches Some(size) ==> req.len == size,
        dest_len_hint is None ==> req.len == record_len,
{
    match dest_len_hint {
        Some(size) => TranslationRequest { ptr: dest_ptr, len: size },
        None => TranslationRequest { ptr: dest_ptr, len: record_len },
    }
}

/// The prefix lengths do not shrink.
pub proof fn lemma_prefix_len_monotonic(chunks: Seq<Seq<u8>>, i: int, j: int)
    requires
        0 <= i <= j,
    ensures
        0 <= prefix_len(chunks, i) <= prefix_len(chunks, j),
    decreases j,
{
    if j > 0 {
        if i < j {
            lemma_prefix_len_monotonic(chunks, i, j - 1);
        } else {
            lemma_prefix_len_monotonic(chunks, i - 1, j - 1);
        }
    }
}

/// Overwrites the first `n` bytes of `chunk` with `src[pos .. pos + n)`.
fn write_chunk(chunk: &mut Vec<u8>, src: &[u8], pos: usize, n: usize)
    requires
        n <= old(chunk)@.len(),
        pos + n <= src@.len(),
    ensures
        final(chunk)@ == src@.subrange(pos as int, pos + n) + old(chunk)@.skip(n as int),
{
    let len = src.len();
    let mut j: usize = 0;
    while j < n
        invariant
            j <= n,
            n <= chunk@.len(),
            pos + n <= len,
            len == src@.len(),
            chunk@.len() == old(chunk)@.len(),
            forall|k: int| 0 <= k < j ==> chunk@[k] == src@[pos + k],
            forall|k: int| j <= k < chunk@.len() ==> chunk@[k] == old(chunk)@[k],
        decreases n - j,
    {
        chunk[j] = src[pos + j];
        j += 1;
    }
    assert(chunk@ =~= src@.subrange(pos as int, pos + n) + old(chunk)@.skip(n as int));
}

/// Copies `record` into the destination, chunk by chunk from the first one,
/// until the record or the chunks are used up.
///
/// Fails with `InvalidDestination`, and only so, where translation gave no
/// destination. Else every chunk receives exactly the next bytes of the
/// record that fit into it, and keeps the rest of what it held.
pub fn copy_record(dest: Option<&mut Destination>, record: &[u8]) -> (res: Result<(), MarshalError>)
    ensures
        dest is None <==> res == Err::<(), MarshalError>(MarshalError::InvalidDestination),
        dest is Some <==> res is Ok,
        dest matches Some(d) ==> final(d)@ == copied(d@, record@),
{
    match dest {
        None => Err(MarshalError::InvalidDestination),
        Some(d) => {
            copy_into(d, record);
            Ok(())
        },
    }
}

/// Copies `record` into the chunks of `dest` and returns the number of bytes
/// written.
pub fn copy_into(dest: &mut Destination, record: &[u8]) -> (written: usize)
    ensures
        final(dest)@ == copied(old(dest)@, record@),
        written == written_len(old(dest)@, record@),
{
    let len = record.len();
    let count = dest.chunks.len();
    let mut pos: usize = 0;
    let mut i: usize = 0;
    while i < count && pos < len
        invariant
            i <= count,
            count == dest.chunks@.len(),
            count == old(dest).chunks@.len(),
            len == record@.len(),
            pos == cursor_at(old(dest)@, record@, i as int),
            forall|k: int| 0 <= k < i ==> (#[trigger] dest.chunks@[k])@ == chunk_after(old(dest)@, record@, k),
            forall|k: int| i <= k < count ==> (#[trigger] dest.chunks@[k])@ == old(dest).chunks@[k]@,
        decreases count - i,
    {
        let room = dest.chunks[i].len();
        let copy_len = if room <= len - pos {
            room
        } else {
            len - pos
        };
        write_chunk(&mut dest.chunks[i], record, pos, copy_len);
        pos += copy_len;
        i += 1;
    }
    proof {
        let before = old(dest)@;
        assert forall|k: int| i <= k < count implies (#[trigger] dest.chunks@[k])@ == chunk_after(
            before,
            record@,
            k,
        ) by {
            lemma_prefix_len_monotonic(before, i as int, k);
            assert(chunk_after(before, record@, k) =~= before[k]);
        }
        lemma_prefix_len_monotonic(before, i as int, count as int);
        assert(dest@ =~= copied(before, record@));
    }
    pos
}

/// The first `i` chunks hold as many bytes as their lengths add up to.
pub proof fn lemma_flat_prefix_len(chunks: Seq<Seq<u8>>, i: int)
    requires
        0 <= i <= chunks.len(),
    ensures
        flat_prefix(chunks, i).len() == prefix_len(chunks, i),
    decreases i,
{
    if i > 0 {
        lemma_flat_prefix_len(chunks, i - 1);
    }
}

/// A copy changes neither the number of chunks nor the length of any chunk.
pub proof fn lemma_copy_keeps_shape(chunks: Seq<Seq<u8>>, record: Seq<u8>)
    ensures
        copied(chunks, record).len() == chunks.len(),
        forall|i: int|
            0 <= i < chunks.len() ==> (#[trigger] copied(chunks, record)[i]).len() == chunks[i].len(),
        total_len(copied(chunks, record)) == total_len(chunks),
{
    let after = copied(chunks, record);
    assert forall|i: int| 0 <= i < chunks.len() implies (#[trigger] after[i]).len() == chunks[i].len() by {
        lemma_prefix_len_monotonic(chunks, 0, i);
    }
    lemma_same_lengths_same_prefix_len(chunks, after, chunks.len() as int);
}

/// Chunk sequences whose first `i` chunks have the same lengths have the same
/// prefix length there.
pub proof fn lemma_same_lengths_same_prefix_len(a: Seq<Seq<u8>>, b: Seq<Seq<u8>>, i: int)
    requires
        0 <= i <= a.len(),
        i <= b.len(),
        forall|k: int| 0 <= k < i ==> (#[trigger] b[k]).len() == a[k].len(),
    ensures
        prefix_len(a, i) == prefix_len(b, i),
    decreases i,
{
    if i > 0 {
        lemma_same_lengths_same_prefix_len(a, b, i - 1);
    }
}

/// After a copy the first `i` chunks, read one after the other, hold the
/// bytes of the record up to the cursor and behind them what they held.
pub proof fn lemma_copied_prefix(chunks: Seq<Seq<u8>>, record: Seq<u8>, i: int)
    requires
        0 <= i <= chunks.len(),
    ensures
        flat_prefix(copied(chunks, record), i) == record.take(cursor_at(chunks, record, i)) + flat_prefix(
            chunks,
            i,
        ).skip(cursor_at(chunks, record, i)),
    decreases i,
{
    let after = copied(chunks, record);
    if i > 0 {
        lemma_copied_prefix(chunks, record, i - 1);
        lemma_flat_prefix_len(chunks, i - 1);
        lemma_flat_prefix_len(chunks, i);
        lemma_prefix_len_monotonic(chunks, 0, i - 1);
        let pos = cursor_at(chunks, record, i - 1);
        let n = copy_len_at(chunks, record, i - 1);
        assert(cursor_at(chunks, record, i) == pos + n);
        assert(after[i - 1] == record.subrange(pos, pos + n) + chunks[i - 1].skip(n));
        assert(flat_prefix(after, i) =~= record.take(pos + n) + flat_prefix(chunks, i).skip(pos + n));
    } else {
        assert(flat_prefix(after, 0) =~= record.take(0) + flat_prefix(chunks, 0).skip(0));
    }
}

/// However the destination is split, the chunks read one after the other
/// hold, after a copy, exactly the first
/// `written_len` bytes of the record, and behind them what the destination
/// held before. No byte beyond those is read or written.
pub proof fn lemma_copy_writes_record_prefix(chunks: Seq<Seq<u8>>, record: Seq<u8>)
    ensures
        0 <= written_len(chunks, record) <= record.len(),
        written_len(chunks, record) <= flat(chunks).len(),
        flat(copied(chunks, record)) == record.take(written_len(chunks, record)) + flat(chunks).skip(
            written_len(chunks, record),
        ),
{
    lemma_copied_prefix(chunks, record, chunks.len() as int);
    lemma_flat_prefix_len(chunks, chunks.len() as int);
    lemma_prefix_len_monotonic(chunks, 0, chunks.len() as int);
}

/// Reading back: where the destination is at least as long as the record,
/// the first bytes of the destination after a copy are the record.
pub proof fn lemma_copy_round_trip(chunks: Seq<Seq<u8>>, record: Seq<u8>)
    requires
        total_len(chunks) >= record.len(),
    ensures
        flat(copied(chunks, record)).len() == flat(chunks).len(),
        flat(copied(chunks, record)).take(record.len() as int) == record,
{
    lemma_copy_writes_record_prefix(chunks, record);
    lemma_flat_prefix_len(chunks, chunks.len() as int);
    assert(record.take(record.len() as int) =~= record);
    assert(flat(copied(chunks, record)).take(record.len() as int) =~= record);
}

/// Reading back a destination shorter than the record gives the record cut
/// off at the destination's length.
pub proof fn lemma_copy_truncates(chunks: Seq<Seq<u8>>, record: Seq<u8>)
    requires
        total_len(chunks) <= record.len(),
    ensures
        flat(copied(chunks, record)) == record.take(total_len(chunks)),
{
    lemma_copy_writes_record_prefix(chunks, record);
    lemma_flat_prefix_len(chunks, chunks.len() as int);
    assert(flat(copied(chunks, record)) =~= record.take(total_len(chunks)));
}

/// A destination of length zero is left as it was, whatever the record.
pub proof fn lemma_copy_into_nothing(chunks: Seq<Seq<u8>>, record: Seq<u8>)
    requires
        total_len(chunks) == 0,
    ensures
        written_len(chunks, record) == 0,
        copied(chunks, record) == chunks,
{
    assert forall|i: int| 0 <= i < chunks.len() implies #[trigger] chunk_after(chunks, record, i) == chunks[i] by {
        lemma_prefix_len_monotonic(chunks, 0, i);
        lemma_prefix_len_monotonic(chunks, i, i + 1);
        lemma_prefix_len_monotonic(chunks, i + 1, chunks.len() as int);
        assert(chunk_after(chunks, record, i) =~= chunks[i]);
    }
    assert(copied(chunks, record) =~= chunks);
}

} // verus!
