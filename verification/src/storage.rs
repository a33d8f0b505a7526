//! The decisions behind writing a snapshot durably and reading it back
//! through an io_uring ring.
//!
//! A buffer is moved by a single request for all of it, at offset 0 in the
//! file and in the buffer. Only a buffer longer than [`MAX_CHUNK`] bytes,
//! the most that one completion can report, is moved by consecutive
//! requests of [`MAX_CHUNK`] bytes each (the last one shorter), each sent
//! once the previous one moved all of its bytes. A completion that moves
//! fewer bytes than its request asked for, reports more, or reports an error
//! ends the transfer with a failure; no request is sent again.
//!
//! A flush writes the buffer this way, then submits one fsync. It is done
//! only when every byte of the buffer was written and the fsync succeeded. A
//! read reads the whole file the same way, and succeeds only when every byte
//! of it was read.

use vstd::prelude::*;

verus! {

/// Entries of the submission queue of each ring.
pub const RING_ENTRIES: u32 = 64;

/// Tag of the write requests of a flush.
pub const WRITE_USER_DATA: u64 = 0x01;

/// Tag of the fsync request of a flush.
pub const FSYNC_USER_DATA: u64 = 0x02;

/// Tag of the read requests.
pub const READ_USER_DATA: u64 = 0x10;

/// The most bytes that one request asks for: a completion reports its byte
/// count as a non-negative `i32`.
pub const MAX_CHUNK: u32 = 0x7fff_ffff;

/// A request to put on the submission queue.
#[derive(Clone, Copy, Debug, PartialEq, Eq)]
pub enum IoRequest {
    /// Write `len` bytes of the buffer, from index `offset`, to the file at
    /// `offset`.
    Write { len: u32, offset: u64, user_data: u64 },
    /// Flush the file's data and metadata to the device.
    Fsync { user_data: u64 },
    /// Read `len` bytes of the file at `offset` into the buffer from index
    /// `offset`.
    Read { len: u32, offset: u64, user_data: u64 },
}

/// Why a transfer failed.
#[derive(Clone, Copy, Debug, PartialEq, Eq)]
pub enum IoFailure {
    /// The kernel reported the error number `errno`.
    Os { errno: i32 },
    /// A completion moved fewer bytes than its request asked for: `done` of
    /// the `expected` bytes were moved in all.
    Incomplete { done: usize, expected: usize },
    /// A completion reported `count` bytes for a request of `requested`.
    Overrun { count: usize, requested: usize },
}

/// The direction of a transfer.
#[derive(Clone, Copy, Debug, PartialEq, Eq)]
pub enum Direction {
    /// From the buffer to the file.
    Write,
    /// From the file to the buffer.
    Read,
}

/// A transfer of `total` bytes between a buffer and a file, of which the
/// first `done` have been moved.
#[derive(Clone, Copy, Debug, PartialEq, Eq)]
pub struct Transfer {
    pub direction: Direction,
    pub total: usize,
    pub done: usize,
}

impl Transfer {
    /// No more bytes are counted as moved than the transfer holds.
    pub open spec fn wf(self) -> bool {
        self.done <= self.total
    }

    /// Bytes asked for by the next request: what remains, but at most
    /// [`MAX_CHUNK`].
    pub open spec fn spec_chunk(self) -> int {
        if self.total - self.done <= MAX_CHUNK {
            self.total - self.done
        } else {
            MAX_CHUNK as int
        }
    }

    /// The next request: the next [`Self::spec_chunk`] bytes from offset
    /// `done`.
    pub open spec fn spec_request(self) -> IoRequest {
        match self.direction {
            Direction::Write => IoRequest::Write {
                len: self.spec_chunk() as u32,
                offset: self.done as u64,
                user_data: WRITE_USER_DATA,
            },
            Direction::Read => IoRequest::Read {
                len: self.spec_chunk() as u32,
                offset: self.done as u64,
                user_data: READ_USER_DATA,
            },
        }
    }

    /// Builds the next request.
    pub fn request(&self) -> (req: IoRequest)
        requires
            self.wf(),
        ensures
            req == self.spec_request(),
    {
        let remaining = self.total - self.done;
        let len: u32 = if remaining <= MAX_CHUNK as usize {
            remaining as u32
        } else {
            MAX_CHUNK
        };
        match self.direction {
            Direction::Write => IoRequest::Write {
                len,
                offset: self.done as u64,
                user_data: WRITE_USER_DATA,
            },
            Direction::Read => IoRequest::Read {
                len,
                offset: self.done as u64,
                user_data: READ_USER_DATA,
            },
        }
    }
}

/// What the caller does after a completion of a transfer.
#[derive(Clone, Copy, Debug, PartialEq, Eq)]
pub enum TransferStep {
    /// Submit `request` for the rest, then wait for its completion as `next`.
    Submit { request: IoRequest, next: Transfer },
    /// All `total` bytes were moved.
    Complete { total: usize },
    /// The transfer failed.
    Fail { failure: IoFailure },
}

/// The outcome that a completion's `result` reports: a byte count when it is
/// non-negative, the negated error number otherwise.
pub open spec fn spec_completion(result: i32) -> Result<usize, i32> {
    if result >= 0 {
        Ok(result as usize)
    } else {
        Err((-result) as i32)
    }
}

/// Interprets the `result` field of a completion queue entry.
pub fn completion_result(result: i32) -> (r: Result<usize, i32>)
    requires
        result != i32::MIN,
    ensures
        r == spec_completion(result),
{
    if result < 0 {
        Err(-result)
    } else {
        Ok(result as usize)
    }
}

/// The step of transfer `t` on the completion, with `result`, of its
/// request: an error or a count other than the request's length fails the
/// transfer; a full completion of the last part completes it; a full
/// completion of an earlier part leads to the request for the next part.
pub open spec fn spec_transfer_step(t: Transfer, result: i32) -> TransferStep {
    match spec_completion(result) {
        Err(errno) => TransferStep::Fail { failure: IoFailure::Os { errno } },
        Ok(n) => if n > t.spec_chunk() {
            TransferStep::Fail {
                failure: IoFailure::Overrun { count: n, requested: t.spec_chunk() as usize },
            }
        } else if n < t.spec_chunk() {
            TransferStep::Fail {
                failure: IoFailure::Incomplete { done: (t.done + n) as usize, expected: t.total },
            }
        } else if t.done + n == t.total {
            TransferStep::Complete { total: t.total }
        } else {
            let next = Transfer { done: (t.done + n) as usize, ..t };
            TransferStep::Submit { request: next.spec_request(), next }
        },
    }
}

/// Starts a transfer of `total` bytes: the transfer, and its first request.
pub fn transfer_start(direction: Direction, total: usize) -> (res: (Transfer, IoRequest))
    ensures
        res.0 == (Transfer { direction, total, done: 0 }),
        res.1 == res.0.spec_request(),
{
    let t = Transfer { direction, total, done: 0 };
    let req = t.request();
    (t, req)
}

/// Advances transfer `t` on the completion, with `result`, of its request.
pub fn transfer_on_completion(t: Transfer, result: i32) -> (step: TransferStep)
    requires
        t.wf(),
        result != i32::MIN,
    ensures
        step == spec_transfer_step(t, result),
{
    let remaining = t.total - t.done;
    let chunk: usize = if remaining <= MAX_CHUNK as usize {
        remaining
    } else {
        MAX_CHUNK as usize
    };
    match completion_result(result) {
        Err(errno) => TransferStep::Fail { failure: IoFailure::Os { errno } },
        Ok(n) => {
            if n > chunk {
                TransferStep::Fail { failure: IoFailure::Overrun { count: n, requested: chunk } }
            } else if n < chunk {
                TransferStep::Fail {
                    failure: IoFailure::Incomplete { done: t.done + n, expected: t.total },
                }
            } else if n == remaining {
                TransferStep::Complete { total: t.total }
            } else {
                let next = Transfer { done: t.done + n, ..t };
                TransferStep::Submit { request: next.request(), next }
            }
        },
    }
}

/// A transfer moves every byte once and asks for nothing twice: each request
/// asks for the bytes right after those already moved, never past the end;
/// a further request is sent only when the previous one moved all it asked
/// for and more than [`MAX_CHUNK`] bytes remained, so a buffer of at most
/// [`MAX_CHUNK`] bytes is moved by its first request alone or not at all;
/// such a step keeps direction and length and strictly advances; and a
/// transfer completes only once all of its bytes were moved.
pub proof fn lemma_transfer_step(t: Transfer, result: i32)
    requires
        t.wf(),
        result != i32::MIN,
    ensures
        t.spec_request() matches IoRequest::Write { len, offset, .. } ==> offset == t.done && t.done
            + len <= t.total && (len > 0 || t.done == t.total),
        t.spec_request() matches IoRequest::Read { len, offset, .. } ==> offset == t.done && t.done
            + len <= t.total && (len > 0 || t.done == t.total),
        spec_transfer_step(t, result) matches TransferStep::Submit { request, next } ==> {
            &&& t.total - t.done > MAX_CHUNK
            &&& result == MAX_CHUNK
            &&& next.wf()
            &&& next.direction == t.direction
            &&& next.total == t.total
            &&& next.done == t.done + MAX_CHUNK
            &&& request == next.spec_request()
        },
        spec_transfer_step(t, result) matches TransferStep::Complete { total } ==> total == t.total
            && result >= 0 && t.done + result == t.total,
{
}

/// The completion a flush is waiting for.
#[derive(Clone, Copy, Debug, PartialEq, Eq)]
pub enum FlushStage {
    /// A write request of this transfer of the buffer is submitted.
    Writing(Transfer),
    /// All `written` bytes of the buffer are written and the fsync is
    /// submitted.
    Syncing { written: usize },
}

/// What the caller does after a completion of a flush.
#[derive(Clone, Copy, Debug, PartialEq, Eq)]
pub enum FlushStep {
    /// Submit `request`, then wait for its completion in stage `next`.
    Submit { request: IoRequest, next: FlushStage },
    /// The snapshot is durable: all `written` bytes were written and synced.
    Done { written: usize },
    /// The flush failed.
    Fail { failure: IoFailure },
}

/// A stage of a flush that waits for a completion.
pub open spec fn spec_flush_stage_wf(stage: FlushStage) -> bool {
    match stage {
        FlushStage::Writing(t) => t.wf() && t.direction == Direction::Write,
        FlushStage::Syncing { .. } => true,
    }
}

/// `stage` belongs to a flush of a buffer of `len` bytes.
pub open spec fn spec_flush_of(stage: FlushStage, len: usize) -> bool {
    match stage {
        FlushStage::Writing(t) => t.wf() && t.direction == Direction::Write && t.total == len,
        FlushStage::Syncing { written } => written == len,
    }
}

/// Starts a flush of `data_len` bytes: the stage in which the completion of
/// the first request is awaited, and that request.
pub fn flush_start(data_len: usize) -> (res: (FlushStage, IoRequest))
    ensures
        res.0 == FlushStage::Writing(Transfer { direction: Direction::Write, total: data_len, done: 0 }),
        spec_flush_of(res.0, data_len),
        res.1 == (Transfer { direction: Direction::Write, total: data_len, done: 0 }).spec_request(),
{
    let (t, req) = transfer_start(Direction::Write, data_len);
    (FlushStage::Writing(t), req)
}

/// The step of a flush on a completion with `result` in `stage`: writing
/// goes on until the whole buffer is written, then the fsync is submitted;
/// a successful fsync ends the flush; any failure ends it with that failure.
pub open spec fn spec_flush_step(stage: FlushStage, result: i32) -> FlushStep {
    match stage {
        FlushStage::Writing(t) => match spec_transfer_step(t, result) {
            TransferStep::Submit { request, next } => FlushStep::Submit {
                request,
                next: FlushStage::Writing(next),
            },
            TransferStep::Complete { total } => FlushStep::Submit {
                request: IoRequest::Fsync { user_data: FSYNC_USER_DATA },
                next: FlushStage::Syncing { written: total },
            },
            TransferStep::Fail { failure } => FlushStep::Fail { failure },
        },
        FlushStage::Syncing { written } => match spec_completion(result) {
            Err(errno) => FlushStep::Fail { failure: IoFailure::Os { errno } },
            Ok(_) => FlushStep::Done { written },
        },
    }
}

/// Advances a flush on the completion, with `result`, of the request it
/// waits for in `stage`.
pub fn flush_on_completion(stage: FlushStage, result: i32) -> (step: FlushStep)
    requires
        spec_flush_stage_wf(stage),
        result != i32::MIN,
    ensures
        step == spec_flush_step(stage, result),
{
    match stage {
        FlushStage::Writing(t) => match transfer_on_completion(t, result) {
            TransferStep::Submit { request, next } => FlushStep::Submit {
                request,
                next: FlushStage::Writing(next),
            },
            TransferStep::Complete { total } => FlushStep::Submit {
                request: IoRequest::Fsync { user_data: FSYNC_USER_DATA },
                next: FlushStage::Syncing { written: total },
            },
            TransferStep::Fail { failure } => FlushStep::Fail { failure },
        },
        FlushStage::Syncing { written } => match completion_result(result) {
            Err(errno) => FlushStep::Fail { failure: IoFailure::Os { errno } },
            Ok(_) => FlushStep::Done { written },
        },
    }
}

/// A flush is done only when the whole buffer is on the device: every stage
/// reached from the start of a flush of `len` bytes belongs to that flush,
/// the fsync is submitted only once all `len` bytes were written, and the
/// flush is done only after a successful fsync, reporting all `len` bytes.
pub proof fn lemma_flush_done_means_whole_buffer(stage: FlushStage, len: usize, result: i32)
    requires
        spec_flush_of(stage, len),
        result != i32::MIN,
    ensures
        spec_flush_step(stage, result) matches FlushStep::Submit { request, next } ==> {
            &&& spec_flush_of(next, len)
            &&& spec_flush_stage_wf(next)
            &&& (request is Fsync <==> next is Syncing)
            &&& next is Syncing ==> stage is Writing
        },
        spec_flush_step(stage, result) matches FlushStep::Done { written } ==> {
            &&& written == len
            &&& stage is Syncing
            &&& result >= 0
        },
{
    if let FlushStage::Writing(t) = stage {
        lemma_transfer_step(t, result);
    }
}

/// A completion reports a count or an error number, never both: a
/// non-negative result is the count itself, a negative one the positive
/// error number whose negation it is. Writes are tagged 0x01, the fsync
/// 0x02 and reads 0x10, and a request asks for at most `i32::MAX` bytes.
pub proof fn lemma_completion_and_tags(result: i32)
    requires
        result != i32::MIN,
    ensures
        result >= 0 ==> spec_completion(result) == Ok::<usize, i32>(result as usize),
        result < 0 ==> (spec_completion(result) matches Err(e) && e > 0 && e + result == 0),
        WRITE_USER_DATA == 0x01,
        FSYNC_USER_DATA == 0x02,
        READ_USER_DATA == 0x10,
        MAX_CHUNK == i32::MAX,
{
}

/// A flush of at most [`MAX_CHUNK`] bytes sends a single write: its first
/// request writes the whole buffer at offset 0, and the completion of that
/// write leads to the fsync or to a failure, never to another write.
pub proof fn lemma_flush_single_write(len: usize, result: i32)
    requires
        len <= MAX_CHUNK,
        result != i32::MIN,
    ensures
        ({
            let t = Transfer { direction: Direction::Write, total: len, done: 0 };
            &&& t.spec_request() == IoRequest::Write {
                len: len as u32,
                offset: 0,
                user_data: WRITE_USER_DATA,
            }
            &&& spec_flush_step(FlushStage::Writing(t), result) matches FlushStep::Submit {
                request,
                next,
            } ==> request == IoRequest::Fsync { user_data: FSYNC_USER_DATA }
                && next == FlushStage::Syncing { written: len }
        }),
{
    lemma_transfer_step(Transfer { direction: Direction::Write, total: len, done: 0 }, result);
}

/// Starts a read of a file of `file_len` bytes into a buffer of that size.
pub fn read_start(file_len: usize) -> (res: (Transfer, IoRequest))
    ensures
        res.0 == (Transfer { direction: Direction::Read, total: file_len, done: 0 }),
        res.1 == res.0.spec_request(),
{
    transfer_start(Direction::Read, file_len)
}

} // verus!
