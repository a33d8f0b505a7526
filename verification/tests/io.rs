use suspend_storage::storage::{
    completion_result, flush_on_completion, flush_start, read_start, transfer_on_completion,
    Direction, FlushStage, FlushStep, IoFailure, IoRequest, Transfer, TransferStep,
    FSYNC_USER_DATA, MAX_CHUNK, READ_USER_DATA, RING_ENTRIES, WRITE_USER_DATA,
};

#[test]
fn ring_and_tags() {
    assert_eq!(RING_ENTRIES, 64);
    assert_eq!(WRITE_USER_DATA, 0x01);
    assert_eq!(FSYNC_USER_DATA, 0x02);
    assert_eq!(READ_USER_DATA, 0x10);
    assert_eq!(MAX_CHUNK, i32::MAX as u32);
}

#[test]
fn completion_results() {
    assert_eq!(completion_result(0), Ok(0));
    assert_eq!(completion_result(65_992), Ok(65_992));
    assert_eq!(completion_result(i32::MAX), Ok(i32::MAX as usize));
    assert_eq!(completion_result(-5), Err(5));
    assert_eq!(completion_result(-28), Err(28));
    assert_eq!(completion_result(-i32::MAX), Err(i32::MAX));
}

fn writing(total: usize, done: usize) -> FlushStage {
    FlushStage::Writing(Transfer { direction: Direction::Write, total, done })
}

#[test]
fn flush_writes_whole_buffer_at_offset_zero() {
    let (stage, req) = flush_start(65_992);
    assert_eq!(stage, writing(65_992, 0));
    assert_eq!(req, IoRequest::Write { len: 65_992, offset: 0, user_data: 0x01 });
}

#[test]
fn flush_succeeds_after_full_write_and_fsync() {
    let (stage, _) = flush_start(100);
    let step = flush_on_completion(stage, 100);
    assert_eq!(
        step,
        FlushStep::Submit {
            request: IoRequest::Fsync { user_data: 0x02 },
            next: FlushStage::Syncing { written: 100 },
        }
    );
    assert_eq!(
        flush_on_completion(FlushStage::Syncing { written: 100 }, 0),
        FlushStep::Done { written: 100 }
    );
}

#[test]
fn flush_fails_on_a_short_write_without_another_write() {
    let (stage, _) = flush_start(10);
    assert_eq!(
        flush_on_completion(stage, 5),
        FlushStep::Fail { failure: IoFailure::Incomplete { done: 5, expected: 10 } }
    );
    assert_eq!(
        flush_on_completion(writing(100, 0), 0),
        FlushStep::Fail { failure: IoFailure::Incomplete { done: 0, expected: 100 } }
    );
}

#[test]
fn flush_fails_when_a_write_reports_too_much() {
    assert_eq!(
        flush_on_completion(writing(100, 0), 101),
        FlushStep::Fail { failure: IoFailure::Overrun { count: 101, requested: 100 } }
    );
}

#[test]
fn flush_fails_on_write_error_without_fsync() {
    assert_eq!(
        flush_on_completion(writing(100, 0), -28),
        FlushStep::Fail { failure: IoFailure::Os { errno: 28 } }
    );
}

#[test]
fn flush_fails_on_fsync_error() {
    assert_eq!(
        flush_on_completion(FlushStage::Syncing { written: 100 }, -5),
        FlushStep::Fail { failure: IoFailure::Os { errno: 5 } }
    );
}

#[test]
fn flush_of_empty_buffer_goes_to_fsync() {
    let (stage, req) = flush_start(0);
    assert_eq!(req, IoRequest::Write { len: 0, offset: 0, user_data: 0x01 });
    assert_eq!(
        flush_on_completion(stage, 0),
        FlushStep::Submit {
            request: IoRequest::Fsync { user_data: 0x02 },
            next: FlushStage::Syncing { written: 0 },
        }
    );
}

#[test]
fn flush_splits_only_buffers_larger_than_one_request() {
    let total: usize = 0x1_0000_0005;
    let (stage, req) = flush_start(total);
    assert_eq!(req, IoRequest::Write { len: 0x7fff_ffff, offset: 0, user_data: 0x01 });
    let step = flush_on_completion(stage, 0x7fff_ffff);
    assert_eq!(
        step,
        FlushStep::Submit {
            request: IoRequest::Write { len: 0x7fff_ffff, offset: 0x7fff_ffff, user_data: 0x01 },
            next: writing(total, 0x7fff_ffff),
        }
    );
    assert_eq!(
        flush_on_completion(writing(total, 0x7fff_ffff), 0x7fff_fff0),
        FlushStep::Fail {
            failure: IoFailure::Incomplete { done: 0xffff_ffef, expected: total },
        }
    );
    let step = flush_on_completion(writing(total, 0xffff_fffe), 7);
    assert_eq!(
        step,
        FlushStep::Submit {
            request: IoRequest::Fsync { user_data: 0x02 },
            next: FlushStage::Syncing { written: total },
        }
    );
}

#[test]
fn read_requests_whole_file() {
    let (t, req) = read_start(65_992);
    assert_eq!(t, Transfer { direction: Direction::Read, total: 65_992, done: 0 });
    assert_eq!(req, IoRequest::Read { len: 65_992, offset: 0, user_data: 0x10 });
}

#[test]
fn read_completes_only_when_every_byte_was_read() {
    let (t, _) = read_start(100);
    assert_eq!(transfer_on_completion(t, 100), TransferStep::Complete { total: 100 });
    assert_eq!(
        transfer_on_completion(t, 30),
        TransferStep::Fail { failure: IoFailure::Incomplete { done: 30, expected: 100 } }
    );
}

#[test]
fn read_fails_at_early_end_of_file() {
    let (t, _) = read_start(100);
    assert_eq!(
        transfer_on_completion(t, 0),
        TransferStep::Fail { failure: IoFailure::Incomplete { done: 0, expected: 100 } }
    );
    assert_eq!(
        transfer_on_completion(t, -9),
        TransferStep::Fail { failure: IoFailure::Os { errno: 9 } }
    );
}
