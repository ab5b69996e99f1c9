use stream_bench::driver::{
    begin, event_of, nonblocking_read_exact, nonblocking_write_all, read_step, write_step,
    AttemptError, IoEvent, IoFailure, Progress, Verdict,
};

fn without_transient(events: &[IoEvent]) -> Vec<IoEvent> {
    events.iter().copied().filter(|e| *e != IoEvent::Transient).collect()
}

#[test]
fn empty_buffer_is_complete_without_an_attempt() {
    assert_eq!(begin(0), (Progress { total: 0, done: 0 }, Verdict::Complete));
    assert_eq!(nonblocking_write_all(0, &[]), (Progress { total: 0, done: 0 }, Verdict::Complete));
    assert_eq!(
        nonblocking_read_exact(0, &[IoEvent::Fatal(5)]),
        (Progress { total: 0, done: 0 }, Verdict::Complete)
    );
}

#[test]
fn begin_asks_for_an_attempt() {
    assert_eq!(begin(10), (Progress { total: 10, done: 0 }, Verdict::Again));
}

#[test]
fn write_step_advances_by_what_was_moved() {
    let p = Progress { total: 10, done: 2 };
    assert_eq!(write_step(p, IoEvent::Moved(3)), (Progress { total: 10, done: 5 }, Verdict::Again));
    assert_eq!(
        write_step(p, IoEvent::Moved(8)),
        (Progress { total: 10, done: 10 }, Verdict::Complete)
    );
    assert_eq!(p.remaining(), 8);
}

#[test]
fn write_step_retries_on_transient() {
    let p = Progress { total: 10, done: 2 };
    assert_eq!(write_step(p, IoEvent::Transient), (p, Verdict::Again));
}

#[test]
fn write_of_zero_bytes_is_write_zero() {
    let p = Progress { total: 10, done: 2 };
    assert_eq!(write_step(p, IoEvent::Moved(0)), (p, Verdict::Failed(IoFailure::WriteZero)));
}

#[test]
fn fatal_error_stops_at_once() {
    let p = Progress { total: 10, done: 2 };
    assert_eq!(write_step(p, IoEvent::Fatal(104)), (p, Verdict::Failed(IoFailure::Fatal(104))));
    assert_eq!(read_step(p, IoEvent::Fatal(104)), (p, Verdict::Failed(IoFailure::Fatal(104))));
    assert_eq!(
        nonblocking_write_all(10, &[IoEvent::Moved(2), IoEvent::Fatal(32), IoEvent::Moved(8)]),
        (Progress { total: 10, done: 2 }, Verdict::Failed(IoFailure::Fatal(32)))
    );
}

#[test]
fn read_of_zero_bytes_is_unexpected_eof_with_the_filled_count() {
    let p = Progress { total: 8, done: 0 };
    assert_eq!(read_step(p, IoEvent::Moved(0)), (p, Verdict::Failed(IoFailure::UnexpectedEof)));
    assert_eq!(
        nonblocking_read_exact(8, &[IoEvent::Moved(3), IoEvent::Transient, IoEvent::Moved(0)]),
        (Progress { total: 8, done: 3 }, Verdict::Failed(IoFailure::UnexpectedEof))
    );
}

#[test]
fn read_step_fills_the_buffer() {
    let p = Progress { total: 8, done: 0 };
    assert_eq!(read_step(p, IoEvent::Moved(8)), (Progress { total: 8, done: 8 }, Verdict::Complete));
    assert_eq!(read_step(p, IoEvent::Moved(5)), (Progress { total: 8, done: 5 }, Verdict::Again));
    assert_eq!(read_step(p, IoEvent::Transient), (p, Verdict::Again));
}

#[test]
fn a_count_above_the_rest_is_taken_for_the_rest() {
    let p = Progress { total: 8, done: 6 };
    assert_eq!(
        write_step(p, IoEvent::Moved(usize::MAX)),
        (Progress { total: 8, done: 8 }, Verdict::Complete)
    );
    assert_eq!(read_step(p, IoEvent::Moved(3)), (Progress { total: 8, done: 8 }, Verdict::Complete));
}

#[test]
fn events_that_run_out_leave_the_transfer_open() {
    assert_eq!(
        nonblocking_write_all(10, &[IoEvent::Moved(4), IoEvent::Transient]),
        (Progress { total: 10, done: 4 }, Verdict::Again)
    );
}

#[test]
fn transient_failures_do_not_change_the_result_of_a_write() {
    let traces: Vec<Vec<IoEvent>> = vec![
        vec![IoEvent::Transient, IoEvent::Moved(4), IoEvent::Transient, IoEvent::Moved(6)],
        vec![IoEvent::Moved(1), IoEvent::Transient, IoEvent::Transient, IoEvent::Moved(0)],
        vec![IoEvent::Transient, IoEvent::Fatal(9), IoEvent::Moved(10)],
        vec![IoEvent::Transient; 5],
        vec![IoEvent::Moved(3), IoEvent::Transient, IoEvent::Moved(3), IoEvent::Transient],
    ];
    for trace in traces {
        assert_eq!(
            nonblocking_write_all(10, &trace),
            nonblocking_write_all(10, &without_transient(&trace))
        );
    }
    assert_eq!(
        nonblocking_write_all(
            10,
            &[IoEvent::Transient, IoEvent::Moved(4), IoEvent::Transient, IoEvent::Moved(6)]
        ),
        (Progress { total: 10, done: 10 }, Verdict::Complete)
    );
}

#[test]
fn transient_failures_do_not_change_the_result_of_a_read() {
    let traces: Vec<Vec<IoEvent>> = vec![
        vec![IoEvent::Transient, IoEvent::Moved(4), IoEvent::Transient, IoEvent::Moved(4)],
        vec![IoEvent::Moved(1), IoEvent::Transient, IoEvent::Transient, IoEvent::Moved(0)],
        vec![IoEvent::Transient, IoEvent::Transient, IoEvent::Moved(0)],
        vec![IoEvent::Transient, IoEvent::Fatal(9), IoEvent::Moved(8)],
    ];
    for trace in traces {
        assert_eq!(
            nonblocking_read_exact(8, &trace),
            nonblocking_read_exact(8, &without_transient(&trace))
        );
    }
    assert_eq!(
        nonblocking_read_exact(
            8,
            &[IoEvent::Transient, IoEvent::Moved(4), IoEvent::Transient, IoEvent::Moved(4)]
        ),
        (Progress { total: 8, done: 8 }, Verdict::Complete)
    );
}

#[test]
fn one_byte_at_a_time_completes() {
    let mut trace = Vec::new();
    for _ in 0..16 {
        trace.push(IoEvent::Transient);
        trace.push(IoEvent::Moved(1));
    }
    assert_eq!(
        nonblocking_write_all(16, &trace),
        (Progress { total: 16, done: 16 }, Verdict::Complete)
    );
    assert_eq!(
        nonblocking_read_exact(16, &trace),
        (Progress { total: 16, done: 16 }, Verdict::Complete)
    );
}

#[test]
fn would_block_and_interrupted_are_transient() {
    assert_eq!(event_of(Ok(0)), IoEvent::Moved(0));
    assert_eq!(event_of(Ok(17)), IoEvent::Moved(17));
    assert_eq!(event_of(Err(AttemptError::WouldBlock)), IoEvent::Transient);
    assert_eq!(event_of(Err(AttemptError::Interrupted)), IoEvent::Transient);
    assert_eq!(event_of(Err(AttemptError::Other(104))), IoEvent::Fatal(104));
}
