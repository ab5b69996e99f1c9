use stream_bench::harness::{
    contribution, summarize, Harness, HarnessAction, StreamReport, Summary,
};
use stream_bench::session::{BenchmarkRun, SessionError};

fn run(total_bytes: u128, elapsed_nanos: u128) -> BenchmarkRun {
    BenchmarkRun { total_bytes, frames: 1, elapsed_nanos }
}

#[test]
fn only_a_completed_stream_contributes() {
    assert_eq!(contribution(&StreamReport::Completed(run(42, 1))), 42);
    assert_eq!(contribution(&StreamReport::ConnectFailed), 0);
    assert_eq!(contribution(&StreamReport::Running), 0);
    assert_eq!(contribution(&StreamReport::Aborted(SessionError::TruncatedPayload)), 0);
}

#[test]
fn summary_adds_bytes_and_takes_the_longest_time() {
    let reports = [
        StreamReport::Completed(run(100, 30)),
        StreamReport::ConnectFailed,
        StreamReport::Completed(run(50, 70)),
        StreamReport::Aborted(SessionError::Transport(104)),
        StreamReport::Completed(run(1, 10)),
    ];
    assert_eq!(
        summarize(&reports),
        Summary { total_bytes: Some(151), elapsed_nanos: 70, completed: 3 }
    );
    assert_eq!(summarize(&[]), Summary { total_bytes: Some(0), elapsed_nanos: 0, completed: 0 });
}

#[test]
fn summary_says_when_the_total_does_not_fit() {
    let reports = [
        StreamReport::Completed(run(u128::MAX, 1)),
        StreamReport::Completed(run(1, 2)),
        StreamReport::Completed(run(5, 3)),
    ];
    let summary = summarize(&reports);
    assert_eq!(summary.total_bytes, None);
    assert_eq!(summary.elapsed_nanos, 3);
    assert_eq!(summary.completed, 3);
}

#[test]
fn a_failed_stream_adds_nothing_to_the_total() {
    let with_failure = [
        StreamReport::Completed(run(100, 30)),
        StreamReport::ConnectFailed,
        StreamReport::Completed(run(50, 70)),
    ];
    let others = [StreamReport::Completed(run(100, 30)), StreamReport::Completed(run(50, 70))];
    assert_eq!(summarize(&with_failure).total_bytes, summarize(&others).total_bytes);
    assert_eq!(summarize(&with_failure).total_bytes, Some(150));
}

#[test]
fn harness_tries_each_stream_once_then_joins_then_reports() {
    let mut harness = Harness::new(3);
    assert_eq!(harness.next_action(), HarnessAction::Connect(0));
    harness.on_connect(true);
    assert_eq!(harness.next_action(), HarnessAction::Connect(1));
    harness.on_connect(true);
    assert_eq!(harness.next_action(), HarnessAction::Connect(2));
    harness.on_connect(true);
    assert_eq!(harness.next_action(), HarnessAction::Join(0));
    harness.on_join(0, Ok(run(10, 5)));
    assert_eq!(harness.next_action(), HarnessAction::Join(1));
    harness.on_join(1, Ok(run(20, 6)));
    assert_eq!(harness.next_action(), HarnessAction::Join(2));
    harness.on_join(2, Ok(run(30, 4)));
    assert_eq!(harness.next_action(), HarnessAction::Report);
    assert_eq!(
        harness.summary(),
        Summary { total_bytes: Some(60), elapsed_nanos: 6, completed: 3 }
    );
}

#[test]
fn a_stream_that_fails_to_connect_does_not_stop_the_others() {
    let mut harness = Harness::new(3);
    harness.on_connect(true);
    assert_eq!(harness.next_action(), HarnessAction::Connect(1));
    harness.on_connect(false);
    assert_eq!(harness.next_action(), HarnessAction::Connect(2));
    harness.on_connect(true);
    assert_eq!(harness.next_action(), HarnessAction::Join(0));
    harness.on_join(0, Ok(run(10, 5)));
    assert_eq!(harness.next_action(), HarnessAction::Join(2));
    harness.on_join(2, Ok(run(30, 4)));
    assert_eq!(harness.next_action(), HarnessAction::Report);
    assert_eq!(harness.report(1), Some(StreamReport::ConnectFailed));
    assert_eq!(harness.report(0), Some(StreamReport::Completed(run(10, 5))));
    assert_eq!(harness.report(2), Some(StreamReport::Completed(run(30, 4))));
    assert_eq!(harness.report(3), None);
    assert_eq!(
        harness.summary(),
        Summary { total_bytes: Some(40), elapsed_nanos: 5, completed: 2 }
    );
}

#[test]
fn an_aborted_session_does_not_stop_the_others() {
    let mut harness = Harness::new(2);
    harness.on_connect(true);
    harness.on_connect(true);
    harness.on_join(0, Err(SessionError::Transport(104)));
    assert_eq!(harness.next_action(), HarnessAction::Join(1));
    harness.on_join(1, Ok(run(8, 2)));
    assert_eq!(harness.next_action(), HarnessAction::Report);
    assert_eq!(harness.report(0), Some(StreamReport::Aborted(SessionError::Transport(104))));
    assert_eq!(harness.summary().total_bytes, Some(8));
    assert_eq!(harness.summary().completed, 1);
}

#[test]
fn harness_with_every_stream_failed_still_reports() {
    let mut harness = Harness::new(2);
    harness.on_connect(false);
    harness.on_connect(false);
    assert_eq!(harness.next_action(), HarnessAction::Report);
    assert_eq!(harness.summary(), Summary { total_bytes: Some(0), elapsed_nanos: 0, completed: 0 });
}

#[test]
fn harness_without_streams_reports_at_once() {
    let harness = Harness::new(0);
    assert_eq!(harness.next_action(), HarnessAction::Report);
    assert_eq!(harness.report(0), None);
}

#[test]
fn one_stream_means_one_connection() {
    let mut harness = Harness::new(1);
    let mut connects = 0;
    loop {
        match harness.next_action() {
            HarnessAction::Connect(_) => {
                connects += 1;
                harness.on_connect(true);
            }
            HarnessAction::Join(i) => harness.on_join(i, Ok(run(102_400, 1_000))),
            HarnessAction::Report => break,
        }
    }
    assert_eq!(connects, 1);
    assert_eq!(harness.summary().total_bytes, Some(102_400));
}
