use coop_exec::protocol::Progress;
use coop_exec::protocol::ResumeHandle;
use coop_exec::protocol::Suspendable;
use coop_exec::staged::finish_testing;
use coop_exec::staged::level_0_await_notify;
use coop_exec::staged::level_1_await_notify;
use coop_exec::staged::level_2_await_notify;
use coop_exec::staged::Stage;
use coop_exec::staged::StagedJob;
use coop_exec::yielding::YieldPoint;
use coop_exec::yielding::YieldingJob;

#[test]
fn yield_point_not_done_once_then_done_forever() {
    let handle = ResumeHandle::new();
    // Signalling through the handle is deliberately inert and changes
    // nothing about the polling pattern.
    handle.request_wake();
    let mut point = YieldPoint::new();
    assert_eq!(point.poll_step(&handle), Progress::NotDone);
    assert_eq!(point.poll_step(&handle), Progress::Done);
    assert_eq!(point.poll_step(&handle), Progress::Done);
    assert_eq!(point.poll_step(&handle), Progress::Done);
}

#[test]
fn yielding_job_suspends_then_completes() {
    let handle = ResumeHandle::new();
    let mut job = YieldingJob::new(2);
    assert_eq!(job.poll(&handle), Progress::NotDone);
    assert_eq!(job.poll(&handle), Progress::NotDone);
    assert_eq!(job.poll(&handle), Progress::Done);
    assert!(job.finished);
}

#[test]
fn notify_functions_append_their_marker() {
    let mut log = Vec::new();
    level_0_await_notify(&mut log);
    level_2_await_notify(&mut log);
    level_1_await_notify(&mut log);
    finish_testing(&mut log);
    let expected = vec![
        Stage::Level0Await,
        Stage::Level2Await,
        Stage::Level1Await,
        Stage::FinishTesting,
    ];
    assert_eq!(log, expected);
}

#[test]
fn staged_job_emits_each_stage_exactly_once() {
    let handle = ResumeHandle::new();
    let mut job = StagedJob::new();
    assert_eq!(job.poll_stage(&handle), Progress::NotDone);
    assert_eq!(job.poll_stage(&handle), Progress::NotDone);
    assert_eq!(job.poll_stage(&handle), Progress::NotDone);
    assert_eq!(job.poll_stage(&handle), Progress::Done);
    let expected = vec![
        Stage::Level0Await,
        Stage::Level2Await,
        Stage::Level1Await,
        Stage::FinishTesting,
    ];
    assert_eq!(job.log, expected);
    for stage in expected {
        let seen = job.log.iter().filter(|s| **s == stage).count();
        assert_eq!(seen, 1);
    }
}

#[test]
fn staged_job_through_protocol_poll() {
    let handle = ResumeHandle::new();
    let mut job = StagedJob::new();
    assert_eq!(job.poll(&handle), Progress::NotDone);
    assert_eq!(job.poll(&handle), Progress::NotDone);
    assert_eq!(job.poll(&handle), Progress::NotDone);
    assert_eq!(job.poll(&handle), Progress::Done);
    assert_eq!(job.phase, 4);
    assert_eq!(job.log.len(), 4);
}
