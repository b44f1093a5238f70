use coop_exec::erased::TaskUnit;
use coop_exec::executor::Executor;
use coop_exec::schedule::Event;
use coop_exec::staged::StagedJob;
use coop_exec::yielding::YieldPoint;
use coop_exec::yielding::YieldingJob;

#[test]
fn empty_pool_returns_immediately() {
    let mut ex: Executor<YieldingJob> = Executor::new();
    ex.run();
    assert_eq!(ex.pending(), 0);
    assert_eq!(ex.spawned(), 0);
    assert!(ex.events().is_empty());
}

#[test]
fn lifo_second_task_completes_first() {
    let mut ex: Executor<YieldingJob> = Executor::new();
    ex.spawn(YieldingJob::new(0));
    ex.spawn(YieldingJob::new(0));
    ex.run();
    assert_eq!(ex.pending(), 0);
    let expected = vec![Event { id: 1, done: true }, Event { id: 0, done: true }];
    assert_eq!(*ex.events(), expected);
}

#[test]
fn three_tasks_drain_and_complete_once() {
    // One task that yields once, one that yields zero times, one that
    // yields twice: the pool drains completely and each task completes
    // exactly once.
    let mut ex: Executor<YieldingJob> = Executor::new();
    ex.spawn(YieldingJob::new(1));
    ex.spawn(YieldingJob::new(0));
    ex.spawn(YieldingJob::new(2));
    ex.run();
    assert_eq!(ex.pending(), 0);
    let expected = vec![
        Event { id: 2, done: false },
        Event { id: 2, done: false },
        Event { id: 2, done: true },
        Event { id: 1, done: true },
        Event { id: 0, done: false },
        Event { id: 0, done: true },
    ];
    assert_eq!(*ex.events(), expected);
    for id in 0..3usize {
        let completions = ex.events().iter().filter(|e| e.id == id && e.done).count();
        assert_eq!(completions, 1);
    }
}

#[test]
fn task_yielding_n_times_is_polled_n_plus_one_times() {
    let mut ex: Executor<YieldingJob> = Executor::new();
    ex.spawn(YieldingJob::new(3));
    ex.run();
    let polls = ex.events().iter().filter(|e| e.id == 0).count();
    assert_eq!(polls, 4);
    assert_eq!(ex.events().len(), 4);
    assert_eq!(*ex.events().last().unwrap(), Event { id: 0, done: true });
}

#[test]
fn heterogeneous_pool_runs_lifo() {
    let mut ex: Executor<TaskUnit> = Executor::new();
    ex.spawn(TaskUnit::Pause(YieldPoint::new()));
    ex.spawn(TaskUnit::Counted(YieldingJob::new(1)));
    ex.spawn(TaskUnit::Staged(StagedJob::new()));
    ex.run();
    assert_eq!(ex.pending(), 0);
    let expected = vec![
        Event { id: 2, done: false },
        Event { id: 2, done: false },
        Event { id: 2, done: false },
        Event { id: 2, done: true },
        Event { id: 1, done: false },
        Event { id: 1, done: true },
        Event { id: 0, done: false },
        Event { id: 0, done: true },
    ];
    assert_eq!(*ex.events(), expected);
}

#[test]
fn identifiers_continue_across_runs() {
    let mut ex: Executor<YieldingJob> = Executor::new();
    ex.spawn(YieldingJob::new(0));
    ex.run();
    ex.spawn(YieldingJob::new(1));
    ex.run();
    assert_eq!(ex.spawned(), 2);
    let expected = vec![
        Event { id: 0, done: true },
        Event { id: 1, done: false },
        Event { id: 1, done: true },
    ];
    assert_eq!(*ex.events(), expected);
}
