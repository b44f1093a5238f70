use coop_exec::protocol::Progress;
use coop_exec::protocol::ResumeHandle;
use coop_exec::recursion::chained_compute;
use coop_exec::recursion::drive;
use coop_exec::recursion::poll_rec;
use coop_exec::recursion::recursive_compute;
use coop_exec::recursion::RecUnit;

#[test]
fn recursive_compute_depth_zero_is_base_case() {
    let (value, branches) = recursive_compute(5, 0);
    assert_eq!(value, 5);
    assert_eq!(branches, 0);
}

#[test]
fn recursive_compute_depth_two_branches_three_times() {
    // Depth two: the root spawns two children, each spawning two
    // grandchildren at depth zero that terminate without further
    // recursion; the root and its two children are the 2^2 - 1 = 3
    // branch completions.
    let (value, branches) = recursive_compute(3, 2);
    assert_eq!(value, 12);
    assert_eq!(branches, 3);
}

#[test]
fn recursive_compute_deeper_trees() {
    let (value, branches) = recursive_compute(1, 3);
    assert_eq!(value, 8);
    assert_eq!(branches, 7);
    let (value, branches) = recursive_compute(0, 4);
    assert_eq!(value, 0);
    assert_eq!(branches, 15);
}

#[test]
fn chaining_feeds_the_first_result_into_the_second_unit() {
    assert_eq!(chained_compute(3, 1, 2), 24);
    assert_eq!(chained_compute(5, 0, 0), 5);
    assert_eq!(chained_compute(1, 2, 3), 32);
}

#[test]
fn nested_unit_suspends_once_then_completes() {
    let handle = ResumeHandle::new();
    let unit = RecUnit::new(2, 1);
    let (unit, first) = poll_rec(unit, &handle);
    assert_eq!(first, Progress::NotDone);
    assert!(!unit.complete);
    let (unit, second) = poll_rec(unit, &handle);
    assert_eq!(second, Progress::Done);
    assert!(unit.complete);
    assert_eq!(unit.value, 4);
    assert_eq!(unit.branches, 1);
}

#[test]
fn drive_runs_a_fresh_unit_to_completion() {
    let handle = ResumeHandle::new();
    let unit = drive(RecUnit::new(7, 2), &handle);
    assert!(unit.complete);
    assert_eq!(unit.value, 28);
    assert_eq!(unit.branches, 3);
}
