//! The specification-level model of the LIFO scheduling policy, and the laws
//! that hold of every run of the executor.
//!
//! A pool is modelled as a stack of entries `(id, polls)`: the task's spawn
//! identifier and how many polls it still needs before it completes. The run
//! loop repeatedly takes the top entry, polls it once (recording an event),
//! discards it if it completed and pushes it back on top otherwise.
//! `run_log` computes the exact sequence of events such a run produces.

use vstd::prelude::*;

verus! {

/// One recorded scheduling event: task `id` was polled once, and `done`
/// says whether that poll completed the task.
#[derive(Clone, Copy, PartialEq, Eq, Structural, Debug)]
pub struct Event {
    pub id: usize,
    pub done: bool,
}

/// Total number of polls the pool still needs before it drains.
pub open spec fn sum_polls(pool: Seq<(usize, nat)>) -> nat
    decreases pool.len(),
{
    if pool.len() == 0 {
        0
    } else {
        sum_polls(pool.drop_last()) + pool.last().1
    }
}

/// A well-formed pool never holds a finished task: every entry still needs
/// at least one poll.
pub open spec fn wf_pool(pool: Seq<(usize, nat)>) -> bool {
    forall|i: int| 0 <= i < pool.len() ==> (#[trigger] pool[i]).1 >= 1
}

/// The exact event sequence a LIFO run over `pool` produces: poll the top
/// entry; if that was its last needed poll it completes and leaves the pool,
/// otherwise it is pushed back on top with one poll consumed.
pub open spec fn run_log(pool: Seq<(usize, nat)>) -> Seq<Event>
    decreases sum_polls(pool), pool.len(),
    via run_log_decreases
{
    if pool.len() == 0 {
        Seq::empty()
    } else {
        let top = pool.last();
        if top.1 <= 1 {
            seq![(Event { id: top.0, done: true })] + run_log(pool.drop_last())
        } else {
            seq![(Event { id: top.0, done: false })] + run_log(
                pool.drop_last().push((top.0, (top.1 - 1) as nat)),
            )
        }
    }
}

#[via_fn]
proof fn run_log_decreases(pool: Seq<(usize, nat)>) {
    if pool.len() > 0 {
        let top = pool.last();
        if top.1 > 1 {
            lemma_sum_push(pool.drop_last(), (top.0, (top.1 - 1) as nat));
        }
    }
}

pub proof fn lemma_sum_push(pool: Seq<(usize, nat)>, entry: (usize, nat))
    ensures
        sum_polls(pool.push(entry)) == sum_polls(pool) + entry.1,
{
    assert(pool.push(entry).drop_last() =~= pool);
}

/// How many polls the entries with identifier `id` still need, summed.
pub open spec fn pool_polls(pool: Seq<(usize, nat)>, id: usize) -> nat
    decreases pool.len(),
{
    if pool.len() == 0 {
        0
    } else {
        pool_polls(pool.drop_last(), id) + (if pool.last().0 == id {
            pool.last().1
        } else {
            0nat
        })
    }
}

/// How many entries of the pool carry identifier `id`.
pub open spec fn pool_tasks(pool: Seq<(usize, nat)>, id: usize) -> nat
    decreases pool.len(),
{
    if pool.len() == 0 {
        0
    } else {
        pool_tasks(pool.drop_last(), id) + (if pool.last().0 == id {
            1nat
        } else {
            0nat
        })
    }
}

/// How many events of the log touch task `id`: one per poll of that task.
pub open spec fn polls_of(log: Seq<Event>, id: usize) -> nat
    decreases log.len(),
{
    if log.len() == 0 {
        0
    } else {
        (if log[0].id == id {
            1nat
        } else {
            0nat
        }) + polls_of(log.skip(1), id)
    }
}

/// How many events of the log record a completion of task `id`.
pub open spec fn completions_of(log: Seq<Event>, id: usize) -> nat
    decreases log.len(),
{
    if log.len() == 0 {
        0
    } else {
        (if log[0].id == id && log[0].done {
            1nat
        } else {
            0nat
        }) + completions_of(log.skip(1), id)
    }
}

proof fn lemma_polls_of_cons(e: Event, rest: Seq<Event>, id: usize)
    ensures
        polls_of(seq![e] + rest, id) == (if e.id == id {
            1nat
        } else {
            0nat
        }) + polls_of(rest, id),
{
    let s = seq![e] + rest;
    assert(s[0] == e);
    assert(s.skip(1) =~= rest);
}

proof fn lemma_completions_of_cons(e: Event, rest: Seq<Event>, id: usize)
    ensures
        completions_of(seq![e] + rest, id) == (if e.id == id && e.done {
            1nat
        } else {
            0nat
        }) + completions_of(rest, id),
{
    let s = seq![e] + rest;
    assert(s[0] == e);
    assert(s.skip(1) =~= rest);
}

proof fn lemma_pool_polls_push(pool: Seq<(usize, nat)>, entry: (usize, nat), id: usize)
    ensures
        pool_polls(pool.push(entry), id) == pool_polls(pool, id) + (if entry.0 == id {
            entry.1
        } else {
            0nat
        }),
{
    assert(pool.push(entry).drop_last() =~= pool);
}

proof fn lemma_pool_tasks_push(pool: Seq<(usize, nat)>, entry: (usize, nat), id: usize)
    ensures
        pool_tasks(pool.push(entry), id) == pool_tasks(pool, id) + (if entry.0 == id {
            1nat
        } else {
            0nat
        }),
{
    assert(pool.push(entry).drop_last() =~= pool);
}

proof fn lemma_wf_drop_last(pool: Seq<(usize, nat)>)
    requires
        wf_pool(pool),
        pool.len() > 0,
    ensures
        wf_pool(pool.drop_last()),
{
    let shorter = pool.drop_last();
    assert forall|i: int| 0 <= i < shorter.len() implies (#[trigger] shorter[i]).1 >= 1 by {
        assert(shorter[i] == pool[i]);
    }
}

/// A run polls the pool exactly as often as its entries together demand:
/// the run loop returns after finitely many polls, namely `sum_polls(pool)`.
pub proof fn lemma_run_log_len(pool: Seq<(usize, nat)>)
    requires
        wf_pool(pool),
    ensures
        run_log(pool).len() == sum_polls(pool),
    decreases sum_polls(pool), pool.len(),
{
    if pool.len() > 0 {
        let top = pool.last();
        lemma_wf_drop_last(pool);
        if top.1 <= 1 {
            lemma_run_log_len(pool.drop_last());
        } else {
            let entry = (top.0, (top.1 - 1) as nat);
            let rest = pool.drop_last().push(entry);
            lemma_sum_push(pool.drop_last(), entry);
            assert(wf_pool(rest)) by {
                assert forall|i: int| 0 <= i < rest.len() implies (#[trigger] rest[i]).1 >= 1 by {
                    if i < pool.drop_last().len() {
                        assert(rest[i] == pool.drop_last()[i]);
                    } else {
                        assert(rest[i] == entry);
                    }
                }
            }
            lemma_run_log_len(rest);
        }
    }
}

/// Interleaving law: a task that still needs `n` polls (that is, one that
/// will yield `n - 1` more times) is polled exactly `n` times over the whole
/// run, however its polls interleave with those of the other pool members.
pub proof fn lemma_poll_count(pool: Seq<(usize, nat)>, id: usize)
    requires
        wf_pool(pool),
    ensures
        polls_of(run_log(pool), id) == pool_polls(pool, id),
    decreases sum_polls(pool), pool.len(),
{
    if pool.len() > 0 {
        let top = pool.last();
        lemma_wf_drop_last(pool);
        if top.1 <= 1 {
            lemma_poll_count(pool.drop_last(), id);
            lemma_polls_of_cons(
                Event { id: top.0, done: true },
                run_log(pool.drop_last()),
                id,
            );
        } else {
            let entry = (top.0, (top.1 - 1) as nat);
            let rest = pool.drop_last().push(entry);
            lemma_sum_push(pool.drop_last(), entry);
            assert(wf_pool(rest)) by {
                assert forall|i: int| 0 <= i < rest.len() implies (#[trigger] rest[i]).1 >= 1 by {
                    if i < pool.drop_last().len() {
                        assert(rest[i] == pool.drop_last()[i]);
                    } else {
                        assert(rest[i] == entry);
                    }
                }
            }
            lemma_poll_count(rest, id);
            lemma_polls_of_cons(Event { id: top.0, done: false }, run_log(rest), id);
            lemma_pool_polls_push(pool.drop_last(), entry, id);
        }
    }
}

/// Completion law: every task in the pool completes exactly once over the
/// run; a task's completion event is never repeated and never skipped.
pub proof fn lemma_completion_count(pool: Seq<(usize, nat)>, id: usize)
    requires
        wf_pool(pool),
    ensures
        completions_of(run_log(pool), id) == pool_tasks(pool, id),
    decreases sum_polls(pool), pool.len(),
{
    if pool.len() > 0 {
        let top = pool.last();
        lemma_wf_drop_last(pool);
        if top.1 <= 1 {
            lemma_completion_count(pool.drop_last(), id);
            lemma_completions_of_cons(
                Event { id: top.0, done: true },
                run_log(pool.drop_last()),
                id,
            );
        } else {
            let entry = (top.0, (top.1 - 1) as nat);
            let rest = pool.drop_last().push(entry);
            lemma_sum_push(pool.drop_last(), entry);
            assert(wf_pool(rest)) by {
                assert forall|i: int| 0 <= i < rest.len() implies (#[trigger] rest[i]).1 >= 1 by {
                    if i < pool.drop_last().len() {
                        assert(rest[i] == pool.drop_last()[i]);
                    } else {
                        assert(rest[i] == entry);
                    }
                }
            }
            lemma_completion_count(rest, id);
            lemma_completions_of_cons(Event { id: top.0, done: false }, run_log(rest), id);
            lemma_pool_tasks_push(pool.drop_last(), entry, id);
        }
    }
}

/// LIFO law: the task on top of the pool is polled first, and if it needs
/// only one poll (it never suspends) it completes before any task below it
/// is polled at all.
pub proof fn lemma_lifo_completes_first(below: Seq<(usize, nat)>, id: usize)
    ensures
        run_log(below.push((id, 1nat))) == seq![(Event { id, done: true })] + run_log(below),
{
    assert(below.push((id, 1nat)).drop_last() =~= below);
}

/// LIFO law, two-task instance: with task `first_id` spawned first and task
/// `second_id` spawned second, neither suspending, the run consists of the
/// completion of `second_id` followed by the completion of `first_id`: the
/// later-spawned task finishes before the earlier one is ever polled.
pub proof fn lemma_lifo_pair(first_id: usize, second_id: usize)
    ensures
        run_log(seq![(first_id, 1nat), (second_id, 1nat)]) == seq![
            (Event { id: second_id, done: true }),
            (Event { id: first_id, done: true }),
        ],
{
    let one = seq![(first_id, 1nat)];
    let pool = seq![(first_id, 1nat), (second_id, 1nat)];
    assert(one.push((second_id, 1nat)) =~= pool);
    lemma_lifo_completes_first(one, second_id);
    assert(Seq::<(usize, nat)>::empty().push((first_id, 1nat)) =~= one);
    lemma_lifo_completes_first(Seq::<(usize, nat)>::empty(), first_id);
    assert(run_log(pool) =~= seq![
        (Event { id: second_id, done: true }),
        (Event { id: first_id, done: true }),
    ]);
}

} // verus!
