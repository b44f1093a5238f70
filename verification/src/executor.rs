//! The task pool and the executor's run loop.

use vstd::prelude::*;

use crate::protocol::Progress;
use crate::protocol::ResumeHandle;
use crate::protocol::Suspendable;
use crate::schedule::run_log;
use crate::schedule::sum_polls;
use crate::schedule::wf_pool;
use crate::schedule::Event;

verus! {

/// One independently scheduled job: a suspendable unit registered with the
/// executor, tagged with the identifier it was given when spawned. The
/// pool's buffer gives the unit a stable heap home, allocated once and never
/// relocated behind the unit's back, for as long as the task lives.
pub struct Task<U> {
    pub id: usize,
    pub unit: U,
}

/// A single-threaded, non-preemptive executor. It exclusively owns its task
/// pool — an ordered collection of not-yet-finished tasks — and a trace of
/// every scheduling event it has performed. The pool behaves as a stack:
/// the most recently spawned, or most recently re-suspended, task is polled
/// next (LIFO, deliberately not FIFO).
pub struct Executor<U> {
    pub pool: Vec<Task<U>>,
    pub next_id: usize,
    pub trace: Vec<Event>,
}

impl<U: Suspendable> Executor<U> {
    /// The pool as the scheduling model sees it: for each task, its
    /// identifier and how many polls it still needs.
    pub open spec fn pool_model(self) -> Seq<(usize, nat)> {
        self.pool@.map(|i: int, t: Task<U>| (t.id, t.unit.polls_left()))
    }

    /// Pool invariant: no finished task is ever held (each entry still
    /// needs at least one poll), every identifier was issued by this
    /// executor, and identifiers are distinct.
    pub open spec fn wf(self) -> bool {
        &&& wf_pool(self.pool_model())
        &&& forall|i: int|
            0 <= i < self.pool@.len() ==> (#[trigger] self.pool@[i]).id < self.next_id
        &&& forall|i: int, j: int|
            #![trigger self.pool@[i].id, self.pool@[j].id]
            0 <= i < j < self.pool@.len() ==> self.pool@[i].id != self.pool@[j].id
    }

    /// A fresh executor: empty pool, empty trace, no identifiers issued.
    pub fn new() -> (ex: Executor<U>)
        ensures
            ex.wf(),
            ex.pool@.len() == 0,
            ex.next_id == 0,
            ex.trace@.len() == 0,
    {
        Executor { pool: Vec::new(), next_id: 0, trace: Vec::new() }
    }

    /// Number of not-yet-finished tasks currently in the pool.
    pub fn pending(&self) -> (n: usize)
        ensures
            n == self.pool@.len(),
    {
        self.pool.len()
    }

    /// How many tasks were ever spawned; also the next identifier issued.
    pub fn spawned(&self) -> (n: usize)
        ensures
            n == self.next_id,
    {
        self.next_id
    }

    /// The scheduling events recorded so far, in order.
    pub fn events(&self) -> (t: &Vec<Event>)
        ensures
            t@ == self.trace@,
    {
        &self.trace
    }

    /// Move a freshly constructed suspendable unit into the pool as a new
    /// task, fire-and-forget. The unit must not already be finished: the
    /// pool never holds a finished task. The new task goes on top of the
    /// stack, so with LIFO scheduling it will be polled before every task
    /// spawned earlier.
    pub fn spawn(&mut self, unit: U)
        requires
            old(self).wf(),
            unit.polls_left() >= 1,
            old(self).next_id < usize::MAX,
        ensures
            final(self).wf(),
            final(self).pool@ == old(self).pool@.push(
                (Task { id: old(self).next_id, unit }),
            ),
            final(self).pool_model() == old(self).pool_model().push(
                (old(self).next_id, unit.polls_left()),
            ),
            final(self).next_id == old(self).next_id + 1,
            final(self).trace@ == old(self).trace@,
    {
        let id = self.next_id;
        self.next_id = self.next_id + 1;
        let ghost polls = unit.polls_left();
        self.pool.push(Task { id, unit });
        proof {
            assert(self.pool_model() =~= old(self).pool_model().push((id, polls)));
            assert forall|i: int, j: int|
                #![trigger self.pool@[i].id, self.pool@[j].id]
                0 <= i < j < self.pool@.len() implies self.pool@[i].id != self.pool@[j].id by {
                if j < old(self).pool@.len() {
                    assert(self.pool@[i] == old(self).pool@[i]);
                    assert(self.pool@[j] == old(self).pool@[j]);
                } else {
                    assert(self.pool@[i] == old(self).pool@[i]);
                    assert(self.pool@[j].id == id);
                }
            }
        }
    }

    /// Drive the scheduling loop to completion: repeatedly take the top
    /// task off the pool, poll it once with the inert resumption handle,
    /// discard it if it completed and push it back on top otherwise. The
    /// loop returns when the pool is empty, and it always does return: every
    /// unit honoring the protocol completes after finitely many polls. The
    /// events recorded by the run are exactly the scheduling model's
    /// `run_log` of the pool at the moment the run started.
    pub fn run(&mut self)
        requires
            old(self).wf(),
        ensures
            final(self).wf(),
            final(self).pool@.len() == 0,
            final(self).next_id == old(self).next_id,
            final(self).trace@ == old(self).trace@ + run_log(old(self).pool_model()),
            final(self).trace@.len() == old(self).trace@.len() + sum_polls(
                old(self).pool_model(),
            ),
    {
        proof {
            crate::schedule::lemma_run_log_len(old(self).pool_model());
        }
        let handle = ResumeHandle::new();
        while self.pool.len() > 0
            invariant
                self.wf(),
                self.next_id == old(self).next_id,
                old(self).trace@ + run_log(old(self).pool_model()) == self.trace@ + run_log(
                    self.pool_model(),
                ),
            decreases sum_polls(self.pool_model()),
        {
            let ghost model_before = self.pool_model();
            let ghost trace_before = self.trace@;
            let task_opt = self.pool.pop();
            match task_opt {
                Some(mut task) => {
                    proof {
                        assert(model_before[model_before.len() - 1]
                            == (task.id, task.unit.polls_left()));
                        assert(self.pool_model() =~= model_before.drop_last());
                    }
                    let ghost polls_before = task.unit.polls_left();
                    let outcome = task.unit.poll(&handle);
                    match outcome {
                        Progress::Done => {
                            self.trace.push(Event { id: task.id, done: true });
                            proof {
                                lemma_step(
                                    model_before,
                                    self.pool_model(),
                                    trace_before,
                                    self.trace@,
                                    Event { id: task.id, done: true },
                                    old(self).trace@,
                                    old(self).pool_model(),
                                );
                                assert(sum_polls(model_before) == sum_polls(
                                    model_before.drop_last(),
                                ) + polls_before);
                                assert(sum_polls(self.pool_model()) < sum_polls(model_before));
                            }
                        },
                        Progress::NotDone => {
                            self.trace.push(Event { id: task.id, done: false });
                            let ghost pool_mid = self.pool@;
                            self.pool.push(task);
                            proof {
                                assert(self.pool_model() =~= model_before.drop_last().push(
                                    (task.id, (polls_before - 1) as nat),
                                ));
                                assert forall|i: int, j: int|
                                    #![trigger self.pool@[i].id, self.pool@[j].id]
                                    0 <= i < j < self.pool@.len() implies self.pool@[i].id
                                    != self.pool@[j].id by {
                                    if j < pool_mid.len() {
                                        assert(self.pool@[i] == pool_mid[i]);
                                        assert(self.pool@[j] == pool_mid[j]);
                                    } else {
                                        assert(self.pool@[i] == pool_mid[i]);
                                        assert(self.pool@[j].id == task.id);
                                    }
                                }
                                lemma_step(
                                    model_before,
                                    self.pool_model(),
                                    trace_before,
                                    self.trace@,
                                    Event { id: task.id, done: false },
                                    old(self).trace@,
                                    old(self).pool_model(),
                                );
                                assert(sum_polls(model_before) == sum_polls(
                                    model_before.drop_last(),
                                ) + polls_before);
                                crate::schedule::lemma_sum_push(
                                    model_before.drop_last(),
                                    (task.id, (polls_before - 1) as nat),
                                );
                                assert(sum_polls(self.pool_model()) < sum_polls(model_before));
                            }
                        },
                    }
                },
                None => {
                    proof {
                        assert(false);
                    }
                },
            }
        }
        proof {
            assert(self.pool_model() =~= Seq::<(usize, nat)>::empty());
            assert(self.trace@ + run_log(self.pool_model()) =~= self.trace@);
        }
    }
}

/// One step of the run loop matches one unfolding of `run_log`: the event
/// just recorded is the head of the remaining scheduled log.
proof fn lemma_step(
    model_before: Seq<(usize, nat)>,
    model_after: Seq<(usize, nat)>,
    trace_before: Seq<Event>,
    trace_after: Seq<Event>,
    event: Event,
    trace_start: Seq<Event>,
    model_start: Seq<(usize, nat)>,
)
    requires
        run_log(model_before) == seq![event] + run_log(model_after),
        trace_after == trace_before.push(event),
        trace_start + run_log(model_start) == trace_before + run_log(model_before),
    ensures
        trace_start + run_log(model_start) == trace_after + run_log(model_after),
{
    assert(trace_before + (seq![event] + run_log(model_after)) =~= trace_before.push(event)
        + run_log(model_after));
}

} // verus!
