//! Nested, recursively constructed sub-computations: units built and owned
//! entirely inside their parent's own state, never registered with the
//! pool, each recursive level getting independent storage of its own.

use vstd::prelude::*;

use crate::protocol::Progress;
use crate::protocol::ResumeHandle;
use crate::protocol::Suspendable;
use crate::yielding::YieldPoint;

verus! {

/// Two to the power `exp`.
pub open spec fn pow2(exp: nat) -> nat
    decreases exp,
{
    if exp == 0 {
        1
    } else {
        2 * pow2((exp - 1) as nat)
    }
}

proof fn lemma_pow2_pos(exp: nat)
    ensures
        pow2(exp) >= 1,
    decreases exp,
{
    if exp > 0 {
        lemma_pow2_pos((exp - 1) as nat);
    }
}

proof fn lemma_pow2_increases(lo: nat, hi: nat)
    requires
        lo <= hi,
    ensures
        pow2(lo) <= pow2(hi),
    decreases hi,
{
    if lo < hi {
        lemma_pow2_increases(lo, (hi - 1) as nat);
        lemma_pow2_pos((hi - 1) as nat);
    }
}

proof fn lemma_pow2_adds(a: nat, b: nat)
    ensures
        pow2(a + b) == pow2(a) * pow2(b),
    decreases b,
{
    if b == 0 {
        assert(pow2(b) == 1);
        assert(a + b == a);
    } else {
        lemma_pow2_adds(a, (b - 1) as nat);
        assert(pow2(a + b) == 2 * pow2((a + b - 1) as nat));
        assert((a + b - 1) as nat == a + ((b - 1) as nat));
        assert(pow2(b) == 2 * pow2((b - 1) as nat));
        assert(2 * (pow2(a) * pow2((b - 1) as nat)) == pow2(a) * (2 * pow2((b - 1) as nat)))
            by (nonlinear_arith);
    }
}

proof fn lemma_pow2_63()
    ensures
        pow2(63) == 0x8000000000000000nat,
{
    reveal_with_fuel(pow2, 64);
}

/// A recursively constructed suspendable computation over `(seed, depth)`.
/// At depth zero it simply produces `seed`. At positive depth it suspends
/// once and, upon resumption, constructs two child units of depth one less
/// (fan-out), drives each to completion in declared order (sequential
/// fan-in), and combines their results. The finished value is
/// `seed * 2^depth`, reached after exactly `2^depth - 1` branch
/// completions. Such a unit is owned by the task body that created it and
/// is never put in the executor's pool itself.
pub struct RecUnit {
    pub seed: u64,
    pub depth: u64,
    pub point: YieldPoint,
    pub complete: bool,
    pub value: u64,
    pub branches: u64,
}

impl RecUnit {
    /// The bound that keeps the combined result and the branch counter
    /// within machine range.
    pub open spec fn wf(self) -> bool {
        self.depth <= 63 && self.seed * pow2(self.depth as nat) <= u64::MAX
    }

    /// Polls this unit still needs: two when fresh (one suspension, then
    /// the completing resumption), zero once complete.
    pub open spec fn polls_left(self) -> nat {
        if self.complete {
            0
        } else {
            self.point.polls_left()
        }
    }

    pub fn new(seed: u64, depth: u64) -> (unit: RecUnit)
        requires
            depth <= 63,
            seed * pow2(depth as nat) <= u64::MAX,
        ensures
            unit.wf(),
            unit.seed == seed,
            unit.depth == depth,
            !unit.complete,
            unit.polls_left() == 2,
    {
        RecUnit {
            seed,
            depth,
            point: YieldPoint::new(),
            complete: false,
            value: 0,
            branches: 0,
        }
    }
}

/// Poll a nested unit once. The first poll offers the unit's one suspension
/// point; the resumption performs the whole recursive computation — for a
/// branch, constructing both children and fully driving them in order —
/// before reporting `Done`.
pub fn poll_rec(unit: RecUnit, handle: &ResumeHandle) -> (r: (RecUnit, Progress))
    requires
        unit.wf(),
        unit.polls_left() >= 1,
    ensures
        r.0.wf(),
        r.0.seed == unit.seed,
        r.0.depth == unit.depth,
        r.0.polls_left() + 1 == unit.polls_left(),
        (r.1 is Done) <==> r.0.polls_left() == 0,
        r.0.complete <==> (r.1 is Done),
        r.0.complete ==> r.0.value == unit.seed * pow2(unit.depth as nat) && r.0.branches == pow2(
            unit.depth as nat,
        ) - 1,
    decreases unit.depth, 0int,
{
    let mut unit = unit;
    let offered = unit.point.poll_step(handle);
    match offered {
        Progress::NotDone => (unit, Progress::NotDone),
        Progress::Done => {
            if unit.depth == 0 {
                unit.value = unit.seed;
                unit.branches = 0;
                unit.complete = true;
                (unit, Progress::Done)
            } else {
                proof {
                    assert(pow2(unit.depth as nat) == 2 * pow2((unit.depth - 1) as nat));
                    assert(unit.seed * (2 * pow2((unit.depth - 1) as nat)) == 2 * (unit.seed * pow2(
                        (unit.depth - 1) as nat,
                    ))) by (nonlinear_arith);
                }
                let child_a = RecUnit::new(unit.seed, unit.depth - 1);
                let child_b = RecUnit::new(unit.seed, unit.depth - 1);
                let child_a = drive(child_a, handle);
                let child_b = drive(child_b, handle);
                proof {
                    lemma_pow2_increases(unit.depth as nat, 63);
                    lemma_pow2_63();
                }
                unit.value = child_a.value + child_b.value;
                unit.branches = child_a.branches + child_b.branches + 1;
                unit.complete = true;
                (unit, Progress::Done)
            }
        },
    }
}

/// Drive a nested unit to completion by polling it repeatedly: the simple
/// sequential awaiting a parent performs on a child it owns.
pub fn drive(unit: RecUnit, handle: &ResumeHandle) -> (r: RecUnit)
    requires
        unit.wf(),
        unit.polls_left() >= 1,
    ensures
        r.wf(),
        r.seed == unit.seed,
        r.depth == unit.depth,
        r.complete,
        r.value == unit.seed * pow2(unit.depth as nat),
        r.branches == pow2(unit.depth as nat) - 1,
    decreases unit.depth, 1int,
{
    let mut cur = unit;
    let mut finished = false;
    while !finished
        invariant
            cur.wf(),
            cur.seed == unit.seed,
            cur.depth == unit.depth,
            !finished ==> !cur.complete && cur.polls_left() >= 1,
            finished ==> cur.complete && cur.value == unit.seed * pow2(unit.depth as nat)
                && cur.branches == pow2(unit.depth as nat) - 1,
        decreases cur.polls_left(),
    {
        let stepped = poll_rec(cur, handle);
        cur = stepped.0;
        match stepped.1 {
            Progress::Done => {
                finished = true;
            },
            Progress::NotDone => {
            },
        }
    }
    cur
}

/// Construct the recursive unit for `(seed, depth)` and drive it to
/// completion in isolation, as a task body does for a nested computation it
/// owns. Returns the computed value, `seed * 2^depth`, together with the
/// number of internal branch completions performed on the way: exactly
/// `2^depth - 1` (at depth two, the root and its two children branch; the
/// four depth-zero grandchildren terminate without further recursion).
/// Sequential chaining of nested units: a first unit is constructed and
/// driven to completion, and only after it reaches `Done` is a second unit
/// constructed — its constructor consuming the first one's result — and
/// driven in turn. The chained result is `seed * 2^(depth_a + depth_b)`.
pub fn chained_compute(seed: u64, depth_a: u64, depth_b: u64) -> (r: u64)
    requires
        depth_a + depth_b <= 63,
        seed * pow2((depth_a + depth_b) as nat) <= u64::MAX,
    ensures
        r == seed * pow2((depth_a + depth_b) as nat),
{
    let handle = ResumeHandle::new();
    proof {
        lemma_pow2_adds(depth_a as nat, depth_b as nat);
        lemma_pow2_pos(depth_b as nat);
        assert(seed * pow2(depth_a as nat) <= seed * (pow2(depth_a as nat) * pow2(
            depth_b as nat,
        ))) by (nonlinear_arith)
            requires
                pow2(depth_b as nat) >= 1,
        ;
    }
    let first = drive(RecUnit::new(seed, depth_a), &handle);
    proof {
        assert((seed * pow2(depth_a as nat)) * pow2(depth_b as nat) == seed * (pow2(
            depth_a as nat,
        ) * pow2(depth_b as nat))) by (nonlinear_arith);
    }
    let second = drive(RecUnit::new(first.value, depth_b), &handle);
    second.value
}

pub fn recursive_compute(seed: u64, depth: u64) -> (r: (u64, u64))
    requires
        depth <= 63,
        seed * pow2(depth as nat) <= u64::MAX,
    ensures
        r.0 == seed * pow2(depth as nat),
        r.1 == pow2(depth as nat) - 1,
{
    let handle = ResumeHandle::new();
    let unit = RecUnit::new(seed, depth);
    let unit = drive(unit, &handle);
    (unit.value, unit.branches)
}

} // verus!
