//! Applying (or reverting) the actions of a policy with rollback: the
//! actions are run one after the other; when one fails, the ones that
//! already ran are undone in reverse order and the run ends with the
//! failure. The failures of undo steps are only reported, never acted on.
//!
//! The daemon runs the loop: it asks [`RollbackRun::next_step`] what to do,
//! performs it, and hands the outcome to [`RollbackRun::record`].
use vstd::prelude::*;

verus! {

/// What the daemon does next, by position in the run's order.
#[derive(Debug, Clone, Copy, PartialEq, Eq, Structural)]
pub enum RunStep {
    /// Run the action at this position.
    Do(usize),
    /// Undo the action at this position.
    Undo(usize),
    /// The run is over: `None` when every action ran, or the position of
    /// the action that failed.
    Finish(Option<usize>),
}

#[derive(Debug, Clone, Copy, PartialEq, Eq, Structural)]
pub enum RunPhase {
    /// Running forward; the next position to run.
    Forward(usize),
    /// Undoing after the action at `failed` failed; `remaining` actions are
    /// left to undo, positions `remaining - 1` down to 0.
    Undoing { remaining: usize, failed: usize },
}

/// One run over `len` actions.
#[derive(Debug, Clone, Copy)]
pub struct RollbackRun {
    pub len: usize,
    pub phase: RunPhase,
}

/// The step a phase asks for.
pub open spec fn phase_step(len: nat, phase: RunPhase) -> RunStep {
    match phase {
        RunPhase::Forward(i) => if i < len {
            RunStep::Do(i)
        } else {
            RunStep::Finish(None)
        },
        RunPhase::Undoing { remaining, failed } => if remaining > 0 {
            RunStep::Undo((remaining - 1) as usize)
        } else {
            RunStep::Finish(Some(failed))
        },
    }
}

/// The phase after the outcome `ok` of the step a phase asked for.
pub open spec fn phase_after(phase: RunPhase, ok: bool) -> RunPhase {
    match phase {
        RunPhase::Forward(i) => if ok {
            RunPhase::Forward((i + 1) as usize)
        } else {
            RunPhase::Undoing { remaining: i, failed: i }
        },
        RunPhase::Undoing { remaining, failed } => RunPhase::Undoing {
            remaining: (remaining - 1) as usize,
            failed,
        },
    }
}

/// The steps a run takes from `phase` when the outcomes of its steps are
/// `outcomes`, in order, up to and including its `Finish` (or until the
/// outcomes run out).
pub open spec fn run_trace(len: nat, phase: RunPhase, outcomes: Seq<bool>) -> Seq<RunStep>
    decreases outcomes.len(),
{
    match phase_step(len, phase) {
        RunStep::Finish(r) => seq![RunStep::Finish(r)],
        step => if outcomes.len() == 0 {
            Seq::empty()
        } else {
            seq![step] + run_trace(len, phase_after(phase, outcomes[0]), outcomes.drop_first())
        },
    }
}

/// Position of the first failure among the first `len` outcomes, or `len`.
pub open spec fn first_failure(outcomes: Seq<bool>, len: nat) -> nat
    decreases len,
{
    if len == 0 {
        0
    } else {
        let p = first_failure(outcomes, (len - 1) as nat);
        if p < len - 1 {
            p
        } else if outcomes[len - 1] {
            len
        } else {
            (len - 1) as nat
        }
    }
}

/// `Do(0)`, …, `Do(n - 1)`.
pub open spec fn do_steps(n: nat) -> Seq<RunStep> {
    Seq::new(n, |i: int| RunStep::Do(i as usize))
}

/// `Undo(n - 1)`, …, `Undo(0)`.
pub open spec fn undo_steps(n: nat) -> Seq<RunStep> {
    Seq::new(n, |i: int| RunStep::Undo((n - 1 - i) as usize))
}

/// The steps of a whole run: every action in order up to the first
/// failure; then, on failure, the actions before it undone in reverse
/// order; then the end with the failure's position.
pub open spec fn rollback_trace(len: nat, outcomes: Seq<bool>) -> Seq<RunStep> {
    let p = first_failure(outcomes, len);
    if p == len {
        do_steps(len).push(RunStep::Finish(None))
    } else {
        do_steps(p + 1) + undo_steps(p).push(RunStep::Finish(Some(p as usize)))
    }
}

impl RollbackRun {
    /// A run over `len` actions, before its first step.
    pub fn start(len: usize) -> (r: Self)
        ensures
            r.len == len,
            r.phase == RunPhase::Forward(0),
    {
        RollbackRun { len, phase: RunPhase::Forward(0) }
    }

    /// A phase of this run.
    pub open spec fn wf(&self) -> bool {
        match self.phase {
            RunPhase::Forward(i) => i <= self.len,
            RunPhase::Undoing { remaining, failed } => remaining <= failed < self.len,
        }
    }

    /// What to do next.
    pub fn next_step(&self) -> (r: RunStep)
        requires
            self.wf(),
        ensures
            r == phase_step(self.len as nat, self.phase),
    {
        match self.phase {
            RunPhase::Forward(i) => if i < self.len {
                RunStep::Do(i)
            } else {
                RunStep::Finish(None)
            },
            RunPhase::Undoing { remaining, failed } => if remaining > 0 {
                RunStep::Undo(remaining - 1)
            } else {
                RunStep::Finish(Some(failed))
            },
        }
    }

    /// Records the outcome of the step [`Self::next_step`] asked for.
    pub fn record(&mut self, ok: bool)
        requires
            old(self).wf(),
            !(phase_step(old(self).len as nat, old(self).phase) is Finish),
        ensures
            final(self).wf(),
            final(self).len == old(self).len,
            final(self).phase == phase_after(old(self).phase, ok),
    {
        self.phase = match self.phase {
            RunPhase::Forward(i) => if ok {
                RunPhase::Forward(i + 1)
            } else {
                RunPhase::Undoing { remaining: i, failed: i }
            },
            RunPhase::Undoing { remaining, failed } => RunPhase::Undoing {
                remaining: remaining - 1,
                failed,
            },
        };
    }
}

proof fn lemma_undo_trace(len: nat, remaining: usize, failed: usize, outcomes: Seq<bool>)
    requires
        outcomes.len() >= remaining,
    ensures
        run_trace(len, RunPhase::Undoing { remaining, failed }, outcomes) == undo_steps(
            remaining as nat,
        ).push(RunStep::Finish(Some(failed))),
    decreases remaining,
{
    let phase = RunPhase::Undoing { remaining, failed };
    if remaining == 0 {
        assert(undo_steps(0).push(RunStep::Finish(Some(failed))) =~= seq![
            RunStep::Finish(Some(failed)),
        ]);
    } else {
        let next = phase_after(phase, outcomes[0]);
        lemma_undo_trace(len, (remaining - 1) as usize, failed, outcomes.drop_first());
        assert(seq![RunStep::Undo((remaining - 1) as usize)] + undo_steps(
            (remaining - 1) as nat,
        ).push(RunStep::Finish(Some(failed))) =~= undo_steps(remaining as nat).push(
            RunStep::Finish(Some(failed)),
        ));
    }
}

proof fn lemma_first_failure_bounds(outcomes: Seq<bool>, len: nat)
    ensures
        first_failure(outcomes, len) <= len,
        forall|j: int| 0 <= j < first_failure(outcomes, len) ==> outcomes[j],
        first_failure(outcomes, len) < len ==> !outcomes[first_failure(outcomes, len) as int],
    decreases len,
{
    if len > 0 {
        lemma_first_failure_bounds(outcomes, (len - 1) as nat);
    }
}

/// `first_failure` counted from position `i` on the outcomes from `i` on.
proof fn lemma_first_failure_shift(outcomes: Seq<bool>, len: nat, i: nat)
    requires
        i < len,
        len <= outcomes.len(),
        forall|j: int| 0 <= j < i ==> outcomes[j],
    ensures
        first_failure(outcomes, len) == i + first_failure(outcomes.skip(i as int), (len - i) as nat),
{
    lemma_first_failure_bounds(outcomes, len);
    lemma_first_failure_bounds(outcomes.skip(i as int), (len - i) as nat);
    let p = first_failure(outcomes, len);
    let q = first_failure(outcomes.skip(i as int), (len - i) as nat);
    if p < i {
        assert(outcomes[p as int]);
    }
    if q < len - i {
        assert(outcomes.skip(i as int)[q as int] == outcomes[(i + q) as int]);
    }
    if p > i + q {
        assert(outcomes[(i + q) as int] == outcomes.skip(i as int)[q as int]);
    }
    if p < i + q {
        assert(outcomes.skip(i as int)[p - i] == outcomes[p as int]);
    }
}

proof fn lemma_forward_trace(len: usize, i: usize, outcomes: Seq<bool>)
    requires
        i <= len,
        outcomes.len() >= 2 * len - i,
    ensures
        ({
            let p = first_failure(outcomes, (len - i) as nat);
            run_trace(len as nat, RunPhase::Forward(i), outcomes) == if p == len - i {
                Seq::new((len - i) as nat, |j: int| RunStep::Do((i + j) as usize)).push(
                    RunStep::Finish(None),
                )
            } else {
                Seq::new(p + 1, |j: int| RunStep::Do((i + j) as usize)) + undo_steps(
                    (i + p) as nat,
                ).push(RunStep::Finish(Some((i + p) as usize)))
            }
        }),
    decreases len - i,
{
    let n = (len - i) as nat;
    let p = first_failure(outcomes, n);
    lemma_first_failure_bounds(outcomes, n);
    if i == len {
        assert(Seq::new(0, |j: int| RunStep::Do((i + j) as usize)).push(RunStep::Finish(None))
            =~= seq![RunStep::Finish(None)]);
    } else {
        let rest = outcomes.drop_first();
        if outcomes[0] {
            lemma_forward_trace(len, (i + 1) as usize, rest);
            assert(outcomes.skip(1) =~= rest);
            if n > 1 {
                lemma_first_failure_shift(outcomes, n, 1);
            }
            let q = first_failure(rest, (n - 1) as nat);
            assert(p == 1 + q);
            if q == n - 1 {
                assert(seq![RunStep::Do(i)] + Seq::new(
                    (n - 1) as nat,
                    |j: int| RunStep::Do((i + 1 + j) as usize),
                ).push(RunStep::Finish(None)) =~= Seq::new(
                    n,
                    |j: int| RunStep::Do((i + j) as usize),
                ).push(RunStep::Finish(None)));
            } else {
                assert(seq![RunStep::Do(i)] + (Seq::new(
                    q + 1,
                    |j: int| RunStep::Do((i + 1 + j) as usize),
                ) + undo_steps((i + 1 + q) as nat).push(
                    RunStep::Finish(Some((i + 1 + q) as usize)),
                )) =~= Seq::new(p + 1, |j: int| RunStep::Do((i + j) as usize)) + undo_steps(
                    (i + p) as nat,
                ).push(RunStep::Finish(Some((i + p) as usize))));
            }
        } else {
            assert(p == 0) by {
                if p > 0 {
                    assert(outcomes[0]);
                }
            }
            lemma_undo_trace(len as nat, i, i, rest);
            assert(seq![RunStep::Do(i)] + undo_steps(i as nat).push(RunStep::Finish(Some(i)))
                =~= Seq::new(1, |j: int| RunStep::Do((i + j) as usize)) + undo_steps(
                i as nat,
            ).push(RunStep::Finish(Some(i))));
        }
    }
}

/// Apply with rollback: from its start, a run over `len` actions runs them
/// in order up to the first failure; on a failure it undoes the actions
/// that ran before it, last first, and ends with the failure's position;
/// otherwise it ends after the last action. (Enough outcomes are supplied
/// for the longest run, `2 * len`.)
pub proof fn lemma_rollback_run(len: usize, outcomes: Seq<bool>)
    requires
        outcomes.len() >= 2 * len,
    ensures
        run_trace(len as nat, RunPhase::Forward(0), outcomes) == rollback_trace(len as nat, outcomes),
{
    lemma_forward_trace(len, 0, outcomes);
    let p = first_failure(outcomes, len as nat);
    assert(Seq::new(len as nat, |j: int| RunStep::Do((0 + j) as usize)) =~= do_steps(len as nat));
    assert(Seq::new(p + 1, |j: int| RunStep::Do((0 + j) as usize)) =~= do_steps(p + 1));
}

/// The order in which a run visits a list of actions.
#[derive(Debug, Clone, Copy, PartialEq, Eq, Structural)]
pub enum RunOrder {
    /// First action first.
    InOrder,
    /// Last action first.
    Reversed,
}

/// The index in the action list of the action at position `pos` of a run.
pub fn action_index(order: RunOrder, len: usize, pos: usize) -> (r: usize)
    requires
        pos < len,
    ensures
        r < len,
        order == RunOrder::InOrder ==> r == pos,
        order == RunOrder::Reversed ==> r == len - 1 - pos,
{
    match order {
        RunOrder::InOrder => pos,
        RunOrder::Reversed => len - 1 - pos,
    }
}

} // verus!
