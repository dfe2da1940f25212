//! Moving a target from the policy it has to the one it should have: the
//! current policy is reverted, then the new one applied. The applied policy
//! is only recorded once it is known: it stays the old one when the revert
//! fails (so the next reconcile retries), and it is cleared when the apply
//! fails.
//!
//! The daemon runs the steps: it asks [`PolicyTransition::next_step`] what
//! to do, performs it, and hands the outcome to
//! [`PolicyTransition::record`].
use vstd::prelude::*;

verus! {

/// The step to perform next.
#[derive(Debug, Clone, Copy, PartialEq, Eq, Structural)]
pub enum TransitionStep<K> {
    /// Revert this policy.
    Revert(K),
    /// Apply this policy.
    Apply(K),
    /// Done; the policy now applied, as far as is known.
    Done(Option<K>),
}

#[derive(Debug, Clone, Copy, PartialEq, Eq, Structural)]
pub enum TransitionStage {
    Reverting,
    Applying,
    Finished,
}

/// A move from `from` to `to`.
#[derive(Debug, Clone, Copy)]
pub struct PolicyTransition<K> {
    pub from: Option<K>,
    pub to: K,
    pub stage: TransitionStage,
    /// The policy recorded as applied so far.
    pub applied: Option<K>,
}

/// Should the policy move? Not when there is no policy to have, nor when
/// it is the one already applied.
pub open spec fn needs_transition<K>(applied: Option<K>, next: Option<K>) -> bool {
    next is Some && applied != next
}

/// The policy recorded as applied after a transition from `from` to `to`
/// whose revert succeeded (`revert_ok`, when there was one) and whose apply
/// succeeded (`apply_ok`).
pub open spec fn applied_after<K>(from: Option<K>, to: K, revert_ok: bool, apply_ok: bool) -> Option<K> {
    if from is Some && !revert_ok {
        from
    } else if apply_ok {
        Some(to)
    } else {
        None
    }
}

impl<K: Copy> PolicyTransition<K> {
    /// A transition from the applied policy `from` to `to`.
    pub fn start(from: Option<K>, to: K) -> (r: Self)
        ensures
            r.from == from,
            r.to == to,
            r.applied == from,
            r.stage == (if from is Some {
                TransitionStage::Reverting
            } else {
                TransitionStage::Applying
            }),
    {
        let stage = match from {
            Some(_) => TransitionStage::Reverting,
            None => TransitionStage::Applying,
        };
        PolicyTransition { from, to, stage, applied: from }
    }

    /// A stage the transition can be in.
    pub open spec fn wf(&self) -> bool {
        self.stage == TransitionStage::Reverting ==> self.from is Some && self.applied == self.from
    }

    /// What to do next.
    pub fn next_step(&self) -> (r: TransitionStep<K>)
        requires
            self.wf(),
        ensures
            r == match self.stage {
                TransitionStage::Reverting => TransitionStep::Revert(self.from->0),
                TransitionStage::Applying => TransitionStep::Apply(self.to),
                TransitionStage::Finished => TransitionStep::Done(self.applied),
            },
    {
        match self.stage {
            TransitionStage::Reverting => match self.from {
                Some(k) => TransitionStep::Revert(k),
                None => TransitionStep::Done(self.applied),
            },
            TransitionStage::Applying => TransitionStep::Apply(self.to),
            TransitionStage::Finished => TransitionStep::Done(self.applied),
        }
    }

    /// Records the outcome of the revert or apply step.
    pub fn record(&mut self, ok: bool)
        requires
            old(self).wf(),
            old(self).stage != TransitionStage::Finished,
        ensures
            final(self).wf(),
            *final(self) == transition_after(*old(self), ok),
            final(self).from == old(self).from,
            final(self).to == old(self).to,
            old(self).stage == TransitionStage::Reverting ==> if ok {
                final(self).stage == TransitionStage::Applying && final(self).applied is None
            } else {
                final(self).stage == TransitionStage::Finished && final(self).applied
                    == old(self).applied
            },
            old(self).stage == TransitionStage::Applying ==> final(self).stage
                == TransitionStage::Finished && final(self).applied == (if ok {
                Some(old(self).to)
            } else {
                None
            }),
    {
        match self.stage {
            TransitionStage::Reverting => {
                if ok {
                    self.stage = TransitionStage::Applying;
                    self.applied = None;
                } else {
                    self.stage = TransitionStage::Finished;
                }
            },
            _ => {
                self.stage = TransitionStage::Finished;
                self.applied = if ok {
                    Some(self.to)
                } else {
                    None
                };
            },
        }
    }
}

/// A transition ends with the applied policy that [`applied_after`] names:
/// the new policy when every step succeeded, the old one when its revert
/// failed, and none when the apply failed.
pub proof fn lemma_transition_outcome<K>(from: Option<K>, to: K, revert_ok: bool, apply_ok: bool)
    ensures
        ({
            let t0 = PolicyTransition {
                from,
                to,
                stage: if from is Some {
                    TransitionStage::Reverting
                } else {
                    TransitionStage::Applying
                },
                applied: from,
            };
            let t1 = if from is Some {
                transition_after(t0, revert_ok)
            } else {
                t0
            };
            let t2 = if t1.stage == TransitionStage::Applying {
                transition_after(t1, apply_ok)
            } else {
                t1
            };
            &&& t2.stage == TransitionStage::Finished
            &&& t2.applied == applied_after(from, to, revert_ok, apply_ok)
        }),
{
}

/// The transition after the outcome `ok` of its step, as `record` leaves it.
pub open spec fn transition_after<K>(t: PolicyTransition<K>, ok: bool) -> PolicyTransition<K> {
    match t.stage {
        TransitionStage::Reverting => if ok {
            PolicyTransition { stage: TransitionStage::Applying, applied: None, ..t }
        } else {
            PolicyTransition { stage: TransitionStage::Finished, ..t }
        },
        _ => PolicyTransition {
            stage: TransitionStage::Finished,
            applied: if ok {
                Some(t.to)
            } else {
                None
            },
            ..t
        },
    }
}

} // verus!
