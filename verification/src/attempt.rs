//! Sequencing of one machine's pre-boot actions.
//!
//! The coordinator arms a machine first and only then hands out its actions,
//! one at a time and in declared order, through a [`BootAttempt`].  The
//! surrounding program performs each action (spawning the external tool) and
//! reports success or failure back; this type enforces that actions run one
//! at a time, in order, and that after the first reported failure no further
//! action is ever handed out.  The arming record is untouched by any of
//! this: a failed action leaves the machine armed.

use vstd::prelude::*;

use crate::actions::Action;
use crate::actions::ActionV;
use crate::errors::BootError;
use crate::errors::BootErrorV;

verus! {

/// The mathematical shape of a [`BootAttempt`]: the ordered actions, how
/// many have succeeded, and the reason of the reported failure, if any.
/// When `failure` is `Some`, `next` is the index of the failed action.
#[verifier::ext_equal]
pub struct BootAttemptV {
    pub actions: Seq<ActionV>,
    pub next: int,
    pub failure: Option<Seq<char>>,
}

/// True while there is still an action to run: no failure has been
/// reported and actions remain.
pub open spec fn attempt_in_progress(a: BootAttemptV) -> bool {
    a.failure is None && a.next < a.actions.len()
}

/// The action to run next, if the attempt is still in progress.
pub open spec fn next_action_spec(a: BootAttemptV) -> Option<ActionV> {
    if attempt_in_progress(a) {
        Some(a.actions[a.next])
    } else {
        None
    }
}

/// The outcome so far: an error naming the failed action's index and the
/// reported reason, or success if no failure has been reported.
pub open spec fn attempt_outcome(a: BootAttemptV) -> Result<(), BootErrorV> {
    match a.failure {
        Some(reason) => Err(BootErrorV::ActionFailed { index: a.next, reason }),
        None => Ok(()),
    }
}

/// One run of a machine's ordered pre-boot actions, stopped at the first
/// failure.
#[derive(Debug)]
pub struct BootAttempt {
    actions: Vec<Action>,
    next: usize,
    failure: Option<String>,
}

impl View for BootAttempt {
    type V = BootAttemptV;

    closed spec fn view(&self) -> BootAttemptV {
        BootAttemptV {
            actions: self.actions.deep_view(),
            next: self.next as int,
            failure: match self.failure {
                Some(ref reason) => Some(reason@),
                None => None,
            },
        }
    }
}

impl BootAttempt {
    #[verifier::type_invariant]
    spec fn inv(self) -> bool {
        &&& self.next <= self.actions.len()
        &&& self.failure is Some ==> self.next < self.actions.len()
    }

    /// A fresh attempt over the given actions; nothing has run yet.
    pub fn new(actions: Vec<Action>) -> (a: Self)
        ensures
            a@ == (BootAttemptV { actions: actions.deep_view(), next: 0, failure: None }),
    {
        BootAttempt { actions, next: 0, failure: None }
    }

    /// The action to run now, or `None` once every action has succeeded or
    /// one has failed.  Returns `Some` exactly while the attempt is in
    /// progress.
    pub fn next_action(&self) -> (r: Option<&Action>)
        ensures
            r is Some <==> attempt_in_progress(self@),
            match r {
                Some(action) => next_action_spec(self@) == Some(action@),
                None => next_action_spec(self@) is None,
            },
    {
        if self.failure.is_some() {
            None
        } else if self.next < self.actions.len() {
            Some(&self.actions[self.next])
        } else {
            None
        }
    }

    /// Records that the current action succeeded and moves on to the next
    /// one.
    pub fn report_success(&mut self)
        requires
            attempt_in_progress(old(self)@),
        ensures
            final(self)@ == (BootAttemptV { next: old(self)@.next + 1, ..old(self)@ }),
    {
        proof {
            use_type_invariant(&*self);
        }
        self.next = self.next + 1;
    }

    /// Records that the current action failed.  The attempt halts: the
    /// remaining actions are never handed out.
    pub fn report_failure(&mut self, reason: String)
        requires
            attempt_in_progress(old(self)@),
        ensures
            final(self)@ == (BootAttemptV { failure: Some(reason@), ..old(self)@ }),
    {
        proof {
            use_type_invariant(&*self);
        }
        self.failure = Some(reason);
    }

    /// The outcome so far: `Err(ActionFailed { .. })` naming the failed
    /// action and the reported reason, or `Ok` if no failure has been
    /// reported.
    pub fn outcome(&self) -> (r: Result<(), BootError>)
        ensures
            attempt_outcome(self@) == (match r {
                Ok(_) => Ok::<(), BootErrorV>(()),
                Err(e) => Err::<(), BootErrorV>(e@),
            }),
    {
        match &self.failure {
            Some(reason) => Err(
                BootError::ActionFailed { index: self.next, reason: reason.clone() },
            ),
            None => Ok(()),
        }
    }
}

/// Once an action has failed, no later action is ever handed out: the
/// actions after the failed one are never invoked.
pub proof fn lemma_failure_halts_sequencing(a: BootAttemptV)
    requires
        a.failure is Some,
    ensures
        next_action_spec(a) is None,
{
}

} // verus!
