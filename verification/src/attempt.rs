//! One connect attempt, step by step: make a socket, bind it, connect it,
//! hand the connection over. A step that fails ends the attempt without a
//! word.
//!
//! The attempt does no I/O. Its driver does what the attempt asks for and
//! reports whether it worked.

use crate::address::Endpoint;
use crate::candidate::Candidate;
use vstd::prelude::*;

verus! {

/// What the driver is to do for an attempt.
#[derive(Clone, Copy, Debug, PartialEq, Eq, Structural)]
pub enum AttemptAction {
    /// Make a TCP socket for IPv4.
    OpenSocket,
    /// Bind the socket to this local endpoint.
    Bind(Endpoint),
    /// Connect the socket to this endpoint.
    Connect(Endpoint),
    /// Hand the connection to the consumer.
    Deliver,
    /// Nothing more: give the permit back.
    End,
}

/// How far an attempt has come.
#[derive(Clone, Copy, Debug, PartialEq, Eq, Structural)]
pub enum AttemptStage {
    Opening,
    Binding,
    Connecting,
    Delivering,
    Ended,
}

/// A connect attempt under way.
#[derive(Clone, Copy, Debug, PartialEq, Eq, Structural)]
pub struct Attempt {
    pub candidate: Candidate,
    pub stage: AttemptStage,
}

impl Attempt {
    /// An attempt that has done nothing yet.
    pub open spec fn spec_new(candidate: Candidate) -> Attempt {
        Attempt { candidate, stage: AttemptStage::Opening }
    }

    /// What the attempt asks for at its stage.
    pub open spec fn spec_action(self) -> AttemptAction {
        match self.stage {
            AttemptStage::Opening => AttemptAction::OpenSocket,
            AttemptStage::Binding => AttemptAction::Bind(self.candidate.local),
            AttemptStage::Connecting => AttemptAction::Connect(self.candidate.target),
            AttemptStage::Delivering => AttemptAction::Deliver,
            AttemptStage::Ended => AttemptAction::End,
        }
    }

    /// The attempt after the driver has reported on what was asked for: a
    /// step that worked leads to the next one, a step that failed to the end.
    /// After the hand-over the attempt ends either way.
    pub open spec fn after(self, succeeded: bool) -> Attempt {
        Attempt {
            stage: if !succeeded {
                AttemptStage::Ended
            } else {
                match self.stage {
                    AttemptStage::Opening => AttemptStage::Binding,
                    AttemptStage::Binding => AttemptStage::Connecting,
                    AttemptStage::Connecting => AttemptStage::Delivering,
                    AttemptStage::Delivering => AttemptStage::Ended,
                    AttemptStage::Ended => AttemptStage::Ended,
                }
            },
            ..self
        }
    }

    /// The attempt after a run of reports.
    pub open spec fn run(self, outcomes: Seq<bool>) -> Attempt
        decreases outcomes.len(),
    {
        if outcomes.len() == 0 {
            self
        } else {
            self.run(outcomes.drop_last()).after(outcomes.last())
        }
    }

    /// An attempt that has done nothing yet.
    pub fn new(candidate: Candidate) -> (attempt: Attempt)
        ensures
            attempt == Attempt::spec_new(candidate),
    {
        Attempt { candidate, stage: AttemptStage::Opening }
    }

    /// What the driver is to do now.
    pub fn action(&self) -> (action: AttemptAction)
        ensures
            action == self.spec_action(),
    {
        match self.stage {
            AttemptStage::Opening => AttemptAction::OpenSocket,
            AttemptStage::Binding => AttemptAction::Bind(self.candidate.local),
            AttemptStage::Connecting => AttemptAction::Connect(self.candidate.target),
            AttemptStage::Delivering => AttemptAction::Deliver,
            AttemptStage::Ended => AttemptAction::End,
        }
    }

    /// Takes in whether the last action worked, and says what to do next.
    pub fn report(&mut self, succeeded: bool) -> (action: AttemptAction)
        ensures
            *final(self) == old(self).after(succeeded),
            action == final(self).spec_action(),
    {
        self.stage = if !succeeded {
            AttemptStage::Ended
        } else {
            match self.stage {
                AttemptStage::Opening => AttemptStage::Binding,
                AttemptStage::Binding => AttemptStage::Connecting,
                AttemptStage::Connecting => AttemptStage::Delivering,
                AttemptStage::Delivering => AttemptStage::Ended,
                AttemptStage::Ended => AttemptStage::Ended,
            }
        };
        self.action()
    }
}

/// Whether every outcome of a run is a success.
pub open spec fn all_succeeded(outcomes: Seq<bool>) -> bool {
    forall|i: int| 0 <= i < outcomes.len() ==> #[trigger] outcomes[i]
}

/// An attempt gets as far as its reports allow: while every step works it is
/// one stage on with each report, and from the first failure, or after four
/// reports, it has ended. So a connection is handed over exactly when socket,
/// bind and connect all worked, and every attempt ends within four reports.
pub proof fn lemma_attempt_stage(candidate: Candidate, outcomes: Seq<bool>)
    ensures
        Attempt::spec_new(candidate).run(outcomes).candidate == candidate,
        Attempt::spec_new(candidate).run(outcomes).stage == if !all_succeeded(outcomes)
            || outcomes.len() >= 4 {
            AttemptStage::Ended
        } else if outcomes.len() == 0 {
            AttemptStage::Opening
        } else if outcomes.len() == 1 {
            AttemptStage::Binding
        } else if outcomes.len() == 2 {
            AttemptStage::Connecting
        } else {
            AttemptStage::Delivering
        },
    decreases outcomes.len(),
{
    if outcomes.len() > 0 {
        let init = outcomes.drop_last();
        lemma_attempt_stage(candidate, init);
        if all_succeeded(outcomes) {
            assert forall|i: int| 0 <= i < init.len() implies #[trigger] init[i] by {
                assert(outcomes[i]);
            }
        } else if outcomes.last() {
            let i = choose|i: int| 0 <= i < outcomes.len() && !outcomes[i];
            assert(!init[i]);
        }
    }
}

} // verus!
