//! One scan round under a fixed number of permits: which attempt starts next,
//! and when the round is over.
//!
//! The dispatcher does no I/O. Its driver asks it for the next attempt, runs
//! the attempt, and reports back when the attempt has ended, whatever the
//! outcome. An attempt holds one permit from the moment it is handed out
//! until that report.

use crate::candidate::Candidate;
use vstd::prelude::*;

verus! {

/// What the driver is to do next.
#[derive(Clone, Copy, Debug, PartialEq, Eq, Structural)]
pub enum Launch {
    /// Start this attempt. It holds a permit until it is reported finished.
    Dial(Candidate),
    /// Every permit is taken. Report a finished attempt first.
    Wait,
    /// No attempt is left to start.
    Drained,
}

/// What the driver can do to a round.
pub enum DispatchEvent {
    /// Ask for the next attempt, saying whether anyone still listens for
    /// results.
    Launch { consumer_attached: bool },
    /// Report that one running attempt has ended.
    Finished,
}

/// A round as the contracts see it.
pub struct DispatchState {
    /// The attempts of the round, in the order in which they start.
    pub candidates: Seq<Candidate>,
    /// How many attempts were handed out: the first `started` candidates.
    pub started: nat,
    /// How many attempts were reported finished.
    pub finished: nat,
    /// Whether the rest of the candidates was given up because nobody
    /// listens for results any more.
    pub abandoned: bool,
    /// How many attempts may run at once.
    pub permits: nat,
}

impl DispatchState {
    /// A round before its first attempt. Without permits no attempt could
    /// ever start, so such a round has no candidates.
    pub open spec fn start(candidates: Seq<Candidate>, permits: nat) -> DispatchState {
        DispatchState {
            candidates: if permits == 0 {
                Seq::empty()
            } else {
                candidates
            },
            started: 0,
            finished: 0,
            abandoned: false,
            permits,
        }
    }

    /// The attempts that run: handed out and not yet reported finished.
    pub open spec fn in_flight(self) -> int {
        self.started - self.finished
    }

    /// The candidates that are still to start.
    pub open spec fn pending(self) -> Seq<Candidate> {
        if self.abandoned {
            Seq::empty()
        } else {
            self.candidates.skip(self.started as int)
        }
    }

    /// What holds of every round: no more attempts finished than started, no
    /// more started than there are, and never more in flight than permits.
    pub open spec fn wf(self) -> bool {
        &&& self.finished <= self.started <= self.candidates.len()
        &&& self.in_flight() <= self.permits
        &&& self.permits == 0 ==> self.candidates.len() == 0
    }

    /// The answer to a request for the next attempt.
    pub open spec fn launch_answer(self, consumer_attached: bool) -> Launch {
        if !consumer_attached || self.pending().len() == 0 {
            Launch::Drained
        } else if self.in_flight() >= self.permits {
            Launch::Wait
        } else {
            Launch::Dial(self.pending()[0])
        }
    }

    /// The round after a request for the next attempt.
    pub open spec fn launch(self, consumer_attached: bool) -> DispatchState {
        match self.launch_answer(consumer_attached) {
            Launch::Dial(_) => DispatchState { started: self.started + 1, ..self },
            Launch::Wait => self,
            Launch::Drained => DispatchState {
                abandoned: self.abandoned || !consumer_attached,
                ..self
            },
        }
    }

    /// The round after a report that an attempt has ended. A report with
    /// nothing in flight changes nothing.
    pub open spec fn finish(self) -> DispatchState {
        if self.finished < self.started {
            DispatchState { finished: self.finished + 1, ..self }
        } else {
            self
        }
    }

    /// The round is over: nothing is left to start and nothing runs.
    pub open spec fn is_complete(self) -> bool {
        self.pending().len() == 0 && self.in_flight() == 0
    }

    /// The round after one event.
    pub open spec fn apply(self, event: DispatchEvent) -> DispatchState {
        match event {
            DispatchEvent::Launch { consumer_attached } => self.launch(consumer_attached),
            DispatchEvent::Finished => self.finish(),
        }
    }

    /// The round after a run of events.
    pub open spec fn run(self, events: Seq<DispatchEvent>) -> DispatchState
        decreases events.len(),
    {
        if events.len() == 0 {
            self
        } else {
            self.run(events.drop_last()).apply(events.last())
        }
    }
}

/// Whether the consumer was attached at every request in a run of events.
pub open spec fn always_attached(events: Seq<DispatchEvent>) -> bool {
    forall|i: int|
        0 <= i < events.len() ==> match #[trigger] events[i] {
            DispatchEvent::Launch { consumer_attached } => consumer_attached,
            DispatchEvent::Finished => true,
        }
}

/// One event keeps a round well formed, and keeps its candidates and permits.
pub proof fn lemma_apply_keeps_wf(s: DispatchState, event: DispatchEvent)
    requires
        s.wf(),
    ensures
        s.apply(event).wf(),
        s.apply(event).candidates == s.candidates,
        s.apply(event).permits == s.permits,
        s.started <= s.apply(event).started <= s.started + 1,
        s.apply(event).abandoned ==> s.abandoned || event == (DispatchEvent::Launch {
            consumer_attached: false,
        }),
{
}

/// A run of events keeps the candidates of a round.
pub proof fn lemma_run_keeps_candidates(s: DispatchState, events: Seq<DispatchEvent>)
    requires
        s.wf(),
    ensures
        s.run(events).wf(),
        s.run(events).candidates == s.candidates,
        s.run(events).permits == s.permits,
    decreases events.len(),
{
    if events.len() > 0 {
        lemma_run_keeps_candidates(s, events.drop_last());
        lemma_apply_keeps_wf(s.run(events.drop_last()), events.last());
    }
}

/// Whatever the driver does, in whatever order, the attempts in flight never
/// outnumber the permits.
pub proof fn lemma_permits_bound(
    candidates: Seq<Candidate>,
    permits: nat,
    events: Seq<DispatchEvent>,
)
    ensures
        DispatchState::start(candidates, permits).run(events).wf(),
        DispatchState::start(candidates, permits).run(events).permits == permits,
        0 <= DispatchState::start(candidates, permits).run(events).in_flight() <= permits,
{
    lemma_run_keeps_candidates(DispatchState::start(candidates, permits), events);
}

/// Once the consumer is gone, no further attempt starts, whatever the driver
/// does: the attempts that run may end, and that is all.
pub proof fn lemma_abandoned_round_starts_nothing(s: DispatchState, events: Seq<DispatchEvent>)
    requires
        s.wf(),
        s.abandoned,
    ensures
        s.run(events).abandoned,
        s.run(events).started == s.started,
        s.finished <= s.run(events).finished <= s.started,
    decreases events.len(),
{
    if events.len() > 0 {
        lemma_abandoned_round_starts_nothing(s, events.drop_last());
    }
}

/// While the consumer stays attached, a round that is over has started every
/// one of its candidates, in order, and has seen every attempt end.
pub proof fn lemma_complete_round_dialed_all(
    candidates: Seq<Candidate>,
    permits: nat,
    events: Seq<DispatchEvent>,
)
    requires
        permits > 0,
        always_attached(events),
    ensures
        !DispatchState::start(candidates, permits).run(events).abandoned,
        DispatchState::start(candidates, permits).run(events).candidates == candidates,
        DispatchState::start(candidates, permits).run(events).is_complete() ==> {
            &&& DispatchState::start(candidates, permits).run(events).started == candidates.len()
            &&& DispatchState::start(candidates, permits).run(events).finished == candidates.len()
        },
    decreases events.len(),
{
    if events.len() > 0 {
        let init = events.drop_last();
        lemma_complete_round_dialed_all(candidates, permits, init);
        lemma_permits_bound(candidates, permits, init);
    }
}

/// A round that is not over can always move on: either an attempt runs, so
/// that a report is due, or the next request is answered with an attempt.
pub proof fn lemma_round_never_stuck(s: DispatchState)
    requires
        s.wf(),
        !s.is_complete(),
    ensures
        s.in_flight() > 0 || s.launch_answer(true) is Dial,
{
}

/// A round in progress.
pub struct RoundDispatcher {
    candidates: Vec<Candidate>,
    started: usize,
    finished: usize,
    abandoned: bool,
    permits: usize,
}

impl View for RoundDispatcher {
    type V = DispatchState;

    closed spec fn view(&self) -> DispatchState {
        DispatchState {
            candidates: self.candidates@,
            started: self.started as nat,
            finished: self.finished as nat,
            abandoned: self.abandoned,
            permits: self.permits as nat,
        }
    }
}

impl RoundDispatcher {
    /// What every dispatcher satisfies: its round is well formed.
    pub open spec fn wf(&self) -> bool {
        self@.wf()
    }

    /// A round over `candidates` with `permits` attempts at once. With no
    /// permits the round has nothing to do.
    pub fn new(candidates: Vec<Candidate>, permits: usize) -> (d: RoundDispatcher)
        ensures
            d.wf(),
            d@ == DispatchState::start(candidates@, permits as nat),
    {
        let candidates = if permits == 0 {
            Vec::new()
        } else {
            candidates
        };
        RoundDispatcher { candidates, started: 0, finished: 0, abandoned: false, permits }
    }

    /// Asks for the next attempt. Once the consumer is reported gone, the
    /// candidates that have not started never will.
    pub fn next_attempt(&mut self, consumer_attached: bool) -> (answer: Launch)
        requires
            old(self).wf(),
        ensures
            final(self).wf(),
            answer == old(self)@.launch_answer(consumer_attached),
            final(self)@ == old(self)@.launch(consumer_attached),
    {
        if !consumer_attached {
            self.abandoned = true;
            return Launch::Drained;
        }
        if self.abandoned || self.started >= self.candidates.len() {
            return Launch::Drained;
        }
        if self.started - self.finished >= self.permits {
            return Launch::Wait;
        }
        let candidate = self.candidates[self.started];
        self.started = self.started + 1;
        Launch::Dial(candidate)
    }

    /// Reports that one running attempt has ended, and so frees its permit.
    pub fn attempt_finished(&mut self)
        requires
            old(self).wf(),
        ensures
            final(self).wf(),
            final(self)@ == old(self)@.finish(),
    {
        if self.finished < self.started {
            self.finished = self.finished + 1;
        }
    }

    /// Whether the round is over: nothing left to start, nothing running.
    pub fn is_complete(&self) -> (done: bool)
        requires
            self.wf(),
        ensures
            done == self@.is_complete(),
    {
        (self.abandoned || self.started >= self.candidates.len()) && self.finished
            == self.started
    }

    /// How many attempts are running.
    pub fn in_flight(&self) -> (n: usize)
        requires
            self.wf(),
        ensures
            n == self@.in_flight(),
            n <= self@.permits,
    {
        self.started - self.finished
    }

    /// How many candidates are still to start.
    pub fn remaining(&self) -> (n: usize)
        requires
            self.wf(),
        ensures
            n == self@.pending().len(),
    {
        if self.abandoned {
            0
        } else {
            self.candidates.len() - self.started
        }
    }

    /// How many attempts may run at once.
    pub fn permits(&self) -> (n: usize)
        ensures
            n == self@.permits,
    {
        self.permits
    }
}

} // verus!
