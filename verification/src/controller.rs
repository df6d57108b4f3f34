//! The sequence of scan rounds: how many there are, the pause between them,
//! and what ends them.
//!
//! The controller does not wait and does not scan. Its driver feeds it what
//! happened and does what it answers.

use vstd::prelude::*;

verus! {

/// How many rounds a scan may run.
#[derive(Clone, Copy, Debug, PartialEq, Eq, Structural)]
pub enum ScanCount {
    /// Round after round, until nobody listens for results.
    Infinite,
    /// This many rounds.
    Limited(u32),
}

impl ScanCount {
    /// Whether no round is left.
    pub open spec fn is_spent(self) -> bool {
        self == ScanCount::Limited(0)
    }

    /// What is left once one more round has run.
    pub open spec fn after_round(self) -> ScanCount {
        match self {
            ScanCount::Infinite => ScanCount::Infinite,
            ScanCount::Limited(n) => if n == 0 {
                ScanCount::Limited(0)
            } else {
                ScanCount::Limited((n - 1) as u32)
            },
        }
    }
}

impl Default for ScanCount {
    fn default() -> (count: ScanCount)
        ensures
            count == ScanCount::Limited(1),
    {
        ScanCount::Limited(1)
    }
}

/// Where the controller stands between two events.
#[derive(Clone, Copy, Debug, PartialEq, Eq, Structural)]
pub enum Phase {
    /// Before the first round or in the pause after one: a wake-up is due.
    Resting,
    /// A round runs: its end is due.
    Scanning,
    /// The scan is over.
    Stopped,
}

/// What the driver reports.
#[derive(Clone, Copy, Debug, PartialEq, Eq, Structural)]
pub enum ControllerEvent {
    /// The scan was started, or the pause it asked for has passed.
    Wake,
    /// Every attempt of the round has ended. `consumer_attached` says whether
    /// anyone still listens for results.
    RoundFinished { consumer_attached: bool },
}

/// What the driver is to do.
#[derive(Clone, Copy, Debug, PartialEq, Eq, Structural)]
pub enum ControllerAction {
    /// Take a fresh snapshot of the interfaces and run a round over it.
    ScanRound,
    /// Pause for this many seconds, then report a wake-up.
    Sleep { secs: u64 },
    /// End the scan.
    Stop,
}

/// The state of a scan between rounds.
#[derive(Clone, Copy, Debug, PartialEq, Eq, Structural)]
pub struct RoundController {
    /// The rounds that are left.
    pub budget: ScanCount,
    pub phase: Phase,
    /// The pause between two rounds, in seconds.
    pub wait_secs: u64,
}

impl RoundController {
    /// A controller that has not run any round yet.
    pub open spec fn spec_new(budget: ScanCount, wait_secs: u64) -> RoundController {
        RoundController { budget, phase: Phase::Resting, wait_secs }
    }

    /// A controller that has not run any round yet.
    pub fn new(budget: ScanCount, wait_secs: u64) -> (c: RoundController)
        ensures
            c == RoundController::spec_new(budget, wait_secs),
    {
        RoundController { budget, phase: Phase::Resting, wait_secs }
    }

    /// The answer to an event, or `None` for an event that is out of turn.
    pub open spec fn answer(self, event: ControllerEvent) -> Option<ControllerAction> {
        match (self.phase, event) {
            (Phase::Stopped, _) => Some(ControllerAction::Stop),
            (Phase::Resting, ControllerEvent::Wake) => if self.budget.is_spent() {
                Some(ControllerAction::Stop)
            } else {
                Some(ControllerAction::ScanRound)
            },
            (Phase::Scanning, ControllerEvent::RoundFinished { consumer_attached }) => if consumer_attached {
                Some(ControllerAction::Sleep { secs: self.wait_secs })
            } else {
                Some(ControllerAction::Stop)
            },
            _ => None,
        }
    }

    /// The controller after an event. An event out of turn changes nothing.
    /// The end of a round takes one round off the budget.
    pub open spec fn after(self, event: ControllerEvent) -> RoundController {
        match (self.phase, event) {
            (Phase::Resting, ControllerEvent::Wake) => RoundController {
                phase: if self.budget.is_spent() {
                    Phase::Stopped
                } else {
                    Phase::Scanning
                },
                ..self
            },
            (Phase::Scanning, ControllerEvent::RoundFinished { consumer_attached }) => RoundController {
                phase: if consumer_attached {
                    Phase::Resting
                } else {
                    Phase::Stopped
                },
                budget: self.budget.after_round(),
                ..self
            },
            _ => self,
        }
    }

    /// Takes in one event and says what to do about it. `None` is the answer
    /// to an event that is out of turn: a wake-up while a round runs, or the
    /// end of a round while none runs.
    pub fn step(&mut self, event: ControllerEvent) -> (action: Option<ControllerAction>)
        ensures
            action == old(self).answer(event),
            *final(self) == old(self).after(event),
    {
        match self.phase {
            Phase::Stopped => Some(ControllerAction::Stop),
            Phase::Resting => match event {
                ControllerEvent::Wake => {
                    let spent = match self.budget {
                        ScanCount::Limited(n) => n == 0,
                        ScanCount::Infinite => false,
                    };
                    if spent {
                        self.phase = Phase::Stopped;
                        Some(ControllerAction::Stop)
                    } else {
                        self.phase = Phase::Scanning;
                        Some(ControllerAction::ScanRound)
                    }
                },
                ControllerEvent::RoundFinished { .. } => None,
            },
            Phase::Scanning => match event {
                ControllerEvent::RoundFinished { consumer_attached } => {
                    self.budget = match self.budget {
                        ScanCount::Infinite => ScanCount::Infinite,
                        ScanCount::Limited(n) => if n == 0 {
                            ScanCount::Limited(0)
                        } else {
                            ScanCount::Limited(n - 1)
                        },
                    };
                    if consumer_attached {
                        self.phase = Phase::Resting;
                        Some(ControllerAction::Sleep { secs: self.wait_secs })
                    } else {
                        self.phase = Phase::Stopped;
                        Some(ControllerAction::Stop)
                    }
                },
                ControllerEvent::Wake => None,
            },
        }
    }

    /// Whether the scan is over.
    pub fn is_stopped(&self) -> (stopped: bool)
        ensures
            stopped == (self.phase == Phase::Stopped),
    {
        match self.phase {
            Phase::Stopped => true,
            _ => false,
        }
    }

    /// The controller after a run of events.
    pub open spec fn run(self, events: Seq<ControllerEvent>) -> RoundController
        decreases events.len(),
    {
        if events.len() == 0 {
            self
        } else {
            self.run(events.drop_last()).after(events.last())
        }
    }

    /// The answer to the last of a run of events.
    pub open spec fn last_answer(self, events: Seq<ControllerEvent>) -> Option<ControllerAction>
        recommends
            events.len() > 0,
    {
        self.run(events.drop_last()).answer(events.last())
    }
}

/// The events of a driver that does as it is told while the consumer stays
/// attached: a wake-up, the end of a round, a wake-up, and so on.
pub open spec fn attached_events(len: nat) -> Seq<ControllerEvent> {
    Seq::new(
        len,
        |i: int|
            if i % 2 == 0 {
                ControllerEvent::Wake
            } else {
                ControllerEvent::RoundFinished { consumer_attached: true }
            },
    )
}

/// Whether the consumer is gone at the end of every round in a run of events.
pub open spec fn never_attached(events: Seq<ControllerEvent>) -> bool {
    forall|i: int|
        0 <= i < events.len() ==> #[trigger] events[i] != (ControllerEvent::RoundFinished {
            consumer_attached: true,
        })
}

/// How many rounds a run of events starts.
pub open spec fn rounds_started(c: RoundController, events: Seq<ControllerEvent>) -> nat
    decreases events.len(),
{
    if events.len() == 0 {
        0
    } else {
        let earlier = rounds_started(c, events.drop_last());
        if c.last_answer(events) == Some(ControllerAction::ScanRound) {
            earlier + 1
        } else {
            earlier
        }
    }
}

/// A scan limited to `n` rounds, with the consumer attached throughout, runs
/// a round and pauses, `n` times over, and then stops: among the first
/// `2 * n` answers every odd one is a round and every even one the configured
/// pause, and every answer after them is the end of the scan.
pub proof fn lemma_limited_runs_exactly(n: u32, wait_secs: u64, len: nat)
    requires
        len > 0,
    ensures
        RoundController::spec_new(ScanCount::Limited(n), wait_secs).last_answer(
            attached_events(len),
        ) == Some(
            if len > 2 * n {
                ControllerAction::Stop
            } else if len % 2 == 1 {
                ControllerAction::ScanRound
            } else {
                ControllerAction::Sleep { secs: wait_secs }
            },
        ),
{
    lemma_limited_state(n, wait_secs, (len - 1) as nat);
    assert(attached_events(len).drop_last() =~= attached_events((len - 1) as nat));
}

/// Where a scan limited to `n` rounds stands after `len` events of a driver
/// that does as it is told.
proof fn lemma_limited_state(n: u32, wait_secs: u64, len: nat)
    ensures
        RoundController::spec_new(ScanCount::Limited(n), wait_secs).run(attached_events(len))
            == (RoundController {
            budget: ScanCount::Limited(
                if len > 2 * n {
                    0u32
                } else {
                    (n - len / 2) as u32
                },
            ),
            phase: if len > 2 * n {
                Phase::Stopped
            } else if len % 2 == 1 {
                Phase::Scanning
            } else {
                Phase::Resting
            },
            wait_secs,
        }),
    decreases len,
{
    if len > 0 {
        lemma_limited_state(n, wait_secs, (len - 1) as nat);
        assert(attached_events(len).drop_last() =~= attached_events((len - 1) as nat));
    }
}

/// A scan without a limit, with the consumer attached throughout, never
/// stops: every odd answer is a round and every even one the configured
/// pause.
pub proof fn lemma_infinite_never_stops(wait_secs: u64, len: nat)
    requires
        len > 0,
    ensures
        RoundController::spec_new(ScanCount::Infinite, wait_secs).last_answer(
            attached_events(len),
        ) == Some(
            if len % 2 == 1 {
                ControllerAction::ScanRound
            } else {
                ControllerAction::Sleep { secs: wait_secs }
            },
        ),
{
    lemma_infinite_state(wait_secs, (len - 1) as nat);
    assert(attached_events(len).drop_last() =~= attached_events((len - 1) as nat));
}

/// Where a scan without a limit stands after `len` events of a driver that
/// does as it is told.
proof fn lemma_infinite_state(wait_secs: u64, len: nat)
    ensures
        RoundController::spec_new(ScanCount::Infinite, wait_secs).run(attached_events(len)) == (
        RoundController {
            budget: ScanCount::Infinite,
            phase: if len % 2 == 1 {
                Phase::Scanning
            } else {
                Phase::Resting
            },
            wait_secs,
        }),
    decreases len,
{
    if len > 0 {
        lemma_infinite_state(wait_secs, (len - 1) as nat);
        assert(attached_events(len).drop_last() =~= attached_events((len - 1) as nat));
    }
}

/// Whatever the events, a scan limited to `n` rounds never starts more than
/// `n` of them.
pub proof fn lemma_limited_rounds_bound(n: u32, wait_secs: u64, events: Seq<ControllerEvent>)
    ensures
        rounds_started(RoundController::spec_new(ScanCount::Limited(n), wait_secs), events) <= n,
{
    lemma_limited_budget(n, wait_secs, events);
}

/// The rounds started and the rounds left add up to the limit, a round that
/// runs being counted on both sides.
proof fn lemma_limited_budget(n: u32, wait_secs: u64, events: Seq<ControllerEvent>)
    ensures
        ({
            let c = RoundController::spec_new(ScanCount::Limited(n), wait_secs);
            let now = c.run(events);
            &&& now.budget is Limited
            &&& now.phase == Phase::Scanning ==> now.budget->Limited_0 >= 1
            &&& rounds_started(c, events) + now.budget->Limited_0 == n + (if now.phase
                == Phase::Scanning {
                1int
            } else {
                0int
            })
        }),
    decreases events.len(),
{
    if events.len() > 0 {
        lemma_limited_budget(n, wait_secs, events.drop_last());
    }
}

/// Once the scan is over it stays over: every later answer is `Stop`, and no
/// round starts.
pub proof fn lemma_stopped_stays(c: RoundController, events: Seq<ControllerEvent>)
    requires
        c.phase == Phase::Stopped,
    ensures
        c.run(events) == c,
        rounds_started(c, events) == 0,
        events.len() > 0 ==> c.last_answer(events) == Some(ControllerAction::Stop),
    decreases events.len(),
{
    if events.len() > 0 {
        lemma_stopped_stays(c, events.drop_last());
    }
}

/// A round that ends with the consumer gone ends the scan. From any state,
/// if the consumer is gone at the end of every round, at most one more round
/// starts, and none once a round has ended.
pub proof fn lemma_detached_stops_within_a_round(
    c: RoundController,
    events: Seq<ControllerEvent>,
)
    requires
        never_attached(events),
    ensures
        rounds_started(c, events) <= 1,
        c.phase != Phase::Resting ==> rounds_started(c, events) == 0,
        rounds_started(c, events) == 1 ==> c.run(events).phase != Phase::Resting,
    decreases events.len(),
{
    if events.len() > 0 {
        let init = events.drop_last();
        lemma_detached_stops_within_a_round(c, init);
        lemma_run_phases(c, init);
    }
}

/// A controller that is not resting can only come to rest through the end of
/// a round with the consumer attached.
proof fn lemma_run_phases(c: RoundController, events: Seq<ControllerEvent>)
    requires
        never_attached(events),
    ensures
        c.phase != Phase::Resting ==> c.run(events).phase != Phase::Resting,
        c.run(events).wait_secs == c.wait_secs,
    decreases events.len(),
{
    if events.len() > 0 {
        let init = events.drop_last();
        lemma_run_phases(c, init);
    }
}

/// Between two rounds lies the configured pause. Whatever the events before,
/// a round starts only on a wake-up, and only if no round has started yet or
/// the controller has asked for a pause of `wait_secs` seconds since the
/// last one started.
pub proof fn lemma_rounds_are_paced(
    c: RoundController,
    events: Seq<ControllerEvent>,
    event: ControllerEvent,
)
    requires
        c.phase == Phase::Resting,
        c.run(events).answer(event) == Some(ControllerAction::ScanRound),
    ensures
        event == ControllerEvent::Wake,
        c.run(events).phase == Phase::Resting,
        rounds_started(c, events) == 0 || exists|k: int|
            0 < k <= events.len() && #[trigger] c.last_answer(events.take(k)) == Some(
                ControllerAction::Sleep { secs: c.wait_secs },
            ) && rounds_started(c, events) == rounds_started(c, events.take(k)),
{
    lemma_paced_state(c, events);
}

/// A controller that started at rest and rests again has either started no
/// round, or has asked for the configured pause since its last round.
proof fn lemma_paced_state(c: RoundController, events: Seq<ControllerEvent>)
    requires
        c.phase == Phase::Resting,
    ensures
        c.run(events).wait_secs == c.wait_secs,
        c.run(events).phase == Phase::Resting ==> rounds_started(c, events) == 0 || exists|k: int|
            0 < k <= events.len() && #[trigger] c.last_answer(events.take(k)) == Some(
                ControllerAction::Sleep { secs: c.wait_secs },
            ) && rounds_started(c, events) == rounds_started(c, events.take(k)),
    decreases events.len(),
{
    if events.len() > 0 {
        let init = events.drop_last();
        let before = c.run(init);
        lemma_paced_state(c, init);
        assert(events.take(events.len() as int) =~= events);
        if c.run(events).phase == Phase::Resting {
            if before.phase == Phase::Resting {
                // The last event was out of turn and changed nothing.
                if rounds_started(c, init) != 0 {
                    let k = choose|k: int|
                        0 < k <= init.len() && #[trigger] c.last_answer(init.take(k)) == Some(
                            ControllerAction::Sleep { secs: c.wait_secs },
                        ) && rounds_started(c, init) == rounds_started(c, init.take(k));
                    assert(events.take(k) =~= init.take(k));
                }
            }
        }
    }
}

} // verus!
