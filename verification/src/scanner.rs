//! The configuration of a scan, and the engine that a configuration starts.

use crate::address::{spec_is_loopback, Endpoint};
use crate::candidate::{
    bind_endpoint, is_round_candidate, lemma_round_candidates_contain, list_candidates,
    round_candidates, Candidate,
};
pub use crate::controller::ScanCount;
use crate::controller::{ControllerAction, ControllerEvent, Phase, RoundController};
use crate::dispatcher::{
    always_attached, lemma_complete_round_dialed_all, lemma_run_keeps_candidates, DispatchEvent,
    DispatchState, Launch, RoundDispatcher,
};
use crate::exclusion::ExclusionSet;
pub use crate::exclusion::PeerExclusion;
use crate::interface::{
    first_by_name, lemma_loopback_interface_contributes_nothing, lemma_scan_subnets_contain,
    merge_interfaces, scan_subnets, spec_scan_subnets, with_default, NetworkInterface,
};
use crate::subnet::Subnet;
use vstd::prelude::*;

verus! {

/// A scan's configuration as the contracts see it.
pub struct ScanConfig {
    pub scan_count: ScanCount,
    /// The ports that every host is tried at, in the order they were added.
    pub ports: Seq<u16>,
    /// The rule by which endpoints are kept out of the scan.
    pub excluded_peers: PeerExclusion,
    /// How many connect attempts may run at once.
    pub parallel_attempts: usize,
    /// The pause between two rounds, in seconds.
    pub wait_secs: u64,
}

/// Collects the configuration of a scan.
pub struct ScanBuilder {
    scan_count: ScanCount,
    tgt_ports: Vec<u16>,
    excluded_peers: PeerExclusion,
    parallel_attempts: usize,
    wait_secs: u64,
}

impl View for ScanBuilder {
    type V = ScanConfig;

    closed spec fn view(&self) -> ScanConfig {
        ScanConfig {
            scan_count: self.scan_count,
            ports: self.tgt_ports@,
            excluded_peers: self.excluded_peers,
            parallel_attempts: self.parallel_attempts,
            wait_secs: self.wait_secs,
        }
    }
}

impl Default for ScanBuilder {
    /// One round, no ports yet, `ConnectOnce`, a thousand attempts at once,
    /// five seconds between rounds.
    fn default() -> (builder: ScanBuilder)
        ensures
            builder@ == (ScanConfig {
                scan_count: ScanCount::Limited(1),
                ports: Seq::empty(),
                excluded_peers: PeerExclusion::ConnectOnce,
                parallel_attempts: 1000,
                wait_secs: 5,
            }),
    {
        ScanBuilder {
            scan_count: ScanCount::Limited(1),
            tgt_ports: Vec::new(),
            excluded_peers: PeerExclusion::ConnectOnce,
            parallel_attempts: 1000,
            wait_secs: 5,
        }
    }
}

impl ScanBuilder {
    /// Sets how many rounds the scan may run.
    pub fn scan_count(self, scan_count: ScanCount) -> (builder: ScanBuilder)
        ensures
            builder@ == (ScanConfig { scan_count, ..self@ }),
    {
        let mut builder = self;
        builder.scan_count = scan_count;
        builder
    }

    /// Sets the rule by which endpoints are kept out of the scan.
    pub fn excluded_peers(self, peers: PeerExclusion) -> (builder: ScanBuilder)
        ensures
            builder@ == (ScanConfig { excluded_peers: peers, ..self@ }),
    {
        let mut builder = self;
        builder.excluded_peers = peers;
        builder
    }

    /// Sets how many connect attempts may run at once.
    pub fn parallel_attempts(self, parallel_attempts: usize) -> (builder: ScanBuilder)
        ensures
            builder@ == (ScanConfig { parallel_attempts, ..self@ }),
    {
        let mut builder = self;
        builder.parallel_attempts = parallel_attempts;
        builder
    }

    /// Sets the pause between two rounds, in seconds.
    pub fn wait_time(self, wait_secs: u64) -> (builder: ScanBuilder)
        ensures
            builder@ == (ScanConfig { wait_secs, ..self@ }),
    {
        let mut builder = self;
        builder.wait_secs = wait_secs;
        builder
    }

    /// Adds a port that every host is tried at.
    pub fn add_port(self, port: u16) -> (builder: ScanBuilder)
        ensures
            builder@ == (ScanConfig { ports: self@.ports.push(port), ..self@ }),
    {
        let mut builder = self;
        builder.tgt_ports.push(port);
        builder
    }

    /// Starts the scan: hands back the engine, at rest before its first
    /// round, with the exclusion set built once for all rounds.
    pub fn dispatch(self) -> (engine: ScanEngine)
        ensures
            engine@.config == self@,
            engine@.controller == RoundController::spec_new(self@.scan_count, self@.wait_secs),
    {
        let excluded = ExclusionSet::from_policy(&self.excluded_peers);
        ScanEngine {
            scan_count: self.scan_count,
            ports: self.tgt_ports,
            excluded_peers: self.excluded_peers,
            excluded,
            permits: self.parallel_attempts,
            controller: RoundController::new(self.scan_count, self.wait_secs),
        }
    }
}

/// A running scan as the contracts see it.
pub struct EngineState {
    /// What the scan was started with. It never changes.
    pub config: ScanConfig,
    pub controller: RoundController,
}

impl ScanConfig {
    /// The endpoints that are never dialed.
    pub open spec fn excluded(self) -> Set<Endpoint> {
        self.excluded_peers.excluded()
    }

    /// The attempts of a round over a snapshot of the interfaces: those of
    /// the subnets of the interfaces that no earlier one shares its name
    /// with.
    pub open spec fn round_plan(self, interfaces: Seq<NetworkInterface>) -> Seq<Candidate> {
        round_candidates(
            spec_scan_subnets(first_by_name(interfaces)),
            self.ports,
            self.excluded(),
        )
    }
}

/// A running scan: its configuration and where it stands between rounds.
pub struct ScanEngine {
    scan_count: ScanCount,
    ports: Vec<u16>,
    excluded_peers: PeerExclusion,
    excluded: ExclusionSet,
    permits: usize,
    controller: RoundController,
}

impl View for ScanEngine {
    type V = EngineState;

    closed spec fn view(&self) -> EngineState {
        EngineState {
            config: ScanConfig {
                scan_count: self.scan_count,
                ports: self.ports@,
                excluded_peers: self.excluded_peers,
                parallel_attempts: self.permits,
                wait_secs: self.controller.wait_secs,
            },
            controller: self.controller,
        }
    }
}

impl ScanEngine {
    /// The exclusion set is the one that the rule starts a scan with.
    #[verifier::type_invariant]
    spec fn holds_its_exclusions(&self) -> bool {
        self.excluded@ == self.excluded_peers.excluded()
    }

    /// Takes in what happened and says what to do next. See
    /// `RoundController::step`.
    pub fn step(&mut self, event: ControllerEvent) -> (action: Option<ControllerAction>)
        ensures
            action == old(self)@.controller.answer(event),
            final(self)@.controller == old(self)@.controller.after(event),
            final(self)@.config == old(self)@.config,
    {
        proof {
            use_type_invariant(&*self);
        }
        let mut controller = self.controller;
        let action = controller.step(event);
        self.controller = controller;
        action
    }

    /// Whether the scan is over.
    pub fn is_stopped(&self) -> (stopped: bool)
        ensures
            stopped == (self@.controller.phase == Phase::Stopped),
    {
        self.controller.is_stopped()
    }

    /// Plans one round over a fresh snapshot of the interfaces: the default
    /// interface, if the platform names one, and the full listing.
    pub fn plan_round(
        &self,
        default_interface: Option<NetworkInterface>,
        listed: Vec<NetworkInterface>,
    ) -> (round: RoundDispatcher)
        ensures
            round.wf(),
            round@ == DispatchState::start(
                self@.config.round_plan(with_default(default_interface, listed@)),
                self@.config.parallel_attempts as nat,
            ),
    {
        proof {
            use_type_invariant(self);
        }
        let interfaces = merge_interfaces(default_interface, listed);
        let subnets = scan_subnets(&interfaces);
        let candidates = list_candidates(&subnets, &self.ports, &self.excluded);
        RoundDispatcher::new(candidates, self.permits)
    }
}

/// A snapshot that holds nothing but an interface without an address, or with
/// loopback addresses only, gives a round nothing to dial.
pub proof fn lemma_loopback_only_plans_nothing(config: ScanConfig, interface: NetworkInterface)
    requires
        forall|i: int|
            0 <= i < interface.ipv4@.len() ==> spec_is_loopback(
                (#[trigger] interface.ipv4@[i]).addr,
            ),
    ensures
        config.round_plan(seq![interface]).len() == 0,
{
    let one = seq![interface];
    assert(first_by_name(one.drop_last()) =~= Seq::<NetworkInterface>::empty());
    lemma_loopback_interface_contributes_nothing(Seq::empty(), interface);
}

/// Whatever the driver does during a round, every attempt that the round
/// hands out is one of its plan: it pairs a host of a scanned subnet with a
/// listed port, and its target is not excluded.
pub proof fn lemma_round_dials_only_its_plan(
    config: ScanConfig,
    interfaces: Seq<NetworkInterface>,
    events: Seq<DispatchEvent>,
    consumer_attached: bool,
    c: Candidate,
)
    requires
        DispatchState::start(config.round_plan(interfaces), config.parallel_attempts as nat).run(
            events,
        ).launch_answer(consumer_attached) == Launch::Dial(c),
    ensures
        is_round_candidate(
            spec_scan_subnets(first_by_name(interfaces)),
            config.ports,
            config.excluded(),
            c,
        ),
        !config.excluded().contains(c.target),
{
    let plan = config.round_plan(interfaces);
    let permits = config.parallel_attempts as nat;
    lemma_run_keeps_candidates(DispatchState::start(plan, permits), events);
    lemma_round_candidates_contain(
        spec_scan_subnets(first_by_name(interfaces)),
        config.ports,
        config.excluded(),
        c,
    );
}

/// A round that runs to its end with the consumer attached has dialed every
/// listener it could reach: where some pair of a kept interface contributes a
/// subnet with `host` among its hosts, `port` is a listed port and the
/// endpoint is not excluded, the round has handed out an attempt at that
/// endpoint, bound to the address of that pair.
pub proof fn lemma_complete_round_reaches(
    config: ScanConfig,
    interfaces: Seq<NetworkInterface>,
    events: Seq<DispatchEvent>,
    interface: NetworkInterface,
    subnet: Subnet,
    host: u32,
    port: u16,
)
    requires
        config.parallel_attempts > 0,
        always_attached(events),
        DispatchState::start(config.round_plan(interfaces), config.parallel_attempts as nat).run(
            events,
        ).is_complete(),
        first_by_name(interfaces).contains(interface),
        interface.contributes(subnet),
        subnet.has_host(host),
        config.ports.contains(port),
        !config.excluded().contains(Endpoint { host, port }),
    ensures
        ({
            let end = DispatchState::start(
                config.round_plan(interfaces),
                config.parallel_attempts as nat,
            ).run(events);
            exists|k: int|
                0 <= k < end.started && #[trigger] end.candidates[k] == (Candidate {
                    local: bind_endpoint(subnet.addr),
                    target: Endpoint { host, port },
                })
        }),
{
    let plan = config.round_plan(interfaces);
    let permits = config.parallel_attempts as nat;
    let kept = first_by_name(interfaces);
    let subnets = spec_scan_subnets(kept);
    let c = Candidate { local: bind_endpoint(subnet.addr), target: Endpoint { host, port } };
    lemma_complete_round_dialed_all(plan, permits, events);
    lemma_scan_subnets_contain(kept, subnet);
    let j = choose|j: int| 0 <= j < kept.len() && kept[j] == interface;
    assert(kept[j].contributes(subnet));
    let i = choose|i: int| 0 <= i < subnets.len() && subnets[i] == subnet;
    assert(bind_endpoint(subnets[i].addr) == c.local && subnets[i].has_host(c.target.host));
    lemma_round_candidates_contain(subnets, config.ports, config.excluded(), c);
}

} // verus!
