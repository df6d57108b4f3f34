use station::address::{ipv4, Endpoint};
use station::controller::{ControllerAction, ControllerEvent};
use station::dispatcher::Launch;
use station::interface::{InterfaceAddr, NetworkInterface};
use station::scanner::{PeerExclusion, ScanBuilder, ScanCount, ScanEngine};

fn interface(name: &str, addr: u32, netmask: u32) -> NetworkInterface {
    NetworkInterface {
        name: name.to_string(),
        friendly_name: None,
        ipv4: vec![InterfaceAddr { addr, netmask }],
    }
}

/// Runs one round with every attempt ending at once, and hands back the
/// targets dialed and those among them where `listening` answers.
fn run_round(
    engine: &ScanEngine,
    default_interface: Option<NetworkInterface>,
    listed: Vec<NetworkInterface>,
    listening: &[Endpoint],
) -> (Vec<Endpoint>, Vec<Endpoint>) {
    let mut round = engine.plan_round(default_interface, listed);
    let mut dialed = Vec::new();
    let mut connected = Vec::new();
    while !round.is_complete() {
        match round.next_attempt(true) {
            Launch::Dial(c) => {
                dialed.push(c.target);
                if listening.contains(&c.target) {
                    connected.push(c.target);
                }
            }
            Launch::Wait | Launch::Drained => round.attempt_finished(),
        }
    }
    (dialed, connected)
}

#[test]
fn end_to_end_one_round_finds_the_listener() {
    let mut engine =
        ScanBuilder::default().scan_count(ScanCount::Limited(1)).add_port(9000).dispatch();
    let eth = interface("eth0", ipv4(10, 0, 0, 5), ipv4(255, 255, 255, 0));
    let listener = Endpoint { host: ipv4(10, 0, 0, 7), port: 9000 };

    assert_eq!(engine.step(ControllerEvent::Wake), Some(ControllerAction::ScanRound));
    let (dialed, connected) = run_round(&engine, Some(eth.clone()), vec![eth], &[listener]);
    assert_eq!(dialed.len(), 254);
    assert_eq!(connected, vec![listener]);

    assert_eq!(
        engine.step(ControllerEvent::RoundFinished { consumer_attached: true }),
        Some(ControllerAction::Sleep { secs: 5 })
    );
    assert_eq!(engine.step(ControllerEvent::Wake), Some(ControllerAction::Stop));
    assert!(engine.is_stopped());
}

#[test]
fn round_binds_every_attempt_to_the_interface_address() {
    let engine = ScanBuilder::default().add_port(80).dispatch();
    let eth = interface("eth0", ipv4(10, 0, 0, 5), ipv4(255, 255, 255, 252));
    let wlan = interface("wlan0", ipv4(192, 168, 1, 20), ipv4(255, 255, 255, 252));
    let mut round = engine.plan_round(None, vec![eth, wlan]);
    let mut seen = Vec::new();
    while let Launch::Dial(c) = round.next_attempt(true) {
        assert_eq!(c.local.port, 0);
        seen.push((c.local.host, c.target.host));
    }
    assert_eq!(
        seen,
        vec![
            (ipv4(10, 0, 0, 5), ipv4(10, 0, 0, 5)),
            (ipv4(10, 0, 0, 5), ipv4(10, 0, 0, 6)),
            (ipv4(192, 168, 1, 20), ipv4(192, 168, 1, 21)),
            (ipv4(192, 168, 1, 20), ipv4(192, 168, 1, 22)),
        ]
    );
}

#[test]
fn pre_excluded_endpoints_are_never_dialed() {
    let excluded = vec![
        Endpoint { host: ipv4(10, 0, 0, 7), port: 9000 },
        Endpoint { host: ipv4(10, 0, 0, 200), port: 9001 },
    ];
    let engine = ScanBuilder::default()
        .excluded_peers(PeerExclusion::PreExcluded(excluded.clone()))
        .add_port(9000)
        .add_port(9001)
        .dispatch();
    let eth = interface("eth0", ipv4(10, 0, 0, 5), ipv4(255, 255, 255, 0));
    let (dialed, connected) = run_round(&engine, None, vec![eth], &excluded);
    assert_eq!(dialed.len(), 2 * 254 - 2);
    assert!(connected.is_empty());
    for e in &excluded {
        assert!(!dialed.contains(e));
    }
    assert!(dialed.contains(&Endpoint { host: ipv4(10, 0, 0, 7), port: 9001 }));
    assert!(dialed.contains(&Endpoint { host: ipv4(10, 0, 0, 200), port: 9000 }));
}

#[test]
fn never_excluding_dials_everything() {
    let engine =
        ScanBuilder::default().excluded_peers(PeerExclusion::Never).add_port(9000).dispatch();
    let eth = interface("eth0", ipv4(10, 0, 0, 5), ipv4(255, 255, 255, 0));
    let (dialed, _) = run_round(&engine, None, vec![eth], &[]);
    assert_eq!(dialed.len(), 254);
}

#[test]
fn loopback_only_interface_contributes_no_candidate() {
    let engine = ScanBuilder::default().add_port(9000).dispatch();
    let lo = interface("lo", ipv4(127, 0, 0, 1), ipv4(255, 0, 0, 0));
    let round = engine.plan_round(Some(lo.clone()), vec![lo]);
    assert!(round.is_complete());
    assert_eq!(round.remaining(), 0);
}

#[test]
fn no_interface_means_an_empty_round() {
    let engine = ScanBuilder::default().add_port(9000).dispatch();
    let round = engine.plan_round(None, vec![]);
    assert!(round.is_complete());
}

#[test]
fn no_port_means_an_empty_round() {
    let engine = ScanBuilder::default().dispatch();
    let eth = interface("eth0", ipv4(10, 0, 0, 5), ipv4(255, 255, 255, 0));
    let round = engine.plan_round(None, vec![eth]);
    assert!(round.is_complete());
}

#[test]
fn no_permit_means_an_empty_round() {
    let engine = ScanBuilder::default().parallel_attempts(0).add_port(9000).dispatch();
    let eth = interface("eth0", ipv4(10, 0, 0, 5), ipv4(255, 255, 255, 0));
    let mut round = engine.plan_round(None, vec![eth]);
    assert!(round.is_complete());
    assert_eq!(round.next_attempt(true), Launch::Drained);
}

#[test]
fn default_builder_allows_a_thousand_attempts_at_once() {
    let engine = ScanBuilder::default().add_port(1).add_port(2).add_port(3).add_port(4).add_port(5).dispatch();
    let eth = interface("eth0", ipv4(10, 0, 0, 5), ipv4(255, 255, 255, 0));
    let mut round = engine.plan_round(None, vec![eth]);
    assert_eq!(round.permits(), 1000);
    let mut dialed = 0;
    while let Launch::Dial(_) = round.next_attempt(true) {
        dialed += 1;
    }
    assert_eq!(dialed, 1000);
    assert_eq!(round.next_attempt(true), Launch::Wait);
    assert_eq!(round.remaining(), 5 * 254 - 1000);
}

#[test]
fn parallel_attempts_bounds_the_round() {
    let engine = ScanBuilder::default().parallel_attempts(3).add_port(9000).dispatch();
    let eth = interface("eth0", ipv4(10, 0, 0, 5), ipv4(255, 255, 255, 0));
    let mut round = engine.plan_round(None, vec![eth]);
    let mut most = 0;
    let mut dialed = 0;
    while !round.is_complete() {
        match round.next_attempt(true) {
            Launch::Dial(_) => dialed += 1,
            Launch::Wait | Launch::Drained => round.attempt_finished(),
        }
        most = most.max(round.in_flight());
    }
    assert_eq!(most, 3);
    assert_eq!(dialed, 254);
}

#[test]
fn default_builder_runs_one_round_with_five_seconds_pause() {
    let mut engine = ScanBuilder::default().dispatch();
    assert_eq!(engine.step(ControllerEvent::Wake), Some(ControllerAction::ScanRound));
    assert_eq!(
        engine.step(ControllerEvent::RoundFinished { consumer_attached: true }),
        Some(ControllerAction::Sleep { secs: 5 })
    );
    assert_eq!(engine.step(ControllerEvent::Wake), Some(ControllerAction::Stop));
}

#[test]
fn infinite_scan_stops_when_the_consumer_leaves() {
    let mut engine = ScanBuilder::default().scan_count(ScanCount::Infinite).add_port(1000).dispatch();
    for _ in 0..10 {
        assert_eq!(engine.step(ControllerEvent::Wake), Some(ControllerAction::ScanRound));
        assert_eq!(
            engine.step(ControllerEvent::RoundFinished { consumer_attached: true }),
            Some(ControllerAction::Sleep { secs: 5 })
        );
    }
    assert!(!engine.is_stopped());
    assert_eq!(engine.step(ControllerEvent::Wake), Some(ControllerAction::ScanRound));
    assert_eq!(
        engine.step(ControllerEvent::RoundFinished { consumer_attached: false }),
        Some(ControllerAction::Stop)
    );
    assert!(engine.is_stopped());
}

#[test]
fn each_round_reads_the_snapshot_it_is_given() {
    let engine = ScanBuilder::default().scan_count(ScanCount::Limited(2)).add_port(9000).dispatch();
    let first = interface("eth0", ipv4(10, 0, 0, 5), ipv4(255, 255, 255, 252));
    let second = interface("eth0", ipv4(10, 0, 9, 5), ipv4(255, 255, 255, 252));
    let (dialed, _) = run_round(&engine, None, vec![first], &[]);
    assert_eq!(
        dialed,
        vec![
            Endpoint { host: ipv4(10, 0, 0, 5), port: 9000 },
            Endpoint { host: ipv4(10, 0, 0, 6), port: 9000 },
        ]
    );
    let (dialed, _) = run_round(&engine, None, vec![second], &[]);
    assert_eq!(
        dialed,
        vec![
            Endpoint { host: ipv4(10, 0, 9, 5), port: 9000 },
            Endpoint { host: ipv4(10, 0, 9, 6), port: 9000 },
        ]
    );
}

#[test]
fn default_interface_is_scanned_once() {
    let engine = ScanBuilder::default().add_port(9000).dispatch();
    let eth = interface("eth0", ipv4(10, 0, 0, 5), ipv4(255, 255, 255, 252));
    let (dialed, _) = run_round(&engine, Some(eth.clone()), vec![eth.clone(), eth], &[]);
    assert_eq!(dialed.len(), 2);
}

#[test]
fn connect_once_dials_a_found_peer_again_in_the_next_round() {
    let engine = ScanBuilder::default()
        .scan_count(ScanCount::Limited(2))
        .excluded_peers(PeerExclusion::ConnectOnce)
        .add_port(9000)
        .dispatch();
    let eth = interface("eth0", ipv4(10, 0, 0, 5), ipv4(255, 255, 255, 0));
    let listener = Endpoint { host: ipv4(10, 0, 0, 7), port: 9000 };
    let (_, connected) = run_round(&engine, None, vec![eth.clone()], &[listener]);
    assert_eq!(connected, vec![listener]);
    let (_, connected) = run_round(&engine, None, vec![eth], &[listener]);
    assert_eq!(connected, vec![listener]);
}

#[test]
fn loopback_pair_does_not_hide_the_pair_behind_it() {
    let engine = ScanBuilder::default().add_port(9000).dispatch();
    let odd = NetworkInterface {
        name: "odd0".to_string(),
        friendly_name: None,
        ipv4: vec![
            InterfaceAddr { addr: ipv4(127, 0, 0, 1), netmask: ipv4(255, 0, 0, 0) },
            InterfaceAddr { addr: ipv4(10, 0, 0, 5), netmask: ipv4(255, 255, 255, 252) },
        ],
    };
    let mut round = engine.plan_round(None, vec![odd]);
    let mut seen = Vec::new();
    while let Launch::Dial(c) = round.next_attempt(true) {
        seen.push((c.local, c.target));
    }
    let local = Endpoint { host: ipv4(10, 0, 0, 5), port: 0 };
    assert_eq!(
        seen,
        vec![
            (local, Endpoint { host: ipv4(10, 0, 0, 5), port: 9000 }),
            (local, Endpoint { host: ipv4(10, 0, 0, 6), port: 9000 }),
        ]
    );
}

#[test]
fn every_pair_of_an_interface_is_scanned_from_its_own_address() {
    let engine = ScanBuilder::default().add_port(22).dispatch();
    let eth = NetworkInterface {
        name: "eth0".to_string(),
        friendly_name: None,
        ipv4: vec![
            InterfaceAddr { addr: ipv4(10, 0, 0, 5), netmask: ipv4(255, 0, 255, 0) },
            InterfaceAddr { addr: ipv4(10, 0, 0, 1), netmask: ipv4(255, 255, 255, 254) },
            InterfaceAddr { addr: ipv4(192, 168, 1, 9), netmask: u32::MAX },
        ],
    };
    let mut round = engine.plan_round(Some(eth.clone()), vec![eth]);
    let mut seen = Vec::new();
    while let Launch::Dial(c) = round.next_attempt(true) {
        assert_eq!(c.local.port, 0);
        assert_eq!(c.target.port, 22);
        seen.push((c.local.host, c.target.host));
    }
    assert_eq!(
        seen,
        vec![
            (ipv4(10, 0, 0, 1), ipv4(10, 0, 0, 0)),
            (ipv4(10, 0, 0, 1), ipv4(10, 0, 0, 1)),
            (ipv4(192, 168, 1, 9), ipv4(192, 168, 1, 9)),
        ]
    );
}

#[test]
fn wait_time_sets_the_pause_between_rounds() {
    let mut engine =
        ScanBuilder::default().scan_count(ScanCount::Limited(2)).wait_time(30).dispatch();
    assert_eq!(engine.step(ControllerEvent::Wake), Some(ControllerAction::ScanRound));
    assert_eq!(
        engine.step(ControllerEvent::RoundFinished { consumer_attached: true }),
        Some(ControllerAction::Sleep { secs: 30 })
    );
    let mut engine = ScanBuilder::default().wait_time(0).dispatch();
    engine.step(ControllerEvent::Wake);
    assert_eq!(
        engine.step(ControllerEvent::RoundFinished { consumer_attached: true }),
        Some(ControllerAction::Sleep { secs: 0 })
    );
}
