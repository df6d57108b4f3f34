use station::address::{ipv4, Endpoint};
use station::candidate::{list_candidates, Candidate};
use station::dispatcher::{Launch, RoundDispatcher};
use station::exclusion::{ExclusionSet, PeerExclusion};
use station::subnet::Subnet;

fn candidate(local: u32, host: u32, port: u16) -> Candidate {
    Candidate { local: Endpoint { host: local, port: 0 }, target: Endpoint { host, port } }
}

fn some_candidates(n: u32) -> Vec<Candidate> {
    (0..n).map(|i| candidate(ipv4(10, 0, 0, 5), ipv4(10, 0, 1, 0) + i, 80)).collect()
}

#[test]
fn exclusion_never_excludes_nothing() {
    let set = ExclusionSet::from_policy(&PeerExclusion::Never);
    assert!(!set.contains(Endpoint { host: ipv4(10, 0, 0, 7), port: 9000 }));
    assert!(!set.contains(Endpoint { host: 0, port: 0 }));
}

#[test]
fn exclusion_connect_once_starts_empty() {
    let set = ExclusionSet::from_policy(&PeerExclusion::ConnectOnce);
    assert!(!set.contains(Endpoint { host: ipv4(10, 0, 0, 7), port: 9000 }));
}

#[test]
fn exclusion_default_is_connect_once() {
    assert!(matches!(PeerExclusion::default(), PeerExclusion::ConnectOnce));
}

#[test]
fn exclusion_holds_what_was_listed() {
    let listed = vec![
        Endpoint { host: ipv4(10, 0, 0, 7), port: 9000 },
        Endpoint { host: ipv4(10, 0, 0, 8), port: 22 },
        Endpoint { host: ipv4(10, 0, 0, 7), port: 9000 },
    ];
    let set = ExclusionSet::from_policy(&PeerExclusion::PreExcluded(listed));
    assert!(set.contains(Endpoint { host: ipv4(10, 0, 0, 7), port: 9000 }));
    assert!(set.contains(Endpoint { host: ipv4(10, 0, 0, 8), port: 22 }));
    assert!(!set.contains(Endpoint { host: ipv4(10, 0, 0, 7), port: 22 }));
    assert!(!set.contains(Endpoint { host: ipv4(10, 0, 0, 8), port: 9000 }));
    assert!(!set.contains(Endpoint { host: ipv4(10, 0, 0, 9), port: 9000 }));
}

#[test]
fn exclusion_of_an_empty_list_is_empty() {
    let set = ExclusionSet::from_policy(&PeerExclusion::PreExcluded(vec![]));
    assert!(!set.contains(Endpoint { host: ipv4(10, 0, 0, 7), port: 9000 }));
}

#[test]
fn candidates_go_subnet_by_subnet_host_by_host_port_by_port() {
    let a = Subnet::new(ipv4(10, 0, 0, 1), 30).unwrap();
    let b = Subnet::new(ipv4(192, 168, 1, 9), 31).unwrap();
    let none = ExclusionSet::from_policy(&PeerExclusion::Never);
    let out = list_candidates(&vec![a, b], &vec![9000, 22], &none);
    assert_eq!(
        out,
        vec![
            candidate(ipv4(10, 0, 0, 1), ipv4(10, 0, 0, 1), 9000),
            candidate(ipv4(10, 0, 0, 1), ipv4(10, 0, 0, 1), 22),
            candidate(ipv4(10, 0, 0, 1), ipv4(10, 0, 0, 2), 9000),
            candidate(ipv4(10, 0, 0, 1), ipv4(10, 0, 0, 2), 22),
            candidate(ipv4(192, 168, 1, 9), ipv4(192, 168, 1, 8), 9000),
            candidate(ipv4(192, 168, 1, 9), ipv4(192, 168, 1, 8), 22),
            candidate(ipv4(192, 168, 1, 9), ipv4(192, 168, 1, 9), 9000),
            candidate(ipv4(192, 168, 1, 9), ipv4(192, 168, 1, 9), 22),
        ]
    );
}

#[test]
fn candidates_leave_out_the_excluded() {
    let net = Subnet::new(ipv4(10, 0, 0, 1), 30).unwrap();
    let excluded = ExclusionSet::from_policy(&PeerExclusion::PreExcluded(vec![
        Endpoint { host: ipv4(10, 0, 0, 2), port: 9000 },
        Endpoint { host: ipv4(10, 0, 0, 1), port: 22 },
        Endpoint { host: ipv4(10, 0, 0, 77), port: 22 },
    ]));
    let out = list_candidates(&vec![net], &vec![9000, 22], &excluded);
    assert_eq!(
        out,
        vec![
            candidate(ipv4(10, 0, 0, 1), ipv4(10, 0, 0, 1), 9000),
            candidate(ipv4(10, 0, 0, 1), ipv4(10, 0, 0, 2), 22),
        ]
    );
}

#[test]
fn candidates_without_ports_or_subnets_are_none() {
    let net = Subnet::new(ipv4(10, 0, 0, 1), 24).unwrap();
    let none = ExclusionSet::from_policy(&PeerExclusion::Never);
    assert_eq!(list_candidates(&vec![net], &vec![], &none), vec![]);
    assert_eq!(list_candidates(&vec![], &vec![80], &none), vec![]);
}

#[test]
fn candidates_repeat_a_port_that_was_added_twice() {
    let net = Subnet::new(ipv4(10, 0, 0, 9), 32).unwrap();
    let none = ExclusionSet::from_policy(&PeerExclusion::Never);
    let out = list_candidates(&vec![net], &vec![80, 80], &none);
    assert_eq!(
        out,
        vec![
            candidate(ipv4(10, 0, 0, 9), ipv4(10, 0, 0, 9), 80),
            candidate(ipv4(10, 0, 0, 9), ipv4(10, 0, 0, 9), 80),
        ]
    );
}

#[test]
fn dispatcher_hands_out_candidates_in_order() {
    let all = some_candidates(3);
    let mut round = RoundDispatcher::new(all.clone(), 10);
    assert_eq!(round.remaining(), 3);
    assert_eq!(round.next_attempt(true), Launch::Dial(all[0]));
    assert_eq!(round.next_attempt(true), Launch::Dial(all[1]));
    assert_eq!(round.next_attempt(true), Launch::Dial(all[2]));
    assert_eq!(round.next_attempt(true), Launch::Drained);
    assert_eq!(round.in_flight(), 3);
    assert_eq!(round.remaining(), 0);
    assert!(!round.is_complete());
}

#[test]
fn dispatcher_waits_when_every_permit_is_taken() {
    let all = some_candidates(5);
    let mut round = RoundDispatcher::new(all.clone(), 2);
    assert_eq!(round.permits(), 2);
    assert_eq!(round.next_attempt(true), Launch::Dial(all[0]));
    assert_eq!(round.next_attempt(true), Launch::Dial(all[1]));
    assert_eq!(round.next_attempt(true), Launch::Wait);
    assert_eq!(round.next_attempt(true), Launch::Wait);
    assert_eq!(round.in_flight(), 2);
    round.attempt_finished();
    assert_eq!(round.in_flight(), 1);
    assert_eq!(round.next_attempt(true), Launch::Dial(all[2]));
    assert_eq!(round.next_attempt(true), Launch::Wait);
    assert_eq!(round.remaining(), 2);
}

#[test]
fn dispatcher_never_exceeds_its_permits() {
    let permits = 7;
    let mut round = RoundDispatcher::new(some_candidates(100), permits);
    let mut dialed = 0;
    let mut turn = 0u32;
    while !round.is_complete() {
        turn += 1;
        match round.next_attempt(true) {
            Launch::Dial(_) => dialed += 1,
            Launch::Wait => round.attempt_finished(),
            Launch::Drained => round.attempt_finished(),
        }
        if turn % 3 == 0 {
            round.attempt_finished();
        }
        assert!(round.in_flight() <= permits);
    }
    assert_eq!(dialed, 100);
    assert_eq!(round.in_flight(), 0);
    assert_eq!(round.remaining(), 0);
}

#[test]
fn dispatcher_is_complete_when_all_started_have_finished() {
    let mut round = RoundDispatcher::new(some_candidates(2), 1);
    assert!(!round.is_complete());
    assert!(matches!(round.next_attempt(true), Launch::Dial(_)));
    assert!(!round.is_complete());
    round.attempt_finished();
    assert!(!round.is_complete());
    assert!(matches!(round.next_attempt(true), Launch::Dial(_)));
    assert!(!round.is_complete());
    round.attempt_finished();
    assert!(round.is_complete());
    assert_eq!(round.next_attempt(true), Launch::Drained);
    assert!(round.is_complete());
}

#[test]
fn dispatcher_without_candidates_is_complete_at_once() {
    let mut round = RoundDispatcher::new(vec![], 4);
    assert!(round.is_complete());
    assert_eq!(round.next_attempt(true), Launch::Drained);
    assert!(round.is_complete());
}

#[test]
fn dispatcher_without_permits_has_nothing_to_do() {
    let mut round = RoundDispatcher::new(some_candidates(3), 0);
    assert!(round.is_complete());
    assert_eq!(round.remaining(), 0);
    assert_eq!(round.next_attempt(true), Launch::Drained);
    assert_eq!(round.in_flight(), 0);
}

#[test]
fn dispatcher_gives_up_the_rest_when_the_consumer_is_gone() {
    let all = some_candidates(4);
    let mut round = RoundDispatcher::new(all.clone(), 2);
    assert_eq!(round.next_attempt(true), Launch::Dial(all[0]));
    assert_eq!(round.next_attempt(false), Launch::Drained);
    assert_eq!(round.remaining(), 0);
    assert_eq!(round.in_flight(), 1);
    assert!(!round.is_complete());
    assert_eq!(round.next_attempt(true), Launch::Drained);
    round.attempt_finished();
    assert!(round.is_complete());
}

#[test]
fn dispatcher_ignores_a_report_with_nothing_in_flight() {
    let all = some_candidates(2);
    let mut round = RoundDispatcher::new(all.clone(), 1);
    round.attempt_finished();
    assert_eq!(round.in_flight(), 0);
    assert_eq!(round.next_attempt(true), Launch::Dial(all[0]));
    round.attempt_finished();
    round.attempt_finished();
    assert_eq!(round.in_flight(), 0);
    assert_eq!(round.next_attempt(true), Launch::Dial(all[1]));
    assert_eq!(round.in_flight(), 1);
}
