//! Which endpoints a scan must never dial.

use crate::address::{lemma_key_injective, Endpoint};
use std::collections::HashSet;
use vstd::prelude::*;

verus! {

/// The rule by which endpoints are kept out of a scan.
#[derive(Debug)]
pub enum PeerExclusion {
    /// Every endpoint may be dialed.
    Never,
    /// The listed endpoints are never dialed.
    PreExcluded(Vec<Endpoint>),
    /// Starts with nothing excluded. The scan itself adds nothing to it.
    ConnectOnce,
}

impl PeerExclusion {
    /// The endpoints that the rule keeps out when a scan starts.
    pub open spec fn excluded(&self) -> Set<Endpoint> {
        match self {
            PeerExclusion::Never => Set::empty(),
            PeerExclusion::PreExcluded(peers) => peers@.to_set(),
            PeerExclusion::ConnectOnce => Set::empty(),
        }
    }
}

impl Default for PeerExclusion {
    fn default() -> (policy: PeerExclusion)
        ensures
            policy == PeerExclusion::ConnectOnce,
    {
        PeerExclusion::ConnectOnce
    }
}

/// The endpoints kept out of a scan, ready for lookup.
pub struct ExclusionSet {
    keys: HashSet<u64>,
}

impl View for ExclusionSet {
    type V = Set<Endpoint>;

    closed spec fn view(&self) -> Set<Endpoint> {
        Set::new(|e: Endpoint| self.keys@.contains(e.spec_key()))
    }
}

impl ExclusionSet {
    /// The set that a rule starts a scan with.
    pub fn from_policy(policy: &PeerExclusion) -> (set: ExclusionSet)
        ensures
            set@ == policy.excluded(),
    {
        broadcast use vstd::std_specs::hash::group_hash_axioms;

        let mut keys: HashSet<u64> = HashSet::new();
        match policy {
            PeerExclusion::PreExcluded(peers) => {
                let mut i: usize = 0;
                while i < peers.len()
                    invariant
                        i <= peers.len(),
                        forall|e: Endpoint|
                            keys@.contains(#[trigger] e.spec_key()) <==> peers@.take(
                                i as int,
                            ).contains(e),
                    decreases peers.len() - i,
                {
                    let ghost seen = peers@.take(i as int);
                    let ghost grown = peers@.take(i + 1);
                    keys.insert(peers[i].key());
                    proof {
                        assert(grown =~= seen.push(peers@[i as int]));
                        assert forall|e: Endpoint|
                            keys@.contains(#[trigger] e.spec_key()) <==> grown.contains(e) by {
                            if e.spec_key() == peers@[i as int].spec_key() {
                                lemma_key_injective(e, peers@[i as int]);
                                assert(grown[i as int] == e);
                            } else if seen.contains(e) {
                                let j = choose|j: int| 0 <= j < seen.len() && seen[j] == e;
                                assert(grown[j] == e);
                            } else if grown.contains(e) {
                                let j = choose|j: int| 0 <= j < grown.len() && grown[j] == e;
                                assert(seen[j] == e);
                            }
                        }
                    }
                    i += 1;
                }
                proof {
                    assert(peers@.take(peers.len() as int) =~= peers@);
                }
            },
            _ => {},
        }
        let set = ExclusionSet { keys };
        proof {
            assert(set@ =~= policy.excluded());
        }
        set
    }

    /// Whether the endpoint is kept out of the scan.
    pub fn contains(&self, endpoint: Endpoint) -> (found: bool)
        ensures
            found == self@.contains(endpoint),
    {
        broadcast use vstd::std_specs::hash::group_hash_axioms;

        let key = endpoint.key();
        self.keys.contains(&key)
    }
}

} // verus!
