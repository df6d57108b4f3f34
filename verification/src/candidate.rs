//! The connect attempts of one scan round.

use crate::address::Endpoint;
use crate::exclusion::{ExclusionSet, PeerExclusion};
use crate::subnet::{lemma_hosts_contain, Subnet};
use vstd::prelude::*;

verus! {

/// One connect attempt: the endpoint to dial, and the local endpoint that the
/// socket is bound to first, so that the attempt leaves by the interface
/// whose subnet holds the target.
#[derive(Clone, Copy, Debug, PartialEq, Eq, Structural)]
pub struct Candidate {
    pub local: Endpoint,
    pub target: Endpoint,
}

/// Where the attempts of an interface bind: at the interface's own address,
/// with port 0, which leaves the choice of the port to the system.
pub open spec fn bind_endpoint(addr: u32) -> Endpoint {
    Endpoint { host: addr, port: 0 }
}

/// The attempts at one host: one for each port, in the order of the ports,
/// without the excluded endpoints.
pub open spec fn port_candidates(
    local: Endpoint,
    host: u32,
    ports: Seq<u16>,
    excluded: Set<Endpoint>,
) -> Seq<Candidate>
    decreases ports.len(),
{
    if ports.len() == 0 {
        Seq::empty()
    } else {
        let earlier = port_candidates(local, host, ports.drop_last(), excluded);
        let target = Endpoint { host, port: ports.last() };
        if excluded.contains(target) {
            earlier
        } else {
            earlier.push(Candidate { local, target })
        }
    }
}

/// The attempts at a run of hosts, host by host.
pub open spec fn host_candidates(
    local: Endpoint,
    hosts: Seq<u32>,
    ports: Seq<u16>,
    excluded: Set<Endpoint>,
) -> Seq<Candidate>
    decreases hosts.len(),
{
    if hosts.len() == 0 {
        Seq::empty()
    } else {
        host_candidates(local, hosts.drop_last(), ports, excluded) + port_candidates(
            local,
            hosts.last(),
            ports,
            excluded,
        )
    }
}

/// The attempts of a round: subnet by subnet, each subnet's hosts in rising
/// order, each host's ports in the order given, bound to the subnet's own
/// address, without the excluded endpoints.
pub open spec fn round_candidates(
    subnets: Seq<Subnet>,
    ports: Seq<u16>,
    excluded: Set<Endpoint>,
) -> Seq<Candidate>
    decreases subnets.len(),
{
    if subnets.len() == 0 {
        Seq::empty()
    } else {
        round_candidates(subnets.drop_last(), ports, excluded) + host_candidates(
            bind_endpoint(subnets.last().addr),
            subnets.last().spec_hosts(),
            ports,
            excluded,
        )
    }
}

/// The attempts at one host are those at its listed ports that are not
/// excluded.
pub proof fn lemma_port_candidates_contain(
    local: Endpoint,
    host: u32,
    ports: Seq<u16>,
    excluded: Set<Endpoint>,
    c: Candidate,
)
    ensures
        port_candidates(local, host, ports, excluded).contains(c) <==> {
            &&& c.local == local
            &&& c.target.host == host
            &&& ports.contains(c.target.port)
            &&& !excluded.contains(c.target)
        },
    decreases ports.len(),
{
    if ports.len() > 0 {
        let init = ports.drop_last();
        let earlier = port_candidates(local, host, init, excluded);
        let all = port_candidates(local, host, ports, excluded);
        lemma_port_candidates_contain(local, host, init, excluded, c);
        if all.contains(c) {
            let k = choose|k: int| 0 <= k < all.len() && all[k] == c;
            if k < earlier.len() {
                let j = choose|j: int| 0 <= j < init.len() && init[j] == c.target.port;
                assert(ports[j] == c.target.port);
            }
        }
        if c.local == local && c.target.host == host && ports.contains(c.target.port)
            && !excluded.contains(c.target) {
            let j = choose|j: int| 0 <= j < ports.len() && ports[j] == c.target.port;
            if j < init.len() {
                assert(init[j] == c.target.port);
                let k = choose|k: int| 0 <= k < earlier.len() && earlier[k] == c;
                assert(all[k] == c);
            } else {
                assert(all[earlier.len() as int] == c);
            }
        }
    }
}

/// The attempts at a run of hosts are those at one of the hosts.
pub proof fn lemma_host_candidates_contain(
    local: Endpoint,
    hosts: Seq<u32>,
    ports: Seq<u16>,
    excluded: Set<Endpoint>,
    c: Candidate,
)
    ensures
        host_candidates(local, hosts, ports, excluded).contains(c) <==> {
            &&& c.local == local
            &&& hosts.contains(c.target.host)
            &&& ports.contains(c.target.port)
            &&& !excluded.contains(c.target)
        },
    decreases hosts.len(),
{
    if hosts.len() > 0 {
        let init = hosts.drop_last();
        let earlier = host_candidates(local, init, ports, excluded);
        let here = port_candidates(local, hosts.last(), ports, excluded);
        let all = host_candidates(local, hosts, ports, excluded);
        lemma_host_candidates_contain(local, init, ports, excluded, c);
        lemma_port_candidates_contain(local, hosts.last(), ports, excluded, c);
        if all.contains(c) {
            let k = choose|k: int| 0 <= k < all.len() && all[k] == c;
            if k < earlier.len() {
                let j = choose|j: int| 0 <= j < init.len() && init[j] == c.target.host;
                assert(hosts[j] == c.target.host);
            }
        }
        if c.local == local && hosts.contains(c.target.host) && ports.contains(c.target.port)
            && !excluded.contains(c.target) {
            let j = choose|j: int| 0 <= j < hosts.len() && hosts[j] == c.target.host;
            if j < init.len() {
                assert(init[j] == c.target.host);
                let k = choose|k: int| 0 <= k < earlier.len() && earlier[k] == c;
                assert(all[k] == c);
            } else {
                let k = choose|k: int| 0 <= k < here.len() && here[k] == c;
                assert(all[earlier.len() + k] == c);
            }
        }
    }
}

/// Whether a round over `subnets` and `ports` is to dial `c`: some subnet has
/// the target among its hosts and lends the attempt its address, the port is
/// a listed one, and the target is not excluded.
pub open spec fn is_round_candidate(
    subnets: Seq<Subnet>,
    ports: Seq<u16>,
    excluded: Set<Endpoint>,
    c: Candidate,
) -> bool {
    &&& exists|i: int|
        0 <= i < subnets.len() && bind_endpoint((#[trigger] subnets[i]).addr) == c.local
            && subnets[i].has_host(c.target.host)
    &&& ports.contains(c.target.port)
    &&& !excluded.contains(c.target)
}

/// A round dials exactly the candidates that `is_round_candidate` admits:
/// none that is excluded, and every other endpoint that pairs a host of a
/// scanned subnet with a listed port.
pub proof fn lemma_round_candidates_contain(
    subnets: Seq<Subnet>,
    ports: Seq<u16>,
    excluded: Set<Endpoint>,
    c: Candidate,
)
    ensures
        round_candidates(subnets, ports, excluded).contains(c) <==> is_round_candidate(
            subnets,
            ports,
            excluded,
            c,
        ),
    decreases subnets.len(),
{
    if subnets.len() > 0 {
        let init = subnets.drop_last();
        let last = subnets.last();
        let earlier = round_candidates(init, ports, excluded);
        let here = host_candidates(bind_endpoint(last.addr), last.spec_hosts(), ports, excluded);
        let all = round_candidates(subnets, ports, excluded);
        lemma_round_candidates_contain(init, ports, excluded, c);
        lemma_host_candidates_contain(
            bind_endpoint(last.addr),
            last.spec_hosts(),
            ports,
            excluded,
            c,
        );
        lemma_hosts_contain(last, c.target.host);
        if all.contains(c) {
            let k = choose|k: int| 0 <= k < all.len() && all[k] == c;
            if k < earlier.len() {
                let i = choose|i: int|
                    0 <= i < init.len() && bind_endpoint((#[trigger] init[i]).addr) == c.local
                        && init[i].has_host(c.target.host);
                assert(subnets[i] == init[i]);
            }
        }
        if is_round_candidate(subnets, ports, excluded, c) {
            let i = choose|i: int|
                0 <= i < subnets.len() && bind_endpoint((#[trigger] subnets[i]).addr) == c.local
                    && subnets[i].has_host(c.target.host);
            if i < init.len() {
                assert(bind_endpoint(init[i].addr) == c.local && init[i].has_host(c.target.host));
                let k = choose|k: int| 0 <= k < earlier.len() && earlier[k] == c;
                assert(all[k] == c);
            } else {
                let k = choose|k: int| 0 <= k < here.len() && here[k] == c;
                assert(all[earlier.len() + k] == c);
            }
        }
    }
}

/// No attempt of a round has an excluded target. In particular an endpoint
/// that was excluded beforehand is never dialed, whatever the interfaces and
/// the ports.
pub proof fn lemma_excluded_never_listed(
    subnets: Seq<Subnet>,
    ports: Seq<u16>,
    policy: PeerExclusion,
    c: Candidate,
)
    requires
        policy matches PeerExclusion::PreExcluded(peers) && peers@.contains(c.target),
    ensures
        policy.excluded().contains(c.target),
        !round_candidates(subnets, ports, policy.excluded()).contains(c),
{
    lemma_round_candidates_contain(subnets, ports, policy.excluded(), c);
}

/// Appends to `out` the attempts at one host.
fn push_port_candidates(
    out: &mut Vec<Candidate>,
    local: Endpoint,
    host: u32,
    ports: &Vec<u16>,
    excluded: &ExclusionSet,
)
    ensures
        final(out)@ == old(out)@ + port_candidates(local, host, ports@, excluded@),
{
    let ghost before = out@;
    let mut j: usize = 0;
    while j < ports.len()
        invariant
            j <= ports.len(),
            out@ == before + port_candidates(local, host, ports@.take(j as int), excluded@),
        decreases ports.len() - j,
    {
        let target = Endpoint { host, port: ports[j] };
        proof {
            assert(ports@.take(j + 1).drop_last() =~= ports@.take(j as int));
        }
        if !excluded.contains(target) {
            out.push(Candidate { local, target });
        }
        j += 1;
    }
    proof {
        assert(ports@.take(ports.len() as int) =~= ports@);
    }
}

/// Appends to `out` the attempts at the hosts of one subnet.
fn push_subnet_candidates(
    out: &mut Vec<Candidate>,
    subnet: &Subnet,
    ports: &Vec<u16>,
    excluded: &ExclusionSet,
)
    requires
        subnet.wf(),
    ensures
        final(out)@ == old(out)@ + host_candidates(
            bind_endpoint(subnet.addr),
            subnet.spec_hosts(),
            ports@,
            excluded@,
        ),
{
    let ghost before = out@;
    let local = Endpoint { host: subnet.addr, port: 0 };
    let hosts = subnet.hosts();
    let mut i: usize = 0;
    while i < hosts.len()
        invariant
            i <= hosts.len(),
            out@ == before + host_candidates(
                local,
                hosts@.take(i as int),
                ports@,
                excluded@,
            ),
        decreases hosts.len() - i,
    {
        proof {
            assert(hosts@.take(i + 1).drop_last() =~= hosts@.take(i as int));
        }
        push_port_candidates(out, local, hosts[i], ports, excluded);
        i += 1;
    }
    proof {
        assert(hosts@.take(hosts.len() as int) =~= hosts@);
    }
}

/// Lists the connect attempts of one round.
pub fn list_candidates(subnets: &Vec<Subnet>, ports: &Vec<u16>, excluded: &ExclusionSet) -> (out:
    Vec<Candidate>)
    requires
        forall|i: int| 0 <= i < subnets.len() ==> (#[trigger] subnets[i]).wf(),
    ensures
        out@ == round_candidates(subnets@, ports@, excluded@),
{
    let mut out: Vec<Candidate> = Vec::new();
    let mut i: usize = 0;
    while i < subnets.len()
        invariant
            i <= subnets.len(),
            forall|k: int| 0 <= k < subnets.len() ==> (#[trigger] subnets[k]).wf(),
            out@ == round_candidates(subnets@.take(i as int), ports@, excluded@),
        decreases subnets.len() - i,
    {
        proof {
            assert(subnets@.take(i + 1).drop_last() =~= subnets@.take(i as int));
        }
        push_subnet_candidates(&mut out, &subnets[i], ports, excluded);
        i += 1;
    }
    proof {
        assert(subnets@.take(subnets.len() as int) =~= subnets@);
    }
    out
}

} // verus!
