//! An interface address with its prefix length, and the hosts of its network.

use vstd::prelude::*;

verus! {

/// The host mask of a prefix length: the low `32 - prefix_len` bits set.
pub open spec fn host_mask(prefix_len: u8) -> u32 {
    if prefix_len >= 32 {
        0u32
    } else {
        0xFFFF_FFFFu32 >> (prefix_len as u32)
    }
}

/// The network mask of a prefix length: the high `prefix_len` bits set.
pub open spec fn prefix_mask(prefix_len: u8) -> u32 {
    !host_mask(prefix_len)
}

/// Whether a mask is a run of set bits followed by a run of clear bits.
pub open spec fn is_netmask(mask: u32) -> bool {
    exists|p: u8| p <= 32 && #[trigger] prefix_mask(p) == mask
}

/// The lowest address of the network that holds `addr`.
pub open spec fn network_of(addr: u32, prefix_len: u8) -> u32 {
    addr & prefix_mask(prefix_len)
}

/// The highest address of the network that holds `addr`.
pub open spec fn broadcast_of(addr: u32, prefix_len: u8) -> u32 {
    addr | host_mask(prefix_len)
}

/// The first address that a host can have. A network of four addresses or
/// more keeps its lowest address for itself.
pub open spec fn first_host_of(addr: u32, prefix_len: u8) -> int {
    if prefix_len < 31 {
        network_of(addr, prefix_len) + 1
    } else {
        network_of(addr, prefix_len) as int
    }
}

/// The last address that a host can have. A network of four addresses or
/// more keeps its highest address for broadcast.
pub open spec fn last_host_of(addr: u32, prefix_len: u8) -> int {
    if prefix_len < 31 {
        broadcast_of(addr, prefix_len) - 1
    } else {
        broadcast_of(addr, prefix_len) as int
    }
}

/// The host addresses of the network that holds `addr`, in rising order.
pub open spec fn host_range(addr: u32, prefix_len: u8) -> Seq<u32> {
    let first = first_host_of(addr, prefix_len);
    let last = last_host_of(addr, prefix_len);
    Seq::new(
        if first <= last {
            (last - first + 1) as nat
        } else {
            0nat
        },
        |i: int| (first + i) as u32,
    )
}

/// Calls `ipnet::Ipv4Net::with_netmask` and hands back the prefix length of
/// the network it made. Taken on trust: the call succeeds exactly when the
/// mask is a run of set bits followed by clear bits, and the prefix length is
/// then the number of set bits.
#[verifier::external_body]
fn netmask_prefix_len(addr: u32, netmask: u32) -> (r: Option<u8>)
    ensures
        match r {
            Some(p) => p <= 32 && prefix_mask(p) == netmask,
            None => !is_netmask(netmask),
        },
{
    match ipnet::Ipv4Net::with_netmask(addr.into(), netmask.into()) {
        Ok(net) => Some(net.prefix_len()),
        Err(_) => None,
    }
}

/// Calls `ipnet::Ipv4Net::hosts` on the network that `ipnet::Ipv4Net::new_assert`
/// makes of `addr`, and collects what it yields. Taken on trust: the
/// addresses come in rising order from the network address to the broadcast
/// address, both left out unless the prefix length is 31 or 32.
#[verifier::external_body]
fn host_addresses(addr: u32, prefix_len: u8) -> (hosts: Vec<u32>)
    requires
        prefix_len <= 32,
    ensures
        hosts@ == host_range(addr, prefix_len),
{
    ipnet::Ipv4Net::new_assert(addr.into(), prefix_len).hosts().map(u32::from).collect()
}

/// The prefix length of a network mask.
pub open spec fn netmask_prefix(mask: u32) -> u8 {
    choose|p: u8| p <= 32 && #[trigger] prefix_mask(p) == mask
}

/// An IPv4 address together with the prefix length of its network. The
/// address is kept as given, not truncated to the network.
#[derive(Clone, Copy, Debug, PartialEq, Eq, Structural)]
pub struct Subnet {
    pub addr: u32,
    pub prefix_len: u8,
}

impl Subnet {
    /// A prefix length is at most 32.
    pub open spec fn wf(self) -> bool {
        self.prefix_len <= 32
    }

    /// The host addresses of the subnet, in rising order.
    pub open spec fn spec_hosts(self) -> Seq<u32> {
        host_range(self.addr, self.prefix_len)
    }

    /// Whether `host` is one of the subnet's host addresses.
    pub open spec fn has_host(self, host: u32) -> bool {
        first_host_of(self.addr, self.prefix_len) <= host <= last_host_of(
            self.addr,
            self.prefix_len,
        )
    }

    /// The subnet of `addr` under a network mask, if the mask is one.
    pub open spec fn spec_with_netmask(addr: u32, netmask: u32) -> Option<Subnet> {
        if is_netmask(netmask) {
            Some(Subnet { addr, prefix_len: netmask_prefix(netmask) })
        } else {
            None
        }
    }

    /// The subnet of `addr` with the given prefix length, if that is at most 32.
    pub fn new(addr: u32, prefix_len: u8) -> (r: Option<Subnet>)
        ensures
            r == if prefix_len <= 32 {
                Some(Subnet { addr, prefix_len })
            } else {
                None
            },
    {
        if prefix_len <= 32 {
            Some(Subnet { addr, prefix_len })
        } else {
            None
        }
    }

    /// The subnet of `addr` under a network mask, if the mask is one.
    pub fn with_netmask(addr: u32, netmask: u32) -> (r: Option<Subnet>)
        ensures
            r == Subnet::spec_with_netmask(addr, netmask),
            r matches Some(s) ==> s.wf() && prefix_mask(s.prefix_len) == netmask,
    {
        match netmask_prefix_len(addr, netmask) {
            Some(prefix_len) => {
                proof {
                    lemma_prefix_mask_injective(prefix_len, netmask_prefix(netmask));
                }
                Some(Subnet { addr, prefix_len })
            },
            None => None,
        }
    }

    /// The host addresses of the subnet, in rising order. The list holds
    /// every one of them: two for a prefix length of 30, 254 for one of 24,
    /// and more than four thousand million for one of 0.
    pub fn hosts(&self) -> (hosts: Vec<u32>)
        requires
            self.wf(),
        ensures
            hosts@ == self.spec_hosts(),
            hosts@.len() >= 1,
    {
        proof {
            lemma_host_bounds(self.addr, self.prefix_len);
        }
        host_addresses(self.addr, self.prefix_len)
    }
}

/// The hosts of a subnet are the addresses from its first host to its last.
pub proof fn lemma_hosts_contain(subnet: Subnet, host: u32)
    ensures
        subnet.spec_hosts().contains(host) <==> subnet.has_host(host),
{
    let first = first_host_of(subnet.addr, subnet.prefix_len);
    let hosts = subnet.spec_hosts();
    if subnet.has_host(host) {
        assert(hosts[host - first] == host);
    }
}

/// Different prefix lengths have different network masks.
pub proof fn lemma_prefix_mask_injective(p: u8, q: u8)
    requires
        p <= 32,
        q <= 32,
        prefix_mask(p) == prefix_mask(q),
    ensures
        p == q,
{
    assert(p <= 32 && q <= 32 && prefix_mask(p) == prefix_mask(q) ==> p == q) by (bit_vector);
}

/// An address lies in its own network, and a network of four addresses or
/// more has hosts strictly between its two ends.
pub proof fn lemma_host_bounds(addr: u32, prefix_len: u8)
    requires
        prefix_len <= 32,
    ensures
        network_of(addr, prefix_len) <= addr <= broadcast_of(addr, prefix_len),
        0 <= first_host_of(addr, prefix_len) <= last_host_of(addr, prefix_len) <= u32::MAX,
        host_range(addr, prefix_len).len() == last_host_of(addr, prefix_len) - first_host_of(
            addr,
            prefix_len,
        ) + 1,
{
    assert(prefix_len <= 32 ==> network_of(addr, prefix_len) <= addr <= broadcast_of(
        addr,
        prefix_len,
    )) by (bit_vector);
    assert(prefix_len < 31 ==> network_of(addr, prefix_len) + 2 <= broadcast_of(addr, prefix_len))
        by (bit_vector);
}

} // verus!
