//! A snapshot of the machine's network interfaces, and the subnets worth
//! scanning among them.

use crate::address::{is_loopback, spec_is_loopback};
use crate::subnet::Subnet;
use vstd::prelude::*;

verus! {

/// One IPv4 address of an interface, with its network mask.
#[derive(Clone, Copy, Debug, PartialEq, Eq, Structural)]
pub struct InterfaceAddr {
    pub addr: u32,
    pub netmask: u32,
}

/// What the scan reads of a network interface.
#[derive(Clone, Debug, PartialEq, Eq)]
pub struct NetworkInterface {
    pub name: String,
    pub friendly_name: Option<String>,
    pub ipv4: Vec<InterfaceAddr>,
}

impl InterfaceAddr {
    /// The subnet that the pair contributes to a scan: that of its address
    /// under its mask, unless the mask is malformed or the address is a
    /// loopback one.
    pub open spec fn spec_subnet(self) -> Option<Subnet> {
        if spec_is_loopback(self.addr) {
            None
        } else {
            Subnet::spec_with_netmask(self.addr, self.netmask)
        }
    }

    /// The subnet that the pair contributes to a scan, if any.
    pub fn subnet(&self) -> (r: Option<Subnet>)
        ensures
            r == self.spec_subnet(),
            r matches Some(s) ==> s.wf(),
    {
        if is_loopback(self.addr) {
            None
        } else {
            Subnet::with_netmask(self.addr, self.netmask)
        }
    }
}

/// The subnets that a list of pairs contributes: one for every pair that has
/// one, in the order of the list.
pub open spec fn pair_subnets(pairs: Seq<InterfaceAddr>) -> Seq<Subnet>
    decreases pairs.len(),
{
    if pairs.len() == 0 {
        Seq::empty()
    } else {
        let found = pair_subnets(pairs.drop_last());
        match pairs.last().spec_subnet() {
            Some(subnet) => found.push(subnet),
            None => found,
        }
    }
}

/// The subnets of a list of pairs are those that one of the pairs contributes.
pub proof fn lemma_pair_subnets_contain(pairs: Seq<InterfaceAddr>, subnet: Subnet)
    ensures
        pair_subnets(pairs).contains(subnet) <==> exists|j: int|
            0 <= j < pairs.len() && (#[trigger] pairs[j]).spec_subnet() == Some(subnet),
    decreases pairs.len(),
{
    if pairs.len() > 0 {
        let init = pairs.drop_last();
        let found = pair_subnets(init);
        let all = pair_subnets(pairs);
        lemma_pair_subnets_contain(init, subnet);
        if all.contains(subnet) {
            let k = choose|k: int| 0 <= k < all.len() && all[k] == subnet;
            if k < found.len() {
                assert(found[k] == subnet);
                let j = choose|j: int|
                    0 <= j < init.len() && (#[trigger] init[j]).spec_subnet() == Some(subnet);
                assert(pairs[j] == init[j]);
            } else {
                assert(pairs[pairs.len() - 1].spec_subnet() == Some(subnet));
            }
        }
        if exists|j: int|
            0 <= j < pairs.len() && (#[trigger] pairs[j]).spec_subnet() == Some(subnet) {
            let j = choose|j: int|
                0 <= j < pairs.len() && (#[trigger] pairs[j]).spec_subnet() == Some(subnet);
            if j < init.len() {
                assert(init[j].spec_subnet() == Some(subnet));
                let k = choose|k: int| 0 <= k < found.len() && found[k] == subnet;
                assert(all[k] == subnet);
            } else {
                assert(all[found.len() as int] == subnet);
            }
        }
    }
}

impl NetworkInterface {
    /// The subnets that the interface contributes to a scan: one for every
    /// pair of address and mask whose mask is well formed and whose address
    /// is not a loopback one, in the order of the pairs.
    pub open spec fn spec_subnets(&self) -> Seq<Subnet> {
        pair_subnets(self.ipv4@)
    }

    /// Whether the interface contributes `subnet`: one of its pairs does.
    pub open spec fn contributes(&self, subnet: Subnet) -> bool {
        exists|j: int|
            0 <= j < self.ipv4@.len() && (#[trigger] self.ipv4@[j]).spec_subnet() == Some(subnet)
    }

    /// The subnets that the interface contributes to a scan.
    pub fn subnets(&self) -> (subnets: Vec<Subnet>)
        ensures
            subnets@ == self.spec_subnets(),
            forall|i: int| 0 <= i < subnets.len() ==> (#[trigger] subnets[i]).wf(),
    {
        let mut subnets: Vec<Subnet> = Vec::new();
        push_subnets(&mut subnets, &self.ipv4);
        subnets
    }
}

/// Appends to `out` the subnets that a list of pairs contributes.
fn push_subnets(out: &mut Vec<Subnet>, pairs: &Vec<InterfaceAddr>)
    requires
        forall|i: int| 0 <= i < old(out).len() ==> (#[trigger] old(out)[i]).wf(),
    ensures
        final(out)@ == old(out)@ + pair_subnets(pairs@),
        forall|i: int| 0 <= i < final(out).len() ==> (#[trigger] final(out)[i]).wf(),
{
    let ghost before = out@;
    let mut j: usize = 0;
    proof {
        assert(before + pair_subnets(pairs@.take(0)) =~= before);
    }
    while j < pairs.len()
        invariant
            j <= pairs.len(),
            out@ == before + pair_subnets(pairs@.take(j as int)),
            forall|k: int| 0 <= k < out.len() ==> (#[trigger] out[k]).wf(),
        decreases pairs.len() - j,
    {
        proof {
            assert(pairs@.take(j + 1).drop_last() =~= pairs@.take(j as int));
        }
        match pairs[j].subnet() {
            Some(subnet) => {
                out.push(subnet);
                proof {
                    assert(out@ =~= before + pair_subnets(pairs@.take(j as int)).push(subnet));
                }
            },
            None => {},
        }
        j += 1;
    }
    proof {
        assert(pairs@.take(pairs.len() as int) =~= pairs@);
    }
}

/// Whether some interface of `interfaces` is called `name`.
pub open spec fn name_seen(interfaces: Seq<NetworkInterface>, name: Seq<char>) -> bool {
    exists|j: int| 0 <= j < interfaces.len() && (#[trigger] interfaces[j]).name@ == name
}

/// The interfaces of a list that no earlier one shares its name with, in the
/// order of the list.
pub open spec fn first_by_name(interfaces: Seq<NetworkInterface>) -> Seq<NetworkInterface>
    decreases interfaces.len(),
{
    if interfaces.len() == 0 {
        Seq::empty()
    } else {
        let kept = first_by_name(interfaces.drop_last());
        if name_seen(interfaces.drop_last(), interfaces.last().name@) {
            kept
        } else {
            kept.push(interfaces.last())
        }
    }
}

/// The default interface, where there is one, followed by the listed ones.
pub open spec fn with_default(
    default_interface: Option<NetworkInterface>,
    listed: Seq<NetworkInterface>,
) -> Seq<NetworkInterface> {
    match default_interface {
        Some(d) => seq![d] + listed,
        None => listed,
    }
}

/// A name occurs among the kept interfaces exactly when it occurs in the list.
pub proof fn lemma_first_by_name_keeps_names(interfaces: Seq<NetworkInterface>, name: Seq<char>)
    ensures
        name_seen(first_by_name(interfaces), name) <==> name_seen(interfaces, name),
    decreases interfaces.len(),
{
    if interfaces.len() > 0 {
        let init = interfaces.drop_last();
        let last = interfaces.last();
        let kept = first_by_name(init);
        lemma_first_by_name_keeps_names(init, name);
        if name_seen(interfaces, name) {
            let j = choose|j: int| 0 <= j < interfaces.len() && (#[trigger] interfaces[j]).name@
                == name;
            if j < init.len() {
                assert(init[j].name@ == name);
                let k = choose|k: int| 0 <= k < kept.len() && (#[trigger] kept[k]).name@ == name;
                assert(first_by_name(interfaces)[k].name@ == name);
            } else if !name_seen(init, last.name@) {
                assert(first_by_name(interfaces)[kept.len() as int].name@ == name);
            }
        }
    }
}

/// No two of the kept interfaces share a name.
pub proof fn lemma_first_by_name_distinct(interfaces: Seq<NetworkInterface>)
    ensures
        forall|i: int, j: int|
            #![trigger first_by_name(interfaces)[i], first_by_name(interfaces)[j]]
            0 <= i < j < first_by_name(interfaces).len() ==> first_by_name(interfaces)[i].name@
                != first_by_name(interfaces)[j].name@,
    decreases interfaces.len(),
{
    if interfaces.len() > 0 {
        let init = interfaces.drop_last();
        let last = interfaces.last();
        lemma_first_by_name_distinct(init);
        lemma_first_by_name_keeps_names(init, last.name@);
    }
}

/// The first interface of a list is always kept, and stays first: where the
/// platform names a default interface, it wins over a listed one of its name.
pub proof fn lemma_first_is_kept(interfaces: Seq<NetworkInterface>)
    requires
        interfaces.len() > 0,
    ensures
        first_by_name(interfaces).len() > 0,
        first_by_name(interfaces)[0] == interfaces[0],
    decreases interfaces.len(),
{
    let init = interfaces.drop_last();
    if init.len() > 0 {
        lemma_first_is_kept(init);
    } else {
        assert(first_by_name(init) =~= Seq::empty());
    }
}

/// Whether some interface of `interfaces` is called `name`.
fn has_name(interfaces: &Vec<NetworkInterface>, name: &String) -> (found: bool)
    ensures
        found == name_seen(interfaces@, name@),
{
    let mut i: usize = 0;
    while i < interfaces.len()
        invariant
            i <= interfaces.len(),
            forall|j: int| 0 <= j < i ==> (#[trigger] interfaces@[j]).name@ != name@,
        decreases interfaces.len() - i,
    {
        if interfaces[i].name == *name {
            return true;
        }
        i += 1;
    }
    false
}

/// Puts the default interface in front of the listed ones and drops every
/// interface whose name an earlier one already has. So the default interface
/// wins over a listed one of its name, no name is left out, and none occurs
/// twice.
pub fn merge_interfaces(
    default_interface: Option<NetworkInterface>,
    listed: Vec<NetworkInterface>,
) -> (merged: Vec<NetworkInterface>)
    ensures
        merged@ == first_by_name(with_default(default_interface, listed@)),
        default_interface matches Some(d) ==> merged@.len() > 0 && merged@[0] == d,
        forall|i: int|
            0 <= i < listed@.len() ==> name_seen(merged@, (#[trigger] listed@[i]).name@),
        forall|i: int, j: int|
            0 <= i < j < merged@.len() ==> (#[trigger] merged@[i]).name@ != (
            #[trigger] merged@[j]).name@,
{
    let ghost head: Seq<NetworkInterface> = with_default(default_interface, Seq::empty());
    let mut merged: Vec<NetworkInterface> = Vec::new();
    match default_interface {
        Some(d) => {
            merged.push(d);
        },
        None => {},
    }
    proof {
        if head.len() == 1 {
            assert(first_by_name(head.drop_last()) =~= Seq::empty());
        }
    }
    let ghost all = listed@;
    for iface in it: listed
        invariant
            it.seq() == all,
            merged@ == first_by_name(head + all.take(it.index() as int)),
    {
        let ghost before = head + all.take(it.index() as int);
        let ghost after = head + all.take(it.index() + 1);
        proof {
            assert(after.drop_last() =~= before);
            lemma_first_by_name_keeps_names(before, iface.name@);
        }
        if !has_name(&merged, &iface.name) {
            merged.push(iface);
        }
    }
    proof {
        let input = with_default(default_interface, all);
        assert(all.take(all.len() as int) =~= all);
        lemma_first_by_name_distinct(input);
        if default_interface is Some {
            lemma_first_is_kept(input);
        }
        assert forall|i: int| 0 <= i < all.len() implies name_seen(
            merged@,
            (#[trigger] all[i]).name@,
        ) by {
            assert(input[input.len() - all.len() + i] == all[i]);
            lemma_first_by_name_keeps_names(input, all[i].name@);
        }
    }
    merged
}

/// The subnets that a list of interfaces contributes: those of the first
/// interface, then those of the second, and so on.
pub open spec fn spec_scan_subnets(interfaces: Seq<NetworkInterface>) -> Seq<Subnet>
    decreases interfaces.len(),
{
    if interfaces.len() == 0 {
        Seq::empty()
    } else {
        spec_scan_subnets(interfaces.drop_last()) + interfaces.last().spec_subnets()
    }
}

/// The subnets of a list are those that a pair of one of its interfaces
/// contributes.
pub proof fn lemma_scan_subnets_contain(interfaces: Seq<NetworkInterface>, subnet: Subnet)
    ensures
        spec_scan_subnets(interfaces).contains(subnet) <==> exists|i: int|
            0 <= i < interfaces.len() && (#[trigger] interfaces[i]).contributes(subnet),
    decreases interfaces.len(),
{
    if interfaces.len() > 0 {
        let init = interfaces.drop_last();
        let last = interfaces.last();
        let found = spec_scan_subnets(init);
        let here = last.spec_subnets();
        let all = spec_scan_subnets(interfaces);
        lemma_scan_subnets_contain(init, subnet);
        lemma_pair_subnets_contain(last.ipv4@, subnet);
        if all.contains(subnet) {
            let k = choose|k: int| 0 <= k < all.len() && all[k] == subnet;
            if k < found.len() {
                assert(found[k] == subnet);
                let i = choose|i: int|
                    0 <= i < init.len() && (#[trigger] init[i]).contributes(subnet);
                assert(interfaces[i] == init[i]);
            } else {
                assert(here[k - found.len()] == subnet);
                assert(interfaces[interfaces.len() - 1].contributes(subnet));
            }
        }
        if exists|i: int|
            0 <= i < interfaces.len() && (#[trigger] interfaces[i]).contributes(subnet) {
            let i = choose|i: int|
                0 <= i < interfaces.len() && (#[trigger] interfaces[i]).contributes(subnet);
            if i < init.len() {
                assert(init[i].contributes(subnet));
                let k = choose|k: int| 0 <= k < found.len() && found[k] == subnet;
                assert(all[k] == subnet);
            } else {
                let k = choose|k: int| 0 <= k < here.len() && here[k] == subnet;
                assert(all[found.len() + k] == subnet);
            }
        }
    }
}

/// A list of pairs whose addresses are all loopback ones contributes no
/// subnet.
pub proof fn lemma_loopback_pairs_contribute_nothing(pairs: Seq<InterfaceAddr>)
    requires
        forall|i: int| 0 <= i < pairs.len() ==> spec_is_loopback((#[trigger] pairs[i]).addr),
    ensures
        pair_subnets(pairs) == Seq::<Subnet>::empty(),
    decreases pairs.len(),
{
    if pairs.len() > 0 {
        let init = pairs.drop_last();
        assert forall|i: int| 0 <= i < init.len() implies spec_is_loopback(
            (#[trigger] init[i]).addr,
        ) by {
            assert(init[i] == pairs[i]);
        }
        lemma_loopback_pairs_contribute_nothing(init);
        assert(spec_is_loopback(pairs[pairs.len() - 1].addr));
    }
}

/// An interface without an address, or with loopback addresses only,
/// contributes no subnet: the scan of a list is the same with it and without.
pub proof fn lemma_loopback_interface_contributes_nothing(
    interfaces: Seq<NetworkInterface>,
    interface: NetworkInterface,
)
    requires
        forall|i: int|
            0 <= i < interface.ipv4@.len() ==> spec_is_loopback(
                (#[trigger] interface.ipv4@[i]).addr,
            ),
    ensures
        interface.spec_subnets() == Seq::<Subnet>::empty(),
        spec_scan_subnets(interfaces.push(interface)) == spec_scan_subnets(interfaces),
{
    lemma_loopback_pairs_contribute_nothing(interface.ipv4@);
    assert(interfaces.push(interface).drop_last() =~= interfaces);
    assert(spec_scan_subnets(interfaces) + Seq::<Subnet>::empty() =~= spec_scan_subnets(
        interfaces,
    ));
}

/// The subnets that a list of interfaces contributes: those of the first
/// interface, then those of the second, and so on.
pub fn scan_subnets(interfaces: &Vec<NetworkInterface>) -> (subnets: Vec<Subnet>)
    ensures
        subnets@ == spec_scan_subnets(interfaces@),
        forall|i: int| 0 <= i < subnets.len() ==> (#[trigger] subnets[i]).wf(),
{
    let mut subnets: Vec<Subnet> = Vec::new();
    let mut i: usize = 0;
    while i < interfaces.len()
        invariant
            i <= interfaces.len(),
            subnets@ == spec_scan_subnets(interfaces@.take(i as int)),
            forall|k: int| 0 <= k < subnets.len() ==> (#[trigger] subnets[k]).wf(),
        decreases interfaces.len() - i,
    {
        proof {
            assert(interfaces@.take(i + 1).drop_last() =~= interfaces@.take(i as int));
        }
        push_subnets(&mut subnets, &interfaces[i].ipv4);
        i += 1;
    }
    proof {
        assert(interfaces@.take(interfaces.len() as int) =~= interfaces@);
    }
    subnets
}

} // verus!
