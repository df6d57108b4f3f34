//! IPv4 addresses as 32-bit numbers, and the endpoints a scan dials.

use vstd::prelude::*;

verus! {

/// An IPv4 host and a TCP port. The host is the address read as a big-endian
/// number, so that `10.0.0.7` is `0x0A00_0007`.
#[derive(Clone, Copy, Debug, PartialEq, Eq, Structural, Hash)]
pub struct Endpoint {
    pub host: u32,
    pub port: u16,
}

impl Endpoint {
    /// The endpoint as one number: the host above the port's sixteen bits.
    pub open spec fn spec_key(self) -> u64 {
        (self.host as u64 * 0x1_0000 + self.port as u64) as u64
    }

    /// The endpoint as one number, by which a set can find it again.
    pub fn key(&self) -> (k: u64)
        ensures
            k == self.spec_key(),
    {
        self.host as u64 * 0x1_0000 + self.port as u64
    }
}

/// Two endpoints with the same key are the same endpoint.
pub proof fn lemma_key_injective(a: Endpoint, b: Endpoint)
    requires
        a.spec_key() == b.spec_key(),
    ensures
        a == b,
{
}

/// The address `a.b.c.d` as a number.
pub open spec fn spec_ipv4(a: u8, b: u8, c: u8, d: u8) -> u32 {
    (a as u32 * 0x100_0000 + b as u32 * 0x1_0000 + c as u32 * 0x100 + d as u32) as u32
}

/// The address `a.b.c.d` as a number.
pub fn ipv4(a: u8, b: u8, c: u8, d: u8) -> (addr: u32)
    ensures
        addr == spec_ipv4(a, b, c, d),
        addr == a * 0x100_0000 + b * 0x1_0000 + c * 0x100 + d,
{
    a as u32 * 0x100_0000 + b as u32 * 0x1_0000 + c as u32 * 0x100 + d as u32
}

/// Whether an address lies in `127.0.0.0/8`.
pub open spec fn spec_is_loopback(addr: u32) -> bool {
    0x7F00_0000 <= addr <= 0x7FFF_FFFF
}

/// Whether an address lies in `127.0.0.0/8`.
pub fn is_loopback(addr: u32) -> (b: bool)
    ensures
        b == spec_is_loopback(addr),
{
    0x7F00_0000 <= addr && addr <= 0x7FFF_FFFF
}

} // verus!
