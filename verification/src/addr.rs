//! Addresses as plain numbers.

use vstd::prelude::*;

verus! {

/// An IP address: the four octets of IPv4 or the eight segments of IPv6,
/// packed most significant first into one number.
#[derive(Debug, Clone, Copy, PartialEq, Eq, Structural)]
pub enum HostAddr {
    V4(u32),
    V6(u128),
}

/// The address of a remote party: an IP address and a port.
#[derive(Debug, Clone, Copy, PartialEq, Eq, Structural)]
pub struct PeerEndpoint {
    pub host: HostAddr,
    pub port: u16,
}

/// An address with the length of its network prefix.
#[derive(Debug, Clone, Copy, PartialEq, Eq, Structural)]
pub struct Cidr {
    pub address: HostAddr,
    pub prefix_len: u8,
}

impl HostAddr {
    /// The number of bits of an address of this family.
    pub open spec fn spec_bits(self) -> nat {
        match self {
            HostAddr::V4(_) => 32,
            HostAddr::V6(_) => 128,
        }
    }

    /// The number of bits of an address of this family: 32 or 128.
    pub fn bits(&self) -> (r: u8)
        ensures
            r == self.spec_bits(),
    {
        match self {
            HostAddr::V4(_) => 32,
            HostAddr::V6(_) => 128,
        }
    }

    /// The address as a number, whatever its family.
    pub open spec fn spec_value(self) -> u128 {
        match self {
            HostAddr::V4(a) => a as u128,
            HostAddr::V6(a) => a,
        }
    }
}

impl Cidr {
    /// The prefix is no longer than the address.
    pub open spec fn wf(self) -> bool {
        self.prefix_len <= self.address.spec_bits()
    }

    /// The block of `address` with a prefix of `prefix_len` bits; `None` if
    /// the address has fewer bits than that.
    pub fn new(address: HostAddr, prefix_len: u8) -> (r: Option<Cidr>)
        ensures
            r is Some <==> prefix_len <= address.spec_bits(),
            r is Some ==> r->Some_0 == (Cidr { address, prefix_len }) && r->Some_0.wf(),
    {
        if prefix_len <= address.bits() {
            Some(Cidr { address, prefix_len })
        } else {
            None
        }
    }
}

/// The number of bits that are set among the low `k` bits of `x`.
pub open spec fn spec_ones_below(x: u128, k: nat) -> nat
    decreases k,
{
    if k == 0 {
        0
    } else {
        spec_ones_below(x, (k - 1) as nat) + if (x >> ((k - 1) as u128)) & 1 == 1 {
            1nat
        } else {
            0nat
        }
    }
}

/// The number of bits that are set in `x`.
pub open spec fn spec_count_ones(x: u128) -> nat {
    spec_ones_below(x, 128)
}

/// No more than `k` of the low `k` bits are set.
pub proof fn lemma_ones_below_bound(x: u128, k: nat)
    ensures
        spec_ones_below(x, k) <= k,
    decreases k,
{
    if k > 0 {
        lemma_ones_below_bound(x, (k - 1) as nat);
    }
}

/// Counting past the highest bit that can be set finds nothing more.
pub proof fn lemma_ones_above_width(x: u128, width: nat, k: nat)
    requires
        width <= k <= 128,
        width < 128 ==> x >> (width as u128) == 0,
    ensures
        spec_ones_below(x, k) == spec_ones_below(x, width),
    decreases k,
{
    if k > width {
        lemma_ones_above_width(x, width, (k - 1) as nat);
        let w = width as u128;
        let s = (k - 1) as u128;
        assert((x >> s) & 1 == 0) by (bit_vector)
            requires
                x >> w == 0,
                w <= s < 128,
        ;
    }
}

/// The number of bits that are set in `x`.
pub fn count_ones(x: u128) -> (r: u8)
    ensures
        r == spec_count_ones(x),
{
    let mut count: u8 = 0;
    let mut i: u32 = 0;
    while i < 128
        invariant
            i <= 128,
            count == spec_ones_below(x, i as nat),
            count <= i,
        decreases 128 - i,
    {
        if (x >> (i as u128)) & 1 == 1 {
            count = count + 1;
        }
        i = i + 1;
    }
    count
}

/// The prefix length that a netmask stands for: the number of its set bits.
pub open spec fn spec_prefix_len(netmask: HostAddr) -> nat {
    spec_count_ones(netmask.spec_value())
}

/// The prefix length that `netmask` stands for. It never exceeds the number of
/// bits of the netmask's family.
pub fn prefix_len(netmask: HostAddr) -> (r: u8)
    ensures
        r == spec_prefix_len(netmask),
        r <= netmask.spec_bits(),
{
    match netmask {
        HostAddr::V4(m) => {
            proof {
                let wide = m as u128;
                assert(wide >> 32u128 == 0) by (bit_vector)
                    requires
                        wide <= 0xffff_ffffu128,
                ;
                lemma_ones_above_width(wide, 32, 128);
                lemma_ones_below_bound(wide, 32);
            }
            count_ones(m as u128)
        },
        HostAddr::V6(m) => {
            proof {
                lemma_ones_below_bound(m, 128);
            }
            count_ones(m)
        },
    }
}

} // verus!
