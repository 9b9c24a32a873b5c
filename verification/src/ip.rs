//! Networks of IPv4 and IPv6 addresses. An address is its numeric value.
use vstd::arithmetic::power2::*;
use vstd::prelude::*;

use crate::text::decimal;

verus! {

/// The highest IPv6 address.
pub const MAX_V6: u128 = 0xffff_ffff_ffff_ffff_ffff_ffff_ffff_ffff;

/// An IPv4 address with the length of its network prefix. The address need not be
/// the lowest of its network.
#[derive(Clone, Copy, Debug, PartialEq, Eq, Structural)]
pub struct Ipv4Network {
    pub addr: u32,
    pub prefix: u8,
}

/// An IPv6 address with the length of its network prefix. The address need not be
/// the lowest of its network.
#[derive(Clone, Copy, Debug, PartialEq, Eq, Structural)]
pub struct Ipv6Network {
    pub addr: u128,
    pub prefix: u8,
}

/// Why there is no such network.
#[derive(Clone, Copy, Debug, PartialEq, Eq, Structural)]
pub enum NetworkError {
    /// The prefix is longer than an address.
    InvalidPrefix,
    /// The next network would lie past the highest address.
    PastLastAddress,
}

/// The error of the `ipnetwork` crate.
#[verifier::external_type_specification]
#[verifier::external_body]
pub struct ExIpNetworkError(ipnetwork::IpNetworkError);

/// `ipnetwork::Ipv4Network::new`: accepts every address with a prefix of at most 32
/// and keeps both as they are.
#[verifier::external_body]
fn ipnetwork_v4_new(addr: u32, prefix: u8) -> (r: Result<(u32, u8), ipnetwork::IpNetworkError>)
    ensures
        r is Ok <==> prefix <= 32,
        r matches Ok(n) ==> n == (addr, prefix),
{
    let network = ipnetwork::Ipv4Network::new(addr.into(), prefix)?;
    Ok((network.ip().into(), network.prefix()))
}

/// `ipnetwork::Ipv6Network::new`: accepts every address with a prefix of at most 128
/// and keeps both as they are.
#[verifier::external_body]
fn ipnetwork_v6_new(addr: u128, prefix: u8) -> (r: Result<(u128, u8), ipnetwork::IpNetworkError>)
    ensures
        r is Ok <==> prefix <= 128,
        r matches Ok(n) ==> n == (addr, prefix),
{
    let network = ipnetwork::Ipv6Network::new(addr.into(), prefix)?;
    Ok((network.ip().into(), network.prefix()))
}

/// `ipnetwork::Ipv6Network::network`: the lowest address of the network, which is
/// the address with everything behind the prefix cleared.
#[verifier::external_body]
fn ipnetwork_v6_network(addr: u128, prefix: u8) -> (r: u128)
    requires
        prefix <= 128,
    ensures
        r == addr - addr as nat % pow2((128 - prefix) as nat),
{
    ipnetwork::Ipv6Network::new(addr.into(), prefix).unwrap().network().into()
}

/// The text of an IPv4 network: four decimal numbers with dots between them, a
/// slash and the prefix.
pub open spec fn v4_text(addr: u32, prefix: u8) -> Seq<char> {
    decimal(addr as nat / 0x100_0000) + seq!['.'] + decimal(addr as nat / 0x1_0000 % 256)
        + seq!['.'] + decimal(addr as nat / 0x100 % 256) + seq!['.'] + decimal(addr as nat % 256)
        + seq!['/'] + decimal(prefix as nat)
}

/// `Display` of `ipnetwork::Ipv4Network`: the address in dotted decimal, a slash
/// and the prefix.
#[verifier::external_body]
fn ipnetwork_v4_text(addr: u32, prefix: u8) -> (r: String)
    requires
        prefix <= 32,
    ensures
        r@ == v4_text(addr, prefix),
{
    ipnetwork::Ipv4Network::new(addr.into(), prefix).unwrap().to_string()
}

/// Two to the 128th is one more than the highest IPv6 address.
proof fn lemma_pow2_128()
    ensures
        pow2(127) == 0x8000_0000_0000_0000_0000_0000_0000_0000,
        pow2(128) == MAX_V6 + 1,
{
    lemma2_to64();
    lemma2_to64_rest();
    lemma_pow2_adds(64, 64);
    lemma_pow2_unfold(128);
}

/// A power of two.
fn power_of_two(e: u8) -> (r: u128)
    requires
        e < 128,
    ensures
        r == pow2(e as nat),
{
    let mut r: u128 = 1;
    let mut i: u8 = 0;
    proof {
        lemma2_to64();
        lemma_pow2_128();
    }
    while i < e
        invariant
            i <= e < 128,
            r == pow2(i as nat),
            pow2(127) == 0x8000_0000_0000_0000_0000_0000_0000_0000,
        decreases e - i,
    {
        proof {
            lemma_pow2_unfold((i + 1) as nat);
            if i + 1 < 127 {
                lemma_pow2_strictly_increases((i + 1) as nat, 127);
            }
        }
        r = r * 2;
        i = i + 1;
    }
    r
}

impl Ipv4Network {
    /// The prefix fits an address.
    pub open spec fn wf(self) -> bool {
        self.prefix <= 32
    }

    /// How many addresses the network holds.
    pub open spec fn size(self) -> nat {
        pow2((32 - self.prefix) as nat)
    }

    /// A network from an address and a prefix.
    pub fn new(addr: u32, prefix: u8) -> (r: Result<Ipv4Network, NetworkError>)
        ensures
            r == (if prefix <= 32 {
                Ok::<Ipv4Network, NetworkError>((Ipv4Network { addr, prefix }))
            } else {
                Err(NetworkError::InvalidPrefix)
            }),
    {
        match ipnetwork_v4_new(addr, prefix) {
            Ok(n) => Ok(Ipv4Network { addr: n.0, prefix: n.1 }),
            Err(_) => Err(NetworkError::InvalidPrefix),
        }
    }

    /// The network in the form `10.1.5.0/24`.
    pub fn to_text(&self) -> (r: String)
        requires
            self.wf(),
        ensures
            r@ == v4_text(self.addr, self.prefix),
    {
        ipnetwork_v4_text(self.addr, self.prefix)
    }
}

impl Ipv6Network {
    /// The prefix fits an address.
    pub open spec fn wf(self) -> bool {
        self.prefix <= 128
    }

    /// How many addresses the network holds.
    pub open spec fn size(self) -> nat {
        pow2((128 - self.prefix) as nat)
    }

    /// The lowest address of the network.
    pub open spec fn lowest(self) -> int {
        self.addr - self.addr as nat % self.size()
    }

    /// A network from an address and a prefix.
    pub fn new(addr: u128, prefix: u8) -> (r: Result<Ipv6Network, NetworkError>)
        ensures
            r == (if prefix <= 128 {
                Ok::<Ipv6Network, NetworkError>((Ipv6Network { addr, prefix }))
            } else {
                Err(NetworkError::InvalidPrefix)
            }),
    {
        match ipnetwork_v6_new(addr, prefix) {
            Ok(n) => Ok(Ipv6Network { addr: n.0, prefix: n.1 }),
            Err(_) => Err(NetworkError::InvalidPrefix),
        }
    }

    /// The lowest address of the network.
    pub fn network(&self) -> (r: u128)
        requires
            self.wf(),
        ensures
            r == self.lowest(),
    {
        ipnetwork_v6_network(self.addr, self.prefix)
    }
}

/// The network of the same size that starts where this one, counted from its
/// address, ends. To count from the address, which need not be the lowest of the
/// network, and to fail past the last address are this library's choices.
pub fn next_ipv4_network(network: Ipv4Network) -> (r: Result<Ipv4Network, NetworkError>)
    requires
        network.wf(),
    ensures
        match r {
            Ok(next) => next.prefix == network.prefix && next.addr == network.addr
                + network.size(),
            Err(e) => e is PastLastAddress && network.addr + network.size() > u32::MAX,
        },
{
    let size: u128 = power_of_two(32 - network.prefix);
    proof {
        lemma2_to64();
        if network.prefix > 0 {
            lemma_pow2_strictly_increases((32 - network.prefix) as nat, 32);
        }
    }
    let next: u128 = network.addr as u128 + size;
    if next > 0xffff_ffff {
        Err(NetworkError::PastLastAddress)
    } else {
        Ok(Ipv4Network { addr: next as u32, prefix: network.prefix })
    }
}

/// The network of the same size that starts where this one, counted from its
/// address, ends. To count from the address, which need not be the lowest of the
/// network, and to fail past the last address are this library's choices.
pub fn next_ipv6_network(network: Ipv6Network) -> (r: Result<Ipv6Network, NetworkError>)
    requires
        network.wf(),
    ensures
        match r {
            Ok(next) => next.prefix == network.prefix && next.addr == network.addr
                + network.size(),
            Err(e) => e is PastLastAddress && network.addr + network.size() > MAX_V6,
        },
{
    proof {
        lemma_pow2_128();
    }
    if network.prefix == 0 {
        return Err(NetworkError::PastLastAddress);
    }
    let size: u128 = power_of_two(128 - network.prefix);
    match network.addr.checked_add(size) {
        Some(next) => Ok(Ipv6Network { addr: next, prefix: network.prefix }),
        None => Err(NetworkError::PastLastAddress),
    }
}

} // verus!
