//! The network that subnets are taken from.
use vstd::prelude::*;

verus! {

/// Which subnets may be leased. Addresses are numeric.
#[derive(Clone, Copy, Debug, PartialEq, Eq, Structural)]
pub struct Config {
    pub enable_ipv6: bool,
    /// The prefix of every IPv4 subnet.
    pub subnet_len: u8,
    /// The address of the first IPv4 subnet.
    pub subnet_min: Option<u32>,
    /// The highest address at which an IPv4 subnet may start.
    pub subnet_max: Option<u32>,
    /// The prefix of every IPv6 subnet.
    pub ipv6_subnet_len: u8,
    /// The address of the first IPv6 subnet.
    pub ipv6_subnet_min: Option<u128>,
    /// The highest address at which an IPv6 subnet may start.
    pub ipv6_subnet_max: Option<u128>,
}

} // verus!
