//! The search for free subnets and the choice of one of them.
use vstd::arithmetic::power2::*;
use vstd::prelude::*;

use crate::config::Config;
use crate::error::ManagerError;
use crate::ip::{
    next_ipv4_network, next_ipv6_network, Ipv4Network, Ipv6Network, NetworkError, MAX_V6,
};
use crate::lease::Lease;

verus! {

/// How many free subnets a search collects at most.
pub const MAX_CANDIDATES: usize = 100;

/// The first `room` addresses that are not taken among `cur`, `cur + step`,
/// `cur + 2 * step` and so on up to `last`. There is no such list where a step from
/// an address that the search visits leads past `top`.
pub open spec fn free_from(
    cur: int,
    last: int,
    step: int,
    top: int,
    taken: spec_fn(int) -> bool,
    room: nat,
) -> Option<Seq<int>>
    decreases
            (if cur <= last {
                last - cur + 1
            } else {
                0
            }),
{
    if cur > last || room == 0 || step <= 0 {
        Some(Seq::empty())
    } else if cur + step > top {
        None
    } else if taken(cur) {
        free_from(cur + step, last, step, top, taken, room)
    } else {
        match free_from(cur + step, last, step, top, taken, (room - 1) as nat) {
            Some(rest) => Some(seq![cur] + rest),
            None => None,
        }
    }
}

/// Which addresses are those of leased IPv4 subnets with this prefix.
pub open spec fn v4_taken(leases: Seq<Lease>, prefix: u8) -> spec_fn(int) -> bool {
    |a: int|
        exists|i: int|
            0 <= i < leases.len() && (#[trigger] leases[i]).subnet.addr == a
                && leases[i].subnet.prefix == prefix
}

/// Which addresses are those of leased IPv6 subnets with this prefix.
pub open spec fn v6_taken(leases: Seq<Lease>, prefix: u8) -> spec_fn(int) -> bool {
    |a: int|
        exists|i: int|
            0 <= i < leases.len() && (#[trigger] leases[i]).ipv6_subnet.addr == a
                && leases[i].ipv6_subnet.prefix == prefix
}

/// The addresses of the IPv4 subnets that are free.
pub open spec fn v4_free(min: u32, max: u32, prefix: u8, leases: Seq<Lease>) -> Option<Seq<int>> {
    free_from(
        min as int,
        max as int,
        pow2((32 - prefix) as nat) as int,
        u32::MAX as int,
        v4_taken(leases, prefix),
        MAX_CANDIDATES as nat,
    )
}

/// The addresses of the IPv6 subnets that are free.
pub open spec fn v6_free(min: u128, max: u128, prefix: u8, leases: Seq<Lease>) -> Option<
    Seq<int>,
> {
    free_from(
        min as int,
        max as int,
        pow2((128 - prefix) as nat) as int,
        MAX_V6 as int,
        v6_taken(leases, prefix),
        MAX_CANDIDATES as nat,
    )
}

/// Whether `networks` are the networks with this prefix at `addrs`, in order.
pub open spec fn v4_networks_at(
    networks: Seq<Ipv4Network>,
    addrs: Seq<int>,
    prefix: u8,
) -> bool {
    &&& networks.len() == addrs.len()
    &&& forall|i: int|
        0 <= i < addrs.len() ==> (#[trigger] networks[i]).addr == addrs[i] && networks[i].prefix
            == prefix
}

/// Whether `networks` are the networks with this prefix at `addrs`, in order.
pub open spec fn v6_networks_at(
    networks: Seq<Ipv6Network>,
    addrs: Seq<int>,
    prefix: u8,
) -> bool {
    &&& networks.len() == addrs.len()
    &&& forall|i: int|
        0 <= i < addrs.len() ==> (#[trigger] networks[i]).addr == addrs[i] && networks[i].prefix
            == prefix
}

/// Whether some lease has exactly this IPv4 subnet.
pub fn v4_leased(leases: &[Lease], network: Ipv4Network) -> (r: bool)
    ensures
        r == v4_taken(leases@, network.prefix)(network.addr as int),
{
    let mut i: usize = 0;
    while i < leases.len()
        invariant
            i <= leases@.len(),
            forall|j: int|
                0 <= j < i ==> !((#[trigger] leases@[j]).subnet.addr == network.addr
                    && leases@[j].subnet.prefix == network.prefix),
        decreases leases@.len() - i,
    {
        if leases[i].subnet == network {
            assert(leases@[i as int].subnet.addr == network.addr);
            return true;
        }
        i = i + 1;
    }
    false
}

/// Whether some lease has exactly this IPv6 subnet.
pub fn v6_leased(leases: &[Lease], network: Ipv6Network) -> (r: bool)
    ensures
        r == v6_taken(leases@, network.prefix)(network.addr as int),
{
    let mut i: usize = 0;
    while i < leases.len()
        invariant
            i <= leases@.len(),
            forall|j: int|
                0 <= j < i ==> !((#[trigger] leases@[j]).ipv6_subnet.addr == network.addr
                    && leases@[j].ipv6_subnet.prefix == network.prefix),
        decreases leases@.len() - i,
    {
        if leases[i].ipv6_subnet == network {
            assert(leases@[i as int].ipv6_subnet.addr == network.addr);
            return true;
        }
        i = i + 1;
    }
    false
}

/// What a search finds that has found `before` so far and finds `rest` from here on.
spec fn continued(before: Seq<int>, rest: Option<Seq<int>>) -> Option<Seq<int>> {
    match rest {
        Some(rest) => Some(before + rest),
        None => None,
    }
}

/// The free IPv4 subnets from the one at `first` up to the address `last`.
pub fn available_v4(first: Ipv4Network, last: u32, leases: &[Lease]) -> (r: Result<
    Vec<Ipv4Network>,
    NetworkError,
>)
    requires
        first.wf(),
    ensures
        match v4_free(first.addr, last, first.prefix, leases@) {
            Some(addrs) => r matches Ok(networks) && v4_networks_at(
                networks@,
                addrs,
                first.prefix,
            ),
            None => r == Err::<Vec<Ipv4Network>, NetworkError>(NetworkError::PastLastAddress),
        },
{
    let mut found: Vec<Ipv4Network> = Vec::new();
    let mut current: Ipv4Network = first;
    let ghost mut addrs: Seq<int> = Seq::empty();
    let ghost step = first.size() as int;
    let ghost taken = v4_taken(leases@, first.prefix);
    let ghost whole = v4_free(first.addr, last, first.prefix, leases@);
    proof {
        lemma_pow2_pos((32 - first.prefix) as nat);
        let rest = free_from(
            first.addr as int,
            last as int,
            step,
            u32::MAX as int,
            taken,
            MAX_CANDIDATES as nat,
        );
        if rest is Some {
            assert(addrs + rest->0 =~= rest->0);
        }
    }
    while current.addr <= last && found.len() < MAX_CANDIDATES
        invariant
            first.wf(),
            current.prefix == first.prefix,
            step == first.size(),
            step > 0,
            taken == v4_taken(leases@, first.prefix),
            v4_networks_at(found@, addrs, first.prefix),
            found@.len() <= MAX_CANDIDATES,
            whole == continued(
                addrs,
                free_from(
                    current.addr as int,
                    last as int,
                    step,
                    u32::MAX as int,
                    taken,
                    (MAX_CANDIDATES - found@.len()) as nat,
                ),
            ),
            whole == v4_free(first.addr, last, first.prefix, leases@),
        decreases u32::MAX - current.addr,
    {
        let leased: bool = v4_leased(leases, current);
        if !leased {
            found.push(current);
        }
        proof {
            let room = MAX_CANDIDATES - addrs.len();
            let left = if leased {
                room
            } else {
                room - 1
            };
            let rest = free_from(
                current.addr + step,
                last as int,
                step,
                u32::MAX as int,
                taken,
                left as nat,
            );
            if !leased {
                if rest is Some {
                    assert(addrs + (seq![current.addr as int] + rest->0) =~= addrs.push(
                        current.addr as int,
                    ) + rest->0);
                }
                addrs = addrs.push(current.addr as int);
            }
        }
        match next_ipv4_network(current) {
            Ok(next) => {
                current = next;
            },
            Err(e) => {
                return Err(e);
            },
        }
    }
    proof {
        assert(addrs + Seq::<int>::empty() =~= addrs);
    }
    Ok(found)
}

/// The free IPv6 subnets from the one at `first` up to the address `last`.
pub fn available_v6(first: Ipv6Network, last: u128, leases: &[Lease]) -> (r: Result<
    Vec<Ipv6Network>,
    NetworkError,
>)
    requires
        first.wf(),
    ensures
        match v6_free(first.addr, last, first.prefix, leases@) {
            Some(addrs) => r matches Ok(networks) && v6_networks_at(
                networks@,
                addrs,
                first.prefix,
            ),
            None => r == Err::<Vec<Ipv6Network>, NetworkError>(NetworkError::PastLastAddress),
        },
{
    let mut found: Vec<Ipv6Network> = Vec::new();
    let mut current: Ipv6Network = first;
    let ghost mut addrs: Seq<int> = Seq::empty();
    let ghost step = first.size() as int;
    let ghost taken = v6_taken(leases@, first.prefix);
    let ghost whole = v6_free(first.addr, last, first.prefix, leases@);
    proof {
        lemma_pow2_pos((128 - first.prefix) as nat);
        let rest = free_from(
            first.addr as int,
            last as int,
            step,
            MAX_V6 as int,
            taken,
            MAX_CANDIDATES as nat,
        );
        if rest is Some {
            assert(addrs + rest->0 =~= rest->0);
        }
    }
    while current.addr <= last && found.len() < MAX_CANDIDATES
        invariant
            first.wf(),
            current.prefix == first.prefix,
            step == first.size(),
            step > 0,
            taken == v6_taken(leases@, first.prefix),
            v6_networks_at(found@, addrs, first.prefix),
            found@.len() <= MAX_CANDIDATES,
            whole == continued(
                addrs,
                free_from(
                    current.addr as int,
                    last as int,
                    step,
                    MAX_V6 as int,
                    taken,
                    (MAX_CANDIDATES - found@.len()) as nat,
                ),
            ),
            whole == v6_free(first.addr, last, first.prefix, leases@),
        decreases MAX_V6 - current.addr,
    {
        let leased: bool = v6_leased(leases, current);
        if !leased {
            found.push(current);
        }
        proof {
            let room = MAX_CANDIDATES - addrs.len();
            let left = if leased {
                room
            } else {
                room - 1
            };
            let rest = free_from(
                current.addr + step,
                last as int,
                step,
                MAX_V6 as int,
                taken,
                left as nat,
            );
            if !leased {
                if rest is Some {
                    assert(addrs + (seq![current.addr as int] + rest->0) =~= addrs.push(
                        current.addr as int,
                    ) + rest->0);
                }
                addrs = addrs.push(current.addr as int);
            }
        }
        match next_ipv6_network(current) {
            Ok(next) => {
                current = next;
            },
            Err(e) => {
                return Err(e);
            },
        }
    }
    proof {
        assert(addrs + Seq::<int>::empty() =~= addrs);
    }
    Ok(found)
}

/// Why no subnets can be taken, if none can.
pub open spec fn allocation_error(config: Config, leases: Seq<Lease>) -> Option<ManagerError> {
    if config.subnet_min is None {
        Some(ManagerError::MissingSubnetMin)
    } else if config.subnet_max is None {
        Some(ManagerError::MissingSubnetMax)
    } else if config.subnet_len > 32 {
        Some(ManagerError::InvalidSubnetStart(NetworkError::InvalidPrefix))
    } else if config_v4_free(config, leases) is None {
        Some(ManagerError::NoNextNetwork(NetworkError::PastLastAddress))
    } else if searches_v6(config) && config.ipv6_subnet_len > 128 {
        Some(ManagerError::InvalidIpv6SubnetStart(NetworkError::InvalidPrefix))
    } else if config_v6_free(config, leases) is None {
        Some(ManagerError::NoNextNetwork(NetworkError::PastLastAddress))
    } else if config_v4_free(config, leases)->0.len() == 0 || (config.enable_ipv6
        && config_v6_free(config, leases)->0.len() == 0) {
        Some(ManagerError::OutOfSubnets)
    } else {
        None
    }
}

/// Whether IPv6 subnets are searched for.
pub open spec fn searches_v6(config: Config) -> bool {
    config.enable_ipv6 && config.ipv6_subnet_min is Some && config.ipv6_subnet_max is Some
}

/// The addresses of the IPv4 subnets of the network that are free.
pub open spec fn config_v4_free(config: Config, leases: Seq<Lease>) -> Option<Seq<int>> {
    v4_free(config.subnet_min->0, config.subnet_max->0, config.subnet_len, leases)
}

/// The addresses of the IPv6 subnets of the network that are free.
pub open spec fn config_v6_free(config: Config, leases: Seq<Lease>) -> Option<Seq<int>> {
    if searches_v6(config) {
        v6_free(
            config.ipv6_subnet_min->0,
            config.ipv6_subnet_max->0,
            config.ipv6_subnet_len,
            leases,
        )
    } else {
        Some(Seq::empty())
    }
}

/// Whether `sn` and `sn6` are subnets that may be taken: free ones of the network,
/// an IPv6 one exactly where the network has IPv6.
pub open spec fn allocatable(
    config: Config,
    leases: Seq<Lease>,
    sn: Ipv4Network,
    sn6: Option<Ipv6Network>,
) -> bool {
    &&& sn.prefix == config.subnet_len
    &&& config_v4_free(config, leases)->0.contains(sn.addr as int)
    &&& match sn6 {
        Some(sn6) => config.enable_ipv6 && sn6.prefix == config.ipv6_subnet_len && config_v6_free(
            config,
            leases,
        )->0.contains(sn6.addr as int),
        None => !config.enable_ipv6,
    }
}

/// `rand::seq::SliceRandom::choose` with `rand::thread_rng`: some item of the list,
/// and none exactly where the list is empty. Which item it is depends on chance.
#[verifier::external_body]
pub(crate) fn choose_one<T: Copy>(items: &Vec<T>) -> (r: Option<T>)
    ensures
        r is None <==> items@.len() == 0,
        r matches Some(item) ==> items@.contains(item),
{
    rand::seq::SliceRandom::choose(items.as_slice(), &mut rand::thread_rng()).copied()
}

/// The subnets to take once one of each kind was chosen among the free ones, where
/// there were any.
pub fn pick_subnets(
    enable_ipv6: bool,
    chosen_v4: Option<Ipv4Network>,
    chosen_v6: Option<Ipv6Network>,
) -> (r: Result<(Ipv4Network, Option<Ipv6Network>), ManagerError>)
    ensures
        r == (if chosen_v4 is None || (enable_ipv6 && chosen_v6 is None) {
            Err::<(Ipv4Network, Option<Ipv6Network>), ManagerError>(ManagerError::OutOfSubnets)
        } else {
            Ok(
                (
                    chosen_v4->0,
                    if enable_ipv6 {
                        chosen_v6
                    } else {
                        None
                    },
                ),
            )
        }),
{
    match chosen_v4 {
        None => Err(ManagerError::OutOfSubnets),
        Some(v4) => if !enable_ipv6 {
            Ok((v4, None))
        } else {
            match chosen_v6 {
                None => Err(ManagerError::OutOfSubnets),
                Some(v6) => Ok((v4, Some(v6))),
            }
        },
    }
}

} // verus!
