//! What holds of how a node comes by its lease.
use vstd::arithmetic::power2::*;
use vstd::prelude::*;

use crate::config::Config;
use crate::error::{Code, ManagerError, XlineRegistryError};
use crate::ip::{Ipv4Network, Ipv6Network};
use crate::laws::allocation::{
    lemma_allocated, lemma_allocation_succeeds, lemma_v4_among_the_first, lemma_v6_among_the_first,
};
use crate::laws::law_no_ipv6_takes_all_of_ipv6;
use crate::lease::{Lease, LeaseAttrs};
use crate::manager::{
    find_lease_by_ip, find_lease_by_subnet, first_lease, is_ipv6_subnet_config_compat,
    is_subnet_config_compat, lease_of_ip, lease_of_subnet, reusable_previous, takes_subnet,
    v6_compat, AcquireStep, AttemptOutcome, LocalManager, SubnetWrite,
};
use crate::time::Timestamp;

verus! {

/// The first lease that satisfies `pred` is at the index `i` before which none does; and
/// there is none where none does.
proof fn lemma_first_lease(leases: Seq<Lease>, pred: spec_fn(Lease) -> bool, i: int)
    ensures
        0 <= i < leases.len() && pred(leases[i]) && (forall|k: int|
            0 <= k < i ==> !pred(#[trigger] leases[k])) ==> first_lease(leases, pred) == Some(
            leases[i],
        ),
        (forall|k: int| 0 <= k < leases.len() ==> !pred(#[trigger] leases[k])) <==> first_lease(
            leases,
            pred,
        ) is None,
        first_lease(leases, pred) matches Some(l) ==> exists|k: int|
            0 <= k < leases.len() && #[trigger] leases[k] == l && pred(l) && forall|j: int|
                0 <= j < k ==> !pred(#[trigger] leases[j]),
    decreases leases.len(),
{
    if leases.len() > 0 {
        let rest = leases.drop_first();
        lemma_first_lease(rest, pred, i - 1);
        assert forall|k: int| 0 <= k < rest.len() implies #[trigger] rest[k] == leases[k + 1] by {}
        assert(forall|k: int| 0 < k < leases.len() ==> #[trigger] leases[k] == rest[k - 1]);
        if pred(leases[0]) {
            if 0 < i && forall|k: int| 0 <= k < i ==> !pred(#[trigger] leases[k]) {
                assert(!pred(leases[0]));
            }
            assert(leases[0] == first_lease(leases, pred)->0);
        } else {
            if first_lease(rest, pred) is Some {
                let l = first_lease(rest, pred)->0;
                let k = choose|k: int|
                    0 <= k < rest.len() && #[trigger] rest[k] == l && pred(l) && forall|j: int|
                        0 <= j < k ==> !pred(#[trigger] rest[j]);
                assert(leases[k + 1] == l);
                assert forall|j: int| 0 <= j < k + 1 implies !pred(#[trigger] leases[j]) by {
                    if j > 0 {
                        assert(leases[j] == rest[j - 1]);
                    }
                }
            }
            if forall|k: int| 0 <= k < leases.len() ==> !pred(#[trigger] leases[k]) {
                assert forall|k: int| 0 <= k < rest.len() implies !pred(#[trigger] rest[k]) by {
                    assert(rest[k] == leases[k + 1]);
                }
            }
            if first_lease(rest, pred) is None {
                assert forall|k: int| 0 <= k < leases.len() implies !pred(#[trigger] leases[k]) by {
                    if k > 0 {
                        assert(leases[k] == rest[k - 1]);
                    }
                }
            }
            if 0 < i < leases.len() && forall|k: int| 0 <= k < i ==> !pred(#[trigger] leases[k]) {
                assert forall|k: int| 0 <= k < i - 1 implies !pred(#[trigger] rest[k]) by {
                    assert(rest[k] == leases[k + 1]);
                }
            }
        }
    }
}

/// A lease that is found by a public address is the first one with that address, and none
/// is found exactly where there is none.
pub proof fn law_lease_found_by_ip(leases: &[Lease], pub_ip: u32, r: Option<Lease>)
    requires
        call_ensures(find_lease_by_ip, (leases, pub_ip), r),
    ensures
        r is None <==> forall|k: int|
            0 <= k < leases@.len() ==> (#[trigger] leases@[k]).attrs.public_ip != pub_ip,
        r matches Some(l) ==> exists|k: int|
            0 <= k < leases@.len() && #[trigger] leases@[k] == l && l.attrs.public_ip == pub_ip
                && forall|j: int|
                0 <= j < k ==> (#[trigger] leases@[j]).attrs.public_ip != pub_ip,
{
    let pred = |l: Lease| l.attrs.public_ip == pub_ip;
    lemma_first_lease(leases@, pred, 0);
    assert(forall|k: int|
        0 <= k < leases@.len() ==> pred(#[trigger] leases@[k]) == (leases@[k].attrs.public_ip
            == pub_ip));
}

/// A lease that is found by a subnet is the first one with exactly that subnet, and none is
/// found exactly where there is none.
pub proof fn law_lease_found_by_subnet(leases: &[Lease], subnet: Ipv4Network, r: Option<Lease>)
    requires
        call_ensures(find_lease_by_subnet, (leases, subnet), r),
    ensures
        r is None <==> forall|k: int|
            0 <= k < leases@.len() ==> !((#[trigger] leases@[k]).subnet.addr == subnet.addr
                && leases@[k].subnet.prefix == subnet.prefix),
        r matches Some(l) ==> exists|k: int|
            0 <= k < leases@.len() && #[trigger] leases@[k] == l && l.subnet == subnet
                && forall|j: int| 0 <= j < k ==> (#[trigger] leases@[j]).subnet != subnet,
{
    let pred = |l: Lease| l.subnet == subnet;
    lemma_first_lease(leases@, pred, 0);
    assert(forall|k: int|
        0 <= k < leases@.len() ==> pred(#[trigger] leases@[k]) == (leases@[k].subnet == subnet));
    assert(forall|k: int|
        0 <= k < leases@.len() ==> ((#[trigger] leases@[k]).subnet == subnet) == (
        leases@[k].subnet.addr == subnet.addr && leases@[k].subnet.prefix == subnet.prefix));
}

/// Without IPv6, an IPv6 subnet fits exactly where its prefix is empty.
proof fn lemma_no_ipv6_compat(config: Config, sn6: Ipv6Network)
    requires
        !config.enable_ipv6,
    ensures
        v6_compat(config, Some(sn6)) <==> sn6.prefix == 0,
{
    if sn6.prefix == 0 {
        law_no_ipv6_takes_all_of_ipv6(config, sn6);
    }
}

/// An IPv4 subnet fits the network exactly where its address is in the range, both ends
/// of which are set, and its prefix is the configured one.
pub proof fn law_fitting_v4_subnet(config: Config, sn: Option<Ipv4Network>, r: bool)
    requires
        call_ensures(is_subnet_config_compat, (&config, sn), r),
    ensures
        r <==> sn is Some && config.subnet_min is Some && config.subnet_max is Some
            && config.subnet_min->0 <= sn->0.addr <= config.subnet_max->0 && sn->0.prefix
            == config.subnet_len,
{
}

/// An IPv6 subnet fits a network with IPv6 exactly where its address is in the range and
/// not the unspecified one, and its prefix is the configured one. It fits a network
/// without IPv6 exactly where its prefix is empty; no IPv6 subnet fits that one too.
pub proof fn law_fitting_v6_subnet(config: Config, sn6: Option<Ipv6Network>, r: bool)
    requires
        call_ensures(is_ipv6_subnet_config_compat, (&config, sn6), r),
    ensures
        config.enable_ipv6 ==> (r <==> sn6 is Some && config.ipv6_subnet_min is Some
            && config.ipv6_subnet_max is Some && sn6->0.addr != 0 && config.ipv6_subnet_min->0
            <= sn6->0.addr <= config.ipv6_subnet_max->0 && sn6->0.prefix
            == config.ipv6_subnet_len),
        !config.enable_ipv6 ==> (r <==> (sn6 is Some ==> sn6->0.prefix == 0)),
{
    if !config.enable_ipv6 && sn6 is Some {
        lemma_no_ipv6_compat(config, sn6->0);
    }
}

/// Whether the previous subnets are taken, and what is taken in their place.
proof fn lemma_takes_previous(
    m: LocalManager,
    config: Config,
    leases: Seq<Lease>,
    attrs: LeaseAttrs,
    step: AcquireStep,
)
    requires
        takes_subnet(m, config, leases, attrs, step),
    ensures
        ({
            let sn = m.previous_subnet->0;
            let sn6 = m.previous_subnet_ipv6->0;
            &&& m.previous_subnet is Some
            &&& forall|k: int| 0 <= k < leases.len() ==> (#[trigger] leases[k]).subnet != sn
            &&& config.subnet_min is Some && config.subnet_max is Some
            &&& config.subnet_min->0 <= sn.addr <= config.subnet_max->0
            &&& sn.prefix == config.subnet_len
            &&& if config.enable_ipv6 {
                m.previous_subnet_ipv6 is Some && config.ipv6_subnet_min is Some
                    && config.ipv6_subnet_max is Some && sn6.addr != 0 && config.ipv6_subnet_min->0
                    <= sn6.addr <= config.ipv6_subnet_max->0 && sn6.prefix == config.ipv6_subnet_len
            } else {
                m.previous_subnet_ipv6 is Some ==> sn6.prefix == 0
            }
        }) ==> (step matches AcquireStep::CreateSubnet { request } && Some(request.sn)
            == m.previous_subnet
            && request.sn6 == m.previous_subnet_ipv6 && request.attrs == attrs && request.ttl_secs
            == 86_400),
{
    if m.previous_subnet is Some {
        let sn = m.previous_subnet->0;
        let pred = |l: Lease| l.subnet == sn;
        lemma_first_lease(leases, pred, 0);
        if forall|k: int| 0 <= k < leases.len() ==> (#[trigger] leases[k]).subnet != sn {
            assert(forall|k: int| 0 <= k < leases.len() ==> !pred(#[trigger] leases[k]));
        }
        if !config.enable_ipv6 && m.previous_subnet_ipv6 is Some {
            lemma_no_ipv6_compat(config, m.previous_subnet_ipv6->0);
        }
    }
}

/// When the previous subnets are not taken.
proof fn lemma_not_previous(m: LocalManager, config: Config, leases: Seq<Lease>)
    requires
        !({
            let sn = m.previous_subnet->0;
            let sn6 = m.previous_subnet_ipv6->0;
            &&& m.previous_subnet is Some
            &&& forall|k: int| 0 <= k < leases.len() ==> (#[trigger] leases[k]).subnet != sn
            &&& config.subnet_min is Some && config.subnet_max is Some
            &&& config.subnet_min->0 <= sn.addr <= config.subnet_max->0
            &&& sn.prefix == config.subnet_len
            &&& if config.enable_ipv6 {
                m.previous_subnet_ipv6 is Some && config.ipv6_subnet_min is Some
                    && config.ipv6_subnet_max is Some && sn6.addr != 0 && config.ipv6_subnet_min->0
                    <= sn6.addr <= config.ipv6_subnet_max->0 && sn6.prefix == config.ipv6_subnet_len
            } else {
                m.previous_subnet_ipv6 is Some ==> sn6.prefix == 0
            }
        }),
    ensures
        reusable_previous(m, config, leases) is None,
{
    if m.previous_subnet is Some {
        let sn = m.previous_subnet->0;
        let pred = |l: Lease| l.subnet == sn;
        lemma_first_lease(leases, pred, 0);
        if lease_of_subnet(leases, sn) is None {
            assert forall|k: int| 0 <= k < leases.len() implies (#[trigger] leases[k]).subnet
                != sn by {
                assert(!pred(leases[k]));
            }
        }
        if !config.enable_ipv6 && m.previous_subnet_ipv6 is Some {
            lemma_no_ipv6_compat(config, m.previous_subnet_ipv6->0);
        }
    }
}

/// What is taken where the previous subnets are not.
proof fn lemma_takes_new(
    m: LocalManager,
    config: Config,
    leases: Seq<Lease>,
    attrs: LeaseAttrs,
    step: AcquireStep,
)
    requires
        takes_subnet(m, config, leases, attrs, step),
        !({
            let sn = m.previous_subnet->0;
            let sn6 = m.previous_subnet_ipv6->0;
            &&& m.previous_subnet is Some
            &&& forall|k: int| 0 <= k < leases.len() ==> (#[trigger] leases[k]).subnet != sn
            &&& config.subnet_min is Some && config.subnet_max is Some
            &&& config.subnet_min->0 <= sn.addr <= config.subnet_max->0
            &&& sn.prefix == config.subnet_len
            &&& if config.enable_ipv6 {
                m.previous_subnet_ipv6 is Some && config.ipv6_subnet_min is Some
                    && config.ipv6_subnet_max is Some && sn6.addr != 0 && config.ipv6_subnet_min->0
                    <= sn6.addr <= config.ipv6_subnet_max->0 && sn6.prefix == config.ipv6_subnet_len
            } else {
                m.previous_subnet_ipv6 is Some ==> sn6.prefix == 0
            }
        }),
    ensures
        step is CreateSubnet || step is Failed,
        step matches AcquireStep::CreateSubnet { request } ==> request.attrs == attrs
            && request.ttl_secs == 86_400 && (request.sn6 is Some <==> config.enable_ipv6),
        step matches AcquireStep::CreateSubnet { request } ==> ({
            let min = config.subnet_min->0;
            let size = pow2((32 - config.subnet_len) as nat) as int;
            &&& config.subnet_min is Some && config.subnet_max is Some && config.subnet_len <= 32
            &&& request.sn.prefix == config.subnet_len
            &&& min <= request.sn.addr <= config.subnet_max->0
            &&& (request.sn.addr - min) % size == 0
            &&& request.sn.addr + size <= u32::MAX
            &&& forall|k: int| 0 <= k < leases.len() ==> (#[trigger] leases[k]).subnet != request.sn
            &&& forall|k: int|
                0 <= k < leases.len() && leases[k].subnet.prefix == config.subnet_len
                    && (leases[k].subnet.addr - min)
                    % size == 0 ==> {
                    ||| (#[trigger] leases[k]).subnet.addr + size <= request.sn.addr
                    ||| request.sn.addr + size <= leases[k].subnet.addr
                }
        }),
        step matches AcquireStep::CreateSubnet { request } ==> config.enable_ipv6 ==> ({
            let min = config.ipv6_subnet_min->0;
            let size = pow2((128 - config.ipv6_subnet_len) as nat) as int;
            &&& config.ipv6_subnet_min is Some && config.ipv6_subnet_max is Some
                && config.ipv6_subnet_len <= 128
            &&& request.sn6->0.prefix == config.ipv6_subnet_len
            &&& min <= request.sn6->0.addr <= config.ipv6_subnet_max->0
            &&& (request.sn6->0.addr - min) % size == 0
            &&& request.sn6->0.addr + size <= u128::MAX
            &&& forall|k: int| 0 <= k < leases.len()
                ==> (#[trigger] leases[k]).ipv6_subnet != request.sn6->0
            &&& forall|k: int|
                0 <= k < leases.len() && leases[k].ipv6_subnet.prefix == config.ipv6_subnet_len
                    && (leases[k].ipv6_subnet.addr - min)
                    % size == 0 ==> {
                    ||| (#[trigger] leases[k]).ipv6_subnet.addr + size <= request.sn6->0.addr
                    ||| request.sn6->0.addr + size <= leases[k].ipv6_subnet.addr
                }
        }),
        step matches AcquireStep::Failed(e) ==> e is MissingSubnetMin || e is MissingSubnetMax
            || e is InvalidSubnetStart || e is InvalidIpv6SubnetStart || e is NoNextNetwork
            || e is OutOfSubnets,
{
    lemma_not_previous(m, config, leases);
    if step is CreateSubnet {
        lemma_allocated(config, leases, step->CreateSubnet_request.sn, step->CreateSubnet_request.sn6);
    }
}

/// An attempt fails with the registry, with its error.
pub proof fn law_attempt_fails_with_the_registry(
    m: LocalManager,
    config: Config,
    ext_ip: u32,
    attrs: LeaseAttrs,
    error: XlineRegistryError,
    step: AcquireStep,
)
    requires
        call_ensures(
            LocalManager::try_acquire_lease,
            (&m, &config, ext_ip, &attrs, Err::<(Vec<Lease>, i64), XlineRegistryError>(error)),
            step,
        ),
    ensures
        step == AcquireStep::Failed(ManagerError::Registry(error)),
{
}

/// A node whose first lease, at the index `i`, fits the network renews it: with its
/// subnets, the attributes of now and a life of a day, or without an end where it has none.
pub proof fn law_attempt_renews_a_fitting_lease(
    m: LocalManager,
    config: Config,
    ext_ip: u32,
    attrs: LeaseAttrs,
    leases: Vec<Lease>,
    revision: i64,
    step: AcquireStep,
    i: int,
)
    requires
        call_ensures(
            LocalManager::try_acquire_lease,
            (
                &m,
                &config,
                ext_ip,
                &attrs,
                Ok::<(Vec<Lease>, i64), XlineRegistryError>((leases, revision)),
            ),
            step,
        ),
        0 <= i < leases@.len(),
        leases@[i].attrs.public_ip == ext_ip,
        forall|k: int| 0 <= k < i ==> (#[trigger] leases@[k]).attrs.public_ip != ext_ip,
        ({
            &&& config.subnet_min is Some && config.subnet_max is Some
            &&& config.subnet_min->0 <= leases@[i].subnet.addr <= config.subnet_max->0
            &&& leases@[i].subnet.prefix == config.subnet_len
            &&& if config.enable_ipv6 {
                config.ipv6_subnet_min is Some && config.ipv6_subnet_max is Some
                    && leases@[i].ipv6_subnet.addr != 0
                    && config.ipv6_subnet_min->0 <= leases@[i].ipv6_subnet.addr
                    <= config.ipv6_subnet_max->0
                    && leases@[i].ipv6_subnet.prefix == config.ipv6_subnet_len
            } else {
                leases@[i].ipv6_subnet.prefix == 0
            }
        }),
    ensures
        step matches AcquireStep::UpdateSubnet { request, asof, lease } && lease == leases@[i]
            && asof == 0 && request.sn == leases@[i].subnet && request.sn6 == Some(
            leases@[i].ipv6_subnet,
        ) && request.attrs == attrs && request.ttl_secs == (if leases@[i].expiration.secs == 0
            && leases@[i].expiration.nanos == 0 {
            0int
        } else {
            86_400int
        }),
{
    let pred = |l: Lease| l.attrs.public_ip == ext_ip;
    lemma_first_lease(leases@, pred, i);
    assert(forall|k: int|
        0 <= k < leases@.len() ==> pred(#[trigger] leases@[k]) == (leases@[k].attrs.public_ip
            == ext_ip));
    assert(lease_of_ip(leases@, ext_ip) == Some(leases@[i]));
    if !config.enable_ipv6 {
        lemma_no_ipv6_compat(config, leases@[i].ipv6_subnet);
    }
}

/// A node whose first lease, at the index `i`, does not fit the network gives it up, and
/// goes on with the leases that were read.
pub proof fn law_attempt_gives_up_a_lease_that_does_not_fit(
    m: LocalManager,
    config: Config,
    ext_ip: u32,
    attrs: LeaseAttrs,
    leases: Vec<Lease>,
    revision: i64,
    step: AcquireStep,
    i: int,
)
    requires
        call_ensures(
            LocalManager::try_acquire_lease,
            (
                &m,
                &config,
                ext_ip,
                &attrs,
                Ok::<(Vec<Lease>, i64), XlineRegistryError>((leases, revision)),
            ),
            step,
        ),
        0 <= i < leases@.len(),
        leases@[i].attrs.public_ip == ext_ip,
        forall|k: int| 0 <= k < i ==> (#[trigger] leases@[k]).attrs.public_ip != ext_ip,
        !({
            &&& config.subnet_min is Some && config.subnet_max is Some
            &&& config.subnet_min->0 <= leases@[i].subnet.addr <= config.subnet_max->0
            &&& leases@[i].subnet.prefix == config.subnet_len
            &&& if config.enable_ipv6 {
                config.ipv6_subnet_min is Some && config.ipv6_subnet_max is Some
                    && leases@[i].ipv6_subnet.addr != 0
                    && config.ipv6_subnet_min->0 <= leases@[i].ipv6_subnet.addr
                    <= config.ipv6_subnet_max->0
                    && leases@[i].ipv6_subnet.prefix == config.ipv6_subnet_len
            } else {
                leases@[i].ipv6_subnet.prefix == 0
            }
        }),
    ensures
        step matches AcquireStep::DeleteSubnet { sn, sn6, leases: read } && sn == leases@[i].subnet
            && sn6 == Some(leases@[i].ipv6_subnet) && read == leases,
{
    let pred = |l: Lease| l.attrs.public_ip == ext_ip;
    lemma_first_lease(leases@, pred, i);
    assert(forall|k: int|
        0 <= k < leases@.len() ==> pred(#[trigger] leases@[k]) == (leases@[k].attrs.public_ip
            == ext_ip));
    assert(lease_of_ip(leases@, ext_ip) == Some(leases@[i]));
    if !config.enable_ipv6 {
        lemma_no_ipv6_compat(config, leases@[i].ipv6_subnet);
    }
}

/// A node without a lease goes back to the subnets it had before, where no lease holds the
/// IPv4 one and both fit the network. Without IPv6, it fits to have had no IPv6 subnet.
pub proof fn law_attempt_reuses_previous_subnets(
    m: LocalManager,
    config: Config,
    ext_ip: u32,
    attrs: LeaseAttrs,
    leases: Vec<Lease>,
    revision: i64,
    step: AcquireStep,
)
    requires
        call_ensures(
            LocalManager::try_acquire_lease,
            (
                &m,
                &config,
                ext_ip,
                &attrs,
                Ok::<(Vec<Lease>, i64), XlineRegistryError>((leases, revision)),
            ),
            step,
        ),
        forall|k: int| 0 <= k < leases@.len() ==> (#[trigger] leases@[k]).attrs.public_ip != ext_ip,
        ({
            let sn = m.previous_subnet->0;
            let sn6 = m.previous_subnet_ipv6->0;
            &&& m.previous_subnet is Some
            &&& forall|k: int| 0 <= k < leases@.len() ==> (#[trigger] leases@[k]).subnet != sn
            &&& config.subnet_min is Some && config.subnet_max is Some
            &&& config.subnet_min->0 <= sn.addr <= config.subnet_max->0
            &&& sn.prefix == config.subnet_len
            &&& if config.enable_ipv6 {
                m.previous_subnet_ipv6 is Some && config.ipv6_subnet_min is Some
                    && config.ipv6_subnet_max is Some && sn6.addr != 0 && config.ipv6_subnet_min->0
                    <= sn6.addr <= config.ipv6_subnet_max->0 && sn6.prefix == config.ipv6_subnet_len
            } else {
                m.previous_subnet_ipv6 is Some ==> sn6.prefix == 0
            }
        }),
    ensures
        step matches AcquireStep::CreateSubnet { request } && Some(request.sn) == m.previous_subnet
            && request.sn6 == m.previous_subnet_ipv6 && request.attrs == attrs && request.ttl_secs
            == 86_400,
{
    let pred = |l: Lease| l.attrs.public_ip == ext_ip;
    lemma_first_lease(leases@, pred, 0);
    assert(forall|k: int|
        0 <= k < leases@.len() ==> pred(#[trigger] leases@[k]) == (leases@[k].attrs.public_ip
            == ext_ip));
    assert(lease_of_ip(leases@, ext_ip) == None::<Lease>);
    lemma_takes_previous(m, config, leases@, attrs, step);
}

/// A node without a lease that cannot go back to the subnets it had before takes free ones
/// of the network, for a day and with its attributes, or fails as the allocation does.
pub proof fn law_attempt_takes_new_subnets(
    m: LocalManager,
    config: Config,
    ext_ip: u32,
    attrs: LeaseAttrs,
    leases: Vec<Lease>,
    revision: i64,
    step: AcquireStep,
)
    requires
        call_ensures(
            LocalManager::try_acquire_lease,
            (
                &m,
                &config,
                ext_ip,
                &attrs,
                Ok::<(Vec<Lease>, i64), XlineRegistryError>((leases, revision)),
            ),
            step,
        ),
        forall|k: int| 0 <= k < leases@.len() ==> (#[trigger] leases@[k]).attrs.public_ip != ext_ip,
        !({
            let sn = m.previous_subnet->0;
            let sn6 = m.previous_subnet_ipv6->0;
            &&& m.previous_subnet is Some
            &&& forall|k: int| 0 <= k < leases@.len() ==> (#[trigger] leases@[k]).subnet != sn
            &&& config.subnet_min is Some && config.subnet_max is Some
            &&& config.subnet_min->0 <= sn.addr <= config.subnet_max->0
            &&& sn.prefix == config.subnet_len
            &&& if config.enable_ipv6 {
                m.previous_subnet_ipv6 is Some && config.ipv6_subnet_min is Some
                    && config.ipv6_subnet_max is Some && sn6.addr != 0 && config.ipv6_subnet_min->0
                    <= sn6.addr <= config.ipv6_subnet_max->0 && sn6.prefix == config.ipv6_subnet_len
            } else {
                m.previous_subnet_ipv6 is Some ==> sn6.prefix == 0
            }
        }),
    ensures
        step is CreateSubnet || step is Failed,
        step matches AcquireStep::CreateSubnet { request } ==> request.attrs == attrs
            && request.ttl_secs == 86_400 && (request.sn6 is Some <==> config.enable_ipv6),
        step matches AcquireStep::CreateSubnet { request } ==> ({
            let min = config.subnet_min->0;
            let size = pow2((32 - config.subnet_len) as nat) as int;
            &&& config.subnet_min is Some && config.subnet_max is Some && config.subnet_len <= 32
            &&& request.sn.prefix == config.subnet_len
            &&& min <= request.sn.addr <= config.subnet_max->0
            &&& (request.sn.addr - min) % size == 0
            &&& request.sn.addr + size <= u32::MAX
            &&& forall|k: int| 0 <= k < leases@.len()
                ==> (#[trigger] leases@[k]).subnet != request.sn
            &&& forall|k: int|
                0 <= k < leases@.len() && leases@[k].subnet.prefix == config.subnet_len
                    && (leases@[k].subnet.addr - min)
                    % size == 0 ==> {
                    ||| (#[trigger] leases@[k]).subnet.addr + size <= request.sn.addr
                    ||| request.sn.addr + size <= leases@[k].subnet.addr
                }
        }),
        step matches AcquireStep::CreateSubnet { request } ==> config.enable_ipv6 ==> ({
            let min = config.ipv6_subnet_min->0;
            let size = pow2((128 - config.ipv6_subnet_len) as nat) as int;
            &&& config.ipv6_subnet_min is Some && config.ipv6_subnet_max is Some
                && config.ipv6_subnet_len <= 128
            &&& request.sn6->0.prefix == config.ipv6_subnet_len
            &&& min <= request.sn6->0.addr <= config.ipv6_subnet_max->0
            &&& (request.sn6->0.addr - min) % size == 0
            &&& request.sn6->0.addr + size <= u128::MAX
            &&& forall|k: int| 0 <= k < leases@.len()
                ==> (#[trigger] leases@[k]).ipv6_subnet != request.sn6->0
            &&& forall|k: int|
                0 <= k < leases@.len() && leases@[k].ipv6_subnet.prefix
                    == config.ipv6_subnet_len && (leases@[k].ipv6_subnet.addr - min)
                    % size == 0 ==> {
                    ||| (#[trigger] leases@[k]).ipv6_subnet.addr + size <= request.sn6->0.addr
                    ||| request.sn6->0.addr + size <= leases@[k].ipv6_subnet.addr
                }
        }),
        step matches AcquireStep::Failed(e) ==> e is MissingSubnetMin || e is MissingSubnetMax
            || e is InvalidSubnetStart || e is InvalidIpv6SubnetStart || e is NoNextNetwork
            || e is OutOfSubnets,
{
    let pred = |l: Lease| l.attrs.public_ip == ext_ip;
    lemma_first_lease(leases@, pred, 0);
    assert(forall|k: int|
        0 <= k < leases@.len() ==> pred(#[trigger] leases@[k]) == (leases@[k].attrs.public_ip
            == ext_ip));
    assert(lease_of_ip(leases@, ext_ip) == None::<Lease>);
    lemma_takes_new(m, config, leases@, attrs, step);
}

/// A node without a lease takes subnets where the network has free ones: free positions
/// `w4` of the IPv4 range and, with IPv6, `w6` of the IPv6 range.
pub proof fn law_attempt_finds_free_subnets(
    m: LocalManager,
    config: Config,
    ext_ip: u32,
    attrs: LeaseAttrs,
    leases: Vec<Lease>,
    revision: i64,
    step: AcquireStep,
    w4: Seq<u32>,
    w6: Seq<u128>,
)
    requires
        call_ensures(
            LocalManager::try_acquire_lease,
            (
                &m,
                &config,
                ext_ip,
                &attrs,
                Ok::<(Vec<Lease>, i64), XlineRegistryError>((leases, revision)),
            ),
            step,
        ),
        forall|k: int| 0 <= k < leases@.len() ==> (#[trigger] leases@[k]).attrs.public_ip != ext_ip,
        ({
            let min = config.subnet_min->0;
            let max = config.subnet_max->0;
            let size = pow2((32 - config.subnet_len) as nat) as int;
            &&& config.subnet_min is Some && config.subnet_max is Some && config.subnet_len <= 32
            &&& w4.len() > 0
            &&& forall|i: int|
                0 <= i < w4.len() ==> min <= #[trigger] w4[i] <= max && (w4[i] - min) % size == 0
            &&& forall|i: int, j: int| 0 <= i < j < w4.len() ==> #[trigger] w4[i] < #[trigger] w4[j]
            &&& forall|i: int, k: int|
                0 <= i < w4.len() && 0 <= k < leases@.len() ==> (#[trigger] leases@[k]).subnet != (
                Ipv4Network { addr: #[trigger] w4[i], prefix: config.subnet_len })
            &&& max + size <= u32::MAX || (w4.len() == 100 && w4[99] + size <= u32::MAX)
        }),
        config.enable_ipv6 ==> ({
            let min = config.ipv6_subnet_min->0;
            let max = config.ipv6_subnet_max->0;
            let size = pow2((128 - config.ipv6_subnet_len) as nat) as int;
            &&& config.ipv6_subnet_min is Some && config.ipv6_subnet_max is Some
                && config.ipv6_subnet_len <= 128
            &&& w6.len() > 0
            &&& forall|i: int|
                0 <= i < w6.len() ==> min <= #[trigger] w6[i] <= max && (w6[i] - min) % size == 0
            &&& forall|i: int, j: int| 0 <= i < j < w6.len() ==> #[trigger] w6[i] < #[trigger] w6[j]
            &&& forall|i: int, k: int|
                0 <= i < w6.len() && 0 <= k < leases@.len()
                    ==> (#[trigger] leases@[k]).ipv6_subnet != (
                Ipv6Network { addr: #[trigger] w6[i], prefix: config.ipv6_subnet_len })
            &&& max + size <= u128::MAX || (w6.len() == 100 && w6[99] + size <= u128::MAX)
        }),
    ensures
        step is CreateSubnet,
{
    let pred = |l: Lease| l.attrs.public_ip == ext_ip;
    lemma_first_lease(leases@, pred, 0);
    assert(forall|k: int|
        0 <= k < leases@.len() ==> pred(#[trigger] leases@[k]) == (leases@[k].attrs.public_ip
            == ext_ip));
    assert(lease_of_ip(leases@, ext_ip) == None::<Lease>);
    lemma_allocation_succeeds(config, leases@, w4, w6);
}

/// An attempt whose deletion failed fails with it.
pub proof fn law_attempt_fails_with_the_deletion(
    m: LocalManager,
    config: Config,
    leases: &[Lease],
    attrs: LeaseAttrs,
    error: XlineRegistryError,
    step: AcquireStep,
)
    requires
        call_ensures(
            LocalManager::try_acquire_lease_deleted,
            (&m, &config, leases, &attrs, Err::<(), XlineRegistryError>(error)),
            step,
        ),
    ensures
        step == AcquireStep::Failed(ManagerError::Registry(error)),
{
}

/// A node that gave its lease up goes back to the subnets it had before, as one without a
/// lease does.
pub proof fn law_attempt_reuses_previous_subnets_after_deletion(
    m: LocalManager,
    config: Config,
    leases: &[Lease],
    attrs: LeaseAttrs,
    step: AcquireStep,
)
    requires
        call_ensures(
            LocalManager::try_acquire_lease_deleted,
            (&m, &config, leases, &attrs, Ok::<(), XlineRegistryError>(())),
            step,
        ),
        ({
            let sn = m.previous_subnet->0;
            let sn6 = m.previous_subnet_ipv6->0;
            &&& m.previous_subnet is Some
            &&& forall|k: int| 0 <= k < leases@.len() ==> (#[trigger] leases@[k]).subnet != sn
            &&& config.subnet_min is Some && config.subnet_max is Some
            &&& config.subnet_min->0 <= sn.addr <= config.subnet_max->0
            &&& sn.prefix == config.subnet_len
            &&& if config.enable_ipv6 {
                m.previous_subnet_ipv6 is Some && config.ipv6_subnet_min is Some
                    && config.ipv6_subnet_max is Some && sn6.addr != 0 && config.ipv6_subnet_min->0
                    <= sn6.addr <= config.ipv6_subnet_max->0 && sn6.prefix == config.ipv6_subnet_len
            } else {
                m.previous_subnet_ipv6 is Some ==> sn6.prefix == 0
            }
        }),
    ensures
        step matches AcquireStep::CreateSubnet { request } && Some(request.sn) == m.previous_subnet
            && request.sn6 == m.previous_subnet_ipv6 && request.attrs == attrs && request.ttl_secs
            == 86_400,
{
    lemma_takes_previous(m, config, leases@, attrs, step);
}

/// A node that gave its lease up takes free subnets, as one without a lease does.
pub proof fn law_attempt_takes_new_subnets_after_deletion(
    m: LocalManager,
    config: Config,
    leases: &[Lease],
    attrs: LeaseAttrs,
    step: AcquireStep,
)
    requires
        call_ensures(
            LocalManager::try_acquire_lease_deleted,
            (&m, &config, leases, &attrs, Ok::<(), XlineRegistryError>(())),
            step,
        ),
        !({
            let sn = m.previous_subnet->0;
            let sn6 = m.previous_subnet_ipv6->0;
            &&& m.previous_subnet is Some
            &&& forall|k: int| 0 <= k < leases@.len() ==> (#[trigger] leases@[k]).subnet != sn
            &&& config.subnet_min is Some && config.subnet_max is Some
            &&& config.subnet_min->0 <= sn.addr <= config.subnet_max->0
            &&& sn.prefix == config.subnet_len
            &&& if config.enable_ipv6 {
                m.previous_subnet_ipv6 is Some && config.ipv6_subnet_min is Some
                    && config.ipv6_subnet_max is Some && sn6.addr != 0 && config.ipv6_subnet_min->0
                    <= sn6.addr <= config.ipv6_subnet_max->0 && sn6.prefix == config.ipv6_subnet_len
            } else {
                m.previous_subnet_ipv6 is Some ==> sn6.prefix == 0
            }
        }),
    ensures
        step is CreateSubnet || step is Failed,
        step matches AcquireStep::CreateSubnet { request } ==> request.attrs == attrs
            && request.ttl_secs == 86_400 && (request.sn6 is Some <==> config.enable_ipv6),
        step matches AcquireStep::CreateSubnet { request } ==> ({
            let min = config.subnet_min->0;
            let size = pow2((32 - config.subnet_len) as nat) as int;
            &&& config.subnet_min is Some && config.subnet_max is Some && config.subnet_len <= 32
            &&& request.sn.prefix == config.subnet_len
            &&& min <= request.sn.addr <= config.subnet_max->0
            &&& (request.sn.addr - min) % size == 0
            &&& request.sn.addr + size <= u32::MAX
            &&& forall|k: int| 0 <= k < leases@.len()
                ==> (#[trigger] leases@[k]).subnet != request.sn
            &&& forall|k: int|
                0 <= k < leases@.len() && leases@[k].subnet.prefix == config.subnet_len
                    && (leases@[k].subnet.addr - min)
                    % size == 0 ==> {
                    ||| (#[trigger] leases@[k]).subnet.addr + size <= request.sn.addr
                    ||| request.sn.addr + size <= leases@[k].subnet.addr
                }
        }),
        step matches AcquireStep::CreateSubnet { request } ==> config.enable_ipv6 ==> ({
            let min = config.ipv6_subnet_min->0;
            let size = pow2((128 - config.ipv6_subnet_len) as nat) as int;
            &&& config.ipv6_subnet_min is Some && config.ipv6_subnet_max is Some
                && config.ipv6_subnet_len <= 128
            &&& request.sn6->0.prefix == config.ipv6_subnet_len
            &&& min <= request.sn6->0.addr <= config.ipv6_subnet_max->0
            &&& (request.sn6->0.addr - min) % size == 0
            &&& request.sn6->0.addr + size <= u128::MAX
            &&& forall|k: int| 0 <= k < leases@.len()
                ==> (#[trigger] leases@[k]).ipv6_subnet != request.sn6->0
            &&& forall|k: int|
                0 <= k < leases@.len() && leases@[k].ipv6_subnet.prefix
                    == config.ipv6_subnet_len && (leases@[k].ipv6_subnet.addr - min)
                    % size == 0 ==> {
                    ||| (#[trigger] leases@[k]).ipv6_subnet.addr + size <= request.sn6->0.addr
                    ||| request.sn6->0.addr + size <= leases@[k].ipv6_subnet.addr
                }
        }),
        step matches AcquireStep::Failed(e) ==> e is MissingSubnetMin || e is MissingSubnetMax
            || e is InvalidSubnetStart || e is InvalidIpv6SubnetStart || e is NoNextNetwork
            || e is OutOfSubnets,
{
    lemma_takes_new(m, config, leases@, attrs, step);
}

/// A node that gave its lease up takes subnets where the network has free ones.
pub proof fn law_attempt_finds_free_subnets_after_deletion(
    m: LocalManager,
    config: Config,
    leases: &[Lease],
    attrs: LeaseAttrs,
    step: AcquireStep,
    w4: Seq<u32>,
    w6: Seq<u128>,
)
    requires
        call_ensures(
            LocalManager::try_acquire_lease_deleted,
            (&m, &config, leases, &attrs, Ok::<(), XlineRegistryError>(())),
            step,
        ),
        ({
            let min = config.subnet_min->0;
            let max = config.subnet_max->0;
            let size = pow2((32 - config.subnet_len) as nat) as int;
            &&& config.subnet_min is Some && config.subnet_max is Some && config.subnet_len <= 32
            &&& w4.len() > 0
            &&& forall|i: int|
                0 <= i < w4.len() ==> min <= #[trigger] w4[i] <= max && (w4[i] - min) % size == 0
            &&& forall|i: int, j: int| 0 <= i < j < w4.len() ==> #[trigger] w4[i] < #[trigger] w4[j]
            &&& forall|i: int, k: int|
                0 <= i < w4.len() && 0 <= k < leases@.len() ==> (#[trigger] leases@[k]).subnet != (
                Ipv4Network { addr: #[trigger] w4[i], prefix: config.subnet_len })
            &&& max + size <= u32::MAX || (w4.len() == 100 && w4[99] + size <= u32::MAX)
        }),
        config.enable_ipv6 ==> ({
            let min = config.ipv6_subnet_min->0;
            let max = config.ipv6_subnet_max->0;
            let size = pow2((128 - config.ipv6_subnet_len) as nat) as int;
            &&& config.ipv6_subnet_min is Some && config.ipv6_subnet_max is Some
                && config.ipv6_subnet_len <= 128
            &&& w6.len() > 0
            &&& forall|i: int|
                0 <= i < w6.len() ==> min <= #[trigger] w6[i] <= max && (w6[i] - min) % size == 0
            &&& forall|i: int, j: int| 0 <= i < j < w6.len() ==> #[trigger] w6[i] < #[trigger] w6[j]
            &&& forall|i: int, k: int|
                0 <= i < w6.len() && 0 <= k < leases@.len()
                    ==> (#[trigger] leases@[k]).ipv6_subnet != (
                Ipv6Network { addr: #[trigger] w6[i], prefix: config.ipv6_subnet_len })
            &&& max + size <= u128::MAX || (w6.len() == 100 && w6[99] + size <= u128::MAX)
        }),
    ensures
        step is CreateSubnet,
{
    lemma_allocation_succeeds(config, leases@, w4, w6);
}

/// A node without a lease that cannot go back to the subnets it had before fails exactly
/// where an allocation among the same leases does, and with the same error.
pub proof fn law_attempt_fails_as_the_allocation_does(
    m: LocalManager,
    config: Config,
    ext_ip: u32,
    attrs: LeaseAttrs,
    leases: Vec<Lease>,
    revision: i64,
    step: AcquireStep,
    listed: &[Lease],
    allocated: Result<(Ipv4Network, Option<Ipv6Network>), ManagerError>,
)
    requires
        call_ensures(
            LocalManager::try_acquire_lease,
            (
                &m,
                &config,
                ext_ip,
                &attrs,
                Ok::<(Vec<Lease>, i64), XlineRegistryError>((leases, revision)),
            ),
            step,
        ),
        forall|k: int| 0 <= k < leases@.len() ==> (#[trigger] leases@[k]).attrs.public_ip != ext_ip,
        !({
            let sn = m.previous_subnet->0;
            let sn6 = m.previous_subnet_ipv6->0;
            &&& m.previous_subnet is Some
            &&& forall|k: int| 0 <= k < leases@.len() ==> (#[trigger] leases@[k]).subnet != sn
            &&& config.subnet_min is Some && config.subnet_max is Some
            &&& config.subnet_min->0 <= sn.addr <= config.subnet_max->0
            &&& sn.prefix == config.subnet_len
            &&& if config.enable_ipv6 {
                m.previous_subnet_ipv6 is Some && config.ipv6_subnet_min is Some
                    && config.ipv6_subnet_max is Some && sn6.addr != 0 && config.ipv6_subnet_min->0
                    <= sn6.addr <= config.ipv6_subnet_max->0 && sn6.prefix == config.ipv6_subnet_len
            } else {
                m.previous_subnet_ipv6 is Some ==> sn6.prefix == 0
            }
        }),
        listed@ == leases@,
        call_ensures(LocalManager::allocate_subnet, (&m, &config, listed), allocated),
    ensures
        allocated matches Err(e) ==> step == AcquireStep::Failed(e),
        allocated is Ok ==> step is CreateSubnet,
{
    let pred = |l: Lease| l.attrs.public_ip == ext_ip;
    lemma_first_lease(leases@, pred, 0);
    assert(forall|k: int|
        0 <= k < leases@.len() ==> pred(#[trigger] leases@[k]) == (leases@[k].attrs.public_ip
            == ext_ip));
    assert(lease_of_ip(leases@, ext_ip) == None::<Lease>);
    lemma_takes_new(m, config, leases@, attrs, step);
    lemma_not_previous(m, config, leases@);
}

/// A node that gave its lease up and cannot go back to the subnets it had before fails
/// exactly where an allocation among the same leases does, and with the same error.
pub proof fn law_attempt_fails_as_the_allocation_does_after_deletion(
    m: LocalManager,
    config: Config,
    leases: &[Lease],
    attrs: LeaseAttrs,
    step: AcquireStep,
    allocated: Result<(Ipv4Network, Option<Ipv6Network>), ManagerError>,
)
    requires
        call_ensures(
            LocalManager::try_acquire_lease_deleted,
            (&m, &config, leases, &attrs, Ok::<(), XlineRegistryError>(())),
            step,
        ),
        !({
            let sn = m.previous_subnet->0;
            let sn6 = m.previous_subnet_ipv6->0;
            &&& m.previous_subnet is Some
            &&& forall|k: int| 0 <= k < leases@.len() ==> (#[trigger] leases@[k]).subnet != sn
            &&& config.subnet_min is Some && config.subnet_max is Some
            &&& config.subnet_min->0 <= sn.addr <= config.subnet_max->0
            &&& sn.prefix == config.subnet_len
            &&& if config.enable_ipv6 {
                m.previous_subnet_ipv6 is Some && config.ipv6_subnet_min is Some
                    && config.ipv6_subnet_max is Some && sn6.addr != 0 && config.ipv6_subnet_min->0
                    <= sn6.addr <= config.ipv6_subnet_max->0 && sn6.prefix == config.ipv6_subnet_len
            } else {
                m.previous_subnet_ipv6 is Some ==> sn6.prefix == 0
            }
        }),
        call_ensures(LocalManager::allocate_subnet, (&m, &config, leases), allocated),
    ensures
        allocated matches Err(e) ==> step == AcquireStep::Failed(e),
        allocated is Ok ==> step is CreateSubnet,
{
    lemma_not_previous(m, config, leases@);
}

/// Fewer than a hundred free positions lie before an IPv4 subnet that a node takes anew.
pub proof fn law_attempt_takes_an_early_v4_subnet(
    m: LocalManager,
    config: Config,
    ext_ip: u32,
    attrs: LeaseAttrs,
    leases: Vec<Lease>,
    revision: i64,
    step: AcquireStep,
    w: Seq<u32>,
)
    requires
        call_ensures(
            LocalManager::try_acquire_lease,
            (
                &m,
                &config,
                ext_ip,
                &attrs,
                Ok::<(Vec<Lease>, i64), XlineRegistryError>((leases, revision)),
            ),
            step,
        ),
        forall|k: int| 0 <= k < leases@.len() ==> (#[trigger] leases@[k]).attrs.public_ip != ext_ip,
        !({
            let sn = m.previous_subnet->0;
            let sn6 = m.previous_subnet_ipv6->0;
            &&& m.previous_subnet is Some
            &&& forall|k: int| 0 <= k < leases@.len() ==> (#[trigger] leases@[k]).subnet != sn
            &&& config.subnet_min is Some && config.subnet_max is Some
            &&& config.subnet_min->0 <= sn.addr <= config.subnet_max->0
            &&& sn.prefix == config.subnet_len
            &&& if config.enable_ipv6 {
                m.previous_subnet_ipv6 is Some && config.ipv6_subnet_min is Some
                    && config.ipv6_subnet_max is Some && sn6.addr != 0 && config.ipv6_subnet_min->0
                    <= sn6.addr <= config.ipv6_subnet_max->0 && sn6.prefix == config.ipv6_subnet_len
            } else {
                m.previous_subnet_ipv6 is Some ==> sn6.prefix == 0
            }
        }),
        w.len() == 100,
        forall|i: int|
            0 <= i < w.len() ==> config.subnet_min->0 <= #[trigger] w[i]
                <= config.subnet_max->0 && (w[i] - config.subnet_min->0) % pow2(
                (32 - config.subnet_len) as nat,
            ) as int == 0,
        forall|i: int, j: int| 0 <= i < j < w.len() ==> #[trigger] w[i] < #[trigger] w[j],
        forall|i: int, k: int|
            0 <= i < w.len() && 0 <= k < leases@.len() ==> (#[trigger] leases@[k]).subnet != (
            Ipv4Network { addr: #[trigger] w[i], prefix: config.subnet_len }),
    ensures
        step matches AcquireStep::CreateSubnet { request } ==> request.sn.addr <= w[99],
{
    let pred = |l: Lease| l.attrs.public_ip == ext_ip;
    lemma_first_lease(leases@, pred, 0);
    assert(forall|k: int|
        0 <= k < leases@.len() ==> pred(#[trigger] leases@[k]) == (leases@[k].attrs.public_ip
            == ext_ip));
    assert(lease_of_ip(leases@, ext_ip) == None::<Lease>);
    lemma_not_previous(m, config, leases@);
    if step is CreateSubnet {
        lemma_v4_among_the_first(
            config,
            leases@,
            step->CreateSubnet_request.sn,
            step->CreateSubnet_request.sn6,
            w,
        );
    }
}

/// Fewer than a hundred free positions lie before an IPv4 subnet that a node takes anew
/// after it gave its lease up.
pub proof fn law_attempt_takes_an_early_v4_subnet_after_deletion(
    m: LocalManager,
    config: Config,
    leases: &[Lease],
    attrs: LeaseAttrs,
    step: AcquireStep,
    w: Seq<u32>,
)
    requires
        call_ensures(
            LocalManager::try_acquire_lease_deleted,
            (&m, &config, leases, &attrs, Ok::<(), XlineRegistryError>(())),
            step,
        ),
        !({
            let sn = m.previous_subnet->0;
            let sn6 = m.previous_subnet_ipv6->0;
            &&& m.previous_subnet is Some
            &&& forall|k: int| 0 <= k < leases@.len() ==> (#[trigger] leases@[k]).subnet != sn
            &&& config.subnet_min is Some && config.subnet_max is Some
            &&& config.subnet_min->0 <= sn.addr <= config.subnet_max->0
            &&& sn.prefix == config.subnet_len
            &&& if config.enable_ipv6 {
                m.previous_subnet_ipv6 is Some && config.ipv6_subnet_min is Some
                    && config.ipv6_subnet_max is Some && sn6.addr != 0 && config.ipv6_subnet_min->0
                    <= sn6.addr <= config.ipv6_subnet_max->0 && sn6.prefix == config.ipv6_subnet_len
            } else {
                m.previous_subnet_ipv6 is Some ==> sn6.prefix == 0
            }
        }),
        w.len() == 100,
        forall|i: int|
            0 <= i < w.len() ==> config.subnet_min->0 <= #[trigger] w[i]
                <= config.subnet_max->0 && (w[i] - config.subnet_min->0) % pow2(
                (32 - config.subnet_len) as nat,
            ) as int == 0,
        forall|i: int, j: int| 0 <= i < j < w.len() ==> #[trigger] w[i] < #[trigger] w[j],
        forall|i: int, k: int|
            0 <= i < w.len() && 0 <= k < leases@.len() ==> (#[trigger] leases@[k]).subnet != (
            Ipv4Network { addr: #[trigger] w[i], prefix: config.subnet_len }),
    ensures
        step matches AcquireStep::CreateSubnet { request } ==> request.sn.addr <= w[99],
{
    lemma_not_previous(m, config, leases@);
    if step is CreateSubnet {
        lemma_v4_among_the_first(
            config,
            leases@,
            step->CreateSubnet_request.sn,
            step->CreateSubnet_request.sn6,
            w,
        );
    }
}

/// Fewer than a hundred free positions lie before an IPv6 subnet that a node takes anew.
pub proof fn law_attempt_takes_an_early_v6_subnet(
    m: LocalManager,
    config: Config,
    ext_ip: u32,
    attrs: LeaseAttrs,
    leases: Vec<Lease>,
    revision: i64,
    step: AcquireStep,
    w: Seq<u128>,
)
    requires
        call_ensures(
            LocalManager::try_acquire_lease,
            (
                &m,
                &config,
                ext_ip,
                &attrs,
                Ok::<(Vec<Lease>, i64), XlineRegistryError>((leases, revision)),
            ),
            step,
        ),
        forall|k: int| 0 <= k < leases@.len() ==> (#[trigger] leases@[k]).attrs.public_ip != ext_ip,
        !({
            let sn = m.previous_subnet->0;
            let sn6 = m.previous_subnet_ipv6->0;
            &&& m.previous_subnet is Some
            &&& forall|k: int| 0 <= k < leases@.len() ==> (#[trigger] leases@[k]).subnet != sn
            &&& config.subnet_min is Some && config.subnet_max is Some
            &&& config.subnet_min->0 <= sn.addr <= config.subnet_max->0
            &&& sn.prefix == config.subnet_len
            &&& if config.enable_ipv6 {
                m.previous_subnet_ipv6 is Some && config.ipv6_subnet_min is Some
                    && config.ipv6_subnet_max is Some && sn6.addr != 0 && config.ipv6_subnet_min->0
                    <= sn6.addr <= config.ipv6_subnet_max->0 && sn6.prefix == config.ipv6_subnet_len
            } else {
                m.previous_subnet_ipv6 is Some ==> sn6.prefix == 0
            }
        }),
        w.len() == 100,
        forall|i: int|
            0 <= i < w.len() ==> config.ipv6_subnet_min->0 <= #[trigger] w[i]
                <= config.ipv6_subnet_max->0 && (w[i] - config.ipv6_subnet_min->0) % pow2(
                (128 - config.ipv6_subnet_len) as nat,
            ) as int == 0,
        forall|i: int, j: int| 0 <= i < j < w.len() ==> #[trigger] w[i] < #[trigger] w[j],
        forall|i: int, k: int|
            0 <= i < w.len() && 0 <= k < leases@.len() ==> (#[trigger] leases@[k]).ipv6_subnet != (
            Ipv6Network { addr: #[trigger] w[i], prefix: config.ipv6_subnet_len }),
    ensures
        step matches AcquireStep::CreateSubnet { request } ==> request.sn6 is Some
            ==> request.sn6->0.addr
            <= w[99],
{
    let pred = |l: Lease| l.attrs.public_ip == ext_ip;
    lemma_first_lease(leases@, pred, 0);
    assert(forall|k: int|
        0 <= k < leases@.len() ==> pred(#[trigger] leases@[k]) == (leases@[k].attrs.public_ip
            == ext_ip));
    assert(lease_of_ip(leases@, ext_ip) == None::<Lease>);
    lemma_not_previous(m, config, leases@);
    if step is CreateSubnet {
        lemma_v6_among_the_first(
            config,
            leases@,
            step->CreateSubnet_request.sn,
            step->CreateSubnet_request.sn6,
            w,
        );
    }
}

/// Fewer than a hundred free positions lie before an IPv6 subnet that a node takes anew
/// after it gave its lease up.
pub proof fn law_attempt_takes_an_early_v6_subnet_after_deletion(
    m: LocalManager,
    config: Config,
    leases: &[Lease],
    attrs: LeaseAttrs,
    step: AcquireStep,
    w: Seq<u128>,
)
    requires
        call_ensures(
            LocalManager::try_acquire_lease_deleted,
            (&m, &config, leases, &attrs, Ok::<(), XlineRegistryError>(())),
            step,
        ),
        !({
            let sn = m.previous_subnet->0;
            let sn6 = m.previous_subnet_ipv6->0;
            &&& m.previous_subnet is Some
            &&& forall|k: int| 0 <= k < leases@.len() ==> (#[trigger] leases@[k]).subnet != sn
            &&& config.subnet_min is Some && config.subnet_max is Some
            &&& config.subnet_min->0 <= sn.addr <= config.subnet_max->0
            &&& sn.prefix == config.subnet_len
            &&& if config.enable_ipv6 {
                m.previous_subnet_ipv6 is Some && config.ipv6_subnet_min is Some
                    && config.ipv6_subnet_max is Some && sn6.addr != 0 && config.ipv6_subnet_min->0
                    <= sn6.addr <= config.ipv6_subnet_max->0 && sn6.prefix == config.ipv6_subnet_len
            } else {
                m.previous_subnet_ipv6 is Some ==> sn6.prefix == 0
            }
        }),
        w.len() == 100,
        forall|i: int|
            0 <= i < w.len() ==> config.ipv6_subnet_min->0 <= #[trigger] w[i]
                <= config.ipv6_subnet_max->0 && (w[i] - config.ipv6_subnet_min->0) % pow2(
                (128 - config.ipv6_subnet_len) as nat,
            ) as int == 0,
        forall|i: int, j: int| 0 <= i < j < w.len() ==> #[trigger] w[i] < #[trigger] w[j],
        forall|i: int, k: int|
            0 <= i < w.len() && 0 <= k < leases@.len() ==> (#[trigger] leases@[k]).ipv6_subnet != (
            Ipv6Network { addr: #[trigger] w[i], prefix: config.ipv6_subnet_len }),
    ensures
        step matches AcquireStep::CreateSubnet { request } ==> request.sn6 is Some
            ==> request.sn6->0.addr
            <= w[99],
{
    lemma_not_previous(m, config, leases@);
    if step is CreateSubnet {
        lemma_v6_among_the_first(
            config,
            leases@,
            step->CreateSubnet_request.sn,
            step->CreateSubnet_request.sn6,
            w,
        );
    }
}

/// A renewed lease has the attributes of now and the expiration that the registry
/// answered, and is otherwise the lease that was held. Without an answer the error stands.
pub proof fn law_renewed_lease_is_the_lease_held(
    m: LocalManager,
    lease: Lease,
    attrs: LeaseAttrs,
    updated: Result<Timestamp, XlineRegistryError>,
    r: Result<Lease, ManagerError>,
)
    requires
        call_ensures(LocalManager::try_acquire_lease_updated, (&m, lease, &attrs, updated), r),
    ensures
        updated matches Err(e) ==> r == Err::<Lease, ManagerError>(ManagerError::Registry(e)),
        updated is Ok ==> r is Ok && r->Ok_0.expiration == updated->Ok_0,
        r matches Ok(l) ==> {
            &&& updated is Ok
            &&& l.attrs == attrs
            &&& l.subnet == lease.subnet
            &&& l.ipv6_subnet == lease.ipv6_subnet
            &&& l.enable_ipv4 == lease.enable_ipv4
            &&& l.enable_ipv6 == lease.enable_ipv6
            &&& l.asof == lease.asof
        },
{
}

/// A lease that was created has the subnets and the attributes that were written and the
/// expiration that the registry answered. IPv4 is enabled, and IPv6 exactly where an IPv6
/// subnet was written; without one the lease has all of IPv6. A key that exists already
/// asks to try again, and every other error stands.
pub proof fn law_created_lease_is_what_was_written(
    m: LocalManager,
    request: SubnetWrite,
    created: Result<Timestamp, XlineRegistryError>,
    r: Result<Lease, ManagerError>,
)
    requires
        call_ensures(LocalManager::try_acquire_lease_created, (&m, request, created), r),
    ensures
        created is Ok <==> r is Ok,
        r matches Ok(l) ==> {
            &&& l.expiration == created->Ok_0
            &&& l.subnet == request.sn
            &&& l.attrs == request.attrs
            &&& l.enable_ipv4
            &&& l.enable_ipv6 == (request.sn6 is Some)
            &&& request.sn6 is Some ==> l.ipv6_subnet == request.sn6->0
            &&& request.sn6 is None ==> l.ipv6_subnet.addr == 0 && l.ipv6_subnet.prefix == 0
            &&& l.asof is None
        },
        created matches Err(e) ==> r == (if e is Xline && e->Xline_0.status is Some
            && e->Xline_0.status->0.code == Code::AlreadyExists {
            Err::<Lease, ManagerError>(ManagerError::TryAgain)
        } else {
            Err(ManagerError::Registry(e))
        }),
{
}

/// Another attempt follows exactly where the registry asked to try again and there were
/// fewer than ten. After ten the attempts have failed; any other outcome stands.
pub proof fn law_ten_attempts(
    attempts: usize,
    outcome: Result<Lease, ManagerError>,
    r: AttemptOutcome,
)
    requires
        call_ensures(LocalManager::acquire_lease, (attempts, outcome), r),
    ensures
        r is Retry <==> attempts < 10 && outcome == Err::<Lease, ManagerError>(
            ManagerError::Registry(XlineRegistryError::TryAgain),
        ),
        r matches AttemptOutcome::Finished(result) ==> {
            &&& outcome is Ok ==> result == outcome
            &&& outcome is Err && outcome->Err_0 != ManagerError::Registry(
                XlineRegistryError::TryAgain,
            ) ==> result == outcome
            &&& outcome is Err && outcome->Err_0 == ManagerError::Registry(
                XlineRegistryError::TryAgain,
            ) ==> result == Err::<Lease, ManagerError>(ManagerError::MaxRetries)
        },
{
}

} // verus!
