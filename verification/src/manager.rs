//! How a node comes by its lease and keeps it.
use vstd::prelude::*;

use crate::allocate::{
    allocatable, allocation_error, available_v4, available_v6, choose_one, config_v4_free,
    config_v6_free, pick_subnets,
};
use crate::config::Config;
use crate::cursor::{Cursor, WatchCursor};
use crate::error::{is_err_etcd_node_exist, node_exists, ManagerError, XlineRegistryError};
use crate::ip::{v4_text, Ipv4Network, Ipv6Network};
use crate::lease::{EventType, Lease, LeaseAttrs, LeaseEvent, LeaseWatchResult};
use crate::text::join2;
use crate::time::{margin_in_range, time_until, Pause, Timestamp};

verus! {

/// How often a node tries to acquire a lease while others take the subnets that it
/// wants.
pub const RACE_RETRIES: usize = 10;

/// How long a lease lives unless it is renewed, in seconds.
pub const SUBNET_TTL: i64 = 86_400;

/// How long to wait after a lease could not be renewed, in seconds.
pub const RENEW_RETRY_SECS: u64 = 60;

/// The node's side of leasing: the subnets it had before, and how long before its
/// lease expires it renews it.
#[derive(Clone, Copy, Debug, PartialEq, Eq, Structural)]
pub struct LocalManager {
    pub previous_subnet: Option<Ipv4Network>,
    pub previous_subnet_ipv6: Option<Ipv6Network>,
    /// In minutes.
    pub renew_margin_secs: i64,
}

/// A subnet to write to the registry, with what goes with it.
#[derive(Debug, PartialEq, Eq)]
pub struct SubnetWrite {
    pub sn: Ipv4Network,
    pub sn6: Option<Ipv6Network>,
    pub attrs: LeaseAttrs,
    pub ttl_secs: i64,
}

/// What an attempt to acquire a lease does next.
#[derive(Debug, PartialEq, Eq)]
pub enum AcquireStep {
    /// Renew the lease that the node holds already.
    UpdateSubnet { request: SubnetWrite, asof: i64, lease: Lease },
    /// Give up the lease that the node holds, which no longer fits the network, and
    /// go on with the leases that were read.
    DeleteSubnet { sn: Ipv4Network, sn6: Option<Ipv6Network>, leases: Vec<Lease> },
    /// Write a new lease.
    CreateSubnet { request: SubnetWrite },
    /// The attempt has failed.
    Failed(ManagerError),
}

/// What follows an attempt to acquire a lease.
#[derive(Debug, PartialEq, Eq)]
pub enum AttemptOutcome {
    Retry,
    Finished(Result<Lease, ManagerError>),
}

/// What a node learns while it holds a lease.
#[derive(Debug, PartialEq, Eq)]
pub enum KeepEvent {
    /// The time to renew has come.
    RenewalDue,
    /// The registry answered to the renewal, with the new expiration or an error.
    Renewed(Result<Timestamp, XlineRegistryError>),
    /// The watch on the lease reported, or ended.
    Watched(Option<Vec<LeaseWatchResult>>),
}

/// What a node that holds a lease does next.
#[derive(Debug, PartialEq, Eq)]
pub enum KeepAction {
    /// Wait until the renewal is due or the watch reports.
    Wait,
    /// Renew the lease.
    Renew,
    /// Wait so many seconds and take up waiting again.
    PauseSecs(u64),
    /// The lease is lost.
    Stop(ManagerError),
}

/// The first lease that satisfies `pred`.
pub open spec fn first_lease(leases: Seq<Lease>, pred: spec_fn(Lease) -> bool) -> Option<Lease>
    decreases leases.len(),
{
    if leases.len() == 0 {
        None
    } else if pred(leases[0]) {
        Some(leases[0])
    } else {
        first_lease(leases.drop_first(), pred)
    }
}

/// The lease of the node with this public address.
pub open spec fn lease_of_ip(leases: Seq<Lease>, ip: u32) -> Option<Lease> {
    first_lease(leases, |l: Lease| l.attrs.public_ip == ip)
}

/// The lease of this subnet.
pub open spec fn lease_of_subnet(leases: Seq<Lease>, subnet: Ipv4Network) -> Option<Lease> {
    first_lease(leases, |l: Lease| l.subnet == subnet)
}

/// The first lease of the node with this public address.
pub fn find_lease_by_ip(leases: &[Lease], pub_ip: u32) -> (r: Option<Lease>)
    ensures
        r == lease_of_ip(leases@, pub_ip),
{
    let ghost pred = |l: Lease| l.attrs.public_ip == pub_ip;
    let mut i: usize = 0;
    assert(leases@.skip(0) =~= leases@);
    while i < leases.len()
        invariant
            i <= leases@.len(),
            pred == (|l: Lease| l.attrs.public_ip == pub_ip),
            first_lease(leases@, pred) == first_lease(leases@.skip(i as int), pred),
        decreases leases@.len() - i,
    {
        assert(leases@.skip(i as int).drop_first() =~= leases@.skip(i + 1));
        if leases[i].attrs.public_ip == pub_ip {
            return Some(leases[i].clone());
        }
        i = i + 1;
    }
    None
}

/// The first lease of the subnet.
pub fn find_lease_by_subnet(leases: &[Lease], subnet: Ipv4Network) -> (r: Option<Lease>)
    ensures
        r == lease_of_subnet(leases@, subnet),
{
    let ghost pred = |l: Lease| l.subnet == subnet;
    let mut i: usize = 0;
    assert(leases@.skip(0) =~= leases@);
    while i < leases.len()
        invariant
            i <= leases@.len(),
            pred == (|l: Lease| l.subnet == subnet),
            first_lease(leases@, pred) == first_lease(leases@.skip(i as int), pred),
        decreases leases@.len() - i,
    {
        assert(leases@.skip(i as int).drop_first() =~= leases@.skip(i + 1));
        if leases[i].subnet == subnet {
            return Some(leases[i].clone());
        }
        i = i + 1;
    }
    None
}

/// Whether the IPv4 subnet is one that the network leases.
pub open spec fn v4_compat(config: Config, sn: Option<Ipv4Network>) -> bool {
    sn matches Some(sn) && config.subnet_min matches Some(min) && config.subnet_max matches Some(max)
        && min <= sn.addr <= max && sn.prefix == config.subnet_len
}

/// Whether the IPv6 subnet is one that the network leases. A network without IPv6
/// leases none, or the one that is all of IPv6.
pub open spec fn v6_compat(config: Config, sn6: Option<Ipv6Network>) -> bool {
    if config.enable_ipv6 {
        sn6 matches Some(sn6) && config.ipv6_subnet_min matches Some(min)
            && config.ipv6_subnet_max matches Some(max) && sn6.addr != 0 && min <= sn6.addr <= max
            && sn6.prefix == config.ipv6_subnet_len
    } else {
        sn6 matches Some(sn6) ==> sn6.lowest() == 0 && sn6.prefix == 0
    }
}

/// Whether the IPv4 subnet is one that the network leases.
pub fn is_subnet_config_compat(config: &Config, sn: Option<Ipv4Network>) -> (r: bool)
    ensures
        r == v4_compat(*config, sn),
{
    let sn: Ipv4Network = match sn {
        Some(sn) => sn,
        None => return false,
    };
    match (config.subnet_min, config.subnet_max) {
        (Some(min), Some(max)) => if sn.addr < min || sn.addr > max {
            return false;
        },
        _ => return false,
    }
    sn.prefix == config.subnet_len
}

/// Whether the IPv6 subnet is one that the network leases.
pub fn is_ipv6_subnet_config_compat(config: &Config, sn6: Option<Ipv6Network>) -> (r: bool)
    ensures
        r == v6_compat(*config, sn6),
{
    if !config.enable_ipv6 {
        return match sn6 {
            None => true,
            Some(sn6) => sn6.prefix == 0 && sn6.network() == 0,
        };
    }
    let sn6: Ipv6Network = match sn6 {
        Some(sn6) => sn6,
        None => return false,
    };
    match (config.ipv6_subnet_min, config.ipv6_subnet_max) {
        (Some(min), Some(max)) => if sn6.addr == 0 || sn6.addr < min || sn6.addr > max {
            return false;
        },
        _ => return false,
    }
    sn6.prefix == config.ipv6_subnet_len
}

/// The subnet that the manager had before, where it is free and fits the network.
pub open spec fn reusable_previous(
    m: LocalManager,
    config: Config,
    leases: Seq<Lease>,
) -> Option<Ipv4Network> {
    match m.previous_subnet {
        Some(sn) => if lease_of_subnet(leases, sn) is None && v4_compat(config, Some(sn))
            && v6_compat(config, m.previous_subnet_ipv6) {
            Some(sn)
        } else {
            None
        },
        None => None,
    }
}

/// Whether an attempt that has no lease to renew may go on with `step`: it writes a
/// lease of the subnets that the manager had before, where that is possible, and
/// else of free subnets of the network.
pub open spec fn takes_subnet(
    m: LocalManager,
    config: Config,
    leases: Seq<Lease>,
    attrs: LeaseAttrs,
    step: AcquireStep,
) -> bool {
    match reusable_previous(m, config, leases) {
        Some(sn) => step == (AcquireStep::CreateSubnet {
            request: SubnetWrite {
                sn,
                sn6: m.previous_subnet_ipv6,
                attrs,
                ttl_secs: SUBNET_TTL,
            },
        }),
        None => match allocation_error(config, leases) {
            Some(e) => step == AcquireStep::Failed(e),
            None => step matches AcquireStep::CreateSubnet { request } && allocatable(
                config,
                leases,
                request.sn,
                request.sn6,
            ) && request.attrs == attrs && request.ttl_secs == SUBNET_TTL,
        },
    }
}

/// Whether the lease fits the network.
pub open spec fn fits(config: Config, lease: Lease) -> bool {
    v4_compat(config, Some(lease.subnet)) && v6_compat(config, Some(lease.ipv6_subnet))
}

/// For how long a lease is renewed that the node holds already: one without
/// expiration stays so.
pub open spec fn renewal_ttl(lease: Lease) -> i64 {
    if lease.expiration == (Timestamp { secs: 0, nanos: 0 }) {
        0
    } else {
        SUBNET_TTL
    }
}

/// Whether an attempt goes on with `step` once the registry has answered with all
/// leases. A lease of the node is renewed where it fits the network and given up
/// where it does not; a node without one takes a subnet.
pub open spec fn attempts(
    m: LocalManager,
    config: Config,
    ext_ip: u32,
    attrs: LeaseAttrs,
    subnets: Result<(Vec<Lease>, i64), XlineRegistryError>,
    step: AcquireStep,
) -> bool {
    match subnets {
        Err(e) => step == AcquireStep::Failed(ManagerError::Registry(e)),
        Ok((leases, _)) => match lease_of_ip(leases@, ext_ip) {
            Some(l) => if fits(config, l) {
                step == (AcquireStep::UpdateSubnet {
                    request: SubnetWrite {
                        sn: l.subnet,
                        sn6: Some(l.ipv6_subnet),
                        attrs,
                        ttl_secs: renewal_ttl(l),
                    },
                    asof: 0,
                    lease: l,
                })
            } else {
                step == (AcquireStep::DeleteSubnet {
                    sn: l.subnet,
                    sn6: Some(l.ipv6_subnet),
                    leases,
                })
            },
            None => takes_subnet(m, config, leases@, attrs, step),
        },
    }
}

/// The lease of a node after the registry has answered to its renewal: with the
/// attributes of now and the new expiration.
pub open spec fn renewed_lease(
    lease: Lease,
    attrs: LeaseAttrs,
    updated: Result<Timestamp, XlineRegistryError>,
) -> Result<Lease, ManagerError> {
    match updated {
        Ok(expiration) => Ok((Lease { attrs, expiration, ..lease })),
        Err(e) => Err(ManagerError::Registry(e)),
    }
}

/// What follows after the attempt number `attempts`, counted from one.
pub open spec fn after_attempt(
    attempts: usize,
    outcome: Result<Lease, ManagerError>,
) -> AttemptOutcome {
    if outcome == Err::<Lease, ManagerError>(ManagerError::Registry(XlineRegistryError::TryAgain)) {
        if attempts < RACE_RETRIES {
            AttemptOutcome::Retry
        } else {
            AttemptOutcome::Finished(Err(ManagerError::MaxRetries))
        }
    } else {
        AttemptOutcome::Finished(outcome)
    }
}

/// The lease that was written for a new subnet.
pub open spec fn created_lease(request: SubnetWrite, expiration: Timestamp) -> Lease {
    Lease {
        enable_ipv4: true,
        enable_ipv6: request.sn6 is Some,
        subnet: request.sn,
        ipv6_subnet: match request.sn6 {
            Some(sn6) => sn6,
            None => Ipv6Network { addr: 0, prefix: 0 },
        },
        attrs: request.attrs,
        expiration,
        asof: None,
    }
}

/// The events of all reports, in order.
pub open spec fn all_events(results: Seq<LeaseWatchResult>) -> Seq<LeaseEvent>
    decreases results.len(),
{
    if results.len() == 0 {
        Seq::empty()
    } else {
        results[0].events@ + all_events(results.drop_first())
    }
}

/// The expiration of a lease after the events up to the first removal, and whether
/// there is a removal among them.
pub open spec fn after_events(expiration: Timestamp, events: Seq<LeaseEvent>) -> (Timestamp, bool)
    decreases events.len(),
{
    if events.len() == 0 {
        (expiration, false)
    } else if events[0].event_type == EventType::Removed {
        (expiration, true)
    } else {
        after_events(
            match events[0].lease {
                Some(l) => l.expiration,
                None => expiration,
            },
            events.drop_first(),
        )
    }
}

/// The write that renews a lease.
pub open spec fn renewal(lease: Lease) -> SubnetWrite {
    SubnetWrite {
        sn: lease.subnet,
        sn6: Some(lease.ipv6_subnet),
        attrs: lease.attrs,
        ttl_secs: SUBNET_TTL,
    }
}

/// Takes over what the watch reported of the lease. Says whether the lease was
/// removed; what was reported after the removal is not looked at.
pub fn apply_watch_results(lease: &mut Lease, results: &Vec<LeaseWatchResult>) -> (removed: bool)
    ensures
        *final(lease) == (Lease {
            expiration: after_events(old(lease).expiration, all_events(results@)).0,
            ..*old(lease)
        }),
        removed == after_events(old(lease).expiration, all_events(results@)).1,
{
    let mut i: usize = 0;
    assert(results@.skip(0) =~= results@);
    while i < results.len()
        invariant
            i <= results@.len(),
            after_events(old(lease).expiration, all_events(results@)) == after_events(
                lease.expiration,
                all_events(results@.skip(i as int)),
            ),
            *lease == (Lease { expiration: lease.expiration, ..*old(lease) }),
        decreases results@.len() - i,
    {
        let events: &Vec<LeaseEvent> = &results[i].events;
        let ghost later = all_events(results@.skip(i + 1));
        assert(results@.skip(i as int).drop_first() =~= results@.skip(i + 1));
        assert(events@.skip(0) =~= events@);
        let mut j: usize = 0;
        while j < events.len()
            invariant
                j <= events@.len(),
                after_events(old(lease).expiration, all_events(results@)) == after_events(
                    lease.expiration,
                    events@.skip(j as int) + later,
                ),
                *lease == (Lease { expiration: lease.expiration, ..*old(lease) }),
            decreases events@.len() - j,
        {
            assert((events@.skip(j as int) + later).drop_first() =~= events@.skip(j + 1) + later);
            match events[j].event_type {
                EventType::Removed => {
                    return true;
                },
                EventType::Added => {
                    if let Some(l) = &events[j].lease {
                        lease.expiration = l.expiration;
                    }
                },
            }
            j = j + 1;
        }
        assert(events@.skip(j as int) + later =~= later);
        i = i + 1;
    }
    assert(all_events(results@.skip(i as int)) =~= Seq::<LeaseEvent>::empty());
    false
}

impl LocalManager {
    /// The previous subnet is a network.
    pub open spec fn wf(self) -> bool {
        self.previous_subnet matches Some(sn) ==> sn.wf()
    }

    /// A manager for a node that had these subnets before.
    pub fn new(
        previous_subnet: Option<Ipv4Network>,
        previous_subnet_ipv6: Option<Ipv6Network>,
        renew_margin_secs: i64,
    ) -> (r: LocalManager)
        requires
            previous_subnet matches Some(sn) ==> sn.wf(),
        ensures
            r.wf(),
            r == (LocalManager { previous_subnet, previous_subnet_ipv6, renew_margin_secs }),
    {
        LocalManager { previous_subnet, previous_subnet_ipv6, renew_margin_secs }
    }

    /// The name of the manager, with the subnet that it had before.
    pub fn name(&self) -> (r: String)
        requires
            self.wf(),
        ensures
            r@ == "Etcd Local Manager with Previous Subnet: "@ + match self.previous_subnet {
                Some(sn) => v4_text(sn.addr, sn.prefix),
                None => "None"@,
            },
    {
        let previous: String = match self.previous_subnet {
            Some(sn) => sn.to_text(),
            None => "None".to_owned(),
        };
        join2("Etcd Local Manager with Previous Subnet: ", previous.as_str())
    }

    /// Takes one of the free subnets of the network, at random.
    pub fn allocate_subnet(&self, config: &Config, leases: &[Lease]) -> (r: Result<
        (Ipv4Network, Option<Ipv6Network>),
        ManagerError,
    >)
        ensures
            match allocation_error(*config, leases@) {
                Some(e) => r == Err::<(Ipv4Network, Option<Ipv6Network>), ManagerError>(e),
                None => r matches Ok(taken) && allocatable(*config, leases@, taken.0, taken.1),
            },
    {
        let min: u32 = match config.subnet_min {
            Some(min) => min,
            None => return Err(ManagerError::MissingSubnetMin),
        };
        let max: u32 = match config.subnet_max {
            Some(max) => max,
            None => return Err(ManagerError::MissingSubnetMax),
        };
        let first: Ipv4Network = match Ipv4Network::new(min, config.subnet_len) {
            Ok(first) => first,
            Err(e) => return Err(ManagerError::InvalidSubnetStart(e)),
        };
        let free_v4: Vec<Ipv4Network> = match available_v4(first, max, leases) {
            Ok(free) => free,
            Err(e) => return Err(ManagerError::NoNextNetwork(e)),
        };
        let mut free_v6: Vec<Ipv6Network> = Vec::new();
        if config.enable_ipv6 {
            if let (Some(min), Some(max)) = (config.ipv6_subnet_min, config.ipv6_subnet_max) {
                let first: Ipv6Network = match Ipv6Network::new(min, config.ipv6_subnet_len) {
                    Ok(first) => first,
                    Err(e) => return Err(ManagerError::InvalidIpv6SubnetStart(e)),
                };
                free_v6 = match available_v6(first, max, leases) {
                    Ok(free) => free,
                    Err(e) => return Err(ManagerError::NoNextNetwork(e)),
                };
            }
        }
        let chosen_v4: Option<Ipv4Network> = choose_one(&free_v4);
        let chosen_v6: Option<Ipv6Network> = if config.enable_ipv6 {
            choose_one(&free_v6)
        } else {
            None
        };
        proof {
            if chosen_v4 is Some {
                let i = choose|i: int| 0 <= i < free_v4@.len() && free_v4@[i] == chosen_v4->0;
                assert(config_v4_free(*config, leases@)->0[i] == free_v4@[i].addr);
            }
            if chosen_v6 is Some {
                let i = choose|i: int| 0 <= i < free_v6@.len() && free_v6@[i] == chosen_v6->0;
                assert(config_v6_free(*config, leases@)->0[i] == free_v6@[i].addr);
            }
        }
        pick_subnets(config.enable_ipv6, chosen_v4, chosen_v6)
    }

    /// Goes on without a lease to renew.
    fn take_subnet(&self, config: &Config, leases: &[Lease], attrs: &LeaseAttrs) -> (r: AcquireStep)
        ensures
            takes_subnet(*self, *config, leases@, *attrs, r),
    {
        if let Some(sn) = self.previous_subnet {
            if find_lease_by_subnet(leases, sn).is_none() && is_subnet_config_compat(
                config,
                Some(sn),
            ) && is_ipv6_subnet_config_compat(config, self.previous_subnet_ipv6) {
                return AcquireStep::CreateSubnet {
                    request: SubnetWrite {
                        sn,
                        sn6: self.previous_subnet_ipv6,
                        attrs: attrs.clone(),
                        ttl_secs: SUBNET_TTL,
                    },
                };
            }
        }
        match self.allocate_subnet(config, leases) {
            Ok((sn, sn6)) => AcquireStep::CreateSubnet {
                request: SubnetWrite { sn, sn6, attrs: attrs.clone(), ttl_secs: SUBNET_TTL },
            },
            Err(e) => AcquireStep::Failed(e),
        }
    }

    /// What an attempt to acquire a lease for the node at `ext_ip` does once the
    /// registry has answered with all leases. A lease that the node holds is renewed
    /// where it fits the network and given up where it does not; a node without one
    /// takes a subnet.
    pub fn try_acquire_lease(
        &self,
        config: &Config,
        ext_ip: u32,
        attrs: &LeaseAttrs,
        subnets: Result<(Vec<Lease>, i64), XlineRegistryError>,
    ) -> (r: AcquireStep)
        ensures
            attempts(*self, *config, ext_ip, *attrs, subnets, r),
    {
        let leases: Vec<Lease> = match subnets {
            Ok((leases, _)) => leases,
            Err(e) => return AcquireStep::Failed(ManagerError::Registry(e)),
        };
        match find_lease_by_ip(leases.as_slice(), ext_ip) {
            Some(lease) => if is_subnet_config_compat(config, Some(lease.subnet))
                && is_ipv6_subnet_config_compat(config, Some(lease.ipv6_subnet)) {
                let ttl_secs: i64 = if lease.expiration == Timestamp::default() {
                    0
                } else {
                    SUBNET_TTL
                };
                AcquireStep::UpdateSubnet {
                    request: SubnetWrite {
                        sn: lease.subnet,
                        sn6: Some(lease.ipv6_subnet),
                        attrs: attrs.clone(),
                        ttl_secs,
                    },
                    asof: 0,
                    lease,
                }
            } else {
                AcquireStep::DeleteSubnet {
                    sn: lease.subnet,
                    sn6: Some(lease.ipv6_subnet),
                    leases,
                }
            },
            None => self.take_subnet(config, leases.as_slice(), attrs),
        }
    }

    /// What an attempt ends with once the registry has answered to the renewal of
    /// the lease that the node held.
    pub fn try_acquire_lease_updated(
        &self,
        lease: Lease,
        attrs: &LeaseAttrs,
        updated: Result<Timestamp, XlineRegistryError>,
    ) -> (r: Result<Lease, ManagerError>)
        ensures
            r == renewed_lease(lease, *attrs, updated),
    {
        match updated {
            Ok(expiration) => Ok(Lease { attrs: attrs.clone(), expiration, ..lease }),
            Err(e) => Err(ManagerError::Registry(e)),
        }
    }

    /// What an attempt does once the registry has answered to the deletion of the
    /// lease that the node held: it takes a subnet, by the leases that were read
    /// before the deletion.
    pub fn try_acquire_lease_deleted(
        &self,
        config: &Config,
        leases: &[Lease],
        attrs: &LeaseAttrs,
        deleted: Result<(), XlineRegistryError>,
    ) -> (r: AcquireStep)
        ensures
            match deleted {
                Ok(()) => takes_subnet(*self, *config, leases@, *attrs, r),
                Err(e) => r == AcquireStep::Failed(ManagerError::Registry(e)),
            },
    {
        match deleted {
            Ok(()) => self.take_subnet(config, leases, attrs),
            Err(e) => AcquireStep::Failed(ManagerError::Registry(e)),
        }
    }

    /// What an attempt ends with once the registry has answered to the new lease.
    pub fn try_acquire_lease_created(
        &self,
        request: SubnetWrite,
        created: Result<Timestamp, XlineRegistryError>,
    ) -> (r: Result<Lease, ManagerError>)
        ensures
            r == (match created {
                Ok(expiration) => Ok::<Lease, ManagerError>(created_lease(request, expiration)),
                Err(e) => Err(
                    if node_exists(e) {
                        ManagerError::TryAgain
                    } else {
                        ManagerError::Registry(e)
                    },
                ),
            }),
    {
        match created {
            Ok(expiration) => Ok(
                Lease {
                    enable_ipv4: true,
                    enable_ipv6: request.sn6.is_some(),
                    subnet: request.sn,
                    ipv6_subnet: match request.sn6 {
                        Some(sn6) => sn6,
                        None => Ipv6Network { addr: 0, prefix: 0 },
                    },
                    attrs: request.attrs,
                    expiration,
                    asof: None,
                },
            ),
            Err(e) => if is_err_etcd_node_exist(&e) {
                Err(ManagerError::TryAgain)
            } else {
                Err(ManagerError::Registry(e))
            },
        }
    }

    /// What follows after the attempt number `attempts`, counted from one: another
    /// one where the registry asked to try again, up to the number of retries.
    pub fn acquire_lease(attempts: usize, outcome: Result<Lease, ManagerError>) -> (r:
        AttemptOutcome)
        ensures
            r == after_attempt(attempts, outcome),
    {
        match outcome {
            Ok(lease) => AttemptOutcome::Finished(Ok(lease)),
            Err(ManagerError::Registry(XlineRegistryError::TryAgain)) => if attempts
                < RACE_RETRIES {
                AttemptOutcome::Retry
            } else {
                AttemptOutcome::Finished(Err(ManagerError::MaxRetries))
            },
            Err(e) => AttemptOutcome::Finished(Err(e)),
        }
    }

    /// The write that renews the lease.
    pub fn renewal_request(lease: &Lease) -> (r: SubnetWrite)
        ensures
            r == renewal(*lease),
    {
        SubnetWrite {
            sn: lease.subnet,
            sn6: Some(lease.ipv6_subnet),
            attrs: lease.attrs.clone(),
            ttl_secs: SUBNET_TTL,
        }
    }

    /// Takes over the registry's answer to the renewal of the lease.
    pub fn renew_lease(lease: &mut Lease, updated: Result<Timestamp, XlineRegistryError>) -> (r:
        Result<(), ManagerError>)
        ensures
            match updated {
                Ok(expiration) => r == Ok::<(), ManagerError>(()) && *final(lease) == (Lease {
                    expiration,
                    ..*old(lease)
                }),
                Err(e) => r == Err::<(), ManagerError>(ManagerError::Registry(e)) && *final(lease)
                    == *old(lease),
            },
    {
        match updated {
            Ok(expiration) => {
                lease.expiration = expiration;
                Ok(())
            },
            Err(e) => Err(ManagerError::Registry(e)),
        }
    }

    /// How long a node waits before it renews a lease that expires at `expiration`.
    pub fn renewal_pause(&self, expiration: Timestamp, now: Timestamp) -> (r: Pause)
        requires
            margin_in_range(expiration, now, self.renew_margin_secs),
        ensures
            r.nanos < 1_000_000_000,
            r.total() == ({
                let left = expiration.total() - now.total() - self.renew_margin_secs * 60
                    * 1_000_000_000;
                if left < 0 {
                    0
                } else {
                    left
                }
            }),
    {
        time_until(expiration, now, self.renew_margin_secs)
    }

    /// Takes over what the node learned while it holds the lease, and says what it
    /// does next.
    pub fn complete_lease(lease: &mut Lease, event: KeepEvent) -> (r: KeepAction)
        ensures
            match event {
                KeepEvent::RenewalDue => r == KeepAction::Renew && *final(lease) == *old(lease),
                KeepEvent::Renewed(Ok(expiration)) => r == KeepAction::Wait && *final(lease) == (
                Lease { expiration, ..*old(lease) }),
                KeepEvent::Renewed(Err(_)) => r == KeepAction::PauseSecs(RENEW_RETRY_SECS)
                    && *final(lease) == *old(lease),
                KeepEvent::Watched(None) => r == KeepAction::Stop(ManagerError::WatchCanceled)
                    && *final(lease) == *old(lease),
                KeepEvent::Watched(Some(results)) => {
                    let after = after_events(old(lease).expiration, all_events(results@));
                    *final(lease) == (Lease { expiration: after.0, ..*old(lease) }) && r == if after.1 {
                        KeepAction::Stop(ManagerError::LeaseRevoked)
                    } else {
                        KeepAction::Wait
                    }
                },
            },
    {
        match event {
            KeepEvent::RenewalDue => KeepAction::Renew,
            KeepEvent::Renewed(updated) => match LocalManager::renew_lease(lease, updated) {
                Ok(()) => KeepAction::Wait,
                Err(_) => KeepAction::PauseSecs(RENEW_RETRY_SECS),
            },
            KeepEvent::Watched(None) => KeepAction::Stop(ManagerError::WatchCanceled),
            KeepEvent::Watched(Some(results)) => if apply_watch_results(lease, &results) {
                KeepAction::Stop(ManagerError::LeaseRevoked)
            } else {
                KeepAction::Wait
            },
        }
    }

    /// The report with which the watch on one lease starts: the lease as the registry
    /// has it.
    pub fn lease_watch_reset(subnet: Result<(Option<Lease>, i64), XlineRegistryError>) -> (r:
        Result<LeaseWatchResult, ManagerError>)
        ensures
            match subnet {
                Err(e) => r == Err::<LeaseWatchResult, ManagerError>(ManagerError::Registry(e)),
                Ok((None, _)) => r == Err::<LeaseWatchResult, ManagerError>(
                    ManagerError::SubnetNotFound,
                ),
                Ok((Some(lease), index)) => r matches Ok(wr) && wr.snapshot@ == seq![lease]
                    && wr.events@.len() == 0 && wr.cursor == Cursor::Cursor((WatchCursor { index })),
            },
    {
        match subnet {
            Err(e) => Err(ManagerError::Registry(e)),
            Ok((None, _)) => Err(ManagerError::SubnetNotFound),
            Ok((Some(lease), index)) => {
                let mut snapshot: Vec<Lease> = Vec::new();
                snapshot.push(lease);
                Ok(
                    LeaseWatchResult {
                        events: Vec::new(),
                        snapshot,
                        cursor: Cursor::Cursor(WatchCursor { index }),
                    },
                )
            },
        }
    }
}

} // verus!
