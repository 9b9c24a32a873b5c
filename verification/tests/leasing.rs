use subnet_lease::config::Config;
use subnet_lease::error::{Code, ManagerError, Status, StoreError, XlineRegistryError};
use subnet_lease::ip::{Ipv4Network, Ipv6Network};
use subnet_lease::lease::{EventType, Lease, LeaseAttrs, LeaseEvent, LeaseWatchResult};
use subnet_lease::manager::{
    apply_watch_results, find_lease_by_ip, find_lease_by_subnet, AcquireStep, AttemptOutcome,
    KeepAction, KeepEvent, LocalManager, SubnetWrite, RACE_RETRIES, SUBNET_TTL,
};
use subnet_lease::cursor::{Cursor, WatchCursor};
use subnet_lease::time::Timestamp;

fn v4(text: &str) -> Ipv4Network {
    let n: ipnetwork::Ipv4Network = text.parse().unwrap();
    Ipv4Network::new(n.ip().into(), n.prefix()).unwrap()
}

fn v6(text: &str) -> Ipv6Network {
    let n: ipnetwork::Ipv6Network = text.parse().unwrap();
    Ipv6Network::new(n.ip().into(), n.prefix()).unwrap()
}

fn at(secs: i64) -> Timestamp {
    Timestamp { secs, nanos: 0 }
}

fn attrs(public_ip: u32) -> LeaseAttrs {
    LeaseAttrs {
        public_ip,
        backend_type: "vxlan".to_string(),
        backend_data: Some("{\"VNI\":1}".to_string()),
        ..Default::default()
    }
}

fn lease(ip: u32, subnet: &str, ipv6_subnet: &str) -> Lease {
    Lease {
        enable_ipv4: true,
        enable_ipv6: true,
        subnet: v4(subnet),
        ipv6_subnet: v6(ipv6_subnet),
        attrs: attrs(ip),
        expiration: at(500),
        asof: Some(3),
    }
}

fn config() -> Config {
    Config {
        enable_ipv6: true,
        subnet_len: 24,
        subnet_min: Some(v4("10.1.1.0/24").addr),
        subnet_max: Some(v4("10.1.254.0/24").addr),
        ipv6_subnet_len: 64,
        ipv6_subnet_min: Some(v6("fd00::/64").addr),
        ipv6_subnet_max: Some(v6("fd00:0:0:ff::/64").addr),
    }
}

fn store_error(code: Code) -> XlineRegistryError {
    XlineRegistryError::Xline(StoreError {
        display: "refused".to_string(),
        status: Some(Status { code, message: "refused".to_string() }),
    })
}

fn manager() -> LocalManager {
    LocalManager::new(None, None, 5)
}

#[test]
fn leases_are_found_by_the_first_match() {
    let leases = vec![
        lease(1, "10.1.1.0/24", "fd00::/64"),
        lease(2, "10.1.2.0/24", "fd00::/64"),
        lease(2, "10.1.3.0/24", "fd00::/64"),
    ];
    assert_eq!(find_lease_by_ip(&leases, 2), Some(leases[1].clone()));
    assert_eq!(find_lease_by_ip(&leases, 3), None);
    assert_eq!(find_lease_by_subnet(&leases, v4("10.1.3.0/24")), Some(leases[2].clone()));
    assert_eq!(find_lease_by_subnet(&leases, v4("10.1.3.0/25")), None);
}

#[test]
fn manager_is_named_after_its_previous_subnet() {
    assert_eq!(manager().name(), "Etcd Local Manager with Previous Subnet: None");
    assert_eq!(
        LocalManager::new(Some(v4("10.1.5.0/24")), None, 5).name(),
        "Etcd Local Manager with Previous Subnet: 10.1.5.0/24"
    );
}

#[test]
fn fitting_lease_is_renewed() {
    let held = lease(7, "10.1.5.0/24", "fd00:0:0:5::/64");
    let leases = vec![lease(6, "10.1.4.0/24", "fd00:0:0:4::/64"), held.clone()];
    let mut now = attrs(7);
    now.backend_type = "host-gw".to_string();
    let step = manager().try_acquire_lease(&config(), 7, &now, Ok((leases, 12)));
    assert_eq!(
        step,
        AcquireStep::UpdateSubnet {
            request: SubnetWrite {
                sn: v4("10.1.5.0/24"),
                sn6: Some(v6("fd00:0:0:5::/64")),
                attrs: now.clone(),
                ttl_secs: 86_400,
            },
            asof: 0,
            lease: held.clone(),
        }
    );
    assert_eq!(
        manager().try_acquire_lease_updated(held.clone(), &now, Ok(at(900))),
        Ok(Lease { attrs: now.clone(), expiration: at(900), ..held.clone() })
    );
    assert_eq!(
        manager().try_acquire_lease_updated(held, &now, Err(XlineRegistryError::TryAgain)),
        Err(ManagerError::Registry(XlineRegistryError::TryAgain))
    );
}

#[test]
fn lease_without_expiration_stays_so() {
    let mut held = lease(7, "10.1.5.0/24", "fd00:0:0:5::/64");
    held.expiration = Timestamp::default();
    match manager().try_acquire_lease(&config(), 7, &attrs(7), Ok((vec![held], 1))) {
        AcquireStep::UpdateSubnet { request, .. } => assert_eq!(request.ttl_secs, 0),
        step => panic!("{:?}", step),
    }
}

#[test]
fn lease_that_does_not_fit_is_given_up() {
    let m = LocalManager::new(Some(v4("10.1.9.0/24")), Some(v6("fd00:0:0:9::/64")), 5);
    let leases = vec![lease(7, "10.2.5.0/24", "fd00:0:0:5::/64")];
    let step = m.try_acquire_lease(&config(), 7, &attrs(7), Ok((vec![leases[0].clone()], 1)));
    assert_eq!(
        step,
        AcquireStep::DeleteSubnet {
            sn: v4("10.2.5.0/24"),
            sn6: Some(v6("fd00:0:0:5::/64")),
            leases: vec![leases[0].clone()],
        }
    );
    assert_eq!(
        m.try_acquire_lease_deleted(&config(), &leases, &attrs(7), Ok(())),
        AcquireStep::CreateSubnet {
            request: SubnetWrite {
                sn: v4("10.1.9.0/24"),
                sn6: Some(v6("fd00:0:0:9::/64")),
                attrs: attrs(7),
                ttl_secs: SUBNET_TTL,
            }
        }
    );
    assert_eq!(
        m.try_acquire_lease_deleted(&config(), &leases, &attrs(7), Err(store_error(Code::Internal))),
        AcquireStep::Failed(ManagerError::Registry(store_error(Code::Internal)))
    );
}

#[test]
fn previous_subnet_is_left_where_it_is_taken_or_does_not_fit() {
    let narrow = Config {
        subnet_max: config().subnet_min,
        ipv6_subnet_max: config().ipv6_subnet_min,
        ..config()
    };
    let only = SubnetWrite {
        sn: v4("10.1.1.0/24"),
        sn6: Some(v6("fd00::/64")),
        attrs: attrs(7),
        ttl_secs: SUBNET_TTL,
    };
    let outside = LocalManager::new(Some(v4("10.1.2.0/24")), Some(v6("fd00::/64")), 5);
    assert_eq!(
        outside.try_acquire_lease(&narrow, 7, &attrs(7), Ok((vec![], 1))),
        AcquireStep::CreateSubnet { request: only }
    );
    let taken = vec![lease(6, "10.1.1.0/24", "fd00::/64")];
    let inside = LocalManager::new(Some(v4("10.1.1.0/24")), Some(v6("fd00::/64")), 5);
    assert_eq!(
        inside.try_acquire_lease(&narrow, 7, &attrs(7), Ok((taken, 1))),
        AcquireStep::Failed(ManagerError::OutOfSubnets)
    );
    let without_v6 = LocalManager::new(Some(v4("10.1.1.0/24")), None, 5);
    match without_v6.try_acquire_lease(&narrow, 7, &attrs(7), Ok((vec![], 1))) {
        AcquireStep::CreateSubnet { request } => assert_eq!(request.sn6, Some(v6("fd00::/64"))),
        step => panic!("{:?}", step),
    }
}

#[test]
fn attempt_fails_with_the_registry() {
    assert_eq!(
        manager().try_acquire_lease(&config(), 7, &attrs(7), Err(XlineRegistryError::TryAgain)),
        AcquireStep::Failed(ManagerError::Registry(XlineRegistryError::TryAgain))
    );
}

#[test]
fn created_lease_says_what_was_written() {
    let request = |sn6| SubnetWrite {
        sn: v4("10.1.5.0/24"),
        sn6,
        attrs: attrs(7),
        ttl_secs: SUBNET_TTL,
    };
    assert_eq!(
        manager().try_acquire_lease_created(request(Some(v6("fd00::/64"))), Ok(at(60))),
        Ok(Lease {
            enable_ipv4: true,
            enable_ipv6: true,
            subnet: v4("10.1.5.0/24"),
            ipv6_subnet: v6("fd00::/64"),
            attrs: attrs(7),
            expiration: at(60),
            asof: None,
        })
    );
    let plain = manager().try_acquire_lease_created(request(None), Ok(at(60))).unwrap();
    assert!(!plain.enable_ipv6);
    assert_eq!(plain.ipv6_subnet, v6("::/0"));
}

#[test]
fn lost_race_is_told_apart_from_other_errors() {
    let request = || SubnetWrite {
        sn: v4("10.1.5.0/24"),
        sn6: None,
        attrs: attrs(7),
        ttl_secs: SUBNET_TTL,
    };
    let m = manager();
    assert_eq!(
        m.try_acquire_lease_created(request(), Err(store_error(Code::AlreadyExists))),
        Err(ManagerError::TryAgain)
    );
    assert_eq!(
        m.try_acquire_lease_created(request(), Err(XlineRegistryError::SubnetAlreadyExists)),
        Err(ManagerError::Registry(XlineRegistryError::SubnetAlreadyExists))
    );
}

#[test]
fn attempts_end_after_ten() {
    let again = || Err(ManagerError::Registry(XlineRegistryError::TryAgain));
    for n in 1..RACE_RETRIES {
        assert_eq!(LocalManager::acquire_lease(n, again()), AttemptOutcome::Retry);
    }
    assert_eq!(
        LocalManager::acquire_lease(10, again()),
        AttemptOutcome::Finished(Err(ManagerError::MaxRetries))
    );
}

#[test]
fn only_the_registry_asks_for_another_attempt() {
    assert_eq!(
        LocalManager::acquire_lease(1, Err(ManagerError::TryAgain)),
        AttemptOutcome::Finished(Err(ManagerError::TryAgain))
    );
    let got = lease(7, "10.1.5.0/24", "fd00::/64");
    assert_eq!(
        LocalManager::acquire_lease(1, Ok(got.clone())),
        AttemptOutcome::Finished(Ok(got))
    );
}

#[test]
fn renewal_writes_the_lease_as_it_is() {
    let held = lease(7, "10.1.5.0/24", "fd00::/64");
    assert_eq!(
        LocalManager::renewal_request(&held),
        SubnetWrite {
            sn: v4("10.1.5.0/24"),
            sn6: Some(v6("fd00::/64")),
            attrs: attrs(7),
            ttl_secs: SUBNET_TTL,
        }
    );
    let mut renewed = held.clone();
    assert_eq!(LocalManager::renew_lease(&mut renewed, Ok(at(900))), Ok(()));
    assert_eq!(renewed, Lease { expiration: at(900), ..held.clone() });
    assert_eq!(
        LocalManager::renew_lease(&mut renewed, Err(store_error(Code::Unavailable))),
        Err(ManagerError::Registry(store_error(Code::Unavailable)))
    );
    assert_eq!(renewed.expiration, at(900));
}

fn added(expiration: i64) -> LeaseEvent {
    let mut l = lease(7, "10.1.5.0/24", "fd00::/64");
    l.expiration = at(expiration);
    LeaseEvent { event_type: EventType::Added, lease: Some(l) }
}

fn removed() -> LeaseEvent {
    LeaseEvent { event_type: EventType::Removed, lease: None }
}

fn report(events: Vec<LeaseEvent>) -> LeaseWatchResult {
    LeaseWatchResult { events, snapshot: vec![], cursor: Cursor::default() }
}

#[test]
fn last_addition_counts() {
    let mut l = lease(7, "10.1.5.0/24", "fd00::/64");
    let results = vec![
        report(vec![added(10), added(20)]),
        report(vec![]),
        report(vec![added(30), LeaseEvent { event_type: EventType::Added, lease: None }]),
    ];
    assert!(!apply_watch_results(&mut l, &results));
    assert_eq!(l.expiration, at(30));
}

#[test]
fn nothing_after_a_removal_counts() {
    let mut l = lease(7, "10.1.5.0/24", "fd00::/64");
    let results = vec![report(vec![added(10), removed(), added(20)]), report(vec![added(30)])];
    assert!(apply_watch_results(&mut l, &results));
    assert_eq!(l.expiration, at(10));
}

#[test]
fn lease_is_kept_until_it_is_revoked() {
    let mut l = lease(7, "10.1.5.0/24", "fd00::/64");
    assert_eq!(LocalManager::complete_lease(&mut l, KeepEvent::RenewalDue), KeepAction::Renew);
    assert_eq!(
        LocalManager::complete_lease(&mut l, KeepEvent::Renewed(Err(XlineRegistryError::TryAgain))),
        KeepAction::PauseSecs(60)
    );
    assert_eq!(l.expiration, at(500));
    assert_eq!(
        LocalManager::complete_lease(&mut l, KeepEvent::Renewed(Ok(at(900)))),
        KeepAction::Wait
    );
    assert_eq!(l.expiration, at(900));
    assert_eq!(
        LocalManager::complete_lease(&mut l, KeepEvent::Watched(Some(vec![report(vec![added(950)])]))),
        KeepAction::Wait
    );
    assert_eq!(l.expiration, at(950));
    assert_eq!(
        LocalManager::complete_lease(&mut l, KeepEvent::Watched(Some(vec![report(vec![removed()])]))),
        KeepAction::Stop(ManagerError::LeaseRevoked)
    );
    assert_eq!(
        LocalManager::complete_lease(&mut l, KeepEvent::Watched(None)),
        KeepAction::Stop(ManagerError::WatchCanceled)
    );
}

#[test]
fn watch_on_a_lease_starts_with_the_lease() {
    let l = lease(7, "10.1.5.0/24", "fd00::/64");
    assert_eq!(
        LocalManager::lease_watch_reset(Ok((Some(l.clone()), 17))),
        Ok(LeaseWatchResult {
            events: vec![],
            snapshot: vec![l],
            cursor: Cursor::Cursor(WatchCursor { index: 17 }),
        })
    );
    assert_eq!(LocalManager::lease_watch_reset(Ok((None, 0))), Err(ManagerError::SubnetNotFound));
    assert_eq!(
        LocalManager::lease_watch_reset(Err(XlineRegistryError::NoWatchChannel)),
        Err(ManagerError::Registry(XlineRegistryError::NoWatchChannel))
    );
}
