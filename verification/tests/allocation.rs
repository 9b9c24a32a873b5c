use subnet_lease::allocate::{available_v4, available_v6, pick_subnets};
use subnet_lease::config::Config;
use subnet_lease::error::ManagerError;
use subnet_lease::ip::{Ipv4Network, Ipv6Network, NetworkError};
use subnet_lease::lease::{Lease, LeaseAttrs};
use subnet_lease::manager::{
    is_ipv6_subnet_config_compat, is_subnet_config_compat, LocalManager,
};
use subnet_lease::time::Timestamp;

fn v4(text: &str) -> Ipv4Network {
    let n: ipnetwork::Ipv4Network = text.parse().unwrap();
    Ipv4Network::new(n.ip().into(), n.prefix()).unwrap()
}

fn v6(text: &str) -> Ipv6Network {
    let n: ipnetwork::Ipv6Network = text.parse().unwrap();
    Ipv6Network::new(n.ip().into(), n.prefix()).unwrap()
}

fn lease(subnet: &str, ipv6_subnet: &str) -> Lease {
    Lease {
        enable_ipv4: true,
        enable_ipv6: true,
        subnet: v4(subnet),
        ipv6_subnet: v6(ipv6_subnet),
        attrs: LeaseAttrs::default(),
        expiration: Timestamp::default(),
        asof: None,
    }
}

/// `{"Network":"10.1.0.0/16","SubnetMin":"10.1.1.0","SubnetMax":"10.1.254.0","SubnetLen":24}`
fn config() -> Config {
    Config {
        enable_ipv6: false,
        subnet_len: 24,
        subnet_min: Some(v4("10.1.1.0/24").addr),
        subnet_max: Some(v4("10.1.254.0/24").addr),
        ipv6_subnet_len: 64,
        ipv6_subnet_min: None,
        ipv6_subnet_max: None,
    }
}

fn config6() -> Config {
    Config {
        enable_ipv6: true,
        ipv6_subnet_min: Some(v6("fd00::/64").addr),
        ipv6_subnet_max: Some(v6("fd00:0:0:3::/64").addr),
        ..config()
    }
}

fn manager() -> LocalManager {
    LocalManager::new(None, None, 5)
}

#[test]
fn search_collects_at_most_a_hundred() {
    let c = config();
    let found = available_v4(v4("10.1.1.0/24"), c.subnet_max.unwrap(), &[]).unwrap();
    assert_eq!(found.len(), 100);
    assert_eq!(found[0], v4("10.1.1.0/24"));
    assert_eq!(found[99], v4("10.1.100.0/24"));
}

#[test]
fn search_leaves_leased_subnets_out() {
    let leases = vec![lease("10.1.2.0/24", "fd00::/64"), lease("10.1.3.0/25", "fd00::/64")];
    let found = available_v4(v4("10.1.1.0/24"), v4("10.1.4.0/24").addr, &leases).unwrap();
    assert_eq!(found, vec![v4("10.1.1.0/24"), v4("10.1.3.0/24"), v4("10.1.4.0/24")]);
}

#[test]
fn search_of_ipv6_leaves_leased_subnets_out() {
    let leases = vec![lease("10.1.2.0/24", "fd00:0:0:1::/64")];
    let found = available_v6(v6("fd00::/64"), v6("fd00:0:0:2::7/64").addr, &leases).unwrap();
    assert_eq!(found, vec![v6("fd00::/64"), v6("fd00:0:0:2::/64")]);
}

#[test]
fn search_up_to_the_last_network_fails() {
    let last = v4("255.255.255.255/32").addr;
    assert_eq!(
        available_v4(v4("255.255.254.0/24"), last, &[]),
        Err(NetworkError::PastLastAddress)
    );
    assert_eq!(
        available_v6(v6("ffff::/16"), v6("ffff::/16").addr, &[]),
        Err(NetworkError::PastLastAddress)
    );
}

#[test]
fn search_with_an_empty_range_finds_nothing() {
    assert_eq!(available_v4(v4("10.1.2.0/24"), v4("10.1.1.0/24").addr, &[]), Ok(vec![]));
}

#[test]
fn allocated_subnet_fits_and_is_free() {
    let c = config6();
    let leases = vec![lease("10.1.1.0/24", "fd00::/64"), lease("10.1.7.0/24", "fd00:0:0:2::/64")];
    for _ in 0..200 {
        let (sn, sn6) = manager().allocate_subnet(&c, &leases).unwrap();
        assert!(is_subnet_config_compat(&c, Some(sn)));
        assert!(is_ipv6_subnet_config_compat(&c, sn6));
        assert!(leases.iter().all(|l| l.subnet != sn && Some(l.ipv6_subnet) != sn6));
        assert_eq!(sn.addr % 256, 0);
    }
}

#[test]
fn allocation_takes_the_only_free_subnet() {
    let c = Config { subnet_max: Some(v4("10.1.2.0/24").addr), ..config() };
    let leases = vec![lease("10.1.1.0/24", "::/0")];
    assert_eq!(manager().allocate_subnet(&c, &leases), Ok((v4("10.1.2.0/24"), None)));
}

#[test]
fn allocation_is_random() {
    let c = config();
    let first = manager().allocate_subnet(&c, &[]).unwrap().0;
    assert!((0..500).any(|_| manager().allocate_subnet(&c, &[]).unwrap().0 != first));
}

#[test]
fn allocation_names_what_is_missing() {
    let m = manager();
    let c = Config { subnet_min: None, subnet_max: None, ..config() };
    assert_eq!(m.allocate_subnet(&c, &[]), Err(ManagerError::MissingSubnetMin));
    let c = Config { subnet_max: None, ..config() };
    assert_eq!(m.allocate_subnet(&c, &[]), Err(ManagerError::MissingSubnetMax));
    let c = Config { subnet_len: 33, ..config() };
    assert_eq!(
        m.allocate_subnet(&c, &[]),
        Err(ManagerError::InvalidSubnetStart(NetworkError::InvalidPrefix))
    );
    let c = Config { ipv6_subnet_len: 129, ..config6() };
    assert_eq!(
        m.allocate_subnet(&c, &[]),
        Err(ManagerError::InvalidIpv6SubnetStart(NetworkError::InvalidPrefix))
    );
    let c = Config { subnet_max: Some(u32::MAX), subnet_min: Some(u32::MAX), ..config() };
    assert_eq!(
        m.allocate_subnet(&c, &[]),
        Err(ManagerError::NoNextNetwork(NetworkError::PastLastAddress))
    );
    let c = Config { ipv6_subnet_max: Some(u128::MAX), ipv6_subnet_min: Some(u128::MAX), ..config6() };
    assert_eq!(
        m.allocate_subnet(&c, &[]),
        Err(ManagerError::NoNextNetwork(NetworkError::PastLastAddress))
    );
}

#[test]
fn allocation_runs_out_of_subnets() {
    let m = manager();
    let c = Config { subnet_max: config().subnet_min, ..config() };
    assert_eq!(
        m.allocate_subnet(&c, &[lease("10.1.1.0/24", "::/0")]),
        Err(ManagerError::OutOfSubnets)
    );
    let c = Config { ipv6_subnet_min: None, ..config6() };
    assert_eq!(m.allocate_subnet(&c, &[]), Err(ManagerError::OutOfSubnets));
    let c = Config { ipv6_subnet_max: config6().ipv6_subnet_min, ..config6() };
    assert_eq!(
        m.allocate_subnet(&c, &[lease("10.1.1.0/24", "fd00::/64")]),
        Err(ManagerError::OutOfSubnets)
    );
}

#[test]
fn pick_needs_both_kinds_with_ipv6() {
    let (a, b) = (v4("10.1.1.0/24"), v6("fd00::/64"));
    assert_eq!(pick_subnets(false, Some(a), Some(b)), Ok((a, None)));
    assert_eq!(pick_subnets(false, Some(a), None), Ok((a, None)));
    assert_eq!(pick_subnets(true, Some(a), Some(b)), Ok((a, Some(b))));
    assert_eq!(pick_subnets(true, Some(a), None), Err(ManagerError::OutOfSubnets));
    assert_eq!(pick_subnets(false, None, Some(b)), Err(ManagerError::OutOfSubnets));
}

#[test]
fn ipv4_subnet_has_to_be_in_the_range_with_the_right_prefix() {
    let c = config();
    assert!(is_subnet_config_compat(&c, Some(v4("10.1.1.0/24"))));
    assert!(is_subnet_config_compat(&c, Some(v4("10.1.254.0/24"))));
    assert!(!is_subnet_config_compat(&c, Some(v4("10.1.0.0/24"))));
    assert!(!is_subnet_config_compat(&c, Some(v4("10.1.255.0/24"))));
    assert!(!is_subnet_config_compat(&c, Some(v4("10.1.5.0/25"))));
    assert!(!is_subnet_config_compat(&c, None));
    let open = Config { subnet_max: None, ..c };
    assert!(!is_subnet_config_compat(&open, Some(v4("10.1.5.0/24"))));
}

#[test]
fn ipv6_subnet_has_to_be_in_the_range_with_the_right_prefix() {
    let c = config6();
    assert!(is_ipv6_subnet_config_compat(&c, Some(v6("fd00::/64"))));
    assert!(!is_ipv6_subnet_config_compat(&c, Some(v6("fd00::/65"))));
    assert!(!is_ipv6_subnet_config_compat(&c, Some(v6("fd00:0:0:4::/64"))));
    assert!(!is_ipv6_subnet_config_compat(&c, None));
    let all = Config { ipv6_subnet_min: Some(0), ipv6_subnet_max: Some(u128::MAX), ..c };
    assert!(!is_ipv6_subnet_config_compat(&all, Some(v6("::/64"))));
    let open = Config { ipv6_subnet_max: None, ..c };
    assert!(!is_ipv6_subnet_config_compat(&open, Some(v6("fd00::/64"))));
}

#[test]
fn without_ipv6_only_all_of_ipv6_fits() {
    let c = config();
    assert!(is_ipv6_subnet_config_compat(&c, None));
    assert!(is_ipv6_subnet_config_compat(&c, Some(v6("::/0"))));
    assert!(is_ipv6_subnet_config_compat(&c, Some(v6("fd00::/0"))));
    assert!(!is_ipv6_subnet_config_compat(&c, Some(v6("::/128"))));
    assert!(!is_ipv6_subnet_config_compat(&c, Some(v6("fd00::/64"))));
}
