use subnet_lease::cursor::{Cursor, WatchCursor};
use subnet_lease::error::{Code, IoErrorKind, Status, StoreError, XlineRegistryError};
use subnet_lease::ip::{Ipv4Network, Ipv6Network};
use subnet_lease::lease::{Lease, LeaseAttrs, LeaseWatchResult};
use subnet_lease::registry::{
    kv_to_ip_lease, Decoded, GetStep, KeyValue, LeaseGrant, ListStep, ListedSubnet, Listing,
    SubnetPut, WriteStep, XlineConfig, XlineSubnetRegistry,
};
use subnet_lease::time::Timestamp;

fn v4(text: &str) -> Ipv4Network {
    let n: ipnetwork::Ipv4Network = text.parse().unwrap();
    Ipv4Network::new(n.ip().into(), n.prefix()).unwrap()
}

fn v6(text: &str) -> Ipv6Network {
    let n: ipnetwork::Ipv6Network = text.parse().unwrap();
    Ipv6Network::new(n.ip().into(), n.prefix()).unwrap()
}

fn xline_config(prefix: &str) -> XlineConfig {
    XlineConfig {
        endpoints: vec!["http://127.0.0.1:2379".to_string()],
        prefix: prefix.to_string(),
        username: None,
        password: None,
    }
}

fn registry() -> XlineSubnetRegistry {
    XlineSubnetRegistry::new(xline_config("/coreos.com/network")).unwrap()
}

fn at(secs: i64) -> Timestamp {
    Timestamp { secs, nanos: 0 }
}

fn attrs() -> LeaseAttrs {
    LeaseAttrs {
        public_ip: 0x0102_0304,
        backend_type: "vxlan".to_string(),
        backend_data: Some("{\"VNI\":1}".to_string()),
        extra: Some("{\"PublicIPv6\":\"fd00::1\"}".to_string()),
    }
}

fn failure(display: &str) -> StoreError {
    StoreError { display: display.to_string(), status: None }
}

fn kv(key: &[u8], mod_revision: i64) -> KeyValue {
    KeyValue { key: key.to_vec(), value: b"{}".to_vec(), lease: 77, mod_revision }
}

fn decoded(sn6: Option<Ipv6Network>) -> Decoded {
    Decoded { subnets: Some((v4("10.1.5.0/24"), sn6)), attrs: Ok(attrs()) }
}

fn expected(sn6: Ipv6Network, enable_ipv6: bool, expiration: i64, asof: i64) -> Lease {
    Lease {
        enable_ipv4: true,
        enable_ipv6,
        subnet: v4("10.1.5.0/24"),
        ipv6_subnet: sn6,
        attrs: attrs(),
        expiration: at(expiration),
        asof: Some(asof),
    }
}

#[test]
fn registry_needs_a_prefix_that_makes_an_expression() {
    let r = registry();
    assert_eq!(r.network_pattern, "/coreos.com/network/([^/]*)(/|/config)?$");
    assert_eq!(r.xline_cfg, xline_config("/coreos.com/network"));
    assert!(XlineSubnetRegistry::new(xline_config("/coreos(.com")).is_none());
}

#[test]
fn keys_are_below_the_prefix() {
    let r = registry();
    assert_eq!(r.config_key(), "/coreos.com/network/config");
    assert_eq!(r.subnets_prefix(), "/coreos.com/network/subnets");
    assert_eq!(r.lease_key("10.1.5.0-24"), "/coreos.com/network/subnets/10.1.5.0-24");
    assert!(r.lease_key("10.1.5.0-24").starts_with(&r.subnets_prefix()));
    assert!(!r.config_key().starts_with(&r.subnets_prefix()));
    assert_ne!(r.lease_key("10.1.5.0-24"), r.lease_key("10.1.6.0-24"));
}

#[test]
fn credentials_need_user_and_password() {
    let mut c = xline_config("/p");
    assert_eq!(c.credentials(), None);
    c.username = Some("user".to_string());
    assert_eq!(c.credentials(), None);
    c.password = Some("word".to_string());
    assert_eq!(c.credentials(), Some(("user".to_string(), "word".to_string())));
    c.username = None;
    assert_eq!(c.credentials(), None);
}

#[test]
fn network_config_is_the_first_value() {
    let mut entry = kv(b"/coreos.com/network/config", 1);
    entry.value = "{\"Network\":\"10.1.0.0/16\"}".as_bytes().to_vec();
    assert_eq!(
        XlineSubnetRegistry::get_network_config(Ok(Listing { kvs: vec![entry], revision: None })),
        Ok("{\"Network\":\"10.1.0.0/16\"}".to_string())
    );
    assert_eq!(
        XlineSubnetRegistry::get_network_config(Ok(Listing { kvs: vec![], revision: Some(4) })),
        Err(XlineRegistryError::ConfigNotFound)
    );
    assert_eq!(
        XlineSubnetRegistry::get_network_config(Err(failure("down"))),
        Err(XlineRegistryError::Xline(failure("down")))
    );
}

#[test]
fn network_config_has_to_be_text() {
    let mut entry = kv(b"k", 1);
    entry.value = vec![b'a', 0xff];
    let text = std::str::from_utf8(&entry.value).unwrap_err().to_string();
    assert_eq!(
        XlineSubnetRegistry::get_network_config(Ok(Listing { kvs: vec![entry], revision: None })),
        Err(XlineRegistryError::Io(IoErrorKind::InvalidData, text))
    );
}

#[test]
fn entry_says_a_lease() {
    let key = b"/coreos.com/network/subnets/10.1.5.0-24";
    assert_eq!(
        kv_to_ip_lease(&kv(key, 9), 60, &decoded(Some(v6("fd00::/64"))), at(1_000)),
        Ok(expected(v6("fd00::/64"), true, 1_060, 9))
    );
    assert_eq!(
        kv_to_ip_lease(&kv(key, 9), 60, &decoded(None), at(1_000)),
        Ok(expected(v6("::/128"), false, 1_060, 9))
    );
}

#[test]
fn entry_that_says_no_lease_is_refused() {
    let key = b"/coreos.com/network/subnets/x";
    let mut d = decoded(None);
    d.attrs = Err("EOF while parsing".to_string());
    assert_eq!(
        kv_to_ip_lease(&kv(key, 9), 60, &d, at(0)),
        Err(XlineRegistryError::Json("EOF while parsing".to_string()))
    );
    d.subnets = None;
    assert_eq!(
        kv_to_ip_lease(&kv(key, 9), 60, &d, at(0)),
        Err(XlineRegistryError::Other(
            "invalid subnet key: /coreos.com/network/subnets/x".to_string()
        ))
    );
    let bad = [b'/', 0xc3, 0x28];
    assert_eq!(
        kv_to_ip_lease(&kv(&bad, 9), 60, &d, at(0)),
        Err(XlineRegistryError::Utf8(std::str::from_utf8(&bad).unwrap_err().to_string()))
    );
}

#[test]
fn listing_asks_for_the_time_left() {
    assert_eq!(
        XlineSubnetRegistry::get_subnets(Ok(Listing { kvs: vec![kv(b"a", 1)], revision: Some(8) })),
        ListStep::ReadTtls { kvs: vec![kv(b"a", 1)], revision: 8 }
    );
    assert_eq!(
        XlineSubnetRegistry::get_subnets(Ok(Listing { kvs: vec![], revision: None })),
        ListStep::ReadTtls { kvs: vec![], revision: 0 }
    );
}

#[test]
fn listing_of_nothing_is_no_error() {
    assert_eq!(
        XlineSubnetRegistry::get_subnets(Err(failure("Key not found"))),
        ListStep::Done(Ok((vec![], 0)))
    );
    assert_eq!(
        XlineSubnetRegistry::get_subnets(Err(failure("down"))),
        ListStep::Done(Err(XlineRegistryError::Xline(failure("down"))))
    );
}

#[test]
fn listing_leaves_bad_entries_out() {
    let listed = |key: &[u8], ttl, decoded, now| ListedSubnet {
        kv: kv(key, 5),
        ttl,
        decoded,
        now: at(now),
    };
    let nothing = Decoded { subnets: None, attrs: Ok(attrs()) };
    let entries = vec![
        listed(b"a", Ok(10), decoded(Some(v6("fd00::/64"))), 100),
        listed(b"b", Err(failure("gone")), decoded(None), 100),
        listed(b"c", Ok(10), nothing, 100),
        listed(&[0xff], Ok(10), decoded(None), 100),
        listed(b"d", Ok(20), decoded(None), 200),
    ];
    assert_eq!(
        XlineSubnetRegistry::get_subnets_read(&entries, 33),
        (
            vec![
                expected(v6("fd00::/64"), true, 110, 5),
                expected(v6("::/128"), false, 220, 5)
            ],
            33
        )
    );
    assert_eq!(XlineSubnetRegistry::get_subnets_read(&vec![], 2), (vec![], 2));
}

#[test]
fn single_lease_is_read_in_two_steps() {
    assert_eq!(
        XlineSubnetRegistry::get_subnet(Ok(Listing {
            kvs: vec![kv(b"a", 1), kv(b"b", 2)],
            revision: Some(8)
        })),
        GetStep::ReadTtl { kv: kv(b"a", 1), revision: 8 }
    );
    assert_eq!(
        XlineSubnetRegistry::get_subnet(Ok(Listing { kvs: vec![], revision: Some(8) })),
        GetStep::Done(Ok((None, 0)))
    );
    assert_eq!(
        XlineSubnetRegistry::get_subnet(Err(failure("NOT_FOUND"))),
        GetStep::Done(Err(XlineRegistryError::Xline(failure("NOT_FOUND"))))
    );
    assert_eq!(
        XlineSubnetRegistry::get_subnet_read(&kv(b"a", 1), 8, Ok(5), &decoded(None), at(10)),
        Ok((Some(expected(v6("::/128"), false, 15, 1)), 8))
    );
    assert_eq!(
        XlineSubnetRegistry::get_subnet_read(&kv(b"a", 1), 8, Err(failure("x")), &decoded(None), at(10)),
        Err(XlineRegistryError::Xline(failure("x")))
    );
    assert_eq!(
        XlineSubnetRegistry::get_subnet_read(
            &kv(b"a", 1),
            8,
            Ok(5),
            &Decoded { subnets: None, attrs: Ok(attrs()) },
            at(10)
        ),
        Err(XlineRegistryError::Other("invalid subnet key: a".to_string()))
    );
}

#[test]
fn write_starts_with_a_grant() {
    let r = registry();
    assert_eq!(
        r.create_subnet("k", Ok(b"v".to_vec()), 60),
        WriteStep::Grant {
            ttl_secs: 60,
            key: "/coreos.com/network/subnets/k".to_string(),
            value: b"v".to_vec(),
            only_if_absent: true,
        }
    );
    assert_eq!(
        r.update_subnet("k", Ok(b"v".to_vec()), 60),
        WriteStep::Grant {
            ttl_secs: 60,
            key: "/coreos.com/network/subnets/k".to_string(),
            value: b"v".to_vec(),
            only_if_absent: false,
        }
    );
    let refused = || WriteStep::Done(Err(XlineRegistryError::Json("bad".to_string())));
    assert_eq!(r.create_subnet("k", Err("bad".to_string()), 60), refused());
    assert_eq!(r.update_subnet("k", Err("bad".to_string()), 60), refused());
}

#[test]
fn granted_lease_goes_with_the_entry() {
    assert_eq!(
        XlineSubnetRegistry::subnet_granted(
            "k".to_string(),
            b"v".to_vec(),
            true,
            Ok(LeaseGrant { id: 5, ttl: 61 })
        ),
        WriteStep::Put {
            put: SubnetPut {
                key: "k".to_string(),
                value: b"v".to_vec(),
                lease_id: 5,
                only_if_absent: true,
            },
            granted_ttl: 61,
        }
    );
    assert_eq!(
        XlineSubnetRegistry::subnet_granted("k".to_string(), vec![], true, Err(failure("no"))),
        WriteStep::Done(Err(XlineRegistryError::Xline(failure("no"))))
    );
}

#[test]
fn write_that_fails_gives_the_grant_back() {
    let exists = StoreError {
        display: "exists".to_string(),
        status: Some(Status { code: Code::AlreadyExists, message: String::new() }),
    };
    assert_eq!(
        XlineSubnetRegistry::create_subnet_written(5, 60, Ok(true), at(10)),
        WriteStep::Done(Ok(at(70)))
    );
    assert_eq!(
        XlineSubnetRegistry::create_subnet_written(5, 60, Ok(false), at(10)),
        WriteStep::Revoke { lease_id: 5, error: XlineRegistryError::SubnetAlreadyExists }
    );
    assert_eq!(
        XlineSubnetRegistry::create_subnet_written(5, 60, Err(exists), at(10)),
        WriteStep::Revoke {
            lease_id: 5,
            error: XlineRegistryError::Xline(StoreError {
                display: "exists".to_string(),
                status: Some(Status { code: Code::AlreadyExists, message: String::new() }),
            })
        }
    );
    assert_eq!(
        XlineSubnetRegistry::update_subnet_written(5, 60, Ok(()), at(10)),
        WriteStep::Done(Ok(at(70)))
    );
    assert_eq!(
        XlineSubnetRegistry::update_subnet_written(5, 60, Err(failure("x")), at(10)),
        WriteStep::Revoke { lease_id: 5, error: XlineRegistryError::Xline(failure("x")) }
    );
}

#[test]
fn deletion_fails_with_the_store() {
    assert_eq!(XlineSubnetRegistry::delete_subnet(Ok(())), Ok(()));
    assert_eq!(
        XlineSubnetRegistry::delete_subnet(Err(failure("x"))),
        Err(XlineRegistryError::Xline(failure("x")))
    );
}

#[test]
fn watch_starts_over_with_all_leases() {
    let lease = expected(v6("fd00::/64"), true, 1, 2);
    assert_eq!(
        XlineSubnetRegistry::leases_watch_reset(Ok((vec![lease.clone()], 40))),
        Ok(LeaseWatchResult {
            events: vec![],
            snapshot: vec![lease],
            cursor: Cursor::Cursor(WatchCursor { index: 40 }),
        })
    );
    assert_eq!(
        XlineSubnetRegistry::leases_watch_reset(Err(XlineRegistryError::TryAgain)),
        Err(XlineRegistryError::Other("failed to retrieve subnet leases".to_string()))
    );
}
