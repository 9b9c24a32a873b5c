use std::collections::BTreeMap;
use subnet_lease::config::Config;
use subnet_lease::error::XlineRegistryError;
use subnet_lease::ip::{Ipv4Network, Ipv6Network};
use subnet_lease::lease::{EventType, Lease, LeaseAttrs};
use subnet_lease::manager::{
    AcquireStep, AttemptOutcome, KeepAction, KeepEvent, LocalManager, SubnetWrite,
};
use subnet_lease::registry::{
    Decoded, GetStep, KeyValue, LeaseGrant, ListStep, ListedSubnet, Listing, WriteStep,
    XlineConfig, XlineSubnetRegistry,
};
use subnet_lease::time::Timestamp;
use subnet_lease::watch::{
    parse_subnet_watch_response, parse_subnet_watch_response_read, EventStep, StoreEvent,
    StoreEventType, SubnetWatch, WatchInput, WatchPhase,
};

fn v4(text: &str) -> Ipv4Network {
    let n: ipnetwork::Ipv4Network = text.parse().unwrap();
    Ipv4Network::new(n.ip().into(), n.prefix()).unwrap()
}

fn v6(text: &str) -> Ipv6Network {
    let n: ipnetwork::Ipv6Network = text.parse().unwrap();
    Ipv6Network::new(n.ip().into(), n.prefix()).unwrap()
}

fn ip_text(ip: u32) -> String {
    let network = Ipv4Network::new(ip, 32).unwrap().to_text();
    network.strip_suffix("/32").unwrap().to_string()
}

/// Writes subnets as `10.1.5.0-24` or `10.1.5.0-24&fd00::-64`.
fn make_key(sn: Ipv4Network, sn6: Option<Ipv6Network>) -> String {
    let mut key = sn.to_text().replace('/', "-");
    if let Some(n) = sn6 {
        let n = ipnetwork::Ipv6Network::new(n.addr.into(), n.prefix).unwrap();
        key.push('&');
        key.push_str(&n.to_string().replace('/', "-"));
    }
    key
}

fn parse_key(key: &str) -> Option<(Ipv4Network, Option<Ipv6Network>)> {
    let name = key.rsplit('/').next()?;
    let mut parts = name.split('&');
    let n: ipnetwork::Ipv4Network = parts.next()?.replace('-', "/").parse().ok()?;
    let sn = Ipv4Network::new(n.ip().into(), n.prefix()).ok()?;
    let sn6 = match parts.next() {
        Some(part) => {
            let n: ipnetwork::Ipv6Network = part.replace('-', "/").parse().ok()?;
            Some(Ipv6Network::new(n.ip().into(), n.prefix()).ok()?)
        }
        None => None,
    };
    Some((sn, sn6))
}

fn encode(attrs: &LeaseAttrs) -> Vec<u8> {
    let mut map = serde_json::Map::new();
    map.insert("PublicIP".to_string(), attrs.public_ip.into());
    map.insert("BackendType".to_string(), attrs.backend_type.clone().into());
    map.insert("BackendData".to_string(), attrs.backend_data.clone().into());
    map.insert("Extra".to_string(), attrs.extra.clone().into());
    serde_json::to_vec(&serde_json::Value::Object(map)).unwrap()
}

fn decode(value: &[u8]) -> Result<LeaseAttrs, String> {
    let v: serde_json::Value = serde_json::from_slice(value).map_err(|e| e.to_string())?;
    Ok(LeaseAttrs {
        public_ip: v["PublicIP"].as_u64().unwrap() as u32,
        backend_type: v["BackendType"].as_str().unwrap().to_string(),
        backend_data: v["BackendData"].as_str().map(|s| s.to_string()),
        extra: v["Extra"].as_str().map(|s| s.to_string()),
    })
}

fn decode_entry(kv: &KeyValue) -> Decoded {
    Decoded {
        subnets: parse_key(std::str::from_utf8(&kv.key).unwrap()),
        attrs: decode(&kv.value),
    }
}

/// A store in memory, with a clock that moves with every look at it.
struct Store {
    registry: XlineSubnetRegistry,
    entries: BTreeMap<String, (Vec<u8>, i64, i64)>,
    ttls: BTreeMap<i64, i64>,
    history: Vec<(i64, StoreEventType, String, Vec<u8>, i64)>,
    revision: i64,
    clock: i64,
}

impl Store {
    fn new() -> Store {
        let cfg = XlineConfig {
            endpoints: vec!["http://127.0.0.1:2379".to_string()],
            prefix: "/coreos.com/network".to_string(),
            username: None,
            password: None,
        };
        Store {
            registry: XlineSubnetRegistry::new(cfg).expect("failed to create registry"),
            entries: BTreeMap::new(),
            ttls: BTreeMap::new(),
            history: Vec::new(),
            revision: 1,
            clock: 1_700_000_000,
        }
    }

    fn now(&mut self) -> Timestamp {
        self.clock += 1;
        Timestamp { secs: self.clock, nanos: 0 }
    }

    fn listing(&self, prefix: &str) -> Listing {
        let kvs = self
            .entries
            .iter()
            .filter(|(k, _)| k.starts_with(prefix))
            .map(|(k, (value, lease, rev))| KeyValue {
                key: k.as_bytes().to_vec(),
                value: value.clone(),
                lease: *lease,
                mod_revision: *rev,
            })
            .collect();
        Listing { kvs, revision: Some(self.revision) }
    }

    fn write(&mut self, mut step: WriteStep) -> Result<Timestamp, XlineRegistryError> {
        loop {
            step = match step {
                WriteStep::Grant { ttl_secs, key, value, only_if_absent } => {
                    let id = 100 + self.revision;
                    self.ttls.insert(id, ttl_secs);
                    let grant = Ok(LeaseGrant { id, ttl: ttl_secs });
                    XlineSubnetRegistry::subnet_granted(key, value, only_if_absent, grant)
                }
                WriteStep::Put { put, granted_ttl } => {
                    let written = !(put.only_if_absent && self.entries.contains_key(&put.key));
                    if written {
                        self.revision += 1;
                        self.entries.insert(
                            put.key.clone(),
                            (put.value.clone(), put.lease_id, self.revision),
                        );
                        self.history.push((
                            self.revision,
                            StoreEventType::Put,
                            put.key,
                            put.value,
                            put.lease_id,
                        ));
                    }
                    let now = self.now();
                    if put.only_if_absent {
                        XlineSubnetRegistry::create_subnet_written(
                            put.lease_id,
                            granted_ttl,
                            Ok(written),
                            now,
                        )
                    } else {
                        XlineSubnetRegistry::update_subnet_written(
                            put.lease_id,
                            granted_ttl,
                            Ok(()),
                            now,
                        )
                    }
                }
                WriteStep::Revoke { lease_id, error } => {
                    self.ttls.remove(&lease_id);
                    WriteStep::Done(Err(error))
                }
                WriteStep::Done(r) => return r,
            };
        }
    }

    fn create(&mut self, w: &SubnetWrite) -> Result<Timestamp, XlineRegistryError> {
        let step =
            self.registry.create_subnet(&make_key(w.sn, w.sn6), Ok(encode(&w.attrs)), w.ttl_secs);
        self.write(step)
    }

    fn update(&mut self, w: &SubnetWrite) -> Result<Timestamp, XlineRegistryError> {
        let step =
            self.registry.update_subnet(&make_key(w.sn, w.sn6), Ok(encode(&w.attrs)), w.ttl_secs);
        self.write(step)
    }

    fn delete(&mut self, sn: Ipv4Network, sn6: Option<Ipv6Network>) -> Result<(), XlineRegistryError> {
        let key = self.registry.lease_key(&make_key(sn, sn6));
        if self.entries.remove(&key).is_some() {
            self.revision += 1;
            self.history.push((self.revision, StoreEventType::Delete, key, vec![], 0));
        }
        XlineSubnetRegistry::delete_subnet(Ok(()))
    }

    fn get(
        &mut self,
        sn: Ipv4Network,
        sn6: Option<Ipv6Network>,
    ) -> Result<(Option<Lease>, i64), XlineRegistryError> {
        let key = self.registry.lease_key(&make_key(sn, sn6));
        match XlineSubnetRegistry::get_subnet(Ok(self.listing(&key))) {
            GetStep::Done(r) => r,
            GetStep::ReadTtl { kv, revision } => {
                let decoded = decode_entry(&kv);
                let ttl = Ok(self.ttls[&kv.lease]);
                let now = self.now();
                XlineSubnetRegistry::get_subnet_read(&kv, revision, ttl, &decoded, now)
            }
        }
    }

    fn list(&mut self) -> Result<(Vec<Lease>, i64), XlineRegistryError> {
        let prefix = self.registry.subnets_prefix();
        match XlineSubnetRegistry::get_subnets(Ok(self.listing(&prefix))) {
            ListStep::Done(r) => r,
            ListStep::ReadTtls { kvs, revision } => {
                let mut entries = Vec::new();
                for kv in kvs {
                    let decoded = decode_entry(&kv);
                    let ttl = Ok(self.ttls[&kv.lease]);
                    let now = self.now();
                    entries.push(ListedSubnet { kv, ttl, decoded, now });
                }
                Ok(XlineSubnetRegistry::get_subnets_read(&entries, revision))
            }
        }
    }

    /// Hands the watch everything that happened from its revision on.
    fn feed(&mut self, w: &mut SubnetWatch) {
        w.step(WatchInput::Opened);
        let (since, key) = (w.since, w.key.clone());
        let changes: Vec<_> = self
            .history
            .iter()
            .filter(|c| c.0 >= since && c.2.starts_with(&key))
            .cloned()
            .collect();
        w.step(WatchInput::Response {
            canceled: false,
            revision: Some(self.revision),
            events: changes.len(),
        });
        for (mod_revision, event_type, key, value, lease) in changes {
            let kv = KeyValue { key: key.into_bytes(), value, lease, mod_revision };
            let decoded = decode_entry(&kv);
            let now = self.now();
            let ev = StoreEvent { event_type, kv: Some(kv) };
            let event = match parse_subnet_watch_response(&ev, &decoded, now) {
                EventStep::Done(r) => r,
                EventStep::ReadTtl { lease_id, subnets, attrs, mod_revision } => {
                    let ttl = Ok(self.ttls[&lease_id]);
                    parse_subnet_watch_response_read(subnets, attrs, mod_revision, ttl, now)
                }
            };
            w.step(WatchInput::Decoded(event));
        }
    }

    fn acquire(&mut self, m: &LocalManager, config: &Config, attrs: &LeaseAttrs) -> Result<Lease, String> {
        let mut attempt = 1;
        loop {
            let listed = self.list();
            let mut step = m.try_acquire_lease(config, attrs.public_ip, attrs, listed);
            let outcome = loop {
                step = match step {
                    AcquireStep::UpdateSubnet { request, lease, .. } => {
                        let updated = self.update(&request);
                        break m.try_acquire_lease_updated(lease, attrs, updated);
                    }
                    AcquireStep::DeleteSubnet { sn, sn6, leases } => {
                        let deleted = self.delete(sn, sn6);
                        m.try_acquire_lease_deleted(config, &leases, attrs, deleted)
                    }
                    AcquireStep::CreateSubnet { request } => {
                        let created = self.create(&request);
                        break m.try_acquire_lease_created(request, created);
                    }
                    AcquireStep::Failed(e) => break Err(e),
                };
            };
            match LocalManager::acquire_lease(attempt, outcome) {
                AttemptOutcome::Retry => attempt += 1,
                AttemptOutcome::Finished(r) => return r.map_err(|e| e.message()),
            }
        }
    }
}

fn attrs(public_ip: u32) -> LeaseAttrs {
    LeaseAttrs {
        public_ip,
        backend_type: "vxlan".to_string(),
        backend_data: Some("{\"VNI\":1}".to_string()),
        ..Default::default()
    }
}

fn write(sn: &str) -> SubnetWrite {
    SubnetWrite {
        sn: v4(sn),
        sn6: Some(v6("fd00::/64")),
        attrs: attrs(0x0102_0304),
        ttl_secs: 60,
    }
}

/// `{"Network":"10.1.0.0/16","SubnetMin":"10.1.1.0","SubnetMax":"10.1.254.0","SubnetLen":24}`
fn network() -> Config {
    Config {
        enable_ipv6: false,
        subnet_len: 24,
        subnet_min: Some(v4("10.1.1.0/24").addr),
        subnet_max: Some(v4("10.1.254.0/24").addr),
        ipv6_subnet_len: 64,
        ipv6_subnet_min: None,
        ipv6_subnet_max: None,
    }
}

fn network_with_ipv6() -> Config {
    Config {
        enable_ipv6: true,
        ipv6_subnet_min: Some(v6("fd00::/64").addr),
        ipv6_subnet_max: Some(v6("fd00:0:0:ff::/64").addr),
        ..network()
    }
}

#[test]
fn test_create_and_get_subnet() {
    let mut store = Store::new();
    store.create(&write("10.1.5.0/24")).expect("failed to create subnet");
    let (lease_opt, _) = store
        .get(v4("10.1.5.0/24"), Some(v6("fd00::/64")))
        .expect("failed to get subnet");
    assert!(lease_opt.is_some());
    assert_eq!(ip_text(lease_opt.unwrap().attrs.public_ip), "1.2.3.4");
}

#[test]
fn test_watch_and_create_subnet() {
    let mut store = Store::new();
    let revision = store.revision;
    let mut watch = store.registry.watch_subnets(revision);
    store.create(&write("10.1.6.0/24")).expect("failed to create subnet");
    store.feed(&mut watch);
    assert_eq!(watch.phase, WatchPhase::Sending);
    let watch_result = watch.take_results();
    assert!(!watch_result.is_empty());
    let event = &watch_result[0].events[0];
    assert_eq!(event.event_type, EventType::Added);
    assert_eq!(event.lease.as_ref().unwrap().subnet, v4("10.1.6.0/24"));
}

#[test]
fn test_local_manager_with_xline_registry() {
    let mut store = Store::new();
    let manager = LocalManager::new(None, None, 5);
    let lease_attrs = attrs(v4("1.3.3.4/32").addr);
    let lease = store.acquire(&manager, &network(), &lease_attrs).expect("acquire lease failed");

    let mut lease2 = lease.clone();
    let updated = store.update(&LocalManager::renewal_request(&lease2));
    LocalManager::renew_lease(&mut lease2, updated).expect("renew failed");
    let (first, second) = (lease.expiration, lease2.expiration);
    assert!((second.secs, second.nanos) > (first.secs, first.nanos));
}

#[test]
fn leased_subnet_is_not_leased_again() {
    let mut store = Store::new();
    store.create(&write("10.1.5.0/24")).unwrap();
    let before = (store.entries.clone(), store.ttls.clone());
    let mut other = write("10.1.5.0/24");
    other.attrs = attrs(9);
    assert_eq!(store.create(&other), Err(XlineRegistryError::SubnetAlreadyExists));
    assert_eq!((store.entries.clone(), store.ttls.clone()), before);
}

#[test]
fn acquired_lease_is_renewed_on_the_next_attempt() {
    let mut store = Store::new();
    let manager = LocalManager::new(None, None, 5);
    let first = store.acquire(&manager, &network_with_ipv6(), &attrs(7)).unwrap();
    let second = store.acquire(&manager, &network_with_ipv6(), &attrs(7)).unwrap();
    assert_eq!((first.subnet, first.ipv6_subnet), (second.subnet, second.ipv6_subnet));
    assert!(second.expiration.secs > first.expiration.secs);
    assert_eq!(store.entries.len(), 1);
}

#[test]
fn nodes_get_different_subnets() {
    let mut store = Store::new();
    let manager = LocalManager::new(None, None, 5);
    let mut seen = Vec::new();
    for ip in 1..=50u32 {
        let lease = store.acquire(&manager, &network_with_ipv6(), &attrs(ip)).unwrap();
        assert!(!seen.contains(&lease.subnet));
        seen.push(lease.subnet);
    }
    assert_eq!(store.list().unwrap().0.len(), 50);
}

#[test]
fn lease_without_ipv6_is_given_up_when_it_is_acquired_again() {
    let mut store = Store::new();
    let manager = LocalManager::new(None, None, 5);
    let first = store.acquire(&manager, &network(), &attrs(7)).unwrap();
    assert_eq!(first.ipv6_subnet, v6("::/0"));
    let read = store.list().unwrap().0;
    assert_eq!(read[0].ipv6_subnet, v6("::/128"));
    let step = manager.try_acquire_lease(&network(), 7, &attrs(7), Ok((read, 1)));
    assert!(matches!(step, AcquireStep::DeleteSubnet { .. }));
}

#[test]
fn deleted_lease_stops_its_node() {
    let mut store = Store::new();
    let manager = LocalManager::new(None, None, 5);
    let mut lease = store.acquire(&manager, &network_with_ipv6(), &attrs(7)).unwrap();
    let (sn, sn6) = (lease.subnet, Some(lease.ipv6_subnet));
    let mut watch = store.registry.watch_subnet(store.revision, &make_key(sn, sn6));
    store.update(&LocalManager::renewal_request(&lease)).unwrap();
    store.delete(sn, sn6).unwrap();
    store.feed(&mut watch);
    let results = watch.take_results();
    assert_eq!(results.len(), 3);
    assert_eq!(
        LocalManager::complete_lease(&mut lease, KeepEvent::Watched(Some(results))),
        KeepAction::Stop(subnet_lease::error::ManagerError::LeaseRevoked)
    );
}

#[test]
fn deletion_takes_one_lease_away() {
    let mut store = Store::new();
    let sn6 = Some(v6("fd00::/64"));
    store.create(&write("10.1.5.0/24")).unwrap();
    let alone = store.entries.clone();
    store.create(&write("10.1.6.0/24")).unwrap();
    store.delete(v4("10.1.6.0/24"), sn6).unwrap();
    assert_eq!(store.entries, alone);
    assert_eq!(store.get(v4("10.1.6.0/24"), sn6), Ok((None, 0)));
    store.delete(v4("10.1.6.0/24"), sn6).unwrap();
    assert_eq!(store.entries, alone);
    let listed: Vec<Ipv4Network> =
        store.list().unwrap().0.iter().map(|lease| lease.subnet).collect();
    assert_eq!(listed, vec![v4("10.1.5.0/24")]);
    assert!(store.create(&write("10.1.6.0/24")).is_ok());
}

#[test]
fn renewal_keeps_all_attributes() {
    let mut store = Store::new();
    let manager = LocalManager::new(None, None, 5);
    let mut published = attrs(7);
    published.extra = Some("{\"PublicIPv6\":\"fd00::1\"}".to_string());
    let lease = store.acquire(&manager, &network_with_ipv6(), &published).unwrap();
    store.update(&LocalManager::renewal_request(&lease)).unwrap();
    let (read, _) = store.get(lease.subnet, Some(lease.ipv6_subnet)).unwrap();
    assert_eq!(read.unwrap().attrs, published);
}
