use subnet_lease::cursor::{get_next_index, Cursor, WatchCursor};
use subnet_lease::error::{Code, Status, StoreError, XlineRegistryError};
use subnet_lease::ip::{Ipv4Network, Ipv6Network};
use subnet_lease::lease::{EventType, Lease, LeaseAttrs, LeaseEvent, LeaseWatchResult};
use subnet_lease::registry::{Decoded, KeyValue, XlineConfig, XlineSubnetRegistry};
use subnet_lease::time::Timestamp;
use subnet_lease::watch::{
    parse_subnet_watch_response, parse_subnet_watch_response_read, EventStep, StoreEvent,
    StoreEventType, SubnetWatch, WatchInput, WatchPhase, WatchScope,
};

fn v4(text: &str) -> Ipv4Network {
    let n: ipnetwork::Ipv4Network = text.parse().unwrap();
    Ipv4Network::new(n.ip().into(), n.prefix()).unwrap()
}

fn v6(text: &str) -> Ipv6Network {
    let n: ipnetwork::Ipv6Network = text.parse().unwrap();
    Ipv6Network::new(n.ip().into(), n.prefix()).unwrap()
}

fn at(secs: i64) -> Timestamp {
    Timestamp { secs, nanos: 0 }
}

fn registry() -> XlineSubnetRegistry {
    XlineSubnetRegistry::new(XlineConfig {
        endpoints: vec![],
        prefix: "/coreos.com/network".to_string(),
        username: None,
        password: None,
    })
    .unwrap()
}

fn attrs() -> LeaseAttrs {
    LeaseAttrs {
        public_ip: 0x0102_0304,
        backend_type: "vxlan".to_string(),
        ..Default::default()
    }
}

fn event(event_type: StoreEventType, key: &[u8]) -> StoreEvent {
    StoreEvent {
        event_type,
        kv: Some(KeyValue { key: key.to_vec(), value: vec![], lease: 7, mod_revision: 12 }),
    }
}

fn decoded() -> Decoded {
    Decoded {
        subnets: Some((v4("10.1.6.0/24"), Some(v6("fd00::/64")))),
        attrs: Ok(attrs()),
    }
}

fn lease() -> Lease {
    Lease {
        enable_ipv4: true,
        enable_ipv6: true,
        subnet: v4("10.1.6.0/24"),
        ipv6_subnet: v6("fd00::/64"),
        attrs: attrs(),
        expiration: at(160),
        asof: Some(12),
    }
}

fn added() -> LeaseEvent {
    LeaseEvent { event_type: EventType::Added, lease: Some(lease()) }
}

fn compacted() -> XlineRegistryError {
    XlineRegistryError::Xline(StoreError {
        display: String::new(),
        status: Some(Status {
            code: Code::OutOfRange,
            message: "etcdserver: mvcc: required revision has been compacted".to_string(),
        }),
    })
}

fn streaming(mut w: SubnetWatch, events: usize) -> SubnetWatch {
    w.step(WatchInput::Opened);
    assert_eq!(w.phase, WatchPhase::Streaming);
    w.step(WatchInput::Response { canceled: false, revision: Some(50), events });
    w
}

#[test]
fn write_adds_a_lease() {
    let ev = event(StoreEventType::Put, b"k");
    match parse_subnet_watch_response(&ev, &decoded(), at(100)) {
        EventStep::ReadTtl { lease_id, subnets, attrs, mod_revision } => {
            assert_eq!(lease_id, 7);
            assert_eq!(
                parse_subnet_watch_response_read(subnets, attrs, mod_revision, Ok(60), at(100)),
                Ok(added())
            );
        }
        step => panic!("{:?}", step),
    }
    let gone = || StoreError { display: "gone".to_string(), status: None };
    assert_eq!(
        parse_subnet_watch_response_read((v4("10.1.6.0/24"), None), attrs(), 1, Err(gone()), at(0)),
        Err(XlineRegistryError::Xline(gone()))
    );
}

#[test]
fn deletion_removes_a_lease() {
    let ev = event(StoreEventType::Delete, b"k");
    let mut d = decoded();
    d.attrs = Err("no JSON".to_string());
    d.subnets = Some((v4("10.1.6.0/24"), None));
    assert_eq!(
        parse_subnet_watch_response(&ev, &d, at(100)),
        EventStep::Done(Ok(LeaseEvent {
            event_type: EventType::Removed,
            lease: Some(Lease {
                enable_ipv6: false,
                ipv6_subnet: v6("0::/128"),
                attrs: LeaseAttrs::default(),
                expiration: at(100),
                ..lease()
            })
        }))
    );
}

#[test]
fn change_that_says_no_lease_is_refused() {
    let now = at(100);
    let done = |e| EventStep::Done(Err(e));
    assert_eq!(
        parse_subnet_watch_response(
            &StoreEvent { event_type: StoreEventType::Put, kv: None },
            &decoded(),
            now
        ),
        done(XlineRegistryError::Other("no key-value in watch event".to_string()))
    );
    let bad = [0xff, 0xfe];
    assert_eq!(
        parse_subnet_watch_response(&event(StoreEventType::Put, &bad), &decoded(), now),
        done(XlineRegistryError::Utf8(std::str::from_utf8(&bad).unwrap_err().to_string()))
    );
    let nothing = Decoded { subnets: None, attrs: Ok(attrs()) };
    assert_eq!(
        parse_subnet_watch_response(&event(StoreEventType::Put, b"k"), &nothing, now),
        done(XlineRegistryError::Other("Put: not a subnet, skipping".to_string()))
    );
    assert_eq!(
        parse_subnet_watch_response(&event(StoreEventType::Delete, b"k"), &nothing, now),
        done(XlineRegistryError::Other("Delete: not a subnet, skipping".to_string()))
    );
    let mut no_json = decoded();
    no_json.attrs = Err("no JSON".to_string());
    assert_eq!(
        parse_subnet_watch_response(&event(StoreEventType::Put, b"k"), &no_json, now),
        done(XlineRegistryError::Json("no JSON".to_string()))
    );
}

#[test]
fn watches_start_unconnected() {
    let all = registry().watch_subnets(31);
    assert_eq!(all.key, "/coreos.com/network/subnets");
    assert_eq!((all.scope, all.since, all.phase), (WatchScope::All, 31, WatchPhase::Connecting));
    let one = registry().watch_subnet(31, "10.1.6.0-24");
    assert_eq!(one.key, "/coreos.com/network/subnets/10.1.6.0-24");
    assert_eq!(one.scope, WatchScope::One { started_at: 31 });
    assert_eq!(one.phase, WatchPhase::Connecting);
    assert_eq!(one.failure(), None);
}

#[test]
fn pauses_double_up_to_five_seconds() {
    let mut w = registry().watch_subnets(1);
    for ms in [100u64, 200, 400, 800, 1_600, 3_200, 5_000, 5_000] {
        w.step(WatchInput::OpenFailed);
        assert_eq!(w.phase, WatchPhase::Pausing { ms });
        w.step(WatchInput::Woken);
        assert_eq!(w.phase, WatchPhase::Connecting);
    }
    w.step(WatchInput::Opened);
    w.step(WatchInput::StreamEnded);
    assert_eq!(w.phase, WatchPhase::Pausing { ms: 100 });
    w.step(WatchInput::Woken);
    w.step(WatchInput::OpenFailed);
    assert_eq!(w.phase, WatchPhase::Pausing { ms: 200 });
}

#[test]
fn lost_connection_keeps_the_revision() {
    for input in [
        WatchInput::StreamFailed,
        WatchInput::StreamEnded,
        WatchInput::Response { canceled: true, revision: Some(99), events: 4 },
    ] {
        let mut w = streaming(registry().watch_subnets(31), 0);
        assert_eq!((w.since, w.phase), (50, WatchPhase::Streaming));
        w.step(input);
        assert_eq!((w.since, w.phase), (50, WatchPhase::Pausing { ms: 100 }));
    }
    let mut w = registry().watch_subnets(31);
    w.step(WatchInput::Opened);
    w.step(WatchInput::Response { canceled: false, revision: None, events: 1 });
    assert_eq!((w.since, w.phase), (31, WatchPhase::Decoding { left: 1 }));
}

#[test]
fn watch_on_all_leases_reports_every_change() {
    let mut w = streaming(registry().watch_subnets(31), 4);
    let plain = LeaseEvent {
        event_type: EventType::Removed,
        lease: Some(Lease { enable_ipv4: false, ..lease() }),
    };
    w.step(WatchInput::Decoded(Ok(plain)));
    w.step(WatchInput::Decoded(Ok(LeaseEvent { event_type: EventType::Added, lease: None })));
    w.step(WatchInput::Decoded(Err(XlineRegistryError::TryAgain)));
    assert_eq!(w.phase, WatchPhase::Decoding { left: 1 });
    w.step(WatchInput::Decoded(Ok(added())));
    assert_eq!(w.phase, WatchPhase::Sending);
    let report = |event| LeaseWatchResult {
        events: vec![event],
        snapshot: vec![],
        cursor: Cursor::Cursor(WatchCursor { index: 50 }),
    };
    assert_eq!(
        w.take_results(),
        vec![
            report(LeaseEvent { event_type: EventType::Removed, lease: Some(lease()) }),
            report(LeaseEvent {
                event_type: EventType::Added,
                lease: Some(Lease { enable_ipv4: true, ..Lease::default() })
            }),
            LeaseWatchResult::default(),
            report(added()),
        ]
    );
    w.step(WatchInput::Sent(true));
    assert_eq!(w.phase, WatchPhase::Streaming);
}

#[test]
fn watch_on_one_lease_drops_what_it_cannot_read() {
    let mut w = streaming(registry().watch_subnet(31, "k"), 2);
    w.step(WatchInput::Decoded(Err(XlineRegistryError::TryAgain)));
    w.step(WatchInput::Decoded(Ok(added())));
    assert_eq!(
        w.take_results(),
        vec![LeaseWatchResult {
            events: vec![added()],
            snapshot: vec![],
            cursor: Cursor::Cursor(WatchCursor { index: 31 }),
        }]
    );
    assert_eq!(w.phase, WatchPhase::Sending);
    let mut w = streaming(registry().watch_subnet(31, "k"), 1);
    w.step(WatchInput::Decoded(Err(XlineRegistryError::TryAgain)));
    assert_eq!(w.phase, WatchPhase::Streaming);
}

#[test]
fn lost_history_is_made_up_for_by_all_leases() {
    let all = || LeaseWatchResult {
        events: vec![],
        snapshot: vec![lease()],
        cursor: Cursor::Cursor(WatchCursor { index: 60 }),
    };
    let mut w = streaming(registry().watch_subnets(31), 2);
    w.step(WatchInput::Decoded(Err(compacted())));
    assert_eq!(w.phase, WatchPhase::Resetting { left: 2 });
    w.step(WatchInput::Reset(Ok(all())));
    assert_eq!(w.phase, WatchPhase::Decoding { left: 1 });
    w.step(WatchInput::Decoded(Err(compacted())));
    w.step(WatchInput::Reset(Err(XlineRegistryError::TryAgain)));
    assert_eq!(w.phase, WatchPhase::Sending);
    assert_eq!(w.take_results(), vec![all()]);
}

#[test]
fn watch_ends_when_nobody_listens() {
    let mut w = streaming(registry().watch_subnets(31), 1);
    w.step(WatchInput::Decoded(Ok(added())));
    w.step(WatchInput::Sent(false));
    assert_eq!(w.phase, WatchPhase::Stopped);
    assert_eq!(w.failure(), Some(XlineRegistryError::NoWatchChannel));
    w.step(WatchInput::Opened);
    assert_eq!(w.phase, WatchPhase::Stopped);
}

#[test]
fn unexpected_input_changes_nothing() {
    let mut w = registry().watch_subnets(31);
    w.step(WatchInput::Woken);
    w.step(WatchInput::Sent(false));
    w.step(WatchInput::Decoded(Ok(added())));
    assert_eq!(w, registry().watch_subnets(31));
}

#[test]
fn watch_starts_right_after_the_report_of_all_leases() {
    let report = XlineSubnetRegistry::leases_watch_reset(Ok((vec![lease()], 40))).unwrap();
    assert_eq!(get_next_index(&report.cursor), Ok(41));
}
