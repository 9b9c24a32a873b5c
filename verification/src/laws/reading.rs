//! What holds of how the store's answers are read.
use vstd::prelude::*;
use vstd::utf8::*;

use crate::cursor::{Cursor, WatchCursor};
use crate::error::{IoErrorKind, StoreError, XlineRegistryError};
use crate::ip::{Ipv4Network, Ipv6Network};
use crate::lease::{EventType, Lease, LeaseAttrs, LeaseEvent, LeaseWatchResult};
use crate::registry::{
    kv_to_ip_lease, Decoded, GetStep, KeyValue, ListStep, ListedSubnet, Listing, XlineSubnetRegistry,
};
use crate::text::utf8_error_text;
use crate::time::Timestamp;
use crate::watch::{
    parse_subnet_watch_response, parse_subnet_watch_response_read, EventStep, StoreEvent,
    StoreEventType,
};

verus! {

/// The configuration of the network is the text of the first entry. There is none without
/// an entry, and none where the value is not UTF-8; an error of the store stands.
pub proof fn law_configuration_is_the_text_stored(reply: Result<Listing, StoreError>, r: Result<String, XlineRegistryError>)
    requires
        call_ensures(XlineSubnetRegistry::get_network_config, (reply,), r),
    ensures
        reply matches Err(e) ==> r == Err::<String, XlineRegistryError>(
            XlineRegistryError::Xline(e),
        ),
        reply is Ok && reply->Ok_0.kvs@.len() == 0 ==> r == Err::<String, XlineRegistryError>(
            XlineRegistryError::ConfigNotFound,
        ),
        reply is Ok && reply->Ok_0.kvs@.len() > 0 ==> {
            let value = reply->Ok_0.kvs@[0].value@;
            &&& r is Ok <==> valid_utf8(value)
            &&& r is Ok ==> r->Ok_0@ == decode_utf8(value)
            &&& r is Err ==> (r->Err_0 matches XlineRegistryError::Io(kind, text) && kind
                == IoErrorKind::InvalidData && text@ == utf8_error_text(value))
        },
{
}

/// An entry is read as a lease exactly where its key is UTF-8 and names subnets and its
/// value holds attributes. The lease has these, IPv4 enabled, IPv6 where it has an IPv6
/// address, the revision of the entry, and expires when the entry does. Otherwise the first
/// of these that fails is the error.
pub proof fn law_entry_is_read_as_a_lease(
    kv: KeyValue,
    ttl: i64,
    decoded: Decoded,
    now: Timestamp,
    r: Result<Lease, XlineRegistryError>,
)
    requires
        call_ensures(kv_to_ip_lease, (&kv, ttl, &decoded, now), r),
        i64::MIN <= now.secs + ttl <= i64::MAX,
    ensures
        r is Ok <==> valid_utf8(kv.key@) && decoded.subnets is Some && decoded.attrs is Ok,
        r matches Ok(l) ==> {
            &&& l.enable_ipv4
            &&& l.subnet == (decoded.subnets->0).0
            &&& (decoded.subnets->0).1 is Some ==> l.ipv6_subnet == (decoded.subnets->0).1->0
            &&& (decoded.subnets->0).1 is None ==> l.ipv6_subnet.addr == 0
                && l.ipv6_subnet.prefix == 128
            &&& l.enable_ipv6 <==> l.ipv6_subnet.addr != 0
            &&& l.attrs == decoded.attrs->Ok_0
            &&& l.expiration.secs == now.secs + ttl && l.expiration.nanos == now.nanos
            &&& l.asof == Some(kv.mod_revision)
        },
        r matches Err(e) ==> {
            &&& !valid_utf8(kv.key@) ==> (e matches XlineRegistryError::Utf8(text) && text@
                == utf8_error_text(kv.key@))
            &&& valid_utf8(kv.key@) && decoded.subnets is None ==> (
            e matches XlineRegistryError::Other(text) && text@ == "invalid subnet key: "@
                + decode_utf8(kv.key@))
            &&& valid_utf8(kv.key@) && decoded.subnets is Some ==> decoded.attrs is Err && e
                == XlineRegistryError::Json(decoded.attrs->Err_0)
        },
{
}

/// The entries that the store lists are read at the revision that it names, or at none,
/// once the time left to each is known. An error that says that nothing was found is an
/// empty list; any other one stands.
pub proof fn law_listing_asks_for_the_time_left(reply: Result<Listing, StoreError>, step: ListStep)
    requires
        call_ensures(XlineSubnetRegistry::get_subnets, (reply,), step),
    ensures
        reply matches Ok(listing) ==> (step matches ListStep::ReadTtls { kvs, revision } && kvs
            == listing.kvs && revision == (if listing.revision is Some {
            listing.revision->0
        } else {
            0
        })),
        reply matches Err(e) ==> ((exists|k: int|
            0 <= k <= e.display@.len() - "Key not found"@.len() && #[trigger] e.display@.subrange(
                k,
                k + "Key not found"@.len(),
            ) == "Key not found"@) || (exists|k: int|
            0 <= k <= e.display@.len() - "NOT_FOUND"@.len() && #[trigger] e.display@.subrange(
                k,
                k + "NOT_FOUND"@.len(),
            ) == "NOT_FOUND"@)) ==> (step matches ListStep::Done(Ok((leases, revision)))
                && leases@.len() == 0
            && revision == 0),
        reply matches Err(e) ==> !((exists|k: int|
            0 <= k <= e.display@.len() - "Key not found"@.len() && #[trigger] e.display@.subrange(
                k,
                k + "Key not found"@.len(),
            ) == "Key not found"@) || (exists|k: int|
            0 <= k <= e.display@.len() - "NOT_FOUND"@.len() && #[trigger] e.display@.subrange(
                k,
                k + "NOT_FOUND"@.len(),
            ) == "NOT_FOUND"@)) ==> step == ListStep::Done(Err(XlineRegistryError::Xline(e))),
{
}

/// Leases are read entry by entry: one more entry adds its lease at the end, exactly where
/// it says a lease and the time left to it is known, and changes nothing of those before
/// it. No entries make no leases, and the revision is handed on.
pub proof fn law_listing_reads_entry_by_entry(
    before: Vec<ListedSubnet>,
    entries: Vec<ListedSubnet>,
    entry: ListedSubnet,
    revision: i64,
    r: (Vec<Lease>, i64),
    r_before: (Vec<Lease>, i64),
)
    requires
        entries@ == before@.push(entry),
        call_ensures(XlineSubnetRegistry::get_subnets_read, (&before, revision), r_before),
        call_ensures(XlineSubnetRegistry::get_subnets_read, (&entries, revision), r),
        entry.ttl is Ok ==> i64::MIN <= entry.now.secs + entry.ttl->Ok_0 <= i64::MAX,
    ensures
        r.1 == revision,
        before@.len() == 0 ==> r_before.0@.len() == 0,
        forall|k: int| 0 <= k < r_before.0@.len() ==> #[trigger] r.0@[k] == r_before.0@[k],
        ({
            let says = entry.ttl is Ok && valid_utf8(entry.kv.key@) && entry.decoded.subnets is Some
                && entry.decoded.attrs is Ok;
            &&& !says ==> r.0@.len() == r_before.0@.len()
            &&& says ==> {
                let l = r.0@.last();
                &&& r.0@.len() == r_before.0@.len() + 1
                &&& l.enable_ipv4
                &&& l.subnet == (entry.decoded.subnets->0).0
                &&& (entry.decoded.subnets->0).1 is Some ==> l.ipv6_subnet
                    == (entry.decoded.subnets->0).1->0
                &&& (entry.decoded.subnets->0).1 is None ==> l.ipv6_subnet.addr == 0
                    && l.ipv6_subnet.prefix == 128
                &&& l.enable_ipv6 <==> l.ipv6_subnet.addr != 0
                &&& l.attrs == entry.decoded.attrs->Ok_0
                &&& l.expiration.secs == entry.now.secs + entry.ttl->Ok_0 && l.expiration.nanos
                    == entry.now.nanos
                &&& l.asof == Some(entry.kv.mod_revision)
            }
        }),
{
    assert(entries@.drop_last() =~= before@);
}

/// The first entry that the store answers is read at the revision that it names, or at
/// none, once the time left to it is known. Without an entry there is no lease, and an
/// error of the store stands, whatever it says.
pub proof fn law_single_lease_asks_for_the_time_left(reply: Result<Listing, StoreError>, step: GetStep)
    requires
        call_ensures(XlineSubnetRegistry::get_subnet, (reply,), step),
    ensures
        reply matches Err(e) ==> step == GetStep::Done(Err(XlineRegistryError::Xline(e))),
        reply is Ok && reply->Ok_0.kvs@.len() == 0 ==> step == GetStep::Done(Ok((None, 0))),
        reply is Ok && reply->Ok_0.kvs@.len() > 0
            ==> (step matches GetStep::ReadTtl { kv, revision }
            && kv == reply->Ok_0.kvs@[0] && revision == (if reply->Ok_0.revision is Some {
            reply->Ok_0.revision->0
        } else {
            0
        })),
{
}

/// A single lease is read as any entry is, and handed on with the revision. It cannot be
/// read where the time left to it is not known.
pub proof fn law_single_lease_is_read(
    kv: KeyValue,
    revision: i64,
    ttl: Result<i64, StoreError>,
    decoded: Decoded,
    now: Timestamp,
    r: Result<(Option<Lease>, i64), XlineRegistryError>,
)
    requires
        call_ensures(
            XlineSubnetRegistry::get_subnet_read,
            (&kv, revision, ttl, &decoded, now),
            r,
        ),
        ttl is Ok ==> i64::MIN <= now.secs + ttl->Ok_0 <= i64::MAX,
    ensures
        r is Ok <==> ttl is Ok && valid_utf8(kv.key@) && decoded.subnets is Some
            && decoded.attrs is Ok,
        r is Ok ==> {
            let l = r->Ok_0.0->0;
            &&& r->Ok_0.0 is Some && r->Ok_0.1 == revision
            &&& l.enable_ipv4
            &&& l.subnet == (decoded.subnets->0).0
            &&& (decoded.subnets->0).1 is Some ==> l.ipv6_subnet == (decoded.subnets->0).1->0
            &&& (decoded.subnets->0).1 is None ==> l.ipv6_subnet.addr == 0
                && l.ipv6_subnet.prefix == 128
            &&& l.enable_ipv6 <==> l.ipv6_subnet.addr != 0
            &&& l.attrs == decoded.attrs->Ok_0
            &&& l.expiration.secs == now.secs + ttl->Ok_0 && l.expiration.nanos == now.nanos
            &&& l.asof == Some(kv.mod_revision)
        },
        ttl matches Err(e) ==> r == Err::<(Option<Lease>, i64), XlineRegistryError>(
            XlineRegistryError::Xline(e),
        ),
        ttl is Ok && r is Err ==> {
            let e = r->Err_0;
            &&& !valid_utf8(kv.key@) ==> (e matches XlineRegistryError::Utf8(text) && text@
                == utf8_error_text(kv.key@))
            &&& valid_utf8(kv.key@) && decoded.subnets is None ==> (
            e matches XlineRegistryError::Other(text) && text@ == "invalid subnet key: "@
                + decode_utf8(kv.key@))
            &&& valid_utf8(kv.key@) && decoded.subnets is Some ==> decoded.attrs is Err && e
                == XlineRegistryError::Json(decoded.attrs->Err_0)
        },
{
}

/// The deletion of an entry whose key names subnets removes the lease of these subnets, as
/// of now, whatever its value holds. The lease has no attributes and the revision of the
/// deletion.
pub proof fn law_deletion_is_read_as_a_removal(
    ev: StoreEvent,
    decoded: Decoded,
    now: Timestamp,
    step: EventStep,
)
    requires
        call_ensures(parse_subnet_watch_response, (&ev, &decoded, now), step),
        ev.event_type == StoreEventType::Delete,
        ev.kv is Some,
        valid_utf8(ev.kv->0.key@),
        decoded.subnets is Some,
    ensures
        step is Done && step->Done_0 is Ok,
        ({
            let event = step->Done_0->Ok_0;
            let l = event.lease->0;
            &&& event.event_type == EventType::Removed
            &&& event.lease is Some
            &&& l.enable_ipv4
            &&& l.subnet == (decoded.subnets->0).0
            &&& (decoded.subnets->0).1 is Some ==> l.ipv6_subnet == (decoded.subnets->0).1->0
            &&& (decoded.subnets->0).1 is None ==> l.ipv6_subnet.addr == 0
                && l.ipv6_subnet.prefix == 128
            &&& l.enable_ipv6 <==> l.ipv6_subnet.addr != 0
            &&& l.expiration == now
            &&& l.asof == Some(ev.kv->0.mod_revision)
            &&& l.attrs.public_ip == 0 && l.attrs.backend_type@.len() == 0
            &&& l.attrs.backend_data is None && l.attrs.extra is None
        }),
{
}

/// The writing of an entry whose key names subnets asks for the time left to the lease that
/// the entry lives with, for these subnets, the attributes in the value and the revision of
/// the entry. Without attributes in the value it cannot be read.
pub proof fn law_write_is_read_as_an_addition(
    ev: StoreEvent,
    decoded: Decoded,
    now: Timestamp,
    step: EventStep,
)
    requires
        call_ensures(parse_subnet_watch_response, (&ev, &decoded, now), step),
        ev.event_type == StoreEventType::Put,
        ev.kv is Some,
        valid_utf8(ev.kv->0.key@),
        decoded.subnets is Some,
    ensures
        decoded.attrs matches Err(text) ==> step == EventStep::Done(
            Err(XlineRegistryError::Json(text)),
        ),
        decoded.attrs is Ok ==> (step matches EventStep::ReadTtl {
            lease_id,
            subnets,
            attrs,
            mod_revision,
        } && lease_id == ev.kv->0.lease && subnets == decoded.subnets->0 && attrs
            == decoded.attrs->Ok_0 && mod_revision == ev.kv->0.mod_revision),
{
}

/// A change without an entry, with a key that is not UTF-8, or with one that names no
/// subnets is refused for the first of these that holds.
pub proof fn law_change_of_no_lease_is_refused(
    ev: StoreEvent,
    decoded: Decoded,
    now: Timestamp,
    step: EventStep,
)
    requires
        call_ensures(parse_subnet_watch_response, (&ev, &decoded, now), step),
    ensures
        ev.kv is None ==> (step matches EventStep::Done(Err(XlineRegistryError::Other(text)))
            && text@
            == "no key-value in watch event"@),
        ev.kv is Some && !valid_utf8(ev.kv->0.key@) ==> (step matches EventStep::Done(
            Err(XlineRegistryError::Utf8(text)),
        ) && text@ == utf8_error_text(ev.kv->0.key@)),
        ev.kv is Some && valid_utf8(ev.kv->0.key@) && decoded.subnets is None ==> (
        step matches EventStep::Done(Err(XlineRegistryError::Other(text))) && text@ == (
        if ev.event_type == StoreEventType::Put {
            "Put"@
        } else {
            "Delete"@
        }) + ": not a subnet, skipping"@),
{
}

/// A lease that was written is added with what the change said, and expires as many seconds
/// from now as the store answers. Without that answer the change cannot be read.
pub proof fn law_added_lease_expires_with_its_entry(
    subnets: (Ipv4Network, Option<Ipv6Network>),
    attrs: LeaseAttrs,
    mod_revision: i64,
    ttl: Result<i64, StoreError>,
    now: Timestamp,
    r: Result<LeaseEvent, XlineRegistryError>,
)
    requires
        call_ensures(
            parse_subnet_watch_response_read,
            (subnets, attrs, mod_revision, ttl, now),
            r,
        ),
        ttl is Ok ==> i64::MIN <= now.secs + ttl->Ok_0 <= i64::MAX,
    ensures
        ttl is Ok <==> r is Ok,
        ttl matches Err(e) ==> r == Err::<LeaseEvent, XlineRegistryError>(
            XlineRegistryError::Xline(e),
        ),
        r matches Ok(event) ==> {
            let l = event.lease->0;
            &&& event.event_type == EventType::Added
            &&& event.lease is Some
            &&& l.enable_ipv4
            &&& l.subnet == subnets.0
            &&& subnets.1 is Some ==> l.ipv6_subnet == subnets.1->0
            &&& subnets.1 is None ==> l.ipv6_subnet.addr == 0 && l.ipv6_subnet.prefix == 128
            &&& l.enable_ipv6 <==> l.ipv6_subnet.addr != 0
            &&& l.attrs == attrs
            &&& l.expiration.secs == now.secs + ttl->Ok_0 && l.expiration.nanos == now.nanos
            &&& l.asof == Some(mod_revision)
        },
{
}

/// The report with which a watch starts over holds all leases, in order, no events, and the
/// revision at which they were read. It fails where they could not be read.
pub proof fn law_watch_starts_over_with_all_leases(
    subnets: Result<(Vec<Lease>, i64), XlineRegistryError>,
    r: Result<LeaseWatchResult, XlineRegistryError>,
)
    requires
        call_ensures(XlineSubnetRegistry::leases_watch_reset, (subnets,), r),
    ensures
        subnets is Ok <==> r is Ok,
        r matches Ok(wr) ==> {
            &&& wr.snapshot@ == subnets->Ok_0.0@
            &&& wr.events@.len() == 0
            &&& wr.cursor == Cursor::Cursor((WatchCursor { index: subnets->Ok_0.1 }))
        },
        r matches Err(e) ==> (e matches XlineRegistryError::Other(text) && text@
            == "failed to retrieve subnet leases"@),
{
}

} // verus!
