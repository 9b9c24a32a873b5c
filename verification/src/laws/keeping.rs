//! What holds of a lease while a node keeps it.
use vstd::prelude::*;

use crate::cursor::{Cursor, WatchCursor};
use crate::error::{ManagerError, XlineRegistryError};
use crate::ip::{Ipv4Network, Ipv6Network};
use crate::lease::{EventType, Lease, LeaseEvent, LeaseWatchResult};
use crate::manager::{
    after_events, all_events, apply_watch_results, KeepAction, KeepEvent, LocalManager, SubnetWrite,
};
use crate::time::{Pause, Timestamp};

verus! {

/// The events of two lists of reports are those of the first and then those of the second.
proof fn lemma_all_events_concat(a: Seq<LeaseWatchResult>, b: Seq<LeaseWatchResult>)
    ensures
        all_events(a + b) == all_events(a) + all_events(b),
    decreases a.len(),
{
    if a.len() == 0 {
        assert(a + b =~= b);
        assert(all_events(a) + all_events(b) =~= all_events(b));
    } else {
        lemma_all_events_concat(a.drop_first(), b);
        assert((a + b).drop_first() =~= a.drop_first() + b);
        assert((a + b)[0] == a[0]);
        assert(all_events(a + b) =~= all_events(a) + all_events(b));
    }
}

/// The events of one report are those that it holds.
proof fn lemma_all_events_single(wr: LeaseWatchResult)
    ensures
        all_events(seq![wr]) == wr.events@,
{
    reveal_with_fuel(all_events, 2);
    assert(seq![wr].drop_first() =~= Seq::<LeaseWatchResult>::empty());
    assert(all_events(seq![wr]) =~= wr.events@);
}

/// Events come from reports, and reports hand all their events on.
proof fn lemma_all_events_members(results: Seq<LeaseWatchResult>, ev: LeaseEvent)
    ensures
        all_events(results).contains(ev) <==> exists|i: int, j: int|
            0 <= i < results.len() && 0 <= j < results[i].events@.len()
                && #[trigger] results[i].events@[j] == ev,
    decreases results.len(),
{
    if results.len() > 0 {
        let rest = results.drop_first();
        let first = results[0].events@;
        let all = all_events(results);
        lemma_all_events_members(rest, ev);
        assert(all =~= first + all_events(rest));
        if all.contains(ev) {
            let k = choose|k: int| 0 <= k < all.len() && all[k] == ev;
            if k < first.len() {
                assert(results[0].events@[k] == ev);
            } else {
                assert(all_events(rest)[k - first.len()] == ev);
                assert(all_events(rest).contains(ev));
                let (i, j) = choose|i: int, j: int|
                    0 <= i < rest.len() && 0 <= j < rest[i].events@.len()
                        && #[trigger] rest[i].events@[j] == ev;
                assert(results[i + 1].events@[j] == ev);
            }
        }
        if exists|i: int, j: int|
            0 <= i < results.len() && 0 <= j < results[i].events@.len()
                && #[trigger] results[i].events@[j] == ev {
            let (i, j) = choose|i: int, j: int|
                0 <= i < results.len() && 0 <= j < results[i].events@.len()
                    && #[trigger] results[i].events@[j] == ev;
            if i == 0 {
                assert(all[j] == ev);
            } else {
                assert(rest[i - 1].events@[j] == ev);
                assert(all_events(rest).contains(ev));
                let k = choose|k: int| 0 <= k < all_events(rest).len() && all_events(rest)[k] == ev;
                assert(all[first.len() + k] == ev);
            }
        }
    }
}

/// Events end a lease exactly where a removal is among them.
proof fn lemma_removed(expiration: Timestamp, events: Seq<LeaseEvent>)
    ensures
        after_events(expiration, events).1 <==> exists|k: int|
            0 <= k < events.len() && (#[trigger] events[k]).event_type == EventType::Removed,
    decreases events.len(),
{
    if events.len() > 0 {
        let rest = events.drop_first();
        let next = match events[0].lease {
            Some(l) => l.expiration,
            None => expiration,
        };
        lemma_removed(next, rest);
        if exists|k: int|
            0 <= k < rest.len() && (#[trigger] rest[k]).event_type == EventType::Removed {
            let k = choose|k: int|
                0 <= k < rest.len() && (#[trigger] rest[k]).event_type == EventType::Removed;
            assert(events[k + 1] == rest[k]);
        }
        if events[0].event_type != EventType::Removed && exists|k: int|
            0 <= k < events.len() && (#[trigger] events[k]).event_type == EventType::Removed {
            let k = choose|k: int|
                0 <= k < events.len() && (#[trigger] events[k]).event_type == EventType::Removed;
            assert(rest[k - 1] == events[k]);
        }
    }
}

/// Reports end a lease exactly where one of them holds a removal.
proof fn lemma_reports_removed(expiration: Timestamp, results: Seq<LeaseWatchResult>)
    ensures
        after_events(expiration, all_events(results)).1 <==> exists|i: int, j: int|
            0 <= i < results.len() && 0 <= j < results[i].events@.len() && (
            #[trigger] results[i].events@[j]).event_type == EventType::Removed,
{
    let events = all_events(results);
    lemma_removed(expiration, events);
    if after_events(expiration, events).1 {
        let k = choose|k: int|
            0 <= k < events.len() && (#[trigger] events[k]).event_type == EventType::Removed;
        assert(events.contains(events[k]));
        lemma_all_events_members(results, events[k]);
        let (i, j) = choose|i: int, j: int|
            0 <= i < results.len() && 0 <= j < results[i].events@.len()
                && #[trigger] results[i].events@[j] == events[k];
        assert(results[i].events@[j].event_type == EventType::Removed);
    }
    if exists|i: int, j: int|
        0 <= i < results.len() && 0 <= j < results[i].events@.len() && (
        #[trigger] results[i].events@[j]).event_type == EventType::Removed {
        let (i, j) = choose|i: int, j: int|
            0 <= i < results.len() && 0 <= j < results[i].events@.len() && (
            #[trigger] results[i].events@[j]).event_type == EventType::Removed;
        lemma_all_events_members(results, results[i].events@[j]);
        let k = choose|k: int| 0 <= k < events.len() && events[k] == results[i].events@[j];
        assert(events[k].event_type == EventType::Removed);
    }
}

/// Events are taken over one after the other, up to the first removal.
proof fn lemma_after_events_concat(expiration: Timestamp, a: Seq<LeaseEvent>, b: Seq<LeaseEvent>)
    ensures
        after_events(expiration, a + b) == if after_events(expiration, a).1 {
            after_events(expiration, a)
        } else {
            after_events(after_events(expiration, a).0, b)
        },
    decreases a.len(),
{
    if a.len() == 0 {
        assert(a + b =~= b);
    } else {
        let next = match a[0].lease {
            Some(l) => l.expiration,
            None => expiration,
        };
        lemma_after_events_concat(next, a.drop_first(), b);
        assert((a + b).drop_first() =~= a.drop_first() + b);
        assert((a + b)[0] == a[0]);
    }
}

/// What one event does to the expiration of a lease.
proof fn lemma_after_single_event(expiration: Timestamp, events: Seq<LeaseEvent>)
    requires
        events.len() <= 1,
    ensures
        events.len() == 0 ==> after_events(expiration, events) == (expiration, false),
        events.len() == 1 ==> after_events(expiration, events).1 == (events[0].event_type
            == EventType::Removed),
        events.len() == 1 ==> after_events(expiration, events).0 == (if events[0].event_type
            == EventType::Added && events[0].lease is Some {
            events[0].lease->0.expiration
        } else {
            expiration
        }),
{
    reveal_with_fuel(after_events, 2);
}

/// A lease is removed exactly where some event of some report is a removal. Nothing but
/// its expiration changes, and nothing at all where no report has an event.
pub proof fn law_removal_is_what_removes(
    lease: &mut Lease,
    results: Vec<LeaseWatchResult>,
    removed: bool,
)
    requires
        call_ensures(apply_watch_results, (lease, &results), removed),
    ensures
        removed <==> exists|i: int, j: int|
            0 <= i < results@.len() && 0 <= j < results@[i].events@.len() && (
            #[trigger] results@[i].events@[j]).event_type == EventType::Removed,
        final(lease).enable_ipv4 == old(lease).enable_ipv4,
        final(lease).enable_ipv6 == old(lease).enable_ipv6,
        final(lease).subnet == old(lease).subnet,
        final(lease).ipv6_subnet == old(lease).ipv6_subnet,
        final(lease).attrs == old(lease).attrs,
        final(lease).asof == old(lease).asof,
        (forall|i: int| 0 <= i < results@.len() ==> (#[trigger] results@[i]).events@.len() == 0)
            ==> !removed && final(lease).expiration == old(lease).expiration,
{
    lemma_reports_removed(lease.expiration, results@);
    if forall|i: int| 0 <= i < results@.len() ==> (#[trigger] results@[i]).events@.len() == 0 {
        let events = all_events(results@);
        if events.len() > 0 {
            assert(events.contains(events[0]));
            lemma_all_events_members(results@, events[0]);
            let (i, j) = choose|i: int, j: int|
                0 <= i < results@.len() && 0 <= j < results@[i].events@.len()
                    && #[trigger] results@[i].events@[j] == events[0];
            assert(results@[i].events@.len() == 0);
        }
        lemma_after_single_event(lease.expiration, events);
    }
}

/// A report of one event: an addition that names a lease sets the expiration to that
/// lease's, and any other event leaves it.
pub proof fn law_single_event_is_taken_over(
    lease: &mut Lease,
    results: Vec<LeaseWatchResult>,
    removed: bool,
)
    requires
        call_ensures(apply_watch_results, (lease, &results), removed),
        results@.len() == 1,
        results@[0].events@.len() == 1,
    ensures
        removed == (results@[0].events@[0].event_type == EventType::Removed),
        final(lease).expiration == (if results@[0].events@[0].event_type == EventType::Added
            && results@[0].events@[0].lease is Some {
            results@[0].events@[0].lease->0.expiration
        } else {
            old(lease).expiration
        }),
{
    assert(results@ =~= seq![results@[0]]);
    lemma_all_events_single(results@[0]);
    lemma_after_single_event(lease.expiration, results@[0].events@);
}

/// Reports are taken over in order: taking over `a` and then `b` comes to the same as
/// taking over both at once, unless `a` removes the lease, after which `b` has no effect.
pub proof fn law_reports_are_taken_over_in_order(
    first: &mut Lease,
    second: &mut Lease,
    both: &mut Lease,
    a: Vec<LeaseWatchResult>,
    b: Vec<LeaseWatchResult>,
    ab: Vec<LeaseWatchResult>,
    removed_a: bool,
    removed_b: bool,
    removed_ab: bool,
)
    requires
        ab@ == a@ + b@,
        *both == *first,
        *second == *final(first),
        call_ensures(apply_watch_results, (first, &a), removed_a),
        call_ensures(apply_watch_results, (second, &b), removed_b),
        call_ensures(apply_watch_results, (both, &ab), removed_ab),
    ensures
        removed_a ==> removed_ab && *final(both) == *final(first),
        !removed_a ==> removed_ab == removed_b && *final(both) == *final(second),
{
    lemma_all_events_concat(a@, b@);
    lemma_after_events_concat(first.expiration, all_events(a@), all_events(b@));
}

/// How events are spread over reports does not matter: one report does what two do that
/// share its events.
pub proof fn law_reports_can_be_split(
    whole: &mut Lease,
    split: &mut Lease,
    one: Vec<LeaseWatchResult>,
    two: Vec<LeaseWatchResult>,
    removed_one: bool,
    removed_two: bool,
)
    requires
        one@.len() == 1,
        two@.len() == 2,
        one@[0].events@ == two@[0].events@ + two@[1].events@,
        *whole == *split,
        call_ensures(apply_watch_results, (whole, &one), removed_one),
        call_ensures(apply_watch_results, (split, &two), removed_two),
    ensures
        removed_one == removed_two,
        *final(whole) == *final(split),
{
    assert(one@ =~= seq![one@[0]]);
    assert(two@ =~= seq![two@[0]] + seq![two@[1]]);
    lemma_all_events_single(one@[0]);
    lemma_all_events_single(two@[0]);
    lemma_all_events_single(two@[1]);
    lemma_all_events_concat(seq![two@[0]], seq![two@[1]]);
}

/// A node that holds a lease stops as revoked exactly where a removal is among the events
/// that its watch reports, and else goes on waiting. It takes over what was reported, and
/// reports without events leave the lease as it is.
pub proof fn law_node_stops_on_removal(
    lease: &mut Lease,
    taken: &mut Lease,
    results: Vec<LeaseWatchResult>,
    removed: bool,
    action: KeepAction,
)
    requires
        call_ensures(
            LocalManager::complete_lease,
            (lease, KeepEvent::Watched(Some(results))),
            action,
        ),
        *taken == *lease,
        call_ensures(apply_watch_results, (taken, &results), removed),
    ensures
        action == KeepAction::Stop(ManagerError::LeaseRevoked) <==> exists|i: int, j: int|
            0 <= i < results@.len() && 0 <= j < results@[i].events@.len() && (
            #[trigger] results@[i].events@[j]).event_type == EventType::Removed,
        action != KeepAction::Stop(ManagerError::LeaseRevoked) ==> action == KeepAction::Wait,
        *final(lease) == *final(taken),
        (forall|i: int| 0 <= i < results@.len() ==> (#[trigger] results@[i]).events@.len() == 0)
            ==> action == KeepAction::Wait && *final(lease) == *old(lease),
{
    lemma_reports_removed(lease.expiration, results@);
    if forall|i: int| 0 <= i < results@.len() ==> (#[trigger] results@[i]).events@.len() == 0 {
        let events = all_events(results@);
        if events.len() > 0 {
            assert(events.contains(events[0]));
            lemma_all_events_members(results@, events[0]);
            let (i, j) = choose|i: int, j: int|
                0 <= i < results@.len() && 0 <= j < results@[i].events@.len()
                    && #[trigger] results@[i].events@[j] == events[0];
            assert(results@[i].events@.len() == 0);
        }
        lemma_after_single_event(lease.expiration, events);
    }
}

/// The first report of the watch on a lease, which holds the lease and no event, leaves
/// the lease as it is and lets the node wait.
pub proof fn law_first_report_changes_nothing(
    held: Lease,
    index: i64,
    lease: &mut Lease,
    first: LeaseWatchResult,
    reports: Vec<LeaseWatchResult>,
    action: KeepAction,
)
    requires
        call_ensures(
            LocalManager::lease_watch_reset,
            (Ok::<(Option<Lease>, i64), XlineRegistryError>((Some(held), index)),),
            Ok::<LeaseWatchResult, ManagerError>(first),
        ),
        reports@ == seq![first],
        call_ensures(
            LocalManager::complete_lease,
            (lease, KeepEvent::Watched(Some(reports))),
            action,
        ),
    ensures
        action == KeepAction::Wait,
        *final(lease) == *old(lease),
{
    lemma_all_events_single(first);
    lemma_after_single_event(lease.expiration, first.events@);
}

/// What a node does next: it renews when the renewal is due, waits again after it was
/// renewed, pauses for a minute where it was not, and stops when the watch has ended. Only
/// a renewal changes the lease, and of it only the expiration.
pub proof fn law_node_keeps_its_lease(lease: &mut Lease, event: KeepEvent, action: KeepAction)
    requires
        call_ensures(LocalManager::complete_lease, (lease, event), action),
    ensures
        event is RenewalDue ==> action == KeepAction::Renew && *final(lease) == *old(lease),
        event matches KeepEvent::Renewed(Ok(expiration)) ==> action == KeepAction::Wait
            && final(lease).expiration == expiration,
        event matches KeepEvent::Renewed(Err(_)) ==> action == KeepAction::PauseSecs(60)
            && *final(lease) == *old(lease),
        event == KeepEvent::Watched(None) ==> action == KeepAction::Stop(
            ManagerError::WatchCanceled,
        ) && *final(lease) == *old(lease),
        final(lease).enable_ipv4 == old(lease).enable_ipv4,
        final(lease).enable_ipv6 == old(lease).enable_ipv6,
        final(lease).subnet == old(lease).subnet,
        final(lease).ipv6_subnet == old(lease).ipv6_subnet,
        final(lease).attrs == old(lease).attrs,
        final(lease).asof == old(lease).asof,
{
}

/// A renewal writes the subnets and the attributes of the lease for another day.
pub proof fn law_renewal_writes_the_lease(lease: Lease, request: SubnetWrite)
    requires
        call_ensures(LocalManager::renewal_request, (&lease,), request),
    ensures
        request.sn == lease.subnet,
        request.sn6 == Some(lease.ipv6_subnet),
        request.attrs == lease.attrs,
        request.ttl_secs == 86_400,
{
}

/// A renewal that succeeds sets the expiration that the registry answered and nothing
/// else; one that fails leaves the lease alone and hands the error on.
pub proof fn law_renewal_moves_the_expiration(
    lease: &mut Lease,
    updated: Result<Timestamp, XlineRegistryError>,
    r: Result<(), ManagerError>,
)
    requires
        call_ensures(LocalManager::renew_lease, (lease, updated), r),
    ensures
        updated is Ok <==> r is Ok,
        updated matches Ok(expiration) ==> final(lease).expiration == expiration,
        updated matches Err(e) ==> r == Err::<(), ManagerError>(ManagerError::Registry(e))
            && final(lease).expiration == old(lease).expiration,
        final(lease).enable_ipv4 == old(lease).enable_ipv4,
        final(lease).enable_ipv6 == old(lease).enable_ipv6,
        final(lease).subnet == old(lease).subnet,
        final(lease).ipv6_subnet == old(lease).ipv6_subnet,
        final(lease).attrs == old(lease).attrs,
        final(lease).asof == old(lease).asof,
{
}

/// A node waits until its margin, in minutes, before the expiration, to the nanosecond,
/// and not at all where that moment has passed.
pub proof fn law_renewal_comes_before_expiration(
    m: LocalManager,
    expiration: Timestamp,
    now: Timestamp,
    r: Pause,
)
    requires
        call_ensures(LocalManager::renewal_pause, (&m, expiration, now), r),
    ensures
        r.nanos < 1_000_000_000,
        ({
            let left = (expiration.secs - now.secs - 60 * m.renew_margin_secs) * 1_000_000_000
                + expiration.nanos - now.nanos;
            r.secs * 1_000_000_000 + r.nanos == if left < 0 {
                0
            } else {
                left
            }
        }),
{
}

/// The watch on one lease starts with the lease as the registry has it, at the revision of
/// the answer. It does not start without the lease or without an answer.
pub proof fn law_watch_on_a_lease_starts_with_it(
    subnet: Result<(Option<Lease>, i64), XlineRegistryError>,
    r: Result<LeaseWatchResult, ManagerError>,
)
    requires
        call_ensures(LocalManager::lease_watch_reset, (subnet,), r),
    ensures
        r is Ok <==> subnet is Ok && subnet->Ok_0.0 is Some,
        r matches Ok(wr) ==> {
            &&& wr.snapshot@.len() == 1
            &&& Some(wr.snapshot@[0]) == subnet->Ok_0.0
            &&& wr.events@.len() == 0
            &&& wr.cursor == Cursor::Cursor((WatchCursor { index: subnet->Ok_0.1 }))
        },
        subnet matches Err(e) ==> r == Err::<LeaseWatchResult, ManagerError>(
            ManagerError::Registry(e),
        ),
        subnet is Ok && subnet->Ok_0.0 is None ==> r == Err::<LeaseWatchResult, ManagerError>(
            ManagerError::SubnetNotFound,
        ),
{
}

/// The manager is made of what it is given.
pub proof fn law_manager_is_what_it_is_given(
    previous_subnet: Option<Ipv4Network>,
    previous_subnet_ipv6: Option<Ipv6Network>,
    renew_margin_secs: i64,
    r: LocalManager,
)
    requires
        call_ensures(
            LocalManager::new,
            (previous_subnet, previous_subnet_ipv6, renew_margin_secs),
            r,
        ),
    ensures
        r.previous_subnet == previous_subnet,
        r.previous_subnet_ipv6 == previous_subnet_ipv6,
        r.renew_margin_secs == renew_margin_secs,
{
}

} // verus!
