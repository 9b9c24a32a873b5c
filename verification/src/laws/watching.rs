//! What holds of the watch on leases.
use vstd::prelude::*;

use crate::cursor::{Cursor, WatchCursor};
use crate::error::{Code, XlineRegistryError};
use crate::lease::{LeaseEvent, LeaseWatchResult};
use crate::registry::XlineSubnetRegistry;
use crate::watch::{SubnetWatch, WatchInput, WatchPhase, WatchScope};

verus! {

/// A watch on all leases starts unconnected, at the revision that is asked for, on all keys
/// below the prefix.
pub proof fn law_watch_on_all_leases_starts(
    registry: XlineSubnetRegistry,
    since: i64,
    w: SubnetWatch,
)
    requires
        call_ensures(XlineSubnetRegistry::watch_subnets, (&registry, since), w),
    ensures
        w.scope == WatchScope::All,
        w.key@ == registry.xline_cfg.prefix@ + "/subnets"@,
        w.since == since,
        w.backoff_ms == 100,
        w.phase == WatchPhase::Connecting,
        w.results@.len() == 0,
{
}

/// A watch on one lease starts unconnected, at the revision that is asked for, on the key
/// of the lease, and remembers where it started.
pub proof fn law_watch_on_one_lease_starts(
    registry: XlineSubnetRegistry,
    since: i64,
    subnet_key: &str,
    w: SubnetWatch,
)
    requires
        call_ensures(XlineSubnetRegistry::watch_subnet, (&registry, since, subnet_key), w),
    ensures
        w.scope == (WatchScope::One { started_at: since }),
        w.key@ == registry.xline_cfg.prefix@ + "/subnets/"@ + subnet_key@,
        w.since == since,
        w.backoff_ms == 100,
        w.phase == WatchPhase::Connecting,
        w.results@.len() == 0,
{
}

/// Whatever happens, a watch keeps what it watches. Nothing happens to one that has ended.
pub proof fn law_watch_stays_what_it_is(w: &mut SubnetWatch, input: WatchInput)
    requires
        call_ensures(SubnetWatch::step, (w, input), ()),
    ensures
        final(w).scope == old(w).scope,
        final(w).key == old(w).key,
        old(w).phase is Stopped ==> final(w).phase == old(w).phase && final(w).since
            == old(w).since && final(w).backoff_ms
            == old(w).backoff_ms && final(w).results@ == old(w).results@,
{
}

/// A watch that connects goes back to the shortest pause and waits for responses. Where
/// it cannot connect it pauses, and the next pause is twice as long, up to five seconds.
pub proof fn law_watch_connects(w: &mut SubnetWatch, input: WatchInput)
    requires
        call_ensures(SubnetWatch::step, (w, input), ()),
        w.phase is Connecting,
    ensures
        input is Opened ==> final(w).phase is Streaming && final(w).backoff_ms == 100
            && final(w).since == old(w).since && final(w).results@ == old(w).results@,
        input is OpenFailed ==> final(w).phase == (WatchPhase::Pausing {
            ms: old(w).backoff_ms,
        }) && final(w).backoff_ms == (if 2 * old(w).backoff_ms < 5_000 {
            2 * old(w).backoff_ms
        } else {
            5_000
        }) && final(w).since == old(w).since && final(w).results@ == old(w).results@,
        !(input is Opened || input is OpenFailed) ==> final(w).phase == old(w).phase
            && final(w).since == old(w).since && final(w).backoff_ms
            == old(w).backoff_ms && final(w).results@ == old(w).results@,
{
}

/// A watch that has paused connects again.
pub proof fn law_watch_wakes(w: &mut SubnetWatch, input: WatchInput)
    requires
        call_ensures(SubnetWatch::step, (w, input), ()),
        w.phase is Pausing,
    ensures
        input is Woken ==> final(w).phase is Connecting && final(w).since == old(w).since
            && final(w).backoff_ms == old(w).backoff_ms
            && final(w).results@ == old(w).results@,
        !(input is Woken) ==> final(w).phase == old(w).phase && final(w).since == old(w).since
            && final(w).backoff_ms
            == old(w).backoff_ms && final(w).results@ == old(w).results@,
{
}

/// A response sets the watch to the revision that it names, where it names one, and lets it
/// read the changes, with no reports yet. A connection that fails, ends or is canceled by
/// the store is made again after a pause, from where the watch stands.
pub proof fn law_watch_takes_a_response(w: &mut SubnetWatch, input: WatchInput)
    requires
        call_ensures(SubnetWatch::step, (w, input), ()),
        w.phase is Streaming,
    ensures
        input is StreamFailed || input is StreamEnded || (input is Response
            && input->canceled) ==> final(w).phase == (WatchPhase::Pausing {
            ms: old(w).backoff_ms,
        }) && final(w).backoff_ms == (if 2 * old(w).backoff_ms < 5_000 {
            2 * old(w).backoff_ms
        } else {
            5_000
        }) && final(w).since == old(w).since && final(w).results@ == old(w).results@,
        input is Response && !input->canceled ==> {
            &&& final(w).since == (if input->revision is Some {
                input->revision->0
            } else {
                old(w).since
            })
            &&& final(w).phase == (if input->Response_events > 0 {
                WatchPhase::Decoding { left: input->Response_events }
            } else {
                WatchPhase::Streaming
            })
            &&& final(w).results@.len() == 0
            &&& final(w).backoff_ms == old(w).backoff_ms
        },
        !(input is StreamFailed || input is StreamEnded || input is Response) ==> final(w).phase
            == old(w).phase && final(w).since == old(w).since && final(w).backoff_ms
            == old(w).backoff_ms && final(w).results@ == old(w).results@,
{
}

/// A watch on all leases adds a report for a change that was read, at the revision it
/// stands at. The report holds one event, of the same kind, and no snapshot. Its lease has
/// IPv4 enabled, whatever the flags of the changed lease, and is otherwise the changed
/// lease; nothing else is set where the change names none.
pub proof fn law_watch_on_all_leases_reports_a_change(
    w: &mut SubnetWatch,
    left: usize,
    event: LeaseEvent,
    report: LeaseWatchResult,
)
    requires
        call_ensures(SubnetWatch::step, (w, WatchInput::Decoded(Ok(event))), ()),
        w.phase == (WatchPhase::Decoding { left }),
        w.scope == WatchScope::All,
        final(w).results@.len() > 0 ==> report == final(w).results@.last(),
    ensures
        final(w).results@.len() == old(w).results@.len() + 1,
        forall|k: int|
            0 <= k < old(w).results@.len() ==> #[trigger] final(w).results@[k]
                == old(w).results@[k],
        report.events@.len() == 1,
        report.events@[0].event_type == event.event_type,
        report.snapshot@.len() == 0,
        report.cursor == Cursor::Cursor((WatchCursor { index: old(w).since })),
        report.events@[0].lease is Some && report.events@[0].lease->0.enable_ipv4,
        event.lease matches Some(changed) ==> {
            let reported = report.events@[0].lease->0;
            &&& reported.subnet == changed.subnet
            &&& reported.ipv6_subnet == changed.ipv6_subnet
            &&& reported.enable_ipv6 == changed.enable_ipv6
            &&& reported.attrs == changed.attrs
            &&& reported.expiration == changed.expiration
            &&& reported.asof == changed.asof
        },
        event.lease is None ==> {
            let reported = report.events@[0].lease->0;
            &&& reported.subnet.addr == 0 && reported.subnet.prefix == 0
            &&& reported.ipv6_subnet.addr == 0 && reported.ipv6_subnet.prefix == 0
            &&& !reported.enable_ipv6
            &&& reported.attrs.public_ip == 0 && reported.attrs.backend_type@.len() == 0
            &&& reported.attrs.backend_data is None && reported.attrs.extra is None
            &&& reported.expiration.secs == 0 && reported.expiration.nanos == 0
            &&& reported.asof is None
        },
        final(w).since == old(w).since && final(w).backoff_ms == old(w).backoff_ms,
        final(w).phase == (if left > 1 {
            WatchPhase::Decoding { left: (left - 1) as usize }
        } else if final(w).results@.len() > 0 {
            WatchPhase::Sending
        } else {
            WatchPhase::Streaming
        }),
{
}

/// A watch on one lease adds a report for a change that was read, with the change as it is,
/// and at the revision from which the watch was started.
pub proof fn law_watch_on_one_lease_reports_a_change(
    w: &mut SubnetWatch,
    left: usize,
    started_at: i64,
    event: LeaseEvent,
    report: LeaseWatchResult,
)
    requires
        call_ensures(SubnetWatch::step, (w, WatchInput::Decoded(Ok(event))), ()),
        w.phase == (WatchPhase::Decoding { left }),
        w.scope == (WatchScope::One { started_at }),
        final(w).results@.len() > 0 ==> report == final(w).results@.last(),
    ensures
        final(w).results@.len() == old(w).results@.len() + 1,
        forall|k: int|
            0 <= k < old(w).results@.len() ==> #[trigger] final(w).results@[k]
                == old(w).results@[k],
        report.events@.len() == 1,
        report.events@[0] == event,
        report.snapshot@.len() == 0,
        report.cursor == Cursor::Cursor((WatchCursor { index: started_at })),
        final(w).since == old(w).since && final(w).backoff_ms == old(w).backoff_ms,
        final(w).phase == (if left > 1 {
            WatchPhase::Decoding { left: (left - 1) as usize }
        } else if final(w).results@.len() > 0 {
            WatchPhase::Sending
        } else {
            WatchPhase::Streaming
        }),
{
}

/// Where a change cannot be read because its revision is out of the store's history, the
/// watch asks for all leases. Where it cannot be read for another reason, a watch on all
/// leases adds a report of nothing, and one on one lease drops the change.
pub proof fn law_watch_meets_a_change_it_cannot_read(
    w: &mut SubnetWatch,
    left: usize,
    e: XlineRegistryError,
    report: LeaseWatchResult,
)
    requires
        call_ensures(SubnetWatch::step, (w, WatchInput::Decoded(Err(e))), ()),
        w.phase == (WatchPhase::Decoding { left }),
        final(w).results@.len() > 0 ==> report == final(w).results@.last(),
    ensures
        (e is Xline && e->Xline_0.status is Some && e->Xline_0.status->0.code == Code::OutOfRange
            && exists|k: int|
            0 <= k <= e->Xline_0.status->0.message@.len()
                - "required revision has been compacted"@.len()
                && #[trigger] e->Xline_0.status->0.message@.subrange(
                k,
                k + "required revision has been compacted"@.len(),
            ) == "required revision has been compacted"@) ==> final(w).phase
                == (WatchPhase::Resetting { left })
            && final(w).results@ == old(w).results@,
        !(e is Xline && e->Xline_0.status is Some && e->Xline_0.status->0.code == Code::OutOfRange
            && exists|k: int|
            0 <= k <= e->Xline_0.status->0.message@.len()
                - "required revision has been compacted"@.len()
                && #[trigger] e->Xline_0.status->0.message@.subrange(
                k,
                k + "required revision has been compacted"@.len(),
            ) == "required revision has been compacted"@) && old(w).scope == WatchScope::All ==> {
            &&& final(w).results@.len() == old(w).results@.len() + 1
            &&& forall|k: int|
                0 <= k < old(w).results@.len() ==> #[trigger] final(w).results@[k]
                    == old(w).results@[k]
            &&& report.events@.len() == 0 && report.snapshot@.len() == 0
            &&& report.cursor is Str && report.cursor->Str_0@ == "0"@
            &&& final(w).phase == (if left > 1 {
            WatchPhase::Decoding { left: (left - 1) as usize }
        } else if final(w).results@.len() > 0 {
            WatchPhase::Sending
        } else {
            WatchPhase::Streaming
        })
        },
        !(e is Xline && e->Xline_0.status is Some && e->Xline_0.status->0.code == Code::OutOfRange
            && exists|k: int|
            0 <= k <= e->Xline_0.status->0.message@.len()
                - "required revision has been compacted"@.len()
                && #[trigger] e->Xline_0.status->0.message@.subrange(
                k,
                k + "required revision has been compacted"@.len(),
            ) == "required revision has been compacted"@) && old(w).scope is One
                ==> final(w).results@ == old(w).results@
            && final(w).phase == (if left > 1 {
            WatchPhase::Decoding { left: (left - 1) as usize }
        } else if final(w).results@.len() > 0 {
            WatchPhase::Sending
        } else {
            WatchPhase::Streaming
        }),
        final(w).since == old(w).since && final(w).backoff_ms == old(w).backoff_ms,
{
}

/// The report of all leases is added as it is, in the place of the change that could not
/// be read; without it the change is dropped.
pub proof fn law_watch_starts_over(
    w: &mut SubnetWatch,
    left: usize,
    reset: Result<LeaseWatchResult, XlineRegistryError>,
)
    requires
        call_ensures(SubnetWatch::step, (w, WatchInput::Reset(reset)), ()),
        w.phase == (WatchPhase::Resetting { left }),
    ensures
        reset matches Ok(wr) ==> final(w).results@ == old(w).results@.push(wr),
        reset is Err ==> final(w).results@ == old(w).results@,
        final(w).since == old(w).since && final(w).backoff_ms == old(w).backoff_ms,
        final(w).phase == (if left > 1 {
            WatchPhase::Decoding { left: (left - 1) as usize }
        } else if final(w).results@.len() > 0 {
            WatchPhase::Sending
        } else {
            WatchPhase::Streaming
        }),
{
}

/// While a watch reads changes, asks for all leases or hands reports over, nothing else
/// has an effect.
pub proof fn law_watch_waits_for_its_answer(w: &mut SubnetWatch, input: WatchInput)
    requires
        call_ensures(SubnetWatch::step, (w, input), ()),
    ensures
        old(w).phase is Decoding && !(input is Decoded) ==> final(w).phase == old(w).phase
            && final(w).since == old(w).since && final(w).backoff_ms
            == old(w).backoff_ms && final(w).results@ == old(w).results@,
        old(w).phase is Resetting && !(input is Reset) ==> final(w).phase == old(w).phase
            && final(w).since == old(w).since && final(w).backoff_ms
            == old(w).backoff_ms && final(w).results@ == old(w).results@,
        old(w).phase is Sending && !(input is Sent) ==> final(w).phase == old(w).phase
            && final(w).since == old(w).since && final(w).backoff_ms
            == old(w).backoff_ms && final(w).results@ == old(w).results@,
{
}

/// A watch whose reports were taken waits for the next response; one whose reports nobody
/// takes has ended.
pub proof fn law_watch_hands_reports_over(w: &mut SubnetWatch, sent: bool)
    requires
        call_ensures(SubnetWatch::step, (w, WatchInput::Sent(sent)), ()),
        w.phase is Sending,
    ensures
        sent ==> final(w).phase is Streaming,
        !sent ==> final(w).phase is Stopped,
        final(w).since == old(w).since && final(w).backoff_ms == old(w).backoff_ms,
        final(w).results@ == old(w).results@,
{
}

/// All reports are taken out, in order, and none is left behind; nothing else changes.
pub proof fn law_reports_are_handed_over_once(w: &mut SubnetWatch, taken: Vec<LeaseWatchResult>)
    requires
        call_ensures(SubnetWatch::take_results, (w,), taken),
    ensures
        taken@ == old(w).results@,
        final(w).results@.len() == 0,
        final(w).phase == old(w).phase,
        final(w).scope == old(w).scope,
        final(w).key == old(w).key,
        final(w).since == old(w).since && final(w).backoff_ms == old(w).backoff_ms,
{
}

/// A watch has failed, for want of somebody who takes its reports, exactly where it has
/// ended.
pub proof fn law_watch_fails_when_it_has_ended(w: SubnetWatch, r: Option<XlineRegistryError>)
    requires
        call_ensures(SubnetWatch::failure, (&w,), r),
    ensures
        r is Some <==> w.phase is Stopped,
        r matches Some(e) ==> e == XlineRegistryError::NoWatchChannel,
{
}

} // verus!
