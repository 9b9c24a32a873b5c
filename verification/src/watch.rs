//! The watch on the leases: how changes of the store are read, and how the watch
//! connects, reports, starts over and connects again.
use vstd::prelude::*;
use vstd::utf8::*;

use crate::cursor::{Cursor, WatchCursor};
use crate::error::{index_too_small, is_index_too_small, StoreError, XlineRegistryError};
use crate::ip::{Ipv4Network, Ipv6Network};
use crate::lease::{
    is_default_attrs, is_default_lease, is_default_result, EventType, Lease, LeaseAttrs, LeaseEvent,
    LeaseWatchResult,
};
use crate::registry::{
    lease_key, read_lease, stored_lease, subnets_prefix, Decoded, KeyValue, XlineSubnetRegistry,
};
use crate::text::{text_from_utf8, utf8_error_text};
use crate::time::{expiry, seconds_later, seconds_later_in_range, Timestamp};

verus! {

/// The first pause before the watch connects again, in milliseconds.
pub const MIN_BACKOFF_MS: u64 = 100;

/// The longest pause before the watch connects again, in milliseconds.
pub const MAX_BACKOFF_MS: u64 = 5_000;

/// What happened to an entry of the store.
#[derive(Clone, Copy, Debug, PartialEq, Eq, Structural)]
pub enum StoreEventType {
    Put,
    Delete,
}

/// A change of an entry of the store.
#[derive(Debug, PartialEq, Eq)]
pub struct StoreEvent {
    pub event_type: StoreEventType,
    pub kv: Option<KeyValue>,
}

/// How the reading of a change goes on.
#[derive(Debug, PartialEq, Eq)]
pub enum EventStep {
    /// Ask for how long the store's lease `lease_id` lives, for a lease of these
    /// subnets with these attributes.
    ReadTtl {
        lease_id: i64,
        subnets: (Ipv4Network, Option<Ipv6Network>),
        attrs: LeaseAttrs,
        mod_revision: i64,
    },
    Done(Result<LeaseEvent, XlineRegistryError>),
}

/// What is watched.
#[derive(Clone, Copy, Debug, PartialEq, Eq, Structural)]
pub enum WatchScope {
    /// All leases. Reports carry the revision up to which they reach.
    All,
    /// One lease. Reports carry the revision from which the watch was started.
    One { started_at: i64 },
}

/// What the watch waits for.
#[derive(Clone, Copy, Debug, PartialEq, Eq, Structural)]
pub enum WatchPhase {
    /// A connection that yields the changes of the keys that start with the watch's
    /// key, from the revision `since` on.
    Connecting,
    /// The end of a pause.
    Pausing { ms: u64 },
    /// The next response on the connection.
    Streaming,
    /// The reading of the next change of the response; `left` changes are not read.
    Decoding { left: usize },
    /// All leases, because the change could not be read from the store's history.
    Resetting { left: usize },
    /// The hand-over of the reports.
    Sending,
    /// Nothing: nobody takes the reports any more.
    Stopped,
}

/// What the watch has waited for.
#[derive(Debug, PartialEq, Eq)]
pub enum WatchInput {
    Opened,
    OpenFailed,
    Woken,
    /// A response with so many changes, and the revision of the store; or one by
    /// which the store cancels the watch.
    Response { canceled: bool, revision: Option<i64>, events: usize },
    /// The connection has failed.
    StreamFailed,
    /// The connection has ended.
    StreamEnded,
    Decoded(Result<LeaseEvent, XlineRegistryError>),
    Reset(Result<LeaseWatchResult, XlineRegistryError>),
    Sent(bool),
}

/// A watch.
#[derive(Debug, PartialEq, Eq)]
pub struct SubnetWatch {
    pub scope: WatchScope,
    pub key: String,
    pub since: i64,
    pub backoff_ms: u64,
    pub phase: WatchPhase,
    /// The reports that the changes read so far make.
    pub results: Vec<LeaseWatchResult>,
}

/// What a watch is, but for what it watches.
#[verifier::ext_equal]
pub struct WatchState {
    pub since: i64,
    pub backoff_ms: u64,
    pub phase: WatchPhase,
    pub results: Seq<LeaseWatchResult>,
}

/// What the kind of a change prints.
pub open spec fn event_type_text(t: StoreEventType) -> Seq<char> {
    match t {
        StoreEventType::Put => "Put"@,
        StoreEventType::Delete => "Delete"@,
    }
}

/// Whether `step` is how the reading of the change goes on.
pub open spec fn reads_event(
    ev: StoreEvent,
    decoded: Decoded,
    now: Timestamp,
    step: EventStep,
) -> bool {
    match ev.kv {
        None => step matches EventStep::Done(Err(XlineRegistryError::Other(text))) && text@
            == "no key-value in watch event"@,
        Some(kv) => if !valid_utf8(kv.key@) {
            step matches EventStep::Done(Err(XlineRegistryError::Utf8(text))) && text@
                == utf8_error_text(kv.key@)
        } else if decoded.subnets is None {
            step matches EventStep::Done(Err(XlineRegistryError::Other(text))) && text@
                == event_type_text(ev.event_type) + ": not a subnet, skipping"@
        } else if ev.event_type == StoreEventType::Delete {
            &&& step matches EventStep::Done(Ok(event))
            &&& event.event_type == EventType::Removed
            &&& event.lease matches Some(lease)
            &&& is_default_attrs(lease.attrs)
            &&& lease == stored_lease(decoded.subnets->0, lease.attrs, now, kv.mod_revision)
        } else {
            match decoded.attrs {
                Err(text) => step == EventStep::Done(Err(XlineRegistryError::Json(text))),
                Ok(attrs) => step == (EventStep::ReadTtl {
                    lease_id: kv.lease,
                    subnets: decoded.subnets->0,
                    attrs,
                    mod_revision: kv.mod_revision,
                }),
            }
        },
    }
}

/// How the reading of a change goes on. A deletion removes the lease, at `now`; a
/// write adds it, once it is known for how long it lives.
pub fn parse_subnet_watch_response(ev: &StoreEvent, decoded: &Decoded, now: Timestamp) -> (r:
    EventStep)
    ensures
        reads_event(*ev, *decoded, now, r),
{
    let kv: &KeyValue = match &ev.kv {
        Some(kv) => kv,
        None => return EventStep::Done(
            Err(XlineRegistryError::Other("no key-value in watch event".to_owned())),
        ),
    };
    if let Err(text) = text_from_utf8(&kv.key) {
        return EventStep::Done(Err(XlineRegistryError::Utf8(text)));
    }
    let subnets: (Ipv4Network, Option<Ipv6Network>) = match decoded.subnets {
        Some(subnets) => subnets,
        None => {
            let mut text: String = match ev.event_type {
                StoreEventType::Put => "Put".to_owned(),
                StoreEventType::Delete => "Delete".to_owned(),
            };
            text.append(": not a subnet, skipping");
            return EventStep::Done(Err(XlineRegistryError::Other(text)));
        },
    };
    match ev.event_type {
        StoreEventType::Delete => EventStep::Done(
            Ok(
                LeaseEvent {
                    event_type: EventType::Removed,
                    lease: Some(
                        read_lease(subnets, LeaseAttrs::default(), now, kv.mod_revision),
                    ),
                },
            ),
        ),
        StoreEventType::Put => match &decoded.attrs {
            Err(text) => EventStep::Done(Err(XlineRegistryError::Json(text.clone()))),
            Ok(attrs) => EventStep::ReadTtl {
                lease_id: kv.lease,
                subnets,
                attrs: attrs.clone(),
                mod_revision: kv.mod_revision,
            },
        },
    }
}

/// The change that adds a lease, once the store has answered for how long it lives.
pub fn parse_subnet_watch_response_read(
    subnets: (Ipv4Network, Option<Ipv6Network>),
    attrs: LeaseAttrs,
    mod_revision: i64,
    ttl: Result<i64, StoreError>,
    now: Timestamp,
) -> (r: Result<LeaseEvent, XlineRegistryError>)
    requires
        ttl matches Ok(ttl) ==> seconds_later_in_range(now, ttl),
    ensures
        r == (match ttl {
            Ok(ttl) => Ok::<LeaseEvent, XlineRegistryError>(
                (LeaseEvent {
                    event_type: EventType::Added,
                    lease: Some(stored_lease(subnets, attrs, seconds_later(now, ttl), mod_revision)),
                }),
            ),
            Err(e) => Err(XlineRegistryError::Xline(e)),
        }),
{
    match ttl {
        Ok(ttl) => Ok(
            LeaseEvent {
                event_type: EventType::Added,
                lease: Some(read_lease(subnets, attrs, expiry(now, ttl), mod_revision)),
            },
        ),
        Err(e) => Err(XlineRegistryError::Xline(e)),
    }
}

/// The pause after a pause of `ms` milliseconds: twice as long, up to the longest.
pub open spec fn doubled(ms: u64) -> u64 {
    if 2 * ms < MAX_BACKOFF_MS {
        (2 * ms) as u64
    } else {
        MAX_BACKOFF_MS
    }
}

/// The revision that reports carry.
pub open spec fn reported_index(scope: WatchScope, since: i64) -> i64 {
    match scope {
        WatchScope::All => since,
        WatchScope::One { started_at } => started_at,
    }
}

/// Whether `reported` is the lease that is reported for a change of `changed`. A watch
/// on all leases reports every lease with IPv4 enabled, and one in which nothing else
/// is set where the change names none.
pub open spec fn reports_lease(
    scope: WatchScope,
    changed: Option<Lease>,
    reported: Option<Lease>,
) -> bool {
    match (scope, changed) {
        (WatchScope::One { .. }, _) => reported == changed,
        (WatchScope::All, Some(lease)) => reported == Some((Lease { enable_ipv4: true, ..lease })),
        (WatchScope::All, None) => reported matches Some(lease) && lease.enable_ipv4
            && is_default_lease((Lease { enable_ipv4: false, ..lease })),
    }
}

/// Whether `wr` reports the change and nothing else.
pub open spec fn reports_event(
    scope: WatchScope,
    since: i64,
    event: LeaseEvent,
    wr: LeaseWatchResult,
) -> bool {
    &&& wr.snapshot@.len() == 0
    &&& wr.cursor == Cursor::Cursor((WatchCursor { index: reported_index(scope, since) }))
    &&& wr.events@.len() == 1
    &&& wr.events@[0].event_type == event.event_type
    &&& reports_lease(scope, event.lease, wr.events@[0].lease)
}

/// What the watch waits for once one of `left` changes is dealt with and there are
/// `reports` reports.
pub open spec fn after_change(left: usize, reports: nat) -> WatchPhase {
    if left > 1 {
        WatchPhase::Decoding { left: (left - 1) as usize }
    } else if reports > 0 {
        WatchPhase::Sending
    } else {
        WatchPhase::Streaming
    }
}

/// A watch that pauses before it connects again.
pub open spec fn disconnected(s: WatchState) -> WatchState {
    WatchState {
        backoff_ms: doubled(s.backoff_ms),
        phase: WatchPhase::Pausing { ms: s.backoff_ms },
        ..s
    }
}

/// A watch that has dealt with a change that made no report.
pub open spec fn skipped(s: WatchState, left: usize) -> WatchState {
    WatchState { phase: after_change(left, s.results.len()), ..s }
}

/// A watch that has dealt with a change that made the report `wr`.
pub open spec fn reported(s: WatchState, left: usize, wr: LeaseWatchResult) -> WatchState {
    WatchState {
        results: s.results.push(wr),
        phase: after_change(left, s.results.len() + 1),
        ..s
    }
}

/// Whether `after` follows `before` on `input`. What the watch did not wait for
/// changes nothing.
pub open spec fn follows(
    scope: WatchScope,
    before: WatchState,
    input: WatchInput,
    after: WatchState,
) -> bool {
    match (before.phase, input) {
        (WatchPhase::Connecting, WatchInput::Opened) => after == (WatchState {
            backoff_ms: MIN_BACKOFF_MS,
            phase: WatchPhase::Streaming,
            ..before
        }),
        (WatchPhase::Connecting, WatchInput::OpenFailed) => after == disconnected(before),
        (WatchPhase::Pausing { .. }, WatchInput::Woken) => after == (WatchState {
            phase: WatchPhase::Connecting,
            ..before
        }),
        (WatchPhase::Streaming, WatchInput::StreamFailed) => after == disconnected(before),
        (WatchPhase::Streaming, WatchInput::StreamEnded) => after == disconnected(before),
        (
            WatchPhase::Streaming,
            WatchInput::Response { canceled, revision, events },
        ) => if canceled {
            after == disconnected(before)
        } else {
            after == (WatchState {
                since: match revision {
                    Some(revision) => revision,
                    None => before.since,
                },
                phase: if events == 0 {
                    WatchPhase::Streaming
                } else {
                    WatchPhase::Decoding { left: events }
                },
                results: Seq::empty(),
                ..before
            })
        },
        (WatchPhase::Decoding { left }, WatchInput::Decoded(Ok(event))) => after == reported(
            before,
            left,
            after.results.last(),
        ) && reports_event(scope, before.since, event, after.results.last()),
        (WatchPhase::Decoding { left }, WatchInput::Decoded(Err(e))) => if index_too_small(e) {
            after == (WatchState { phase: WatchPhase::Resetting { left }, ..before })
        } else {
            match scope {
                WatchScope::All => after == reported(before, left, after.results.last())
                    && is_default_result(after.results.last()),
                WatchScope::One { .. } => after == skipped(before, left),
            }
        },
        (WatchPhase::Resetting { left }, WatchInput::Reset(Ok(wr))) => after == reported(
            before,
            left,
            wr,
        ),
        (WatchPhase::Resetting { left }, WatchInput::Reset(Err(_))) => after == skipped(
            before,
            left,
        ),
        (WatchPhase::Sending, WatchInput::Sent(sent)) => after == (WatchState {
            phase: if sent {
                WatchPhase::Streaming
            } else {
                WatchPhase::Stopped
            },
            ..before
        }),
        _ => after == before,
    }
}

impl SubnetWatch {
    /// What the watch is, but for what it watches.
    pub open spec fn state(self) -> WatchState {
        WatchState {
            since: self.since,
            backoff_ms: self.backoff_ms,
            phase: self.phase,
            results: self.results@,
        }
    }

    /// The next pause is neither too short nor too long, and there are changes left
    /// while changes are read.
    pub open spec fn wf(self) -> bool {
        &&& MIN_BACKOFF_MS <= self.backoff_ms <= MAX_BACKOFF_MS
        &&& self.phase matches WatchPhase::Pausing { ms } ==> MIN_BACKOFF_MS <= ms
            <= MAX_BACKOFF_MS
        &&& self.phase matches WatchPhase::Decoding { left } ==> left > 0
        &&& self.phase matches WatchPhase::Resetting { left } ==> left > 0
    }

    /// Pauses before the watch connects again.
    fn disconnect(&mut self)
        requires
            old(self).wf(),
        ensures
            final(self).wf(),
            final(self).scope == old(self).scope,
            final(self).key == old(self).key,
            final(self).state() == disconnected(old(self).state()),
    {
        self.phase = WatchPhase::Pausing { ms: self.backoff_ms };
        self.backoff_ms = if self.backoff_ms * 2 < MAX_BACKOFF_MS {
            self.backoff_ms * 2
        } else {
            MAX_BACKOFF_MS
        };
    }

    /// Goes on to the next of `left` changes, or hands the reports over.
    fn advance(&mut self, left: usize)
        requires
            old(self).wf(),
        ensures
            final(self).wf(),
            final(self).scope == old(self).scope,
            final(self).key == old(self).key,
            final(self).state() == skipped(old(self).state(), left),
    {
        self.phase = if left > 1 {
            WatchPhase::Decoding { left: left - 1 }
        } else if self.results.len() > 0 {
            WatchPhase::Sending
        } else {
            WatchPhase::Streaming
        };
    }

    /// Adds a report and goes on.
    fn report(&mut self, left: usize, wr: LeaseWatchResult)
        requires
            old(self).wf(),
        ensures
            final(self).wf(),
            final(self).scope == old(self).scope,
            final(self).key == old(self).key,
            final(self).state() == reported(old(self).state(), left, wr),
    {
        self.results.push(wr);
        self.advance(left);
    }

    /// The report of a change.
    fn event_result(&self, event: LeaseEvent) -> (wr: LeaseWatchResult)
        ensures
            reports_event(self.scope, self.since, event, wr),
    {
        let (lease, index): (Option<Lease>, i64) = match self.scope {
            WatchScope::All => {
                let mut lease: Lease = match event.lease {
                    Some(lease) => lease,
                    None => Lease::default(),
                };
                lease.enable_ipv4 = true;
                (Some(lease), self.since)
            },
            WatchScope::One { started_at } => (event.lease, started_at),
        };
        let mut events: Vec<LeaseEvent> = Vec::new();
        events.push(LeaseEvent { event_type: event.event_type, lease });
        LeaseWatchResult {
            events,
            snapshot: Vec::new(),
            cursor: Cursor::Cursor(WatchCursor { index }),
        }
    }

    /// Takes over what the watch has waited for. The field `phase` then says what it
    /// waits for next.
    pub fn step(&mut self, input: WatchInput)
        requires
            old(self).wf(),
        ensures
            final(self).wf(),
            final(self).scope == old(self).scope,
            final(self).key == old(self).key,
            follows(old(self).scope, old(self).state(), input, final(self).state()),
    {
        match (self.phase, input) {
            (WatchPhase::Connecting, WatchInput::Opened) => {
                self.backoff_ms = MIN_BACKOFF_MS;
                self.phase = WatchPhase::Streaming;
            },
            (WatchPhase::Connecting, WatchInput::OpenFailed) => self.disconnect(),
            (WatchPhase::Pausing { .. }, WatchInput::Woken) => {
                self.phase = WatchPhase::Connecting;
            },
            (WatchPhase::Streaming, WatchInput::StreamFailed) => self.disconnect(),
            (WatchPhase::Streaming, WatchInput::StreamEnded) => self.disconnect(),
            (WatchPhase::Streaming, WatchInput::Response { canceled, revision, events }) => {
                if canceled {
                    self.disconnect();
                } else {
                    if let Some(revision) = revision {
                        self.since = revision;
                    }
                    self.results = Vec::new();
                    self.phase = if events == 0 {
                        WatchPhase::Streaming
                    } else {
                        WatchPhase::Decoding { left: events }
                    };
                }
            },
            (WatchPhase::Decoding { left }, WatchInput::Decoded(Ok(event))) => {
                let wr: LeaseWatchResult = self.event_result(event);
                self.report(left, wr);
            },
            (WatchPhase::Decoding { left }, WatchInput::Decoded(Err(e))) => {
                if is_index_too_small(&e) {
                    self.phase = WatchPhase::Resetting { left };
                } else {
                    match self.scope {
                        WatchScope::All => self.report(left, LeaseWatchResult::default()),
                        WatchScope::One { .. } => self.advance(left),
                    }
                }
            },
            (WatchPhase::Resetting { left }, WatchInput::Reset(Ok(wr))) => self.report(left, wr),
            (WatchPhase::Resetting { left }, WatchInput::Reset(Err(_))) => self.advance(left),
            (WatchPhase::Sending, WatchInput::Sent(sent)) => {
                self.phase = if sent {
                    WatchPhase::Streaming
                } else {
                    WatchPhase::Stopped
                };
            },
            _ => {},
        }
    }

    /// Takes the reports out, to hand them over.
    pub fn take_results(&mut self) -> (r: Vec<LeaseWatchResult>)
        requires
            old(self).wf(),
        ensures
            final(self).wf(),
            r@ == old(self).results@,
            final(self).scope == old(self).scope,
            final(self).key == old(self).key,
            final(self).state() == (WatchState { results: Seq::empty(), ..old(self).state() }),
    {
        let mut taken: Vec<LeaseWatchResult> = Vec::new();
        std::mem::swap(&mut taken, &mut self.results);
        taken
    }

    /// The error with which a watch ends, where it has ended.
    pub fn failure(&self) -> (r: Option<XlineRegistryError>)
        ensures
            r == (if self.phase == WatchPhase::Stopped {
                Some(XlineRegistryError::NoWatchChannel)
            } else {
                None
            }),
    {
        match self.phase {
            WatchPhase::Stopped => Some(XlineRegistryError::NoWatchChannel),
            _ => None,
        }
    }
}

/// A watch that has not connected yet.
pub open spec fn starts(w: SubnetWatch, since: i64) -> bool {
    w.wf() && w.state() == (WatchState {
        since,
        backoff_ms: MIN_BACKOFF_MS,
        phase: WatchPhase::Connecting,
        results: Seq::empty(),
    })
}

impl XlineSubnetRegistry {
    /// A watch on all leases from the revision `since` on.
    pub fn watch_subnets(&self, since: i64) -> (r: SubnetWatch)
        ensures
            starts(r, since),
            r.scope == WatchScope::All,
            r.key@ == subnets_prefix(self.xline_cfg.prefix@),
    {
        SubnetWatch {
            scope: WatchScope::All,
            key: self.subnets_prefix(),
            since,
            backoff_ms: MIN_BACKOFF_MS,
            phase: WatchPhase::Connecting,
            results: Vec::new(),
        }
    }

    /// A watch on the lease of one subnet from the revision `since` on.
    pub fn watch_subnet(&self, since: i64, subnet_key: &str) -> (r: SubnetWatch)
        ensures
            starts(r, since),
            r.scope == (WatchScope::One { started_at: since }),
            r.key@ == lease_key(self.xline_cfg.prefix@, subnet_key@),
    {
        SubnetWatch {
            scope: WatchScope::One { started_at: since },
            key: self.lease_key(subnet_key),
            since,
            backoff_ms: MIN_BACKOFF_MS,
            phase: WatchPhase::Connecting,
            results: Vec::new(),
        }
    }
}

} // verus!
