//! Leases of subnets, and what a watch reports about them.
use vstd::prelude::*;

use crate::cursor::{default_cursor, Cursor};
use crate::ip::{Ipv4Network, Ipv6Network};
use crate::time::Timestamp;

verus! {

/// What a node publishes with its lease.
#[derive(Debug, PartialEq, Eq)]
pub struct LeaseAttrs {
    /// The address at which the other nodes reach this one.
    pub public_ip: u32,
    /// The kind of network backend, such as `vxlan`.
    pub backend_type: String,
    /// What the backend publishes, as JSON text.
    pub backend_data: Option<String>,
    /// Whatever else is published, as the text of a JSON object.
    pub extra: Option<String>,
}

/// A subnet that a node holds.
#[derive(Debug, PartialEq, Eq)]
pub struct Lease {
    pub enable_ipv4: bool,
    pub enable_ipv6: bool,
    pub subnet: Ipv4Network,
    pub ipv6_subnet: Ipv6Network,
    pub attrs: LeaseAttrs,
    pub expiration: Timestamp,
    /// The revision of the store at which the lease was last written.
    pub asof: Option<i64>,
}

/// What happened to a lease.
#[derive(Clone, Copy, Debug, PartialEq, Eq, Structural)]
pub enum EventType {
    Added,
    Removed,
}

/// A change of one lease.
#[derive(Debug, PartialEq, Eq)]
pub struct LeaseEvent {
    pub event_type: EventType,
    pub lease: Option<Lease>,
}

/// A report of a watch: the changes, or, where the changes were lost, all leases.
/// The cursor says up to where the report reaches.
#[derive(Debug, PartialEq, Eq)]
pub struct LeaseWatchResult {
    pub events: Vec<LeaseEvent>,
    pub snapshot: Vec<Lease>,
    pub cursor: Cursor,
}

/// Attributes in which nothing is set. That the address is then the unspecified one
/// and the kind of backend the empty text is this library's choice.
pub open spec fn is_default_attrs(attrs: LeaseAttrs) -> bool {
    &&& attrs.public_ip == 0
    &&& attrs.backend_type@.len() == 0
    &&& attrs.backend_data is None
    &&& attrs.extra is None
}

/// A lease in which nothing is set. That its networks are then `0.0.0.0/0` and `::/0`,
/// with neither enabled, is this library's choice.
pub open spec fn is_default_lease(lease: Lease) -> bool {
    &&& !lease.enable_ipv4 && !lease.enable_ipv6
    &&& lease.subnet == (Ipv4Network { addr: 0, prefix: 0 })
    &&& lease.ipv6_subnet == (Ipv6Network { addr: 0, prefix: 0 })
    &&& is_default_attrs(lease.attrs)
    &&& lease.expiration == (Timestamp { secs: 0, nanos: 0 })
    &&& lease.asof is None
}

/// A report of nothing: no changes, no leases and the default cursor.
pub open spec fn is_default_result(r: LeaseWatchResult) -> bool {
    r.events@.len() == 0 && r.snapshot@.len() == 0 && default_cursor(r.cursor)
}

impl Clone for LeaseAttrs {
    fn clone(&self) -> (r: LeaseAttrs)
        ensures
            r == *self,
    {
        LeaseAttrs {
            public_ip: self.public_ip,
            backend_type: self.backend_type.clone(),
            backend_data: match &self.backend_data {
                Some(data) => Some(data.clone()),
                None => None,
            },
            extra: match &self.extra {
                Some(extra) => Some(extra.clone()),
                None => None,
            },
        }
    }
}

impl Default for LeaseAttrs {
    fn default() -> (r: LeaseAttrs)
        ensures
            is_default_attrs(r),
    {
        LeaseAttrs {
            public_ip: 0,
            backend_type: String::new(),
            backend_data: None,
            extra: None,
        }
    }
}

impl Clone for Lease {
    fn clone(&self) -> (r: Lease)
        ensures
            r == *self,
    {
        Lease {
            enable_ipv4: self.enable_ipv4,
            enable_ipv6: self.enable_ipv6,
            subnet: self.subnet,
            ipv6_subnet: self.ipv6_subnet,
            attrs: self.attrs.clone(),
            expiration: self.expiration,
            asof: self.asof,
        }
    }
}

impl Default for Lease {
    fn default() -> (r: Lease)
        ensures
            is_default_lease(r),
    {
        Lease {
            enable_ipv4: false,
            enable_ipv6: false,
            subnet: Ipv4Network { addr: 0, prefix: 0 },
            ipv6_subnet: Ipv6Network { addr: 0, prefix: 0 },
            attrs: LeaseAttrs::default(),
            expiration: Timestamp::default(),
            asof: None,
        }
    }
}

impl Default for LeaseWatchResult {
    fn default() -> (r: LeaseWatchResult)
        ensures
            is_default_result(r),
    {
        LeaseWatchResult { events: Vec::new(), snapshot: Vec::new(), cursor: Cursor::default() }
    }
}

} // verus!
