//! The registry of leases: under which keys they are kept, which requests go to the
//! store and how its answers are read.
use vstd::prelude::*;
use vstd::utf8::*;

use crate::cursor::{Cursor, WatchCursor};
use crate::error::{
    is_not_found, says_not_found, IoErrorKind, StoreError, XlineRegistryError,
};
use crate::ip::{Ipv4Network, Ipv6Network};
use crate::lease::{Lease, LeaseAttrs, LeaseWatchResult};
use crate::text::{join2, join3, text_from_utf8, utf8_error_text};
use crate::time::{expiry, seconds_later, seconds_later_in_range, Timestamp};

verus! {

/// How the store is reached, and under which prefix the registry keeps its keys.
#[derive(Clone, Debug, PartialEq, Eq)]
pub struct XlineConfig {
    pub endpoints: Vec<String>,
    pub prefix: String,
    pub username: Option<String>,
    pub password: Option<String>,
}

/// The registry of one network.
#[derive(Debug, PartialEq, Eq)]
pub struct XlineSubnetRegistry {
    pub xline_cfg: XlineConfig,
    /// The regular expression for the keys of a network.
    pub network_pattern: String,
}

/// An entry of the store.
#[derive(Debug, PartialEq, Eq)]
pub struct KeyValue {
    pub key: Vec<u8>,
    pub value: Vec<u8>,
    /// The store's lease that the entry lives with.
    pub lease: i64,
    /// The revision at which the entry was last written.
    pub mod_revision: i64,
}

/// What the store answers to a read.
#[derive(Debug, PartialEq, Eq)]
pub struct Listing {
    pub kvs: Vec<KeyValue>,
    pub revision: Option<i64>,
}

/// What the key and the value of an entry say: the subnets that the key names,
/// where it names any, and the attributes in the value or why it holds none.
#[derive(Debug, PartialEq, Eq)]
pub struct Decoded {
    pub subnets: Option<(Ipv4Network, Option<Ipv6Network>)>,
    pub attrs: Result<LeaseAttrs, String>,
}

/// An entry with what is known of it: for how many seconds it still lives, what it
/// says and when it was read.
#[derive(Debug, PartialEq, Eq)]
pub struct ListedSubnet {
    pub kv: KeyValue,
    pub ttl: Result<i64, StoreError>,
    pub decoded: Decoded,
    pub now: Timestamp,
}

/// How the reading of all leases goes on.
#[derive(Debug, PartialEq, Eq)]
pub enum ListStep {
    /// Ask for how long each entry lives.
    ReadTtls { kvs: Vec<KeyValue>, revision: i64 },
    Done(Result<(Vec<Lease>, i64), XlineRegistryError>),
}

/// How the reading of one lease goes on.
#[derive(Debug, PartialEq, Eq)]
pub enum GetStep {
    /// Ask for how long the entry lives.
    ReadTtl { kv: KeyValue, revision: i64 },
    Done(Result<(Option<Lease>, i64), XlineRegistryError>),
}

/// A lease of the store, which ends after so many seconds.
#[derive(Clone, Copy, Debug, PartialEq, Eq, Structural)]
pub struct LeaseGrant {
    pub id: i64,
    pub ttl: i64,
}

/// An entry to be written.
#[derive(Debug, PartialEq, Eq)]
pub struct SubnetPut {
    pub key: String,
    pub value: Vec<u8>,
    pub lease_id: i64,
    /// Write only where the key holds nothing.
    pub only_if_absent: bool,
}

/// How the writing of a lease goes on.
#[derive(Debug, PartialEq, Eq)]
pub enum WriteStep {
    /// Obtain a lease of the store for so many seconds.
    Grant { ttl_secs: i64, key: String, value: Vec<u8>, only_if_absent: bool },
    /// Write the entry, with the lease that was granted for `granted_ttl` seconds.
    Put { put: SubnetPut, granted_ttl: i64 },
    /// Give the store's lease back, whatever becomes of it, and fail.
    Revoke { lease_id: i64, error: XlineRegistryError },
    Done(Result<Timestamp, XlineRegistryError>),
}

/// Whether `regex::Regex::new` takes a pattern.
pub uninterp spec fn regex_accepts(pattern: Seq<char>) -> bool;

/// `regex::Regex::new` and `regex::Regex::as_str`: the text of the compiled
/// expression, which is the pattern, and nothing where the pattern is refused. Which
/// patterns are refused is named and not described.
#[verifier::external_body]
fn regex_compile(pattern: &str) -> (r: Option<String>)
    ensures
        r is Some <==> regex_accepts(pattern@),
        r matches Some(text) ==> text@ == pattern@,
{
    regex::Regex::new(pattern).ok().map(|re| re.as_str().to_string())
}

/// The regular expression for the keys of a network below `prefix`.
pub open spec fn network_pattern(prefix: Seq<char>) -> Seq<char> {
    prefix + "/([^/]*)(/|/config)?$"@
}

/// The key of the network's configuration.
pub open spec fn config_key(prefix: Seq<char>) -> Seq<char> {
    prefix + "/config"@
}

/// What the keys of all leases start with.
pub open spec fn subnets_prefix(prefix: Seq<char>) -> Seq<char> {
    prefix + "/subnets"@
}

/// The key of a lease.
pub open spec fn lease_key(prefix: Seq<char>, subnet_key: Seq<char>) -> Seq<char> {
    prefix + "/subnets/"@ + subnet_key
}

/// The IPv6 subnet of a lease whose key names none.
pub open spec fn no_ipv6_subnet() -> Ipv6Network {
    Ipv6Network { addr: 0, prefix: 128 }
}

/// The lease that a stored entry says.
pub open spec fn stored_lease(
    subnets: (Ipv4Network, Option<Ipv6Network>),
    attrs: LeaseAttrs,
    expiration: Timestamp,
    mod_revision: i64,
) -> Lease {
    let ipv6_subnet = match subnets.1 {
        Some(sn6) => sn6,
        None => no_ipv6_subnet(),
    };
    Lease {
        enable_ipv4: true,
        enable_ipv6: ipv6_subnet.addr != 0,
        subnet: subnets.0,
        ipv6_subnet,
        attrs,
        expiration,
        asof: Some(mod_revision),
    }
}

/// Whether the entry says a lease.
pub open spec fn says_lease(kv: KeyValue, decoded: Decoded) -> bool {
    valid_utf8(kv.key@) && decoded.subnets is Some && decoded.attrs is Ok
}

/// Whether `error` is why an entry that says no lease cannot be read.
pub open spec fn unreadable_because(
    kv: KeyValue,
    decoded: Decoded,
    error: XlineRegistryError,
) -> bool {
    if !valid_utf8(kv.key@) {
        error matches XlineRegistryError::Utf8(text) && text@ == utf8_error_text(kv.key@)
    } else if decoded.subnets is None {
        error matches XlineRegistryError::Other(text) && text@ == "invalid subnet key: "@
            + decode_utf8(kv.key@)
    } else {
        decoded.attrs matches Err(text) && error == XlineRegistryError::Json(text)
    }
}

/// The lease that a listed entry says, if it says one and it is known for how long
/// it lives.
pub open spec fn listed_lease(entry: ListedSubnet) -> Option<Lease> {
    match entry.ttl {
        Ok(ttl) => if says_lease(entry.kv, entry.decoded) {
            Some(
                stored_lease(
                    entry.decoded.subnets->0,
                    entry.decoded.attrs->Ok_0,
                    seconds_later(entry.now, ttl),
                    entry.kv.mod_revision,
                ),
            )
        } else {
            None
        },
        Err(_) => None,
    }
}

/// The leases of the entries that say one, in order.
pub open spec fn listed_leases(entries: Seq<ListedSubnet>) -> Seq<Lease>
    decreases entries.len(),
{
    if entries.len() == 0 {
        Seq::empty()
    } else {
        match listed_lease(entries.last()) {
            Some(lease) => listed_leases(entries.drop_last()).push(lease),
            None => listed_leases(entries.drop_last()),
        }
    }
}

/// How the reading of one lease goes on after the store's answer.
pub open spec fn get_answers(reply: Result<Listing, StoreError>) -> GetStep {
    match reply {
        Err(e) => GetStep::Done(Err(XlineRegistryError::Xline(e))),
        Ok(listing) => if listing.kvs@.len() == 0 {
            GetStep::Done(Ok((None, 0)))
        } else {
            GetStep::ReadTtl {
                kv: listing.kvs@[0],
                revision: match listing.revision {
                    Some(revision) => revision,
                    None => 0,
                },
            }
        },
    }
}

/// How the writing of a new lease ends, by whether the entry was written.
pub open spec fn create_ends(
    lease_id: i64,
    granted_ttl: i64,
    written: Result<bool, StoreError>,
    now: Timestamp,
) -> WriteStep {
    match written {
        Ok(true) => WriteStep::Done(Ok(seconds_later(now, granted_ttl))),
        Ok(false) => WriteStep::Revoke {
            lease_id,
            error: XlineRegistryError::SubnetAlreadyExists,
        },
        Err(e) => WriteStep::Revoke { lease_id, error: XlineRegistryError::Xline(e) },
    }
}

/// Whether the time at which a listed lease expires is within the calendar.
pub open spec fn listed_in_range(entry: ListedSubnet) -> bool {
    says_lease(entry.kv, entry.decoded) && entry.ttl is Ok ==> seconds_later_in_range(
        entry.now,
        entry.ttl->Ok_0,
    )
}

/// The lease that a stored entry says.
pub(crate) fn read_lease(
    subnets: (Ipv4Network, Option<Ipv6Network>),
    attrs: LeaseAttrs,
    expiration: Timestamp,
    mod_revision: i64,
) -> (r: Lease)
    ensures
        r == stored_lease(subnets, attrs, expiration, mod_revision),
{
    let ipv6_subnet: Ipv6Network = match subnets.1 {
        Some(sn6) => sn6,
        None => Ipv6Network { addr: 0, prefix: 128 },
    };
    Lease {
        enable_ipv4: true,
        enable_ipv6: ipv6_subnet.addr != 0,
        subnet: subnets.0,
        ipv6_subnet,
        attrs,
        expiration,
        asof: Some(mod_revision),
    }
}

/// Reads a lease from an entry of the store that lives for `ttl` seconds from `now`.
pub fn kv_to_ip_lease(kv: &KeyValue, ttl: i64, decoded: &Decoded, now: Timestamp) -> (r: Result<
    Lease,
    XlineRegistryError,
>)
    requires
        says_lease(*kv, *decoded) ==> seconds_later_in_range(now, ttl),
    ensures
        if says_lease(*kv, *decoded) {
            r == Ok::<Lease, XlineRegistryError>(
                stored_lease(
                    decoded.subnets->0,
                    decoded.attrs->Ok_0,
                    seconds_later(now, ttl),
                    kv.mod_revision,
                ),
            )
        } else {
            r matches Err(e) && unreadable_because(*kv, *decoded, e)
        },
{
    let key: String = match text_from_utf8(&kv.key) {
        Ok(key) => key,
        Err(text) => return Err(XlineRegistryError::Utf8(text)),
    };
    let subnets: (Ipv4Network, Option<Ipv6Network>) = match decoded.subnets {
        Some(subnets) => subnets,
        None => return Err(
            XlineRegistryError::Other(join2("invalid subnet key: ", key.as_str())),
        ),
    };
    let attrs: LeaseAttrs = match &decoded.attrs {
        Ok(attrs) => attrs.clone(),
        Err(text) => return Err(XlineRegistryError::Json(text.clone())),
    };
    Ok(read_lease(subnets, attrs, expiry(now, ttl), kv.mod_revision))
}

impl XlineConfig {
    /// The user name and the password, where both are set.
    pub fn credentials(&self) -> (r: Option<(String, String)>)
        ensures
            r == (match (self.username, self.password) {
                (Some(user), Some(pass)) => Some((user, pass)),
                _ => None,
            }),
    {
        match (&self.username, &self.password) {
            (Some(user), Some(pass)) => Some((user.clone(), pass.clone())),
            _ => None,
        }
    }
}

impl XlineSubnetRegistry {
    /// The regular expression is the one for the prefix.
    pub open spec fn wf(self) -> bool {
        self.network_pattern@ == network_pattern(self.xline_cfg.prefix@)
    }

    /// A registry, unless the prefix makes no regular expression.
    pub fn new(config: XlineConfig) -> (r: Option<XlineSubnetRegistry>)
        ensures
            r is Some <==> regex_accepts(network_pattern(config.prefix@)),
            r matches Some(registry) ==> registry.wf() && registry.xline_cfg == config,
    {
        let pattern: String = join2(config.prefix.as_str(), "/([^/]*)(/|/config)?$");
        match regex_compile(pattern.as_str()) {
            Some(network_pattern) => Some(
                XlineSubnetRegistry { xline_cfg: config, network_pattern },
            ),
            None => None,
        }
    }

    /// The key of the network's configuration.
    pub fn config_key(&self) -> (r: String)
        ensures
            r@ == config_key(self.xline_cfg.prefix@),
    {
        join2(self.xline_cfg.prefix.as_str(), "/config")
    }

    /// What the keys of all leases start with.
    pub fn subnets_prefix(&self) -> (r: String)
        ensures
            r@ == subnets_prefix(self.xline_cfg.prefix@),
    {
        join2(self.xline_cfg.prefix.as_str(), "/subnets")
    }

    /// The key of the lease of a subnet that is written `subnet_key` in keys.
    pub fn lease_key(&self, subnet_key: &str) -> (r: String)
        ensures
            r@ == lease_key(self.xline_cfg.prefix@, subnet_key@),
    {
        join3(self.xline_cfg.prefix.as_str(), "/subnets/", subnet_key)
    }

    /// The configuration of the network, as the store has it.
    pub fn get_network_config(reply: Result<Listing, StoreError>) -> (r: Result<
        String,
        XlineRegistryError,
    >)
        ensures
            match reply {
                Err(e) => r == Err::<String, XlineRegistryError>(XlineRegistryError::Xline(e)),
                Ok(listing) => if listing.kvs@.len() == 0 {
                    r == Err::<String, XlineRegistryError>(XlineRegistryError::ConfigNotFound)
                } else if valid_utf8(listing.kvs@[0].value@) {
                    r matches Ok(text) && text@ == decode_utf8(listing.kvs@[0].value@)
                } else {
                    r matches Err(XlineRegistryError::Io(kind, text)) && kind
                        == IoErrorKind::InvalidData && text@ == utf8_error_text(
                        listing.kvs@[0].value@,
                    )
                },
            },
    {
        match reply {
            Err(e) => Err(XlineRegistryError::Xline(e)),
            Ok(listing) => if listing.kvs.len() == 0 {
                Err(XlineRegistryError::ConfigNotFound)
            } else {
                match text_from_utf8(&listing.kvs[0].value) {
                    Ok(text) => Ok(text),
                    Err(text) => Err(XlineRegistryError::Io(IoErrorKind::InvalidData, text)),
                }
            },
        }
    }

    /// How the reading of all leases goes on once the store has answered with the
    /// entries. Where it says that there are none, there are no leases.
    pub fn get_subnets(reply: Result<Listing, StoreError>) -> (r: ListStep)
        ensures
            match reply {
                Err(e) => if says_not_found(e) {
                    r matches ListStep::Done(Ok(read)) && read.0@.len() == 0 && read.1 == 0
                } else {
                    r == ListStep::Done(Err(XlineRegistryError::Xline(e)))
                },
                Ok(listing) => r == (ListStep::ReadTtls {
                    kvs: listing.kvs,
                    revision: match listing.revision {
                        Some(revision) => revision,
                        None => 0,
                    },
                }),
            },
    {
        match reply {
            Err(e) => if is_not_found(&e) {
                ListStep::Done(Ok((Vec::new(), 0)))
            } else {
                ListStep::Done(Err(XlineRegistryError::Xline(e)))
            },
            Ok(listing) => ListStep::ReadTtls {
                kvs: listing.kvs,
                revision: listing.revision.unwrap_or(0),
            },
        }
    }

    /// All leases, once it is known for how long the entries live. Entries that say
    /// no lease are left out, and so are those of which that is not known.
    pub fn get_subnets_read(entries: &Vec<ListedSubnet>, revision: i64) -> (r: (Vec<Lease>, i64))
        requires
            forall|i: int| 0 <= i < entries@.len() ==> listed_in_range(#[trigger] entries@[i]),
        ensures
            r.0@ == listed_leases(entries@),
            r.1 == revision,
    {
        let mut leases: Vec<Lease> = Vec::new();
        let mut i: usize = 0;
        assert(entries@.take(0) =~= Seq::<ListedSubnet>::empty());
        while i < entries.len()
            invariant
                i <= entries@.len(),
                leases@ == listed_leases(entries@.take(i as int)),
                forall|i: int| 0 <= i < entries@.len() ==> listed_in_range(#[trigger] entries@[i]),
            decreases entries@.len() - i,
        {
            let entry: &ListedSubnet = &entries[i];
            assert(listed_in_range(entries@[i as int]));
            assert(entries@.take(i + 1).drop_last() =~= entries@.take(i as int));
            if let Ok(ttl) = &entry.ttl {
                if let Ok(lease) = kv_to_ip_lease(&entry.kv, *ttl, &entry.decoded, entry.now) {
                    leases.push(lease);
                }
            }
            i = i + 1;
        }
        assert(entries@.take(i as int) =~= entries@);
        (leases, revision)
    }

    /// How the reading of one lease goes on once the store has answered with the
    /// entry.
    pub fn get_subnet(reply: Result<Listing, StoreError>) -> (r: GetStep)
        ensures
            r == get_answers(reply),
    {
        match reply {
            Err(e) => GetStep::Done(Err(XlineRegistryError::Xline(e))),
            Ok(listing) => {
                let revision: i64 = listing.revision.unwrap_or(0);
                let mut kvs: Vec<KeyValue> = listing.kvs;
                if kvs.len() == 0 {
                    GetStep::Done(Ok((None, 0)))
                } else {
                    GetStep::ReadTtl { kv: kvs.remove(0), revision }
                }
            },
        }
    }

    /// The lease, once the store has answered for how long the entry lives.
    pub fn get_subnet_read(
        kv: &KeyValue,
        revision: i64,
        ttl: Result<i64, StoreError>,
        decoded: &Decoded,
        now: Timestamp,
    ) -> (r: Result<(Option<Lease>, i64), XlineRegistryError>)
        requires
            says_lease(*kv, *decoded) && ttl is Ok ==> seconds_later_in_range(now, ttl->Ok_0),
        ensures
            match ttl {
                Err(e) => r == Err::<(Option<Lease>, i64), XlineRegistryError>(
                    XlineRegistryError::Xline(e),
                ),
                Ok(ttl) => if says_lease(*kv, *decoded) {
                    r == Ok::<(Option<Lease>, i64), XlineRegistryError>(
                        (
                            Some(
                                stored_lease(
                                    decoded.subnets->0,
                                    decoded.attrs->Ok_0,
                                    seconds_later(now, ttl),
                                    kv.mod_revision,
                                ),
                            ),
                            revision,
                        ),
                    )
                } else {
                    r matches Err(e) && unreadable_because(*kv, *decoded, e)
                },
            },
    {
        match ttl {
            Err(e) => Err(XlineRegistryError::Xline(e)),
            Ok(ttl) => match kv_to_ip_lease(kv, ttl, decoded, now) {
                Ok(lease) => Ok((Some(lease), revision)),
                Err(e) => Err(e),
            },
        }
    }

    /// How the writing of a new lease starts, with its attributes in JSON or the
    /// reason why they cannot be written in JSON.
    pub fn create_subnet(
        &self,
        subnet_key: &str,
        value: Result<Vec<u8>, String>,
        ttl_secs: i64,
    ) -> (r: WriteStep)
        ensures
            match value {
                Ok(value) => r matches WriteStep::Grant {
                    ttl_secs: t,
                    key,
                    value: v,
                    only_if_absent,
                } && t == ttl_secs && key@ == lease_key(self.xline_cfg.prefix@, subnet_key@) && v
                    == value && only_if_absent,
                Err(text) => r == WriteStep::Done(Err(XlineRegistryError::Json(text))),
            },
    {
        let key: String = self.lease_key(subnet_key);
        match value {
            Ok(value) => WriteStep::Grant { ttl_secs, key, value, only_if_absent: true },
            Err(text) => WriteStep::Done(Err(XlineRegistryError::Json(text))),
        }
    }

    /// How the writing of a lease that is there already starts, with its attributes
    /// in JSON or the reason why they cannot be written in JSON.
    pub fn update_subnet(
        &self,
        subnet_key: &str,
        value: Result<Vec<u8>, String>,
        ttl_secs: i64,
    ) -> (r: WriteStep)
        ensures
            match value {
                Ok(value) => r matches WriteStep::Grant {
                    ttl_secs: t,
                    key,
                    value: v,
                    only_if_absent,
                } && t == ttl_secs && key@ == lease_key(self.xline_cfg.prefix@, subnet_key@) && v
                    == value && !only_if_absent,
                Err(text) => r == WriteStep::Done(Err(XlineRegistryError::Json(text))),
            },
    {
        let key: String = self.lease_key(subnet_key);
        match value {
            Ok(value) => WriteStep::Grant { ttl_secs, key, value, only_if_absent: false },
            Err(text) => WriteStep::Done(Err(XlineRegistryError::Json(text))),
        }
    }

    /// How a writing goes on once the store has granted a lease, or has not.
    pub fn subnet_granted(
        key: String,
        value: Vec<u8>,
        only_if_absent: bool,
        granted: Result<LeaseGrant, StoreError>,
    ) -> (r: WriteStep)
        ensures
            r == (match granted {
                Ok(grant) => WriteStep::Put {
                    put: SubnetPut { key, value, lease_id: grant.id, only_if_absent },
                    granted_ttl: grant.ttl,
                },
                Err(e) => WriteStep::Done(Err(XlineRegistryError::Xline(e))),
            }),
    {
        match granted {
            Ok(grant) => WriteStep::Put {
                put: SubnetPut { key, value, lease_id: grant.id, only_if_absent },
                granted_ttl: grant.ttl,
            },
            Err(e) => WriteStep::Done(Err(XlineRegistryError::Xline(e))),
        }
    }

    /// How the writing of a new lease ends once the store has answered whether the
    /// entry was written.
    pub fn create_subnet_written(
        lease_id: i64,
        granted_ttl: i64,
        written: Result<bool, StoreError>,
        now: Timestamp,
    ) -> (r: WriteStep)
        requires
            written == Ok::<bool, StoreError>(true) ==> seconds_later_in_range(now, granted_ttl),
        ensures
            r == create_ends(lease_id, granted_ttl, written, now),
    {
        match written {
            Ok(true) => WriteStep::Done(Ok(expiry(now, granted_ttl))),
            Ok(false) => WriteStep::Revoke {
                lease_id,
                error: XlineRegistryError::SubnetAlreadyExists,
            },
            Err(e) => WriteStep::Revoke { lease_id, error: XlineRegistryError::Xline(e) },
        }
    }

    /// How the writing of a lease that is there already ends once the store has
    /// answered.
    pub fn update_subnet_written(
        lease_id: i64,
        granted_ttl: i64,
        written: Result<(), StoreError>,
        now: Timestamp,
    ) -> (r: WriteStep)
        requires
            written is Ok ==> seconds_later_in_range(now, granted_ttl),
        ensures
            r == (match written {
                Ok(()) => WriteStep::Done(Ok(seconds_later(now, granted_ttl))),
                Err(e) => WriteStep::Revoke { lease_id, error: XlineRegistryError::Xline(e) },
            }),
    {
        match written {
            Ok(()) => WriteStep::Done(Ok(expiry(now, granted_ttl))),
            Err(e) => WriteStep::Revoke { lease_id, error: XlineRegistryError::Xline(e) },
        }
    }

    /// What the deletion of a lease comes to.
    pub fn delete_subnet(deleted: Result<(), StoreError>) -> (r: Result<(), XlineRegistryError>)
        ensures
            r == (match deleted {
                Ok(()) => Ok::<(), XlineRegistryError>(()),
                Err(e) => Err(XlineRegistryError::Xline(e)),
            }),
    {
        match deleted {
            Ok(()) => Ok(()),
            Err(e) => Err(XlineRegistryError::Xline(e)),
        }
    }

    /// The report with which a watch starts over: all leases.
    pub fn leases_watch_reset(subnets: Result<(Vec<Lease>, i64), XlineRegistryError>) -> (r: Result<
        LeaseWatchResult,
        XlineRegistryError,
    >)
        ensures
            match subnets {
                Ok((leases, index)) => r matches Ok(wr) && wr.snapshot == leases
                    && wr.events@.len() == 0 && wr.cursor == Cursor::Cursor((WatchCursor { index })),
                Err(_) => r matches Err(XlineRegistryError::Other(text)) && text@
                    == "failed to retrieve subnet leases"@,
            },
    {
        match subnets {
            Ok((leases, index)) => Ok(
                LeaseWatchResult {
                    events: Vec::new(),
                    snapshot: leases,
                    cursor: Cursor::Cursor(WatchCursor { index }),
                },
            ),
            Err(_) => Err(
                XlineRegistryError::Other("failed to retrieve subnet leases".to_owned()),
            ),
        }
    }
}

} // verus!
