//! What holds of leasing as a whole: of the search for subnets, of a lease that is
//! written and read back, of the keys, of the watch and of a lease that is kept. The
//! modules below say what each operation does with whatever it is given.
use vstd::arithmetic::div_mod::*;
use vstd::arithmetic::power2::*;
use vstd::prelude::*;
use vstd::utf8::*;

use crate::allocate::{
    allocatable, allocation_error, config_v4_free, config_v6_free, free_from, v4_taken, v6_taken,
    MAX_CANDIDATES,
};
use crate::config::Config;
use crate::cursor::{cursor_index, default_cursor, next_index, Cursor, WatchCursor};
use crate::error::{index_too_small, node_exists, ManagerError, XlineRegistryError};
use crate::ip::{Ipv4Network, Ipv6Network, MAX_V6};
use crate::lease::{EventType, Lease, LeaseAttrs, LeaseEvent, LeaseWatchResult};
use crate::manager::{
    after_attempt, after_events, all_events, attempts, created_lease, fits, lease_of_ip, renewed_lease,
    reusable_previous, takes_subnet, v4_compat, v6_compat, AcquireStep, AttemptOutcome,
    LocalManager, SubnetWrite, RACE_RETRIES, SUBNET_TTL,
};
use crate::registry::{
    config_key, create_ends, get_answers, lease_key, listed_lease, listed_leases, no_ipv6_subnet,
    stored_lease, subnets_prefix, Decoded, GetStep, KeyValue, ListedSubnet, Listing, SubnetPut,
    WriteStep,
};
use crate::text::{decimal, digits_value, i64_value, is_digits, is_signed};
use crate::time::{seconds_later, seconds_later_in_range, Timestamp};
use crate::watch::{
    doubled, follows, reads_event, EventStep, StoreEvent, StoreEventType, WatchInput, WatchPhase,
    WatchScope, WatchState, MAX_BACKOFF_MS, MIN_BACKOFF_MS,
};

pub mod acquiring;
pub mod allocation;
pub mod keeping;
pub mod reading;
pub mod storing;
pub mod values;
pub mod watching;

verus! {

/// The search finds no more addresses than there is room for, each of them in the
/// range, a whole number of steps from the first one, not taken and with its network
/// below `top`, in ascending order and at least a step apart.
pub proof fn law_search_is_sound(
    cur: int,
    last: int,
    step: int,
    top: int,
    taken: spec_fn(int) -> bool,
    room: nat,
)
    requires
        step > 0,
        free_from(cur, last, step, top, taken, room) is Some,
    ensures
        ({
            let found = free_from(cur, last, step, top, taken, room)->0;
            &&& found.len() <= room
            &&& forall|i: int|
                0 <= i < found.len() ==> {
                    &&& cur <= #[trigger] found[i] <= last
                    &&& (found[i] - cur) % step == 0
                    &&& found[i] + step <= top
                    &&& !taken(found[i])
                }
            &&& forall|i: int, j: int|
                0 <= i < j < found.len() ==> #[trigger] found[i] + step <= #[trigger] found[j]
        }),
    decreases
            (if cur <= last {
                last - cur + 1
            } else {
                0
            }),
{
    if cur > last || room == 0 {
    } else {
        let left = if taken(cur) {
            room
        } else {
            (room - 1) as nat
        };
        law_search_is_sound(cur + step, last, step, top, taken, left);
        let rest = free_from(cur + step, last, step, top, taken, left)->0;
        assert forall|i: int| 0 <= i < rest.len() implies (#[trigger] rest[i] - cur) % step == 0 by {
            lemma_mod_add_multiples_vanish(rest[i] - cur - step, step);
        }
        assert(0int % step == 0) by {
            lemma_small_mod(0, step as nat);
        }
        if !taken(cur) {
            let found = seq![cur] + rest;
            assert forall|i: int| 0 <= i < found.len() implies {
                &&& cur <= #[trigger] found[i] <= last
                &&& (found[i] - cur) % step == 0
                &&& found[i] + step <= top
                &&& !taken(found[i])
            } by {
                if i > 0 {
                    assert(found[i] == rest[i - 1]);
                }
            }
            assert forall|i: int, j: int| 0 <= i < j < found.len() implies #[trigger] found[i] + step
                <= #[trigger] found[j] by {
                assert(found[j] == rest[j - 1]);
                if i > 0 {
                    assert(found[i] == rest[i - 1]);
                }
            }
        }
    }
}

/// The search misses nothing: an address in the range, a whole number of steps from
/// the first one and not taken, is found, unless there is no room left before it.
pub proof fn law_search_is_complete(
    cur: int,
    last: int,
    step: int,
    top: int,
    taken: spec_fn(int) -> bool,
    room: nat,
    a: int,
)
    requires
        step > 0,
        free_from(cur, last, step, top, taken, room) is Some,
        cur <= a <= last,
        (a - cur) % step == 0,
        !taken(a),
    ensures
        ({
            let found = free_from(cur, last, step, top, taken, room)->0;
            found.contains(a) || (found.len() == room && forall|i: int|
                0 <= i < found.len() ==> #[trigger] found[i] < a)
        }),
    decreases
            (if cur <= last {
                last - cur + 1
            } else {
                0
            }),
{
    if room == 0 {
    } else {
        let left = if taken(cur) {
            room
        } else {
            (room - 1) as nat
        };
        let rest = free_from(cur + step, last, step, top, taken, left)->0;
        let found = free_from(cur, last, step, top, taken, room)->0;
        if a == cur {
            assert(found[0] == a);
        } else {
            if a - cur < step {
                lemma_small_mod((a - cur) as nat, step as nat);
            }
            lemma_mod_add_multiples_vanish(a - cur - step, step);
            law_search_is_complete(cur + step, last, step, top, taken, left, a);
            if rest.contains(a) {
                let i = choose|i: int| 0 <= i < rest.len() && rest[i] == a;
                if taken(cur) {
                    assert(found[i] == a);
                } else {
                    assert(found[i + 1] == a);
                }
            } else if !taken(cur) {
                assert forall|i: int| 0 <= i < found.len() implies #[trigger] found[i] < a by {
                    if i > 0 {
                        assert(found[i] == rest[i - 1]);
                    }
                }
            }
        }
    }
}

/// The search succeeds where even the network at the last address of the range has a
/// next one.
pub proof fn law_search_succeeds(
    cur: int,
    last: int,
    step: int,
    top: int,
    taken: spec_fn(int) -> bool,
    room: nat,
)
    requires
        last + step <= top,
    ensures
        free_from(cur, last, step, top, taken, room) is Some,
    decreases
            (if cur <= last {
                last - cur + 1
            } else {
                0
            }),
{
    if cur > last || room == 0 || step <= 0 {
    } else {
        law_search_succeeds(cur + step, last, step, top, taken, room);
        law_search_succeeds(cur + step, last, step, top, taken, (room - 1) as nat);
    }
}

/// Subnets that are allocated fit the network, and no lease holds either of them. The
/// IPv6 network that starts at the unspecified address leases no subnet there.
pub proof fn law_allocated_subnets_fit(
    config: Config,
    leases: Seq<Lease>,
    sn: Ipv4Network,
    sn6: Option<Ipv6Network>,
)
    requires
        allocation_error(config, leases) is None,
        allocatable(config, leases, sn, sn6),
    ensures
        sn.wf(),
        v4_compat(config, Some(sn)),
        sn6 matches Some(n) && n.addr != 0 ==> v6_compat(config, sn6),
        sn6 is None ==> v6_compat(config, sn6),
        sn6 matches Some(n) ==> n.wf(),
        forall|i: int| 0 <= i < leases.len() ==> (#[trigger] leases[i]).subnet != sn,
        forall|i: int|
            0 <= i < leases.len() ==> Some((#[trigger] leases[i]).ipv6_subnet) != sn6,
{
    lemma_pow2_pos((32 - config.subnet_len) as nat);
    law_search_is_sound(
        config.subnet_min->0 as int,
        config.subnet_max->0 as int,
        pow2((32 - config.subnet_len) as nat) as int,
        u32::MAX as int,
        v4_taken(leases, config.subnet_len),
        MAX_CANDIDATES as nat,
    );
    let found = config_v4_free(config, leases)->0;
    let k = choose|k: int| 0 <= k < found.len() && found[k] == sn.addr as int;
    assert(!v4_taken(leases, config.subnet_len)(found[k]));
    if sn6 is Some {
        lemma_pow2_pos((128 - config.ipv6_subnet_len) as nat);
        law_search_is_sound(
            config.ipv6_subnet_min->0 as int,
            config.ipv6_subnet_max->0 as int,
            pow2((128 - config.ipv6_subnet_len) as nat) as int,
            MAX_V6 as int,
            v6_taken(leases, config.ipv6_subnet_len),
            MAX_CANDIDATES as nat,
        );
        let found = config_v6_free(config, leases)->0;
        let k = choose|k: int| 0 <= k < found.len() && found[k] == sn6->0.addr as int;
        assert(!v6_taken(leases, config.ipv6_subnet_len)(found[k]));
    }
}

/// A lease that an attempt writes for a node fits the network, so that the next
/// attempt of the node renews it. This leaves out an IPv6 subnet at the unspecified
/// address, which never fits.
pub proof fn law_created_lease_fits(
    m: LocalManager,
    config: Config,
    leases: Seq<Lease>,
    attrs: LeaseAttrs,
    request: SubnetWrite,
    expiration: Timestamp,
)
    requires
        takes_subnet(m, config, leases, attrs, (AcquireStep::CreateSubnet { request })),
        config.enable_ipv6 && request.sn6 is Some ==> request.sn6->0.addr != 0,
    ensures
        fits(config, created_lease(request, expiration)),
        created_lease(request, expiration).attrs == attrs,
        request.ttl_secs == SUBNET_TTL,
{
    let none = Ipv6Network { addr: 0, prefix: 0 };
    assert(none.lowest() == 0) by {
        lemma_pow2_pos(128);
        lemma_small_mod(0, pow2(128));
    }
    if reusable_previous(m, config, leases) is None {
        law_allocated_subnets_fit(config, leases, request.sn, request.sn6);
    }
}

/// A lease with an IPv6 subnet that is written to a network with IPv6 still fits the
/// network when it is read back.
pub proof fn law_read_back_lease_fits(
    config: Config,
    request: SubnetWrite,
    expiration: Timestamp,
    read_at: Timestamp,
    mod_revision: i64,
)
    requires
        config.enable_ipv6,
        fits(config, created_lease(request, expiration)),
    ensures
        request.sn6 is Some,
        ({
            let read = stored_lease(
                (request.sn, request.sn6),
                request.attrs,
                read_at,
                mod_revision,
            );
            &&& fits(config, read)
            &&& read.enable_ipv4
            &&& read.enable_ipv6
            &&& read.subnet == request.sn
            &&& Some(read.ipv6_subnet) == request.sn6
            &&& read.attrs == request.attrs
        }),
{
}

/// A node whose lease fits the network keeps its subnets: an attempt renews the
/// lease, and whatever the registry answers, no other subnet comes out of it.
pub proof fn law_fitting_lease_is_kept(
    m: LocalManager,
    config: Config,
    ext_ip: u32,
    attrs: LeaseAttrs,
    leases: Vec<Lease>,
    revision: i64,
    step: AcquireStep,
    updated: Result<Timestamp, XlineRegistryError>,
)
    requires
        lease_of_ip(leases@, ext_ip) matches Some(held) && fits(config, held),
        attempts(m, config, ext_ip, attrs, Ok((leases, revision)), step),
    ensures
        step matches AcquireStep::UpdateSubnet { request, asof, lease } && Some(lease)
            == lease_of_ip(leases@, ext_ip) && request.sn == lease.subnet && request.sn6 == Some(
            lease.ipv6_subnet,
        ) && (renewed_lease(lease, attrs, updated) matches Ok(kept) ==> kept.subnet == lease.subnet
            && kept.ipv6_subnet == lease.ipv6_subnet && kept.attrs == attrs),
{
}

/// Where the network has IPv6, a lease that an attempt wrote is renewed by the next
/// attempt, as soon as it is the first one of the node when all leases are read again.
/// An IPv6 subnet at the unspecified address, which never fits, is left out.
pub proof fn law_next_attempt_renews(
    m: LocalManager,
    config: Config,
    before: Seq<Lease>,
    attrs: LeaseAttrs,
    request: SubnetWrite,
    expiration: Timestamp,
    mod_revision: i64,
    leases: Vec<Lease>,
    revision: i64,
    step: AcquireStep,
)
    requires
        config.enable_ipv6,
        takes_subnet(m, config, before, attrs, (AcquireStep::CreateSubnet { request })),
        request.sn6 is Some ==> request.sn6->0.addr != 0,
        lease_of_ip(leases@, attrs.public_ip) == Some(
            stored_lease((request.sn, request.sn6), request.attrs, expiration, mod_revision),
        ),
        attempts(m, config, attrs.public_ip, attrs, Ok((leases, revision)), step),
    ensures
        step matches AcquireStep::UpdateSubnet { request: renewal, .. } && renewal.sn == request.sn
            && renewal.sn6 == request.sn6 && renewal.attrs == attrs,
{
    law_created_lease_fits(m, config, before, attrs, request, expiration);
    law_read_back_lease_fits(config, request, expiration, expiration, mod_revision);
}

/// The attempts to acquire a lease end: after the last one nothing is tried again,
/// and a lease is never tried for again once it is there.
pub proof fn law_attempts_end(attempts: usize, outcome: Result<Lease, ManagerError>)
    ensures
        attempts >= RACE_RETRIES ==> after_attempt(attempts, outcome) is Finished,
        outcome is Ok ==> after_attempt(attempts, outcome) == AttemptOutcome::Finished(outcome),
        after_attempt(attempts, outcome) is Retry ==> attempts < RACE_RETRIES,
{
}

/// Without IPv6 a network takes an IPv6 subnet exactly where it is all of IPv6.
pub proof fn law_no_ipv6_takes_all_of_ipv6(config: Config, sn6: Ipv6Network)
    requires
        !config.enable_ipv6,
        sn6.wf(),
    ensures
        v6_compat(config, Some(sn6)) <==> sn6.prefix == 0,
{
    if sn6.prefix == 0 {
        lemma2_to64();
        lemma2_to64_rest();
        lemma_pow2_adds(64, 64);
        lemma_small_mod(sn6.addr as nat, pow2(128));
    }
}

/// A stored lease whose key names no IPv6 subnet fits no network, so that its node
/// gives it up when it acquires a lease again.
pub proof fn law_lease_without_ipv6_fits_nothing(
    config: Config,
    sn: Ipv4Network,
    attrs: LeaseAttrs,
    expiration: Timestamp,
    mod_revision: i64,
)
    ensures
        !fits(config, stored_lease((sn, None), attrs, expiration, mod_revision)),
{
}

/// Different subnets have different keys, as far as they are written differently.
pub proof fn law_lease_keys_differ(prefix: Seq<char>, k1: Seq<char>, k2: Seq<char>)
    requires
        lease_key(prefix, k1) == lease_key(prefix, k2),
    ensures
        k1 == k2,
{
    let n = (prefix + "/subnets/"@).len() as int;
    assert(lease_key(prefix, k1).skip(n) =~= k1);
    assert(lease_key(prefix, k2).skip(n) =~= k2);
}

/// The keys of all leases start with what all leases are read and watched by, and
/// the configuration is not among them.
pub proof fn law_lease_keys_are_listed(prefix: Seq<char>, subnet_key: Seq<char>)
    ensures
        subnets_prefix(prefix).is_prefix_of(lease_key(prefix, subnet_key)),
        !subnets_prefix(prefix).is_prefix_of(config_key(prefix)),
        config_key(prefix) != lease_key(prefix, subnet_key),
{
    reveal_strlit("/subnets");
    reveal_strlit("/subnets/");
    reveal_strlit("/config");
    let listed = subnets_prefix(prefix);
    let key = lease_key(prefix, subnet_key);
    assert(key.subrange(0, listed.len() as int) =~= listed);
    let n = prefix.len() as int;
    assert(config_key(prefix)[n + 1] == 'c');
    assert(listed[n + 1] == 's');
    assert(key[n + 1] == 's');
}

/// What the store keeps under a key.
#[verifier::ext_equal]
pub struct StoreEntry {
    pub value: Seq<u8>,
    pub lease_id: i64,
}

/// The store after a write, and whether it has written: a write that is only for an
/// absent key leaves a present one alone.
pub open spec fn store_put(store: Map<Seq<char>, StoreEntry>, put: SubnetPut) -> (
    Map<Seq<char>, StoreEntry>,
    bool,
) {
    if put.only_if_absent && store.contains_key(put.key@) {
        (store, false)
    } else {
        (
            store.insert(
                put.key@,
                StoreEntry { value: put.value@, lease_id: put.lease_id },
            ),
            true,
        )
    }
}

/// The store after a deletion.
pub open spec fn store_delete(store: Map<Seq<char>, StoreEntry>, key: Seq<char>) -> Map<
    Seq<char>,
    StoreEntry,
> {
    store.remove(key)
}

/// Whether the entry is the one that the store has under the key.
pub open spec fn store_has(
    store: Map<Seq<char>, StoreEntry>,
    key: Seq<char>,
    kv: KeyValue,
) -> bool {
    &&& store.contains_key(key)
    &&& kv.key@ == encode_utf8(key)
    &&& kv.value@ == store[key].value
    &&& kv.lease == store[key].lease_id
}

/// Whether the entries are what the store answers to a read of the key.
pub open spec fn store_gets(
    store: Map<Seq<char>, StoreEntry>,
    key: Seq<char>,
    kvs: Seq<KeyValue>,
) -> bool {
    if store.contains_key(key) {
        kvs.len() == 1 && store_has(store, key, kvs[0])
    } else {
        kvs.len() == 0
    }
}

/// Whether the entries are what the store answers to a read of all keys that start
/// with the prefix, in whatever order.
pub open spec fn store_lists(
    store: Map<Seq<char>, StoreEntry>,
    prefix: Seq<char>,
    kvs: Seq<KeyValue>,
) -> bool {
    &&& forall|i: int|
        0 <= i < kvs.len() ==> valid_utf8((#[trigger] kvs[i]).key@) && prefix.is_prefix_of(
            decode_utf8(kvs[i].key@),
        ) && store_has(store, decode_utf8(kvs[i].key@), kvs[i])
    &&& forall|key: Seq<char>| #[trigger]
        store.contains_key(key) && prefix.is_prefix_of(key) ==> exists|i: int|
            0 <= i < kvs.len() && (#[trigger] kvs[i]).key@ == encode_utf8(key)
}

/// In a store that keeps what is written, a lease that is written where there was
/// none is found under its key with the value and the lease it was written with, which
/// is what a read then goes on with, and nothing else has changed.
pub proof fn law_create_then_get(
    store: Map<Seq<char>, StoreEntry>,
    put: SubnetPut,
    prefix: Seq<char>,
    subnet_key: Seq<char>,
    listing: Listing,
)
    requires
        put.key@ == lease_key(prefix, subnet_key),
        put.only_if_absent,
        !store.contains_key(lease_key(prefix, subnet_key)),
        store_gets(store_put(store, put).0, put.key@, listing.kvs@),
    ensures
        ({
            let key = lease_key(prefix, subnet_key);
            let (after, written) = store_put(store, put);
            &&& written
            &&& after.contains_key(key)
            &&& get_answers(Ok(listing)) matches GetStep::ReadTtl { kv, .. } && kv.key@
                == encode_utf8(key) && kv.value@ == put.value@ && kv.lease == put.lease_id
            &&& after[key] == (StoreEntry { value: put.value@, lease_id: put.lease_id })
            &&& after.remove(key) =~= store
        }),
{
}

/// A new lease of a subnet that is leased changes nothing in the store, gives back
/// what the store granted for it, and is answered with `SubnetAlreadyExists`.
pub proof fn law_create_refuses_leased_subnet(
    store: Map<Seq<char>, StoreEntry>,
    put: SubnetPut,
    granted_ttl: i64,
    now: Timestamp,
)
    requires
        put.only_if_absent,
        store.contains_key(put.key@),
    ensures
        store_put(store, put).0 == store,
        create_ends(put.lease_id, granted_ttl, Ok(store_put(store, put).1), now) == (
        WriteStep::Revoke {
            lease_id: put.lease_id,
            error: XlineRegistryError::SubnetAlreadyExists,
        }),
{
}

/// A renewal is found under the key, whatever was there, and nothing else has changed.
pub proof fn law_update_then_get(
    store: Map<Seq<char>, StoreEntry>,
    put: SubnetPut,
    prefix: Seq<char>,
    subnet_key: Seq<char>,
    listing: Listing,
)
    requires
        put.key@ == lease_key(prefix, subnet_key),
        !put.only_if_absent,
        store_gets(store_put(store, put).0, put.key@, listing.kvs@),
    ensures
        ({
            let key = lease_key(prefix, subnet_key);
            let (after, written) = store_put(store, put);
            &&& written
            &&& after.contains_key(key)
            &&& get_answers(Ok(listing)) matches GetStep::ReadTtl { kv, .. } && kv.key@
                == encode_utf8(key) && kv.value@ == put.value@ && kv.lease == put.lease_id
            &&& after[key] == (StoreEntry { value: put.value@, lease_id: put.lease_id })
            &&& after.remove(key) =~= store.remove(key)
        }),
{
}

/// A deletion takes the lease away and nothing else. The key then holds nothing,
/// reading the lease gives none, deleting it once more changes nothing, all other keys
/// keep what they held, and the subnet can be leased anew.
pub proof fn law_delete_then_get(
    store: Map<Seq<char>, StoreEntry>,
    prefix: Seq<char>,
    subnet_key: Seq<char>,
    listing: Listing,
    other: Seq<char>,
    put: SubnetPut,
)
    requires
        store_gets(
            store_delete(store, lease_key(prefix, subnet_key)),
            lease_key(prefix, subnet_key),
            listing.kvs@,
        ),
        other != lease_key(prefix, subnet_key),
        put.key@ == lease_key(prefix, subnet_key),
    ensures
        ({
            let key = lease_key(prefix, subnet_key);
            let after = store_delete(store, key);
            &&& !after.contains_key(key)
            &&& get_answers(Ok(listing)) == GetStep::Done(Ok((None, 0)))
            &&& store_delete(after, key) =~= after
            &&& after.contains_key(other) == store.contains_key(other)
            &&& store.contains_key(other) ==> after[other] == store[other]
            &&& store_put(after, put).1
        }),
{
}

/// A deletion undoes the writing of a lease where there was none.
pub proof fn law_delete_undoes_create(store: Map<Seq<char>, StoreEntry>, put: SubnetPut)
    requires
        !store.contains_key(put.key@),
    ensures
        store_delete(store_put(store, put).0, put.key@) =~= store,
{
}

/// A lease is listed exactly while the store has it: after a write its entry, with the
/// value and the lease that were written, is among those that start with what all
/// leases are read by, and after a deletion no entry has its key.
pub proof fn law_leases_are_listed_until_deleted(
    store: Map<Seq<char>, StoreEntry>,
    put: SubnetPut,
    prefix: Seq<char>,
    subnet_key: Seq<char>,
    written: Seq<KeyValue>,
    deleted: Seq<KeyValue>,
)
    requires
        put.key@ == lease_key(prefix, subnet_key),
        put.only_if_absent ==> !store.contains_key(put.key@),
        store_lists(store_put(store, put).0, subnets_prefix(prefix), written),
        store_lists(store_delete(store, put.key@), subnets_prefix(prefix), deleted),
    ensures
        exists|i: int|
            0 <= i < written.len() && (#[trigger] written[i]).key@ == encode_utf8(put.key@)
                && written[i].value@ == put.value@ && written[i].lease == put.lease_id,
        forall|i: int|
            0 <= i < deleted.len() ==> (#[trigger] deleted[i]).key@ != encode_utf8(put.key@),
{
    let key = put.key@;
    let after = store_put(store, put).0;
    law_lease_keys_are_listed(prefix, subnet_key);
    encode_utf8_decode_utf8(key);
    assert(after.contains_key(key));
    let i = choose|i: int|
        0 <= i < written.len() && (#[trigger] written[i]).key@ == encode_utf8(key);
    assert(store_has(after, decode_utf8(written[i].key@), written[i]));
    assert forall|j: int| 0 <= j < deleted.len() implies (#[trigger] deleted[j]).key@
        != encode_utf8(key) by {
        assert(store_has(store_delete(store, key), decode_utf8(deleted[j].key@), deleted[j]));
    }
}

/// A lease that was written is read back. The entry that the store then has under the
/// lease's key says the subnets and the attributes that were written, where the key is
/// understood as these subnets and the value as these attributes. A lease without an
/// IPv6 subnet is read back with the single unspecified address in its place.
pub proof fn law_written_lease_is_read_back(
    store: Map<Seq<char>, StoreEntry>,
    put: SubnetPut,
    prefix: Seq<char>,
    subnet_key: Seq<char>,
    request: SubnetWrite,
    kv: KeyValue,
    decoded: Decoded,
    now: Timestamp,
    ttl: i64,
)
    requires
        put.key@ == lease_key(prefix, subnet_key),
        put.only_if_absent ==> !store.contains_key(put.key@),
        store_has(store_put(store, put).0, put.key@, kv),
        kv.value@ == put.value@ ==> decoded.attrs == Ok::<LeaseAttrs, String>(request.attrs),
        decode_utf8(kv.key@) == lease_key(prefix, subnet_key) ==> decoded.subnets == Some(
            (request.sn, request.sn6),
        ),
    ensures
        kv.lease == put.lease_id,
        listed_lease((ListedSubnet { kv, ttl: Ok(ttl), decoded, now })) matches Some(read)
            && read.enable_ipv4 && read.subnet == request.sn && read.attrs == request.attrs
            && read.expiration == seconds_later(now, ttl) && read.asof == Some(kv.mod_revision)
            && read.ipv6_subnet == (match request.sn6 {
            Some(sn6) => sn6,
            None => no_ipv6_subnet(),
        }) && (read.enable_ipv6 <==> read.ipv6_subnet.addr != 0),
{
    encode_utf8_valid_utf8(lease_key(prefix, subnet_key));
    encode_utf8_decode_utf8(lease_key(prefix, subnet_key));
}

/// The leases that are read are those of the entries that say one.
pub proof fn law_listed_leases(entries: Seq<ListedSubnet>, lease: Lease)
    ensures
        listed_leases(entries).len() <= entries.len(),
        listed_leases(entries).contains(lease) <==> exists|i: int|
            0 <= i < entries.len() && listed_lease(#[trigger] entries[i]) == Some(lease),
    decreases entries.len(),
{
    if entries.len() > 0 {
        let before = entries.drop_last();
        law_listed_leases(before, lease);
        let read = listed_leases(entries);
        let read_before = listed_leases(before);
        if read.contains(lease) {
            let j = choose|j: int| 0 <= j < read.len() && read[j] == lease;
            if j < read_before.len() {
                assert(read_before[j] == lease);
                assert(read_before.contains(lease));
                let i = choose|i: int|
                    0 <= i < before.len() && listed_lease(#[trigger] before[i]) == Some(lease);
                assert(entries[i] == before[i]);
            } else {
                assert(listed_lease(entries[entries.len() - 1]) == Some(lease));
            }
        }
        if exists|i: int|
            0 <= i < entries.len() && listed_lease(#[trigger] entries[i]) == Some(lease) {
            let i = choose|i: int|
                0 <= i < entries.len() && listed_lease(#[trigger] entries[i]) == Some(lease);
            if i < before.len() {
                assert(before[i] == entries[i]);
                assert(read_before.contains(lease));
                let j = choose|j: int| 0 <= j < read_before.len() && read_before[j] == lease;
                assert(read[j] == lease);
            } else {
                assert(read[read.len() - 1] == lease);
            }
        }
    }
}

/// A lease that is renewed later expires later.
pub proof fn law_later_renewal_expires_later(earlier: Timestamp, later: Timestamp, ttl: i64)
    requires
        seconds_later_in_range(earlier, ttl),
        seconds_later_in_range(later, ttl),
        earlier.total() < later.total(),
    ensures
        seconds_later(earlier, ttl).total() < seconds_later(later, ttl).total(),
        seconds_later(later, ttl).total() == later.total() + ttl * 1_000_000_000,
{
}

/// What is reported of a lease after its removal has no effect.
pub proof fn law_nothing_after_removal(
    expiration: Timestamp,
    before: Seq<LeaseEvent>,
    removal: LeaseEvent,
    after: Seq<LeaseEvent>,
)
    requires
        removal.event_type == EventType::Removed,
    ensures
        after_events(expiration, before.push(removal) + after) == after_events(
            expiration,
            before.push(removal),
        ),
        after_events(expiration, before.push(removal)).1,
    decreases before.len(),
{
    let all = before.push(removal) + after;
    if before.len() > 0 {
        let next = match before[0].lease {
            Some(l) => l.expiration,
            None => expiration,
        };
        law_nothing_after_removal(next, before.drop_first(), removal, after);
        assert(all.drop_first() =~= before.drop_first().push(removal) + after);
        assert(before.push(removal).drop_first() =~= before.drop_first().push(removal));
        assert(all[0] == before[0]);
        assert(before.push(removal)[0] == before[0]);
    } else {
        assert(all[0] == removal);
    }
}

/// A lease that is not removed expires as the last addition that names it says.
pub proof fn law_last_addition_counts(
    expiration: Timestamp,
    before: Seq<LeaseEvent>,
    addition: LeaseEvent,
)
    requires
        forall|i: int| 0 <= i < before.len() ==> (#[trigger] before[i]).event_type
            == EventType::Added,
        addition.event_type == EventType::Added,
        addition.lease is Some,
    ensures
        after_events(expiration, before.push(addition)) == (addition.lease->0.expiration, false),
    decreases before.len(),
{
    reveal_with_fuel(after_events, 2);
    if before.len() > 0 {
        let next = match before[0].lease {
            Some(l) => l.expiration,
            None => expiration,
        };
        assert forall|i: int| 0 <= i < before.drop_first().len() implies (
        #[trigger] before.drop_first()[i]).event_type == EventType::Added by {
            assert(before.drop_first()[i] == before[i + 1]);
        }
        law_last_addition_counts(next, before.drop_first(), addition);
        assert(before.push(addition).drop_first() =~= before.drop_first().push(addition));
        assert(before.push(addition)[0] == before[0]);
    }
}

/// The events of a further report come last.
proof fn lemma_all_events_push(results: Seq<LeaseWatchResult>, wr: LeaseWatchResult)
    ensures
        all_events(results.push(wr)) == all_events(results) + wr.events@,
    decreases results.len(),
{
    reveal_with_fuel(all_events, 2);
    if results.len() == 0 {
        assert(results.push(wr).drop_first() =~= results);
    } else {
        lemma_all_events_push(results.drop_first(), wr);
        assert(results.push(wr).drop_first() =~= results.drop_first().push(wr));
    }
    assert(all_events(results.push(wr)) =~= all_events(results) + wr.events@);
}

/// A lease that is deleted from the store is lost to its node: the watch on the lease
/// reports the removal, with which the node stops, whatever was reported before it.
pub proof fn law_deletion_ends_the_lease(
    ev: StoreEvent,
    decoded: Decoded,
    now: Timestamp,
    event: LeaseEvent,
    scope: WatchScope,
    before: WatchState,
    left: usize,
    after: WatchState,
    expiration: Timestamp,
)
    requires
        ev.event_type == StoreEventType::Delete,
        reads_event(ev, decoded, now, EventStep::Done(Ok(event))),
        before.phase == (WatchPhase::Decoding { left }),
        follows(scope, before, WatchInput::Decoded(Ok(event)), after),
    ensures
        event.lease is Some,
        Some((event.lease->0.subnet, Some(event.lease->0.ipv6_subnet))) == (match decoded.subnets {
            Some((sn, None)) => Some((sn, Some(no_ipv6_subnet()))),
            subnets => subnets,
        }),
        after_events(expiration, all_events(after.results)).1,
{
    let wr = after.results.last();
    let reported = all_events(before.results);
    lemma_all_events_push(before.results, wr);
    law_nothing_after_removal(expiration, reported, wr.events@[0], Seq::empty());
    assert(reported + wr.events@ =~= reported.push(wr.events@[0]));
}

/// The pause before connecting again after `failures` failures in a row.
pub open spec fn pause_after(failures: nat) -> u64
    decreases failures,
{
    if failures == 0 {
        MIN_BACKOFF_MS
    } else {
        doubled(pause_after((failures - 1) as nat))
    }
}

/// The pauses grow by a factor of two with every failure in a row, up to the longest
/// pause.
pub proof fn law_pauses_double(failures: nat)
    ensures
        pause_after(failures) == if MIN_BACKOFF_MS * pow2(failures) < MAX_BACKOFF_MS {
            MIN_BACKOFF_MS * pow2(failures)
        } else {
            MAX_BACKOFF_MS as int
        },
        MIN_BACKOFF_MS <= pause_after(failures) <= MAX_BACKOFF_MS,
    decreases failures,
{
    lemma_pow2_pos(failures);
    if failures == 0 {
        lemma2_to64();
    } else {
        law_pauses_double((failures - 1) as nat);
        lemma_pow2_unfold(failures);
    }
}

/// A watch goes back to the shortest pause when it connects, and doubles the pause
/// when it does not.
pub proof fn law_watch_pauses(
    scope: WatchScope,
    before: WatchState,
    after: WatchState,
    failures: nat,
)
    requires
        before.phase == WatchPhase::Connecting,
        before.backoff_ms == pause_after(failures),
    ensures
        follows(scope, before, WatchInput::OpenFailed, after) ==> after.phase == (
        WatchPhase::Pausing { ms: pause_after(failures) }) && after.backoff_ms == pause_after(
            failures + 1,
        ),
        follows(scope, before, WatchInput::Opened, after) ==> after.backoff_ms == pause_after(0),
{
}

/// A watch that has to connect again does so from the last revision that the store
/// told it: nothing but a response changes the revision.
pub proof fn law_watch_keeps_its_revision(
    scope: WatchScope,
    before: WatchState,
    input: WatchInput,
    after: WatchState,
)
    requires
        follows(scope, before, input, after),
    ensures
        after.since == before.since || (input matches WatchInput::Response {
            canceled: false,
            revision: Some(revision),
            ..
        } && after.since == revision),
{
}

/// Reports are not lost while the changes of a response are read: they stay, in
/// order, and at most one is added with each change.
pub proof fn law_reports_add_up(
    scope: WatchScope,
    before: WatchState,
    input: WatchInput,
    after: WatchState,
)
    requires
        follows(scope, before, input, after),
        before.phase != WatchPhase::Streaming,
    ensures
        before.results.is_prefix_of(after.results),
        after.results.len() <= before.results.len() + 1,
{
    assert(after.results.subrange(0, before.results.len() as int) =~= before.results);
}

/// A watch on all leases answers every change with a report, unless it asks for all
/// leases instead.
pub proof fn law_watch_on_all_reports_every_change(
    before: WatchState,
    left: usize,
    decoded: Result<LeaseEvent, XlineRegistryError>,
    after: WatchState,
)
    requires
        before.phase == (WatchPhase::Decoding { left }),
        follows(WatchScope::All, before, WatchInput::Decoded(decoded), after),
    ensures
        after.results.len() == before.results.len() + 1 || after.phase == (WatchPhase::Resetting {
            left,
        }),
        decoded is Ok ==> after.results.len() == before.results.len() + 1,
{
}

/// No error says both that a revision is gone and that a key exists.
pub proof fn law_errors_are_apart(err: XlineRegistryError)
    ensures
        !(index_too_small(err) && node_exists(err)),
{
}

/// The digits of a number in decimal are worth the number.
pub proof fn law_decimal_is_read_back(n: nat)
    ensures
        is_digits(decimal(n)),
        digits_value(decimal(n)) == n,
        n <= i64::MAX ==> i64_value(decimal(n)) == Some(n as i64),
    decreases n,
{
    let s = decimal(n);
    reveal_with_fuel(digits_value, 2);
    if n < 10 {
        assert(s.drop_last() =~= Seq::<char>::empty());
    } else {
        law_decimal_is_read_back(n / 10);
        assert(s.drop_last() =~= decimal(n / 10));
        assert forall|i: int| 0 <= i < s.len() implies '0' <= #[trigger] s[i] <= '9' by {
            if i < decimal(n / 10).len() {
                assert(s[i] == decimal(n / 10)[i]);
            }
        }
    }
    assert('0' <= s[0] <= '9');
    assert(!is_signed(s));
}

/// A cursor that is a revision and one that is the same revision in decimal stand for
/// the same place, and the default one stands before all history.
pub proof fn law_cursors_agree(index: i64, text: String, default: Cursor)
    requires
        index >= 0,
        text@ == decimal(index as nat),
        default_cursor(default),
    ensures
        cursor_index(Cursor::Str(text)) == cursor_index(Cursor::Cursor((WatchCursor { index }))),
        cursor_index(default) == Some(0i64),
{
    law_decimal_is_read_back(index as nat);
    law_decimal_is_read_back(0);
    reveal_strlit("0");
    assert("0"@ =~= decimal(0));
}

/// A watch that starts where the report of all leases ends misses no revision and
/// repeats none: it starts at the revision right after the one of the report.
pub proof fn law_watch_starts_after_report(report: LeaseWatchResult, index: i64)
    requires
        report.cursor == Cursor::Cursor((WatchCursor { index })),
        index < i64::MAX,
    ensures
        cursor_index(report.cursor) == Some(index),
        next_index(report.cursor) == Some(index + 1),
{
}

} // verus!
