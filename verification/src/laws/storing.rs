//! What holds of the keys of the registry and of what is written to the store.
use vstd::prelude::*;

use crate::error::{StoreError, XlineRegistryError};
use crate::registry::{
    regex_accepts, LeaseGrant, WriteStep, XlineConfig, XlineSubnetRegistry,
};
use crate::time::Timestamp;

verus! {

/// A registry opens exactly where the prefix makes a regular expression, which it then
/// holds, and is configured as it was asked for.
pub proof fn law_registry_opens(config: XlineConfig, r: Option<XlineSubnetRegistry>)
    requires
        call_ensures(XlineSubnetRegistry::new, (config,), r),
    ensures
        r is Some <==> regex_accepts(config.prefix@ + "/([^/]*)(/|/config)?$"@),
        r matches Some(registry) ==> registry.xline_cfg == config && registry.network_pattern@
            == config.prefix@ + "/([^/]*)(/|/config)?$"@,
{
}

/// There are credentials exactly where both a user name and a password are set.
pub proof fn law_credentials_are_a_pair(config: XlineConfig, r: Option<(String, String)>)
    requires
        call_ensures(XlineConfig::credentials, (&config,), r),
    ensures
        r is Some <==> config.username is Some && config.password is Some,
        r matches Some((user, pass)) ==> Some(user) == config.username && Some(pass)
            == config.password,
{
}

/// All keys of the registry are below its prefix: the configuration, and all leases under
/// the names of their subnets.
pub proof fn law_registry_keys(
    registry: XlineSubnetRegistry,
    subnet_key: &str,
    config_key: String,
    subnets_prefix: String,
    lease_key: String,
)
    requires
        call_ensures(XlineSubnetRegistry::config_key, (&registry,), config_key),
        call_ensures(XlineSubnetRegistry::subnets_prefix, (&registry,), subnets_prefix),
        call_ensures(XlineSubnetRegistry::lease_key, (&registry, subnet_key), lease_key),
    ensures
        config_key@ == registry.xline_cfg.prefix@ + "/config"@,
        subnets_prefix@ == registry.xline_cfg.prefix@ + "/subnets"@,
        lease_key@ == registry.xline_cfg.prefix@ + "/subnets/"@ + subnet_key@,
{
}

/// The writing of a new lease starts with a grant for as long as is asked for, and writes the
/// value under the key of the lease only where that holds nothing. Attributes that cannot be
/// written end it at once.
pub proof fn law_creation_asks_for_a_grant(
    registry: XlineSubnetRegistry,
    subnet_key: &str,
    value: Result<Vec<u8>, String>,
    ttl: i64,
    step: WriteStep,
)
    requires
        call_ensures(XlineSubnetRegistry::create_subnet, (&registry, subnet_key, value, ttl), step),
    ensures
        value matches Err(text) ==> step == WriteStep::Done(Err(XlineRegistryError::Json(text))),
        value matches Ok(bytes) ==> (step matches WriteStep::Grant {
            ttl_secs,
            key,
            value: written,
            only_if_absent,
        } && ttl_secs == ttl && written == bytes && only_if_absent && key@
            == registry.xline_cfg.prefix@ + "/subnets/"@ + subnet_key@),
{
}

/// The writing of a lease that is there already starts with a grant for as long as is asked
/// for, and writes the value under the key of the lease whatever that holds. Attributes that cannot be
/// written end it at once.
pub proof fn law_renewal_asks_for_a_grant(
    registry: XlineSubnetRegistry,
    subnet_key: &str,
    value: Result<Vec<u8>, String>,
    ttl: i64,
    step: WriteStep,
)
    requires
        call_ensures(XlineSubnetRegistry::update_subnet, (&registry, subnet_key, value, ttl), step),
    ensures
        value matches Err(text) ==> step == WriteStep::Done(Err(XlineRegistryError::Json(text))),
        value matches Ok(bytes) ==> (step matches WriteStep::Grant {
            ttl_secs,
            key,
            value: written,
            only_if_absent,
        } && ttl_secs == ttl && written == bytes && !only_if_absent && key@
            == registry.xline_cfg.prefix@ + "/subnets/"@ + subnet_key@),
{
}

/// An entry is written as it was asked for, with the lease that was granted. Without a
/// grant nothing is written and the store's error stands.
pub proof fn law_entry_lives_with_its_grant(
    key: String,
    value: Vec<u8>,
    only_if_absent: bool,
    granted: Result<LeaseGrant, StoreError>,
    step: WriteStep,
)
    requires
        call_ensures(
            XlineSubnetRegistry::subnet_granted,
            (key, value, only_if_absent, granted),
            step,
        ),
    ensures
        granted matches Err(e) ==> step == WriteStep::Done(Err(XlineRegistryError::Xline(e))),
        granted matches Ok(grant) ==> (step matches WriteStep::Put { put, granted_ttl }
            && granted_ttl == grant.ttl && put.lease_id == grant.id && put.key == key && put.value
            == value && put.only_if_absent == only_if_absent),
{
}

/// A new lease that was written expires exactly as many seconds from now as were granted.
/// One that was not written, because the key holds something or because of an error, ends
/// with the grant given back and the reason.
pub proof fn law_new_lease_expires_after_its_grant(
    lease_id: i64,
    granted_ttl: i64,
    written: Result<bool, StoreError>,
    now: Timestamp,
    step: WriteStep,
)
    requires
        call_ensures(
            XlineSubnetRegistry::create_subnet_written,
            (lease_id, granted_ttl, written, now),
            step,
        ),
        i64::MIN <= now.secs + granted_ttl <= i64::MAX,
    ensures
        written == Ok::<bool, StoreError>(true) ==> (step matches
            WriteStep::Done(Ok(t)) && t.secs * 1_000_000_000 + t.nanos == (now.secs + granted_ttl)
            * 1_000_000_000 + now.nanos && t.secs == now.secs + granted_ttl && t.nanos
                == now.nanos),
        written == Ok::<bool, StoreError>(false) ==> step == (WriteStep::Revoke {
            lease_id,
            error: XlineRegistryError::SubnetAlreadyExists,
        }),
        written matches Err(e) ==> step == (WriteStep::Revoke {
            lease_id,
            error: XlineRegistryError::Xline(e),
        }),
{
}

/// A lease that was written again expires exactly as many seconds from now as were granted.
/// One that was not written ends with the grant given back and the error.
pub proof fn law_renewed_lease_expires_after_its_grant(
    lease_id: i64,
    granted_ttl: i64,
    written: Result<(), StoreError>,
    now: Timestamp,
    step: WriteStep,
)
    requires
        call_ensures(
            XlineSubnetRegistry::update_subnet_written,
            (lease_id, granted_ttl, written, now),
            step,
        ),
        i64::MIN <= now.secs + granted_ttl <= i64::MAX,
    ensures
        written is Ok ==> (step matches
            WriteStep::Done(Ok(t)) && t.secs * 1_000_000_000 + t.nanos == (now.secs + granted_ttl)
            * 1_000_000_000 + now.nanos && t.secs == now.secs + granted_ttl && t.nanos
                == now.nanos),
        written matches Err(e) ==> step == (WriteStep::Revoke {
            lease_id,
            error: XlineRegistryError::Xline(e),
        }),
{
}

/// A deletion succeeds exactly where it does in the store, whose error else stands.
pub proof fn law_deletion_hands_the_error_on(deleted: Result<(), StoreError>, r: Result<(), XlineRegistryError>)
    requires
        call_ensures(XlineSubnetRegistry::delete_subnet, (deleted,), r),
    ensures
        deleted is Ok <==> r is Ok,
        deleted matches Err(e) ==> r == Err::<(), XlineRegistryError>(XlineRegistryError::Xline(e)),
{
}

} // verus!
