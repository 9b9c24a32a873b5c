//! What can go wrong in the store, in the registry and in the manager.
use vstd::prelude::*;

use crate::ip::NetworkError;
use crate::text::{contains_text, join2, occurs_in};

verus! {

/// The code of a gRPC status.
#[derive(Clone, Copy, Debug, PartialEq, Eq, Structural)]
pub enum Code {
    /// No error.
    Success,
    Cancelled,
    Unknown,
    InvalidArgument,
    DeadlineExceeded,
    NotFound,
    AlreadyExists,
    PermissionDenied,
    ResourceExhausted,
    FailedPrecondition,
    Aborted,
    OutOfRange,
    Unimplemented,
    Internal,
    Unavailable,
    DataLoss,
    Unauthenticated,
}

/// A gRPC status: its code and what the server said.
#[derive(Debug, PartialEq, Eq)]
pub struct Status {
    pub code: Code,
    pub message: String,
}

/// An error of the store's client: what it prints, and the gRPC status where the
/// server answered with one.
#[derive(Debug, PartialEq, Eq)]
pub struct StoreError {
    pub display: String,
    pub status: Option<Status>,
}

/// The kind of an input or output error.
#[derive(Clone, Copy, Debug, PartialEq, Eq, Structural)]
pub enum IoErrorKind {
    InvalidData,
    Other,
}

/// An error of the registry.
#[derive(Debug, PartialEq, Eq)]
pub enum XlineRegistryError {
    TryAgain,
    ConfigNotFound,
    NoWatchChannel,
    SubnetAlreadyExists,
    Xline(StoreError),
    Io(IoErrorKind, String),
    Tls(String),
    Utf8(String),
    Json(String),
    Other(String),
}

/// An error of the manager.
#[derive(Debug, PartialEq, Eq)]
pub enum ManagerError {
    Registry(XlineRegistryError),
    /// The subnet was taken while it was being acquired.
    TryAgain,
    MaxRetries,
    MissingSubnetMin,
    MissingSubnetMax,
    InvalidSubnetStart(NetworkError),
    InvalidIpv6SubnetStart(NetworkError),
    NoNextNetwork(NetworkError),
    OutOfSubnets,
    SubnetNotFound,
    LeaseRevoked,
    WatchCanceled,
    /// The cursor is not a number.
    BadCursor(String),
}

/// What the store says of a revision that it has dropped from its history.
pub open spec fn compacted() -> Seq<char> {
    "required revision has been compacted"@
}

/// Whether the error says that the wanted revision is out of the store's history.
pub open spec fn index_too_small(err: XlineRegistryError) -> bool {
    err matches XlineRegistryError::Xline(e) && e.status matches Some(status) && status.code
        == Code::OutOfRange && occurs_in(compacted(), status.message@)
}

/// Whether the error says that the key exists already.
pub open spec fn node_exists(err: XlineRegistryError) -> bool {
    err matches XlineRegistryError::Xline(e) && e.status matches Some(status) && status.code
        == Code::AlreadyExists
}

/// Whether the error says that nothing is stored under the key.
pub open spec fn says_not_found(e: StoreError) -> bool {
    occurs_in("Key not found"@, e.display@) || occurs_in("NOT_FOUND"@, e.display@)
}

/// Whether the error says that the wanted revision is out of the store's history,
/// so that a watch has to start over from all leases.
pub fn is_index_too_small(err: &XlineRegistryError) -> (r: bool)
    ensures
        r == index_too_small(*err),
{
    match err {
        XlineRegistryError::Xline(e) => match &e.status {
            Some(status) => status.code == Code::OutOfRange && contains_text(
                status.message.as_str(),
                "required revision has been compacted",
            ),
            None => false,
        },
        _ => false,
    }
}

/// Whether the error says that the key exists already.
pub fn is_err_etcd_node_exist(err: &XlineRegistryError) -> (r: bool)
    ensures
        r == node_exists(*err),
{
    match err {
        XlineRegistryError::Xline(e) => match &e.status {
            Some(status) => status.code == Code::AlreadyExists,
            None => false,
        },
        _ => false,
    }
}

/// Whether the error says that nothing is stored under the key.
pub fn is_not_found(e: &StoreError) -> (r: bool)
    ensures
        r == says_not_found(*e),
{
    contains_text(e.display.as_str(), "Key not found") || contains_text(
        e.display.as_str(),
        "NOT_FOUND",
    )
}

/// What a registry error prints.
pub open spec fn registry_message(err: XlineRegistryError) -> Seq<char> {
    match err {
        XlineRegistryError::TryAgain => "try again"@,
        XlineRegistryError::ConfigNotFound =>
            "flannel config not found in xline store. Did you create your config using etcdv3 API?"@,
        XlineRegistryError::NoWatchChannel => "no watch channel"@,
        XlineRegistryError::SubnetAlreadyExists => "subnet already exists"@,
        XlineRegistryError::Xline(e) => e.display@,
        XlineRegistryError::Io(_, text) => text@,
        XlineRegistryError::Tls(text) => text@,
        XlineRegistryError::Utf8(text) => text@,
        XlineRegistryError::Json(text) => text@,
        XlineRegistryError::Other(text) => text@,
    }
}

/// What a network error prints.
pub open spec fn network_message(err: NetworkError) -> Seq<char> {
    match err {
        NetworkError::InvalidPrefix => "invalid prefix"@,
        NetworkError::PastLastAddress => "no network past the last address"@,
    }
}

/// What a manager error prints.
pub open spec fn manager_message(err: ManagerError) -> Seq<char> {
    match err {
        ManagerError::Registry(e) => registry_message(e),
        ManagerError::TryAgain => "try again"@,
        ManagerError::MaxRetries => "max retries reached trying to acquire a subnet"@,
        ManagerError::MissingSubnetMin => "Missing subnet_min"@,
        ManagerError::MissingSubnetMax => "Missing subnet_max"@,
        ManagerError::InvalidSubnetStart(e) => "Invalid subnet start: "@ + network_message(e),
        ManagerError::InvalidIpv6SubnetStart(e) => "Invalid IPv6 subnet start: "@
            + network_message(e),
        ManagerError::NoNextNetwork(e) => network_message(e),
        ManagerError::OutOfSubnets => "out of subnets"@,
        ManagerError::SubnetNotFound => "subnet not found"@,
        ManagerError::LeaseRevoked => "Lease revoked"@,
        ManagerError::WatchCanceled => "Watch canceled"@,
        ManagerError::BadCursor(s) => "failed to parse cursor string: "@ + s@,
    }
}

impl XlineRegistryError {
    /// The text of the error.
    pub fn message(&self) -> (r: String)
        ensures
            r@ == registry_message(*self),
    {
        match self {
            XlineRegistryError::TryAgain => "try again".to_owned(),
            XlineRegistryError::ConfigNotFound =>
                "flannel config not found in xline store. Did you create your config using etcdv3 API?".to_owned(),
            XlineRegistryError::NoWatchChannel => "no watch channel".to_owned(),
            XlineRegistryError::SubnetAlreadyExists => "subnet already exists".to_owned(),
            XlineRegistryError::Xline(e) => e.display.clone(),
            XlineRegistryError::Io(_, text) => text.clone(),
            XlineRegistryError::Tls(text) => text.clone(),
            XlineRegistryError::Utf8(text) => text.clone(),
            XlineRegistryError::Json(text) => text.clone(),
            XlineRegistryError::Other(text) => text.clone(),
        }
    }
}

/// The text of a network error.
fn network_error_text(err: NetworkError) -> (r: &'static str)
    ensures
        r@ == network_message(err),
{
    match err {
        NetworkError::InvalidPrefix => "invalid prefix",
        NetworkError::PastLastAddress => "no network past the last address",
    }
}

impl ManagerError {
    /// The text of the error.
    pub fn message(&self) -> (r: String)
        ensures
            r@ == manager_message(*self),
    {
        match self {
            ManagerError::Registry(e) => e.message(),
            ManagerError::TryAgain => "try again".to_owned(),
            ManagerError::MaxRetries => "max retries reached trying to acquire a subnet".to_owned(),
            ManagerError::MissingSubnetMin => "Missing subnet_min".to_owned(),
            ManagerError::MissingSubnetMax => "Missing subnet_max".to_owned(),
            ManagerError::InvalidSubnetStart(e) => join2("Invalid subnet start: ", network_error_text(*e)),
            ManagerError::InvalidIpv6SubnetStart(e) => join2("Invalid IPv6 subnet start: ", network_error_text(*e)),
            ManagerError::NoNextNetwork(e) => network_error_text(*e).to_owned(),
            ManagerError::OutOfSubnets => "out of subnets".to_owned(),
            ManagerError::SubnetNotFound => "subnet not found".to_owned(),
            ManagerError::LeaseRevoked => "Lease revoked".to_owned(),
            ManagerError::WatchCanceled => "Watch canceled".to_owned(),
            ManagerError::BadCursor(s) => join2("failed to parse cursor string: ", s.as_str()),
        }
    }
}

} // verus!
