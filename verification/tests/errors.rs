use subnet_lease::error::{
    is_err_etcd_node_exist, is_index_too_small, is_not_found, Code, IoErrorKind, ManagerError,
    Status, StoreError, XlineRegistryError,
};
use subnet_lease::ip::NetworkError;

fn grpc(code: Code, message: &str) -> XlineRegistryError {
    XlineRegistryError::Xline(StoreError {
        display: format!("grpc request error: {}", message),
        status: Some(Status { code, message: message.to_string() }),
    })
}

fn other(display: &str) -> StoreError {
    StoreError { display: display.to_string(), status: None }
}

const COMPACTED: &str = "etcdserver: mvcc: required revision has been compacted";

#[test]
fn compacted_revision_is_index_too_small() {
    assert!(is_index_too_small(&grpc(Code::OutOfRange, COMPACTED)));
    assert!(!is_index_too_small(&grpc(Code::OutOfRange, "required revision has been compact")));
    assert!(!is_index_too_small(&grpc(Code::Internal, COMPACTED)));
    assert!(!is_index_too_small(&XlineRegistryError::Xline(other(COMPACTED))));
    assert!(!is_index_too_small(&XlineRegistryError::Other(COMPACTED.to_string())));
    assert!(!is_index_too_small(&XlineRegistryError::TryAgain));
}

#[test]
fn node_exists_is_told_by_the_code() {
    assert!(is_err_etcd_node_exist(&grpc(Code::AlreadyExists, "")));
    assert!(!is_err_etcd_node_exist(&grpc(Code::NotFound, "already exists")));
    assert!(!is_err_etcd_node_exist(&XlineRegistryError::Xline(other("AlreadyExists"))));
    assert!(!is_err_etcd_node_exist(&XlineRegistryError::SubnetAlreadyExists));
}

#[test]
fn no_error_is_both() {
    for code in [Code::OutOfRange, Code::AlreadyExists, Code::Success] {
        let err = grpc(code, COMPACTED);
        assert!(!(is_index_too_small(&err) && is_err_etcd_node_exist(&err)));
    }
}

#[test]
fn not_found_is_told_by_the_text() {
    assert!(is_not_found(&other("100: Key not found (/coreos.com)")));
    assert!(is_not_found(&other("code: NOT_FOUND")));
    assert!(!is_not_found(&other("key not found")));
    assert!(!is_not_found(&other("")));
}

#[test]
fn search_in_error_texts_is_that_of_the_standard_library() {
    let texts = [
        "",
        "N",
        "NOT_FOUND",
        "NOT_FOUN",
        "OT_FOUND",
        "NOT_NOT_FOUND",
        "NNOT_FOUND!",
        "NOT_FOUNNOT_FOUND",
        "\u{4e2d}\u{6587} Key not found",
        "Key not foun\u{10d}",
        "KeKey not found",
        "Key not found\u{1f600}",
    ];
    for text in texts {
        let found = text.contains("Key not found") || text.contains("NOT_FOUND");
        assert_eq!(is_not_found(&other(text)), found, "{:?}", text);
    }
}

#[test]
fn registry_errors_print_as_they_should() {
    assert_eq!(XlineRegistryError::TryAgain.message(), "try again");
    assert_eq!(
        XlineRegistryError::ConfigNotFound.message(),
        "flannel config not found in xline store. Did you create your config using etcdv3 API?"
    );
    assert_eq!(XlineRegistryError::NoWatchChannel.message(), "no watch channel");
    assert_eq!(XlineRegistryError::SubnetAlreadyExists.message(), "subnet already exists");
    assert_eq!(XlineRegistryError::Xline(other("down")).message(), "down");
    assert_eq!(XlineRegistryError::Io(IoErrorKind::Other, "io".to_string()).message(), "io");
    assert_eq!(XlineRegistryError::Tls("tls".to_string()).message(), "tls");
    assert_eq!(XlineRegistryError::Utf8("utf8".to_string()).message(), "utf8");
    assert_eq!(XlineRegistryError::Json("json".to_string()).message(), "json");
    assert_eq!(XlineRegistryError::Other("other".to_string()).message(), "other");
}

#[test]
fn manager_errors_print_as_they_should() {
    assert_eq!(ManagerError::Registry(XlineRegistryError::NoWatchChannel).message(), "no watch channel");
    assert_eq!(ManagerError::TryAgain.message(), "try again");
    assert_eq!(
        ManagerError::MaxRetries.message(),
        "max retries reached trying to acquire a subnet"
    );
    assert_eq!(ManagerError::MissingSubnetMin.message(), "Missing subnet_min");
    assert_eq!(ManagerError::MissingSubnetMax.message(), "Missing subnet_max");
    assert_eq!(
        ManagerError::InvalidSubnetStart(NetworkError::InvalidPrefix).message(),
        format!("Invalid subnet start: {}", ipnetwork::IpNetworkError::InvalidPrefix)
    );
    assert_eq!(
        ManagerError::InvalidIpv6SubnetStart(NetworkError::InvalidPrefix).message(),
        format!("Invalid IPv6 subnet start: {}", ipnetwork::IpNetworkError::InvalidPrefix)
    );
    assert_eq!(
        ManagerError::NoNextNetwork(NetworkError::PastLastAddress).message(),
        "no network past the last address"
    );
    assert_eq!(ManagerError::OutOfSubnets.message(), "out of subnets");
    assert_eq!(ManagerError::SubnetNotFound.message(), "subnet not found");
    assert_eq!(ManagerError::LeaseRevoked.message(), "Lease revoked");
    assert_eq!(ManagerError::WatchCanceled.message(), "Watch canceled");
}
