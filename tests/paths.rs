use covert_system::error::ErrorKind;
use covert_system::paths::{parse_u64, starts_with, suffix_from};
use covert_system::policies::Operation;
use covert_system::router::{find_route, system_routes, Handler};

#[test]
fn parse_decimal_ids() {
    assert_eq!(parse_u64("0"), Some(0));
    assert_eq!(parse_u64("0042"), Some(42));
    assert_eq!(parse_u64("18446744073709551615"), Some(u64::MAX));
    assert_eq!(parse_u64("18446744073709551616"), None);
    assert_eq!(parse_u64(""), None);
    assert_eq!(parse_u64("4a"), None);
}

#[test]
fn prefixes() {
    assert!(starts_with("kv/creds", "kv/"));
    assert!(starts_with("kv/", ""));
    assert!(!starts_with("kv", "kv/"));
    assert!(!starts_with("db/", "kv/"));
    assert_eq!(suffix_from("/mounts/kv/", 8), "kv/");
}

#[test]
fn exact_route_wins_over_wildcard() {
    let rs = system_routes();
    let i = find_route(&rs, "/entity/policy", Operation::Update).unwrap();
    assert_eq!(rs[i].handler, Handler::AttachEntityPolicy);
    let i = find_route(&rs, "/entity/policy/alice", Operation::Update).unwrap();
    assert_eq!(rs[i].handler, Handler::RemoveEntityPolicy);
    let i = find_route(&rs, "/leases/revoke-mount/kv/", Operation::Update).unwrap();
    assert_eq!(rs[i].handler, Handler::RevokeLeasesByMount);
    let i = find_route(&rs, "/leases/revoke/12", Operation::Update).unwrap();
    assert_eq!(rs[i].handler, Handler::RevokeLease);
    assert!(find_route(&rs, "/status", Operation::Update).is_none());
}

#[test]
fn every_error_kind_has_a_message() {
    for k in [
        ErrorKind::InvalidState,
        ErrorKind::PermissionDenied,
        ErrorKind::NotFound,
        ErrorKind::Conflict,
        ErrorKind::InvalidInput,
        ErrorKind::Internal,
    ] {
        assert!(!k.message().is_empty());
    }
    assert_eq!(ErrorKind::NotFound.message(), "not found");
}
