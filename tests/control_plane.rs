use covert_system::backend::{new_system_backend, Request, RequestBody, Response, SystemBackend};
use covert_system::entity_api::{
    AttachEntityAliasParams, AttachEntityPolicyParams, CreateEntityParams, RemoveEntityAliasParams,
    RemoveEntityPolicyParams,
};
use covert_system::error::ErrorKind;
use covert_system::identity::{EntityAlias, IdentityStore};
use covert_system::leases::LeaseManager;
use covert_system::lifecycle::{LifecycleState, UnsealProgress};
use covert_system::policies::{Operation, PathRule, Policy, PolicyStore};
use covert_system::tokens::TokenStore;

fn backend() -> SystemBackend {
    new_system_backend(
        TokenStore::new(),
        PolicyStore::new(),
        IdentityStore::new(),
        LeaseManager::new(),
    )
}

fn req(path: &str, operation: Operation, token: Option<u64>, body: RequestBody) -> Request {
    Request { path: path.to_string(), operation, token, body }
}

fn init(b: &mut SystemBackend, threshold: u64) -> u64 {
    match b.dispatch(req("/init", Operation::Update, None, RequestBody::Init { threshold })) {
        Ok(Response::Initialized { root_token }) => root_token,
        other => panic!("init failed: {:?}", other),
    }
}

fn unseal(b: &mut SystemBackend, share: u8) -> Result<Response, ErrorKind> {
    b.dispatch(req("/unseal", Operation::Update, None, RequestBody::Unseal { share: vec![share] }))
}

/// An initialized, unsealed vault and its root token.
fn ready() -> (SystemBackend, u64) {
    let mut b = backend();
    let root = init(&mut b, 1);
    assert!(matches!(unseal(&mut b, 7), Ok(Response::Unseal(UnsealProgress::Complete))));
    (b, root)
}

fn mount_count(b: &mut SystemBackend, root: u64) -> usize {
    match b.dispatch(req("/mounts", Operation::Read, Some(root), RequestBody::Empty)) {
        Ok(Response::Mounts(m)) => m.len(),
        other => panic!("list failed: {:?}", other),
    }
}

fn leases_under(b: &mut SystemBackend, root: u64, prefix: &str) -> Vec<u64> {
    let path = format!("/leases/lookup-mount/{}", prefix);
    match b.dispatch(req(&path, Operation::Read, Some(root), RequestBody::Empty)) {
        Ok(Response::LeaseIds(ids)) => ids,
        other => panic!("lease list failed: {:?}", other),
    }
}

fn lookup(b: &mut SystemBackend, root: u64, id: u64) -> Result<Response, ErrorKind> {
    let path = format!("/leases/lookup/{}", id);
    b.dispatch(req(&path, Operation::Read, Some(root), RequestBody::Empty))
}

#[test]
fn scenario_init_unseal_mount_disable() {
    let mut b = backend();
    assert_eq!(b.lifecycle.current(), LifecycleState::Uninitialized);
    let root = init(&mut b, 1);
    assert_eq!(b.lifecycle.current(), LifecycleState::Sealed);
    let r = b.dispatch(req("/mounts", Operation::Read, Some(root), RequestBody::Empty));
    assert_eq!(r.unwrap_err(), ErrorKind::InvalidState);
    assert!(matches!(unseal(&mut b, 1), Ok(Response::Unseal(UnsealProgress::Complete))));
    assert_eq!(b.lifecycle.current(), LifecycleState::Unsealed);
    assert_eq!(mount_count(&mut b, root), 0);
    let body = RequestBody::Mount { backend: "kv".to_string(), config: String::new() };
    let r = b.dispatch(req("/mounts/kv/", Operation::Create, Some(root), body));
    assert!(matches!(r, Ok(Response::Done)));
    match b.dispatch(req("/mounts", Operation::Read, Some(root), RequestBody::Empty)) {
        Ok(Response::Mounts(m)) => {
            assert_eq!(m.len(), 1);
            assert_eq!(m[0].path, "kv/");
            assert_eq!(m[0].backend, "kv");
            assert!(m[0].enabled);
        }
        other => panic!("list failed: {:?}", other),
    }
    let body = RequestBody::Sweep { unreleased: vec![] };
    let r = b.dispatch(req("/mounts/kv/", Operation::Delete, Some(root), body));
    assert!(matches!(r, Ok(Response::Done)));
    assert!(leases_under(&mut b, root, "kv/").is_empty());
    match b.dispatch(req("/mounts", Operation::Read, Some(root), RequestBody::Empty)) {
        Ok(Response::Mounts(m)) => {
            assert_eq!(m.len(), 1);
            assert!(!m[0].enabled);
        }
        other => panic!("list failed: {:?}", other),
    }
}

#[test]
fn scenario_entity_policy_and_alias() {
    let (mut b, root) = ready();
    let body = RequestBody::CreateEntity(CreateEntityParams { name: "alice".to_string() });
    match b.dispatch(req("/entity", Operation::Create, Some(root), body)) {
        Ok(Response::EntityCreated(resp)) => {
            assert_eq!(resp.entity.name, "alice");
            assert!(!resp.entity.disabled);
        }
        other => panic!("create failed: {:?}", other),
    }
    let body = RequestBody::AttachEntityPolicy(AttachEntityPolicyParams {
        name: "alice".to_string(),
        policy_names: vec!["reader".to_string()],
    });
    match b.dispatch(req("/entity/policy", Operation::Update, Some(root), body)) {
        Ok(Response::PoliciesAttached(resp)) => assert_eq!(resp.policy_names, vec!["reader".to_string()]),
        other => panic!("attach failed: {:?}", other),
    }
    let alias = EntityAlias { name: "alice".to_string(), mount_path: "userpass".to_string() };
    let body = RequestBody::AttachEntityAlias(AttachEntityAliasParams {
        name: "alice".to_string(),
        aliases: vec![alias],
    });
    match b.dispatch(req("/entity/alias", Operation::Update, Some(root), body)) {
        Ok(Response::AliasesAttached(resp)) => assert_eq!(resp.aliases.len(), 1),
        other => panic!("alias failed: {:?}", other),
    }
    let body = RequestBody::RemoveEntityPolicy(RemoveEntityPolicyParams { policy_name: "reader".to_string() });
    match b.dispatch(req("/entity/policy/alice", Operation::Update, Some(root), body)) {
        Ok(Response::PolicyRemoved(resp)) => assert_eq!(resp.policy_name, "reader"),
        other => panic!("remove failed: {:?}", other),
    }
    let name = "alice".to_string();
    assert!(b.identity.entity_policies(&name).unwrap().is_empty());
    let aliases = b.identity.entity_aliases(&name).unwrap();
    assert_eq!(aliases.len(), 1);
    assert_eq!(aliases[0].name, "alice");
    assert_eq!(aliases[0].mount_path, "userpass");
}

#[test]
fn wrong_state_is_rejected_without_change() {
    let mut b = backend();
    let r = b.dispatch(req("/seal", Operation::Update, None, RequestBody::Empty));
    assert_eq!(r.unwrap_err(), ErrorKind::InvalidState);
    let r = unseal(&mut b, 1);
    assert_eq!(r.unwrap_err(), ErrorKind::InvalidState);
    assert_eq!(b.lifecycle.current(), LifecycleState::Uninitialized);
    let r = b.dispatch(req("/mounts/kv/", Operation::Create, None, RequestBody::Empty));
    assert_eq!(r.unwrap_err(), ErrorKind::InvalidState);
    let status = b.lifecycle.status();
    assert!(!status.initialized);
    assert_eq!(status.threshold, 0);
}

fn status_state(b: &mut SystemBackend) -> LifecycleState {
    match b.dispatch(req("/status", Operation::Read, None, RequestBody::Empty)) {
        Ok(Response::Status(s)) => s.state,
        other => panic!("status failed: {:?}", other),
    }
}

#[test]
fn status_is_served_in_every_state() {
    let mut b = backend();
    assert_eq!(status_state(&mut b), LifecycleState::Uninitialized);
    init(&mut b, 1);
    assert_eq!(status_state(&mut b), LifecycleState::Sealed);
    unseal(&mut b, 1).unwrap();
    assert_eq!(status_state(&mut b), LifecycleState::Unsealed);
}

#[test]
fn init_succeeds_only_once() {
    let mut b = backend();
    init(&mut b, 1);
    let r = b.dispatch(req("/init", Operation::Create, None, RequestBody::Init { threshold: 1 }));
    assert_eq!(r.unwrap_err(), ErrorKind::InvalidState);
    assert!(matches!(unseal(&mut b, 1), Ok(_)));
    let r = b.dispatch(req("/init", Operation::Update, None, RequestBody::Init { threshold: 1 }));
    assert_eq!(r.unwrap_err(), ErrorKind::InvalidState);
    assert_eq!(b.lifecycle.current(), LifecycleState::Unsealed);
}

#[test]
fn init_with_zero_threshold_is_invalid_input() {
    let mut b = backend();
    let r = b.dispatch(req("/init", Operation::Update, None, RequestBody::Init { threshold: 0 }));
    assert_eq!(r.unwrap_err(), ErrorKind::InvalidInput);
    assert_eq!(b.lifecycle.current(), LifecycleState::Uninitialized);
}

#[test]
fn unseal_below_threshold_stays_sealed() {
    let mut b = backend();
    init(&mut b, 3);
    assert!(matches!(
        unseal(&mut b, 1),
        Ok(Response::Unseal(UnsealProgress::Pending { progress: 1, threshold: 3 }))
    ));
    assert!(matches!(
        unseal(&mut b, 2),
        Ok(Response::Unseal(UnsealProgress::Pending { progress: 2, threshold: 3 }))
    ));
    assert_eq!(b.lifecycle.current(), LifecycleState::Sealed);
    assert!(matches!(unseal(&mut b, 3), Ok(Response::Unseal(UnsealProgress::Complete))));
    assert_eq!(b.lifecycle.current(), LifecycleState::Unsealed);
    assert_eq!(b.lifecycle.status().progress, 0);
    let r = b.dispatch(req("/seal", Operation::Create, None, RequestBody::Empty));
    assert!(matches!(r, Ok(Response::Done)));
    assert_eq!(b.lifecycle.current(), LifecycleState::Sealed);
    assert!(matches!(
        unseal(&mut b, 4),
        Ok(Response::Unseal(UnsealProgress::Pending { progress: 1, threshold: 3 }))
    ));
}

#[test]
fn empty_share_is_invalid_input() {
    let mut b = backend();
    init(&mut b, 2);
    let r = b.dispatch(req("/unseal", Operation::Update, None, RequestBody::Unseal { share: vec![] }));
    assert_eq!(r.unwrap_err(), ErrorKind::InvalidInput);
    assert_eq!(b.lifecycle.status().progress, 0);
}

#[test]
fn disable_mount_revokes_its_leases() {
    let (mut b, root) = ready();
    for path in ["kv/", "db/"] {
        let body = RequestBody::Mount { backend: "kv".to_string(), config: String::new() };
        let r = b.dispatch(req(&format!("/mounts/{}", path), Operation::Create, Some(root), body));
        assert!(matches!(r, Ok(Response::Done)));
    }
    let a = b.leases.issue(root, "kv/".to_string(), 60, true, 0).unwrap();
    let c = b.leases.issue(root, "kv/creds".to_string(), 60, true, 0).unwrap();
    let d = b.leases.issue(root, "db/".to_string(), 60, true, 0).unwrap();
    assert_eq!(leases_under(&mut b, root, "kv/"), vec![a, c]);
    let r = b.dispatch(req("/mounts/kv/", Operation::Delete, Some(root), RequestBody::Empty));
    assert!(matches!(r, Ok(Response::Done)));
    assert!(leases_under(&mut b, root, "kv/").is_empty());
    assert_eq!(lookup(&mut b, root, a).unwrap_err(), ErrorKind::NotFound);
    assert_eq!(leases_under(&mut b, root, "db/"), vec![d]);
    let r = b.dispatch(req("/mounts/kv/", Operation::Delete, Some(root), RequestBody::Empty));
    assert_eq!(r.unwrap_err(), ErrorKind::NotFound);
}

#[test]
fn disable_mount_keeps_leases_whose_release_failed() {
    let (mut b, root) = ready();
    let body = RequestBody::Mount { backend: "kv".to_string(), config: String::new() };
    b.dispatch(req("/mounts/kv/", Operation::Create, Some(root), body)).unwrap();
    let a = b.leases.issue(root, "kv/".to_string(), 60, true, 0).unwrap();
    let c = b.leases.issue(root, "kv/".to_string(), 60, true, 0).unwrap();
    let body = RequestBody::Sweep { unreleased: vec![c] };
    let r = b.dispatch(req("/mounts/kv/", Operation::Delete, Some(root), body));
    assert_eq!(r.unwrap_err(), ErrorKind::Internal);
    assert_eq!(leases_under(&mut b, root, "kv/"), vec![c]);
    assert_eq!(lookup(&mut b, root, a).unwrap_err(), ErrorKind::NotFound);
    assert_eq!(mount_count(&mut b, root), 1);
}

#[test]
fn revoke_token_revokes_owned_leases_and_is_idempotent() {
    let (mut b, root) = ready();
    let user = b.tokens.issue(None, vec![]).unwrap();
    let l1 = b.leases.issue(user, "kv/".to_string(), 60, true, 0).unwrap();
    let l2 = b.leases.issue(user, "db/".to_string(), 60, false, 0).unwrap();
    let other = b.leases.issue(root, "kv/".to_string(), 60, true, 0).unwrap();
    for _ in 0..2 {
        let body = RequestBody::RevokeToken { token: user, unreleased: vec![] };
        let r = b.dispatch(req("/token/revoke", Operation::Revoke, Some(root), body));
        assert!(matches!(r, Ok(Response::Done)));
        assert_eq!(lookup(&mut b, root, l1).unwrap_err(), ErrorKind::NotFound);
        assert_eq!(lookup(&mut b, root, l2).unwrap_err(), ErrorKind::NotFound);
        assert!(b.tokens.lookup(user).is_none());
    }
    assert!(matches!(lookup(&mut b, root, other), Ok(Response::Lease(l)) if l.id == other));
}

#[test]
fn revoke_token_keeps_token_while_a_release_fails() {
    let (mut b, _) = ready();
    let user = b.tokens.issue(None, vec![]).unwrap();
    let l1 = b.leases.issue(user, "kv/".to_string(), 60, true, 0).unwrap();
    let r = b.revoke_token(user, &vec![l1]);
    assert_eq!(r.unwrap_err(), ErrorKind::Internal);
    assert!(b.tokens.lookup(user).is_some());
    assert!(b.revoke_token(user, &vec![]).is_ok());
    assert!(b.tokens.lookup(user).is_none());
}

#[test]
fn attaching_a_policy_twice_is_deduplicated() {
    let mut ids = IdentityStore::new();
    ids.create("e".to_string()).unwrap();
    let name = "e".to_string();
    let first = ids.attach_policies(&name, &vec!["p".to_string()]).unwrap();
    let second = ids.attach_policies(&name, &vec!["p".to_string()]).unwrap();
    assert_eq!(first, vec!["p".to_string()]);
    assert_eq!(second, first);
    let both = ids.attach_policies(&name, &vec!["q".to_string(), "p".to_string(), "q".to_string()]).unwrap();
    assert_eq!(both, vec!["p".to_string(), "q".to_string()]);
}

#[test]
fn alias_bound_elsewhere_conflicts() {
    let mut ids = IdentityStore::new();
    ids.create("a".to_string()).unwrap();
    ids.create("b".to_string()).unwrap();
    let alias = EntityAlias { name: "x".to_string(), mount_path: "userpass".to_string() };
    ids.attach_aliases(&"a".to_string(), &vec![alias.clone()]).unwrap();
    let r = ids.attach_aliases(&"b".to_string(), &vec![alias.clone()]);
    assert_eq!(r.unwrap_err(), ErrorKind::Conflict);
    assert_eq!(ids.entity_aliases(&"a".to_string()).unwrap().len(), 1);
    assert!(ids.entity_aliases(&"b".to_string()).unwrap().is_empty());
    let again = ids.attach_aliases(&"a".to_string(), &vec![alias]).unwrap();
    assert_eq!(again.len(), 1);
}

#[test]
fn entity_errors() {
    let mut ids = IdentityStore::new();
    ids.create("a".to_string()).unwrap();
    assert_eq!(ids.create("a".to_string()).unwrap_err(), ErrorKind::Conflict);
    assert_eq!(ids.create(String::new()).unwrap_err(), ErrorKind::InvalidInput);
    let r = ids.attach_policies(&"zz".to_string(), &vec!["p".to_string()]);
    assert_eq!(r.unwrap_err(), ErrorKind::NotFound);
    let r = ids.remove_policy(&"a".to_string(), "absent".to_string());
    assert_eq!(r.unwrap(), "absent");
    let alias = EntityAlias { name: "x".to_string(), mount_path: "m".to_string() };
    assert_eq!(ids.remove_alias(&"a".to_string(), alias).unwrap().name, "x");
}

#[test]
fn remove_alias_through_route() {
    let (mut b, root) = ready();
    b.identity.create("bob".to_string()).unwrap();
    let alias = EntityAlias { name: "bob".to_string(), mount_path: "userpass".to_string() };
    b.identity.attach_aliases(&"bob".to_string(), &vec![alias.clone()]).unwrap();
    let body = RequestBody::RemoveEntityAlias(RemoveEntityAliasParams { alias });
    let r = b.dispatch(req("/entity/alias/bob", Operation::Update, Some(root), body));
    assert!(matches!(r, Ok(Response::AliasRemoved(_))));
    assert!(b.identity.entity_aliases(&"bob".to_string()).unwrap().is_empty());
}

#[test]
fn unknown_route_is_not_found() {
    let (mut b, root) = ready();
    let r = b.dispatch(req("/nowhere", Operation::Read, Some(root), RequestBody::Empty));
    assert_eq!(r.unwrap_err(), ErrorKind::NotFound);
    let r = b.dispatch(req("/mounts", Operation::Delete, Some(root), RequestBody::Empty));
    assert_eq!(r.unwrap_err(), ErrorKind::NotFound);
}

#[test]
fn authorization_gate() {
    let (mut b, root) = ready();
    let r = b.dispatch(req("/mounts", Operation::Read, None, RequestBody::Empty));
    assert_eq!(r.unwrap_err(), ErrorKind::PermissionDenied);
    let r = b.dispatch(req("/mounts", Operation::Read, Some(9999), RequestBody::Empty));
    assert_eq!(r.unwrap_err(), ErrorKind::PermissionDenied);
    let reader = Policy {
        name: "reader".to_string(),
        rules: vec![PathRule { path: "/mounts".to_string(), glob: false, capabilities: vec![Operation::Read] }],
    };
    b.dispatch(req("/policies", Operation::Create, Some(root), RequestBody::Policy(reader))).unwrap();
    b.identity.create("carol".to_string()).unwrap();
    b.identity.attach_policies(&"carol".to_string(), &vec!["reader".to_string()]).unwrap();
    let t = b.tokens.issue(Some("carol".to_string()), vec![]).unwrap();
    assert!(b.dispatch(req("/mounts", Operation::Read, Some(t), RequestBody::Empty)).is_ok());
    let body = RequestBody::Mount { backend: "kv".to_string(), config: String::new() };
    let r = b.dispatch(req("/mounts/kv/", Operation::Create, Some(t), body));
    assert_eq!(r.unwrap_err(), ErrorKind::PermissionDenied);
    assert_eq!(mount_count(&mut b, root), 0);
    b.dispatch(req("/policies/reader", Operation::Delete, Some(root), RequestBody::Empty)).unwrap();
    let r = b.dispatch(req("/mounts", Operation::Read, Some(t), RequestBody::Empty));
    assert_eq!(r.unwrap_err(), ErrorKind::PermissionDenied);
}

#[test]
fn mount_conflict_and_tune() {
    let (mut b, root) = ready();
    let body = || RequestBody::Mount { backend: "kv".to_string(), config: "a".to_string() };
    b.dispatch(req("/mounts/kv/", Operation::Create, Some(root), body())).unwrap();
    let r = b.dispatch(req("/mounts/kv/", Operation::Create, Some(root), body()));
    assert_eq!(r.unwrap_err(), ErrorKind::Conflict);
    let tune = RequestBody::Tune { config: "b".to_string() };
    b.dispatch(req("/mounts/kv/", Operation::Update, Some(root), tune)).unwrap();
    assert_eq!(b.mounts.list()[0].config, "b");
    let tune = RequestBody::Tune { config: "c".to_string() };
    let r = b.dispatch(req("/mounts/none/", Operation::Update, Some(root), tune));
    assert_eq!(r.unwrap_err(), ErrorKind::NotFound);
    b.dispatch(req("/mounts/kv/", Operation::Delete, Some(root), RequestBody::Empty)).unwrap();
    b.dispatch(req("/mounts/kv/", Operation::Create, Some(root), body())).unwrap();
    assert_eq!(mount_count(&mut b, root), 2);
}

#[test]
fn lease_renew_and_revoke() {
    let (mut b, root) = ready();
    let a = b.leases.issue(root, "kv/".to_string(), 100, true, 10).unwrap();
    let n = b.leases.issue(root, "kv/".to_string(), 100, false, 10).unwrap();
    let body = RequestBody::Renew { increment: 30, now: 50 };
    let r = b.dispatch(req(&format!("/leases/renew/{}", a), Operation::Update, Some(root), body));
    assert!(matches!(r, Ok(Response::Renewed { expires_at: 80 })));
    let body = RequestBody::Renew { increment: 500, now: 50 };
    let r = b.dispatch(req(&format!("/leases/renew/{}", a), Operation::Update, Some(root), body));
    assert!(matches!(r, Ok(Response::Renewed { expires_at: 150 })));
    let body = RequestBody::Renew { increment: 5, now: 50 };
    let r = b.dispatch(req(&format!("/leases/renew/{}", n), Operation::Update, Some(root), body));
    assert_eq!(r.unwrap_err(), ErrorKind::InvalidInput);
    let body = RequestBody::RevokeLease { released: false };
    let r = b.dispatch(req(&format!("/leases/revoke/{}", a), Operation::Update, Some(root), body));
    assert_eq!(r.unwrap_err(), ErrorKind::Internal);
    assert!(lookup(&mut b, root, a).is_ok());
    let body = RequestBody::RevokeLease { released: true };
    let r = b.dispatch(req(&format!("/leases/revoke/{}", a), Operation::Update, Some(root), body));
    assert!(r.is_ok());
    assert_eq!(lookup(&mut b, root, a).unwrap_err(), ErrorKind::NotFound);
    let r = b.dispatch(req("/leases/lookup/abc", Operation::Read, Some(root), RequestBody::Empty));
    assert_eq!(r.unwrap_err(), ErrorKind::InvalidInput);
}

#[test]
fn lease_sweeps() {
    let mut m = LeaseManager::new();
    let a = m.issue(1, "kv/".to_string(), 10, true, 0).unwrap();
    let c = m.issue(1, "kv/".to_string(), 30, true, 0).unwrap();
    assert_eq!(m.issue(1, "kv/".to_string(), u64::MAX, true, 1).unwrap_err(), ErrorKind::InvalidInput);
    assert!(m.revoke_matching(&covert_system::leases::LeaseSelector::ExpiredAt(20), &vec![]).is_ok());
    assert!(m.lookup(a).is_err());
    assert_eq!(m.lookup(c).unwrap().expires_at, 30);
    assert!(m.revoke_matching(&covert_system::leases::LeaseSelector::MountPrefix("zz".to_string()), &vec![]).is_ok());
    assert_eq!(m.revoke(a, true).unwrap_err(), ErrorKind::NotFound);
}

#[test]
fn policies_upsert_and_list() {
    let mut p = PolicyStore::new();
    let pol = |rule: &str| Policy {
        name: "p".to_string(),
        rules: vec![PathRule { path: rule.to_string(), glob: true, capabilities: vec![Operation::Read] }],
    };
    p.upsert(pol("/a")).unwrap();
    p.upsert(pol("/b")).unwrap();
    assert_eq!(p.names(), vec!["p".to_string()]);
    assert!(p.grants(&vec!["p".to_string()], "/b/x", Operation::Read));
    assert!(!p.grants(&vec!["p".to_string()], "/a/x", Operation::Read));
    assert!(!p.grants(&vec!["p".to_string()], "/b/x", Operation::Update));
    assert!(!p.grants(&vec!["q".to_string()], "/b/x", Operation::Read));
    assert_eq!(p.delete(&"q".to_string()).unwrap_err(), ErrorKind::NotFound);
    let unnamed = Policy { name: String::new(), rules: vec![] };
    assert_eq!(p.upsert(unnamed).unwrap_err(), ErrorKind::InvalidInput);
}

#[test]
fn policy_routes_list_and_delete() {
    let (mut b, root) = ready();
    let p = Policy { name: "ops".to_string(), rules: vec![] };
    b.dispatch(req("/policies", Operation::Update, Some(root), RequestBody::Policy(p))).unwrap();
    match b.dispatch(req("/policies", Operation::Read, Some(root), RequestBody::Empty)) {
        Ok(Response::PolicyNames(n)) => assert_eq!(n, vec!["root".to_string(), "ops".to_string()]),
        other => panic!("list failed: {:?}", other),
    }
    let r = b.dispatch(req("/policies/ops", Operation::Delete, Some(root), RequestBody::Empty));
    assert!(matches!(r, Ok(Response::Done)));
    let r = b.dispatch(req("/policies/ops", Operation::Delete, Some(root), RequestBody::Empty));
    assert_eq!(r.unwrap_err(), ErrorKind::NotFound);
}

#[test]
fn revoke_by_mount_prefix_route() {
    let (mut b, root) = ready();
    let a = b.leases.issue(root, "kv/a".to_string(), 60, true, 0).unwrap();
    let c = b.leases.issue(root, "kv/b".to_string(), 60, true, 0).unwrap();
    let d = b.leases.issue(root, "pki/".to_string(), 60, true, 0).unwrap();
    let body = RequestBody::Sweep { unreleased: vec![c] };
    let r = b.dispatch(req("/leases/revoke-mount/kv/", Operation::Update, Some(root), body));
    assert_eq!(r.unwrap_err(), ErrorKind::Internal);
    assert_eq!(leases_under(&mut b, root, "kv/"), vec![c]);
    let body = RequestBody::Sweep { unreleased: vec![] };
    let r = b.dispatch(req("/leases/revoke-mount/kv/", Operation::Update, Some(root), body));
    assert!(matches!(r, Ok(Response::Done)));
    assert!(leases_under(&mut b, root, "kv/").is_empty());
    assert_eq!(lookup(&mut b, root, a).unwrap_err(), ErrorKind::NotFound);
    assert_eq!(leases_under(&mut b, root, ""), vec![d]);
    let body = RequestBody::Sweep { unreleased: vec![] };
    let r = b.dispatch(req("/leases/revoke-mount/none/", Operation::Update, Some(root), body));
    assert!(matches!(r, Ok(Response::Done)));
}

#[test]
fn passive_expiration_keeps_unreleased_leases() {
    let mut m = LeaseManager::new();
    let a = m.issue(1, "kv/".to_string(), 10, true, 0).unwrap();
    let c = m.issue(1, "kv/".to_string(), 10, true, 0).unwrap();
    let d = m.issue(1, "kv/".to_string(), 50, true, 0).unwrap();
    assert_eq!(m.expire(10, &vec![c]).unwrap_err(), ErrorKind::Internal);
    assert!(m.lookup(a).is_err());
    assert_eq!(m.lookup(c).unwrap().id, c);
    assert!(m.expire(10, &vec![]).is_ok());
    assert!(m.lookup(c).is_err());
    assert_eq!(m.lookup(d).unwrap().expires_at, 50);
}

#[test]
fn route_table_has_every_administrative_route() {
    let b = backend();
    assert_eq!(b.routes.len(), 26);
    assert_eq!(b.routes[4].path, "/init");
    assert_eq!(b.routes[15].path, "/token/revoke");
}
