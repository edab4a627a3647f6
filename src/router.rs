use vstd::prelude::*;

use crate::lifecycle::LifecycleState;
use crate::paths::{has_prefix, starts_with};
use crate::policies::Operation;

verus! {

/// The lifecycle states in which a route may run.
#[derive(Clone, Copy, Debug, PartialEq, Eq, Structural)]
pub struct StateSet {
    pub uninitialized: bool,
    pub sealed: bool,
    pub unsealed: bool,
}

impl StateSet {
    pub open spec fn allows(self, s: LifecycleState) -> bool {
        match s {
            LifecycleState::Uninitialized => self.uninitialized,
            LifecycleState::Sealed => self.sealed,
            LifecycleState::Unsealed => self.unsealed,
        }
    }

    pub fn permits(&self, s: LifecycleState) -> (r: bool)
        ensures
            r == self.allows(s),
    {
        match s {
            LifecycleState::Uninitialized => self.uninitialized,
            LifecycleState::Sealed => self.sealed,
            LifecycleState::Unsealed => self.unsealed,
        }
    }

    pub open spec fn only(s: LifecycleState) -> StateSet {
        StateSet {
            uninitialized: s == LifecycleState::Uninitialized,
            sealed: s == LifecycleState::Sealed,
            unsealed: s == LifecycleState::Unsealed,
        }
    }
}

/// Whether a route needs an authenticated caller.
#[derive(Clone, Copy, Debug, PartialEq, Eq, Structural)]
pub enum AuthPolicy {
    Unauthenticated,
    Authenticated,
}

/// The operation a route runs.
#[derive(Clone, Copy, Debug, PartialEq, Eq, Structural)]
pub enum Handler {
    Init,
    Seal,
    Unseal,
    Status,
    ListMounts,
    Mount,
    TuneMount,
    DisableMount,
    UpsertPolicy,
    ListPolicies,
    DeletePolicy,
    RevokeToken,
    RevokeLease,
    RenewLease,
    LookupLease,
    RevokeLeasesByMount,
    ListLeases,
    CreateEntity,
    AttachEntityPolicy,
    RemoveEntityPolicy,
    AttachEntityAlias,
    RemoveEntityAlias,
}

/// A route: `path` is matched exactly, or as a prefix whose remainder is
/// captured when `wildcard` is set.
#[derive(Clone, Debug)]
pub struct Route {
    pub path: String,
    pub wildcard: bool,
    pub operation: Operation,
    pub states: StateSet,
    pub auth: AuthPolicy,
    pub handler: Handler,
}

pub open spec fn route_matches(r: Route, path: Seq<char>, op: Operation) -> bool {
    &&& r.operation == op
    &&& if r.wildcard {
        has_prefix(path, r.path@)
    } else {
        path == r.path@
    }
}

/// Whether route `i` of `rs` is the one that serves `path` and `op`: it
/// matches, an exact match wins over any wildcard, and among wildcards the
/// longest prefix wins (the first of equal length).
pub open spec fn best_route(rs: Seq<Route>, path: Seq<char>, op: Operation, i: int) -> bool {
    &&& 0 <= i < rs.len()
    &&& route_matches(rs[i], path, op)
    &&& rs[i].wildcard ==> forall|j: int|
        0 <= j < rs.len() && route_matches(#[trigger] rs[j], path, op) ==> rs[j].wildcard
            && rs[j].path@.len() <= rs[i].path@.len() && (j < i ==> rs[j].path@.len()
            < rs[i].path@.len())
    &&& !rs[i].wildcard ==> forall|j: int|
        0 <= j < i && route_matches(#[trigger] rs[j], path, op) ==> rs[j].wildcard
}

/// At most one route is the one that serves a path and operation.
pub proof fn best_route_unique(rs: Seq<Route>, path: Seq<char>, op: Operation, i: int, j: int)
    requires
        best_route(rs, path, op, i),
        best_route(rs, path, op, j),
    ensures
        i == j,
{
    if i < j {
        assert(route_matches(rs[i], path, op));
    } else if j < i {
        assert(route_matches(rs[j], path, op));
    }
}

/// The lifecycle and authorization gating that the route table is built with:
/// the lifecycle routes run unauthenticated in their own states, every other
/// route needs an authenticated caller on an unsealed vault.
pub open spec fn gated(r: Route) -> bool {
    match r.handler {
        Handler::Init => r.states == StateSet::only(LifecycleState::Uninitialized) && r.auth
            == AuthPolicy::Unauthenticated,
        Handler::Seal => r.states == StateSet::only(LifecycleState::Unsealed) && r.auth
            == AuthPolicy::Unauthenticated,
        Handler::Unseal => r.states == StateSet::only(LifecycleState::Sealed) && r.auth
            == AuthPolicy::Unauthenticated,
        Handler::Status => r.states == (StateSet {
            uninitialized: true,
            sealed: true,
            unsealed: true,
        }) && r.auth == AuthPolicy::Unauthenticated,
        _ => r.states == StateSet::only(LifecycleState::Unsealed) && r.auth
            == AuthPolicy::Authenticated,
    }
}

/// A request on `/init` is served by the route table's initialization route.
pub proof fn lemma_init_route(rs: Seq<Route>, path: Seq<char>, op: Operation)
    requires
        is_system_table(rs),
        path == "/init"@,
        op == Operation::Create || op == Operation::Update,
    ensures
        best_route(rs, path, op, if op == Operation::Create { 4 } else { 5 }),
        rs[if op == Operation::Create { 4 } else { 5 }].handler == Handler::Init,
{
    reveal_strlit("/init");
    reveal_strlit("/unseal");
    reveal_strlit("/seal");
    assert("/unseal"@.len() != path.len());
    assert("/seal"@[1] != path[1]);
    let k: int = if op == Operation::Create { 4 } else { 5 };
    assert(route_matches(rs[k], path, op));
    assert forall|j: int| 0 <= j < k && route_matches(#[trigger] rs[j], path, op) implies rs[j].wildcard by {
        assert(rs[j].path@ == route_table()[j].path);
    }
}

/// An exact route is the one that serves its own path when no earlier exact
/// route of the same verb has that path.
proof fn lemma_exact_best(rs: Seq<Route>, op: Operation, k: int)
    requires
        is_system_table(rs),
        0 <= k < rs.len(),
        !route_table()[k].wildcard,
        route_table()[k].operation == op,
        forall|j: int|
            0 <= j < k && (#[trigger] route_table()[j]).operation == op && !route_table()[j].wildcard
                ==> route_table()[j].path != route_table()[k].path,
    ensures
        best_route(rs, route_table()[k].path, op, k),
{
    let path = route_table()[k].path;
    assert forall|j: int| 0 <= j < k && route_matches(#[trigger] rs[j], path, op) implies rs[j].wildcard by {
        assert(rs[j].path@ == route_table()[j].path);
    }
}

/// A request on `/entity/policy` with `update` is served by the policy attach
/// route.
pub proof fn lemma_attach_policy_route(rs: Seq<Route>, path: Seq<char>)
    requires
        is_system_table(rs),
        path == "/entity/policy"@,
    ensures
        best_route(rs, path, Operation::Update, 22),
        rs[22].handler == Handler::AttachEntityPolicy,
{
    reveal_strlit("/entity/policy");
    reveal_strlit("/unseal");
    reveal_strlit("/seal");
    reveal_strlit("/init");
    reveal_strlit("/policies");
    assert("/unseal"@.len() != path.len());
    assert("/seal"@.len() != path.len());
    assert("/init"@.len() != path.len());
    assert("/policies"@.len() != path.len());
    lemma_exact_best(rs, Operation::Update, 22);
}

/// A request on `/unseal` with `update` is served by the unseal route.
pub proof fn lemma_unseal_route(rs: Seq<Route>, path: Seq<char>)
    requires
        is_system_table(rs),
        path == "/unseal"@,
    ensures
        best_route(rs, path, Operation::Update, 1),
        rs[1].handler == Handler::Unseal,
{
    reveal_strlit("/unseal");

    lemma_exact_best(rs, Operation::Update, 1);
}

/// A request on `/seal` with `update` is served by the seal route.
pub proof fn lemma_seal_route(rs: Seq<Route>, path: Seq<char>)
    requires
        is_system_table(rs),
        path == "/seal"@,
    ensures
        best_route(rs, path, Operation::Update, 3),
        rs[3].handler == Handler::Seal,
{
    reveal_strlit("/seal");
    reveal_strlit("/unseal");
    assert("/unseal"@.len() != path.len() || "/unseal"@[1] != path[1]);
    lemma_exact_best(rs, Operation::Update, 3);
}

/// A request on `/mounts` with `read` is served by the mount listing route.
pub proof fn lemma_mounts_list_route(rs: Seq<Route>, path: Seq<char>)
    requires
        is_system_table(rs),
        path == "/mounts"@,
    ensures
        best_route(rs, path, Operation::Read, 7),
        rs[7].handler == Handler::ListMounts,
{
    reveal_strlit("/mounts");
    reveal_strlit("/status");
    assert("/status"@.len() != path.len() || "/status"@[1] != path[1]);
    lemma_exact_best(rs, Operation::Read, 7);
}

/// A request on `/token/revoke` with `revoke` is served by the token revocation route.
pub proof fn lemma_revoke_token_route(rs: Seq<Route>, path: Seq<char>)
    requires
        is_system_table(rs),
        path == "/token/revoke"@,
    ensures
        best_route(rs, path, Operation::Revoke, 15),
        rs[15].handler == Handler::RevokeToken,
{
    reveal_strlit("/token/revoke");

    lemma_exact_best(rs, Operation::Revoke, 15);
}

/// A request on `/entity` with `create` is served by the entity creation route.
pub proof fn lemma_create_entity_route(rs: Seq<Route>, path: Seq<char>)
    requires
        is_system_table(rs),
        path == "/entity"@,
    ensures
        best_route(rs, path, Operation::Create, 21),
        rs[21].handler == Handler::CreateEntity,
{
    reveal_strlit("/entity");
    reveal_strlit("/unseal");
    reveal_strlit("/seal");
    reveal_strlit("/init");
    reveal_strlit("/policies");
    assert("/unseal"@.len() != path.len() || "/unseal"@[1] != path[1]);
    assert("/seal"@.len() != path.len() || "/seal"@[1] != path[1]);
    assert("/init"@.len() != path.len() || "/init"@[1] != path[1]);
    assert("/policies"@.len() != path.len() || "/policies"@[1] != path[1]);
    lemma_exact_best(rs, Operation::Create, 21);
}

/// A request on `/entity/alias` with `update` is served by the alias attach route.
pub proof fn lemma_attach_alias_route(rs: Seq<Route>, path: Seq<char>)
    requires
        is_system_table(rs),
        path == "/entity/alias"@,
    ensures
        best_route(rs, path, Operation::Update, 24),
        rs[24].handler == Handler::AttachEntityAlias,
{
    reveal_strlit("/entity/alias");
    reveal_strlit("/unseal");
    reveal_strlit("/seal");
    reveal_strlit("/init");
    reveal_strlit("/policies");
    reveal_strlit("/entity/policy");
    assert("/unseal"@.len() != path.len() || "/unseal"@[1] != path[1]);
    assert("/seal"@.len() != path.len() || "/seal"@[1] != path[1]);
    assert("/init"@.len() != path.len() || "/init"@[1] != path[1]);
    assert("/policies"@.len() != path.len() || "/policies"@[1] != path[1]);
    assert("/entity/policy"@.len() != path.len() || "/entity/policy"@[1] != path[1]);
    lemma_exact_best(rs, Operation::Update, 24);
}

/// A wildcard route is the one that serves a path it matches when no other
/// route of the same verb matches that path.
proof fn lemma_wildcard_best(rs: Seq<Route>, path: Seq<char>, op: Operation, k: int)
    requires
        is_system_table(rs),
        0 <= k < rs.len(),
        route_table()[k].wildcard,
        route_table()[k].operation == op,
        has_prefix(path, route_table()[k].path),
        forall|j: int|
            0 <= j < rs.len() && j != k && (#[trigger] route_table()[j]).operation == op ==> !(
            if route_table()[j].wildcard {
                has_prefix(path, route_table()[j].path)
            } else {
                path == route_table()[j].path
            }),
    ensures
        best_route(rs, path, op, k),
{
    assert forall|j: int| 0 <= j < rs.len() && route_matches(#[trigger] rs[j], path, op) implies j
        == k by {
        assert(rs[j].path@ == route_table()[j].path);
    }
}

/// A request with `delete` on a path under `/mounts/` is served by the mount
/// disable route.
pub proof fn lemma_disable_mount_route(rs: Seq<Route>, path: Seq<char>)
    requires
        is_system_table(rs),
        has_prefix(path, "/mounts/"@),
    ensures
        best_route(rs, path, Operation::Delete, 10),
        rs[10].handler == Handler::DisableMount,
{
    reveal_strlit("/mounts/");
    reveal_strlit("/policies/");
    assert(path[1] == "/mounts/"@[1]);
    assert(!has_prefix(path, "/policies/"@)) by {
        if has_prefix(path, "/policies/"@) {
            assert(path[1] == "/policies/"@[1]);
        }
    }
    lemma_wildcard_best(rs, path, Operation::Delete, 10);
}

/// Whether the handler reads a parameter from the rest of the path.
pub open spec fn takes_param(h: Handler) -> bool {
    h is Mount || h is TuneMount || h is DisableMount || h is DeletePolicy || h is RevokeLease
        || h is RenewLease || h is LookupLease || h is RevokeLeasesByMount || h is ListLeases
        || h is RemoveEntityPolicy || h is RemoveEntityAlias
}

/// The verbs under which the route table offers each handler.
pub open spec fn serves(h: Handler, op: Operation) -> bool {
    match h {
        Handler::Init | Handler::Seal | Handler::Unseal | Handler::UpsertPolicy => op
            == Operation::Create || op == Operation::Update,
        Handler::Status | Handler::ListMounts | Handler::ListPolicies | Handler::LookupLease
        | Handler::ListLeases => op == Operation::Read,
        Handler::Mount | Handler::CreateEntity => op == Operation::Create,
        Handler::DisableMount | Handler::DeletePolicy => op == Operation::Delete,
        Handler::RevokeToken => op == Operation::Revoke,
        _ => op == Operation::Update,
    }
}

/// One row of the administrative route table.
pub struct RouteEntry {
    pub path: Seq<char>,
    pub wildcard: bool,
    pub operation: Operation,
    pub handler: Handler,
}

/// The administrative route table: for each route its path (a prefix when
/// `wildcard` is set), its verb and its handler.
pub open spec fn route_table() -> Seq<RouteEntry> {
    seq![
        RouteEntry { path: "/unseal"@, wildcard: false, operation: Operation::Create, handler: Handler::Unseal },
        RouteEntry { path: "/unseal"@, wildcard: false, operation: Operation::Update, handler: Handler::Unseal },
        RouteEntry { path: "/seal"@, wildcard: false, operation: Operation::Create, handler: Handler::Seal },
        RouteEntry { path: "/seal"@, wildcard: false, operation: Operation::Update, handler: Handler::Seal },
        RouteEntry { path: "/init"@, wildcard: false, operation: Operation::Create, handler: Handler::Init },
        RouteEntry { path: "/init"@, wildcard: false, operation: Operation::Update, handler: Handler::Init },
        RouteEntry { path: "/status"@, wildcard: false, operation: Operation::Read, handler: Handler::Status },
        RouteEntry { path: "/mounts"@, wildcard: false, operation: Operation::Read, handler: Handler::ListMounts },
        RouteEntry { path: "/mounts/"@, wildcard: true, operation: Operation::Create, handler: Handler::Mount },
        RouteEntry { path: "/mounts/"@, wildcard: true, operation: Operation::Update, handler: Handler::TuneMount },
        RouteEntry { path: "/mounts/"@, wildcard: true, operation: Operation::Delete, handler: Handler::DisableMount },
        RouteEntry { path: "/policies"@, wildcard: false, operation: Operation::Update, handler: Handler::UpsertPolicy },
        RouteEntry { path: "/policies"@, wildcard: false, operation: Operation::Create, handler: Handler::UpsertPolicy },
        RouteEntry { path: "/policies"@, wildcard: false, operation: Operation::Read, handler: Handler::ListPolicies },
        RouteEntry { path: "/policies/"@, wildcard: true, operation: Operation::Delete, handler: Handler::DeletePolicy },
        RouteEntry { path: "/token/revoke"@, wildcard: false, operation: Operation::Revoke, handler: Handler::RevokeToken },
        RouteEntry { path: "/leases/revoke/"@, wildcard: true, operation: Operation::Update, handler: Handler::RevokeLease },
        RouteEntry { path: "/leases/renew/"@, wildcard: true, operation: Operation::Update, handler: Handler::RenewLease },
        RouteEntry { path: "/leases/lookup/"@, wildcard: true, operation: Operation::Read, handler: Handler::LookupLease },
        RouteEntry { path: "/leases/revoke-mount/"@, wildcard: true, operation: Operation::Update, handler: Handler::RevokeLeasesByMount },
        RouteEntry { path: "/leases/lookup-mount/"@, wildcard: true, operation: Operation::Read, handler: Handler::ListLeases },
        RouteEntry { path: "/entity"@, wildcard: false, operation: Operation::Create, handler: Handler::CreateEntity },
        RouteEntry { path: "/entity/policy"@, wildcard: false, operation: Operation::Update, handler: Handler::AttachEntityPolicy },
        RouteEntry { path: "/entity/policy/"@, wildcard: true, operation: Operation::Update, handler: Handler::RemoveEntityPolicy },
        RouteEntry { path: "/entity/alias"@, wildcard: false, operation: Operation::Update, handler: Handler::AttachEntityAlias },
        RouteEntry { path: "/entity/alias/"@, wildcard: true, operation: Operation::Update, handler: Handler::RemoveEntityAlias },
    ]
}

/// Whether `rs` is the administrative route table, with its gating.
pub open spec fn is_system_table(rs: Seq<Route>) -> bool {
    &&& rs.len() == route_table().len()
    &&& forall|i: int|
        0 <= i < rs.len() ==> {
            &&& gated(#[trigger] rs[i])
            &&& rs[i].path@ == route_table()[i].path
            &&& rs[i].wildcard == route_table()[i].wildcard
            &&& rs[i].operation == route_table()[i].operation
            &&& rs[i].handler == route_table()[i].handler
        }
}

fn route_matches_exec(r: &Route, path: &str, op: Operation) -> (m: bool)
    ensures
        m == route_matches(*r, path@, op),
{
    if r.operation != op {
        return false;
    }
    if r.wildcard {
        starts_with(path, r.path.as_str())
    } else {
        r.path.as_str().unicode_len() == path.unicode_len() && {
            let p = starts_with(path, r.path.as_str());
            proof {
                assert(path@ =~= path@.subrange(0, path@.len() as int));
            }
            p
        }
    }
}

/// Picks the route that serves `path` and `op`.
pub fn find_route(rs: &Vec<Route>, path: &str, op: Operation) -> (r: Option<usize>)
    ensures
        match r {
            Some(i) => best_route(rs@, path@, op, i as int),
            None => forall|j: int| 0 <= j < rs@.len() ==> !route_matches(#[trigger] rs@[j], path@, op),
        },
{
    let mut best: Option<usize> = None;
    let mut i: usize = 0;
    while i < rs.len()
        invariant
            i <= rs@.len(),
            match best {
                Some(b) => {
                    &&& b < i
                    &&& route_matches(rs@[b as int], path@, op)
                    &&& rs@[b as int].wildcard
                    &&& forall|j: int|
                        0 <= j < i && route_matches(#[trigger] rs@[j], path@, op) ==> rs@[j].wildcard
                            && rs@[j].path@.len() <= rs@[b as int].path@.len() && (j < b
                            ==> rs@[j].path@.len() < rs@[b as int].path@.len())
                },
                None => forall|j: int| 0 <= j < i ==> !route_matches(#[trigger] rs@[j], path@, op),
            },
        decreases rs@.len() - i,
    {
        if route_matches_exec(&rs[i], path, op) {
            if !rs[i].wildcard {
                return Some(i);
            }
            match best {
                Some(b) => {
                    if rs[b].path.as_str().unicode_len() < rs[i].path.as_str().unicode_len() {
                        best = Some(i);
                    }
                },
                None => {
                    best = Some(i);
                },
            }
        }
        i = i + 1;
    }
    best
}

fn route(
    path: &str,
    wildcard: bool,
    operation: Operation,
    states: StateSet,
    auth: AuthPolicy,
    handler: Handler,
) -> (r: Route)
    ensures
        r.path@ == path@,
        r.wildcard == wildcard,
        r.operation == operation,
        r.states == states,
        r.auth == auth,
        r.handler == handler,
{
    Route { path: path.to_owned(), wildcard, operation, states, auth, handler }
}

fn admin(path: &str, wildcard: bool, operation: Operation, handler: Handler) -> (r: Route)
    requires
        handler != Handler::Init && handler != Handler::Seal && handler != Handler::Unseal && handler
            != Handler::Status,
    ensures
        gated(r),
        r.path@ == path@,
        r.wildcard == wildcard,
        r.operation == operation,
        r.handler == handler,
{
    let states = StateSet { uninitialized: false, sealed: false, unsealed: true };
    route(path, wildcard, operation, states, AuthPolicy::Authenticated, handler)
}

/// The administrative route table.
pub fn system_routes() -> (rs: Vec<Route>)
    ensures
        is_system_table(rs@),
        forall|i: int|
            0 <= i < rs@.len() ==> rs@[i].wildcard == takes_param(#[trigger] rs@[i].handler)
                && serves(rs@[i].handler, rs@[i].operation),
{
    let only_sealed = StateSet { uninitialized: false, sealed: true, unsealed: false };
    let only_unsealed = StateSet { uninitialized: false, sealed: false, unsealed: true };
    let only_uninit = StateSet { uninitialized: true, sealed: false, unsealed: false };
    let all = StateSet { uninitialized: true, sealed: true, unsealed: true };
    let open = AuthPolicy::Unauthenticated;
    let mut rs: Vec<Route> = Vec::new();
    rs.push(route("/unseal", false, Operation::Create, only_sealed, open, Handler::Unseal));
    rs.push(route("/unseal", false, Operation::Update, only_sealed, open, Handler::Unseal));
    rs.push(route("/seal", false, Operation::Create, only_unsealed, open, Handler::Seal));
    rs.push(route("/seal", false, Operation::Update, only_unsealed, open, Handler::Seal));
    rs.push(route("/init", false, Operation::Create, only_uninit, open, Handler::Init));
    rs.push(route("/init", false, Operation::Update, only_uninit, open, Handler::Init));
    rs.push(route("/status", false, Operation::Read, all, open, Handler::Status));
    rs.push(admin("/mounts", false, Operation::Read, Handler::ListMounts));
    rs.push(admin("/mounts/", true, Operation::Create, Handler::Mount));
    rs.push(admin("/mounts/", true, Operation::Update, Handler::TuneMount));
    rs.push(admin("/mounts/", true, Operation::Delete, Handler::DisableMount));
    rs.push(admin("/policies", false, Operation::Update, Handler::UpsertPolicy));
    rs.push(admin("/policies", false, Operation::Create, Handler::UpsertPolicy));
    rs.push(admin("/policies", false, Operation::Read, Handler::ListPolicies));
    rs.push(admin("/policies/", true, Operation::Delete, Handler::DeletePolicy));
    rs.push(admin("/token/revoke", false, Operation::Revoke, Handler::RevokeToken));
    rs.push(admin("/leases/revoke/", true, Operation::Update, Handler::RevokeLease));
    rs.push(admin("/leases/renew/", true, Operation::Update, Handler::RenewLease));
    rs.push(admin("/leases/lookup/", true, Operation::Read, Handler::LookupLease));
    rs.push(admin("/leases/revoke-mount/", true, Operation::Update, Handler::RevokeLeasesByMount));
    rs.push(admin("/leases/lookup-mount/", true, Operation::Read, Handler::ListLeases));
    rs.push(admin("/entity", false, Operation::Create, Handler::CreateEntity));
    rs.push(admin("/entity/policy", false, Operation::Update, Handler::AttachEntityPolicy));
    rs.push(admin("/entity/policy/", true, Operation::Update, Handler::RemoveEntityPolicy));
    rs.push(admin("/entity/alias", false, Operation::Update, Handler::AttachEntityAlias));
    rs.push(admin("/entity/alias/", true, Operation::Update, Handler::RemoveEntityAlias));
    rs
}

} // verus!
