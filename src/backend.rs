use vstd::prelude::*;

use crate::entity_api::{
    AttachEntityAliasParams, AttachEntityAliasResponse, AttachEntityPolicyParams,
    AttachEntityPolicyResponse, CreateEntityParams, CreateEntityResponse, RemoveEntityAliasParams,
    RemoveEntityAliasResponse, RemoveEntityPolicyParams, RemoveEntityPolicyResponse,
};
use crate::error::ErrorKind;
use crate::identity::{alias_keys, has_entity, index_of, str_views, EntityModel, IdentityStore};
use crate::leases::{
    first_with_id, holds_id, renew_post, revoke_post, survives, Lease, LeaseManager, LeaseSelector,
};
use crate::lifecycle::{LifecycleHolder, LifecycleState, StatusReport, UnsealProgress};
use crate::mounts::{enabled_at, has_enabled, Mount, MountTable};
use crate::paths::{has_prefix, parse_u64, suffix_from, u64_of};
use crate::policies::{
    has_policy, names_grant, policy_grants, policy_index, rule_grants, Operation, PathRule, Policy,
    PolicyStore,
};
use crate::router::{
    best_route, find_route, gated, is_system_table, lemma_attach_alias_route,
    lemma_attach_policy_route, lemma_disable_mount_route, lemma_init_route, lemma_revoke_token_route,
    lemma_seal_route, lemma_unseal_route, route_matches, system_routes, AuthPolicy, Handler, Route,
};
use crate::tokens::{has_token, token_at, Token, TokenStore};

verus! {

broadcast use vstd::seq_lib::group_filter_ensures;

/// The body of a request, by handler.
pub enum RequestBody {
    Empty,
    Init { threshold: u64 },
    Unseal { share: Vec<u8> },
    Mount { backend: String, config: String },
    Tune { config: String },
    Policy(Policy),
    /// Revokes `token`; `unreleased` lists the leases whose engines failed to
    /// release their resources.
    RevokeToken { token: u64, unreleased: Vec<u64> },
    /// Whether the engine released the lease's resource.
    RevokeLease { released: bool },
    Renew { increment: u64, now: u64 },
    /// A cascading sweep; `unreleased` as for `RevokeToken`.
    Sweep { unreleased: Vec<u64> },
    CreateEntity(CreateEntityParams),
    AttachEntityPolicy(AttachEntityPolicyParams),
    RemoveEntityPolicy(RemoveEntityPolicyParams),
    AttachEntityAlias(AttachEntityAliasParams),
    RemoveEntityAlias(RemoveEntityAliasParams),
}

/// An inbound request: the path, the verb, the caller's token and the body.
pub struct Request {
    pub path: String,
    pub operation: Operation,
    pub token: Option<u64>,
    pub body: RequestBody,
}

/// What a handler returns.
#[derive(Debug)]
pub enum Response {
    Initialized { root_token: u64 },
    Status(StatusReport),
    Unseal(UnsealProgress),
    Done,
    Mounts(Vec<Mount>),
    PolicyNames(Vec<String>),
    Lease(Lease),
    LeaseIds(Vec<u64>),
    Renewed { expires_at: u64 },
    EntityCreated(CreateEntityResponse),
    PoliciesAttached(AttachEntityPolicyResponse),
    PolicyRemoved(RemoveEntityPolicyResponse),
    AliasesAttached(AttachEntityAliasResponse),
    AliasRemoved(RemoveEntityAliasResponse),
}

/// The control plane: the route table, the lifecycle state and the stores.
pub struct SystemBackend {
    /// The route table, built once.
    pub routes: Vec<Route>,
    pub lifecycle: LifecycleHolder,
    pub mounts: MountTable,
    pub policies: PolicyStore,
    pub tokens: TokenStore,
    pub identity: IdentityStore,
    pub leases: LeaseManager,
}

/// Whether token `t` is granted `op` on `path`, through its own policies or
/// those of its entity.
pub open spec fn token_grants(
    b: SystemBackend,
    t: Token,
    path: Seq<char>,
    op: Operation,
) -> bool {
    ||| names_grant(b.policies.policies(), str_views(t.policies@), path, op)
    ||| match t.entity {
        Some(e) => exists|k: int|
            index_of(b.identity.model(), e@, k) && names_grant(
                b.policies.policies(),
                b.identity.model()[k].policies,
                path,
                op,
            ),
        None => false,
    }
}

/// Whether the caller holding `token` may perform `op` on `path`.
pub open spec fn authorized(b: SystemBackend, token: Option<u64>, path: Seq<char>, op: Operation) -> bool {
    match token {
        Some(id) => exists|i: int|
            token_at(b.tokens.tokens(), id, i) && token_grants(b, b.tokens.tokens()[i], path, op),
        None => false,
    }
}

/// Whether the token `id` is granted every operation on every path.
pub open spec fn grants_everything(b: SystemBackend, id: u64) -> bool {
    exists|i: int|
        token_at(b.tokens.tokens(), id, i) && forall|path: Seq<char>, op: Operation|
            #[trigger] token_grants(b, b.tokens.tokens()[i], path, op)
}

/// Whether disabling the mount at `path` from `old` yields `new` and `r`, with
/// the engines failing to release the leases in `unreleased`.
pub open spec fn disable_mount_post(
    old: SystemBackend,
    new: SystemBackend,
    path: Seq<char>,
    unreleased: Seq<u64>,
    r: Result<(), ErrorKind>,
) -> bool {
    if !has_enabled(old.mounts.mounts(), path) {
        r == Err::<(), ErrorKind>(ErrorKind::NotFound) && new == old
    } else {
        &&& !has_enabled(new.mounts.mounts(), path)
        &&& new.leases.leases() == old.leases.leases().filter(
            |l: Lease| !has_prefix(l.mount_path@, path) || unreleased.contains(l.id),
        )
        &&& r is Ok <==> forall|i: int|
            0 <= i < new.leases.leases().len() ==> !has_prefix(
                (#[trigger] new.leases.leases()[i]).mount_path@,
                path,
            )
        &&& r is Err ==> r == Err::<(), ErrorKind>(ErrorKind::Internal)
        &&& new.lifecycle == old.lifecycle
        &&& new.tokens == old.tokens
        &&& new.policies == old.policies
        &&& new.identity == old.identity
    }
}

/// Whether revoking `token` from `old` yields `new` and `r`, with the engines
/// failing to release the leases in `unreleased`.
pub open spec fn revoke_token_post(
    old: SystemBackend,
    new: SystemBackend,
    token: u64,
    unreleased: Seq<u64>,
    r: Result<(), ErrorKind>,
) -> bool {
    &&& new.leases.leases() == old.leases.leases().filter(
        |l: Lease| l.token != token || unreleased.contains(l.id),
    )
    &&& r is Ok <==> forall|i: int|
        0 <= i < new.leases.leases().len() ==> (#[trigger] new.leases.leases()[i]).token != token
    &&& r is Ok ==> !has_token(new.tokens.tokens(), token)
    &&& r is Ok && !has_token(old.tokens.tokens(), token) ==> new.tokens == old.tokens
    &&& r is Err ==> r == Err::<(), ErrorKind>(ErrorKind::Internal) && new.tokens == old.tokens
    &&& new.lifecycle == old.lifecycle
    &&& new.mounts == old.mounts
    &&& new.policies == old.policies
    &&& new.identity == old.identity
}

/// Whether a request on route `route` passes the lifecycle and the
/// authorization gates in `b`.
pub open spec fn passes_gates(b: SystemBackend, req: Request, route: Route) -> bool {
    &&& route.states.allows(b.lifecycle.state())
    &&& route.auth == AuthPolicy::Authenticated ==> authorized(b, req.token, req.path@, req.operation)
}

/// A handler's `Done` result as a unit result; `PermissionDenied`, which no
/// handler returns, stands for any other response.
pub open spec fn as_unit(r: Result<Response, ErrorKind>) -> Result<(), ErrorKind> {
    match r {
        Ok(Response::Done) => Ok(()),
        Err(e) => Err(e),
        Ok(_) => Err(ErrorKind::PermissionDenied),
    }
}

/// What `handler` does with the path parameter `param` and the request body
/// `body`, once the request has passed both gates.
pub open spec fn handler_post(
    old: SystemBackend,
    new: SystemBackend,
    handler: Handler,
    param: Seq<char>,
    body: RequestBody,
    r: Result<Response, ErrorKind>,
) -> bool {
    match handler {
        Handler::Init => match body {
            RequestBody::Init { threshold } => if r == Err::<Response, ErrorKind>(ErrorKind::Internal) {
                &&& new == old
                &&& old.lifecycle.state() == LifecycleState::Uninitialized
                &&& threshold > 0
                &&& !old.tokens.can_issue()
            } else {
                &&& LifecycleHolder::init_post(
                    old.lifecycle,
                    new.lifecycle,
                    threshold,
                    match r {
                        Ok(Response::Initialized { root_token }) => Ok(()),
                        Err(e) => Err(e),
                        Ok(_) => Err(ErrorKind::PermissionDenied),
                    },
                )
                &&& r is Err ==> new == old
                &&& r matches Ok(Response::Initialized { root_token }) ==> grants_everything(
                    new,
                    root_token,
                )
            },
            _ => r == Err::<Response, ErrorKind>(ErrorKind::InvalidInput),
        },
        Handler::Seal => LifecycleHolder::seal_post(old.lifecycle, new.lifecycle, as_unit(r)),
        Handler::Unseal => match body {
            RequestBody::Unseal { share } => LifecycleHolder::unseal_post(
                old.lifecycle,
                new.lifecycle,
                share@,
                match r {
                    Ok(Response::Unseal(p)) => Ok(p),
                    Err(e) => Err(e),
                    Ok(_) => Err(ErrorKind::PermissionDenied),
                },
            ),
            _ => r == Err::<Response, ErrorKind>(ErrorKind::InvalidInput),
        },
        Handler::DisableMount => match body {
            RequestBody::Sweep { unreleased } => disable_mount_post(
                old,
                new,
                param,
                unreleased@,
                as_unit(r),
            ),
            RequestBody::Empty => disable_mount_post(old, new, param, Seq::empty(), as_unit(r)),
            _ => r == Err::<Response, ErrorKind>(ErrorKind::InvalidInput),
        },
        Handler::RevokeToken => match body {
            RequestBody::RevokeToken { token, unreleased } => revoke_token_post(
                old,
                new,
                token,
                unreleased@,
                as_unit(r),
            ),
            _ => r == Err::<Response, ErrorKind>(ErrorKind::InvalidInput),
        },
        Handler::AttachEntityPolicy => match body {
            RequestBody::AttachEntityPolicy(p) => IdentityStore::attach_policies_post(
                old.identity,
                new.identity,
                p.name@,
                str_views(p.policy_names@),
                match r {
                    Ok(Response::PoliciesAttached(a)) => Ok(str_views(a.policy_names@)),
                    Err(e) => Err(e),
                    Ok(_) => Err(ErrorKind::PermissionDenied),
                },
            ),
            _ => r == Err::<Response, ErrorKind>(ErrorKind::InvalidInput),
        },
        Handler::AttachEntityAlias => match body {
            RequestBody::AttachEntityAlias(p) => IdentityStore::attach_aliases_post(
                old.identity,
                new.identity,
                p.name@,
                alias_keys(p.aliases@),
                match r {
                    Ok(Response::AliasesAttached(a)) => Ok(alias_keys(a.aliases@)),
                    Err(e) => Err(e),
                    Ok(_) => Err(ErrorKind::PermissionDenied),
                },
            ),
            _ => r == Err::<Response, ErrorKind>(ErrorKind::InvalidInput),
        },
        Handler::Mount => match body {
            RequestBody::Mount { backend, config } => match as_unit(r) {
                Ok(()) => {
                    &&& param.len() > 0
                    &&& !has_enabled(old.mounts.mounts(), param)
                    &&& new.mounts.mounts().drop_last() == old.mounts.mounts()
                    &&& new.mounts.mounts().len() == old.mounts.mounts().len() + 1
                    &&& new.mounts.mounts().last().path@ == param
                    &&& new.mounts.mounts().last().backend == backend
                    &&& new.mounts.mounts().last().config == config
                    &&& new.mounts.mounts().last().enabled
                },
                Err(e) => new.mounts == old.mounts && if param.len() == 0 {
                    e == ErrorKind::InvalidInput
                } else {
                    e == ErrorKind::Conflict && has_enabled(old.mounts.mounts(), param)
                },
            },
            _ => r == Err::<Response, ErrorKind>(ErrorKind::InvalidInput),
        },
        Handler::TuneMount => match body {
            RequestBody::Tune { config } => match as_unit(r) {
                Ok(()) => exists|i: int|
                    enabled_at(old.mounts.mounts(), param, i) && new.mounts.mounts()
                        == old.mounts.mounts().update(i, Mount { config, ..old.mounts.mounts()[i] }),
                Err(e) => e == ErrorKind::NotFound && !has_enabled(old.mounts.mounts(), param)
                    && new.mounts == old.mounts,
            },
            _ => r == Err::<Response, ErrorKind>(ErrorKind::InvalidInput),
        },
        Handler::DeletePolicy => match as_unit(r) {
            Ok(()) => exists|i: int|
                policy_index(old.policies.policies(), param, i) && new.policies.policies()
                    == old.policies.policies().remove(i),
            Err(e) => e == ErrorKind::NotFound && !has_policy(old.policies.policies(), param)
                && new.policies == old.policies,
        },
        Handler::CreateEntity => match body {
            RequestBody::CreateEntity(p) => match r {
                Ok(Response::EntityCreated(c)) => {
                    &&& p.name@.len() > 0
                    &&& !has_entity(old.identity.model(), p.name@)
                    &&& c.entity.name@ == p.name@ && !c.entity.disabled
                    &&& new.identity.model() == old.identity.model().push(
                        EntityModel {
                            name: p.name@,
                            disabled: false,
                            policies: Seq::empty(),
                            aliases: Seq::empty(),
                        },
                    )
                },
                Err(e) => new.identity.model() == old.identity.model() && if p.name@.len() == 0 {
                    e == ErrorKind::InvalidInput
                } else {
                    e == ErrorKind::Conflict && has_entity(old.identity.model(), p.name@)
                },
                Ok(_) => false,
            },
            _ => r == Err::<Response, ErrorKind>(ErrorKind::InvalidInput),
        },
        Handler::Status => match r {
            Ok(Response::Status(st)) => {
                &&& st.state == old.lifecycle.state()
                &&& st.initialized == (old.lifecycle.state() != LifecycleState::Uninitialized)
                &&& st.progress == old.lifecycle.shares().len()
                &&& st.threshold == old.lifecycle.threshold()
            },
            _ => false,
        },
        Handler::ListMounts => match r {
            Ok(Response::Mounts(m)) => m@ == old.mounts.mounts(),
            _ => false,
        },
        Handler::UpsertPolicy => match body {
            RequestBody::Policy(p) => if p.name@.len() == 0 {
                r == Err::<Response, ErrorKind>(ErrorKind::InvalidInput) && new.policies == old.policies
            } else {
                &&& r matches Ok(Response::Done)
                &&& if has_policy(old.policies.policies(), p.name@) {
                    exists|i: int|
                        policy_index(old.policies.policies(), p.name@, i) && new.policies.policies()
                            == old.policies.policies().update(i, p)
                } else {
                    new.policies.policies() == old.policies.policies().push(p)
                }
            },
            _ => r == Err::<Response, ErrorKind>(ErrorKind::InvalidInput),
        },
        Handler::ListPolicies => match r {
            Ok(Response::PolicyNames(n)) => str_views(n@) == old.policies.policies().map_values(
                |p: Policy| p.name@,
            ),
            _ => false,
        },
        Handler::RevokeLease => match body {
            RequestBody::RevokeLease { released } => match u64_of(param) {
                Some(id) => revoke_post(
                    old.leases.leases(),
                    new.leases.leases(),
                    id,
                    released,
                    as_unit(r),
                ),
                None => r == Err::<Response, ErrorKind>(ErrorKind::InvalidInput),
            },
            _ => r == Err::<Response, ErrorKind>(ErrorKind::InvalidInput),
        },
        Handler::RenewLease => match body {
            RequestBody::Renew { increment, now } => match u64_of(param) {
                Some(id) => renew_post(
                    old.leases.leases(),
                    new.leases.leases(),
                    id,
                    increment,
                    now,
                    match r {
                        Ok(Response::Renewed { expires_at }) => Ok(expires_at),
                        Err(e) => Err(e),
                        Ok(_) => Err(ErrorKind::PermissionDenied),
                    },
                ),
                None => r == Err::<Response, ErrorKind>(ErrorKind::InvalidInput),
            },
            _ => r == Err::<Response, ErrorKind>(ErrorKind::InvalidInput),
        },
        Handler::LookupLease => match u64_of(param) {
            Some(id) => match r {
                Ok(Response::Lease(l)) => exists|i: int|
                    first_with_id(old.leases.leases(), id, i) && l == old.leases.leases()[i],
                Err(e) => e == ErrorKind::NotFound && !holds_id(old.leases.leases(), id),
                Ok(_) => false,
            },
            None => r == Err::<Response, ErrorKind>(ErrorKind::InvalidInput),
        },
        Handler::RevokeLeasesByMount => match body {
            RequestBody::Sweep { unreleased } => {
                &&& new.leases.leases() == old.leases.leases().filter(
                    |l: Lease| !has_prefix(l.mount_path@, param) || unreleased@.contains(l.id),
                )
                &&& as_unit(r) is Ok <==> forall|i: int|
                    0 <= i < new.leases.leases().len() ==> !has_prefix(
                        (#[trigger] new.leases.leases()[i]).mount_path@,
                        param,
                    )
                &&& as_unit(r) is Err ==> r == Err::<Response, ErrorKind>(ErrorKind::Internal)
            },
            _ => r == Err::<Response, ErrorKind>(ErrorKind::InvalidInput),
        },
        Handler::ListLeases => match r {
            Ok(Response::LeaseIds(ids)) => ids@ == old.leases.leases().filter(
                |l: Lease| has_prefix(l.mount_path@, param),
            ).map_values(|l: Lease| l.id),
            _ => false,
        },
        Handler::RemoveEntityPolicy => match body {
            RequestBody::RemoveEntityPolicy(p) => match r {
                Ok(Response::PolicyRemoved(x)) => x.policy_name == p.policy_name && exists|i: int|
                    {
                        &&& index_of(old.identity.model(), param, i)
                        &&& new.identity.model() == old.identity.model().update(
                            i,
                            EntityModel {
                                policies: old.identity.model()[i].policies.remove_value(
                                    p.policy_name@,
                                ),
                                ..old.identity.model()[i]
                            },
                        )
                    },
                Err(e) => e == ErrorKind::NotFound && !has_entity(old.identity.model(), param)
                    && new.identity.model() == old.identity.model(),
                Ok(_) => false,
            },
            _ => r == Err::<Response, ErrorKind>(ErrorKind::InvalidInput),
        },
        Handler::RemoveEntityAlias => match body {
            RequestBody::RemoveEntityAlias(p) => match r {
                Ok(Response::AliasRemoved(x)) => x.alias == p.alias && exists|i: int|
                    {
                        &&& index_of(old.identity.model(), param, i)
                        &&& new.identity.model() == old.identity.model().update(
                            i,
                            EntityModel {
                                aliases: old.identity.model()[i].aliases.remove_value(
                                    p.alias.key(),
                                ),
                                ..old.identity.model()[i]
                            },
                        )
                    },
                Err(e) => e == ErrorKind::NotFound && !has_entity(old.identity.model(), param)
                    && new.identity.model() == old.identity.model(),
                Ok(_) => false,
            },
            _ => r == Err::<Response, ErrorKind>(ErrorKind::InvalidInput),
        },
    }
}

/// Whether a handler's side effects from `old` to `new` stay in the stores it
/// owns.
pub open spec fn confined(old: SystemBackend, new: SystemBackend, h: Handler) -> bool {
    &&& new.routes@ == old.routes@
    &&& new.lifecycle != old.lifecycle ==> (h is Init || h is Seal || h is Unseal)
    &&& new.mounts != old.mounts ==> (h is Mount || h is TuneMount || h is DisableMount)
    &&& new.policies != old.policies ==> (h is UpsertPolicy || h is DeletePolicy || h is Init)
    &&& new.tokens != old.tokens ==> (h is RevokeToken || h is Init)
    &&& new.identity != old.identity ==> (h is CreateEntity || h is AttachEntityPolicy
        || h is RemoveEntityPolicy || h is AttachEntityAlias || h is RemoveEntityAlias)
    &&& new.leases != old.leases ==> (h is DisableMount || h is RevokeToken || h is RevokeLease
        || h is RenewLease || h is RevokeLeasesByMount)
}

/// What `dispatch` does with `req` from `old`, yielding `new` and `r`: no
/// matching route gives `NotFound`; a route that the lifecycle state does not
/// allow gives `InvalidState`; a caller the route's policy does not admit gets
/// `PermissionDenied`, and none of these changes anything; otherwise the
/// route's handler runs and its result is returned.
pub open spec fn dispatch_post(
    old: SystemBackend,
    new: SystemBackend,
    req: Request,
    r: Result<Response, ErrorKind>,
) -> bool {
    &&& ((forall|j: int|
                0 <= j < old.routes@.len() ==> !route_matches(
                    #[trigger] old.routes@[j],
                    req.path@,
                    req.operation,
                )) ==> r == Err::<Response, ErrorKind>(ErrorKind::NotFound) && new == old)
    &&& (forall|i: int|
                best_route(old.routes@, req.path@, req.operation, i) && !(#[trigger] old.routes@[i]).states.allows(old.lifecycle.state()) ==> r == Err::<
                    Response,
                    ErrorKind,
                >(ErrorKind::InvalidState) && new == old)
    &&& (forall|i: int|
                best_route(old.routes@, req.path@, req.operation, i) && (#[trigger] old.routes@[i]).states.allows(old.lifecycle.state()) && old.routes@[i].auth
                    == AuthPolicy::Authenticated && !authorized(
                    old,
                    req.token,
                    req.path@,
                    req.operation,
                ) ==> r == Err::<Response, ErrorKind>(ErrorKind::PermissionDenied) && new
                    == old)
    &&& (forall|i: int|
                best_route(old.routes@, req.path@, req.operation, i) && passes_gates(
                    old,
                    req,
                    #[trigger] old.routes@[i],
                ) ==> handler_post(
                    old,
                    new,
                    old.routes@[i].handler,
                    req.path@.subrange(old.routes@[i].path@.len() as int, req.path@.len() as int),
                    req.body,
                    r,
                ) && confined(old, new, old.routes@[i].handler))
}

/// The mount path carried by a route's captured remainder.
fn captured(path: &String, route: &Route) -> (r: String)
    requires
        route_matches(*route, path@, route.operation),
        route.wildcard,
    ensures
        r@ == path@.subrange(route.path@.len() as int, path@.len() as int),
{
    suffix_from(path.as_str(), route.path.as_str().unicode_len())
}

/// Builds the control plane over the given stores, with the administrative
/// route table, an uninitialized lifecycle and an empty mount table.
pub fn new_system_backend(
    tokens: TokenStore,
    policies: PolicyStore,
    identity: IdentityStore,
    leases: LeaseManager,
) -> (r: SystemBackend)
    requires
        tokens.wf(),
        policies.wf(),
        identity.wf(),
        leases.wf(),
    ensures
        r.wf(),
        is_system_table(r.routes@),
        r.lifecycle.state() == LifecycleState::Uninitialized,
        r.mounts.mounts().len() == 0,
        r.tokens == tokens,
        r.policies == policies,
        r.identity == identity,
        r.leases == leases,
{
    SystemBackend {
        routes: system_routes(),
        lifecycle: LifecycleHolder::new(),
        mounts: MountTable::new(),
        policies,
        tokens,
        identity,
        leases,
    }
}

impl SystemBackend {
    pub open spec fn wf(&self) -> bool {
        &&& is_system_table(self.routes@)
        &&& self.lifecycle.wf()
        &&& self.mounts.wf()
        &&& self.policies.wf()
        &&& self.tokens.wf()
        &&& self.identity.wf()
        &&& self.leases.wf()
    }

    fn check_token(&self, t: &Token, path: &str, op: Operation) -> (r: bool)
        requires
            self.wf(),
        ensures
            r == token_grants(*self, *t, path@, op),
    {
        if self.policies.grants(&t.policies, path, op) {
            return true;
        }
        match &t.entity {
            Some(e) => match self.identity.entity_policies(e) {
                Ok(names) => {
                    let g = self.policies.grants(names, path, op);
                    proof {
                        let m = self.identity.model();
                        let k0 = choose|k: int| index_of(m, e@, k) && str_views(names@) == m[k].policies;
                        assert forall|k: int| index_of(m, e@, k) implies k == k0 by {
                            if k < k0 {
                                assert(m[k].name != m[k0].name);
                            } else if k > k0 {
                                assert(m[k0].name != m[k].name);
                            }
                        }
                    }
                    g
                },
                Err(_) => false,
            },
            None => false,
        }
    }

    /// The authorization gate.
    pub fn check_authorized(&self, token: Option<u64>, path: &str, op: Operation) -> (r: bool)
        requires
            self.wf(),
        ensures
            r == authorized(*self, token, path@, op),
    {
        match token {
            Some(id) => match self.tokens.lookup(id) {
                Some(t) => self.check_token(t, path, op),
                None => false,
            },
            None => false,
        }
    }

    /// Disables the mount at `path`, then revokes every lease issued under it.
    /// `unreleased` lists the leases whose engines failed to release their
    /// resources: those stay visible and the call fails with `Internal`.
    pub fn disable_mount(&mut self, path: &String, unreleased: &Vec<u64>) -> (r: Result<(), ErrorKind>)
        requires
            old(self).wf(),
        ensures
            final(self).wf(),
            final(self).routes@ == old(self).routes@,
            disable_mount_post(*old(self), *final(self), path@, unreleased@, r),
            has_enabled(old(self).mounts.mounts(), path@) && unreleased@.len() == 0 ==> r is Ok,
    {
        match self.mounts.disable(path) {
            Ok(()) => {},
            Err(e) => return Err(e),
        }
        let sel = LeaseSelector::MountPrefix(path.clone());
        let r = self.leases.revoke_matching(&sel, unreleased);
        proof {
            assert((|l: Lease| survives(sel, unreleased@, l)) =~= (|l: Lease|
                !has_prefix(l.mount_path@, path@) || unreleased@.contains(l.id)));
            if unreleased@.len() == 0 {
                let f = |l: Lease| survives(sel, unreleased@, l);
                let s = self.leases.leases();
                assert forall|i: int| 0 <= i < s.len() implies !sel.selects(#[trigger] s[i]) by {
                    assert(f(s[i]));
                }
            }
        }
        r
    }

    /// Revokes every lease that `token` owns, then removes the token; the
    /// token stays while any of its leases could not be released. An unknown
    /// token owning no lease is no change, so a repeated revoke succeeds.
    pub fn revoke_token(&mut self, token: u64, unreleased: &Vec<u64>) -> (r: Result<(), ErrorKind>)
        requires
            old(self).wf(),
        ensures
            final(self).wf(),
            final(self).routes@ == old(self).routes@,
            revoke_token_post(*old(self), *final(self), token, unreleased@, r),
            unreleased@.len() == 0 ==> r is Ok,
    {
        let sel = LeaseSelector::Owner(token);
        let r = self.leases.revoke_matching(&sel, unreleased);
        proof {
            assert((|l: Lease| survives(sel, unreleased@, l)) =~= (|l: Lease|
                l.token != token || unreleased@.contains(l.id)));
            if unreleased@.len() == 0 {
                let f = |l: Lease| survives(sel, unreleased@, l);
                let s = self.leases.leases();
                assert forall|i: int| 0 <= i < s.len() implies !sel.selects(#[trigger] s[i]) by {
                    assert(f(s[i]));
                }
            }
        }
        match r {
            Ok(()) => {
                self.tokens.remove(token);
                Ok(())
            },
            Err(e) => Err(e),
        }
    }

    /// Issues the root token, stores the root policy that grants everything,
    /// and moves the vault to Sealed. Nothing changes when any step would fail.
    fn initialize(&mut self, threshold: u64) -> (r: Result<Response, ErrorKind>)
        requires
            old(self).wf(),
        ensures
            final(self).wf(),
            final(self).routes@ == old(self).routes@,
            r is Err ==> *final(self) == *old(self),
            (r == Err::<Response, ErrorKind>(ErrorKind::Internal)) <==> (old(self).lifecycle.state()
                == LifecycleState::Uninitialized && threshold > 0 && !old(self).tokens.can_issue()),
            r != Err::<Response, ErrorKind>(ErrorKind::Internal) ==> LifecycleHolder::init_post(
                old(self).lifecycle,
                final(self).lifecycle,
                threshold,
                match r {
                    Ok(_) => Ok(()),
                    Err(e) => Err(e),
                },
            ),
            r matches Ok(resp) ==> resp is Initialized,
            r matches Ok(Response::Initialized { root_token }) ==> grants_everything(
                *final(self),
                root_token,
            ),
            final(self).mounts == old(self).mounts,
            final(self).identity == old(self).identity,
            final(self).leases == old(self).leases,
    {
        if self.lifecycle.current() != LifecycleState::Uninitialized {
            return Err(ErrorKind::InvalidState);
        }
        if threshold == 0 {
            return Err(ErrorKind::InvalidInput);
        }
        let name = "root".to_owned();
        let mut names: Vec<String> = Vec::new();
        names.push(name.clone());
        let id = match self.tokens.issue(None, names) {
            Ok(id) => id,
            Err(e) => return Err(e),
        };
        let mut caps: Vec<Operation> = Vec::new();
        caps.push(Operation::Create);
        caps.push(Operation::Read);
        caps.push(Operation::Update);
        caps.push(Operation::Delete);
        caps.push(Operation::Revoke);
        let ghost all_ops = caps@;
        proof {
            assert forall|op: Operation| all_ops.contains(op) by {
                match op {
                    Operation::Create => assert(all_ops[0] == op),
                    Operation::Read => assert(all_ops[1] == op),
                    Operation::Update => assert(all_ops[2] == op),
                    Operation::Delete => assert(all_ops[3] == op),
                    Operation::Revoke => assert(all_ops[4] == op),
                }
            }
        }
        let mut rules: Vec<PathRule> = Vec::new();
        rules.push(PathRule { path: String::new(), glob: true, capabilities: caps });
        let policy = Policy { name, rules };
        let ghost root = policy;
        proof {
            reveal_strlit("root");
            assert(root.name@.len() > 0);
        }
        let ghost before = self.policies.policies();
        let _ = self.policies.upsert(policy);
        let ghost stored = self.policies.policies();
        proof {
            if has_policy(before, root.name@) {
                let i = choose|i: int|
                    policy_index(before, root.name@, i) && stored == before.update(i, root);
                assert(stored[i] == root);
            } else {
                assert(stored[before.len() as int] == root);
            }
        }
        let _ = self.lifecycle.init(threshold);
        proof {
            let toks = self.tokens.tokens();
            let t = toks[toks.len() - 1];
            assert(token_at(toks, id, toks.len() - 1));
            let i = choose|i: int| 0 <= i < stored.len() && stored[i] == root;
            assert(str_views(t.policies@)[0] == root.name@);
            assert(str_views(t.policies@).contains(root.name@));
            assert forall|path: Seq<char>, op: Operation|
                #[trigger] token_grants(*self, t, path, op) by {
                assert(path.subrange(0, 0) =~= root.rules@[0].path@);
                assert(rule_grants(root.rules@[0], path, op));
                assert(policy_grants(stored[i], path, op));
                assert(names_grant(stored, str_views(t.policies@), path, op));
            }
        }
        Ok(Response::Initialized { root_token: id })
    }

    /// Runs a request: matches a route, applies the lifecycle gate and then the
    /// authorization gate, and only then invokes the route's handler. A
    /// request that a gate rejects changes nothing.
    pub fn dispatch(&mut self, req: Request) -> (r: Result<Response, ErrorKind>)
        requires
            old(self).wf(),
        ensures
            final(self).wf(),
            final(self).routes@ == old(self).routes@,
            dispatch_post(*old(self), *final(self), req, r),
    {
        let ri = match find_route(&self.routes, req.path.as_str(), req.operation) {
            Some(i) => i,
            None => return Err(ErrorKind::NotFound),
        };
        proof {
            assert forall|i: int| best_route(self.routes@, req.path@, req.operation, i) implies i
                == ri by {
                crate::router::best_route_unique(self.routes@, req.path@, req.operation, i, ri as int);
            }
        }
        let state = self.lifecycle.current();
        if !self.routes[ri].states.permits(state) {
            return Err(ErrorKind::InvalidState);
        }
        if self.routes[ri].auth == AuthPolicy::Authenticated && !self.check_authorized(
            req.token,
            req.path.as_str(),
            req.operation,
        ) {
            return Err(ErrorKind::PermissionDenied);
        }
        let handler = self.routes[ri].handler;
        let wildcard = self.routes[ri].wildcard;
        let param = if wildcard {
            captured(&req.path, &self.routes[ri])
        } else {
            String::new()
        };
        proof {
            assert(param@ =~= req.path@.subrange(self.routes@[ri as int].path@.len() as int, req.path@.len() as int));
        }
        self.invoke(handler, param, req.body)
    }

    /// Runs `handler` with the path parameter `param` and the request body.
    fn invoke(&mut self, handler: Handler, param: String, body: RequestBody) -> (r: Result<Response, ErrorKind>)
        requires
            old(self).wf(),
        ensures
            final(self).wf(),
            handler_post(*old(self), *final(self), handler, param@, body, r),
            confined(*old(self), *final(self), handler),
    {
        match (handler, body) {
            (Handler::Init, RequestBody::Init { threshold }) => {
                let r = self.initialize(threshold);
                proof {
                    assert(handler_post(
                        *old(self),
                        *self,
                        Handler::Init,
                        param@,
                        RequestBody::Init { threshold },
                        r,
                    ));
                }
                r
            },
            (Handler::Seal, _) => match self.lifecycle.seal() {
                Ok(()) => Ok(Response::Done),
                Err(e) => Err(e),
            },
            (Handler::Unseal, RequestBody::Unseal { share }) => match self.lifecycle.unseal(share) {
                Ok(p) => Ok(Response::Unseal(p)),
                Err(e) => Err(e),
            },
            (Handler::Status, _) => Ok(Response::Status(self.lifecycle.status())),
            (Handler::ListMounts, _) => Ok(Response::Mounts(self.mounts.snapshot())),
            (Handler::Mount, RequestBody::Mount { backend, config }) => {
                let ghost before = self.mounts.mounts();
                let res = self.mounts.mount(param, backend, config);
                proof {
                    if res is Ok {
                        assert(self.mounts.mounts().drop_last() =~= before);
                    }
                }
                match res {
                    Ok(()) => Ok(Response::Done),
                    Err(e) => Err(e),
                }
            },
            (Handler::TuneMount, RequestBody::Tune { config }) => match self.mounts.tune(&param, config) {
                Ok(()) => Ok(Response::Done),
                Err(e) => Err(e),
            },
            (Handler::DisableMount, RequestBody::Sweep { unreleased }) => match self.disable_mount(
                &param,
                &unreleased,
            ) {
                Ok(()) => Ok(Response::Done),
                Err(e) => Err(e),
            },
            (Handler::DisableMount, RequestBody::Empty) => match self.disable_mount(&param, &Vec::new()) {
                Ok(()) => Ok(Response::Done),
                Err(e) => Err(e),
            },
            (Handler::UpsertPolicy, RequestBody::Policy(p)) => match self.policies.upsert(p) {
                Ok(()) => Ok(Response::Done),
                Err(e) => Err(e),
            },
            (Handler::ListPolicies, _) => Ok(Response::PolicyNames(self.policies.names())),
            (Handler::DeletePolicy, _) => match self.policies.delete(&param) {
                Ok(()) => Ok(Response::Done),
                Err(e) => Err(e),
            },
            (Handler::RevokeToken, RequestBody::RevokeToken { token, unreleased }) => match self.revoke_token(
                token,
                &unreleased,
            ) {
                Ok(()) => Ok(Response::Done),
                Err(e) => Err(e),
            },
            (Handler::RevokeLease, RequestBody::RevokeLease { released }) => match parse_u64(param.as_str()) {
                Some(id) => match self.leases.revoke(id, released) {
                    Ok(()) => Ok(Response::Done),
                    Err(e) => Err(e),
                },
                None => Err(ErrorKind::InvalidInput),
            },
            (Handler::RenewLease, RequestBody::Renew { increment, now }) => match parse_u64(param.as_str()) {
                Some(id) => match self.leases.renew(id, increment, now) {
                    Ok(e) => Ok(Response::Renewed { expires_at: e }),
                    Err(e) => Err(e),
                },
                None => Err(ErrorKind::InvalidInput),
            },
            (Handler::LookupLease, _) => match parse_u64(param.as_str()) {
                Some(id) => match self.leases.lookup(id) {
                    Ok(l) => Ok(Response::Lease(l.duplicate())),
                    Err(e) => Err(e),
                },
                None => Err(ErrorKind::InvalidInput),
            },
            (Handler::RevokeLeasesByMount, RequestBody::Sweep { unreleased }) => {
                let sel = LeaseSelector::MountPrefix(param);
                proof {
                    assert((|l: Lease| survives(sel, unreleased@, l)) =~= (|l: Lease|
                        !has_prefix(l.mount_path@, sel->MountPrefix_0@) || unreleased@.contains(l.id)));
                }
                match self.leases.revoke_matching(&sel, &unreleased) {
                    Ok(()) => Ok(Response::Done),
                    Err(e) => Err(e),
                }
            },
            (Handler::ListLeases, _) => {
                let sel = LeaseSelector::MountPrefix(param);
                proof {
                    assert((|l: Lease| sel.selects(l)) =~= (|l: Lease|
                        has_prefix(l.mount_path@, sel->MountPrefix_0@)));
                }
                Ok(Response::LeaseIds(self.leases.list_matching(&sel)))
            },
            (Handler::CreateEntity, RequestBody::CreateEntity(p)) => match self.identity.create(p.name) {
                Ok(entity) => Ok(Response::EntityCreated(CreateEntityResponse { entity })),
                Err(e) => Err(e),
            },
            (Handler::AttachEntityPolicy, RequestBody::AttachEntityPolicy(p)) => match self.identity.attach_policies(
                &p.name,
                &p.policy_names,
            ) {
                Ok(policy_names) => Ok(Response::PoliciesAttached(AttachEntityPolicyResponse { policy_names })),
                Err(e) => Err(e),
            },
            (Handler::RemoveEntityPolicy, RequestBody::RemoveEntityPolicy(p)) => match self.identity.remove_policy(
                &param,
                p.policy_name,
            ) {
                Ok(policy_name) => Ok(Response::PolicyRemoved(RemoveEntityPolicyResponse { policy_name })),
                Err(e) => Err(e),
            },
            (Handler::AttachEntityAlias, RequestBody::AttachEntityAlias(p)) => match self.identity.attach_aliases(
                &p.name,
                &p.aliases,
            ) {
                Ok(aliases) => Ok(Response::AliasesAttached(AttachEntityAliasResponse { aliases })),
                Err(e) => Err(e),
            },
            (Handler::RemoveEntityAlias, RequestBody::RemoveEntityAlias(p)) => match self.identity.remove_alias(
                &param,
                p.alias,
            ) {
                Ok(alias) => Ok(Response::AliasRemoved(RemoveEntityAliasResponse { alias })),
                Err(e) => Err(e),
            },
            _ => Err(ErrorKind::InvalidInput),
        }
    }
}

/// Disabling a mount that holds live leases leaves none under its path once
/// the call has succeeded, whatever their number.
pub proof fn disable_mount_clears_leases(
    old: SystemBackend,
    new: SystemBackend,
    path: Seq<char>,
    unreleased: Seq<u64>,
    r: Result<(), ErrorKind>,
)
    requires
        disable_mount_post(old, new, path, unreleased, r),
        r is Ok,
    ensures
        forall|i: int|
            0 <= i < new.leases.leases().len() ==> !has_prefix(
                (#[trigger] new.leases.leases()[i]).mount_path@,
                path,
            ),
{
}

/// Keeping the elements that all satisfy `f` keeps the sequence.
proof fn lemma_filter_keeps_all<A>(s: Seq<A>, f: spec_fn(A) -> bool)
    requires
        forall|i: int| 0 <= i < s.len() ==> f(#[trigger] s[i]),
    ensures
        s.filter(f) == s,
    decreases s.len(),
{
    if s.len() > 0 {
        let t = s.drop_last();
        assert forall|i: int| 0 <= i < t.len() implies f(#[trigger] t[i]) by {
            assert(t[i] == s[i]);
        }
        lemma_filter_keeps_all(t, f);
        t.lemma_filter_push(s.last(), f);
        assert(f(s[s.len() - 1]));
        assert(t.push(s.last()) =~= s);
    }
}

/// Revoking a token removes every lease it owns, and revoking it again
/// succeeds without change.
pub proof fn revoke_token_twice(
    s0: SystemBackend,
    s1: SystemBackend,
    s2: SystemBackend,
    token: u64,
    u1: Seq<u64>,
    u2: Seq<u64>,
    r1: Result<(), ErrorKind>,
    r2: Result<(), ErrorKind>,
)
    requires
        revoke_token_post(s0, s1, token, u1, r1),
        revoke_token_post(s1, s2, token, u2, r2),
        r1 is Ok,
    ensures
        forall|i: int|
            0 <= i < s1.leases.leases().len() ==> (#[trigger] s1.leases.leases()[i]).token != token,
        !has_token(s1.tokens.tokens(), token),
        r2 is Ok,
        s2.leases.leases() == s1.leases.leases(),
        s2.tokens == s1.tokens,
{
    let f = |l: Lease| l.token != token || u2.contains(l.id);
    let s = s1.leases.leases();
    assert forall|i: int| 0 <= i < s.len() implies f(#[trigger] s[i]) by {}
    lemma_filter_keeps_all(s, f);
}

/// Through the route table, `/init` succeeds from Uninitialized (when a token
/// id is left to issue and the threshold is positive) and moves the vault to
/// Sealed; from any other state it fails with `InvalidState` and changes
/// nothing, so it succeeds at most once.
pub proof fn init_request(
    old: SystemBackend,
    new: SystemBackend,
    req: Request,
    threshold: u64,
    r: Result<Response, ErrorKind>,
)
    requires
        old.wf(),
        dispatch_post(old, new, req, r),
        req.path@ == "/init"@,
        req.operation == Operation::Create || req.operation == Operation::Update,
        req.body == (RequestBody::Init { threshold }),
    ensures
        old.lifecycle.state() != LifecycleState::Uninitialized ==> r == Err::<Response, ErrorKind>(
            ErrorKind::InvalidState,
        ) && new == old,
        old.lifecycle.state() == LifecycleState::Uninitialized && threshold > 0
            && old.tokens.can_issue() ==> (r matches Ok(Response::Initialized { root_token }))
            && new.lifecycle.state() == LifecycleState::Sealed,
{
    lemma_init_route(old.routes@, req.path@, req.operation);
    let k: int = if req.operation == Operation::Create { 4 } else { 5 };
    assert(gated(old.routes@[k]));
}

/// Through the route table, an `/unseal` contribution on a sealed vault
/// behaves as `unseal_post` says: below threshold it stays Sealed, at
/// threshold it unseals and clears the contributions.
pub proof fn unseal_request(
    old: SystemBackend,
    new: SystemBackend,
    req: Request,
    share: Vec<u8>,
    r: Result<Response, ErrorKind>,
)
    requires
        old.wf(),
        dispatch_post(old, new, req, r),
        req.path@ == "/unseal"@,
        req.operation == Operation::Update,
        req.body == (RequestBody::Unseal { share }),
        old.lifecycle.state() == LifecycleState::Sealed,
    ensures
        LifecycleHolder::unseal_post(
            old.lifecycle,
            new.lifecycle,
            share@,
            match r {
                Ok(Response::Unseal(p)) => Ok(p),
                Err(e) => Err(e),
                Ok(_) => Err(ErrorKind::PermissionDenied),
            },
        ),
{
    lemma_unseal_route(old.routes@, req.path@);
    assert(gated(old.routes@[1]));
}

/// Through the route table, `/seal` on an unsealed vault seals it and leaves
/// no contribution held, so the next unseal count starts afresh.
pub proof fn seal_request(
    old: SystemBackend,
    new: SystemBackend,
    req: Request,
    r: Result<Response, ErrorKind>,
)
    requires
        old.wf(),
        dispatch_post(old, new, req, r),
        req.path@ == "/seal"@,
        req.operation == Operation::Update,
        old.lifecycle.state() == LifecycleState::Unsealed,
    ensures
        r matches Ok(Response::Done),
        new.lifecycle.state() == LifecycleState::Sealed,
        new.lifecycle.shares().len() == 0,
{
    lemma_seal_route(old.routes@, req.path@);
    assert(gated(old.routes@[3]));
}

/// Through the route table, a successful delete on `/mounts/<p>` leaves no
/// lease whose mount path begins with `p`, whatever their number was.
pub proof fn disable_mount_request(
    old: SystemBackend,
    new: SystemBackend,
    req: Request,
    unreleased: Vec<u64>,
    r: Result<Response, ErrorKind>,
)
    requires
        old.wf(),
        dispatch_post(old, new, req, r),
        has_prefix(req.path@, "/mounts/"@),
        req.operation == Operation::Delete,
        req.body == (RequestBody::Sweep { unreleased }),
        r is Ok,
    ensures
        forall|i: int|
            0 <= i < new.leases.leases().len() ==> !has_prefix(
                (#[trigger] new.leases.leases()[i]).mount_path@,
                req.path@.subrange("/mounts/"@.len() as int, req.path@.len() as int),
            ),
{
    lemma_disable_mount_route(old.routes@, req.path@);
    assert(gated(old.routes@[10]));
    assert(old.routes@[10].path@ == "/mounts/"@);
}

/// Through the route table, `/token/revoke` behaves as `revoke_token_post`
/// says, so `revoke_token_twice` applies to two such requests.
pub proof fn revoke_token_request(
    old: SystemBackend,
    new: SystemBackend,
    req: Request,
    token: u64,
    unreleased: Vec<u64>,
    r: Result<Response, ErrorKind>,
)
    requires
        old.wf(),
        dispatch_post(old, new, req, r),
        req.path@ == "/token/revoke"@,
        req.operation == Operation::Revoke,
        req.body == (RequestBody::RevokeToken { token, unreleased }),
        old.lifecycle.state() == LifecycleState::Unsealed,
        authorized(old, req.token, req.path@, req.operation),
    ensures
        revoke_token_post(old, new, token, unreleased@, as_unit(r)),
{
    lemma_revoke_token_route(old.routes@, req.path@);
    assert(gated(old.routes@[15]));
}

/// Through the route table, `/entity/policy` behaves as
/// `attach_policies_post` says, so `attach_policies_twice` applies to two
/// such requests.
pub proof fn attach_policy_request(
    old: SystemBackend,
    new: SystemBackend,
    req: Request,
    p: AttachEntityPolicyParams,
    r: Result<Response, ErrorKind>,
)
    requires
        old.wf(),
        dispatch_post(old, new, req, r),
        req.path@ == "/entity/policy"@,
        req.operation == Operation::Update,
        req.body == RequestBody::AttachEntityPolicy(p),
        old.lifecycle.state() == LifecycleState::Unsealed,
        authorized(old, req.token, req.path@, req.operation),
    ensures
        IdentityStore::attach_policies_post(
            old.identity,
            new.identity,
            p.name@,
            str_views(p.policy_names@),
            match r {
                Ok(Response::PoliciesAttached(a)) => Ok(str_views(a.policy_names@)),
                Err(e) => Err(e),
                Ok(_) => Err(ErrorKind::PermissionDenied),
            },
        ),
{
    lemma_attach_policy_route(old.routes@, req.path@);
    assert(gated(old.routes@[22]));
}

/// Through the route table, `/entity/alias` behaves as `attach_aliases_post`
/// says, so `alias_conflict_keeps_binding` applies to such a request.
pub proof fn attach_alias_request(
    old: SystemBackend,
    new: SystemBackend,
    req: Request,
    p: AttachEntityAliasParams,
    r: Result<Response, ErrorKind>,
)
    requires
        old.wf(),
        dispatch_post(old, new, req, r),
        req.path@ == "/entity/alias"@,
        req.operation == Operation::Update,
        req.body == RequestBody::AttachEntityAlias(p),
        old.lifecycle.state() == LifecycleState::Unsealed,
        authorized(old, req.token, req.path@, req.operation),
    ensures
        IdentityStore::attach_aliases_post(
            old.identity,
            new.identity,
            p.name@,
            alias_keys(p.aliases@),
            match r {
                Ok(Response::AliasesAttached(a)) => Ok(alias_keys(a.aliases@)),
                Err(e) => Err(e),
                Ok(_) => Err(ErrorKind::PermissionDenied),
            },
        ),
{
    lemma_attach_alias_route(old.routes@, req.path@);
    assert(gated(old.routes@[24]));
}

} // verus!
