use vstd::prelude::*;

use crate::identity::{Entity, EntityAlias};

verus! {

/// Body of an entity creation.
#[derive(Clone, Debug)]
pub struct CreateEntityParams {
    pub name: String,
}

#[derive(Clone, Debug)]
pub struct CreateEntityResponse {
    pub entity: Entity,
}

/// Body of a policy attach: the entity and the policy names to add.
#[derive(Clone, Debug)]
pub struct AttachEntityPolicyParams {
    pub name: String,
    pub policy_names: Vec<String>,
}

/// The entity's policy names after the attach.
#[derive(Clone, Debug)]
pub struct AttachEntityPolicyResponse {
    pub policy_names: Vec<String>,
}

/// Body of an alias attach: the entity and the aliases to bind.
#[derive(Clone, Debug)]
pub struct AttachEntityAliasParams {
    pub name: String,
    pub aliases: Vec<EntityAlias>,
}

/// The entity's aliases after the attach.
#[derive(Clone, Debug)]
pub struct AttachEntityAliasResponse {
    pub aliases: Vec<EntityAlias>,
}

/// Body of a policy removal; the entity is named by the path.
#[derive(Clone, Debug)]
pub struct RemoveEntityPolicyParams {
    pub policy_name: String,
}

#[derive(Clone, Debug)]
pub struct RemoveEntityPolicyResponse {
    pub policy_name: String,
}

/// Body of an alias removal; the entity is named by the path.
#[derive(Clone, Debug)]
pub struct RemoveEntityAliasParams {
    pub alias: EntityAlias,
}

#[derive(Clone, Debug)]
pub struct RemoveEntityAliasResponse {
    pub alias: EntityAlias,
}

} // verus!
