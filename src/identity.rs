use vstd::prelude::*;

use crate::dedup::{
    add_all, lemma_add_all_contains, lemma_add_all_idempotent, lemma_add_all_no_duplicates,
};
use crate::error::ErrorKind;

verus! {

/// A logical identity.
#[derive(Clone, Debug)]
pub struct Entity {
    pub name: String,
    pub disabled: bool,
}

/// Maps an external authentication method's identity to an entity.
#[derive(Clone, Debug)]
pub struct EntityAlias {
    pub name: String,
    pub mount_path: String,
}

impl EntityAlias {
    pub open spec fn key(&self) -> (Seq<char>, Seq<char>) {
        (self.mount_path@, self.name@)
    }

    fn same_as(&self, o: &EntityAlias) -> (r: bool)
        ensures
            r == (self.key() == o.key()),
    {
        self.name == o.name && self.mount_path == o.mount_path
    }

    fn duplicate(&self) -> (r: EntityAlias)
        ensures
            r.key() == self.key(),
    {
        EntityAlias { name: self.name.clone(), mount_path: self.mount_path.clone() }
    }
}

/// The character sequences of a list of strings.
pub open spec fn str_views(v: Seq<String>) -> Seq<Seq<char>> {
    v.map_values(|s: String| s@)
}

/// The keys of a list of aliases.
pub open spec fn alias_keys(v: Seq<EntityAlias>) -> Seq<(Seq<char>, Seq<char>)> {
    v.map_values(|a: EntityAlias| a.key())
}

/// What the store holds of one entity.
pub struct EntityModel {
    pub name: Seq<char>,
    pub disabled: bool,
    pub policies: Seq<Seq<char>>,
    pub aliases: Seq<(Seq<char>, Seq<char>)>,
}

struct EntityRecord {
    entity: Entity,
    policy_names: Vec<String>,
    aliases: Vec<EntityAlias>,
}

impl EntityRecord {
    closed spec fn model(&self) -> EntityModel {
        EntityModel {
            name: self.entity.name@,
            disabled: self.entity.disabled,
            policies: str_views(self.policy_names@),
            aliases: alias_keys(self.aliases@),
        }
    }
}

/// Position of the entity called `name` in `m`, if any.
pub open spec fn index_of(m: Seq<EntityModel>, name: Seq<char>, i: int) -> bool {
    0 <= i < m.len() && m[i].name == name
}

pub open spec fn has_entity(m: Seq<EntityModel>, name: Seq<char>) -> bool {
    exists|i: int| index_of(m, name, i)
}

/// Whether alias key `a` is bound to an entity other than the one at `i`.
pub open spec fn bound_elsewhere(m: Seq<EntityModel>, i: int, a: (Seq<char>, Seq<char>)) -> bool {
    exists|j: int| 0 <= j < m.len() && j != i && (#[trigger] m[j]).aliases.contains(a)
}

/// Entities with their policies and aliases.
pub struct IdentityStore {
    records: Vec<EntityRecord>,
}

fn position_str(v: &Vec<String>, x: &String) -> (r: Option<usize>)
    ensures
        match r {
            Some(k) => k < v@.len() && str_views(v@)[k as int] == x@ && forall|j: int|
                0 <= j < k ==> str_views(v@)[j] != x@,
            None => !str_views(v@).contains(x@),
        },
{
    let mut i: usize = 0;
    while i < v.len()
        invariant
            i <= v@.len(),
            forall|j: int| 0 <= j < i ==> str_views(v@)[j] != x@,
        decreases v@.len() - i,
    {
        if v[i] == *x {
            return Some(i);
        }
        i = i + 1;
    }
    None
}

pub(crate) fn contains_str(v: &Vec<String>, x: &String) -> (r: bool)
    ensures
        r == str_views(v@).contains(x@),
{
    let mut i: usize = 0;
    while i < v.len()
        invariant
            i <= v@.len(),
            forall|j: int| 0 <= j < i ==> v@[j]@ != x@,
        decreases v@.len() - i,
    {
        if v[i] == *x {
            assert(str_views(v@)[i as int] == x@);
            return true;
        }
        i = i + 1;
    }
    assert forall|j: int| 0 <= j < str_views(v@).len() implies str_views(v@)[j] != x@ by {
        assert(str_views(v@)[j] == v@[j]@);
    }
    false
}

fn position_alias(v: &Vec<EntityAlias>, x: &EntityAlias) -> (r: Option<usize>)
    ensures
        match r {
            Some(k) => k < v@.len() && alias_keys(v@)[k as int] == x.key() && forall|j: int|
                0 <= j < k ==> alias_keys(v@)[j] != x.key(),
            None => !alias_keys(v@).contains(x.key()),
        },
{
    let mut i: usize = 0;
    while i < v.len()
        invariant
            i <= v@.len(),
            forall|j: int| 0 <= j < i ==> alias_keys(v@)[j] != x.key(),
        decreases v@.len() - i,
    {
        if v[i].same_as(x) {
            return Some(i);
        }
        i = i + 1;
    }
    None
}

fn contains_alias(v: &Vec<EntityAlias>, x: &EntityAlias) -> (r: bool)
    ensures
        r == alias_keys(v@).contains(x.key()),
{
    let mut i: usize = 0;
    while i < v.len()
        invariant
            i <= v@.len(),
            forall|j: int| 0 <= j < i ==> v@[j].key() != x.key(),
        decreases v@.len() - i,
    {
        if v[i].same_as(x) {
            assert(alias_keys(v@)[i as int] == x.key());
            return true;
        }
        i = i + 1;
    }
    assert forall|j: int| 0 <= j < alias_keys(v@).len() implies alias_keys(v@)[j] != x.key() by {
        assert(alias_keys(v@)[j] == v@[j].key());
    }
    false
}

/// Appends to `cur` each name of `xs` that it lacks.
fn merge_names(cur: &mut Vec<String>, xs: &Vec<String>)
    ensures
        str_views(final(cur)@) == add_all(str_views(old(cur)@), str_views(xs@)),
{
    let ghost start = str_views(cur@);
    let mut k: usize = 0;
    proof {
        assert(str_views(xs@).take(0) =~= Seq::<Seq<char>>::empty());
    }
    while k < xs.len()
        invariant
            k <= xs@.len(),
            str_views(cur@) == add_all(start, str_views(xs@).take(k as int)),
        decreases xs@.len() - k,
    {
        let ghost prev = str_views(cur@);
        proof {
            let t = str_views(xs@).take(k + 1);
            assert(t.drop_last() =~= str_views(xs@).take(k as int));
            assert(t.last() == xs@[k as int]@);
        }
        if !contains_str(cur, &xs[k]) {
            cur.push(xs[k].clone());
            proof {
                assert(str_views(cur@) =~= prev.push(xs@[k as int]@));
            }
        }
        k = k + 1;
    }
    proof {
        assert(str_views(xs@).take(xs@.len() as int) =~= str_views(xs@));
    }
}

fn copy_aliases(v: &Vec<EntityAlias>) -> (r: Vec<EntityAlias>)
    ensures
        alias_keys(r@) == alias_keys(v@),
{
    let mut r: Vec<EntityAlias> = Vec::new();
    let mut i: usize = 0;
    while i < v.len()
        invariant
            i <= v@.len(),
            alias_keys(r@) == alias_keys(v@).take(i as int),
        decreases v@.len() - i,
    {
        let ghost before = r@;
        r.push(v[i].duplicate());
        proof {
            assert(alias_keys(r@) =~= alias_keys(before).push(v@[i as int].key()));
            assert(alias_keys(v@).take(i + 1) =~= alias_keys(v@).take(i as int).push(v@[i as int].key()));
        }
        i = i + 1;
    }
    proof {
        assert(alias_keys(v@).take(v@.len() as int) =~= alias_keys(v@));
    }
    r
}

/// Appends to `cur` each alias of `xs` that it lacks.
fn merge_aliases(cur: &mut Vec<EntityAlias>, xs: &Vec<EntityAlias>)
    ensures
        alias_keys(final(cur)@) == add_all(alias_keys(old(cur)@), alias_keys(xs@)),
{
    let ghost start = alias_keys(cur@);
    let mut k: usize = 0;
    proof {
        assert(alias_keys(xs@).take(0) =~= Seq::<(Seq<char>, Seq<char>)>::empty());
    }
    while k < xs.len()
        invariant
            k <= xs@.len(),
            alias_keys(cur@) == add_all(start, alias_keys(xs@).take(k as int)),
        decreases xs@.len() - k,
    {
        let ghost prev = alias_keys(cur@);
        proof {
            let t = alias_keys(xs@).take(k + 1);
            assert(t.drop_last() =~= alias_keys(xs@).take(k as int));
            assert(t.last() == xs@[k as int].key());
        }
        if !contains_alias(cur, &xs[k]) {
            cur.push(xs[k].duplicate());
            proof {
                assert(alias_keys(cur@) =~= prev.push(xs@[k as int].key()));
            }
        }
        k = k + 1;
    }
    proof {
        assert(alias_keys(xs@).take(xs@.len() as int) =~= alias_keys(xs@));
    }
}

impl IdentityStore {
    pub closed spec fn model(&self) -> Seq<EntityModel> {
        self.records@.map_values(|r: EntityRecord| r.model())
    }

    pub open spec fn wf(&self) -> bool {
        let m = self.model();
        &&& forall|i: int, j: int| 0 <= i < j < m.len() ==> m[i].name != m[j].name
        &&& forall|i: int| 0 <= i < m.len() ==> (#[trigger] m[i]).policies.no_duplicates()
        &&& forall|i: int| 0 <= i < m.len() ==> (#[trigger] m[i]).aliases.no_duplicates()
        &&& forall|i: int, a: (Seq<char>, Seq<char>)|
            0 <= i < m.len() && #[trigger] m[i].aliases.contains(a) ==> !bound_elsewhere(m, i, a)
    }

    /// Whether attaching the policy names `xs` to entity `name` of `old` yields
    /// `new` and the resulting names `r`.
    pub open spec fn attach_policies_post(
        old: IdentityStore,
        new: IdentityStore,
        name: Seq<char>,
        xs: Seq<Seq<char>>,
        r: Result<Seq<Seq<char>>, ErrorKind>,
    ) -> bool {
        match r {
            Ok(v) => exists|i: int|
                {
                    &&& index_of(old.model(), name, i)
                    &&& v == add_all(old.model()[i].policies, xs)
                    &&& new.model() == old.model().update(
                        i,
                        EntityModel { policies: v, ..old.model()[i] },
                    )
                },
            Err(e) => e == ErrorKind::NotFound && !has_entity(old.model(), name) && new.model()
                == old.model(),
        }
    }

    /// Whether attaching the alias keys `xs` to entity `name` of `old` yields
    /// `new` and the resulting keys `r`.
    pub open spec fn attach_aliases_post(
        old: IdentityStore,
        new: IdentityStore,
        name: Seq<char>,
        xs: Seq<(Seq<char>, Seq<char>)>,
        r: Result<Seq<(Seq<char>, Seq<char>)>, ErrorKind>,
    ) -> bool {
        match r {
            Ok(v) => exists|i: int|
                {
                    &&& index_of(old.model(), name, i)
                    &&& forall|k: int| 0 <= k < xs.len() ==> !bound_elsewhere(old.model(), i, #[trigger] xs[k])
                    &&& v == add_all(old.model()[i].aliases, xs)
                    &&& new.model() == old.model().update(
                        i,
                        EntityModel { aliases: v, ..old.model()[i] },
                    )
                },
            Err(ErrorKind::Conflict) => new.model() == old.model() && exists|i: int, k: int|
                index_of(old.model(), name, i) && 0 <= k < xs.len() && #[trigger] bound_elsewhere(
                    old.model(),
                    i,
                    xs[k],
                ),
            Err(ErrorKind::NotFound) => !has_entity(old.model(), name) && new.model()
                == old.model(),
            Err(_) => false,
        }
    }

    pub fn new() -> (r: IdentityStore)
        ensures
            r.wf(),
            r.model().len() == 0,
    {
        let r = IdentityStore { records: Vec::new() };
        assert(r.model() =~= Seq::<EntityModel>::empty());
        r
    }

    fn find(&self, name: &String) -> (r: Option<usize>)
        ensures
            match r {
                Some(i) => index_of(self.model(), name@, i as int),
                None => !has_entity(self.model(), name@),
            },
    {
        let mut i: usize = 0;
        while i < self.records.len()
            invariant
                i <= self.records@.len(),
                forall|j: int| 0 <= j < i ==> self.model()[j].name != name@,
            decreases self.records@.len() - i,
        {
            if self.records[i].entity.name == *name {
                return Some(i);
            }
            i = i + 1;
        }
        None
    }

    /// Creates an entity with a fresh, non-empty name.
    pub fn create(&mut self, name: String) -> (r: Result<Entity, ErrorKind>)
        requires
            old(self).wf(),
        ensures
            final(self).wf(),
            match r {
                Ok(e) => {
                    &&& name@.len() > 0
                    &&& !has_entity(old(self).model(), name@)
                    &&& e.name@ == name@ && !e.disabled
                    &&& final(self).model() == old(self).model().push(
                        EntityModel {
                            name: name@,
                            disabled: false,
                            policies: Seq::empty(),
                            aliases: Seq::empty(),
                        },
                    )
                },
                Err(e) => final(self).model() == old(self).model() && if name@.len() == 0 {
                    e == ErrorKind::InvalidInput
                } else {
                    e == ErrorKind::Conflict && has_entity(old(self).model(), name@)
                },
            },
    {
        if name.as_str().is_empty() {
            return Err(ErrorKind::InvalidInput);
        }
        if self.find(&name).is_some() {
            return Err(ErrorKind::Conflict);
        }
        let ghost m0 = self.model();
        let e = Entity { name: name.clone(), disabled: false };
        let rec = EntityRecord {
            entity: Entity { name, disabled: false },
            policy_names: Vec::new(),
            aliases: Vec::new(),
        };
        proof {
            assert(str_views(rec.policy_names@) =~= Seq::<Seq<char>>::empty());
            assert(alias_keys(rec.aliases@) =~= Seq::<(Seq<char>, Seq<char>)>::empty());
        }
        self.records.push(rec);
        proof {
            assert(self.model() =~= m0.push(rec.model()));
            let m = self.model();
            assert forall|i: int| 0 <= i < m.len() - 1 implies m[i].name != e.name@ by {
                assert(m[i] == m0[i]);
                assert(!index_of(m0, name@, i));
            }
            assert(rec.model().aliases.len() == 0);
        }
        Ok(e)
    }

    /// Adds policy names to an entity, keeping the set free of duplicates, and
    /// returns the resulting set. Unknown policy names are accepted.
    pub fn attach_policies(&mut self, name: &String, policy_names: &Vec<String>) -> (r: Result<
        Vec<String>,
        ErrorKind,
    >)
        requires
            old(self).wf(),
        ensures
            final(self).wf(),
            Self::attach_policies_post(
                *old(self),
                *final(self),
                name@,
                str_views(policy_names@),
                match r {
                    Ok(v) => Ok(str_views(v@)),
                    Err(e) => Err(e),
                },
            ),
    {
        let i = match self.find(name) {
            Some(i) => i,
            None => return Err(ErrorKind::NotFound),
        };
        let ghost m0 = self.model();
        let mut rec = self.records.remove(i);
        proof {
            assert(rec.model() == m0[i as int]);
        }
        merge_names(&mut rec.policy_names, policy_names);
        proof {
            lemma_add_all_no_duplicates(m0[i as int].policies, str_views(policy_names@));
        }
        let result = rec.policy_names.clone();
        self.records.insert(i, rec);
        proof {
            let v = str_views(result@);
            assert(result@ == rec.policy_names@);
            assert(self.model() =~= m0.update(i as int, EntityModel { policies: v, ..m0[i as int] }));
        }
        Ok(result)
    }

    /// Removes one policy name from an entity; an absent name is no change.
    /// Echoes the name.
    pub fn remove_policy(&mut self, name: &String, policy_name: String) -> (r: Result<
        String,
        ErrorKind,
    >)
        requires
            old(self).wf(),
        ensures
            final(self).wf(),
            match r {
                Ok(p) => p == policy_name && exists|i: int|
                    {
                        &&& index_of(old(self).model(), name@, i)
                        &&& final(self).model() == old(self).model().update(
                            i,
                            EntityModel {
                                policies: old(self).model()[i].policies.remove_value(policy_name@),
                                ..old(self).model()[i]
                            },
                        )
                    },
                Err(e) => e == ErrorKind::NotFound && !has_entity(old(self).model(), name@)
                    && final(self).model() == old(self).model(),
            },
    {
        let i = match self.find(name) {
            Some(i) => i,
            None => return Err(ErrorKind::NotFound),
        };
        let ghost m0 = self.model();
        let mut rec = self.records.remove(i);
        let ghost held = str_views(rec.policy_names@);
        proof {
            assert(rec.model() == m0[i as int]);
        }
        let found = position_str(&rec.policy_names, &policy_name);
        if let Some(k) = found {
            rec.policy_names.remove(k);
            proof {
                assert(held[k as int] == policy_name@);
                assert(held.contains(policy_name@));
                held.index_of_first_ensures(policy_name@);
                assert(held.index_of_first(policy_name@) == Some(k as int));
                assert(held.contains(policy_name@));
                assert(str_views(rec.policy_names@) =~= held.remove(k as int));
            }
        } else {
            proof {
                assert(!held.contains(policy_name@));
                held.index_of_first_ensures(policy_name@);
            }
        }
        proof {
            assert(str_views(rec.policy_names@) == held.remove_value(policy_name@));
            assert(rec.model().policies.no_duplicates());
        }
        self.records.insert(i, rec);
        proof {
            assert(self.model() =~= m0.update(
                i as int,
                EntityModel { policies: held.remove_value(policy_name@), ..m0[i as int] },
            ));
        }
        Ok(policy_name)
    }

    fn bound_to_other(&self, i: usize, a: &EntityAlias) -> (r: bool)
        requires
            i < self.model().len(),
        ensures
            r == bound_elsewhere(self.model(), i as int, a.key()),
    {
        let mut j: usize = 0;
        while j < self.records.len()
            invariant
                i < self.records@.len(),
                j <= self.records@.len(),
                forall|q: int| 0 <= q < j && q != i ==> !(#[trigger] self.model()[q]).aliases.contains(a.key()),
            decreases self.records@.len() - j,
        {
            if j != i && contains_alias(&self.records[j].aliases, a) {
                assert(self.model()[j as int].aliases.contains(a.key()));
                return true;
            }
            j = j + 1;
        }
        false
    }

    /// Binds aliases to an entity, keeping its list free of duplicates, and
    /// returns the resulting list. Fails with `Conflict`, changing nothing, when
    /// one of them is bound to another entity.
    pub fn attach_aliases(&mut self, name: &String, aliases: &Vec<EntityAlias>) -> (r: Result<
        Vec<EntityAlias>,
        ErrorKind,
    >)
        requires
            old(self).wf(),
        ensures
            final(self).wf(),
            Self::attach_aliases_post(
                *old(self),
                *final(self),
                name@,
                alias_keys(aliases@),
                match r {
                    Ok(v) => Ok(alias_keys(v@)),
                    Err(e) => Err(e),
                },
            ),
    {
        let i = match self.find(name) {
            Some(i) => i,
            None => return Err(ErrorKind::NotFound),
        };
        let ghost xs = alias_keys(aliases@);
        let mut k: usize = 0;
        while k < aliases.len()
            invariant
                *self == *old(self),
                self.wf(),
                index_of(self.model(), name@, i as int),
                k <= aliases@.len(),
                xs == alias_keys(aliases@),
                forall|q: int| 0 <= q < k ==> !bound_elsewhere(self.model(), i as int, #[trigger] xs[q]),
            decreases aliases@.len() - k,
        {
            if self.bound_to_other(i, &aliases[k]) {
                assert(xs[k as int] == aliases@[k as int].key());
                return Err(ErrorKind::Conflict);
            }
            k = k + 1;
        }
        let ghost m0 = self.model();
        let mut rec = self.records.remove(i);
        proof {
            assert(rec.model() == m0[i as int]);
        }
        merge_aliases(&mut rec.aliases, aliases);
        proof {
            lemma_add_all_no_duplicates(m0[i as int].aliases, xs);
        }
        let result = copy_aliases(&rec.aliases);
        self.records.insert(i, rec);
        proof {
            let v = alias_keys(rec.aliases@);
            let m = self.model();
            assert(m =~= m0.update(i as int, EntityModel { aliases: v, ..m0[i as int] }));
            assert forall|p: int, a: (Seq<char>, Seq<char>)|
                0 <= p < m.len() && #[trigger] m[p].aliases.contains(a) implies !bound_elsewhere(m, p, a) by {
                lemma_add_all_contains(m0[i as int].aliases, xs, a);
                if p == i {
                    if bound_elsewhere(m, p, a) {
                        let q = choose|q: int| 0 <= q < m.len() && q != p && (#[trigger] m[q]).aliases.contains(a);
                        assert(m[q] == m0[q]);
                        if !m0[i as int].aliases.contains(a) {
                            let z = choose|z: int| 0 <= z < xs.len() && xs[z] == a;
                            assert(!bound_elsewhere(m0, i as int, xs[z]));
                        }
                    }
                } else {
                    assert(m[p] == m0[p]);
                    if bound_elsewhere(m, p, a) {
                        let q = choose|q: int| 0 <= q < m.len() && q != p && (#[trigger] m[q]).aliases.contains(a);
                        if q == i {
                            if !m0[i as int].aliases.contains(a) {
                                let z = choose|z: int| 0 <= z < xs.len() && xs[z] == a;
                                assert(!bound_elsewhere(m0, i as int, xs[z]));
                            }
                        } else {
                            assert(m[q] == m0[q]);
                        }
                    }
                }
            }
        }
        Ok(result)
    }

    /// Unbinds one alias from an entity; an absent alias is no change. Echoes
    /// the alias.
    pub fn remove_alias(&mut self, name: &String, alias: EntityAlias) -> (r: Result<
        EntityAlias,
        ErrorKind,
    >)
        requires
            old(self).wf(),
        ensures
            final(self).wf(),
            match r {
                Ok(a) => a == alias && exists|i: int|
                    {
                        &&& index_of(old(self).model(), name@, i)
                        &&& final(self).model() == old(self).model().update(
                            i,
                            EntityModel {
                                aliases: old(self).model()[i].aliases.remove_value(alias.key()),
                                ..old(self).model()[i]
                            },
                        )
                    },
                Err(e) => e == ErrorKind::NotFound && !has_entity(old(self).model(), name@)
                    && final(self).model() == old(self).model(),
            },
    {
        let i = match self.find(name) {
            Some(i) => i,
            None => return Err(ErrorKind::NotFound),
        };
        let ghost m0 = self.model();
        let mut rec = self.records.remove(i);
        let ghost held = alias_keys(rec.aliases@);
        let ghost key = alias.key();
        proof {
            assert(rec.model() == m0[i as int]);
        }
        let found = position_alias(&rec.aliases, &alias);
        if let Some(k) = found {
            rec.aliases.remove(k);
            proof {
                assert(held.contains(key));
                held.index_of_first_ensures(key);
                assert(held.index_of_first(key) == Some(k as int));
                assert(alias_keys(rec.aliases@) =~= held.remove(k as int));
            }
        } else {
            proof {
                held.index_of_first_ensures(key);
            }
        }
        proof {
            assert(alias_keys(rec.aliases@) == held.remove_value(key));
            assert(rec.model().aliases.no_duplicates());
        }
        self.records.insert(i, rec);
        proof {
            let m = self.model();
            assert(m =~= m0.update(
                i as int,
                EntityModel { aliases: held.remove_value(key), ..m0[i as int] },
            ));
            assert forall|p: int, a: (Seq<char>, Seq<char>)|
                0 <= p < m.len() && #[trigger] m[p].aliases.contains(a) implies !bound_elsewhere(m, p, a) by {
                if p == i {
                    let z = choose|z: int| 0 <= z < m[p].aliases.len() && m[p].aliases[z] == a;
                    assert(held.contains(a));
                } else {
                    assert(m[p] == m0[p]);
                }
                if bound_elsewhere(m, p, a) {
                    let q = choose|q: int| 0 <= q < m.len() && q != p && (#[trigger] m[q]).aliases.contains(a);
                    if q == i {
                        assert(held.contains(a));
                    } else {
                        assert(m[q] == m0[q]);
                    }
                }
            }
        }
        Ok(alias)
    }

    /// The policy names attached to an entity.
    pub fn entity_policies(&self, name: &String) -> (r: Result<&Vec<String>, ErrorKind>)
        ensures
            match r {
                Ok(v) => exists|i: int|
                    index_of(self.model(), name@, i) && str_views(v@) == self.model()[i].policies,
                Err(e) => e == ErrorKind::NotFound && !has_entity(self.model(), name@),
            },
    {
        match self.find(name) {
            Some(i) => Ok(&self.records[i].policy_names),
            None => Err(ErrorKind::NotFound),
        }
    }

    /// The aliases bound to an entity.
    pub fn entity_aliases(&self, name: &String) -> (r: Result<&Vec<EntityAlias>, ErrorKind>)
        ensures
            match r {
                Ok(v) => exists|i: int|
                    index_of(self.model(), name@, i) && alias_keys(v@) == self.model()[i].aliases,
                Err(e) => e == ErrorKind::NotFound && !has_entity(self.model(), name@),
            },
    {
        match self.find(name) {
            Some(i) => Ok(&self.records[i].aliases),
            None => Err(ErrorKind::NotFound),
        }
    }
}

/// Attaching the same policy names twice gives the result of attaching them
/// once, and the second attach changes nothing.
pub proof fn attach_policies_twice(
    s0: IdentityStore,
    s1: IdentityStore,
    s2: IdentityStore,
    name: Seq<char>,
    xs: Seq<Seq<char>>,
    r1: Result<Seq<Seq<char>>, ErrorKind>,
    r2: Result<Seq<Seq<char>>, ErrorKind>,
)
    requires
        s0.wf(),
        IdentityStore::attach_policies_post(s0, s1, name, xs, r1),
        IdentityStore::attach_policies_post(s1, s2, name, xs, r2),
        r1 is Ok,
    ensures
        r2 == r1,
        s2.model() == s1.model(),
{
    let v1 = r1->Ok_0;
    let i = choose|i: int|
        {
            &&& index_of(s0.model(), name, i)
            &&& v1 == add_all(s0.model()[i].policies, xs)
            &&& s1.model() == s0.model().update(i, EntityModel { policies: v1, ..s0.model()[i] })
        };
    assert(index_of(s1.model(), name, i));
    lemma_add_all_idempotent(s0.model()[i].policies, xs);
    if let Ok(v2) = r2 {
        let i2 = choose|i2: int|
            {
                &&& index_of(s1.model(), name, i2)
                &&& v2 == add_all(s1.model()[i2].policies, xs)
                &&& s2.model() == s1.model().update(i2, EntityModel { policies: v2, ..s1.model()[i2] })
            };
        assert(s1.model()[i2].name == s0.model()[i2].name);
        assert(i2 == i);
        assert(s2.model() =~= s1.model());
    }
}

/// Attaching an alias already bound to a different entity fails with
/// `Conflict` and leaves every binding as it was.
pub proof fn alias_conflict_keeps_binding(
    s0: IdentityStore,
    s1: IdentityStore,
    name: Seq<char>,
    xs: Seq<(Seq<char>, Seq<char>)>,
    r: Result<Seq<(Seq<char>, Seq<char>)>, ErrorKind>,
    other: int,
    a: (Seq<char>, Seq<char>),
)
    requires
        s0.wf(),
        IdentityStore::attach_aliases_post(s0, s1, name, xs, r),
        has_entity(s0.model(), name),
        0 <= other < s0.model().len(),
        s0.model()[other].name != name,
        s0.model()[other].aliases.contains(a),
        xs.contains(a),
    ensures
        r == Err::<Seq<(Seq<char>, Seq<char>)>, ErrorKind>(ErrorKind::Conflict),
        s1.model() == s0.model(),
{
    if let Ok(v) = r {
        let i = choose|i: int|
            {
                &&& index_of(s0.model(), name, i)
                &&& forall|k: int| 0 <= k < xs.len() ==> !bound_elsewhere(s0.model(), i, #[trigger] xs[k])
                &&& v == add_all(s0.model()[i].aliases, xs)
                &&& s1.model() == s0.model().update(i, EntityModel { aliases: v, ..s0.model()[i] })
            };
        let k = choose|k: int| 0 <= k < xs.len() && xs[k] == a;
        assert(bound_elsewhere(s0.model(), i, xs[k]));
    }
}

} // verus!
