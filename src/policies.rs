use vstd::prelude::*;

use crate::error::ErrorKind;
use crate::identity::{contains_str, str_views};
use crate::paths::{has_prefix, starts_with};

verus! {

/// The verb of a request, which is also the capability a policy grants.
#[derive(Clone, Copy, Debug, PartialEq, Eq, Structural)]
pub enum Operation {
    Create,
    Read,
    Update,
    Delete,
    Revoke,
}

/// Grants `capabilities` on `path`, or on every path that begins with it when
/// `glob` is set.
#[derive(Clone, Debug)]
pub struct PathRule {
    pub path: String,
    pub glob: bool,
    pub capabilities: Vec<Operation>,
}

/// A named set of path rules.
#[derive(Clone, Debug)]
pub struct Policy {
    pub name: String,
    pub rules: Vec<PathRule>,
}

pub open spec fn rule_grants(rule: PathRule, path: Seq<char>, op: Operation) -> bool {
    &&& if rule.glob {
        has_prefix(path, rule.path@)
    } else {
        path == rule.path@
    }
    &&& rule.capabilities@.contains(op)
}

pub open spec fn policy_grants(p: Policy, path: Seq<char>, op: Operation) -> bool {
    exists|k: int| 0 <= k < p.rules@.len() && rule_grants(#[trigger] p.rules@[k], path, op)
}

/// Whether some policy of `s` named in `names` grants `op` on `path`. Names
/// with no policy grant nothing.
pub open spec fn names_grant(
    s: Seq<Policy>,
    names: Seq<Seq<char>>,
    path: Seq<char>,
    op: Operation,
) -> bool {
    exists|i: int|
        0 <= i < s.len() && names.contains((#[trigger] s[i]).name@) && policy_grants(s[i], path, op)
}

pub open spec fn policy_index(s: Seq<Policy>, name: Seq<char>, i: int) -> bool {
    0 <= i < s.len() && s[i].name@ == name
}

pub open spec fn has_policy(s: Seq<Policy>, name: Seq<char>) -> bool {
    exists|i: int| policy_index(s, name, i)
}

fn rule_applies(rule: &PathRule, path: &str, op: Operation) -> (r: bool)
    ensures
        r == rule_grants(*rule, path@, op),
{
    let on_path = if rule.glob {
        starts_with(path, rule.path.as_str())
    } else {
        let p = rule.path.as_str();
        let n = p.unicode_len();
        if n != path.unicode_len() {
            false
        } else {
            let prefix = starts_with(path, p);
            proof {
                assert(path@ =~= path@.subrange(0, n as int));
            }
            prefix
        }
    };
    assert(on_path == if rule.glob {
        has_prefix(path@, rule.path@)
    } else {
        path@ == rule.path@
    });
    let mut k: usize = 0;
    while k < rule.capabilities.len()
        invariant
            k <= rule.capabilities@.len(),
            forall|j: int| 0 <= j < k ==> rule.capabilities@[j] != op,
            on_path == if rule.glob {
                has_prefix(path@, rule.path@)
            } else {
                path@ == rule.path@
            },
        decreases rule.capabilities@.len() - k,
    {
        if rule.capabilities[k] == op {
            assert(rule.capabilities@[k as int] == op);
            return on_path;
        }
        k = k + 1;
    }
    false
}

fn policy_applies(p: &Policy, path: &str, op: Operation) -> (r: bool)
    ensures
        r == policy_grants(*p, path@, op),
{
    let mut k: usize = 0;
    while k < p.rules.len()
        invariant
            k <= p.rules@.len(),
            forall|j: int| 0 <= j < k ==> !rule_grants(#[trigger] p.rules@[j], path@, op),
        decreases p.rules@.len() - k,
    {
        if rule_applies(&p.rules[k], path, op) {
            return true;
        }
        k = k + 1;
    }
    false
}

/// Named authorization policies.
pub struct PolicyStore {
    policies: Vec<Policy>,
}

impl PolicyStore {
    pub closed spec fn policies(&self) -> Seq<Policy> {
        self.policies@
    }

    /// Names are unique.
    pub open spec fn wf(&self) -> bool {
        forall|i: int, j: int|
            0 <= i < j < self.policies().len() ==> (#[trigger] self.policies()[i]).name@ != (
            #[trigger] self.policies()[j]).name@
    }

    pub fn new() -> (r: PolicyStore)
        ensures
            r.wf(),
            r.policies().len() == 0,
    {
        PolicyStore { policies: Vec::new() }
    }

    fn find(&self, name: &String) -> (r: Option<usize>)
        ensures
            match r {
                Some(i) => policy_index(self.policies(), name@, i as int),
                None => !has_policy(self.policies(), name@),
            },
    {
        let mut i: usize = 0;
        while i < self.policies.len()
            invariant
                i <= self.policies@.len(),
                forall|j: int| 0 <= j < i ==> !policy_index(self.policies@, name@, j),
            decreases self.policies@.len() - i,
        {
            if self.policies[i].name == *name {
                return Some(i);
            }
            i = i + 1;
        }
        None
    }

    /// Creates a policy, or overwrites the rules of the one with its name.
    pub fn upsert(&mut self, policy: Policy) -> (r: Result<(), ErrorKind>)
        requires
            old(self).wf(),
        ensures
            final(self).wf(),
            policy.name@.len() == 0 ==> r == Err::<(), ErrorKind>(ErrorKind::InvalidInput)
                && *final(self) == *old(self),
            policy.name@.len() > 0 ==> r is Ok && if has_policy(old(self).policies(), policy.name@) {
                exists|i: int|
                    policy_index(old(self).policies(), policy.name@, i) && final(self).policies()
                        == old(self).policies().update(i, policy)
            } else {
                final(self).policies() == old(self).policies().push(policy)
            },
    {
        if policy.name.as_str().is_empty() {
            return Err(ErrorKind::InvalidInput);
        }
        let ghost s = self.policies@;
        match self.find(&policy.name) {
            Some(i) => {
                self.policies.set(i, policy);
                proof {
                    assert forall|a: int, b: int|
                        0 <= a < b < self.policies().len() implies (#[trigger] self.policies()[a]).name@
                        != (#[trigger] self.policies()[b]).name@ by {
                        if a == i {
                            assert(s[a].name@ != s[b].name@);
                        } else if b == i {
                            assert(s[a].name@ != s[b].name@);
                        } else {
                            assert(s[a].name@ != s[b].name@);
                        }
                    }
                }
            },
            None => {
                let ghost n = policy.name@;
                self.policies.push(policy);
                proof {
                    assert forall|a: int, b: int|
                        0 <= a < b < self.policies().len() implies (#[trigger] self.policies()[a]).name@
                        != (#[trigger] self.policies()[b]).name@ by {
                        if b == s.len() {
                            assert(!policy_index(s, n, a));
                        } else {
                            assert(s[a].name@ != s[b].name@);
                        }
                    }
                }
            },
        }
        Ok(())
    }

    /// Removes a policy by name. References to it elsewhere are left dangling
    /// and grant nothing.
    pub fn delete(&mut self, name: &String) -> (r: Result<(), ErrorKind>)
        requires
            old(self).wf(),
        ensures
            final(self).wf(),
            !has_policy(final(self).policies(), name@),
            match r {
                Ok(()) => exists|i: int|
                    policy_index(old(self).policies(), name@, i) && final(self).policies()
                        == old(self).policies().remove(i),
                Err(e) => e == ErrorKind::NotFound && !has_policy(old(self).policies(), name@)
                    && *final(self) == *old(self),
            },
    {
        let i = match self.find(name) {
            Some(i) => i,
            None => return Err(ErrorKind::NotFound),
        };
        let ghost s = self.policies@;
        self.policies.remove(i);
        proof {
            let t = self.policies@;
            assert forall|a: int, b: int|
                0 <= a < b < t.len() implies (#[trigger] t[a]).name@ != (#[trigger] t[b]).name@ by {
                let a0 = if a < i { a } else { a + 1 };
                let b0 = if b < i { b } else { b + 1 };
                assert(t[a] == s[a0] && t[b] == s[b0]);
                assert(s[a0].name@ != s[b0].name@);
            }
            assert forall|j: int| !policy_index(t, name@, j) by {
                if policy_index(t, name@, j) {
                    let j0 = if j < i { j } else { j + 1 };
                    assert(t[j] == s[j0]);
                    if j0 < i {
                        assert(s[j0].name@ != s[i as int].name@);
                    } else {
                        assert(s[i as int].name@ != s[j0].name@);
                    }
                }
            }
        }
        Ok(())
    }

    /// The names of all policies, in order.
    pub fn names(&self) -> (r: Vec<String>)
        ensures
            str_views(r@) == self.policies().map_values(|p: Policy| p.name@),
    {
        let mut r: Vec<String> = Vec::new();
        let mut i: usize = 0;
        while i < self.policies.len()
            invariant
                i <= self.policies@.len(),
                str_views(r@) == self.policies@.take(i as int).map_values(|p: Policy| p.name@),
            decreases self.policies@.len() - i,
        {
            let ghost before = r@;
            r.push(self.policies[i].name.clone());
            proof {
                assert(str_views(r@) =~= str_views(before).push(self.policies@[i as int].name@));
                assert(self.policies@.take(i + 1) =~= self.policies@.take(i as int).push(
                    self.policies@[i as int],
                ));
                assert(self.policies@.take(i + 1).map_values(|p: Policy| p.name@) =~= self.policies@.take(
                    i as int,
                ).map_values(|p: Policy| p.name@).push(self.policies@[i as int].name@));
            }
            i = i + 1;
        }
        proof {
            assert(self.policies@.take(self.policies@.len() as int) =~= self.policies@);
        }
        r
    }

    /// Whether a policy named in `names` grants `op` on `path`.
    pub fn grants(&self, names: &Vec<String>, path: &str, op: Operation) -> (r: bool)
        ensures
            r == names_grant(self.policies(), str_views(names@), path@, op),
    {
        let mut i: usize = 0;
        while i < self.policies.len()
            invariant
                i <= self.policies@.len(),
                forall|j: int|
                    0 <= j < i ==> !(str_views(names@).contains((#[trigger] self.policies@[j]).name@)
                        && policy_grants(self.policies@[j], path@, op)),
            decreases self.policies@.len() - i,
        {
            if contains_str(names, &self.policies[i].name) && policy_applies(&self.policies[i], path, op) {
                return true;
            }
            i = i + 1;
        }
        false
    }
}

} // verus!
