use vstd::prelude::*;

use crate::error::ErrorKind;
use crate::paths::{has_prefix, starts_with};

verus! {

broadcast use vstd::seq_lib::group_filter_ensures;

/// A time-bound grant for a dynamically issued secret.
#[derive(Debug)]
pub struct Lease {
    pub id: u64,
    /// The token that owns the lease.
    pub token: u64,
    /// Path of the mount whose engine issued the secret.
    pub mount_path: String,
    /// Longest extension one renewal may grant.
    pub ttl: u64,
    pub renewable: bool,
    pub expires_at: u64,
}

impl Lease {
    /// A copy of this lease.
    pub fn duplicate(&self) -> (r: Lease)
        ensures
            r == *self,
    {
        Lease {
            id: self.id,
            token: self.token,
            mount_path: self.mount_path.clone(),
            ttl: self.ttl,
            renewable: self.renewable,
            expires_at: self.expires_at,
        }
    }
}

/// Which leases a sweep addresses.
pub enum LeaseSelector {
    Id(u64),
    MountPrefix(String),
    Owner(u64),
    /// Leases whose expiry is at or before the given instant.
    ExpiredAt(u64),
}

impl LeaseSelector {
    pub open spec fn selects(&self, l: Lease) -> bool {
        match self {
            LeaseSelector::Id(id) => l.id == *id,
            LeaseSelector::MountPrefix(p) => has_prefix(l.mount_path@, p@),
            LeaseSelector::Owner(t) => l.token == *t,
            LeaseSelector::ExpiredAt(now) => l.expires_at <= *now,
        }
    }

    pub fn matches(&self, l: &Lease) -> (r: bool)
        ensures
            r == self.selects(*l),
    {
        match self {
            LeaseSelector::Id(id) => l.id == *id,
            LeaseSelector::MountPrefix(p) => starts_with(l.mount_path.as_str(), p.as_str()),
            LeaseSelector::Owner(t) => l.token == *t,
            LeaseSelector::ExpiredAt(now) => l.expires_at <= *now,
        }
    }
}

/// Whether a lease survives a sweep by `sel` in which the engines failed to
/// release the leases listed in `unreleased`.
pub open spec fn survives(sel: LeaseSelector, unreleased: Seq<u64>, l: Lease) -> bool {
    !sel.selects(l) || unreleased.contains(l.id)
}

/// Whether some lease of `s` carries `id`.
pub open spec fn holds_id(s: Seq<Lease>, id: u64) -> bool {
    exists|i: int| 0 <= i < s.len() && s[i].id == id
}

/// Whether `i` is the first position of `s` that carries `id`.
pub open spec fn first_with_id(s: Seq<Lease>, id: u64, i: int) -> bool {
    &&& 0 <= i < s.len()
    &&& s[i].id == id
    &&& forall|j: int| 0 <= j < i ==> s[j].id != id
}

/// The ids of the leases of `s` that `sel` selects, in order.
pub open spec fn selected_ids(s: Seq<Lease>, sel: LeaseSelector) -> Seq<u64> {
    s.filter(|l: Lease| sel.selects(l)).map_values(|l: Lease| l.id)
}

/// Whether renewing lease `id` by `increment` at `now` takes the leases from
/// `old` to `new` with result `r`.
pub open spec fn renew_post(
    old: Seq<Lease>,
    new: Seq<Lease>,
    id: u64,
    increment: u64,
    now: u64,
    r: Result<u64, ErrorKind>,
) -> bool {
    match r {
        Ok(e) => exists|i: int|
            {
                let l = #[trigger] old[i];
                &&& first_with_id(old, id, i)
                &&& l.renewable
                &&& e == now + (if increment < l.ttl {
                    increment
                } else {
                    l.ttl
                })
                &&& new == old.update(i, Lease { expires_at: e, ..l })
            },
        Err(err) => new == old && match err {
            ErrorKind::NotFound => !holds_id(old, id),
            ErrorKind::InvalidInput => exists|i: int|
                {
                    let l = #[trigger] old[i];
                    &&& first_with_id(old, id, i)
                    &&& (!l.renewable || now + (if increment < l.ttl {
                        increment
                    } else {
                        l.ttl
                    }) > u64::MAX)
                },
            _ => false,
        },
    }
}

/// Whether revoking lease `id`, whose engine did (`released`) or did not
/// release its resource, takes the leases from `old` to `new` with result `r`.
pub open spec fn revoke_post(
    old: Seq<Lease>,
    new: Seq<Lease>,
    id: u64,
    released: bool,
    r: Result<(), ErrorKind>,
) -> bool {
    if !holds_id(old, id) {
        r == Err::<(), ErrorKind>(ErrorKind::NotFound) && new == old
    } else if !released {
        r == Err::<(), ErrorKind>(ErrorKind::Internal) && new == old
    } else {
        r is Ok && new == old.filter(|l: Lease| l.id != id)
    }
}

/// Every outstanding lease, tracked centrally.
pub struct LeaseManager {
    leases: Vec<Lease>,
    next_id: u64,
}

fn contains_id(ids: &Vec<u64>, id: u64) -> (r: bool)
    ensures
        r == ids@.contains(id),
{
    let mut i: usize = 0;
    while i < ids.len()
        invariant
            i <= ids@.len(),
            forall|j: int| 0 <= j < i ==> ids@[j] != id,
        decreases ids@.len() - i,
    {
        if ids[i] == id {
            return true;
        }
        i = i + 1;
    }
    false
}

impl LeaseManager {
    pub closed spec fn leases(&self) -> Seq<Lease> {
        self.leases@
    }

    pub closed spec fn wf(&self) -> bool {
        forall|i: int| 0 <= i < self.leases@.len() ==> self.leases@[i].id < self.next_id
    }

    /// Whether a fresh id is left to issue.
    pub closed spec fn can_issue(&self) -> bool {
        self.next_id < u64::MAX
    }

    pub fn new() -> (r: LeaseManager)
        ensures
            r.wf(),
            r.can_issue(),
            r.leases().len() == 0,
    {
        LeaseManager { leases: Vec::new(), next_id: 0 }
    }

    /// Records a lease issued by the engine mounted at `mount_path` to `token`.
    pub fn issue(&mut self, token: u64, mount_path: String, ttl: u64, renewable: bool, now: u64) -> (r:
        Result<u64, ErrorKind>)
        requires
            old(self).wf(),
        ensures
            final(self).wf(),
            now + ttl > u64::MAX ==> r == Err::<u64, ErrorKind>(ErrorKind::InvalidInput),
            now + ttl <= u64::MAX && !old(self).can_issue() ==> r == Err::<u64, ErrorKind>(
                ErrorKind::Internal,
            ),
            now + ttl <= u64::MAX && old(self).can_issue() ==> r is Ok,
            match r {
                Ok(id) => {
                    &&& now + ttl <= u64::MAX
                    &&& !holds_id(old(self).leases(), id)
                    &&& final(self).leases() == old(self).leases().push(
                        Lease { id, token, mount_path, ttl, renewable, expires_at: (now + ttl) as u64 },
                    )
                },
                Err(e) => *final(self) == *old(self) && (e == ErrorKind::InvalidInput || e
                    == ErrorKind::Internal),
            },
    {
        if ttl > u64::MAX - now {
            return Err(ErrorKind::InvalidInput);
        }
        if self.next_id == u64::MAX {
            return Err(ErrorKind::Internal);
        }
        let id = self.next_id;
        self.leases.push(Lease { id, token, mount_path, ttl, renewable, expires_at: now + ttl });
        self.next_id = self.next_id + 1;
        Ok(id)
    }

    fn position(&self, id: u64) -> (r: Option<usize>)
        ensures
            match r {
                Some(i) => first_with_id(self.leases(), id, i as int),
                None => !holds_id(self.leases(), id),
            },
    {
        let mut i: usize = 0;
        while i < self.leases.len()
            invariant
                i <= self.leases@.len(),
                forall|j: int| 0 <= j < i ==> self.leases@[j].id != id,
            decreases self.leases@.len() - i,
        {
            if self.leases[i].id == id {
                return Some(i);
            }
            i = i + 1;
        }
        None
    }

    /// Fetches a lease by id.
    pub fn lookup(&self, id: u64) -> (r: Result<&Lease, ErrorKind>)
        ensures
            match r {
                Ok(l) => exists|i: int| first_with_id(self.leases(), id, i) && *l == self.leases()[i],
                Err(e) => e == ErrorKind::NotFound && !holds_id(self.leases(), id),
            },
    {
        match self.position(id) {
            Some(i) => Ok(&self.leases[i]),
            None => Err(ErrorKind::NotFound),
        }
    }

    /// The ids of the leases that `sel` selects, in the order they were issued.
    pub fn list_matching(&self, sel: &LeaseSelector) -> (r: Vec<u64>)
        ensures
            r@ == selected_ids(self.leases(), *sel),
    {
        let ghost s = self.leases@;
        let ghost f = |l: Lease| sel.selects(l);
        let mut r: Vec<u64> = Vec::new();
        let mut i: usize = 0;
        proof {
            assert(s.take(0) =~= Seq::<Lease>::empty());
            assert(r@ =~= s.take(0).filter(f).map_values(|l: Lease| l.id));
        }
        while i < self.leases.len()
            invariant
                s == self.leases@,
                f == (|l: Lease| sel.selects(l)),
                i <= s.len(),
                r@ == s.take(i as int).filter(f).map_values(|l: Lease| l.id),
            decreases s.len() - i,
        {
            proof {
                assert(s.take(i + 1) =~= s.take(i as int).push(s[i as int]));
                s.take(i as int).lemma_filter_push(s[i as int], f);
            }
            if sel.matches(&self.leases[i]) {
                r.push(self.leases[i].id);
                proof {
                    assert(r@ =~= s.take(i + 1).filter(f).map_values(|l: Lease| l.id));
                }
            }
            i = i + 1;
        }
        proof {
            assert(s.take(s.len() as int) =~= s);
        }
        r
    }

    /// Extends the expiry of a renewable lease to `now` plus `increment`, but by
    /// no more than the lease's ttl.
    pub fn renew(&mut self, id: u64, increment: u64, now: u64) -> (r: Result<u64, ErrorKind>)
        requires
            old(self).wf(),
        ensures
            final(self).wf(),
            renew_post(old(self).leases(), final(self).leases(), id, increment, now, r),
            r is Err ==> *final(self) == *old(self),
    {
        let i = match self.position(id) {
            Some(i) => i,
            None => return Err(ErrorKind::NotFound),
        };
        if !self.leases[i].renewable {
            return Err(ErrorKind::InvalidInput);
        }
        let ttl = self.leases[i].ttl;
        let extension = if increment < ttl {
            increment
        } else {
            ttl
        };
        if extension > u64::MAX - now {
            return Err(ErrorKind::InvalidInput);
        }
        let ghost s = self.leases@;
        let mut l = self.leases.remove(i);
        l.expires_at = now + extension;
        self.leases.insert(i, l);
        proof {
            assert(self.leases@ =~= s.update(i as int, Lease { expires_at: (now + extension) as u64, ..s[i as int] }));
            assert(forall|j: int| 0 <= j < self.leases@.len() ==> #[trigger] self.leases@[j].id == s[j].id);
        }
        Ok(now + extension)
    }

    /// Removes every lease that `sel` selects, except those listed in
    /// `unreleased`: the engines could not release their backing resources, so
    /// they stay visible. Succeeds exactly when no selected lease remains.
    pub fn revoke_matching(&mut self, sel: &LeaseSelector, unreleased: &Vec<u64>) -> (r: Result<(), ErrorKind>)
        requires
            old(self).wf(),
        ensures
            final(self).wf(),
            final(self).leases() == old(self).leases().filter(
                |l: Lease| survives(*sel, unreleased@, l),
            ),
            r is Ok <==> forall|i: int|
                0 <= i < final(self).leases().len() ==> !sel.selects(#[trigger] final(self).leases()[i]),
            r is Err ==> r == Err::<(), ErrorKind>(ErrorKind::Internal),
    {
        let ghost s = self.leases@;
        let ghost f = |l: Lease| survives(*sel, unreleased@, l);
        let ghost k: int = 0;
        let mut i: usize = 0;
        let mut all_gone = true;
        proof {
            assert(s.take(0) =~= Seq::<Lease>::empty());
            assert(self.leases@ =~= s.take(0).filter(f) + s.skip(0));
        }
        while i < self.leases.len()
            invariant
                f == (|l: Lease| survives(*sel, unreleased@, l)),
                0 <= k <= s.len(),
                i == s.take(k).filter(f).len(),
                self.leases@ == s.take(k).filter(f) + s.skip(k),
                forall|j: int| 0 <= j < s.len() ==> s[j].id < self.next_id,
                all_gone <==> forall|j: int| 0 <= j < i ==> !sel.selects(#[trigger] self.leases@[j]),
            decreases self.leases@.len() - i,
        {
            proof {
                assert(s.take(k + 1) =~= s.take(k).push(s[k]));
                s.take(k).lemma_filter_push(s[k], f);
                assert(self.leases@[i as int] == s[k]);
            }
            let ghost before = self.leases@;
            let selected = sel.matches(&self.leases[i]);
            if selected && !contains_id(unreleased, self.leases[i].id) {
                self.leases.remove(i);
                proof {
                    assert(forall|j: int| 0 <= j < i ==> self.leases@[j] == before[j]);
                    assert(self.leases@ =~= s.take(k + 1).filter(f) + s.skip(k + 1));
                }
            } else {
                if selected {
                    all_gone = false;
                }
                proof {
                    assert(!sel.selects(self.leases@[i as int]) <==> !selected);
                }
                i = i + 1;
                proof {
                    assert(self.leases@ =~= s.take(k + 1).filter(f) + s.skip(k + 1));
                }
            }
            proof {
                k = k + 1;
            }
        }
        proof {
            assert(s.take(s.len() as int) =~= s);
            assert(self.leases@ =~= s.filter(f));
            assert(i == self.leases@.len());
            assert(self.leases() == self.leases@);
            assert(all_gone <==> forall|j: int|
                0 <= j < self.leases@.len() ==> !sel.selects(#[trigger] self.leases@[j]));
            assert forall|j: int| 0 <= j < self.leases@.len() implies self.leases@[j].id < self.next_id by {
                s.lemma_filter_contains_rev(f, self.leases@[j]);
            }
        }
        if all_gone {
            Ok(())
        } else {
            Err(ErrorKind::Internal)
        }
    }

    /// Revokes one lease once its engine has released (`released`) the backing
    /// resource; a lease whose release failed is kept.
    pub fn revoke(&mut self, id: u64, released: bool) -> (r: Result<(), ErrorKind>)
        requires
            old(self).wf(),
        ensures
            final(self).wf(),
            revoke_post(old(self).leases(), final(self).leases(), id, released, r),
            r is Err ==> *final(self) == *old(self),
    {
        if self.position(id).is_none() {
            return Err(ErrorKind::NotFound);
        }
        if !released {
            return Err(ErrorKind::Internal);
        }
        let sel = LeaseSelector::Id(id);
        let empty: Vec<u64> = Vec::new();
        let _ = self.revoke_matching(&sel, &empty);
        proof {
            assert(old(self).leases().filter(|l: Lease| survives(sel, empty@, l))
                =~= old(self).leases().filter(|l: Lease| l.id != id)) by {
                assert((|l: Lease| survives(sel, empty@, l)) =~= (|l: Lease| l.id != id));
            }
        }
        Ok(())
    }

    /// Passive expiration: revokes every lease whose expiry is at or before
    /// `now`, except those listed in `unreleased`, whose engines could not
    /// release their resources. Succeeds exactly when no expired lease remains.
    pub fn expire(&mut self, now: u64, unreleased: &Vec<u64>) -> (r: Result<(), ErrorKind>)
        requires
            old(self).wf(),
        ensures
            final(self).wf(),
            final(self).leases() == old(self).leases().filter(
                |l: Lease| l.expires_at > now || unreleased@.contains(l.id),
            ),
            r is Ok <==> forall|i: int|
                0 <= i < final(self).leases().len() ==> (#[trigger] final(self).leases()[i]).expires_at
                    > now,
            r is Err ==> r == Err::<(), ErrorKind>(ErrorKind::Internal),
    {
        let sel = LeaseSelector::ExpiredAt(now);
        let r = self.revoke_matching(&sel, unreleased);
        proof {
            assert((|l: Lease| survives(sel, unreleased@, l)) =~= (|l: Lease|
                l.expires_at > now || unreleased@.contains(l.id)));
        }
        r
    }
}

} // verus!
