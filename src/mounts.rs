use vstd::prelude::*;

use crate::error::ErrorKind;

verus! {

/// A path-scoped registration of a secret-engine backend. Disabled mounts are
/// kept for audit and lease cleanup.
#[derive(Clone, Debug)]
pub struct Mount {
    pub path: String,
    pub backend: String,
    pub config: String,
    pub enabled: bool,
}

/// Whether position `i` of `s` holds the enabled mount at `path`.
pub open spec fn enabled_at(s: Seq<Mount>, path: Seq<char>, i: int) -> bool {
    0 <= i < s.len() && s[i].enabled && s[i].path@ == path
}

pub open spec fn has_enabled(s: Seq<Mount>, path: Seq<char>) -> bool {
    exists|i: int| enabled_at(s, path, i)
}

/// The registry of mounts.
pub struct MountTable {
    mounts: Vec<Mount>,
}

impl MountTable {
    pub closed spec fn mounts(&self) -> Seq<Mount> {
        self.mounts@
    }

    /// At most one enabled mount per path.
    pub open spec fn wf(&self) -> bool {
        forall|i: int, j: int|
            0 <= i < j < self.mounts().len() && (#[trigger] self.mounts()[i]).enabled && (
            #[trigger] self.mounts()[j]).enabled ==> self.mounts()[i].path@ != self.mounts()[j].path@
    }

    pub fn new() -> (r: MountTable)
        ensures
            r.wf(),
            r.mounts().len() == 0,
    {
        MountTable { mounts: Vec::new() }
    }

    fn find_enabled(&self, path: &String) -> (r: Option<usize>)
        ensures
            match r {
                Some(i) => enabled_at(self.mounts(), path@, i as int),
                None => !has_enabled(self.mounts(), path@),
            },
    {
        let mut i: usize = 0;
        while i < self.mounts.len()
            invariant
                i <= self.mounts@.len(),
                forall|j: int| 0 <= j < i ==> !enabled_at(self.mounts@, path@, j),
            decreases self.mounts@.len() - i,
        {
            if self.mounts[i].enabled && self.mounts[i].path == *path {
                return Some(i);
            }
            i = i + 1;
        }
        None
    }

    /// Every mount, disabled ones included.
    pub fn list(&self) -> (r: &Vec<Mount>)
        ensures
            r@ == self.mounts(),
    {
        &self.mounts
    }

    /// A copy of every mount, disabled ones included.
    pub fn snapshot(&self) -> (r: Vec<Mount>)
        ensures
            r@ == self.mounts(),
    {
        let mut r: Vec<Mount> = Vec::new();
        let mut i: usize = 0;
        while i < self.mounts.len()
            invariant
                i <= self.mounts@.len(),
                r@ == self.mounts@.take(i as int),
            decreases self.mounts@.len() - i,
        {
            let m = &self.mounts[i];
            r.push(Mount {
                path: m.path.clone(),
                backend: m.backend.clone(),
                config: m.config.clone(),
                enabled: m.enabled,
            });
            proof {
                assert(r@ =~= self.mounts@.take(i + 1));
            }
            i = i + 1;
        }
        proof {
            assert(self.mounts@.take(self.mounts@.len() as int) =~= self.mounts@);
        }
        r
    }

    /// Registers an enabled mount at a path that holds no enabled mount.
    pub fn mount(&mut self, path: String, backend: String, config: String) -> (r: Result<(), ErrorKind>)
        requires
            old(self).wf(),
        ensures
            final(self).wf(),
            match r {
                Ok(()) => {
                    &&& path@.len() > 0
                    &&& !has_enabled(old(self).mounts(), path@)
                    &&& final(self).mounts() == old(self).mounts().push(
                        Mount { path, backend, config, enabled: true },
                    )
                },
                Err(e) => *final(self) == *old(self) && if path@.len() == 0 {
                    e == ErrorKind::InvalidInput
                } else {
                    e == ErrorKind::Conflict && has_enabled(old(self).mounts(), path@)
                },
            },
    {
        if path.as_str().is_empty() {
            return Err(ErrorKind::InvalidInput);
        }
        if self.find_enabled(&path).is_some() {
            return Err(ErrorKind::Conflict);
        }
        let ghost s = self.mounts@;
        let ghost p = path@;
        self.mounts.push(Mount { path, backend, config, enabled: true });
        proof {
            assert forall|i: int| 0 <= i < s.len() && s[i].enabled implies s[i].path@ != p by {
                assert(!enabled_at(s, p, i));
            }
        }
        Ok(())
    }

    /// Replaces the configuration of the enabled mount at `path`. Disabled
    /// mounts are kept only as history and are not tuned: a path whose mounts
    /// are all disabled gives `NotFound`.
    pub fn tune(&mut self, path: &String, config: String) -> (r: Result<(), ErrorKind>)
        requires
            old(self).wf(),
        ensures
            final(self).wf(),
            match r {
                Ok(()) => exists|i: int|
                    enabled_at(old(self).mounts(), path@, i) && final(self).mounts()
                        == old(self).mounts().update(i, Mount { config, ..old(self).mounts()[i] }),
                Err(e) => e == ErrorKind::NotFound && !has_enabled(old(self).mounts(), path@)
                    && *final(self) == *old(self),
            },
    {
        let i = match self.find_enabled(path) {
            Some(i) => i,
            None => return Err(ErrorKind::NotFound),
        };
        let ghost s = self.mounts@;
        let mut m = self.mounts.remove(i);
        m.config = config;
        self.mounts.insert(i, m);
        proof {
            assert(self.mounts@ =~= s.update(i as int, Mount { config, ..s[i as int] }));
        }
        Ok(())
    }

    /// Marks the enabled mount at `path` disabled.
    pub fn disable(&mut self, path: &String) -> (r: Result<(), ErrorKind>)
        requires
            old(self).wf(),
        ensures
            final(self).wf(),
            !has_enabled(final(self).mounts(), path@),
            match r {
                Ok(()) => exists|i: int|
                    enabled_at(old(self).mounts(), path@, i) && final(self).mounts()
                        == old(self).mounts().update(i, Mount { enabled: false, ..old(self).mounts()[i] }),
                Err(e) => e == ErrorKind::NotFound && !has_enabled(old(self).mounts(), path@)
                    && *final(self) == *old(self),
            },
    {
        let i = match self.find_enabled(path) {
            Some(i) => i,
            None => return Err(ErrorKind::NotFound),
        };
        let ghost s = self.mounts@;
        let mut m = self.mounts.remove(i);
        m.enabled = false;
        self.mounts.insert(i, m);
        proof {
            assert(self.mounts@ =~= s.update(i as int, Mount { enabled: false, ..s[i as int] }));
            assert forall|j: int| !enabled_at(self.mounts@, path@, j) by {
                if enabled_at(self.mounts@, path@, j) {
                    assert(j != i);
                    assert(self.mounts@[j] == s[j]);
                    if j < i {
                        assert(self.mounts()[j].path@ != s[i as int].path@);
                    } else {
                        assert(s[i as int].path@ != self.mounts()[j].path@);
                    }
                }
            }
        }
        Ok(())
    }
}

} // verus!
