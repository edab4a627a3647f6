use vstd::prelude::*;

use crate::error::ErrorKind;

verus! {

/// Cluster-wide readiness phase.
#[derive(Clone, Copy, Debug, PartialEq, Eq, Structural)]
pub enum LifecycleState {
    Uninitialized,
    Sealed,
    Unsealed,
}

/// What one unseal contribution achieved.
#[derive(Clone, Copy, Debug, PartialEq, Eq, Structural)]
pub enum UnsealProgress {
    /// Below threshold: `progress` of `threshold` contributions are held.
    Pending { progress: u64, threshold: u64 },
    /// Threshold reached: the vault is now unsealed.
    Complete,
}

/// Read-only report of the lifecycle state and unseal progress.
#[derive(Clone, Copy, Debug, PartialEq, Eq, Structural)]
pub struct StatusReport {
    pub state: LifecycleState,
    pub initialized: bool,
    pub progress: u64,
    pub threshold: u64,
}

/// The process-wide lifecycle state, with the unseal contributions held so far.
pub struct LifecycleHolder {
    state: LifecycleState,
    threshold: u64,
    shares: Vec<Vec<u8>>,
}

impl LifecycleHolder {
    pub closed spec fn state(&self) -> LifecycleState {
        self.state
    }

    /// Contributions needed to unseal (zero before initialization).
    pub closed spec fn threshold(&self) -> nat {
        self.threshold as nat
    }

    /// Contributions held toward the current unseal attempt.
    pub closed spec fn shares(&self) -> Seq<Seq<u8>> {
        self.shares@.map_values(|s: Vec<u8>| s@)
    }

    pub closed spec fn wf(&self) -> bool {
        &&& (self.state == LifecycleState::Uninitialized) == (self.threshold == 0)
        &&& self.state == LifecycleState::Sealed ==> self.shares@.len() < self.threshold
        &&& self.state != LifecycleState::Sealed ==> self.shares@.len() == 0
    }

    /// Whether an initialization from `old` with `threshold` yields `new` and `r`.
    pub open spec fn init_post(
        old: LifecycleHolder,
        new: LifecycleHolder,
        threshold: u64,
        r: Result<(), ErrorKind>,
    ) -> bool {
        if old.state() != LifecycleState::Uninitialized {
            r == Err::<(), ErrorKind>(ErrorKind::InvalidState) && new == old
        } else if threshold == 0 {
            r == Err::<(), ErrorKind>(ErrorKind::InvalidInput) && new == old
        } else {
            &&& r is Ok
            &&& new.state() == LifecycleState::Sealed
            &&& new.threshold() == threshold
            &&& new.shares().len() == 0
        }
    }

    /// Whether an unseal contribution of `share` from `old` yields `new` and `r`.
    pub open spec fn unseal_post(
        old: LifecycleHolder,
        new: LifecycleHolder,
        share: Seq<u8>,
        r: Result<UnsealProgress, ErrorKind>,
    ) -> bool {
        if old.state() != LifecycleState::Sealed {
            r == Err::<UnsealProgress, ErrorKind>(ErrorKind::InvalidState) && new == old
        } else if share.len() == 0 {
            r == Err::<UnsealProgress, ErrorKind>(ErrorKind::InvalidInput) && new == old
        } else if old.shares().len() + 1 < old.threshold() {
            &&& r == Ok::<UnsealProgress, ErrorKind>(
                UnsealProgress::Pending {
                    progress: (old.shares().len() + 1) as u64,
                    threshold: old.threshold() as u64,
                },
            )
            &&& new.state() == LifecycleState::Sealed
            &&& new.threshold() == old.threshold()
            &&& new.shares() == old.shares().push(share)
        } else {
            &&& r == Ok::<UnsealProgress, ErrorKind>(UnsealProgress::Complete)
            &&& new.state() == LifecycleState::Unsealed
            &&& new.threshold() == old.threshold()
            &&& new.shares().len() == 0
        }
    }

    /// Whether sealing from `old` yields `new` and `r`.
    pub open spec fn seal_post(
        old: LifecycleHolder,
        new: LifecycleHolder,
        r: Result<(), ErrorKind>,
    ) -> bool {
        if old.state() != LifecycleState::Unsealed {
            r == Err::<(), ErrorKind>(ErrorKind::InvalidState) && new == old
        } else {
            &&& r is Ok
            &&& new.state() == LifecycleState::Sealed
            &&& new.threshold() == old.threshold()
            &&& new.shares().len() == 0
        }
    }

    pub fn new() -> (r: LifecycleHolder)
        ensures
            r.wf(),
            r.state() == LifecycleState::Uninitialized,
            r.shares().len() == 0,
    {
        LifecycleHolder { state: LifecycleState::Uninitialized, threshold: 0, shares: Vec::new() }
    }

    pub fn current(&self) -> (r: LifecycleState)
        ensures
            r == self.state(),
    {
        self.state
    }

    /// Initializes the vault with the number of contributions that unseal it.
    pub fn init(&mut self, threshold: u64) -> (r: Result<(), ErrorKind>)
        requires
            old(self).wf(),
        ensures
            final(self).wf(),
            Self::init_post(*old(self), *final(self), threshold, r),
    {
        if self.state != LifecycleState::Uninitialized {
            return Err(ErrorKind::InvalidState);
        }
        if threshold == 0 {
            return Err(ErrorKind::InvalidInput);
        }
        self.state = LifecycleState::Sealed;
        self.threshold = threshold;
        self.shares = Vec::new();
        proof {
            assert(self.shares() =~= Seq::<Seq<u8>>::empty());
        }
        Ok(())
    }

    /// Accepts one contribution toward unsealing.
    pub fn unseal(&mut self, share: Vec<u8>) -> (r: Result<UnsealProgress, ErrorKind>)
        requires
            old(self).wf(),
        ensures
            final(self).wf(),
            Self::unseal_post(*old(self), *final(self), share@, r),
    {
        if self.state != LifecycleState::Sealed {
            return Err(ErrorKind::InvalidState);
        }
        if share.len() == 0 {
            return Err(ErrorKind::InvalidInput);
        }
        let ghost old_shares = self.shares();
        let ghost share_view = share@;
        let held: u64 = self.shares.len() as u64 + 1;
        if held < self.threshold {
            self.shares.push(share);
            proof {
                assert(self.shares() =~= old_shares.push(share_view));
            }
            Ok(UnsealProgress::Pending { progress: held, threshold: self.threshold })
        } else {
            self.shares = Vec::new();
            self.state = LifecycleState::Unsealed;
            proof {
                assert(self.shares() =~= Seq::<Seq<u8>>::empty());
            }
            Ok(UnsealProgress::Complete)
        }
    }

    /// Seals the vault and discards any unseal contributions.
    pub fn seal(&mut self) -> (r: Result<(), ErrorKind>)
        requires
            old(self).wf(),
        ensures
            final(self).wf(),
            Self::seal_post(*old(self), *final(self), r),
    {
        if self.state != LifecycleState::Unsealed {
            return Err(ErrorKind::InvalidState);
        }
        self.state = LifecycleState::Sealed;
        self.shares = Vec::new();
        proof {
            assert(self.shares() =~= Seq::<Seq<u8>>::empty());
        }
        Ok(())
    }

    /// Reports the state and unseal progress; never mutates.
    pub fn status(&self) -> (r: StatusReport)
        ensures
            r.state == self.state(),
            r.initialized == (self.state() != LifecycleState::Uninitialized),
            r.progress == self.shares().len(),
            r.threshold == self.threshold(),
    {
        StatusReport {
            state: self.state,
            initialized: self.state != LifecycleState::Uninitialized,
            progress: self.shares.len() as u64,
            threshold: self.threshold,
        }
    }
}

/// Initialization succeeds at most once: after one successful `init`, a second
/// one fails with `InvalidState` and leaves the holder as it was.
pub proof fn init_succeeds_once(
    h0: LifecycleHolder,
    h1: LifecycleHolder,
    h2: LifecycleHolder,
    t1: u64,
    t2: u64,
    r1: Result<(), ErrorKind>,
    r2: Result<(), ErrorKind>,
)
    requires
        LifecycleHolder::init_post(h0, h1, t1, r1),
        LifecycleHolder::init_post(h1, h2, t2, r2),
        r1 is Ok,
    ensures
        r2 == Err::<(), ErrorKind>(ErrorKind::InvalidState),
        h2 == h1,
{
}

/// A contribution below threshold keeps the vault sealed; one that reaches it
/// unseals and clears the held contributions, so the next unseal attempt after a
/// later seal starts from zero.
pub proof fn unseal_threshold(
    h0: LifecycleHolder,
    h1: LifecycleHolder,
    share: Seq<u8>,
    r: Result<UnsealProgress, ErrorKind>,
)
    requires
        h0.state() == LifecycleState::Sealed,
        share.len() > 0,
        LifecycleHolder::unseal_post(h0, h1, share, r),
    ensures
        h0.shares().len() + 1 < h0.threshold() ==> h1.state() == LifecycleState::Sealed
            && h1.shares().len() == h0.shares().len() + 1,
        h0.shares().len() + 1 >= h0.threshold() ==> h1.state() == LifecycleState::Unsealed
            && h1.shares().len() == 0 && r == Ok::<UnsealProgress, ErrorKind>(
            UnsealProgress::Complete,
        ),
{
}

} // verus!
