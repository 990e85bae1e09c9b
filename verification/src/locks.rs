//! The per-repository execution lock table: deploys to the same repository
//! are serialized, deploys to different repositories proceed in parallel.
//!
//! The table decides who may run; the surrounding program wraps it in its
//! mutual-exclusion primitive and blocks (queues) a push event whose
//! repository is busy until `release`.

use vstd::prelude::*;

use crate::registry::KeyedStore;

verus! {

/// Which repositories currently have a deploy run in flight, by ssh url; at
/// most one run per url can ever hold the lock.
pub struct RepoLocks {
    held: KeyedStore<()>,
}

impl RepoLocks {
    /// The urls whose lock is held.
    pub closed spec fn view(&self) -> Set<Seq<char>> {
        self.held@.dom()
    }

    /// Structural invariant.
    pub closed spec fn wf(&self) -> bool {
        self.held.wf()
    }

    /// A table with no lock held.
    pub fn new() -> (r: RepoLocks)
        ensures
            r.wf(),
            r@ == Set::<Seq<char>>::empty(),
    {
        let locks = RepoLocks { held: KeyedStore::new() };
        proof {
            assert(locks@ =~= Set::<Seq<char>>::empty());
        }
        locks
    }

    /// Takes the lock for `url` if nobody holds it: true means this caller
    /// now holds it exclusively, false means a deploy run for `url` is
    /// already in flight and the caller must wait.
    pub fn try_acquire(&mut self, url: &String) -> (r: bool)
        requires
            old(self).wf(),
        ensures
            final(self).wf(),
            r == !old(self)@.contains(url@),
            r ==> final(self)@ == old(self)@.insert(url@),
            !r ==> final(self)@ == old(self)@,
    {
        let ghost before = self@;
        let acquired = self.held.try_save(url.clone(), ()).is_ok();
        proof {
            if acquired {
                assert(self@ =~= before.insert(url@));
            }
        }
        acquired
    }

    /// Releases the lock for `url` after the run completed or failed.
    pub fn release(&mut self, url: &String)
        requires
            old(self).wf(),
        ensures
            final(self).wf(),
            final(self)@ == old(self)@.remove(url@),
    {
        let ghost before = self@;
        let _ = self.held.remove(url);
        proof {
            assert(self@ =~= before.remove(url@));
        }
    }
}

/// Per-repository serialization: while a run for `url` holds the lock, a
/// second acquisition of `url` is refused until a release, so the
/// checkout-and-execute phases of two runs for the same repository can never
/// be in flight at once; a different repository's url is unaffected.
pub proof fn lemma_per_repository_serialization(held: Set<Seq<char>>, url: Seq<char>, other: Seq<char>)
    requires
        !held.contains(url),
    ensures
        held.insert(url).contains(url),
        held.insert(url).remove(url).contains(url) == held.contains(url),
        other != url ==> held.insert(url).contains(other) == held.contains(other),
{
}

} // verus!
