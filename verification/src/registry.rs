//! The repository registry: a process-wide mapping from a repository's SSH
//! url to its registration record, with at most one record per url.
//!
//! Records are owned exclusively by the registry; `save` replaces, `try_save`
//! refuses to clobber, `get` looks up. There is no deletion: records live for
//! the process lifetime.

use vstd::prelude::*;

use crate::manifest::DeployInfo;

verus! {

/// One registration record: the repository's SSH url, the location of its
/// local clone, the opened repository handle, the parsed deploy manifest and
/// the git blob id of the manifest file at the default branch tip (used to
/// detect manifest drift across re-syncs).
pub struct DeployInfoEntity {
    pub ssh_git_url: String,
    pub repo_path: String,
    pub git_repository: git2::Repository,
    pub deploy_info: DeployInfo,
    pub manifest_content_id: Option<String>,
}

/// A clone's location and its opened repository handle.
pub struct GitRepoInfoEntity {
    pub path: String,
    pub git_repository: git2::Repository,
}

impl GitRepoInfoEntity {
    pub fn new(path: String, git_repository: git2::Repository) -> (r: GitRepoInfoEntity)
        ensures
            r.path@ == path@,
            r.git_repository == git_repository,
    {
        GitRepoInfoEntity { path, git_repository }
    }
}

/// The keys of `s`, pairwise distinct.
pub open spec fn unique_keys<V>(s: Seq<(String, V)>) -> bool {
    forall|i: int, j: int|
        0 <= i < j < s.len() ==> (#[trigger] s[i]).0@ != (#[trigger] s[j]).0@
}

/// The mapping an entry list stands for; a later entry would win, and under
/// `unique_keys` each key appears at most once.
pub open spec fn entries_as_map<V>(s: Seq<(String, V)>) -> Map<Seq<char>, V>
    decreases s.len(),
{
    if s.len() == 0 {
        Map::empty()
    } else {
        entries_as_map(s.drop_last()).insert(s.last().0@, s.last().1)
    }
}

proof fn lemma_unique_drop_last<V>(s: Seq<(String, V)>)
    requires
        unique_keys(s),
        s.len() > 0,
    ensures
        unique_keys(s.drop_last()),
{
    assert forall|i: int, j: int| 0 <= i < j < s.drop_last().len() implies (#[trigger] s.drop_last()[i]).0@
        != (#[trigger] s.drop_last()[j]).0@ by {
        assert(s.drop_last()[i] == s[i]);
        assert(s.drop_last()[j] == s[j]);
    }
}

proof fn lemma_map_of_entry<V>(s: Seq<(String, V)>, i: int)
    requires
        unique_keys(s),
        0 <= i < s.len(),
    ensures
        entries_as_map(s).contains_key(s[i].0@),
        entries_as_map(s)[s[i].0@] == s[i].1,
    decreases s.len(),
{
    if i < s.len() - 1 {
        lemma_unique_drop_last(s);
        assert(s.drop_last()[i] == s[i]);
        lemma_map_of_entry(s.drop_last(), i);
    }
}

proof fn lemma_map_of_absent<V>(s: Seq<(String, V)>, k: Seq<char>)
    requires
        forall|i: int| 0 <= i < s.len() ==> (#[trigger] s[i]).0@ != k,
    ensures
        !entries_as_map(s).contains_key(k),
    decreases s.len(),
{
    if s.len() > 0 {
        assert forall|i: int| 0 <= i < s.drop_last().len() implies (#[trigger] s.drop_last()[i]).0@
            != k by {
            assert(s.drop_last()[i] == s[i]);
        }
        lemma_map_of_absent(s.drop_last(), k);
    }
}

proof fn lemma_map_of_update<V>(s: Seq<(String, V)>, i: int, p: (String, V))
    requires
        unique_keys(s),
        0 <= i < s.len(),
        p.0@ == s[i].0@,
    ensures
        entries_as_map(s.update(i, p)) == entries_as_map(s).insert(p.0@, p.1),
    decreases s.len(),
{
    let u = s.update(i, p);
    if i == s.len() - 1 {
        assert(u.drop_last() =~= s.drop_last());
        assert(u.last() == p);
        assert(entries_as_map(s.drop_last()).insert(s.last().0@, s.last().1).insert(p.0@, p.1)
            =~= entries_as_map(s.drop_last()).insert(p.0@, p.1));
    } else {
        lemma_unique_drop_last(s);
        assert(s.drop_last()[i] == s[i]);
        lemma_map_of_update(s.drop_last(), i, p);
        assert(u.drop_last() =~= s.drop_last().update(i, p));
        assert(u.last() == s.last());
        // the final entry's key differs from the updated one, so the two
        // inserts commute
        assert(s.last() == s[s.len() - 1]);
        assert(s.last().0@ != p.0@);
        assert(entries_as_map(s.drop_last()).insert(p.0@, p.1).insert(s.last().0@, s.last().1)
            =~= entries_as_map(s.drop_last()).insert(s.last().0@, s.last().1).insert(p.0@, p.1));
    }
}

proof fn lemma_map_of_remove<V>(s: Seq<(String, V)>, i: int)
    requires
        unique_keys(s),
        0 <= i < s.len(),
    ensures
        entries_as_map(s.remove(i)) == entries_as_map(s).remove(s[i].0@),
    decreases s.len(),
{
    let k = s[i].0@;
    let u = s.remove(i);
    lemma_unique_drop_last(s);
    if i == s.len() - 1 {
        assert(u =~= s.drop_last());
        assert forall|j: int| 0 <= j < s.drop_last().len() implies (#[trigger] s.drop_last()[j]).0@
            != k by {
            assert(s.drop_last()[j] == s[j]);
        }
        lemma_map_of_absent(s.drop_last(), k);
        assert(entries_as_map(s.drop_last()).insert(k, s.last().1).remove(k) =~= entries_as_map(
            s.drop_last(),
        ));
    } else {
        assert(s.drop_last()[i] == s[i]);
        lemma_map_of_remove(s.drop_last(), i);
        assert(u.drop_last() =~= s.drop_last().remove(i));
        assert(u.last() == s.last());
        assert(s.last() == s[s.len() - 1]);
        assert(s.last().0@ != k);
        assert(entries_as_map(s.drop_last()).remove(k).insert(s.last().0@, s.last().1)
            =~= entries_as_map(s.drop_last()).insert(s.last().0@, s.last().1).remove(k));
    }
}

/// Idempotent re-registration: saving a record for the same url twice is the
/// same as saving only the second record, and the registry ends up with
/// exactly the urls it had plus this one.
pub proof fn lemma_idempotent_reregistration<V>(
    m: Map<Seq<char>, V>,
    url: Seq<char>,
    first: V,
    second: V,
)
    ensures
        m.insert(url, first).insert(url, second) == m.insert(url, second),
        m.insert(url, first).insert(url, second).dom() =~= m.dom().insert(url),
{
    assert(m.insert(url, first).insert(url, second) =~= m.insert(url, second));
}

/// An association list from url keys to owned records, at most one record per
/// key; both registries below are instances of it.
pub struct KeyedStore<V> {
    entries: Vec<(String, V)>,
}

impl<V> KeyedStore<V> {
    /// The mapping held.
    pub closed spec fn view(&self) -> Map<Seq<char>, V> {
        entries_as_map(self.entries@)
    }

    /// Structural invariant: at most one entry per key.
    pub closed spec fn wf(&self) -> bool {
        unique_keys(self.entries@)
    }

    /// An empty store.
    pub fn new() -> (r: KeyedStore<V>)
        ensures
            r.wf(),
            r@ == Map::<Seq<char>, V>::empty(),
    {
        KeyedStore { entries: Vec::new() }
    }

    fn index_of(&self, key: &String) -> (r: Option<usize>)
        ensures
            match r {
                Some(i) => i < self.entries@.len() && self.entries@[i as int].0@ == key@,
                None => forall|i: int|
                    0 <= i < self.entries@.len() ==> (#[trigger] self.entries@[i]).0@ != key@,
            },
    {
        let n = self.entries.len();
        let mut i: usize = 0;
        while i < n
            invariant
                0 <= i <= n,
                n == self.entries@.len(),
                forall|j: int| 0 <= j < i ==> (#[trigger] self.entries@[j]).0@ != key@,
            decreases n - i,
        {
            if self.entries[i].0 == *key {
                return Some(i);
            }
            i = i + 1;
        }
        None
    }

    /// Read-only lookup: the record for `key`, if one is registered.
    pub fn get(&self, key: &String) -> (r: Option<&V>)
        requires
            self.wf(),
        ensures
            match r {
                Some(v) => self@.contains_key(key@) && *v == self@[key@],
                None => !self@.contains_key(key@),
            },
    {
        match self.index_of(key) {
            Some(i) => {
                proof {
                    lemma_map_of_entry(self.entries@, i as int);
                }
                Some(&self.entries[i].1)
            },
            None => {
                proof {
                    lemma_map_of_absent(self.entries@, key@);
                }
                None
            },
        }
    }

    /// Inserts or replaces the record for `key` and returns the prior record
    /// if one existed, so callers can detect a first-time registration.
    pub fn save(&mut self, key: String, value: V) -> (prev: Option<V>)
        requires
            old(self).wf(),
        ensures
            final(self).wf(),
            final(self)@ == old(self)@.insert(key@, value),
            match prev {
                Some(p) => old(self)@.contains_key(key@) && p == old(self)@[key@],
                None => !old(self)@.contains_key(key@),
            },
    {
        let ghost s0 = self.entries@;
        match self.index_of(&key) {
            Some(i) => {
                proof {
                    lemma_map_of_entry(s0, i as int);
                }
                let pair = self.entries.remove(i);
                self.entries.insert(i, (key, value));
                proof {
                    assert(self.entries@ =~= s0.update(i as int, self.entries@[i as int]));
                    lemma_map_of_update(s0, i as int, self.entries@[i as int]);
                    assert forall|x: int, y: int| 0 <= x < y < self.entries@.len() implies (
                    #[trigger] self.entries@[x]).0@ != (#[trigger] self.entries@[y]).0@ by {
                        assert(s0[x].0@ != s0[y].0@);
                    }
                }
                Some(pair.1)
            },
            None => {
                proof {
                    lemma_map_of_absent(s0, key@);
                }
                self.entries.push((key, value));
                proof {
                    assert(self.entries@.drop_last() =~= s0);
                    assert forall|x: int, y: int| 0 <= x < y < self.entries@.len() implies (
                    #[trigger] self.entries@[x]).0@ != (#[trigger] self.entries@[y]).0@ by {
                        if y < self.entries@.len() - 1 {
                            assert(s0[x].0@ != s0[y].0@);
                        } else {
                            assert(s0[x].0@ != key@);
                        }
                    }
                }
                None
            },
        }
    }

    /// Takes the record for `key` out of the store, if one is held.
    pub fn remove(&mut self, key: &String) -> (r: Option<V>)
        requires
            old(self).wf(),
        ensures
            final(self).wf(),
            final(self)@ == old(self)@.remove(key@),
            match r {
                Some(v) => old(self)@.contains_key(key@) && v == old(self)@[key@],
                None => !old(self)@.contains_key(key@),
            },
    {
        let ghost s0 = self.entries@;
        match self.index_of(key) {
            Some(i) => {
                proof {
                    lemma_map_of_entry(s0, i as int);
                    lemma_map_of_remove(s0, i as int);
                }
                let pair = self.entries.remove(i);
                proof {
                    assert forall|x: int, y: int| 0 <= x < y < self.entries@.len() implies (
                    #[trigger] self.entries@[x]).0@ != (#[trigger] self.entries@[y]).0@ by {
                        let x0 = if x < i as int {
                            x
                        } else {
                            x + 1
                        };
                        let y0 = if y < i as int {
                            y
                        } else {
                            y + 1
                        };
                        assert(s0[x0].0@ != s0[y0].0@);
                    }
                }
                Some(pair.1)
            },
            None => {
                proof {
                    lemma_map_of_absent(s0, key@);
                    assert(entries_as_map(s0).remove(key@) =~= entries_as_map(s0));
                }
                None
            },
        }
    }

    /// The non-clobbering variant: refuses to replace, handing the record
    /// back unchanged when `key` is already registered.
    pub fn try_save(&mut self, key: String, value: V) -> (r: Result<(), V>)
        requires
            old(self).wf(),
        ensures
            final(self).wf(),
            match r {
                Ok(()) => !old(self)@.contains_key(key@) && final(self)@ == old(self)@.insert(
                    key@,
                    value,
                ),
                Err(v) => old(self)@.contains_key(key@) && v == value && final(self)@ == old(
                    self,
                )@,
            },
    {
        let ghost s0 = self.entries@;
        match self.index_of(&key) {
            Some(i) => {
                proof {
                    lemma_map_of_entry(s0, i as int);
                }
                Err(value)
            },
            None => {
                proof {
                    lemma_map_of_absent(s0, key@);
                }
                self.entries.push((key, value));
                proof {
                    assert(self.entries@.drop_last() =~= s0);
                    assert forall|x: int, y: int| 0 <= x < y < self.entries@.len() implies (
                    #[trigger] self.entries@[x]).0@ != (#[trigger] self.entries@[y]).0@ by {
                        if y < self.entries@.len() - 1 {
                            assert(s0[x].0@ != s0[y].0@);
                        } else {
                            assert(s0[x].0@ != key@);
                        }
                    }
                }
                Ok(())
            },
        }
    }
}

/// The repository registry proper: ssh url to registration record.
pub struct DeployInfoRepository {
    store: KeyedStore<DeployInfoEntity>,
}

impl DeployInfoRepository {
    /// The mapping held.
    pub closed spec fn view(&self) -> Map<Seq<char>, DeployInfoEntity> {
        self.store@
    }

    /// At most one record per url.
    pub closed spec fn wf(&self) -> bool {
        self.store.wf()
    }

    /// An empty registry.
    pub fn new() -> (r: DeployInfoRepository)
        ensures
            r.wf(),
            r@ == Map::<Seq<char>, DeployInfoEntity>::empty(),
    {
        DeployInfoRepository { store: KeyedStore::new() }
    }

    /// Inserts or replaces; the prior record signals a re-registration.
    pub fn save(&mut self, key: String, entity: DeployInfoEntity) -> (prev: Option<
        DeployInfoEntity,
    >)
        requires
            old(self).wf(),
        ensures
            final(self).wf(),
            final(self)@ == old(self)@.insert(key@, entity),
            match prev {
                Some(p) => old(self)@.contains_key(key@) && p == old(self)@[key@],
                None => !old(self)@.contains_key(key@),
            },
    {
        self.store.save(key, entity)
    }

    /// Saves only a first-time registration, handing the record back when the
    /// url already has one.
    pub fn try_save(&mut self, key: String, entity: DeployInfoEntity) -> (r: Result<
        (),
        DeployInfoEntity,
    >)
        requires
            old(self).wf(),
        ensures
            final(self).wf(),
            match r {
                Ok(()) => !old(self)@.contains_key(key@) && final(self)@ == old(self)@.insert(
                    key@,
                    entity,
                ),
                Err(v) => old(self)@.contains_key(key@) && v == entity && final(self)@ == old(
                    self,
                )@,
            },
    {
        self.store.try_save(key, entity)
    }

    /// Read-only lookup.
    pub fn get(&self, key: &String) -> (r: Option<&DeployInfoEntity>)
        requires
            self.wf(),
        ensures
            match r {
                Some(e) => self@.contains_key(key@) && *e == self@[key@],
                None => !self@.contains_key(key@),
            },
    {
        self.store.get(key)
    }
}

/// The clone registry used by the older deploy path: ssh url to clone
/// location and repository handle.
pub struct GitRepoInfoRepository {
    store: KeyedStore<GitRepoInfoEntity>,
}

impl GitRepoInfoRepository {
    /// The mapping held.
    pub closed spec fn view(&self) -> Map<Seq<char>, GitRepoInfoEntity> {
        self.store@
    }

    /// At most one record per url.
    pub closed spec fn wf(&self) -> bool {
        self.store.wf()
    }

    /// An empty registry.
    pub fn new() -> (r: GitRepoInfoRepository)
        ensures
            r.wf(),
            r@ == Map::<Seq<char>, GitRepoInfoEntity>::empty(),
    {
        GitRepoInfoRepository { store: KeyedStore::new() }
    }

    /// Inserts or replaces; the prior record signals a re-registration.
    pub fn save(&mut self, key: String, entity: GitRepoInfoEntity) -> (prev: Option<
        GitRepoInfoEntity,
    >)
        requires
            old(self).wf(),
        ensures
            final(self).wf(),
            final(self)@ == old(self)@.insert(key@, entity),
            match prev {
                Some(p) => old(self)@.contains_key(key@) && p == old(self)@[key@],
                None => !old(self)@.contains_key(key@),
            },
    {
        self.store.save(key, entity)
    }

    /// Read-only lookup.
    pub fn get(&self, key: &String) -> (r: Option<&GitRepoInfoEntity>)
        requires
            self.wf(),
        ensures
            match r {
                Some(e) => self@.contains_key(key@) && *e == self@[key@],
                None => !self@.contains_key(key@),
            },
    {
        self.store.get(key)
    }
}

} // verus!
