//! The older clone path: clones a repository and records the clone's
//! location and handle in the clone registry.

use vstd::prelude::*;

use crate::clone_task::{has_repo_name, repo_name_of, CloneRepoTask};
use crate::registry::{GitRepoInfoEntity, GitRepoInfoRepository};

verus! {

/// Why cloning and recording a repository failed.
#[derive(Debug, Clone, Copy, PartialEq, Eq, Structural)]
pub enum CloneRepoServiceError {
    /// The surrounding program found no home directory to resolve paths
    /// against.
    CouldNotFindHomePath,
    /// A stale copy at the destination could not be removed (reported by the
    /// caller that owns filesystem deletion).
    CouldNotDeleteExistingRepoDir,
    /// No repository name could be derived from the url, or the SSH clone
    /// itself failed.
    CouldNotCloneRepo,
    /// The clone could not be recorded.
    CouldNotSaveRepoInfo,
}

/// Clones repositories and records them in a [`GitRepoInfoRepository`].
pub struct CloneRepoService {
    pub repo_info_repo: GitRepoInfoRepository,
}

impl CloneRepoService {
    pub fn new(repo_info_repo: GitRepoInfoRepository) -> (r: CloneRepoService)
        ensures
            r.repo_info_repo == repo_info_repo,
    {
        CloneRepoService { repo_info_repo }
    }

    /// Clones `url` into its destination under `into_dir_path` and records
    /// the clone under `url`; on success the registry maps `url` to the
    /// returned path. The caller clears the destination first.
    pub fn execute(
        &mut self,
        url: &String,
        into_dir_path: &str,
        ssh_passphrase: &String,
        ssh_key_path: &String,
    ) -> (r: Result<String, CloneRepoServiceError>)
        requires
            old(self).repo_info_repo.wf(),
        ensures
            final(self).repo_info_repo.wf(),
            !has_repo_name(url@) ==> r is Err,
            match r {
                Ok(path) => {
                    &&& path@ == into_dir_path@ + "/"@ + repo_name_of(url@)
                    &&& final(self).repo_info_repo@.contains_key(url@)
                    &&& final(self).repo_info_repo@[url@].path@ == path@
                    &&& final(self).repo_info_repo@ == old(self).repo_info_repo@.insert(
                        url@,
                        final(self).repo_info_repo@[url@],
                    )
                },
                Err(e) => e == CloneRepoServiceError::CouldNotCloneRepo && *final(self)
                    == *old(self),
            },
    {
        let task = CloneRepoTask::new();
        let result = match task.execute(url, into_dir_path, ssh_passphrase, ssh_key_path) {
            Ok(result) => result,
            Err(_) => {
                return Err(CloneRepoServiceError::CouldNotCloneRepo);
            },
        };
        let path = result.repo_path;
        let entity = GitRepoInfoEntity::new(path.clone(), result.git_repository);
        let _ = self.repo_info_repo.save(url.clone(), entity);
        Ok(path)
    }
}

} // verus!
