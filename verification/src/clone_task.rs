//! The clone task: derives a deterministic directory name from a
//! repository's SSH url and clones the repository over SSH into that
//! directory.
//!
//! The caller guarantees a clean destination: before `execute` it removes any
//! stale copy at [`CloneRepoTask::destination`] (filesystem deletion is the
//! surrounding program's, reported there as `CouldNotDeleteExistingRepoDir`).

use vstd::prelude::*;

use crate::git::git_clone_ssh;
use crate::text::{
    after_last_slash, ends_with_seq, has_slash, is_blank, lemma_after_last_slash, rfind_char,
    str_ends_with,
};

verus! {

/// Why a clone failed.
#[derive(Debug, Clone, Copy, PartialEq, Eq, Structural)]
pub enum CloneRepoTaskError {
    /// The url has no derivable last path segment.
    CouldNotExtractRepoName,
    /// A stale copy at the destination could not be removed (reported by the
    /// caller that owns filesystem deletion).
    CouldNotDeleteExistingRepoDir,
    /// The SSH clone itself failed (authentication, network, disk).
    CouldNotCloneRepo,
}

/// A fresh clone: where it lives and its opened repository handle.
pub struct CloneRepoTaskResult {
    pub repo_path: String,
    pub git_repository: git2::Repository,
}

/// The directory name a url derives: its last path segment with a trailing
/// `.git` stripped.
pub open spec fn repo_name_of(url: Seq<char>) -> Seq<char> {
    let segment = after_last_slash(url);
    if ends_with_seq(segment, ".git"@) {
        segment.subrange(0, segment.len() - ".git"@.len())
    } else {
        segment
    }
}

/// The url derives a usable directory name: it has a path segment after a
/// `/`, and something is left of it once `.git` is stripped.
pub open spec fn has_repo_name(url: Seq<char>) -> bool {
    has_slash(url) && repo_name_of(url).len() > 0
}

pub struct CloneRepoTask {}

impl CloneRepoTask {
    pub fn new() -> (r: CloneRepoTask)
        ensures
            r == (CloneRepoTask {  }),
    {
        CloneRepoTask {}
    }

    /// The repository name the url derives, exactly when it has one.
    pub fn extract_repo_name(&self, url: &String) -> (r: Result<String, CloneRepoTaskError>)
        ensures
            match r {
                Ok(name) => has_repo_name(url@) && name@ == repo_name_of(url@),
                Err(e) => e == CloneRepoTaskError::CouldNotExtractRepoName && !has_repo_name(url@),
            },
    {
        let url_str = url.as_str();
        let i = match rfind_char(url_str, '/') {
            Some(i) => i,
            None => {
                return Err(CloneRepoTaskError::CouldNotExtractRepoName);
            },
        };
        proof {
            lemma_after_last_slash(url@, i as int);
        }
        let len = url_str.unicode_len();
        let segment = url_str.substring_char(i + 1, len);
        let segment_len = segment.unicode_len();
        let name = if str_ends_with(segment, ".git") {
            proof {
                reveal_strlit(".git");
            }
            segment.substring_char(0, segment_len - 4).to_owned()
        } else {
            segment.to_owned()
        };
        if name.as_str().unicode_len() == 0 {
            return Err(CloneRepoTaskError::CouldNotExtractRepoName);
        }
        Ok(name)
    }

    /// The deterministic destination of a clone of `url` under
    /// `into_dir_path`: `into_dir_path/<derived name>`. The caller removes
    /// whatever sits there before `execute`, so every registration starts
    /// from a clean working copy.
    pub fn destination(&self, url: &String, into_dir_path: &str) -> (r: Result<
        String,
        CloneRepoTaskError,
    >)
        ensures
            match r {
                Ok(path) => has_repo_name(url@) && path@ == into_dir_path@ + "/"@ + repo_name_of(
                    url@,
                ),
                Err(e) => e == CloneRepoTaskError::CouldNotExtractRepoName && !has_repo_name(url@),
            },
    {
        let name = self.extract_repo_name(url)?;
        Ok(into_dir_path.to_owned().concat("/").concat(name.as_str()))
    }

    /// Clones `url` over SSH into its destination under `into_dir_path`,
    /// authenticating with the key at `ssh_key_path`; a blank passphrase
    /// means no passphrase, not an empty-string secret. The destination must
    /// have been cleared first.
    pub fn execute(
        &self,
        url: &String,
        into_dir_path: &str,
        ssh_passphrase: &String,
        ssh_key_path: &String,
    ) -> (r: Result<CloneRepoTaskResult, CloneRepoTaskError>)
        ensures
            !has_repo_name(url@) <==> (r matches Err(e) && e
                == CloneRepoTaskError::CouldNotExtractRepoName),
            match r {
                Ok(result) => result.repo_path@ == into_dir_path@ + "/"@ + repo_name_of(url@),
                Err(e) => e == CloneRepoTaskError::CouldNotExtractRepoName || e
                    == CloneRepoTaskError::CouldNotCloneRepo,
            },
    {
        let repo_path = self.destination(url, into_dir_path)?;
        let passphrase: Option<&str> = if is_blank(ssh_passphrase.as_str()) {
            None
        } else {
            Some(ssh_passphrase.as_str())
        };
        match git_clone_ssh(url.as_str(), repo_path.as_str(), ssh_key_path.as_str(), passphrase) {
            Ok(git_repository) => Ok(CloneRepoTaskResult { repo_path, git_repository }),
            Err(_) => Err(CloneRepoTaskError::CouldNotCloneRepo),
        }
    }
}

} // verus!
