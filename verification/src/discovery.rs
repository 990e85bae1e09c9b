//! The discovery service: paginates the account's repositories, drops
//! archived and disabled ones, selects those whose default branch carries the
//! deploy manifest file, and registers each survivor (clone, manifest parse,
//! manifest blob id, registry save).
//!
//! The page requests, the existence probes and the manifest file read are
//! network and filesystem work and belong to the surrounding program; every
//! decision between them is made here.

use vstd::prelude::*;

use crate::clone_task::{
    has_repo_name, repo_name_of, CloneRepoTask, CloneRepoTaskError, CloneRepoTaskResult,
};
use crate::config::StartupArgs;
use crate::git::{
    git_commit_tree, git_object_as_commit, git_revparse_object, git_tree_entries,
};
use crate::manifest::{parse_manifest, DeployInfo, ManifestParseError};
use crate::registry::{DeployInfoEntity, DeployInfoRepository};
use crate::text::{contains_seq, dec_digits, str_contains, u32_to_string};

verus! {

/// Why discovery gave a repository, or the whole run, up.
#[derive(Debug, Clone, Copy, PartialEq, Eq, Structural)]
pub enum InitServiceError {
    /// A page request failed (transport).
    CouldNotGetRepos,
    /// The account has no repositories left after sanitizing.
    NoReposFound,
    /// The manifest file could not be read from the clone.
    CouldNotReadYamlFile,
    /// The manifest file could not be decoded.
    CouldNotParseYamlFile,
    /// The repository could not be cloned.
    CouldNotCloneRepo,
    /// The pagination header's value was not text.
    CouldNotConvertLinkHeaderValue,
    /// The manifest file's blob id could not be resolved at the default
    /// branch tip.
    CouldNotGetGitFileId,
}

/// A repository as the hosting API describes it.
#[derive(Debug, Clone, PartialEq, Eq)]
pub struct GithubRepoDto {
    pub id: i64,
    pub name: String,
    pub full_name: String,
    pub owner: Owner,
    pub ssh_url: String,
    pub default_branch: String,
    pub archived: bool,
    pub disabled: bool,
}

/// A repository owner's login.
#[derive(Debug, Clone, PartialEq, Eq, Default)]
pub struct Owner {
    pub login: String,
}

/// The page size every repository-list request asks for.
pub const REPOS_PER_PAGE: u32 = 100;

/// A pagination header signals more pages exactly when it is present and
/// holds the text `next`.
pub fn has_next_link(link_header: &Option<String>) -> (r: bool)
    ensures
        r == match link_header {
            Some(value) => contains_seq(value@, "next"@),
            None => false,
        },
{
    match link_header {
        Some(value) => str_contains(value.as_str(), "next"),
        None => false,
    }
}

/// The repository-list url for one page, with the page number, page size,
/// owner type, sort key and sort direction as query parameters.
pub fn user_repos_url(
    page: u32,
    per_page: u32,
    owner_type: &str,
    sort_by: &str,
    sort_direction: &str,
) -> (r: String)
    ensures
        r@ == "https://api.github.com/user/repos?per_page="@ + dec_digits(per_page as nat)
            + "&page="@ + dec_digits(page as nat) + "&type="@ + owner_type@ + "&sort="@ + sort_by@
            + "&direction="@ + sort_direction@,
{
    let mut url = "https://api.github.com/user/repos?per_page=".to_owned();
    url.append(u32_to_string(per_page).as_str());
    url.append("&page=");
    url.append(u32_to_string(page).as_str());
    url.append("&type=");
    url.append(owner_type);
    url.append("&sort=");
    url.append(sort_by);
    url.append("&direction=");
    url.append(sort_direction);
    url
}

/// The existence-probe url of the manifest file on a repository's default
/// branch at the raw content host.
pub fn deploy_file_url(repo: &GithubRepoDto, manifest_filename: &String) -> (r: String)
    ensures
        r@ == "https://raw.githubusercontent.com/"@ + repo.owner.login@ + "/"@ + repo.name@ + "/"@
            + repo.default_branch@ + "/"@ + manifest_filename@,
{
    let mut url = "https://raw.githubusercontent.com/".to_owned();
    url.append(repo.owner.login.as_str());
    url.append("/");
    url.append(repo.name.as_str());
    url.append("/");
    url.append(repo.default_branch.as_str());
    url.append("/");
    url.append(manifest_filename.as_str());
    url
}

// ---------------------------------------------------------------------------
// Pagination.
// ---------------------------------------------------------------------------
/// Accumulates the account's repositories page by page, in encounter order;
/// page numbers start at 1, and a page whose pagination header carries no
/// `next` is the last.
pub struct Paginator {
    /// The page the next request asks for.
    pub next_page: u32,
    /// Every repository seen so far, in encounter order.
    pub repos: Vec<GithubRepoDto>,
    /// The last page has been seen; no further request is issued.
    pub done: bool,
}

impl Paginator {
    /// Pagination starts at page 1.
    pub fn new() -> (r: Paginator)
        ensures
            r.next_page == 1,
            r.repos@ == Seq::<GithubRepoDto>::empty(),
            !r.done,
    {
        let paginator = Paginator { next_page: 1, repos: Vec::new(), done: false };
        proof {
            assert(paginator.repos@ =~= Seq::<GithubRepoDto>::empty());
        }
        paginator
    }

    /// Records one page response: its repositories extend the accumulation
    /// in order, and pagination ends exactly when the page signals no
    /// further one.
    pub fn record_page(&mut self, mut page_repos: Vec<GithubRepoDto>, has_next: bool)
        requires
            !old(self).done,
            old(self).next_page < u32::MAX,
        ensures
            final(self).repos@ == old(self).repos@ + page_repos@,
            final(self).done == !has_next,
            final(self).next_page == old(self).next_page + 1,
    {
        self.repos.append(&mut page_repos);
        self.next_page = self.next_page + 1;
        self.done = !has_next;
    }
}

/// The repositories pagination accumulated, or `NoReposFound` exactly when
/// the account has none at all.
pub fn require_repos_found(repos: Vec<GithubRepoDto>) -> (r: Result<
    Vec<GithubRepoDto>,
    InitServiceError,
>)
    ensures
        match r {
            Ok(found) => found == repos && repos@.len() > 0,
            Err(e) => e == InitServiceError::NoReposFound && repos@.len() == 0,
        },
{
    if repos.len() == 0 {
        Err(InitServiceError::NoReposFound)
    } else {
        Ok(repos)
    }
}

/// What driving the pagination from page index `i` over the given page
/// responses yields: how many page requests are issued and which
/// repositories come back, in encounter order. Each response is a page's
/// repositories and its "more pages" indicator.
pub open spec fn paginate_from(pages: Seq<(Seq<GithubRepoDto>, bool)>, i: int) -> (
    int,
    Seq<GithubRepoDto>,
)
    decreases pages.len() - i,
{
    if i < 0 || i >= pages.len() {
        (0, Seq::empty())
    } else if pages[i].1 {
        let (n, repos) = paginate_from(pages, i + 1);
        (n + 1, pages[i].0 + repos)
    } else {
        (1, pages[i].0)
    }
}

/// All repositories of the pages from index `i` on, in order.
pub open spec fn pages_union(pages: Seq<(Seq<GithubRepoDto>, bool)>, i: int) -> Seq<GithubRepoDto>
    decreases pages.len() - i,
{
    if i < 0 || i >= pages.len() {
        Seq::empty()
    } else {
        pages[i].0 + pages_union(pages, i + 1)
    }
}

/// Pagination termination: over `n` pages of which exactly the first `n - 1`
/// signal a further page, discovery issues exactly `n` page requests and
/// returns the union of all pages' repositories, preserving encounter order.
pub proof fn lemma_pagination_termination(pages: Seq<(Seq<GithubRepoDto>, bool)>, n: int)
    requires
        pages.len() == n,
        n >= 1,
        forall|i: int| 0 <= i < n - 1 ==> (#[trigger] pages[i]).1,
        !pages[n - 1].1,
    ensures
        paginate_from(pages, 0).0 == n,
        paginate_from(pages, 0).1 == pages_union(pages, 0),
{
    lemma_paginate_from(pages, n, 0);
}

proof fn lemma_paginate_from(pages: Seq<(Seq<GithubRepoDto>, bool)>, n: int, i: int)
    requires
        pages.len() == n,
        0 <= i < n,
        forall|j: int| 0 <= j < n - 1 ==> (#[trigger] pages[j]).1,
        !pages[n - 1].1,
    ensures
        paginate_from(pages, i).0 == n - i,
        paginate_from(pages, i).1 == pages_union(pages, i),
    decreases n - i,
{
    if i < n - 1 {
        lemma_paginate_from(pages, n, i + 1);
    } else {
        assert(pages_union(pages, i) =~= pages[i].0 + pages_union(pages, i + 1));
        assert(pages[i].0 + Seq::<GithubRepoDto>::empty() =~= pages[i].0);
    }
}

// ---------------------------------------------------------------------------
// Sanitizing and manifest-probe selection.
// ---------------------------------------------------------------------------
/// A repository is kept only when it is neither archived nor disabled.
pub open spec fn repo_active(r: GithubRepoDto) -> bool {
    !r.archived && !r.disabled
}

/// The active repositories of `s`, in order.
pub open spec fn active_repos(s: Seq<GithubRepoDto>) -> Seq<GithubRepoDto>
    decreases s.len(),
{
    if s.len() == 0 {
        s
    } else {
        let rest = active_repos(s.drop_last());
        if repo_active(s.last()) {
            rest.push(s.last())
        } else {
            rest
        }
    }
}

/// Drops every archived or disabled repository, keeping the others in order.
pub fn remove_archived_and_disabled_repos(repos: Vec<GithubRepoDto>) -> (r: Vec<GithubRepoDto>)
    ensures
        r@ == active_repos(repos@),
{
    let ghost all = repos@;
    let mut rest = repos;
    let mut kept: Vec<GithubRepoDto> = Vec::new();
    let ghost taken = 0int;
    proof {
        assert(kept@ =~= active_repos(all.subrange(0, 0)));
        assert(rest@ =~= all.subrange(0, all.len() as int));
    }
    while rest.len() > 0
        invariant
            0 <= all.len() - rest.len() <= all.len(),
            rest@ == all.subrange(all.len() - rest.len(), all.len() as int),
            kept@ == active_repos(all.subrange(0, all.len() - rest.len())),
        decreases rest.len(),
    {
        let ghost k = all.len() - rest@.len();
        let repo = rest.remove(0);
        proof {
            assert(repo == all[k]);
            assert(rest@ =~= all.subrange(k + 1, all.len() as int));
            assert(all.subrange(0, k + 1).drop_last() =~= all.subrange(0, k));
            assert(all.subrange(0, k + 1).last() == all[k]);
        }
        if !repo.archived && !repo.disabled {
            kept.push(repo);
        }
    }
    proof {
        assert(all.subrange(0, all.len() as int) =~= all);
    }
    kept
}

/// After sanitizing: the active repositories, or `NoReposFound` exactly when
/// none is left.
pub fn sanitize_repos(repos: Vec<GithubRepoDto>) -> (r: Result<
    Vec<GithubRepoDto>,
    InitServiceError,
>)
    ensures
        match r {
            Ok(kept) => kept@ == active_repos(repos@) && kept@.len() > 0,
            Err(e) => e == InitServiceError::NoReposFound && active_repos(repos@).len() == 0,
        },
{
    let kept = remove_archived_and_disabled_repos(repos);
    if kept.len() == 0 {
        Err(InitServiceError::NoReposFound)
    } else {
        Ok(kept)
    }
}

/// The repositories whose existence probe succeeded, in order: `probe_ok[i]`
/// says whether the manifest file was found for `s[i]`.
pub open spec fn probed_repos(s: Seq<GithubRepoDto>, probe_ok: Seq<bool>) -> Seq<GithubRepoDto>
    decreases s.len(),
{
    if s.len() == 0 {
        s
    } else {
        let rest = probed_repos(s.drop_last(), probe_ok.drop_last());
        if probe_ok.len() == s.len() && probe_ok.last() {
            rest.push(s.last())
        } else {
            rest
        }
    }
}

/// Keeps exactly the repositories whose manifest-existence probe succeeded
/// (`probe_ok[i]` answers for `repos[i]`), preserving order.
pub fn filter_repos_by_deploy_file(repos: Vec<GithubRepoDto>, probe_ok: &Vec<bool>) -> (r: Vec<
    GithubRepoDto,
>)
    requires
        probe_ok@.len() == repos@.len(),
    ensures
        r@ == probed_repos(repos@, probe_ok@),
{
    let ghost all = repos@;
    let ghost flags = probe_ok@;
    let mut rest = repos;
    let mut kept: Vec<GithubRepoDto> = Vec::new();
    proof {
        assert(kept@ =~= probed_repos(all.subrange(0, 0), flags.subrange(0, 0)));
        assert(rest@ =~= all.subrange(0, all.len() as int));
    }
    while rest.len() > 0
        invariant
            0 <= all.len() - rest.len() <= all.len(),
            flags.len() == all.len(),
            flags == probe_ok@,
            rest@ == all.subrange(all.len() - rest.len(), all.len() as int),
            kept@ == probed_repos(
                all.subrange(0, all.len() - rest.len()),
                flags.subrange(0, all.len() - rest.len()),
            ),
        decreases rest.len(),
    {
        let ghost k = all.len() - rest@.len();
        let repo = rest.remove(0);
        let keep = probe_ok[probe_ok.len() - rest.len() - 1];
        proof {
            assert(repo == all[k]);
            assert(keep == flags[k]);
            assert(rest@ =~= all.subrange(k + 1, all.len() as int));
            assert(all.subrange(0, k + 1).drop_last() =~= all.subrange(0, k));
            assert(flags.subrange(0, k + 1).drop_last() =~= flags.subrange(0, k));
            assert(all.subrange(0, k + 1).last() == all[k]);
            assert(flags.subrange(0, k + 1).last() == flags[k]);
            assert(flags.subrange(0, k + 1).len() == all.subrange(0, k + 1).len());
        }
        if keep {
            kept.push(repo);
        }
    }
    proof {
        assert(all.subrange(0, all.len() as int) =~= all);
        assert(flags.subrange(0, all.len() as int) =~= flags);
    }
    kept
}

// ---------------------------------------------------------------------------
// Registration.
// ---------------------------------------------------------------------------
/// The id of the first entry named `filename` among a tree's `(name, id)`
/// entries.
pub open spec fn manifest_entry_id(entries: Seq<(String, String)>, filename: Seq<char>) -> Option<
    Seq<char>,
>
    decreases entries.len(),
{
    if entries.len() == 0 {
        None
    } else if entries[0].0@ == filename {
        Some(entries[0].1@)
    } else {
        manifest_entry_id(entries.subrange(1, entries.len() as int), filename)
    }
}

proof fn lemma_manifest_entry_id_match(entries: Seq<(String, String)>, filename: Seq<char>, i: int)
    requires
        0 <= i < entries.len(),
        entries[i].0@ == filename,
        forall|j: int| 0 <= j < i ==> (#[trigger] entries[j]).0@ != filename,
    ensures
        manifest_entry_id(entries, filename) == Some(entries[i].1@),
    decreases i,
{
    if i > 0 {
        let rest = entries.subrange(1, entries.len() as int);
        assert(rest[i - 1] == entries[i]);
        assert forall|j: int| 0 <= j < i - 1 implies (#[trigger] rest[j]).0@ != filename by {
            assert(rest[j] == entries[j + 1]);
        }
        lemma_manifest_entry_id_match(rest, filename, i - 1);
    }
}

proof fn lemma_manifest_entry_id_absent(entries: Seq<(String, String)>, filename: Seq<char>)
    requires
        forall|j: int| 0 <= j < entries.len() ==> (#[trigger] entries[j]).0@ != filename,
    ensures
        manifest_entry_id(entries, filename) is None,
    decreases entries.len(),
{
    if entries.len() > 0 {
        let rest = entries.subrange(1, entries.len() as int);
        assert forall|j: int| 0 <= j < rest.len() implies (#[trigger] rest[j]).0@ != filename by {
            assert(rest[j] == entries[j + 1]);
        }
        lemma_manifest_entry_id_absent(rest, filename);
    }
}

/// The blob id of the first tree entry named `filename`, if any.
pub fn find_entry_id(entries: &Vec<(String, String)>, filename: &String) -> (r: Option<String>)
    ensures
        match r {
            Some(id) => manifest_entry_id(entries@, filename@) == Some(id@),
            None => manifest_entry_id(entries@, filename@) is None,
        },
{
    let n = entries.len();
    let mut i: usize = 0;
    while i < n
        invariant
            0 <= i <= n,
            n == entries@.len(),
            forall|j: int| 0 <= j < i ==> (#[trigger] entries@[j]).0@ != filename@,
        decreases n - i,
    {
        if entries[i].0 == *filename {
            proof {
                lemma_manifest_entry_id_match(entries@, filename@, i as int);
            }
            return Some(entries[i].1.clone());
        }
        i = i + 1;
    }
    proof {
        lemma_manifest_entry_id_absent(entries@, filename@);
    }
    None
}

/// Builds the registry: holds the clone task, the startup arguments it
/// authenticates with, and the manifest filename to look for. The page
/// requests and probes around it are the surrounding program's.
pub struct InitService {
    pub deploy_info_repo: DeployInfoRepository,
    pub clone_repo_task: CloneRepoTask,
    pub args: StartupArgs,
    pub manifest_filename: String,
}

impl InitService {
    pub fn new(
        deploy_info_repo: DeployInfoRepository,
        clone_repo_task: CloneRepoTask,
        args: StartupArgs,
        manifest_filename: String,
    ) -> (r: InitService)
        ensures
            r.deploy_info_repo == deploy_info_repo,
            r.args == args,
            r.manifest_filename@ == manifest_filename@,
    {
        InitService { deploy_info_repo, clone_repo_task, args, manifest_filename }
    }

    /// Clones one repository into the configured clone root, authenticating
    /// with the startup arguments: a url without a derivable name is
    /// rejected outright, everything else is handed to the SSH clone.
    pub fn clone_repo(&self, ssh_git_url: &String, clone_root: &str) -> (r: Result<
        CloneRepoTaskResult,
        CloneRepoTaskError,
    >)
        ensures
            (!has_repo_name(ssh_git_url@) <==> (r matches Err(e) && e
                == CloneRepoTaskError::CouldNotExtractRepoName)),
            match r {
                Ok(result) => result.repo_path@ == clone_root@ + "/"@ + repo_name_of(
                    ssh_git_url@,
                ),
                Err(e) => e == CloneRepoTaskError::CouldNotExtractRepoName || e
                    == CloneRepoTaskError::CouldNotCloneRepo,
            },
    {
        self.clone_repo_task.execute(
            ssh_git_url,
            clone_root,
            &self.args.ssh_passphrase,
            &self.args.ssh_key_path,
        )
    }

    /// Resolves the manifest file's blob id at the tip of the default
    /// branch: revparse the branch, walk from the commit to its tree, and look the
    /// manifest filename up among the tree's entries. Every failure along
    /// the walk is `CouldNotGetGitFileId`.
    pub fn get_deploy_file_git_id(
        &self,
        repo: &git2::Repository,
        default_branch: &String,
    ) -> (r: Result<String, InitServiceError>)
        ensures
            r matches Err(e) ==> e == InitServiceError::CouldNotGetGitFileId,
    {
        let object = match git_revparse_object(repo, default_branch.as_str()) {
            Ok(object) => object,
            Err(_) => {
                return Err(InitServiceError::CouldNotGetGitFileId);
            },
        };
        let commit = match git_object_as_commit(&object) {
            Some(commit) => commit,
            None => {
                return Err(InitServiceError::CouldNotGetGitFileId);
            },
        };
        let tree = match git_commit_tree(commit) {
            Ok(tree) => tree,
            Err(_) => {
                return Err(InitServiceError::CouldNotGetGitFileId);
            },
        };
        let entries = git_tree_entries(&tree);
        match find_entry_id(&entries, &self.manifest_filename) {
            Some(id) => Ok(id),
            None => Err(InitServiceError::CouldNotGetGitFileId),
        }
    }

    /// Registers one cloned repository: parses the manifest text fetched
    /// from the clone, resolves the manifest blob id, builds the
    /// registration record and saves it under the repository's ssh url
    /// (replacing any prior record). A parse failure is
    /// `CouldNotParseYamlFile`, exactly when the text is malformed; a blob-id
    /// failure is `CouldNotGetGitFileId`; either aborts the registration of
    /// this repository only, leaving the registry unchanged.
    pub fn register_repository(
        &mut self,
        github_repo: &GithubRepoDto,
        clone: CloneRepoTaskResult,
        manifest_text: &str,
    ) -> (r: Result<(), InitServiceError>)
        requires
            old(self).deploy_info_repo.wf(),
        ensures
            final(self).deploy_info_repo.wf(),
            (parse_manifest(manifest_text@) is None <==> r == Err::<(), InitServiceError>(
                InitServiceError::CouldNotParseYamlFile,
            )),
            match r {
                Ok(()) => {
                    let url = github_repo.ssh_url@;
                    let registry = final(self).deploy_info_repo@;
                    &&& registry.contains_key(url)
                    &&& registry == old(self).deploy_info_repo@.insert(url, registry[url])
                    &&& registry[url].ssh_git_url@ == url
                    &&& registry[url].repo_path@ == clone.repo_path@
                    &&& registry[url].git_repository == clone.git_repository
                    &&& Some(registry[url].deploy_info@) == parse_manifest(manifest_text@)
                    &&& registry[url].manifest_content_id is Some
                },
                Err(e) => {
                    &&& final(self).deploy_info_repo@ == old(self).deploy_info_repo@
                    &&& (e == InitServiceError::CouldNotParseYamlFile || e
                        == InitServiceError::CouldNotGetGitFileId)
                },
            },
    {
        let deploy_info = match DeployInfo::parse(manifest_text) {
            Ok(info) => info,
            Err(ManifestParseError::MalformedManifest) => {
                return Err(InitServiceError::CouldNotParseYamlFile);
            },
        };
        let content_id = match self.get_deploy_file_git_id(
            &clone.git_repository,
            &github_repo.default_branch,
        ) {
            Ok(id) => id,
            Err(_) => {
                return Err(InitServiceError::CouldNotGetGitFileId);
            },
        };
        let entity = DeployInfoEntity {
            ssh_git_url: github_repo.ssh_url.clone(),
            repo_path: clone.repo_path,
            git_repository: clone.git_repository,
            deploy_info,
            manifest_content_id: Some(content_id),
        };
        let _ = self.deploy_info_repo.save(github_repo.ssh_url.clone(), entity);
        Ok(())
    }
}

} // verus!
