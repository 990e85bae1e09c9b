//! The deploy engine: on an inbound push event it looks the repository up in
//! the registry, resolves the target branch, performs a forced checkout of
//! that branch's tree, and prepares the manifest's commands for that branch
//! as a [`DeployRun`](crate::deploy_run::DeployRun).
//!
//! Command execution itself is the caller's: it drives the returned run,
//! spawning each command and recording its exit code.

use vstd::prelude::*;

use crate::deploy_run::{run_init, DeployRun};
use crate::git::{
    git_checkout_object_forced, git_find_remote_branch_ref, git_find_tree_object,
    git_reference_tree_id, git_set_head,
};
use crate::manifest::{BranchView, DeployInfo};
use crate::registry::DeployInfoRepository;
use crate::text::{after_last_slash, has_slash, lemma_after_last_slash, rfind_char};

verus! {

/// A push-event payload: the pushed ref (e.g. `refs/heads/main`) and the
/// repository it belongs to.
#[derive(Debug, Clone, PartialEq, Eq)]
pub struct GithubPushEventDto {
    pub ref_field: String,
    pub repository: PushEventRepositoryDto,
}

/// The repository part of a push-event payload.
#[derive(Debug, Clone, PartialEq, Eq)]
pub struct PushEventRepositoryDto {
    pub ssh_url: String,
}

/// Why a push event was rejected.
#[derive(Debug, Clone, Copy, PartialEq, Eq, Structural)]
pub enum DeployServiceError {
    /// The pushed ref names no branch (it has no `/`), or the repository has
    /// no such remote-tracking branch.
    CouldNotGetBranch,
    /// The event's ssh url has no registration record.
    CouldNotGetRepoInfo,
    /// Tree resolution, the forced checkout, or the HEAD update failed.
    CouldNotCheckoutBranch,
}

/// The branch name of a push ref: the text after the last `/`. Yields
/// `CouldNotGetBranch`, and never panics, when the ref holds no `/` at all.
pub fn resolve_branch_name(ref_field: &str) -> (r: Result<String, DeployServiceError>)
    ensures
        match r {
            Ok(name) => has_slash(ref_field@) && name@ == after_last_slash(ref_field@),
            Err(e) => e == DeployServiceError::CouldNotGetBranch && !has_slash(ref_field@),
        },
{
    match rfind_char(ref_field, '/') {
        Some(i) => {
            let len = ref_field.unicode_len();
            let name = ref_field.substring_char(i + 1, len).to_owned();
            proof {
                lemma_after_last_slash(ref_field@, i as int);
            }
            Ok(name)
        },
        None => Err(DeployServiceError::CouldNotGetBranch),
    }
}

/// The remote-tracking name of a branch: `origin/` + the branch name.
pub fn format_remote_branch(name: &String) -> (r: String)
    ensures
        r@ == "origin/"@ + name@,
{
    "origin/".to_owned().concat(name.as_str())
}

/// The commands the manifest declares for `name`: those of its first branch
/// entry named `name`, or none when no entry matches (a repository may have
/// deploy commands for only some branches).
pub open spec fn branch_commands_of(branches: Seq<BranchView>, name: Seq<char>) -> Seq<Seq<char>>
    decreases branches.len(),
{
    if branches.len() == 0 {
        Seq::empty()
    } else if branches[0].name == name {
        branches[0].commands
    } else {
        branch_commands_of(branches.subrange(1, branches.len() as int), name)
    }
}

proof fn lemma_branch_commands_match(branches: Seq<BranchView>, name: Seq<char>, i: int)
    requires
        0 <= i < branches.len(),
        branches[i].name == name,
        forall|j: int| 0 <= j < i ==> branches[j].name != name,
    ensures
        branch_commands_of(branches, name) == branches[i].commands,
    decreases i,
{
    if i > 0 {
        let rest = branches.subrange(1, branches.len() as int);
        assert(rest[i - 1] == branches[i]);
        assert forall|j: int| 0 <= j < i - 1 implies rest[j].name != name by {
            assert(rest[j] == branches[j + 1]);
        }
        lemma_branch_commands_match(rest, name, i - 1);
    }
}

proof fn lemma_branch_commands_absent(branches: Seq<BranchView>, name: Seq<char>)
    requires
        forall|j: int| 0 <= j < branches.len() ==> branches[j].name != name,
    ensures
        branch_commands_of(branches, name) == Seq::<Seq<char>>::empty(),
    decreases branches.len(),
{
    if branches.len() > 0 {
        let rest = branches.subrange(1, branches.len() as int);
        assert forall|j: int| 0 <= j < rest.len() implies rest[j].name != name by {
            assert(rest[j] == branches[j + 1]);
        }
        lemma_branch_commands_absent(rest, name);
    }
}

/// A copy of the commands the manifest declares for branch `name`, in
/// declared order; empty when no branch entry matches.
pub fn commands_for_branch(info: &DeployInfo, name: &String) -> (r: Vec<String>)
    ensures
        r.deep_view() == branch_commands_of(info@.branches, name@),
{
    let n = info.branches.len();
    let mut i: usize = 0;
    while i < n
        invariant
            0 <= i <= n,
            n == info.branches@.len(),
            forall|j: int| 0 <= j < i ==> info@.branches[j].name != name@,
        decreases n - i,
    {
        if info.branches[i].name == *name {
            let cmds = &info.branches[i].commands;
            let m = cmds.len();
            let mut out: Vec<String> = Vec::new();
            let mut k: usize = 0;
            while k < m
                invariant
                    0 <= k <= m,
                    m == cmds@.len(),
                    out@.len() == k,
                    forall|j: int| 0 <= j < k ==> out@[j]@ == cmds@[j]@,
                decreases m - k,
            {
                out.push(cmds[k].clone());
                k = k + 1;
            }
            proof {
                assert(out.deep_view() =~= info@.branches[i as int].commands);
                lemma_branch_commands_match(info@.branches, name@, i as int);
            }
            return out;
        }
        i = i + 1;
    }
    let out: Vec<String> = Vec::new();
    proof {
        lemma_branch_commands_absent(info@.branches, name@);
        assert(out.deep_view() =~= Seq::<Seq<char>>::empty());
    }
    out
}

/// The deploy engine. It reads the registry that discovery populated.
pub struct DeployService {
    pub deploy_info_repo: DeployInfoRepository,
}

impl DeployService {
    pub fn new(deploy_info_repo: DeployInfoRepository) -> (r: DeployService)
        ensures
            r.deploy_info_repo == deploy_info_repo,
    {
        DeployService { deploy_info_repo }
    }

    /// Handles one push event: registry lookup, branch resolution, forced
    /// checkout, and command preparation, in that order.
    ///
    /// An unregistered url is rejected as `CouldNotGetRepoInfo` before any
    /// git operation; a ref without `/` is rejected as `CouldNotGetBranch`.
    /// On success the returned run holds exactly the manifest commands of the
    /// resolved branch (none when the manifest has no entry for it), not yet
    /// executed, to be driven to completion by the caller.
    pub fn execute(&self, dto: GithubPushEventDto) -> (r: Result<DeployRun, DeployServiceError>)
        requires
            self.deploy_info_repo.wf(),
        ensures
            (!self.deploy_info_repo@.contains_key(dto.repository.ssh_url@) <==> r == Err::<
                DeployRun,
                DeployServiceError,
            >(DeployServiceError::CouldNotGetRepoInfo)),
            self.deploy_info_repo@.contains_key(dto.repository.ssh_url@) && !has_slash(
                dto.ref_field@,
            ) ==> r == Err::<DeployRun, DeployServiceError>(DeployServiceError::CouldNotGetBranch),
            r == Err::<DeployRun, DeployServiceError>(DeployServiceError::CouldNotCheckoutBranch)
                ==> has_slash(dto.ref_field@),
            match r {
                Ok(run) => {
                    let entity = self.deploy_info_repo@[dto.repository.ssh_url@];
                    &&& has_slash(dto.ref_field@)
                    &&& run.wf()
                    &&& run@ == run_init(
                        branch_commands_of(
                            entity.deploy_info@.branches,
                            after_last_slash(dto.ref_field@),
                        ),
                    )
                    &&& run.repo_path@ == entity.repo_path@
                },
                Err(e) => e == DeployServiceError::CouldNotGetRepoInfo || e
                    == DeployServiceError::CouldNotGetBranch || e
                    == DeployServiceError::CouldNotCheckoutBranch,
            },
    {
        let entity = match self.deploy_info_repo.get(&dto.repository.ssh_url) {
            Some(entity) => entity,
            None => {
                return Err(DeployServiceError::CouldNotGetRepoInfo);
            },
        };
        let branch_name = match resolve_branch_name(dto.ref_field.as_str()) {
            Ok(name) => name,
            Err(e) => {
                return Err(e);
            },
        };
        let remote_name = format_remote_branch(&branch_name);
        let branch_ref = match git_find_remote_branch_ref(
            &entity.git_repository,
            remote_name.as_str(),
        ) {
            Ok(reference) => reference,
            Err(_) => {
                return Err(DeployServiceError::CouldNotGetBranch);
            },
        };
        let tree_id = match git_reference_tree_id(&branch_ref) {
            Ok(id) => id,
            Err(_) => {
                return Err(DeployServiceError::CouldNotCheckoutBranch);
            },
        };
        let tree_object = match git_find_tree_object(&entity.git_repository, tree_id) {
            Ok(object) => object,
            Err(_) => {
                return Err(DeployServiceError::CouldNotCheckoutBranch);
            },
        };
        if git_checkout_object_forced(&entity.git_repository, &tree_object).is_err() {
            return Err(DeployServiceError::CouldNotCheckoutBranch);
        }
        if git_set_head(&entity.git_repository, dto.ref_field.as_str()).is_err() {
            return Err(DeployServiceError::CouldNotCheckoutBranch);
        }
        let commands = commands_for_branch(&entity.deploy_info, &branch_name);
        Ok(DeployRun::start(commands, entity.repo_path.clone()))
    }
}

} // verus!
