//! The boundary to libgit2 (the `git2` crate): type declarations and one
//! wrapper per git operation the library relies on.
//!
//! Every outcome of these calls depends on the state of a repository on disk,
//! so no wrapper promises more than its `Result` shape; the verified callers
//! state what holds whatever a call returns.

use vstd::prelude::*;

verus! {

#[verifier::external_type_specification]
#[verifier::external_body]
pub struct ExRepository(git2::Repository);

#[verifier::external_type_specification]
#[verifier::external_body]
pub struct ExGitError(git2::Error);

#[verifier::external_type_specification]
#[verifier::external_body]
pub struct ExOid(git2::Oid);

#[verifier::external_type_specification]
#[verifier::external_body]
pub struct ExReference<'repo>(git2::Reference<'repo>);

#[verifier::external_type_specification]
#[verifier::external_body]
pub struct ExObject<'repo>(git2::Object<'repo>);

#[verifier::external_type_specification]
#[verifier::external_body]
pub struct ExCommit<'repo>(git2::Commit<'repo>);

#[verifier::external_type_specification]
#[verifier::external_body]
pub struct ExTree<'repo>(git2::Tree<'repo>);

/// Relies on git2's `RepoBuilder::clone`: clones `url` over SSH into `dest`,
/// authenticating with the private key at `ssh_key_path` and the optional
/// passphrase. When the url carries no user name, the credential callback
/// falls back to `git`, the usual SSH user of git hosts. Success and failure
/// depend on network, authentication and disk, so nothing is promised beyond
/// the `Result`.
#[verifier::external_body]
pub(crate) fn git_clone_ssh(
    url: &str,
    dest: &str,
    ssh_key_path: &str,
    ssh_passphrase: Option<&str>,
) -> Result<git2::Repository, git2::Error> {
    let mut callbacks = git2::RemoteCallbacks::new();
    callbacks.credentials(move |_url, username_from_url, _allowed| {
        git2::Cred::ssh_key(
            username_from_url.unwrap_or("git"),
            None,
            std::path::Path::new(ssh_key_path),
            ssh_passphrase,
        )
    });
    let mut fetch_options = git2::FetchOptions::new();
    fetch_options.remote_callbacks(callbacks);
    let mut builder = git2::build::RepoBuilder::new();
    builder.fetch_options(fetch_options);
    builder.clone(url, std::path::Path::new(dest))
}

/// Relies on `Repository::find_branch` with `BranchType::Remote` (and
/// `Branch::into_reference`, an accessor): looks the named remote-tracking
/// branch up and hands back its reference.
#[verifier::external_body]
pub(crate) fn git_find_remote_branch_ref<'repo>(
    repo: &'repo git2::Repository,
    name: &str,
) -> Result<git2::Reference<'repo>, git2::Error> {
    repo.find_branch(name, git2::BranchType::Remote).map(|branch| branch.into_reference())
}

/// Relies on `Reference::peel_to_tree`: peels the reference to the id of the
/// tree it points at.
#[verifier::external_body]
pub(crate) fn git_reference_tree_id(
    reference: &git2::Reference,
) -> Result<git2::Oid, git2::Error> {
    reference.peel_to_tree().map(|tree| tree.id())
}

/// Relies on `Repository::find_object` with `ObjectType::Tree`: locates the
/// tree object with the given id.
#[verifier::external_body]
pub(crate) fn git_find_tree_object<'repo>(
    repo: &'repo git2::Repository,
    id: git2::Oid,
) -> Result<git2::Object<'repo>, git2::Error> {
    repo.find_object(id, Some(git2::ObjectType::Tree))
}

/// Relies on `Repository::checkout_tree` with a forced `CheckoutBuilder`:
/// overwrites the working copy with the given tree unconditionally.
#[verifier::external_body]
pub(crate) fn git_checkout_object_forced(
    repo: &git2::Repository,
    object: &git2::Object,
) -> Result<(), git2::Error> {
    let mut checkout = git2::build::CheckoutBuilder::new();
    checkout.force();
    repo.checkout_tree(object, Some(&mut checkout))
}

/// Relies on `Repository::set_head`: points HEAD at the given ref name.
#[verifier::external_body]
pub(crate) fn git_set_head(repo: &git2::Repository, refname: &str) -> Result<(), git2::Error> {
    repo.set_head(refname)
}

/// Relies on `Repository::revparse_single`: resolves a revision string to
/// the single object it names.
#[verifier::external_body]
pub(crate) fn git_revparse_object<'repo>(
    repo: &'repo git2::Repository,
    spec: &str,
) -> Result<git2::Object<'repo>, git2::Error> {
    repo.revparse_single(spec)
}

/// Relies on `Object::as_commit`: the object viewed as a commit, if it is
/// one.
#[verifier::external_body]
pub(crate) fn git_object_as_commit<'a, 'repo>(
    object: &'a git2::Object<'repo>,
) -> Option<&'a git2::Commit<'repo>> {
    object.as_commit()
}

/// Relies on `Commit::tree`: the tree the commit points at.
#[verifier::external_body]
pub(crate) fn git_commit_tree<'repo>(
    commit: &git2::Commit<'repo>,
) -> Result<git2::Tree<'repo>, git2::Error> {
    commit.tree()
}

/// Relies on `Tree::iter` and the `TreeEntry` accessors `name_bytes` and
/// `id`: hands out each entry's name and object id, converted to plain
/// strings, in the tree's order.
#[verifier::external_body]
pub(crate) fn git_tree_entries(tree: &git2::Tree) -> Vec<(String, String)> {
    tree.iter().map(
        |entry| (String::from_utf8_lossy(entry.name_bytes()).into_owned(), entry.id().to_string()),
    ).collect()
}

} // verus!
