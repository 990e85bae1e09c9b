use mini_ci::deploy_engine::{
    commands_for_branch, format_remote_branch, resolve_branch_name, DeployService,
    DeployServiceError, GithubPushEventDto, PushEventRepositoryDto,
};
use mini_ci::deploy_run::RunOutcome;
use mini_ci::manifest::{Branch, DeployInfo};
use mini_ci::registry::{DeployInfoEntity, DeployInfoRepository};

fn push_event(ref_field: &str, ssh_url: &str) -> GithubPushEventDto {
    GithubPushEventDto {
        ref_field: ref_field.to_string(),
        repository: PushEventRepositoryDto { ssh_url: ssh_url.to_string() },
    }
}

/// A repository with one commit (holding the manifest file as its only tree
/// entry) and both `refs/heads/<branch>` and `refs/remotes/origin/<branch>`
/// pointing at it.
fn repo_with_branch(path: &str, branch: &str) -> git2::Repository {
    let repo = git2::Repository::init(path).expect("init test repository");
    {
        let blob = repo.blob(b"branches:\n").expect("blob");
        let mut builder = repo.treebuilder(None).expect("treebuilder");
        builder.insert("docker-deploy.yml", blob, 0o100644).expect("tree entry");
        let tree_id = builder.write().expect("tree");
        let tree = repo.find_tree(tree_id).expect("find tree");
        let sig = git2::Signature::now("tester", "tester@example.org").expect("signature");
        let commit_id = repo
            .commit(None, &sig, &sig, "initial", &tree, &[])
            .expect("commit");
        repo.reference(
            &format!("refs/heads/{}", branch),
            commit_id,
            true,
            "test local branch",
        )
        .expect("local branch ref");
        repo.reference(
            &format!("refs/remotes/origin/{}", branch),
            commit_id,
            true,
            "test remote branch",
        )
        .expect("remote branch ref");
    }
    repo
}

#[test]
fn branch_resolution_takes_text_after_last_slash() {
    assert_eq!(resolve_branch_name("refs/heads/mvp"), Ok("mvp".to_string()));
    assert_eq!(resolve_branch_name("refs/heads/feature/x"), Ok("x".to_string()));
}

#[test]
fn branch_resolution_without_slash_is_an_error_not_a_panic() {
    assert_eq!(resolve_branch_name("mvp"), Err(DeployServiceError::CouldNotGetBranch));
    assert_eq!(resolve_branch_name(""), Err(DeployServiceError::CouldNotGetBranch));
}

#[test]
fn remote_branch_name_is_prefixed_with_origin() {
    assert_eq!(format_remote_branch(&"mvp".to_string()), "origin/mvp");
}

#[test]
fn commands_lookup_finds_matching_branch() {
    let info = DeployInfo {
        branches: vec![
            Branch { name: "main".to_string(), commands: vec!["a".to_string()] },
            Branch { name: "dev".to_string(), commands: vec!["b".to_string(), "c".to_string()] },
        ],
    };
    assert_eq!(commands_for_branch(&info, &"dev".to_string()), vec!["b".to_string(), "c".to_string()]);
    assert_eq!(commands_for_branch(&info, &"main".to_string()), vec!["a".to_string()]);
    assert_eq!(commands_for_branch(&info, &"other".to_string()), Vec::<String>::new());
}

#[test]
fn unregistered_repository_is_rejected_without_git_work() {
    let engine = DeployService::new(DeployInfoRepository::new());
    let outcome = engine.execute(push_event("refs/heads/mvp", "git@github.com:a/b.git"));
    assert_eq!(outcome.unwrap_err(), DeployServiceError::CouldNotGetRepoInfo);
}

#[test]
fn registered_repository_with_bare_ref_is_rejected() {
    let url = "git@github.com:a/b.git".to_string();
    let path = "/tmp/mini_ci_engine_bare_ref";
    let mut registry = DeployInfoRepository::new();
    registry.save(
        url.clone(),
        DeployInfoEntity {
            ssh_git_url: url.clone(),
            repo_path: path.to_string(),
            git_repository: repo_with_branch(path, "mvp"),
            deploy_info: DeployInfo { branches: vec![] },
            manifest_content_id: None,
        },
    );
    let engine = DeployService::new(registry);
    let outcome = engine.execute(push_event("mvp", &url));
    assert_eq!(outcome.unwrap_err(), DeployServiceError::CouldNotGetBranch);
}

#[test]
fn missing_remote_branch_is_rejected() {
    let url = "git@github.com:a/b.git".to_string();
    let path = "/tmp/mini_ci_engine_no_branch";
    let mut registry = DeployInfoRepository::new();
    registry.save(
        url.clone(),
        DeployInfoEntity {
            ssh_git_url: url.clone(),
            repo_path: path.to_string(),
            git_repository: repo_with_branch(path, "mvp"),
            deploy_info: DeployInfo { branches: vec![] },
            manifest_content_id: None,
        },
    );
    let engine = DeployService::new(registry);
    let outcome = engine.execute(push_event("refs/heads/elsewhere", &url));
    assert_eq!(outcome.unwrap_err(), DeployServiceError::CouldNotGetBranch);
}

#[test]
fn branch_that_peels_to_no_tree_is_a_checkout_failure() {
    let url = "git@github.com:a/b.git".to_string();
    let path = "/tmp/mini_ci_engine_blob_branch";
    let repo = git2::Repository::init(path).expect("init test repository");
    {
        // a remote-tracking ref that points at a blob: the branch lookup
        // succeeds, peeling it to a tree cannot
        let blob = repo.blob(b"not a commit").expect("blob");
        repo.reference("refs/remotes/origin/mvp", blob, true, "blob ref")
            .expect("remote branch ref");
    }
    let mut registry = DeployInfoRepository::new();
    registry.save(
        url.clone(),
        DeployInfoEntity {
            ssh_git_url: url.clone(),
            repo_path: path.to_string(),
            git_repository: repo,
            deploy_info: DeployInfo { branches: vec![] },
            manifest_content_id: None,
        },
    );
    let engine = DeployService::new(registry);
    let outcome = engine.execute(push_event("refs/heads/mvp", &url));
    match outcome {
        Ok(_) => panic!("peeling a blob to a tree must fail"),
        Err(e) => assert_eq!(e, DeployServiceError::CouldNotCheckoutBranch),
    }
}

#[test]
fn push_event_checks_out_and_prepares_the_branch_commands() {
    let url = "git@github.com:a/b.git".to_string();
    let path = "/tmp/mini_ci_engine_checkout";
    let mut registry = DeployInfoRepository::new();
    registry.save(
        url.clone(),
        DeployInfoEntity {
            ssh_git_url: url.clone(),
            repo_path: path.to_string(),
            git_repository: repo_with_branch(path, "mvp"),
            deploy_info: DeployInfo {
                branches: vec![Branch {
                    name: "mvp".to_string(),
                    commands: vec!["echo one".to_string(), "echo two".to_string()],
                }],
            },
            manifest_content_id: None,
        },
    );
    let engine = DeployService::new(registry);
    let run = engine
        .execute(push_event("refs/heads/mvp", &url))
        .expect("checkout of an existing remote branch succeeds");
    assert_eq!(run.repo_path, path);
    assert_eq!(run.commands, vec!["echo one".to_string(), "echo two".to_string()]);
    assert_eq!(run.next_command(), Some(&"echo one".to_string()));
}

#[test]
fn push_event_for_branch_without_manifest_entry_is_a_noop_success() {
    let url = "git@github.com:a/b.git".to_string();
    let path = "/tmp/mini_ci_engine_noop";
    let mut registry = DeployInfoRepository::new();
    registry.save(
        url.clone(),
        DeployInfoEntity {
            ssh_git_url: url.clone(),
            repo_path: path.to_string(),
            git_repository: repo_with_branch(path, "mvp"),
            deploy_info: DeployInfo {
                branches: vec![Branch { name: "other".to_string(), commands: vec!["x".to_string()] }],
            },
            manifest_content_id: None,
        },
    );
    let engine = DeployService::new(registry);
    let run = engine.execute(push_event("refs/heads/mvp", &url)).expect("checkout succeeds");
    assert!(run.commands.is_empty());
    assert!(run.next_command().is_none());
    assert!(matches!(run.outcome(), RunOutcome::Succeeded));
}
