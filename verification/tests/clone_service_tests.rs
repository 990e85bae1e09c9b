use std::time::{SystemTime, UNIX_EPOCH};

use mini_ci::clone_service::{CloneRepoService, CloneRepoServiceError};
use mini_ci::deploy_engine::{
    DeployService, DeployServiceError, GithubPushEventDto, PushEventRepositoryDto,
};
use mini_ci::manifest::DeployInfo;
use mini_ci::registry::{DeployInfoEntity, DeployInfoRepository, GitRepoInfoRepository};

/// A directory name no earlier test run used.
fn unique_dir(prefix: &str) -> String {
    let nanos = SystemTime::now().duration_since(UNIX_EPOCH).expect("clock").as_nanos();
    format!("{}_{}", prefix, nanos)
}

/// A local source repository with one commit on `master`, usable as a clone
/// origin without any network.
fn source_repo(path: &str) -> git2::Repository {
    let repo = git2::Repository::init(path).expect("init source repository");
    {
        let blob = repo.blob(b"branches:\n").expect("blob");
        let mut builder = repo.treebuilder(None).expect("treebuilder");
        builder.insert("docker-deploy.yml", blob, 0o100644).expect("tree entry");
        let tree_id = builder.write().expect("tree");
        let tree = repo.find_tree(tree_id).expect("find tree");
        let sig = git2::Signature::now("tester", "tester@example.org").expect("signature");
        let commit_id = repo
            .commit(None, &sig, &sig, "initial", &tree, &[])
            .expect("commit");
        repo.reference("refs/heads/master", commit_id, true, "test branch")
            .expect("branch ref");
        repo.set_head("refs/heads/master").expect("set head");
    }
    repo
}

#[test]
fn clone_service_clones_and_records_a_local_repository() {
    let origin = unique_dir("/tmp/mini_ci_clone_origin/project.git");
    let _repo = source_repo(&origin);
    // the derived name carries the unique suffix, so the destination is fresh
    let url = origin.clone();
    let clone_root = "/tmp/mini_ci_clone_dest";

    let mut service = CloneRepoService::new(GitRepoInfoRepository::new());
    let path = service
        .execute(&url, clone_root, &String::new(), &"/dev/null".to_string())
        .expect("local clone succeeds");
    assert!(path.starts_with("/tmp/mini_ci_clone_dest/"));

    let record = service.repo_info_repo.get(&url).expect("clone recorded under the url");
    assert_eq!(record.path, path);
    // the clone really is a repository on disk
    assert!(record.git_repository.revparse_single("master").is_ok());
}

#[test]
fn clone_service_reports_failed_clones() {
    let mut service = CloneRepoService::new(GitRepoInfoRepository::new());
    let outcome = service.execute(
        &"/nonexistent-place/nowhere.git".to_string(),
        "/tmp/mini_ci_clone_dest",
        &String::new(),
        &"/dev/null".to_string(),
    );
    match outcome {
        Ok(_) => panic!("clone of a missing origin must fail"),
        Err(e) => assert_eq!(e, CloneRepoServiceError::CouldNotCloneRepo),
    }
    assert!(service.repo_info_repo.get(&"/nonexistent-place/nowhere.git".to_string()).is_none());
}

#[test]
fn clone_service_rejects_a_url_without_a_derivable_name() {
    let mut service = CloneRepoService::new(GitRepoInfoRepository::new());
    let outcome = service.execute(
        &"no-slash-at-all".to_string(),
        "/tmp/mini_ci_clone_dest",
        &String::new(),
        &"/dev/null".to_string(),
    );
    match outcome {
        Ok(_) => panic!("a url without a derivable name must be rejected"),
        Err(e) => assert_eq!(e, CloneRepoServiceError::CouldNotCloneRepo),
    }
    assert!(service.repo_info_repo.get(&"no-slash-at-all".to_string()).is_none());
}

#[test]
fn checkout_into_a_bare_repository_fails_as_checkout_error() {
    let path = unique_dir("/tmp/mini_ci_engine_bare");
    let repo = git2::Repository::init_bare(&path).expect("init bare repository");
    {
        let blob = repo.blob(b"x").expect("blob");
        let mut builder = repo.treebuilder(None).expect("treebuilder");
        builder.insert("f", blob, 0o100644).expect("tree entry");
        let tree_id = builder.write().expect("tree");
        let tree = repo.find_tree(tree_id).expect("find tree");
        let sig = git2::Signature::now("tester", "tester@example.org").expect("signature");
        let commit_id = repo
            .commit(None, &sig, &sig, "initial", &tree, &[])
            .expect("commit");
        repo.reference("refs/remotes/origin/mvp", commit_id, true, "remote branch")
            .expect("remote branch ref");
    }
    let url = "git@github.com:a/bare.git".to_string();
    let mut registry = DeployInfoRepository::new();
    registry.save(
        url.clone(),
        DeployInfoEntity {
            ssh_git_url: url.clone(),
            repo_path: path,
            git_repository: repo,
            deploy_info: DeployInfo { branches: vec![] },
            manifest_content_id: None,
        },
    );
    let engine = DeployService::new(registry);
    let outcome = engine.execute(GithubPushEventDto {
        ref_field: "refs/heads/mvp".to_string(),
        repository: PushEventRepositoryDto { ssh_url: url },
    });
    match outcome {
        Ok(_) => panic!("checkout into a bare repository must fail"),
        Err(e) => assert_eq!(e, DeployServiceError::CouldNotCheckoutBranch),
    }
}
