use mini_ci::clone_task::{CloneRepoTask, CloneRepoTaskError};
use mini_ci::config::StartupArgs;
use mini_ci::deploy_engine::{DeployService, GithubPushEventDto, PushEventRepositoryDto};
use mini_ci::discovery::{
    deploy_file_url, filter_repos_by_deploy_file, has_next_link, remove_archived_and_disabled_repos,
    require_repos_found, sanitize_repos, user_repos_url, GithubRepoDto, InitService,
    InitServiceError, Owner, Paginator,
};
use mini_ci::registry::DeployInfoRepository;
use mini_ci::status_is_success;

fn repo(name: &str, archived: bool, disabled: bool) -> GithubRepoDto {
    GithubRepoDto {
        id: 1,
        name: name.to_string(),
        full_name: format!("romqu/{}", name),
        owner: Owner { login: "romqu".to_string() },
        ssh_url: format!("git@github.com:romqu/{}.git", name),
        default_branch: "master".to_string(),
        archived,
        disabled,
    }
}

#[test]
fn pagination_stops_after_the_page_without_next_indicator() {
    let mut paginator = Paginator::new();
    assert_eq!(paginator.next_page, 1);

    // three pages; only the first two announce a next page
    paginator.record_page(vec![repo("one", false, false)], true);
    assert!(!paginator.done);
    paginator.record_page(vec![repo("two", false, false)], true);
    assert!(!paginator.done);
    paginator.record_page(vec![repo("three", false, false)], false);
    assert!(paginator.done);

    // exactly three requests were issued, and the union keeps encounter order
    assert_eq!(paginator.next_page, 4);
    let names: Vec<String> = paginator.repos.iter().map(|r| r.name.clone()).collect();
    assert_eq!(names, vec!["one".to_string(), "two".to_string(), "three".to_string()]);
}

#[test]
fn pagination_of_an_empty_account_reports_no_repos_found() {
    assert_eq!(require_repos_found(vec![]).unwrap_err(), InitServiceError::NoReposFound);
    let found = require_repos_found(vec![repo("one", false, false)]).unwrap();
    assert_eq!(found.len(), 1);
    assert_eq!(found[0].name, "one");
}

#[test]
fn clone_without_derivable_name_is_rejected_before_any_git_work() {
    let service = init_service();
    let outcome = service.clone_repo(&"no-slash-at-all".to_string(), "/tmp");
    match outcome {
        Ok(_) => panic!("a url without a derivable name must be rejected"),
        Err(e) => assert_eq!(e, CloneRepoTaskError::CouldNotExtractRepoName),
    }
}

#[test]
fn link_header_signals_a_next_page_only_with_the_next_text() {
    assert!(has_next_link(&Some(
        "<https://api.github.com/user/repos?page=2>; rel=\"next\"".to_string()
    )));
    assert!(!has_next_link(&Some("<https://api.github.com/user/repos?page=1>; rel=\"prev\"".to_string())));
    assert!(!has_next_link(&None));
}

#[test]
fn archived_or_disabled_repositories_are_dropped() {
    let kept = remove_archived_and_disabled_repos(vec![
        repo("ok", false, false),
        repo("archived", true, false),
        repo("disabled", false, true),
        repo("both", true, true),
        repo("ok-too", false, false),
    ]);
    let names: Vec<String> = kept.iter().map(|r| r.name.clone()).collect();
    assert_eq!(names, vec!["ok".to_string(), "ok-too".to_string()]);
}

#[test]
fn sanitize_reports_no_repos_found_when_nothing_is_left() {
    assert_eq!(
        sanitize_repos(vec![repo("gone", true, true)]).unwrap_err(),
        InitServiceError::NoReposFound
    );
    assert_eq!(sanitize_repos(vec![]).unwrap_err(), InitServiceError::NoReposFound);
    assert!(sanitize_repos(vec![repo("ok", false, false)]).is_ok());
}

#[test]
fn probe_results_select_the_repositories() {
    let selected = filter_repos_by_deploy_file(
        vec![repo("a", false, false), repo("b", false, false), repo("c", false, false)],
        &vec![true, false, true],
    );
    let names: Vec<String> = selected.iter().map(|r| r.name.clone()).collect();
    assert_eq!(names, vec!["a".to_string(), "c".to_string()]);
}

#[test]
fn urls_are_built_exactly() {
    assert_eq!(
        user_repos_url(1, 100, "owner", "created", "asc"),
        "https://api.github.com/user/repos?per_page=100&page=1&type=owner&sort=created&direction=asc"
    );
    assert_eq!(
        deploy_file_url(&repo("api", false, false), &"docker-deploy.yml".to_string()),
        "https://raw.githubusercontent.com/romqu/api/master/docker-deploy.yml"
    );
}

#[test]
fn probe_statuses_follow_the_2xx_rule() {
    assert!(!status_is_success(199));
    assert!(status_is_success(200));
    assert!(status_is_success(299));
    assert!(!status_is_success(300));
    assert!(!status_is_success(404));
}

fn init_service() -> InitService {
    InitService::new(
        DeployInfoRepository::new(),
        CloneRepoTask::new(),
        StartupArgs {
            ssh_passphrase: String::new(),
            ssh_key_path: "/dev/null".to_string(),
        },
        "docker-deploy.yml".to_string(),
    )
}

/// A clone-task result for a locally initialised repository whose default
/// branch tip carries the manifest file.
fn local_clone(path: &str) -> mini_ci::clone_task::CloneRepoTaskResult {
    let repo = git2::Repository::init(path).expect("init test repository");
    {
        let blob = repo.blob(b"branches:\n").expect("blob");
        let mut builder = repo.treebuilder(None).expect("treebuilder");
        builder.insert("docker-deploy.yml", blob, 0o100644).expect("tree entry");
        let tree_id = builder.write().expect("tree");
        let tree = repo.find_tree(tree_id).expect("find tree");
        let sig = git2::Signature::now("tester", "tester@example.org").expect("signature");
        let commit_id = repo
            .commit(None, &sig, &sig, "initial", &tree, &[])
            .expect("commit");
        repo.reference("refs/heads/master", commit_id, true, "test branch")
            .expect("branch ref");
    }
    mini_ci::clone_task::CloneRepoTaskResult {
        repo_path: path.to_string(),
        git_repository: repo,
    }
}

#[test]
fn registration_records_manifest_and_blob_id() {
    let mut service = init_service();
    let dto = repo("api", false, false);
    let clone = local_clone("/tmp/mini_ci_discovery_register");
    let manifest_text = "branches:\n- name: mvp\n  commands:\n  - echo hi\n";

    service
        .register_repository(&dto, clone, manifest_text)
        .expect("registration succeeds");

    let record = service
        .deploy_info_repo
        .get(&dto.ssh_url)
        .expect("record registered under the ssh url");
    assert_eq!(record.repo_path, "/tmp/mini_ci_discovery_register");
    assert_eq!(record.deploy_info.branches[0].name, "mvp");
    assert_eq!(record.deploy_info.branches[0].commands, vec!["echo hi".to_string()]);
    let blob_id = record.manifest_content_id.clone().expect("blob id resolved");
    // the id of the blob holding "branches:\n", as git names it
    assert_eq!(blob_id.len(), 40);
}

#[test]
fn registration_rejects_a_malformed_manifest() {
    let mut service = init_service();
    let dto = repo("api", false, false);
    let clone = local_clone("/tmp/mini_ci_discovery_malformed");

    let outcome = service.register_repository(&dto, clone, "not a manifest");
    assert_eq!(outcome.unwrap_err(), InitServiceError::CouldNotParseYamlFile);
    assert!(service.deploy_info_repo.get(&dto.ssh_url).is_none());
}

#[test]
fn registration_fails_without_manifest_blob() {
    let mut service = init_service();
    let dto = repo("api", false, false);
    // a repository without any commit: the blob id cannot be resolved
    let repo_path = "/tmp/mini_ci_discovery_no_commit";
    let clone = mini_ci::clone_task::CloneRepoTaskResult {
        repo_path: repo_path.to_string(),
        git_repository: git2::Repository::init(repo_path).expect("init test repository"),
    };
    let outcome = service.register_repository(&dto, clone, "branches:\n");
    assert_eq!(outcome.unwrap_err(), InitServiceError::CouldNotGetGitFileId);
}

#[test]
fn registered_repository_accepts_push_events_end_to_end() {
    let mut service = init_service();
    let dto = repo("api", false, false);
    let path = "/tmp/mini_ci_discovery_end_to_end";
    let clone = local_clone(path);
    {
        // give the clone a remote-tracking branch the engine can resolve
        let commit = clone
            .git_repository
            .revparse_single("master")
            .expect("commit")
            .id();
        clone
            .git_repository
            .reference("refs/remotes/origin/mvp", commit, true, "test remote branch")
            .expect("remote branch ref");
    }
    service
        .register_repository(&dto, clone, "branches:\n- name: mvp\n  commands:\n  - echo hi\n")
        .expect("registration succeeds");

    let engine = DeployService::new(service.deploy_info_repo);
    let run = engine
        .execute(GithubPushEventDto {
            ref_field: "refs/heads/mvp".to_string(),
            repository: PushEventRepositoryDto { ssh_url: dto.ssh_url.clone() },
        })
        .expect("push event accepted");
    assert_eq!(run.commands, vec!["echo hi".to_string()]);
    assert_eq!(run.repo_path, path);
}

#[test]
fn clone_task_derives_repository_names() {
    let task = CloneRepoTask::new();
    assert_eq!(
        task.extract_repo_name(&"git@github.com:romqu/schimmelhof-api.git".to_string()),
        Ok("schimmelhof-api".to_string())
    );
    assert_eq!(
        task.extract_repo_name(&"https://github.com/a/b".to_string()),
        Ok("b".to_string())
    );
    assert_eq!(
        task.extract_repo_name(&"no-slash-at-all".to_string()),
        Err(CloneRepoTaskError::CouldNotExtractRepoName)
    );
    assert_eq!(
        task.extract_repo_name(&"x/.git".to_string()),
        Err(CloneRepoTaskError::CouldNotExtractRepoName)
    );
    assert_eq!(
        task.destination(&"git@github.com:romqu/schimmelhof-api.git".to_string(), "/tmp"),
        Ok("/tmp/schimmelhof-api".to_string())
    );
}

#[test]
fn clone_of_an_unreachable_url_fails_with_clone_error() {
    let task = CloneRepoTask::new();
    let outcome = task.execute(
        &"/nonexistent-place/nowhere.git".to_string(),
        "/tmp/mini_ci_clone_fail",
        &String::new(),
        &"/dev/null".to_string(),
    );
    match outcome {
        Ok(_) => panic!("clone of an unreachable url must fail"),
        Err(e) => assert_eq!(e, CloneRepoTaskError::CouldNotCloneRepo),
    }
}
