use mini_ci::deploy_run::{DeployRun, RunOutcome};
use mini_ci::locks::RepoLocks;

fn commands(names: &[&str]) -> Vec<String> {
    names.iter().map(|n| n.to_string()).collect()
}

#[test]
fn commands_run_in_declared_order_and_stop_at_first_failure() {
    let mut run = DeployRun::start(commands(&["a", "b", "c"]), "/tmp/x".to_string());

    // a runs first and succeeds
    assert_eq!(run.next_command(), Some(&"a".to_string()));
    run.record_exit(0);

    // b runs second and fails
    assert_eq!(run.next_command(), Some(&"b".to_string()));
    run.record_exit(3);

    // c must not run, and the report names b with its exit code
    assert_eq!(run.next_command(), None);
    match run.outcome() {
        RunOutcome::Failed { index, command, exit_code } => {
            assert_eq!(index, 1);
            assert_eq!(command, "b");
            assert_eq!(exit_code, 3);
        },
        other => panic!("expected a failure report, got {:?}", other),
    }
}

#[test]
fn run_with_all_zero_exits_succeeds() {
    let mut run = DeployRun::start(commands(&["a", "b"]), "/tmp/x".to_string());
    while let Some(_next) = run.next_command() {
        run.record_exit(0);
    }
    assert!(matches!(run.outcome(), RunOutcome::Succeeded));
}

#[test]
fn empty_command_list_is_an_immediate_success() {
    let run = DeployRun::start(Vec::new(), "/tmp/x".to_string());
    assert_eq!(run.next_command(), None);
    assert!(matches!(run.outcome(), RunOutcome::Succeeded));
}

#[test]
fn timed_out_command_stops_the_run_and_is_named() {
    let mut run = DeployRun::start(commands(&["a", "b", "c"]), "/tmp/x".to_string());

    assert_eq!(run.next_command(), Some(&"a".to_string()));
    run.record_exit(0);

    // b exceeds its bound and is terminated; c must not run
    assert_eq!(run.next_command(), Some(&"b".to_string()));
    run.record_timeout();
    assert_eq!(run.next_command(), None);
    match run.outcome() {
        RunOutcome::CommandTimedOut { index, command } => {
            assert_eq!(index, 1);
            assert_eq!(command, "b");
        },
        other => panic!("expected a timeout report, got {:?}", other),
    }
}

#[test]
fn failing_first_command_leaves_the_rest_unexecuted() {
    let mut run = DeployRun::start(commands(&["a", "b", "c"]), "/tmp/x".to_string());
    run.record_exit(1);
    assert_eq!(run.next_command(), None);
    assert_eq!(run.executed, 1);
}

#[test]
fn same_repository_deploys_are_serialized() {
    let mut locks = RepoLocks::new();
    let url = "git@github.com:a/b.git".to_string();
    let other = "git@github.com:a/c.git".to_string();

    // the first run takes the lock; a concurrent second run for the same
    // repository is refused until release
    assert!(locks.try_acquire(&url));
    assert!(!locks.try_acquire(&url));

    // a different repository proceeds in parallel
    assert!(locks.try_acquire(&other));

    locks.release(&url);
    assert!(locks.try_acquire(&url));
}
