//! One deploy run: the manifest commands of the target branch, executed in
//! declared order, stopping at the first command that exits non-zero or
//! exceeds its time bound.
//!
//! The library decides which command runs next and records how each ended
//! (its exit code, or that the configured timeout expired and the process
//! was terminated); the surrounding program performs the actual process
//! execution, enforces the bound, and streams the output.

use vstd::prelude::*;

verus! {

/// How one command ended when it did not exit with zero.
#[derive(Debug, Clone, Copy, PartialEq, Eq, Structural)]
pub enum CommandFailure {
    /// The command exited with this non-zero status.
    NonZeroExit(i32),
    /// The command exceeded the configured time bound and was terminated.
    TimedOut,
}

/// Mathematical model of a run: the commands, how many of them have been
/// executed, and the first failure, if any.
pub ghost struct RunModel {
    pub commands: Seq<Seq<char>>,
    pub executed: int,
    pub failure: Option<(int, CommandFailure)>,
}

/// A well-formed run: an executed prefix, and a failure only as the last
/// executed command, with a non-zero code where it is an exit at all.
pub open spec fn run_wf(m: RunModel) -> bool {
    &&& 0 <= m.executed <= m.commands.len()
    &&& match m.failure {
        Some((i, f)) => i + 1 == m.executed && (f matches CommandFailure::NonZeroExit(c) ==> c
            != 0),
        None => true,
    }
}

/// The run in which nothing has executed yet.
pub open spec fn run_init(commands: Seq<Seq<char>>) -> RunModel {
    RunModel { commands, executed: 0, failure: None }
}

/// Another command may still run: nothing failed and commands remain.
pub open spec fn run_has_next(m: RunModel) -> bool {
    m.failure is None && m.executed < m.commands.len()
}

/// Recording the exit code of the command at position `m.executed`.
pub open spec fn run_step(m: RunModel, code: i32) -> RunModel
    recommends
        run_has_next(m),
{
    RunModel {
        commands: m.commands,
        executed: m.executed + 1,
        failure: if code != 0 {
            Some((m.executed, CommandFailure::NonZeroExit(code)))
        } else {
            None
        },
    }
}

/// Recording that the command at position `m.executed` exceeded its time
/// bound: it counts as executed, and nothing runs after it.
pub open spec fn run_timeout_step(m: RunModel) -> RunModel
    recommends
        run_has_next(m),
{
    RunModel {
        commands: m.commands,
        executed: m.executed + 1,
        failure: Some((m.executed, CommandFailure::TimedOut)),
    }
}

/// Driving a run to completion, where `exits[i]` is the code the `i`-th
/// command would exit with if it ran.
pub open spec fn run_complete(m: RunModel, exits: Seq<i32>) -> RunModel
    recommends
        exits.len() == m.commands.len(),
    decreases m.commands.len() - m.executed
{
    if run_has_next(m) && 0 <= m.executed < exits.len() {
        run_complete(run_step(m, exits[m.executed]), exits)
    } else {
        m
    }
}

/// How a finished or running deploy run reports itself.
#[derive(Debug)]
pub enum RunOutcome {
    /// Commands remain and none has failed.
    InProgress,
    /// Every command exited with zero.
    Succeeded,
    /// The command at `index` exited with the non-zero `exit_code`; no later
    /// command was run.
    Failed { index: usize, command: String, exit_code: i32 },
    /// The command at `index` exceeded the configured time bound and was
    /// terminated; no later command was run.
    CommandTimedOut { index: usize, command: String },
}

/// One execution of a manifest branch's command list inside a repository's
/// working copy.
#[derive(Debug)]
pub struct DeployRun {
    /// The branch's commands, in declared (= execution) order.
    pub commands: Vec<String>,
    /// The working-copy directory the commands run in.
    pub repo_path: String,
    /// How many commands have been executed so far.
    pub executed: usize,
    /// The first failure: position and how the command there ended.
    pub failure: Option<(usize, CommandFailure)>,
}

impl View for DeployRun {
    type V = RunModel;

    open spec fn view(&self) -> RunModel {
        RunModel {
            commands: self.commands.deep_view(),
            executed: self.executed as int,
            failure: match self.failure {
                Some((i, f)) => Some((i as int, f)),
                None => None,
            },
        }
    }
}

impl DeployRun {
    /// The structural invariant of a run.
    pub open spec fn wf(&self) -> bool {
        run_wf(self@)
    }

    /// A fresh run for `commands`, to be executed in `repo_path`.
    pub fn start(commands: Vec<String>, repo_path: String) -> (r: DeployRun)
        ensures
            r@ == run_init(commands.deep_view()),
            r@.commands == commands.deep_view(),
            r.repo_path@ == repo_path@,
            r.wf(),
    {
        DeployRun { commands, repo_path, executed: 0, failure: None }
    }

    /// The command that must run next, if any: commands run strictly in
    /// declared order, and nothing runs after a failure.
    pub fn next_command(&self) -> (r: Option<&String>)
        requires
            self.wf(),
        ensures
            match r {
                Some(cmd) => run_has_next(self@) && cmd@ == self@.commands[self@.executed],
                None => !run_has_next(self@),
            },
    {
        if self.failure.is_none() && self.executed < self.commands.len() {
            Some(&self.commands[self.executed])
        } else {
            None
        }
    }

    /// Records that the command at position `self.executed` exited with
    /// `code`; a non-zero code marks the run as failed at that command.
    pub fn record_exit(&mut self, code: i32)
        requires
            old(self).wf(),
            run_has_next(old(self)@),
        ensures
            final(self)@ == run_step(old(self)@, code),
            final(self).wf(),
            final(self).repo_path@ == old(self).repo_path@,
    {
        let n = self.commands.len();
        proof {
            assert(self.commands.deep_view().len() == self.commands@.len());
            assert(self.executed < n);
        }
        if code != 0 {
            self.failure = Some((self.executed, CommandFailure::NonZeroExit(code)));
        }
        self.executed = self.executed + 1;
    }

    /// Records that the command at position `self.executed` exceeded its
    /// configured time bound and was terminated; the run is failed at that
    /// command and nothing runs after it.
    pub fn record_timeout(&mut self)
        requires
            old(self).wf(),
            run_has_next(old(self)@),
        ensures
            final(self)@ == run_timeout_step(old(self)@),
            final(self).wf(),
            final(self).repo_path@ == old(self).repo_path@,
    {
        let n = self.commands.len();
        proof {
            assert(self.commands.deep_view().len() == self.commands@.len());
            assert(self.executed < n);
        }
        self.failure = Some((self.executed, CommandFailure::TimedOut));
        self.executed = self.executed + 1;
    }

    /// What the run reports: still in progress, succeeded, failed at a named
    /// command with its exit code, or timed out at a named command.
    pub fn outcome(&self) -> (r: RunOutcome)
        requires
            self.wf(),
        ensures
            match self@.failure {
                Some((i, f)) => match f {
                    CommandFailure::NonZeroExit(c) => r matches RunOutcome::Failed {
                        index,
                        command,
                        exit_code,
                    } && index == i && command@ == self@.commands[i] && exit_code == c,
                    CommandFailure::TimedOut => r matches RunOutcome::CommandTimedOut {
                        index,
                        command,
                    } && index == i && command@ == self@.commands[i],
                },
                None => if self@.executed == self@.commands.len() {
                    r is Succeeded
                } else {
                    r is InProgress
                },
            },
    {
        match self.failure {
            Some((i, CommandFailure::NonZeroExit(c))) => RunOutcome::Failed {
                index: i,
                command: self.commands[i].clone(),
                exit_code: c,
            },
            Some((i, CommandFailure::TimedOut)) => RunOutcome::CommandTimedOut {
                index: i,
                command: self.commands[i].clone(),
            },
            None => {
                if self.executed == self.commands.len() {
                    RunOutcome::Succeeded
                } else {
                    RunOutcome::InProgress
                }
            },
        }
    }
}

/// Command ordering, failing case: if the first non-zero exit code sits at
/// position `k`, a completed run has executed exactly the commands up to and
/// including `k`, no later one, and reports the failure at `k` with that
/// code.
pub proof fn lemma_command_ordering_failure(commands: Seq<Seq<char>>, exits: Seq<i32>, k: int)
    requires
        exits.len() == commands.len(),
        0 <= k < exits.len(),
        exits[k] != 0,
        forall|j: int| 0 <= j < k ==> exits[j] == 0,
    ensures
        run_complete(run_init(commands), exits).executed == k + 1,
        run_complete(run_init(commands), exits).failure == Some(
            (k, CommandFailure::NonZeroExit(exits[k])),
        ),
{
    lemma_run_from(run_init(commands), exits, k);
}

/// Command ordering, succeeding case: if every command exits with zero, a
/// completed run has executed all of them and reports no failure.
pub proof fn lemma_command_ordering_success(commands: Seq<Seq<char>>, exits: Seq<i32>)
    requires
        exits.len() == commands.len(),
        forall|j: int| 0 <= j < exits.len() ==> exits[j] == 0,
    ensures
        run_complete(run_init(commands), exits).executed == commands.len(),
        run_complete(run_init(commands), exits).failure is None,
    decreases exits.len(),
{
    lemma_run_from_success(run_init(commands), exits);
}

proof fn lemma_run_from(m: RunModel, exits: Seq<i32>, k: int)
    requires
        run_wf(m),
        exits.len() == m.commands.len(),
        m.failure is None,
        0 <= m.executed <= k < exits.len(),
        exits[k] != 0,
        forall|j: int| m.executed <= j < k ==> exits[j] == 0,
    ensures
        run_complete(m, exits).executed == k + 1,
        run_complete(m, exits).failure == Some((k, CommandFailure::NonZeroExit(exits[k]))),
    decreases k - m.executed,
{
    let next = run_step(m, exits[m.executed]);
    if m.executed == k {
        assert(!run_has_next(next));
    } else {
        lemma_run_from(next, exits, k);
    }
}

proof fn lemma_run_from_success(m: RunModel, exits: Seq<i32>)
    requires
        run_wf(m),
        exits.len() == m.commands.len(),
        m.failure is None,
        forall|j: int| m.executed <= j < exits.len() ==> exits[j] == 0,
    ensures
        run_complete(m, exits).executed == m.commands.len(),
        run_complete(m, exits).failure is None,
    decreases m.commands.len() - m.executed,
{
    if run_has_next(m) && 0 <= m.executed < exits.len() {
        lemma_run_from_success(run_step(m, exits[m.executed]), exits);
    }
}

} // verus!
