//! The start-up check that the panel may write where it needs to: the
//! working directories are created, then a test file is written and
//! removed in the www, logs, config and run directories, in that order.
//! The caller performs each task; the order, the file names and the
//! messages are decided here.

use vstd::prelude::*;
use crate::config::{DirKind, WorkingDirectoryConfig};
use crate::path::{join, join_spec};

verus! {

/// The part of the check a task belongs to.
#[derive(Clone, Copy, Debug, PartialEq, Eq, Structural)]
pub enum CheckStage {
    /// Creating the working directories.
    Directories,
    /// Writing a test file in the www directory.
    Www,
    /// Writing a test file in the logs directory.
    Logs,
    /// Writing a test file in the config directory.
    Config,
    /// Writing a test file in the run directory.
    Run,
}

/// A task of the check.
#[derive(Debug)]
pub enum CheckTask {
    /// Create every working directory that is missing.
    EnsureDirectories,
    /// Create the file at `path`, write the test contents to it, and
    /// remove it.
    WriteTestFile { path: String },
}

/// The next thing the check does.
#[derive(Debug)]
pub enum CheckStep {
    /// Perform `task`, then hand its outcome back with `stage`.
    Perform { stage: CheckStage, task: CheckTask },
    /// The check is over, with this result.
    Finish(Result<(), String>),
}

/// The stage that follows `stage`, if any.
pub open spec fn next_stage(stage: CheckStage) -> Option<CheckStage> {
    match stage {
        CheckStage::Directories => Some(CheckStage::Www),
        CheckStage::Www => Some(CheckStage::Logs),
        CheckStage::Logs => Some(CheckStage::Config),
        CheckStage::Config => Some(CheckStage::Run),
        CheckStage::Run => None,
    }
}

/// The directory in which a writing stage puts its test file.
pub open spec fn stage_dir(stage: CheckStage) -> DirKind {
    match stage {
        CheckStage::Www => DirKind::Www,
        CheckStage::Logs => DirKind::Logs,
        CheckStage::Config => DirKind::Config,
        _ => DirKind::Run,
    }
}

/// The name of the test file of a writing stage.
pub open spec fn test_file_spec(stage: CheckStage) -> Seq<char> {
    match stage {
        CheckStage::Www => "www_test.txt"@,
        CheckStage::Logs => "log_test.txt"@,
        CheckStage::Config => "config_test.txt"@,
        _ => "run_test.txt"@,
    }
}

/// The words put before the error of a failed stage.
pub open spec fn failure_prefix_spec(stage: CheckStage) -> Seq<char> {
    match stage {
        CheckStage::Directories => "Failed to create directories: "@,
        CheckStage::Www => "WWW directory test failed: "@,
        CheckStage::Logs => "Logs directory test failed: "@,
        CheckStage::Config => "Config directory test failed: "@,
        CheckStage::Run => "Run directory test failed: "@,
    }
}

/// The task of `stage` for the directories `dirs`.
pub open spec fn task_matches(dirs: WorkingDirectoryConfig, stage: CheckStage, task: CheckTask) -> bool {
    match task {
        CheckTask::EnsureDirectories => stage == CheckStage::Directories,
        CheckTask::WriteTestFile { path } => stage != CheckStage::Directories && path@ == join_spec(
            dirs.dir_spec(stage_dir(stage)),
            test_file_spec(stage),
        ),
    }
}

/// What is written to each test file.
pub fn test_file_contents() -> (r: &'static str)
    ensures
        r@ == "Test content"@,
{
    "Test content"
}

/// The name of the test file of a writing stage.
fn test_file(stage: CheckStage) -> (r: &'static str)
    ensures
        r@ == test_file_spec(stage),
{
    match stage {
        CheckStage::Www => "www_test.txt",
        CheckStage::Logs => "log_test.txt",
        CheckStage::Config => "config_test.txt",
        _ => "run_test.txt",
    }
}

/// The words put before the error of a failed stage.
fn failure_prefix(stage: CheckStage) -> (r: &'static str)
    ensures
        r@ == failure_prefix_spec(stage),
{
    match stage {
        CheckStage::Directories => "Failed to create directories: ",
        CheckStage::Www => "WWW directory test failed: ",
        CheckStage::Logs => "Logs directory test failed: ",
        CheckStage::Config => "Config directory test failed: ",
        CheckStage::Run => "Run directory test failed: ",
    }
}

/// The task of `stage`.
fn task_of(dirs: &WorkingDirectoryConfig, stage: CheckStage) -> (r: CheckTask)
    ensures
        task_matches(*dirs, stage, r),
{
    match stage {
        CheckStage::Directories => CheckTask::EnsureDirectories,
        _ => {
            let kind = match stage {
                CheckStage::Www => DirKind::Www,
                CheckStage::Logs => DirKind::Logs,
                CheckStage::Config => DirKind::Config,
                _ => DirKind::Run,
            };
            CheckTask::WriteTestFile { path: join(dirs.dir(kind), test_file(stage)) }
        },
    }
}

/// The first step of the check: create the working directories.
pub fn permission_check_start() -> (r: CheckStep)
    ensures
        r matches CheckStep::Perform { stage, task } && stage == CheckStage::Directories
            && task is EnsureDirectories,
{
    CheckStep::Perform { stage: CheckStage::Directories, task: CheckTask::EnsureDirectories }
}

/// The step after the task of `stage` ended with `outcome` (its error
/// message when it failed).  A failure ends the check at once, with the
/// stage's words before the message; a success moves to the next stage,
/// and after the run directory the check ends with success.
pub fn permission_check_next(
    dirs: &WorkingDirectoryConfig,
    stage: CheckStage,
    outcome: Result<(), String>,
) -> (r: CheckStep)
    ensures
        match outcome {
            Err(e) => r matches CheckStep::Finish(Err(m)) && m@ == failure_prefix_spec(stage)
                + e@,
            Ok(()) => match next_stage(stage) {
                None => r matches CheckStep::Finish(Ok(())),
                Some(following) => r matches CheckStep::Perform { stage: s, task } && s
                    == following && task_matches(*dirs, following, task),
            },
        },
{
    match outcome {
        Err(e) => {
            let mut message = String::from_str(failure_prefix(stage));
            message.append(e.as_str());
            CheckStep::Finish(Err(message))
        },
        Ok(()) => {
            let following = match stage {
                CheckStage::Directories => CheckStage::Www,
                CheckStage::Www => CheckStage::Logs,
                CheckStage::Logs => CheckStage::Config,
                CheckStage::Config => CheckStage::Run,
                CheckStage::Run => {
                    return CheckStep::Finish(Ok(()));
                },
            };
            CheckStep::Perform { stage: following, task: task_of(dirs, following) }
        },
    }
}


/// The `i`-th stage of the check, counting from zero.
pub open spec fn stage_order(i: int) -> CheckStage {
    if i == 0 {
        CheckStage::Directories
    } else if i == 1 {
        CheckStage::Www
    } else if i == 2 {
        CheckStage::Logs
    } else if i == 3 {
        CheckStage::Config
    } else {
        CheckStage::Run
    }
}

/// Where the check ends when, from `stage` on, its tasks end with
/// `outcomes` in turn, each step taken as `permission_check_next`
/// takes it: the result once it finishes, `None` while it still waits
/// for an outcome.
pub open spec fn check_run(stage: CheckStage, outcomes: Seq<Result<(), Seq<char>>>) -> Option<
    Result<(), Seq<char>>,
>
    decreases outcomes.len(),
{
    if outcomes.len() == 0 {
        None
    } else {
        match outcomes[0] {
            Err(e) => Some(Err(failure_prefix_spec(stage) + e)),
            Ok(()) => match next_stage(stage) {
                None => Some(Ok(())),
                Some(following) => check_run(following, outcomes.drop_first()),
            },
        }
    }
}

/// From the `i`-th stage on, the check runs through the later stages
/// in order.
proof fn lemma_check_run_from(i: int, outcomes: Seq<Result<(), Seq<char>>>)
    requires
        0 <= i < 5,
    ensures
        (forall|j: int| 0 <= j < 5 - i ==> j < outcomes.len() && #[trigger] outcomes[j] is Ok)
            ==> check_run(stage_order(i), outcomes) == Some(Ok::<(), Seq<char>>(())),
        forall|k: int|
            0 <= k < 5 - i && k < outcomes.len() && #[trigger] outcomes[k] is Err && (forall|j: int|
                0 <= j < k ==> outcomes[j] is Ok) ==> check_run(stage_order(i), outcomes) == Some(
                Err::<(), Seq<char>>(failure_prefix_spec(stage_order(i + k)) + outcomes[k]->Err_0),
            ),
        (exists|j: int| 0 <= j < 5 - i && (j >= outcomes.len() || outcomes[j] is Err)) ==> check_run(
            stage_order(i),
            outcomes,
        ) != Some(Ok::<(), Seq<char>>(())),
    decreases 5 - i,
{
    if outcomes.len() > 0 {
        if i < 4 {
            assert(next_stage(stage_order(i)) == Some(stage_order(i + 1)));
            lemma_check_run_from(i + 1, outcomes.drop_first());
            let rest = outcomes.drop_first();
            if forall|j: int| 0 <= j < 5 - i ==> j < outcomes.len() && #[trigger] outcomes[j] is Ok {
                assert(outcomes[0] is Ok);
                assert forall|j: int| 0 <= j < 5 - (i + 1) implies j < rest.len() && #[trigger] rest[j] is Ok by {
                    assert(rest[j] == outcomes[j + 1]);
                }
            }
            assert forall|k: int|
                0 <= k < 5 - i && k < outcomes.len() && #[trigger] outcomes[k] is Err && (forall|j: int|
                    0 <= j < k ==> outcomes[j] is Ok) implies check_run(stage_order(i), outcomes)
                == Some(Err::<(), Seq<char>>(failure_prefix_spec(stage_order(i + k)) + outcomes[k]->Err_0)) by {
                if k > 0 {
                    assert(outcomes[0] is Ok);
                    assert(rest[k - 1] == outcomes[k]);
                    assert forall|j: int| 0 <= j < k - 1 implies rest[j] is Ok by {
                        assert(rest[j] == outcomes[j + 1]);
                    }
                    assert(rest[k - 1] is Err);
                    assert(i + 1 + (k - 1) == i + k);
                }
            }
            if exists|j: int| 0 <= j < 5 - i && (j >= outcomes.len() || outcomes[j] is Err) {
                let j = choose|j: int| 0 <= j < 5 - i && (j >= outcomes.len() || outcomes[j] is Err);
                if j > 0 && outcomes[0] is Ok {
                    assert(0 <= j - 1 < 5 - (i + 1) && (j - 1 >= rest.len() || rest[j - 1] is Err));
                }
            }
        } else {
            assert(stage_order(i) == CheckStage::Run);
        }
    }
}

/// The whole check succeeds exactly when the five tasks (creating the
/// directories, then writing in www, logs, config and run) all succeed;
/// at the first task that fails it ends with that stage's words before
/// the task's error.
pub proof fn lemma_check_succeeds_only_when_all_tasks_do(outcomes: Seq<Result<(), Seq<char>>>)
    ensures
        check_run(CheckStage::Directories, outcomes) == Some(Ok::<(), Seq<char>>(())) <==> (
        outcomes.len() >= 5 && forall|j: int| 0 <= j < 5 ==> #[trigger] outcomes[j] is Ok),
        forall|k: int|
            0 <= k < 5 && k < outcomes.len() && #[trigger] outcomes[k] is Err && (forall|j: int|
                0 <= j < k ==> outcomes[j] is Ok) ==> check_run(CheckStage::Directories, outcomes)
                == Some(Err::<(), Seq<char>>(failure_prefix_spec(stage_order(k)) + outcomes[k]->Err_0)),
{
    lemma_check_run_from(0, outcomes);
    if !(outcomes.len() >= 5 && forall|j: int| 0 <= j < 5 ==> #[trigger] outcomes[j] is Ok) {
        let w: int = if outcomes.len() < 5 {
            outcomes.len() as int
        } else {
            choose|j: int| !(0 <= j < 5 ==> #[trigger] outcomes[j] is Ok)
        };
        assert(0 <= w < 5 && (w >= outcomes.len() || outcomes[w] is Err));
    } else {
        assert forall|j: int| 0 <= j < 5 implies j < outcomes.len() && #[trigger] outcomes[j] is Ok by {}
    }
}

} // verus!
