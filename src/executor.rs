//! The entry point: resolve the application's image, hand the request to the
//! adapter of the chosen engine, and turn how the child ended into the
//! outcome, the operator's diagnostic and the process exit code.
use vstd::prelude::*;

use crate::docker::{docker_argv, docker_command, docker_command_line, docker_outcome, join_words, launch_outcome, quote_all};
use crate::engine::{ContainerEngine, HostIdentity, LaunchStatus, RunError, RunRequest, error_message, non_zero_exit_phrase, words};
use crate::registry::{App, Image, image_of};

verus! {

/// The text of a command line, or the error that stands in its place.
pub open spec fn command_text(r: Result<String, RunError>) -> Result<Seq<char>, RunError> {
    match r {
        Ok(c) => Ok(c@),
        Err(e) => Err(e),
    }
}

/// What running `app` with `args` in `working_dir` under `engine` launches:
/// the shell command line, or the error that stops the run before any launch.
pub open spec fn planned_command(
    app: App,
    args: Seq<Seq<char>>,
    engine: ContainerEngine,
    working_dir: Seq<char>,
    identity: Option<HostIdentity>,
) -> Result<Seq<char>, RunError> {
    match engine {
        ContainerEngine::Docker => Ok(
            join_words(quote_all(docker_argv(image_of(app), args, working_dir, identity))),
        ),
        _ => Err(RunError::UnsupportedEngine(engine)),
    }
}

/// Hands `request` to the adapter of `engine`: the command line that runs it,
/// or an unsupported-engine error where the engine has no adapter.
pub fn dispatch(engine: ContainerEngine, request: &RunRequest, identity: Option<HostIdentity>) -> (r:
    Result<String, RunError>)
    ensures
        engine is Docker ==> command_text(r) == Ok::<Seq<char>, RunError>(docker_command(*request, identity)),
        !(engine is Docker) ==> r == Err::<String, RunError>(RunError::UnsupportedEngine(engine)),
{
    match engine {
        ContainerEngine::Docker => Ok(docker_command_line(request, identity)),
        _ => Err(RunError::UnsupportedEngine(engine)),
    }
}

/// Prepares the run of `app` with `args` in `working_dir` under `engine`: the
/// shell command line to launch, or the error that stops the run first.
pub fn plan_run(
    app: &App,
    args: Vec<String>,
    engine: ContainerEngine,
    working_dir: String,
    identity: Option<HostIdentity>,
) -> (r: Result<String, RunError>)
    ensures
        command_text(r) == planned_command(*app, words(args@), engine, working_dir@, identity),
{
    let request = RunRequest { image: Image::new(app), args, working_dir };
    dispatch(engine, &request, identity)
}

/// The outcome of a launched run, from how its child ended; passed on as the
/// adapter gives it.
pub fn finish_run(status: LaunchStatus) -> (r: Result<(), RunError>)
    ensures
        r == launch_outcome(status),
{
    docker_outcome(status)
}

/// The line for the operator's error stream that `outcome` calls for, if any.
pub open spec fn diagnostic_of(outcome: Result<(), RunError>) -> Option<Seq<char>> {
    match outcome {
        Ok(()) => None,
        Err(e) => Some(error_message(e)),
    }
}

/// The line to write to the error stream for `outcome`: none on success, the
/// error's message otherwise.
pub fn diagnostic(outcome: &Result<(), RunError>) -> (r: Option<String>)
    ensures
        r is None <==> outcome is Ok,
        r matches Some(m) ==> diagnostic_of(*outcome) == Some(m@),
{
    match outcome {
        Ok(()) => None,
        Err(e) => Some(e.message()),
    }
}

/// The exit code of the host process after `outcome`.
pub open spec fn exit_code_of(outcome: Result<(), RunError>) -> i32 {
    match outcome {
        Ok(()) => 0,
        Err(_) => 1,
    }
}

/// The exit code of the host process: zero exactly when the run succeeded.
pub fn exit_code(outcome: &Result<(), RunError>) -> (r: i32)
    ensures
        r == exit_code_of(*outcome),
        r == 0 <==> outcome is Ok,
{
    match outcome {
        Ok(()) => 0,
        Err(_) => 1,
    }
}

/// A child that exits with status zero makes the run a success: nothing is
/// written to the error stream and the host process exits with zero.
pub proof fn lemma_zero_exit_is_silent_success()
    ensures
        launch_outcome(LaunchStatus::Exited(0)) == Ok::<(), RunError>(()),
        diagnostic_of(launch_outcome(LaunchStatus::Exited(0))) is None,
        exit_code_of(launch_outcome(LaunchStatus::Exited(0))) == 0,
{
}

/// A child that exits with a non-zero status makes the run fail with a
/// non-zero-exit error: the error stream gets the fixed non-zero-exit phrase
/// and the host process exits with a non-zero code.
pub proof fn lemma_non_zero_exit_fails_loudly(code: i32)
    requires
        code != 0,
    ensures
        launch_outcome(LaunchStatus::Exited(code)) == Err::<(), RunError>(RunError::NonZeroExit(Some(code))),
        diagnostic_of(launch_outcome(LaunchStatus::Exited(code))) == Some(non_zero_exit_phrase()),
        exit_code_of(launch_outcome(LaunchStatus::Exited(code))) != 0,
{
}

/// An engine without an adapter ends the run in its own unsupported-engine
/// error before anything is launched: there is no command line to run, and the
/// host process exits with a non-zero code.
pub proof fn lemma_unsupported_engine_launches_nothing(
    app: App,
    args: Seq<Seq<char>>,
    engine: ContainerEngine,
    working_dir: Seq<char>,
    identity: Option<HostIdentity>,
)
    requires
        !(engine is Docker),
    ensures
        planned_command(app, args, engine, working_dir, identity) == Err::<Seq<char>, RunError>(
            RunError::UnsupportedEngine(engine),
        ),
        exit_code_of(Err(RunError::UnsupportedEngine(engine))) != 0,
{
}

} // verus!
