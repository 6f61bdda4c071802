//! The container engines, the request an engine adapter consumes, and the
//! errors a run can end in.
use vstd::prelude::*;

use crate::registry::Image;

verus! {

/// A container runtime that can instantiate an image.
#[derive(Clone, Copy, Debug, PartialEq, Eq, Structural)]
pub enum ContainerEngine {
    Docker,
    Singularity,
    Apptainer,
}

/// The name under which `engine` is known to users.
pub open spec fn engine_name(engine: ContainerEngine) -> Seq<char> {
    match engine {
        ContainerEngine::Docker => "docker"@,
        ContainerEngine::Singularity => "singularity"@,
        ContainerEngine::Apptainer => "apptainer"@,
    }
}

/// The engine whose name is `name`, if any.
pub open spec fn engine_named(name: Seq<char>) -> Option<ContainerEngine> {
    if name == engine_name(ContainerEngine::Docker) {
        Some(ContainerEngine::Docker)
    } else if name == engine_name(ContainerEngine::Singularity) {
        Some(ContainerEngine::Singularity)
    } else if name == engine_name(ContainerEngine::Apptainer) {
        Some(ContainerEngine::Apptainer)
    } else {
        None
    }
}

impl ContainerEngine {
    /// Looks an engine up by its name; `None` for a name outside the set.
    pub fn from_name(name: &str) -> (r: Option<ContainerEngine>)
        ensures
            r == engine_named(name@),
    {
        let name = String::from_str(name);
        if name == String::from_str("docker") {
            Some(ContainerEngine::Docker)
        } else if name == String::from_str("singularity") {
            Some(ContainerEngine::Singularity)
        } else if name == String::from_str("apptainer") {
            Some(ContainerEngine::Apptainer)
        } else {
            None
        }
    }

    /// The name under which this engine is known to users.
    pub fn name(&self) -> (r: String)
        ensures
            r@ == engine_name(*self),
    {
        match self {
            ContainerEngine::Docker => String::from_str("docker"),
            ContainerEngine::Singularity => String::from_str("singularity"),
            ContainerEngine::Apptainer => String::from_str("apptainer"),
        }
    }
}

/// The numeric user and group of the host user who launches a container.
#[derive(Clone, Copy, Debug, PartialEq, Eq, Structural)]
pub struct HostIdentity {
    pub uid: u32,
    pub gid: u32,
}

/// What an engine adapter is asked to run: an image, the arguments handed to
/// the application unchanged, and the host directory it works in.
pub struct RunRequest {
    pub image: Image,
    pub args: Vec<String>,
    pub working_dir: String,
}

/// The arguments of a request as text.
pub open spec fn words(v: Seq<String>) -> Seq<Seq<char>> {
    v.map_values(|s: String| s@)
}

/// How the launched child process ended, as the process launcher saw it.
pub enum LaunchStatus {
    /// The child ran and exited with this code.
    Exited(i32),
    /// The child ran and was ended without an exit code (by a signal).
    Terminated,
    /// The child could not be started; the system's message.
    FailedToStart(String),
}

/// Why a run failed.
pub enum RunError {
    /// The engine has no adapter; nothing was launched.
    UnsupportedEngine(ContainerEngine),
    /// The child process could not be started; the system's message.
    ProcessStart(String),
    /// The container ran and ended with a non-zero status, or none.
    NonZeroExit(Option<i32>),
}

/// The fixed phrase that marks a container that exited with a failure.
pub open spec fn non_zero_exit_phrase() -> Seq<char> {
    "Docker container exited with non-zero status"@
}

/// The human-readable message of `e`.
pub open spec fn error_message(e: RunError) -> Seq<char> {
    match e {
        RunError::UnsupportedEngine(engine) => "Unimplemented container type: "@ + engine_name(engine),
        RunError::ProcessStart(msg) => "Could not start the container process: "@ + msg@,
        RunError::NonZeroExit(_) => non_zero_exit_phrase(),
    }
}

impl RunError {
    /// The human-readable message of this error.
    pub fn message(&self) -> (r: String)
        ensures
            r@ == error_message(*self),
    {
        match self {
            RunError::UnsupportedEngine(engine) => {
                let mut r = String::from_str("Unimplemented container type: ");
                let name = engine.name();
                r.append(name.as_str());
                r
            },
            RunError::ProcessStart(msg) => {
                let mut r = String::from_str("Could not start the container process: ");
                r.append(msg.as_str());
                r
            },
            RunError::NonZeroExit(_) => String::from_str("Docker container exited with non-zero status"),
        }
    }
}

} // verus!
