//! Launching a named application inside a container.
//!
//! An application is resolved to its image, a run request is dispatched to the
//! adapter of the chosen container engine, and the adapter's command line and
//! the way the child's status becomes an outcome are stated and proved here.
//! Running the child process itself is left to the caller.
pub mod docker;
pub mod engine;
pub mod executor;
pub mod registry;

pub use engine::{ContainerEngine, HostIdentity, LaunchStatus, RunError, RunRequest};
pub use executor::{diagnostic, exit_code, finish_run, plan_run};
pub use registry::{App, Image};
