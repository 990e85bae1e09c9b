//! A git-triggered continuous-deployment orchestrator library.
//!
//! The crate discovers repositories that carry a deploy manifest, registers
//! them (clone, manifest parse, manifest blob id) in a process-wide registry,
//! and, on a push event, resolves the target branch, performs a forced
//! checkout and prepares the manifest's ordered deploy commands for
//! execution.

use vstd::prelude::*;

pub mod clone_service;
pub mod clone_task;
pub mod config;
pub mod deploy_engine;
pub mod deploy_run;
pub mod discovery;
pub mod git;
pub mod locks;
pub mod manifest;
pub mod registry;
pub mod text;
pub mod webhook;

verus! {

/// Why the application could not come up.
#[derive(Debug, Clone, Copy, PartialEq, Eq, Structural)]
pub enum InitError {
    CouldNotInitDependencies,
    CouldNotInitApp,
    CouldNotStartApp,
}

/// True exactly for the HTTP status codes that count as success (2xx); the
/// manifest-existence probe keeps a repository on such a status.
pub fn status_is_success(code: u16) -> (r: bool)
    ensures
        r == (200 <= code < 300),
{
    200 <= code && code < 300
}

} // verus!
