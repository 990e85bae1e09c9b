//! Startup configuration handed in by the surrounding program.

use vstd::prelude::*;

verus! {

/// The SSH credentials discovery clones with; a blank passphrase means the
/// key has none.
#[derive(Debug, Clone, PartialEq, Eq)]
pub struct StartupArgs {
    pub ssh_passphrase: String,
    pub ssh_key_path: String,
}

} // verus!
