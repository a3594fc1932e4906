//! The failures of a build.

use vstd::prelude::*;
use crate::manifest::ManifestError;

verus! {

/// Why an invocation of the compiler front end did not succeed.
#[derive(Clone, Debug, PartialEq, Eq)]
pub enum ToolchainError {
    /// The front end ran and ended with the exit code `code`, which is not 0.
    NonZeroExit { code: i32 },
    /// The front end could not be started.
    LaunchFailed { cause: String },
}

/// Why a build was given up. Every failure ends the build of the module it
/// arose in and of all the modules that depend on it.
#[derive(Clone, Debug, PartialEq, Eq)]
pub enum BuildError {
    /// No manifest could be had from the file `path`.
    Manifest { path: String, error: ManifestError },
    /// The last location of `path` is a dependency of the one before it and
    /// stands on the path already; `path` starts at the root module.
    CyclicDependency { path: Vec<String> },
    /// The invocation that builds the module at `module` failed.
    Toolchain { module: String, error: ToolchainError },
    /// The directory `path` could not be created.
    FileSystem { path: String, cause: String },
}

/// What the exit code of a front end that ran to its end means.
pub open spec fn exit_result(code: i32) -> Result<(), ToolchainError> {
    if code == 0 {
        Ok(())
    } else {
        Err(ToolchainError::NonZeroExit { code })
    }
}

/// Success for the exit code 0, and for every other code the failure that
/// carries it.
pub fn check_exit(code: i32) -> (r: Result<(), ToolchainError>)
    ensures
        r == exit_result(code),
{
    if code == 0 {
        Ok(())
    } else {
        Err(ToolchainError::NonZeroExit { code })
    }
}

} // verus!
