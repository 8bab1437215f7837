//! Getting the lockfile that the audit reads: what to do at each step.
//!
//! Reading files and running cargo is left to the caller. Decided here is
//! what comes next: whether to load the lockfile or have one generated, with
//! which arguments, and what the end of the generation means.

use crate::text::{signed_decimal, signed_decimal_string};
use vstd::prelude::*;

verus! {

/// The name of the lockfile in the root of a workspace.
pub const LOCKFILE_NAME: &'static str = "Cargo.lock";

/// The program to run where none is configured.
pub const DEFAULT_CARGO: &'static str = "cargo";

/// What to do to get the lockfile.
#[derive(Clone, Copy, Debug, PartialEq, Eq, Structural)]
pub enum LockfileStep {
    /// The lockfile is there: load it.
    Load,
    /// There is none: have cargo generate it, then load it.
    Generate,
}

/// Why the generation of the lockfile failed.
#[derive(Clone, Copy, Debug, PartialEq, Eq, Structural)]
pub enum GenerationError {
    /// Cargo ended with this status, which is not zero.
    Failed(i32),
    /// Cargo was ended from outside and left no status.
    Terminated,
}

/// The program that stands for cargo: the configured one, else `cargo`.
pub fn cargo_program(configured: Option<String>) -> (program: String)
    ensures
        configured matches Some(p) ==> program@ == p@,
        configured is None ==> program@ == DEFAULT_CARGO@,
{
    match configured {
        Some(p) => p,
        None => String::from_str(DEFAULT_CARGO),
    }
}

/// Chooses the step that gets the lockfile: a lockfile that exists is
/// loaded, and nothing is run.
pub fn lockfile_step(exists: bool) -> (step: LockfileStep)
    ensures
        exists ==> step == LockfileStep::Load,
        !exists ==> step == LockfileStep::Generate,
{
    if exists {
        LockfileStep::Load
    } else {
        LockfileStep::Generate
    }
}

/// The arguments that make cargo generate a lockfile.
pub open spec fn generation_arguments(with_manifest_path: bool) -> Seq<Seq<char>> {
    if with_manifest_path {
        seq!["generate-lockfile"@, "--manifest-path"@]
    } else {
        seq!["generate-lockfile"@]
    }
}

/// The arguments that make cargo generate a lockfile. Where the manifest is
/// named, its path has to follow as one more argument.
pub fn generate_lockfile_arguments(with_manifest_path: bool) -> (arguments: Vec<&'static str>)
    ensures
        arguments@.map_values(|a: &'static str| a@) == generation_arguments(with_manifest_path),
{
    let mut arguments: Vec<&'static str> = Vec::new();
    arguments.push("generate-lockfile");
    if with_manifest_path {
        arguments.push("--manifest-path");
    }
    assert(arguments@.map_values(|a: &'static str| a@) =~= generation_arguments(
        with_manifest_path,
    ));
    arguments
}

/// Judges how the generation ended, by the status that cargo left: zero is
/// success, any other status a failure, and no status a termination.
pub fn generation_result(status: Option<i32>) -> (r: Result<(), GenerationError>)
    ensures
        status == Some(0i32) ==> r is Ok,
        status matches Some(code) ==> code != 0 ==> r == Err::<(), GenerationError>(
            GenerationError::Failed(code),
        ),
        status is None ==> r == Err::<(), GenerationError>(GenerationError::Terminated),
{
    match status {
        Some(code) => if code == 0 {
            Ok(())
        } else {
            Err(GenerationError::Failed(code))
        },
        None => Err(GenerationError::Terminated),
    }
}

impl GenerationError {
    /// What `message` says of this error.
    pub open spec fn text(self) -> Seq<char> {
        match self {
            GenerationError::Failed(code) => "Non-zero status ("@ + signed_decimal(code as int)
                + ") on `cargo generate-lockfile`"@,
            GenerationError::Terminated => "Unexpected termination on `cargo generate-lockfile`"@,
        }
    }

    /// The error in words, for the operator.
    pub fn message(&self) -> (r: String)
        ensures
            r@ == self.text(),
    {
        match self {
            GenerationError::Failed(code) => {
                let mut r = String::from_str("Non-zero status (");
                let number = signed_decimal_string(*code);
                r.append(number.as_str());
                r.append(") on `cargo generate-lockfile`");
                r
            },
            GenerationError::Terminated => String::from_str(
                "Unexpected termination on `cargo generate-lockfile`",
            ),
        }
    }
}

} // verus!
