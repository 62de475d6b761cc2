//! The decisions of an install: where the executable goes, and how a copy
//! onto a busy executable is retried.
use vstd::prelude::*;

use crate::archive::{exe_file_name, exe_file_name_spec, join, join_path, Platform};
use crate::text::str_eq;
use vstd::string::StringExecFns;

verus! {

/// Where executable `exe_name` is installed in `store_directory`.
pub fn install_path(store_directory: &str, exe_name: &str, platform: Platform) -> (r: String)
    ensures
        r@ == join(store_directory@, exe_file_name_spec(exe_name@, platform)),
{
    let file_name = exe_file_name(exe_name, platform);
    join_path(store_directory, file_name.as_str())
}

/// The name, beside `install_path` in the store directory, that a copy is
/// written under before it is renamed into place.
pub fn staging_path(install_path: &str) -> (r: String)
    ensures
        r@ == install_path@ + ".part"@,
{
    let mut r = String::from_str(install_path);
    r.append(".part");
    r
}

/// The text of the error kind under which a copy onto a running executable fails.
pub open spec fn busy_kind_text() -> Seq<char> {
    "executable file busy"@
}

/// Whether an error kind, by its text, is the one of a running executable.
pub fn is_busy_kind(kind_text: &str) -> (r: bool)
    ensures
        r == (kind_text@ == busy_kind_text()),
{
    str_eq(kind_text, "executable file busy")
}

/// How an attempt to copy the executable into place ended.
#[derive(Clone, Copy, Debug, PartialEq, Eq, Structural)]
pub enum CopyOutcome {
    Copied,
    Busy,
    Failed,
}

/// Which copy attempt an outcome belongs to.
#[derive(Clone, Copy, Debug, PartialEq, Eq, Structural)]
pub enum CopyStage {
    First,
    Retry,
}

/// What to do after a copy attempt.
#[derive(Clone, Copy, Debug, PartialEq, Eq, Structural)]
pub enum CopyAction {
    /// The copy is in place: set its permissions.
    SetPermissions,
    /// Remove the destination and copy once more.
    RemoveAndRetry,
    /// Report the copy's error.
    Fail,
}

/// The action that follows `outcome` at `stage`.
pub open spec fn copy_action_spec(stage: CopyStage, outcome: CopyOutcome) -> CopyAction {
    match outcome {
        CopyOutcome::Copied => CopyAction::SetPermissions,
        CopyOutcome::Busy => if stage == CopyStage::First {
            CopyAction::RemoveAndRetry
        } else {
            CopyAction::Fail
        },
        CopyOutcome::Failed => CopyAction::Fail,
    }
}

/// Decides what follows a copy attempt.
pub fn next_copy_action(stage: CopyStage, outcome: CopyOutcome) -> (r: CopyAction)
    ensures
        r == copy_action_spec(stage, outcome),
{
    match outcome {
        CopyOutcome::Copied => CopyAction::SetPermissions,
        CopyOutcome::Busy => match stage {
            CopyStage::First => CopyAction::RemoveAndRetry,
            CopyStage::Retry => CopyAction::Fail,
        },
        CopyOutcome::Failed => CopyAction::Fail,
    }
}

/// A busy destination is removed and the copy retried exactly once; any
/// other failure is never retried, and a retry is never followed by another.
pub proof fn lemma_busy_retried_once(outcome: CopyOutcome)
    ensures
        copy_action_spec(CopyStage::First, CopyOutcome::Busy) == CopyAction::RemoveAndRetry,
        copy_action_spec(CopyStage::First, CopyOutcome::Failed) == CopyAction::Fail,
        copy_action_spec(CopyStage::Retry, outcome) != CopyAction::RemoveAndRetry,
        outcome != CopyOutcome::Busy ==> copy_action_spec(CopyStage::First, outcome) != CopyAction::RemoveAndRetry,
{
}

} // verus!
