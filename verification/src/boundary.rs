//! The failure policy of the foreign-call boundary.
//!
//! The boundary itself (pointers, the file system, the decoder) is outside this
//! library. What it decides is here: which observations count as a failure,
//! and how each failure is answered.

use vstd::prelude::*;

verus! {

/// What can go wrong between receiving a path and returning text.
#[derive(Clone, Copy, Debug, PartialEq, Eq, Structural)]
pub enum Failure {
    /// The bytes of the path are not valid text.
    PathEncoding,
    /// Nothing exists at the path.
    PathMissing,
    /// The path does not point to a regular file.
    PathNotAFile,
    /// The path could not be made canonical.
    PathUnresolved,
    /// The decoder could not read the file.
    Decode,
    /// The JSON encoder refused the record, or its text did not read back as
    /// the record.
    Serialization,
}

/// How the boundary answers a failure.
#[derive(Clone, Copy, Debug, PartialEq, Eq, Structural)]
pub enum Reaction {
    /// The caller gets a null result; nothing else happens.
    NullResult,
    /// The call stops abruptly.
    Abort,
}

/// The answer to each failure: a path that is not valid text gives a null
/// result, every other failure stops the call.
pub open spec fn reaction_to(failure: Failure) -> Reaction {
    match failure {
        Failure::PathEncoding => Reaction::NullResult,
        _ => Reaction::Abort,
    }
}

/// What the checks on a path say: it must exist, and be a regular file.
pub open spec fn path_verdict(exists: bool, is_file: bool) -> Result<(), Failure> {
    if !exists {
        Err(Failure::PathMissing)
    } else if !is_file {
        Err(Failure::PathNotAFile)
    } else {
        Ok(())
    }
}

/// Decides how a failure is answered.
pub fn reaction(failure: Failure) -> (answer: Reaction)
    ensures
        answer == reaction_to(failure),
{
    match failure {
        Failure::PathEncoding => Reaction::NullResult,
        Failure::PathMissing => Reaction::Abort,
        Failure::PathNotAFile => Reaction::Abort,
        Failure::PathUnresolved => Reaction::Abort,
        Failure::Decode => Reaction::Abort,
        Failure::Serialization => Reaction::Abort,
    }
}

/// Judges a path from what the file system says of it. Where nothing exists
/// the verdict is `PathMissing`, whatever `is_file` says.
pub fn check_path(exists: bool, is_file: bool) -> (verdict: Result<(), Failure>)
    ensures
        verdict == path_verdict(exists, is_file),
{
    if !exists {
        Err(Failure::PathMissing)
    } else if !is_file {
        Err(Failure::PathNotAFile)
    } else {
        Ok(())
    }
}

} // verus!
