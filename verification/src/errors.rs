//! The error kinds of the runner. Every failure is fatal to the resolution
//! or execution call that produced it and is propagated upward unchanged.

use vstd::prelude::*;

verus! {

/// One error kind per failure class. Each variant carries the path or step
/// name the failure is about, so the process boundary can print a one-line
/// diagnostic.
pub enum BuildError {
    /// A file read or write, or a subprocess spawn or wait, failed.
    Io(String),
    /// A configuration file did not parse.
    Parse(String),
    /// A concurrently dispatched dependency's task failed to run to completion.
    Task(String),
    /// The system clock reported a time before the epoch.
    Time(String),
    /// A step name was not found anywhere along the addressed resolution path.
    MissingStep(String),
    /// A filesystem location does not exist or cannot be canonicalized.
    InvalidPath(String),
    /// A step name is malformed: it is empty or has an empty addressing segment.
    InvalidStep(String),
    /// Cross-file resolution recursed past the depth bound, which only a
    /// cyclic chain of step references can cause.
    Cycle(String),
}

/// The mathematical image of a `BuildError`: the same variants over
/// character sequences.
pub enum ErrModel {
    Io(Seq<char>),
    Parse(Seq<char>),
    Task(Seq<char>),
    Time(Seq<char>),
    MissingStep(Seq<char>),
    InvalidPath(Seq<char>),
    InvalidStep(Seq<char>),
    Cycle(Seq<char>),
}

/// Does the executable error carry exactly the kind and payload of the model?
pub open spec fn err_models(e: BuildError, m: ErrModel) -> bool {
    match (e, m) {
        (BuildError::Io(s), ErrModel::Io(t)) => s@ == t,
        (BuildError::Parse(s), ErrModel::Parse(t)) => s@ == t,
        (BuildError::Task(s), ErrModel::Task(t)) => s@ == t,
        (BuildError::Time(s), ErrModel::Time(t)) => s@ == t,
        (BuildError::MissingStep(s), ErrModel::MissingStep(t)) => s@ == t,
        (BuildError::InvalidPath(s), ErrModel::InvalidPath(t)) => s@ == t,
        (BuildError::InvalidStep(s), ErrModel::InvalidStep(t)) => s@ == t,
        (BuildError::Cycle(s), ErrModel::Cycle(t)) => s@ == t,
        _ => false,
    }
}

} // verus!
