//! The library's error type.
use vstd::prelude::*;

verus! {

#[derive(Debug)]
pub enum Error {
    /// A pass manager run on the named module operation failed.
    PassManagerRunFailure(String),
    /// A narrowing conversion found an entity of another kind.
    KindMismatch { expected: String, actual: String },
    /// Pipeline text could not be read; the message says why.
    PipelineParse(String),
    /// Any other failure, with a message.
    SimpleError(String),
    /// An expected entity was absent.
    IsNone,
}

/// `e` is a kind mismatch naming the kind `expected` and rendering the entity as `actual`.
pub open spec fn is_kind_mismatch(e: Error, expected: Seq<char>, actual: Seq<char>) -> bool {
    match e {
        Error::KindMismatch { expected: x, actual: a } => x@ == expected && a@ == actual,
        _ => false,
    }
}

/// `e` is a failed run naming the module operation `name`.
pub open spec fn is_run_failure(e: Error, name: Seq<char>) -> bool {
    match e {
        Error::PassManagerRunFailure(n) => n@ == name,
        _ => false,
    }
}

impl Error {
    pub fn simple(msg: String) -> (r: Error)
        ensures
            r == Error::SimpleError(msg),
    {
        Error::SimpleError(msg)
    }
}

} // verus!
