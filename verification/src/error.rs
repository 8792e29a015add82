use vstd::prelude::*;
use vstd::string::StringExecFns;
use crate::text::{push_signed, signed_decimal};

verus! {

/// Why a repository operation failed.
#[derive(Debug, Clone, Copy, PartialEq, Eq, Structural)]
pub enum RepositoryError {
    /// No task has the given id.
    TaskNotFound(i64),
}

/// The message of a repository error.
pub open spec fn spec_repository_message(e: RepositoryError) -> Seq<char> {
    match e {
        RepositoryError::TaskNotFound(id) => "task "@ + signed_decimal(id as int) + " not found"@,
    }
}

impl RepositoryError {
    /// The message that describes the error, such as `task 7 not found`.
    pub fn message(&self) -> (r: String)
        ensures
            r@ == spec_repository_message(*self),
    {
        match self {
            RepositoryError::TaskNotFound(id) => {
                let mut out = String::from_str("task ");
                push_signed(&mut out, *id);
                out.append(" not found");
                out
            },
        }
    }
}

} // verus!
