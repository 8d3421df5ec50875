use vstd::prelude::*;

verus! {

/// The errors that a repository operation reports.
#[derive(Debug, Clone)]
pub enum RepositoryError {
    /// No record with this id exists.
    NotFound(i32),
    /// A lower-level storage failure, with its description.
    Unexpected(String),
}

impl PartialEq for RepositoryError {
    fn eq(&self, other: &RepositoryError) -> (r: bool) {
        match (self, other) {
            (RepositoryError::NotFound(a), RepositoryError::NotFound(b)) => *a == *b,
            (RepositoryError::Unexpected(a), RepositoryError::Unexpected(b)) => *a == *b,
            _ => false,
        }
    }
}

impl vstd::std_specs::cmp::PartialEqSpecImpl for RepositoryError {
    open spec fn obeys_eq_spec() -> bool {
        true
    }

    open spec fn eq_spec(&self, other: &RepositoryError) -> bool {
        match (self, other) {
            (RepositoryError::NotFound(a), RepositoryError::NotFound(b)) => a == b,
            (RepositoryError::Unexpected(a), RepositoryError::Unexpected(b)) => a@ == b@,
            _ => false,
        }
    }
}

impl Eq for RepositoryError {
}

} // verus!
