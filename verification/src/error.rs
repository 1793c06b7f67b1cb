//! Why a save or a listing failed.

use vstd::prelude::*;
use vstd::string::*;

verus! {

/// The ways in which the store refuses or fails.
#[derive(Debug, Clone, PartialEq, Eq)]
pub enum StoreError {
    /// The URL begins with neither `http://` nor `https://`. Nothing was written.
    InvalidUrl,
    /// The table already holds this URL.
    DuplicateUrl,
    /// The database failed otherwise. The text names the step that failed, then the cause.
    Storage(String),
}

impl StoreError {
    /// The text shown to a user for this error.
    pub open spec fn message_text(self) -> Seq<char> {
        match self {
            StoreError::InvalidUrl => "Invalid image URL format"@,
            StoreError::DuplicateUrl => "This dog image has already been saved"@,
            StoreError::Storage(detail) => detail@,
        }
    }

    /// The text shown to a user for this error.
    pub fn message(&self) -> (text: String)
        ensures
            text@ == self.message_text(),
    {
        match self {
            StoreError::InvalidUrl => String::from_str("Invalid image URL format"),
            StoreError::DuplicateUrl => String::from_str("This dog image has already been saved"),
            StoreError::Storage(detail) => detail.clone(),
        }
    }
}

/// A storage failure at the step that `step` names, caused by `cause`.
pub open spec fn is_storage_failure(error: StoreError, step: Seq<char>, cause: Seq<char>) -> bool {
    error matches StoreError::Storage(detail) && detail@ == step + cause
}

/// The storage failure whose text is `step` followed by `cause`.
pub fn storage_failure(step: &str, cause: &str) -> (error: StoreError)
    ensures
        is_storage_failure(error, step@, cause@),
{
    StoreError::Storage(String::from_str(step).concat(cause))
}

} // verus!
