//! A saved favourite, as the store hands it out.

use vstd::prelude::*;

verus! {

/// One row of the `dogs` table.
#[derive(Debug, Clone, PartialEq, Eq)]
pub struct SavedDog {
    /// The row's identifier, assigned by the table in rising order.
    pub id: i64,
    /// The image URL, unique in the table.
    pub url: String,
    /// When the row was inserted, as `YYYY-MM-DD HH:MM:SS`.
    pub created_at: String,
}

} // verus!
