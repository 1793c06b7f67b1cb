//! Which image URLs the store accepts.

use crate::text::{has_prefix, starts_with};
use vstd::prelude::*;

verus! {

/// A URL is accepted when it begins with `http://` or with `https://`. Nothing else is asked
/// of it: neither that it is well formed, nor that it can be reached.
pub open spec fn valid_dog_url(url: Seq<char>) -> bool {
    has_prefix(url, "http://"@) || has_prefix(url, "https://"@)
}

/// Whether `url` is accepted for saving.
pub fn is_valid_dog_url(url: &str) -> (valid: bool)
    ensures
        valid == valid_dog_url(url@),
{
    starts_with(url, "http://") || starts_with(url, "https://")
}

} // verus!
