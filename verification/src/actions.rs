//! The actions-side cache of saved paths, of which only the key rule is
//! logic: a cache key may be at most 512 characters long.

use vstd::prelude::*;
use vstd::string::StrSliceExecFns;

verus! {

/// A cache of saved paths, addressed by key.
#[derive(Debug, Default)]
pub struct Cache {}

impl Cache {
    /// Whether a cache key is valid: at most 512 characters long.
    pub fn check_key(key: &String) -> (r: bool)
        ensures
            r == (key@.len() <= 512),
    {
        key.as_str().unicode_len() <= 512
    }
}

} // verus!
