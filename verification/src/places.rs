//! The user's home and configuration directories, from the `dirs` crate.

use vstd::prelude::*;

verus! {

/// `dirs::home_dir`: the user's home directory as the environment gives it
/// (lossily converted to UTF-8). It depends on the environment, so nothing
/// is promised about its value.
#[verifier::external_body]
pub(crate) fn home_dir() -> Option<String> {
    match dirs::home_dir() {
        Some(p) => Some(p.to_string_lossy().into_owned()),
        None => None,
    }
}

} // verus!
