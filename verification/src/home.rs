//! The user's home directory.

use vstd::prelude::*;

verus! {

/// The home directory, as text (`dirs::home_dir`, read back with
/// `to_string_lossy`). It depends on the environment, so nothing is stated
/// of it.
#[verifier::external_body]
pub(crate) fn home_dir_text() -> (r: Option<String>) {
    dirs::home_dir().map(|p| p.to_string_lossy().into_owned())
}

} // verus!
