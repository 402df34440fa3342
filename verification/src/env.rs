//! The user's directories, as the `dirs` crate finds them. These depend on the
//! environment of the running process, so nothing is promised of them.
use vstd::prelude::*;

verus! {

/// `dirs::home_dir`, the path converted to text (lossily, as `Path::display`
/// does). The result depends on the environment; no contract constrains it.
#[verifier::external_body]
pub(crate) fn home_dir() -> Option<String> {
    dirs::home_dir().map(|p| p.to_string_lossy().into_owned())
}

/// `dirs::config_dir`, the path converted to text (lossily). The result
/// depends on the environment; no contract constrains it.
#[verifier::external_body]
pub(crate) fn config_dir() -> Option<String> {
    dirs::config_dir().map(|p| p.to_string_lossy().into_owned())
}

} // verus!
