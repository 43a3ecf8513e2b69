//! Facts about the machine that only the machine can tell.
use vstd::prelude::*;

verus! {

/// Whether an executable of this name is on the search path.
/// Relies on `which::which` succeeding; the answer depends on the machine.
#[verifier::external_body]
pub fn command_exists(program: &str) -> (r: bool) {
    which::which(program).is_ok()
}

/// Whether something exists at this path.
/// Relies on `std::path::Path::exists`; the answer depends on the machine.
#[verifier::external_body]
pub(crate) fn path_exists(path: &str) -> (r: bool) {
    std::path::Path::new(path).exists()
}

/// The current user's home directory, where one is known.
/// Relies on `dirs::home_dir`; the answer depends on the environment.
#[verifier::external_body]
pub(crate) fn home_directory() -> (r: Option<String>) {
    dirs::home_dir().map(|p| p.to_string_lossy().into_owned())
}

} // verus!
