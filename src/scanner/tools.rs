//! Scanners of language package managers and plain binary directories.
use crate::text::{chars_of, is_text, occurs_at_exec, starts_with};
use crate::utils::process::command_exists;
use vstd::prelude::*;

verus! {

/// Binaries installed with `cargo install`.
pub struct CargoScanner;

/// Installed Ruby gems.
pub struct GemScanner;

/// Executables in chosen directories.
pub struct GenericBinaryScanner {
    pub paths: Vec<String>,
}

/// Global npm packages.
pub struct NpmScanner;

/// Python packages of pip and pipx.
pub struct PipScanner;

impl CargoScanner {
    pub fn new() -> (r: CargoScanner) {
        CargoScanner
    }

    /// Whether `cargo` is on the search path.
    pub fn is_available(&self) -> bool {
        command_exists("cargo")
    }

    /// A binary of the Rust toolchain itself, not one installed with cargo.
    pub fn is_toolchain_binary(name: &str) -> (r: bool)
        ensures
            r == (starts_with(name@, "rust"@) || starts_with(name@, "cargo"@)),
    {
        let v = chars_of(name);
        let rust = chars_of("rust");
        let cargo = chars_of("cargo");
        occurs_at_exec(&v, &rust, 0) || occurs_at_exec(&v, &cargo, 0)
    }
}

impl GemScanner {
    pub fn new() -> (r: GemScanner) {
        GemScanner
    }

    /// Whether `gem` is on the search path.
    pub fn is_available(&self) -> bool {
        command_exists("gem")
    }
}

impl GenericBinaryScanner {
    /// A scanner of the given directories.
    pub fn new(paths: Vec<String>) -> (r: GenericBinaryScanner)
        ensures
            r.paths@ == paths@,
    {
        GenericBinaryScanner { paths }
    }

    /// Directories can always be scanned.
    pub fn is_available(&self) -> (r: bool)
        ensures
            r,
    {
        true
    }
}

impl NpmScanner {
    pub fn new() -> (r: NpmScanner) {
        NpmScanner
    }

    /// Whether `npm` is on the search path.
    pub fn is_available(&self) -> bool {
        command_exists("npm")
    }

    /// npm itself, which the global listing names but which is not managed here.
    pub fn is_own_package(name: &str) -> (r: bool)
        ensures
            r == (name@ == "npm"@),
    {
        let v = chars_of(name);
        is_text(&v, "npm")
    }
}

impl PipScanner {
    pub fn new() -> (r: PipScanner) {
        PipScanner
    }

    /// Whether `pip`, `pip3` or `pipx` is on the search path.
    pub fn is_available(&self) -> bool {
        command_exists("pip") || command_exists("pip3") || command_exists("pipx")
    }

    /// A package that every Python installation carries.
    pub fn is_base_package(name: &str) -> (r: bool)
        ensures
            r == (name@ == "pip"@ || name@ == "setuptools"@ || name@ == "wheel"@),
    {
        let v = chars_of(name);
        is_text(&v, "pip") || is_text(&v, "setuptools") || is_text(&v, "wheel")
    }
}

} // verus!
