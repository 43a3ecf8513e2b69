//! Installed items as the scanners report them.
pub mod applications;
pub mod cargo;
pub mod homebrew;
pub mod tools;

use vstd::prelude::*;

verus! {

/// Where an installed item came from.
#[derive(Debug, Clone, Copy, PartialEq, Eq, Structural)]
pub enum PackageSource {
    Homebrew,
    HomebrewCask,
    MacAppStore,
    Npm,
    Pip,
    Pipx,
    Cargo,
    Gem,
    Go,
    Composer,
    Applications,
    LocalBin,
}

/// An installed item. Instants are seconds since the UNIX epoch, UTC.
#[derive(Debug)]
pub struct Package {
    pub name: String,
    pub version: Option<String>,
    pub source: PackageSource,
    pub install_date: Option<i64>,
    pub size_bytes: Option<u64>,
    pub binary_path: Option<String>,
    pub is_dependency: bool,
    pub dependencies: Vec<String>,
    pub dependents: Vec<String>,
    pub last_used: Option<i64>,
    pub usage_count: u32,
}

impl Package {
    /// An item with a name and a source, and nothing known of it yet.
    pub fn new(name: String, source: PackageSource) -> (r: Package)
        ensures
            r.name@ == name@,
            r.source == source,
            r.version is None,
            r.install_date is None,
            r.size_bytes is None,
            r.binary_path is None,
            !r.is_dependency,
            r.dependencies@.len() == 0,
            r.dependents@.len() == 0,
            r.last_used is None,
            r.usage_count == 0,
    {
        Package {
            name,
            version: None,
            source,
            install_date: None,
            size_bytes: None,
            binary_path: None,
            is_dependency: false,
            dependencies: Vec::new(),
            dependents: Vec::new(),
            last_used: None,
            usage_count: 0,
        }
    }
}

} // verus!
