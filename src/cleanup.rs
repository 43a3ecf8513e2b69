//! Cleanup plans, and the records kept to undo a cleanup.
use crate::scanner::{Package, PackageSource};
use crate::storage::{source_name, source_name_spec};
use crate::text::{chars_of, is_text, push_str, string_of};
use vstd::prelude::*;

verus! {

/// What a cleanup is to remove, and the space it frees.
pub struct CleanupPlan {
    pub packages_to_remove: Vec<String>,
    pub size_to_recover: u64,
}

impl CleanupPlan {
    /// A plan that removes nothing.
    pub fn new() -> (r: CleanupPlan)
        ensures
            r.packages_to_remove@.len() == 0,
            r.size_to_recover == 0,
    {
        CleanupPlan { packages_to_remove: Vec::new(), size_to_recover: 0 }
    }
}

/// The record of one cleanup: its identifier, when it was made, and what it removed.
pub struct BackupManifest {
    pub backup_id: String,
    pub created_at: String,
    pub packages: Vec<BackupPackage>,
}

/// What is kept of one removed item to reinstall it.
pub struct BackupPackage {
    pub name: String,
    pub source: String,
    pub version: Option<String>,
    pub binary_path: Option<String>,
    pub size_bytes: Option<u64>,
}

pub open spec fn opt_view(o: Option<String>) -> Option<Seq<char>> {
    match o {
        Some(s) => Some(s@),
        None => None,
    }
}

fn copy_opt(o: &Option<String>) -> (r: Option<String>)
    ensures
        opt_view(r) == opt_view(*o),
{
    match o {
        Some(s) => Some(s.clone()),
        None => None,
    }
}

impl BackupPackage {
    /// The record of an item about to be removed.
    pub fn from_package(p: &Package) -> (r: BackupPackage)
        ensures
            r.name@ == p.name@,
            r.source@ == source_name_spec(p.source),
            opt_view(r.version) == opt_view(p.version),
            opt_view(r.binary_path) == opt_view(p.binary_path),
            r.size_bytes == p.size_bytes,
    {
        BackupPackage {
            name: p.name.clone(),
            source: source_name(p.source),
            version: copy_opt(&p.version),
            binary_path: copy_opt(&p.binary_path),
            size_bytes: p.size_bytes,
        }
    }
}

/// The source that a backup record names; sources that cannot be reinstalled
/// from a record read as `Homebrew`.
pub open spec fn backup_source_spec(s: Seq<char>) -> PackageSource {
    if s == "HomebrewCask"@ {
        PackageSource::HomebrewCask
    } else if s == "Npm"@ {
        PackageSource::Npm
    } else if s == "Pip"@ {
        PackageSource::Pip
    } else if s == "Pipx"@ {
        PackageSource::Pipx
    } else if s == "Cargo"@ {
        PackageSource::Cargo
    } else if s == "Applications"@ {
        PackageSource::Applications
    } else {
        PackageSource::Homebrew
    }
}

/// The source that a backup record names.
pub fn parse_package_source(source_str: &str) -> (r: PackageSource)
    ensures
        r == backup_source_spec(source_str@),
{
    let v = chars_of(source_str);
    if is_text(&v, "HomebrewCask") {
        PackageSource::HomebrewCask
    } else if is_text(&v, "Npm") {
        PackageSource::Npm
    } else if is_text(&v, "Pip") {
        PackageSource::Pip
    } else if is_text(&v, "Pipx") {
        PackageSource::Pipx
    } else if is_text(&v, "Cargo") {
        PackageSource::Cargo
    } else if is_text(&v, "Applications") {
        PackageSource::Applications
    } else {
        PackageSource::Homebrew
    }
}

/// How a source is named to the person running a cleanup.
pub open spec fn source_label(s: PackageSource) -> Seq<char> {
    match s {
        PackageSource::Homebrew => "Homebrew"@,
        PackageSource::HomebrewCask => "Homebrew Cask"@,
        PackageSource::Npm => "npm"@,
        PackageSource::Pip => "pip"@,
        PackageSource::Pipx => "pipx"@,
        PackageSource::Cargo => "cargo"@,
        PackageSource::Applications => "Applications"@,
        _ => source_name_spec(s),
    }
}

/// The name of a source for people to read.
pub fn format_source(source: PackageSource) -> (r: String)
    ensures
        r@ == source_label(source),
{
    let lit = match source {
        PackageSource::Homebrew => "Homebrew",
        PackageSource::HomebrewCask => "Homebrew Cask",
        PackageSource::Npm => "npm",
        PackageSource::Pip => "pip",
        PackageSource::Pipx => "pipx",
        PackageSource::Cargo => "cargo",
        PackageSource::Applications => "Applications",
        _ => {
            return source_name(source);
        },
    };
    let mut v: Vec<char> = Vec::new();
    push_str(&mut v, lit);
    assert(v@ =~= lit@);
    string_of(&v)
}

} // verus!
