//! How an item's source is written in the store, and read back.
use crate::scanner::PackageSource;
use crate::text::{chars_of, is_text, push_str, string_of};
use vstd::prelude::*;

verus! {

/// The stored name of a source: the variant's own name.
pub open spec fn source_name_spec(s: PackageSource) -> Seq<char> {
    match s {
        PackageSource::Homebrew => "Homebrew"@,
        PackageSource::HomebrewCask => "HomebrewCask"@,
        PackageSource::MacAppStore => "MacAppStore"@,
        PackageSource::Npm => "Npm"@,
        PackageSource::Pip => "Pip"@,
        PackageSource::Pipx => "Pipx"@,
        PackageSource::Cargo => "Cargo"@,
        PackageSource::Gem => "Gem"@,
        PackageSource::Go => "Go"@,
        PackageSource::Composer => "Composer"@,
        PackageSource::Applications => "Applications"@,
        PackageSource::LocalBin => "LocalBin"@,
    }
}

/// The source that a stored name stands for; an unknown name reads as `LocalBin`.
pub open spec fn parse_source_spec(s: Seq<char>) -> PackageSource {
    if s == "Homebrew"@ {
        PackageSource::Homebrew
    } else if s == "HomebrewCask"@ {
        PackageSource::HomebrewCask
    } else if s == "MacAppStore"@ {
        PackageSource::MacAppStore
    } else if s == "Npm"@ {
        PackageSource::Npm
    } else if s == "Pip"@ {
        PackageSource::Pip
    } else if s == "Pipx"@ {
        PackageSource::Pipx
    } else if s == "Cargo"@ {
        PackageSource::Cargo
    } else if s == "Gem"@ {
        PackageSource::Gem
    } else if s == "Go"@ {
        PackageSource::Go
    } else if s == "Composer"@ {
        PackageSource::Composer
    } else if s == "Applications"@ {
        PackageSource::Applications
    } else {
        PackageSource::LocalBin
    }
}

/// The stored name of a source.
pub fn source_name(s: PackageSource) -> (r: String)
    ensures
        r@ == source_name_spec(s),
{
    let lit = match s {
        PackageSource::Homebrew => "Homebrew",
        PackageSource::HomebrewCask => "HomebrewCask",
        PackageSource::MacAppStore => "MacAppStore",
        PackageSource::Npm => "Npm",
        PackageSource::Pip => "Pip",
        PackageSource::Pipx => "Pipx",
        PackageSource::Cargo => "Cargo",
        PackageSource::Gem => "Gem",
        PackageSource::Go => "Go",
        PackageSource::Composer => "Composer",
        PackageSource::Applications => "Applications",
        PackageSource::LocalBin => "LocalBin",
    };
    let mut v: Vec<char> = Vec::new();
    push_str(&mut v, lit);
    assert(v@ =~= lit@);
    string_of(&v)
}

/// The source that a stored name stands for.
pub fn parse_package_source(s: &str) -> (r: PackageSource)
    ensures
        r == parse_source_spec(s@),
{
    let v = chars_of(s);
    if is_text(&v, "Homebrew") {
        PackageSource::Homebrew
    } else if is_text(&v, "HomebrewCask") {
        PackageSource::HomebrewCask
    } else if is_text(&v, "MacAppStore") {
        PackageSource::MacAppStore
    } else if is_text(&v, "Npm") {
        PackageSource::Npm
    } else if is_text(&v, "Pip") {
        PackageSource::Pip
    } else if is_text(&v, "Pipx") {
        PackageSource::Pipx
    } else if is_text(&v, "Cargo") {
        PackageSource::Cargo
    } else if is_text(&v, "Gem") {
        PackageSource::Gem
    } else if is_text(&v, "Go") {
        PackageSource::Go
    } else if is_text(&v, "Composer") {
        PackageSource::Composer
    } else if is_text(&v, "Applications") {
        PackageSource::Applications
    } else {
        PackageSource::LocalBin
    }
}

/// Reading back the stored name of a source gives the same source.
pub proof fn lemma_source_name_round_trip(s: PackageSource)
    ensures
        parse_source_spec(source_name_spec(s)) == s,
{
    reveal_strlit("Homebrew");
    reveal_strlit("HomebrewCask");
    reveal_strlit("MacAppStore");
    reveal_strlit("Npm");
    reveal_strlit("Pip");
    reveal_strlit("Pipx");
    reveal_strlit("Cargo");
    reveal_strlit("Gem");
    reveal_strlit("Go");
    reveal_strlit("Composer");
    reveal_strlit("Applications");
    reveal_strlit("LocalBin");
    match s {
        PackageSource::Homebrew => {
        },
        PackageSource::HomebrewCask => {
            assert("HomebrewCask"@.len() != "Homebrew"@.len());
        },
        PackageSource::MacAppStore => {
            assert("MacAppStore"@.len() != "Homebrew"@.len());
            assert("MacAppStore"@.len() != "HomebrewCask"@.len());
        },
        PackageSource::Npm => {
            assert("Npm"@.len() != "Homebrew"@.len());
            assert("Npm"@.len() != "HomebrewCask"@.len());
            assert("Npm"@.len() != "MacAppStore"@.len());
        },
        PackageSource::Pip => {
            assert("Pip"@.len() != "Homebrew"@.len());
            assert("Pip"@.len() != "HomebrewCask"@.len());
            assert("Pip"@.len() != "MacAppStore"@.len());
            assert("Pip"@[0] != "Npm"@[0]);
        },
        PackageSource::Pipx => {
            assert("Pipx"@.len() != "Homebrew"@.len());
            assert("Pipx"@.len() != "HomebrewCask"@.len());
            assert("Pipx"@.len() != "MacAppStore"@.len());
            assert("Pipx"@.len() != "Npm"@.len());
            assert("Pipx"@.len() != "Pip"@.len());
        },
        PackageSource::Cargo => {
            assert("Cargo"@.len() != "Homebrew"@.len());
            assert("Cargo"@.len() != "HomebrewCask"@.len());
            assert("Cargo"@.len() != "MacAppStore"@.len());
            assert("Cargo"@.len() != "Npm"@.len());
            assert("Cargo"@.len() != "Pip"@.len());
            assert("Cargo"@.len() != "Pipx"@.len());
        },
        PackageSource::Gem => {
            assert("Gem"@.len() != "Homebrew"@.len());
            assert("Gem"@.len() != "HomebrewCask"@.len());
            assert("Gem"@.len() != "MacAppStore"@.len());
            assert("Gem"@[0] != "Npm"@[0]);
            assert("Gem"@[0] != "Pip"@[0]);
            assert("Gem"@.len() != "Pipx"@.len());
            assert("Gem"@.len() != "Cargo"@.len());
        },
        PackageSource::Go => {
            assert("Go"@.len() != "Homebrew"@.len());
            assert("Go"@.len() != "HomebrewCask"@.len());
            assert("Go"@.len() != "MacAppStore"@.len());
            assert("Go"@.len() != "Npm"@.len());
            assert("Go"@.len() != "Pip"@.len());
            assert("Go"@.len() != "Pipx"@.len());
            assert("Go"@.len() != "Cargo"@.len());
            assert("Go"@.len() != "Gem"@.len());
        },
        PackageSource::Composer => {
            assert("Composer"@[0] != "Homebrew"@[0]);
            assert("Composer"@.len() != "HomebrewCask"@.len());
            assert("Composer"@.len() != "MacAppStore"@.len());
            assert("Composer"@.len() != "Npm"@.len());
            assert("Composer"@.len() != "Pip"@.len());
            assert("Composer"@.len() != "Pipx"@.len());
            assert("Composer"@.len() != "Cargo"@.len());
            assert("Composer"@.len() != "Gem"@.len());
            assert("Composer"@.len() != "Go"@.len());
        },
        PackageSource::Applications => {
            assert("Applications"@.len() != "Homebrew"@.len());
            assert("Applications"@[0] != "HomebrewCask"@[0]);
            assert("Applications"@.len() != "MacAppStore"@.len());
            assert("Applications"@.len() != "Npm"@.len());
            assert("Applications"@.len() != "Pip"@.len());
            assert("Applications"@.len() != "Pipx"@.len());
            assert("Applications"@.len() != "Cargo"@.len());
            assert("Applications"@.len() != "Gem"@.len());
            assert("Applications"@.len() != "Go"@.len());
            assert("Applications"@.len() != "Composer"@.len());
        },
        PackageSource::LocalBin => {
            assert("LocalBin"@[0] != "Homebrew"@[0]);
            assert("LocalBin"@.len() != "HomebrewCask"@.len());
            assert("LocalBin"@.len() != "MacAppStore"@.len());
            assert("LocalBin"@.len() != "Npm"@.len());
            assert("LocalBin"@.len() != "Pip"@.len());
            assert("LocalBin"@.len() != "Pipx"@.len());
            assert("LocalBin"@.len() != "Cargo"@.len());
            assert("LocalBin"@.len() != "Gem"@.len());
            assert("LocalBin"@.len() != "Go"@.len());
            assert("LocalBin"@[0] != "Composer"@[0]);
            assert("LocalBin"@.len() != "Applications"@.len());
        },
    }
}

} // verus!
