use macsweep::analysis::orphans::{parse_autoremove_output, parse_leaves_output};
use macsweep::analysis::analyze_dependency_tree;
use macsweep::scanner::cargo::{parse_install_line, parse_install_list};
use macsweep::utils::date::days_since;

#[test]
fn autoremove_lists_names_after_header() {
    let out = "Warning: something\nlibfoo\n==> Would autoremove 2 unneeded formulae:\n  libyaml\nopenssl@1.1\n\n==> Done\n";
    assert_eq!(parse_autoremove_output(out), vec!["libyaml".to_string(), "openssl@1.1".to_string()]);
    assert!(parse_autoremove_output("nothing to do\n").is_empty());
}

#[test]
fn leaves_are_trimmed_non_empty_lines() {
    assert_eq!(parse_leaves_output(" git \n\nwget\r\n"), vec!["git".to_string(), "wget".to_string()]);
}

#[test]
fn cargo_install_list_lines() {
    let out = "ripgrep v14.1.0:\n    rg\nbat v0.24.0 (/src/bat):\n    bat\nbroken 1.0:\n";
    let crates = parse_install_list(out);
    assert_eq!(crates, vec![("ripgrep".to_string(), "14.1.0".to_string())]);
    assert_eq!(parse_install_line("fd-find v10.2.0:"), Some(("fd-find".to_string(), "10.2.0".to_string())));
    assert_eq!(parse_install_line("    rg"), None);
}

#[test]
fn days_since_rounds_down_and_clamps() {
    assert_eq!(days_since(0, 86400 * 3 + 5), 3);
    assert_eq!(days_since(100, 0), 0);
    assert_eq!(days_since(i64::MIN, i64::MAX), u32::MAX);
}

#[test]
fn dependency_analysis_is_empty() {
    let a = analyze_dependency_tree(&Vec::new());
    assert!(a.leaves.is_empty() && a.orphans.is_empty());
}

use macsweep::cli::{sort_packages, source_matches, unused_since, SortField};
use macsweep::scanner::tools::{CargoScanner, NpmScanner, PipScanner};
use macsweep::scanner::{Package, PackageSource};

fn item(name: &str, size: Option<u64>, last: Option<i64>, uses: u32) -> Package {
    let mut p = Package::new(name.to_string(), PackageSource::Npm);
    p.size_bytes = size;
    p.last_used = last;
    p.usage_count = uses;
    p
}

fn names(ps: &[Package]) -> Vec<&str> {
    ps.iter().map(|p| p.name.as_str()).collect()
}

#[test]
fn listing_sorts_are_stable() {
    let ps = || vec![item("b", Some(5), None, 1), item("a", None, Some(10), 7), item("c", Some(5), Some(20), 7), item("B", Some(9), Some(10), 0)];
    assert_eq!(names(&sort_packages(ps(), SortField::Name)), vec!["B", "a", "b", "c"]);
    assert_eq!(names(&sort_packages(ps(), SortField::Size)), vec!["B", "b", "c", "a"]);
    assert_eq!(names(&sort_packages(ps(), SortField::LastUsed)), vec!["c", "a", "B", "b"]);
    assert_eq!(names(&sort_packages(ps(), SortField::UsageCount)), vec!["a", "c", "b", "B"]);
    assert_eq!(names(&sort_packages(ps(), SortField::InstallDate)), vec!["b", "a", "c", "B"]);
}

#[test]
fn listing_filters() {
    let p = item("x", None, Some(100), 0);
    assert!(unused_since(&p, 101));
    assert!(!unused_since(&p, 100));
    assert!(unused_since(&item("y", None, None, 0), 0));
    assert!(source_matches(&p, "NP"));
    assert!(!source_matches(&p, "brew"));
}

#[test]
fn scanner_skip_rules() {
    assert!(NpmScanner::is_own_package("npm"));
    assert!(!NpmScanner::is_own_package("npx"));
    assert!(PipScanner::is_base_package("setuptools"));
    assert!(!PipScanner::is_base_package("requests"));
    assert!(CargoScanner::is_toolchain_binary("rustfmt"));
    assert!(CargoScanner::is_toolchain_binary("cargo-clippy"));
    assert!(!CargoScanner::is_toolchain_binary("ripgrep"));
}
