use macsweep::scanner::{Package, PackageSource};
use macsweep::usage::aggregator::{aggregate_usage, apply_access_time, apply_shell_history};
use macsweep::usage::shell_history::HistoryEntry;
use macsweep::usage::{UsageInfo, UsageSource};

fn entry(cmd: &str, ts: Option<i64>) -> HistoryEntry {
    HistoryEntry { command: cmd.to_string(), timestamp: ts }
}

fn tool(name: &str, source: PackageSource) -> Package {
    let mut p = Package::new(name.to_string(), source);
    p.binary_path = Some(format!("/usr/local/bin/{}", name));
    p
}

#[test]
fn history_counts_and_newest_match() {
    let hist = vec![entry("git status", Some(300)), entry("ls", Some(900)), entry("GIT log", Some(500)), entry("git diff", None)];
    let info = aggregate_usage(&tool("git", PackageSource::Homebrew), None, None, &hist, Some(7));
    assert_eq!(info.usage_count, 3);
    assert_eq!(info.last_used, Some(500));
    assert_eq!(info.sources, vec![UsageSource::ShellHistory { count: 3, last_used: Some(500) }]);
}

#[test]
fn os_metadata_replaces_count_and_history_adds() {
    let hist = vec![entry("open Arc", Some(100))];
    let info = aggregate_usage(&tool("arc", PackageSource::Applications), Some(2000), Some(40), &hist, None);
    assert_eq!(info.usage_count, 41);
    assert_eq!(info.last_used, Some(2000));
    assert_eq!(info.sources.len(), 2);
}

#[test]
fn os_metadata_ignored_for_non_bundles() {
    let info = aggregate_usage(&tool("jq", PackageSource::Homebrew), Some(2000), Some(40), &Vec::new(), None);
    assert_eq!(info.usage_count, 0);
    assert!(info.sources.is_empty());
}

#[test]
fn access_time_only_fills_a_gap() {
    let info = aggregate_usage(&tool("jq", PackageSource::Homebrew), None, None, &Vec::new(), Some(77));
    assert_eq!(info.last_used, Some(77));
    assert_eq!(info.usage_count, 0);
    assert_eq!(info.sources, vec![UsageSource::FileAccessTime { atime: 77 }]);
    let hist = vec![entry("jq .", Some(50))];
    let info2 = aggregate_usage(&tool("jq", PackageSource::Homebrew), None, None, &hist, Some(77));
    assert_eq!(info2.last_used, Some(50));
    let mut info3 = UsageInfo::new();
    info3.last_used = Some(1);
    apply_access_time(&mut info3, Some(99));
    assert_eq!(info3.last_used, Some(1));
}

#[test]
fn item_without_path_has_no_evidence() {
    let p = Package::new("ghost".to_string(), PackageSource::Npm);
    let info = aggregate_usage(&p, Some(1), Some(1), &vec![entry("ghost", Some(5))], Some(9));
    assert_eq!(info.last_used, None);
    assert_eq!(info.usage_count, 0);
}

#[test]
fn positive_count_always_has_evidence() {
    let hist = vec![entry("rg foo", None)];
    let info = aggregate_usage(&tool("rg", PackageSource::Cargo), None, None, &hist, None);
    assert_eq!(info.usage_count, 1);
    assert!(!info.sources.is_empty());
    let bundle = aggregate_usage(&tool("app", PackageSource::HomebrewCask), None, Some(3), &Vec::new(), None);
    assert_eq!(bundle.usage_count, 3);
    assert!(!bundle.sources.is_empty());
}

#[test]
fn aggregating_twice_gives_the_same_estimate() {
    let hist = vec![entry("git a", Some(3)), entry("git b", Some(8))];
    let p = tool("git", PackageSource::Homebrew);
    let a = aggregate_usage(&p, None, None, &hist, Some(1));
    let b = aggregate_usage(&p, None, None, &hist, Some(1));
    assert_eq!(a.last_used, b.last_used);
    assert_eq!(a.usage_count, b.usage_count);
    assert_eq!(a.sources, b.sources);
}

#[test]
fn older_match_keeps_last_used_and_raises_count() {
    let mut info = UsageInfo::new();
    info.last_used = Some(1000);
    info.usage_count = 4;
    apply_shell_history(&mut info, &vec![entry("npm ci", Some(10))], "npm");
    assert_eq!(info.last_used, Some(1000));
    assert_eq!(info.usage_count, 5);
    apply_shell_history(&mut info, &vec![entry("npm ci", Some(2000))], "npm");
    assert_eq!(info.last_used, Some(2000));
    info.usage_count = u32::MAX;
    apply_shell_history(&mut info, &vec![entry("npm ci", None)], "npm");
    assert_eq!(info.usage_count, u32::MAX);
}
