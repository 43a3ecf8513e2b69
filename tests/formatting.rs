use macsweep::cleanup::{format_source, parse_package_source as backup_source, CleanupPlan};
use macsweep::scanner::PackageSource;
use macsweep::storage::{parse_package_source, source_name};
use macsweep::utils::date::format_days_ago;
use macsweep::utils::size::format_size;

#[test]
fn test_format_size_bytes() {
    assert_eq!(format_size(0), "0 B");
    assert_eq!(format_size(500), "500 B");
    assert_eq!(format_size(1023), "1023 B");
}

#[test]
fn test_format_size_kilobytes() {
    assert_eq!(format_size(1024), "1.0 KB");
    assert_eq!(format_size(1536), "1.5 KB");
    assert_eq!(format_size(2048), "2.0 KB");
    assert_eq!(format_size(102400), "100.0 KB");
}

#[test]
fn test_format_size_megabytes() {
    assert_eq!(format_size(1024 * 1024), "1.0 MB");
    assert_eq!(format_size(5 * 1024 * 1024), "5.0 MB");
    assert_eq!(format_size(1536 * 1024), "1.5 MB");
    assert_eq!(format_size(100 * 1024 * 1024), "100.0 MB");
}

#[test]
fn test_format_size_gigabytes() {
    assert_eq!(format_size(1024 * 1024 * 1024), "1.0 GB");
    assert_eq!(format_size(2 * 1024 * 1024 * 1024), "2.0 GB");
    assert_eq!(format_size(1536 * 1024 * 1024), "1.5 GB");
}

#[test]
fn format_size_rounds_to_nearest_tenth() {
    assert_eq!(format_size(1126), "1.1 KB");
    assert_eq!(format_size(1075), "1.0 KB");
    assert_eq!(format_size(1048575), "1024.0 KB");
    assert_eq!(format_size(u64::MAX), "17179869184.0 GB");
}

#[test]
fn days_ago_units() {
    assert_eq!(format_days_ago(0), "Today");
    assert_eq!(format_days_ago(1), "Yesterday");
    assert_eq!(format_days_ago(6), "6 days ago");
    assert_eq!(format_days_ago(14), "2 weeks ago");
    assert_eq!(format_days_ago(59), "1 months ago");
    assert_eq!(format_days_ago(800), "2 years ago");
    assert_eq!(macsweep::cli::output::format_days_ago(45), "45 days ago");
    assert_eq!(macsweep::cli::output::format_days_ago(1), "Yesterday");
    assert_eq!(macsweep::cli::output::format_size(2048), "2.0 KB");
}

#[test]
fn stored_source_names_round_trip() {
    for s in [PackageSource::Homebrew, PackageSource::HomebrewCask, PackageSource::MacAppStore, PackageSource::Npm, PackageSource::Pip, PackageSource::Pipx, PackageSource::Cargo, PackageSource::Gem, PackageSource::Go, PackageSource::Composer, PackageSource::Applications, PackageSource::LocalBin] {
        assert_eq!(parse_package_source(&source_name(s)), s);
        assert_eq!(source_name(s), format!("{:?}", s));
    }
    assert_eq!(parse_package_source("Unknown"), PackageSource::LocalBin);
}

#[test]
fn backup_sources_and_labels() {
    assert_eq!(backup_source("Pipx"), PackageSource::Pipx);
    assert_eq!(backup_source("Gem"), PackageSource::Homebrew);
    assert_eq!(format_source(PackageSource::HomebrewCask), "Homebrew Cask");
    assert_eq!(format_source(PackageSource::Npm), "npm");
    assert_eq!(format_source(PackageSource::Go), "Go");
    let plan = CleanupPlan::new();
    assert!(plan.packages_to_remove.is_empty());
    assert_eq!(plan.size_to_recover, 0);
}
