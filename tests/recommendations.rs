use macsweep::analysis::recommendations::{
    format_size, generate_recommendations, generate_recommendations_with, RecommendationPolicy,
    RecommendationSeverity,
};
use macsweep::scanner::{Package, PackageSource};

const DAY: i64 = 86400;
const NOW: i64 = 1_768_694_400;

fn pkg(name: &str, last_used: Option<i64>, size: Option<u64>) -> Package {
    let mut p = Package::new(name.to_string(), PackageSource::Homebrew);
    p.last_used = last_used;
    p.size_bytes = size;
    p
}

#[test]
fn test_recommendations_for_unused_packages() {
    let now = chrono::Utc::now().timestamp();
    let package = pkg("old-package", Some(now - 200 * DAY), Some(100 * 1024 * 1024));
    let packages = vec![package];
    let recommendations = generate_recommendations(&packages, &Vec::new(), now);
    assert_eq!(recommendations.len(), 1);
    assert_eq!(recommendations[0].package, "old-package");
    assert_eq!(recommendations[0].severity, RecommendationSeverity::Review);
}

#[test]
fn test_recommendations_for_recent_packages() {
    let now = chrono::Utc::now().timestamp();
    let package = pkg("recent-package", Some(now - 5 * DAY), Some(50 * 1024 * 1024));
    let packages = vec![package];
    let recommendations = generate_recommendations(&packages, &Vec::new(), now);
    assert_eq!(recommendations.len(), 0);
}

#[test]
fn test_recommendations_severity_order() {
    let now = chrono::Utc::now().timestamp();
    let safe_pkg = pkg("safe-pkg", None, Some(10 * 1024 * 1024));
    let review_pkg = pkg("review-pkg", Some(now - 180 * DAY), Some(200 * 1024 * 1024));
    let warning_pkg = pkg("warning-pkg", Some(now - 45 * DAY), Some(50 * 1024 * 1024));
    let packages = vec![warning_pkg, review_pkg, safe_pkg];
    let recommendations = generate_recommendations(&packages, &Vec::new(), now);
    assert!(recommendations.len() >= 2);
    let review_idx = recommendations.iter().position(|r| r.severity == RecommendationSeverity::Review);
    let warning_idx = recommendations.iter().position(|r| r.severity == RecommendationSeverity::Warning);
    if let (Some(rev), Some(warn)) = (review_idx, warning_idx) {
        assert!(rev < warn, "Review recommendations should come before Warning");
    }
}

#[test]
fn test_large_unused_package_recommendation() {
    let package = pkg("large-unused", None, Some(150 * 1024 * 1024));
    let packages = vec![package];
    let recommendations = generate_recommendations(&packages, &Vec::new(), NOW);
    assert_eq!(recommendations.len(), 1);
    assert_eq!(recommendations[0].severity, RecommendationSeverity::Review);
    assert!(recommendations[0].reason.contains("No usage data"));
    assert_eq!(recommendations[0].reason, "No usage data found - 150.0 MB in size");
}

#[test]
fn test_format_size() {
    assert_eq!(format_size(0), "0 bytes");
    assert_eq!(format_size(512), "512 bytes");
    assert_eq!(format_size(1024), "1.0 KB");
    assert_eq!(format_size(1536), "1.5 KB");
    assert_eq!(format_size(1024 * 1024), "1.0 MB");
    assert_eq!(format_size(1024 * 1024 * 1024), "1.0 GB");
    assert_eq!(format_size(1536 * 1024 * 1024), "1.5 GB");
}

#[test]
fn ordering_example_safe_review_warning() {
    let p1 = pkg("P1", None, Some(10_000_000));
    let p2 = pkg("P2", Some(NOW - 200 * DAY), Some(200_000_000));
    let p3 = pkg("P3", Some(NOW - 45 * DAY), Some(50_000_000));
    let orphans = vec!["P1".to_string()];
    let recs = generate_recommendations(&vec![p3, p2, p1], &orphans, NOW);
    let names: Vec<&str> = recs.iter().map(|r| r.package.as_str()).collect();
    assert_eq!(names, vec!["P1", "P2", "P3"]);
    assert_eq!(recs[0].severity, RecommendationSeverity::Safe);
    assert_eq!(recs[1].severity, RecommendationSeverity::Review);
    assert_eq!(recs[2].severity, RecommendationSeverity::Warning);
    assert_eq!(recs[0].size_recoverable, 10_000_000);
    assert_eq!(recs[0].reason, "Orphaned dependency - no longer required by any installed package");
    assert_eq!(recs[1].reason, "Not used in 200 days (~6 months)");
    assert_eq!(recs[2].reason, "Not used in 45 days");
}

#[test]
fn orphan_wins_over_age_and_counts_size_zero_when_unknown() {
    let p = pkg("dep", Some(NOW - 400 * DAY), None);
    let recs = generate_recommendations(&vec![p], &vec!["dep".to_string()], NOW);
    assert_eq!(recs.len(), 1);
    assert_eq!(recs[0].severity, RecommendationSeverity::Safe);
    assert_eq!(recs[0].size_recoverable, 0);
}

#[test]
fn day_boundaries() {
    let at = |days: i64| generate_recommendations(&vec![pkg("x", Some(NOW - days * DAY), Some(1))], &Vec::new(), NOW);
    let r90 = at(90);
    assert_eq!(r90.len(), 1);
    assert_eq!(r90[0].severity, RecommendationSeverity::Review);
    assert_eq!(r90[0].reason, "Not used in 90 days (~3 months)");
    let r89 = at(89);
    assert_eq!(r89[0].severity, RecommendationSeverity::Warning);
    let r30 = at(30);
    assert_eq!(r30.len(), 1);
    assert_eq!(r30[0].severity, RecommendationSeverity::Warning);
    assert_eq!(r30[0].reason, "Not used in 30 days");
    assert_eq!(at(29).len(), 0);
}

#[test]
fn partial_days_round_down() {
    let p = pkg("x", Some(NOW - 30 * DAY + 1), Some(1));
    assert_eq!(generate_recommendations(&vec![p], &Vec::new(), NOW).len(), 0);
}

#[test]
fn future_last_use_is_no_recommendation() {
    let p = pkg("x", Some(NOW + 10 * DAY), Some(1 << 40));
    assert_eq!(generate_recommendations(&vec![p], &Vec::new(), NOW).len(), 0);
}

#[test]
fn never_used_size_threshold_is_strict() {
    let exact = pkg("a", None, Some(104_857_600));
    assert_eq!(generate_recommendations(&vec![exact], &Vec::new(), NOW).len(), 0);
    let above = pkg("b", None, Some(104_857_601));
    let recs = generate_recommendations(&vec![above], &Vec::new(), NOW);
    assert_eq!(recs.len(), 1);
    assert_eq!(recs[0].severity, RecommendationSeverity::Review);
    assert_eq!(recs[0].size_recoverable, 104_857_601);
    let unknown = pkg("c", None, None);
    assert_eq!(generate_recommendations(&vec![unknown], &Vec::new(), NOW).len(), 0);
}

#[test]
fn same_severity_sorted_by_size_then_input_order() {
    let a = pkg("a", Some(NOW - 100 * DAY), Some(5));
    let b = pkg("b", Some(NOW - 100 * DAY), Some(9));
    let c = pkg("c", Some(NOW - 100 * DAY), Some(5));
    let recs = generate_recommendations(&vec![a, b, c], &Vec::new(), NOW);
    let names: Vec<&str> = recs.iter().map(|r| r.package.as_str()).collect();
    assert_eq!(names, vec!["b", "a", "c"]);
}

#[test]
fn custom_policy_thresholds() {
    let policy = RecommendationPolicy { review_after_days: 10, warn_after_days: 5, large_unused_bytes: 0 };
    let p = pkg("x", Some(NOW - 7 * DAY), Some(1));
    let q = pkg("y", None, Some(1));
    let recs = generate_recommendations_with(&policy, &vec![p, q], &Vec::new(), NOW);
    assert_eq!(recs.len(), 2);
    assert_eq!(recs[0].package, "y");
    assert_eq!(recs[0].reason, "No usage data found - 1 bytes in size");
    assert_eq!(recs[1].severity, RecommendationSeverity::Warning);
}
