use macsweep::scanner::applications::ApplicationsScanner;
use macsweep::scanner::homebrew::HomebrewScanner;
use macsweep::scanner::tools::{CargoScanner, GenericBinaryScanner, NpmScanner, PipScanner};

#[test]
fn test_guess_app_name() {
    assert_eq!(HomebrewScanner::guess_app_name("visual-studio-code"), "Visual Studio Code");
    assert_eq!(HomebrewScanner::guess_app_name("docker"), "Docker");
    assert_eq!(HomebrewScanner::guess_app_name("alt-tab"), "Alt Tab");
}

#[test]
fn guess_app_name_edges() {
    assert_eq!(HomebrewScanner::guess_app_name(""), "");
    assert_eq!(HomebrewScanner::guess_app_name("a--b"), "A  B");
    assert_eq!(HomebrewScanner::guess_app_name("\u{df}ig"), "SSig");
}

#[test]
fn homebrew_prefix_trimmed_or_default() {
    assert_eq!(HomebrewScanner::new(Some("/usr/local\n".to_string())).prefix, "/usr/local");
    assert_eq!(HomebrewScanner::new(None).prefix, "/opt/homebrew");
}

#[test]
fn applications_test_scanner_available() {
    let scanner = ApplicationsScanner::new();
    println!("Applications scanner available: {}", scanner.is_available());
    assert_eq!(scanner.scan_paths[0], "/Applications");
}

#[test]
fn cargo_test_scanner_available() {
    let scanner = CargoScanner::new();
    println!("cargo available: {}", scanner.is_available());
}

#[test]
fn homebrew_test_scanner_available() {
    let scanner = HomebrewScanner::new(None);
    println!("Homebrew available: {}", scanner.is_available());
}

#[test]
fn npm_test_scanner_available() {
    let scanner = NpmScanner::new();
    println!("npm available: {}", scanner.is_available());
}

#[test]
fn pip_test_scanner_available() {
    let scanner = PipScanner::new();
    println!("pip/pip3/pipx available: {}", scanner.is_available());
}

#[test]
fn generic_scanner_keeps_paths() {
    let s = GenericBinaryScanner::new(vec!["/usr/local/bin".to_string()]);
    assert_eq!(s.paths, vec!["/usr/local/bin".to_string()]);
    assert!(s.is_available());
}
