use speakv::color::hex_to_color;
use speakv::updater::{UpdateManager, UpdateStatus};

#[test]
fn version_comparison_decides_on_the_first_differing_component() {
    assert!(UpdateManager::is_newer_version("1.2.3", "1.2.4"));
    assert!(UpdateManager::is_newer_version("1.2.3", "1.3.0"));
    assert!(UpdateManager::is_newer_version("1.2.3", "2.0.0"));
    assert!(!UpdateManager::is_newer_version("1.2.3", "1.2.3"));
    assert!(!UpdateManager::is_newer_version("2.0.0", "1.9.9"));
    // A missing component counts as zero.
    assert!(UpdateManager::is_newer_version("1.0", "1.0.1"));
    assert!(!UpdateManager::is_newer_version("1.0.1", "1.0"));
}

#[test]
fn unparsable_components_are_skipped_not_zeroed() {
    // "1.x.2" keeps only the parts that parse, shifting the rest left.
    assert!(!UpdateManager::is_newer_version("1.x.2", "1.0.2"));
    assert!(UpdateManager::is_newer_version("1.0.2", "1.x.2"));
    assert!(!UpdateManager::is_newer_version("", ""));
    // An overflowing component fails to parse and is skipped.
    assert!(UpdateManager::is_newer_version("1.99999999999", "1.1"));
}

#[test]
fn resolve_check_reports_exactly_whether_an_update_exists() {
    let m = UpdateManager::new("1.2.3".to_string());
    assert!(matches!(m.status, UpdateStatus::Idle));
    assert_eq!(
        m.resolve_check("1.3.0".to_string()),
        UpdateStatus::UpdateAvailable("1.3.0".to_string()),
    );
    assert_eq!(m.resolve_check("1.2.3".to_string()), UpdateStatus::NoUpdateAvailable);
    assert_eq!(m.resolve_check("1.0.0".to_string()), UpdateStatus::NoUpdateAvailable);
}

#[test]
fn hex_colors_parse_exactly_or_not_at_all() {
    assert_eq!(hex_to_color("#FFAA01"), Some((255, 170, 1)));
    assert_eq!(hex_to_color("#ffaa01"), Some((255, 170, 1)));
    assert_eq!(hex_to_color("#000000"), Some((0, 0, 0)));
    assert_eq!(hex_to_color("FFAA01"), None);
    assert_eq!(hex_to_color("#FFAA0"), None);
    assert_eq!(hex_to_color("#FFAA012"), None);
    assert_eq!(hex_to_color("#GGAA01"), None);
    assert_eq!(hex_to_color(""), None);
}
