use herdr::build_info;
use herdr::version::{version_line_matches_current, version_line_matches_package};

#[test]
fn stable_version_defaults_to_cargo_version() {
    assert!(!build_info::version().is_empty());
}

#[test]
fn full_version_starts_with_base_version() {
    assert!(build_info::FULL_VERSION.starts_with(build_info::BASE_VERSION));
    assert_eq!(build_info::version(), build_info::FULL_VERSION);
}

#[test]
fn current_version_line_allows_commit_suffix() {
    assert!(version_line_matches_package("herdr 0.6.4", "0.6.4"));
    assert!(version_line_matches_package(
        "herdr 0.6.4 (abc123-dirty)",
        "0.6.4"
    ));
    assert!(!version_line_matches_package(
        "herdr 0.6.3 (abc123)",
        "0.6.4"
    ));
    assert!(!version_line_matches_package(
        "other 0.6.4 (abc123)",
        "0.6.4"
    ));
}

#[test]
fn version_lines_are_matched_whole() {
    assert!(!version_line_matches_package("herdr", "0.6.4"));
    assert!(!version_line_matches_package("", "0.6.4"));
    assert!(!version_line_matches_package("herdr 0.6.40", "0.6.4"));
    assert!(version_line_matches_package("  herdr 0.6.4\n", "0.6.4"));
    assert!(!version_line_matches_package("herdr 0.6.4 (abc", "0.6.4"));
    let line = format!("herdr {}", build_info::version());
    assert!(version_line_matches_current(&line));
    assert!(!version_line_matches_current("herdr 0.0.0"));
}

#[test]
fn channel_and_build_id_come_from_the_build() {
    assert_eq!(build_info::channel_of(None), "stable");
    assert_eq!(build_info::channel_of(Some("preview")), "preview");
    assert_eq!(build_info::build_id_of(Some("abc")), Some("abc"));
    assert_eq!(build_info::build_id_of(None), None);
    assert_eq!(build_info::channel(), "stable");
    assert_eq!(build_info::build_id(), None);
    assert!(!build_info::is_preview());
}
