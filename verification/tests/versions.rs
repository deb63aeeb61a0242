use owmods_core::db::fix_version;
use owmods_core::updates::is_update_needed;
use owmods_core::versions::VersionOrder;

#[test]
fn fix_version_fills_up_to_three_numbers() {
    assert_eq!(fix_version("1"), "1.0.0");
    assert_eq!(fix_version("1.2"), "1.2.0");
    assert_eq!(fix_version("1.2.3"), "1.2.3");
    assert_eq!(fix_version("0.1.0"), "0.1.0");
    assert_eq!(fix_version("10.20"), "10.20.0");
    assert_eq!(fix_version("007"), "007.0.0");
}

#[test]
fn fix_version_strips_leading_noise_and_trailing_blanks() {
    assert_eq!(fix_version("v1.2.3"), "1.2.3");
    assert_eq!(fix_version("v1.2"), "1.2.0");
    assert_eq!(fix_version("  1.2.3  "), "1.2.3");
    assert_eq!(fix_version("version 2\n"), "2.0.0");
    assert_eq!(fix_version("burger2.0"), "2.0.0");
    assert_eq!(fix_version("\t3.1\r\n"), "3.1.0");
}

#[test]
fn fix_version_keeps_what_is_no_version() {
    assert_eq!(fix_version(""), "");
    assert_eq!(fix_version("burger"), "burger");
    assert_eq!(fix_version("v"), "v");
    assert_eq!(fix_version("1.2.3.4"), "1.2.3.4");
    assert_eq!(fix_version("v1.2.3.4"), "v1.2.3.4");
    assert_eq!(fix_version("1..2"), "1..2");
    assert_eq!(fix_version("1.2."), "1.2.");
    assert_eq!(fix_version("1.2-beta"), "1.2-beta");
    assert_eq!(fix_version(" 1.0 rc"), " 1.0 rc");
    assert_eq!(fix_version("1 .2"), "1 .2");
    assert_eq!(fix_version("١.٢"), "١.٢");
}

#[test]
fn fix_version_twice_is_fix_version_once() {
    for version in ["1", "v1.2", " 1.2.3 ", "burger", "1.2.3.4", "", "x9"] {
        let once = fix_version(version);
        assert_eq!(fix_version(&once), once);
    }
}

#[test]
fn update_is_needed_where_the_remote_version_is_greater() {
    assert!(is_update_needed(Some(VersionOrder::Gt), "0.1.0", "0.2.0"));
    assert!(!is_update_needed(Some(VersionOrder::Eq), "0.2.0", "0.2.0"));
    assert!(!is_update_needed(Some(VersionOrder::Lt), "0.2.0", "0.1.0"));
    assert!(!is_update_needed(Some(VersionOrder::Ne), "a", "b"));
    assert!(!is_update_needed(Some(VersionOrder::Le), "a", "b"));
    assert!(!is_update_needed(Some(VersionOrder::Ge), "a", "b"));
}

#[test]
fn update_is_needed_where_unreadable_versions_differ() {
    assert!(!is_update_needed(None, "burger", "burger"));
    assert!(is_update_needed(None, "burger", "burger2.0"));
    assert!(is_update_needed(None, "Burger", "burger"));
    assert!(!is_update_needed(None, "", ""));
}
