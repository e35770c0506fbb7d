//! The order of package versions.

use std::cmp::Ordering;

use finupdate::version_compare::{classify, compare_evr, rpmvercmp, VersionChange};

#[test]
fn orders_plain_numeric_segments() {
    assert_eq!(rpmvercmp("1.0", "1.1"), Ordering::Less);
    assert_eq!(rpmvercmp("1.10", "1.9"), Ordering::Greater);
    assert_eq!(rpmvercmp("1.0", "1.0"), Ordering::Equal);
}

#[test]
fn follows_rpm_segment_rules() {
    assert_eq!(rpmvercmp("1.1", "1.a"), Ordering::Greater);
    assert_eq!(rpmvercmp("1.007", "1.7"), Ordering::Equal);
    assert_eq!(rpmvercmp("1.2.3", "1_2_3"), Ordering::Equal);
}

#[test]
fn tilde_sorts_before_everything() {
    assert_eq!(rpmvercmp("1.0~rc1", "1.0"), Ordering::Less);
    assert_eq!(rpmvercmp("1.0", "1.0~rc1"), Ordering::Greater);
    assert_eq!(rpmvercmp("1.0~rc1", "1.0~rc2"), Ordering::Less);
}

#[test]
fn epoch_dominates_version() {
    assert_eq!(
        compare_evr("5:1.0-1.fc44", "4:9.9-1.fc44"),
        Ordering::Greater
    );
    assert_eq!(compare_evr("1.0-1.fc44", "0:1.0-1.fc44"), Ordering::Equal);
}

#[test]
fn classifies_the_real_downgrades_we_were_painting_green() {
    for (booted, target) in [
        ("50.3-1.fc44", "49.7-1.fc43"),
        ("26.1.4-4.fc44", "25.3.6-6.fc43"),
        ("5:5.8.4-1.fc44", "5:5.8.2-1.fc43"),
        ("1.16.3-1.fc44", "1.15.1-1.fc43"),
        ("259.7-1.fc44", "258.7-1.fc43"),
    ] {
        assert_eq!(
            classify(booted, target),
            VersionChange::Downgrade,
            "{booted} -> {target} should be a downgrade"
        );
    }
}

#[test]
fn classifies_upgrades_and_equals() {
    assert_eq!(
        classify("49.7-1.fc43", "50.3-1.fc44"),
        VersionChange::Upgrade
    );
    assert_eq!(classify("1.0-1", "1.0-1"), VersionChange::Same);
}

#[test]
fn unknown_when_a_side_is_missing() {
    assert_eq!(classify("", "1.0"), VersionChange::Unknown);
    assert_eq!(classify("—", "1.0"), VersionChange::Unknown);
    assert_eq!(classify("1.0", ""), VersionChange::Unknown);
}

#[test]
fn caret_is_a_snapshot_after_a_release() {
    assert_eq!(rpmvercmp("1.0^git1", "1.0"), Ordering::Greater);
    assert_eq!(rpmvercmp("1.0^git1", "1.0.1"), Ordering::Less);
    assert_eq!(rpmvercmp("1.0^", "1.0~"), Ordering::Greater);
    assert_eq!(rpmvercmp("1.0^a", "1.0^b"), Ordering::Less);
}

#[test]
fn order_of_versions_is_total() {
    let all = ["", "~", "1", "1~", "1^", "1a", "1.a", "1.1", "a", "1.01", "2.0-x", "1.٣", "zz9"];
    for a in all {
        assert_eq!(rpmvercmp(a, a), Ordering::Equal);
        for b in all {
            assert_eq!(rpmvercmp(a, b), rpmvercmp(b, a).reverse());
            for c in all {
                if rpmvercmp(a, b) != Ordering::Greater && rpmvercmp(b, c) != Ordering::Greater {
                    assert_ne!(rpmvercmp(a, c), Ordering::Greater);
                }
            }
        }
    }
}

#[test]
fn numbers_of_any_length_are_compared() {
    let long = "9".repeat(60);
    let longer = format!("1{}", "0".repeat(60));
    assert_eq!(rpmvercmp(&long, &longer), Ordering::Less);
    assert_eq!(rpmvercmp("000", "0"), Ordering::Equal);
}

#[test]
fn release_decides_last() {
    assert_eq!(compare_evr("1.0-2", "1.0-10"), Ordering::Less);
    assert_eq!(compare_evr("1.0", "1.0-1"), Ordering::Less);
    assert_eq!(compare_evr("x:1.0", "1.0"), Ordering::Less);
    assert_eq!(compare_evr(":1.0", "1.0"), Ordering::Equal);
    assert_eq!(classify(" 1.0 ", "1.0\n"), VersionChange::Same);
    assert_eq!(classify("1.0", "—"), VersionChange::Unknown);
}
