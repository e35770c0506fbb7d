//! The progress that `bootc switch` prints.

use finupdate::bootc_progress::{parse_bootc_progress, BootcProgress};

#[test]
fn progress_parses_layer_ratio() {
    let r = parse_bootc_progress("Layer 3/12 sha256:abc...");
    assert_eq!(
        r,
        Some(BootcProgress::Fraction {
            current: 3,
            total: 12
        })
    );
}

#[test]
fn progress_parses_pulled_ratio_phrasing() {
    let r = parse_bootc_progress("Pulled 8/8 layers");
    assert_eq!(
        r,
        Some(BootcProgress::Fraction {
            current: 8,
            total: 8
        })
    );
}

#[test]
fn progress_extracts_ratio_anywhere_in_line() {
    let r = parse_bootc_progress("Copying blob abc 5/12 12.3 MiB / 30 MiB");
    assert_eq!(
        r,
        Some(BootcProgress::Fraction {
            current: 5,
            total: 12
        })
    );
}

#[test]
fn progress_rejects_zero_total() {
    assert_eq!(parse_bootc_progress("0/0 something"), None);
}

#[test]
fn progress_rejects_inverted_ratio() {
    assert_eq!(parse_bootc_progress("Copying 100/5 something"), None);
}

#[test]
fn progress_rejects_huge_denominator() {
    assert_eq!(parse_bootc_progress("123/45678 bytes"), None);
}

#[test]
fn progress_returns_status_for_pulling_lines() {
    let r = parse_bootc_progress("Pulling manifest from ghcr.io/...");
    assert_eq!(
        r,
        Some(BootcProgress::Status(
            "Pulling new image layers…".to_string()
        ))
    );
}

#[test]
fn progress_returns_status_for_staging_lines() {
    let r = parse_bootc_progress("Staging deployment for switch");
    assert_eq!(
        r,
        Some(BootcProgress::Status("Staging deployment…".to_string()))
    );
}

#[test]
fn progress_prefers_fraction_over_status_when_both_match() {
    let r = parse_bootc_progress("Pulling 4/8 layers");
    assert_eq!(
        r,
        Some(BootcProgress::Fraction {
            current: 4,
            total: 8
        })
    );
}

#[test]
fn progress_ignores_unrelated_lines() {
    assert_eq!(parse_bootc_progress(""), None);
    assert_eq!(parse_bootc_progress("   "), None);
    assert_eq!(parse_bootc_progress("info: starting bootc switch"), None);
}
