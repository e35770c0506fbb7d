//! Tags: which of them are commit hashes, and which carry a date.

use finupdate::date::from_ymd_opt;
use finupdate::registry_client::tags::{is_sha_only_tag, parse_dated_tag, strip_date_suffix};

#[test]
fn is_sha_only_tag_accepts_40_hex() {
    assert!(is_sha_only_tag("fc308c8515de8b2f134bc0cbe756cc738c4870e1"));
}

#[test]
fn is_sha_only_tag_rejects_short_sha() {
    assert!(!is_sha_only_tag("fc308c8"));
}

#[test]
fn is_sha_only_tag_rejects_long_sha() {
    assert!(!is_sha_only_tag(&"a".repeat(41)));
}

#[test]
fn is_sha_only_tag_rejects_uppercase() {
    assert!(!is_sha_only_tag("FC308C8515DE8B2F134BC0CBE756CC738C4870E1"));
}

#[test]
fn is_sha_only_tag_rejects_non_hex() {
    let mut t = "g".to_string();
    t.push_str(&"0".repeat(39));
    assert!(!is_sha_only_tag(&t));
}

#[test]
fn is_sha_only_tag_rejects_dated_form() {
    assert!(!is_sha_only_tag("stable-daily-43.20260222"));
}

#[test]
fn strip_date_suffix_dot_form() {
    assert_eq!(
        strip_date_suffix("stable-daily-43.20260222"),
        Some("stable-daily-43".to_string())
    );
}

#[test]
fn strip_date_suffix_dash_form() {
    assert_eq!(
        strip_date_suffix("stable-daily-43-20260222"),
        Some("stable-daily-43".to_string())
    );
}

#[test]
fn strip_date_suffix_rejects_non_date_suffix() {
    assert_eq!(strip_date_suffix("latest"), None);
    assert_eq!(strip_date_suffix("stable-daily"), None);
    assert_eq!(strip_date_suffix("stable.notadate"), None);
}

#[test]
fn strip_date_suffix_rejects_wrong_length() {
    assert_eq!(strip_date_suffix("stream-1234567"), None);
    assert_eq!(strip_date_suffix("stream-123456789"), None);
}

#[test]
fn strip_date_suffix_rejects_non_digit_chars() {
    assert_eq!(strip_date_suffix("stream-2026022x"), None);
}

#[test]
fn parse_dated_tag_dot_separator() {
    let d = parse_dated_tag("stable-daily-43.20260222", "stable-daily-43").unwrap();
    assert_eq!(d, from_ymd_opt(2026, 2, 22).unwrap());
}

#[test]
fn parse_dated_tag_dash_separator() {
    let d = parse_dated_tag("stable-daily-43-20260222", "stable-daily-43").unwrap();
    assert_eq!(d, from_ymd_opt(2026, 2, 22).unwrap());
}

#[test]
fn parse_dated_tag_rejects_unrelated_tag() {
    assert!(parse_dated_tag("latest", "stable-daily-43").is_none());
    assert!(parse_dated_tag("dev-daily-20260222", "stable-daily").is_none());
}

#[test]
fn mod_parse_dated_tag_rejects_invalid_calendar_date() {
    assert!(parse_dated_tag("stable.20260230", "stable").is_none());
}

#[test]
fn parse_dated_tag_bluefin_stable_daily_dot() {
    let d = parse_dated_tag("stable-daily-43.20260222", "stable").unwrap();
    assert_eq!(d, from_ymd_opt(2026, 2, 22).unwrap());
}

#[test]
fn parse_dated_tag_bluefin_version_qualified_dot() {
    let d = parse_dated_tag("43-43.20260222", "43").unwrap();
    assert_eq!(d, from_ymd_opt(2026, 2, 22).unwrap());
}

#[test]
fn parse_dated_tag_bluefin_lts_hwe_dot() {
    let d = parse_dated_tag("lts-hwe.20260224", "lts").unwrap();
    assert_eq!(d, from_ymd_opt(2026, 2, 24).unwrap());
}

#[test]
fn parse_dated_tag_bluefin_lts_hwe_dash() {
    let d = parse_dated_tag("lts-hwe-20260224", "lts").unwrap();
    assert_eq!(d, from_ymd_opt(2026, 2, 24).unwrap());
}

#[test]
fn parse_dated_tag_bazzite_sub_revision() {
    let d = parse_dated_tag("testing-43.20260308.1", "testing").unwrap();
    assert_eq!(d, from_ymd_opt(2026, 3, 8).unwrap());
}

#[test]
fn parse_dated_tag_bazzite_no_sub_revision() {
    let d = parse_dated_tag("testing-43.20260301", "testing").unwrap();
    assert_eq!(d, from_ymd_opt(2026, 3, 1).unwrap());
}

#[test]
fn parse_dated_tag_dakota_latest_dot() {
    let d = parse_dated_tag("latest.20260114", "latest").unwrap();
    assert_eq!(d, from_ymd_opt(2026, 1, 14).unwrap());
}

#[test]
fn parse_dated_tag_dakota_bare_date() {
    let d = parse_dated_tag("20260114", "latest").unwrap();
    assert_eq!(d, from_ymd_opt(2026, 1, 14).unwrap());
}

#[test]
fn parse_dated_tag_bare_date_empty_stream() {
    let d = parse_dated_tag("20260114", "").unwrap();
    assert_eq!(d, from_ymd_opt(2026, 1, 14).unwrap());
}

#[test]
fn parse_dated_tag_bare_date_rejected_for_qualified_stream() {
    assert!(parse_dated_tag("20260114", "stable").is_none());
}

#[test]
fn parse_dated_tag_rejects_other_family() {
    assert!(parse_dated_tag("gts-daily-42.20260527", "stable").is_none());
}

#[test]
fn parse_dated_tag_rejects_long_sub_revision() {
    assert!(parse_dated_tag("testing-43.20260308.55555", "testing").is_none());
}

#[test]
fn parse_dated_tag_does_not_strip_date_as_sub_revision() {
    let d = parse_dated_tag("stable.20260527", "stable").unwrap();
    assert_eq!(d, from_ymd_opt(2026, 5, 27).unwrap());
}

#[test]
fn strip_date_suffix_strips_sub_revision() {
    assert_eq!(
        strip_date_suffix("testing-43.20260308.1"),
        Some("testing-43".to_string())
    );
}

#[test]
fn strip_date_suffix_bare_date_returns_none() {
    assert_eq!(strip_date_suffix("20260114"), None);
}

#[test]
fn strip_date_suffix_does_not_strip_non_date_as_sub_revision() {
    assert_eq!(
        strip_date_suffix("stable.20260527"),
        Some("stable".to_string())
    );
}

#[test]
fn tags_sha_only_tag_true_for_40_lowercase_hex() {
    let sha = "a".repeat(40);
    assert!(is_sha_only_tag(&sha));
    let mixed = "0123456789abcdef".repeat(2) + "01234567";
    assert_eq!(mixed.len(), 40);
    assert!(is_sha_only_tag(&mixed));
}

#[test]
fn tags_sha_only_tag_false_for_wrong_length() {
    assert!(!is_sha_only_tag(&"a".repeat(39)));
    assert!(!is_sha_only_tag(&"a".repeat(41)));
    assert!(!is_sha_only_tag(""));
}

#[test]
fn tags_sha_only_tag_false_for_uppercase_hex() {
    assert!(!is_sha_only_tag(&"A".repeat(40)));
}

#[test]
fn tags_sha_only_tag_false_for_non_hex_chars() {
    let mut s = "a".repeat(39);
    s.push('g');
    assert!(!is_sha_only_tag(&s));
}

#[test]
fn tags_parse_dated_tag_bare_date_for_latest_or_empty_stream() {
    assert_eq!(
        parse_dated_tag("20260114", "latest"),
        from_ymd_opt(2026, 1, 14)
    );
    assert_eq!(
        parse_dated_tag("20260114", ""),
        from_ymd_opt(2026, 1, 14)
    );
}

#[test]
fn tags_parse_dated_tag_bare_date_rejected_for_other_streams() {
    assert_eq!(parse_dated_tag("20260114", "stable"), None);
}

#[test]
fn tags_parse_dated_tag_stream_suffixed_prefix_match() {
    assert_eq!(
        parse_dated_tag("stable-daily-43.20260222", "stable"),
        from_ymd_opt(2026, 2, 22)
    );
    assert_eq!(
        parse_dated_tag("lts-hwe-20260224", "lts"),
        from_ymd_opt(2026, 2, 24)
    );
    assert_eq!(
        parse_dated_tag("latest.20260527", "latest"),
        from_ymd_opt(2026, 5, 27)
    );
}

#[test]
fn tags_parse_dated_tag_sub_revision_stripped() {
    assert_eq!(
        parse_dated_tag("testing-43.20260308.1", "testing"),
        from_ymd_opt(2026, 3, 8)
    );
    assert_eq!(
        parse_dated_tag("stable-43.20260301.2", "stable"),
        from_ymd_opt(2026, 3, 1)
    );
}

#[test]
fn tags_parse_dated_tag_exact_stream_match() {
    assert_eq!(
        parse_dated_tag("stable-20260301", "stable"),
        from_ymd_opt(2026, 3, 1)
    );
}

#[test]
fn tags_parse_dated_tag_dot_separator_not_confused_with_sub_revision() {
    assert_eq!(
        parse_dated_tag("stable.20260527", "stable"),
        from_ymd_opt(2026, 5, 27)
    );
}

#[test]
fn tags_parse_dated_tag_rejects_non_matching_stream() {
    assert_eq!(parse_dated_tag("stable-daily-43.20260222", "testing"), None);
}

#[test]
fn tags_parse_dated_tag_rejects_invalid_calendar_date() {
    assert_eq!(parse_dated_tag("stable-20261301", "stable"), None);
}

#[test]
fn tags_parse_dated_tag_none_when_no_date_present() {
    assert_eq!(parse_dated_tag("latest", "latest"), None);
    assert_eq!(parse_dated_tag("", "latest"), None);
}

#[test]
fn tags_strip_date_suffix_stream_suffixed() {
    assert_eq!(
        strip_date_suffix("stable-daily-43.20260527"),
        Some("stable-daily-43".to_string())
    );
    assert_eq!(
        strip_date_suffix("lts-hwe-20260224"),
        Some("lts-hwe".to_string())
    );
}

#[test]
fn tags_strip_date_suffix_sub_revision_stripped() {
    assert_eq!(
        strip_date_suffix("testing-43.20260308.1"),
        Some("testing-43".to_string())
    );
}

#[test]
fn tags_strip_date_suffix_none_for_undated_or_bare_tags() {
    assert_eq!(strip_date_suffix("latest"), None);
    assert_eq!(strip_date_suffix("20260114"), None);
}

#[test]
fn test_tags_sha_only_tag_true_for_40_lowercase_hex() {
    let sha = "a".repeat(40);
    assert!(is_sha_only_tag(&sha));
    let mixed = "0123456789abcdef".repeat(2) + "01234567";
    assert_eq!(mixed.len(), 40);
    assert!(is_sha_only_tag(&mixed));
}

#[test]
fn test_tags_sha_only_tag_false_for_wrong_length() {
    assert!(!is_sha_only_tag(&"a".repeat(39)));
    assert!(!is_sha_only_tag(&"a".repeat(41)));
    assert!(!is_sha_only_tag(""));
}

#[test]
fn test_tags_sha_only_tag_false_for_uppercase_hex() {
    assert!(!is_sha_only_tag(&"A".repeat(40)));
}

#[test]
fn test_tags_sha_only_tag_false_for_non_hex_chars() {
    let mut s = "a".repeat(39);
    s.push('g');
    assert!(!is_sha_only_tag(&s));
}

#[test]
fn test_tags_parse_dated_tag_bare_date_for_latest_or_empty_stream() {
    assert_eq!(
        parse_dated_tag("20260114", "latest"),
        from_ymd_opt(2026, 1, 14)
    );
    assert_eq!(
        parse_dated_tag("20260114", ""),
        from_ymd_opt(2026, 1, 14)
    );
}

#[test]
fn test_tags_parse_dated_tag_bare_date_rejected_for_other_streams() {
    assert_eq!(parse_dated_tag("20260114", "stable"), None);
}

#[test]
fn test_tags_parse_dated_tag_stream_suffixed_prefix_match() {
    assert_eq!(
        parse_dated_tag("stable-daily-43.20260222", "stable"),
        from_ymd_opt(2026, 2, 22)
    );
    assert_eq!(
        parse_dated_tag("lts-hwe-20260224", "lts"),
        from_ymd_opt(2026, 2, 24)
    );
    assert_eq!(
        parse_dated_tag("latest.20260527", "latest"),
        from_ymd_opt(2026, 5, 27)
    );
}

#[test]
fn test_tags_parse_dated_tag_sub_revision_stripped() {
    assert_eq!(
        parse_dated_tag("testing-43.20260308.1", "testing"),
        from_ymd_opt(2026, 3, 8)
    );
    assert_eq!(
        parse_dated_tag("stable-43.20260301.2", "stable"),
        from_ymd_opt(2026, 3, 1)
    );
}

#[test]
fn test_tags_parse_dated_tag_exact_stream_match() {
    assert_eq!(
        parse_dated_tag("stable-20260301", "stable"),
        from_ymd_opt(2026, 3, 1)
    );
}

#[test]
fn test_tags_parse_dated_tag_dot_separator_not_confused_with_sub_revision() {
    assert_eq!(
        parse_dated_tag("stable.20260527", "stable"),
        from_ymd_opt(2026, 5, 27)
    );
}

#[test]
fn test_tags_parse_dated_tag_rejects_non_matching_stream() {
    assert_eq!(parse_dated_tag("stable-daily-43.20260222", "testing"), None);
}

#[test]
fn test_tags_parse_dated_tag_rejects_invalid_calendar_date() {
    assert_eq!(parse_dated_tag("stable-20261301", "stable"), None);
}

#[test]
fn test_tags_parse_dated_tag_none_when_no_date_present() {
    assert_eq!(parse_dated_tag("latest", "latest"), None);
    assert_eq!(parse_dated_tag("", "latest"), None);
}

#[test]
fn test_tags_strip_date_suffix_stream_suffixed() {
    assert_eq!(
        strip_date_suffix("stable-daily-43.20260527"),
        Some("stable-daily-43".to_string())
    );
    assert_eq!(
        strip_date_suffix("lts-hwe-20260224"),
        Some("lts-hwe".to_string())
    );
}

#[test]
fn test_tags_strip_date_suffix_sub_revision_stripped() {
    assert_eq!(
        strip_date_suffix("testing-43.20260308.1"),
        Some("testing-43".to_string())
    );
}

#[test]
fn test_tags_strip_date_suffix_none_for_undated_or_bare_tags() {
    assert_eq!(strip_date_suffix("latest"), None);
    assert_eq!(strip_date_suffix("20260114"), None);
}
