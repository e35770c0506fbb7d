//! Properties that relate several functions, on values.

use finupdate::rebase_target::{derive_initial_toggle_state, resolve_dx_nvidia_with_stream};
use finupdate::registry_client::client::{parse_image_ref, RegistryClient};
use finupdate::registry_client::tags::{parse_dated_tag, strip_date_suffix};
use finupdate::registry_client::versions::{plan_versions, VersionPlan};
use finupdate::registry_client::{known_families, Family};
use finupdate::sbom_diff::{diff_packages, PackageMap};
use finupdate::service::{resolve_target, FamilyInfo, ImageRef};
use finupdate::version_compare::{classify, rpmvercmp, VersionChange};
use finupdate::version_parse::parse_org_repo;
use std::cmp::Ordering;

fn packages(entries: &[(&str, &str)]) -> PackageMap {
    let mut m = PackageMap::new();
    for (k, v) in entries {
        m.insert(k.to_string(), v.to_string());
    }
    m
}

fn info(f: &Family) -> FamilyInfo {
    FamilyInfo {
        name: f.name.to_string(),
        base_image: f.base_image().to_string(),
        streams: f.streams.iter().map(|s| s.to_string()).collect(),
        features: vec![],
    }
}

#[test]
fn way_back_reverses_what_moved() {
    let a = packages(&[("gone", "1"), ("down", "2.0"), ("up", "1.0"), ("same", "3")]);
    let b = packages(&[("new", "1"), ("down", "1.0"), ("up", "2.0"), ("same", "3")]);
    let there = diff_packages(&a, &b);
    let back = diff_packages(&b, &a);
    assert_eq!(there.removed, ["gone"]);
    assert_eq!(back.added[0].name, "gone");
    assert_eq!(there.added[0].name, "new");
    assert_eq!(back.removed, ["new"]);
    assert_eq!(there.downgraded[0].name, "down");
    assert_eq!(back.upgraded[0].name, "down");
    assert_eq!(there.upgraded[0].name, "up");
    assert_eq!(back.downgraded[0].name, "up");
    let none = diff_packages(&a, &a);
    assert!(none.upgraded.is_empty() && none.downgraded.is_empty());
    assert!(none.added.is_empty() && none.removed.is_empty());
}

#[test]
fn change_undone_is_the_opposite() {
    assert_eq!(classify("1.0", "1.1"), VersionChange::Upgrade);
    assert_eq!(classify("1.1", "1.0"), VersionChange::Downgrade);
    assert_eq!(classify("", "1.0"), VersionChange::Unknown);
    assert_eq!(classify("1.0", ""), VersionChange::Unknown);
}

#[test]
fn separators_and_leading_zeros_make_no_difference() {
    assert_eq!(rpmvercmp("1.2.3", "1_2_3"), Ordering::Equal);
    assert_eq!(rpmvercmp("1.02", "1.2"), Ordering::Equal);
    assert_eq!(rpmvercmp("1..2", "1.2"), Ordering::Equal);
}

#[test]
fn features_may_be_asked_for_in_any_order() {
    for f in known_families() {
        let all = f.available_features();
        for a in &all {
            for b in &all {
                assert_eq!(
                    f.select_image_for_features(&[a, b]),
                    f.select_image_for_features(&[b, a])
                );
            }
        }
    }
}

#[test]
fn switches_show_what_they_led_to() {
    for f in known_families() {
        let family = info(&f);
        for dx in [false, true] {
            for nvidia in [false, true] {
                let (_, target) = resolve_dx_nvidia_with_stream(&family, dx, nvidia, "x");
                if let Some(image) = target {
                    assert_eq!(
                        derive_initial_toggle_state(&family, Some(&image)),
                        (dx, nvidia),
                        "{}",
                        image.image
                    );
                    assert!(f.images.contains(&image.image.as_str()));
                    assert_eq!(image.tag, "x");
                }
            }
        }
    }
}

#[test]
fn target_has_the_first_stream_of_its_family() {
    for f in known_families() {
        let target: ImageRef = resolve_target(&info(&f), &[]).unwrap();
        assert_eq!(target.full_ref(), format!("ghcr.io/{}/{}:{}", f.org, f.images[0], f.streams[0]));
    }
}

#[test]
fn reference_reads_back_as_its_stream() {
    let c = RegistryClient::new("ghcr.io", "ublue-os", "nested/bluefin", "stable-daily-43");
    for sep in [".", "-"] {
        let full = c.full_ref(&format!("stable-daily-43{sep}20260527"));
        let back = parse_image_ref(&full).unwrap();
        assert_eq!(
            (back.registry(), back.org(), back.image(), back.stream()),
            (c.registry(), c.org(), c.image(), c.stream())
        );
    }
}

#[test]
fn date_of_a_tag_does_not_depend_on_the_stream() {
    let tag = "stable-daily-43.20260527.1";
    let date = parse_dated_tag(tag, "stable-daily-43").unwrap();
    assert_eq!(parse_dated_tag(tag, "stable"), Some(date));
    assert_eq!(parse_dated_tag("stable-daily-43.20260527", "stable"), Some(date));
    assert_eq!(strip_date_suffix(tag).as_deref(), Some("stable-daily-43"));
    let hash = "20260527".repeat(5);
    assert_eq!(parse_dated_tag(&hash, ""), None);
    assert_eq!(strip_date_suffix(&hash), None);
}

#[test]
fn offered_builds_are_the_most_recent() {
    let tags: Vec<String> = (1..=9).map(|d| format!("s.2026010{d}")).collect();
    for max in 1..12 {
        match plan_versions(&tags, "s", max, vec![], None) {
            VersionPlan::Fetch(list) => {
                let days: Vec<u32> = list.iter().map(|(d, _)| d.day).collect();
                let expected: Vec<u32> = (1..=9).rev().take(max).collect();
                assert_eq!(days, expected);
            }
            other => panic!("got {other:?}"),
        }
    }
}

#[test]
fn transport_mark_changes_nothing() {
    for uri in ["ghcr.io/a/b", "a/b", "ghcr.io/a/b/c", "a"] {
        assert_eq!(parse_org_repo(&format!("docker://{uri}")), parse_org_repo(uri));
    }
}

#[test]
fn image_is_reached_from_its_own_features() {
    for f in known_families() {
        let available = f.available_features();
        for image in f.images {
            let mut features: Vec<&str> = match image.strip_prefix(f.base_image()) {
                Some("") => Vec::new(),
                Some(rest) => rest[1..].split('-').collect(),
                None => panic!("{image} is not named after its base"),
            };
            assert!(features.iter().all(|x| available.contains(x)), "{image}");
            assert_eq!(f.select_image_for_features(&features), Some(*image));
            features.reverse();
            assert_eq!(f.select_image_for_features(&features), Some(*image));
        }
    }
}
