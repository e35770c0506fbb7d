//! Where a bill of materials is found and kept.

use finupdate::paths::{cache_dir, join_path};
use finupdate::sbom_diff::{extract_stack_info, is_newer_version, PackageMap};
use finupdate::sbom_source::{
    accept_cached, diff_known, find_spdx_referrer, repository_of, sbom_layer, AttachedManifest,
    ReferrerEntry,
};

fn packages(entries: &[(&str, &str)]) -> PackageMap {
    let mut m = PackageMap::new();
    for (k, v) in entries {
        m.insert(k.to_string(), v.to_string());
    }
    m
}

fn entry(digest: &str, artifact_type: Option<&str>) -> ReferrerEntry {
    ReferrerEntry {
        digest: digest.to_string(),
        artifact_type: artifact_type.map(|t| t.to_string()),
    }
}

#[test]
fn reference_names_its_repository() {
    let r = repository_of("ghcr.io/ublue-os/bluefin:stable").unwrap();
    assert_eq!((r.registry.as_str(), r.name.as_str()), ("ghcr.io", "ublue-os/bluefin"));
    let r = repository_of("ghcr.io/a/b@sha256:0123456789012345678901234567890123456789012345678901234567890123").unwrap();
    assert_eq!(r.name, "a/b");
    assert!(repository_of("").is_none());
    assert!(repository_of("ghcr.io/UPPER/case:tag").is_none());
}

#[test]
fn attachments_stand_under_a_tag_made_of_the_digest() {
    let r = repository_of("ghcr.io/ublue-os/bluefin:stable").unwrap();
    assert_eq!(
        r.referrers_url("sha256:abc"),
        "https://ghcr.io/v2/ublue-os/bluefin/manifests/sha256-abc"
    );
    assert_eq!(
        r.token_url().as_deref(),
        Some("https://ghcr.io/token?service=ghcr.io&scope=repository:ublue-os/bluefin:pull")
    );
    assert!(repository_of("quay.io/a/b:c").unwrap().token_url().is_none());
}

#[test]
fn first_entry_of_the_right_type_is_taken() {
    let list = vec![
        entry("a", None),
        entry("b", Some("application/json")),
        entry("c", Some("application/vnd.spdx+json")),
        entry("d", Some("application/vnd.spdx+json")),
    ];
    assert_eq!(find_spdx_referrer(&list).as_deref(), Some("c"));
    assert!(find_spdx_referrer(&vec![entry("a", None)]).is_none());
}

#[test]
fn document_is_the_first_layer() {
    let image = AttachedManifest::Image(vec!["one".to_string(), "two".to_string()]);
    assert_eq!(sbom_layer(&image).as_deref(), Some("one"));
    assert!(sbom_layer(&AttachedManifest::Image(vec![])).is_none());
    assert!(sbom_layer(&AttachedManifest::Index).is_none());
}

#[test]
fn empty_cache_is_no_answer() {
    assert!(accept_cached(packages(&[])).is_none());
    assert_eq!(accept_cached(packages(&[("a", "1")])).unwrap().len(), 1);
}

#[test]
fn two_known_images_can_be_compared() {
    let d = diff_known(Some(packages(&[("a", "1")])), Some(packages(&[("b", "1")]))).unwrap();
    assert_eq!(d.removed, ["a"]);
    assert_eq!(d.added[0].name, "b");
    assert!(diff_known(None, Some(packages(&[("b", "1")]))).is_none());
    assert!(diff_known(Some(packages(&[("b", "1")])), None).is_none());
}

#[test]
fn caches_live_below_the_cache_directory() {
    assert_eq!(
        cache_dir(Some("/c"), Some("/home/u"), "sbom-cache"),
        "/c/finupdate/sbom-cache"
    );
    assert_eq!(
        cache_dir(None, Some("/home/u"), "registry-cache"),
        "/home/u/.cache/finupdate/registry-cache"
    );
    assert_eq!(cache_dir(None, None, "k"), "/tmp/.cache/finupdate/k");
    assert_eq!(join_path("/a/", "b"), "/a/b");
    assert_eq!(join_path("/a", "/b"), "/b");
    assert_eq!(join_path("", "b"), "b");
}

#[test]
fn better_versions_replace_worse_ones() {
    let hash = "0123456789abcdef0123456789abcdef";
    assert!(!is_newer_version("x", "unknown", "", "1.0", ""));
    assert!(is_newer_version("x", "1.0", "", "unknown", ""));
    assert!(is_newer_version("x", "1.0", "", hash, ""));
    assert!(!is_newer_version("x", hash, "", "1.0", ""));
    assert!(is_newer_version("mesa", "1", "mesa-mesa.bst", "1", "mesa.bst"));
    assert!(!is_newer_version("mesa", "1", "mesa.bst", "1", "mesa-mesa.bst"));
    assert!(is_newer_version("pipewire", "1", "pipewire.bst", "1", "x"));
    assert!(is_newer_version("x", "1.0", "", "10", ""));
    assert!(!is_newer_version("x", "10", "", "1.0", ""));
    assert!(!is_newer_version("x", "1.0", "", "1.1", ""));
}

#[test]
fn stack_shows_components_that_are_known() {
    let booted = packages(&[("linux", "6.1"), ("mesa", "unknown"), ("bash", "5")]);
    let target = packages(&[("linux", "6.2"), ("systemd", "255"), ("mesa", "")]);
    let stack = extract_stack_info(&booted, &target);
    assert_eq!(stack.get("Kernel"), Some(&("6.1".to_string(), "6.2".to_string())));
    assert_eq!(stack.get("systemd"), Some(&(String::new(), "255".to_string())));
    assert!(stack.get("Mesa").is_none());
    assert_eq!(stack.len(), 2);
}
