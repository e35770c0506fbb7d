//! Lists of packages, and how two of them differ.

use finupdate::sbom_diff::{
    diff_packages, parse_sbom, parse_spdx, PackageDiff, PackageMap, SpdxDocument, SpdxPackage,
    SyftArtifact, SyftDocument,
};
use finupdate::sbom_source::cache_path;
use serde_json::Value;

fn map(entries: &[(&str, &str)]) -> PackageMap {
    let mut m = PackageMap::new();
    for (k, v) in entries {
        m.insert((*k).to_string(), (*v).to_string());
    }
    m
}

fn text(v: &Value, key: &str) -> Option<String> {
    v.get(key).and_then(|x| x.as_str()).map(|x| x.to_string())
}

fn list(blob: &[u8], key: &str) -> Option<Option<Vec<Value>>> {
    let doc: Value = serde_json::from_slice(blob).ok()?;
    Some(doc.get(key).and_then(|x| x.as_array()).cloned())
}

fn syft(blob: &[u8]) -> Option<SyftDocument> {
    let artifacts = list(blob, "artifacts")?.map(|v| {
        v.iter()
            .map(|a| SyftArtifact {
                name: text(a, "name").unwrap(),
                version: text(a, "version"),
            })
            .collect()
    });
    Some(SyftDocument { artifacts })
}

fn spdx(blob: &[u8]) -> Option<SpdxDocument> {
    let packages = list(blob, "packages")?.map(|v| {
        v.iter()
            .map(|p| SpdxPackage {
                name: text(p, "name").unwrap(),
                version_info: text(p, "versionInfo"),
                spdx_id: text(p, "SPDXID"),
            })
            .collect()
    });
    Some(SpdxDocument { packages })
}

#[test]
fn diff_identical_maps_yields_no_changes() {
    let m = map(&[("kernel", "7.0.7"), ("bash", "5.2.32")]);
    let result = diff_packages(&m, &m);
    assert!(result.upgraded.is_empty());
    assert!(result.added.is_empty());
    assert!(result.removed.is_empty());
}

#[test]
fn diff_detects_version_upgrade() {
    let booted = map(&[("kernel", "7.0.6")]);
    let target = map(&[("kernel", "7.0.7")]);
    let r = diff_packages(&booted, &target);
    assert_eq!(
        r.upgraded,
        vec![PackageDiff {
            name: "kernel".into(),
            old_version: "7.0.6".into(),
            new_version: "7.0.7".into(),
        }]
    );
    assert!(r.added.is_empty());
    assert!(r.removed.is_empty());
}

#[test]
fn diff_detects_added_and_removed_packages() {
    let booted = map(&[("kernel", "7.0.6"), ("old-tool", "1.0")]);
    let target = map(&[("kernel", "7.0.6"), ("new-tool", "2.0")]);
    let r = diff_packages(&booted, &target);
    assert!(r.upgraded.is_empty());
    assert_eq!(r.removed, vec!["old-tool".to_string()]);
    assert_eq!(
        r.added,
        vec![PackageDiff {
            name: "new-tool".into(),
            old_version: String::new(),
            new_version: "2.0".into(),
        }]
    );
}

#[test]
fn diff_outputs_are_sorted_alphabetically() {
    let booted = map(&[("zlib", "1.3"), ("apr", "1.7"), ("middle", "1.0")]);
    let target = map(&[("zlib", "1.4"), ("apr", "1.8"), ("middle", "1.0")]);
    let r = diff_packages(&booted, &target);
    let names: Vec<_> = r.upgraded.iter().map(|p| p.name.as_str()).collect();
    assert_eq!(names, vec!["apr", "zlib"]);
}

#[test]
fn diff_unchanged_package_excluded_from_upgraded() {
    let booted = map(&[("stable", "1.0"), ("changed", "1.0")]);
    let target = map(&[("stable", "1.0"), ("changed", "2.0")]);
    let r = diff_packages(&booted, &target);
    assert_eq!(r.upgraded.len(), 1);
    assert_eq!(r.upgraded[0].name, "changed");
}

#[test]
fn parse_spdx_extracts_name_and_version() {
    let json = br#"{
        "packages": [
            {"name": "kernel", "versionInfo": "7.0.7"},
            {"name": "bash", "versionInfo": "5.2.32"}
        ]
    }"#;
    let m = parse_spdx(&spdx(json)).unwrap();
    assert_eq!(m.get("kernel"), Some(&"7.0.7".to_string()));
    assert_eq!(m.get("bash"), Some(&"5.2.32".to_string()));
}

#[test]
fn parse_spdx_merges_duplicates_intelligently() {
    let json = br#"{
        "packages": [
            {"name": "linux", "versionInfo": "6.8.0-git-commit-hash-long-hex-32chars", "SPDXID": "SPDXRef-other.bst"},
            {"name": "linux", "versionInfo": "6.8.9", "SPDXID": "SPDXRef-components-linux.bst"},
            {"name": "linux", "versionInfo": "unknown", "SPDXID": "SPDXRef-components-linux.bst"},
            {"name": "systemd", "versionInfo": "255.4-1.fc40", "SPDXID": "SPDXRef-systemd.bst"},
            {"name": "systemd", "versionInfo": "255.4", "SPDXID": "SPDXRef-systemd-base.bst"}
        ]
    }"#;
    let m = parse_spdx(&spdx(json)).unwrap();
    assert_eq!(m.get("linux"), Some(&"6.8.9".to_string()));
    assert_eq!(m.get("systemd"), Some(&"255.4".to_string()));
}

#[test]
fn parse_spdx_treats_missing_version_as_unknown() {
    let json = br#"{"packages": [{"name": "mystery"}]}"#;
    let m = parse_spdx(&spdx(json)).unwrap();
    assert_eq!(m.get("mystery"), Some(&"unknown".to_string()));
}

#[test]
fn parse_spdx_rejects_package_less_documents() {
    assert!(parse_spdx(&spdx(br#"{"packages": []}"#)).is_none());
    assert!(parse_spdx(&spdx(br#"{}"#)).is_none());
}

#[test]
fn parse_spdx_rejects_malformed_json() {
    assert!(parse_spdx(&spdx(b"not json")).is_none());
}

#[test]
fn cache_path_replaces_colons() {
    let p = cache_path("/tmp/sbom", "sha256:abc123");
    assert!(p.ends_with("sha256_abc123"));
}

#[test]
fn splits_downgrades_out_of_upgrades() {
    let booted = map(&[
        ("gnome-shell", "50.3-1.fc44"),
        ("bootc", "1.15.1-1.fc43"),
        ("mesa", "26.1.4-4.fc44"),
    ]);
    let target = map(&[
        ("gnome-shell", "49.7-1.fc43"),
        ("bootc", "1.16.3-1.fc44"),
        ("mesa", "26.1.4-4.fc44"),
    ]);

    let d = diff_packages(&booted, &target);

    assert_eq!(
        d.upgraded
            .iter()
            .map(|p| p.name.as_str())
            .collect::<Vec<_>>(),
        ["bootc"]
    );
    assert_eq!(
        d.downgraded
            .iter()
            .map(|p| p.name.as_str())
            .collect::<Vec<_>>(),
        ["gnome-shell"]
    );
    assert!(d.removed.is_empty() && d.added.is_empty());
}

#[test]
fn unorderable_versions_are_not_called_downgrades() {
    let booted = map(&[("weird", "")]);
    let target = map(&[("weird", "deadbeef")]);
    let d = diff_packages(&booted, &target);
    assert!(d.downgraded.is_empty());
    assert_eq!(d.upgraded.len(), 1);
}

#[test]
fn parses_syft_artifacts() {
    let blob = br#"{
        "artifacts": [
            {"name": "7zip", "version": "26.02-1.fc44", "type": "rpm"},
            {"name": "bash", "version": "5.3.0-1.fc44", "type": "rpm"}
        ],
        "schema": {"version": "16.0.0"}
    }"#;
    let map = parse_sbom(&syft(blob), &spdx(blob)).expect("syft document should parse");
    assert_eq!(map.get("7zip").map(String::as_str), Some("26.02-1.fc44"));
    assert_eq!(map.len(), 2);
}

#[test]
fn still_parses_spdx_packages() {
    let blob = br#"{
        "packages": [
            {"name": "bash", "versionInfo": "5.3.0-1.fc44", "SPDXID": "SPDXRef-1"}
        ]
    }"#;
    let map = parse_sbom(&syft(blob), &spdx(blob)).expect("spdx document should parse");
    assert_eq!(map.get("bash").map(String::as_str), Some("5.3.0-1.fc44"));
}

#[test]
fn unknown_format_is_none_not_empty() {
    assert!(parse_sbom(&syft(br#"{"componenets": []}"#), &spdx(br#"{"componenets": []}"#)).is_none());
    assert!(parse_sbom(&syft(br#"{"artifacts": []}"#), &spdx(br#"{"artifacts": []}"#)).is_none());
    assert!(parse_sbom(&syft(b"not json at all"), &spdx(b"not json at all")).is_none());
}
