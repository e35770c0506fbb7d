//! Addresses of images.

use finupdate::version_parse::parse_org_repo;

#[test]
fn parse_org_repo_ghcr_three_parts() {
    let r = parse_org_repo("ghcr.io/ublue-os/bluefin");
    assert_eq!(r, Some(("ublue-os".to_string(), "bluefin".to_string())));
}

#[test]
fn parse_org_repo_two_parts() {
    let r = parse_org_repo("ublue-os/bluefin");
    assert_eq!(r, Some(("ublue-os".to_string(), "bluefin".to_string())));
}

#[test]
fn parse_org_repo_strips_docker_prefix() {
    let r = parse_org_repo("docker://ghcr.io/ublue-os/bluefin");
    assert_eq!(r, Some(("ublue-os".to_string(), "bluefin".to_string())));
}

#[test]
fn parse_org_repo_handles_nested_path() {
    let r = parse_org_repo("ghcr.io/ublue-os/sub/bluefin");
    assert_eq!(r, Some(("ublue-os".to_string(), "sub/bluefin".to_string())));
}

#[test]
fn parse_org_repo_rejects_single_segment() {
    assert!(parse_org_repo("bluefin").is_none());
}
