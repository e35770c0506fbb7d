//! References of images.

use finupdate::registry_client::client::parse_image_ref;

#[test]
fn parse_image_ref_full_ghcr_with_dot_date() {
    let c = parse_image_ref("ghcr.io/ublue-os/bluefin:stable-daily-43.20260222").unwrap();
    assert_eq!(c.registry(), "ghcr.io");
    assert_eq!(c.org(), "ublue-os");
    assert_eq!(c.image(), "bluefin");
    assert_eq!(c.stream(), "stable-daily-43");
}

#[test]
fn parse_image_ref_full_ghcr_with_dash_date() {
    let c = parse_image_ref("ghcr.io/projectbluefin/dakota:latest-20260527").unwrap();
    assert_eq!(c.stream(), "latest");

    let c2 = parse_image_ref("ghcr.io/projectbluefin/dakota:testing-20260527").unwrap();
    assert_eq!(c2.stream(), "testing");
}

#[test]
fn parse_image_ref_rejects_missing_org_or_image() {
    assert!(parse_image_ref("ghcr.io:tag").is_none());
    assert!(parse_image_ref("ghcr.io/org:tag").is_none());
}

#[test]
fn parse_image_ref_rejects_tag_without_date() {
    assert!(parse_image_ref("ghcr.io/ublue-os/bluefin:latest").is_none());
}

#[test]
fn parse_image_ref_handles_nested_image_path() {
    let c =
        parse_image_ref("ghcr.io/ublue-os/bluefin-dx/extras:stable-daily.20260222").unwrap();
    assert_eq!(c.image(), "bluefin-dx/extras");
}
