//! The image that a switch leads to.

use finupdate::rebase_target::{
    derive_initial_toggle_state, resolve_dx_nvidia, resolve_target_ref,
};
use finupdate::service::{FamilyInfo, ImageRef};

fn family(name: &str, base_image: &str) -> FamilyInfo {
    FamilyInfo {
        name: name.to_string(),
        base_image: base_image.to_string(),
        streams: vec![],
        features: vec![],
    }
}

fn bluefin_stable_info() -> FamilyInfo {
    family("Bluefin Stable", "bluefin")
}

fn dakota_info() -> FamilyInfo {
    family("Bluefin Dakota", "dakota")
}

fn bazzite_kde_info() -> FamilyInfo {
    family("Bazzite KDE", "bazzite")
}

fn image_ref(image: &str) -> ImageRef {
    ImageRef {
        registry: "ghcr.io".to_string(),
        org: "ublue-os".to_string(),
        image: image.to_string(),
        tag: "stable".to_string(),
        digest: String::new(),
    }
}

#[test]
fn rebase_dialog_resolve_passthrough_with_no_family() {
    let r = resolve_target_ref(
        "ghcr.io/ublue-os/bluefin:stable-daily-43.20260527",
        None,
        &[],
    );
    assert_eq!(r, "ghcr.io/ublue-os/bluefin:stable-daily-43.20260527");
}

#[test]
fn rebase_dialog_resolve_no_features_keeps_base_image() {
    let fam = bluefin_stable_info();
    let r = resolve_target_ref(
        "ghcr.io/ublue-os/bluefin:stable-daily-43.20260527",
        Some(&fam),
        &[],
    );
    assert_eq!(r, "ghcr.io/ublue-os/bluefin:stable-daily-43.20260527");
}

#[test]
fn rebase_dialog_resolve_swaps_image_to_nvidia_variant() {
    let fam = bluefin_stable_info();
    let r = resolve_target_ref(
        "ghcr.io/ublue-os/bluefin:stable-daily-43.20260527",
        Some(&fam),
        &["nvidia".to_string()],
    );
    assert_eq!(
        r,
        "ghcr.io/ublue-os/bluefin-nvidia:stable-daily-43.20260527"
    );
}

#[test]
fn rebase_dialog_resolve_combines_dx_and_nvidia() {
    let fam = bluefin_stable_info();
    let r = resolve_target_ref(
        "ghcr.io/ublue-os/bluefin:stable",
        Some(&fam),
        &["dx".to_string(), "nvidia".to_string()],
    );
    assert_eq!(r, "ghcr.io/ublue-os/bluefin-dx-nvidia:stable");
}

#[test]
fn rebase_dialog_resolve_unpublished_combination_falls_back() {
    let fam = bluefin_stable_info();
    let original = "ghcr.io/ublue-os/bluefin:stable";
    let r = resolve_target_ref(original, Some(&fam), &["open".to_string()]);
    assert_eq!(r, original);
}

#[test]
fn rebase_dialog_resolve_handles_missing_tag() {
    let fam = bluefin_stable_info();
    let r = resolve_target_ref(
        "ghcr.io/ublue-os/bluefin",
        Some(&fam),
        &["nvidia".to_string()],
    );
    assert_eq!(r, "ghcr.io/ublue-os/bluefin");
}

#[test]
fn rebase_dialog_dx_nvidia_both_off_returns_base() {
    let (feats, img) = resolve_dx_nvidia(&bluefin_stable_info(), false, false);
    assert_eq!(feats, Vec::<String>::new());
    assert_eq!(img.unwrap().image, "bluefin");
}

#[test]
fn rebase_dialog_dx_nvidia_dx_only_resolves_dx() {
    let (feats, img) = resolve_dx_nvidia(&bluefin_stable_info(), true, false);
    assert_eq!(feats, vec!["dx".to_string()]);
    assert_eq!(img.unwrap().image, "bluefin-dx");
}

#[test]
fn rebase_dialog_dx_nvidia_nvidia_only_on_bluefin_prefers_open() {
    let (feats, img) = resolve_dx_nvidia(&bluefin_stable_info(), false, true);
    assert_eq!(feats, vec!["nvidia".to_string(), "open".to_string()]);
    assert_eq!(img.unwrap().image, "bluefin-nvidia-open");
}

#[test]
fn rebase_dialog_dx_nvidia_both_on_bluefin_yields_dx_nvidia_open() {
    let (feats, img) = resolve_dx_nvidia(&bluefin_stable_info(), true, true);
    assert_eq!(
        feats,
        vec!["dx".to_string(), "nvidia".to_string(), "open".to_string()]
    );
    assert_eq!(img.unwrap().image, "bluefin-dx-nvidia-open");
}

#[test]
fn rebase_dialog_dx_nvidia_nvidia_on_dakota_falls_back_to_plain_nvidia() {
    let (feats, img) = resolve_dx_nvidia(&dakota_info(), false, true);
    assert_eq!(feats, vec!["nvidia".to_string()]);
    assert_eq!(img.unwrap().image, "dakota-nvidia");
}

#[test]
fn rebase_dialog_dx_nvidia_nvidia_on_bazzite_prefers_open() {
    let (feats, img) = resolve_dx_nvidia(&bazzite_kde_info(), false, true);
    assert_eq!(feats, vec!["nvidia".to_string(), "open".to_string()]);
    assert_eq!(img.unwrap().image, "bazzite-nvidia-open");
}

#[test]
fn rebase_dialog_dx_nvidia_dx_on_dakota_has_no_published_image() {
    let (feats, img) = resolve_dx_nvidia(&dakota_info(), true, false);
    assert_eq!(feats, vec!["dx".to_string()]);
    assert!(img.is_none());
}

#[test]
fn rebase_dialog_initial_toggles_no_image_returns_off() {
    let (dx, nvidia) = derive_initial_toggle_state(&bluefin_stable_info(), None);
    assert!(!dx);
    assert!(!nvidia);
}

#[test]
fn rebase_dialog_initial_toggles_base_image_returns_off() {
    let img = image_ref("bluefin");
    let (dx, nvidia) = derive_initial_toggle_state(&bluefin_stable_info(), Some(&img));
    assert!(!dx);
    assert!(!nvidia);
}

#[test]
fn rebase_dialog_initial_toggles_dx_only() {
    let img = image_ref("bluefin-dx");
    let (dx, nvidia) = derive_initial_toggle_state(&bluefin_stable_info(), Some(&img));
    assert!(dx);
    assert!(!nvidia);
}

#[test]
fn rebase_dialog_initial_toggles_plain_nvidia() {
    let img = image_ref("bluefin-nvidia");
    let (dx, nvidia) = derive_initial_toggle_state(&bluefin_stable_info(), Some(&img));
    assert!(!dx);
    assert!(nvidia);
}

#[test]
fn rebase_dialog_initial_toggles_nvidia_open() {
    let img = image_ref("bluefin-nvidia-open");
    let (dx, nvidia) = derive_initial_toggle_state(&bluefin_stable_info(), Some(&img));
    assert!(!dx);
    assert!(nvidia);
}

#[test]
fn rebase_dialog_initial_toggles_dx_and_nvidia_open() {
    let img = image_ref("bluefin-dx-nvidia-open");
    let (dx, nvidia) = derive_initial_toggle_state(&bluefin_stable_info(), Some(&img));
    assert!(dx);
    assert!(nvidia);
}

#[test]
fn rebase_dialog_initial_toggles_unrelated_image_returns_off() {
    let img = image_ref("aurora-dx");
    let (dx, nvidia) = derive_initial_toggle_state(&bluefin_stable_info(), Some(&img));
    assert!(!dx);
    assert!(!nvidia);
}

#[test]
fn rebase_dialog_initial_toggles_dakota_plain_nvidia() {
    let img = ImageRef {
        registry: "ghcr.io".to_string(),
        org: "projectbluefin".to_string(),
        image: "dakota-nvidia".to_string(),
        tag: "latest".to_string(),
        digest: String::new(),
    };
    let (dx, nvidia) = derive_initial_toggle_state(&dakota_info(), Some(&img));
    assert!(!dx);
    assert!(nvidia);
}

#[test]
fn tests_resolve_passthrough_with_no_family() {
    let r = resolve_target_ref(
        "ghcr.io/ublue-os/bluefin:stable-daily-43.20260527",
        None,
        &[],
    );
    assert_eq!(r, "ghcr.io/ublue-os/bluefin:stable-daily-43.20260527");
}

#[test]
fn tests_resolve_no_features_keeps_base_image() {
    let fam = bluefin_stable_info();
    let r = resolve_target_ref(
        "ghcr.io/ublue-os/bluefin:stable-daily-43.20260527",
        Some(&fam),
        &[],
    );
    assert_eq!(r, "ghcr.io/ublue-os/bluefin:stable-daily-43.20260527");
}

#[test]
fn tests_resolve_swaps_image_to_nvidia_variant() {
    let fam = bluefin_stable_info();
    let r = resolve_target_ref(
        "ghcr.io/ublue-os/bluefin:stable-daily-43.20260527",
        Some(&fam),
        &["nvidia".to_string()],
    );
    assert_eq!(
        r,
        "ghcr.io/ublue-os/bluefin-nvidia:stable-daily-43.20260527"
    );
}

#[test]
fn tests_resolve_combines_dx_and_nvidia() {
    let fam = bluefin_stable_info();
    let r = resolve_target_ref(
        "ghcr.io/ublue-os/bluefin:stable",
        Some(&fam),
        &["dx".to_string(), "nvidia".to_string()],
    );
    assert_eq!(r, "ghcr.io/ublue-os/bluefin-dx-nvidia:stable");
}

#[test]
fn tests_resolve_unpublished_combination_falls_back() {
    let fam = bluefin_stable_info();
    let original = "ghcr.io/ublue-os/bluefin:stable";
    let r = resolve_target_ref(original, Some(&fam), &["open".to_string()]);
    assert_eq!(r, original);
}

#[test]
fn tests_resolve_handles_missing_tag() {
    let fam = bluefin_stable_info();
    let r = resolve_target_ref(
        "ghcr.io/ublue-os/bluefin",
        Some(&fam),
        &["nvidia".to_string()],
    );
    assert_eq!(r, "ghcr.io/ublue-os/bluefin");
}

#[test]
fn tests_dx_nvidia_both_off_returns_base() {
    let (feats, img) = resolve_dx_nvidia(&bluefin_stable_info(), false, false);
    assert_eq!(feats, Vec::<String>::new());
    assert_eq!(img.unwrap().image, "bluefin");
}

#[test]
fn tests_dx_nvidia_dx_only_resolves_dx() {
    let (feats, img) = resolve_dx_nvidia(&bluefin_stable_info(), true, false);
    assert_eq!(feats, vec!["dx".to_string()]);
    assert_eq!(img.unwrap().image, "bluefin-dx");
}

#[test]
fn tests_dx_nvidia_nvidia_only_on_bluefin_prefers_open() {
    let (feats, img) = resolve_dx_nvidia(&bluefin_stable_info(), false, true);
    assert_eq!(feats, vec!["nvidia".to_string(), "open".to_string()]);
    assert_eq!(img.unwrap().image, "bluefin-nvidia-open");
}

#[test]
fn tests_dx_nvidia_both_on_bluefin_yields_dx_nvidia_open() {
    let (feats, img) = resolve_dx_nvidia(&bluefin_stable_info(), true, true);
    assert_eq!(
        feats,
        vec!["dx".to_string(), "nvidia".to_string(), "open".to_string()]
    );
    assert_eq!(img.unwrap().image, "bluefin-dx-nvidia-open");
}

#[test]
fn tests_dx_nvidia_nvidia_on_dakota_falls_back_to_plain_nvidia() {
    let (feats, img) = resolve_dx_nvidia(&dakota_info(), false, true);
    assert_eq!(feats, vec!["nvidia".to_string()]);
    assert_eq!(img.unwrap().image, "dakota-nvidia");
}

#[test]
fn tests_dx_nvidia_nvidia_on_bazzite_prefers_open() {
    let (feats, img) = resolve_dx_nvidia(&bazzite_kde_info(), false, true);
    assert_eq!(feats, vec!["nvidia".to_string(), "open".to_string()]);
    assert_eq!(img.unwrap().image, "bazzite-nvidia-open");
}

#[test]
fn tests_dx_nvidia_dx_on_dakota_has_no_published_image() {
    let (feats, img) = resolve_dx_nvidia(&dakota_info(), true, false);
    assert_eq!(feats, vec!["dx".to_string()]);
    assert!(img.is_none());
}

#[test]
fn tests_initial_toggles_no_image_returns_off() {
    let (dx, nvidia) = derive_initial_toggle_state(&bluefin_stable_info(), None);
    assert!(!dx);
    assert!(!nvidia);
}

#[test]
fn tests_initial_toggles_base_image_returns_off() {
    let img = image_ref("bluefin");
    let (dx, nvidia) = derive_initial_toggle_state(&bluefin_stable_info(), Some(&img));
    assert!(!dx);
    assert!(!nvidia);
}

#[test]
fn tests_initial_toggles_dx_only() {
    let img = image_ref("bluefin-dx");
    let (dx, nvidia) = derive_initial_toggle_state(&bluefin_stable_info(), Some(&img));
    assert!(dx);
    assert!(!nvidia);
}

#[test]
fn tests_initial_toggles_plain_nvidia() {
    let img = image_ref("bluefin-nvidia");
    let (dx, nvidia) = derive_initial_toggle_state(&bluefin_stable_info(), Some(&img));
    assert!(!dx);
    assert!(nvidia);
}

#[test]
fn tests_initial_toggles_nvidia_open() {
    let img = image_ref("bluefin-nvidia-open");
    let (dx, nvidia) = derive_initial_toggle_state(&bluefin_stable_info(), Some(&img));
    assert!(!dx);
    assert!(nvidia);
}

#[test]
fn tests_initial_toggles_dx_and_nvidia_open() {
    let img = image_ref("bluefin-dx-nvidia-open");
    let (dx, nvidia) = derive_initial_toggle_state(&bluefin_stable_info(), Some(&img));
    assert!(dx);
    assert!(nvidia);
}

#[test]
fn tests_initial_toggles_unrelated_image_returns_off() {
    let img = image_ref("aurora-dx");
    let (dx, nvidia) = derive_initial_toggle_state(&bluefin_stable_info(), Some(&img));
    assert!(!dx);
    assert!(!nvidia);
}

#[test]
fn tests_initial_toggles_dakota_plain_nvidia() {
    let img = ImageRef {
        registry: "ghcr.io".to_string(),
        org: "projectbluefin".to_string(),
        image: "dakota-nvidia".to_string(),
        tag: "latest".to_string(),
        digest: String::new(),
    };
    let (dx, nvidia) = derive_initial_toggle_state(&dakota_info(), Some(&img));
    assert!(!dx);
    assert!(nvidia);
}
