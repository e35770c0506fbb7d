//! Image families and their features.

use finupdate::registry_client::Family;

#[test]
fn family_best_match_disambiguates_bluefin_stable_vs_lts_by_stream() {
    let stable = Family::best_match("ublue-os", "bluefin", "stable").unwrap();
    assert_eq!(stable.name, "Bluefin Stable");

    let lts = Family::best_match("ublue-os", "bluefin", "lts").unwrap();
    assert_eq!(lts.name, "Bluefin LTS");

    let lts_hwe = Family::best_match("ublue-os", "bluefin", "lts-hwe").unwrap();
    assert_eq!(lts_hwe.name, "Bluefin LTS");
}

#[test]
fn family_best_match_falls_back_to_first_when_stream_unknown() {
    let f = Family::best_match("ublue-os", "bluefin", "moonshot-fictional").unwrap();
    assert_eq!(f.name, "Bluefin Stable");
}

#[test]
fn family_best_match_finds_aurora_by_image_alone() {
    let f = Family::best_match("ublue-os", "aurora", "stable").unwrap();
    assert_eq!(f.name, "Aurora");
    assert!(f.images.contains(&"aurora-nvidia"));
}

#[test]
fn family_best_match_finds_bazzite_gnome_separately_from_kde() {
    let kde = Family::best_match("ublue-os", "bazzite", "stable").unwrap();
    assert_eq!(kde.name, "Bazzite KDE");

    let gnome = Family::best_match("ublue-os", "bazzite-gnome", "stable").unwrap();
    assert_eq!(gnome.name, "Bazzite GNOME");
}

#[test]
fn family_best_match_returns_none_for_unknown_image() {
    assert!(Family::best_match("ublue-os", "totally-fake-image", "stable").is_none());
}

#[test]
fn family_base_image_is_first_in_list() {
    let bluefin = Family::best_match("ublue-os", "bluefin", "stable").unwrap();
    assert_eq!(bluefin.base_image(), "bluefin");
    let dakota = Family::best_match("projectbluefin", "dakota", "latest").unwrap();
    assert_eq!(dakota.base_image(), "dakota");
}

#[test]
fn family_available_features_lists_atomic_suffixes() {
    let bluefin = Family::best_match("ublue-os", "bluefin", "stable").unwrap();
    let feats = bluefin.available_features();
    assert!(feats.contains(&"nvidia"));
    assert!(feats.contains(&"open"));
    assert!(feats.contains(&"dx"));
    assert!(feats.contains(&"asus"));
    assert!(feats.contains(&"surface"));
    assert!(feats.contains(&"framework"));
    let mut sorted = feats.clone();
    sorted.sort();
    assert_eq!(feats, sorted);
}

#[test]
fn family_select_image_for_features_resolves_combinations() {
    let bluefin = Family::best_match("ublue-os", "bluefin", "stable").unwrap();

    assert_eq!(bluefin.select_image_for_features(&[]), Some("bluefin"));
    assert_eq!(
        bluefin.select_image_for_features(&["nvidia"]),
        Some("bluefin-nvidia")
    );
    assert_eq!(
        bluefin.select_image_for_features(&["dx"]),
        Some("bluefin-dx")
    );
    assert_eq!(
        bluefin.select_image_for_features(&["dx", "nvidia"]),
        Some("bluefin-dx-nvidia")
    );
    assert_eq!(
        bluefin.select_image_for_features(&["nvidia", "dx"]),
        Some("bluefin-dx-nvidia")
    );
    assert_eq!(
        bluefin.select_image_for_features(&["dx", "nvidia", "open"]),
        Some("bluefin-dx-nvidia-open")
    );
}

#[test]
fn family_select_image_for_features_returns_none_for_invalid_combo() {
    let bluefin = Family::best_match("ublue-os", "bluefin", "stable").unwrap();
    assert!(bluefin.select_image_for_features(&["open"]).is_none());
    assert!(
        bluefin
            .select_image_for_features(&["dx", "framework"])
            .is_none()
    );
}

#[test]
fn family_select_image_for_dakota_features() {
    let dakota = Family::best_match("projectbluefin", "dakota", "latest").unwrap();
    assert_eq!(dakota.select_image_for_features(&[]), Some("dakota"));
    assert_eq!(
        dakota.select_image_for_features(&["nvidia"]),
        Some("dakota-nvidia")
    );

    let dakota_testing = Family::best_match("projectbluefin", "dakota", "testing").unwrap();
    assert_eq!(dakota_testing.name, "Bluefin Dakota");
}

#[test]
fn family_all_for_image_returns_both_bluefin_families() {
    let families = Family::all_for_image("ublue-os", "bluefin");
    let names: Vec<&str> = families.iter().map(|f| f.name).collect();
    assert!(names.contains(&"Bluefin Stable"));
    assert!(names.contains(&"Bluefin LTS"));
}
