//! The list of deployments.

use finupdate::history_list::{
    get_sample_deployments, history_row, read_key, rebuild_history_list, KeyAction,
    MockDeployment, RowAction,
};

fn deployment(id: &str, state: &str) -> MockDeployment {
    MockDeployment {
        id: id.to_string(),
        state: state.to_string(),
        title: "Bluefin".to_string(),
        image: "bluefin".to_string(),
        tag: "stable".to_string(),
        digest: "sha256:0123456789".to_string(),
        deployed: "today".to_string(),
        deployed_full: "2026-05-27 04:30".to_string(),
        size: "3 GB".to_string(),
        kernel: "6.14".to_string(),
        package_count: 1234,
        signer: "ublue".to_string(),
        pinned: false,
    }
}

#[test]
fn no_deployments_where_none_can_be_read() {
    assert!(get_sample_deployments(None).is_empty());
    assert_eq!(get_sample_deployments(Some(vec![deployment("a", "current")])).len(), 1);
}

#[test]
fn actions_fit_the_state() {
    let actions = |state: &str| history_row(&deployment("a", state), None).actions;
    assert_eq!(actions("current"), [RowAction::ViewChangelog]);
    assert_eq!(actions("staged"), [RowAction::SetDefaultBoot, RowAction::ViewChangelog]);
    assert_eq!(actions("remote"), [RowAction::Pull, RowAction::ViewChangelog]);
    for state in ["previous", "archived"] {
        assert_eq!(
            actions(state),
            [RowAction::RollBack, RowAction::SetDefaultBoot, RowAction::ViewChangelog]
        );
    }
    let quick = |state: &str| history_row(&deployment("a", state), None).quick_action;
    assert_eq!(quick("current"), None);
    assert_eq!(quick("staged"), None);
    assert_eq!(quick("remote"), Some(RowAction::Pull));
    assert_eq!(quick("previous"), Some(RowAction::RollBack));
}

#[test]
fn pills_and_marks_tell_the_state() {
    let mut d = deployment("a", "current");
    d.pinned = true;
    let row = history_row(&d, None);
    let pills: Vec<(&str, &str)> = row.pills.iter().map(|p| (p.label, p.class)).collect();
    assert_eq!(pills, [("Booted", "success"), ("Pinned", "warning")]);
    assert_eq!(row.indicator, "deploy-indicator-current");
    assert_eq!(row.pin_tooltip, Some("Unpin"));
    let row = history_row(&deployment("a", "remote"), None);
    assert_eq!(row.indicator, "deploy-indicator-staged");
    assert_eq!(row.pills[0].label, "Remote");
    assert_eq!(row.pin_tooltip, None);
    let row = history_row(&deployment("a", "archived"), None);
    assert_eq!(row.indicator, "deploy-indicator-archive");
    assert!(row.pills.is_empty());
    assert_eq!(row.pin_tooltip, Some("Pin"));
    assert_eq!(history_row(&deployment("a", "staged"), None).pills[0].label, "Staged");
}

#[test]
fn subtitle_shows_the_beginning_of_the_digest() {
    let row = history_row(&deployment("a", "current"), None);
    assert_eq!(row.subtitle, "bluefin:stable  ·  sha256:01234…  ·  today");
    let mut d = deployment("a", "current");
    d.digest = "short".to_string();
    assert_eq!(history_row(&d, None).subtitle, "bluefin:stable  ·  short…  ·  today");
}

#[test]
fn details_are_listed() {
    let row = history_row(&deployment("a", "current"), None);
    let details: Vec<(&str, &str)> =
        row.details.iter().map(|d| (d.label, d.value.as_str())).collect();
    assert_eq!(
        details,
        [
            ("Image", "bluefin"),
            ("Tag", "stable"),
            ("Digest", "sha256:0123456789"),
            ("Deployed", "2026-05-27 04:30"),
            ("Kernel", "6.14"),
            ("Packages", "1234 installed"),
            ("Signature", "✓ Verified  ·  ublue"),
        ]
    );
}

#[test]
fn one_row_is_open() {
    let list = vec![deployment("a", "current"), deployment("b", "previous")];
    let rows = rebuild_history_list(&list, Some("b"));
    assert_eq!(rows.len(), 2);
    assert!(!rows[0].expanded);
    assert_eq!(rows[0].chevron_icon, "go-down-symbolic");
    assert_eq!(rows[0].chevron_label, "Show details");
    assert!(rows[1].expanded);
    assert_eq!(rows[1].chevron_icon, "go-up-symbolic");
    assert_eq!(rows[1].chevron_label, "Hide details");
    assert_eq!(rows[1].expand_key, "expand:b");
    assert!(rebuild_history_list(&list, None).iter().all(|r| !r.expanded));
}

#[test]
fn keys_open_close_and_pin() {
    let list = vec![deployment("a", "current"), deployment("b", "previous")];
    let open = |id: &str| KeyAction::Open(Some(id.to_string()));
    assert_eq!(read_key("expand:b", &list, None), open("b"));
    assert_eq!(read_key("expand:b", &list, Some("a")), open("b"));
    assert_eq!(read_key("expand:b", &list, Some("b")), KeyAction::Open(None));
    assert_eq!(read_key("b", &list, Some("b")), KeyAction::Pin(1));
    assert_eq!(read_key("powerwash", &list, None), KeyAction::Nothing);
}
