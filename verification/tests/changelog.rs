//! What is new: addresses, commits, and the images that are compared.

use finupdate::changelog::{
    booted_ref, commits_to_show, commits_url, compared, image_commits_url, image_to_ask,
    newest_ref, start_comparison, tags_to_show, target_ref, Commit, SbomStatus,
};
use finupdate::date::{from_ymd_opt, UtcTime};
use finupdate::json::parse;
use finupdate::registry_client::detection::MockIdentity;
use finupdate::registry_client::{AvailableTag, ImageVersion};

fn commit(sha: &str, message: &str) -> Commit {
    Commit {
        sha: sha.to_string(),
        message: message.to_string(),
        author: "someone".to_string(),
        date: "2026-05-27T00:00:00Z".to_string(),
    }
}

fn version(full_ref: &str, day: u32) -> ImageVersion {
    let date = from_ymd_opt(2026, 5, day).unwrap();
    ImageVersion {
        date,
        full_ref: full_ref.to_string(),
        version: String::new(),
        kernel: String::new(),
        revision: String::new(),
        created: UtcTime { date, seconds_of_day: 0, nanos: 0 },
    }
}

fn mock(digest: Option<&str>) -> MockIdentity {
    MockIdentity {
        registry: "ghcr.io".to_string(),
        org: "ublue-os".to_string(),
        image: "aurora".to_string(),
        tag: "stable".to_string(),
        digest: digest.map(|d| d.to_string()),
    }
}

#[test]
fn registry_is_asked_about_the_stream_of_the_tag() {
    let i = image_to_ask("ghcr.io/ublue-os/bluefin", "stable-daily-43.20260527").unwrap();
    assert_eq!(i.registry, "ghcr.io");
    assert_eq!(i.org, "ublue-os");
    assert_eq!(i.image, "bluefin");
    assert_eq!(i.tag, "stable-daily-43");
    assert_eq!(i.digest, "");
    let nested = image_to_ask("ghcr.io/ublue-os/a/b", "latest").unwrap();
    assert_eq!(nested.image, "a/b");
    assert_eq!(nested.tag, "latest");
    assert!(image_to_ask("ublue-os/bluefin", "latest").is_none());
}

#[test]
fn commits_are_listed_where_github_has_them() {
    assert_eq!(
        commits_url("ublue-os", "bluefin"),
        "https://api.github.com/repos/ublue-os/bluefin/commits"
    );
    assert_eq!(
        image_commits_url("ghcr.io/ublue-os/bluefin").as_deref(),
        Some("https://api.github.com/repos/ublue-os/bluefin/commits")
    );
    assert!(image_commits_url("bluefin").is_none());
}

#[test]
fn features_come_first_and_keep_their_order() {
    let image = vec![commit("1", "fix: a"), commit("2", "feat: b"), commit("3", "chore: c")];
    let common = vec![commit("4", "feat: d"), commit("5", "fix: e"), commit("6", "feat: f")];
    let shown: Vec<String> =
        commits_to_show(Some(image), Some(common)).into_iter().map(|c| c.sha).collect();
    assert_eq!(shown, ["2", "4", "6", "1", "3"]);
    let only = commits_to_show(None, Some(vec![commit("7", "feat: g"), commit("8", "docs: h")]));
    assert_eq!(only.len(), 1);
    assert!(commits_to_show(None, None).is_empty());
    assert_eq!(commits_to_show(Some(vec![commit("9", "a feat: b")]), None).len(), 1);
}

#[test]
fn newest_version_is_the_first() {
    let list = vec![version("new", 27), version("old", 1)];
    assert_eq!(newest_ref(&list).as_deref(), Some("new"));
    assert!(newest_ref(&vec![]).is_none());
}

#[test]
fn empty_list_of_tags_is_not_shown() {
    let tag = AvailableTag { display: "latest".to_string(), raw: "latest".to_string() };
    assert_eq!(tags_to_show(Some(vec![tag.clone()])), Some(vec![tag]));
    assert_eq!(tags_to_show(Some(vec![])), None);
    assert_eq!(tags_to_show(None), None);
}

#[test]
fn target_falls_back_to_the_selected_tag() {
    assert_eq!(target_ref(Some("x:y".to_string()), "ghcr.io/a/b", "latest"), "x:y");
    assert_eq!(target_ref(None, "ghcr.io/a/b", "latest"), "ghcr.io/a/b:latest");
}

#[test]
fn booted_image_is_named_as_exactly_as_it_is_known() {
    let uri = "ghcr.io/ublue-os/bluefin";
    assert_eq!(
        booted_ref(Some(&mock(Some("sha256:1"))), None, uri, "latest"),
        "ghcr.io/ublue-os/aurora@sha256:1"
    );
    assert_eq!(booted_ref(Some(&mock(None)), None, uri, "latest"), "ghcr.io/ublue-os/aurora:stable");
    assert_eq!(booted_ref(None, None, uri, "latest"), "ghcr.io/ublue-os/bluefin:latest");
    let status = parse(
        br#"{"status":{"booted":{"image":{"image":{"image":"ghcr.io/a/b:c"},"imageDigest":"sha256:9"}}}}"#,
    )
    .unwrap();
    assert_eq!(booted_ref(None, Some(&status), uri, "latest"), "ghcr.io/a/b:c@sha256:9");
    let older =
        parse(br#"{"status":{"booted":{"image":{"image":"ghcr.io/a/b:c","imageDigest":"d"}}}}"#)
            .unwrap();
    assert_eq!(booted_ref(None, Some(&older), uri, "latest"), "ghcr.io/a/b:c@d");
    let bare = parse(br#"{"status":{"booted":{"image":{"image":"ghcr.io/a/b:c"}}}}"#).unwrap();
    assert_eq!(booted_ref(None, Some(&bare), uri, "latest"), "ghcr.io/ublue-os/bluefin:latest");
}

#[test]
fn an_image_is_not_compared_with_itself() {
    assert_eq!(start_comparison("a:1", "a:1"), None);
    assert_eq!(start_comparison("a:1", "a:2"), Some(SbomStatus::Loading));
    assert_eq!(compared(true), SbomStatus::Loaded);
    assert_eq!(compared(false), SbomStatus::NotAvailable);
}
