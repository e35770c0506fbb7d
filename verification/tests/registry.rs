//! What a registry publishes: addresses, detection, metadata and lists.

use finupdate::date::{from_ymd_opt, Date, UtcTime};
use finupdate::json::parse;
use finupdate::registry_client::client::{cache_key, is_fresh, parse_override, stream_for_tag};
use finupdate::registry_client::detection::{
    detect_from_os_release, first_action, from_bootc_output, next_action, status_command,
    CommandOutput, DetectAction, DetectEvent, MockIdentity,
};
use finupdate::registry_client::metadata::{
    build_time, complete, config_digest, config_url, created_date, image_version, needs_labels,
    read_annotations, version_from, Metadata,
};
use finupdate::registry_client::search::{
    SearchAction, SearchEvent, TagAction, TagEvent, TagSearch, VersionSearch,
};
use finupdate::registry_client::versions::{
    dated_candidates, floating_published, group_tags, hashes_to_probe, latest_only, list_tags,
    order_versions, plan_versions, tag_hashes_to_probe, VersionPlan,
};
use finupdate::registry_client::{known_families, ImageVersion, RegistryClient, RegistryError};

fn strings(list: &[&str]) -> Vec<String> {
    list.iter().map(|s| s.to_string()).collect()
}

fn day(month: u32, d: u32) -> Date {
    from_ymd_opt(2026, month, d).unwrap()
}

fn version(date: Date, name: &str) -> ImageVersion {
    ImageVersion {
        date,
        full_ref: format!("ghcr.io/a/b:{name}"),
        version: name.to_string(),
        kernel: String::new(),
        revision: String::new(),
        created: UtcTime { date, seconds_of_day: 0, nanos: 0 },
    }
}

const HASH_A: &str = "aaaaaaaaaaaaaaaaaaaaaaaaaaaaaaaaaaaaaaaa";
const HASH_B: &str = "bbbbbbbbbbbbbbbbbbbbbbbbbbbbbbbbbbbbbbbb";

#[test]
fn addresses_name_the_repository() {
    let c = RegistryClient::new("ghcr.io", "ublue-os", "bluefin", "stable");
    assert_eq!(c.tags_url(), "https://ghcr.io/v2/ublue-os/bluefin/tags/list?n=1000");
    assert_eq!(c.manifest_url("gts"), "https://ghcr.io/v2/ublue-os/bluefin/manifests/gts");
    assert_eq!(c.blob_url("sha256:1"), "https://ghcr.io/v2/ublue-os/bluefin/blobs/sha256:1");
    assert_eq!(
        c.token_url(),
        "https://ghcr.io/token?scope=repository:ublue-os/bluefin:pull&service=ghcr.io"
    );
    assert_eq!(c.full_ref("gts"), "ghcr.io/ublue-os/bluefin:gts");
}

#[test]
fn override_need_not_be_dated() {
    let c = parse_override("ghcr.io/ublue-os/bluefin:stable").unwrap();
    assert_eq!(c.stream(), "stable");
    let c = parse_override("ghcr.io/ublue-os/bluefin:stable.20260527").unwrap();
    assert_eq!(c.stream(), "stable");
    assert!(parse_override("ghcr.io/bluefin:stable").is_none());
    assert!(parse_override("nothing").is_none());
    assert_eq!(stream_for_tag("testing-43.20260308.1"), "testing-43");
    assert_eq!(stream_for_tag("testing"), "testing");
}

#[test]
fn cache_name_is_one_file_name() {
    assert_eq!(
        cache_key("localhost:5000", "a/b", "c", "s", "versions_8"),
        "v4_localhost_5000_a_b_c_s_versions_8"
    );
}

#[test]
fn cache_is_fresh_for_an_hour() {
    assert!(is_fresh(1000, 1000));
    assert!(is_fresh(4599, 1000));
    assert!(!is_fresh(4600, 1000));
    assert!(!is_fresh(999, 1000));
}

#[test]
fn detection_takes_the_first_source_that_answers() {
    let mock = MockIdentity {
        registry: "r".to_string(),
        org: "o".to_string(),
        image: "i".to_string(),
        tag: "s.20260527".to_string(),
        digest: None,
    };
    match first_action(Some(mock), Some("ghcr.io/a/b:c")) {
        DetectAction::Found(c) => assert_eq!((c.registry(), c.stream()), ("r", "s")),
        other => panic!("got {other:?}"),
    }
    match first_action(None, Some("ghcr.io/a/b:c")) {
        DetectAction::Found(c) => assert_eq!((c.org(), c.image(), c.stream()), ("a", "b", "c")),
        other => panic!("got {other:?}"),
    }
    assert!(matches!(first_action(None, Some("")), DetectAction::RunBootc));
    assert!(matches!(first_action(None, Some("bad")), DetectAction::RunBootc));
    assert!(matches!(first_action(None, None), DetectAction::RunBootc));
}

#[test]
fn detection_falls_back_step_by_step() {
    let output = |success: bool, stdout: &[u8]| {
        Some(CommandOutput { success, stdout: stdout.to_vec() })
    };
    let status = br#"{"status":{"booted":{"image":{"image":{"image":"ghcr.io/a/b:s.20260527"}}}}}"#;
    match next_action(DetectEvent::Bootc(output(true, status))) {
        DetectAction::Found(c) => assert_eq!(c.stream(), "s"),
        other => panic!("got {other:?}"),
    }
    assert!(matches!(
        next_action(DetectEvent::Bootc(output(false, status))),
        DetectAction::RunPrivilegedBootc
    ));
    assert!(matches!(
        next_action(DetectEvent::PrivilegedBootc(output(true, status))),
        DetectAction::Found(_)
    ));
    for event in [
        DetectEvent::Bootc(None),
        DetectEvent::Bootc(output(true, b"not json")),
        DetectEvent::PrivilegedBootc(None),
        DetectEvent::PrivilegedBootc(output(false, status)),
    ] {
        assert!(matches!(next_action(event), DetectAction::ReadOsRelease));
    }
    assert!(matches!(
        next_action(DetectEvent::OsRelease(Some("IMAGE_ID=dakota\nVERSION_ID=latest".to_string()))),
        DetectAction::Found(_)
    ));
    assert!(matches!(next_action(DetectEvent::OsRelease(None)), DetectAction::NotFound));
    assert!(matches!(
        next_action(DetectEvent::OsRelease(Some(String::new()))),
        DetectAction::NotFound
    ));
}

#[test]
fn status_document_names_the_booted_image() {
    let c = from_bootc_output(
        br#"{"status":{"booted":{"image":{"image":"ghcr.io/a/b/c:s-20260527"}}}}"#,
    )
    .unwrap();
    assert_eq!((c.registry(), c.org(), c.image(), c.stream()), ("ghcr.io", "a", "b/c", "s"));
    assert!(from_bootc_output(br#"{"status":{"booted":null}}"#).is_none());
    assert!(from_bootc_output(
        br#"{"status":{"booted":{"image":{"image":{"image":7}}}}}"#
    )
    .is_none());
    assert!(from_bootc_output(b"").is_none());
}

#[test]
fn status_is_asked_for_on_the_host() {
    assert_eq!(status_command(false, false), ["bootc", "status", "--json"]);
    assert_eq!(
        status_command(true, true),
        ["flatpak-spawn", "--host", "pkexec", "bootc", "status", "--json"]
    );
}

#[test]
fn os_release_names_the_image() {
    let c = detect_from_os_release(
        "NAME=x\nIMAGE_REF=\"ostree-image-signed:docker://ghcr.io/ublue-os/bluefin\"\nIMAGE_TAG=\"stable-daily-43.20260527\"\n",
    )
    .unwrap();
    assert_eq!(
        (c.registry(), c.org(), c.image(), c.stream()),
        ("ghcr.io", "ublue-os", "bluefin", "stable-daily-43")
    );
    let c = detect_from_os_release("IMAGE_REF=ghcr.io/a/b/c\n").unwrap();
    assert_eq!((c.image(), c.stream()), ("b/c", "latest"));
    let c = detect_from_os_release("IMAGE_ID=\"dakota\"\nVERSION_ID=43").unwrap();
    assert_eq!((c.org(), c.image(), c.stream()), ("projectbluefin", "dakota", "stable-daily-43"));
    let c = detect_from_os_release("IMAGE_ID=bazzite\nVERSION_ID=latest").unwrap();
    assert_eq!((c.registry(), c.org(), c.stream()), ("ghcr.io", "ublue-os", "latest"));
    assert!(detect_from_os_release("IMAGE_ID=dakota").is_none());
    assert!(detect_from_os_release("").is_none());
}

#[test]
fn manifest_annotations_describe_the_build() {
    let manifest = parse(
        br#"{"annotations":{
            "org.opencontainers.image.version":"43.20260527",
            "ostree.linux":"6.14",
            "org.opencontainers.image.revision":"0123456789abcdef",
            "org.opencontainers.image.created":"2026-05-27T06:30:00+02:00"
        },"config":{"digest":"sha256:c"}}"#,
    )
    .unwrap();
    let m = read_annotations(&manifest);
    assert!(!needs_labels(&m));
    assert_eq!(config_digest(&manifest).as_deref(), Some("sha256:c"));
    let v = version_from(&manifest, None, day(5, 27), "ghcr.io/a/b:c".to_string());
    assert_eq!(v.version, "43.20260527");
    assert_eq!(v.kernel, "6.14");
    assert_eq!(v.revision, "01234567");
    assert_eq!(v.full_ref, "ghcr.io/a/b:c");
    assert_eq!(
        v.created,
        UtcTime { date: day(5, 27), seconds_of_day: 4 * 3600 + 1800, nanos: 0 }
    );
}

#[test]
fn configuration_fills_in_what_the_manifest_leaves_out() {
    let manifest = parse(br#"{"annotations":{"ostree.linux":"6.1"}}"#).unwrap();
    let config = parse(
        br#"{"config":{"Labels":{
            "org.opencontainers.image.version":"v9",
            "ostree.linux":"9.9",
            "org.opencontainers.image.revision":"abc",
            "org.opencontainers.image.created":"2026-01-02T03:04:05.5Z",
            "other":5
        }}}"#,
    )
    .unwrap();
    let v = version_from(&manifest, Some(&config), day(5, 27), "r".to_string());
    assert_eq!((v.version.as_str(), v.kernel.as_str(), v.revision.as_str()), ("v9", "6.1", "abc"));
    assert_eq!(
        v.created,
        UtcTime { date: day(1, 2), seconds_of_day: 3 * 3600 + 4 * 60 + 5, nanos: 500_000_000 }
    );
}

#[test]
fn nothing_said_has_a_default() {
    for text in [
        &br#"{}"#[..],
        &br#"{"annotations":null}"#[..],
        &br#"{"annotations":{"org.opencontainers.image.version":7}}"#[..],
        &br#"[]"#[..],
    ] {
        let manifest = parse(text).unwrap();
        let v = version_from(&manifest, None, day(5, 27), "r".to_string());
        assert_eq!(v.version, "20260527");
        assert_eq!(v.kernel, "");
        assert_eq!(v.revision, "");
        assert_eq!(v.created, UtcTime { date: day(5, 27), seconds_of_day: 0, nanos: 0 });
    }
}

#[test]
fn placeholders_are_dropped() {
    let m = Metadata {
        version: Some("local-build".to_string()),
        kernel: Some(String::new()),
        revision: Some("local-build".to_string()),
        created: Some("2011-11-11T11:11:11Z".to_string()),
    };
    let m = complete(m, None);
    let built = build_time(m.created.as_deref());
    assert_eq!(built, None);
    let v = image_version(m, day(5, 27), "r".to_string(), built);
    assert_eq!(v.version, "20260527");
    assert_eq!(v.kernel, "");
    assert_eq!(v.revision, "");
}

#[test]
fn timestamps_are_read_in_utc() {
    let t = build_time(Some("2026-01-01T00:30:00+01:00")).unwrap();
    assert_eq!(t.date, from_ymd_opt(2025, 12, 31).unwrap());
    assert_eq!(t.seconds_of_day, 23 * 3600 + 1800);
    assert_eq!(build_time(Some("yesterday")), None);
    assert_eq!(build_time(None), None);
    let config = parse(br#"{"created":"2026-05-27T00:00:00Z"}"#).unwrap();
    assert_eq!(created_date(&config), Some(day(5, 27)));
    let placeholder = parse(br#"{"created":"2011-11-11T11:11:11Z"}"#).unwrap();
    assert_eq!(created_date(&placeholder), None);
    assert_eq!(created_date(&parse(br#"{"created":5}"#).unwrap()), None);
}

#[test]
fn configuration_stands_beside_the_manifest() {
    assert_eq!(
        config_url("https://ghcr.io/v2/a/b/manifests/latest", "sha256:c").as_deref(),
        Some("https://ghcr.io/v2/a/b/blobs/sha256:c")
    );
    assert!(config_url("https://ghcr.io/v2/a/b", "sha256:c").is_none());
}

#[test]
fn newest_builds_are_offered() {
    let all = strings(&["s.20260501", "s.20260527", "other.20260528", "latest", HASH_A, "s"]);
    assert_eq!(
        dated_candidates(&all, "s"),
        vec![(day(5, 27), "s.20260527".to_string()), (day(5, 1), "s.20260501".to_string())]
    );
    assert_eq!(hashes_to_probe(&all, 8), [HASH_A]);
    assert!(floating_published(&all, "s"));
    assert!(!floating_published(&all, "t"));
    let probed = vec![(day(5, 20), HASH_A.to_string())];
    match plan_versions(&all, "s", 2, probed.clone(), Some(day(5, 28))) {
        VersionPlan::Fetch(v) => assert_eq!(
            v,
            vec![(day(5, 28), "s".to_string()), (day(5, 27), "s.20260527".to_string())]
        ),
        other => panic!("got {other:?}"),
    }
    match plan_versions(&all, "s", 9, probed, Some(day(5, 27))) {
        VersionPlan::Fetch(v) => assert_eq!(
            v,
            vec![
                (day(5, 27), "s.20260527".to_string()),
                (day(5, 20), HASH_A.to_string()),
                (day(5, 1), "s.20260501".to_string()),
            ]
        ),
        other => panic!("got {other:?}"),
    }
    match plan_versions(&all, "s", 0, vec![], None) {
        VersionPlan::Fetch(v) => assert!(v.is_empty()),
        other => panic!("got {other:?}"),
    }
}

#[test]
fn latest_alone_is_the_last_resort() {
    assert!(matches!(
        plan_versions(&strings(&["latest", "x"]), "s", 8, vec![], None),
        VersionPlan::LatestOnly
    ));
    assert!(matches!(
        plan_versions(&strings(&["x"]), "s", 8, vec![], None),
        VersionPlan::NoTags
    ));
    assert_eq!(latest_only(Some(version(day(5, 1), "latest")), "s").unwrap().len(), 1);
    assert_eq!(latest_only(None, "s").unwrap_err(), RegistryError::NoTags("s".to_string()));
}

#[test]
fn many_hashes_are_sampled_evenly() {
    let all: Vec<String> = (0..250).map(|i| format!("{i:040x}")).collect();
    let probed = hashes_to_probe(&all, 8);
    assert_eq!(probed.len(), 120);
    assert_eq!(probed[0], all[0]);
    assert_eq!(probed[119], all[238]);
    assert_eq!(hashes_to_probe(&all, 200).len(), 200);
    assert_eq!(hashes_to_probe(&all, 250), all);
}

#[test]
fn nothing_is_offered_where_nothing_is_asked_for() {
    let c = RegistryClient::new("ghcr.io", "a", "b", "s");
    let listing = VersionSearch::start(c, 0).0.next(SearchEvent::Remembered(None)).0;
    let (search, action) =
        listing.next(SearchEvent::Tags(Ok(strings(&["latest", "s.20260501"]))));
    assert!(matches!(action, SearchAction::Fetch(list) if list.is_empty()));
    let (_, action) = search.next(SearchEvent::Fetched(vec![]));
    assert!(matches!(action, SearchAction::Found { builds, .. } if builds.is_empty()));
}

#[test]
fn versions_come_with_the_newest_first() {
    let list = vec![
        version(day(5, 3), "c"),
        version(day(5, 1), "a"),
        version(day(5, 3), "d"),
        version(day(5, 2), "b"),
    ];
    let names: Vec<String> = order_versions(list).into_iter().map(|v| v.version).collect();
    assert_eq!(names, ["c", "d", "b", "a"]);
}

#[test]
fn tags_are_grouped_and_listed() {
    let all = strings(&[
        "latest", "sha256:123", HASH_B, "s.20260501", "gts", "s.20260527", "t.20260101", HASH_A,
    ]);
    let groups = group_tags(&all, "s");
    assert_eq!(groups.channels, ["latest", "gts"]);
    assert_eq!(groups.hashes, [HASH_B, HASH_A]);
    assert_eq!(groups.dated.len(), 2);
    assert_eq!(tag_hashes_to_probe(&groups), [HASH_B, HASH_A]);
    let probed = vec![(day(4, 1), HASH_B.to_string()), (day(4, 2), HASH_A.to_string())];
    let shown: Vec<(String, String)> =
        list_tags(groups, probed).into_iter().map(|t| (t.display, t.raw)).collect();
    let expected = [
        ("gts", "gts"),
        ("latest", "latest"),
        ("s.20260527", "s.20260527"),
        ("s.20260501", "s.20260501"),
        ("Build 2026-04-02", HASH_A),
        ("Build 2026-04-01", HASH_B),
    ];
    assert_eq!(shown.len(), expected.len());
    for (a, b) in shown.iter().zip(expected) {
        assert_eq!((a.0.as_str(), a.1.as_str()), b);
    }
}

#[test]
fn list_of_tags_has_thirty_entries() {
    let probed: Vec<(Date, String)> =
        (1..=31).map(|d| (from_ymd_opt(2026, 3, d).unwrap(), format!("{d:040x}"))).collect();

    let mut all: Vec<String> = (1..=12).map(|d| format!("s.202601{d:02}")).collect();
    all.push("gts".to_string());
    let shown = list_tags(group_tags(&all, "s"), probed.clone());
    assert_eq!(shown.len(), 30);
    assert_eq!(shown[0].raw, "gts");
    assert_eq!(shown[1].raw, "s.20260112");
    assert_eq!(shown[12].raw, "s.20260101");
    assert_eq!(shown[13].display, "Build 2026-03-31");
    assert_eq!(shown[29].display, "Build 2026-03-15");

    let dated: Vec<String> = (1..=31).map(|d| format!("s.202601{d:02}")).collect();
    let shown = list_tags(group_tags(&dated, "s"), probed.clone());
    assert_eq!(shown.len(), 30);
    assert_eq!(shown[0].raw, "s.20260131");
    assert_eq!(shown[29].raw, "s.20260102");

    let channels: Vec<String> = (0..31).map(|i| format!("channel{i:02}")).collect();
    let shown = list_tags(group_tags(&channels, "s"), probed);
    assert_eq!(shown.len(), 30);
    assert_eq!(shown[29].raw, "channel29");
}

#[test]
fn errors_are_told_in_words() {
    assert_eq!(RegistryError::Network("e".to_string()).message(), "Network error: e");
    assert_eq!(
        RegistryError::NoTags("s".to_string()).message(),
        "No dated tags found for stream 's'"
    );
    assert_eq!(
        RegistryError::NoCurrentImage.message(),
        "Unable to detect current image — is bootc installed?"
    );
}

#[test]
fn families_have_a_base_and_a_stream() {
    let all = known_families();
    assert_eq!(all.len(), 6);
    for f in &all {
        assert_eq!(f.select_image_for_features(&[]), Some(f.base_image()));
        assert!(!f.streams.is_empty());
        for image in f.images {
            if let Some(rest) = image.strip_prefix(&format!("{}-", f.base_image())) {
                let features: Vec<&str> = rest.split('-').collect();
                assert_eq!(f.select_image_for_features(&features), Some(*image));
            }
        }
    }
}

#[test]
fn search_asks_for_one_thing_at_a_time() {
    let c = RegistryClient::new("ghcr.io", "a", "b", "s");
    let (search, action) = VersionSearch::start(c, 2);
    match action {
        SearchAction::Remember(key) => assert_eq!(key, "v4_ghcr.io_a_b_s_versions_2"),
        other => panic!("got {other:?}"),
    }
    let (search, action) = search.next(SearchEvent::Remembered(None));
    assert!(matches!(action, SearchAction::ListTags));
    let tags = strings(&["s", "s.20260501", "s.20260527", HASH_A]);
    let (search, action) = search.next(SearchEvent::Tags(Ok(tags)));
    match action {
        SearchAction::Probe(hashes) => assert_eq!(hashes, [HASH_A]),
        other => panic!("got {other:?}"),
    }
    let (search, action) = search.next(SearchEvent::Fetched(vec![]));
    assert!(matches!(action, SearchAction::Wait));
    let (search, action) = search.next(SearchEvent::Probed(vec![(day(5, 26), HASH_A.to_string())]));
    assert!(matches!(action, SearchAction::AskFloating));
    let (search, action) = search.next(SearchEvent::Floating(Some(day(5, 28))));
    match action {
        SearchAction::Fetch(list) => assert_eq!(
            list,
            vec![(day(5, 28), "s".to_string()), (day(5, 27), "s.20260527".to_string())]
        ),
        other => panic!("got {other:?}"),
    }
    let fetched = vec![version(day(5, 27), "s.20260527"), version(day(5, 28), "s")];
    let (search, action) = search.next(SearchEvent::Fetched(fetched));
    match action {
        SearchAction::Found { builds, keep } => {
            let names: Vec<&str> = builds.iter().map(|v| v.version.as_str()).collect();
            assert_eq!(names, ["s", "s.20260527"]);
            assert!(keep);
        }
        other => panic!("got {other:?}"),
    }
    let (_, action) = search.next(SearchEvent::Remembered(None));
    assert!(matches!(action, SearchAction::Wait));
}

#[test]
fn search_takes_the_short_way_where_it_can() {
    let begin = || {
        let c = RegistryClient::new("ghcr.io", "a", "b", "s");
        VersionSearch::start(c, 8).0
    };
    let (_, action) = begin().next(SearchEvent::Remembered(Some(vec![version(day(5, 1), "x")])));
    assert!(matches!(action, SearchAction::Found { builds, keep: false } if builds.len() == 1));
    let listing = || begin().next(SearchEvent::Remembered(None)).0;
    let (_, action) = listing().next(SearchEvent::Tags(Err("e".to_string())));
    assert!(matches!(action, SearchAction::Fail(RegistryError::Network(e)) if e == "e"));
    let (_, action) = listing().next(SearchEvent::Tags(Ok(strings(&["s.20260501"]))));
    assert!(matches!(action, SearchAction::Fetch(list) if list.len() == 1));
    let (_, action) = listing().next(SearchEvent::Tags(Ok(strings(&["x"]))));
    assert!(matches!(action, SearchAction::Fail(RegistryError::NoTags(s)) if s == "s"));
    let (search, action) = listing().next(SearchEvent::Tags(Ok(strings(&["latest"]))));
    assert!(matches!(action, SearchAction::FetchLatest));
    let (_, action) = search.next(SearchEvent::Latest(None));
    assert!(matches!(action, SearchAction::Fail(RegistryError::NoTags(_))));
}

#[test]
fn search_for_tags_asks_the_hashes() {
    let begin = || {
        let c = RegistryClient::new("ghcr.io", "a", "b", "s");
        TagSearch::start(c)
    };
    match begin().1 {
        TagAction::Remember(key) => assert_eq!(key, "v4_ghcr.io_a_b_s_available_tags"),
        other => panic!("got {other:?}"),
    }
    let listing = || begin().0.next(TagEvent::Remembered(None)).0;
    let (search, action) = listing().next(TagEvent::Tags(Ok(strings(&["gts", HASH_A]))));
    assert!(matches!(action, TagAction::Probe(hashes) if hashes == [HASH_A]));
    let (_, action) = search.next(TagEvent::Probed(vec![(day(4, 2), HASH_A.to_string())]));
    match action {
        TagAction::Found { tags, keep } => {
            let shown: Vec<&str> = tags.iter().map(|t| t.display.as_str()).collect();
            assert_eq!(shown, ["gts", "Build 2026-04-02"]);
            assert!(keep);
        }
        other => panic!("got {other:?}"),
    }
    let (_, action) = listing().next(TagEvent::Tags(Ok(strings(&["gts"]))));
    assert!(matches!(action, TagAction::Found { tags, keep: true } if tags.len() == 1));
    let (_, action) = listing().next(TagEvent::Tags(Err("e".to_string())));
    assert!(matches!(action, TagAction::Fail(e) if e.message() == "Network error: e"));
    let (_, action) = begin().0.next(TagEvent::Remembered(Some(vec![])));
    assert!(matches!(action, TagAction::Found { keep: false, .. }));
    let (_, action) = begin().0.next(TagEvent::Probed(vec![]));
    assert!(matches!(action, TagAction::Wait));
}
