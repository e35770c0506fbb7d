//! The command line program.

use finupdate::changelog::Commit;
use finupdate::cli::{
    changelog_commits, changelog_head, changelog_packages, code_after, describe_event, diff_head,
    fail, parse_command, refs_to_compare, report_family, report_status, report_switched,
    report_tags, report_timer, report_unknown, report_versions, resolve_target_tag, switch_line,
    target_date, timer_command, Command, TimerCommand, FAILURE, MISUSE, SUCCESS,
};
use finupdate::date::{from_ymd_opt, Date, UtcTime};
use finupdate::name_map::NameMap;
use finupdate::orchestrator::{Module, ModuleStatus, UpdateEvent};
use finupdate::registry_client::{AvailableTag, ImageVersion};
use finupdate::sbom_diff::{PackageDiff, SbomDiffResult};
use finupdate::service::{FamilyInfo, FeatureInfo, ImageRef};

fn args(list: &[&str]) -> Vec<String> {
    list.iter().map(|s| s.to_string()).collect()
}

fn image() -> ImageRef {
    ImageRef {
        registry: "ghcr.io".to_string(),
        org: "projectbluefin".to_string(),
        image: "dakota".to_string(),
        tag: "latest".to_string(),
        digest: String::new(),
    }
}

fn day(d: u32) -> Date {
    from_ymd_opt(2026, 5, d).unwrap()
}

fn version(d: u32, full_ref: &str, name: &str, kernel: &str) -> ImageVersion {
    ImageVersion {
        date: day(d),
        full_ref: full_ref.to_string(),
        version: name.to_string(),
        kernel: kernel.to_string(),
        revision: String::new(),
        created: UtcTime { date: day(d), seconds_of_day: 0, nanos: 0 },
    }
}

#[test]
fn commands_are_named_by_the_first_argument() {
    assert!(matches!(parse_command(&args(&["p"])), Command::Help));
    for name in ["help", "-h", "--help"] {
        assert!(matches!(parse_command(&args(&["p", name])), Command::Help));
    }
    assert!(matches!(parse_command(&args(&["p", "status"])), Command::Status));
    assert!(matches!(parse_command(&args(&["p", "family"])), Command::Family));
    assert!(matches!(parse_command(&args(&["p", "tags"])), Command::Tags));
    assert!(matches!(parse_command(&args(&["p", "versions"])), Command::Versions(8)));
    assert!(matches!(parse_command(&args(&["p", "versions", "20"])), Command::Versions(20)));
    assert!(matches!(parse_command(&args(&["p", "versions", "+20"])), Command::Versions(20)));
    assert!(matches!(parse_command(&args(&["p", "versions", "-20"])), Command::Versions(8)));
    assert!(matches!(parse_command(&args(&["p", "versions", "many"])), Command::Versions(8)));
    assert!(matches!(
        parse_command(&args(&["p", "versions", "99999999999999999999999"])),
        Command::Versions(8)
    ));
    assert!(matches!(parse_command(&args(&["p", "changelog"])), Command::Changelog(None)));
    assert!(matches!(
        parse_command(&args(&["p", "changelog", "20260527"])),
        Command::Changelog(Some(t)) if t == "20260527"
    ));
    assert!(matches!(parse_command(&args(&["p", "timer"])), Command::Timer(None)));
    assert!(matches!(
        parse_command(&args(&["p", "update"])),
        Command::Update { system_only: false }
    ));
    assert!(matches!(
        parse_command(&args(&["p", "update", "x", "--system-only"])),
        Command::Update { system_only: true }
    ));
    assert!(matches!(parse_command(&args(&["p", "dance"])), Command::Unknown(c) if c == "dance"));
}

#[test]
fn unknown_command_is_a_misuse() {
    let r = report_unknown("dance");
    assert_eq!(r.code, MISUSE);
    assert_eq!(r.err, ["finupdate-cli: unknown command 'dance'", ""]);
    assert!(r.out.is_empty());
}

#[test]
fn failure_says_why() {
    let r = fail("nothing works");
    assert_eq!(r.code, FAILURE);
    assert_eq!(r.err, ["finupdate-cli: nothing works"]);
}

#[test]
fn status_prints_the_reference() {
    let r = report_status(Ok(image()));
    assert_eq!(r.code, SUCCESS);
    assert_eq!(r.out, ["ghcr.io/projectbluefin/dakota:latest"]);
    let r = report_status(Err("no bootc".to_string()));
    assert_eq!(r.code, FAILURE);
    assert_eq!(r.err, ["finupdate-cli: no booted image detected: no bootc"]);
}

#[test]
fn family_prints_its_features() {
    let mut f = FamilyInfo {
        name: "Bluefin Dakota".to_string(),
        base_image: "dakota".to_string(),
        streams: vec![],
        features: vec![],
    };
    assert_eq!(
        report_family(Ok(Some(f.clone()))).out,
        ["family: Bluefin Dakota", "base:   dakota", "features: (none)"]
    );
    f.features.push(FeatureInfo { id: "nvidia".to_string(), display_name: "NVIDIA".to_string() });
    f.features.push(FeatureInfo { id: "dx".to_string(), display_name: "Developer".to_string() });
    assert_eq!(
        report_family(Ok(Some(f))).out,
        [
            "family: Bluefin Dakota",
            "base:   dakota",
            "features:",
            "  - nvidia (NVIDIA)",
            "  - dx (Developer)"
        ]
    );
    let r = report_family(Ok(None));
    assert_eq!(r.err, ["finupdate-cli: booted image is not in KNOWN_FAMILIES"]);
    assert_eq!(r.code, FAILURE);
    assert_eq!(report_family(Err("e".to_string())).err, ["finupdate-cli: e"]);
}

#[test]
fn versions_print_day_name_and_kernel() {
    let list = vec![version(1, "r", "43.20260501", "6.14"), version(2, "r", "v2", "")];
    let r = report_versions(&image(), Ok(list));
    assert_eq!(r.code, SUCCESS);
    assert_eq!(r.out, ["2026-05-01  43.20260501  kernel=6.14", "2026-05-02  v2  kernel=?"]);
    let r = report_versions(&image(), Ok(vec![]));
    assert_eq!(r.code, FAILURE);
    assert_eq!(
        r.err,
        ["finupdate-cli: no versions found for ghcr.io/projectbluefin/dakota:latest"]
    );
    assert_eq!(report_versions(&image(), Err("e".to_string())).err, ["finupdate-cli: e"]);
}

#[test]
fn tags_print_the_raw_tag_first() {
    let plain = AvailableTag { display: "latest".to_string(), raw: "latest".to_string() };
    let hash = AvailableTag { display: "Build 2026-05-27".to_string(), raw: "abc".to_string() };
    let r = report_tags(Ok(vec![plain, hash]));
    assert_eq!(r.out, ["latest", "abc\tBuild 2026-05-27"]);
    assert_eq!(report_tags(Err("e".to_string())).code, FAILURE);
}

#[test]
fn eight_digits_are_looked_up_as_a_day() {
    assert_eq!(target_date("20260527"), Some(day(27)));
    assert_eq!(target_date("20261327"), None);
    assert_eq!(target_date("latest"), None);
    let list = Ok(vec![
        version(26, "ghcr.io/a/b:old", "v1", ""),
        version(27, "ghcr.io/a/b:0123abc", "20260527", ""),
        version(27, "ghcr.io/a/b:second", "20260527", ""),
    ]);
    let t = resolve_target_tag("20260527", &list);
    assert_eq!(t.tag, "0123abc");
    assert_eq!(t.resolved_from.as_deref(), Some("20260527"));
    assert!(t.note.is_none());
    let t = resolve_target_tag("latest", &list);
    assert_eq!(t.tag, "latest");
    assert!(t.resolved_from.is_none());
    let t = resolve_target_tag("20260528", &list);
    assert_eq!(t.tag, "20260528");
    assert_eq!(
        t.note.as_deref(),
        Some("finupdate-cli: no published image found for date 2026-05-28 — using 20260528 literally")
    );
    let t = resolve_target_tag("20260528", &Err("offline".to_string()));
    assert_eq!(
        t.note.as_deref(),
        Some("finupdate-cli: list_versions failed (offline) — using 20260528 literally")
    );
    let t = resolve_target_tag("20260527", &Ok(vec![version(27, "no-tag", "v9", "")]));
    assert_eq!(t.tag, "v9");
}

#[test]
fn changelog_begins_with_what_is_compared() {
    let list = Ok(vec![version(27, "ghcr.io/a/b:0123abc", "v", "")]);
    let t = resolve_target_tag("20260527", &list);
    assert_eq!(
        changelog_head(&image(), &t),
        [
            "Changelog for ghcr.io/projectbluefin/dakota:",
            "  booted tag: latest",
            "  target tag: 0123abc (resolved from 20260527)",
            "",
            "== Recent commits (https://api.github.com/repos/projectbluefin/dakota/commits) =="
        ]
    );
    let t = resolve_target_tag("testing", &list);
    assert_eq!(changelog_head(&image(), &t)[2], "  target tag: testing");
}

#[test]
fn changelog_lists_up_to_thirty_commits() {
    let commit = |n: usize| Commit {
        sha: format!("{n:08}ffff"),
        message: format!("feat: {n}\r\n\nbody"),
        author: "someone".to_string(),
        date: String::new(),
    };
    let lines = changelog_commits(&Ok((0..40).map(commit).collect()));
    assert_eq!(lines.len(), 30);
    assert_eq!(lines[7], "  00000007  feat: 7  (someone)");
    let short = Commit {
        sha: "abc".to_string(),
        message: String::new(),
        author: "a".to_string(),
        date: String::new(),
    };
    assert_eq!(changelog_commits(&Ok(vec![short])), ["  abc    (a)"]);
    assert_eq!(changelog_commits(&Ok(vec![])), ["  (no commits returned)"]);
    assert_eq!(changelog_commits(&Err("e".to_string())), ["  (fetch failed: e)"]);
}

#[test]
fn changelog_compares_different_tags_only() {
    assert!(refs_to_compare(&image(), "latest").is_none());
    assert_eq!(
        diff_head(&None),
        ["== SBOM diff ==", "  (booted == target; no diff to compute)"]
    );
    let refs = refs_to_compare(&image(), "testing");
    assert_eq!(
        diff_head(&refs),
        ["== SBOM package diff (ghcr.io/projectbluefin/dakota:latest → ghcr.io/projectbluefin/dakota:testing) =="]
    );
}

#[test]
fn changelog_lists_packages_by_what_happened_to_them() {
    let pkg = |name: &str, old: &str, new: &str| PackageDiff {
        name: name.to_string(),
        old_version: old.to_string(),
        new_version: new.to_string(),
    };
    let mut d = SbomDiffResult {
        upgraded: vec![pkg("bash", "1", "2"), pkg("zlib", "3", "4")],
        downgraded: vec![pkg("mesa", "26", "25")],
        removed: vec!["old".to_string()],
        added: vec![pkg("new", "", "5")],
        stack_info: NameMap::new(),
    };
    let diff = Some(d);
    assert_eq!(
        changelog_packages(&diff),
        [
            "  Upgraded (2):",
            "    bash  1 → 2",
            "    zlib  3 → 4",
            "  Downgraded (1):",
            "    mesa  26 → 25",
            "  Added (1):",
            "    new  5",
            "  Removed (1):",
            "    old"
        ]
    );
    d = diff.unwrap();
    d.upgraded.clear();
    d.added.clear();
    let diff = Some(d);
    assert_eq!(
        changelog_packages(&diff),
        ["  Downgraded (1):", "    mesa  26 → 25", "  Removed (1):", "    old"]
    );
    d = diff.unwrap();
    d.removed.clear();
    let diff = Some(d);
    assert_eq!(changelog_packages(&diff), ["  Downgraded (1):", "    mesa  26 → 25"]);
    d = diff.unwrap();
    d.downgraded.clear();
    assert_eq!(changelog_packages(&Some(d)), ["  (no package changes)"]);
    assert_eq!(
        changelog_packages(&None),
        ["  (couldn't fetch SBOMs — neither image may publish SPDX referrers)"]
    );
}

#[test]
fn timer_is_shown_or_switched() {
    assert!(matches!(timer_command(None), TimerCommand::Show));
    assert!(matches!(timer_command(Some("enable")), TimerCommand::Switch(true)));
    assert!(matches!(timer_command(Some("disable")), TimerCommand::Switch(false)));
    match timer_command(Some("toggle")) {
        TimerCommand::Unknown(r) => {
            assert_eq!(r.code, MISUSE);
            assert_eq!(
                r.err,
                ["finupdate-cli: unknown timer action 'toggle' (expected 'enable' or 'disable')"]
            );
        }
        other => panic!("got {other:?}"),
    }
    assert_eq!(switch_line(true), "Transitioning uupd.timer to: enabled...");
    assert_eq!(switch_line(false), "Transitioning uupd.timer to: disabled...");
    assert_eq!(report_switched(Ok(())).out, ["Successfully configured uupd.timer."]);
    let r = report_switched(Err("no".to_string()));
    assert_eq!(r.err, ["Failed to configure uupd.timer: no"]);
    assert_eq!(r.code, FAILURE);
    assert_eq!(
        report_timer(true, Some(true)).out,
        ["uupd daemon state:", "  installed: true", "  timer:     enabled"]
    );
    assert_eq!(report_timer(false, Some(false)).out[2], "  timer:     disabled");
    assert_eq!(report_timer(false, None).out[2], "  timer:     unknown / unmanaged");
}

#[test]
fn update_prints_its_events_and_fails_on_an_error() {
    let events = [
        (UpdateEvent::ModuleStarted(Module::System), "=== MODULE STARTED: System ===", false),
        (UpdateEvent::Output("line".to_string()), "  [output] line", false),
        (
            UpdateEvent::ModuleFinished(Module::Brew, ModuleStatus::Failed(-5)),
            "=== MODULE FINISHED: Brew (Failed(-5)) ===",
            false,
        ),
        (
            UpdateEvent::ModuleFinished(Module::Flatpak, ModuleStatus::UpToDate),
            "=== MODULE FINISHED: Flatpak (UpToDate) ===",
            false,
        ),
        (UpdateEvent::Complete, "Update completed successfully!", false),
        (UpdateEvent::UpToDate, "System is already up to date.", false),
        (UpdateEvent::Error("boom".to_string()), "Error during update: boom", true),
    ];
    let mut code = SUCCESS;
    for (event, line, complains) in &events {
        assert_eq!(describe_event(event), (line.to_string(), *complains));
        code = code_after(code, event);
    }
    assert_eq!(code, FAILURE);
    assert_eq!(code_after(SUCCESS, &UpdateEvent::Complete), SUCCESS);
    assert_eq!(code_after(FAILURE, &UpdateEvent::Complete), FAILURE);
}
