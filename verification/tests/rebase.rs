//! The dialog for switching to another image, and its calendar.

use finupdate::bootc_progress::{
    dry_run_status, parse_bootc_progress, switch_command, switch_result, BootcProgress,
    SwitchOutcome,
};
use finupdate::calendar::{can_go_on, click, initial_month, is_empty_month, month_grid, Cell, Marks};
use finupdate::date::{from_ymd_opt, Date, UtcTime};
use finupdate::rebase_dialog::{
    answer_driver_question, changelog_version, current_date, details, driver_subtitle,
    elapsed_text, empty_month_hint, end_page, family_headline, fetch_result, find_version,
    initial_stream, initial_target_text,
    is_latest_choice, move_driver_switch, next_generation, offers_older_builds, pin_button,
    poll_fetch, press_button, retain_variant, show_progress, switches_of, target_text,
    with_access_key, DriverStep, FetchResult, FetchStep, SwitchView,
};
use finupdate::rebase_target::{compute_stream_switch_action, resolve_dx_nvidia_with_stream};
use finupdate::registry_client::ImageVersion;
use finupdate::service::{FamilyInfo, FeatureInfo, ImageRef};

fn day(month: u32, d: u32) -> Date {
    from_ymd_opt(2026, month, d).unwrap()
}

fn version(d: u32, name: &str) -> ImageVersion {
    ImageVersion {
        date: day(5, d),
        full_ref: format!("ghcr.io/ublue-os/bluefin:{name}"),
        version: name.to_string(),
        kernel: "6.14".to_string(),
        revision: String::new(),
        created: UtcTime { date: day(5, d), seconds_of_day: 3600, nanos: 0 },
    }
}

fn bluefin() -> FamilyInfo {
    FamilyInfo {
        name: "Bluefin Stable".to_string(),
        base_image: "bluefin".to_string(),
        streams: vec!["latest".to_string(), "stable".to_string()],
        features: vec![FeatureInfo { id: "dx".to_string(), display_name: "Dev".to_string() }],
    }
}

fn booted() -> ImageRef {
    ImageRef {
        registry: "ghcr.io".to_string(),
        org: "ublue-os".to_string(),
        image: "bluefin".to_string(),
        tag: "stable".to_string(),
        digest: String::new(),
    }
}

#[test]
fn month_is_a_grid_of_six_weeks() {
    let marks = Marks {
        builds: vec![day(5, 1), day(5, 27), day(5, 31)],
        current: Some(day(5, 27)),
        selected: Some(day(5, 1)),
        today: day(5, 28),
    };
    let grid = month_grid(&day(5, 1), &marks);
    assert_eq!(grid.len(), 42);
    // The first of May 2026 is a Friday.
    assert!(grid[..4].iter().all(|c| matches!(c, Cell::Blank)));
    let cell = |d: usize| match grid[3 + d] {
        Cell::Day(c) => c,
        Cell::Blank => panic!("no cell for day {d}"),
    };
    assert!(cell(1).available && cell(1).selected && cell(1).sensitive && !cell(1).today);
    assert!(cell(27).current && cell(27).sensitive);
    assert!(cell(28).today && !cell(28).available && !cell(28).sensitive);
    assert!(cell(31).available && !cell(31).sensitive);
    assert_eq!(cell(31).day, 31);
    assert!(matches!(grid[35], Cell::Blank));
    assert!(!is_empty_month(&grid));
    assert!(is_empty_month(&month_grid(&day(4, 1), &marks)));
}

#[test]
fn weeks_begin_on_monday() {
    let marks = Marks { builds: vec![], current: None, selected: None, today: day(5, 28) };
    for (month, blanks) in [(1, 3), (2, 6), (6, 0), (7, 2), (9, 1), (8, 5), (5, 4)] {
        let grid = month_grid(&day(month, 1), &marks);
        let first = grid.iter().position(|c| matches!(c, Cell::Day(_))).unwrap();
        assert_eq!(first, blanks, "month {month}");
    }
}

#[test]
fn calendar_ends_with_the_current_month() {
    assert!(can_go_on(&day(4, 1), &day(5, 28)));
    assert!(!can_go_on(&day(5, 1), &day(5, 28)));
    assert_eq!(initial_month(Some(day(3, 9)), &day(5, 28)), day(3, 1));
    assert_eq!(initial_month(None, &day(5, 28)), day(5, 1));
    assert_eq!(click(None, day(5, 1)), Some(day(5, 1)));
    assert_eq!(click(Some(day(5, 1)), day(5, 1)), None);
    assert_eq!(click(Some(day(5, 1)), day(5, 2)), Some(day(5, 2)));
}

#[test]
fn access_keys_are_escaped() {
    assert_eq!(with_access_key("Switch"), "_Switch");
    assert_eq!(with_access_key("a_b"), "_a__b");
    assert_eq!(with_access_key(""), "_");
}

#[test]
fn fetch_ends_with_versions_or_a_reason() {
    assert!(offers_older_builds(12));
    assert!(!offers_older_builds(120));
    assert_eq!(empty_month_hint(true), "Loading builds…");
    assert_eq!(empty_month_hint(false), "No builds in this month");
    assert!(matches!(fetch_result(false, Ok(vec![]), ""), FetchResult::DetectFailed));
    assert!(matches!(
        fetch_result(true, Err("e".to_string()), ""),
        FetchResult::Failed(e) if e == "e"
    ));
    let all = || vec![version(1, "a-nvidia"), version(2, "b")];
    assert_eq!(retain_variant(all(), "").len(), 2);
    assert_eq!(retain_variant(all(), "default").len(), 2);
    assert_eq!(retain_variant(all(), "nvidia").len(), 1);
    assert!(matches!(
        poll_fetch(Some(fetch_result(true, Ok(all()), "nvidia")), 500_000),
        FetchStep::Show(v) if v.len() == 1
    ));
    assert!(matches!(poll_fetch(None, 90_000), FetchStep::Wait));
    assert!(matches!(
        poll_fetch(None, 90_001),
        FetchStep::Fail("Check your internet connection and try again.")
    ));
    assert!(matches!(poll_fetch(Some(FetchResult::DetectFailed), 0), FetchStep::Fail(_)));
}

#[test]
fn only_the_last_choice_counts() {
    assert_eq!(next_generation(3), 4);
    assert_eq!(next_generation(u64::MAX), 0);
    assert!(is_latest_choice(4, 4));
    assert!(!is_latest_choice(3, 4));
}

#[test]
fn chosen_build_is_described() {
    let list = vec![version(2, "two"), version(1, "one")];
    assert_eq!(current_date(&list), Some(day(5, 2)));
    assert_eq!(current_date(&vec![]), None);
    assert_eq!(find_version(&list, &day(5, 1)).unwrap().version, "one");
    assert!(find_version(&list, &day(5, 3)).is_none());
    let d = details(&list[1]);
    assert_eq!(d.version, "one");
    assert_eq!(d.kernel, "6.14");
    assert_eq!(d.built, "May 1, 2026 · 01:00 UTC");
    assert_eq!(d.commit, "—");
    assert_eq!(pin_button(&day(5, 2), Some(day(5, 2))), ("Currently Installed".to_string(), false));
    assert_eq!(pin_button(&day(5, 1), Some(day(5, 2))), ("Pin to 20260501".to_string(), true));
    assert_eq!(changelog_version(Some(day(5, 1)), &list).as_deref(), Some("one"));
    assert!(changelog_version(None, &list).is_none());
}

#[test]
fn question_names_what_a_yes_leads_to() {
    let list = vec![version(1, "stable.20260501")];
    let q = press_button(Some(day(5, 1)), &list, None, &[], "stable", None).unwrap();
    assert_eq!(q.heading, "Pin to this build?");
    assert_eq!(q.full_ref, "ghcr.io/ublue-os/bluefin:stable.20260501");
    assert!(q.body.contains("May 1, 2026 build (version stable)"));
    let q = press_button(
        Some(day(5, 1)),
        &list,
        Some(&bluefin()),
        &["dx".to_string()],
        "stable",
        None,
    )
    .unwrap();
    assert_eq!(q.full_ref, "ghcr.io/ublue-os/bluefin-dx:stable.20260501");
    assert!(q.body.contains(&q.full_ref));
    assert!(press_button(Some(day(5, 9)), &list, None, &[], "stable", Some("x")).is_none());
    let q = press_button(None, &list, None, &[], "gts", Some("ghcr.io/a/b:gts")).unwrap();
    assert_eq!(q.heading, "Switch to :gts?");
    assert_eq!(q.full_ref, "ghcr.io/a/b:gts");
    assert!(q.body.contains("ghcr.io/a/b:gts"));
    assert!(press_button(None, &list, None, &[], "gts", None).is_none());
}

#[test]
fn family_is_shown_with_its_switches() {
    assert_eq!(switches_of(&bluefin()), (true, false));
    let mut f = bluefin();
    f.features.push(FeatureInfo { id: "open".to_string(), display_name: "Open".to_string() });
    assert_eq!(switches_of(&f), (true, true));
    assert_eq!(family_headline(Some(&f)), "Family: Bluefin Stable");
    assert_eq!(family_headline(None), "Family not recognized");
    assert_eq!(initial_target_text(Some(&f), Some(&booted())), "bluefin (currently booted)");
    assert_eq!(initial_target_text(Some(&f), None), "bluefin (no extras)");
    assert_eq!(target_text(Some(&booted())), "bluefin (resolved)");
    assert_eq!(target_text(None), "(combination doesn't match any published image)");
    assert_eq!(initial_stream(&f).as_deref(), Some("latest"));
}

#[test]
fn drivers_are_not_taken_away_unasked() {
    assert_eq!(move_driver_switch(true, false, true), DriverStep::Ask);
    assert_eq!(move_driver_switch(true, false, false), DriverStep::Apply(false));
    assert_eq!(move_driver_switch(false, true, true), DriverStep::Apply(true));
    assert!(!answer_driver_question("disable"));
    assert!(answer_driver_question("cancel"));
    assert!(driver_subtitle(true).starts_with("NVIDIA GPU detected"));
    assert!(driver_subtitle(false).starts_with("Picks the open kernel modules"));
}

#[test]
fn stream_switch_leads_to_a_published_image() {
    let (label, sensitive, target) =
        compute_stream_switch_action(Some(&bluefin()), &[], "gts", Some(&booted()));
    assert_eq!(label, "Switch to :gts");
    assert!(sensitive);
    assert_eq!(target.as_deref(), Some("ghcr.io/ublue-os/bluefin:gts"));
    let (label, _, target) = compute_stream_switch_action(
        Some(&bluefin()),
        &["dx".to_string()],
        "stable",
        Some(&booted()),
    );
    assert_eq!(label, "Switch to bluefin-dx:stable");
    assert_eq!(target.as_deref(), Some("ghcr.io/ublue-os/bluefin-dx:stable"));
    let (_, sensitive, target) =
        compute_stream_switch_action(Some(&bluefin()), &[], "stable", Some(&booted()));
    assert!(!sensitive);
    assert!(target.is_none());
    let (label, sensitive, target) = compute_stream_switch_action(
        Some(&bluefin()),
        &["open".to_string()],
        "gts",
        Some(&booted()),
    );
    assert_eq!(label, "(combination doesn't match a published image)");
    assert!(!sensitive);
    assert!(target.is_none());
    let (label, sensitive, target) =
        compute_stream_switch_action(Some(&bluefin()), &[], "gts", None);
    assert_eq!(label, "Pin to this build…");
    assert!(!sensitive);
    assert!(target.is_none());
    let (label, sensitive, _) = compute_stream_switch_action(None, &[], "gts", None);
    assert_eq!(label, "Pin to this build…");
    assert!(!sensitive);
    let (features, image) = resolve_dx_nvidia_with_stream(&bluefin(), true, true, "gts");
    assert_eq!(features, ["dx", "nvidia", "open"]);
    assert_eq!(image.unwrap().tag, "gts");
}

#[test]
fn progress_is_spelled_out_too() {
    assert_eq!(
        parse_bootc_progress("3 of 12 layers pulled"),
        Some(BootcProgress::Fraction { current: 3, total: 12 })
    );
    assert_eq!(parse_bootc_progress("3 of 12 layers pushed"), None);
    assert_eq!(
        parse_bootc_progress("PULLING: 1/0"),
        Some(BootcProgress::Status("Pulling new image layers…".to_string()))
    );
    assert_eq!(
        parse_bootc_progress("Fetchingé x"),
        None
    );
    assert_eq!(
        parse_bootc_progress("Writing·… 0/1000"),
        Some(BootcProgress::Fraction { current: 0, total: 1000 })
    );
    assert_eq!(
        parse_bootc_progress("deploying…"),
        Some(BootcProgress::Status("Deploying…".to_string()))
    );
}

#[test]
fn switch_is_shown_as_it_goes() {
    let v = SwitchView { fraction: None, description: "Starting".to_string() };
    let v = show_progress(v, BootcProgress::Fraction { current: 1, total: 4 });
    assert_eq!(v.fraction, Some((1, 4)));
    assert_eq!(v.description, "Starting");
    let v = show_progress(v, BootcProgress::Status("Importing layers…".to_string()));
    assert_eq!(v.fraction, Some((1, 4)));
    assert_eq!(v.description, "Importing layers…");
    assert_eq!(elapsed_text(0), "Elapsed: 0:00");
    assert_eq!(elapsed_text(3_605), "Elapsed: 60:05");
    assert_eq!(switch_command("a/b:c", false).unwrap(), ["bootc", "switch", "a/b:c"]);
    assert!(switch_command("a/b:c", true).is_none());
    assert_eq!(
        dry_run_status(),
        BootcProgress::Status("Dry run — image switch recorded, not performed".to_string())
    );
}

#[test]
fn switch_ends_on_a_page() {
    assert!(switch_result(SwitchOutcome::Exited(Some(0))).is_ok());
    assert_eq!(
        switch_result(SwitchOutcome::Exited(Some(3))),
        Err("bootc switch exited with code 3".to_string())
    );
    assert_eq!(
        switch_result(SwitchOutcome::Exited(None)),
        Err("bootc switch exited with code -1".to_string())
    );
    assert_eq!(end_page(Ok(()), true).0, "Switch Recorded");
    assert_eq!(end_page(Ok(()), false).0, "Switch Complete");
    assert_eq!(
        end_page(Err("why".to_string()), false),
        ("Switch Failed".to_string(), "why".to_string())
    );
}
