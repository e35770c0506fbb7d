//! The updates panel and the window around it.

use finupdate::app::{
    answer, banner, image_check, panel_message, parse_scenario, parse_window_size,
    plan_preflight, preflight_status, relay, shows_header, simulated_check, title_for, Answer,
    App, AppEffect, AppMsg, AppState, CheckResult, Effect, PanelSettings, PreflightPlan,
    PreflightStatus, Question, SimulationScenario, UpdatesPanel, UpdatesPanelMsg,
    UpdatesPanelOutput,
};
use finupdate::orchestrator::{Module, ModuleStatus, UpdateEvent};

fn settings() -> PanelSettings {
    PanelSettings { dev_mode: false, dry_run: false, pause_on_metered: false }
}

fn panel() -> UpdatesPanel {
    UpdatesPanel::new(settings(), None, false)
}

fn start() -> UpdatesPanelMsg {
    UpdatesPanelMsg::StartUpdate { skip_metered_check: false }
}

#[test]
fn panel_flow_through_pages_and_modes() {
    let mut p = panel();
    assert_eq!(p.state, AppState::Idle);
    assert_eq!(p.current_page, "main");

    p.update(UpdatesPanelMsg::ToggleDevMode(true), false);
    p.update(UpdatesPanelMsg::SetSimScenario(SimulationScenario::Success), false);
    assert!(p.settings.dev_mode);
    assert_eq!(p.sim_scenario, SimulationScenario::Success);

    p.update(UpdatesPanelMsg::PageChanged("preferences".to_string()), false);
    assert_eq!(p.current_page, "preferences");

    let effects = p.update(UpdatesPanelMsg::GoBack, false);
    let page = match effects.into_iter().next() {
        Some(Effect::ViewPage(page)) => page,
        other => panic!("got {other:?}"),
    };
    p.update(UpdatesPanelMsg::PageChanged(page), false);
    assert_eq!(p.current_page, "main");
}

#[test]
fn update_runs_through_its_states() {
    let mut p = panel();
    let effects = p.update(start(), false);
    assert_eq!(p.state, AppState::Updating);
    assert!(p.can_cancel);
    assert!(matches!(effects.last(), Some(Effect::OpenCheck)));
    assert!(p.update(start(), false).is_empty());

    p.update(UpdatesPanelMsg::UpdateComplete, false);
    assert_eq!(p.state, AppState::Complete);
    assert!(!p.can_cancel);

    p.update(UpdatesPanelMsg::DismissBanner, false);
    assert_eq!(p.state, AppState::Idle);
}

#[test]
fn failed_update_says_why_and_is_dismissed() {
    let mut p = panel();
    p.update(start(), false);
    let effects = p.update(UpdatesPanelMsg::UpdateFailed("no network".to_string()), false);
    assert_eq!(p.state, AppState::Error("no network".to_string()));
    assert!(effects.iter().any(|e| matches!(
        e,
        Effect::Notify { id, title, body }
            if id == "update-failed" && title == "System Update Failed" && body == "no network"
    )));
    p.update(UpdatesPanelMsg::DismissBanner, false);
    assert_eq!(p.state, AppState::Idle);
}

#[test]
fn cancelling_twice_cancels_once() {
    let mut p = panel();
    assert!(p.update(UpdatesPanelMsg::CancelUpdate, false).is_empty());
    p.update(start(), false);
    let effects = p.update(UpdatesPanelMsg::CancelUpdate, false);
    assert!(matches!(effects.first(), Some(Effect::Cancel)));
    assert_eq!(p.state, AppState::Idle);
    assert!(p.update(UpdatesPanelMsg::CancelUpdate, false).is_empty());
}

#[test]
fn metered_network_is_asked_about_where_the_settings_say_so() {
    let mut p = panel();
    p.settings.pause_on_metered = true;
    let effects = p.update(start(), true);
    assert!(matches!(effects.as_slice(), [Effect::AskMetered]));
    assert_eq!(p.state, AppState::Idle);
    p.update(UpdatesPanelMsg::StartUpdate { skip_metered_check: true }, true);
    assert_eq!(p.state, AppState::Updating);

    let mut q = panel();
    q.update(start(), true);
    assert_eq!(q.state, AppState::Updating);
}

#[test]
fn check_tells_whether_there_is_something_to_install() {
    let mut p = panel();
    let found = CheckResult { system_update: true, sources_with_updates: 2 };
    p.update(UpdatesPanelMsg::CheckComplete(found), false);
    assert_eq!(p.preflight_status, PreflightStatus::UpdateAvailable);
    let none = CheckResult { system_update: false, sources_with_updates: 0 };
    let effects = p.update(UpdatesPanelMsg::CheckComplete(none), false);
    assert_eq!(p.preflight_status, PreflightStatus::UpToDate);
    assert!(matches!(
        effects.as_slice(),
        [Effect::ResetProgress, Effect::ViewPreflight(PreflightStatus::UpToDate)]
    ));
}

#[test]
fn check_dialog_simulates_in_developer_mode_and_dry_run() {
    for (dev_mode, dry_run, expected) in
        [(false, false, false), (true, false, true), (false, true, true)]
    {
        let mut p = panel();
        p.settings.dev_mode = dev_mode;
        p.settings.dry_run = dry_run;
        let effects = p.update(UpdatesPanelMsg::OpenCheckDialog, false);
        match effects.as_slice() {
            [Effect::Progress(told), Effect::ShowCheckDialog { simulated, .. }] => {
                assert_eq!(told.phase, "checking");
                assert_eq!(told.message, "Checking for updates…");
                assert_eq!(*simulated, expected);
            }
            other => panic!("got {other:?}"),
        }
    }
}

#[test]
fn log_keeps_every_line() {
    let mut p = panel();
    p.update(UpdatesPanelMsg::OutputLine("one".to_string()), false);
    p.update(UpdatesPanelMsg::OutputLine("two".to_string()), false);
    p.update(UpdatesPanelMsg::UpdateUpToDate, false);
    assert_eq!(p.log_lines, ["one", "two"]);
    assert_eq!(p.state, AppState::UpToDate);
}

#[test]
fn modules_move_the_progress_on_by_quarters() {
    let mut p = panel();
    for (module, expected, words) in [
        (Module::System, 0, "Updating system…"),
        (Module::Flatpak, 1, "Updating flatpak…"),
        (Module::Brew, 2, "Updating brew…"),
        (Module::Distrobox, 3, "Updating distrobox…"),
    ] {
        let effects = p.update(UpdatesPanelMsg::ModuleStarted(module), false);
        match effects.as_slice() {
            [Effect::Advance { quarters, message }, Effect::ViewModuleStarted(m)] => {
                assert_eq!(*quarters, expected);
                assert_eq!(message, words);
                assert_eq!(*m, module);
            }
            other => panic!("got {other:?}"),
        }
    }
}

#[test]
fn reboot_is_suppressed_in_dry_run_and_developer_mode() {
    let mut p = panel();
    assert!(matches!(
        p.update(UpdatesPanelMsg::ConfirmReboot, false).as_slice(),
        [Effect::Reboot]
    ));
    for (dev_mode, dry_run, words) in [
        (false, true, "Reboot suppressed (dry-run)"),
        (true, false, "Reboot suppressed (developer mode)"),
        (true, true, "Reboot suppressed (developer mode)"),
    ] {
        p.settings.dev_mode = dev_mode;
        p.settings.dry_run = dry_run;
        match p.update(UpdatesPanelMsg::ConfirmReboot, false).as_slice() {
            [Effect::Toast(s)] => assert_eq!(s, words),
            other => panic!("got {other:?}"),
        }
    }
}

#[test]
fn closing_asks_only_while_an_update_is_running() {
    let mut p = panel();
    assert!(matches!(p.update(UpdatesPanelMsg::Quit, false).as_slice(), [Effect::Quit]));
    p.update(start(), false);
    assert!(matches!(p.update(UpdatesPanelMsg::Quit, false).as_slice(), [Effect::AskQuit]));
    let mut app = App { current_page: "main".to_string() };
    assert!(matches!(app.update(AppMsg::CloseRequest, true), AppEffect::AskQuit));
    assert!(matches!(app.update(AppMsg::CloseRequest, false), AppEffect::Quit));
}

#[test]
fn window_follows_the_page() {
    let mut app = App { current_page: "main".to_string() };
    let to = |page: &str| {
        AppMsg::UpdatesPanelOutput(UpdatesPanelOutput::PageChanged(page.to_string()))
    };
    match app.update(to("changelog"), false) {
        AppEffect::Header { title, subtitle, window_title, back } => {
            assert_eq!(title, "What’s New");
            assert_eq!(subtitle, "Finupdate");
            assert_eq!(window_title, "Finupdate — What’s New");
            assert!(back);
        }
        other => panic!("got {other:?}"),
    }
    assert_eq!(app.current_page, "changelog");
    match app.update(to("main"), false) {
        AppEffect::Header { title, subtitle, window_title, back } => {
            assert_eq!(title, "Finupdate");
            assert_eq!(subtitle, "");
            assert_eq!(window_title, "Finupdate");
            assert!(!back);
        }
        other => panic!("got {other:?}"),
    }
    match app.update(AppMsg::GoBack, false) {
        AppEffect::ShowPage(page) => assert_eq!(page, "main"),
        other => panic!("got {other:?}"),
    }
}

#[test]
fn header_is_shown_on_the_pages_of_an_embedded_panel() {
    let mut p = UpdatesPanel::new(settings(), None, true);
    assert!(!shows_header(&p));
    p.update(UpdatesPanelMsg::PageChanged("history".to_string()), false);
    assert!(shows_header(&p));
    let mut q = panel();
    q.update(UpdatesPanelMsg::PageChanged("history".to_string()), false);
    assert!(!shows_header(&q));
}

#[test]
fn banner_tells_a_simulation_from_a_dry_run() {
    let mut s = settings();
    assert!(!banner(&s).1);
    s.dry_run = true;
    assert_eq!(
        banner(&s),
        ("Dry run — actions are recorded, your system is not modified", true)
    );
    s.dev_mode = true;
    assert_eq!(banner(&s), ("Developer Mode — updates are simulated", true));
}

#[test]
fn titles_name_the_state() {
    assert_eq!(title_for(&AppState::Idle), "System Update");
    assert_eq!(title_for(&AppState::Updating), "System Update — Updating…");
    assert_eq!(title_for(&AppState::Complete), "System Update — Update complete");
    assert_eq!(title_for(&AppState::UpToDate), "System Update — Already up to date");
    assert_eq!(title_for(&AppState::Error(String::new())), "System Update — Update failed");
}

#[test]
fn scenarios_are_known_by_several_names() {
    for name in ["Failure", "failure"] {
        assert_eq!(parse_scenario(Some(name)), SimulationScenario::Failure);
    }
    for name in ["AlreadyUpToDate", "up-to-date", "uptodate"] {
        assert_eq!(parse_scenario(Some(name)), SimulationScenario::AlreadyUpToDate);
    }
    assert_eq!(parse_scenario(Some("Success")), SimulationScenario::Success);
    assert_eq!(parse_scenario(Some("nonsense")), SimulationScenario::Success);
    assert_eq!(parse_scenario(None), SimulationScenario::Success);
}

#[test]
fn preflight_goes_by_the_exit_code() {
    assert_eq!(preflight_status(Some(0)), PreflightStatus::UpdateAvailable);
    assert_eq!(preflight_status(Some(77)), PreflightStatus::UpToDate);
    assert_eq!(preflight_status(Some(1)), PreflightStatus::Unknown);
    assert_eq!(preflight_status(None), PreflightStatus::Unknown);
    assert!(matches!(
        plan_preflight(true),
        PreflightPlan::Answer(PreflightStatus::UpdateAvailable)
    ));
    match plan_preflight(false) {
        PreflightPlan::Run(command) => assert_eq!(command, ["bootc", "upgrade", "--check"]),
        other => panic!("got {other:?}"),
    }
}

#[test]
fn events_of_a_run_are_messages() {
    assert!(matches!(panel_message(UpdateEvent::Complete), UpdatesPanelMsg::UpdateComplete));
    assert!(matches!(panel_message(UpdateEvent::UpToDate), UpdatesPanelMsg::UpdateUpToDate));
    assert!(matches!(
        panel_message(UpdateEvent::Error("e".to_string())),
        UpdatesPanelMsg::UpdateFailed(e) if e == "e"
    ));
    assert!(matches!(
        panel_message(UpdateEvent::ModuleFinished(Module::Brew, ModuleStatus::Skipped)),
        UpdatesPanelMsg::ModuleFinished(Module::Brew, ModuleStatus::Skipped)
    ));
}

#[test]
fn end_of_a_cancelled_run_is_no_news() {
    let error = || UpdateEvent::Error("e".to_string());
    assert!(relay(error(), false).is_none());
    assert!(matches!(relay(error(), true), Some(UpdatesPanelMsg::UpdateFailed(e)) if e == "e"));
    assert!(matches!(relay(UpdateEvent::Complete, false), Some(UpdatesPanelMsg::UpdateComplete)));
}

#[test]
fn check_of_the_image_is_simulated_by_scenario() {
    let status = simulated_check(SimulationScenario::AlreadyUpToDate);
    assert_eq!(status, PreflightStatus::UpToDate);
    assert_eq!(
        image_check(status),
        CheckResult { system_update: false, sources_with_updates: 0 }
    );
    for scenario in [SimulationScenario::Success, SimulationScenario::Failure] {
        assert_eq!(
            image_check(simulated_check(scenario)),
            CheckResult { system_update: true, sources_with_updates: 1 }
        );
    }
    assert!(!image_check(PreflightStatus::Unknown).system_update);
}

#[test]
fn only_a_confirmed_question_has_a_consequence() {
    assert!(matches!(
        answer(Question::Metered, "proceed"),
        Answer::Send(UpdatesPanelMsg::StartUpdate { skip_metered_check: true })
    ));
    assert!(matches!(
        answer(Question::Reboot, "restart"),
        Answer::Send(UpdatesPanelMsg::ConfirmReboot)
    ));
    assert!(matches!(answer(Question::Quit, "close"), Answer::Quit));
    for q in [Question::Metered, Question::Reboot, Question::Quit] {
        assert!(matches!(answer(q, "cancel"), Answer::Nothing));
    }
}

#[test]
fn window_sizes_are_read() {
    assert_eq!(parse_window_size("360x640"), Some((360, 640)));
    assert_eq!(parse_window_size(" 360 X 640 "), Some((360, 640)));
    assert_eq!(parse_window_size("200x200"), Some((200, 200)));
    assert_eq!(parse_window_size("199x640"), None);
    assert_eq!(parse_window_size("640x199"), None);
    assert_eq!(parse_window_size("360"), None);
    assert_eq!(parse_window_size("360x640x2"), None);
    assert_eq!(parse_window_size("-360x640"), None);
    assert_eq!(parse_window_size("99999999999x640"), None);
}
