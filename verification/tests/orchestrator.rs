//! The output of an update run.

use finupdate::orchestrator::{
    build_runner_command, final_event, on_stderr_line, on_stdout_line, parse_line, Module,
    ModuleStatus, ParsedLine, RunOutcome, UpdateEvent,
};

fn expect_event(line: &str) -> UpdateEvent {
    match parse_line(line) {
        ParsedLine::Event(e) => e,
        ParsedLine::Consumed => panic!("expected Event, got Consumed for {line:?}"),
        ParsedLine::Plain => panic!("expected Event, got Plain for {line:?}"),
    }
}

#[test]
fn module_keys_round_trip() {
    for m in [
        Module::System,
        Module::Flatpak,
        Module::Brew,
        Module::Distrobox,
    ] {
        assert_eq!(Module::from_key(m.key()), Some(m));
    }
}

#[test]
fn module_from_unknown_key_is_none() {
    assert_eq!(Module::from_key("nothing"), None);
    assert_eq!(Module::from_key(""), None);
    assert_eq!(Module::from_key("SYSTEM"), None);
}

#[test]
fn parses_module_started_for_each_module() {
    let cases = [
        ("===MODULE:system===", Module::System),
        ("===MODULE:flatpak===", Module::Flatpak),
        ("===MODULE:brew===", Module::Brew),
        ("===MODULE:distrobox===", Module::Distrobox),
    ];
    for (line, expected) in cases {
        match expect_event(line) {
            UpdateEvent::ModuleStarted(m) => assert_eq!(m, expected),
            other => panic!("expected ModuleStarted({expected:?}) got {other:?}"),
        }
    }
}

#[test]
fn parses_done_zero_as_success() {
    match expect_event("===MODULE:system:done:0===") {
        UpdateEvent::ModuleFinished(Module::System, ModuleStatus::Success) => {}
        other => panic!("got {other:?}"),
    }
}

#[test]
fn parses_done_seventyseven_as_uptodate() {
    match expect_event("===MODULE:flatpak:done:77===") {
        UpdateEvent::ModuleFinished(Module::Flatpak, ModuleStatus::UpToDate) => {}
        other => panic!("got {other:?}"),
    }
}

#[test]
fn parses_done_nonzero_as_failed() {
    match expect_event("===MODULE:brew:done:1===") {
        UpdateEvent::ModuleFinished(Module::Brew, ModuleStatus::Failed(1)) => {}
        other => panic!("got {other:?}"),
    }
    match expect_event("===MODULE:brew:done:127===") {
        UpdateEvent::ModuleFinished(Module::Brew, ModuleStatus::Failed(127)) => {}
        other => panic!("got {other:?}"),
    }
}

#[test]
fn parses_skipped_marker() {
    match expect_event("===MODULE:distrobox:skipped===") {
        UpdateEvent::ModuleFinished(Module::Distrobox, ModuleStatus::Skipped) => {}
        other => panic!("got {other:?}"),
    }
}

#[test]
fn done_marker_is_consumed_silently() {
    assert!(matches!(parse_line("===DONE==="), ParsedLine::Consumed));
}

#[test]
fn plain_lines_are_passed_through() {
    for line in [
        "regular log output",
        "",
        "===not a real marker",
        "===MODULE:===",
        "===MODULE:unknown===",
        "===MODULE:system:done:===",
        "===MODULE:system:done:abc===",
    ] {
        let _ = parse_line(line);
    }

    assert!(matches!(
        parse_line("regular log output"),
        ParsedLine::Plain
    ));
    assert!(matches!(parse_line(""), ParsedLine::Plain));
    assert!(matches!(
        parse_line("===MODULE:unknown==="),
        ParsedLine::Plain
    ));
}

#[test]
fn unparseable_done_code_falls_through_to_failed_minus_one() {
    match expect_event("===MODULE:system:done:garbage===") {
        UpdateEvent::ModuleFinished(Module::System, ModuleStatus::Failed(-1)) => {}
        other => panic!("got {other:?}"),
    }
}

#[test]
fn lines_of_a_run_become_events() {
    let script = [
        "===MODULE:system===",
        "System output line 1",
        "===MODULE:system:done:0===",
        "===MODULE:flatpak===",
        "===MODULE:flatpak:done:77===",
        "===DONE===",
    ];
    let mut events: Vec<UpdateEvent> =
        script.iter().filter_map(|l| on_stdout_line(l.to_string())).collect();
    events.push(final_event(RunOutcome::Exited(Some(0))));
    assert_eq!(
        events,
        [
            UpdateEvent::ModuleStarted(Module::System),
            UpdateEvent::Output("System output line 1".to_string()),
            UpdateEvent::ModuleFinished(Module::System, ModuleStatus::Success),
            UpdateEvent::ModuleStarted(Module::Flatpak),
            UpdateEvent::ModuleFinished(Module::Flatpak, ModuleStatus::UpToDate),
            UpdateEvent::Complete,
        ]
    );
    assert_eq!(
        on_stderr_line("===DONE===".to_string()),
        UpdateEvent::Output("===DONE===".to_string())
    );
}

#[test]
fn run_ends_as_it_exited() {
    assert_eq!(final_event(RunOutcome::Exited(Some(77))), UpdateEvent::UpToDate);
    assert_eq!(
        final_event(RunOutcome::Exited(Some(5))),
        UpdateEvent::Error("Update process exited with code 5".to_string())
    );
    assert_eq!(
        final_event(RunOutcome::Exited(None)),
        UpdateEvent::Error("Update process exited with code -1".to_string())
    );
    assert_eq!(
        final_event(RunOutcome::Exited(Some(i32::MIN))),
        UpdateEvent::Error("Update process exited with code -2147483648".to_string())
    );
    assert_eq!(
        final_event(RunOutcome::Cancelled),
        UpdateEvent::Error("Update cancelled by user".to_string())
    );
    assert_eq!(
        final_event(RunOutcome::NotStarted("e".to_string())),
        UpdateEvent::Error("Failed to start finupdate-runner: e".to_string())
    );
    assert_eq!(
        final_event(RunOutcome::NotAwaited("e".to_string())),
        UpdateEvent::Error("Error waiting for update process: e".to_string())
    );
}

#[test]
fn runner_is_started_with_one_elevation() {
    let c = build_runner_command(None, false, None, true);
    assert_eq!(c.program, "pkexec");
    assert_eq!(c.args, ["env", "FINUPDATE_SYSTEM_ONLY=1", "finupdate-runner"]);
    assert!(!c.system_only_env);
    let c = build_runner_command(None, true, Some("echo hi".to_string()), false);
    assert_eq!(c.program, "flatpak-spawn");
    assert_eq!(c.args, ["--host", "pkexec", "/usr/bin/sh", "-c", "echo hi"]);
    let c = build_runner_command(None, true, None, true);
    assert_eq!(c.args[2..6], ["env", "FINUPDATE_SYSTEM_ONLY=1", "/usr/bin/sh", "-c"]);
    assert!(c.args[6].ends_with("echo '===DONE==='\nexit 127\n"));
    let c = build_runner_command(Some("/tmp/mock".to_string()), true, None, true);
    assert_eq!(c.program, "/tmp/mock");
    assert!(c.args.is_empty());
    assert!(c.system_only_env);
}

#[test]
fn markers_need_both_marks() {
    for line in ["===MODULE:system", "MODULE:system===", "====", "===MODULE:system:done:0:1==="] {
        assert!(matches!(parse_line(line), ParsedLine::Plain), "{line}");
    }
    match parse_line("===MODULE:system:done:+7===") {
        ParsedLine::Event(UpdateEvent::ModuleFinished(Module::System, ModuleStatus::Failed(7))) => {}
        other => panic!("got {other:?}"),
    }
    match parse_line("===MODULE:system:done:99999999999===") {
        ParsedLine::Event(UpdateEvent::ModuleFinished(_, ModuleStatus::Failed(-1))) => {}
        other => panic!("got {other:?}"),
    }
}
