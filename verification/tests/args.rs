//! The arguments of the graphical program.

use finupdate::app::PanelSettings;
use finupdate::args::{
    complaint, effective_settings, exit_code, parse_args, Invocation, RuntimeOverrides,
};

fn args(list: &[&str]) -> Vec<String> {
    list.iter().map(|s| s.to_string()).collect()
}

fn overrides(list: &[&str]) -> RuntimeOverrides {
    match parse_args(&args(list)) {
        Invocation::Run(o) => o,
        other => panic!("got {other:?}"),
    }
}

#[test]
fn no_arguments_change_nothing() {
    let o = overrides(&[]);
    assert_eq!(o.dev_mode, None);
    assert_eq!(o.dry_run, None);
    assert_eq!(o.sim_scenario, None);
    assert_eq!(o.journal, None);
    let saved = PanelSettings { dev_mode: true, dry_run: false, pause_on_metered: true };
    assert_eq!(effective_settings(&saved, &o), saved);
}

#[test]
fn the_last_switch_counts() {
    let o = overrides(&["--dev-mode", "--no-dev-mode", "--no-dry-run", "--dry-run"]);
    assert_eq!(o.dev_mode, Some(false));
    assert_eq!(o.dry_run, Some(true));
    let saved = PanelSettings { dev_mode: true, dry_run: false, pause_on_metered: true };
    let now = effective_settings(&saved, &o);
    assert!(!now.dev_mode);
    assert!(now.dry_run);
    assert!(now.pause_on_metered);
}

#[test]
fn a_scenario_implies_developer_mode() {
    for (name, setting) in
        [("success", "Success"), ("failure", "Failure"), ("up-to-date", "AlreadyUpToDate")]
    {
        let o = overrides(&[&format!("--sim={name}")]);
        assert_eq!(o.sim_scenario, Some(setting));
        assert_eq!(o.dev_mode, Some(true));
    }
}

#[test]
fn a_journal_needs_a_path() {
    assert_eq!(overrides(&["--journal=/tmp/j"]).journal.as_deref(), Some("/tmp/j"));
    let i = parse_args(&args(&["--journal="]));
    assert!(matches!(i, Invocation::NoJournalPath));
    assert_eq!(exit_code(&i), Some(2));
    assert_eq!(complaint(&i).as_deref(), Some("finupdate: --journal= requires a path"));
}

#[test]
fn arguments_are_read_up_to_the_first_that_ends_it() {
    let i = parse_args(&args(&["--dry-run", "--help", "--nonsense"]));
    assert!(matches!(i, Invocation::Help));
    assert_eq!(exit_code(&i), Some(0));
    assert!(complaint(&i).is_none());
    assert!(matches!(parse_args(&args(&["-h"])), Invocation::Help));

    let i = parse_args(&args(&["--nonsense", "--help"]));
    assert!(matches!(&i, Invocation::UnknownArgument(a) if a == "--nonsense"));
    assert_eq!(exit_code(&i), Some(2));
    assert_eq!(complaint(&i).as_deref(), Some("finupdate: unknown argument '--nonsense'"));

    let i = parse_args(&args(&["--sim=maybe"]));
    assert!(matches!(&i, Invocation::InvalidScenario(s) if s == "maybe"));
    assert_eq!(
        complaint(&i).as_deref(),
        Some("finupdate: invalid --sim scenario 'maybe'\nValid: success | failure | up-to-date")
    );
    assert_eq!(exit_code(&parse_args(&args(&["--dry-run"]))), None);
}
