//! The `uupd` service: its timer and its configuration.

use finupdate::uupd_compat::{
    installed_command, is_uupd_timer_active, parse_timer_state, print_config_command,
    read_auto_updates_enabled, read_config, set_uupd_timer, set_uupd_timer_with, staging_path,
    timer_outcome, timer_state_command, write_config, write_outcome, UupdConfig,
};

#[test]
fn parses_enabled() {
    assert_eq!(parse_timer_state("enabled"), Some(true));
    assert_eq!(parse_timer_state("enabled\n"), Some(true));
    assert_eq!(parse_timer_state("  enabled  "), Some(true));
}

#[test]
fn parses_enabled_runtime_as_enabled() {
    assert_eq!(parse_timer_state("enabled-runtime"), Some(true));
}

#[test]
fn parses_disabled() {
    assert_eq!(parse_timer_state("disabled"), Some(false));
    assert_eq!(parse_timer_state("disabled\n"), Some(false));
}

#[test]
fn other_states_yield_none() {
    for state in [
        "static",
        "masked",
        "alias",
        "indirect",
        "linked",
        "generated",
        "",
    ] {
        assert_eq!(parse_timer_state(state), None, "state={state}");
    }
}

#[test]
fn unrelated_text_yields_none() {
    assert_eq!(parse_timer_state("Failed to get unit file state"), None);
    assert_eq!(parse_timer_state("ENABLED"), None);
}

#[test]
fn test_read_config_returns_defaults_on_invalid_or_missing_file() {
    let cfg = read_config(None);
    assert_eq!(cfg, UupdConfig::default());
}

#[test]
fn configuration_is_what_the_file_says() {
    let mut c = UupdConfig::default();
    c.checks.hardware.bat_min_percent = 10;
    assert_eq!(read_config(Some(c)), c);
}

#[test]
fn defaults_are_those_of_uupd() {
    let c = UupdConfig::default();
    assert!(c.checks.hardware.enable);
    assert_eq!(c.checks.hardware.bat_min_percent, 20);
    assert_eq!(c.checks.hardware.cpu_max_percent, 50);
    assert_eq!(c.checks.hardware.mem_max_percent, 90);
    assert_eq!(c.checks.hardware.net_max_bytes, 700_000);
    assert!(!c.modules.brew.disable);
    assert!(!c.modules.distrobox.disable);
    assert!(!c.modules.flatpak.disable);
    assert!(!c.modules.system.disable);
}

#[test]
fn timer_is_asked_and_switched_by_commands() {
    assert_eq!(timer_state_command(false), ["systemctl", "is-enabled", "uupd.timer"]);
    assert_eq!(
        timer_state_command(true),
        ["flatpak-spawn", "--host", "systemctl", "is-enabled", "uupd.timer"]
    );
    assert_eq!(installed_command(false), ["which", "uupd"]);
    assert_eq!(installed_command(true), ["flatpak-spawn", "--host", "which", "uupd"]);
    assert_eq!(
        print_config_command(),
        ["flatpak-spawn", "--host", "cat", "/etc/uupd/config.json"]
    );
    assert_eq!(is_uupd_timer_active(Some("enabled\n")), Some(true));
    assert_eq!(is_uupd_timer_active(None), None);
    assert_eq!(
        set_uupd_timer(true, false, false).unwrap(),
        ["systemctl", "enable", "--now", "uupd.timer"]
    );
    assert_eq!(
        set_uupd_timer_with(false, false).unwrap(),
        ["systemctl", "disable", "--now", "uupd.timer"]
    );
    assert!(set_uupd_timer(true, true, false).is_none());
    assert!(set_uupd_timer(true, false, true).is_none());
    assert!(set_uupd_timer_with(true, true).is_none());
}

#[test]
fn switching_the_timer_succeeds_or_says_the_code() {
    assert!(timer_outcome(true, Some(0)).is_ok());
    assert_eq!(
        timer_outcome(false, Some(1)),
        Err("pkexec systemctl disable uupd.timer failed with code Some(1)".to_string())
    );
    assert_eq!(
        timer_outcome(true, None),
        Err("pkexec systemctl enable uupd.timer failed with code None".to_string())
    );
}

#[test]
fn configuration_is_staged_and_installed() {
    let staging = staging_path("/run/user/1000", 42);
    assert_eq!(staging, "/run/user/1000/finupdate-uupd-config-42.json");
    assert_eq!(
        write_config(&staging, false).unwrap(),
        [
            "install", "-o", "root", "-g", "root", "-m", "0644",
            "/run/user/1000/finupdate-uupd-config-42.json", "/etc/uupd/config.json"
        ]
    );
    assert!(write_config(&staging, true).is_none());
    assert!(write_outcome("/s", Some(0)).is_ok());
    assert_eq!(
        write_outcome("/s", Some(126)),
        Err("pkexec install /s /etc/uupd/config.json failed with code Some(126)".to_string())
    );
}

#[test]
fn settings_count_where_the_timer_says_nothing() {
    assert!(read_auto_updates_enabled(Some("enabled\n"), false));
    assert!(!read_auto_updates_enabled(Some(" disabled"), true));
    assert!(read_auto_updates_enabled(Some("static"), true));
    assert!(!read_auto_updates_enabled(None, false));
}
