//! The advanced settings, and the logo.

use finupdate::app::UpdatesPanelMsg;
use finupdate::bootc_probe::{read_logo_icon_name, HeroLogo, LogoCandidate};
use finupdate::orchestrator::Module;
use finupdate::preferences::{
    activate, edit, module_row, network_status, save_button, shown_auto_updates, threshold_row,
    ConfigEdit, SaveState, SystemRow, Threshold, UpdateInterval,
};
use finupdate::uupd_compat::UupdConfig;

#[test]
fn timer_counts_where_uupd_is_installed() {
    assert!(shown_auto_updates(true, Some(true), false));
    assert!(!shown_auto_updates(true, Some(false), true));
    assert!(shown_auto_updates(true, None, true));
    assert!(!shown_auto_updates(false, Some(true), false));
}

#[test]
fn rows_show_what_was_set() {
    let mut c = UupdConfig::default();
    assert_eq!(threshold_row(&c, Threshold::Battery).value, 20);
    edit(&mut c, ConfigEdit::BatMinPercent(35));
    edit(&mut c, ConfigEdit::CpuMaxPercent(60));
    edit(&mut c, ConfigEdit::MemMaxPercent(70));
    edit(&mut c, ConfigEdit::NetMaxBytes(5_000_000_000));
    edit(&mut c, ConfigEdit::CheckHardware(false));
    assert_eq!(threshold_row(&c, Threshold::Battery).value, 35);
    assert_eq!(threshold_row(&c, Threshold::Cpu).value, 60);
    assert_eq!(threshold_row(&c, Threshold::Memory).value, 70);
    assert_eq!(threshold_row(&c, Threshold::Network).value, 5_000_000_000);
    assert!(!c.checks.hardware.enable);
    assert_eq!(threshold_row(&c, Threshold::Network).upper, 100_000_000);
    assert_eq!(threshold_row(&c, Threshold::Network).unit, "B/s");
    assert_eq!(threshold_row(&c, Threshold::Cpu).title, "Maximum CPU Load");
}

#[test]
fn a_switch_disables_its_module_alone() {
    let mut c = UupdConfig::default();
    let all = [Module::System, Module::Flatpak, Module::Brew, Module::Distrobox];
    assert!(all.iter().all(|m| module_row(&c, *m).active));
    edit(&mut c, ConfigEdit::Update(Module::Brew, false));
    assert!(c.modules.brew.disable);
    for m in all {
        assert_eq!(module_row(&c, m).active, m != Module::Brew);
    }
    edit(&mut c, ConfigEdit::Update(Module::Brew, true));
    assert_eq!(c, UupdConfig::default());
    assert_eq!(module_row(&c, Module::System).title, "System");
}

#[test]
fn edits_of_different_rows_do_not_interfere() {
    let mut a = UupdConfig::default();
    edit(&mut a, ConfigEdit::BatMinPercent(1));
    edit(&mut a, ConfigEdit::Update(Module::System, false));
    let mut b = UupdConfig::default();
    edit(&mut b, ConfigEdit::Update(Module::System, false));
    edit(&mut b, ConfigEdit::BatMinPercent(1));
    assert_eq!(a, b);
}

#[test]
fn button_says_how_saving_goes() {
    assert_eq!(save_button(SaveState::Ready), ("Apply Changes", true));
    assert_eq!(save_button(SaveState::Saving), ("Saving…", false));
    assert_eq!(save_button(SaveState::Saved), ("Saved ✓", true));
    assert_eq!(save_button(SaveState::Failed), ("Save failed", true));
}

#[test]
fn network_is_metered_or_not() {
    assert_eq!(network_status(true).1, "warning");
    assert_eq!(
        network_status(false),
        ("✓  Unmetered connection — automatic updates will run normally", "success")
    );
}

#[test]
fn rows_lead_to_pages_or_questions() {
    for (row, page) in [
        (SystemRow::ImageSource, "source"),
        (SystemRow::ImageHistory, "history"),
        (SystemRow::WhatsNew, "changelog"),
    ] {
        match activate(row) {
            (UpdatesPanelMsg::ShowStatusPage(p), true) => assert_eq!(p, page),
            other => panic!("got {other:?}"),
        }
    }
    assert!(matches!(
        activate(SystemRow::Powerwash),
        (UpdatesPanelMsg::TriggerPowerwash, false)
    ));
    assert!(matches!(
        activate(SystemRow::FactoryReset),
        (UpdatesPanelMsg::TriggerFactoryReset, false)
    ));
}

#[test]
fn logo_is_taken_from_the_theme_then_from_a_file() {
    let logo = |name: &str, themed: bool, file: Option<&str>| LogoCandidate {
        name: name.to_string(),
        themed,
        file: file.map(|f| f.to_string()),
    };
    let list = vec![logo("a", false, Some("/a.svg")), logo("b", true, None), logo("c", true, None)];
    assert_eq!(read_logo_icon_name(&list, true), HeroLogo::Themed("b".to_string()));
    let list = vec![logo("a", false, None), logo("b", false, Some("/b.svg"))];
    assert_eq!(read_logo_icon_name(&list, true), HeroLogo::File("/b.svg".to_string()));
    let none = vec![logo("a", false, None)];
    assert_eq!(
        read_logo_icon_name(&none, true),
        HeroLogo::Themed("distributor-logo-symbolic".to_string())
    );
    assert_eq!(
        read_logo_icon_name(&none, false),
        HeroLogo::Themed("computer-symbolic".to_string())
    );
}

#[test]
fn intervals_are_read_back() {
    for (i, name) in ["Hourly", "Daily", "Weekly", "Custom"].into_iter().enumerate() {
        let interval = UpdateInterval::from_index(i as u32);
        assert_eq!(interval.name(), name);
        assert_eq!(interval.to_index(), i as u32);
        assert_eq!(UpdateInterval::from_name(name), interval);
        assert_eq!(interval.takes_hours(), name == "Custom");
    }
    assert_eq!(UpdateInterval::from_index(4), UpdateInterval::Daily);
    assert_eq!(UpdateInterval::from_name("daily"), UpdateInterval::Daily);
}
