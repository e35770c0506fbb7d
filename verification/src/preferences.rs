//! The advanced settings: what is shown of them, and what an edit changes.

use vstd::prelude::*;
use crate::app::UpdatesPanelMsg;
use crate::orchestrator::Module;
use crate::text;
use crate::uupd_compat::{
    UupdChecks, UupdConfig, UupdHardwareChecks, UupdModuleToggle, UupdModules,
};

verus! {

/// Whether automatic updates are shown as on.
pub open spec fn auto_updates(installed: bool, timer: Option<bool>, setting: bool) -> bool {
    match timer {
        Some(on) => if installed {
            on
        } else {
            setting
        },
        None => setting,
    }
}

/// Whether automatic updates are shown as on: as the timer says, where there is
/// one to ask, else as the settings say.
pub fn shown_auto_updates(installed: bool, timer: Option<bool>, setting: bool) -> (r: bool)
    ensures
        r == auto_updates(installed, timer, setting),
{
    match timer {
        Some(on) => if installed {
            on
        } else {
            setting
        },
        None => setting,
    }
}

/// A threshold in the configuration of `uupd`.
#[derive(Debug, Clone, Copy, PartialEq, Eq, Structural)]
pub enum Threshold {
    Battery,
    Cpu,
    Memory,
    Network,
}

/// A change of the configuration of `uupd`.
#[derive(Debug, Clone, Copy, PartialEq, Eq, Structural)]
pub enum ConfigEdit {
    /// Whether the thresholds count.
    CheckHardware(bool),
    BatMinPercent(u32),
    CpuMaxPercent(u32),
    MemMaxPercent(u32),
    NetMaxBytes(u64),
    /// Whether a module is updated.
    Update(Module, bool),
}

/// The value of a threshold.
pub open spec fn threshold_value(c: UupdConfig, t: Threshold) -> int {
    match t {
        Threshold::Battery => c.checks.hardware.bat_min_percent as int,
        Threshold::Cpu => c.checks.hardware.cpu_max_percent as int,
        Threshold::Memory => c.checks.hardware.mem_max_percent as int,
        Threshold::Network => c.checks.hardware.net_max_bytes as int,
    }
}

/// Whether a module is updated.
pub open spec fn is_updated(c: UupdConfig, m: Module) -> bool {
    match m {
        Module::System => !c.modules.system.disable,
        Module::Flatpak => !c.modules.flatpak.disable,
        Module::Brew => !c.modules.brew.disable,
        Module::Distrobox => !c.modules.distrobox.disable,
    }
}

/// The switch of a module after an edit.
pub open spec fn toggled(e: ConfigEdit, m: Module, before: UupdModuleToggle) -> UupdModuleToggle {
    match e {
        ConfigEdit::Update(n, on) => if n == m {
            UupdModuleToggle { disable: !on }
        } else {
            before
        },
        _ => before,
    }
}

/// The configuration after an edit.
pub open spec fn edited(c: UupdConfig, e: ConfigEdit) -> UupdConfig {
    let hw = c.checks.hardware;
    UupdConfig {
        checks: UupdChecks {
            hardware: UupdHardwareChecks {
                enable: match e {
                    ConfigEdit::CheckHardware(on) => on,
                    _ => hw.enable,
                },
                bat_min_percent: match e {
                    ConfigEdit::BatMinPercent(n) => n,
                    _ => hw.bat_min_percent,
                },
                cpu_max_percent: match e {
                    ConfigEdit::CpuMaxPercent(n) => n,
                    _ => hw.cpu_max_percent,
                },
                mem_max_percent: match e {
                    ConfigEdit::MemMaxPercent(n) => n,
                    _ => hw.mem_max_percent,
                },
                net_max_bytes: match e {
                    ConfigEdit::NetMaxBytes(n) => n,
                    _ => hw.net_max_bytes,
                },
            },
        },
        modules: UupdModules {
            brew: toggled(e, Module::Brew, c.modules.brew),
            distrobox: toggled(e, Module::Distrobox, c.modules.distrobox),
            flatpak: toggled(e, Module::Flatpak, c.modules.flatpak),
            system: toggled(e, Module::System, c.modules.system),
        },
    }
}

/// Change the configuration of `uupd`.
pub fn edit(config: &mut UupdConfig, e: ConfigEdit)
    ensures
        *final(config) == edited(*old(config), e),
{
    match e {
        ConfigEdit::CheckHardware(on) => {
            config.checks.hardware.enable = on;
        },
        ConfigEdit::BatMinPercent(n) => {
            config.checks.hardware.bat_min_percent = n;
        },
        ConfigEdit::CpuMaxPercent(n) => {
            config.checks.hardware.cpu_max_percent = n;
        },
        ConfigEdit::MemMaxPercent(n) => {
            config.checks.hardware.mem_max_percent = n;
        },
        ConfigEdit::NetMaxBytes(n) => {
            config.checks.hardware.net_max_bytes = n;
        },
        ConfigEdit::Update(m, on) => {
            match m {
                Module::System => {
                    config.modules.system.disable = !on;
                },
                Module::Flatpak => {
                    config.modules.flatpak.disable = !on;
                },
                Module::Brew => {
                    config.modules.brew.disable = !on;
                },
                Module::Distrobox => {
                    config.modules.distrobox.disable = !on;
                },
            }
        },
    }
}

/// A row with a number that can be changed, from nothing up to a limit.
#[derive(Debug)]
pub struct SpinRow {
    pub title: &'static str,
    pub subtitle: &'static str,
    pub upper: u64,
    pub value: u64,
    pub unit: &'static str,
}

/// A row with a number, taken by its characters.
pub struct SpinModel {
    pub title: Seq<char>,
    pub subtitle: Seq<char>,
    pub upper: int,
    pub value: int,
    pub unit: Seq<char>,
}

impl View for SpinRow {
    type V = SpinModel;

    open spec fn view(&self) -> SpinModel {
        SpinModel {
            title: self.title@,
            subtitle: self.subtitle@,
            upper: self.upper as int,
            value: self.value as int,
            unit: self.unit@,
        }
    }
}

/// The row for a threshold.
pub open spec fn threshold_row_of(c: UupdConfig, t: Threshold) -> SpinModel {
    let value = threshold_value(c, t);
    match t {
        Threshold::Battery => SpinModel {
            title: "Minimum Battery"@,
            subtitle: "Skip updates if battery is below this percent"@,
            upper: 100,
            value,
            unit: "%"@,
        },
        Threshold::Cpu => SpinModel {
            title: "Maximum CPU Load"@,
            subtitle: "Skip updates if CPU usage is above this percent"@,
            upper: 100,
            value,
            unit: "%"@,
        },
        Threshold::Memory => SpinModel {
            title: "Maximum Memory Use"@,
            subtitle: "Skip updates if RAM usage is above this percent"@,
            upper: 100,
            value,
            unit: "%"@,
        },
        Threshold::Network => SpinModel {
            title: "Maximum Network Activity"@,
            subtitle: "Skip updates if traffic is above this many bytes/second"@,
            upper: 100_000_000,
            value,
            unit: "B/s"@,
        },
    }
}

/// The row for a threshold.
pub fn threshold_row(config: &UupdConfig, t: Threshold) -> (r: SpinRow)
    ensures
        r@ == threshold_row_of(*config, t),
{
    let hw = config.checks.hardware;
    match t {
        Threshold::Battery => SpinRow {
            title: "Minimum Battery",
            subtitle: "Skip updates if battery is below this percent",
            upper: 100,
            value: hw.bat_min_percent as u64,
            unit: "%",
        },
        Threshold::Cpu => SpinRow {
            title: "Maximum CPU Load",
            subtitle: "Skip updates if CPU usage is above this percent",
            upper: 100,
            value: hw.cpu_max_percent as u64,
            unit: "%",
        },
        Threshold::Memory => SpinRow {
            title: "Maximum Memory Use",
            subtitle: "Skip updates if RAM usage is above this percent",
            upper: 100,
            value: hw.mem_max_percent as u64,
            unit: "%",
        },
        Threshold::Network => SpinRow {
            title: "Maximum Network Activity",
            subtitle: "Skip updates if traffic is above this many bytes/second",
            upper: 100_000_000,
            value: hw.net_max_bytes,
            unit: "B/s",
        },
    }
}

/// A row with a switch.
#[derive(Debug)]
pub struct SwitchRow {
    pub title: &'static str,
    pub subtitle: &'static str,
    pub active: bool,
}

/// The title and the subtitle of the row for a module.
pub open spec fn module_words(m: Module) -> (Seq<char>, Seq<char>) {
    match m {
        Module::System => ("System"@, "OS image updates via bootc / rpm-ostree"@),
        Module::Flatpak => ("Flatpak"@, "Sandboxed applications"@),
        Module::Brew => ("Brew"@, "Homebrew packages"@),
        Module::Distrobox => ("Distrobox"@, "Containers managed by distrobox"@),
    }
}

/// The row for a module: its words, and its switch.
pub open spec fn module_row_of(c: UupdConfig, m: Module) -> (Seq<char>, Seq<char>, bool) {
    (module_words(m).0, module_words(m).1, is_updated(c, m))
}

/// The row for a module: its switch is on where the module is not disabled.
pub fn module_row(config: &UupdConfig, m: Module) -> (r: SwitchRow)
    ensures
        (r.title@, r.subtitle@, r.active) == module_row_of(*config, m),
{
    let modules = config.modules;
    match m {
        Module::System => SwitchRow {
            title: "System",
            subtitle: "OS image updates via bootc / rpm-ostree",
            active: !modules.system.disable,
        },
        Module::Flatpak => SwitchRow {
            title: "Flatpak",
            subtitle: "Sandboxed applications",
            active: !modules.flatpak.disable,
        },
        Module::Brew => SwitchRow {
            title: "Brew",
            subtitle: "Homebrew packages",
            active: !modules.brew.disable,
        },
        Module::Distrobox => SwitchRow {
            title: "Distrobox",
            subtitle: "Containers managed by distrobox",
            active: !modules.distrobox.disable,
        },
    }
}

/// How far saving the configuration has come.
#[derive(Debug, Clone, Copy, PartialEq, Eq, Structural)]
pub enum SaveState {
    Ready,
    Saving,
    Saved,
    Failed,
}

/// What the button that saves says, and whether it can be pressed.
pub open spec fn save_words(s: SaveState) -> (Seq<char>, bool) {
    (
        match s {
            SaveState::Ready => "Apply Changes"@,
            SaveState::Saving => "Saving…"@,
            SaveState::Saved => "Saved ✓"@,
            SaveState::Failed => "Save failed"@,
        },
        !(s is Saving),
    )
}

/// What the button that saves says, and whether it can be pressed.
pub fn save_button(s: SaveState) -> (r: (&'static str, bool))
    ensures
        (r.0@, r.1) == save_words(s),
{
    match s {
        SaveState::Ready => ("Apply Changes", true),
        SaveState::Saving => ("Saving…", false),
        SaveState::Saved => ("Saved ✓", true),
        SaveState::Failed => ("Save failed", true),
    }
}

/// How often automatic updates run.
#[derive(Debug, Clone, Copy, PartialEq, Eq, Structural)]
pub enum UpdateInterval {
    Hourly,
    Daily,
    Weekly,
    /// After a number of hours that the user gives.
    Custom,
}

/// The intervals, in the order in which they are offered.
pub open spec fn intervals() -> Seq<UpdateInterval> {
    seq![
        UpdateInterval::Hourly,
        UpdateInterval::Daily,
        UpdateInterval::Weekly,
        UpdateInterval::Custom,
    ]
}

/// The name of an interval.
pub open spec fn interval_name(i: UpdateInterval) -> Seq<char> {
    match i {
        UpdateInterval::Hourly => "Hourly"@,
        UpdateInterval::Daily => "Daily"@,
        UpdateInterval::Weekly => "Weekly"@,
        UpdateInterval::Custom => "Custom"@,
    }
}

impl UpdateInterval {
    /// The place of the interval in the list.
    pub fn to_index(&self) -> (r: u32)
        ensures
            r < intervals().len(),
            intervals()[r as int] == *self,
    {
        match self {
            UpdateInterval::Hourly => 0,
            UpdateInterval::Daily => 1,
            UpdateInterval::Weekly => 2,
            UpdateInterval::Custom => 3,
        }
    }

    /// The interval at a place in the list; daily where there is none.
    pub fn from_index(index: u32) -> (r: UpdateInterval)
        ensures
            r == (if index < intervals().len() {
                intervals()[index as int]
            } else {
                UpdateInterval::Daily
            }),
    {
        match index {
            0 => UpdateInterval::Hourly,
            2 => UpdateInterval::Weekly,
            3 => UpdateInterval::Custom,
            _ => UpdateInterval::Daily,
        }
    }

    /// The name under which the interval is shown and kept.
    pub fn name(&self) -> (r: &'static str)
        ensures
            r@ == interval_name(*self),
    {
        match self {
            UpdateInterval::Hourly => "Hourly",
            UpdateInterval::Daily => "Daily",
            UpdateInterval::Weekly => "Weekly",
            UpdateInterval::Custom => "Custom",
        }
    }

    /// The interval of a name; daily where none has it.
    pub fn from_name(name: &str) -> (r: UpdateInterval)
        ensures
            interval_name(r) == name@ || (r is Daily && forall|i: UpdateInterval|
                #[trigger] interval_name(i) != name@),
    {
        if text::eq(name, "Hourly") {
            UpdateInterval::Hourly
        } else if text::eq(name, "Weekly") {
            UpdateInterval::Weekly
        } else if text::eq(name, "Custom") {
            UpdateInterval::Custom
        } else {
            UpdateInterval::Daily
        }
    }

    /// Whether the number of hours can be given.
    pub fn takes_hours(&self) -> (r: bool)
        ensures
            r == (self is Custom),
    {
        matches!(self, UpdateInterval::Custom)
    }
}

/// Different intervals have different names and different places, so that each
/// is read back as it was written.
pub proof fn law_intervals_are_told_apart(a: UpdateInterval, b: UpdateInterval, i: int, j: int)
    requires
        0 <= i < intervals().len(),
        0 <= j < intervals().len(),
    ensures
        interval_name(a) == interval_name(b) ==> a == b,
        intervals()[i] == intervals()[j] ==> i == j,
        intervals().contains(a),
        intervals().len() == 4 && intervals()[0] is Hourly && intervals()[1] is Daily
            && intervals()[2] is Weekly && intervals()[3] is Custom,
        interval_name(UpdateInterval::Hourly) == "Hourly"@,
        interval_name(UpdateInterval::Daily) == "Daily"@,
        interval_name(UpdateInterval::Weekly) == "Weekly"@,
        interval_name(UpdateInterval::Custom) == "Custom"@,
{
    reveal_strlit("Hourly");
    reveal_strlit("Daily");
    reveal_strlit("Weekly");
    reveal_strlit("Custom");
    assert("Hourly"@[0] == 'H' && "Daily"@[0] == 'D' && "Weekly"@[0] == 'W' && "Custom"@[0] == 'C');
    assert(intervals()[0] is Hourly && intervals()[1] is Daily && intervals()[2] is Weekly
        && intervals()[3] is Custom);
}

/// What is said of the network, and the class it is shown in.
pub open spec fn network_words(metered: bool) -> (Seq<char>, Seq<char>) {
    if metered {
        ("⚠  Metered connection active — automatic updates are paused"@, "warning"@)
    } else {
        ("✓  Unmetered connection — automatic updates will run normally"@, "success"@)
    }
}

/// What is said of the network, and the class it is shown in.
pub fn network_status(metered: bool) -> (r: (&'static str, &'static str))
    ensures
        (r.0@, r.1@) == network_words(metered),
{
    if metered {
        ("⚠  Metered connection active — automatic updates are paused", "warning")
    } else {
        ("✓  Unmetered connection — automatic updates will run normally", "success")
    }
}

/// A row that leads somewhere.
#[derive(Debug, Clone, Copy, PartialEq, Eq, Structural)]
pub enum SystemRow {
    ImageSource,
    ImageHistory,
    WhatsNew,
    Powerwash,
    FactoryReset,
}

/// The page that a row leads to, where it leads to one.
pub open spec fn page_of(row: SystemRow) -> Option<Seq<char>> {
    match row {
        SystemRow::ImageSource => Some("source"@),
        SystemRow::ImageHistory => Some("history"@),
        SystemRow::WhatsNew => Some("changelog"@),
        _ => None,
    }
}

/// What the panel is told when a row is activated, and whether the settings are
/// closed first.
pub open spec fn leads_to(row: SystemRow, msg: UpdatesPanelMsg, closes: bool) -> bool {
    match page_of(row) {
        Some(page) => closes && (msg matches UpdatesPanelMsg::ShowStatusPage(s) && s@ == page),
        None => !closes && msg == (if row is Powerwash {
            UpdatesPanelMsg::TriggerPowerwash
        } else {
            UpdatesPanelMsg::TriggerFactoryReset
        }),
    }
}

/// What the panel is told when a row is activated, and whether the settings are
/// closed first: a page is shown in the window behind them, while a question
/// opens on top.
pub fn activate(row: SystemRow) -> (r: (UpdatesPanelMsg, bool))
    ensures
        leads_to(row, r.0, r.1),
{
    match row {
        SystemRow::ImageSource => (UpdatesPanelMsg::ShowStatusPage("source".to_owned()), true),
        SystemRow::ImageHistory => (UpdatesPanelMsg::ShowStatusPage("history".to_owned()), true),
        SystemRow::WhatsNew => (UpdatesPanelMsg::ShowStatusPage("changelog".to_owned()), true),
        SystemRow::Powerwash => (UpdatesPanelMsg::TriggerPowerwash, false),
        SystemRow::FactoryReset => (UpdatesPanelMsg::TriggerFactoryReset, false),
    }
}

// ---------------------------------------------------------------------------
// Laws

/// What is being edited.
pub open spec fn subject(e: ConfigEdit) -> (int, Option<Module>) {
    match e {
        ConfigEdit::CheckHardware(_) => (0, None),
        ConfigEdit::BatMinPercent(_) => (1, None),
        ConfigEdit::CpuMaxPercent(_) => (2, None),
        ConfigEdit::MemMaxPercent(_) => (3, None),
        ConfigEdit::NetMaxBytes(_) => (4, None),
        ConfigEdit::Update(m, _) => (5, Some(m)),
    }
}

/// The last edit of a thing counts, and edits of different things do not
/// interfere: their order does not matter.
pub proof fn law_edits(c: UupdConfig, a: ConfigEdit, b: ConfigEdit)
    ensures
        subject(a) == subject(b) ==> edited(edited(c, a), b) == edited(c, b),
        subject(a) != subject(b) ==> edited(edited(c, a), b) == edited(edited(c, b), a),
{
}

/// A row shows what was set in it, and an edit changes no other row.
pub proof fn law_rows_show_edits(c: UupdConfig, n: u32, bytes: u64, m: Module, other: Module, on: bool)
    ensures
        threshold_value(edited(c, ConfigEdit::BatMinPercent(n)), Threshold::Battery) == n,
        threshold_value(edited(c, ConfigEdit::CpuMaxPercent(n)), Threshold::Cpu) == n,
        threshold_value(edited(c, ConfigEdit::MemMaxPercent(n)), Threshold::Memory) == n,
        threshold_value(edited(c, ConfigEdit::NetMaxBytes(bytes)), Threshold::Network) == bytes,
        is_updated(edited(c, ConfigEdit::Update(m, on)), m) == on,
        m != other ==> is_updated(edited(c, ConfigEdit::Update(m, on)), other) == is_updated(
            c,
            other,
        ),
{
}

/// An edit changes what it names, and nothing else: the thresholds that it does
/// not name, whether they count, and the other modules stay.
pub proof fn law_edits_change_their_own(c: UupdConfig, e: ConfigEdit, m: Module, t: Threshold)
    ensures
        ({
            let d = edited(c, e);
            &&& e matches ConfigEdit::CheckHardware(on) ==> d.checks.hardware.enable == on
            &&& !(e is CheckHardware) ==> d.checks.hardware.enable == c.checks.hardware.enable
            &&& !(e is BatMinPercent) ==> threshold_value(d, Threshold::Battery) == threshold_value(
                c,
                Threshold::Battery,
            )
            &&& !(e is CpuMaxPercent) ==> threshold_value(d, Threshold::Cpu) == threshold_value(
                c,
                Threshold::Cpu,
            )
            &&& !(e is MemMaxPercent) ==> threshold_value(d, Threshold::Memory) == threshold_value(
                c,
                Threshold::Memory,
            )
            &&& !(e is NetMaxBytes) ==> threshold_value(d, Threshold::Network) == threshold_value(
                c,
                Threshold::Network,
            )
            &&& !(e is Update) ==> d.modules == c.modules
            &&& threshold_row_of(c, t).value == threshold_value(c, t)
        }),
        threshold_value(c, Threshold::Battery) == c.checks.hardware.bat_min_percent,
        threshold_value(c, Threshold::Cpu) == c.checks.hardware.cpu_max_percent,
        threshold_value(c, Threshold::Memory) == c.checks.hardware.mem_max_percent,
        threshold_value(c, Threshold::Network) == c.checks.hardware.net_max_bytes,
        is_updated(c, Module::System) == !c.modules.system.disable,
        is_updated(c, Module::Flatpak) == !c.modules.flatpak.disable,
        is_updated(c, Module::Brew) == !c.modules.brew.disable,
        is_updated(c, Module::Distrobox) == !c.modules.distrobox.disable,
{
}

/// The rows by their titles: what each threshold is called, how far it goes, and
/// in which unit.
pub proof fn law_rows_by_title(c: UupdConfig)
    ensures
        threshold_row_of(c, Threshold::Battery).title == "Minimum Battery"@,
        threshold_row_of(c, Threshold::Cpu).title == "Maximum CPU Load"@,
        threshold_row_of(c, Threshold::Memory).title == "Maximum Memory Use"@,
        threshold_row_of(c, Threshold::Network).title == "Maximum Network Activity"@,
        threshold_row_of(c, Threshold::Battery).upper == 100 && threshold_row_of(
            c,
            Threshold::Battery,
        ).unit == "%"@,
        threshold_row_of(c, Threshold::Cpu).upper == 100 && threshold_row_of(
            c,
            Threshold::Cpu,
        ).unit == "%"@,
        threshold_row_of(c, Threshold::Memory).upper == 100 && threshold_row_of(
            c,
            Threshold::Memory,
        ).unit == "%"@,
        threshold_row_of(c, Threshold::Network).upper == 100 * 1000 * 1000 && threshold_row_of(
            c,
            Threshold::Network,
        ).unit == "B/s"@,
        module_words(Module::System).0 == "System"@,
        module_words(Module::Flatpak).0 == "Flatpak"@,
        module_words(Module::Brew).0 == "Brew"@,
        module_words(Module::Distrobox).0 == "Distrobox"@,
{
}

/// Automatic updates are shown as the timer says where `uupd` is there to ask, and
/// else as they were set; a metered network is warned of; and while it is being
/// saved a configuration cannot be saved again.
pub proof fn law_what_the_settings_show(installed: bool, on: bool, setting: bool, s: SaveState)
    ensures
        auto_updates(true, Some(on), setting) == on,
        auto_updates(false, Some(on), setting) == setting,
        auto_updates(installed, None, setting) == setting,
        network_words(true).1 == "warning"@,
        network_words(false).1 == "success"@,
        save_words(s).1 <==> s != SaveState::Saving,
        save_words(SaveState::Failed).0 == "Save failed"@,
        save_words(SaveState::Saved).0 == "Saved ✓"@,
        page_of(SystemRow::ImageSource) == Some("source"@),
        page_of(SystemRow::ImageHistory) == Some("history"@),
        page_of(SystemRow::WhatsNew) == Some("changelog"@),
        page_of(SystemRow::Powerwash) is None,
        page_of(SystemRow::FactoryReset) is None,
{
}

/// A row that leads to a page closes the settings and shows that page; one that
/// asks a question asks its own, on top of them.
pub proof fn law_rows_lead_where_they_say(row: SystemRow, msg: UpdatesPanelMsg, closes: bool)
    requires
        leads_to(row, msg, closes),
    ensures
        row is ImageSource ==> closes && (msg matches UpdatesPanelMsg::ShowStatusPage(s) && s@
            == "source"@),
        row is ImageHistory ==> closes && (msg matches UpdatesPanelMsg::ShowStatusPage(s) && s@
            == "history"@),
        row is WhatsNew ==> closes && (msg matches UpdatesPanelMsg::ShowStatusPage(s) && s@
            == "changelog"@),
        row is Powerwash ==> !closes && msg is TriggerPowerwash,
        row is FactoryReset ==> !closes && msg is TriggerFactoryReset,
{
}

/// The switch of a module is on exactly where the module is not disabled.
pub proof fn law_switches_of_the_modules(c: UupdConfig)
    ensures
        module_row_of(c, Module::System).2 == !c.modules.system.disable,
        module_row_of(c, Module::Flatpak).2 == !c.modules.flatpak.disable,
        module_row_of(c, Module::Brew).2 == !c.modules.brew.disable,
        module_row_of(c, Module::Distrobox).2 == !c.modules.distrobox.disable,
        module_row_of(c, Module::System).0 == "System"@,
        module_row_of(c, Module::Flatpak).0 == "Flatpak"@,
        module_row_of(c, Module::Brew).0 == "Brew"@,
        module_row_of(c, Module::Distrobox).0 == "Distrobox"@,
{
}

/// What is told of a row with a number is what it holds.
pub proof fn law_spin_row_holds_what_is_told(r: SpinRow)
    ensures
        r@.title == r.title@ && r@.subtitle == r.subtitle@ && r@.unit == r.unit@,
        r@.upper == r.upper && r@.value == r.value,
{
}

} // verus!
