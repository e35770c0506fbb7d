//! The updates panel: its state, the messages that change it, and what is to be
//! done about each of them.
//!
//! An update starts from any state in which none is running, and ends completed,
//! failed, or cancelled; what is left of it is dismissed:
//!
//! ```text
//! Idle ──[start]──→ Updating ──[complete]──→ Complete ──[dismiss]──→ Idle
//!                       ├──────[error]─────→ Error ─────[dismiss]──→ Idle
//!                       └──────[cancel]────→ Idle
//! ```
//!
//! All changes of state happen in one place, [`UpdatesPanel::update`]. What a
//! message asks for beyond that (a dialog, a notification, a command) is told
//! to the caller as a list of effects, in order.

use vstd::prelude::*;
use crate::orchestrator;
use crate::orchestrator::{Module, ModuleStatus, UpdateEvent};
use crate::text;

verus! {

/// The state of the application.
#[derive(Debug, Clone, PartialEq)]
pub enum AppState {
    /// No update is in progress.
    Idle,
    /// An update is running.
    Updating,
    /// An update has completed.
    Complete,
    /// There was nothing to update.
    UpToDate,
    /// An update has failed, with this message.
    Error(String),
}

impl Default for AppState {
    fn default() -> (r: Self)
        ensures
            r == AppState::Idle,
    {
        AppState::Idle
    }
}

/// Whether an update is known to be there.
#[derive(Debug, Clone, Copy, PartialEq, Eq, Structural)]
pub enum PreflightStatus {
    Checking,
    UpdateAvailable,
    UpToDate,
    Unknown,
}

/// What a simulated update comes to.
#[derive(Debug, Clone, Copy, PartialEq, Eq, Structural)]
pub enum SimulationScenario {
    Success,
    Failure,
    AlreadyUpToDate,
}

/// The settings that the panel goes by.
#[derive(Debug, Clone, Copy, PartialEq, Eq, Structural)]
pub struct PanelSettings {
    pub dev_mode: bool,
    pub dry_run: bool,
    pub pause_on_metered: bool,
}

/// What a check for updates found.
#[derive(Debug, Clone, Copy, PartialEq, Eq, Structural)]
pub struct CheckResult {
    pub system_update: bool,
    pub sources_with_updates: usize,
}

/// The updates panel.
#[derive(Debug)]
pub struct UpdatesPanel {
    pub state: AppState,
    pub preflight_status: PreflightStatus,
    pub sim_scenario: SimulationScenario,
    pub log_lines: Vec<String>,
    /// An update is running that can be cancelled.
    pub can_cancel: bool,
    pub current_page: String,
    pub settings: PanelSettings,
    /// The panel is part of another window.
    pub is_embedded: bool,
}

/// The updates panel, taken by its contents.
pub struct PanelModel {
    pub state: AppState,
    pub preflight_status: PreflightStatus,
    pub sim_scenario: SimulationScenario,
    pub log_lines: Seq<String>,
    pub can_cancel: bool,
    pub current_page: Seq<char>,
    pub settings: PanelSettings,
    pub is_embedded: bool,
}

impl View for UpdatesPanel {
    type V = PanelModel;

    open spec fn view(&self) -> PanelModel {
        PanelModel {
            state: self.state,
            preflight_status: self.preflight_status,
            sim_scenario: self.sim_scenario,
            log_lines: self.log_lines@,
            can_cancel: self.can_cancel,
            current_page: self.current_page@,
            settings: self.settings,
            is_embedded: self.is_embedded,
        }
    }
}

/// The messages that the updates panel receives.
#[derive(Debug)]
pub enum UpdatesPanelMsg {
    /// Update, and ask first on a metered network unless that is skipped.
    StartUpdate { skip_metered_check: bool },
    OpenCheckDialog,
    CheckComplete(CheckResult),
    /// Install what the check has found.
    InstallFromCheck,
    OutputLine(String),
    ModuleStarted(Module),
    ModuleFinished(Module, ModuleStatus),
    UpdateComplete,
    UpdateUpToDate,
    UpdateFailed(String),
    CancelUpdate,
    RequestReboot,
    ConfirmReboot,
    ShowRebaseDialog,
    ShowAbout,
    ShowPreferences,
    SettingsChanged(PanelSettings),
    PreflightResult(PreflightStatus),
    ToggleDevMode(bool),
    SetSimScenario(SimulationScenario),
    Quit,
    PageChanged(String),
    GoBack,
    ShowWhatsNew,
    ShowChangelogForTag(String),
    DismissBanner,
    TriggerPowerwash,
    TriggerFactoryReset,
    ShowStatusPage(String),
}

/// What the updates panel tells the window around it.
#[derive(Debug, Clone, PartialEq, Eq)]
pub enum UpdatesPanelOutput {
    PageChanged(String),
}

/// How far an update has come, for other programs to see.
#[derive(Debug)]
pub struct Progress {
    pub phase: String,
    /// In quarters of the whole.
    pub quarters: u32,
    pub message: String,
}

pub struct ProgressModel {
    pub phase: Seq<char>,
    pub quarters: int,
    pub message: Seq<char>,
}

/// What is to be done about a message.
#[derive(Debug)]
pub enum Effect {
    /// Ask whether to update on a metered network.
    AskMetered,
    /// Take up a message of one's own: start an update without asking, or open
    /// the check dialog.
    StartWithoutAsking,
    OpenCheck,
    /// Show the check dialog.
    ShowCheckDialog { simulated: bool, scenario: SimulationScenario },
    /// Tell other programs how far the update has come.
    Progress(Progress),
    /// Tell them only that the update goes on, and with what.
    Advance { quarters: u32, message: String },
    ResetProgress,
    /// Tell the view.
    ViewPreflight(PreflightStatus),
    ViewLog(String),
    ViewModuleStarted(Module),
    ViewModuleFinished(Module, ModuleStatus),
    ViewState(AppState),
    ViewSettings(PanelSettings),
    ViewPage(String),
    ViewChangelog(String),
    ViewDismissBanner,
    ViewPin(String),
    /// Set the title of the window.
    WindowTitle(String),
    /// Set the title of the header of an embedded panel.
    HeaderTitle(String),
    /// Show a desktop notification.
    Notify { id: String, title: String, body: String },
    /// Stop the running update.
    Cancel,
    AskReboot,
    Reboot,
    Toast(String),
    ShowRebaseDialog,
    ShowAbout,
    ShowPreferences,
    SaveSettings,
    Output(UpdatesPanelOutput),
    /// Ask whether to close while an update is running.
    AskQuit,
    Quit,
}

/// An effect, taken by its characters.
pub enum EffectModel {
    AskMetered,
    StartWithoutAsking,
    OpenCheck,
    ShowCheckDialog { simulated: bool, scenario: SimulationScenario },
    Progress(ProgressModel),
    Advance { quarters: int, message: Seq<char> },
    ResetProgress,
    ViewPreflight(PreflightStatus),
    ViewLog(Seq<char>),
    ViewModuleStarted(Module),
    ViewModuleFinished(Module, ModuleStatus),
    ViewState(AppState),
    ViewSettings(PanelSettings),
    ViewPage(Seq<char>),
    ViewChangelog(Seq<char>),
    ViewDismissBanner,
    ViewPin(Seq<char>),
    WindowTitle(Seq<char>),
    HeaderTitle(Seq<char>),
    Notify { id: Seq<char>, title: Seq<char>, body: Seq<char> },
    Cancel,
    AskReboot,
    Reboot,
    Toast(Seq<char>),
    ShowRebaseDialog,
    ShowAbout,
    ShowPreferences,
    SaveSettings,
    OutputPage(Seq<char>),
    AskQuit,
    Quit,
}

impl View for Effect {
    type V = EffectModel;

    open spec fn view(&self) -> EffectModel {
        match *self {
            Effect::AskMetered => EffectModel::AskMetered,
            Effect::StartWithoutAsking => EffectModel::StartWithoutAsking,
            Effect::OpenCheck => EffectModel::OpenCheck,
            Effect::ShowCheckDialog { simulated, scenario } => EffectModel::ShowCheckDialog {
                simulated,
                scenario,
            },
            Effect::Progress(p) => EffectModel::Progress(
                ProgressModel {
                    phase: p.phase@,
                    quarters: p.quarters as int,
                    message: p.message@,
                },
            ),
            Effect::Advance { quarters, message } => EffectModel::Advance {
                quarters: quarters as int,
                message: message@,
            },
            Effect::ResetProgress => EffectModel::ResetProgress,
            Effect::ViewPreflight(s) => EffectModel::ViewPreflight(s),
            Effect::ViewLog(s) => EffectModel::ViewLog(s@),
            Effect::ViewModuleStarted(m) => EffectModel::ViewModuleStarted(m),
            Effect::ViewModuleFinished(m, s) => EffectModel::ViewModuleFinished(m, s),
            Effect::ViewState(s) => EffectModel::ViewState(s),
            Effect::ViewSettings(s) => EffectModel::ViewSettings(s),
            Effect::ViewPage(s) => EffectModel::ViewPage(s@),
            Effect::ViewChangelog(s) => EffectModel::ViewChangelog(s@),
            Effect::ViewDismissBanner => EffectModel::ViewDismissBanner,
            Effect::ViewPin(s) => EffectModel::ViewPin(s@),
            Effect::WindowTitle(s) => EffectModel::WindowTitle(s@),
            Effect::HeaderTitle(s) => EffectModel::HeaderTitle(s@),
            Effect::Notify { id, title, body } => EffectModel::Notify {
                id: id@,
                title: title@,
                body: body@,
            },
            Effect::Cancel => EffectModel::Cancel,
            Effect::AskReboot => EffectModel::AskReboot,
            Effect::Reboot => EffectModel::Reboot,
            Effect::Toast(s) => EffectModel::Toast(s@),
            Effect::ShowRebaseDialog => EffectModel::ShowRebaseDialog,
            Effect::ShowAbout => EffectModel::ShowAbout,
            Effect::ShowPreferences => EffectModel::ShowPreferences,
            Effect::SaveSettings => EffectModel::SaveSettings,
            Effect::Output(UpdatesPanelOutput::PageChanged(s)) => EffectModel::OutputPage(s@),
            Effect::AskQuit => EffectModel::AskQuit,
            Effect::Quit => EffectModel::Quit,
        }
    }
}

/// Effects, each taken by its view.
pub open spec fn effects(v: Seq<Effect>) -> Seq<EffectModel> {
    Seq::new(v.len(), |i: int| v[i]@)
}

// ---------------------------------------------------------------------------
// Words

/// What a page is called.
pub open spec fn page_label(page: Seq<char>) -> Seq<char> {
    if page == "main"@ {
        "Finupdate"@
    } else if page == "history"@ {
        "Version History"@
    } else if page == "source"@ {
        "Image Source"@
    } else if page == "changelog"@ {
        "What’s New"@
    } else {
        "Finupdate"@
    }
}

fn label_of_page(page: &str) -> (r: &'static str)
    ensures
        r@ == page_label(page@),
{
    if text::eq(page, "history") {
        proof {
            lemma_pages_differ();
        }
        "Version History"
    } else if text::eq(page, "source") {
        proof {
            lemma_pages_differ();
        }
        "Image Source"
    } else if text::eq(page, "changelog") {
        proof {
            lemma_pages_differ();
        }
        "What’s New"
    } else {
        "Finupdate"
    }
}

proof fn lemma_pages_differ()
    ensures
        "main"@ != "history"@,
        "main"@ != "source"@,
        "main"@ != "changelog"@,
        "history"@ != "source"@,
        "history"@ != "changelog"@,
        "source"@ != "changelog"@,
{
    reveal_strlit("main");
    reveal_strlit("history");
    reveal_strlit("source");
    reveal_strlit("changelog");
    assert("main"@.len() == 4);
    assert("history"@.len() == 7);
    assert("source"@.len() == 6);
    assert("changelog"@.len() == 9);
}

/// The title of the window in a state.
pub open spec fn state_title(s: AppState) -> Seq<char> {
    match s {
        AppState::Idle => "System Update"@,
        AppState::Updating => "System Update — "@ + "Updating…"@,
        AppState::Complete => "System Update — "@ + "Update complete"@,
        AppState::UpToDate => "System Update — "@ + "Already up to date"@,
        AppState::Error(_) => "System Update — "@ + "Update failed"@,
    }
}

/// The title of the window in a state.
pub fn title_for(s: &AppState) -> (r: String)
    ensures
        r@ == state_title(*s),
{
    let subtitle = match s {
        AppState::Idle => {
            return "System Update".to_owned();
        },
        AppState::Updating => "Updating…",
        AppState::Complete => "Update complete",
        AppState::UpToDate => "Already up to date",
        AppState::Error(_) => "Update failed",
    };
    let mut title = "System Update — ".to_owned();
    title.append(subtitle);
    title
}

/// How many modules come before this one.
pub open spec fn module_index(m: Module) -> int {
    match m {
        Module::System => 0,
        Module::Flatpak => 1,
        Module::Brew => 2,
        Module::Distrobox => 3,
    }
}

/// Why a command that would change the system is not run.
pub open spec fn suppression_reason(s: PanelSettings) -> Seq<char> {
    if s.dry_run && !s.dev_mode {
        "dry-run"@
    } else {
        "developer mode"@
    }
}

// ---------------------------------------------------------------------------
// Changes

/// Whether an update is asked about before it starts: on a metered network,
/// where the settings pause updates there.
pub open spec fn is_asked_about(p: PanelModel, skip_metered_check: bool, metered: bool) -> bool {
    !skip_metered_check && p.settings.pause_on_metered && metered
}

/// An update is over, and what came of it is still shown.
pub open spec fn is_over(s: AppState) -> bool {
    s is Complete || s is UpToDate || s is Error
}

/// The panel after a message.
pub open spec fn after(p: PanelModel, msg: UpdatesPanelMsg, metered: bool) -> PanelModel {
    match msg {
        UpdatesPanelMsg::StartUpdate { skip_metered_check } => if p.state is Updating
            || is_asked_about(p, skip_metered_check, metered) {
            p
        } else {
            PanelModel { state: AppState::Updating, can_cancel: true, ..p }
        },
        UpdatesPanelMsg::DismissBanner => if is_over(p.state) {
            PanelModel { state: AppState::Idle, ..p }
        } else {
            p
        },
        UpdatesPanelMsg::CheckComplete(r) => PanelModel {
            preflight_status: if r.sources_with_updates > 0 {
                PreflightStatus::UpdateAvailable
            } else {
                PreflightStatus::UpToDate
            },
            ..p
        },
        UpdatesPanelMsg::OutputLine(line) => PanelModel { log_lines: p.log_lines.push(line), ..p },
        UpdatesPanelMsg::UpdateComplete => PanelModel {
            state: AppState::Complete,
            can_cancel: false,
            ..p
        },
        UpdatesPanelMsg::UpdateUpToDate => PanelModel {
            state: AppState::UpToDate,
            can_cancel: false,
            ..p
        },
        UpdatesPanelMsg::UpdateFailed(err) => PanelModel {
            state: AppState::Error(err),
            can_cancel: false,
            ..p
        },
        UpdatesPanelMsg::CancelUpdate => PanelModel {
            state: if p.can_cancel && p.state is Updating {
                AppState::Idle
            } else {
                p.state
            },
            can_cancel: false,
            ..p
        },
        UpdatesPanelMsg::SettingsChanged(s) => PanelModel { settings: s, ..p },
        UpdatesPanelMsg::PreflightResult(s) => PanelModel { preflight_status: s, ..p },
        UpdatesPanelMsg::PageChanged(page) => PanelModel { current_page: page@, ..p },
        UpdatesPanelMsg::ToggleDevMode(on) => PanelModel {
            settings: PanelSettings { dev_mode: on, ..p.settings },
            ..p
        },
        UpdatesPanelMsg::SetSimScenario(s) => PanelModel { sim_scenario: s, ..p },
        _ => p,
    }
}

pub open spec fn progress(phase: Seq<char>, quarters: int, message: Seq<char>) -> EffectModel {
    EffectModel::Progress(ProgressModel { phase, quarters, message })
}

/// What is to be done about a message.
pub open spec fn to_do(p: PanelModel, msg: UpdatesPanelMsg, metered: bool) -> Seq<EffectModel> {
    match msg {
        UpdatesPanelMsg::StartUpdate { skip_metered_check } => if p.state is Updating {
            Seq::empty()
        } else if is_asked_about(p, skip_metered_check, metered) {
            seq![EffectModel::AskMetered]
        } else {
            seq![
                EffectModel::WindowTitle(state_title(AppState::Updating)),
                EffectModel::ViewState(AppState::Updating),
                EffectModel::OpenCheck,
            ]
        },
        UpdatesPanelMsg::OpenCheckDialog => seq![
            progress("checking"@, 0, "Checking for updates…"@),
            EffectModel::ShowCheckDialog {
                simulated: p.settings.dev_mode || p.settings.dry_run,
                scenario: p.sim_scenario,
            },
        ],
        UpdatesPanelMsg::CheckComplete(r) => seq![
            if r.sources_with_updates > 0 {
                progress("idle"@, 0, "Updates available"@)
            } else {
                EffectModel::ResetProgress
            },
            EffectModel::ViewPreflight(after(p, msg, metered).preflight_status),
        ],
        UpdatesPanelMsg::InstallFromCheck => seq![EffectModel::StartWithoutAsking],
        UpdatesPanelMsg::OutputLine(line) => seq![EffectModel::ViewLog(line@)],
        UpdatesPanelMsg::ModuleStarted(m) => seq![
            EffectModel::Advance {
                quarters: module_index(m),
                message: "Updating "@ + orchestrator::key_of(m) + "…"@,
            },
            EffectModel::ViewModuleStarted(m),
        ],
        UpdatesPanelMsg::ModuleFinished(m, s) => seq![EffectModel::ViewModuleFinished(m, s)],
        UpdatesPanelMsg::UpdateComplete => seq![
            progress("complete"@, 4, "Update complete"@),
            EffectModel::WindowTitle(state_title(AppState::Complete)),
            EffectModel::ViewState(AppState::Complete),
            EffectModel::Notify {
                id: "update-complete"@,
                title: "System Update Complete"@,
                body: "Your system has been updated. Restart to apply changes."@,
            },
        ],
        UpdatesPanelMsg::UpdateUpToDate => seq![
            progress("complete"@, 4, "Up to date"@),
            EffectModel::WindowTitle(state_title(AppState::UpToDate)),
            EffectModel::ViewState(AppState::UpToDate),
        ],
        UpdatesPanelMsg::UpdateFailed(err) => seq![
            progress("error"@, 0, err@),
            EffectModel::WindowTitle(state_title(AppState::Error(err))),
            EffectModel::Notify {
                id: "update-failed"@,
                title: "System Update Failed"@,
                body: err@,
            },
            EffectModel::ViewState(AppState::Error(err)),
        ],
        UpdatesPanelMsg::CancelUpdate => if p.can_cancel {
            if p.state is Updating {
                seq![
                    EffectModel::Cancel,
                    EffectModel::WindowTitle(state_title(AppState::Idle)),
                    EffectModel::ViewState(AppState::Idle),
                ]
            } else {
                seq![EffectModel::Cancel]
            }
        } else {
            Seq::empty()
        },
        UpdatesPanelMsg::RequestReboot => seq![EffectModel::AskReboot],
        UpdatesPanelMsg::ConfirmReboot => if p.settings.dev_mode || p.settings.dry_run {
            seq![
                EffectModel::Toast(
                    "Reboot suppressed ("@ + suppression_reason(p.settings) + ")"@,
                ),
            ]
        } else {
            seq![EffectModel::Reboot]
        },
        UpdatesPanelMsg::ShowRebaseDialog => seq![EffectModel::ShowRebaseDialog],
        UpdatesPanelMsg::ShowAbout => seq![EffectModel::ShowAbout],
        UpdatesPanelMsg::ShowPreferences => seq![EffectModel::ShowPreferences],
        UpdatesPanelMsg::SettingsChanged(s) => seq![EffectModel::ViewSettings(s)],
        UpdatesPanelMsg::PreflightResult(s) => seq![EffectModel::ViewPreflight(s)],
        UpdatesPanelMsg::PageChanged(page) => seq![
            EffectModel::HeaderTitle(page_label(page@)),
            EffectModel::OutputPage(page@),
        ],
        UpdatesPanelMsg::GoBack => seq![EffectModel::ViewPage("main"@)],
        UpdatesPanelMsg::ShowWhatsNew => seq![EffectModel::ViewChangelog(Seq::empty())],
        UpdatesPanelMsg::ShowChangelogForTag(tag) => seq![EffectModel::ViewChangelog(tag@)],
        UpdatesPanelMsg::DismissBanner => if is_over(p.state) {
            seq![
                EffectModel::ViewDismissBanner,
                EffectModel::WindowTitle(state_title(AppState::Idle)),
                EffectModel::ViewState(AppState::Idle),
            ]
        } else {
            seq![EffectModel::ViewDismissBanner]
        },
        UpdatesPanelMsg::TriggerPowerwash => seq![EffectModel::ViewPin("powerwash"@)],
        UpdatesPanelMsg::TriggerFactoryReset => seq![EffectModel::ViewPin("factory"@)],
        UpdatesPanelMsg::ShowStatusPage(page) => seq![EffectModel::ViewPage(page@)],
        UpdatesPanelMsg::ToggleDevMode(_) => seq![EffectModel::SaveSettings],
        UpdatesPanelMsg::SetSimScenario(_) => Seq::empty(),
        UpdatesPanelMsg::Quit => if p.state is Updating {
            seq![EffectModel::AskQuit]
        } else {
            seq![EffectModel::Quit]
        },
    }
}

fn none() -> (r: Vec<Effect>)
    ensures
        effects(r@) == Seq::<EffectModel>::empty(),
{
    let r: Vec<Effect> = Vec::new();
    assert(effects(r@) =~= Seq::<EffectModel>::empty());
    r
}

fn one(a: Effect) -> (r: Vec<Effect>)
    ensures
        effects(r@) == seq![a@],
{
    let r = vec![a];
    assert(effects(r@) =~= seq![a@]);
    r
}

fn two(a: Effect, b: Effect) -> (r: Vec<Effect>)
    ensures
        effects(r@) == seq![a@, b@],
{
    let r = vec![a, b];
    assert(effects(r@) =~= seq![a@, b@]);
    r
}

fn three(a: Effect, b: Effect, c: Effect) -> (r: Vec<Effect>)
    ensures
        effects(r@) == seq![a@, b@, c@],
{
    let r = vec![a, b, c];
    assert(effects(r@) =~= seq![a@, b@, c@]);
    r
}

fn four(a: Effect, b: Effect, c: Effect, d: Effect) -> (r: Vec<Effect>)
    ensures
        effects(r@) == seq![a@, b@, c@, d@],
{
    let r = vec![a, b, c, d];
    assert(effects(r@) =~= seq![a@, b@, c@, d@]);
    r
}

fn told(phase: &str, quarters: u32, message: &str) -> (r: Effect)
    ensures
        r@ == progress(phase@, quarters as int, message@),
{
    Effect::Progress(
        Progress { phase: phase.to_owned(), quarters, message: message.to_owned() },
    )
}

fn notification(id: &str, title: &str, body: &str) -> (r: Effect)
    ensures
        r@ == (EffectModel::Notify { id: id@, title: title@, body: body@ }),
{
    Effect::Notify { id: id.to_owned(), title: title.to_owned(), body: body.to_owned() }
}

impl AppState {
    pub fn is_updating(&self) -> (r: bool)
        ensures
            r == (*self is Updating),
    {
        match self {
            AppState::Updating => true,
            _ => false,
        }
    }

    /// An update is over, and what came of it is still shown.
    pub fn is_over(&self) -> (r: bool)
        ensures
            r == is_over(*self),
    {
        match self {
            AppState::Idle => false,
            AppState::Updating => false,
            _ => true,
        }
    }
}

impl UpdatesPanel {
    /// The panel as it starts: idle, checking for updates, on its main page.
    pub fn new(settings: PanelSettings, sim_scenario: Option<&str>, is_embedded: bool) -> (r: Self)
        ensures
            r@ == initial_panel(
                settings,
                match sim_scenario {
                    Some(s) => Some(s@),
                    None => None,
                },
                is_embedded,
            ),
    {
        let r = UpdatesPanel {
            state: AppState::Idle,
            preflight_status: PreflightStatus::Checking,
            sim_scenario: parse_scenario(sim_scenario),
            log_lines: Vec::new(),
            can_cancel: false,
            current_page: "main".to_owned(),
            settings,
            is_embedded,
        };
        assert(r.log_lines@ =~= Seq::empty());
        r
    }

    fn start_update(&mut self, skip_metered_check: bool, metered: bool) -> (r: Vec<Effect>)
        ensures
            final(self)@ == after(
                old(self)@,
                UpdatesPanelMsg::StartUpdate { skip_metered_check },
                metered,
            ),
            effects(r@) == to_do(
                old(self)@,
                UpdatesPanelMsg::StartUpdate { skip_metered_check },
                metered,
            ),
    {
        if self.state.is_updating() {
            none()
        } else if !skip_metered_check && self.settings.pause_on_metered && metered {
            one(Effect::AskMetered)
        } else {
            self.state = AppState::Updating;
            self.can_cancel = true;
            three(
                Effect::WindowTitle(title_for(&self.state)),
                Effect::ViewState(AppState::Updating),
                Effect::OpenCheck,
            )
        }
    }

    fn check_complete(&mut self, result: CheckResult) -> (r: Vec<Effect>)
        ensures
            final(self)@ == after(old(self)@, UpdatesPanelMsg::CheckComplete(result), false),
            effects(r@) == to_do(old(self)@, UpdatesPanelMsg::CheckComplete(result), false),
    {
        if result.sources_with_updates > 0 {
            self.preflight_status = PreflightStatus::UpdateAvailable;
            two(
                told("idle", 0, "Updates available"),
                Effect::ViewPreflight(PreflightStatus::UpdateAvailable),
            )
        } else {
            self.preflight_status = PreflightStatus::UpToDate;
            two(
                Effect::ResetProgress,
                Effect::ViewPreflight(PreflightStatus::UpToDate),
            )
        }
    }

    fn output_line(&mut self, line: String) -> (r: Vec<Effect>)
        ensures
            final(self)@ == after(old(self)@, UpdatesPanelMsg::OutputLine(line), false),
            effects(r@) == to_do(old(self)@, UpdatesPanelMsg::OutputLine(line), false),
    {
        let shown = line.clone();
        self.log_lines.push(line);
        one(Effect::ViewLog(shown))
    }

    fn module_started(&mut self, module: Module) -> (r: Vec<Effect>)
        ensures
            final(self)@ == after(old(self)@, UpdatesPanelMsg::ModuleStarted(module), false),
            effects(r@) == to_do(old(self)@, UpdatesPanelMsg::ModuleStarted(module), false),
    {
        let quarters: u32 = match module {
            Module::System => 0,
            Module::Flatpak => 1,
            Module::Brew => 2,
            Module::Distrobox => 3,
        };
        let mut message = "Updating ".to_owned();
        message.append(module.key());
        message.append("…");
        two(
            Effect::Advance { quarters, message },
            Effect::ViewModuleStarted(module),
        )
    }

    fn update_complete(&mut self) -> (r: Vec<Effect>)
        ensures
            final(self)@ == after(old(self)@, UpdatesPanelMsg::UpdateComplete, false),
            effects(r@) == to_do(old(self)@, UpdatesPanelMsg::UpdateComplete, false),
    {
        self.state = AppState::Complete;
        self.can_cancel = false;
        four(
            told("complete", 4, "Update complete"),
            Effect::WindowTitle(title_for(&self.state)),
            Effect::ViewState(AppState::Complete),
            notification(
                "update-complete",
                "System Update Complete",
                "Your system has been updated. Restart to apply changes.",
            ),
        )
    }

    fn update_up_to_date(&mut self) -> (r: Vec<Effect>)
        ensures
            final(self)@ == after(old(self)@, UpdatesPanelMsg::UpdateUpToDate, false),
            effects(r@) == to_do(old(self)@, UpdatesPanelMsg::UpdateUpToDate, false),
    {
        self.state = AppState::UpToDate;
        self.can_cancel = false;
        three(
            told("complete", 4, "Up to date"),
            Effect::WindowTitle(title_for(&self.state)),
            Effect::ViewState(AppState::UpToDate),
        )
    }

    fn update_failed(&mut self, err: String) -> (r: Vec<Effect>)
        ensures
            final(self)@ == after(old(self)@, UpdatesPanelMsg::UpdateFailed(err), false),
            effects(r@) == to_do(old(self)@, UpdatesPanelMsg::UpdateFailed(err), false),
    {
        let seen = AppState::Error(err.clone());
        self.state = AppState::Error(err.clone());
        self.can_cancel = false;
        four(
            told("error", 0, err.as_str()),
            Effect::WindowTitle(title_for(&self.state)),
            notification("update-failed", "System Update Failed", err.as_str()),
            Effect::ViewState(seen),
        )
    }

    fn cancel_update(&mut self) -> (r: Vec<Effect>)
        ensures
            final(self)@ == after(old(self)@, UpdatesPanelMsg::CancelUpdate, false),
            effects(r@) == to_do(old(self)@, UpdatesPanelMsg::CancelUpdate, false),
    {
        let running = self.can_cancel;
        self.can_cancel = false;
        if !running {
            none()
        } else if self.state.is_updating() {
            self.state = AppState::Idle;
            three(
                Effect::Cancel,
                Effect::WindowTitle(title_for(&self.state)),
                Effect::ViewState(AppState::Idle),
            )
        } else {
            one(Effect::Cancel)
        }
    }

    fn confirm_reboot(&mut self) -> (r: Vec<Effect>)
        ensures
            final(self)@ == after(old(self)@, UpdatesPanelMsg::ConfirmReboot, false),
            effects(r@) == to_do(old(self)@, UpdatesPanelMsg::ConfirmReboot, false),
    {
        if self.settings.dev_mode || self.settings.dry_run {
            let mut s = "Reboot suppressed (".to_owned();
            s.append(
                if self.settings.dry_run && !self.settings.dev_mode {
                    "dry-run"
                } else {
                    "developer mode"
                },
            );
            s.append(")");
            one(Effect::Toast(s))
        } else {
            one(Effect::Reboot)
        }
    }

    fn page_changed(&mut self, page: String) -> (r: Vec<Effect>)
        ensures
            final(self)@ == after(old(self)@, UpdatesPanelMsg::PageChanged(page), false),
            effects(r@) == to_do(old(self)@, UpdatesPanelMsg::PageChanged(page), false),
    {
        let label = label_of_page(page.as_str()).to_owned();
        self.current_page = page.clone();
        two(
            Effect::HeaderTitle(label),
            Effect::Output(UpdatesPanelOutput::PageChanged(page)),
        )
    }

    fn dismiss_banner(&mut self) -> (r: Vec<Effect>)
        ensures
            final(self)@ == after(old(self)@, UpdatesPanelMsg::DismissBanner, false),
            effects(r@) == to_do(old(self)@, UpdatesPanelMsg::DismissBanner, false),
    {
        if self.state.is_over() {
            self.state = AppState::Idle;
            three(
                Effect::ViewDismissBanner,
                Effect::WindowTitle(title_for(&self.state)),
                Effect::ViewState(AppState::Idle),
            )
        } else {
            one(Effect::ViewDismissBanner)
        }
    }

    /// Take up a message: change the state, and tell what is to be done.
    /// `metered` is whether the network is.
    pub fn update(&mut self, msg: UpdatesPanelMsg, metered: bool) -> (r: Vec<Effect>)
        ensures
            final(self)@ == after(old(self)@, msg, metered),
            effects(r@) == to_do(old(self)@, msg, metered),
    {
        match msg {
            UpdatesPanelMsg::StartUpdate { skip_metered_check } => self.start_update(
                skip_metered_check,
                metered,
            ),
            UpdatesPanelMsg::OpenCheckDialog => two(
                told("checking", 0, "Checking for updates…"),
                Effect::ShowCheckDialog {
                    simulated: self.settings.dev_mode || self.settings.dry_run,
                    scenario: self.sim_scenario,
                },
            ),
            UpdatesPanelMsg::CheckComplete(result) => self.check_complete(result),
            UpdatesPanelMsg::InstallFromCheck => one(Effect::StartWithoutAsking),
            UpdatesPanelMsg::OutputLine(line) => self.output_line(line),
            UpdatesPanelMsg::ModuleStarted(module) => self.module_started(module),
            UpdatesPanelMsg::ModuleFinished(module, status) => one(
                Effect::ViewModuleFinished(module, status),
            ),
            UpdatesPanelMsg::UpdateComplete => self.update_complete(),
            UpdatesPanelMsg::UpdateUpToDate => self.update_up_to_date(),
            UpdatesPanelMsg::UpdateFailed(err) => self.update_failed(err),
            UpdatesPanelMsg::CancelUpdate => self.cancel_update(),
            UpdatesPanelMsg::RequestReboot => one(Effect::AskReboot),
            UpdatesPanelMsg::ConfirmReboot => self.confirm_reboot(),
            UpdatesPanelMsg::ShowRebaseDialog => one(Effect::ShowRebaseDialog),
            UpdatesPanelMsg::ShowAbout => one(Effect::ShowAbout),
            UpdatesPanelMsg::ShowPreferences => one(Effect::ShowPreferences),
            UpdatesPanelMsg::SettingsChanged(s) => {
                self.settings = s;
                one(Effect::ViewSettings(s))
            },
            UpdatesPanelMsg::PreflightResult(s) => {
                self.preflight_status = s;
                one(Effect::ViewPreflight(s))
            },
            UpdatesPanelMsg::PageChanged(page) => self.page_changed(page),
            UpdatesPanelMsg::GoBack => one(Effect::ViewPage("main".to_owned())),
            UpdatesPanelMsg::ShowWhatsNew => one(Effect::ViewChangelog(String::new())),
            UpdatesPanelMsg::ShowChangelogForTag(tag) => one(Effect::ViewChangelog(tag)),
            UpdatesPanelMsg::DismissBanner => self.dismiss_banner(),
            UpdatesPanelMsg::TriggerPowerwash => one(Effect::ViewPin("powerwash".to_owned())),
            UpdatesPanelMsg::TriggerFactoryReset => one(Effect::ViewPin("factory".to_owned())),
            UpdatesPanelMsg::ShowStatusPage(page) => one(Effect::ViewPage(page)),
            UpdatesPanelMsg::ToggleDevMode(enabled) => {
                self.settings = PanelSettings {
                    dev_mode: enabled,
                    dry_run: self.settings.dry_run,
                    pause_on_metered: self.settings.pause_on_metered,
                };
                one(Effect::SaveSettings)
            },
            UpdatesPanelMsg::SetSimScenario(scenario) => {
                self.sim_scenario = scenario;
                none()
            },
            UpdatesPanelMsg::Quit => {
                if self.state.is_updating() {
                    one(Effect::AskQuit)
                } else {
                    one(Effect::Quit)
                }
            },
        }
    }
}

/// The scenario that a setting names.
pub open spec fn scenario_named(name: Option<Seq<char>>) -> SimulationScenario {
    match name {
        Some(s) => if s == "Failure"@ || s == "failure"@ {
            SimulationScenario::Failure
        } else if s == "AlreadyUpToDate"@ || s == "up-to-date"@ || s == "uptodate"@ {
            SimulationScenario::AlreadyUpToDate
        } else {
            SimulationScenario::Success
        },
        None => SimulationScenario::Success,
    }
}

/// The scenario that a setting names.
pub fn parse_scenario(name: Option<&str>) -> (r: SimulationScenario)
    ensures
        r == scenario_named(
            match name {
                Some(s) => Some(s@),
                None => None,
            },
        ),
{
    match name {
        Some(s) => if text::eq(s, "Failure") || text::eq(s, "failure") {
            SimulationScenario::Failure
        } else if text::eq(s, "AlreadyUpToDate") || text::eq(s, "up-to-date") || text::eq(
            s,
            "uptodate",
        ) {
            SimulationScenario::AlreadyUpToDate
        } else {
            SimulationScenario::Success
        },
        None => SimulationScenario::Success,
    }
}

/// The panel as it starts.
pub open spec fn initial_panel(
    settings: PanelSettings,
    sim_scenario: Option<Seq<char>>,
    is_embedded: bool,
) -> PanelModel {
    PanelModel {
        state: AppState::Idle,
        preflight_status: PreflightStatus::Checking,
        sim_scenario: scenario_named(sim_scenario),
        log_lines: Seq::empty(),
        can_cancel: false,
        current_page: "main"@,
        settings,
        is_embedded,
    }
}

/// How the check at the start is made.
#[derive(Debug)]
pub enum PreflightPlan {
    /// It is not: this is the answer.
    Answer(PreflightStatus),
    /// Run this command, with the rights of an administrator.
    Run(Vec<&'static str>),
}

/// How the check at the start is made, taken by its characters.
pub enum CheckModel {
    Answer(PreflightStatus),
    Run(Seq<Seq<char>>),
}

/// How the check at the start is made.
pub open spec fn first_check(has_mock_identity: bool) -> CheckModel {
    if has_mock_identity {
        CheckModel::Answer(PreflightStatus::UpdateAvailable)
    } else {
        CheckModel::Run(seq!["bootc"@, "upgrade"@, "--check"@])
    }
}

/// How the check at the start is made. A mock identity has an update; else the
/// host is asked, in a dry run too: asking changes nothing.
pub fn plan_preflight(has_mock_identity: bool) -> (r: PreflightPlan)
    ensures
        match r {
            PreflightPlan::Answer(s) => first_check(has_mock_identity) == CheckModel::Answer(s),
            PreflightPlan::Run(v) => first_check(has_mock_identity) == CheckModel::Run(
                text::strs(v@),
            ),
        },
{
    if has_mock_identity {
        PreflightPlan::Answer(PreflightStatus::UpdateAvailable)
    } else {
        let v = vec!["bootc", "upgrade", "--check"];
        assert(text::strs(v@) =~= seq!["bootc"@, "upgrade"@, "--check"@]);
        PreflightPlan::Run(v)
    }
}

/// After how many seconds the check at the start is given up.
pub const PREFLIGHT_TIMEOUT_SECS: u64 = 15;

/// How many versions are fetched ahead at the start.
pub const PREFETCH_COUNT: usize = 120;

/// What the check at the start says, from the code it exited with.
pub open spec fn status_after(exit_code: Option<i32>) -> PreflightStatus {
    if exit_code == Some(0i32) {
        PreflightStatus::UpdateAvailable
    } else if exit_code == Some(77i32) {
        PreflightStatus::UpToDate
    } else {
        PreflightStatus::Unknown
    }
}

/// What the check at the start says, from the code it exited with; `None` where
/// it could not be run or was given up.
pub fn preflight_status(exit_code: Option<i32>) -> (r: PreflightStatus)
    ensures
        r == status_after(exit_code),
{
    match exit_code {
        Some(c) => if c == 0 {
            PreflightStatus::UpdateAvailable
        } else if c == 77 {
            PreflightStatus::UpToDate
        } else {
            PreflightStatus::Unknown
        },
        None => PreflightStatus::Unknown,
    }
}

/// The message that an event of an update run is for the panel.
pub open spec fn message_for(e: UpdateEvent) -> UpdatesPanelMsg {
    match e {
        UpdateEvent::Output(line) => UpdatesPanelMsg::OutputLine(line),
        UpdateEvent::ModuleStarted(m) => UpdatesPanelMsg::ModuleStarted(m),
        UpdateEvent::ModuleFinished(m, s) => UpdatesPanelMsg::ModuleFinished(m, s),
        UpdateEvent::Complete => UpdatesPanelMsg::UpdateComplete,
        UpdateEvent::UpToDate => UpdatesPanelMsg::UpdateUpToDate,
        UpdateEvent::Error(err) => UpdatesPanelMsg::UpdateFailed(err),
    }
}

/// The message that an event of an update run is for the panel.
pub fn panel_message(e: UpdateEvent) -> (r: UpdatesPanelMsg)
    ensures
        r == message_for(e),
{
    match e {
        UpdateEvent::Output(line) => UpdatesPanelMsg::OutputLine(line),
        UpdateEvent::ModuleStarted(m) => UpdatesPanelMsg::ModuleStarted(m),
        UpdateEvent::ModuleFinished(m, s) => UpdatesPanelMsg::ModuleFinished(m, s),
        UpdateEvent::Complete => UpdatesPanelMsg::UpdateComplete,
        UpdateEvent::UpToDate => UpdatesPanelMsg::UpdateUpToDate,
        UpdateEvent::Error(err) => UpdatesPanelMsg::UpdateFailed(err),
    }
}

/// The message that an event of an update run is for the panel.
pub open spec fn relayed(e: UpdateEvent, updating: bool) -> Option<UpdatesPanelMsg> {
    if e is Error && !updating {
        None
    } else {
        Some(message_for(e))
    }
}

/// The message that an event of an update run is for the panel, while `updating`
/// tells whether it is still running: that a run which was cancelled has ended
/// with an error is no news.
pub fn relay(e: UpdateEvent, updating: bool) -> (r: Option<UpdatesPanelMsg>)
    ensures
        r == relayed(e, updating),
{
    match e {
        UpdateEvent::Error(err) => if updating {
            Some(UpdatesPanelMsg::UpdateFailed(err))
        } else {
            None
        },
        other => Some(panel_message(other)),
    }
}

/// What a check comes to in a simulation.
pub open spec fn simulated_status(scenario: SimulationScenario) -> PreflightStatus {
    if scenario is AlreadyUpToDate {
        PreflightStatus::UpToDate
    } else {
        PreflightStatus::UpdateAvailable
    }
}

/// What a check comes to in a simulation.
pub fn simulated_check(scenario: SimulationScenario) -> (r: PreflightStatus)
    ensures
        r == simulated_status(scenario),
{
    match scenario {
        SimulationScenario::AlreadyUpToDate => PreflightStatus::UpToDate,
        _ => PreflightStatus::UpdateAvailable,
    }
}

/// What a check of the system image alone has found.
pub open spec fn image_result(status: PreflightStatus) -> CheckResult {
    if status is UpdateAvailable {
        CheckResult { system_update: true, sources_with_updates: 1 }
    } else {
        CheckResult { system_update: false, sources_with_updates: 0 }
    }
}

/// What a check of the system image alone has found.
pub fn image_check(status: PreflightStatus) -> (r: CheckResult)
    ensures
        r == image_result(status),
{
    match status {
        PreflightStatus::UpdateAvailable => CheckResult {
            system_update: true,
            sources_with_updates: 1,
        },
        _ => CheckResult { system_update: false, sources_with_updates: 0 },
    }
}

/// A question that the user is asked.
#[derive(Debug, Clone, Copy, PartialEq, Eq, Structural)]
pub enum Question {
    /// Whether to update on a metered network.
    Metered,
    /// Whether to restart the machine.
    Reboot,
    /// Whether to close while an update is running.
    Quit,
}

/// What follows from an answer.
#[derive(Debug)]
pub enum Answer {
    Nothing,
    /// Send this message to the panel.
    Send(UpdatesPanelMsg),
    Quit,
}

/// The answer that confirms a question; any other does not.
pub open spec fn confirming_response(q: Question) -> Seq<char> {
    match q {
        Question::Metered => "proceed"@,
        Question::Reboot => "restart"@,
        Question::Quit => "close"@,
    }
}

/// What follows from a confirmed question.
pub open spec fn confirmed(q: Question) -> Answer {
    match q {
        Question::Metered => Answer::Send(
            UpdatesPanelMsg::StartUpdate { skip_metered_check: true },
        ),
        Question::Reboot => Answer::Send(UpdatesPanelMsg::ConfirmReboot),
        Question::Quit => Answer::Quit,
    }
}

/// What follows from the answer to a question.
pub open spec fn answered(q: Question, response: Seq<char>) -> Answer {
    if response == confirming_response(q) {
        confirmed(q)
    } else {
        Answer::Nothing
    }
}

/// What follows from the answer to a question. Closing it is no confirmation.
pub fn answer(q: Question, response: &str) -> (r: Answer)
    ensures
        r == answered(q, response@),
{
    match q {
        Question::Metered => if text::eq(response, "proceed") {
            Answer::Send(UpdatesPanelMsg::StartUpdate { skip_metered_check: true })
        } else {
            Answer::Nothing
        },
        Question::Reboot => if text::eq(response, "restart") {
            Answer::Send(UpdatesPanelMsg::ConfirmReboot)
        } else {
            Answer::Nothing
        },
        Question::Quit => if text::eq(response, "close") {
            Answer::Quit
        } else {
            Answer::Nothing
        },
    }
}

/// The banner of the panel: its words, and whether it is shown.
pub open spec fn banner_words(settings: PanelSettings) -> (Seq<char>, bool) {
    (
        if settings.dev_mode {
            "Developer Mode — updates are simulated"@
        } else {
            "Dry run — actions are recorded, your system is not modified"@
        },
        settings.dev_mode || settings.dry_run,
    )
}

/// The banner of the panel: its words, and whether it is shown. A simulation
/// and a dry run are different things, and are told apart.
pub fn banner(settings: &PanelSettings) -> (r: (&'static str, bool))
    ensures
        (r.0@, r.1) == banner_words(*settings),
{
    let words = if settings.dev_mode {
        "Developer Mode — updates are simulated"
    } else {
        "Dry run — actions are recorded, your system is not modified"
    };
    (words, settings.dev_mode || settings.dry_run)
}

/// An embedded panel shows its own header.
pub open spec fn has_header(p: PanelModel) -> bool {
    p.is_embedded && p.current_page != "main"@
}

/// Whether an embedded panel shows its own header: on every page but the main
/// one.
pub fn shows_header(panel: &UpdatesPanel) -> (r: bool)
    ensures
        r == has_header(panel@),
{
    panel.is_embedded && !text::eq(panel.current_page.as_str(), "main")
}

// ---------------------------------------------------------------------------
// The window

/// The window around a panel.
#[derive(Debug)]
pub struct App {
    pub current_page: String,
}

/// The messages that the window receives.
#[derive(Debug)]
pub enum AppMsg {
    UpdatesPanelOutput(UpdatesPanelOutput),
    GoBack,
    CloseRequest,
}

/// What is to be done about a message to the window.
#[derive(Debug)]
pub enum AppEffect {
    /// Show this header, with a way back unless on the main page.
    Header { title: String, subtitle: String, window_title: String, back: bool },
    /// Have the panel show this page.
    ShowPage(String),
    AskQuit,
    Quit,
}

/// An effect on the window, taken by its characters.
pub enum AppEffectModel {
    Header { title: Seq<char>, subtitle: Seq<char>, window_title: Seq<char>, back: bool },
    ShowPage(Seq<char>),
    AskQuit,
    Quit,
}

impl View for AppEffect {
    type V = AppEffectModel;

    open spec fn view(&self) -> AppEffectModel {
        match *self {
            AppEffect::Header { title, subtitle, window_title, back } => AppEffectModel::Header {
                title: title@,
                subtitle: subtitle@,
                window_title: window_title@,
                back,
            },
            AppEffect::ShowPage(s) => AppEffectModel::ShowPage(s@),
            AppEffect::AskQuit => AppEffectModel::AskQuit,
            AppEffect::Quit => AppEffectModel::Quit,
        }
    }
}

/// The header of the window on a page.
pub open spec fn header_for(page: Seq<char>) -> AppEffectModel {
    if page == "main"@ {
        AppEffectModel::Header {
            title: "Finupdate"@,
            subtitle: Seq::empty(),
            window_title: "Finupdate"@,
            back: false,
        }
    } else {
        AppEffectModel::Header {
            title: page_label(page),
            subtitle: "Finupdate"@,
            window_title: "Finupdate — "@ + page_label(page),
            back: true,
        }
    }
}

/// What is to be done about a message to the window.
pub open spec fn window_to_do(msg: AppMsg, updating: bool) -> AppEffectModel {
    match msg {
        AppMsg::UpdatesPanelOutput(UpdatesPanelOutput::PageChanged(page)) => header_for(page@),
        AppMsg::GoBack => AppEffectModel::ShowPage("main"@),
        AppMsg::CloseRequest => if updating {
            AppEffectModel::AskQuit
        } else {
            AppEffectModel::Quit
        },
    }
}

/// The page that the window is on after a message.
pub open spec fn page_after(page: Seq<char>, msg: AppMsg) -> Seq<char> {
    match msg {
        AppMsg::UpdatesPanelOutput(UpdatesPanelOutput::PageChanged(next)) => next@,
        _ => page,
    }
}

fn header(page: &str) -> (r: AppEffect)
    ensures
        r@ == header_for(page@),
{
    let label = label_of_page(page);
    if text::eq(page, "main") {
        AppEffect::Header {
            title: label.to_owned(),
            subtitle: String::new(),
            window_title: "Finupdate".to_owned(),
            back: false,
        }
    } else {
        let mut window_title = "Finupdate — ".to_owned();
        window_title.append(label);
        AppEffect::Header {
            title: label.to_owned(),
            subtitle: "Finupdate".to_owned(),
            window_title,
            back: true,
        }
    }
}

impl App {
    /// Take up a message. `updating` is whether the panel runs an update.
    pub fn update(&mut self, msg: AppMsg, updating: bool) -> (r: AppEffect)
        ensures
            r@ == window_to_do(msg, updating),
            final(self).current_page@ == page_after(old(self).current_page@, msg),
    {
        match msg {
            AppMsg::UpdatesPanelOutput(UpdatesPanelOutput::PageChanged(page)) => {
                let effect = header(page.as_str());
                self.current_page = page;
                effect
            },
            AppMsg::GoBack => AppEffect::ShowPage("main".to_owned()),
            AppMsg::CloseRequest => if updating {
                AppEffect::AskQuit
            } else {
                AppEffect::Quit
            },
        }
    }
}

/// The size that a text like `360x640` gives: two numbers with an `x` between
/// them, neither below 200.
pub open spec fn window_size(raw: Seq<char>) -> Option<(int, int)> {
    match cross_index(raw) {
        Some(i) => match (side(raw.take(i)), side(raw.skip(i + 1))) {
            (Some(w), Some(h)) => if w < 200 || h < 200 {
                None
            } else {
                Some((w, h))
            },
            _ => None,
        },
        None => None,
    }
}

/// Where the first `x` or `X` stands.
pub open spec fn cross_index(s: Seq<char>) -> Option<int>
    decreases s.len(),
{
    if s.len() == 0 {
        None
    } else {
        match cross_index(s.drop_last()) {
            Some(i) => Some(i),
            None => if s.last() == 'x' || s.last() == 'X' {
                Some(s.len() - 1)
            } else {
                None
            },
        }
    }
}

/// One side of a size: a number with blanks around it.
pub open spec fn side(s: Seq<char>) -> Option<int> {
    match text::integer(text::trimmed(s)) {
        Some(n) => if i32::MIN <= n <= i32::MAX {
            Some(n)
        } else {
            None
        },
        None => None,
    }
}

fn find_cross(s: &str) -> (r: Option<usize>)
    ensures
        match r {
            Some(i) => cross_index(s@) == Some(i as int) && i < s@.len(),
            None => cross_index(s@) is None,
        },
{
    let cs = text::chars_of(s);
    let mut i: usize = 0;
    while i < cs.len()
        invariant
            i <= cs@.len(),
            cs@ == s@,
            cross_index(s@.take(i as int)) is None,
        decreases cs@.len() - i,
    {
        proof {
            assert(s@.take(i + 1).drop_last() =~= s@.take(i as int));
            assert(s@.take(i + 1).last() == s@[i as int]);
        }
        if cs[i] == 'x' || cs[i] == 'X' {
            proof {
                lemma_cross_stays(s@, i + 1);
            }
            return Some(i);
        }
        i += 1;
    }
    assert(s@.take(s@.len() as int) =~= s@);
    None
}

proof fn lemma_cross_stays(s: Seq<char>, k: int)
    requires
        0 <= k <= s.len(),
        cross_index(s.take(k)) is Some,
    ensures
        cross_index(s) == cross_index(s.take(k)),
    decreases s.len() - k,
{
    if k < s.len() {
        assert(s.take(k + 1).drop_last() =~= s.take(k));
        lemma_cross_stays(s, k + 1);
    } else {
        assert(s.take(k) =~= s);
    }
}

fn parse_side(s: &str) -> (r: Option<i32>)
    ensures
        match r {
            Some(n) => side(s@) == Some(n as int),
            None => side(s@) is None,
        },
{
    text::parse_i32(text::trim(s))
}

/// Read a window size like `360x640`. `None` where it is malformed, or too
/// small for a window that can be used.
pub fn parse_window_size(raw: &str) -> (r: Option<(i32, i32)>)
    ensures
        match r {
            Some(size) => window_size(raw@) == Some((size.0 as int, size.1 as int)),
            None => window_size(raw@) is None,
        },
{
    match find_cross(raw) {
        Some(i) => {
            let n: usize = text::len(raw);
            let left = text::slice(raw, 0, i);
            let right = text::slice(raw, i + 1, n);
            assert(left@ =~= raw@.take(i as int));
            assert(right@ =~= raw@.skip(i + 1));
            match (parse_side(left), parse_side(right)) {
                (Some(w), Some(h)) => if w < 200 || h < 200 {
                    None
                } else {
                    Some((w, h))
                },
                _ => None,
            }
        },
        None => None,
    }
}

// ---------------------------------------------------------------------------
// Laws

/// A panel in order: an update can be cancelled exactly while it is running.
pub open spec fn in_order(p: PanelModel) -> bool {
    p.can_cancel <==> p.state is Updating
}

/// The panel is in order when it starts, and every message keeps it so.
pub proof fn law_panel_stays_in_order(
    p: PanelModel,
    msg: UpdatesPanelMsg,
    metered: bool,
    settings: PanelSettings,
    scenario: Option<Seq<char>>,
    is_embedded: bool,
)
    ensures
        in_order(initial_panel(settings, scenario, is_embedded)),
        in_order(p) ==> in_order(after(p, msg, metered)),
{
}

/// The states that follow each other: an update starts from any state in which
/// none is running, ends completed or failed, or is cancelled, and is
/// dismissed; nothing else changes the state.
pub proof fn law_state_machine(p: PanelModel, msg: UpdatesPanelMsg, metered: bool)
    requires
        in_order(p),
    ensures
        ({
            let next = after(p, msg, metered).state;
            match msg {
                UpdatesPanelMsg::StartUpdate { skip_metered_check } => next == (if is_asked_about(
                    p,
                    skip_metered_check,
                    metered,
                ) {
                    p.state
                } else {
                    AppState::Updating
                }),
                UpdatesPanelMsg::UpdateComplete => next is Complete,
                UpdatesPanelMsg::UpdateUpToDate => next is UpToDate,
                UpdatesPanelMsg::UpdateFailed(err) => next == AppState::Error(err),
                UpdatesPanelMsg::CancelUpdate => next == (if p.state is Updating {
                    AppState::Idle
                } else {
                    p.state
                }),
                UpdatesPanelMsg::DismissBanner => next == (if p.state is Updating {
                    AppState::Updating
                } else {
                    AppState::Idle
                }),
                _ => next == p.state,
            }
        }),
{
}

/// Every change of state is told to the window and to the view.
pub proof fn law_state_changes_are_told(p: PanelModel, msg: UpdatesPanelMsg, metered: bool)
    requires
        after(p, msg, metered).state != p.state,
    ensures
        to_do(p, msg, metered).contains(EffectModel::ViewState(after(p, msg, metered).state)),
        to_do(p, msg, metered).contains(
            EffectModel::WindowTitle(state_title(after(p, msg, metered).state)),
        ),
{
    let list = to_do(p, msg, metered);
    let next = after(p, msg, metered).state;
    if list.len() == 3 {
        assert(list[0] == EffectModel::WindowTitle(state_title(next)) || list[1]
            == EffectModel::WindowTitle(state_title(next)));
        assert(list[1] == EffectModel::ViewState(next) || list[2] == EffectModel::ViewState(next));
    } else {
        assert(list[1] == EffectModel::WindowTitle(state_title(next)));
        assert(list[2] == EffectModel::ViewState(next) || list[3] == EffectModel::ViewState(next));
    }
}

/// While an update is running no other is started, and the panel is not closed
/// without asking.
pub proof fn law_running_update_is_guarded(p: PanelModel, skip: bool, metered: bool)
    requires
        p.state is Updating,
    ensures
        after(p, UpdatesPanelMsg::StartUpdate { skip_metered_check: skip }, metered) == p,
        to_do(p, UpdatesPanelMsg::StartUpdate { skip_metered_check: skip }, metered)
            =~= Seq::empty(),
        to_do(p, UpdatesPanelMsg::Quit, metered) =~= seq![EffectModel::AskQuit],
        window_to_do(AppMsg::CloseRequest, p.state is Updating) == AppEffectModel::AskQuit,
{
}

/// The end of an update is final: it cannot be cancelled any more, and the
/// state says how it ended.
pub proof fn law_end_of_update(p: PanelModel, e: UpdateEvent, metered: bool)
    requires
        orchestrator::is_terminal(e),
    ensures
        !after(p, message_for(e), metered).can_cancel,
        e is Complete <==> after(p, message_for(e), metered).state is Complete,
        e is UpToDate <==> after(p, message_for(e), metered).state is UpToDate,
        e matches UpdateEvent::Error(s) ==> after(p, message_for(e), metered).state
            == AppState::Error(s),
{
}

/// Only the user, asked, restarts the machine, and never in developer mode or a
/// dry run.
pub proof fn law_reboot_is_confirmed(p: PanelModel, msg: UpdatesPanelMsg, metered: bool)
    requires
        to_do(p, msg, metered).contains(EffectModel::Reboot),
    ensures
        msg is ConfirmReboot,
        !p.settings.dev_mode,
        !p.settings.dry_run,
{
}

/// Cancelling twice cancels once.
pub proof fn law_cancel_once(p: PanelModel, metered: bool)
    ensures
        to_do(
            after(p, UpdatesPanelMsg::CancelUpdate, metered),
            UpdatesPanelMsg::CancelUpdate,
            metered,
        ) =~= Seq::empty(),
{
}

/// On a metered network an update that the settings pause is asked about, and
/// starts once the user has said so.
pub proof fn law_metered_network_is_asked_about(p: PanelModel)
    requires
        !(p.state is Updating),
        p.settings.pause_on_metered,
    ensures
        after(p, UpdatesPanelMsg::StartUpdate { skip_metered_check: false }, true) == p,
        to_do(p, UpdatesPanelMsg::StartUpdate { skip_metered_check: false }, true) =~= seq![
            EffectModel::AskMetered,
        ],
        after(p, UpdatesPanelMsg::StartUpdate { skip_metered_check: true }, true).state
            is Updating,
{
}

/// No message loses a line of the log.
pub proof fn law_log_only_grows(p: PanelModel, msg: UpdatesPanelMsg, metered: bool)
    ensures
        p.log_lines.len() <= after(p, msg, metered).log_lines.len(),
        after(p, msg, metered).log_lines.take(p.log_lines.len() as int) =~= p.log_lines,
{
}

/// A window size that is taken is one that can be used.
pub proof fn law_window_size_is_usable(raw: Seq<char>)
    ensures
        window_size(raw) matches Some(size) ==> size.0 >= 200 && size.1 >= 200,
{
}

/// Every outcome of a module that a run reports reaches the view unchanged, and
/// nothing else does with it: a module that has failed is never shown as updated.
pub proof fn law_outcomes_reach_the_view(
    p: PanelModel,
    m: Module,
    s: ModuleStatus,
    metered: bool,
)
    ensures
        to_do(p, UpdatesPanelMsg::ModuleFinished(m, s), metered) =~= seq![
            EffectModel::ViewModuleFinished(m, s),
        ],
        to_do(p, message_for(UpdateEvent::ModuleFinished(m, s)), metered) =~= seq![
            EffectModel::ViewModuleFinished(m, s),
        ],
        after(p, UpdatesPanelMsg::ModuleFinished(m, s), metered) == p,
{
}

/// What a run reports is shown as it is reported, whatever the state: each line,
/// in the log and in the view; each module that starts, with its name and how
/// many come before it; and its end.
pub proof fn law_run_is_shown(
    p: PanelModel,
    line: String,
    m: Module,
    metered: bool,
)
    ensures
        to_do(p, message_for(UpdateEvent::Output(line)), metered) =~= seq![
            EffectModel::ViewLog(line@),
        ],
        after(p, message_for(UpdateEvent::Output(line)), metered).log_lines == p.log_lines.push(
            line,
        ),
        to_do(p, message_for(UpdateEvent::ModuleStarted(m)), metered).contains(
            EffectModel::ViewModuleStarted(m),
        ),
        to_do(p, message_for(UpdateEvent::ModuleStarted(m)), metered).contains(
            EffectModel::Advance {
                quarters: match m {
                    Module::System => 0,
                    Module::Flatpak => 1,
                    Module::Brew => 2,
                    Module::Distrobox => 3,
                },
                message: match m {
                    Module::System => "Updating system…"@,
                    Module::Flatpak => "Updating flatpak…"@,
                    Module::Brew => "Updating brew…"@,
                    Module::Distrobox => "Updating distrobox…"@,
                },
            },
        ),
        after(p, message_for(UpdateEvent::ModuleStarted(m)), metered) == p,
{
    let list = to_do(p, message_for(UpdateEvent::ModuleStarted(m)), metered);
    reveal_strlit("Updating ");
    reveal_strlit("…");
    reveal_strlit("system");
    reveal_strlit("flatpak");
    reveal_strlit("brew");
    reveal_strlit("distrobox");
    reveal_strlit("Updating system…");
    reveal_strlit("Updating flatpak…");
    reveal_strlit("Updating brew…");
    reveal_strlit("Updating distrobox…");
    match m {
        Module::System => {
            assert("Updating "@ + "system"@ + "…"@ =~= "Updating system…"@);
        },
        Module::Flatpak => {
            assert("Updating "@ + "flatpak"@ + "…"@ =~= "Updating flatpak…"@);
        },
        Module::Brew => {
            assert("Updating "@ + "brew"@ + "…"@ =~= "Updating brew…"@);
        },
        Module::Distrobox => {
            assert("Updating "@ + "distrobox"@ + "…"@ =~= "Updating distrobox…"@);
        },
    }
    assert(list[0] is Advance);
    assert(list[1] == EffectModel::ViewModuleStarted(m));
}

/// How a run ended is told to the view, to other programs and on the desktop: a
/// failure with its reason and never as an update; an update as complete; and
/// where there was nothing to update, nobody is called.
pub proof fn law_end_is_told(p: PanelModel, err: String, metered: bool)
    ensures
        ({
            let failed = to_do(p, message_for(UpdateEvent::Error(err)), metered);
            let done = to_do(p, message_for(UpdateEvent::Complete), metered);
            let nothing = to_do(p, message_for(UpdateEvent::UpToDate), metered);
            &&& failed.contains(EffectModel::ViewState(AppState::Error(err)))
            &&& failed.contains(progress("error"@, 0, err@))
            &&& failed.contains(
                EffectModel::Notify {
                    id: "update-failed"@,
                    title: "System Update Failed"@,
                    body: err@,
                },
            )
            &&& forall|i: int| 0 <= i < failed.len() ==> !(#[trigger] failed[i] matches
                EffectModel::ViewState(s) && !(s is Error))
            &&& done.contains(EffectModel::ViewState(AppState::Complete))
            &&& done.contains(progress("complete"@, 4, "Update complete"@))
            &&& done.contains(
                EffectModel::Notify {
                    id: "update-complete"@,
                    title: "System Update Complete"@,
                    body: "Your system has been updated. Restart to apply changes."@,
                },
            )
            &&& nothing.contains(EffectModel::ViewState(AppState::UpToDate))
            &&& nothing.contains(progress("complete"@, 4, "Up to date"@))
            &&& forall|i: int| 0 <= i < nothing.len() ==> !(#[trigger] nothing[i] is Notify)
        }),
{
    let failed = to_do(p, message_for(UpdateEvent::Error(err)), metered);
    let done = to_do(p, message_for(UpdateEvent::Complete), metered);
    let nothing = to_do(p, message_for(UpdateEvent::UpToDate), metered);
    assert(failed[0] == progress("error"@, 0, err@) && failed[2] is Notify && failed[3]
        == EffectModel::ViewState(AppState::Error(err)));
    assert(done[0] == progress("complete"@, 4, "Update complete"@) && done[2]
        == EffectModel::ViewState(AppState::Complete) && done[3] is Notify);
    assert(nothing[0] == progress("complete"@, 4, "Up to date"@) && nothing[2]
        == EffectModel::ViewState(AppState::UpToDate));
}

/// What a message may change: only a start, an end, a cancellation and a
/// dismissal change the state; only a line of output the log; only a check what
/// is known of updates; only the settings the settings; only a change of page the
/// page. Where the panel stands never changes.
pub proof fn law_messages_change_their_own(p: PanelModel, msg: UpdatesPanelMsg, metered: bool)
    ensures
        ({
            let q = after(p, msg, metered);
            &&& q.state != p.state ==> msg is StartUpdate || msg is UpdateComplete
                || msg is UpdateUpToDate || msg is UpdateFailed || msg is CancelUpdate
                || msg is DismissBanner
            &&& q.log_lines != p.log_lines ==> msg is OutputLine
            &&& q.preflight_status != p.preflight_status ==> msg is CheckComplete
                || msg is PreflightResult
            &&& q.settings != p.settings ==> msg is SettingsChanged || msg is ToggleDevMode
            &&& q.sim_scenario != p.sim_scenario ==> msg is SetSimScenario
            &&& q.current_page != p.current_page ==> msg is PageChanged
            &&& q.is_embedded == p.is_embedded
        }),
{
}

/// What a message sets is what it says: the settings, developer mode alone, the
/// scenario, the page, and what is known of updates.
pub proof fn law_messages_are_taken_up(
    p: PanelModel,
    s: PanelSettings,
    on: bool,
    scenario: SimulationScenario,
    status: PreflightStatus,
    r: CheckResult,
    page: String,
    metered: bool,
)
    ensures
        after(p, UpdatesPanelMsg::SettingsChanged(s), metered).settings == s,
        to_do(p, UpdatesPanelMsg::SettingsChanged(s), metered) =~= seq![
            EffectModel::ViewSettings(s),
        ],
        ({
            let t = after(p, UpdatesPanelMsg::ToggleDevMode(on), metered).settings;
            t.dev_mode == on && t.dry_run == p.settings.dry_run && t.pause_on_metered
                == p.settings.pause_on_metered
        }),
        to_do(p, UpdatesPanelMsg::ToggleDevMode(on), metered) =~= seq![EffectModel::SaveSettings],
        after(p, UpdatesPanelMsg::SetSimScenario(scenario), metered).sim_scenario == scenario,
        after(p, UpdatesPanelMsg::PreflightResult(status), metered).preflight_status == status,
        to_do(p, UpdatesPanelMsg::PreflightResult(status), metered) =~= seq![
            EffectModel::ViewPreflight(status),
        ],
        after(p, UpdatesPanelMsg::CheckComplete(r), metered).preflight_status is UpdateAvailable
            <==> r.sources_with_updates > 0,
        after(p, UpdatesPanelMsg::CheckComplete(r), metered).preflight_status is UpToDate
            <==> r.sources_with_updates == 0,
        to_do(p, UpdatesPanelMsg::CheckComplete(r), metered).last() == EffectModel::ViewPreflight(
            after(p, UpdatesPanelMsg::CheckComplete(r), metered).preflight_status,
        ),
        after(p, UpdatesPanelMsg::PageChanged(page), metered).current_page == page@,
        to_do(p, UpdatesPanelMsg::PageChanged(page), metered).last() == EffectModel::OutputPage(
            page@,
        ),
{
}

/// A check for updates is simulated exactly in developer mode and in a dry run,
/// with the scenario that was set; in a simulation, and of the image alone, what
/// it finds is what the panel then says.
pub proof fn law_checks_say_what_they_find(
    p: PanelModel,
    status: PreflightStatus,
    metered: bool,
    code: i32,
)
    ensures
        to_do(p, UpdatesPanelMsg::OpenCheckDialog, metered).contains(
            EffectModel::ShowCheckDialog {
                simulated: p.settings.dev_mode || p.settings.dry_run,
                scenario: p.sim_scenario,
            },
        ),
        image_result(status).system_update <==> status is UpdateAvailable,
        image_result(status).system_update <==> image_result(status).sources_with_updates == 1,
        image_result(status).sources_with_updates <= 1,
        status is UpdateAvailable || status is UpToDate ==> after(
            p,
            UpdatesPanelMsg::CheckComplete(image_result(status)),
            metered,
        ).preflight_status == status,
        simulated_status(SimulationScenario::AlreadyUpToDate) is UpToDate,
        simulated_status(SimulationScenario::Success) is UpdateAvailable,
        simulated_status(SimulationScenario::Failure) is UpdateAvailable,
        status_after(Some(0)) is UpdateAvailable,
        status_after(Some(77)) is UpToDate,
        status_after(None) is Unknown,
        code != 0 && code != 77 ==> status_after(Some(code)) is Unknown,
{
    let list = to_do(p, UpdatesPanelMsg::OpenCheckDialog, metered);
    assert(list[1] is ShowCheckDialog);
}

/// Every event of a run is relayed while it is running, and after that every one
/// but an error.
pub proof fn law_relay(e: UpdateEvent, updating: bool)
    ensures
        updating || !(e is Error) ==> relayed(e, updating) == Some(message_for(e)),
        !updating && e is Error ==> relayed(e, updating) is None,
        message_for(e) is UpdateComplete <==> e is Complete,
        message_for(e) is UpdateUpToDate <==> e is UpToDate,
        e matches UpdateEvent::Error(s) ==> message_for(e) == UpdatesPanelMsg::UpdateFailed(s),
        e matches UpdateEvent::Output(s) ==> message_for(e) == UpdatesPanelMsg::OutputLine(s),
{
}

/// An update that starts is shown, can be cancelled, and is carried out; a
/// cancellation stops it, and is shown as no update.
pub proof fn law_start_and_cancel(p: PanelModel, metered: bool)
    requires
        in_order(p),
    ensures
        ({
            let start = UpdatesPanelMsg::StartUpdate { skip_metered_check: true };
            let q = after(p, start, metered);
            let r = after(q, UpdatesPanelMsg::CancelUpdate, metered);
            &&& q.state is Updating && q.can_cancel
            &&& !(p.state is Updating) ==> to_do(p, start, metered).contains(
                EffectModel::OpenCheck,
            ) && to_do(p, start, metered).contains(EffectModel::ViewState(AppState::Updating))
            &&& r.state is Idle && !r.can_cancel
            &&& to_do(q, UpdatesPanelMsg::CancelUpdate, metered).contains(EffectModel::Cancel)
            &&& to_do(q, UpdatesPanelMsg::CancelUpdate, metered).contains(
                EffectModel::ViewState(AppState::Idle),
            )
            &&& to_do(p, UpdatesPanelMsg::InstallFromCheck, metered) =~= seq![
                EffectModel::StartWithoutAsking,
            ]
            &&& !p.can_cancel ==> to_do(p, UpdatesPanelMsg::CancelUpdate, metered).len() == 0
        }),
{
    let start = UpdatesPanelMsg::StartUpdate { skip_metered_check: true };
    let q = after(p, start, metered);
    let a = to_do(p, start, metered);
    if !(p.state is Updating) {
        assert(a[1] == EffectModel::ViewState(AppState::Updating));
        assert(a[2] == EffectModel::OpenCheck);
    }
    let c = to_do(q, UpdatesPanelMsg::CancelUpdate, metered);
    assert(c[0] == EffectModel::Cancel);
    assert(c[2] == EffectModel::ViewState(AppState::Idle));
}

/// The machine is restarted where the user has confirmed it, and the settings let
/// commands run; else the user is told that, and why, it is not. Without the
/// confirmation the user is asked.
pub proof fn law_reboot(p: PanelModel, metered: bool)
    ensures
        to_do(p, UpdatesPanelMsg::RequestReboot, metered) =~= seq![EffectModel::AskReboot],
        !p.settings.dev_mode && !p.settings.dry_run ==> to_do(
            p,
            UpdatesPanelMsg::ConfirmReboot,
            metered,
        ) =~= seq![EffectModel::Reboot],
        p.settings.dev_mode ==> to_do(p, UpdatesPanelMsg::ConfirmReboot, metered) =~= seq![
            EffectModel::Toast("Reboot suppressed (developer mode)"@),
        ],
        !p.settings.dev_mode && p.settings.dry_run ==> to_do(
            p,
            UpdatesPanelMsg::ConfirmReboot,
            metered,
        ) =~= seq![EffectModel::Toast("Reboot suppressed (dry-run)"@)],
{
    reveal_strlit("Reboot suppressed (");
    reveal_strlit("developer mode");
    reveal_strlit("dry-run");
    reveal_strlit(")");
    reveal_strlit("Reboot suppressed (developer mode)");
    reveal_strlit("Reboot suppressed (dry-run)");
    assert("Reboot suppressed ("@ + "developer mode"@ + ")"@
        =~= "Reboot suppressed (developer mode)"@);
    assert("Reboot suppressed ("@ + "dry-run"@ + ")"@ =~= "Reboot suppressed (dry-run)"@);
}

/// A question has a consequence only where it is confirmed with its own answer;
/// then an update starts on a metered network too, the machine restarts where it
/// may, or the program is closed.
pub proof fn law_confirmed_questions(q: Question, response: Seq<char>)
    ensures
        answered(Question::Metered, "proceed"@) == Answer::Send(
            UpdatesPanelMsg::StartUpdate { skip_metered_check: true },
        ),
        answered(Question::Reboot, "restart"@) == Answer::Send(UpdatesPanelMsg::ConfirmReboot),
        answered(Question::Quit, "close"@) == Answer::Quit,
        response != "proceed"@ && response != "restart"@ && response != "close"@ ==> answered(
            q,
            response,
        ) is Nothing,
        answered(Question::Metered, "cancel"@) is Nothing,
        answered(Question::Reboot, "cancel"@) is Nothing,
        answered(Question::Quit, "cancel"@) is Nothing,
        answered(Question::Reboot, response) is Send ==> response == "restart"@,
        answered(Question::Quit, response) is Quit ==> response == "close"@,
        answered(Question::Metered, response) is Send ==> response == "proceed"@,
{
    reveal_strlit("cancel");
    reveal_strlit("proceed");
    reveal_strlit("restart");
    reveal_strlit("close");
    assert("cancel"@.len() == 6 && "proceed"@.len() == 7 && "restart"@.len() == 7 && "close"@.len()
        == 5);
}

/// Where the panel leads: back to the main page, to the page or the changes that
/// were asked for, and to the dialogs of their names.
pub proof fn law_navigation(p: PanelModel, page: String, tag: String, metered: bool)
    ensures
        to_do(p, UpdatesPanelMsg::GoBack, metered) =~= seq![EffectModel::ViewPage("main"@)],
        to_do(p, UpdatesPanelMsg::ShowStatusPage(page), metered) =~= seq![
            EffectModel::ViewPage(page@),
        ],
        to_do(p, UpdatesPanelMsg::ShowChangelogForTag(tag), metered) =~= seq![
            EffectModel::ViewChangelog(tag@),
        ],
        to_do(p, UpdatesPanelMsg::ShowWhatsNew, metered) =~= seq![
            EffectModel::ViewChangelog(Seq::empty()),
        ],
        to_do(p, UpdatesPanelMsg::ShowAbout, metered) =~= seq![EffectModel::ShowAbout],
        to_do(p, UpdatesPanelMsg::ShowPreferences, metered) =~= seq![EffectModel::ShowPreferences],
        to_do(p, UpdatesPanelMsg::ShowRebaseDialog, metered) =~= seq![
            EffectModel::ShowRebaseDialog,
        ],
        to_do(p, UpdatesPanelMsg::TriggerPowerwash, metered) =~= seq![
            EffectModel::ViewPin("powerwash"@),
        ],
        to_do(p, UpdatesPanelMsg::TriggerFactoryReset, metered) =~= seq![
            EffectModel::ViewPin("factory"@),
        ],
        !(p.state is Updating) ==> to_do(p, UpdatesPanelMsg::Quit, metered) =~= seq![
            EffectModel::Quit,
        ],
        to_do(p, UpdatesPanelMsg::DismissBanner, metered).contains(EffectModel::ViewDismissBanner),
        window_to_do(AppMsg::GoBack, p.state is Updating) == AppEffectModel::ShowPage("main"@),
        !(p.state is Updating) ==> window_to_do(AppMsg::CloseRequest, false)
            == AppEffectModel::Quit,
{
    assert(to_do(p, UpdatesPanelMsg::DismissBanner, metered)[0] is ViewDismissBanner);
}

/// The names of the pages, and the header of the window on them: the program's
/// name on the main page, and on each other page its own name and a way back.
pub proof fn law_pages_and_headers(page: Seq<char>)
    ensures
        page_label("main"@) == "Finupdate"@,
        page_label("history"@) == "Version History"@,
        page_label("source"@) == "Image Source"@,
        page_label("changelog"@) == "What’s New"@,
        header_for(page) matches AppEffectModel::Header { title, subtitle, window_title, back }
            && title == page_label(page) && (back <==> page != "main"@) && text::ends_in(
            window_title,
            title,
        ) && (back ==> subtitle == "Finupdate"@) && (!back ==> subtitle.len() == 0),
{
    lemma_pages_differ();
    if let AppEffectModel::Header { title, subtitle, window_title, back } = header_for(page) {
        assert(window_title.skip(window_title.len() - title.len()) =~= title);
    }
}

/// The title of the window begins alike in every state, and is a different one in
/// each.
pub proof fn law_titles_of_the_states(err: String)
    ensures
        state_title(AppState::Idle) == "System Update"@,
        state_title(AppState::Updating) == "System Update — Updating…"@,
        state_title(AppState::Complete) == "System Update — Update complete"@,
        state_title(AppState::UpToDate) == "System Update — Already up to date"@,
        state_title(AppState::Error(err)) == "System Update — Update failed"@,
{
    reveal_strlit("System Update — ");
    reveal_strlit("Updating…");
    reveal_strlit("Update complete");
    reveal_strlit("Already up to date");
    reveal_strlit("Update failed");
    reveal_strlit("System Update — Updating…");
    reveal_strlit("System Update — Update complete");
    reveal_strlit("System Update — Already up to date");
    reveal_strlit("System Update — Update failed");
    assert("System Update — "@ + "Updating…"@ =~= "System Update — Updating…"@);
    assert("System Update — "@ + "Update complete"@ =~= "System Update — Update complete"@);
    assert("System Update — "@ + "Already up to date"@ =~= "System Update — Already up to date"@);
    assert("System Update — "@ + "Update failed"@ =~= "System Update — Update failed"@);
}

/// The scenarios by their names in the settings and on the command line; every
/// other name is a success.
pub proof fn law_scenarios_by_name(name: Seq<char>)
    ensures
        scenario_named(Some("failure"@)) is Failure,
        scenario_named(Some("Failure"@)) is Failure,
        scenario_named(Some("up-to-date"@)) is AlreadyUpToDate,
        scenario_named(Some("uptodate"@)) is AlreadyUpToDate,
        scenario_named(Some("AlreadyUpToDate"@)) is AlreadyUpToDate,
        scenario_named(None) is Success,
        scenario_named(Some("success"@)) is Success,
        name != "failure"@ && name != "Failure"@ && name != "up-to-date"@ && name != "uptodate"@
            && name != "AlreadyUpToDate"@ ==> scenario_named(Some(name)) is Success,
{
    reveal_strlit("failure");
    reveal_strlit("Failure");
    reveal_strlit("up-to-date");
    reveal_strlit("uptodate");
    reveal_strlit("AlreadyUpToDate");
    reveal_strlit("success");
    assert("failure"@[0] == 'f' && "Failure"@[0] == 'F' && "up-to-date"@[0] == 'u'
        && "uptodate"@[0] == 'u' && "AlreadyUpToDate"@[0] == 'A' && "success"@[0] == 's');
}

/// The panel starts idle, on its main page, with nothing known of updates and
/// nothing in the log, with the settings that it was given.
pub proof fn law_first_panel(
    settings: PanelSettings,
    scenario: Option<Seq<char>>,
    is_embedded: bool,
)
    ensures
        ({
            let p = initial_panel(settings, scenario, is_embedded);
            p.state is Idle && p.preflight_status is Checking && p.log_lines.len() == 0
                && !p.can_cancel && p.current_page == "main"@ && p.settings == settings
                && p.is_embedded == is_embedded && p.sim_scenario == scenario_named(scenario)
        }),
{
}

/// Two numbers with an `x` between them are a width and a height, in this order,
/// where both are large enough, and no size where one is not.
pub proof fn law_window_size_is_read(w: nat, h: nat, cross: char)
    requires
        cross == 'x' || cross == 'X',
        w <= i32::MAX,
        h <= i32::MAX,
    ensures
        window_size(text::decimal(w) + seq![cross] + text::decimal(h)) == (if w >= 200 && h >= 200 {
            Some((w as int, h as int))
        } else {
            None
        }),
{
    let a = text::decimal(w);
    let b = text::decimal(h);
    let raw = a + seq![cross] + b;
    text::law_decimal_round_trip(w);
    text::law_decimal_round_trip(h);
    lemma_no_cross(a);
    let k = a.len() as int;
    assert(raw.take(k) =~= a);
    assert(raw.take(k + 1).drop_last() =~= a);
    assert(raw.take(k + 1).last() == cross);
    lemma_cross_stays(raw, k + 1);
    assert(raw.skip(k + 1) =~= b);
    lemma_side(a, w);
    lemma_side(b, h);
}

proof fn lemma_no_cross(s: Seq<char>)
    requires
        text::all_digits(s),
    ensures
        cross_index(s) is None,
    decreases s.len(),
{
    if s.len() > 0 {
        assert(text::is_digit(s[s.len() - 1]));
        assert(text::all_digits(s.drop_last())) by {
            assert forall|i: int| 0 <= i < s.drop_last().len() implies text::is_digit(
                #[trigger] s.drop_last()[i],
            ) by {
                assert(text::is_digit(s[i]));
            }
        }
        lemma_no_cross(s.drop_last());
    }
}

proof fn lemma_side(s: Seq<char>, n: nat)
    requires
        s.len() > 0,
        text::all_digits(s),
        text::number(s) == n,
        n <= i32::MAX,
    ensures
        side(s) == Some(n as int),
{
    assert(text::is_digit(s[0]));
    assert(text::is_digit(s[s.len() - 1]));
    let e = Seq::<char>::empty();
    text::law_trim(e, s, e);
    assert(e + s + e =~= s);
}

/// A mock identity is not asked about, and always has an update; every other host
/// is asked by `bootc`, which only checks.
pub proof fn law_first_check()
    ensures
        first_check(true) == CheckModel::Answer(PreflightStatus::UpdateAvailable),
        first_check(false) matches CheckModel::Run(v) && v.len() == 3 && v[0] == "bootc"@ && v[1]
            == "upgrade"@ && v[2] == "--check"@,
{
}

/// The banner is shown exactly where nothing is done for real, and says which of
/// the two reasons it has; an embedded panel has a header on every page but the
/// main one; the window is on the page that it was last told of.
pub proof fn law_banner_and_header(s: PanelSettings, p: PanelModel, page: String, at: Seq<char>)
    ensures
        banner_words(s).1 <==> s.dev_mode || s.dry_run,
        s.dev_mode ==> banner_words(s).0 == "Developer Mode — updates are simulated"@,
        !s.dev_mode && s.dry_run ==> banner_words(s).0
            == "Dry run — actions are recorded, your system is not modified"@,
        !p.is_embedded ==> !has_header(p),
        p.current_page == "main"@ ==> !has_header(p),
        p.is_embedded && p.current_page != "main"@ ==> has_header(p),
        page_after(at, AppMsg::UpdatesPanelOutput(UpdatesPanelOutput::PageChanged(page))) == page@,
        page_after(at, AppMsg::GoBack) == at,
        page_after(at, AppMsg::CloseRequest) == at,
        window_to_do(
            AppMsg::UpdatesPanelOutput(UpdatesPanelOutput::PageChanged(page)),
            false,
        ) == header_for(page@),
{
}

/// Other programs are told that a check goes on, and what it found; and the header
/// has the name of the page.
pub proof fn law_what_others_are_told(
    p: PanelModel,
    r: CheckResult,
    page: String,
    err: String,
    metered: bool,
)
    ensures
        to_do(p, UpdatesPanelMsg::OpenCheckDialog, metered)[0] == progress(
            "checking"@,
            0,
            "Checking for updates…"@,
        ),
        to_do(p, UpdatesPanelMsg::OpenCheckDialog, metered).len() == 2,
        r.sources_with_updates > 0 ==> to_do(p, UpdatesPanelMsg::CheckComplete(r), metered)[0]
            == progress("idle"@, 0, "Updates available"@),
        r.sources_with_updates == 0 ==> to_do(p, UpdatesPanelMsg::CheckComplete(r), metered)[0]
            is ResetProgress,
        to_do(p, UpdatesPanelMsg::CheckComplete(r), metered).len() == 2,
        to_do(p, UpdatesPanelMsg::PageChanged(page), metered)[0] == EffectModel::HeaderTitle(
            page_label(page@),
        ),
        to_do(p, UpdatesPanelMsg::PageChanged(page), metered).len() == 2,
        to_do(p, UpdatesPanelMsg::UpdateFailed(err), metered).len() == 4,
        to_do(p, UpdatesPanelMsg::UpdateComplete, metered).len() == 4,
        to_do(p, UpdatesPanelMsg::UpdateUpToDate, metered).len() == 3,
{
}

/// The panel asks to be closed only where the user closes it, asks about a
/// restart only where one is asked for, and stops an update only where it is
/// cancelled.
pub proof fn law_nothing_unasked(p: PanelModel, msg: UpdatesPanelMsg, metered: bool)
    ensures
        to_do(p, msg, metered).contains(EffectModel::Quit) ==> msg is Quit && !(p.state is Updating),
        to_do(p, msg, metered).contains(EffectModel::AskReboot) ==> msg is RequestReboot,
        to_do(p, msg, metered).contains(EffectModel::Cancel) ==> msg is CancelUpdate
            && p.can_cancel,
        to_do(p, msg, metered).contains(EffectModel::StartWithoutAsking)
            ==> msg is InstallFromCheck,
        to_do(p, msg, metered).contains(EffectModel::OpenCheck) ==> msg is StartUpdate,
        to_do(p, msg, metered).contains(EffectModel::AskMetered) ==> msg is StartUpdate && metered
            && p.settings.pause_on_metered,
        to_do(p, msg, metered).contains(EffectModel::SaveSettings) ==> msg is ToggleDevMode,
{
}

/// What is told of the panel is what it holds.
pub proof fn law_panel_holds_what_is_told(p: UpdatesPanel)
    ensures
        p@.state == p.state && p@.preflight_status == p.preflight_status && p@.sim_scenario
            == p.sim_scenario,
        p@.log_lines == p.log_lines@ && p@.can_cancel == p.can_cancel && p@.current_page
            == p.current_page@,
        p@.settings == p.settings && p@.is_embedded == p.is_embedded,
{
}

/// What is told of an effect is what it is, with what it holds.
pub proof fn law_effects_hold_what_is_told(
    m: Module,
    s: ModuleStatus,
    state: AppState,
    status: PreflightStatus,
    settings: PanelSettings,
    simulated: bool,
    scenario: SimulationScenario,
    a: String,
    b: String,
    c: String,
    n: u32,
)
    ensures
        Effect::ViewModuleStarted(m)@ == EffectModel::ViewModuleStarted(m),
        Effect::ViewModuleFinished(m, s)@ == EffectModel::ViewModuleFinished(m, s),
        Effect::ViewState(state)@ == EffectModel::ViewState(state),
        Effect::ViewPreflight(status)@ == EffectModel::ViewPreflight(status),
        Effect::ViewSettings(settings)@ == EffectModel::ViewSettings(settings),
        Effect::ViewLog(a)@ == EffectModel::ViewLog(a@),
        Effect::ViewPage(a)@ == EffectModel::ViewPage(a@),
        Effect::ViewChangelog(a)@ == EffectModel::ViewChangelog(a@),
        Effect::ViewPin(a)@ == EffectModel::ViewPin(a@),
        Effect::WindowTitle(a)@ == EffectModel::WindowTitle(a@),
        Effect::HeaderTitle(a)@ == EffectModel::HeaderTitle(a@),
        Effect::Toast(a)@ == EffectModel::Toast(a@),
        Effect::Output(UpdatesPanelOutput::PageChanged(a))@ == EffectModel::OutputPage(a@),
        (Effect::Notify { id: a, title: b, body: c })@ == (EffectModel::Notify {
            id: a@,
            title: b@,
            body: c@,
        }),
        (Effect::ShowCheckDialog { simulated, scenario })@ == (EffectModel::ShowCheckDialog {
            simulated,
            scenario,
        }),
        (Effect::Advance { quarters: n, message: a })@ == (EffectModel::Advance {
            quarters: n as int,
            message: a@,
        }),
        Effect::Progress(Progress { phase: a, quarters: n, message: b })@ == progress(
            a@,
            n as int,
            b@,
        ),
        Effect::AskMetered@ is AskMetered && Effect::OpenCheck@ is OpenCheck && Effect::Cancel@
            is Cancel && Effect::AskReboot@ is AskReboot && Effect::Reboot@ is Reboot
            && Effect::Quit@ is Quit && Effect::AskQuit@ is AskQuit,
        Effect::StartWithoutAsking@ is StartWithoutAsking && Effect::ResetProgress@ is ResetProgress
            && Effect::SaveSettings@ is SaveSettings && Effect::ViewDismissBanner@
            is ViewDismissBanner && Effect::ShowAbout@ is ShowAbout && Effect::ShowPreferences@
            is ShowPreferences && Effect::ShowRebaseDialog@ is ShowRebaseDialog,
        progress(a@, n as int, b@) == EffectModel::Progress(
            ProgressModel { phase: a@, quarters: n as int, message: b@ },
        ),
        AppEffect::ShowPage(a)@ == AppEffectModel::ShowPage(a@),
        AppEffect::AskQuit@ is AskQuit && AppEffect::Quit@ is Quit,
        (AppEffect::Header { title: a, subtitle: b, window_title: c, back: simulated })@ == (
        AppEffectModel::Header { title: a@, subtitle: b@, window_title: c@, back: simulated }),
{
}

} // verus!
