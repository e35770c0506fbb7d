//! The optional `uupd` service of the host: its configuration and its timer.

use vstd::prelude::*;
use crate::paths;
use crate::text;

verus! {

/// Where `uupd` keeps its configuration.
pub const CONFIG_PATH: &'static str = "/etc/uupd/config.json";

#[derive(Debug, Clone, Copy, PartialEq, Eq, Structural)]
pub struct UupdConfig {
    pub checks: UupdChecks,
    pub modules: UupdModules,
}

#[derive(Debug, Clone, Copy, PartialEq, Eq, Structural)]
pub struct UupdChecks {
    pub hardware: UupdHardwareChecks,
}

/// The state of the machine in which `uupd` updates.
#[derive(Debug, Clone, Copy, PartialEq, Eq, Structural)]
pub struct UupdHardwareChecks {
    pub enable: bool,
    pub bat_min_percent: u32,
    pub cpu_max_percent: u32,
    pub mem_max_percent: u32,
    pub net_max_bytes: u64,
}

/// The modules of `uupd`.
#[derive(Debug, Clone, Copy, PartialEq, Eq, Structural)]
pub struct UupdModules {
    pub brew: UupdModuleToggle,
    pub distrobox: UupdModuleToggle,
    pub flatpak: UupdModuleToggle,
    pub system: UupdModuleToggle,
}

#[derive(Debug, Clone, Copy, PartialEq, Eq, Structural)]
pub struct UupdModuleToggle {
    pub disable: bool,
}

pub open spec fn default_checks() -> UupdHardwareChecks {
    UupdHardwareChecks {
        enable: true,
        bat_min_percent: 20,
        cpu_max_percent: 50,
        mem_max_percent: 90,
        net_max_bytes: 700_000,
    }
}

pub open spec fn default_modules() -> UupdModules {
    let on = UupdModuleToggle { disable: false };
    UupdModules { brew: on, distrobox: on, flatpak: on, system: on }
}

/// The configuration that `uupd` is shipped with.
pub open spec fn default_config() -> UupdConfig {
    UupdConfig { checks: UupdChecks { hardware: default_checks() }, modules: default_modules() }
}

impl Default for UupdModuleToggle {
    fn default() -> (r: Self)
        ensures
            r == (UupdModuleToggle { disable: false }),
    {
        UupdModuleToggle { disable: false }
    }
}

impl Default for UupdModules {
    fn default() -> (r: Self)
        ensures
            r == default_modules(),
    {
        UupdModules {
            brew: UupdModuleToggle { disable: false },
            distrobox: UupdModuleToggle { disable: false },
            flatpak: UupdModuleToggle { disable: false },
            system: UupdModuleToggle { disable: false },
        }
    }
}

impl Default for UupdHardwareChecks {
    fn default() -> (r: Self)
        ensures
            r == default_checks(),
    {
        UupdHardwareChecks {
            enable: true,
            bat_min_percent: 20,
            cpu_max_percent: 50,
            mem_max_percent: 90,
            net_max_bytes: 700_000,
        }
    }
}

impl Default for UupdChecks {
    fn default() -> (r: Self)
        ensures
            r == (UupdChecks { hardware: default_checks() }),
    {
        UupdChecks { hardware: UupdHardwareChecks::default() }
    }
}

impl Default for UupdConfig {
    fn default() -> (r: Self)
        ensures
            r == default_config(),
    {
        UupdConfig { checks: UupdChecks::default(), modules: UupdModules::default() }
    }
}

/// The configuration in effect.
pub open spec fn in_effect(file: Option<UupdConfig>) -> UupdConfig {
    match file {
        Some(c) => c,
        None => default_config(),
    }
}

/// The configuration in effect: what the file says, where there is one that can
/// be read, else the default.
pub fn read_config(file: Option<UupdConfig>) -> (r: UupdConfig)
    ensures
        r == in_effect(file),
{
    match file {
        Some(c) => c,
        None => UupdConfig::default(),
    }
}

// ---------------------------------------------------------------------------
// Commands

/// The command, from inside a sandbox run on the host.
pub open spec fn on_host(sandboxed: bool, command: Seq<Seq<char>>) -> Seq<Seq<char>> {
    if sandboxed {
        seq!["flatpak-spawn"@, "--host"@] + command
    } else {
        command
    }
}

pub open spec fn which_args() -> Seq<Seq<char>> {
    seq!["which"@, "uupd"@]
}

pub open spec fn state_args() -> Seq<Seq<char>> {
    seq!["systemctl"@, "is-enabled"@, "uupd.timer"@]
}

pub open spec fn print_args() -> Seq<Seq<char>> {
    seq!["flatpak-spawn"@, "--host"@, "cat"@, "/etc/uupd/config.json"@]
}

/// The command that tells whether `uupd` is installed.
pub fn installed_command(sandboxed: bool) -> (r: Vec<&'static str>)
    ensures
        text::strs(r@) == on_host(sandboxed, which_args()),
{
    let mut out: Vec<&'static str> = Vec::new();
    if sandboxed {
        out.push("flatpak-spawn");
        out.push("--host");
    }
    out.push("which");
    out.push("uupd");
    assert(text::strs(out@) =~= on_host(sandboxed, seq!["which"@, "uupd"@]));
    out
}

/// The command that prints the configuration, from inside a sandbox.
pub fn print_config_command() -> (r: Vec<&'static str>)
    ensures
        text::strs(r@) == print_args(),
{
    let out = vec!["flatpak-spawn", "--host", "cat", "/etc/uupd/config.json"];
    assert(text::strs(out@) =~= seq!["flatpak-spawn"@, "--host"@, "cat"@, "/etc/uupd/config.json"@]);
    out
}

/// The command that asks for the state of the timer.
pub fn timer_state_command(sandboxed: bool) -> (r: Vec<&'static str>)
    ensures
        text::strs(r@) == on_host(sandboxed, state_args()),
{
    let mut out: Vec<&'static str> = Vec::new();
    if sandboxed {
        out.push("flatpak-spawn");
        out.push("--host");
    }
    out.push("systemctl");
    out.push("is-enabled");
    out.push("uupd.timer");
    assert(text::strs(out@) =~= on_host(
        sandboxed,
        seq!["systemctl"@, "is-enabled"@, "uupd.timer"@],
    ));
    out
}

/// What the state of the timer says: enabled, disabled, or neither.
pub open spec fn timer_state(stdout: Seq<char>) -> Option<bool> {
    let word = text::trimmed(stdout);
    if word == "enabled"@ || word == "enabled-runtime"@ {
        Some(true)
    } else if word == "disabled"@ {
        Some(false)
    } else {
        None
    }
}

/// Read what `systemctl is-enabled` prints. Only a timer that is enabled or
/// disabled can be switched; every other state is `None`.
pub fn parse_timer_state(stdout: &str) -> (r: Option<bool>)
    ensures
        r == timer_state(stdout@),
{
    let word = text::trim(stdout);
    if text::eq(word, "enabled") || text::eq(word, "enabled-runtime") {
        Some(true)
    } else if text::eq(word, "disabled") {
        Some(false)
    } else {
        None
    }
}

/// The state of the timer, from what the command printed.
pub open spec fn timer_on(stdout: Option<Seq<char>>) -> Option<bool> {
    match stdout {
        Some(s) => timer_state(s),
        None => None,
    }
}

/// The state of the timer, from what the command printed, where it could be run.
pub fn is_uupd_timer_active(stdout: Option<&str>) -> (r: Option<bool>)
    ensures
        r == timer_on(
            match stdout {
                Some(s) => Some(s@),
                None => None,
            },
        ),
{
    match stdout {
        Some(s) => parse_timer_state(s),
        None => None,
    }
}

/// Whether updates are automatic.
pub open spec fn automatic(stdout: Option<Seq<char>>, setting: bool) -> bool {
    match stdout {
        Some(s) => if text::trimmed(s) == "enabled"@ {
            true
        } else if text::trimmed(s) == "disabled"@ {
            false
        } else {
            setting
        },
        None => setting,
    }
}

/// Whether updates are automatic: as the timer says, else as the settings say.
pub fn read_auto_updates_enabled(stdout: Option<&str>, setting: bool) -> (r: bool)
    ensures
        r == automatic(
            match stdout {
                Some(s) => Some(s@),
                None => None,
            },
            setting,
        ),
{
    match stdout {
        Some(s) => {
            let word = text::trim(s);
            if text::eq(word, "enabled") {
                true
            } else if text::eq(word, "disabled") {
                false
            } else {
                setting
            }
        },
        None => setting,
    }
}

pub open spec fn timer_verb(enable: bool) -> Seq<char> {
    if enable {
        "enable"@
    } else {
        "disable"@
    }
}

/// The command that switches the timer. It takes the rights of an
/// administrator.
pub open spec fn timer_args(enable: bool) -> Seq<Seq<char>> {
    seq!["systemctl"@, timer_verb(enable), "--now"@, "uupd.timer"@]
}

/// The command that switches the timer, unless it is suppressed.
pub open spec fn timer_command(enable: bool, suppressed: bool) -> Option<Seq<Seq<char>>> {
    if suppressed {
        None
    } else {
        Some(timer_args(enable))
    }
}

/// The command that switches the timer, where effects on the host are not
/// suppressed: a dry run changes nothing, and reports success.
pub fn set_uupd_timer_with(enable: bool, suppressed: bool) -> (r: Option<Vec<&'static str>>)
    ensures
        match r {
            Some(v) => timer_command(enable, suppressed) == Some(text::strs(v@)),
            None => timer_command(enable, suppressed) is None,
        },
{
    if suppressed {
        return None;
    }
    let verb = if enable {
        "enable"
    } else {
        "disable"
    };
    let out = vec!["systemctl", verb, "--now", "uupd.timer"];
    assert(text::strs(out@) =~= timer_args(enable));
    Some(out)
}

/// Effects on the host are suppressed.
pub open spec fn is_suppressed(dev_mode: bool, dry_run: bool) -> bool {
    dev_mode || dry_run
}

/// The command that switches the timer. Developer mode and a dry run suppress
/// it.
pub fn set_uupd_timer(enable: bool, dev_mode: bool, dry_run: bool) -> (r: Option<
    Vec<&'static str>,
>)
    ensures
        match r {
            Some(v) => timer_command(enable, is_suppressed(dev_mode, dry_run)) == Some(
                text::strs(v@),
            ),
            None => timer_command(enable, is_suppressed(dev_mode, dry_run)) is None,
        },
{
    set_uupd_timer_with(enable, dev_mode || dry_run)
}

/// An exit code, as failure messages show it.
pub open spec fn code_text(code: Option<i32>) -> Seq<char> {
    match code {
        Some(c) => "Some("@ + text::integer_text(c as int) + ")"@,
        None => "None"@,
    }
}

fn push_code(out: &mut String, code: Option<i32>)
    ensures
        final(out)@ == old(out)@ + code_text(code),
{
    match code {
        Some(c) => {
            out.append("Some(");
            text::push_integer(out, c);
            out.append(")");
            assert(out@ =~= old(out)@ + code_text(code));
        },
        None => {
            out.append("None");
        },
    }
}

/// Why the timer was not switched; `None` where it was.
pub open spec fn timer_failure(enable: bool, exit_code: Option<i32>) -> Option<Seq<char>> {
    if exit_code == Some(0i32) {
        None
    } else {
        Some(
            "pkexec systemctl "@ + timer_verb(enable) + " uupd.timer failed with code "@
                + code_text(exit_code),
        )
    }
}

/// What switching the timer came to.
pub fn timer_outcome(enable: bool, exit_code: Option<i32>) -> (r: Result<(), String>)
    ensures
        match r {
            Ok(_) => timer_failure(enable, exit_code) is None,
            Err(message) => timer_failure(enable, exit_code) == Some(message@),
        },
{
    match exit_code {
        Some(c) => if c == 0 {
            return Ok(());
        },
        None => {},
    }
    let mut message = "pkexec systemctl ".to_owned();
    message.append(
        if enable {
            "enable"
        } else {
            "disable"
        },
    );
    message.append(" uupd.timer failed with code ");
    push_code(&mut message, exit_code);
    Err(message)
}

/// Where a new configuration is written before it is installed.
pub open spec fn staged_at(dir: Seq<char>, process_id: nat) -> Seq<char> {
    paths::joined_path(
        dir,
        "finupdate-uupd-config-"@ + text::decimal(process_id) + ".json"@,
    )
}

/// Where a new configuration is written before it is installed.
pub fn staging_path(dir: &str, process_id: u32) -> (r: String)
    ensures
        r@ == staged_at(dir@, process_id as nat),
{
    let mut name = "finupdate-uupd-config-".to_owned();
    text::push_decimal(&mut name, process_id as u64);
    name.append(".json");
    paths::join_path(dir, name.as_str())
}

/// The command that installs a new configuration, owned by root and readable by
/// everyone.
pub open spec fn install_args(staging: Seq<char>) -> Seq<Seq<char>> {
    seq![
        "install"@,
        "-o"@,
        "root"@,
        "-g"@,
        "root"@,
        "-m"@,
        "0644"@,
        staging,
        "/etc/uupd/config.json"@,
    ]
}

/// The command that installs a new configuration, unless it is suppressed.
pub open spec fn install_command(staging: Seq<char>, suppressed: bool) -> Option<Seq<Seq<char>>> {
    if suppressed {
        None
    } else {
        Some(install_args(staging))
    }
}

/// The command that installs a new configuration from where it was staged,
/// where effects on the host are not suppressed.
pub fn write_config<'a>(staging: &'a str, suppressed: bool) -> (r: Option<Vec<&'a str>>)
    ensures
        match r {
            Some(v) => install_command(staging@, suppressed) == Some(text::strs(v@)),
            None => install_command(staging@, suppressed) is None,
        },
{
    if suppressed {
        return None;
    }
    let out = vec![
        "install",
        "-o",
        "root",
        "-g",
        "root",
        "-m",
        "0644",
        staging,
        "/etc/uupd/config.json",
    ];
    assert(text::strs(out@) =~= install_args(staging@));
    Some(out)
}

/// Why a new configuration was not installed; `None` where it was.
pub open spec fn install_failure(staging: Seq<char>, exit_code: Option<i32>) -> Option<Seq<char>> {
    if exit_code == Some(0i32) {
        None
    } else {
        Some(
            "pkexec install "@ + staging + " "@ + CONFIG_PATH@ + " failed with code "@ + code_text(
                exit_code,
            ),
        )
    }
}

/// What installing a new configuration came to.
pub fn write_outcome(staging: &str, exit_code: Option<i32>) -> (r: Result<(), String>)
    ensures
        match r {
            Ok(_) => install_failure(staging@, exit_code) is None,
            Err(message) => install_failure(staging@, exit_code) == Some(message@),
        },
{
    match exit_code {
        Some(c) => if c == 0 {
            return Ok(());
        },
        None => {},
    }
    let mut message = "pkexec install ".to_owned();
    message.append(staging);
    message.append(" ");
    message.append(CONFIG_PATH);
    message.append(" failed with code ");
    push_code(&mut message, exit_code);
    Err(message)
}

/// A timer that was switched, and says so, is read as what it was switched to.
pub proof fn law_timer_is_read_as_switched(enable: bool)
    ensures
        timer_state(timer_verb(enable) + "d"@) == Some(enable),
{
    reveal_strlit("enable");
    reveal_strlit("disable");
    reveal_strlit("enabled");
    reveal_strlit("disabled");
    reveal_strlit("enabled-runtime");
    reveal_strlit("d");
    assert("enable"@ + "d"@ =~= "enabled"@);
    assert("disable"@ + "d"@ =~= "disabled"@);
    assert("disabled"@.len() != "enabled"@.len());
    assert("disabled"@.len() != "enabled-runtime"@.len());
}

/// What the timer says of itself is read with blanks around it: that it is
/// enabled, for good or until the next boot; that it is disabled; and nothing in
/// every other word.
pub proof fn law_states_of_the_timer(a: Seq<char>, word: Seq<char>, b: Seq<char>, setting: bool)
    requires
        forall|k: int| 0 <= k < a.len() ==> text::is_space(#[trigger] a[k]),
        forall|k: int| 0 <= k < b.len() ==> text::is_space(#[trigger] b[k]),
        word.len() > 0 && !text::is_space(word[0]) && !text::is_space(word.last()),
    ensures
        timer_state(a + word + b) == Some(true) <==> word == "enabled"@ || word
            == "enabled-runtime"@,
        timer_state(a + word + b) == Some(false) <==> word == "disabled"@,
        word == "enabled"@ ==> automatic(Some(a + word + b), setting),
        word == "disabled"@ ==> !automatic(Some(a + word + b), setting),
        word != "enabled"@ && word != "disabled"@ ==> automatic(Some(a + word + b), setting)
            == setting,
        automatic(None, setting) == setting,
{
    text::law_trim(a, word, b);
    reveal_strlit("enabled");
    reveal_strlit("enabled-runtime");
    reveal_strlit("disabled");
    assert("enabled"@.len() == 7 && "enabled-runtime"@.len() == 15 && "disabled"@.len() == 8);
}

/// The timer is switched on by `enable` and off by `disable`, at once, and is the
/// timer of `uupd`; a new configuration is installed where `uupd` reads it, from
/// where it was staged, owned by root. Nothing is run where that is suppressed.
pub proof fn law_commands_to_the_host(enable: bool, staging: Seq<char>)
    ensures
        timer_command(enable, true) is None,
        timer_command(enable, false) matches Some(v) && v.len() == 4 && v[0] == "systemctl"@ && v[1]
            == (if enable {
            "enable"@
        } else {
            "disable"@
        }) && v[2] == "--now"@ && v[3] == "uupd.timer"@,
        install_command(staging, true) is None,
        install_command(staging, false) matches Some(v) && v[0] == "install"@ && v[v.len() - 2]
            == staging && v.last() == "/etc/uupd/config.json"@ && v[2] == "root"@ && v[4]
            == "root"@ && v[6] == "0644"@ && v.len() == 9,
{
}

/// Only the code nought is a success; a failure tells what was tried, and the
/// code where there was one.
pub proof fn law_only_nought_is_success(enable: bool, staging: Seq<char>, code: i32)
    ensures
        timer_failure(enable, Some(0)) is None,
        install_failure(staging, Some(0)) is None,
        timer_failure(enable, None) is Some,
        install_failure(staging, None) is Some,
        code != 0 ==> (timer_failure(enable, Some(code)) matches Some(s) && text::ends_in(
            s,
            "Some("@ + text::integer_text(code as int) + ")"@,
        ) && text::begins_with(s, "pkexec systemctl "@ + timer_verb(enable))),
        code != 0 ==> (install_failure(staging, Some(code)) matches Some(s) && text::ends_in(
            s,
            "Some("@ + text::integer_text(code as int) + ")"@,
        ) && text::begins_with(s, "pkexec install "@ + staging)),
{
    let end = "Some("@ + text::integer_text(code as int) + ")"@;
    if code != 0 {
        let s = timer_failure(enable, Some(code)).unwrap();
        assert(s.subrange(s.len() - end.len(), s.len() as int) =~= end);
        assert(s.skip(s.len() - end.len()) =~= end);
        let start = "pkexec systemctl "@ + timer_verb(enable);
        assert(s.subrange(0, start.len() as int) =~= start);
        assert(s.take(start.len() as int) =~= start);
        let t = install_failure(staging, Some(code)).unwrap();
        assert(t.subrange(t.len() - end.len(), t.len() as int) =~= end);
        assert(t.skip(t.len() - end.len()) =~= end);
        let begin = "pkexec install "@ + staging;
        assert(t.subrange(0, begin.len() as int) =~= begin);
        assert(t.take(begin.len() as int) =~= begin);
    }
}

/// What `uupd` is shipped with: every module is on, and it updates with a battery
/// of at least a fifth, a processor at no more than half, memory at no more than
/// nine tenths and a network at no more than 700 kilobytes a second.
pub proof fn law_shipped_configuration()
    ensures
        ({
            let c = default_config();
            &&& c.checks.hardware.enable
            &&& c.checks.hardware.bat_min_percent == 20
            &&& c.checks.hardware.cpu_max_percent == 50
            &&& c.checks.hardware.mem_max_percent == 90
            &&& c.checks.hardware.net_max_bytes == 700 * 1000
            &&& !c.modules.brew.disable && !c.modules.distrobox.disable
                && !c.modules.flatpak.disable && !c.modules.system.disable
        }),
{
}

/// From inside a sandbox a command runs on the host, and is the same command.
pub proof fn law_commands_run_on_the_host(command: Seq<Seq<char>>)
    ensures
        on_host(false, command) == command,
        on_host(true, command).len() == command.len() + 2,
        on_host(true, command).skip(2) == command,
        on_host(true, command)[0] == "flatpak-spawn"@ && on_host(true, command)[1] == "--host"@,
{
    assert(on_host(true, command).skip(2) =~= command);
}

/// What the file says is in effect, and what is shipped where there is none; the
/// commands ask about `uupd`, its timer and its file; nothing is known of a timer
/// that could not be asked; and each process stages in a file of its own.
pub proof fn law_what_is_asked(c: UupdConfig, s: Seq<char>, dir: Seq<char>, a: nat, b: nat)
    requires
        dir.len() > 0 && dir.last() != '/',
    ensures
        in_effect(Some(c)) == c,
        in_effect(None) == default_config(),
        which_args().len() == 2 && which_args()[0] == "which"@ && which_args()[1] == "uupd"@,
        state_args().len() == 3 && state_args()[0] == "systemctl"@ && state_args()[1]
            == "is-enabled"@ && state_args()[2] == "uupd.timer"@,
        print_args().len() == 4 && print_args().last() == "/etc/uupd/config.json"@
            && print_args()[2] == "cat"@,
        timer_on(None) is None,
        timer_on(Some(s)) == timer_state(s),
        staged_at(dir, a) == dir + "/finupdate-uupd-config-"@ + text::decimal(a) + ".json"@,
        a != b ==> staged_at(dir, a) != staged_at(dir, b),
{
    lemma_staged(dir, a);
    lemma_staged(dir, b);
    let head = dir + "/finupdate-uupd-config-"@;
    if staged_at(dir, a) == staged_at(dir, b) {
        let x = text::decimal(a);
        let y = text::decimal(b);
        let sa = staged_at(dir, a);
        let sb = staged_at(dir, b);
        assert(sa == head + x + ".json"@);
        assert(sb == head + y + ".json"@);
        assert(sa.len() == head.len() + x.len() + ".json"@.len());
        assert(sb.len() == head.len() + y.len() + ".json"@.len());
        assert forall|i: int| 0 <= i < x.len() implies x[i] == y[i] by {
            assert(sa[head.len() + i] == x[i]);
            assert(sb[head.len() + i] == y[i]);
        }
        assert(x =~= y);
        text::law_decimal_round_trip(a);
        text::law_decimal_round_trip(b);
    }
}

proof fn lemma_staged(dir: Seq<char>, n: nat)
    requires
        dir.len() > 0 && dir.last() != '/',
    ensures
        staged_at(dir, n) == dir + "/finupdate-uupd-config-"@ + text::decimal(n) + ".json"@,
{
    reveal_strlit("finupdate-uupd-config-");
    reveal_strlit("/finupdate-uupd-config-");
    let name = "finupdate-uupd-config-"@ + text::decimal(n) + ".json"@;
    assert(name[0] == 'f');
    paths::law_paths(dir, name);
    assert(seq!['/'] + "finupdate-uupd-config-"@ =~= "/finupdate-uupd-config-"@);
    assert(dir + seq!['/'] + name =~= dir + "/finupdate-uupd-config-"@ + text::decimal(n)
        + ".json"@);
}

/// Developer mode suppresses effects on the host, and so does a dry run, each by
/// itself; without them nothing does.
pub proof fn law_what_is_suppressed(enable: bool, other: bool)
    ensures
        timer_command(enable, is_suppressed(true, other)) is None,
        timer_command(enable, is_suppressed(other, true)) is None,
        timer_command(enable, is_suppressed(false, false)) == Some(timer_args(enable)),
{
}

} // verus!
