//! The update run: how the runner is started, what the lines that it prints
//! mean, and how a run ends.
//!
//! The runner prints marker lines between ordinary ones:
//!
//! ```text
//! ===MODULE:system===          system has started
//! ===MODULE:system:done:0===   system has succeeded
//! ===MODULE:system:done:77===  system was up to date
//! ===MODULE:system:done:1===   system has failed
//! ===MODULE:system:skipped===  system was skipped
//! ===DONE===                   all modules have finished
//! ```

use vstd::prelude::*;
use crate::text;

verus! {

/// The update modules, in the order in which they run.
#[derive(Debug, Clone, Copy, PartialEq, Eq, Structural)]
pub enum Module {
    System,
    Flatpak,
    Brew,
    Distrobox,
}

/// How a module ended.
#[derive(Debug, Clone, Copy, PartialEq, Eq, Structural)]
pub enum ModuleStatus {
    /// It completed.
    Success,
    /// It found nothing to update.
    UpToDate,
    /// It exited with this code.
    Failed(i32),
    /// Its tool is not on the host, or it was not asked for.
    Skipped,
}

/// What an update run tells its observers.
#[derive(Debug, Clone, PartialEq, Eq)]
pub enum UpdateEvent {
    Output(String),
    ModuleStarted(Module),
    ModuleFinished(Module, ModuleStatus),
    Complete,
    UpToDate,
    Error(String),
}

/// The name of a module in marker lines.
pub open spec fn key_of(m: Module) -> Seq<char> {
    match m {
        Module::System => "system"@,
        Module::Flatpak => "flatpak"@,
        Module::Brew => "brew"@,
        Module::Distrobox => "distrobox"@,
    }
}

/// The module of that name.
pub open spec fn module_named(key: Seq<char>) -> Option<Module> {
    if key == key_of(Module::System) {
        Some(Module::System)
    } else if key == key_of(Module::Flatpak) {
        Some(Module::Flatpak)
    } else if key == key_of(Module::Brew) {
        Some(Module::Brew)
    } else if key == key_of(Module::Distrobox) {
        Some(Module::Distrobox)
    } else {
        None
    }
}

impl Module {
    pub fn key(&self) -> (r: &'static str)
        ensures
            r@ == key_of(*self),
    {
        match self {
            Module::System => "system",
            Module::Flatpak => "flatpak",
            Module::Brew => "brew",
            Module::Distrobox => "distrobox",
        }
    }

    pub fn from_key(s: &str) -> (r: Option<Self>)
        ensures
            r == module_named(s@),
    {
        if text::eq(s, "system") {
            Some(Module::System)
        } else if text::eq(s, "flatpak") {
            Some(Module::Flatpak)
        } else if text::eq(s, "brew") {
            Some(Module::Brew)
        } else if text::eq(s, "distrobox") {
            Some(Module::Distrobox)
        } else {
            None
        }
    }
}

proof fn lemma_keys_differ()
    ensures
        forall|a: Module, b: Module| #[trigger] key_of(a) == #[trigger] key_of(b) ==> a == b,
{
    reveal_strlit("system");
    reveal_strlit("flatpak");
    reveal_strlit("brew");
    reveal_strlit("distrobox");
    assert("system"@[0] == 's');
    assert("flatpak"@[0] == 'f');
    assert("brew"@[0] == 'b');
    assert("distrobox"@[0] == 'd');
}

/// Every module is found under its name, and under no other.
pub proof fn law_module_keys_round_trip(m: Module, key: Seq<char>)
    ensures
        module_named(key_of(m)) == Some(m),
        module_named(key) == Some(m) ==> key == key_of(m),
{
    lemma_keys_differ();
}

// ---------------------------------------------------------------------------
// Lines

/// What a line that the runner prints means.
#[derive(Debug, PartialEq, Eq)]
pub enum ParsedLine {
    /// An event.
    Event(UpdateEvent),
    /// A marker that stands for no event.
    Consumed,
    /// An ordinary line.
    Plain,
}

/// What stands between the two marks of a marker line.
pub open spec fn marked(line: Seq<char>) -> Option<Seq<char>> {
    let mark = "==="@;
    if text::begins_with(line, mark) && text::ends_in(line.skip(mark.len() as int), mark) {
        let tail = line.skip(mark.len() as int);
        Some(tail.take(tail.len() - mark.len()))
    } else {
        None
    }
}

/// The code that a marker gives; one that cannot be read is -1.
pub open spec fn exit_code(s: Seq<char>) -> int {
    match text::integer(s) {
        Some(n) => if i32::MIN <= n <= i32::MAX {
            n
        } else {
            -1
        },
        None => -1,
    }
}

/// How a module ended that exited with `code`.
pub open spec fn status_of(code: int) -> ModuleStatus {
    if code == 0 {
        ModuleStatus::Success
    } else if code == 77 {
        ModuleStatus::UpToDate
    } else {
        ModuleStatus::Failed(code as i32)
    }
}

/// An event for a module where there is one, else an ordinary line.
pub open spec fn event_or_plain(m: Option<Module>, status: Option<ModuleStatus>) -> ParsedLine {
    match m {
        Some(x) => ParsedLine::Event(
            match status {
                Some(s) => UpdateEvent::ModuleFinished(x, s),
                None => UpdateEvent::ModuleStarted(x),
            },
        ),
        None => ParsedLine::Plain,
    }
}

/// What a line means.
pub open spec fn meaning(line: Seq<char>) -> ParsedLine {
    match marked(line) {
        None => ParsedLine::Plain,
        Some(inner) => {
            let parts = text::pieces(inner, ':');
            if inner == "DONE"@ {
                ParsedLine::Consumed
            } else if parts.len() == 2 && parts[0] == "MODULE"@ {
                event_or_plain(module_named(parts[1]), None)
            } else if parts.len() == 4 && parts[0] == "MODULE"@ && parts[2] == "done"@ {
                event_or_plain(module_named(parts[1]), Some(status_of(exit_code(parts[3]))))
            } else if parts.len() == 3 && parts[0] == "MODULE"@ && parts[2] == "skipped"@ {
                event_or_plain(module_named(parts[1]), Some(ModuleStatus::Skipped))
            } else {
                ParsedLine::Plain
            }
        },
    }
}

fn parse_code(s: &str) -> (r: i32)
    ensures
        r == exit_code(s@),
{
    match text::parse_i32(s) {
        Some(n) => n,
        None => -1,
    }
}

fn module_event(key: &str, status: Option<ModuleStatus>) -> (r: ParsedLine)
    ensures
        r == event_or_plain(module_named(key@), status),
{
    match Module::from_key(key) {
        Some(m) => match status {
            Some(s) => ParsedLine::Event(UpdateEvent::ModuleFinished(m, s)),
            None => ParsedLine::Event(UpdateEvent::ModuleStarted(m)),
        },
        None => ParsedLine::Plain,
    }
}

/// Read a line that the runner prints.
pub fn parse_line(line: &str) -> (r: ParsedLine)
    ensures
        r == meaning(line@),
{
    let inner = match text::strip_prefix(line, "===") {
        Some(tail) => match text::strip_suffix(tail, "===") {
            Some(inner) => inner,
            None => {
                return ParsedLine::Plain;
            },
        },
        None => {
            return ParsedLine::Plain;
        },
    };
    if text::eq(inner, "DONE") {
        return ParsedLine::Consumed;
    }
    let parts = text::split(inner, ':');
    let ghost ps = text::pieces(inner@, ':');
    assert(ps == text::strs(parts@));
    let n: usize = parts.len();
    if !text::eq(parts[0], "MODULE") {
        return ParsedLine::Plain;
    }
    if n == 2 {
        module_event(parts[1], None)
    } else if n == 4 && text::eq(parts[2], "done") {
        let code = parse_code(parts[3]);
        let status = if code == 0 {
            ModuleStatus::Success
        } else if code == 77 {
            ModuleStatus::UpToDate
        } else {
            ModuleStatus::Failed(code)
        };
        module_event(parts[1], Some(status))
    } else if n == 3 && text::eq(parts[2], "skipped") {
        module_event(parts[1], Some(ModuleStatus::Skipped))
    } else {
        ParsedLine::Plain
    }
}

/// What is told of a line on the standard output: its event, or the line, or
/// nothing.
pub open spec fn line_events(line: Seq<char>, r: Option<UpdateEvent>) -> bool {
    match meaning(line) {
        ParsedLine::Event(e) => r == Some(e),
        ParsedLine::Consumed => r is None,
        ParsedLine::Plain => r matches Some(UpdateEvent::Output(s)) && s@ == line,
    }
}

/// What is told of a line on the standard output.
pub fn on_stdout_line(line: String) -> (r: Option<UpdateEvent>)
    ensures
        line_events(line@, r),
{
    match parse_line(line.as_str()) {
        ParsedLine::Event(e) => Some(e),
        ParsedLine::Consumed => None,
        ParsedLine::Plain => Some(UpdateEvent::Output(line)),
    }
}

/// A line on the standard error is told as it is.
pub fn on_stderr_line(line: String) -> (r: UpdateEvent)
    ensures
        r == UpdateEvent::Output(line),
{
    UpdateEvent::Output(line)
}

// ---------------------------------------------------------------------------
// The end of a run

/// How a run ended.
#[derive(Debug)]
pub enum RunOutcome {
    /// The runner could not be started, for this reason.
    NotStarted(String),
    /// The user cancelled, and the runner was killed.
    Cancelled,
    /// The runner exited, with a code unless a signal ended it.
    Exited(Option<i32>),
    /// It could not be waited for, for this reason.
    NotAwaited(String),
}

/// The code of a runner that says that there was nothing to update.
pub const UP_TO_DATE_CODE: i32 = 77;

/// What is told at the end of a run.
pub open spec fn ends_with(outcome: RunOutcome, e: UpdateEvent) -> bool {
    match outcome {
        RunOutcome::NotStarted(why) => e matches UpdateEvent::Error(s) && s@
            == "Failed to start finupdate-runner: "@ + why@,
        RunOutcome::Cancelled => e matches UpdateEvent::Error(s) && s@
            == "Update cancelled by user"@,
        RunOutcome::Exited(code) => if code == Some(0i32) {
            e == UpdateEvent::Complete
        } else if code == Some(77i32) {
            e == UpdateEvent::UpToDate
        } else {
            e matches UpdateEvent::Error(s) && s@ == "Update process exited with code "@
                + text::integer_text(
                match code {
                    Some(c) => c as int,
                    None => -1,
                },
            )
        },
        RunOutcome::NotAwaited(why) => e matches UpdateEvent::Error(s) && s@
            == "Error waiting for update process: "@ + why@,
    }
}

/// What is told at the end of a run.
pub fn final_event(outcome: RunOutcome) -> (r: UpdateEvent)
    ensures
        ends_with(outcome, r),
{
    match outcome {
        RunOutcome::NotStarted(why) => {
            let mut s = "Failed to start finupdate-runner: ".to_owned();
            s.append(why.as_str());
            UpdateEvent::Error(s)
        },
        RunOutcome::Cancelled => UpdateEvent::Error("Update cancelled by user".to_owned()),
        RunOutcome::Exited(code) => match code {
            Some(c) => if c == 0 {
                UpdateEvent::Complete
            } else if c == UP_TO_DATE_CODE {
                UpdateEvent::UpToDate
            } else {
                exit_error(c)
            },
            None => exit_error(-1),
        },
        RunOutcome::NotAwaited(why) => {
            let mut s = "Error waiting for update process: ".to_owned();
            s.append(why.as_str());
            UpdateEvent::Error(s)
        },
    }
}

fn exit_error(code: i32) -> (r: UpdateEvent)
    ensures
        r matches UpdateEvent::Error(s) && s@ == "Update process exited with code "@
            + text::integer_text(code as int),
{
    let mut s = "Update process exited with code ".to_owned();
    text::push_integer(&mut s, code);
    UpdateEvent::Error(s)
}

/// An event that ends a run.
pub open spec fn is_terminal(e: UpdateEvent) -> bool {
    e is Complete || e is UpToDate || e is Error
}

/// What the lines of a run tell never ends it, and what is told at its end
/// always does: an observer sees exactly one end, and sees it last.
pub proof fn law_one_end(line: Seq<char>, told: Option<UpdateEvent>, outcome: RunOutcome, last: UpdateEvent)
    requires
        line_events(line, told),
        ends_with(outcome, last),
    ensures
        told matches Some(e) ==> !is_terminal(e),
        is_terminal(last),
{
}

/// The marker line that says that a module has started.
pub open spec fn started_marker(m: Module) -> Seq<char> {
    "==="@ + ("MODULE"@ + ":"@ + key_of(m)) + "==="@
}

/// The marker line that says that a module has exited with `code`.
pub open spec fn done_marker(m: Module, code: Seq<char>) -> Seq<char> {
    "==="@ + ("MODULE"@ + ":"@ + key_of(m) + ":"@ + "done"@ + ":"@ + code) + "==="@
}

proof fn lemma_marked(inner: Seq<char>)
    ensures
        marked("==="@ + inner + "==="@) == Some(inner),
{
    let mark = "==="@;
    let line = mark + inner + mark;
    assert(line.subrange(0, mark.len() as int) =~= mark);
    let tail = line.skip(mark.len() as int);
    assert(tail =~= inner + mark);
    assert(tail.subrange(tail.len() - mark.len(), tail.len() as int) =~= mark);
    assert(tail.take(tail.len() - mark.len()) =~= inner);
}

proof fn lemma_words_hold_no_colon()
    ensures
        ":"@ == seq![':'],
        !"MODULE"@.contains(':'),
        !"done"@.contains(':'),
        forall|m: Module| !(#[trigger] key_of(m)).contains(':'),
        "MODULE"@.len() > 0,
        "DONE"@ != "MODULE"@,
{
    reveal_strlit(":");
    reveal_strlit("MODULE");
    reveal_strlit("done");
    reveal_strlit("DONE");
    reveal_strlit("system");
    reveal_strlit("flatpak");
    reveal_strlit("brew");
    reveal_strlit("distrobox");
    assert(":"@ =~= seq![':']);
    assert("MODULE"@.len() == 6);
    assert("DONE"@.len() == 4);
}

/// The markers that the protocol defines are read as what they say.
pub proof fn law_markers_are_read(m: Module, code: Seq<char>)
    requires
        !code.contains(':'),
    ensures
        meaning(started_marker(m)) == ParsedLine::Event(UpdateEvent::ModuleStarted(m)),
        meaning(done_marker(m, code)) == ParsedLine::Event(
            UpdateEvent::ModuleFinished(m, status_of(exit_code(code))),
        ),
{
    lemma_words_hold_no_colon();
    law_module_keys_round_trip(m, key_of(m));
    let colon = seq![':'];
    let key = key_of(m);
    text::lemma_one_piece("MODULE"@, ':');
    text::lemma_one_piece(key, ':');
    text::lemma_one_piece("done"@, ':');
    text::lemma_one_piece(code, ':');
    let a = "MODULE"@ + colon + key;
    text::lemma_pieces_append("MODULE"@, ':', key);
    lemma_marked(a);
    assert(text::pieces(a, ':') =~= seq!["MODULE"@, key]);
    assert(a != "DONE"@) by {
        reveal_strlit("DONE");
        reveal_strlit("MODULE");
        assert(a[0] == 'M');
        assert("DONE"@[0] == 'D');
    }
    let b = a + colon + "done"@;
    text::lemma_pieces_append(a, ':', "done"@);
    let c = b + colon + code;
    text::lemma_pieces_append(b, ':', code);
    lemma_marked(c);
    assert(text::pieces(c, ':') =~= seq!["MODULE"@, key, "done"@, code]);
    assert(c != "DONE"@) by {
        reveal_strlit("DONE");
        reveal_strlit("MODULE");
        assert(c[0] == 'M');
        assert("DONE"@[0] == 'D');
    }
}

// ---------------------------------------------------------------------------
// The command

/// A command: the program, its arguments, and whether the variable that limits
/// the run to the system image is set in its environment.
#[derive(Debug)]
pub struct RunnerCommand {
    pub program: String,
    pub args: Vec<String>,
    pub system_only_env: bool,
}

/// A command, taken by its characters.
pub struct RunnerModel {
    pub program: Seq<char>,
    pub args: Seq<Seq<char>>,
    pub system_only_env: bool,
}

impl View for RunnerCommand {
    type V = RunnerModel;

    open spec fn view(&self) -> RunnerModel {
        RunnerModel {
            program: self.program@,
            args: text::views(self.args@),
            system_only_env: self.system_only_env,
        }
    }
}

/// The command that starts the runner.
pub open spec fn runner_command(
    mock: Option<Seq<char>>,
    sandboxed: bool,
    script: Option<Seq<char>>,
    system_only: bool,
) -> RunnerModel {
    match mock {
        Some(m) => RunnerModel { program: m, args: Seq::empty(), system_only_env: system_only },
        None => if sandboxed {
            RunnerModel {
                program: "flatpak-spawn"@,
                args: sandboxed_args(
                    system_only,
                    match script {
                        Some(s) => s,
                        None => missing_script(),
                    },
                ),
                system_only_env: false,
            }
        } else {
            RunnerModel {
                program: "pkexec"@,
                args: system_only_args(system_only) + seq!["finupdate-runner"@],
                system_only_env: false,
            }
        },
    }
}

fn no_args() -> (r: Vec<String>)
    ensures
        text::views(r@) == Seq::<Seq<char>>::empty(),
{
    let r: Vec<String> = Vec::new();
    assert(text::views(r@) =~= Seq::<Seq<char>>::empty());
    r
}

/// The script that stands in for one that is not there: it says so, and fails.
pub open spec fn missing_script() -> Seq<char> {
    "#!/bin/sh\necho 'finupdate-runner script not bundled in this flatpak' >&2\necho '===DONE==='\nexit 127\n"@
}

/// What limits a run to the system image, as arguments: the helper that
/// elevates a command clears its environment.
pub open spec fn system_only_args(system_only: bool) -> Seq<Seq<char>> {
    if system_only {
        seq!["env"@, "FINUPDATE_SYSTEM_ONLY=1"@]
    } else {
        Seq::empty()
    }
}

/// Inside a sandbox the text of the script, not a file that could be changed
/// meanwhile, is handed to a fixed interpreter on the host.
pub open spec fn sandboxed_args(system_only: bool, script: Seq<char>) -> Seq<Seq<char>> {
    seq!["--host"@, "pkexec"@] + system_only_args(system_only) + seq![
        "/usr/bin/sh"@,
        "-c"@,
        script,
    ]
}

fn push_system_only(args: &mut Vec<String>, system_only: bool)
    ensures
        text::views(final(args)@) == text::views(old(args)@) + system_only_args(system_only),
{
    if system_only {
        args.push("env".to_owned());
        args.push("FINUPDATE_SYSTEM_ONLY=1".to_owned());
    }
    assert(text::views(args@) =~= text::views(old(args)@) + system_only_args(system_only));
}

/// The command that starts the runner, with a single elevation. `mock` replaces
/// it, without elevation; `script` is the text of the bundled script, where it
/// could be read.
pub fn build_runner_command(
    mock: Option<String>,
    sandboxed: bool,
    script: Option<String>,
    system_only: bool,
) -> (r: RunnerCommand)
    ensures
        r@ == runner_command(
            match mock {
                Some(m) => Some(m@),
                None => None,
            },
            sandboxed,
            match script {
                Some(s) => Some(s@),
                None => None,
            },
            system_only,
        ),
{
    match mock {
        Some(m) => RunnerCommand {
            program: m,
            args: no_args(),
            system_only_env: system_only,
        },
        None => {
            let mut args: Vec<String> = Vec::new();
            if sandboxed {
                let body = match script {
                    Some(s) => s,
                    None => "#!/bin/sh\necho 'finupdate-runner script not bundled in this flatpak' >&2\necho '===DONE==='\nexit 127\n".to_owned(),
                };
                let ghost text_of_script = body@;
                args.push("--host".to_owned());
                args.push("pkexec".to_owned());
                push_system_only(&mut args, system_only);
                let ghost before = text::views(args@);
                args.push("/usr/bin/sh".to_owned());
                args.push("-c".to_owned());
                args.push(body);
                proof {
                    assert(before =~= seq!["--host"@, "pkexec"@] + system_only_args(system_only));
                    assert(text::views(args@) =~= sandboxed_args(system_only, text_of_script));
                }
                RunnerCommand { program: "flatpak-spawn".to_owned(), args, system_only_env: false }
            } else {
                push_system_only(&mut args, system_only);
                args.push("finupdate-runner".to_owned());
                assert(text::views(args@) =~= system_only_args(system_only) + seq![
                    "finupdate-runner"@,
                ]);
                RunnerCommand { program: "pkexec".to_owned(), args, system_only_env: false }
            }
        },
    }
}

/// The modules by the names that the runner prints.
pub open spec fn is_called(m: Module, key: Seq<char>) -> bool {
    match m {
        Module::System => key == "system"@,
        Module::Flatpak => key == "flatpak"@,
        Module::Brew => key == "brew"@,
        Module::Distrobox => key == "distrobox"@,
    }
}

proof fn lemma_module_line(key: Seq<char>, rest: Seq<char>)
    requires
        !key.contains(':'),
    ensures
        marked("===MODULE:"@ + key + rest + "==="@) == Some("MODULE"@ + seq![':'] + key + rest),
        "MODULE"@ + seq![':'] + key + rest != "DONE"@,
{
    let inner = "MODULE"@ + seq![':'] + key + rest;
    reveal_strlit("===");
    reveal_strlit("===MODULE:");
    reveal_strlit("MODULE");
    reveal_strlit("DONE");
    assert("===MODULE:"@ =~= "==="@ + ("MODULE"@ + seq![':']));
    assert("===MODULE:"@ + key + rest + "==="@ =~= "==="@ + inner + "==="@);
    lemma_marked(inner);
    assert(inner[0] == 'M');
    assert("DONE"@[0] == 'D');
}

/// A line that says how a module exited is read as that: a code of nought is
/// success, 77 that there was nothing to update, and every other a failure with
/// that code. No outcome is read as another, and none as that of another module.
pub proof fn law_outcome_lines(m: Module, key: Seq<char>, code: int)
    requires
        is_called(m, key),
        i32::MIN <= code <= i32::MAX,
    ensures
        meaning("===MODULE:"@ + key + "==="@) == ParsedLine::Event(UpdateEvent::ModuleStarted(m)),
        meaning("===MODULE:"@ + key + ":skipped==="@) == ParsedLine::Event(
            UpdateEvent::ModuleFinished(m, ModuleStatus::Skipped),
        ),
        meaning("===MODULE:"@ + key + ":done:"@ + text::integer_text(code) + "==="@)
            == ParsedLine::Event(
            UpdateEvent::ModuleFinished(
                m,
                if code == 0 {
                    ModuleStatus::Success
                } else if code == 77 {
                    ModuleStatus::UpToDate
                } else {
                    ModuleStatus::Failed(code as i32)
                },
            ),
        ),
{
    lemma_words_hold_no_colon();
    lemma_keys_differ();
    assert(key == key_of(m));
    law_module_keys_round_trip(m, key);
    text::law_integer_round_trip(code);
    let c = text::integer_text(code);
    assert(!c.contains(':')) by {
        if c.contains(':') {
            let i = choose|i: int| 0 <= i < c.len() && c[i] == ':';
            assert(text::is_digit(c[i]) || c[i] == '-');
        }
    }
    let colon = seq![':'];
    text::lemma_one_piece("MODULE"@, ':');
    text::lemma_one_piece(key, ':');
    text::lemma_one_piece("done"@, ':');
    text::lemma_one_piece(c, ':');
    reveal_strlit("skipped");
    text::lemma_one_piece("skipped"@, ':');
    let a = "MODULE"@ + colon + key;
    text::lemma_pieces_append("MODULE"@, ':', key);
    assert(text::pieces(a, ':') =~= seq!["MODULE"@, key]);
    lemma_module_line(key, Seq::empty());
    assert(a + Seq::<char>::empty() =~= a);
    assert("===MODULE:"@ + key + Seq::<char>::empty() + "==="@ =~= "===MODULE:"@ + key + "==="@);

    let skipped = colon + "skipped"@;
    text::lemma_pieces_append(a, ':', "skipped"@);
    assert(a + skipped =~= a + colon + "skipped"@);
    assert(text::pieces(a + skipped, ':') =~= seq!["MODULE"@, key, "skipped"@]);
    lemma_module_line(key, skipped);
    assert("===MODULE:"@ + key + skipped + "==="@ =~= "===MODULE:"@ + key + ":skipped==="@) by {
        reveal_strlit(":skipped===");
        reveal_strlit("===");
        assert(":skipped==="@ =~= skipped + "==="@);
    }

    let done = colon + "done"@ + colon + c;
    let b = a + colon + "done"@;
    text::lemma_pieces_append(a, ':', "done"@);
    text::lemma_pieces_append(b, ':', c);
    assert(a + done =~= b + colon + c);
    assert(text::pieces(a + done, ':') =~= seq!["MODULE"@, key, "done"@, c]);
    lemma_module_line(key, done);
    assert("===MODULE:"@ + key + done + "==="@ =~= "===MODULE:"@ + key + ":done:"@ + c + "==="@) by {
        reveal_strlit(":done:");
        reveal_strlit("done");
        assert(":done:"@ =~= colon + "done"@ + colon);
    }
}

/// A line that does not begin with the mark of the runner, or does not end with
/// it, is told as it is, and so is one about a module that there is not. The
/// mark of the end is not told.
pub proof fn law_other_lines_are_output(line: Seq<char>, told: Option<UpdateEvent>)
    requires
        line_events(line, told),
    ensures
        line.len() < 3 || line.take(3) != seq!['=', '=', '='] || line.skip(line.len() - 3) != seq![
            '=',
            '=',
            '=',
        ] ==> (told matches Some(UpdateEvent::Output(s)) && s@ == line),
        told matches Some(UpdateEvent::Output(s)) ==> s@ == line,
        line == "===DONE==="@ ==> told is None,
        told is None ==> line == "===DONE==="@,
{
    reveal_strlit("===");
    assert("==="@ =~= seq!['=', '=', '=']);
    reveal_strlit("===DONE===");
    reveal_strlit("DONE");
    assert("===DONE==="@ =~= "==="@ + "DONE"@ + "==="@);
    lemma_marked("DONE"@);
    if let Some(inner) = marked(line) {
        let tail = line.skip(3);
        assert(line.take(3) =~= "==="@);
        assert(tail.skip(tail.len() - 3) =~= line.skip(line.len() - 3));
        assert(tail =~= inner + tail.skip(tail.len() - 3));
        assert(line =~= line.take(3) + tail);
        assert(line =~= "==="@ + inner + "==="@);
    }
}

/// What is told at the end of a run says how it ended: completed after the code
/// nought, nothing to update after 77, and else an error that gives the code or
/// the reason.
pub proof fn law_end_says_how(outcome: RunOutcome, e: UpdateEvent)
    requires
        ends_with(outcome, e),
    ensures
        e is Complete <==> outcome == RunOutcome::Exited(Some(0i32)),
        e is UpToDate <==> outcome == RunOutcome::Exited(Some(77i32)),
        outcome matches RunOutcome::Exited(Some(c)) ==> (e matches UpdateEvent::Error(s)
            ==> text::ends_in(s@, text::integer_text(c as int)) && c != 0 && c != 77),
        outcome matches RunOutcome::NotStarted(why) ==> (e matches UpdateEvent::Error(s)
            && text::ends_in(s@, why@)),
        outcome matches RunOutcome::NotAwaited(why) ==> (e matches UpdateEvent::Error(s)
            && text::ends_in(s@, why@)),
        outcome is Cancelled ==> (e matches UpdateEvent::Error(s) && s@
            == "Update cancelled by user"@),
{
    if let UpdateEvent::Error(s) = e {
        match outcome {
            RunOutcome::NotStarted(why) => {
                assert(s@.skip(s@.len() - why@.len()) =~= why@);
            },
            RunOutcome::NotAwaited(why) => {
                assert(s@.skip(s@.len() - why@.len()) =~= why@);
            },
            RunOutcome::Exited(Some(c)) => {
                let t = text::integer_text(c as int);
                assert(s@.skip(s@.len() - t.len()) =~= t);
            },
            _ => {},
        }
    }
}

/// Elevation happens once, by `pkexec`, in a sandbox through the host; the text
/// of the script is the last argument there; and a run is limited to the system
/// image exactly where that is asked for.
pub proof fn law_runner_is_elevated_once(system_only: bool, script: Seq<char>)
    requires
        script != "pkexec"@,
        script != "FINUPDATE_SYSTEM_ONLY=1"@,
    ensures
        ({
            let args = sandboxed_args(system_only, script);
            &&& args.last() == script
            &&& args[0] == "--host"@
            &&& args[1] == "pkexec"@
            &&& forall|i: int| 0 <= i < args.len() && #[trigger] args[i] == "pkexec"@ ==> i == 1
            &&& args[args.len() - 3] == "/usr/bin/sh"@ && args[args.len() - 2] == "-c"@
            &&& args.contains("FINUPDATE_SYSTEM_ONLY=1"@) <==> system_only
            &&& system_only_args(system_only).contains("FINUPDATE_SYSTEM_ONLY=1"@) <==> system_only
            &&& !system_only_args(system_only).contains("pkexec"@)
        }),
{
    reveal_strlit("--host");
    reveal_strlit("pkexec");
    reveal_strlit("env");
    reveal_strlit("FINUPDATE_SYSTEM_ONLY=1");
    reveal_strlit("/usr/bin/sh");
    reveal_strlit("-c");
    assert("--host"@.len() == 6 && "pkexec"@.len() == 6 && "env"@.len() == 3
        && "FINUPDATE_SYSTEM_ONLY=1"@.len() == 23 && "/usr/bin/sh"@.len() == 11 && "-c"@.len()
        == 2);
    assert("--host"@[0] == '-' && "pkexec"@[0] == 'p');
    let args = sandboxed_args(system_only, script);
    if system_only {
        assert(args =~= seq![
            "--host"@,
            "pkexec"@,
            "env"@,
            "FINUPDATE_SYSTEM_ONLY=1"@,
            "/usr/bin/sh"@,
            "-c"@,
            script,
        ]);
        assert(args[3] == "FINUPDATE_SYSTEM_ONLY=1"@);
        assert(system_only_args(true)[1] == "FINUPDATE_SYSTEM_ONLY=1"@);
    } else {
        assert(args =~= seq!["--host"@, "pkexec"@, "/usr/bin/sh"@, "-c"@, script]);
    }
}

/// A mock stands for the runner as it is, without arguments; on the host the runner
/// itself is elevated; from inside a sandbox its script is handed to the host, or
/// one that fails where it could not be read. A run is limited to the system image
/// where that is asked for, and nowhere else.
pub proof fn law_runner_commands(
    m: Seq<char>,
    sandboxed: bool,
    script: Option<Seq<char>>,
    system_only: bool,
)
    ensures
        ({
            let r = runner_command(Some(m), sandboxed, script, system_only);
            r.program == m && r.args.len() == 0 && r.system_only_env == system_only
        }),
        ({
            let r = runner_command(None, false, script, system_only);
            r.program == "pkexec"@ && r.args.last() == "finupdate-runner"@ && !r.system_only_env
                && r.args.len() == (if system_only {
                3int
            } else {
                1
            }) && (system_only ==> r.args[0] == "env"@ && r.args[1] == "FINUPDATE_SYSTEM_ONLY=1"@)
        }),
        ({
            let r = runner_command(None, true, script, system_only);
            r.program == "flatpak-spawn"@ && r.args[0] == "--host"@ && r.args[1] == "pkexec"@
                && !r.system_only_env && (script matches Some(s) ==> r.args.last() == s) && (
            script is None ==> r.args.last() == missing_script()) && r.args.len() == (
            if system_only {
                7int
            } else {
                5
            }) && (system_only ==> r.args[2] == "env"@ && r.args[3] == "FINUPDATE_SYSTEM_ONLY=1"@)
        }),
{
}

/// A line about a module that there is not is told as it is, and so is one with a
/// word that the protocol does not have; a code that cannot be read is a failure.
pub proof fn law_what_the_protocol_does_not_have(
    m: Module,
    known: Seq<char>,
    key: Seq<char>,
    word: Seq<char>,
    code: Seq<char>,
)
    requires
        is_called(m, known),
        !key.contains(':') && key != "system"@ && key != "flatpak"@ && key != "brew"@ && key
            != "distrobox"@,
        !word.contains(':') && word != "skipped"@,
        !code.contains(':') && text::integer(code) is None,
    ensures
        meaning("===MODULE:"@ + key + "==="@) is Plain,
        meaning("===MODULE:"@ + known + (":"@ + word) + "==="@) is Plain,
        meaning("===MODULE:"@ + known + (":done:"@ + code) + "==="@) == ParsedLine::Event(
            UpdateEvent::ModuleFinished(m, ModuleStatus::Failed(-1i32)),
        ),
{
    lemma_words_hold_no_colon();
    assert(known == key_of(m));
    law_module_keys_round_trip(m, known);
    let colon = seq![':'];
    let e = Seq::<char>::empty();
    text::lemma_one_piece("MODULE"@, ':');
    text::lemma_one_piece(key, ':');
    text::lemma_one_piece(known, ':');
    text::lemma_one_piece(word, ':');
    text::lemma_one_piece("done"@, ':');
    text::lemma_one_piece(code, ':');
    let a = "MODULE"@ + colon + key;
    text::lemma_pieces_append("MODULE"@, ':', key);
    assert(text::pieces(a, ':') =~= seq!["MODULE"@, key]);
    lemma_module_line(key, e);
    assert(a + e =~= a);
    assert("===MODULE:"@ + key + e + "==="@ =~= "===MODULE:"@ + key + "==="@);
    let b = "MODULE"@ + colon + known;
    text::lemma_pieces_append("MODULE"@, ':', known);
    assert(text::pieces(b, ':') =~= seq!["MODULE"@, known]);
    text::lemma_pieces_append(b, ':', word);
    assert(b + (":"@ + word) =~= b + colon + word);
    assert(text::pieces(b + colon + word, ':') =~= seq!["MODULE"@, known, word]);
    lemma_module_line(known, ":"@ + word);
    let d = b + colon + "done"@;
    text::lemma_pieces_append(b, ':', "done"@);
    text::lemma_pieces_append(d, ':', code);
    reveal_strlit(":done:");
    reveal_strlit("done");
    assert(":done:"@ =~= colon + "done"@ + colon);
    assert(b + (":done:"@ + code) =~= d + colon + code);
    assert(text::pieces(d + colon + code, ':') =~= seq!["MODULE"@, known, "done"@, code]);
    lemma_module_line(known, ":done:"@ + code);
}

/// What is told of a command is what it holds.
pub proof fn law_command_holds_what_is_told(c: RunnerCommand, k: int)
    ensures
        c@.program == c.program@ && c@.system_only_env == c.system_only_env,
        c@.args.len() == c.args@.len(),
        0 <= k < c.args@.len() ==> c@.args[k] == c.args@[k]@,
{
}

} // verus!
