//! The arguments of the graphical program.

use vstd::prelude::*;
use crate::app;
use crate::app::PanelSettings;
use crate::text;

verus! {

/// What the arguments change for one run. Nothing of it is ever saved.
#[derive(Debug, Clone, PartialEq, Eq)]
pub struct RuntimeOverrides {
    pub dev_mode: Option<bool>,
    pub dry_run: Option<bool>,
    /// The name under which the settings know a scenario.
    pub sim_scenario: Option<&'static str>,
    /// Where the intended actions are recorded.
    pub journal: Option<String>,
}

/// What the arguments change, taken by its characters.
pub struct OverridesModel {
    pub dev_mode: Option<bool>,
    pub dry_run: Option<bool>,
    pub sim_scenario: Option<Seq<char>>,
    pub journal: Option<Seq<char>>,
}

impl View for RuntimeOverrides {
    type V = OverridesModel;

    open spec fn view(&self) -> OverridesModel {
        OverridesModel {
            dev_mode: self.dev_mode,
            dry_run: self.dry_run,
            sim_scenario: match self.sim_scenario {
                Some(s) => Some(s@),
                None => None,
            },
            journal: match self.journal {
                Some(s) => Some(s@),
                None => None,
            },
        }
    }
}

/// What the arguments ask for.
#[derive(Debug)]
pub enum Invocation {
    Run(RuntimeOverrides),
    Help,
    /// `--journal=` names no file.
    NoJournalPath,
    /// `--sim=` names no scenario.
    InvalidScenario(String),
    UnknownArgument(String),
}

/// What the arguments ask for, taken by its characters.
pub enum InvocationModel {
    Run(OverridesModel),
    Help,
    NoJournalPath,
    InvalidScenario(Seq<char>),
    UnknownArgument(Seq<char>),
}

impl View for Invocation {
    type V = InvocationModel;

    open spec fn view(&self) -> InvocationModel {
        match *self {
            Invocation::Run(o) => InvocationModel::Run(o@),
            Invocation::Help => InvocationModel::Help,
            Invocation::NoJournalPath => InvocationModel::NoJournalPath,
            Invocation::InvalidScenario(s) => InvocationModel::InvalidScenario(s@),
            Invocation::UnknownArgument(s) => InvocationModel::UnknownArgument(s@),
        }
    }
}

/// Without arguments nothing is changed.
pub open spec fn no_overrides() -> OverridesModel {
    OverridesModel { dev_mode: None, dry_run: None, sim_scenario: None, journal: None }
}

/// The name under which the settings know the scenario that `--sim=` names.
pub open spec fn setting_for(scenario: Seq<char>) -> Option<Seq<char>> {
    if scenario == "success"@ {
        Some("Success"@)
    } else if scenario == "failure"@ {
        Some("Failure"@)
    } else if scenario == "up-to-date"@ {
        Some("AlreadyUpToDate"@)
    } else {
        None
    }
}

/// What one more argument makes of it.
pub open spec fn with_argument(o: OverridesModel, arg: Seq<char>) -> InvocationModel {
    if arg == "--dev-mode"@ {
        InvocationModel::Run(OverridesModel { dev_mode: Some(true), ..o })
    } else if arg == "--no-dev-mode"@ {
        InvocationModel::Run(OverridesModel { dev_mode: Some(false), ..o })
    } else if arg == "--dry-run"@ {
        InvocationModel::Run(OverridesModel { dry_run: Some(true), ..o })
    } else if arg == "--no-dry-run"@ {
        InvocationModel::Run(OverridesModel { dry_run: Some(false), ..o })
    } else if arg == "-h"@ || arg == "--help"@ {
        InvocationModel::Help
    } else if text::begins_with(arg, "--journal="@) {
        let path = arg.skip("--journal="@.len() as int);
        if path.len() == 0 {
            InvocationModel::NoJournalPath
        } else {
            InvocationModel::Run(OverridesModel { journal: Some(path), ..o })
        }
    } else if text::begins_with(arg, "--sim="@) {
        let scenario = arg.skip("--sim="@.len() as int);
        match setting_for(scenario) {
            Some(name) => InvocationModel::Run(
                OverridesModel { dev_mode: Some(true), sim_scenario: Some(name), ..o },
            ),
            None => InvocationModel::InvalidScenario(scenario),
        }
    } else {
        InvocationModel::UnknownArgument(arg)
    }
}

/// What arguments ask for: they are read in order, up to the first one that
/// asks for help or cannot be read.
pub open spec fn asked(args: Seq<Seq<char>>) -> InvocationModel
    decreases args.len(),
{
    if args.len() == 0 {
        InvocationModel::Run(no_overrides())
    } else {
        match asked(args.drop_last()) {
            InvocationModel::Run(o) => with_argument(o, args.last()),
            other => other,
        }
    }
}

fn scenario_setting(scenario: &str) -> (r: Option<&'static str>)
    ensures
        match r {
            Some(s) => setting_for(scenario@) == Some(s@),
            None => setting_for(scenario@) is None,
        },
{
    if text::eq(scenario, "success") {
        Some("Success")
    } else if text::eq(scenario, "failure") {
        Some("Failure")
    } else if text::eq(scenario, "up-to-date") {
        Some("AlreadyUpToDate")
    } else {
        None
    }
}

fn read_argument(o: RuntimeOverrides, arg: &str) -> (r: Invocation)
    ensures
        r@ == with_argument(o@, arg@),
{
    let mut o = o;
    if text::eq(arg, "--dev-mode") {
        o.dev_mode = Some(true);
        Invocation::Run(o)
    } else if text::eq(arg, "--no-dev-mode") {
        o.dev_mode = Some(false);
        Invocation::Run(o)
    } else if text::eq(arg, "--dry-run") {
        o.dry_run = Some(true);
        Invocation::Run(o)
    } else if text::eq(arg, "--no-dry-run") {
        o.dry_run = Some(false);
        Invocation::Run(o)
    } else if text::eq(arg, "-h") || text::eq(arg, "--help") {
        Invocation::Help
    } else if let Some(path) = text::strip_prefix(arg, "--journal=") {
        if path.is_empty() {
            Invocation::NoJournalPath
        } else {
            o.journal = Some(path.to_owned());
            Invocation::Run(o)
        }
    } else if let Some(scenario) = text::strip_prefix(arg, "--sim=") {
        match scenario_setting(scenario) {
            Some(name) => {
                o.sim_scenario = Some(name);
                o.dev_mode = Some(true);
                Invocation::Run(o)
            },
            None => Invocation::InvalidScenario(scenario.to_owned()),
        }
    } else {
        Invocation::UnknownArgument(arg.to_owned())
    }
}

proof fn lemma_asked_stays(args: Seq<Seq<char>>, k: int)
    requires
        0 <= k <= args.len(),
        !(asked(args.take(k)) is Run),
    ensures
        asked(args) == asked(args.take(k)),
    decreases args.len() - k,
{
    if k < args.len() {
        assert(args.take(k + 1).drop_last() =~= args.take(k));
        lemma_asked_stays(args, k + 1);
    } else {
        assert(args.take(k) =~= args);
    }
}

/// Read the arguments, without the name of the program.
pub fn parse_args(args: &Vec<String>) -> (r: Invocation)
    ensures
        r@ == asked(text::views(args@)),
{
    let ghost all = text::views(args@);
    let mut o = RuntimeOverrides {
        dev_mode: None,
        dry_run: None,
        sim_scenario: None,
        journal: None,
    };
    let mut i: usize = 0;
    assert(all.take(0).len() == 0);
    while i < args.len()
        invariant
            i <= args@.len(),
            all == text::views(args@),
            asked(all.take(i as int)) == InvocationModel::Run(o@),
        decreases args@.len() - i,
    {
        proof {
            assert(all.take(i + 1).drop_last() =~= all.take(i as int));
            assert(all.take(i + 1).last() == args@[i as int]@);
        }
        match read_argument(o, args[i].as_str()) {
            Invocation::Run(next) => {
                o = next;
            },
            other => {
                proof {
                    lemma_asked_stays(all, i + 1);
                }
                return other;
            },
        }
        i += 1;
    }
    assert(all.take(all.len() as int) =~= all);
    Invocation::Run(o)
}

/// The code that the program exits with at once.
pub open spec fn code_of(i: InvocationModel) -> Option<i32> {
    match i {
        InvocationModel::Run(_) => None,
        InvocationModel::Help => Some(0i32),
        _ => Some(2i32),
    }
}

/// The code that the program exits with at once; `None` where it runs.
pub fn exit_code(invocation: &Invocation) -> (r: Option<i32>)
    ensures
        r == code_of(invocation@),
{
    match invocation {
        Invocation::Run(_) => None,
        Invocation::Help => Some(0),
        _ => Some(2),
    }
}

/// What is said of arguments that cannot be read.
pub open spec fn complaint_about(i: InvocationModel) -> Option<Seq<char>> {
    match i {
        InvocationModel::Run(_) => None,
        InvocationModel::Help => None,
        InvocationModel::NoJournalPath => Some("finupdate: --journal= requires a path"@),
        InvocationModel::InvalidScenario(s) => Some(
            "finupdate: invalid --sim scenario '"@ + s
                + "'\nValid: success | failure | up-to-date"@,
        ),
        InvocationModel::UnknownArgument(s) => Some("finupdate: unknown argument '"@ + s + "'"@),
    }
}

/// What is said of arguments that cannot be read.
pub fn complaint(invocation: &Invocation) -> (r: Option<String>)
    ensures
        match r {
            Some(s) => complaint_about(invocation@) == Some(s@),
            None => complaint_about(invocation@) is None,
        },
{
    match invocation {
        Invocation::Run(_) => None,
        Invocation::Help => None,
        Invocation::NoJournalPath => Some("finupdate: --journal= requires a path".to_owned()),
        Invocation::InvalidScenario(s) => {
            let mut out = "finupdate: invalid --sim scenario '".to_owned();
            out.append(s.as_str());
            out.append("'\nValid: success | failure | up-to-date");
            Some(out)
        },
        Invocation::UnknownArgument(s) => {
            let mut out = "finupdate: unknown argument '".to_owned();
            out.append(s.as_str());
            out.append("'");
            Some(out)
        },
    }
}

/// The settings of this run: what is saved, with the arguments layered over it.
pub open spec fn layered(saved: PanelSettings, o: OverridesModel) -> PanelSettings {
    PanelSettings {
        dev_mode: match o.dev_mode {
            Some(v) => v,
            None => saved.dev_mode,
        },
        dry_run: match o.dry_run {
            Some(v) => v,
            None => saved.dry_run,
        },
        ..saved
    }
}

/// The settings of this run.
pub fn effective_settings(saved: &PanelSettings, o: &RuntimeOverrides) -> (r: PanelSettings)
    ensures
        r == layered(*saved, o@),
{
    PanelSettings {
        dev_mode: match o.dev_mode {
            Some(v) => v,
            None => saved.dev_mode,
        },
        dry_run: match o.dry_run {
            Some(v) => v,
            None => saved.dry_run,
        },
        pause_on_metered: saved.pause_on_metered,
    }
}

// ---------------------------------------------------------------------------
// Laws

/// A scenario that is asked for is the one that is simulated, and developer
/// mode comes with it.
pub proof fn law_scenario_is_simulated(o: OverridesModel, saved: PanelSettings)
    ensures
        with_argument(o, "--sim="@ + "success"@) matches InvocationModel::Run(p)
            && app::scenario_named(p.sim_scenario) is Success && layered(saved, p).dev_mode,
        with_argument(o, "--sim="@ + "failure"@) matches InvocationModel::Run(p)
            && app::scenario_named(p.sim_scenario) is Failure && layered(saved, p).dev_mode,
        with_argument(o, "--sim="@ + "up-to-date"@) matches InvocationModel::Run(p)
            && app::scenario_named(p.sim_scenario) is AlreadyUpToDate && layered(
            saved,
            p,
        ).dev_mode,
{
    reveal_strlit("success");
    reveal_strlit("failure");
    reveal_strlit("up-to-date");
    reveal_strlit("Success");
    reveal_strlit("Failure");
    reveal_strlit("AlreadyUpToDate");
    reveal_strlit("uptodate");
    lemma_sim(o, "success"@);
    lemma_sim(o, "failure"@);
    lemma_sim(o, "up-to-date"@);
    assert("success"@.len() == 7 && "failure"@.len() == 7 && "up-to-date"@.len() == 10);
    assert("success"@[0] == 's' && "failure"@[0] == 'f');
    assert("Success"@[0] == 'S' && "Failure"@[0] == 'F' && "AlreadyUpToDate"@.len() == 15);
    assert("Success"@.len() == 7 && "uptodate"@.len() == 8);
}

proof fn lemma_sim(o: OverridesModel, scenario: Seq<char>)
    ensures
        with_argument(o, "--sim="@ + scenario) == (match setting_for(scenario) {
            Some(name) => InvocationModel::Run(
                OverridesModel { dev_mode: Some(true), sim_scenario: Some(name), ..o },
            ),
            None => InvocationModel::InvalidScenario(scenario),
        }),
{
    reveal_strlit("--sim=");
    reveal_strlit("--dev-mode");
    reveal_strlit("--no-dev-mode");
    reveal_strlit("--dry-run");
    reveal_strlit("--no-dry-run");
    reveal_strlit("-h");
    reveal_strlit("--help");
    reveal_strlit("--journal=");
    let arg = "--sim="@ + scenario;
    assert(arg[0] == '-' && arg[1] == '-' && arg[2] == 's');
    assert("--dev-mode"@[2] == 'd');
    assert("--no-dev-mode"@[2] == 'n');
    assert("--dry-run"@[2] == 'd');
    assert("--no-dry-run"@[2] == 'n');
    assert("-h"@.len() == 2);
    assert("--help"@[2] == 'h');
    assert("--journal="@[2] == 'j');
    assert(arg.take(6) =~= "--sim="@);
    assert(arg.skip(6) =~= scenario);
    assert(!text::begins_with(arg, "--journal="@)) by {
        if text::begins_with(arg, "--journal="@) {
            assert(arg.take(10)[2] == arg[2]);
        }
    }
}

/// What the arguments do not force is as it was saved.
pub proof fn law_saved_settings_hold(saved: PanelSettings)
    ensures
        layered(saved, no_overrides()) == saved,
{
}

/// Each switch of the command line forces what it names, on or off, and leaves
/// everything else; so does the name of a journal. Help is given where it is asked
/// for, and what is not known is told as it is.
pub proof fn law_switches_of_the_command_line(o: OverridesModel, path: Seq<char>, arg: Seq<char>)
    requires
        path.len() > 0,
    ensures
        with_argument(o, "--dev-mode"@) == InvocationModel::Run(
            OverridesModel { dev_mode: Some(true), ..o },
        ),
        with_argument(o, "--no-dev-mode"@) == InvocationModel::Run(
            OverridesModel { dev_mode: Some(false), ..o },
        ),
        with_argument(o, "--dry-run"@) == InvocationModel::Run(
            OverridesModel { dry_run: Some(true), ..o },
        ),
        with_argument(o, "--no-dry-run"@) == InvocationModel::Run(
            OverridesModel { dry_run: Some(false), ..o },
        ),
        with_argument(o, "--help"@) is Help,
        with_argument(o, "-h"@) is Help,
        with_argument(o, "--journal="@ + path) == InvocationModel::Run(
            OverridesModel { journal: Some(path), ..o },
        ),
        with_argument(o, "--journal="@) is NoJournalPath,
        arg.len() == 0 || arg[0] != '-' ==> with_argument(o, arg)
            == InvocationModel::UnknownArgument(arg),
{
    reveal_strlit("--sim=");
    reveal_strlit("--dev-mode");
    reveal_strlit("--no-dev-mode");
    reveal_strlit("--dry-run");
    reveal_strlit("--no-dry-run");
    reveal_strlit("-h");
    reveal_strlit("--help");
    reveal_strlit("--journal=");
    assert("--dev-mode"@.len() == 10 && "--no-dev-mode"@.len() == 13 && "--dry-run"@.len() == 9
        && "--no-dry-run"@.len() == 12 && "-h"@.len() == 2 && "--help"@.len() == 6
        && "--journal="@.len() == 10);
    assert("--dev-mode"@[2] == 'd' && "--journal="@[2] == 'j');
    let j = "--journal="@ + path;
    assert(j[2] == 'j');
    assert("--no-dev-mode"@[2] == 'n' && "--dry-run"@[2] == 'd' && "--no-dry-run"@[2] == 'n'
        && "--help"@[2] == 'h');
    assert(j.take(10) =~= "--journal="@);
    assert(j.subrange(0, 10) =~= "--journal="@);
    assert(j.skip(10) =~= path);
    assert("--journal="@.take(10) =~= "--journal="@);
    assert("--journal="@.subrange(0, 10) =~= "--journal="@);
    assert("--journal="@.skip(10).len() == 0);
    if arg.len() > 0 && arg[0] != '-' {
        assert("--dev-mode"@[0] == '-' && "--no-dev-mode"@[0] == '-' && "--dry-run"@[0] == '-'
            && "--no-dry-run"@[0] == '-' && "-h"@[0] == '-' && "--help"@[0] == '-');
        if text::begins_with(arg, "--journal="@) {
            assert(arg.take(10)[0] == arg[0]);
        }
        if text::begins_with(arg, "--sim="@) {
            assert(arg.take(6)[0] == arg[0]);
        }
    }
}

/// Arguments are read one after the other: the last that forces a thing counts;
/// the first that asks for help or cannot be read ends the reading.
pub proof fn law_arguments_in_order(args: Seq<Seq<char>>, arg: Seq<char>)
    ensures
        asked(Seq::empty()) == InvocationModel::Run(no_overrides()),
        asked(args) matches InvocationModel::Run(o) ==> asked(args.push(arg)) == with_argument(
            o,
            arg,
        ),
        !(asked(args) is Run) ==> asked(args.push(arg)) == asked(args),
{
    assert(args.push(arg).drop_last() =~= args);
}

/// A scenario that there is not is told by its name; the program ends at once with
/// the code nought after help, and two after a complaint, and runs else.
pub proof fn law_complaints(o: OverridesModel, scenario: Seq<char>, s: Seq<char>)
    ensures
        scenario != "success"@ && scenario != "failure"@ && scenario != "up-to-date"@
            ==> with_argument(o, "--sim="@ + scenario) == InvocationModel::InvalidScenario(
            scenario,
        ),
        code_of(InvocationModel::Run(o)) is None,
        code_of(InvocationModel::Help) == Some(0i32),
        code_of(InvocationModel::NoJournalPath) == Some(2i32),
        code_of(InvocationModel::InvalidScenario(s)) == Some(2i32),
        code_of(InvocationModel::UnknownArgument(s)) == Some(2i32),
        complaint_about(InvocationModel::Run(o)) is None,
        complaint_about(InvocationModel::Help) is None,
        complaint_about(InvocationModel::UnknownArgument(s)) matches Some(c) && text::occurs(c, s),
        complaint_about(InvocationModel::InvalidScenario(s)) matches Some(c) && text::occurs(c, s),
        complaint_about(InvocationModel::NoJournalPath) is Some,
{
    lemma_sim(o, scenario);
    let a = complaint_about(InvocationModel::UnknownArgument(s)).unwrap();
    let i = "finupdate: unknown argument '"@.len() as int;
    assert(a.subrange(i, i + s.len()) =~= s);
    assert(text::occurs_at(a, s, i));
    let b = complaint_about(InvocationModel::InvalidScenario(s)).unwrap();
    let j = "finupdate: invalid --sim scenario '"@.len() as int;
    assert(b.subrange(j, j + s.len()) =~= s);
    assert(text::occurs_at(b, s, j));
}

/// What an argument forces counts for the run, whatever was saved, and nothing
/// else of the settings changes.
pub proof fn law_forced_settings_count(saved: PanelSettings, o: OverridesModel)
    ensures
        o.dev_mode matches Some(v) ==> layered(saved, o).dev_mode == v,
        o.dev_mode is None ==> layered(saved, o).dev_mode == saved.dev_mode,
        o.dry_run matches Some(v) ==> layered(saved, o).dry_run == v,
        o.dry_run is None ==> layered(saved, o).dry_run == saved.dry_run,
        layered(saved, o).pause_on_metered == saved.pause_on_metered,
{
}

/// What is told of the arguments is what they hold.
pub proof fn law_overrides_hold_what_is_told(o: RuntimeOverrides)
    ensures
        o@.dev_mode == o.dev_mode,
        o@.dry_run == o.dry_run,
        o.sim_scenario matches Some(s) ==> o@.sim_scenario == Some(s@),
        o.sim_scenario is None ==> o@.sim_scenario is None,
        o.journal matches Some(s) ==> o@.journal == Some(s@),
        o.journal is None ==> o@.journal is None,
        Invocation::Run(o)@ == InvocationModel::Run(o@),
        Invocation::Help@ is Help,
        Invocation::NoJournalPath@ is NoJournalPath,
{
}

} // verus!
