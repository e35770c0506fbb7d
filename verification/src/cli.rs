//! The command line program: its commands, what each of them prints, and what
//! it exits with.

use vstd::prelude::*;
use crate::changelog;
use crate::changelog::Commit;
use crate::date;
use crate::date::Date;
use crate::orchestrator::{Module, ModuleStatus, UpdateEvent};
use crate::registry_client::models::{AvailableTag, ImageVersion};
use crate::sbom_diff::{PackageDiff, SbomDiffResult};
use crate::service;
use crate::service::{FamilyInfo, FeatureInfo, ImageRef};
use crate::text;

verus! {

// ---------------------------------------------------------------------------
// Commands

/// A command.
#[derive(Debug)]
pub enum Command {
    Help,
    Status,
    Family,
    /// List this many versions.
    Versions(usize),
    Tags,
    Changelog(Option<String>),
    Timer(Option<String>),
    Update { system_only: bool },
    Unknown(String),
}

/// A command, taken by its characters.
pub enum CommandModel {
    Help,
    Status,
    Family,
    Versions(int),
    Tags,
    Changelog(Option<Seq<char>>),
    Timer(Option<Seq<char>>),
    Update { system_only: bool },
    Unknown(Seq<char>),
}

pub open spec fn opt_view(s: Option<String>) -> Option<Seq<char>> {
    match s {
        Some(x) => Some(x@),
        None => None,
    }
}

impl View for Command {
    type V = CommandModel;

    open spec fn view(&self) -> CommandModel {
        match *self {
            Command::Help => CommandModel::Help,
            Command::Status => CommandModel::Status,
            Command::Family => CommandModel::Family,
            Command::Versions(n) => CommandModel::Versions(n as int),
            Command::Tags => CommandModel::Tags,
            Command::Changelog(t) => CommandModel::Changelog(opt_view(t)),
            Command::Timer(a) => CommandModel::Timer(opt_view(a)),
            Command::Update { system_only } => CommandModel::Update { system_only },
            Command::Unknown(s) => CommandModel::Unknown(s@),
        }
    }
}

/// The argument at a place, where there is one.
pub open spec fn argument(args: Seq<Seq<char>>, i: int) -> Option<Seq<char>> {
    if i < args.len() {
        Some(args[i])
    } else {
        None
    }
}

/// How many versions are listed, as the argument says, or eight where it does
/// not say.
pub open spec fn asked_count(arg: Option<Seq<char>>) -> int {
    match arg {
        Some(s) => match text::integer(s) {
            Some(n) => if s[0] != '-' && n <= usize::MAX {
                n
            } else {
                8
            },
            None => 8,
        },
        None => 8,
    }
}

/// The command that arguments name. The first of them is the program itself.
pub open spec fn command_of(args: Seq<Seq<char>>) -> CommandModel {
    match argument(args, 1) {
        None => CommandModel::Help,
        Some(name) => if name == "help"@ || name == "-h"@ || name == "--help"@ {
            CommandModel::Help
        } else if name == "status"@ {
            CommandModel::Status
        } else if name == "family"@ {
            CommandModel::Family
        } else if name == "versions"@ {
            CommandModel::Versions(asked_count(argument(args, 2)))
        } else if name == "tags"@ {
            CommandModel::Tags
        } else if name == "changelog"@ {
            CommandModel::Changelog(argument(args, 2))
        } else if name == "timer"@ {
            CommandModel::Timer(argument(args, 2))
        } else if name == "update"@ {
            CommandModel::Update { system_only: args.contains("--system-only"@) }
        } else {
            CommandModel::Unknown(name)
        },
    }
}

fn count_asked(args: &Vec<String>) -> (r: usize)
    ensures
        r == asked_count(argument(text::views(args@), 2)),
{
    if args.len() > 2 {
        match text::parse_usize(args[2].as_str()) {
            Some(n) => n,
            None => 8,
        }
    } else {
        8
    }
}

fn third(args: &Vec<String>) -> (r: Option<String>)
    ensures
        opt_view(r) == argument(text::views(args@), 2),
{
    if args.len() > 2 {
        Some(args[2].clone())
    } else {
        None
    }
}

fn contains_arg(args: &Vec<String>, arg: &str) -> (r: bool)
    ensures
        r == text::views(args@).contains(arg@),
{
    let mut i: usize = 0;
    while i < args.len()
        invariant
            i <= args@.len(),
            forall|j: int| 0 <= j < i ==> text::views(args@)[j] != arg@,
        decreases args@.len() - i,
    {
        if text::eq(args[i].as_str(), arg) {
            assert(text::views(args@)[i as int] == arg@);
            return true;
        }
        i += 1;
    }
    false
}

/// The command that arguments name. The first of them is the program itself.
pub fn parse_command(args: &Vec<String>) -> (r: Command)
    ensures
        r@ == command_of(text::views(args@)),
{
    if args.len() <= 1 {
        return Command::Help;
    }
    let name = args[1].as_str();
    if text::eq(name, "help") || text::eq(name, "-h") || text::eq(name, "--help") {
        Command::Help
    } else if text::eq(name, "status") {
        Command::Status
    } else if text::eq(name, "family") {
        Command::Family
    } else if text::eq(name, "versions") {
        Command::Versions(count_asked(args))
    } else if text::eq(name, "tags") {
        Command::Tags
    } else if text::eq(name, "changelog") {
        Command::Changelog(third(args))
    } else if text::eq(name, "timer") {
        Command::Timer(third(args))
    } else if text::eq(name, "update") {
        Command::Update { system_only: contains_arg(args, "--system-only") }
    } else {
        Command::Unknown(name.to_owned())
    }
}

// ---------------------------------------------------------------------------
// Reports

/// The code of a command that did what was asked.
pub const SUCCESS: u8 = 0;

/// The code of a command that failed.
pub const FAILURE: u8 = 1;

/// The code of a command that cannot be read.
pub const MISUSE: u8 = 2;

/// What a command prints, line by line, what it complains of, and the code that
/// it exits with.
#[derive(Debug)]
pub struct Report {
    pub out: Vec<String>,
    pub err: Vec<String>,
    pub code: u8,
}

/// A report, taken by its characters.
pub struct ReportModel {
    pub out: Seq<Seq<char>>,
    pub err: Seq<Seq<char>>,
    pub code: u8,
}

impl View for Report {
    type V = ReportModel;

    open spec fn view(&self) -> ReportModel {
        ReportModel { out: text::views(self.out@), err: text::views(self.err@), code: self.code }
    }
}

/// A command that printed these lines.
pub open spec fn told(out: Seq<Seq<char>>) -> ReportModel {
    ReportModel { out, err: Seq::empty(), code: SUCCESS }
}

/// A command that failed, and says why.
pub open spec fn failed(reason: Seq<char>) -> ReportModel {
    ReportModel { out: Seq::empty(), err: seq!["finupdate-cli: "@ + reason], code: FAILURE }
}

fn tell(out: Vec<String>) -> (r: Report)
    ensures
        r@ == told(text::views(out@)),
{
    let err: Vec<String> = Vec::new();
    assert(text::views(err@) =~= Seq::empty());
    Report { out, err, code: SUCCESS }
}

/// The report of a command that failed.
pub fn fail(reason: &str) -> (r: Report)
    ensures
        r@ == failed(reason@),
{
    let mut line = "finupdate-cli: ".to_owned();
    line.append(reason);
    let err = vec![line];
    let out: Vec<String> = Vec::new();
    proof {
        assert(text::views(err@) =~= seq!["finupdate-cli: "@ + reason@]);
        assert(text::views(out@) =~= Seq::empty());
    }
    Report { out, err, code: FAILURE }
}

/// What is said of a command that there is not.
pub open spec fn unknown_command(name: Seq<char>) -> ReportModel {
    ReportModel {
        out: Seq::empty(),
        err: seq!["finupdate-cli: unknown command '"@ + name + "'"@, Seq::empty()],
        code: MISUSE,
    }
}

/// What is said of a command that there is not.
pub fn report_unknown(name: &str) -> (r: Report)
    ensures
        r@ == unknown_command(name@),
{
    let mut line = "finupdate-cli: unknown command '".to_owned();
    line.append(name);
    line.append("'");
    let err = vec![line, String::new()];
    let out: Vec<String> = Vec::new();
    proof {
        assert(text::views(err@) =~= seq![
            "finupdate-cli: unknown command '"@ + name@ + "'"@,
            Seq::empty(),
        ]);
        assert(text::views(out@) =~= Seq::empty());
    }
    Report { out, err, code: MISUSE }
}

/// What `status` tells.
pub open spec fn status_told(image: Result<ImageRef, String>) -> ReportModel {
    match image {
        Ok(i) => told(seq![service::full_ref_of(i@)]),
        Err(e) => failed("no booted image detected: "@ + e@),
    }
}

/// `status`: the booted image, or why it is not known.
pub fn report_status(image: Result<ImageRef, String>) -> (r: Report)
    ensures
        r@ == status_told(image),
{
    match image {
        Ok(i) => {
            let v = vec![i.full_ref()];
            assert(text::views(v@) =~= seq![service::full_ref_of(i@)]);
            tell(v)
        },
        Err(e) => {
            let mut reason = "no booted image detected: ".to_owned();
            reason.append(e.as_str());
            fail(reason.as_str())
        },
    }
}

/// The lines for the features of a family.
pub open spec fn feature_lines(features: Seq<FeatureInfo>) -> Seq<Seq<char>> {
    Seq::new(
        features.len(),
        |i: int| "  - "@ + features[i].id@ + " ("@ + features[i].display_name@ + ")"@,
    )
}

/// The lines for a family.
pub open spec fn family_lines(f: FamilyInfo) -> Seq<Seq<char>> {
    let head = seq!["family: "@ + f.name@, "base:   "@ + f.base_image@];
    if f.features@.len() == 0 {
        head.push("features: (none)"@)
    } else {
        head.push("features:"@) + feature_lines(f.features@)
    }
}

/// What `family` tells.
pub open spec fn family_told(family: Result<Option<FamilyInfo>, String>) -> ReportModel {
    match family {
        Ok(Some(f)) => told(family_lines(f)),
        Ok(None) => failed("booted image is not in KNOWN_FAMILIES"@),
        Err(e) => failed(e@),
    }
}

/// `family`: the family of the booted image and its features.
pub fn report_family(family: Result<Option<FamilyInfo>, String>) -> (r: Report)
    ensures
        r@ == family_told(family),
{
    match family {
        Ok(Some(f)) => {
            let mut name = "family: ".to_owned();
            name.append(f.name.as_str());
            let mut base = "base:   ".to_owned();
            base.append(f.base_image.as_str());
            let mut out = vec![name, base];
            if f.features.len() == 0 {
                out.push("features: (none)".to_owned());
                assert(text::views(out@) =~= family_lines(f));
            } else {
                out.push("features:".to_owned());
                let ghost head = seq!["family: "@ + f.name@, "base:   "@ + f.base_image@].push(
                    "features:"@,
                );
                assert(text::views(out@) =~= head + feature_lines(f.features@).take(0));
                let mut i: usize = 0;
                while i < f.features.len()
                    invariant
                        i <= f.features@.len(),
                        text::views(out@) == head + feature_lines(f.features@).take(i as int),
                    decreases f.features@.len() - i,
                {
                    let ghost before = out@;
                    let mut line = "  - ".to_owned();
                    line.append(f.features[i].id.as_str());
                    line.append(" (");
                    line.append(f.features[i].display_name.as_str());
                    line.append(")");
                    out.push(line);
                    proof {
                        let all = feature_lines(f.features@);
                        assert(text::views(out@) =~= text::views(before).push(line@));
                        assert(all.take(i + 1) =~= all.take(i as int).push(all[i as int]));
                        assert(text::views(out@) =~= head + all.take(i + 1));
                    }
                    i += 1;
                }
                proof {
                    let all = feature_lines(f.features@);
                    assert(all.take(all.len() as int) =~= all);
                    assert(text::views(out@) =~= family_lines(f));
                }
            }
            tell(out)
        },
        Ok(None) => fail("booted image is not in KNOWN_FAMILIES"),
        Err(e) => fail(e.as_str()),
    }
}

/// The line for a version: its day, its name, and its kernel.
pub open spec fn version_line(v: ImageVersion) -> Seq<char> {
    date::dashed_text(v.date) + "  "@ + v.version@ + "  kernel="@ + (if v.kernel@.len() == 0 {
        "?"@
    } else {
        v.kernel@
    })
}

pub open spec fn version_lines(list: Seq<ImageVersion>) -> Seq<Seq<char>> {
    Seq::new(list.len(), |i: int| version_line(list[i]))
}

/// All versions have a day of the calendar.
pub open spec fn dated(list: Seq<ImageVersion>) -> bool {
    forall|i: int| 0 <= i < list.len() ==> (#[trigger] list[i]).date.wf()
}

/// What `versions` tells.
pub open spec fn versions_told(
    image: service::ImageModel,
    versions: Result<Vec<ImageVersion>, String>,
) -> ReportModel {
    match versions {
        Ok(list) => if list@.len() == 0 {
            failed("no versions found for "@ + service::full_ref_of(image))
        } else {
            told(version_lines(list@))
        },
        Err(e) => failed(e@),
    }
}

/// `versions`: the versions of the booted image. Where there are none that is a
/// failure.
pub fn report_versions(image: &ImageRef, versions: Result<Vec<ImageVersion>, String>) -> (r: Report)
    requires
        versions matches Ok(list) ==> dated(list@),
    ensures
        r@ == versions_told(image@, versions),
{
    match versions {
        Ok(list) => {
            if list.len() == 0 {
                let mut reason = "no versions found for ".to_owned();
                let full = image.full_ref();
                reason.append(full.as_str());
                return fail(reason.as_str());
            }
            let ghost all = version_lines(list@);
            let mut out: Vec<String> = Vec::new();
            assert(text::views(out@) =~= all.take(0));
            let mut i: usize = 0;
            while i < list.len()
                invariant
                    i <= list@.len(),
                    dated(list@),
                    all == version_lines(list@),
                    text::views(out@) == all.take(i as int),
                decreases list@.len() - i,
            {
                let ghost before = out@;
                assert(list@[i as int].date.wf());
                let mut line = date::format_dashed(&list[i].date);
                line.append("  ");
                line.append(list[i].version.as_str());
                line.append("  kernel=");
                if list[i].kernel.as_str().is_empty() {
                    line.append("?");
                } else {
                    line.append(list[i].kernel.as_str());
                }
                out.push(line);
                proof {
                    assert(line@ == all[i as int]);
                    assert(text::views(out@) =~= text::views(before).push(line@));
                    assert(all.take(i + 1) =~= all.take(i as int).push(all[i as int]));
                }
                i += 1;
            }
            assert(all.take(all.len() as int) =~= all);
            tell(out)
        },
        Err(e) => fail(e.as_str()),
    }
}

/// The line for a tag: the tag, and what it is shown as where that differs.
pub open spec fn tag_line(t: AvailableTag) -> Seq<char> {
    if t.display@ == t.raw@ {
        t.raw@
    } else {
        t.raw@ + "\t"@ + t.display@
    }
}

pub open spec fn tag_lines(list: Seq<AvailableTag>) -> Seq<Seq<char>> {
    Seq::new(list.len(), |i: int| tag_line(list[i]))
}

/// What `tags` tells.
pub open spec fn tags_told(tags: Result<Vec<AvailableTag>, String>) -> ReportModel {
    match tags {
        Ok(list) => told(tag_lines(list@)),
        Err(e) => failed(e@),
    }
}

/// `tags`: the tags that are published.
pub fn report_tags(tags: Result<Vec<AvailableTag>, String>) -> (r: Report)
    ensures
        r@ == tags_told(tags),
{
    match tags {
        Ok(list) => {
            let ghost all = tag_lines(list@);
            let mut out: Vec<String> = Vec::new();
            assert(text::views(out@) =~= all.take(0));
            let mut i: usize = 0;
            while i < list.len()
                invariant
                    i <= list@.len(),
                    all == tag_lines(list@),
                    text::views(out@) == all.take(i as int),
                decreases list@.len() - i,
            {
                let ghost before = out@;
                let mut line = list[i].raw.clone();
                if !text::eq(list[i].display.as_str(), list[i].raw.as_str()) {
                    line.append("\t");
                    line.append(list[i].display.as_str());
                }
                out.push(line);
                proof {
                    assert(line@ == all[i as int]);
                    assert(text::views(out@) =~= text::views(before).push(line@));
                    assert(all.take(i + 1) =~= all.take(i as int).push(all[i as int]));
                }
                i += 1;
            }
            assert(all.take(all.len() as int) =~= all);
            tell(out)
        },
        Err(e) => fail(e.as_str()),
    }
}

// ---------------------------------------------------------------------------
// The changelog

/// The day that a target names, where it is eight digits that name one. Such a
/// target is looked up among the versions; any other is a tag.
pub open spec fn target_day(raw: Seq<char>) -> Option<Date> {
    if raw.len() == 8 && text::all_digits(raw) {
        date::compact_date(raw)
    } else {
        None
    }
}

/// The day that a target names.
pub fn target_date(raw: &str) -> (r: Option<Date>)
    ensures
        r == target_day(raw@),
        r matches Some(d) ==> d.wf(),
{
    if text::len(raw) == 8 && text::digits_only(raw) {
        proof {
            date::law_compact_date_wf(raw@);
        }
        date::parse_compact(raw)
    } else {
        None
    }
}

/// How many versions are looked through for a day.
pub const LOOKUP_COUNT: usize = 120;

/// The first version of a day.
pub open spec fn first_on(list: Seq<ImageVersion>, day: Date) -> Option<ImageVersion>
    decreases list.len(),
{
    if list.len() == 0 {
        None
    } else {
        match first_on(list.drop_last(), day) {
            Some(v) => Some(v),
            None => if list.last().date == day {
                Some(list.last())
            } else {
                None
            },
        }
    }
}

/// The tag of a version: what stands behind the last colon of its reference.
pub open spec fn tag_of(v: ImageVersion) -> Seq<char> {
    match text::rhalves(v.full_ref@, ":"@) {
        Some(h) => h.1,
        None => v.version@,
    }
}

/// A target that was looked up.
#[derive(Debug)]
pub struct ResolvedTarget {
    pub tag: String,
    /// What was looked up, where that gave another tag.
    pub resolved_from: Option<String>,
    /// What is said where nothing was found.
    pub note: Option<String>,
}

/// A target that was looked up, taken by its characters.
pub struct TargetModel {
    pub tag: Seq<char>,
    pub resolved_from: Option<Seq<char>>,
    pub note: Option<Seq<char>>,
}

impl View for ResolvedTarget {
    type V = TargetModel;

    open spec fn view(&self) -> TargetModel {
        TargetModel {
            tag: self.tag@,
            resolved_from: opt_view(self.resolved_from),
            note: opt_view(self.note),
        }
    }
}

/// What a target stands for, given the versions that were listed.
pub open spec fn resolved(raw: Seq<char>, versions: Result<Vec<ImageVersion>, String>) -> TargetModel {
    match target_day(raw) {
        None => TargetModel { tag: raw, resolved_from: None, note: None },
        Some(day) => match versions {
            Ok(list) => match first_on(list@, day) {
                Some(v) => TargetModel { tag: tag_of(v), resolved_from: Some(raw), note: None },
                None => TargetModel {
                    tag: raw,
                    resolved_from: None,
                    note: Some(
                        "finupdate-cli: no published image found for date "@ + date::dashed_text(
                            day,
                        ) + " — using "@ + raw + " literally"@,
                    ),
                },
            },
            Err(e) => TargetModel {
                tag: raw,
                resolved_from: None,
                note: Some(
                    "finupdate-cli: list_versions failed ("@ + e@ + ") — using "@ + raw
                        + " literally"@,
                ),
            },
        },
    }
}

fn same_day(a: &Date, b: &Date) -> (r: bool)
    ensures
        r == (*a == *b),
{
    a.year == b.year && a.month == b.month && a.day == b.day
}

fn find_on(list: &Vec<ImageVersion>, day: &Date) -> (r: Option<usize>)
    ensures
        match r {
            Some(i) => i < list@.len() && first_on(list@, *day) == Some(list@[i as int]),
            None => first_on(list@, *day) is None,
        },
{
    let mut i: usize = 0;
    while i < list.len()
        invariant
            i <= list@.len(),
            first_on(list@.take(i as int), *day) is None,
        decreases list@.len() - i,
    {
        assert(list@.take(i + 1).drop_last() =~= list@.take(i as int));
        if same_day(&list[i].date, day) {
            proof {
                lemma_first_on_stays(list@, *day, i + 1);
            }
            return Some(i);
        }
        i += 1;
    }
    assert(list@.take(list@.len() as int) =~= list@);
    None
}

proof fn lemma_first_on_stays(list: Seq<ImageVersion>, day: Date, k: int)
    requires
        0 <= k <= list.len(),
        first_on(list.take(k), day) is Some,
    ensures
        first_on(list, day) == first_on(list.take(k), day),
    decreases list.len() - k,
{
    if k < list.len() {
        assert(list.take(k + 1).drop_last() =~= list.take(k));
        lemma_first_on_stays(list, day, k + 1);
    } else {
        assert(list.take(k) =~= list);
    }
}

/// What a target stands for: a tag, or a day of which a version is looked up
/// among `versions`.
pub fn resolve_target_tag(raw: &str, versions: &Result<Vec<ImageVersion>, String>) -> (r:
    ResolvedTarget)
    ensures
        r@ == resolved(raw@, *versions),
{
    let day = match target_date(raw) {
        Some(d) => d,
        None => {
            return ResolvedTarget { tag: raw.to_owned(), resolved_from: None, note: None };
        },
    };
    match versions {
        Ok(list) => match find_on(list, &day) {
            Some(i) => {
                let v = &list[i];
                let tag = match text::rsplit_once(v.full_ref.as_str(), ":") {
                    Some(h) => h.1.to_owned(),
                    None => v.version.clone(),
                };
                ResolvedTarget { tag, resolved_from: Some(raw.to_owned()), note: None }
            },
            None => {
                let mut note = "finupdate-cli: no published image found for date ".to_owned();
                let shown = date::format_dashed(&day);
                note.append(shown.as_str());
                note.append(" — using ");
                note.append(raw);
                note.append(" literally");
                ResolvedTarget { tag: raw.to_owned(), resolved_from: None, note: Some(note) }
            },
        },
        Err(e) => {
            let mut note = "finupdate-cli: list_versions failed (".to_owned();
            note.append(e.as_str());
            note.append(") — using ");
            note.append(raw);
            note.append(" literally");
            ResolvedTarget { tag: raw.to_owned(), resolved_from: None, note: Some(note) }
        },
    }
}

/// The lines at the head of a changelog.
pub open spec fn head_lines(booted: service::ImageModel, target: TargetModel) -> Seq<Seq<char>> {
    seq![
        "Changelog for "@ + booted.registry + "/"@ + booted.org + "/"@ + booted.image + ":"@,
        "  booted tag: "@ + booted.tag,
        match target.resolved_from {
            Some(via) => "  target tag: "@ + target.tag + " (resolved from "@ + via + ")"@,
            None => "  target tag: "@ + target.tag,
        },
        Seq::empty(),
        "== Recent commits ("@ + changelog::commit_list(booted.org, booted.image) + ") =="@,
    ]
}

/// The lines at the head of a changelog.
pub fn changelog_head(booted: &ImageRef, target: &ResolvedTarget) -> (r: Vec<String>)
    ensures
        text::views(r@) == head_lines(booted@, target@),
{
    let mut first = "Changelog for ".to_owned();
    first.append(booted.registry.as_str());
    first.append("/");
    first.append(booted.org.as_str());
    first.append("/");
    first.append(booted.image.as_str());
    first.append(":");
    let mut second = "  booted tag: ".to_owned();
    second.append(booted.tag.as_str());
    let mut third = "  target tag: ".to_owned();
    third.append(target.tag.as_str());
    if let Some(via) = &target.resolved_from {
        third.append(" (resolved from ");
        third.append(via.as_str());
        third.append(")");
    }
    let url = changelog::commits_url(booted.org.as_str(), booted.image.as_str());
    let mut last = "== Recent commits (".to_owned();
    last.append(url.as_str());
    last.append(") ==");
    let out = vec![first, second, third, String::new(), last];
    assert(text::views(out@) =~= head_lines(booted@, target@));
    out
}

/// How many commits are listed.
pub const SHOWN_COMMITS: usize = 30;

/// The first line of a text.
pub open spec fn first_line(s: Seq<char>) -> Seq<char> {
    if text::lines_of(s).len() > 0 {
        text::lines_of(s)[0]
    } else {
        Seq::empty()
    }
}

/// The line for a commit: the beginning of its hash, the first line of its
/// message, and its author.
pub open spec fn commit_line(c: Commit) -> Seq<char> {
    "  "@ + text::byte_prefix(c.sha@, 8) + "  "@ + first_line(c.message@) + "  ("@ + c.author@
        + ")"@
}

pub open spec fn commit_lines(list: Seq<Commit>) -> Seq<Seq<char>> {
    Seq::new(
        if list.len() <= SHOWN_COMMITS {
            list.len()
        } else {
            SHOWN_COMMITS as nat
        },
        |i: int| commit_line(list[i]),
    )
}

/// What a changelog says of the commits.
pub open spec fn commits_told(commits: Result<Vec<Commit>, String>) -> Seq<Seq<char>> {
    match commits {
        Ok(list) => if list@.len() == 0 {
            seq!["  (no commits returned)"@]
        } else {
            commit_lines(list@)
        },
        Err(e) => seq!["  (fetch failed: "@ + e@ + ")"@],
    }
}

/// What a changelog says of the commits.
pub fn changelog_commits(commits: &Result<Vec<Commit>, String>) -> (r: Vec<String>)
    ensures
        text::views(r@) == commits_told(*commits),
{
    match commits {
        Ok(list) => {
            if list.len() == 0 {
                let out = vec!["  (no commits returned)".to_owned()];
                assert(text::views(out@) =~= seq!["  (no commits returned)"@]);
                return out;
            }
            let ghost all = commit_lines(list@);
            let mut out: Vec<String> = Vec::new();
            assert(text::views(out@) =~= all.take(0));
            let mut i: usize = 0;
            while i < list.len() && i < SHOWN_COMMITS
                invariant
                    i <= list@.len(),
                    i <= SHOWN_COMMITS,
                    all == commit_lines(list@),
                    text::views(out@) == all.take(i as int),
                decreases list@.len() - i,
            {
                let ghost before = out@;
                let mut line = "  ".to_owned();
                line.append(text::first_bytes(list[i].sha.as_str(), 8));
                line.append("  ");
                let lines = text::lines(list[i].message.as_str());
                if lines.len() > 0 {
                    line.append(lines[0]);
                } else {
                    assert(line@ + Seq::<char>::empty() =~= line@);
                }
                line.append("  (");
                line.append(list[i].author.as_str());
                line.append(")");
                out.push(line);
                proof {
                    assert(line@ == all[i as int]);
                    assert(text::views(out@) =~= text::views(before).push(line@));
                    assert(all.take(i + 1) =~= all.take(i as int).push(all[i as int]));
                }
                i += 1;
            }
            assert(all.take(all.len() as int) =~= all);
            out
        },
        Err(e) => {
            let mut line = "  (fetch failed: ".to_owned();
            line.append(e.as_str());
            line.append(")");
            let out = vec![line];
            assert(text::views(out@) =~= seq!["  (fetch failed: "@ + e@ + ")"@]);
            out
        },
    }
}

/// The two images that a changelog compares; `None` where they are the same.
pub open spec fn compared_refs(booted: service::ImageModel, target_tag: Seq<char>) -> Option<
    (Seq<char>, Seq<char>),
> {
    if booted.tag == target_tag {
        None
    } else {
        Some(
            (
                service::full_ref_of(booted),
                service::full_ref_of(service::ImageModel { tag: target_tag, ..booted }),
            ),
        )
    }
}

/// The two images that a changelog compares.
pub fn refs_to_compare(booted: &ImageRef, target_tag: &str) -> (r: Option<(String, String)>)
    ensures
        (match r {
            Some(p) => Some((p.0@, p.1@)),
            None => None,
        }) == compared_refs(booted@, target_tag@),
{
    if text::eq(booted.tag.as_str(), target_tag) {
        None
    } else {
        let target = ImageRef {
            registry: booted.registry.clone(),
            org: booted.org.clone(),
            image: booted.image.clone(),
            tag: target_tag.to_owned(),
            digest: booted.digest.clone(),
        };
        Some((booted.full_ref(), target.full_ref()))
    }
}

/// The lines where there is nothing to compare.
pub open spec fn same_lines() -> Seq<Seq<char>> {
    seq!["== SBOM diff =="@, "  (booted == target; no diff to compute)"@]
}

/// The lines above the comparison of packages.
pub open spec fn diff_heading(refs: Option<(Seq<char>, Seq<char>)>) -> Seq<Seq<char>> {
    match refs {
        None => same_lines(),
        Some(p) => seq!["== SBOM package diff ("@ + p.0 + " → "@ + p.1 + ") =="@],
    }
}

/// The lines above the comparison of packages.
pub fn diff_head(refs: &Option<(String, String)>) -> (r: Vec<String>)
    ensures
        text::views(r@) == diff_heading(
            match *refs {
                None => None,
                Some(p) => Some((p.0@, p.1@)),
            },
        ),
{
    match refs {
        None => {
            let out = vec![
                "== SBOM diff ==".to_owned(),
                "  (booted == target; no diff to compute)".to_owned(),
            ];
            assert(text::views(out@) =~= same_lines());
            out
        },
        Some(p) => {
            let mut line = "== SBOM package diff (".to_owned();
            line.append(p.0.as_str());
            line.append(" → ");
            line.append(p.1.as_str());
            line.append(") ==");
            let out = vec![line];
            assert(text::views(out@) =~= seq![
                "== SBOM package diff ("@ + p.0@ + " → "@ + p.1@ + ") =="@,
            ]);
            out
        },
    }
}

/// A heading with a count.
pub open spec fn heading(name: Seq<char>, count: nat) -> Seq<char> {
    "  "@ + name + " ("@ + text::decimal(count) + "):"@
}

pub open spec fn changed_lines(list: Seq<PackageDiff>) -> Seq<Seq<char>> {
    Seq::new(
        list.len(),
        |i: int|
            "    "@ + list[i].name@ + "  "@ + list[i].old_version@ + " → "@ + list[i].new_version@,
    )
}

pub open spec fn added_lines(list: Seq<PackageDiff>) -> Seq<Seq<char>> {
    Seq::new(list.len(), |i: int| "    "@ + list[i].name@ + "  "@ + list[i].new_version@)
}

pub open spec fn removed_lines(list: Seq<String>) -> Seq<Seq<char>> {
    Seq::new(list.len(), |i: int| "    "@ + list[i]@)
}

/// A part of the comparison: nothing where it is empty, else its heading and
/// its lines.
pub open spec fn part(name: Seq<char>, lines: Seq<Seq<char>>) -> Seq<Seq<char>> {
    if lines.len() == 0 {
        Seq::empty()
    } else {
        seq![heading(name, lines.len())] + lines
    }
}

/// What a changelog says of the packages.
pub open spec fn packages_told(diff: Option<SbomDiffResult>) -> Seq<Seq<char>> {
    match diff {
        Some(d) => if d.upgraded@.len() == 0 && d.downgraded@.len() == 0 && d.added@.len() == 0
            && d.removed@.len() == 0 {
            seq!["  (no package changes)"@]
        } else {
            part("Upgraded"@, changed_lines(d.upgraded@)) + part(
                "Downgraded"@,
                changed_lines(d.downgraded@),
            ) + part("Added"@, added_lines(d.added@)) + part(
                "Removed"@,
                removed_lines(d.removed@),
            )
        },
        None => seq![
            "  (couldn't fetch SBOMs — neither image may publish SPDX referrers)"@,
        ],
    }
}

fn push_heading(out: &mut Vec<String>, name: &str, count: usize)
    ensures
        text::views(final(out)@) == text::views(old(out)@).push(heading(name@, count as nat)),
{
    let mut line = "  ".to_owned();
    line.append(name);
    line.append(" (");
    let ghost before = line@;
    text::push_decimal(&mut line, count as u64);
    line.append("):");
    proof {
        assert(line@ =~= heading(name@, count as nat));
    }
    out.push(line);
    assert(text::views(out@) =~= text::views(old(out)@).push(heading(name@, count as nat)));
}

fn push_changed(out: &mut Vec<String>, name: &str, list: &Vec<PackageDiff>)
    ensures
        text::views(final(out)@) == text::views(old(out)@) + part(name@, changed_lines(list@)),
{
    let ghost start = text::views(out@);
    let ghost all = changed_lines(list@);
    if list.len() == 0 {
        assert(start + part(name@, all) =~= start);
        return;
    }
    push_heading(out, name, list.len());
    let ghost head = text::views(out@);
    assert(head + all.take(0) =~= head);
    let mut i: usize = 0;
    while i < list.len()
        invariant
            i <= list@.len(),
            all == changed_lines(list@),
            text::views(out@) == head + all.take(i as int),
        decreases list@.len() - i,
    {
        let ghost before = out@;
        let mut line = "    ".to_owned();
        line.append(list[i].name.as_str());
        line.append("  ");
        line.append(list[i].old_version.as_str());
        line.append(" → ");
        line.append(list[i].new_version.as_str());
        out.push(line);
        proof {
            assert(line@ == all[i as int]);
            assert(text::views(out@) =~= text::views(before).push(line@));
            assert(head + all.take(i + 1) =~= (head + all.take(i as int)).push(all[i as int]));
        }
        i += 1;
    }
    assert(all.take(all.len() as int) =~= all);
    assert(head + all =~= start + part(name@, all));
}

fn push_added(out: &mut Vec<String>, list: &Vec<PackageDiff>)
    ensures
        text::views(final(out)@) == text::views(old(out)@) + part("Added"@, added_lines(list@)),
{
    let ghost start = text::views(out@);
    let ghost all = added_lines(list@);
    if list.len() == 0 {
        assert(start + part("Added"@, all) =~= start);
        return;
    }
    push_heading(out, "Added", list.len());
    let ghost head = text::views(out@);
    assert(head + all.take(0) =~= head);
    let mut i: usize = 0;
    while i < list.len()
        invariant
            i <= list@.len(),
            all == added_lines(list@),
            text::views(out@) == head + all.take(i as int),
        decreases list@.len() - i,
    {
        let ghost before = out@;
        let mut line = "    ".to_owned();
        line.append(list[i].name.as_str());
        line.append("  ");
        line.append(list[i].new_version.as_str());
        out.push(line);
        proof {
            assert(line@ == all[i as int]);
            assert(text::views(out@) =~= text::views(before).push(line@));
            assert(head + all.take(i + 1) =~= (head + all.take(i as int)).push(all[i as int]));
        }
        i += 1;
    }
    assert(all.take(all.len() as int) =~= all);
    assert(head + all =~= start + part("Added"@, all));
}

fn push_removed(out: &mut Vec<String>, list: &Vec<String>)
    ensures
        text::views(final(out)@) == text::views(old(out)@) + part(
            "Removed"@,
            removed_lines(list@),
        ),
{
    let ghost start = text::views(out@);
    let ghost all = removed_lines(list@);
    if list.len() == 0 {
        assert(start + part("Removed"@, all) =~= start);
        return;
    }
    push_heading(out, "Removed", list.len());
    let ghost head = text::views(out@);
    assert(head + all.take(0) =~= head);
    let mut i: usize = 0;
    while i < list.len()
        invariant
            i <= list@.len(),
            all == removed_lines(list@),
            text::views(out@) == head + all.take(i as int),
        decreases list@.len() - i,
    {
        let ghost before = out@;
        let mut line = "    ".to_owned();
        line.append(list[i].as_str());
        out.push(line);
        proof {
            assert(line@ == all[i as int]);
            assert(text::views(out@) =~= text::views(before).push(line@));
            assert(head + all.take(i + 1) =~= (head + all.take(i as int)).push(all[i as int]));
        }
        i += 1;
    }
    assert(all.take(all.len() as int) =~= all);
    assert(head + all =~= start + part("Removed"@, all));
}

/// What a changelog says of the packages.
pub fn changelog_packages(diff: &Option<SbomDiffResult>) -> (r: Vec<String>)
    ensures
        text::views(r@) == packages_told(*diff),
{
    match diff {
        Some(d) => {
            if d.upgraded.len() == 0 && d.downgraded.len() == 0 && d.added.len() == 0
                && d.removed.len() == 0 {
                let out = vec!["  (no package changes)".to_owned()];
                assert(text::views(out@) =~= seq!["  (no package changes)"@]);
                return out;
            }
            let mut out: Vec<String> = Vec::new();
            let ghost none = text::views(out@);
            push_changed(&mut out, "Upgraded", &d.upgraded);
            push_changed(&mut out, "Downgraded", &d.downgraded);
            push_added(&mut out, &d.added);
            push_removed(&mut out, &d.removed);
            assert(none + part("Upgraded"@, changed_lines(d.upgraded@)) =~= part(
                "Upgraded"@,
                changed_lines(d.upgraded@),
            ));
            out
        },
        None => {
            let out = vec![
                "  (couldn't fetch SBOMs — neither image may publish SPDX referrers)".to_owned(),
            ];
            assert(text::views(out@) =~= seq![
                "  (couldn't fetch SBOMs — neither image may publish SPDX referrers)"@,
            ]);
            out
        },
    }
}

// ---------------------------------------------------------------------------
// The timer

/// What `timer` is to do.
#[derive(Debug)]
pub enum TimerCommand {
    Show,
    Switch(bool),
    Unknown(Report),
}

/// What is said of an action that there is not.
pub open spec fn unknown_action(action: Seq<char>) -> ReportModel {
    ReportModel {
        out: Seq::empty(),
        err: seq![
            "finupdate-cli: unknown timer action '"@ + action
                + "' (expected 'enable' or 'disable')"@,
        ],
        code: MISUSE,
    }
}

/// What `timer` is to do, taken by its characters.
pub enum TimerModel {
    Show,
    Switch(bool),
    Unknown(ReportModel),
}

/// What `timer` is to do.
pub open spec fn timer_asked(action: Option<Seq<char>>) -> TimerModel {
    match action {
        None => TimerModel::Show,
        Some(a) => if a == "enable"@ {
            TimerModel::Switch(true)
        } else if a == "disable"@ {
            TimerModel::Switch(false)
        } else {
            TimerModel::Unknown(unknown_action(a))
        },
    }
}

/// What `timer` is to do.
pub fn timer_command(action: Option<&str>) -> (r: TimerCommand)
    ensures
        match timer_asked(
            match action {
                Some(a) => Some(a@),
                None => None,
            },
        ) {
            TimerModel::Show => r is Show,
            TimerModel::Switch(on) => r == TimerCommand::Switch(on),
            TimerModel::Unknown(m) => r matches TimerCommand::Unknown(report) && report@ == m,
        },
{
    match action {
        None => TimerCommand::Show,
        Some(a) => if text::eq(a, "enable") {
            TimerCommand::Switch(true)
        } else if text::eq(a, "disable") {
            TimerCommand::Switch(false)
        } else {
            let mut line = "finupdate-cli: unknown timer action '".to_owned();
            line.append(a);
            line.append("' (expected 'enable' or 'disable')");
            let err = vec![line];
            let out: Vec<String> = Vec::new();
            proof {
                assert(text::views(err@) =~= unknown_action(a@).err);
                assert(text::views(out@) =~= Seq::empty());
            }
            TimerCommand::Unknown(Report { out, err, code: MISUSE })
        },
    }
}

/// The line printed before the timer is switched.
pub open spec fn switching(enable: bool) -> Seq<char> {
    "Transitioning uupd.timer to: "@ + (if enable {
        "enabled"@
    } else {
        "disabled"@
    }) + "..."@
}

/// The line printed before the timer is switched.
pub fn switch_line(enable: bool) -> (r: String)
    ensures
        r@ == switching(enable),
{
    let mut s = "Transitioning uupd.timer to: ".to_owned();
    s.append(
        if enable {
            "enabled"
        } else {
            "disabled"
        },
    );
    s.append("...");
    s
}

/// What is told after the timer was switched, or was not for a reason.
pub open spec fn switched_told(failure: Option<Seq<char>>) -> ReportModel {
    match failure {
        None => told(seq!["Successfully configured uupd.timer."@]),
        Some(e) => ReportModel {
            out: Seq::empty(),
            err: seq!["Failed to configure uupd.timer: "@ + e],
            code: FAILURE,
        },
    }
}

/// The report after the timer was switched, or not.
pub fn report_switched(result: Result<(), String>) -> (r: Report)
    ensures
        r@ == switched_told(
            match result {
                Ok(_) => None,
                Err(e) => Some(e@),
            },
        ),
{
    match result {
        Ok(_) => {
            let out = vec!["Successfully configured uupd.timer.".to_owned()];
            assert(text::views(out@) =~= seq!["Successfully configured uupd.timer."@]);
            tell(out)
        },
        Err(e) => {
            let mut line = "Failed to configure uupd.timer: ".to_owned();
            line.append(e.as_str());
            let err = vec![line];
            let out: Vec<String> = Vec::new();
            proof {
                assert(text::views(err@) =~= seq!["Failed to configure uupd.timer: "@ + e@]);
                assert(text::views(out@) =~= Seq::empty());
            }
            Report { out, err, code: FAILURE }
        },
    }
}

/// The lines on the state of the timer.
pub open spec fn timer_lines(installed: bool, active: Option<bool>) -> Seq<Seq<char>> {
    seq![
        "uupd daemon state:"@,
        if installed {
            "  installed: true"@
        } else {
            "  installed: false"@
        },
        match active {
            Some(true) => "  timer:     enabled"@,
            Some(false) => "  timer:     disabled"@,
            None => "  timer:     unknown / unmanaged"@,
        },
    ]
}

/// `timer`: whether `uupd` is there, and whether its timer is on.
pub fn report_timer(installed: bool, active: Option<bool>) -> (r: Report)
    ensures
        r@ == told(timer_lines(installed, active)),
{
    let second = if installed {
        "  installed: true"
    } else {
        "  installed: false"
    };
    let third = match active {
        Some(on) => if on {
            "  timer:     enabled"
        } else {
            "  timer:     disabled"
        },
        None => "  timer:     unknown / unmanaged",
    };
    let out = vec!["uupd daemon state:".to_owned(), second.to_owned(), third.to_owned()];
    assert(text::views(out@) =~= timer_lines(installed, active));
    tell(out)
}

// ---------------------------------------------------------------------------
// Updates

/// The name of a module.
pub open spec fn module_name(m: Module) -> Seq<char> {
    match m {
        Module::System => "System"@,
        Module::Flatpak => "Flatpak"@,
        Module::Brew => "Brew"@,
        Module::Distrobox => "Distrobox"@,
    }
}

fn name_of_module(m: Module) -> (r: &'static str)
    ensures
        r@ == module_name(m),
{
    match m {
        Module::System => "System",
        Module::Flatpak => "Flatpak",
        Module::Brew => "Brew",
        Module::Distrobox => "Distrobox",
    }
}

/// How a module ended, in words.
pub open spec fn status_name(s: ModuleStatus) -> Seq<char> {
    match s {
        ModuleStatus::Success => "Success"@,
        ModuleStatus::UpToDate => "UpToDate"@,
        ModuleStatus::Failed(code) => "Failed("@ + text::integer_text(code as int) + ")"@,
        ModuleStatus::Skipped => "Skipped"@,
    }
}

/// What is printed of an event, whether it is a complaint, and whether the
/// update has failed with it.
pub open spec fn event_line(e: UpdateEvent) -> (Seq<char>, bool) {
    match e {
        UpdateEvent::Output(line) => ("  [output] "@ + line@, false),
        UpdateEvent::ModuleStarted(m) => (
            "=== MODULE STARTED: "@ + module_name(m) + " ==="@,
            false,
        ),
        UpdateEvent::ModuleFinished(m, s) => (
            "=== MODULE FINISHED: "@ + module_name(m) + " ("@ + status_name(s) + ") ==="@,
            false,
        ),
        UpdateEvent::Complete => ("Update completed successfully!"@, false),
        UpdateEvent::UpToDate => ("System is already up to date."@, false),
        UpdateEvent::Error(err) => ("Error during update: "@ + err@, true),
    }
}

fn push_status(out: &mut String, s: ModuleStatus)
    ensures
        final(out)@ == old(out)@ + status_name(s),
{
    match s {
        ModuleStatus::Success => {
            out.append("Success");
        },
        ModuleStatus::UpToDate => {
            out.append("UpToDate");
        },
        ModuleStatus::Failed(code) => {
            out.append("Failed(");
            text::push_integer(out, code);
            out.append(")");
            assert(out@ =~= old(out)@ + status_name(s));
        },
        ModuleStatus::Skipped => {
            out.append("Skipped");
        },
    }
}

/// What is printed of an event, and whether it is a complaint.
pub fn describe_event(e: &UpdateEvent) -> (r: (String, bool))
    ensures
        (r.0@, r.1) == event_line(*e),
{
    match e {
        UpdateEvent::Output(line) => {
            let mut s = "  [output] ".to_owned();
            s.append(line.as_str());
            (s, false)
        },
        UpdateEvent::ModuleStarted(m) => {
            let mut s = "=== MODULE STARTED: ".to_owned();
            s.append(name_of_module(*m));
            s.append(" ===");
            (s, false)
        },
        UpdateEvent::ModuleFinished(m, status) => {
            let mut s = "=== MODULE FINISHED: ".to_owned();
            s.append(name_of_module(*m));
            s.append(" (");
            push_status(&mut s, *status);
            s.append(") ===");
            (s, false)
        },
        UpdateEvent::Complete => ("Update completed successfully!".to_owned(), false),
        UpdateEvent::UpToDate => ("System is already up to date.".to_owned(), false),
        UpdateEvent::Error(err) => {
            let mut s = "Error during update: ".to_owned();
            s.append(err.as_str());
            (s, true)
        },
    }
}

/// The code that an update exits with after these events: a failure where one
/// of them is an error.
pub open spec fn update_code(events: Seq<UpdateEvent>) -> u8 {
    if exists|i: int| 0 <= i < events.len() && (#[trigger] events[i]) is Error {
        FAILURE
    } else {
        SUCCESS
    }
}

/// The code after one more event.
pub open spec fn next_code(code: u8, e: UpdateEvent) -> u8 {
    if e is Error {
        FAILURE
    } else {
        code
    }
}

/// The code after one more event.
pub fn code_after(code: u8, e: &UpdateEvent) -> (r: u8)
    ensures
        r == next_code(code, *e),
{
    match e {
        UpdateEvent::Error(_) => FAILURE,
        _ => code,
    }
}

// ---------------------------------------------------------------------------
// Laws

/// Following an update event by event gives its code.
pub proof fn law_update_code(events: Seq<UpdateEvent>, e: UpdateEvent)
    ensures
        update_code(Seq::empty()) == SUCCESS,
        update_code(events.push(e)) == (if e is Error {
            FAILURE
        } else {
            update_code(events)
        }),
{
    let all = events.push(e);
    if e is Error {
        assert(all[events.len() as int] is Error);
    } else if update_code(events) == FAILURE {
        let i = choose|i: int| 0 <= i < events.len() && (#[trigger] events[i]) is Error;
        assert(all[i] is Error);
    } else if update_code(all) == FAILURE {
        let i = choose|i: int| 0 <= i < all.len() && (#[trigger] all[i]) is Error;
        assert(events[i] is Error);
    }
}

/// A day that was found is looked up: the tag is that of a version of that day.
pub proof fn law_day_is_found(raw: Seq<char>, list: Vec<ImageVersion>, day: Date, k: int)
    requires
        target_day(raw) == Some(day),
        0 <= k < list@.len(),
        list@[k].date == day,
    ensures
        exists|i: int|
            0 <= i <= k && (#[trigger] list@[i]).date == day && resolved(raw, Ok(list)).tag
                == tag_of(list@[i]),
        resolved(raw, Ok(list)).resolved_from == Some(raw),
{
    lemma_first_on(list@, day, k);
}

proof fn lemma_first_on(list: Seq<ImageVersion>, day: Date, k: int)
    requires
        0 <= k < list.len(),
        list[k].date == day,
    ensures
        exists|i: int|
            0 <= i <= k && (#[trigger] list[i]).date == day && first_on(list, day) == Some(list[i]),
    decreases list.len(),
{
    let front = list.drop_last();
    if k < front.len() {
        lemma_first_on(front, day, k);
        let i = choose|i: int|
            0 <= i <= k && (#[trigger] front[i]).date == day && first_on(front, day) == Some(
                front[i],
            );
        assert(list[i] == front[i]);
    } else if first_on(front, day) is Some {
        lemma_first_on_member(front, day);
        let i = choose|i: int|
            0 <= i < front.len() && (#[trigger] front[i]).date == day && first_on(front, day)
                == Some(front[i]);
        assert(list[i] == front[i]);
    } else {
        assert(list[k].date == day);
    }
}

proof fn lemma_first_on_member(list: Seq<ImageVersion>, day: Date)
    requires
        first_on(list, day) is Some,
    ensures
        exists|i: int|
            0 <= i < list.len() && (#[trigger] list[i]).date == day && first_on(list, day) == Some(
                list[i],
            ),
    decreases list.len(),
{
    let front = list.drop_last();
    if list.len() > 0 && first_on(front, day) is Some {
        lemma_first_on_member(front, day);
        let i = choose|i: int|
            0 <= i < front.len() && (#[trigger] front[i]).date == day && first_on(front, day)
                == Some(front[i]);
        assert(list[i] == front[i]);
    } else if list.len() > 0 {
        assert(list[list.len() - 1].date == day);
    }
}

/// A target that is no day is taken as it is, whatever the registry lists.
pub proof fn law_tag_is_taken_literally(raw: Seq<char>, versions: Result<Vec<ImageVersion>, String>)
    requires
        target_day(raw) is None,
    ensures
        resolved(raw, versions).tag == raw,
        resolved(raw, versions).resolved_from is None,
{
}

proof fn lemma_commands_differ()
    ensures
        "-h"@ != "help"@,
        "--help"@ != "help"@,
        "--help"@ != "-h"@,
        "status"@ != "help"@,
        "status"@ != "-h"@,
        "status"@ != "--help"@,
        "family"@ != "help"@,
        "family"@ != "-h"@,
        "family"@ != "--help"@,
        "family"@ != "status"@,
        "versions"@ != "help"@,
        "versions"@ != "-h"@,
        "versions"@ != "--help"@,
        "versions"@ != "status"@,
        "versions"@ != "family"@,
        "tags"@ != "help"@,
        "tags"@ != "-h"@,
        "tags"@ != "--help"@,
        "tags"@ != "status"@,
        "tags"@ != "family"@,
        "tags"@ != "versions"@,
        "changelog"@ != "help"@,
        "changelog"@ != "-h"@,
        "changelog"@ != "--help"@,
        "changelog"@ != "status"@,
        "changelog"@ != "family"@,
        "changelog"@ != "versions"@,
        "changelog"@ != "tags"@,
        "timer"@ != "help"@,
        "timer"@ != "-h"@,
        "timer"@ != "--help"@,
        "timer"@ != "status"@,
        "timer"@ != "family"@,
        "timer"@ != "versions"@,
        "timer"@ != "tags"@,
        "timer"@ != "changelog"@,
        "update"@ != "help"@,
        "update"@ != "-h"@,
        "update"@ != "--help"@,
        "update"@ != "status"@,
        "update"@ != "family"@,
        "update"@ != "versions"@,
        "update"@ != "tags"@,
        "update"@ != "changelog"@,
        "update"@ != "timer"@,
{
    reveal_strlit("help");
    reveal_strlit("-h");
    reveal_strlit("--help");
    reveal_strlit("status");
    reveal_strlit("family");
    reveal_strlit("versions");
    reveal_strlit("tags");
    reveal_strlit("changelog");
    reveal_strlit("timer");
    reveal_strlit("update");
    assert("help"@.len() == 4
        && "-h"@.len() == 2
        && "--help"@.len() == 6
        && "status"@.len() == 6
        && "family"@.len() == 6
        && "versions"@.len() == 8
        && "tags"@.len() == 4
        && "changelog"@.len() == 9
        && "timer"@.len() == 5
        && "update"@.len() == 6);
    assert("help"@[0] == 'h'
        && "-h"@[0] == '-'
        && "--help"@[0] == '-'
        && "status"@[0] == 's'
        && "family"@[0] == 'f'
        && "versions"@[0] == 'v'
        && "tags"@[0] == 't'
        && "changelog"@[0] == 'c'
        && "timer"@[0] == 't'
        && "update"@[0] == 'u');
    assert("status"@[1] == 't');
    assert("--help"@[1] == '-' && "help"@[1] == 'e');
    assert("tags"@[1] == 'a' && "timer"@[1] == 'i');
}

/// Each command is known by its name, with what stands behind it; how many
/// versions are listed is a number, or eight; without a command, and where it is
/// asked for, there is help; and what is not known is told as it is.
pub proof fn law_commands_by_name(
    program: Seq<char>,
    arg: Seq<char>,
    n: nat,
    name: Seq<char>,
    rest: Seq<Seq<char>>,
)
    requires
        n <= usize::MAX,
    ensures
        command_of(seq![program]) is Help,
        command_of(seq![program, "help"@]) is Help,
        command_of(seq![program, "-h"@]) is Help,
        command_of(seq![program, "--help"@]) is Help,
        command_of(seq![program, "status"@] + rest) is Status,
        command_of(seq![program, "family"@] + rest) is Family,
        command_of(seq![program, "tags"@] + rest) is Tags,
        command_of(seq![program, "versions"@]) == CommandModel::Versions(8),
        command_of(seq![program, "versions"@, text::decimal(n)]) == CommandModel::Versions(n as int),
        command_of(seq![program, "changelog"@]) == CommandModel::Changelog(None),
        command_of(seq![program, "changelog"@, arg]) == CommandModel::Changelog(Some(arg)),
        command_of(seq![program, "timer"@]) == CommandModel::Timer(None),
        command_of(seq![program, "timer"@, arg]) == CommandModel::Timer(Some(arg)),
        command_of(seq![program, "update"@, "--system-only"@]) == (CommandModel::Update {
            system_only: true,
        }),
        program != "--system-only"@ ==> command_of(seq![program, "update"@]) == (
        CommandModel::Update { system_only: false }),
        name != "help"@ && name != "-h"@ && name != "--help"@ && name != "status"@ && name
            != "family"@ && name != "versions"@ && name != "tags"@ && name != "changelog"@ && name
            != "timer"@ && name != "update"@ ==> command_of(seq![program, name] + rest)
            == CommandModel::Unknown(name),
{
    lemma_commands_differ();
    text::law_decimal_round_trip(n);
    assert(text::is_digit(text::decimal(n)[0]));
    reveal_strlit("update");
    reveal_strlit("--system-only");
    assert("update"@.len() == 6 && "--system-only"@.len() == 13);
    let all = seq![program, "update"@, "--system-only"@];
    assert(all[2] == "--system-only"@);
    assert((seq![program, "status"@] + rest)[1] == "status"@);
    assert((seq![program, "family"@] + rest)[1] == "family"@);
    assert((seq![program, "tags"@] + rest)[1] == "tags"@);
    assert((seq![program, name] + rest)[1] == name);
}

/// A report that tells something succeeds and complains of nothing; one that fails
/// prints nothing, says why, and exits with one; what cannot be read with two.
pub proof fn law_reports(lines: Seq<Seq<char>>, reason: Seq<char>, name: Seq<char>)
    ensures
        told(lines).out == lines && told(lines).err.len() == 0 && told(lines).code == 0,
        failed(reason).out.len() == 0 && failed(reason).code == 1 && failed(reason).err
            =~= seq!["finupdate-cli: "@ + reason],
        unknown_command(name).code == 2 && unknown_command(name).out.len() == 0 && text::occurs(
            unknown_command(name).err[0],
            name,
        ),
        unknown_action(name).code == 2 && unknown_action(name).out.len() == 0 && text::occurs(
            unknown_action(name).err[0],
            name,
        ),
        switched_told(None).code == 0,
        switched_told(Some(reason)).code == 1 && text::ends_in(
            switched_told(Some(reason)).err[0],
            reason,
        ),
{
    let a = unknown_command(name).err[0];
    let i = "finupdate-cli: unknown command '"@.len() as int;
    assert(a.subrange(i, i + name.len()) =~= name);
    assert(text::occurs_at(a, name, i));
    let b = unknown_action(name).err[0];
    let j = "finupdate-cli: unknown timer action '"@.len() as int;
    assert(b.subrange(j, j + name.len()) =~= name);
    assert(text::occurs_at(b, name, j));
    let c = switched_told(Some(reason)).err[0];
    assert(c.subrange(c.len() - reason.len(), c.len() as int) =~= reason);
    assert(c.skip(c.len() - reason.len()) =~= reason);
}

/// What the commands tell: the full reference of the booted image; its family and
/// each feature; each version, in its order, with its day and its kernel; each tag;
/// and a failure with its reason.
pub proof fn law_what_the_commands_tell(
    image: ImageRef,
    e: String,
    f: FamilyInfo,
    list: Vec<ImageVersion>,
    tags: Vec<AvailableTag>,
    k: int,
)
    ensures
        status_told(Ok(image)).out =~= seq![
            image.registry@ + "/"@ + image.org@ + "/"@ + image.image@ + ":"@ + image.tag@,
        ],
        status_told(Ok(image)).code == 0,
        status_told(Err(e)).code == 1 && text::ends_in(status_told(Err(e)).err[0], e@),
        family_told(Ok(Some(f))).out[0] == "family: "@ + f.name@,
        family_told(Ok(Some(f))).out[1] == "base:   "@ + f.base_image@,
        0 <= k < f.features@.len() ==> family_told(Ok(Some(f))).out[3 + k] == "  - "@
            + f.features@[k].id@ + " ("@ + f.features@[k].display_name@ + ")"@,
        family_told(Ok(None)).code == 1,
        family_told(Err(e)).code == 1,
        list@.len() == 0 ==> versions_told(image@, Ok(list)).code == 1,
        list@.len() > 0 ==> versions_told(image@, Ok(list)).code == 0 && versions_told(
            image@,
            Ok(list),
        ).out.len() == list@.len(),
        0 <= k < list@.len() ==> ({
            let line = versions_told(image@, Ok(list)).out[k];
            let v = list@[k];
            &&& text::begins_with(line, date::dashed_text(v.date) + "  "@ + v.version@)
            &&& v.kernel@.len() > 0 ==> text::ends_in(line, "kernel="@ + v.kernel@)
            &&& v.kernel@.len() == 0 ==> text::ends_in(line, "kernel=?"@)
        }),
        versions_told(image@, Err(e)).code == 1,
        tags_told(Ok(tags)).code == 0 && tags_told(Ok(tags)).out.len() == tags@.len(),
        0 <= k < tags@.len() ==> ({
            let line = tags_told(Ok(tags)).out[k];
            &&& tags@[k].display@ == tags@[k].raw@ ==> line == tags@[k].raw@
            &&& tags@[k].display@ != tags@[k].raw@ ==> line == tags@[k].raw@ + "\t"@
                + tags@[k].display@
        }),
        tags_told(Err(e)).code == 1,
{
    let s = status_told(Err(e)).err[0];
    assert(s =~= "finupdate-cli: "@ + "no booted image detected: "@ + e@);
    assert(s.subrange(s.len() - e@.len(), s.len() as int) =~= e@);
    assert(s.skip(s.len() - e@.len()) =~= e@);
    if 0 <= k < list@.len() {
        let v = list@[k];
        let line = version_line(v);
        let start = date::dashed_text(v.date) + "  "@ + v.version@;
        assert(line.subrange(0, start.len() as int) =~= start);
        assert(line.take(start.len() as int) =~= start);
        reveal_strlit("  kernel=");
        reveal_strlit("kernel=");
        reveal_strlit("kernel=?");
        reveal_strlit("?");
        let shown = if v.kernel@.len() == 0 {
            "?"@
        } else {
            v.kernel@
        };
        let end = "kernel="@ + shown;
        assert("kernel="@ + "?"@ =~= "kernel=?"@);
        assert(line.subrange(line.len() - end.len(), line.len() as int) =~= end);
        assert(line.skip(line.len() - end.len()) =~= end);
    }
}

/// A target of eight digits that are a day is looked up, and the first listed
/// build of that day is taken by the tag of its reference; every other target is
/// a tag as it stands. Where nothing is found, that is said, and the target taken
/// as it stands.
pub proof fn law_targets(
    raw: Seq<char>,
    list: Vec<ImageVersion>,
    e: String,
    place: Seq<char>,
    tag: Seq<char>,
    k: int,
)
    requires
        !tag.contains(':'),
    ensures
        raw.len() != 8 || !text::all_digits(raw) ==> resolved(raw, Ok(list)).tag == raw && resolved(
            raw,
            Ok(list),
        ).note is None,
        raw.len() == 8 && text::all_digits(raw) ==> target_day(raw) == date::compact_date(raw),
        target_day(raw) matches Some(day) ==> (0 <= k < list@.len() && list@[k].date == day && (
        forall|i: int| 0 <= i < k ==> (#[trigger] list@[i]).date != day) && list@[k].full_ref@
            == place + ":"@ + tag ==> resolved(raw, Ok(list)).tag == tag && resolved(
            raw,
            Ok(list),
        ).resolved_from == Some(raw)),
        target_day(raw) matches Some(day) ==> ((forall|i: int|
            0 <= i < list@.len() ==> (#[trigger] list@[i]).date != day) ==> resolved(
            raw,
            Ok(list),
        ).tag == raw && resolved(raw, Ok(list)).note is Some),
        target_day(raw) is Some ==> resolved(raw, Err(e)).tag == raw && resolved(
            raw,
            Err(e),
        ).note is Some,
{
    reveal_strlit(":");
    text::law_last_half(place, ':', tag, ":"@);
    if let Some(day) = target_day(raw) {
        if forall|i: int| 0 <= i < list@.len() ==> (#[trigger] list@[i]).date != day {
            lemma_none_on(list@, day);
        }
        if 0 <= k < list@.len() && list@[k].date == day && (forall|i: int|
            0 <= i < k ==> (#[trigger] list@[i]).date != day) {
            let upto = list@.take(k);
            assert forall|i: int| 0 <= i < upto.len() implies (#[trigger] upto[i]).date != day by {
                assert(upto[i] == list@[i]);
            }
            lemma_none_on(upto, day);
            assert(list@.take(k + 1).drop_last() =~= upto);
            assert(list@.take(k + 1).last() == list@[k]);
            lemma_first_on_stays(list@, day, k + 1);
        }
    }
}

proof fn lemma_none_on(list: Seq<ImageVersion>, day: Date)
    requires
        forall|i: int| 0 <= i < list.len() ==> (#[trigger] list[i]).date != day,
    ensures
        first_on(list, day) is None,
    decreases list.len(),
{
    if list.len() > 0 {
        let front = list.drop_last();
        assert(list[list.len() - 1].date != day);
        assert forall|i: int| 0 <= i < front.len() implies (#[trigger] front[i]).date != day by {
            assert(list[i].date != day);
        }
        lemma_none_on(front, day);
    }
}

/// A changelog compares the booted image with the same image under the target,
/// unless that is what is booted; its head names both, and where the commits are.
pub proof fn law_what_a_changelog_compares(
    booted: service::ImageModel,
    target: TargetModel,
)
    ensures
        booted.tag == target.tag ==> compared_refs(booted, target.tag) is None,
        booted.tag != target.tag ==> (compared_refs(booted, target.tag) matches Some(p) && p.0
            == booted.registry + "/"@ + booted.org + "/"@ + booted.image + ":"@ + booted.tag && p.1
            == booted.registry + "/"@ + booted.org + "/"@ + booted.image + ":"@ + target.tag),
        head_lines(booted, target)[1] == "  booted tag: "@ + booted.tag,
        target.resolved_from is None ==> head_lines(booted, target)[2] == "  target tag: "@
            + target.tag,
        target.resolved_from matches Some(via) ==> head_lines(booted, target)[2]
            == "  target tag: "@ + target.tag + " (resolved from "@ + via + ")"@,
        text::occurs(
            head_lines(booted, target)[4],
            "https://api.github.com/repos/"@ + booted.org + "/"@ + booted.image + "/commits"@,
        ),
        diff_heading(None).len() == 2,
        diff_heading(Some((booted.tag, target.tag))) =~= seq![
            "== SBOM package diff ("@ + booted.tag + " → "@ + target.tag + ") =="@,
        ],
{
    let line = head_lines(booted, target)[4];
    let url = changelog::commit_list(booted.org, booted.image);
    let i = "== Recent commits ("@.len() as int;
    assert(line.subrange(i, i + url.len()) =~= url);
    assert(text::occurs_at(line, url, i));
}

/// Each of the first thirty commits has a line, with its message and its author;
/// that there are none, or why, is said.
pub proof fn law_commits_of_a_changelog(list: Vec<Commit>, e: String, k: int)
    ensures
        list@.len() == 0 ==> commits_told(Ok(list)) =~= seq!["  (no commits returned)"@],
        0 < list@.len() <= 30 ==> commits_told(Ok(list)).len() == list@.len(),
        list@.len() > 30 ==> commits_told(Ok(list)).len() == 30,
        0 <= k < list@.len() && k < 30 ==> text::ends_in(
            commits_told(Ok(list))[k],
            first_line(list@[k].message@) + "  ("@ + list@[k].author@ + ")"@,
        ) && text::begins_with(
            commits_told(Ok(list))[k],
            "  "@ + text::byte_prefix(list@[k].sha@, 8),
        ),
        commits_told(Err(e)) =~= seq!["  (fetch failed: "@ + e@ + ")"@],
{
    if 0 <= k < list@.len() && k < 30 {
        let line = commits_told(Ok(list))[k];
        let c = list@[k];
        let end = first_line(c.message@) + "  ("@ + c.author@ + ")"@;
        let start = "  "@ + text::byte_prefix(c.sha@, 8);
        assert(line == commit_line(c));
        assert(line.subrange(line.len() - end.len(), line.len() as int) =~= end);
        assert(line.skip(line.len() - end.len()) =~= end);
        assert(line.subrange(0, start.len() as int) =~= start);
        assert(line.take(start.len() as int) =~= start);
    }
}

/// Every package of a comparison has a line under the heading of what happened to
/// it, with its versions; a heading says how many there are, and an empty part has
/// none.
pub proof fn law_packages_of_a_changelog(d: SbomDiffResult, k: int)
    ensures
        ({
            let lines = packages_told(Some(d));
            let up = d.upgraded@.len() as int;
            let down = d.downgraded@.len() as int;
            let new = d.added@.len() as int;
            let gone = d.removed@.len() as int;
            let a = if up > 0 {
                up + 1
            } else {
                0
            };
            let b = a + (if down > 0 {
                down + 1
            } else {
                0
            });
            let c = b + (if new > 0 {
                new + 1
            } else {
                0
            });
            &&& up + down + new + gone == 0 ==> lines =~= seq!["  (no package changes)"@]
            &&& up > 0 ==> lines[0] == "  Upgraded ("@ + text::decimal(up as nat) + "):"@
            &&& 0 <= k < up ==> lines[1 + k] == "    "@ + d.upgraded@[k].name@ + "  "@
                + d.upgraded@[k].old_version@ + " → "@ + d.upgraded@[k].new_version@
            &&& down > 0 ==> lines[a] == "  Downgraded ("@ + text::decimal(down as nat) + "):"@
            &&& 0 <= k < down ==> lines[a + 1 + k] == "    "@ + d.downgraded@[k].name@ + "  "@
                + d.downgraded@[k].old_version@ + " → "@ + d.downgraded@[k].new_version@
            &&& new > 0 ==> lines[b] == "  Added ("@ + text::decimal(new as nat) + "):"@
            &&& 0 <= k < new ==> lines[b + 1 + k] == "    "@ + d.added@[k].name@ + "  "@
                + d.added@[k].new_version@
            &&& gone > 0 ==> lines[c] == "  Removed ("@ + text::decimal(gone as nat) + "):"@
            &&& 0 <= k < gone ==> lines[c + 1 + k] == "    "@ + d.removed@[k]@
            &&& up + down + new + gone > 0 ==> lines.len() == c + (if gone > 0 {
                gone + 1
            } else {
                0
            })
        }),
{
    let up = changed_lines(d.upgraded@);
    let down = changed_lines(d.downgraded@);
    let new = added_lines(d.added@);
    let gone = removed_lines(d.removed@);
    lemma_heading("Upgraded"@, "  Upgraded ("@, up.len());
    lemma_heading("Downgraded"@, "  Downgraded ("@, down.len());
    lemma_heading("Added"@, "  Added ("@, new.len());
    lemma_heading("Removed"@, "  Removed ("@, gone.len());
}

proof fn lemma_heading(name: Seq<char>, start: Seq<char>, count: nat)
    requires
        (name == "Upgraded"@ && start == "  Upgraded ("@) || (name == "Downgraded"@ && start
            == "  Downgraded ("@) || (name == "Added"@ && start == "  Added ("@) || (name
            == "Removed"@ && start == "  Removed ("@),
    ensures
        heading(name, count) == start + text::decimal(count) + "):"@,
{
    reveal_strlit("  ");
    reveal_strlit(" (");
    reveal_strlit("Upgraded");
    reveal_strlit("  Upgraded (");
    reveal_strlit("Downgraded");
    reveal_strlit("  Downgraded (");
    reveal_strlit("Added");
    reveal_strlit("  Added (");
    reveal_strlit("Removed");
    reveal_strlit("  Removed (");
    assert("  "@ + name + " ("@ =~= start);
}

/// The timer is shown, switched on or switched off as the word says; what it is
/// told as is what it is.
pub proof fn law_timer_commands(word: Seq<char>, installed: bool)
    ensures
        timer_asked(None) is Show,
        timer_asked(Some("enable"@)) == TimerModel::Switch(true),
        timer_asked(Some("disable"@)) == TimerModel::Switch(false),
        word != "enable"@ && word != "disable"@ ==> timer_asked(Some(word)) is Unknown,
        timer_lines(installed, Some(true))[2] == "  timer:     enabled"@,
        timer_lines(installed, Some(false))[2] == "  timer:     disabled"@,
        timer_lines(installed, None)[2] == "  timer:     unknown / unmanaged"@,
        timer_lines(true, None)[1] == "  installed: true"@,
        timer_lines(false, None)[1] == "  installed: false"@,
        text::occurs(switching(true), "enabled"@),
        text::occurs(switching(false), "disabled"@),
{
    reveal_strlit("enable");
    reveal_strlit("disable");
    assert("enable"@.len() == 6 && "disable"@.len() == 7);
    let i = "Transitioning uupd.timer to: "@.len() as int;
    let on = "enabled"@;
    let off = "disabled"@;
    assert(switching(true).subrange(i, i + on.len()) =~= on);
    assert(text::occurs_at(switching(true), on, i));
    assert(switching(false).subrange(i, i + off.len()) =~= off);
    assert(text::occurs_at(switching(false), off, i));
}

/// Every event of an update is printed with what it says: the line, the module,
/// how it ended; an error with its reason, as a complaint, and nothing else as one.
pub proof fn law_printed_events(line: String, m: Module, code: i32)
    ensures
        event_line(UpdateEvent::Output(line)) == ("  [output] "@ + line@, false),
        event_line(UpdateEvent::Error(line)) == ("Error during update: "@ + line@, true),
        event_line(UpdateEvent::Complete) == ("Update completed successfully!"@, false),
        event_line(UpdateEvent::UpToDate) == ("System is already up to date."@, false),
        ({
            let name = match m {
                Module::System => "System"@,
                Module::Flatpak => "Flatpak"@,
                Module::Brew => "Brew"@,
                Module::Distrobox => "Distrobox"@,
            };
            let end = "=== MODULE FINISHED: "@ + name + " ("@;
            &&& event_line(UpdateEvent::ModuleStarted(m)) == (
                "=== MODULE STARTED: "@ + name + " ==="@,
                false,
            )
            &&& event_line(UpdateEvent::ModuleFinished(m, ModuleStatus::Success)).0 == end
                + "Success"@ + ") ==="@
            &&& event_line(UpdateEvent::ModuleFinished(m, ModuleStatus::UpToDate)).0 == end
                + "UpToDate"@ + ") ==="@
            &&& event_line(UpdateEvent::ModuleFinished(m, ModuleStatus::Skipped)).0 == end
                + "Skipped"@ + ") ==="@
            &&& event_line(UpdateEvent::ModuleFinished(m, ModuleStatus::Failed(code))).0 == end + (
            "Failed("@ + text::integer_text(code as int) + ")"@) + ") ==="@
        }),
{
}

/// An update fails with an error, whatever comes after it, and with nothing else.
pub proof fn law_errors_stay(code: u8, line: String, m: Module, s: ModuleStatus)
    ensures
        next_code(code, UpdateEvent::Error(line)) == 1,
        next_code(code, UpdateEvent::Output(line)) == code,
        next_code(code, UpdateEvent::ModuleStarted(m)) == code,
        next_code(code, UpdateEvent::ModuleFinished(m, s)) == code,
        next_code(code, UpdateEvent::Complete) == code,
        next_code(code, UpdateEvent::UpToDate) == code,
        SUCCESS == 0 && FAILURE == 1 && MISUSE == 2,
{
}

/// The line of a commit begins with the first eight characters of its hash; of its
/// message the first line is shown.
pub proof fn law_line_of_a_commit(c: Commit, first: Seq<char>, rest: Seq<char>)
    requires
        forall|i: int| 0 <= i < c.sha@.len() ==> (#[trigger] c.sha@[i] as u32) < 128,
        c.sha@.len() >= 8,
        first.len() > 0 && !first.contains('\n') && first.last() != '\r',
    ensures
        c.message@ == first || c.message@ == first + seq!['\n'] + rest ==> commit_line(c) == "  "@
            + c.sha@.take(8) + "  "@ + first + "  ("@ + c.author@ + ")"@,
{
    text::law_bytes_of_ascii(c.sha@, 8);
    text::law_lines(first, rest);
    if c.message@ == first {
        assert(text::lines_of(c.message@)[0] == first);
    }
    if c.message@ == first + seq!['\n'] + rest {
        assert(text::lines_of(c.message@)[0] == first);
    }
}

/// What is told of a report, a target and a command is what they hold.
pub proof fn law_reports_hold_what_is_told(r: Report, t: ResolvedTarget, k: int, n: usize, on: bool)
    ensures
        r@.code == r.code,
        r@.out.len() == r.out@.len() && r@.err.len() == r.err@.len(),
        0 <= k < r.out@.len() ==> r@.out[k] == r.out@[k]@,
        0 <= k < r.err@.len() ==> r@.err[k] == r.err@[k]@,
        t@.tag == t.tag@,
        t.resolved_from matches Some(s) ==> t@.resolved_from == Some(s@),
        t.resolved_from is None ==> t@.resolved_from is None,
        t.note matches Some(s) ==> t@.note == Some(s@),
        t.note is None ==> t@.note is None,
        Command::Versions(n)@ == CommandModel::Versions(n as int),
        (Command::Update { system_only: on })@ == (CommandModel::Update { system_only: on }),
        Command::Status@ is Status && Command::Family@ is Family && Command::Tags@ is Tags
            && Command::Help@ is Help,
{
}

} // verus!
