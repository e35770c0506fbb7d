//! Which image the host is booted from.
//!
//! A mock identity comes first, then an override given by the user, then what
//! `bootc status` says, then `/etc/os-release`. What has to be run or read is
//! told to the caller one action at a time; each outcome leads to the next.

use vstd::prelude::*;
use crate::date::Date;
use crate::json;
use crate::json::{Json, JsonModel};
use crate::text;
use crate::version_parse;
use super::client;
use super::client::{RegistryClient, StreamModel};
use super::metadata;
use super::tags;

verus! {

/// An identity to pretend to have.
#[derive(Debug)]
pub struct MockIdentity {
    pub registry: String,
    pub org: String,
    pub image: String,
    pub tag: String,
    pub digest: Option<String>,
}

/// The stream of a mock identity.
pub open spec fn mock_stream(m: MockIdentity) -> StreamModel {
    StreamModel {
        registry: m.registry@,
        org: m.org@,
        image: m.image@,
        stream: client::stream_or_tag(m.tag@),
    }
}

/// What to do next to find out the booted image.
#[derive(Debug)]
pub enum DetectAction {
    /// It is found.
    Found(RegistryClient),
    /// Run `bootc status --json`.
    RunBootc,
    /// Run it with the rights of an administrator.
    RunPrivilegedBootc,
    /// Read `/etc/os-release`.
    ReadOsRelease,
    /// There is nothing left to try.
    NotFound,
}

/// A command that ran to its end.
#[derive(Debug)]
pub struct CommandOutput {
    pub success: bool,
    pub stdout: Vec<u8>,
}

/// What an action came to.
#[derive(Debug)]
pub enum DetectEvent {
    /// `bootc status` was run, or could not be.
    Bootc(Option<CommandOutput>),
    /// The same with the rights of an administrator.
    PrivilegedBootc(Option<CommandOutput>),
    /// `/etc/os-release` was read, or could not be.
    OsRelease(Option<String>),
}

/// An action, taken by what it says.
pub enum ActionModel {
    Found(StreamModel),
    RunBootc,
    RunPrivilegedBootc,
    ReadOsRelease,
    NotFound,
}

impl View for DetectAction {
    type V = ActionModel;

    open spec fn view(&self) -> ActionModel {
        match self {
            DetectAction::Found(c) => ActionModel::Found(c@),
            DetectAction::RunBootc => ActionModel::RunBootc,
            DetectAction::RunPrivilegedBootc => ActionModel::RunPrivilegedBootc,
            DetectAction::ReadOsRelease => ActionModel::ReadOsRelease,
            DetectAction::NotFound => ActionModel::NotFound,
        }
    }
}

/// A client where there is one, else another action.
pub open spec fn found_or(c: Option<StreamModel>, other: ActionModel) -> ActionModel {
    match c {
        Some(x) => ActionModel::Found(x),
        None => other,
    }
}

/// The first action: a mock identity decides at once, then an override that
/// names an image.
pub open spec fn first_action_of(
    mock: Option<MockIdentity>,
    override_ref: Option<Seq<char>>,
) -> ActionModel {
    match mock {
        Some(m) => ActionModel::Found(mock_stream(m)),
        None => match override_ref {
            Some(s) => found_or(client::referenced(s, true), ActionModel::RunBootc),
            None => ActionModel::RunBootc,
        },
    }
}

/// A string slice that may be missing, taken by its characters.
pub open spec fn opt_chars(s: Option<&str>) -> Option<Seq<char>> {
    match s {
        Some(x) => Some(x@),
        None => None,
    }
}

pub fn first_action(mock: Option<MockIdentity>, override_ref: Option<&str>) -> (r: DetectAction)
    ensures
        r@ == first_action_of(mock, opt_chars(override_ref)),
{
    match mock {
        Some(m) => {
            let stream = client::stream_for_tag(m.tag.as_str());
            DetectAction::Found(
                RegistryClient::new(
                    m.registry.as_str(),
                    m.org.as_str(),
                    m.image.as_str(),
                    stream.as_str(),
                ),
            )
        },
        None => match override_ref {
            Some(s) => match client::parse_override(s) {
                Some(c) => DetectAction::Found(c),
                None => DetectAction::RunBootc,
            },
            None => DetectAction::RunBootc,
        },
    }
}

/// Where the booted image stands in what `bootc status` prints.
pub open spec fn booted_path() -> Seq<Seq<char>> {
    seq!["status"@, "booted"@, "image"@, "image"@, "image"@]
}

/// Where older versions have it.
pub open spec fn older_booted_path() -> Seq<Seq<char>> {
    seq!["status"@, "booted"@, "image"@, "image"@]
}

/// The reference of the booted image in a status document.
pub open spec fn booted_ref(status: JsonModel) -> Option<Seq<char>> {
    match json::at_path(status, booted_path()) {
        Some(v) => json::text_of(Some(v)),
        None => json::text_of(json::at_path(status, older_booted_path())),
    }
}

/// The reference of the booted image in a status document.
pub fn booted_image_ref<'a>(status: &'a Json) -> (r: Option<&'a str>)
    ensures
        opt_chars(r) == booted_ref(status@),
{
    let path = vec!["status", "booted", "image", "image", "image"];
    let older = vec!["status", "booted", "image", "image"];
    proof {
        assert(text::strs(path@) =~= booted_path());
        assert(text::strs(older@) =~= older_booted_path());
    }
    match status.at(path.as_slice()) {
        Some(v) => v.as_str(),
        None => status.text_at(older.as_slice()),
    }
}

/// The image stream that a status document says is booted.
pub open spec fn status_stream(status: Option<JsonModel>) -> Option<StreamModel> {
    match status {
        Some(j) => match booted_ref(j) {
            Some(s) => client::referenced(s, false),
            None => None,
        },
        None => None,
    }
}

/// The image stream that a status document says is booted.
pub fn from_status(status: &Json) -> (r: Option<RegistryClient>)
    ensures
        client::opt_stream(r) == status_stream(Some(status@)),
{
    match booted_image_ref(status) {
        Some(s) => client::parse_image_ref(s),
        None => None,
    }
}

/// The image stream that the output of `bootc status --json` says is booted.
pub fn from_bootc_output(stdout: &[u8]) -> (r: Option<RegistryClient>)
    ensures
        client::opt_stream(r) == status_stream(json::json_document(stdout@)),
{
    match json::parse(stdout) {
        Some(status) => from_status(&status),
        None => None,
    }
}

/// Where a status document says when the booted image was built.
pub open spec fn timestamp_path() -> Seq<Seq<char>> {
    seq!["status"@, "booted"@, "image"@, "timestamp"@]
}

/// The day on which the booted image was built, as a status document says.
/// `None` where it says nothing, or a placeholder.
pub open spec fn status_date(status: Option<JsonModel>) -> Option<Date> {
    match status {
        Some(j) => match metadata::build_moment(
            json::text_of(json::at_path(j, timestamp_path())),
        ) {
            Some(t) => Some(t.date),
            None => None,
        },
        None => None,
    }
}

/// The day on which the booted image was built, as a status document says.
pub fn booted_date(status: &Json) -> (r: Option<Date>)
    ensures
        r == status_date(Some(status@)),
        r matches Some(d) ==> d.wf(),
{
    let path = vec!["status", "booted", "image", "timestamp"];
    proof {
        assert(text::strs(path@) =~= timestamp_path());
    }
    match metadata::build_time(status.text_at(path.as_slice())) {
        Some(t) => Some(t.date),
        None => None,
    }
}

/// The day on which the booted image was built, as the output of
/// `bootc status --json` says.
pub fn date_from_bootc_output(stdout: &[u8]) -> (r: Option<Date>)
    ensures
        r == status_date(json::json_document(stdout@)),
        r matches Some(d) ==> d.wf(),
{
    match json::parse(stdout) {
        Some(status) => booted_date(&status),
        None => None,
    }
}

/// The command that asks `bootc` for its status.
pub open spec fn status_args(sandboxed: bool, privileged: bool) -> Seq<Seq<char>> {
    (if sandboxed {
        seq!["flatpak-spawn"@, "--host"@]
    } else {
        Seq::empty()
    }) + (if privileged {
        seq!["pkexec"@]
    } else {
        Seq::empty()
    }) + seq!["bootc"@, "status"@, "--json"@]
}

/// The command that asks `bootc` for its status. From inside a sandbox it runs
/// on the host.
pub fn status_command(sandboxed: bool, privileged: bool) -> (r: Vec<&'static str>)
    ensures
        text::strs(r@) == status_args(sandboxed, privileged),
{
    let mut out: Vec<&'static str> = Vec::new();
    if sandboxed {
        out.push("flatpak-spawn");
        out.push("--host");
    }
    if privileged {
        out.push("pkexec");
    }
    out.push("bootc");
    out.push("status");
    out.push("--json");
    proof {
        let expected = (if sandboxed {
            seq!["flatpak-spawn"@, "--host"@]
        } else {
            Seq::empty()
        }) + (if privileged {
            seq!["pkexec"@]
        } else {
            Seq::empty()
        }) + seq!["bootc"@, "status"@, "--json"@];
        assert(text::strs(out@) =~= expected);
    }
    out
}

// ---------------------------------------------------------------------------
// os-release

/// The value that a line gives to a key, where it is such a line; quotes around
/// the value do not belong to it.
pub open spec fn line_value(line: Seq<char>, key: Seq<char>) -> Option<Seq<char>> {
    if text::begins_with(line, key) {
        Some(text::without_trailing(text::without_leading(line.skip(key.len() as int), '"'), '"'))
    } else {
        None
    }
}

/// The value that the last line for a key gives to it.
pub open spec fn last_value(lines: Seq<Seq<char>>, key: Seq<char>) -> Option<Seq<char>>
    decreases lines.len(),
{
    if lines.len() == 0 {
        None
    } else {
        match line_value(lines.last(), key) {
            Some(v) => Some(v),
            None => last_value(lines.drop_last(), key),
        }
    }
}

fn find_value<'a>(lines: &Vec<&'a str>, key: &str) -> (r: Option<&'a str>)
    ensures
        opt_chars(r) == last_value(text::strs(lines@), key@),
{
    let ghost all = text::strs(lines@);
    let mut i: usize = lines.len();
    assert(all.take(all.len() as int) =~= all);
    while i > 0
        invariant
            i <= lines@.len(),
            all == text::strs(lines@),
            last_value(all, key@) == last_value(all.take(i as int), key@),
        decreases i,
    {
        i -= 1;
        proof {
            assert(all.take(i + 1).drop_last() =~= all.take(i as int));
            assert(all.take(i + 1).last() == lines@[i as int]@);
        }
        match text::strip_prefix(lines[i], key) {
            Some(v) => {
                return Some(text::trim_matches(v, '"'));
            },
            None => {},
        }
    }
    None
}

/// The image stream that an image reference and a tag name. A reference has at
/// least three segments.
pub open spec fn os_release_ref(image_ref: Seq<char>, tag: Option<Seq<char>>) -> Option<
    StreamModel,
> {
    let parts = text::pieces(version_parse::without_transport(image_ref), '/');
    if parts.len() >= 3 {
        Some(
            StreamModel {
                registry: parts[0],
                org: parts[1],
                image: text::joined(parts.skip(2), "/"@),
                stream: client::stream_or_tag(
                    match tag {
                        Some(t) => t,
                        None => "latest"@,
                    },
                ),
            },
        )
    } else {
        None
    }
}

/// The organisation that publishes an image that only its name is known of.
pub open spec fn guessed_org(image: Seq<char>) -> Seq<char> {
    if text::occurs(image, "dakota"@) || text::occurs(image, "bluefin"@) || text::occurs(
        image,
        "aurora"@,
    ) {
        "projectbluefin"@
    } else {
        "ublue-os"@
    }
}

/// The image stream that an image name and a release name.
pub open spec fn os_release_id(image: Seq<char>, version: Seq<char>) -> StreamModel {
    StreamModel {
        registry: "ghcr.io"@,
        org: guessed_org(image),
        image,
        stream: if version == "latest"@ {
            "latest"@
        } else {
            "stable-daily-"@ + version
        },
    }
}

/// The image stream that an `os-release` file tells of: by its image reference,
/// else by its image name and release.
pub open spec fn os_release_stream(content: Seq<char>) -> Option<StreamModel> {
    let lines = text::lines_of(content);
    let by_ref = match last_value(lines, "IMAGE_REF="@) {
        Some(s) => os_release_ref(s, last_value(lines, "IMAGE_TAG="@)),
        None => None,
    };
    match by_ref {
        Some(c) => Some(c),
        None => match (last_value(lines, "IMAGE_ID="@), last_value(lines, "VERSION_ID="@)) {
            (Some(image), Some(version)) => Some(os_release_id(image, version)),
            _ => None,
        },
    }
}

/// The image stream that an `os-release` file tells of.
pub fn detect_from_os_release(content: &str) -> (r: Option<RegistryClient>)
    ensures
        client::opt_stream(r) == os_release_stream(content@),
{
    let lines = text::lines(content);
    match find_value(&lines, "IMAGE_REF=") {
        Some(image_ref) => {
            let clean: &str = match text::split_once(image_ref, "docker://") {
                Some(h) => h.1,
                None => image_ref,
            };
            let parts = text::split(clean, '/');
            if parts.len() >= 3 {
                let image = text::join_from(&parts, 2, "/");
                let tag = match find_value(&lines, "IMAGE_TAG=") {
                    Some(t) => t,
                    None => "latest",
                };
                let stream = client::stream_for_tag(tag);
                return Some(
                    RegistryClient::new(parts[0], parts[1], image.as_str(), stream.as_str()),
                );
            }
        },
        None => {},
    }
    match (find_value(&lines, "IMAGE_ID="), find_value(&lines, "VERSION_ID=")) {
        (Some(image), Some(version)) => {
            let org = if text::contains(image, "dakota") || text::contains(image, "bluefin")
                || text::contains(image, "aurora") {
                "projectbluefin"
            } else {
                "ublue-os"
            };
            let mut stream = "latest".to_owned();
            if !text::eq(version, "latest") {
                stream = "stable-daily-".to_owned();
                stream.append(version);
            }
            Some(RegistryClient::new("ghcr.io", org, image, stream.as_str()))
        },
        _ => None,
    }
}

/// An event, taken by what it says.
pub open spec fn next_action_of(event: DetectEvent) -> ActionModel {
    match event {
        DetectEvent::Bootc(Some(out)) => if out.success {
            found_or(
                status_stream(json::json_document(out.stdout@)),
                ActionModel::ReadOsRelease,
            )
        } else {
            ActionModel::RunPrivilegedBootc
        },
        DetectEvent::Bootc(None) => ActionModel::ReadOsRelease,
        DetectEvent::PrivilegedBootc(Some(out)) => if out.success {
            found_or(
                status_stream(json::json_document(out.stdout@)),
                ActionModel::ReadOsRelease,
            )
        } else {
            ActionModel::ReadOsRelease
        },
        DetectEvent::PrivilegedBootc(None) => ActionModel::ReadOsRelease,
        DetectEvent::OsRelease(Some(content)) => found_or(
            os_release_stream(content@),
            ActionModel::NotFound,
        ),
        DetectEvent::OsRelease(None) => ActionModel::NotFound,
    }
}

fn or_os_release(stdout: &Vec<u8>) -> (r: DetectAction)
    ensures
        r@ == found_or(
            status_stream(json::json_document(stdout@)),
            ActionModel::ReadOsRelease,
        ),
{
    match from_bootc_output(stdout.as_slice()) {
        Some(c) => DetectAction::Found(c),
        None => DetectAction::ReadOsRelease,
    }
}

/// What to do after an action came to `event`.
pub fn next_action(event: DetectEvent) -> (r: DetectAction)
    ensures
        r@ == next_action_of(event),
{
    match event {
        DetectEvent::Bootc(Some(out)) => if out.success {
            or_os_release(&out.stdout)
        } else {
            DetectAction::RunPrivilegedBootc
        },
        DetectEvent::Bootc(None) => DetectAction::ReadOsRelease,
        DetectEvent::PrivilegedBootc(Some(out)) => if out.success {
            or_os_release(&out.stdout)
        } else {
            DetectAction::ReadOsRelease
        },
        DetectEvent::PrivilegedBootc(None) => DetectAction::ReadOsRelease,
        DetectEvent::OsRelease(Some(content)) => match detect_from_os_release(content.as_str()) {
            Some(c) => DetectAction::Found(c),
            None => DetectAction::NotFound,
        },
        DetectEvent::OsRelease(None) => DetectAction::NotFound,
    }
}

/// The day of the booted build that an event tells of: that in the status
/// document, where the command succeeded.
pub open spec fn date_told_by(event: DetectEvent) -> Option<Date> {
    match event {
        DetectEvent::Bootc(Some(out)) | DetectEvent::PrivilegedBootc(Some(out)) => if out.success {
            status_date(json::json_document(out.stdout@))
        } else {
            None
        },
        _ => None,
    }
}

/// The day of the booted build that an event tells of.
pub fn date_told(event: &DetectEvent) -> (r: Option<Date>)
    ensures
        r == date_told_by(*event),
        r matches Some(d) ==> d.wf(),
{
    match event {
        DetectEvent::Bootc(Some(out)) | DetectEvent::PrivilegedBootc(Some(out)) => {
            if out.success {
                date_from_bootc_output(out.stdout.as_slice())
            } else {
                None
            }
        },
        _ => None,
    }
}

/// How far the search has come.
pub open spec fn stage(a: ActionModel) -> int {
    match a {
        ActionModel::RunBootc => 0,
        ActionModel::RunPrivilegedBootc => 1,
        ActionModel::ReadOsRelease => 2,
        ActionModel::Found(_) => 3,
        ActionModel::NotFound => 3,
    }
}

/// The action whose outcome an event tells.
pub open spec fn answers(event: DetectEvent) -> ActionModel {
    match event {
        DetectEvent::Bootc(_) => ActionModel::RunBootc,
        DetectEvent::PrivilegedBootc(_) => ActionModel::RunPrivilegedBootc,
        DetectEvent::OsRelease(_) => ActionModel::ReadOsRelease,
    }
}

/// The search ends: every outcome leads further, never back.
pub proof fn law_search_advances(event: DetectEvent)
    ensures
        stage(next_action_of(event)) > stage(answers(event)),
{
}

/// A mock identity is taken whatever else there is, and an override that names
/// an image is taken before anything is run.
pub proof fn law_precedence(mock: Option<MockIdentity>, override_ref: Option<Seq<char>>)
    ensures
        mock matches Some(m) ==> first_action_of(mock, override_ref) == ActionModel::Found(
            mock_stream(m),
        ),
        mock is None ==> (override_ref matches Some(s) ==> (client::referenced(s, true) matches Some(
            c,
        ) ==> first_action_of(mock, override_ref) == ActionModel::Found(c))),
{
}

/// `bootc` is asked for its status, from inside a sandbox on the host, and with the
/// rights of an administrator only where that is asked for.
pub proof fn law_status_command(sandboxed: bool, privileged: bool)
    ensures
        ({
            let v = status_args(sandboxed, privileged);
            let n = v.len() as int;
            &&& n == 3 + (if sandboxed {
                2int
            } else {
                0
            }) + (if privileged {
                1int
            } else {
                0
            })
            &&& v[n - 3] == "bootc"@ && v[n - 2] == "status"@ && v[n - 1] == "--json"@
            &&& sandboxed ==> v[0] == "flatpak-spawn"@ && v[1] == "--host"@
            &&& privileged ==> v[n - 4] == "pkexec"@
        }),
{
}

/// A status document names the booted stream by the reference of the booted image,
/// in either place in which it may stand; and its day by the timestamp of that
/// image.
pub proof fn law_status_names_the_booted_image(
    status: JsonModel,
    c: StreamModel,
    digits: Seq<char>,
    s: Seq<char>,
)
    requires
        !c.registry.contains('/'),
        !c.org.contains('/'),
        !c.stream.contains(':'),
        tags::is_date_shaped(digits),
    ensures
        ({
            let full = c.registry + "/"@ + c.org + "/"@ + c.image + ":"@ + (c.stream + "."@ + digits);
            &&& json::at_path(status, seq!["status"@, "booted"@, "image"@, "image"@, "image"@])
                == Some(JsonModel::Text(full)) ==> status_stream(Some(status)) == Some(c)
            &&& json::at_path(status, seq!["status"@, "booted"@, "image"@, "image"@, "image"@])
                is None && json::at_path(status, seq!["status"@, "booted"@, "image"@, "image"@])
                == Some(JsonModel::Text(full)) ==> status_stream(Some(status)) == Some(c)
            &&& json::at_path(status, seq!["status"@, "booted"@, "image"@, "timestamp"@]) == Some(
                JsonModel::Text(s),
            ) ==> status_date(Some(status)) == (match metadata::build_moment(Some(s)) {
                Some(t) => Some(t.date),
                None => None,
            })
            &&& json::at_path(status, seq!["status"@, "booted"@, "image"@, "timestamp"@]) is None
                ==> status_date(Some(status)) is None
            &&& status_stream(None) is None && status_date(None) is None
        }),
{
    client::law_reference_round_trip(c, digits);
}

/// What follows from each outcome: a status document that names the image ends the
/// search; one that does not, and a command that could not be run, lead to the
/// release file; a command that fails leads to the one with the rights of an
/// administrator, and if that fails too to the release file.
pub proof fn law_order_of_the_search(out: CommandOutput, content: String)
    ensures
        out.success ==> (match status_stream(json::json_document(out.stdout@)) {
            Some(c) => next_action_of(DetectEvent::Bootc(Some(out))) == ActionModel::Found(c)
                && next_action_of(DetectEvent::PrivilegedBootc(Some(out))) == ActionModel::Found(c),
            None => next_action_of(DetectEvent::Bootc(Some(out))) is ReadOsRelease
                && next_action_of(DetectEvent::PrivilegedBootc(Some(out))) is ReadOsRelease,
        }),
        !out.success ==> next_action_of(DetectEvent::Bootc(Some(out))) is RunPrivilegedBootc,
        !out.success ==> next_action_of(DetectEvent::PrivilegedBootc(Some(out))) is ReadOsRelease,
        next_action_of(DetectEvent::Bootc(None)) is ReadOsRelease,
        next_action_of(DetectEvent::PrivilegedBootc(None)) is ReadOsRelease,
        next_action_of(DetectEvent::OsRelease(None)) is NotFound,
        match os_release_stream(content@) {
            Some(c) => next_action_of(DetectEvent::OsRelease(Some(content))) == ActionModel::Found(
                c,
            ),
            None => next_action_of(DetectEvent::OsRelease(Some(content))) is NotFound,
        },
        first_action_of(None, None) is RunBootc,
        out.success ==> date_told_by(DetectEvent::Bootc(Some(out))) == status_date(
            json::json_document(out.stdout@),
        ),
        !out.success ==> date_told_by(DetectEvent::Bootc(Some(out))) is None,
{
}

/// A mock identity and an override are taken for what they name: the stream of a
/// dated tag, and an undated tag itself.
pub proof fn law_named_identities(m: MockIdentity, c: StreamModel, tag: Seq<char>)
    requires
        !c.registry.contains('/'),
        !c.org.contains('/'),
        !tag.contains(':'),
    ensures
        first_action_of(Some(m), None) matches ActionModel::Found(s) && s.registry == m.registry@
            && s.org == m.org@ && s.image == m.image@ && (tags::stream_of(m.tag@) is None
            ==> s.stream == m.tag@) && (tags::stream_of(m.tag@) matches Some(t) ==> s.stream == t),
        tags::stream_of(tag) is None ==> first_action_of(
            None,
            Some(c.registry + "/"@ + c.org + "/"@ + c.image + ":"@ + tag),
        ) == ActionModel::Found(StreamModel { stream: tag, ..c }),
{
    client::law_undated_references(c, tag);
}

/// A value stands behind its key, with or without quotes around it; of several
/// lines for a key the last counts.
pub proof fn law_values_of_the_release_file(
    lines: Seq<Seq<char>>,
    key: Seq<char>,
    k: int,
    v: Seq<char>,
)
    requires
        0 <= k < lines.len(),
        forall|i: int| k < i < lines.len() ==> !text::begins_with(#[trigger] lines[i], key),
        v.len() > 0 ==> v[0] != '"' && v.last() != '"',
    ensures
        lines[k] == key + v || lines[k] == key + seq!['"'] + v + seq!['"'] ==> last_value(lines, key)
            == Some(v),
    decreases lines.len(),
{
    let n = lines.len() - 1;
    assert(lines[n] == lines.last());
    if k < n {
        let front = lines.drop_last();
        assert(front[k] == lines[k]);
        assert(!text::begins_with(lines[n], key));
        assert forall|i: int| k < i < front.len() implies !text::begins_with(
            #[trigger] front[i],
            key,
        ) by {
            assert(front[i] == lines[i]);
        }
        law_values_of_the_release_file(front, key, k, v);
    } else {
        let e = Seq::<char>::empty();
        let q = seq!['"'];
        if lines[k] == key + v {
            assert(lines[k].subrange(0, key.len() as int) =~= key);
            assert(lines[k].take(key.len() as int) =~= key);
            assert(lines[k].skip(key.len() as int) =~= v);
        } else if lines[k] == key + q + v + q {
            assert(lines[k].subrange(0, key.len() as int) =~= key);
            assert(lines[k].take(key.len() as int) =~= key);
            let rest = lines[k].skip(key.len() as int);
            assert(rest =~= q + v + q);
            assert(rest.skip(1) =~= v + q);
            if v.len() == 0 {
                assert(v + q =~= q);
                assert(q.skip(1) =~= e);
                assert(v =~= e);
                reveal_with_fuel(text::without_leading, 3);
            } else {
                assert((v + q)[0] == v[0]);
                reveal_with_fuel(text::without_leading, 2);
                assert(text::without_leading(rest, '"') == v + q);
                assert((v + q).drop_last() =~= v);
            }
            reveal_with_fuel(text::without_trailing, 2);
        }
    }
}

/// The image of a release file: its reference counts before its name and number;
/// one that is known by name only is taken to be published at `ghcr.io`, by the
/// organisation of images of its name.
pub proof fn law_image_of_the_release_file(
    content: Seq<char>,
    registry: Seq<char>,
    org: Seq<char>,
    image: Seq<char>,
    tag: Seq<char>,
)
    requires
        !registry.contains('/') && !org.contains('/') && !image.contains('/'),
        !text::occurs(registry + seq!['/'] + org + seq!['/'] + image, "docker://"@),
    ensures
        ({
            let lines = text::lines_of(content);
            let by_ref = last_value(lines, "IMAGE_REF="@);
            let by_tag = last_value(lines, "IMAGE_TAG="@);
            let by_id = last_value(lines, "IMAGE_ID="@);
            let by_version = last_value(lines, "VERSION_ID="@);
            &&& by_ref == Some(registry + seq!['/'] + org + seq!['/'] + image) ==> (
            os_release_stream(content) matches Some(s) && s.registry == registry && s.org == org
                && s.image == image && (by_tag == Some(tag) && tags::stream_of(tag) is None
                ==> s.stream == tag))
            &&& by_ref is None && by_id == Some(image) && by_version == Some(tag) ==> (
            os_release_stream(content) matches Some(s) && s.registry == "ghcr.io"@ && s.image
                == image && (tag == "latest"@ ==> s.stream == "latest"@) && (tag != "latest"@
                ==> s.stream == "stable-daily-"@ + tag) && ((text::occurs(image, "dakota"@)
                || text::occurs(image, "bluefin"@) || text::occurs(image, "aurora"@)) ==> s.org
                == "projectbluefin"@) && (!(text::occurs(image, "dakota"@) || text::occurs(
                image,
                "bluefin"@,
            ) || text::occurs(image, "aurora"@)) ==> s.org == "ublue-os"@))
            &&& by_ref is None && (by_id is None || by_version is None) ==> os_release_stream(
                content,
            ) is None
        }),
{
    let slash = seq!['/'];
    let full = registry + slash + org + slash + image;
    text::lemma_one_piece(registry, '/');
    text::lemma_one_piece(org, '/');
    text::lemma_one_piece(image, '/');
    text::lemma_pieces_append(registry, '/', org);
    text::lemma_pieces_append(registry + slash + org, '/', image);
    let parts = text::pieces(full, '/');
    assert(parts =~= seq![registry, org, image]);
    assert(parts.skip(2) =~= seq![image]);
    reveal_with_fuel(text::joined, 2);
}

/// What is told of an action is what it is.
pub proof fn law_actions_hold_what_is_told(c: RegistryClient)
    ensures
        DetectAction::Found(c)@ == ActionModel::Found(c@),
        DetectAction::RunBootc@ is RunBootc,
        DetectAction::RunPrivilegedBootc@ is RunPrivilegedBootc,
        DetectAction::ReadOsRelease@ is ReadOsRelease,
        DetectAction::NotFound@ is NotFound,
{
}

} // verus!
