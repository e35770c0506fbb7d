//! The searches for the builds and for the tags of a stream, step by step.
//!
//! A search asks for one thing at a time: an action. What comes of it is an
//! event, which leads to the next action, until there is an answer.

use vstd::prelude::*;
use crate::date;
use crate::date::Date;
use crate::sort;
use crate::text;
use super::client;
use super::client::{RegistryClient, StreamModel};
use super::models;
use super::models::{AvailableTag, ImageVersion, RegistryError};
use super::tags;
use super::versions;
use super::versions::{Dated, Entry, TagGroups, VersionPlan};

verus! {

// ---------------------------------------------------------------------------
// The search for builds

/// How far a search for builds has come.
#[derive(Debug)]
pub enum Phase {
    /// Waiting for an answer that was kept.
    Remembering,
    /// Waiting for the tags.
    Listing,
    /// Waiting for the dates of commit hashes, with the tags.
    Probing(Vec<String>),
    /// Waiting for the date of the floating tag, with the tags and the dates of
    /// commit hashes.
    Asking(Vec<String>, Vec<(Date, String)>),
    /// Waiting for the builds.
    Fetching,
    /// Waiting for the build under the tag `latest`.
    FetchingLatest,
    /// There is an answer.
    Over,
}

/// A phase, taken by what it holds.
pub enum PhaseModel {
    Remembering,
    Listing,
    Probing(Seq<Seq<char>>),
    Asking(Seq<Seq<char>>, Seq<Dated>),
    Fetching,
    FetchingLatest,
    Over,
}

impl View for Phase {
    type V = PhaseModel;

    open spec fn view(&self) -> PhaseModel {
        match *self {
            Phase::Remembering => PhaseModel::Remembering,
            Phase::Listing => PhaseModel::Listing,
            Phase::Probing(tags) => PhaseModel::Probing(text::views(tags@)),
            Phase::Asking(tags, probed) => PhaseModel::Asking(
                text::views(tags@),
                versions::dated_views(probed@),
            ),
            Phase::Fetching => PhaseModel::Fetching,
            Phase::FetchingLatest => PhaseModel::FetchingLatest,
            Phase::Over => PhaseModel::Over,
        }
    }
}

/// A search for the newest builds of a stream, up to `max` of them.
#[derive(Debug)]
pub struct VersionSearch {
    pub stream: RegistryClient,
    pub max: usize,
    pub phase: Phase,
}

/// A search for builds, taken by what it holds.
pub struct SearchModel {
    pub stream: StreamModel,
    pub max: nat,
    pub phase: PhaseModel,
}

impl View for VersionSearch {
    type V = SearchModel;

    open spec fn view(&self) -> SearchModel {
        SearchModel { stream: self.stream@, max: self.max as nat, phase: self.phase@ }
    }
}

/// What came of an action.
#[derive(Debug)]
pub enum SearchEvent {
    /// The builds that were kept, where they are still current.
    Remembered(Option<Vec<ImageVersion>>),
    /// The tags, or why the registry does not list them.
    Tags(Result<Vec<String>, String>),
    /// The dates of the commit hashes that told one.
    Probed(Vec<(Date, String)>),
    /// The date of the floating tag, where it told one.
    Floating(Option<Date>),
    /// The builds that could be fetched.
    Fetched(Vec<ImageVersion>),
    /// The build under the tag `latest`, where it could be fetched.
    Latest(Option<ImageVersion>),
}

/// What is to be done.
#[derive(Debug)]
pub enum SearchAction {
    /// Look for builds that were kept under this name.
    Remember(String),
    ListTags,
    /// Ask these commit hashes for their date.
    Probe(Vec<String>),
    /// Ask the floating tag for its date.
    AskFloating,
    /// Fetch these builds.
    Fetch(Vec<(Date, String)>),
    /// Fetch the build under the tag `latest`, as of today.
    FetchLatest,
    /// The search has ended with these builds, which are kept where `keep` says
    /// so.
    Found { builds: Vec<ImageVersion>, keep: bool },
    /// The search has failed.
    Fail(RegistryError),
    /// The event is not what the search is waiting for.
    Wait,
}

/// An action, taken by what it holds.
pub enum ActionModel {
    Remember(Seq<char>),
    ListTags,
    Probe(Seq<Seq<char>>),
    AskFloating,
    Fetch(Seq<Dated>),
    FetchLatest,
    Found(Seq<ImageVersion>, bool),
    NoTags(Seq<char>),
    Network(Seq<char>),
    NoCurrentImage,
    Wait,
}

impl View for SearchAction {
    type V = ActionModel;

    open spec fn view(&self) -> ActionModel {
        match *self {
            SearchAction::Remember(key) => ActionModel::Remember(key@),
            SearchAction::ListTags => ActionModel::ListTags,
            SearchAction::Probe(hashes) => ActionModel::Probe(text::views(hashes@)),
            SearchAction::AskFloating => ActionModel::AskFloating,
            SearchAction::Fetch(list) => ActionModel::Fetch(versions::dated_views(list@)),
            SearchAction::FetchLatest => ActionModel::FetchLatest,
            SearchAction::Found { builds, keep } => ActionModel::Found(builds@, keep),
            SearchAction::Fail(e) => match e {
                RegistryError::NoTags(s) => ActionModel::NoTags(s@),
                RegistryError::Network(s) => ActionModel::Network(s@),
                RegistryError::NoCurrentImage => ActionModel::NoCurrentImage,
            },
            SearchAction::Wait => ActionModel::Wait,
        }
    }
}

/// The name under which the builds of a stream are kept.
pub open spec fn versions_key(s: StreamModel, max: nat) -> Seq<char> {
    client::cache_name(s, "versions_"@ + text::decimal(max))
}

pub open spec fn in_phase(s: SearchModel, phase: PhaseModel) -> SearchModel {
    SearchModel { phase, ..s }
}

/// All dates are known: the builds that are offered are fetched; where there
/// are none, though some are asked for, `latest` is, if there is such a tag.
pub open spec fn planned(
    s: SearchModel,
    tags: Seq<Seq<char>>,
    probed: Seq<Dated>,
    floating: Option<Date>,
) -> (SearchModel, ActionModel) {
    let list = versions::offered(tags, s.stream.stream, s.max, probed, floating);
    if list.len() > 0 || s.max == 0 {
        (in_phase(s, PhaseModel::Fetching), ActionModel::Fetch(list))
    } else if tags.contains("latest"@) {
        (in_phase(s, PhaseModel::FetchingLatest), ActionModel::FetchLatest)
    } else {
        (in_phase(s, PhaseModel::Over), ActionModel::NoTags(s.stream.stream))
    }
}

/// The dates of the commit hashes are known: the floating tag is asked, where
/// there is such a tag.
pub open spec fn probed_so_far(s: SearchModel, tags: Seq<Seq<char>>, probed: Seq<Dated>) -> (
    SearchModel,
    ActionModel,
) {
    if tags.contains(s.stream.stream) {
        (in_phase(s, PhaseModel::Asking(tags, probed)), ActionModel::AskFloating)
    } else {
        planned(s, tags, probed, None)
    }
}

/// The commit hashes among the tags that are asked for their date.
pub open spec fn probes(s: SearchModel, tags: Seq<Seq<char>>) -> Seq<Seq<char>> {
    versions::spread(versions::hashes_of(tags), versions::probe_cap(s.max))
}

/// The tags are known: commit hashes are asked for their date, where there are
/// any.
pub open spec fn listed(s: SearchModel, tags: Seq<Seq<char>>) -> (SearchModel, ActionModel) {
    if probes(s, tags).len() > 0 {
        (in_phase(s, PhaseModel::Probing(tags)), ActionModel::Probe(probes(s, tags)))
    } else {
        probed_so_far(s, tags, Seq::empty())
    }
}

/// The step that an event leads to.
pub open spec fn step(s: SearchModel, e: SearchEvent) -> (SearchModel, ActionModel) {
    let over = in_phase(s, PhaseModel::Over);
    match (s.phase, e) {
        (PhaseModel::Remembering, SearchEvent::Remembered(Some(builds))) => (
            over,
            ActionModel::Found(builds@, false),
        ),
        (PhaseModel::Remembering, SearchEvent::Remembered(None)) => (
            in_phase(s, PhaseModel::Listing),
            ActionModel::ListTags,
        ),
        (PhaseModel::Listing, SearchEvent::Tags(Ok(tags))) => listed(s, text::views(tags@)),
        (PhaseModel::Listing, SearchEvent::Tags(Err(why))) => (over, ActionModel::Network(why@)),
        (PhaseModel::Probing(tags), SearchEvent::Probed(probed)) => probed_so_far(
            s,
            tags,
            versions::dated_views(probed@),
        ),
        (PhaseModel::Asking(tags, probed), SearchEvent::Floating(date)) => planned(
            s,
            tags,
            probed,
            date,
        ),
        (PhaseModel::Fetching, SearchEvent::Fetched(builds)) => (
            over,
            ActionModel::Found(sort::sorted(builds@, versions::newest_build_first()), true),
        ),
        (PhaseModel::FetchingLatest, SearchEvent::Latest(Some(build))) => (
            over,
            ActionModel::Found(seq![build], false),
        ),
        (PhaseModel::FetchingLatest, SearchEvent::Latest(None)) => (
            over,
            ActionModel::NoTags(s.stream.stream),
        ),
        _ => (s, ActionModel::Wait),
    }
}

impl VersionSearch {
    /// Begin a search: what was kept is looked up first.
    pub fn start(stream: RegistryClient, max: usize) -> (r: (VersionSearch, SearchAction))
        ensures
            r.0@ == (SearchModel {
                stream: stream@,
                max: max as nat,
                phase: PhaseModel::Remembering,
            }),
            r.1@ == ActionModel::Remember(versions_key(stream@, max as nat)),
    {
        let mut suffix = "versions_".to_owned();
        text::push_decimal(&mut suffix, max as u64);
        let key = client::cache_key(
            stream.registry(),
            stream.org(),
            stream.image(),
            stream.stream(),
            suffix.as_str(),
        );
        (
            VersionSearch { stream, max, phase: Phase::Remembering },
            SearchAction::Remember(key),
        )
    }

    fn with_phase(self, phase: Phase) -> (r: VersionSearch)
        ensures
            r@ == in_phase(self@, phase@),
    {
        VersionSearch { stream: self.stream, max: self.max, phase }
    }

    fn plan(self, tags: Vec<String>, probed: Vec<(Date, String)>, floating: Option<Date>) -> (r: (
        VersionSearch,
        SearchAction,
    ))
        ensures
            (r.0@, r.1@) == planned(
                self@,
                text::views(tags@),
                versions::dated_views(probed@),
                floating,
            ),
    {
        match versions::plan_versions(&tags, self.stream.stream(), self.max, probed, floating) {
            VersionPlan::Fetch(list) => (
                self.with_phase(Phase::Fetching),
                SearchAction::Fetch(list),
            ),
            VersionPlan::LatestOnly => (
                self.with_phase(Phase::FetchingLatest),
                SearchAction::FetchLatest,
            ),
            VersionPlan::NoTags => {
                let name = self.stream.stream().to_owned();
                (self.with_phase(Phase::Over), SearchAction::Fail(RegistryError::NoTags(name)))
            },
        }
    }

    fn take_probed(self, tags: Vec<String>, probed: Vec<(Date, String)>) -> (r: (
        VersionSearch,
        SearchAction,
    ))
        ensures
            (r.0@, r.1@) == probed_so_far(
                self@,
                text::views(tags@),
                versions::dated_views(probed@),
            ),
    {
        if versions::floating_published(&tags, self.stream.stream()) {
            (self.with_phase(Phase::Asking(tags, probed)), SearchAction::AskFloating)
        } else {
            self.plan(tags, probed, None)
        }
    }

    fn take_tags(self, tags: Vec<String>) -> (r: (VersionSearch, SearchAction))
        ensures
            (r.0@, r.1@) == listed(self@, text::views(tags@)),
    {
        let hashes = versions::hashes_to_probe(&tags, self.max);
        assert(text::views(hashes@).len() == hashes@.len());
        if hashes.len() > 0 {
            (self.with_phase(Phase::Probing(tags)), SearchAction::Probe(hashes))
        } else {
            let none: Vec<(Date, String)> = Vec::new();
            assert(versions::dated_views(none@) =~= Seq::empty());
            self.take_probed(tags, none)
        }
    }

    /// Take up what came of the last action, and tell what is to be done next.
    pub fn next(self, event: SearchEvent) -> (r: (VersionSearch, SearchAction))
        ensures
            (r.0@, r.1@) == step(self@, event),
    {
        let VersionSearch { stream, max, phase } = self;
        match (phase, event) {
            (Phase::Remembering, SearchEvent::Remembered(Some(builds))) => (
                VersionSearch { stream, max, phase: Phase::Over },
                SearchAction::Found { builds, keep: false },
            ),
            (Phase::Remembering, SearchEvent::Remembered(None)) => (
                VersionSearch { stream, max, phase: Phase::Listing },
                SearchAction::ListTags,
            ),
            (Phase::Listing, SearchEvent::Tags(Ok(tags))) => VersionSearch {
                stream,
                max,
                phase: Phase::Listing,
            }.take_tags(tags),
            (Phase::Listing, SearchEvent::Tags(Err(why))) => (
                VersionSearch { stream, max, phase: Phase::Over },
                SearchAction::Fail(RegistryError::Network(why)),
            ),
            (Phase::Probing(tags), SearchEvent::Probed(probed)) => VersionSearch {
                stream,
                max,
                phase: Phase::Listing,
            }.take_probed(tags, probed),
            (Phase::Asking(tags, probed), SearchEvent::Floating(date)) => VersionSearch {
                stream,
                max,
                phase: Phase::Listing,
            }.plan(tags, probed, date),
            (Phase::Fetching, SearchEvent::Fetched(builds)) => (
                VersionSearch { stream, max, phase: Phase::Over },
                SearchAction::Found { builds: versions::order_versions(builds), keep: true },
            ),
            (Phase::FetchingLatest, SearchEvent::Latest(build)) => {
                let answer = versions::latest_only(build, stream.stream());
                let action = match answer {
                    Ok(builds) => SearchAction::Found { builds, keep: false },
                    Err(e) => SearchAction::Fail(e),
                };
                (VersionSearch { stream, max, phase: Phase::Over }, action)
            },
            (phase, _) => (VersionSearch { stream, max, phase }, SearchAction::Wait),
        }
    }
}

// ---------------------------------------------------------------------------
// The search for tags

/// How far a search for tags has come.
#[derive(Debug)]
pub enum TagPhase {
    /// Waiting for an answer that was kept.
    Remembering,
    /// Waiting for the tags.
    Listing,
    /// Waiting for the dates of commit hashes.
    Probing(TagGroups),
    /// There is an answer.
    Over,
}

/// The tags by what they are: channels, dated tags, commit hashes.
pub type GroupsModel = (Seq<Seq<char>>, Seq<Dated>, Seq<Seq<char>>);

pub open spec fn groups_view(g: TagGroups) -> GroupsModel {
    (text::views(g.channels@), versions::dated_views(g.dated@), text::views(g.hashes@))
}

/// A phase, taken by what it holds.
pub enum TagPhaseModel {
    Remembering,
    Listing,
    Probing(GroupsModel),
    Over,
}

impl View for TagPhase {
    type V = TagPhaseModel;

    open spec fn view(&self) -> TagPhaseModel {
        match *self {
            TagPhase::Remembering => TagPhaseModel::Remembering,
            TagPhase::Listing => TagPhaseModel::Listing,
            TagPhase::Probing(g) => TagPhaseModel::Probing(groups_view(g)),
            TagPhase::Over => TagPhaseModel::Over,
        }
    }
}

/// A search for the tags of an image, as a selector shows them.
#[derive(Debug)]
pub struct TagSearch {
    pub stream: RegistryClient,
    pub phase: TagPhase,
}

/// What came of an action.
#[derive(Debug)]
pub enum TagEvent {
    /// The tags that were kept, where they are still current.
    Remembered(Option<Vec<AvailableTag>>),
    /// The tags, or why the registry does not list them.
    Tags(Result<Vec<String>, String>),
    /// The dates of the commit hashes that told one.
    Probed(Vec<(Date, String)>),
}

/// What is to be done.
#[derive(Debug)]
pub enum TagAction {
    /// Look for tags that were kept under this name.
    Remember(String),
    ListTags,
    /// Ask these commit hashes for their date.
    Probe(Vec<String>),
    /// The search has ended with these tags, which are kept where `keep` says
    /// so.
    Found { tags: Vec<AvailableTag>, keep: bool },
    /// The search has failed.
    Fail(RegistryError),
    /// The event is not what the search is waiting for.
    Wait,
}

/// An action, taken by what it holds.
pub enum TagActionModel {
    Remember(Seq<char>),
    ListTags,
    Probe(Seq<Seq<char>>),
    Found(Seq<Entry>, bool),
    Fail(Seq<char>),
    Wait,
}

impl View for TagAction {
    type V = TagActionModel;

    open spec fn view(&self) -> TagActionModel {
        match *self {
            TagAction::Remember(key) => TagActionModel::Remember(key@),
            TagAction::ListTags => TagActionModel::ListTags,
            TagAction::Probe(hashes) => TagActionModel::Probe(text::views(hashes@)),
            TagAction::Found { tags, keep } => TagActionModel::Found(
                versions::entries(tags@),
                keep,
            ),
            TagAction::Fail(e) => TagActionModel::Fail(models::error_text(e)),
            TagAction::Wait => TagActionModel::Wait,
        }
    }
}

/// The tags of a registry, by what they are.
pub open spec fn grouped(tags: Seq<Seq<char>>, stream: Seq<char>) -> GroupsModel {
    (
        versions::channels_of(tags, stream),
        versions::listed_dates(tags, stream),
        versions::listed_hashes(tags),
    )
}

/// The answer: the list of tags, with the commit hashes whose date is known.
pub open spec fn tags_found(g: GroupsModel, probed: Seq<Dated>) -> TagActionModel {
    TagActionModel::Found(versions::tag_list(g.0, g.1, probed), true)
}

/// The step that an event leads to.
pub open spec fn tag_step(stream: StreamModel, phase: TagPhaseModel, e: TagEvent) -> (
    TagPhaseModel,
    TagActionModel,
) {
    match (phase, e) {
        (TagPhaseModel::Remembering, TagEvent::Remembered(Some(tags))) => (
            TagPhaseModel::Over,
            TagActionModel::Found(versions::entries(tags@), false),
        ),
        (TagPhaseModel::Remembering, TagEvent::Remembered(None)) => (
            TagPhaseModel::Listing,
            TagActionModel::ListTags,
        ),
        (TagPhaseModel::Listing, TagEvent::Tags(Ok(tags))) => {
            let g = grouped(text::views(tags@), stream.stream);
            if g.2.len() > 0 {
                (
                    TagPhaseModel::Probing(g),
                    TagActionModel::Probe(versions::asked_hashes(g.2)),
                )
            } else {
                (TagPhaseModel::Over, tags_found(g, Seq::empty()))
            }
        },
        (TagPhaseModel::Listing, TagEvent::Tags(Err(why))) => (
            TagPhaseModel::Over,
            TagActionModel::Fail("Network error: "@ + why@),
        ),
        (TagPhaseModel::Probing(g), TagEvent::Probed(probed)) => (
            TagPhaseModel::Over,
            tags_found(g, versions::dated_views(probed@)),
        ),
        _ => (phase, TagActionModel::Wait),
    }
}

impl TagSearch {
    /// Begin a search: what was kept is looked up first.
    pub fn start(stream: RegistryClient) -> (r: (TagSearch, TagAction))
        ensures
            r.0.stream@ == stream@,
            r.0.phase is Remembering,
            r.1@ == TagActionModel::Remember(client::cache_name(stream@, "available_tags"@)),
    {
        let key = client::cache_key(
            stream.registry(),
            stream.org(),
            stream.image(),
            stream.stream(),
            "available_tags",
        );
        (TagSearch { stream, phase: TagPhase::Remembering }, TagAction::Remember(key))
    }

    /// Take up what came of the last action, and tell what is to be done next.
    pub fn next(self, event: TagEvent) -> (r: (TagSearch, TagAction))
        requires
            event matches TagEvent::Probed(p) ==> forall|i: int|
                0 <= i < p@.len() ==> (#[trigger] p@[i]).0.wf(),
        ensures
            r.0.stream@ == self.stream@,
            (r.0.phase@, r.1@) == tag_step(self.stream@, self.phase@, event),
    {
        let TagSearch { stream, phase } = self;
        match (phase, event) {
            (TagPhase::Remembering, TagEvent::Remembered(Some(tags))) => (
                TagSearch { stream, phase: TagPhase::Over },
                TagAction::Found { tags, keep: false },
            ),
            (TagPhase::Remembering, TagEvent::Remembered(None)) => (
                TagSearch { stream, phase: TagPhase::Listing },
                TagAction::ListTags,
            ),
            (TagPhase::Listing, TagEvent::Tags(Ok(tags))) => {
                let groups = versions::group_tags(&tags, stream.stream());
                assert(text::views(groups.hashes@).len() == groups.hashes@.len());
                if groups.hashes.len() > 0 {
                    let hashes = versions::tag_hashes_to_probe(&groups);
                    (TagSearch { stream, phase: TagPhase::Probing(groups) }, TagAction::Probe(hashes))
                } else {
                    let none: Vec<(Date, String)> = Vec::new();
                    assert(versions::dated_views(none@) =~= Seq::empty());
                    (
                        TagSearch { stream, phase: TagPhase::Over },
                        TagAction::Found { tags: versions::list_tags(groups, none), keep: true },
                    )
                }
            },
            (TagPhase::Listing, TagEvent::Tags(Err(why))) => (
                TagSearch { stream, phase: TagPhase::Over },
                TagAction::Fail(RegistryError::Network(why)),
            ),
            (TagPhase::Probing(groups), TagEvent::Probed(probed)) => (
                TagSearch { stream, phase: TagPhase::Over },
                TagAction::Found { tags: versions::list_tags(groups, probed), keep: true },
            ),
            (phase, _) => (TagSearch { stream, phase }, TagAction::Wait),
        }
    }
}

// ---------------------------------------------------------------------------
// Laws

/// How far a phase is from the beginning.
pub open spec fn rank(p: PhaseModel) -> int {
    match p {
        PhaseModel::Remembering => 0,
        PhaseModel::Listing => 1,
        PhaseModel::Probing(_) => 2,
        PhaseModel::Asking(_, _) => 3,
        PhaseModel::Fetching => 4,
        PhaseModel::FetchingLatest => 4,
        PhaseModel::Over => 5,
    }
}

/// A search for builds ends: every event that it is waiting for leads it
/// further, and it is over exactly when it has found builds or failed. What it
/// searches for stays the same.
pub proof fn law_search_ends(s: SearchModel, e: SearchEvent)
    ensures
        ({
            let (after, action) = step(s, e);
            &&& after.stream == s.stream && after.max == s.max
            &&& action is Wait ==> after == s
            &&& !(action is Wait) ==> rank(s.phase) < rank(after.phase)
            &&& !(action is Wait) ==> (after.phase is Over <==> (action is Found
                || action is NoTags || action is Network))
        }),
{
}

/// What a search for builds does once it has the tags, the dates of the commit
/// hashes if it asks for them, and the date of the floating tag if it asks for
/// that.
pub open spec fn decided(
    s: SearchModel,
    tags: Vec<String>,
    probed: Vec<(Date, String)>,
    floating: Option<Date>,
) -> (SearchModel, ActionModel) {
    let first = step(s, SearchEvent::Tags(Ok(tags)));
    let second = if first.1 is Probe {
        step(first.0, SearchEvent::Probed(probed))
    } else {
        first
    };
    if second.1 is AskFloating {
        step(second.0, SearchEvent::Floating(floating))
    } else {
        second
    }
}

/// A search for builds fetches the builds that are offered, whatever it had to
/// ask for on the way, and never more than asked for; where there are none it
/// fetches `latest`, and it fails only where there is no such tag either.
pub proof fn law_search_fetches_what_is_offered(
    s: SearchModel,
    tags: Vec<String>,
    probed: Vec<(Date, String)>,
    floating: Option<Date>,
)
    requires
        s.phase is Listing,
    ensures
        ({
            let all = text::views(tags@);
            let known = if probes(s, all).len() > 0 {
                versions::dated_views(probed@)
            } else {
                Seq::empty()
            };
            let offered = versions::offered(all, s.stream.stream, s.max, known, floating);
            let action = decided(s, tags, probed, floating).1;
            &&& offered.len() <= s.max
            &&& offered.len() > 0 || s.max == 0 ==> action == ActionModel::Fetch(offered)
            &&& offered.len() == 0 && s.max > 0 && all.contains("latest"@)
                ==> action is FetchLatest
            &&& offered.len() == 0 && s.max > 0 && !all.contains("latest"@)
                ==> action == ActionModel::NoTags(s.stream.stream)
        }),
{
    let all = text::views(tags@);
    let known = if probes(s, all).len() > 0 {
        versions::dated_views(probed@)
    } else {
        Seq::empty()
    };
    if !all.contains(s.stream.stream) {
        assert(versions::offered(all, s.stream.stream, s.max, known, floating)
            == versions::offered(all, s.stream.stream, s.max, known, None));
    }
}

/// Builds are kept only where they were fetched, and then the newest stands
/// first.
pub proof fn law_kept_builds(s: SearchModel, e: SearchEvent)
    ensures
        step(s, e).1 matches ActionModel::Found(builds, true) ==> s.phase is Fetching && (
        e matches SearchEvent::Fetched(fetched) && builds.to_multiset() == fetched@.to_multiset())
            && forall|i: int, j: int|
            0 <= i <= j < builds.len() ==> date::date_le(
                (#[trigger] builds[j]).date,
                (#[trigger] builds[i]).date,
            ),
{
    match e {
        SearchEvent::Fetched(fetched) => {
            versions::law_versions_newest_first(fetched@);
            sort::law_sorted_is_permutation(fetched@, versions::newest_build_first());
        },
        _ => {},
    }
}

/// A search for tags ends: every event that it is waiting for leads it further,
/// to tags or to a failure.
pub proof fn law_tag_search_ends(stream: StreamModel, phase: TagPhaseModel, e: TagEvent)
    ensures
        ({
            let (after, action) = tag_step(stream, phase, e);
            &&& action is Wait ==> after == phase
            &&& !(action is Wait) ==> !(phase is Over) && after != phase
            &&& action is Found || action is Fail <==> after is Over && !(phase is Over)
        }),
{
}

/// What was kept is answered as it was kept, and nothing is asked for then; else
/// the tags are. A registry that does not answer is told of with its reason.
pub proof fn law_kept_builds_are_answered(
    s: SearchModel,
    builds: Vec<ImageVersion>,
    why: String,
)
    ensures
        s.phase is Remembering ==> step(s, SearchEvent::Remembered(Some(builds))).1
            == ActionModel::Found(builds@, false),
        s.phase is Remembering ==> step(s, SearchEvent::Remembered(None)).1 is ListTags,
        s.phase is Listing ==> step(s, SearchEvent::Tags(Err(why))).1 == ActionModel::Network(
            why@,
        ),
{
}

/// Builds that were fetched are found, all of them, and kept; the one build under
/// `latest` is found, and not kept.
pub proof fn law_fetched_builds_are_found(
    s: SearchModel,
    builds: Vec<ImageVersion>,
    build: ImageVersion,
)
    ensures
        s.phase is Fetching ==> (step(s, SearchEvent::Fetched(builds)).1 matches ActionModel::Found(
            found,
            keep,
        ) && keep && found.to_multiset() == builds@.to_multiset()),
        s.phase is FetchingLatest ==> step(s, SearchEvent::Latest(Some(build))).1
            == ActionModel::Found(seq![build], false),
        s.phase is FetchingLatest ==> step(s, SearchEvent::Latest(None)).1 == ActionModel::NoTags(
            s.stream.stream,
        ),
{
    sort::law_sorted_is_permutation(builds@, versions::newest_build_first());
}

/// Commit hashes among the tags are asked for their date wherever there are any,
/// and then the floating tag of the stream, wherever that is listed.
pub proof fn law_what_a_search_asks(
    s: SearchModel,
    tags: Vec<String>,
    probed: Vec<(Date, String)>,
    hash: Seq<char>,
)
    requires
        s.phase is Listing,
    ensures
        ({
            let all = text::views(tags@);
            let first = step(s, SearchEvent::Tags(Ok(tags)));
            let second = step(first.0, SearchEvent::Probed(probed));
            &&& all.contains(hash) && tags::is_sha(hash) ==> first.1 is Probe
            &&& first.1 matches ActionModel::Probe(hs) ==> (hs.contains(hash) ==> all.contains(
                hash,
            ) && tags::is_sha(hash))
            &&& first.1 is Probe && all.contains(s.stream.stream) ==> second.1 is AskFloating
            &&& !(first.1 is Probe) && all.contains(s.stream.stream) ==> first.1 is AskFloating
        }),
{
    let all = text::views(tags@);
    versions::law_hashes_that_are_asked(all, s.max, hash, 0);
    if all.contains(hash) && tags::is_sha(hash) {
        let hs = versions::hashes_of(all);
        if hs.len() <= versions::probe_cap(s.max) {
            assert(probes(s, all).contains(hash));
        }
    }
}

/// The list of tags that a search ends with holds every channel that the registry
/// lists, with or without commit hashes to ask, unless its entries are full; and
/// it is kept.
pub proof fn law_tag_search_finds_the_channels(
    stream: StreamModel,
    tags: Vec<String>,
    probed: Vec<(Date, String)>,
    tag: Seq<char>,
)
    requires
        text::views(tags@).contains(tag),
        !versions::looks_like_digest(tag),
        !tags::is_sha(tag),
        tag.len() > 0 && !('0' <= tag.last() <= '9'),
    ensures
        ({
            let first = tag_step(stream, TagPhaseModel::Listing, TagEvent::Tags(Ok(tags)));
            let last = if first.1 is Probe {
                tag_step(stream, first.0, TagEvent::Probed(probed))
            } else {
                first
            };
            last.1 matches TagActionModel::Found(list, keep) && keep && (list.contains((tag, tag))
                || list.len() == 30)
        }),
{
    let all = text::views(tags@);
    tags::law_no_digit_no_date(tag, stream.stream);
    let day = Date { year: 0, month: 1, day: 1 };
    let known = versions::dated_views(probed@);
    versions::law_list_of_tags_is_complete(all, stream.stream, Seq::empty(), tag, day);
    versions::law_list_of_tags_is_complete(all, stream.stream, known, tag, day);
}

/// Tags that were kept are answered as they were kept; else the registry is
/// asked, and why it does not answer is told.
pub proof fn law_kept_tags_are_answered(
    stream: StreamModel,
    tags: Vec<AvailableTag>,
    why: String,
)
    ensures
        tag_step(stream, TagPhaseModel::Remembering, TagEvent::Remembered(Some(tags))).1
            == TagActionModel::Found(versions::entries(tags@), false),
        tag_step(stream, TagPhaseModel::Remembering, TagEvent::Remembered(None)).1 is ListTags,
        tag_step(stream, TagPhaseModel::Listing, TagEvent::Tags(Err(why))).1
            == TagActionModel::Fail("Network error: "@ + why@),
{
}

/// Builds are kept by the stream and by how many were asked for.
pub proof fn law_builds_are_kept_apart(s: StreamModel, a: nat, b: nat)
    requires
        a != b,
    ensures
        versions_key(s, a) != versions_key(s, b),
{
    text::law_decimal_round_trip(a);
    text::law_decimal_round_trip(b);
    let x = "versions_"@ + text::decimal(a);
    let y = "versions_"@ + text::decimal(b);
    reveal_strlit("versions_");
    assert(x.skip(9) =~= text::decimal(a));
    assert(y.skip(9) =~= text::decimal(b));
    lemma_flat_suffix(a);
    lemma_flat_suffix(b);
    client::law_cache_names_differ(s, x, y, Seq::empty());
}

proof fn lemma_flat_suffix(n: nat)
    ensures
        !("versions_"@ + text::decimal(n)).contains('/'),
        !("versions_"@ + text::decimal(n)).contains(':'),
{
    text::law_decimal_round_trip(n);
    reveal_strlit("versions_");
    let x = "versions_"@ + text::decimal(n);
    assert forall|i: int| 0 <= i < x.len() implies x[i] != '/' && x[i] != ':' by {
        if i >= 9 {
            assert(x[i] == text::decimal(n)[i - 9]);
            assert(text::is_digit(text::decimal(n)[i - 9]));
        }
    }
}

/// What is told of a search and of its actions is what they hold.
pub proof fn law_searches_hold_what_is_told(
    s: VersionSearch,
    g: TagGroups,
    builds: Vec<ImageVersion>,
    list: Vec<(Date, String)>,
    tags: Vec<AvailableTag>,
    keep: bool,
    why: String,
)
    ensures
        s@.stream == s.stream@ && s@.max == s.max && s@.phase == s.phase@,
        groups_view(g).0 == text::views(g.channels@),
        groups_view(g).1 == versions::dated_views(g.dated@),
        groups_view(g).2 == text::views(g.hashes@),
        (SearchAction::Found { builds, keep })@ == ActionModel::Found(builds@, keep),
        SearchAction::Fetch(list)@ == ActionModel::Fetch(versions::dated_views(list@)),
        SearchAction::Fail(RegistryError::Network(why))@ == ActionModel::Network(why@),
        SearchAction::Fail(RegistryError::NoTags(why))@ == ActionModel::NoTags(why@),
        SearchAction::ListTags@ is ListTags && SearchAction::AskFloating@ is AskFloating
            && SearchAction::FetchLatest@ is FetchLatest && SearchAction::Wait@ is Wait,
        (TagAction::Found { tags, keep })@ == TagActionModel::Found(versions::entries(tags@), keep),
        TagAction::ListTags@ is ListTags && TagAction::Wait@ is Wait,
{
}

} // verus!
