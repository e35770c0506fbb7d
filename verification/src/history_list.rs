//! The list of deployments: what is shown of each, and what can be done with it.

use vstd::prelude::*;
use crate::text;

verus! {

/// A deployment: an image that is on this machine, or could be.
#[derive(Debug, Clone, PartialEq, Eq)]
pub struct MockDeployment {
    pub id: String,
    /// `current`, `staged`, `previous`, `archived` or `remote`.
    pub state: String,
    pub title: String,
    pub image: String,
    pub tag: String,
    pub digest: String,
    pub deployed: String,
    pub deployed_full: String,
    pub size: String,
    pub kernel: String,
    pub package_count: u32,
    pub signer: String,
    pub pinned: bool,
}

/// The deployments of this machine.
pub open spec fn known_deployments(known: Option<Vec<MockDeployment>>) -> Seq<MockDeployment> {
    match known {
        Some(v) => v@,
        None => Seq::empty(),
    }
}

/// The deployments of this machine; none where they cannot be read.
pub fn get_sample_deployments(known: Option<Vec<MockDeployment>>) -> (r: Vec<MockDeployment>)
    ensures
        r@ == known_deployments(known),
{
    match known {
        Some(v) => v,
        None => Vec::new(),
    }
}

/// What can be done with a deployment.
#[derive(Debug, Clone, Copy, PartialEq, Eq, Structural)]
pub enum RowAction {
    /// Pull the image from the registry.
    Pull,
    RollBack,
    SetDefaultBoot,
    ViewChangelog,
}

/// A word beside the title, and the class it is shown in.
#[derive(Debug, Clone, Copy, PartialEq, Eq)]
pub struct Pill {
    pub label: &'static str,
    pub class: &'static str,
}

/// A pill, taken by its characters.
pub type PillModel = (Seq<char>, Seq<char>);

pub open spec fn pill_views(v: Seq<Pill>) -> Seq<PillModel> {
    Seq::new(v.len(), |i: int| (v[i].label@, v[i].class@))
}

/// A row of details: what it is, and its value.
#[derive(Debug)]
pub struct Detail {
    pub label: &'static str,
    pub value: String,
}

pub open spec fn detail_views(v: Seq<Detail>) -> Seq<(Seq<char>, Seq<char>)> {
    Seq::new(v.len(), |i: int| (v[i].label@, v[i].value@))
}

/// What is shown of a deployment.
#[derive(Debug)]
pub struct HistoryRow {
    pub id: String,
    pub indicator: &'static str,
    pub title: String,
    pub pills: Vec<Pill>,
    pub subtitle: String,
    /// What the button that pins says; there is none for a remote image.
    pub pin_tooltip: Option<&'static str>,
    /// The button beside the title.
    pub quick_action: Option<RowAction>,
    pub expanded: bool,
    pub chevron_icon: &'static str,
    pub chevron_label: &'static str,
    /// What is sent when the row is to be opened or closed.
    pub expand_key: String,
    pub details: Vec<Detail>,
    pub actions: Vec<RowAction>,
}

/// What is shown of a deployment, taken by its characters.
pub struct RowModel {
    pub id: Seq<char>,
    pub indicator: Seq<char>,
    pub title: Seq<char>,
    pub pills: Seq<PillModel>,
    pub subtitle: Seq<char>,
    pub pin_tooltip: Option<Seq<char>>,
    pub quick_action: Option<RowAction>,
    pub expanded: bool,
    pub chevron_icon: Seq<char>,
    pub chevron_label: Seq<char>,
    pub expand_key: Seq<char>,
    pub details: Seq<(Seq<char>, Seq<char>)>,
    pub actions: Seq<RowAction>,
}

impl View for HistoryRow {
    type V = RowModel;

    open spec fn view(&self) -> RowModel {
        RowModel {
            id: self.id@,
            indicator: self.indicator@,
            title: self.title@,
            pills: pill_views(self.pills@),
            subtitle: self.subtitle@,
            pin_tooltip: match self.pin_tooltip {
                Some(s) => Some(s@),
                None => None,
            },
            quick_action: self.quick_action,
            expanded: self.expanded,
            chevron_icon: self.chevron_icon@,
            chevron_label: self.chevron_label@,
            expand_key: self.expand_key@,
            details: detail_views(self.details@),
            actions: self.actions@,
        }
    }
}

/// The class of the mark in front of a deployment.
pub open spec fn indicator_class(state: Seq<char>) -> Seq<char> {
    if state == "current"@ {
        "deploy-indicator-current"@
    } else if state == "staged"@ || state == "remote"@ {
        "deploy-indicator-staged"@
    } else {
        "deploy-indicator-archive"@
    }
}

/// The word for a state, where it has one.
pub open spec fn state_pill(state: Seq<char>) -> Seq<PillModel> {
    if state == "current"@ {
        seq![("Booted"@, "success"@)]
    } else if state == "staged"@ {
        seq![("Staged"@, "accent"@)]
    } else if state == "remote"@ {
        seq![("Remote"@, "accent"@)]
    } else {
        Seq::empty()
    }
}

/// The words beside the title.
pub open spec fn pills_of(d: MockDeployment) -> Seq<PillModel> {
    if d.pinned {
        state_pill(d.state@).push(("Pinned"@, "warning"@))
    } else {
        state_pill(d.state@)
    }
}

/// The line below the title: the image, the beginning of its digest, and when
/// it was deployed.
pub open spec fn subtitle_of(d: MockDeployment) -> Seq<char> {
    d.image@ + ":"@ + d.tag@ + "  ·  "@ + text::byte_prefix(d.digest@, 12) + "…  ·  "@
        + d.deployed@
}

/// A deployment that can be gone back to: neither booted nor about to be, and
/// on this machine.
pub open spec fn can_roll_back(state: Seq<char>) -> bool {
    state != "current"@ && state != "staged"@ && state != "remote"@
}

pub open spec fn quick_action_of(state: Seq<char>) -> Option<RowAction> {
    if state == "remote"@ {
        Some(RowAction::Pull)
    } else if can_roll_back(state) {
        Some(RowAction::RollBack)
    } else {
        None
    }
}

/// The buttons below the details.
pub open spec fn actions_of(state: Seq<char>) -> Seq<RowAction> {
    let first = match quick_action_of(state) {
        Some(a) => seq![a],
        None => Seq::empty(),
    };
    let second = if state != "current"@ && state != "remote"@ {
        first.push(RowAction::SetDefaultBoot)
    } else {
        first
    };
    second.push(RowAction::ViewChangelog)
}

/// The details of a deployment.
pub open spec fn details_of(d: MockDeployment) -> Seq<(Seq<char>, Seq<char>)> {
    seq![
        ("Image"@, d.image@),
        ("Tag"@, d.tag@),
        ("Digest"@, d.digest@),
        ("Deployed"@, d.deployed_full@),
        ("Kernel"@, d.kernel@),
        ("Packages"@, text::decimal(d.package_count as nat) + " installed"@),
        ("Signature"@, "✓ Verified  ·  "@ + d.signer@),
    ]
}

/// What is shown of a deployment, where the one with the identifier
/// `expanded_id` is open.
pub open spec fn row_of(d: MockDeployment, expanded_id: Option<Seq<char>>) -> RowModel {
    let open = expanded_id == Some(d.id@);
    RowModel {
        id: d.id@,
        indicator: indicator_class(d.state@),
        title: d.title@,
        pills: pills_of(d),
        subtitle: subtitle_of(d),
        pin_tooltip: if d.state@ == "remote"@ {
            None
        } else if d.pinned {
            Some("Unpin"@)
        } else {
            Some("Pin"@)
        },
        quick_action: quick_action_of(d.state@),
        expanded: open,
        chevron_icon: if open {
            "go-up-symbolic"@
        } else {
            "go-down-symbolic"@
        },
        chevron_label: if open {
            "Hide details"@
        } else {
            "Show details"@
        },
        expand_key: "expand:"@ + d.id@,
        details: details_of(d),
        actions: actions_of(d.state@),
    }
}

proof fn lemma_states_differ()
    ensures
        "current"@ != "staged"@,
        "current"@ != "remote"@,
        "staged"@ != "remote"@,
{
    reveal_strlit("current");
    reveal_strlit("staged");
    reveal_strlit("remote");
    assert("current"@.len() == 7);
    assert("staged"@.len() == 6);
    assert("remote"@.len() == 6);
    assert("staged"@[0] == 's');
    assert("remote"@[0] == 'r');
}

fn indicator(state: &str) -> (r: &'static str)
    ensures
        r@ == indicator_class(state@),
{
    if text::eq(state, "current") {
        "deploy-indicator-current"
    } else if text::eq(state, "staged") || text::eq(state, "remote") {
        "deploy-indicator-staged"
    } else {
        "deploy-indicator-archive"
    }
}

fn pills(d: &MockDeployment) -> (r: Vec<Pill>)
    ensures
        pill_views(r@) == pills_of(*d),
{
    let state = d.state.as_str();
    let mut v: Vec<Pill> = Vec::new();
    if text::eq(state, "current") {
        v.push(Pill { label: "Booted", class: "success" });
    } else if text::eq(state, "staged") {
        v.push(Pill { label: "Staged", class: "accent" });
    } else if text::eq(state, "remote") {
        v.push(Pill { label: "Remote", class: "accent" });
    }
    assert(pill_views(v@) =~= state_pill(d.state@));
    let ghost before = v@;
    if d.pinned {
        v.push(Pill { label: "Pinned", class: "warning" });
        assert(pill_views(v@) =~= pill_views(before).push(("Pinned"@, "warning"@)));
    }
    v
}

fn subtitle(d: &MockDeployment) -> (r: String)
    ensures
        r@ == subtitle_of(*d),
{
    let mut s = d.image.clone();
    s.append(":");
    s.append(d.tag.as_str());
    s.append("  ·  ");
    s.append(text::first_bytes(d.digest.as_str(), 12));
    s.append("…  ·  ");
    s.append(d.deployed.as_str());
    s
}

fn quick_action(state: &str) -> (r: Option<RowAction>)
    ensures
        r == quick_action_of(state@),
{
    if text::eq(state, "remote") {
        Some(RowAction::Pull)
    } else if !text::eq(state, "current") && !text::eq(state, "staged") {
        Some(RowAction::RollBack)
    } else {
        None
    }
}

fn actions(state: &str) -> (r: Vec<RowAction>)
    ensures
        r@ == actions_of(state@),
{
    let mut v: Vec<RowAction> = Vec::new();
    if let Some(a) = quick_action(state) {
        v.push(a);
        assert(v@ =~= seq![a]);
    }
    if !text::eq(state, "current") && !text::eq(state, "remote") {
        v.push(RowAction::SetDefaultBoot);
    }
    v.push(RowAction::ViewChangelog);
    assert(v@ =~= actions_of(state@));
    v
}

fn details(d: &MockDeployment) -> (r: Vec<Detail>)
    ensures
        detail_views(r@) == details_of(*d),
{
    let mut packages = String::new();
    text::push_decimal(&mut packages, d.package_count as u64);
    packages.append(" installed");
    let mut signature = "✓ Verified  ·  ".to_owned();
    signature.append(d.signer.as_str());
    let v = vec![
        Detail { label: "Image", value: d.image.clone() },
        Detail { label: "Tag", value: d.tag.clone() },
        Detail { label: "Digest", value: d.digest.clone() },
        Detail { label: "Deployed", value: d.deployed_full.clone() },
        Detail { label: "Kernel", value: d.kernel.clone() },
        Detail { label: "Packages", value: packages },
        Detail { label: "Signature", value: signature },
    ];
    proof {
        assert(packages@ =~= text::decimal(d.package_count as nat) + " installed"@);
        assert(detail_views(v@) =~= details_of(*d));
    }
    v
}

/// What is shown of a deployment.
pub fn history_row(d: &MockDeployment, expanded_id: Option<&str>) -> (r: HistoryRow)
    ensures
        r@ == row_of(
            *d,
            match expanded_id {
                Some(s) => Some(s@),
                None => None,
            },
        ),
{
    let state = d.state.as_str();
    let expanded = match expanded_id {
        Some(id) => text::eq(id, d.id.as_str()),
        None => false,
    };
    let mut expand_key = "expand:".to_owned();
    expand_key.append(d.id.as_str());
    HistoryRow {
        id: d.id.clone(),
        indicator: indicator(state),
        title: d.title.clone(),
        pills: pills(d),
        subtitle: subtitle(d),
        pin_tooltip: if text::eq(state, "remote") {
            None
        } else if d.pinned {
            Some("Unpin")
        } else {
            Some("Pin")
        },
        quick_action: quick_action(state),
        expanded,
        chevron_icon: if expanded {
            "go-up-symbolic"
        } else {
            "go-down-symbolic"
        },
        chevron_label: if expanded {
            "Hide details"
        } else {
            "Show details"
        },
        expand_key,
        details: details(d),
        actions: actions(state),
    }
}

/// Rows, each taken by its view.
pub open spec fn row_views(v: Seq<HistoryRow>) -> Seq<RowModel> {
    Seq::new(v.len(), |i: int| v[i]@)
}

/// The rows of the list.
pub open spec fn rows_of(deployments: Seq<MockDeployment>, id: Option<Seq<char>>) -> Seq<RowModel> {
    Seq::new(deployments.len(), |i: int| row_of(deployments[i], id))
}

/// The list: a row for each deployment, in their order.
pub fn rebuild_history_list(
    deployments: &Vec<MockDeployment>,
    expanded_id: Option<&str>,
) -> (r: Vec<HistoryRow>)
    ensures
        row_views(r@) == rows_of(
            deployments@,
            match expanded_id {
                Some(s) => Some(s@),
                None => None,
            },
        ),
{
    let mut out: Vec<HistoryRow> = Vec::new();
    let mut i: usize = 0;
    while i < deployments.len()
        invariant
            i <= deployments@.len(),
            out@.len() == i,
            forall|k: int|
                0 <= k < i ==> (#[trigger] out@[k])@ == row_of(
                    deployments@[k],
                    match expanded_id {
                        Some(s) => Some(s@),
                        None => None,
                    },
                ),
        decreases deployments@.len() - i,
    {
        out.push(history_row(&deployments[i], expanded_id));
        i += 1;
    }
    assert(row_views(out@) =~= rows_of(
        deployments@,
        match expanded_id {
            Some(s) => Some(s@),
            None => None,
        },
    ));
    out
}

// ---------------------------------------------------------------------------
// Opening and pinning

/// What a key asks for.
pub enum KeyModel {
    /// To have this row open, and no other; or none.
    Open(Option<Seq<char>>),
    /// To pin or unpin the deployment at this place.
    Pin(int),
    Nothing,
}

/// Where the first deployment with this identifier stands.
pub open spec fn first_with(deployments: Seq<MockDeployment>, id: Seq<char>) -> Option<int>
    decreases deployments.len(),
{
    if deployments.len() == 0 {
        None
    } else {
        match first_with(deployments.drop_last(), id) {
            Some(i) => Some(i),
            None => if deployments.last().id@ == id {
                Some(deployments.len() - 1)
            } else {
                None
            },
        }
    }
}

/// What a key asks for: one that opens a row closes it where it is open; any
/// other is the identifier of a deployment, to pin or unpin it.
pub open spec fn asked_by(
    key: Seq<char>,
    deployments: Seq<MockDeployment>,
    expanded: Option<Seq<char>>,
) -> KeyModel {
    if text::begins_with(key, "expand:"@) {
        let id = key.skip("expand:"@.len() as int);
        KeyModel::Open(
            if expanded == Some(id) {
                None
            } else {
                Some(id)
            },
        )
    } else {
        match first_with(deployments, key) {
            Some(i) => KeyModel::Pin(i),
            None => KeyModel::Nothing,
        }
    }
}

/// What a key asks for.
#[derive(Debug, Clone, PartialEq, Eq)]
pub enum KeyAction {
    Open(Option<String>),
    Pin(usize),
    Nothing,
}

impl View for KeyAction {
    type V = KeyModel;

    open spec fn view(&self) -> KeyModel {
        match *self {
            KeyAction::Open(Some(id)) => KeyModel::Open(Some(id@)),
            KeyAction::Open(None) => KeyModel::Open(None),
            KeyAction::Pin(i) => KeyModel::Pin(i as int),
            KeyAction::Nothing => KeyModel::Nothing,
        }
    }
}

proof fn lemma_first_with_stays(deployments: Seq<MockDeployment>, id: Seq<char>, k: int)
    requires
        0 <= k <= deployments.len(),
        first_with(deployments.take(k), id) is Some,
    ensures
        first_with(deployments, id) == first_with(deployments.take(k), id),
    decreases deployments.len() - k,
{
    if k < deployments.len() {
        assert(deployments.take(k + 1).drop_last() =~= deployments.take(k));
        lemma_first_with_stays(deployments, id, k + 1);
    } else {
        assert(deployments.take(k) =~= deployments);
    }
}

fn find_deployment(deployments: &Vec<MockDeployment>, id: &str) -> (r: Option<usize>)
    ensures
        match r {
            Some(i) => i < deployments@.len() && first_with(deployments@, id@) == Some(i as int),
            None => first_with(deployments@, id@) is None,
        },
{
    let mut i: usize = 0;
    while i < deployments.len()
        invariant
            i <= deployments@.len(),
            first_with(deployments@.take(i as int), id@) is None,
        decreases deployments@.len() - i,
    {
        assert(deployments@.take(i + 1).drop_last() =~= deployments@.take(i as int));
        if text::eq(deployments[i].id.as_str(), id) {
            proof {
                lemma_first_with_stays(deployments@, id@, i + 1);
            }
            return Some(i);
        }
        i += 1;
    }
    assert(deployments@.take(deployments@.len() as int) =~= deployments@);
    None
}

/// What a key asks for, given the deployments and the row that is open. The
/// place of a deployment is one in the list.
pub fn read_key(key: &str, deployments: &Vec<MockDeployment>, expanded_id: Option<&str>) -> (r:
    KeyAction)
    ensures
        r@ == asked_by(
            key@,
            deployments@,
            match expanded_id {
                Some(s) => Some(s@),
                None => None,
            },
        ),
        r matches KeyAction::Pin(i) ==> i < deployments@.len(),
{
    match text::strip_prefix(key, "expand:") {
        Some(id) => {
            let is_open = match expanded_id {
                Some(open_id) => text::eq(open_id, id),
                None => false,
            };
            if is_open {
                KeyAction::Open(None)
            } else {
                KeyAction::Open(Some(id.to_owned()))
            }
        },
        None => match find_deployment(deployments, key) {
            Some(i) => KeyAction::Pin(i),
            None => KeyAction::Nothing,
        },
    }
}

// ---------------------------------------------------------------------------
// Laws

/// The booted deployment is never offered to roll back to, nor to boot by
/// default, and never to pull; a remote one can only be pulled.
pub proof fn law_actions_fit_the_state(state: Seq<char>)
    ensures
        actions_of(state).contains(RowAction::ViewChangelog),
        state == "current"@ ==> actions_of(state) == seq![RowAction::ViewChangelog],
        state == "remote"@ ==> actions_of(state) == seq![RowAction::Pull, RowAction::ViewChangelog],
        state == "staged"@ ==> actions_of(state) == seq![
            RowAction::SetDefaultBoot,
            RowAction::ViewChangelog,
        ],
        can_roll_back(state) ==> actions_of(state) == seq![
            RowAction::RollBack,
            RowAction::SetDefaultBoot,
            RowAction::ViewChangelog,
        ],
{
    lemma_states_differ();
    let all = actions_of(state);
    assert(all[all.len() - 1] == RowAction::ViewChangelog);
    assert(state == "current"@ ==> all =~= seq![RowAction::ViewChangelog]);
    assert(state == "remote"@ ==> all =~= seq![RowAction::Pull, RowAction::ViewChangelog]);
    assert(state == "staged"@ ==> all =~= seq![
        RowAction::SetDefaultBoot,
        RowAction::ViewChangelog,
    ]);
    assert(can_roll_back(state) ==> all =~= seq![
        RowAction::RollBack,
        RowAction::SetDefaultBoot,
        RowAction::ViewChangelog,
    ]);
}

/// The key of a row opens the row, or closes it where it is open.
pub proof fn law_key_opens_its_row(
    d: MockDeployment,
    deployments: Seq<MockDeployment>,
    id: Option<Seq<char>>,
)
    ensures
        ({
            let row = row_of(d, id);
            asked_by(row.expand_key, deployments, id) == KeyModel::Open(
                if row.expanded {
                    None
                } else {
                    Some(d.id@)
                },
            )
        }),
{
    let key = row_of(d, id).expand_key;
    assert(key.take("expand:"@.len() as int) =~= "expand:"@);
    assert(key.skip("expand:"@.len() as int) =~= d.id@);
    assert(key.subrange(0, "expand:"@.len() as int) =~= "expand:"@);
}

/// Of deployments with different identifiers at most one is open.
pub proof fn law_one_row_is_open(a: MockDeployment, b: MockDeployment, id: Option<Seq<char>>)
    requires
        row_of(a, id).expanded,
        row_of(b, id).expanded,
    ensures
        a.id@ == b.id@,
{
}

/// What a row shows of its deployment: its own title, image, tag and times, and
/// the states by their words: the booted one, a staged one, a remote one; and
/// whether it is pinned.
pub proof fn law_rows_show_their_deployment(d: MockDeployment, id: Option<Seq<char>>)
    ensures
        ({
            let row = row_of(d, id);
            &&& row.id == d.id@ && row.title == d.title@
            &&& row.expanded <==> id == Some(d.id@)
            &&& text::begins_with(row.subtitle, d.image@ + ":"@ + d.tag@)
            &&& text::ends_in(row.subtitle, d.deployed@)
            &&& row.details.contains(("Image"@, d.image@))
            &&& row.details.contains(("Tag"@, d.tag@))
            &&& row.details.contains(("Digest"@, d.digest@))
            &&& row.details.contains(("Deployed"@, d.deployed_full@))
            &&& row.details.contains(("Kernel"@, d.kernel@))
            &&& row.details.contains(
                ("Packages"@, text::decimal(d.package_count as nat) + " installed"@),
            )
            &&& row.details.contains(("Signature"@, "✓ Verified  ·  "@ + d.signer@))
            &&& row.details.len() == 7
            &&& d.state@ == "current"@ ==> row.pills.contains(("Booted"@, "success"@))
                && row.indicator == "deploy-indicator-current"@
            &&& d.state@ == "staged"@ ==> row.pills.contains(("Staged"@, "accent"@))
                && row.indicator == "deploy-indicator-staged"@
            &&& d.state@ == "remote"@ ==> row.pills.contains(("Remote"@, "accent"@))
                && row.pin_tooltip is None && row.indicator == "deploy-indicator-staged"@
            &&& d.state@ != "current"@ && d.state@ != "staged"@ && d.state@ != "remote"@
                ==> row.indicator == "deploy-indicator-archive"@
            &&& row.pills.contains(("Pinned"@, "warning"@)) <==> d.pinned
            &&& d.state@ != "remote"@ ==> row.pin_tooltip == Some(
                if d.pinned {
                    "Unpin"@
                } else {
                    "Pin"@
                },
            )
            &&& row.chevron_label == (if row.expanded {
                "Hide details"@
            } else {
                "Show details"@
            })
        }),
{
    lemma_states_differ();
    let row = row_of(d, id);
    let start = d.image@ + ":"@ + d.tag@;
    assert(row.subtitle.subrange(0, start.len() as int) =~= start);
    assert(row.subtitle.take(start.len() as int) =~= start);
    let end = d.deployed@;
    let s = row.subtitle;
    assert(s.subrange(s.len() - end.len(), s.len() as int) =~= end);
    assert(s.skip(s.len() - end.len()) =~= end);
    let ds = row.details;
    assert(ds[0] == ("Image"@, d.image@) && ds[1] == ("Tag"@, d.tag@) && ds[2] == (
        "Digest"@,
        d.digest@,
    ) && ds[3] == ("Deployed"@, d.deployed_full@) && ds[4] == ("Kernel"@, d.kernel@));
    assert(ds[5].0 == "Packages"@ && ds[6].0 == "Signature"@);
    let base = state_pill(d.state@);
    reveal_strlit("Pinned");
    reveal_strlit("Booted");
    reveal_strlit("Staged");
    reveal_strlit("Remote");
    assert("Pinned"@[0] == 'P' && "Booted"@[0] == 'B' && "Staged"@[0] == 'S' && "Remote"@[0]
        == 'R');
    if base.len() > 0 {
        assert(row.pills[0] == base[0]);
    }
    if d.pinned {
        assert(row.pills[base.len() as int] == ("Pinned"@, "warning"@));
    } else if row.pills.contains(("Pinned"@, "warning"@)) {
        let i = choose|i: int| 0 <= i < row.pills.len() && row.pills[i] == ("Pinned"@, "warning"@);
        assert(i == 0);
    }
}

/// What is beside the title of a row: a remote image can be pulled, and one on
/// this machine that is neither booted nor staged can be rolled back to; the
/// booted and the staged one have nothing there.
pub proof fn law_quick_actions(state: Seq<char>)
    ensures
        quick_action_of("remote"@) == Some(RowAction::Pull),
        quick_action_of("current"@) is None,
        quick_action_of("staged"@) is None,
        state != "remote"@ && state != "current"@ && state != "staged"@ ==> quick_action_of(state)
            == Some(RowAction::RollBack) && can_roll_back(state),
        !can_roll_back("remote"@) && !can_roll_back("current"@) && !can_roll_back("staged"@),
{
    lemma_states_differ();
}

/// A key that is an identifier pins the first deployment that has it, and one that
/// none has does nothing.
pub proof fn law_key_pins_its_deployment(
    key: Seq<char>,
    deployments: Seq<MockDeployment>,
    id: Option<Seq<char>>,
    k: int,
)
    requires
        key.len() < 7 || key[0] != 'e',
    ensures
        0 <= k < deployments.len() && deployments[k].id@ == key && (forall|i: int|
            0 <= i < k ==> (#[trigger] deployments[i]).id@ != key) ==> asked_by(
            key,
            deployments,
            id,
        ) == KeyModel::Pin(k),
        (forall|i: int| 0 <= i < deployments.len() ==> (#[trigger] deployments[i]).id@ != key)
            ==> asked_by(key, deployments, id) is Nothing,
{
    reveal_strlit("expand:");
    assert("expand:"@.len() == 7 && "expand:"@[0] == 'e');
    assert(!text::begins_with(key, "expand:"@)) by {
        if text::begins_with(key, "expand:"@) {
            assert(key.take(7)[0] == key[0]);
        }
    }
    if forall|i: int| 0 <= i < deployments.len() ==> (#[trigger] deployments[i]).id@ != key {
        lemma_none_with(deployments, key);
    }
    if 0 <= k < deployments.len() && deployments[k].id@ == key && (forall|i: int|
        0 <= i < k ==> (#[trigger] deployments[i]).id@ != key) {
        let upto = deployments.take(k);
        assert forall|i: int| 0 <= i < upto.len() implies (#[trigger] upto[i]).id@ != key by {
            assert(upto[i] == deployments[i]);
        }
        lemma_none_with(upto, key);
        assert(deployments.take(k + 1).drop_last() =~= upto);
        assert(deployments.take(k + 1).last() == deployments[k]);
        lemma_first_with_stays(deployments, key, k + 1);
    }
}

proof fn lemma_none_with(deployments: Seq<MockDeployment>, id: Seq<char>)
    requires
        forall|i: int| 0 <= i < deployments.len() ==> (#[trigger] deployments[i]).id@ != id,
    ensures
        first_with(deployments, id) is None,
    decreases deployments.len(),
{
    if deployments.len() > 0 {
        let front = deployments.drop_last();
        assert(deployments[deployments.len() - 1].id@ != id);
        assert forall|i: int| 0 <= i < front.len() implies (#[trigger] front[i]).id@ != id by {
            assert(deployments[i].id@ != id);
        }
        lemma_none_with(front, id);
    }
}

/// There is a row for each deployment, in their order, each of its own; what is
/// known of the deployments is the list, and nothing else.
pub proof fn law_rows_of_the_list(
    deployments: Seq<MockDeployment>,
    id: Option<Seq<char>>,
    k: int,
    v: Vec<MockDeployment>,
)
    ensures
        rows_of(deployments, id).len() == deployments.len(),
        0 <= k < deployments.len() ==> rows_of(deployments, id)[k].title == deployments[k].title@
            && rows_of(deployments, id)[k].id == deployments[k].id@ && (rows_of(
            deployments,
            id,
        )[k].expanded <==> id == Some(deployments[k].id@)),
        known_deployments(Some(v)) == v@,
        known_deployments(None).len() == 0,
{
}

/// The line below the title: the image and its tag, the first twelve characters of
/// the digest, and when it was deployed.
pub proof fn law_line_below_the_title(d: MockDeployment)
    requires
        forall|i: int| 0 <= i < d.digest@.len() ==> (#[trigger] d.digest@[i] as u32) < 128,
        d.digest@.len() >= 12,
    ensures
        subtitle_of(d) == d.image@ + ":"@ + d.tag@ + "  ·  "@ + d.digest@.take(12) + "…  ·  "@
            + d.deployed@,
{
    text::law_bytes_of_ascii(d.digest@, 12);
}

/// What is told of a row is what it holds.
pub proof fn law_rows_hold_what_is_told(r: HistoryRow, k: int, id: String, i: usize)
    ensures
        r@.id == r.id@ && r@.title == r.title@ && r@.subtitle == r.subtitle@,
        r@.indicator == r.indicator@ && r@.expand_key == r.expand_key@,
        r@.chevron_icon == r.chevron_icon@ && r@.chevron_label == r.chevron_label@,
        r@.expanded == r.expanded && r@.quick_action == r.quick_action && r@.actions == r.actions@,
        r.pin_tooltip matches Some(s) ==> r@.pin_tooltip == Some(s@),
        r.pin_tooltip is None ==> r@.pin_tooltip is None,
        r@.pills.len() == r.pills@.len() && r@.details.len() == r.details@.len(),
        0 <= k < r.pills@.len() ==> r@.pills[k] == (r.pills@[k].label@, r.pills@[k].class@),
        0 <= k < r.details@.len() ==> r@.details[k] == (
            r.details@[k].label@,
            r.details@[k].value@,
        ),
        KeyAction::Open(Some(id))@ == KeyModel::Open(Some(id@)),
        KeyAction::Open(None)@ == KeyModel::Open(None),
        KeyAction::Pin(i)@ == KeyModel::Pin(i as int),
        KeyAction::Nothing@ is Nothing,
{
}

} // verus!
