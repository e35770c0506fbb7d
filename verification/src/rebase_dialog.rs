//! The dialog in which a user switches to another stream, variant or build:
//! what it shows, what it asks, and what it does.

use vstd::prelude::*;
use crate::bootc_progress::{BootcProgress, ProgressModel};
use crate::date;
use crate::date::Date;
use crate::rebase_target;
use crate::registry_client::client;
use crate::registry_client::models::ImageVersion;
use crate::service::{FamilyInfo, FeatureInfo, ImageRef};
use crate::text;

verus! {

// ---------------------------------------------------------------------------
// Labels

/// A label in which every underscore is written twice.
pub open spec fn escaped(label: Seq<char>) -> Seq<char>
    decreases label.len(),
{
    if label.len() == 0 {
        Seq::empty()
    } else {
        let front = escaped(label.drop_last());
        if label.last() == '_' {
            front.push('_').push('_')
        } else {
            front.push(label.last())
        }
    }
}

/// A label with its first character as its access key.
pub open spec fn keyed(label: Seq<char>) -> Seq<char> {
    seq!['_'] + escaped(label)
}

/// Mark the first character of a button label as its access key. An underscore
/// in the label is escaped, or it would become another.
pub fn with_access_key(label: &str) -> (r: String)
    ensures
        r@ == keyed(label@),
{
    let cs = text::chars_of(label);
    let mut out = String::new();
    out.push('_');
    let mut i: usize = 0;
    assert(out@ =~= seq!['_'] + escaped(label@.take(0)));
    while i < cs.len()
        invariant
            i <= cs@.len(),
            cs@ == label@,
            out@ == seq!['_'] + escaped(label@.take(i as int)),
        decreases cs@.len() - i,
    {
        let ghost front = escaped(label@.take(i as int));
        proof {
            assert(label@.take(i + 1).drop_last() =~= label@.take(i as int));
            assert(label@.take(i + 1).last() == label@[i as int]);
        }
        if cs[i] == '_' {
            out.push('_');
            out.push('_');
            assert(seq!['_'] + front.push('_').push('_') =~= (seq!['_'] + front).push('_').push(
                '_',
            ));
        } else {
            out.push(cs[i]);
            assert(seq!['_'] + front.push(label@[i as int]) =~= (seq!['_'] + front).push(
                label@[i as int],
            ));
        }
        i += 1;
    }
    assert(label@.take(label@.len() as int) =~= label@);
    out
}

/// Different labels stay different with an access key.
pub proof fn law_access_key_loses_nothing(a: Seq<char>, b: Seq<char>)
    requires
        escaped(a) == escaped(b),
    ensures
        a == b,
    decreases a.len(),
{
    if a.len() == 0 {
        if b.len() > 0 {
            assert(escaped(b).len() > 0);
        }
        assert(a =~= b);
    } else if b.len() == 0 {
        assert(escaped(a).len() > 0);
    } else {
        let fa = escaped(a.drop_last());
        let fb = escaped(b.drop_last());
        assert(escaped(a).last() == a.last());
        assert(escaped(b).last() == b.last());
        if a.last() == '_' {
            assert(escaped(a).drop_last().drop_last() =~= fa);
            assert(escaped(b).drop_last().drop_last() =~= fb);
        } else {
            assert(escaped(a).drop_last() =~= fa);
            assert(escaped(b).drop_last() =~= fb);
        }
        law_access_key_loses_nothing(a.drop_last(), b.drop_last());
        assert(a.drop_last().push(a.last()) =~= a);
        assert(b.drop_last().push(b.last()) =~= b);
    }
}

// ---------------------------------------------------------------------------
// The versions to choose from

/// How many versions are fetched when the dialog opens, and on request.
pub const INITIAL_FETCH_COUNT: usize = 12;

pub const EXPANDED_FETCH_COUNT: usize = 120;

/// After how many milliseconds a fetch counts as failed.
pub const FETCH_TIMEOUT_MS: u64 = 90_000;

/// Whether older builds can still be asked for.
pub open spec fn has_older(max_versions: int) -> bool {
    max_versions < 120
}

/// Whether older builds can still be asked for.
pub fn offers_older_builds(max_versions: usize) -> (r: bool)
    ensures
        r == has_older(max_versions as int),
{
    max_versions < EXPANDED_FETCH_COUNT
}

/// The versions whose name holds `variant`.
pub open spec fn of_variant(all: Seq<ImageVersion>, variant: Seq<char>) -> Seq<ImageVersion>
    decreases all.len(),
{
    if all.len() == 0 {
        Seq::empty()
    } else {
        let front = of_variant(all.drop_last(), variant);
        if text::occurs(all.last().version@, variant) {
            front.push(all.last())
        } else {
            front
        }
    }
}

/// What is shown for a variant: everything where none is asked for.
pub open spec fn shown_versions(all: Seq<ImageVersion>, variant: Seq<char>) -> Seq<ImageVersion> {
    if variant.len() == 0 || variant == "default"@ {
        all
    } else {
        of_variant(all, variant)
    }
}

/// The versions of the variant that is asked for.
pub fn retain_variant(all: Vec<ImageVersion>, variant: &str) -> (r: Vec<ImageVersion>)
    ensures
        r@ == shown_versions(all@, variant@),
{
    if variant.is_empty() || text::eq(variant, "default") {
        return all;
    }
    let ghost whole = all@;
    let mut out: Vec<ImageVersion> = Vec::new();
    for v in it: all
        invariant
            it.seq() == whole,
            out@ == of_variant(whole.take(it.index()), variant@),
    {
        proof {
            assert(whole.take(it.index() + 1).drop_last() =~= whole.take(it.index()));
            assert(whole.take(it.index() + 1).last() == v);
        }
        if text::contains(v.version.as_str(), variant) {
            out.push(v);
        }
    }
    assert(whole.take(whole.len() as int) =~= whole);
    out
}

/// What a fetch came to.
#[derive(Debug)]
pub enum FetchResult {
    Loaded(Vec<ImageVersion>),
    Failed(String),
    DetectFailed,
}

/// The fetch came to `r`.
pub open spec fn came_to(
    r: FetchResult,
    image_known: bool,
    listed: Result<Vec<ImageVersion>, String>,
    variant: Seq<char>,
) -> bool {
    match r {
        FetchResult::DetectFailed => !image_known,
        FetchResult::Loaded(v) => image_known && (listed matches Ok(all) && v@ == shown_versions(
            all@,
            variant,
        )),
        FetchResult::Failed(e) => image_known && (listed matches Err(why) && e == why),
    }
}

/// What a fetch came to, from whether the image is known and what the list of
/// its versions is.
pub fn fetch_result(
    image_known: bool,
    listed: Result<Vec<ImageVersion>, String>,
    variant: &str,
) -> (r: FetchResult)
    ensures
        came_to(r, image_known, listed, variant@),
{
    if !image_known {
        return FetchResult::DetectFailed;
    }
    match listed {
        Ok(all) => FetchResult::Loaded(retain_variant(all, variant)),
        Err(e) => FetchResult::Failed(e),
    }
}

/// What to do about a fetch.
#[derive(Debug)]
pub enum FetchStep {
    /// Show these versions.
    Show(Vec<ImageVersion>),
    /// Show that it failed, with this description.
    Fail(&'static str),
    /// Look again later.
    Wait,
}

pub open spec fn detect_failed_text() -> Seq<char> {
    "Could not detect the current image. Is bootc installed and managing this system?"@
}

pub open spec fn fetch_failed_text() -> Seq<char> {
    "Check your internet connection and try again."@
}

/// What to do about a fetch, taken by its characters.
pub enum StepModel {
    Show(Vec<ImageVersion>),
    Fail(Seq<char>),
    Wait,
}

/// What to do about a fetch.
pub open spec fn fetch_step(result: Option<FetchResult>, elapsed_ms: int) -> StepModel {
    match result {
        Some(FetchResult::Loaded(v)) => StepModel::Show(v),
        Some(FetchResult::DetectFailed) => StepModel::Fail(detect_failed_text()),
        Some(FetchResult::Failed(_)) => StepModel::Fail(fetch_failed_text()),
        None => if elapsed_ms > 90_000 {
            StepModel::Fail(fetch_failed_text())
        } else {
            StepModel::Wait
        },
    }
}

/// What to do about a fetch that has come to `result`, if it has ended, after
/// `elapsed_ms`. A result counts whenever it comes.
pub fn poll_fetch(result: Option<FetchResult>, elapsed_ms: u64) -> (r: FetchStep)
    ensures
        match fetch_step(result, elapsed_ms as int) {
            StepModel::Show(v) => r == FetchStep::Show(v),
            StepModel::Fail(s) => r matches FetchStep::Fail(t) && t@ == s,
            StepModel::Wait => r is Wait,
        },
{
    match result {
        Some(FetchResult::Loaded(v)) => FetchStep::Show(v),
        Some(FetchResult::DetectFailed) => FetchStep::Fail(
            "Could not detect the current image. Is bootc installed and managing this system?",
        ),
        Some(FetchResult::Failed(_)) => FetchStep::Fail(
            "Check your internet connection and try again.",
        ),
        None => if elapsed_ms > FETCH_TIMEOUT_MS {
            FetchStep::Fail("Check your internet connection and try again.")
        } else {
            FetchStep::Wait
        },
    }
}

/// The generation after a choice was made.
pub open spec fn generation_after(current: int) -> int {
    if current == u64::MAX {
        0
    } else {
        current + 1
    }
}

/// The generation after a choice was made. Only the last of several choices in
/// a row starts a fetch.
pub fn next_generation(current: u64) -> (r: u64)
    ensures
        r == generation_after(current as int),
{
    if current == u64::MAX {
        0
    } else {
        current + 1
    }
}

/// A choice made in `generation` is still the last one.
pub open spec fn is_last(generation: int, current: int) -> bool {
    generation == current
}

/// Whether a choice made in `generation` is still the last one.
pub fn is_latest_choice(generation: u64, current: u64) -> (r: bool)
    ensures
        r == is_last(generation as int, current as int),
{
    generation == current
}

/// What is said below a month without builds.
pub open spec fn hint(is_loading: bool) -> Seq<char> {
    if is_loading {
        "Loading builds…"@
    } else {
        "No builds in this month"@
    }
}

/// What is said below a month without builds.
pub fn empty_month_hint(is_loading: bool) -> (r: &'static str)
    ensures
        r@ == hint(is_loading),
{
    if is_loading {
        "Loading builds…"
    } else {
        "No builds in this month"
    }
}

/// The day of the version that is taken for the installed one.
pub open spec fn installed_day(versions: Seq<ImageVersion>) -> Option<Date> {
    if versions.len() > 0 {
        Some(versions[0].date)
    } else {
        None
    }
}

/// The date of the version that is taken for the installed one: the newest,
/// which is the first.
pub fn current_date(versions: &Vec<ImageVersion>) -> (r: Option<Date>)
    ensures
        r == installed_day(versions@),
{
    if versions.len() > 0 {
        Some(versions[0].date)
    } else {
        None
    }
}

/// The version of a day: of several on one day, the last that is listed.
pub open spec fn version_on(versions: Seq<ImageVersion>, d: Date) -> Option<ImageVersion>
    decreases versions.len(),
{
    if versions.len() == 0 {
        None
    } else if versions.last().date == d {
        Some(versions.last())
    } else {
        version_on(versions.drop_last(), d)
    }
}

/// The version of a day.
pub fn find_version<'a>(versions: &'a Vec<ImageVersion>, d: &Date) -> (r: Option<&'a ImageVersion>)
    ensures
        match r {
            Some(v) => version_on(versions@, *d) == Some(*v),
            None => version_on(versions@, *d) is None,
        },
{
    let mut i: usize = versions.len();
    assert(versions@.take(versions@.len() as int) =~= versions@);
    while i > 0
        invariant
            i <= versions@.len(),
            version_on(versions@, *d) == version_on(versions@.take(i as int), *d),
        decreases i,
    {
        i -= 1;
        proof {
            assert(versions@.take(i + 1).drop_last() =~= versions@.take(i as int));
            assert(versions@.take(i + 1).last() == versions@[i as int]);
        }
        if versions[i].date == *d {
            return Some(&versions[i]);
        }
    }
    None
}

// ---------------------------------------------------------------------------
// The chosen build

/// What is shown of the chosen build.
#[derive(Debug)]
pub struct Details {
    pub version: String,
    pub kernel: String,
    pub built: String,
    pub commit: String,
}

/// What is shown is of the build.
pub open spec fn shows_build(r: Details, v: ImageVersion) -> bool {
    &&& r.version@ == v.version@
    &&& r.kernel@ == v.kernel@
    &&& r.built@ == date::moment_text(v.created)
    &&& r.commit@ == (if v.revision@.len() == 0 {
        "—"@
    } else {
        v.revision@
    })
}

/// What is shown of a build.
pub fn details(v: &ImageVersion) -> (r: Details)
    requires
        v.created.wf(),
    ensures
        shows_build(r, *v),
{
    Details {
        version: v.version.clone(),
        kernel: v.kernel.clone(),
        built: date::format_moment(&v.created),
        commit: if v.revision.as_str().is_empty() {
            "—".to_owned()
        } else {
            v.revision.clone()
        },
    }
}

/// What the button says of a chosen day, and whether it can be pressed.
pub open spec fn pin_label(d: Date, current: Option<Date>) -> (Seq<char>, bool) {
    if current == Some(d) {
        ("Currently Installed"@, false)
    } else {
        ("Pin to "@ + date::compact_text(d), true)
    }
}

/// What the button says of a chosen day, and whether it can be pressed.
pub fn pin_button(d: &Date, current: Option<Date>) -> (r: (String, bool))
    requires
        d.wf(),
    ensures
        (r.0@, r.1) == pin_label(*d, current),
{
    let is_current = match current {
        Some(c) => c == *d,
        None => false,
    };
    if is_current {
        ("Currently Installed".to_owned(), false)
    } else {
        let mut label = "Pin to ".to_owned();
        let day = date::format_compact(d);
        label.append(day.as_str());
        (label, true)
    }
}

/// A question before a switch, and the reference that a yes leads to.
#[derive(Debug)]
pub struct Question {
    pub heading: String,
    pub body: String,
    pub full_ref: String,
}

/// A question, taken by its characters.
pub struct QuestionModel {
    pub heading: Seq<char>,
    pub body: Seq<char>,
    pub full_ref: Seq<char>,
}

impl View for Question {
    type V = QuestionModel;

    open spec fn view(&self) -> QuestionModel {
        QuestionModel {
            heading: self.heading@,
            body: self.body@,
            full_ref: self.full_ref@,
        }
    }
}

pub open spec fn opt_question(q: Option<Question>) -> Option<QuestionModel> {
    match q {
        Some(x) => Some(x@),
        None => None,
    }
}

/// The question before following a stream.
pub open spec fn stream_question(stream: Seq<char>, full_ref: Seq<char>) -> QuestionModel {
    QuestionModel {
        heading: "Switch to :"@ + stream + "?"@,
        body: "Your system will follow the floating `"@ + stream
            + "` tag and resume receiving automatic updates from it:\n\n"@ + full_ref
            + "\n\nA restart is required and the full image will be re-downloaded."@,
        full_ref,
    }
}

/// The question before pinning to a build, which leads to `target`.
pub open spec fn pin_question(v: ImageVersion, d: Date, target: Seq<char>) -> QuestionModel {
    QuestionModel {
        heading: "Pin to this build?"@,
        body: if target != v.full_ref@ {
            "Your system will be pinned to:\n\n"@ + target
                + "\n\nThis is a different image variant than what you're currently running. A restart is required and the full image will be re-downloaded. Automatic updates pause until you unpin."@
        } else {
            "Your system will be pinned to the "@ + date::long_text(d) + " build (version "@
                + client::stream_or_tag(v.version@)
                + ").\n\nA restart is required and the full image will be re-downloaded. Automatic updates pause until you unpin."@
        },
        full_ref: target,
    }
}

/// The question that the button asks: of the chosen build, where a day is
/// chosen that there is a build of; of the stream, where no day is chosen and
/// there is a stream to switch to.
pub open spec fn question(
    selected: Option<Date>,
    versions: Seq<ImageVersion>,
    family: Option<Seq<char>>,
    features: Seq<Seq<char>>,
    stream: Seq<char>,
    pending: Option<Seq<char>>,
) -> Option<QuestionModel> {
    match selected {
        Some(d) => match version_on(versions, d) {
            Some(v) => Some(
                pin_question(v, d, rebase_target::retargeted(v.full_ref@, family, features)),
            ),
            None => None,
        },
        None => match pending {
            Some(full_ref) => Some(stream_question(stream, full_ref)),
            None => None,
        },
    }
}

fn ask_stream(stream: &str, full_ref: &str) -> (r: Question)
    ensures
        r@ == stream_question(stream@, full_ref@),
{
    let mut heading = "Switch to :".to_owned();
    heading.append(stream);
    heading.append("?");
    let mut body = "Your system will follow the floating `".to_owned();
    body.append(stream);
    body.append("` tag and resume receiving automatic updates from it:\n\n");
    body.append(full_ref);
    body.append("\n\nA restart is required and the full image will be re-downloaded.");
    Question { heading, body, full_ref: full_ref.to_owned() }
}

fn ask_pin(v: &ImageVersion, d: &Date, target: String) -> (r: Question)
    requires
        d.wf(),
    ensures
        r@ == pin_question(*v, *d, target@),
{
    let mut body = String::new();
    if !text::eq(target.as_str(), v.full_ref.as_str()) {
        body.append("Your system will be pinned to:\n\n");
        body.append(target.as_str());
        body.append(
            "\n\nThis is a different image variant than what you're currently running. A restart is required and the full image will be re-downloaded. Automatic updates pause until you unpin.",
        );
        assert(Seq::<char>::empty() + "Your system will be pinned to:\n\n"@
            =~= "Your system will be pinned to:\n\n"@);
    } else {
        let day = date::format_long(d);
        let shown = client::stream_for_tag(v.version.as_str());
        body.append("Your system will be pinned to the ");
        body.append(day.as_str());
        body.append(" build (version ");
        body.append(shown.as_str());
        body.append(
            ").\n\nA restart is required and the full image will be re-downloaded. Automatic updates pause until you unpin.",
        );
        assert(Seq::<char>::empty() + "Your system will be pinned to the "@
            =~= "Your system will be pinned to the "@);
    }
    Question { heading: "Pin to this build?".to_owned(), body, full_ref: target }
}

/// The question that the button asks.
pub fn press_button(
    selected: Option<Date>,
    versions: &Vec<ImageVersion>,
    family: Option<&FamilyInfo>,
    selected_features: &[String],
    stream: &str,
    pending: Option<&str>,
) -> (r: Option<Question>)
    requires
        selected matches Some(d) ==> d.wf(),
    ensures
        opt_question(r) == question(
            selected,
            versions@,
            rebase_target::family_name(family),
            text::views(selected_features@),
            stream@,
            match pending {
                Some(s) => Some(s@),
                None => None,
            },
        ),
{
    match selected {
        Some(d) => match find_version(versions, &d) {
            Some(v) => {
                let target = rebase_target::resolve_target_ref(
                    v.full_ref.as_str(),
                    family,
                    selected_features,
                );
                Some(ask_pin(v, &d, target))
            },
            None => None,
        },
        None => match pending {
            Some(full_ref) => Some(ask_stream(stream, full_ref)),
            None => None,
        },
    }
}

/// The version of the chosen day.
pub open spec fn chosen_version(selected: Option<Date>, versions: Seq<ImageVersion>) -> Option<
    Seq<char>,
> {
    match selected {
        Some(d) => match version_on(versions, d) {
            Some(v) => Some(v.version@),
            None => None,
        },
        None => None,
    }
}

/// The version whose changes are shown: that of the chosen day.
pub fn changelog_version(selected: Option<Date>, versions: &Vec<ImageVersion>) -> (r: Option<
    String,
>)
    ensures
        match r {
            Some(s) => chosen_version(selected, versions@) == Some(s@),
            None => chosen_version(selected, versions@) is None,
        },
{
    match selected {
        Some(d) => match find_version(versions, &d) {
            Some(v) => Some(v.version.clone()),
            None => None,
        },
        None => None,
    }
}

// ---------------------------------------------------------------------------
// The switches of a family

/// The family has a feature of that name.
pub open spec fn has_feature(features: Seq<FeatureInfo>, id: Seq<char>) -> bool {
    exists|i: int| 0 <= i < features.len() && (#[trigger] features[i]).id@ == id
}

fn feature_known(features: &Vec<FeatureInfo>, id: &str) -> (r: bool)
    ensures
        r == has_feature(features@, id@),
{
    let mut i: usize = 0;
    while i < features.len()
        invariant
            i <= features@.len(),
            forall|j: int| 0 <= j < i ==> (#[trigger] features@[j]).id@ != id@,
        decreases features@.len() - i,
    {
        if text::eq(features[i].id.as_str(), id) {
            assert(features@[i as int].id@ == id@);
            return true;
        }
        i += 1;
    }
    false
}

/// Which of the two switches there are for features.
pub open spec fn switches_for(features: Seq<FeatureInfo>) -> (bool, bool) {
    (
        has_feature(features, "dx"@),
        has_feature(features, "nvidia"@) || has_feature(features, "open"@),
    )
}

/// Which of the two switches the family has: developer mode, and drivers.
pub fn switches_of(family: &FamilyInfo) -> (r: (bool, bool))
    ensures
        r == switches_for(family.features@),
{
    (
        feature_known(&family.features, "dx"),
        feature_known(&family.features, "nvidia") || feature_known(&family.features, "open"),
    )
}

/// The headline of the dialog.
pub open spec fn headline(family: Option<Seq<char>>) -> Seq<char> {
    match family {
        Some(name) => "Family: "@ + name,
        None => "Family not recognized"@,
    }
}

/// The headline of the dialog.
pub fn family_headline(family: Option<&FamilyInfo>) -> (r: String)
    ensures
        r@ == headline(rebase_target::family_name(family)),
{
    match family {
        Some(f) => {
            let mut s = "Family: ".to_owned();
            s.append(f.name.as_str());
            s
        },
        None => "Family not recognized".to_owned(),
    }
}

/// What is said of the target before a switch was touched.
pub open spec fn first_target_words(base: Option<Seq<char>>, booted: Option<Seq<char>>) -> Seq<
    char,
> {
    match base {
        Some(b) => match booted {
            Some(i) => i + " (currently booted)"@,
            None => b + " (no extras)"@,
        },
        None => "(this image isn't in the KNOWN_FAMILIES catalogue)"@,
    }
}

/// What is said of the target before a switch was touched.
pub fn initial_target_text(family: Option<&FamilyInfo>, booted: Option<&ImageRef>) -> (r: String)
    ensures
        r@ == first_target_words(
            match family {
                Some(f) => Some(f.base_image@),
                None => None,
            },
            match booted {
                Some(i) => Some(i.image@),
                None => None,
            },
        ),
{
    match family {
        Some(f) => match booted {
            Some(i) => {
                let mut s = i.image.clone();
                s.append(" (currently booted)");
                s
            },
            None => {
                let mut s = f.base_image.clone();
                s.append(" (no extras)");
                s
            },
        },
        None => "(this image isn't in the KNOWN_FAMILIES catalogue)".to_owned(),
    }
}

/// What is said of the target that the switches lead to.
pub open spec fn target_words(image: Option<Seq<char>>) -> Seq<char> {
    match image {
        Some(i) => i + " (resolved)"@,
        None => "(combination doesn't match any published image)"@,
    }
}

/// What is said of the target that the switches lead to.
pub fn target_text(target: Option<&ImageRef>) -> (r: String)
    ensures
        r@ == target_words(
            match target {
                Some(t) => Some(t.image@),
                None => None,
            },
        ),
{
    match target {
        Some(t) => {
            let mut s = t.image.clone();
            s.append(" (resolved)");
            s
        },
        None => "(combination doesn't match any published image)".to_owned(),
    }
}

/// The stream that is chosen first.
pub open spec fn first_stream(streams: Seq<Seq<char>>) -> Option<Seq<char>> {
    if streams.len() > 0 {
        Some(streams[0])
    } else {
        None
    }
}

/// The stream that is chosen first.
pub fn initial_stream(family: &FamilyInfo) -> (r: Option<String>)
    ensures
        match r {
            Some(s) => first_stream(text::views(family.streams@)) == Some(s@),
            None => first_stream(text::views(family.streams@)) is None,
        },
{
    if family.streams.len() > 0 {
        Some(family.streams[0].clone())
    } else {
        None
    }
}

/// What is said beside the switch for drivers.
pub open spec fn driver_words(has_hardware: bool) -> Seq<char> {
    if has_hardware {
        "NVIDIA GPU detected — keep on for hardware-accelerated graphics (open kernel modules preferred)"@
    } else {
        "Picks the open kernel modules where available, falls back to the proprietary driver"@
    }
}

/// What is said beside the switch for drivers.
pub fn driver_subtitle(has_hardware: bool) -> (r: &'static str)
    ensures
        r@ == driver_words(has_hardware),
{
    if has_hardware {
        "NVIDIA GPU detected — keep on for hardware-accelerated graphics (open kernel modules preferred)"
    } else {
        "Picks the open kernel modules where available, falls back to the proprietary driver"
    }
}

/// What to do when the switch for drivers is moved.
#[derive(Debug, Clone, Copy, PartialEq, Eq, Structural)]
pub enum DriverStep {
    /// Take it over.
    Apply(bool),
    /// Ask first: the hardware needs the drivers.
    Ask,
}

/// What to do when the switch for drivers is moved.
pub open spec fn driver_step(before: bool, after: bool, has_hardware: bool) -> DriverStep {
    if before && !after && has_hardware {
        DriverStep::Ask
    } else {
        DriverStep::Apply(after)
    }
}

/// What to do when the switch for drivers is moved from `before` to `after`:
/// turning them off on a machine with such hardware is asked about first.
pub fn move_driver_switch(before: bool, after: bool, has_hardware: bool) -> (r: DriverStep)
    ensures
        r == driver_step(before, after, has_hardware),
{
    if before && !after && has_hardware {
        DriverStep::Ask
    } else {
        DriverStep::Apply(after)
    }
}

/// Whether the drivers stay on after an answer.
pub open spec fn keeps_drivers(response: Seq<char>) -> bool {
    response != "disable"@
}

/// The state of the switch for drivers after the question was answered: off
/// only where the user insists.
pub fn answer_driver_question(response: &str) -> (r: bool)
    ensures
        r == keeps_drivers(response@),
{
    !text::eq(response, "disable")
}

// ---------------------------------------------------------------------------
// The switch

/// How far the switch has come, as it is shown: a fraction where one is known,
/// and a description.
#[derive(Debug)]
pub struct SwitchView {
    pub fraction: Option<(u32, u32)>,
    pub description: String,
}

/// How far the switch has come, taken by its characters.
pub struct SwitchShown {
    pub fraction: Option<(int, int)>,
    pub description: Seq<char>,
}

impl View for SwitchView {
    type V = SwitchShown;

    open spec fn view(&self) -> SwitchShown {
        SwitchShown {
            fraction: match self.fraction {
                Some(f) => Some((f.0 as int, f.1 as int)),
                None => None,
            },
            description: self.description@,
        }
    }
}

/// What is shown after a line of output.
pub open spec fn shown_after(view: SwitchShown, p: ProgressModel) -> SwitchShown {
    match p {
        ProgressModel::Fraction { current, total } => SwitchShown {
            fraction: Some((current, total)),
            ..view
        },
        ProgressModel::Status(s) => SwitchShown { description: s, ..view },
    }
}

/// Take over what a line of output tells. A fraction stays until another comes;
/// a phase changes the description.
pub fn show_progress(view: SwitchView, progress: BootcProgress) -> (r: SwitchView)
    ensures
        r@ == shown_after(view@, progress@),
        progress is Fraction ==> r.description == view.description,
        progress is Status ==> r.fraction == view.fraction,
{
    match progress {
        BootcProgress::Fraction { current, total } => SwitchView {
            fraction: Some((current, total)),
            description: view.description,
        },
        BootcProgress::Status(s) => SwitchView { fraction: view.fraction, description: s },
    }
}

/// The time that a switch has taken, in minutes and seconds.
pub open spec fn elapsed_label(secs: nat) -> Seq<char> {
    "Elapsed: "@ + text::decimal(secs / 60) + ":"@ + text::two_digits(secs % 60)
}

pub fn elapsed_text(secs: u64) -> (r: String)
    ensures
        r@ == elapsed_label(secs as nat),
{
    let mut s = "Elapsed: ".to_owned();
    text::push_decimal(&mut s, secs / 60);
    s.append(":");
    let rest: u64 = secs % 60;
    let tens: u64 = rest / 10;
    let ones: u64 = rest % 10;
    let ghost head = s@;
    text::push_decimal(&mut s, tens);
    text::push_decimal(&mut s, ones);
    proof {
        assert(text::decimal(tens as nat) =~= seq![text::digit_char(tens as nat)]);
        assert(text::decimal(ones as nat) =~= seq![text::digit_char(ones as nat)]);
        assert(head + text::decimal(tens as nat) + text::decimal(ones as nat) =~= head
            + text::two_digits(rest as nat));
    }
    s
}

/// What is said at the end of a switch that failed for a reason, or did not.
pub open spec fn end_words(failure: Option<Seq<char>>, suppressed: bool) -> (Seq<char>, Seq<char>) {
    match failure {
        Some(message) => ("Switch Failed"@, message),
        None => if suppressed {
            (
                "Switch Recorded"@,
                "Dry run — the image switch was recorded but not performed. Nothing on this system has changed."@,
            )
        } else {
            ("Switch Complete"@, "Restart your system to boot into the selected version."@)
        },
    }
}

/// The page at the end of a switch: its title and its description. A switch
/// that was only recorded does not ask for a restart.
pub fn end_page(result: Result<(), String>, suppressed: bool) -> (r: (String, String))
    ensures
        (r.0@, r.1@) == end_words(
            match result {
                Ok(_) => None,
                Err(message) => Some(message@),
            },
            suppressed,
        ),
{
    match result {
        Ok(_) => if suppressed {
            (
                "Switch Recorded".to_owned(),
                "Dry run — the image switch was recorded but not performed. Nothing on this system has changed.".to_owned(),
            )
        } else {
            (
                "Switch Complete".to_owned(),
                "Restart your system to boot into the selected version.".to_owned(),
            )
        },
        Err(message) => ("Switch Failed".to_owned(), message),
    }
}

// ---------------------------------------------------------------------------
// Laws

/// Nothing is asked where there is nothing to switch to, and what is asked
/// about is what a yes leads to: the reference stands in the question, or it is
/// that of the build which the question names.
pub proof fn law_question_tells_its_target(
    selected: Option<Date>,
    versions: Seq<ImageVersion>,
    family: Option<Seq<char>>,
    features: Seq<Seq<char>>,
    stream: Seq<char>,
    pending: Option<Seq<char>>,
)
    ensures
        question(selected, versions, family, features, stream, pending) matches Some(q) ==> {
            ||| text::occurs(q.body, q.full_ref)
            ||| (selected matches Some(d) && (version_on(versions, d) matches Some(v) && v.full_ref@
                == q.full_ref))
        },
{
    match selected {
        Some(d) => match version_on(versions, d) {
            Some(v) => {
                let target = rebase_target::retargeted(v.full_ref@, family, features);
                let q = pin_question(v, d, target);
                if target != v.full_ref@ {
                    let head = "Your system will be pinned to:\n\n"@;
                    let k = head.len() as int;
                    assert(q.body.subrange(k, k + target.len()) =~= target);
                    assert(text::occurs_at(q.body, target, k));
                }
            },
            None => {},
        },
        None => match pending {
            Some(full_ref) => {
                let q = stream_question(stream, full_ref);
                let head = "Your system will follow the floating `"@ + stream
                    + "` tag and resume receiving automatic updates from it:\n\n"@;
                let k = head.len() as int;
                assert(q.body.subrange(k, k + full_ref.len()) =~= full_ref);
                assert(text::occurs_at(q.body, full_ref, k));
            },
            None => {},
        },
    }
}

/// Only the versions whose name holds the variant are shown, in their order, and
/// all of them; without a variant, or by default, every version is.
pub proof fn law_versions_of_a_variant(
    all: Seq<ImageVersion>,
    variant: Seq<char>,
    v: ImageVersion,
)
    ensures
        shown_versions(all, Seq::empty()) == all,
        shown_versions(all, "default"@) == all,
        variant.len() > 0 && variant != "default"@ ==> (shown_versions(all, variant).contains(v)
            <==> all.contains(v) && text::occurs(v.version@, variant)),
        shown_versions(all, variant).len() <= all.len(),
{
    lemma_variant(all, variant, v);
}

proof fn lemma_variant(all: Seq<ImageVersion>, variant: Seq<char>, v: ImageVersion)
    ensures
        of_variant(all, variant).contains(v) <==> all.contains(v) && text::occurs(
            v.version@,
            variant,
        ),
        of_variant(all, variant).len() <= all.len(),
    decreases all.len(),
{
    if all.len() > 0 {
        let front = all.drop_last();
        let kept = of_variant(front, variant);
        lemma_variant(front, variant, v);
        assert(all =~= front.push(all.last()));
        if all.contains(v) {
            let k = choose|k: int| 0 <= k < all.len() && all[k] == v;
            if k < front.len() {
                assert(front[k] == v);
            }
        }
        if front.contains(v) {
            let k = choose|k: int| 0 <= k < front.len() && front[k] == v;
            assert(all[k] == v);
        }
        if v == all.last() {
            assert(all[all.len() - 1] == v);
        }
        if text::occurs(all.last().version@, variant) {
            let more = kept.push(all.last());
            if kept.contains(v) {
                let k = choose|k: int| 0 <= k < kept.len() && kept[k] == v;
                assert(more[k] == v);
            }
            if v == all.last() {
                assert(more[kept.len() as int] == v);
            }
            if more.contains(v) && v != all.last() {
                let k = choose|k: int| 0 <= k < more.len() && more[k] == v;
                assert(kept[k] == v);
            }
        }
    }
}

/// A result is shown whenever it comes, with its own versions; a failure says
/// whether the image or the network is to blame; and a fetch that does not end
/// within a minute and a half has failed.
pub proof fn law_fetches(v: Vec<ImageVersion>, why: String, elapsed_ms: int)
    ensures
        fetch_step(Some(FetchResult::Loaded(v)), elapsed_ms) == StepModel::Show(v),
        fetch_step(Some(FetchResult::Failed(why)), elapsed_ms) == StepModel::Fail(
            "Check your internet connection and try again."@,
        ),
        fetch_step(Some(FetchResult::DetectFailed), elapsed_ms) == StepModel::Fail(
            "Could not detect the current image. Is bootc installed and managing this system?"@,
        ),
        elapsed_ms <= 90 * 1000 ==> fetch_step(None, elapsed_ms) is Wait,
        elapsed_ms > 90 * 1000 ==> fetch_step(None, elapsed_ms) == StepModel::Fail(
            "Check your internet connection and try again."@,
        ),
        has_older(INITIAL_FETCH_COUNT as int),
        !has_older(EXPANDED_FETCH_COUNT as int),
{
}

/// The version of a day is one of that day wherever there is one: the last of them
/// in the list.
pub proof fn law_version_of_a_day(versions: Seq<ImageVersion>, d: Date, k: int)
    ensures
        version_on(versions, d) matches Some(v) ==> versions.contains(v) && v.date == d,
        0 <= k < versions.len() && versions[k].date == d && (forall|i: int|
            k < i < versions.len() ==> (#[trigger] versions[i]).date != d) ==> version_on(
            versions,
            d,
        ) == Some(versions[k]),
        (forall|i: int| 0 <= i < versions.len() ==> (#[trigger] versions[i]).date != d)
            ==> version_on(versions, d) is None,
        installed_day(versions) matches Some(day) ==> versions.len() > 0 && day == versions[0].date,
        versions.len() == 0 ==> installed_day(versions) is None,
    decreases versions.len(),
{
    if versions.len() > 0 {
        let n = versions.len() - 1;
        let front = versions.drop_last();
        assert(versions[n] == versions.last());
        law_version_of_a_day(front, d, k);
        if let Some(v) = version_on(front, d) {
            if front.contains(v) {
                let i = choose|i: int| 0 <= i < front.len() && front[i] == v;
                assert(versions[i] == v);
            }
        }
        if forall|i: int| 0 <= i < versions.len() ==> (#[trigger] versions[i]).date != d {
            assert forall|i: int| 0 <= i < front.len() implies (#[trigger] front[i]).date != d by {
                assert(versions[i].date != d);
            }
        }
        if 0 <= k < versions.len() && versions[k].date == d && (forall|i: int|
            k < i < versions.len() ==> (#[trigger] versions[i]).date != d) {
            if k < n {
                assert(versions[n].date != d);
                assert(front[k] == versions[k]);
                assert forall|i: int| k < i < front.len() implies (#[trigger] front[i]).date != d by {
                    assert(versions[i].date != d);
                }
            }
        }
    }
}

/// The installed build cannot be pinned to, and every other can, under its date;
/// the version whose changes are shown is that of the chosen day.
pub proof fn law_pinning(d: Date, other: Date, versions: Seq<ImageVersion>)
    ensures
        pin_label(d, Some(d)) == ("Currently Installed"@, false),
        pin_label(d, None) == ("Pin to "@ + date::compact_text(d), true),
        d != other ==> pin_label(d, Some(other)) == ("Pin to "@ + date::compact_text(d), true),
        chosen_version(None, versions) is None,
        chosen_version(Some(d), versions) == (match version_on(versions, d) {
            Some(v) => Some(v.version@),
            None => None,
        }),
{
}

/// The question names what it leads to: for a chosen day the reference of the
/// build of that day, with the image that the switches stand for; for a stream the
/// reference that is pending. A chosen day comes before a stream.
pub proof fn law_what_a_question_leads_to(
    d: Date,
    versions: Seq<ImageVersion>,
    family: Option<Seq<char>>,
    features: Seq<Seq<char>>,
    stream: Seq<char>,
    pending: Option<Seq<char>>,
)
    ensures
        match version_on(versions, d) {
            Some(v) => question(Some(d), versions, family, features, stream, pending) matches Some(
                q,
            ) && q.full_ref == rebase_target::retargeted(v.full_ref@, family, features)
                && q.heading == "Pin to this build?"@ && (q.full_ref == v.full_ref@
                ==> text::occurs(q.body, date::long_text(d))),
            None => question(Some(d), versions, family, features, stream, pending) is None,
        },
        pending matches Some(full_ref) ==> (question(
            None,
            versions,
            family,
            features,
            stream,
            pending,
        ) matches Some(q) && q.full_ref == full_ref && q.heading == "Switch to :"@ + stream + "?"@),
        pending is None ==> question(None, versions, family, features, stream, pending) is None,
{
    if let Some(v) = version_on(versions, d) {
        let target = rebase_target::retargeted(v.full_ref@, family, features);
        let q = pin_question(v, d, target);
        if target == v.full_ref@ {
            let k = "Your system will be pinned to the "@.len() as int;
            let day = date::long_text(d);
            assert(q.body.subrange(k, k + day.len()) =~= day);
            assert(text::occurs_at(q.body, day, k));
        }
    }
}

/// There is a switch for each thing that the family has: developer mode, and
/// either driver. Only turning the drivers off where the hardware needs them is
/// asked about, and they stay on unless the user insists.
pub proof fn law_driver_switch(
    before: bool,
    after: bool,
    has_hardware: bool,
    response: Seq<char>,
    features: Seq<FeatureInfo>,
    k: int,
)
    ensures
        driver_step(before, after, has_hardware) is Ask <==> before && !after && has_hardware,
        !(driver_step(before, after, has_hardware) is Ask) ==> driver_step(
            before,
            after,
            has_hardware,
        ) == DriverStep::Apply(after),
        !keeps_drivers("disable"@),
        keeps_drivers("cancel"@),
        response != "disable"@ ==> keeps_drivers(response),
        0 <= k < features.len() && features[k].id@ == "dx"@ ==> switches_for(features).0,
        0 <= k < features.len() && (features[k].id@ == "nvidia"@ || features[k].id@ == "open"@)
            ==> switches_for(features).1,
        features.len() == 0 ==> switches_for(features) == (false, false),
        (forall|i: int| 0 <= i < features.len() ==> (#[trigger] features[i]).id@ == "asus"@)
            ==> switches_for(features) == (false, false),
{
    reveal_strlit("disable");
    reveal_strlit("cancel");
    assert("disable"@.len() == 7 && "cancel"@.len() == 6);
    reveal_strlit("asus");
    reveal_strlit("dx");
    reveal_strlit("nvidia");
    reveal_strlit("open");
    assert("asus"@.len() == 4 && "dx"@.len() == 2 && "nvidia"@.len() == 6);
    assert("asus"@[0] == 'a' && "open"@[0] == 'o');
}

/// A failure is told with its reason, and never as a switch; a switch that was
/// only recorded is not told as done.
pub proof fn law_end_of_a_switch(why: Seq<char>, suppressed: bool)
    ensures
        end_words(Some(why), suppressed) == ("Switch Failed"@, why),
        end_words(None, false).0 == "Switch Complete"@,
        end_words(None, true).0 == "Switch Recorded"@,
{
}

/// The time is shown in minutes and in seconds, which have two digits.
pub proof fn law_elapsed_time(minutes: nat, seconds: nat)
    requires
        seconds < 60,
    ensures
        elapsed_label(minutes * 60 + seconds) == "Elapsed: "@ + text::decimal(minutes) + ":"@
            + text::two_digits(seconds),
{
    let n = minutes * 60 + seconds;
    assert(n / 60 == minutes && n % 60 == seconds);
}

/// A label keeps its characters in order, each underscore doubled.
pub proof fn law_escaped_labels(a: Seq<char>, b: Seq<char>, c: char)
    ensures
        escaped(a + b) == escaped(a) + escaped(b),
        c != '_' ==> escaped(seq![c]) == seq![c],
        escaped(seq!['_']) == seq!['_', '_'],
    decreases b.len(),
{
    reveal_with_fuel(escaped, 2);
    assert(seq![c].drop_last() =~= Seq::<char>::empty());
    assert(seq!['_'].drop_last() =~= Seq::<char>::empty());
    assert(escaped(seq!['_']) =~= seq!['_', '_']);
    assert(c != '_' ==> escaped(seq![c]) =~= seq![c]);
    if b.len() == 0 {
        assert(a + b =~= a);
        assert(escaped(a) + escaped(b) =~= escaped(a));
    } else {
        law_escaped_labels(a, b.drop_last(), c);
        assert((a + b).drop_last() =~= a + b.drop_last());
        let ea = escaped(a);
        let eb = escaped(b.drop_last());
        if b.last() == '_' {
            assert((ea + eb).push('_').push('_') =~= ea + eb.push('_').push('_'));
        } else {
            assert((ea + eb).push(b.last()) =~= ea + eb.push(b.last()));
        }
    }
}

/// A fetch fails where the image is not known, and with the reason of the list
/// where that failed; else it has the versions of the variant.
pub proof fn law_what_a_fetch_came_to(
    r: FetchResult,
    known: bool,
    listed: Result<Vec<ImageVersion>, String>,
    variant: Seq<char>,
)
    requires
        came_to(r, known, listed, variant),
    ensures
        !known ==> r is DetectFailed,
        known && listed is Err ==> r == FetchResult::Failed(listed->Err_0),
        known && listed is Ok ==> (r matches FetchResult::Loaded(v) && v@ == shown_versions(
            listed->Ok_0@,
            variant,
        )),
{
}

/// Every choice is of another generation than the one before, and only the choice
/// of the present one is the last.
pub proof fn law_only_the_last_choice_counts(current: int)
    requires
        0 <= current <= u64::MAX,
    ensures
        generation_after(current) != current,
        0 <= generation_after(current) <= u64::MAX,
        is_last(current, current),
        !is_last(current, generation_after(current)),
{
}

/// What the dialog says: of the family its name; of the target before a switch was
/// touched what is booted, and then what the switches lead to; first the first
/// stream; and of a chosen build what is known of it.
pub proof fn law_words_of_the_dialog(
    name: Seq<char>,
    base: Seq<char>,
    image: Seq<char>,
    streams: Seq<Seq<char>>,
    v: ImageVersion,
    d: Details,
)
    requires
        shows_build(d, v),
    ensures
        headline(Some(name)) == "Family: "@ + name,
        headline(None) == "Family not recognized"@,
        first_target_words(Some(base), Some(image)) == image + " (currently booted)"@,
        first_target_words(Some(base), None) == base + " (no extras)"@,
        first_target_words(None, Some(image))
            == "(this image isn't in the KNOWN_FAMILIES catalogue)"@,
        target_words(Some(image)) == image + " (resolved)"@,
        target_words(None) == "(combination doesn't match any published image)"@,
        streams.len() > 0 ==> first_stream(streams) == Some(streams[0]),
        streams.len() == 0 ==> first_stream(streams) is None,
        hint(true) == "Loading builds…"@,
        hint(false) == "No builds in this month"@,
        d.version@ == v.version@,
        d.kernel@ == v.kernel@,
        d.built@ == date::moment_text(v.created),
        v.revision@.len() > 0 ==> d.commit@ == v.revision@,
        v.revision@.len() == 0 ==> d.commit@ == "—"@,
{
}

/// A fraction is shown until another comes, and a phase until another comes:
/// neither takes the other away.
pub proof fn law_progress_is_shown(view: SwitchShown, n: int, m: int, s: Seq<char>)
    ensures
        ({
            let f = shown_after(view, ProgressModel::Fraction { current: n, total: m });
            f.fraction == Some((n, m)) && f.description == view.description
        }),
        ({
            let t = shown_after(view, ProgressModel::Status(s));
            t.description == s && t.fraction == view.fraction
        }),
{
}

/// A label begins with the mark of the access key, and goes on with the label.
pub proof fn law_access_key(label: Seq<char>)
    ensures
        keyed(label)[0] == '_',
        !label.contains('_') ==> keyed(label) == seq!['_'] + label,
{
    if !label.contains('_') {
        lemma_nothing_escaped(label);
    }
}

proof fn lemma_nothing_escaped(label: Seq<char>)
    requires
        !label.contains('_'),
    ensures
        escaped(label) == label,
    decreases label.len(),
{
    if label.len() > 0 {
        let front = label.drop_last();
        assert(label[label.len() - 1] == label.last());
        assert(!front.contains('_')) by {
            if front.contains('_') {
                let i = choose|i: int| 0 <= i < front.len() && front[i] == '_';
                assert(label[i] == '_');
            }
        }
        lemma_nothing_escaped(front);
        assert(front.push(label.last()) =~= label);
    } else {
        assert(label =~= Seq::<char>::empty());
    }
}

/// What is told of a question, and of how far a switch has come, is what they hold.
pub proof fn law_questions_hold_what_is_told(q: Question, v: SwitchView)
    ensures
        q@.heading == q.heading@ && q@.body == q.body@ && q@.full_ref == q.full_ref@,
        v@.description == v.description@,
        v.fraction matches Some(f) ==> v@.fraction == Some((f.0 as int, f.1 as int)),
        v.fraction is None ==> v@.fraction is None,
{
}

/// That the hardware is there is said exactly where it is.
pub proof fn law_words_beside_the_driver_switch(has_hardware: bool)
    ensures
        text::begins_with(driver_words(has_hardware), "NVIDIA GPU detected"@) <==> has_hardware,
{
    let yes = "NVIDIA GPU detected — keep on for hardware-accelerated graphics (open kernel modules preferred)"@;
    let no = "Picks the open kernel modules where available, falls back to the proprietary driver"@;
    let start = "NVIDIA GPU detected"@;
    reveal_strlit("NVIDIA GPU detected");
    reveal_strlit(
        "NVIDIA GPU detected — keep on for hardware-accelerated graphics (open kernel modules preferred)",
    );
    reveal_strlit(
        "Picks the open kernel modules where available, falls back to the proprietary driver",
    );
    assert(yes.subrange(0, start.len() as int) =~= start);
    assert(yes.take(start.len() as int) =~= start);
    if text::begins_with(no, start) {
        assert(no.take(start.len() as int)[0] == 'P');
        assert(start[0] == 'N');
    }
}

} // verus!
