//! What the settings panel of the desktop is told, as numbers and plain texts
//! that cross into C.

use vstd::prelude::*;
use crate::date;
use crate::date::Date;
use crate::orchestrator;
use crate::orchestrator::{Module, ModuleStatus, UpdateEvent};
use crate::registry_client::models;
use crate::registry_client::models::{Family, ImageVersion};
use crate::registry_client::versions;
use crate::service;
use crate::service::ImageRef;
use crate::sort;
use crate::text;

verus! {

/// What kind of event of an update run this is.
#[derive(Debug, Clone, Copy, PartialEq, Eq, Structural)]
pub enum FinupdateEventKind {
    /// One line of output, in the message.
    Output,
    /// The update of a module has started.
    ModuleStarted,
    /// The update of a module has finished, with a status.
    ModuleFinished,
    /// The whole update has completed.
    Complete,
    /// There was nothing to update.
    UpToDate,
    /// The update has failed, for the reason in the message.
    Error,
}

/// Which module an event is about; `Unknown` where it is about none.
#[derive(Debug, Clone, Copy, PartialEq, Eq, Structural)]
pub enum FinupdateModule {
    Unknown,
    System,
    Flatpak,
    Brew,
    Distrobox,
}

/// How a module finished; `Unknown` where none did.
#[derive(Debug, Clone, Copy, PartialEq, Eq, Structural)]
pub enum FinupdateModuleStatus {
    Unknown,
    Success,
    UpToDate,
    Skipped,
    Failed,
}

/// The number of a kind of event.
pub open spec fn kind_code(k: FinupdateEventKind) -> i32 {
    match k {
        FinupdateEventKind::Output => 0,
        FinupdateEventKind::ModuleStarted => 1,
        FinupdateEventKind::ModuleFinished => 2,
        FinupdateEventKind::Complete => 3,
        FinupdateEventKind::UpToDate => 4,
        FinupdateEventKind::Error => 5,
    }
}

/// The number of a module.
pub open spec fn module_code(m: FinupdateModule) -> i32 {
    match m {
        FinupdateModule::Unknown => 0,
        FinupdateModule::System => 1,
        FinupdateModule::Flatpak => 2,
        FinupdateModule::Brew => 3,
        FinupdateModule::Distrobox => 4,
    }
}

/// The number of a status.
pub open spec fn status_code(s: FinupdateModuleStatus) -> i32 {
    match s {
        FinupdateModuleStatus::Unknown => 0,
        FinupdateModuleStatus::Success => 1,
        FinupdateModuleStatus::UpToDate => 2,
        FinupdateModuleStatus::Skipped => 3,
        FinupdateModuleStatus::Failed => 4,
    }
}

impl FinupdateEventKind {
    /// The number under which C knows this kind.
    pub fn code(&self) -> (r: i32)
        ensures
            r == kind_code(*self),
    {
        match self {
            FinupdateEventKind::Output => 0,
            FinupdateEventKind::ModuleStarted => 1,
            FinupdateEventKind::ModuleFinished => 2,
            FinupdateEventKind::Complete => 3,
            FinupdateEventKind::UpToDate => 4,
            FinupdateEventKind::Error => 5,
        }
    }
}

impl FinupdateModule {
    /// The number under which C knows this module.
    pub fn code(&self) -> (r: i32)
        ensures
            r == module_code(*self),
    {
        match self {
            FinupdateModule::Unknown => 0,
            FinupdateModule::System => 1,
            FinupdateModule::Flatpak => 2,
            FinupdateModule::Brew => 3,
            FinupdateModule::Distrobox => 4,
        }
    }
}

impl FinupdateModuleStatus {
    /// The number under which C knows this status.
    pub fn code(&self) -> (r: i32)
        ensures
            r == status_code(*self),
    {
        match self {
            FinupdateModuleStatus::Unknown => 0,
            FinupdateModuleStatus::Success => 1,
            FinupdateModuleStatus::UpToDate => 2,
            FinupdateModuleStatus::Skipped => 3,
            FinupdateModuleStatus::Failed => 4,
        }
    }
}

/// A text without its NUL characters: C takes a NUL as the end of a text.
pub open spec fn without_nul(s: Seq<char>) -> Seq<char>
    decreases s.len(),
{
    if s.len() == 0 {
        s
    } else if s.last() == '\0' {
        without_nul(s.drop_last())
    } else {
        without_nul(s.drop_last()).push(s.last())
    }
}

/// A text as C can take it: the same without NUL characters.
pub fn c_text(s: &str) -> (r: String)
    ensures
        r@ == without_nul(s@),
{
    let cs = text::chars_of(s);
    let mut out = String::new();
    let mut i: usize = 0;
    while i < cs.len()
        invariant
            i <= cs@.len(),
            cs@ == s@,
            out@ == without_nul(s@.take(i as int)),
        decreases cs@.len() - i,
    {
        assert(s@.take(i + 1).drop_last() =~= s@.take(i as int));
        if cs[i] != '\0' {
            out.push(cs[i]);
        }
        i += 1;
    }
    assert(s@.take(s@.len() as int) =~= s@);
    out
}

/// An event of an update run, as C is told of it.
#[derive(Debug)]
pub struct EventFields {
    pub kind: FinupdateEventKind,
    pub module: FinupdateModule,
    pub status: FinupdateModuleStatus,
    pub exit_code: i32,
    pub message: Option<String>,
}

/// An event as C is told of it, taken by its characters.
pub struct FieldsModel {
    pub kind: FinupdateEventKind,
    pub module: FinupdateModule,
    pub status: FinupdateModuleStatus,
    pub exit_code: i32,
    pub message: Option<Seq<char>>,
}

impl View for EventFields {
    type V = FieldsModel;

    open spec fn view(&self) -> FieldsModel {
        FieldsModel {
            kind: self.kind,
            module: self.module,
            status: self.status,
            exit_code: self.exit_code,
            message: match self.message {
                Some(m) => Some(m@),
                None => None,
            },
        }
    }
}

pub open spec fn ffi_module(m: Module) -> FinupdateModule {
    match m {
        Module::System => FinupdateModule::System,
        Module::Flatpak => FinupdateModule::Flatpak,
        Module::Brew => FinupdateModule::Brew,
        Module::Distrobox => FinupdateModule::Distrobox,
    }
}

pub open spec fn ffi_status(s: ModuleStatus) -> (FinupdateModuleStatus, i32) {
    match s {
        ModuleStatus::Success => (FinupdateModuleStatus::Success, 0),
        ModuleStatus::UpToDate => (FinupdateModuleStatus::UpToDate, 0),
        ModuleStatus::Skipped => (FinupdateModuleStatus::Skipped, 0),
        ModuleStatus::Failed(code) => (FinupdateModuleStatus::Failed, code),
    }
}

/// An event about no module.
pub open spec fn plain(kind: FinupdateEventKind, message: Option<Seq<char>>) -> FieldsModel {
    FieldsModel {
        kind,
        module: FinupdateModule::Unknown,
        status: FinupdateModuleStatus::Unknown,
        exit_code: 0,
        message,
    }
}

/// What C is told of an event. Only a line of output and an error have a
/// message, and they always have one.
pub open spec fn fields_of(e: UpdateEvent) -> FieldsModel {
    match e {
        UpdateEvent::Output(line) => plain(
            FinupdateEventKind::Output,
            Some(without_nul(line@)),
        ),
        UpdateEvent::ModuleStarted(m) => FieldsModel {
            kind: FinupdateEventKind::ModuleStarted,
            module: ffi_module(m),
            status: FinupdateModuleStatus::Unknown,
            exit_code: 0,
            message: None,
        },
        UpdateEvent::ModuleFinished(m, s) => FieldsModel {
            kind: FinupdateEventKind::ModuleFinished,
            module: ffi_module(m),
            status: ffi_status(s).0,
            exit_code: ffi_status(s).1,
            message: None,
        },
        UpdateEvent::Complete => plain(FinupdateEventKind::Complete, None),
        UpdateEvent::UpToDate => plain(FinupdateEventKind::UpToDate, None),
        UpdateEvent::Error(msg) => plain(FinupdateEventKind::Error, Some(without_nul(msg@))),
    }
}

pub fn module_to_ffi(m: Module) -> (r: FinupdateModule)
    ensures
        r == ffi_module(m),
{
    match m {
        Module::System => FinupdateModule::System,
        Module::Flatpak => FinupdateModule::Flatpak,
        Module::Brew => FinupdateModule::Brew,
        Module::Distrobox => FinupdateModule::Distrobox,
    }
}

fn about_no_module(kind: FinupdateEventKind, message: Option<String>) -> (r: EventFields)
    ensures
        r@ == plain(
            kind,
            match message {
                Some(m) => Some(m@),
                None => None,
            },
        ),
{
    EventFields {
        kind,
        module: FinupdateModule::Unknown,
        status: FinupdateModuleStatus::Unknown,
        exit_code: 0,
        message,
    }
}

/// What C is told of an event.
pub fn event_fields(event: &UpdateEvent) -> (r: EventFields)
    ensures
        r@ == fields_of(*event),
{
    match event {
        UpdateEvent::Output(line) => about_no_module(
            FinupdateEventKind::Output,
            Some(c_text(line.as_str())),
        ),
        UpdateEvent::ModuleStarted(m) => EventFields {
            kind: FinupdateEventKind::ModuleStarted,
            module: module_to_ffi(*m),
            status: FinupdateModuleStatus::Unknown,
            exit_code: 0,
            message: None,
        },
        UpdateEvent::ModuleFinished(m, s) => {
            let (status, exit_code): (FinupdateModuleStatus, i32) = match s {
                ModuleStatus::Success => (FinupdateModuleStatus::Success, 0),
                ModuleStatus::UpToDate => (FinupdateModuleStatus::UpToDate, 0),
                ModuleStatus::Skipped => (FinupdateModuleStatus::Skipped, 0),
                ModuleStatus::Failed(code) => (FinupdateModuleStatus::Failed, *code),
            };
            EventFields {
                kind: FinupdateEventKind::ModuleFinished,
                module: module_to_ffi(*m),
                status,
                exit_code,
                message: None,
            }
        },
        UpdateEvent::Complete => about_no_module(FinupdateEventKind::Complete, None),
        UpdateEvent::UpToDate => about_no_module(FinupdateEventKind::UpToDate, None),
        UpdateEvent::Error(msg) => about_no_module(
            FinupdateEventKind::Error,
            Some(c_text(msg.as_str())),
        ),
    }
}

/// What C is told where there is no handle to run an update with: an error, so
/// that nobody waits for a run that never starts.
pub fn invalid_handle_fields() -> (r: EventFields)
    ensures
        r@ == plain(FinupdateEventKind::Error, Some("invalid handle"@)),
{
    about_no_module(FinupdateEventKind::Error, Some("invalid handle".to_owned()))
}

/// The title of the booted image: the name of its family, else the name under
/// which it is published; a general one where the image is not known.
pub open spec fn image_title(image: Option<service::ImageModel>) -> Seq<char> {
    match image {
        Some(i) => match models::matching_family(i.org, i.image, i.tag) {
            Some(f) => f.name,
            None => i.org + "/"@ + i.image,
        },
        None => "System Image"@,
    }
}

/// The title of the booted image, as in `Bluefin Dakota`.
pub fn current_image_title(image: Option<&ImageRef>) -> (r: String)
    ensures
        r@ == without_nul(image_title(service::opt_image_ref(image))),
{
    match image {
        Some(i) => match Family::best_match(i.org.as_str(), i.image.as_str(), i.tag.as_str()) {
            Some(f) => c_text(f.name),
            None => {
                let mut s = i.org.clone();
                s.append("/");
                s.append(i.image.as_str());
                c_text(s.as_str())
            },
        },
        None => c_text("System Image"),
    }
}

/// The full reference of the booted image, as C can take it.
pub open spec fn image_reference(image: Option<service::ImageModel>) -> Option<Seq<char>> {
    match image {
        Some(i) => Some(without_nul(service::full_ref_of(i))),
        None => None,
    }
}

/// The full reference of the booted image; `None` where it is not known.
pub fn current_image_ref(image: Option<&ImageRef>) -> (r: Option<String>)
    ensures
        match r {
            Some(s) => image_reference(service::opt_image_ref(image)) == Some(s@),
            None => image_reference(service::opt_image_ref(image)) is None,
        },
{
    match image {
        Some(i) => {
            let full = i.full_ref();
            Some(c_text(full.as_str()))
        },
        None => None,
    }
}

/// The registry lists a version that was built after `booted`.
pub open spec fn lists_newer(versions: Seq<ImageVersion>, booted: Date) -> bool {
    exists|i: int| 0 <= i < versions.len() && !date::date_le((#[trigger] versions[i]).date, booted)
}

fn find_newer(versions: &Vec<ImageVersion>, booted: &Date) -> (r: bool)
    ensures
        r == lists_newer(versions@, *booted),
{
    let mut k: usize = 0;
    while k < versions.len()
        invariant
            k <= versions@.len(),
            forall|j: int|
                0 <= j < k ==> date::date_le((#[trigger] versions@[j]).date, *booted),
        decreases versions@.len() - k,
    {
        if !date::not_later(&versions[k].date, booted) {
            assert(!date::date_le(versions@[k as int].date, *booted));
            return true;
        }
        k += 1;
    }
    false
}

/// What a check for updates says.
pub open spec fn check_code(booted: Option<Date>, versions: Option<Seq<ImageVersion>>) -> int {
    match (booted, versions) {
        (Some(d), Some(v)) => if lists_newer(v, d) {
            1
        } else {
            0
        },
        _ => -1,
    }
}

/// What a check for updates says: 1 where the registry lists a newer build than
/// the booted one, 0 where that is up to date, and -1 where the day of the booted
/// build or the versions could not be found out.
pub fn check_result(booted: Option<Date>, versions: Option<&Vec<ImageVersion>>) -> (r: i32)
    ensures
        r == check_code(
            booted,
            match versions {
                Some(v) => Some(v@),
                None => None,
            },
        ),
{
    match (booted, versions) {
        (Some(d), Some(v)) => if find_newer(v, &d) {
            1
        } else {
            0
        },
        _ => -1,
    }
}

/// How many versions a check for updates asks for.
pub const CHECKED_VERSIONS: usize = 4;

// ---------------------------------------------------------------------------
// Laws

/// A run ends for C exactly where it ends: with a completed update, with
/// nothing to update, or with an error.
pub proof fn law_stream_end(e: UpdateEvent)
    ensures
        orchestrator::is_terminal(e) <==> kind_code(fields_of(e).kind) >= 3,
{
}

/// The image of a family in the catalogue goes by the name of a family that
/// publishes it.
pub proof fn law_title_is_of_a_family(image: service::ImageModel, k: int)
    requires
        0 <= k < models::catalogue().len(),
        models::publishes(models::catalogue()[k], image.org, image.image),
    ensures
        exists|f: models::FamilyModel|
            models::catalogue().contains(f) && #[trigger] models::publishes(
                f,
                image.org,
                image.image,
            ) && image_title(Some(image)) == f.name,
{
    models::law_best_match(image.org, image.image, image.tag);
}

/// There is a message with a line of output and with an error, and with nothing
/// else.
pub proof fn law_messages(e: UpdateEvent)
    ensures
        fields_of(e).message is Some <==> (fields_of(e).kind is Output || fields_of(e).kind is Error),
{
}

/// An exit code is told only of a module that has failed.
pub proof fn law_exit_code_is_of_a_failure(e: UpdateEvent)
    ensures
        fields_of(e).exit_code != 0 ==> fields_of(e).status is Failed,
        fields_of(e).status is Unknown <==> !(e is ModuleFinished),
        fields_of(e).module is Unknown <==> !(e is ModuleFinished || e is ModuleStarted),
{
}

/// No text that C is given holds a NUL; one that held none is unchanged.
pub proof fn law_text_holds_no_nul(s: Seq<char>)
    ensures
        !without_nul(s).contains('\0'),
        !s.contains('\0') ==> without_nul(s) == s,
    decreases s.len(),
{
    if s.len() > 0 {
        law_text_holds_no_nul(s.drop_last());
        let front = without_nul(s.drop_last());
        assert(s == s.drop_last().push(s.last()));
        if s.last() != '\0' {
            assert forall|i: int| 0 <= i < without_nul(s).len() implies without_nul(s)[i] != '\0' by {
                if i < front.len() {
                    assert(front.contains(front[i]));
                }
            }
        }
        if !s.contains('\0') {
            assert forall|i: int| 0 <= i < s.drop_last().len() implies s.drop_last()[i] != '\0' by {
                assert(s.contains(s[i]));
            }
            assert(s.contains(s.last()));
        }
    }
}

/// Builds of the day of the booted one or before are no update, under whatever
/// name they are listed.
pub proof fn law_older_builds_are_no_update(versions: Seq<ImageVersion>, booted: Date)
    requires
        forall|i: int|
            0 <= i < versions.len() ==> date::date_le((#[trigger] versions[i]).date, booted),
    ensures
        !lists_newer(versions, booted),
{
}

/// Of versions in the order in which they are handed out, the first decides
/// whether there is an update.
pub proof fn law_first_version_decides(fetched: Seq<ImageVersion>, booted: Date)
    requires
        fetched.len() > 0,
    ensures
        ({
            let listed = sort::sorted(fetched, versions::newest_build_first());
            listed.len() > 0 && (lists_newer(listed, booted) <==> !date::date_le(
                listed[0].date,
                booted,
            ))
        }),
{
    let listed = sort::sorted(fetched, versions::newest_build_first());
    versions::law_versions_newest_first(fetched);
    vstd::seq_lib::to_multiset_len(fetched);
    vstd::seq_lib::to_multiset_len(listed);
    if date::date_le(listed[0].date, booted) {
        assert forall|i: int| 0 <= i < listed.len() implies date::date_le(
            (#[trigger] listed[i]).date,
            booted,
        ) by {
            assert(date::date_le(listed[i].date, listed[0].date));
        }
    }
}

/// Who runs a later build has no update that an earlier build has not.
pub proof fn law_updating_leaves_fewer_updates(
    versions: Seq<ImageVersion>,
    earlier: Date,
    later: Date,
)
    requires
        date::date_le(earlier, later),
    ensures
        lists_newer(versions, later) ==> lists_newer(versions, earlier),
{
    if lists_newer(versions, later) {
        let i = choose|i: int|
            0 <= i < versions.len() && !date::date_le((#[trigger] versions[i]).date, later);
        assert(!date::date_le(versions[i].date, earlier));
    }
}

/// Two kinds, modules or statuses with one number are the same.
pub proof fn law_numbers_tell_apart(
    a: FinupdateEventKind,
    b: FinupdateEventKind,
    m: FinupdateModule,
    n: FinupdateModule,
    s: FinupdateModuleStatus,
    t: FinupdateModuleStatus,
)
    ensures
        kind_code(a) == kind_code(b) ==> a == b,
        module_code(m) == module_code(n) ==> m == n,
        status_code(s) == status_code(t) ==> s == t,
{
}

/// What a check says: 1 where some listed build is of a later day than the booted
/// one, 0 where none is, and -1 where one of the two is not known.
pub proof fn law_check_code(booted: Date, versions: Seq<ImageVersion>, k: int)
    ensures
        0 <= k < versions.len() && (versions[k].date.year > booted.year || (versions[k].date.year
            == booted.year && (versions[k].date.month > booted.month || (versions[k].date.month
            == booted.month && versions[k].date.day > booted.day)))) ==> check_code(
            Some(booted),
            Some(versions),
        ) == 1,
        (forall|i: int| 0 <= i < versions.len() ==> (#[trigger] versions[i]).date == booted)
            ==> check_code(Some(booted), Some(versions)) == 0,
        (forall|i: int| 0 <= i < versions.len() ==> (#[trigger] versions[i]).date.year < booted.year)
            ==> check_code(Some(booted), Some(versions)) == 0,
        check_code(Some(booted), Some(Seq::empty())) == 0,
        check_code(None, Some(versions)) == -1,
        check_code(Some(booted), None) == -1,
        check_code(None, None) == -1,
{
    if 0 <= k < versions.len() {
        assert(versions[k] == versions[k]);
    }
}

/// The numbers under which C knows the kinds of event, the modules and the
/// outcomes, with the code of a failure.
pub proof fn law_numbers_of_events(line: String, m: Module, s: ModuleStatus, code: i32)
    ensures
        kind_code(fields_of(UpdateEvent::Output(line)).kind) == 0,
        kind_code(fields_of(UpdateEvent::ModuleStarted(m)).kind) == 1,
        kind_code(fields_of(UpdateEvent::ModuleFinished(m, s)).kind) == 2,
        kind_code(fields_of(UpdateEvent::Complete).kind) == 3,
        kind_code(fields_of(UpdateEvent::UpToDate).kind) == 4,
        kind_code(fields_of(UpdateEvent::Error(line)).kind) == 5,
        module_code(fields_of(UpdateEvent::ModuleStarted(m)).module) == (match m {
            Module::System => 1int,
            Module::Flatpak => 2,
            Module::Brew => 3,
            Module::Distrobox => 4,
        }),
        fields_of(UpdateEvent::ModuleFinished(m, s)).module == fields_of(
            UpdateEvent::ModuleStarted(m),
        ).module,
        status_code(fields_of(UpdateEvent::ModuleFinished(m, s)).status) == (match s {
            ModuleStatus::Success => 1int,
            ModuleStatus::UpToDate => 2,
            ModuleStatus::Skipped => 3,
            ModuleStatus::Failed(_) => 4,
        }),
        fields_of(UpdateEvent::ModuleFinished(m, ModuleStatus::Failed(code))).exit_code == code,
        fields_of(UpdateEvent::Output(line)).message == Some(without_nul(line@)),
        fields_of(UpdateEvent::Error(line)).message == Some(without_nul(line@)),
        module_code(fields_of(UpdateEvent::Complete).module) == 0,
        status_code(fields_of(UpdateEvent::Complete).status) == 0,
{
}

/// An image goes by the name of the family that best matches it, one of no family
/// by its organisation and its name, and one that is not known by neither; its
/// reference is the full one.
pub proof fn law_titles_and_references(image: service::ImageModel)
    ensures
        models::matching_family(image.org, image.image, image.tag) matches Some(f) ==> image_title(
            Some(image),
        ) == f.name,
        models::matching_family(image.org, image.image, image.tag) is None ==> image_title(
            Some(image),
        ) == image.org + "/"@ + image.image,
        image_title(None) == "System Image"@,
        image_reference(None) is None,
        image_reference(Some(image)) == Some(
            without_nul(
                image.registry + "/"@ + image.org + "/"@ + image.image + ":"@ + image.tag,
            ),
        ),
{
}

/// Only the NUL characters of a text are lost: two texts behind each other are
/// handed over behind each other.
pub proof fn law_texts_are_handed_over_in_order(a: Seq<char>, b: Seq<char>)
    ensures
        without_nul(a + b) == without_nul(a) + without_nul(b),
        without_nul(a + seq!['\0'] + b) == without_nul(a) + without_nul(b),
    decreases b.len(),
{
    if b.len() == 0 {
        assert(a + b =~= a);
        assert(without_nul(a) + without_nul(b) =~= without_nul(a));
        let n = a + seq!['\0'];
        assert(a + seq!['\0'] + b =~= n);
        assert(n.drop_last() =~= a);
    } else {
        law_texts_are_handed_over_in_order(a, b.drop_last());
        assert((a + b).drop_last() =~= a + b.drop_last());
        assert((a + seq!['\0'] + b).drop_last() =~= a + seq!['\0'] + b.drop_last());
        let wa = without_nul(a);
        let wb = without_nul(b.drop_last());
        assert((wa + wb).push(b.last()) =~= wa + wb.push(b.last()));
    }
}

/// What is told of the fields of an event is what they hold.
pub proof fn law_fields_hold_what_is_told(f: EventFields)
    ensures
        f@.kind == f.kind,
        f@.module == f.module,
        f@.status == f.status,
        f@.exit_code == f.exit_code,
        f.message matches Some(m) ==> f@.message == Some(m@),
        f.message is None ==> f@.message is None,
{
}

} // verus!
