//! What the manifest of an image, and its configuration, say of a build.

use vstd::prelude::*;
use crate::date;
use crate::date::{Date, UtcTime};
use crate::json;
use crate::json::{Json, JsonModel};
use crate::text;
use super::client;
use super::models::ImageVersion;

verus! {

/// A string that may be missing.
pub type Maybe = Option<Seq<char>>;

/// A string that may be missing, taken by its characters.
pub open spec fn maybe(s: Option<String>) -> Maybe {
    match s {
        Some(x) => Some(x@),
        None => None,
    }
}

/// Every entry of a table is a text.
pub open spec fn all_texts(t: Seq<(Seq<char>, JsonModel)>) -> bool {
    forall|i: int| 0 <= i < t.len() ==> (#[trigger] t[i]).1 is Text
}

/// The value that holds the annotations: the member of that name, or the only
/// element of a list.
pub open spec fn annotations_value(manifest: JsonModel) -> Option<JsonModel> {
    match manifest {
        JsonModel::Table(t) => json::entry(t, "annotations"@),
        JsonModel::List(l) => if l.len() == 1 {
            Some(l[0])
        } else {
            None
        },
        _ => None,
    }
}

/// The annotations of a manifest: a table of texts, where it has one.
pub open spec fn annotations_of(manifest: JsonModel) -> Option<JsonModel> {
    match annotations_value(manifest) {
        Some(JsonModel::Table(t)) => if all_texts(t) {
            Some(JsonModel::Table(t))
        } else {
            None
        },
        _ => None,
    }
}

/// An annotation of a manifest.
pub open spec fn annotation(manifest: JsonModel, key: Seq<char>) -> Maybe {
    match annotations_of(manifest) {
        Some(t) => json::text_of(json::member(t, key)),
        None => None,
    }
}

/// A label in an image configuration.
pub open spec fn label(config: JsonModel, key: Seq<char>) -> Maybe {
    json::text_of(json::at_path(config, seq!["config"@, "Labels"@, key]))
}

/// What is said of a build.
#[derive(Debug)]
pub struct Metadata {
    pub version: Option<String>,
    pub kernel: Option<String>,
    pub revision: Option<String>,
    pub created: Option<String>,
}

/// What is said of a build, taken by its characters.
pub struct MetadataModel {
    pub version: Maybe,
    pub kernel: Maybe,
    pub revision: Maybe,
    pub created: Maybe,
}

impl View for Metadata {
    type V = MetadataModel;

    open spec fn view(&self) -> MetadataModel {
        MetadataModel {
            version: maybe(self.version),
            kernel: maybe(self.kernel),
            revision: maybe(self.revision),
            created: maybe(self.created),
        }
    }
}

/// What the annotations of a manifest say.
pub open spec fn annotated(manifest: JsonModel) -> MetadataModel {
    MetadataModel {
        version: annotation(manifest, "org.opencontainers.image.version"@),
        kernel: annotation(manifest, "ostree.linux"@),
        revision: annotation(manifest, "org.opencontainers.image.revision"@),
        created: annotation(manifest, "org.opencontainers.image.created"@),
    }
}

/// Something is missing that the configuration may have.
pub open spec fn is_incomplete(m: MetadataModel) -> bool {
    m.version is None || m.revision is None || m.created is None
}

pub open spec fn first_of(a: Maybe, b: Maybe) -> Maybe {
    match a {
        Some(s) => Some(s),
        None => b,
    }
}

/// What is missing is taken from the labels of the configuration.
pub open spec fn completed(m: MetadataModel, config: Option<JsonModel>) -> MetadataModel {
    match config {
        Some(c) => if is_incomplete(m) {
            MetadataModel {
                version: first_of(m.version, label(c, "org.opencontainers.image.version"@)),
                kernel: first_of(m.kernel, label(c, "ostree.linux"@)),
                revision: first_of(m.revision, label(c, "org.opencontainers.image.revision"@)),
                created: first_of(m.created, label(c, "org.opencontainers.image.created"@)),
            }
        } else {
            m
        },
        None => m,
    }
}

/// The annotations of a manifest, where they are a table of texts.
fn annotations<'a>(manifest: &'a Json) -> (r: Option<&'a Json>)
    ensures
        json::opt_ref(r) == annotations_of(manifest@),
{
    let value: Option<&'a Json> = match manifest {
        Json::Table(_) => manifest.get("annotations"),
        Json::List(l) => if l.len() == 1 {
            assert(manifest@->List_0[0] == l@[0]@);
            Some(&l[0])
        } else {
            None
        },
        _ => None,
    };
    match value {
        Some(v) => match v {
            Json::Table(t) => {
                let ghost m = v@->Table_0;
                let mut i: usize = 0;
                while i < t.len()
                    invariant
                        i <= t@.len(),
                        v@ == JsonModel::Table(m),
                        m.len() == t@.len(),
                        forall|k: int|
                            0 <= k < t@.len() ==> #[trigger] m[k] == (t@[k].0@, t@[k].1@),
                        forall|k: int| 0 <= k < i ==> (#[trigger] m[k]).1 is Text,
                        annotations_value(manifest@) == Some(v@),
                    decreases t@.len() - i,
                {
                    match &t[i].1 {
                        Json::Text(_) => {},
                        _ => {
                            assert(!(m[i as int].1 is Text));
                            return None;
                        },
                    }
                    i += 1;
                }
                Some(v)
            },
            _ => None,
        },
        None => None,
    }
}

fn owned(s: Option<&str>) -> (r: Option<String>)
    ensures
        match s {
            Some(x) => maybe(r) == Some(x@),
            None => r is None,
        },
{
    match s {
        Some(x) => Some(x.to_owned()),
        None => None,
    }
}

fn member_text(table: Option<&Json>, key: &str) -> (r: Option<String>)
    ensures
        maybe(r) == (match table {
            Some(t) => json::text_of(json::member(t@, key@)),
            None => None,
        }),
{
    match table {
        Some(t) => match t.get(key) {
            Some(v) => owned(v.as_str()),
            None => None,
        },
        None => None,
    }
}

/// What the annotations of a manifest say of the build. A manifest without
/// annotations says nothing, which is no reason to leave the build out.
pub fn read_annotations(manifest: &Json) -> (r: Metadata)
    ensures
        r@ == annotated(manifest@),
{
    let table = annotations(manifest);
    Metadata {
        version: member_text(table, "org.opencontainers.image.version"),
        kernel: member_text(table, "ostree.linux"),
        revision: member_text(table, "org.opencontainers.image.revision"),
        created: member_text(table, "org.opencontainers.image.created"),
    }
}

/// Whether the configuration should be asked for what the manifest does not say.
pub fn needs_labels(m: &Metadata) -> (r: bool)
    ensures
        r == is_incomplete(m@),
{
    m.version.is_none() || m.revision.is_none() || m.created.is_none()
}

/// The digest of the configuration that a manifest refers to.
pub open spec fn config_digest_of(manifest: JsonModel) -> Maybe {
    json::text_of(json::at_path(manifest, seq!["config"@, "digest"@]))
}

/// The digest of the configuration that a manifest refers to.
pub fn config_digest(manifest: &Json) -> (r: Option<String>)
    ensures
        maybe(r) == config_digest_of(manifest@),
{
    let path = vec!["config", "digest"];
    assert(text::strs(path@) =~= seq!["config"@, "digest"@]);
    owned(manifest.text_at(path.as_slice()))
}

/// Where the configuration is, told by where the manifest is: the part behind
/// the last `/manifests/` is replaced.
pub open spec fn config_address(manifest_url: Seq<char>, digest: Seq<char>) -> Maybe {
    match text::rhalves(manifest_url, "/manifests/"@) {
        Some(h) => Some(h.0 + "/blobs/"@ + digest),
        None => None,
    }
}

pub fn config_url(manifest_url: &str, digest: &str) -> (r: Option<String>)
    ensures
        maybe(r) == config_address(manifest_url@, digest@),
{
    match text::rsplit_once(manifest_url, "/manifests/") {
        Some((base, _)) => {
            let mut url = base.to_owned();
            url.append("/blobs/");
            url.append(digest);
            Some(url)
        },
        None => None,
    }
}

fn label_text(config: &Json, key: &str) -> (r: Option<String>)
    ensures
        maybe(r) == label(config@, key@),
{
    let path = vec!["config", "Labels", key];
    assert(text::strs(path@) =~= seq!["config"@, "Labels"@, key@]);
    owned(config.text_at(path.as_slice()))
}

fn or_label(own: Option<String>, config: &Json, key: &str) -> (r: Option<String>)
    ensures
        maybe(r) == first_of(maybe(own), label(config@, key@)),
{
    match own {
        Some(s) => Some(s),
        None => label_text(config, key),
    }
}

/// Fill in from the labels of the configuration what the manifest does not say.
pub fn complete(m: Metadata, config: Option<&Json>) -> (r: Metadata)
    ensures
        r@ == completed(m@, json::opt_ref(config)),
{
    if !needs_labels(&m) {
        return m;
    }
    match config {
        Some(c) => Metadata {
            version: or_label(m.version, c, "org.opencontainers.image.version"),
            kernel: or_label(m.kernel, c, "ostree.linux"),
            revision: or_label(m.revision, c, "org.opencontainers.image.revision"),
            created: or_label(m.created, c, "org.opencontainers.image.created"),
        },
        None => m,
    }
}

/// A value that says something: neither empty nor a placeholder.
pub open spec fn meaningful(s: Maybe) -> Maybe {
    match s {
        Some(x) => if x != "local-build"@ && x.len() > 0 {
            Some(x)
        } else {
            None
        },
        None => None,
    }
}

fn drop_placeholder(s: Option<String>) -> (r: Option<String>)
    ensures
        maybe(r) == meaningful(maybe(s)),
{
    match s {
        Some(x) => if !text::eq(x.as_str(), "local-build") && !x.as_str().is_empty() {
            Some(x)
        } else {
            None
        },
        None => None,
    }
}

/// A timestamp that stands for none.
pub open spec fn is_placeholder_time(s: Seq<char>) -> bool {
    text::begins_with(s, "2011-11-11"@)
}

/// The moment that a timestamp tells, where it is no placeholder.
pub open spec fn build_moment(created: Maybe) -> Option<UtcTime> {
    match created {
        Some(s) => if is_placeholder_time(s) {
            None
        } else {
            date::rfc3339_utc(s)
        },
        None => None,
    }
}

/// The moment that a timestamp tells, where it is no placeholder.
pub fn build_time(created: Option<&str>) -> (r: Option<UtcTime>)
    ensures
        r == build_moment(
            match created {
                Some(s) => Some(s@),
                None => None,
            },
        ),
        r matches Some(t) ==> t.wf(),
{
    match created {
        Some(s) => if text::starts_with(s, "2011-11-11") {
            None
        } else {
            date::parse_rfc3339(s)
        },
        None => None,
    }
}

/// `v` is the build of `date` under `full_ref` of which `m` is said, built at
/// `built` where that is known.
pub open spec fn describes(
    v: ImageVersion,
    m: MetadataModel,
    d: Date,
    full_ref: Seq<char>,
    built: Option<UtcTime>,
) -> bool {
    &&& v.date == d
    &&& v.full_ref@ == full_ref
    &&& v.version@ == (match meaningful(m.version) {
        Some(s) => s,
        None => date::compact_text(d),
    })
    &&& v.kernel@ == (match meaningful(m.kernel) {
        Some(s) => s,
        None => Seq::empty(),
    })
    &&& v.revision@ == (match meaningful(m.revision) {
        Some(s) => if s.len() > 8 {
            s.take(8)
        } else {
            s
        },
        None => Seq::empty(),
    })
    &&& v.created == (match built {
        Some(t) => t,
        None => date::midnight(d),
    })
}

/// The build of `d` under `full_ref`: its version is the date where none is
/// given, its commit hash is cut to eight characters, and it was built at
/// midnight where nothing else is known.
pub fn image_version(m: Metadata, d: Date, full_ref: String, built: Option<UtcTime>) -> (r:
    ImageVersion)
    requires
        d.wf(),
    ensures
        describes(r, m@, d, full_ref@, built),
{
    let version = match drop_placeholder(m.version) {
        Some(s) => s,
        None => date::format_compact(&d),
    };
    let kernel = match drop_placeholder(m.kernel) {
        Some(s) => s,
        None => String::new(),
    };
    let revision = match drop_placeholder(m.revision) {
        Some(s) => if text::len(s.as_str()) > 8 {
            let short = text::slice(s.as_str(), 0, 8).to_owned();
            assert(short@ =~= s@.take(8));
            short
        } else {
            s
        },
        None => String::new(),
    };
    let created = match built {
        Some(t) => t,
        None => UtcTime { date: d, seconds_of_day: 0, nanos: 0 },
    };
    ImageVersion { date: d, full_ref, version, kernel, revision, created }
}

/// The build of `d` under `full_ref`, from its manifest and, where that leaves
/// something out, its configuration.
pub fn version_from(manifest: &Json, config: Option<&Json>, d: Date, full_ref: String) -> (r:
    ImageVersion)
    requires
        d.wf(),
    ensures
        ({
            let m = completed(annotated(manifest@), json::opt_ref(config));
            describes(r, m, d, full_ref@, build_moment(m.created))
        }),
{
    let m = complete(read_annotations(manifest), config);
    let built = match &m.created {
        Some(s) => build_time(Some(s.as_str())),
        None => build_time(None),
    };
    image_version(m, d, full_ref, built)
}

/// The day on which the image with this configuration was built. `None` where
/// it says nothing, or a placeholder.
pub open spec fn created_day(config: JsonModel) -> Option<Date> {
    match build_moment(json::text_of(json::member(config, "created"@))) {
        Some(t) => Some(t.date),
        None => None,
    }
}

/// The day on which the image with this configuration was built.
pub fn created_date(config: &Json) -> (r: Option<Date>)
    ensures
        r == created_day(config@),
        r matches Some(d) ==> d.wf(),
{
    let created = match config.get("created") {
        Some(v) => v.as_str(),
        None => None,
    };
    match build_time(created) {
        Some(t) => Some(t.date),
        None => None,
    }
}

/// A build is described whatever its manifest says: what is not said has a
/// default, and no field shows a placeholder.
pub proof fn law_no_placeholder_is_shown(
    v: ImageVersion,
    m: MetadataModel,
    d: Date,
    full_ref: Seq<char>,
    built: Option<UtcTime>,
)
    requires
        describes(v, m, d, full_ref, built),
        d.wf(),
    ensures
        v.version@ != "local-build"@,
        v.kernel@ != "local-build"@,
        v.version@.len() > 0,
        v.revision@.len() <= 8,
{
    reveal_strlit("local-build");
    assert("local-build"@.len() == 11);
    assert("local-build"@[0] == 'l');
    let t = date::compact_text(d);
    let y = date::year_text(d.year as int);
    assert(y.len() > 0);
    assert(t[0] == y[0]);
    if 0 <= d.year <= 9999 {
        text::lemma_four_digits(d.year as nat);
        assert(text::is_digit(y[0]));
    }
}

/// An annotation of a manifest under each key is read for the field of its name.
pub proof fn law_annotations_are_read(
    t: Seq<(Seq<char>, JsonModel)>,
    notes: Seq<(Seq<char>, JsonModel)>,
)
    requires
        json::entry(t, "annotations"@) == Some(JsonModel::Table(notes)),
        forall|i: int| 0 <= i < notes.len() ==> (#[trigger] notes[i]).1 is Text,
    ensures
        ({
            let m = annotated(JsonModel::Table(t));
            &&& m.version == json::text_of(json::entry(notes, "org.opencontainers.image.version"@))
            &&& m.kernel == json::text_of(json::entry(notes, "ostree.linux"@))
            &&& m.revision == json::text_of(
                json::entry(notes, "org.opencontainers.image.revision"@),
            )
            &&& m.created == json::text_of(json::entry(notes, "org.opencontainers.image.created"@))
        }),
{
}

/// What the manifest says counts before the labels of the configuration, and the
/// labels count where it says nothing. They are asked for where the version, the
/// commit or the time is missing.
pub proof fn law_labels_fill_the_gaps(m: MetadataModel, config: JsonModel)
    ensures
        ({
            let c = completed(m, Some(config));
            &&& m.version is Some ==> c.version == m.version
            &&& m.kernel is Some ==> c.kernel == m.kernel
            &&& m.revision is Some ==> c.revision == m.revision
            &&& m.created is Some ==> c.created == m.created
            &&& m.version is None ==> c.version == json::text_of(
                json::at_path(
                    config,
                    seq!["config"@, "Labels"@, "org.opencontainers.image.version"@],
                ),
            )
            &&& m.revision is None ==> c.revision == json::text_of(
                json::at_path(
                    config,
                    seq!["config"@, "Labels"@, "org.opencontainers.image.revision"@],
                ),
            )
            &&& m.created is None ==> c.created == json::text_of(
                json::at_path(
                    config,
                    seq!["config"@, "Labels"@, "org.opencontainers.image.created"@],
                ),
            )
            &&& m.kernel is None && (m.version is None || m.revision is None || m.created is None)
                ==> c.kernel == json::text_of(
                json::at_path(config, seq!["config"@, "Labels"@, "ostree.linux"@]),
            )
            &&& completed(m, None) == m
            &&& is_incomplete(m) <==> m.version is None || m.revision is None || m.created is None
        }),
{
}

/// A build shows what is said of it: its own date and reference; the version and
/// the kernel as given, or the date and nothing where that says nothing; the
/// first eight characters of the commit; and the moment, or midnight of the date.
pub proof fn law_build_shows_what_is_said(
    v: ImageVersion,
    m: MetadataModel,
    d: Date,
    full_ref: Seq<char>,
    built: Option<UtcTime>,
    s: Seq<char>,
)
    requires
        describes(v, m, d, full_ref, built),
        s.len() > 0,
        s != "local-build"@,
    ensures
        v.date == d,
        v.full_ref@ == full_ref,
        m.version == Some(s) ==> v.version@ == s,
        m.version is None || m.version == Some("local-build"@) ==> v.version@
            == date::compact_text(d),
        m.kernel == Some(s) ==> v.kernel@ == s,
        m.kernel is None || m.kernel == Some("local-build"@) ==> v.kernel@.len() == 0,
        m.revision == Some(s) ==> v.revision@ == (if s.len() <= 8 {
            s
        } else {
            s.take(8)
        }),
        m.revision is None ==> v.revision@.len() == 0,
        built matches Some(t) ==> v.created == t,
        built is None ==> v.created.date == d && v.created.seconds_of_day == 0 && v.created.nanos
            == 0,
{
}

/// The configuration of an image is a blob of the same repository, under the
/// digest that the manifest gives.
pub proof fn law_configuration_is_a_blob(
    c: client::StreamModel,
    tag: Seq<char>,
    digest: Seq<char>,
    manifest: JsonModel,
)
    requires
        !tag.contains('/'),
    ensures
        config_address(client::manifest_address(c, tag), digest) == Some(
            client::blob_address(c, digest),
        ),
        config_digest_of(manifest) == json::text_of(
            json::at_path(manifest, seq!["config"@, "digest"@]),
        ),
{
    let home = client::repository_url(c);
    let mark = "/manifests/"@;
    reveal_strlit("/manifests/");
    let url = home + mark + tag;
    let i = home.len() as int;
    assert(url.subrange(i, i + mark.len()) =~= mark);
    assert(text::occurs_at(url, mark, i));
    assert forall|j: int| j > i implies !#[trigger] text::occurs_at(url, mark, j) by {
        if text::occurs_at(url, mark, j) {
            let cut = url.subrange(j, j + mark.len());
            assert(cut[10] == '/');
            assert(url[j + 10] == '/');
            assert(tag[j + 10 - i - 11] == '/');
        }
    }
    text::lemma_last_unique(url, mark, i);
    assert(url.take(i) =~= home);
}

/// A timestamp tells a build's moment unless it is the placeholder of
/// eleven eleven; the day of an image is that of its own timestamp.
pub proof fn law_placeholder_times_tell_nothing(s: Seq<char>, config: JsonModel)
    ensures
        s.len() >= 10 && s.take(10) == "2011-11-11"@ ==> build_moment(Some(s)) is None,
        s.len() < 10 || s.take(10) != "2011-11-11"@ ==> build_moment(Some(s)) == date::rfc3339_utc(
            s,
        ),
        build_moment(None) is None,
        json::member(config, "created"@) == Some(JsonModel::Text(s)) ==> created_day(config) == (
        match build_moment(Some(s)) {
            Some(t) => Some(t.date),
            None => None,
        }),
        json::member(config, "created"@) is None ==> created_day(config) is None,
{
    reveal_strlit("2011-11-11");
    assert("2011-11-11"@.len() == 10);
}

/// What is told of the metadata is what they hold.
pub proof fn law_metadata_hold_what_is_told(m: Metadata)
    ensures
        m.version matches Some(s) ==> m@.version == Some(s@),
        m.version is None ==> m@.version is None,
        m.kernel matches Some(s) ==> m@.kernel == Some(s@),
        m.kernel is None ==> m@.kernel is None,
        m.revision matches Some(s) ==> m@.revision == Some(s@),
        m.revision is None ==> m@.revision is None,
        m.created matches Some(s) ==> m@.created == Some(s@),
        m.created is None ==> m@.created is None,
{
}

} // verus!
