//! Which packages an image has, and how two images differ in them.
//!
//! The packages of an image come from the bill of materials that is attached to
//! it. What is advertised as SPDX is mostly a Syft document, so both shapes are
//! taken. A document without packages is no answer: it is told apart from one
//! with packages everywhere, so that a shape that is not understood is never
//! kept as if it were an image without packages.

use vstd::prelude::*;
use crate::name_map;
use crate::name_map::NameMap;
use crate::text;
use crate::version_compare;
use crate::version_compare::VersionChange;

verus! {

/// The packages of an image: name and version.
pub type PackageMap = NameMap<String>;

/// Package versions by name, taken by their characters.
pub open spec fn versions(m: PackageMap) -> Map<Seq<char>, Seq<char>> {
    m@.map_values(|v: String| v@)
}

/// A package map that may be missing, taken by its view.
pub open spec fn opt_versions(m: Option<PackageMap>) -> Option<Map<Seq<char>, Seq<char>>> {
    match m {
        Some(x) => Some(versions(x)),
        None => None,
    }
}

// ---------------------------------------------------------------------------
// Documents

/// A Syft document, as far as it is read.
#[derive(Debug)]
pub struct SyftDocument {
    pub artifacts: Option<Vec<SyftArtifact>>,
}

#[derive(Debug)]
pub struct SyftArtifact {
    pub name: String,
    pub version: Option<String>,
}

/// An SPDX document, as far as it is read.
#[derive(Debug)]
pub struct SpdxDocument {
    pub packages: Option<Vec<SpdxPackage>>,
}

#[derive(Debug)]
pub struct SpdxPackage {
    pub name: String,
    pub version_info: Option<String>,
    pub spdx_id: Option<String>,
}

/// The version that a document gives; one that it does not give is `unknown`.
pub open spec fn given_version(v: Option<String>) -> Seq<char> {
    match v {
        Some(s) => s@,
        None => "unknown"@,
    }
}

/// The packages of a Syft document. Of entries with one name the last counts.
pub open spec fn syft_packages(artifacts: Seq<SyftArtifact>) -> Map<Seq<char>, Seq<char>>
    decreases artifacts.len(),
{
    if artifacts.len() == 0 {
        Map::empty()
    } else {
        syft_packages(artifacts.drop_last()).insert(
            artifacts.last().name@,
            given_version(artifacts.last().version),
        )
    }
}

/// A version that says something.
pub open spec fn is_known(v: Seq<char>) -> bool {
    v != "unknown"@ && v.len() > 0
}

pub open spec fn is_hex(c: char) -> bool {
    text::is_digit(c) || ('a' <= c && c <= 'f') || ('A' <= c && c <= 'F')
}

/// A version that is nothing but a long commit hash.
pub open spec fn is_hash(v: Seq<char>) -> bool {
    v.len() >= 32 && forall|i: int| 0 <= i < v.len() ==> is_hex(#[trigger] v[i])
}

/// 2 for the element that a component is built from, where that is known.
pub open spec fn score_one(id: Seq<char>, element: Seq<char>) -> int {
    if text::occurs(id, element) {
        2
    } else {
        0
    }
}

/// 2 for the element that a component is built from, 1 for a lesser one.
pub open spec fn score_two(id: Seq<char>, element: Seq<char>, lesser: Seq<char>) -> int {
    if text::occurs(id, element) {
        2
    } else if text::occurs(id, lesser) {
        1
    } else {
        0
    }
}

/// How well an entry fits the component, by the element that it names.
pub open spec fn score(name: Seq<char>, id: Seq<char>) -> int {
    if name == "linux"@ {
        score_one(id, "components-linux.bst"@)
    } else if name == "gnome-control-center"@ {
        score_one(id, "gnome-control-center.bst"@)
    } else if name == "mesa"@ {
        score_two(id, "mesa-mesa.bst"@, "mesa.bst"@)
    } else if name == "podman"@ {
        score_one(id, "podman.bst"@)
    } else if name == "bootc"@ {
        score_one(id, "bootc.bst"@)
    } else if name == "systemd"@ {
        score_two(id, "systemd-base.bst"@, "systemd.bst"@)
    } else if name == "pipewire"@ {
        score_two(id, "pipewire-base.bst"@, "pipewire.bst"@)
    } else if name == "flatpak"@ {
        score_one(id, "flatpak.bst"@)
    } else {
        0
    }
}

/// An entry for a package: its version and its identifier.
pub struct Entry {
    pub version: Seq<char>,
    pub id: Seq<char>,
}

/// Whether a second entry for a package replaces the first: a version that is
/// known, then one that is no commit hash, then the better element, then a
/// version with dots. In all else the first stays.
pub open spec fn replaces(name: Seq<char>, new: Entry, old_entry: Entry) -> bool {
    if !is_known(new.version) {
        false
    } else if !is_known(old_entry.version) {
        true
    } else if is_hash(old_entry.version) != is_hash(new.version) {
        is_hash(old_entry.version)
    } else if score(name, new.id) != score(name, old_entry.id) {
        score(name, new.id) > score(name, old_entry.id)
    } else {
        new.version.contains('.') && !old_entry.version.contains('.')
    }
}

/// The entry that an SPDX package makes.
pub open spec fn entry_of(p: SpdxPackage) -> Entry {
    Entry {
        version: given_version(p.version_info),
        id: match p.spdx_id {
            Some(s) => s@,
            None => Seq::empty(),
        },
    }
}

/// The packages of an SPDX document, each with the entry that counts.
pub open spec fn spdx_entries(packages: Seq<SpdxPackage>) -> Map<Seq<char>, Entry>
    decreases packages.len(),
{
    if packages.len() == 0 {
        Map::empty()
    } else {
        let earlier = spdx_entries(packages.drop_last());
        let name = packages.last().name@;
        let new = entry_of(packages.last());
        if earlier.dom().contains(name) && !replaces(name, new, earlier[name]) {
            earlier
        } else {
            earlier.insert(name, new)
        }
    }
}

/// The packages of an SPDX document.
pub open spec fn spdx_packages(packages: Seq<SpdxPackage>) -> Map<Seq<char>, Seq<char>> {
    spdx_entries(packages).map_values(|e: Entry| e.version)
}

/// A map where there is something in it.
pub open spec fn unless_empty(m: Map<Seq<char>, Seq<char>>) -> Option<Map<Seq<char>, Seq<char>>> {
    if m =~= Map::empty() {
        None
    } else {
        Some(m)
    }
}

/// What a Syft document says.
pub open spec fn syft_answer(doc: Option<SyftDocument>) -> Option<Map<Seq<char>, Seq<char>>> {
    match doc {
        Some(d) => match d.artifacts {
            Some(v) => unless_empty(syft_packages(v@)),
            None => None,
        },
        None => None,
    }
}

/// What an SPDX document says.
pub open spec fn spdx_answer(doc: Option<SpdxDocument>) -> Option<Map<Seq<char>, Seq<char>>> {
    match doc {
        Some(d) => match d.packages {
            Some(v) => unless_empty(spdx_packages(v@)),
            None => None,
        },
        None => None,
    }
}

/// What a document says that may have either shape.
pub open spec fn sbom_answer(syft: Option<SyftDocument>, spdx: Option<SpdxDocument>) -> Option<
    Map<Seq<char>, Seq<char>>,
> {
    match syft_answer(syft) {
        Some(m) => Some(m),
        None => spdx_answer(spdx),
    }
}

fn hash_like(v: &str) -> (r: bool)
    ensures
        r == is_hash(v@),
{
    let cs = text::chars_of(v);
    if cs.len() < 32 {
        return false;
    }
    let mut i: usize = 0;
    while i < cs.len()
        invariant
            cs@ == v@,
            i <= cs@.len(),
            forall|j: int| 0 <= j < i ==> is_hex(#[trigger] v@[j]),
        decreases cs@.len() - i,
    {
        let c = cs[i];
        if !(text::digit(c) || ('a' <= c && c <= 'f') || ('A' <= c && c <= 'F')) {
            assert(!is_hex(v@[i as int]));
            return false;
        }
        i += 1;
    }
    true
}

fn pref_one(id: &str, element: &str) -> (r: i32)
    ensures
        r == score_one(id@, element@),
{
    if text::contains(id, element) {
        2
    } else {
        0
    }
}

fn pref_two(id: &str, element: &str, lesser: &str) -> (r: i32)
    ensures
        r == score_two(id@, element@, lesser@),
{
    if text::contains(id, element) {
        2
    } else if text::contains(id, lesser) {
        1
    } else {
        0
    }
}

fn pref_score(name: &str, id: &str) -> (r: i32)
    ensures
        r == score(name@, id@),
{
    if text::eq(name, "linux") {
        pref_one(id, "components-linux.bst")
    } else if text::eq(name, "gnome-control-center") {
        pref_one(id, "gnome-control-center.bst")
    } else if text::eq(name, "mesa") {
        pref_two(id, "mesa-mesa.bst", "mesa.bst")
    } else if text::eq(name, "podman") {
        pref_one(id, "podman.bst")
    } else if text::eq(name, "bootc") {
        pref_one(id, "bootc.bst")
    } else if text::eq(name, "systemd") {
        pref_two(id, "systemd-base.bst", "systemd.bst")
    } else if text::eq(name, "pipewire") {
        pref_two(id, "pipewire-base.bst", "pipewire.bst")
    } else if text::eq(name, "flatpak") {
        pref_one(id, "flatpak.bst")
    } else {
        0
    }
}

fn has_dot(v: &str) -> (r: bool)
    ensures
        r == v@.contains('.'),
{
    let cs = text::chars_of(v);
    let mut i: usize = 0;
    while i < cs.len()
        invariant
            cs@ == v@,
            i <= cs@.len(),
            forall|j: int| 0 <= j < i ==> v@[j] != '.',
        decreases cs@.len() - i,
    {
        if cs[i] == '.' {
            assert(v@[i as int] == '.');
            return true;
        }
        i += 1;
    }
    false
}

/// Whether an entry for the package `name` is to be taken in place of another.
pub fn is_newer_version(
    name: &str,
    new_ver: &str,
    new_spdx_id: &str,
    old_ver: &str,
    old_spdx_id: &str,
) -> (r: bool)
    ensures
        r == replaces(
            name@,
            (Entry { version: new_ver@, id: new_spdx_id@ }),
            (Entry { version: old_ver@, id: old_spdx_id@ }),
        ),
{
    if text::eq(new_ver, "unknown") || new_ver.is_empty() {
        return false;
    }
    if text::eq(old_ver, "unknown") || old_ver.is_empty() {
        return true;
    }
    let old_hash = hash_like(old_ver);
    let new_hash = hash_like(new_ver);
    if old_hash && !new_hash {
        return true;
    }
    if new_hash && !old_hash {
        return false;
    }
    let new_score = pref_score(name, new_spdx_id);
    let old_score = pref_score(name, old_spdx_id);
    if new_score > old_score {
        return true;
    }
    if old_score > new_score {
        return false;
    }
    has_dot(new_ver) && !has_dot(old_ver)
}

fn or_unknown(v: &Option<String>) -> (r: String)
    ensures
        r@ == given_version(*v),
{
    match v {
        Some(s) => s.clone(),
        None => "unknown".to_owned(),
    }
}

pub(crate) fn unless_empty_map(m: PackageMap) -> (r: Option<PackageMap>)
    ensures
        opt_versions(r) == unless_empty(versions(m)),
{
    let empty = m.is_empty();
    proof {
        if empty {
            assert(versions(m) =~= Map::empty());
        } else {
            let k = choose|k: Seq<char>| m@.dom().contains(k);
            assert(versions(m).dom().contains(k));
        }
    }
    if empty {
        None
    } else {
        Some(m)
    }
}

/// The packages of a Syft document; `None` where there are none.
pub fn parse_syft(doc: &Option<SyftDocument>) -> (r: Option<PackageMap>)
    ensures
        opt_versions(r) == syft_answer(*doc),
{
    match doc {
        Some(d) => match &d.artifacts {
            Some(v) => {
                let mut map: PackageMap = NameMap::new();
                let mut i: usize = 0;
                assert(versions(map) =~= syft_packages(v@.take(0)));
                while i < v.len()
                    invariant
                        i <= v@.len(),
                        versions(map) == syft_packages(v@.take(i as int)),
                    decreases v@.len() - i,
                {
                    let ghost earlier = versions(map);
                    proof {
                        assert(v@.take(i + 1).drop_last() =~= v@.take(i as int));
                        assert(v@.take(i + 1).last() == v@[i as int]);
                    }
                    let version = or_unknown(&v[i].version);
                    let ghost given = version@;
                    map.insert(v[i].name.clone(), version);
                    assert(versions(map) =~= earlier.insert(v@[i as int].name@, given));
                    i += 1;
                }
                assert(v@.take(v@.len() as int) =~= v@);
                unless_empty_map(map)
            },
            None => None,
        },
        None => None,
    }
}

/// Entries by name, taken by their characters.
spec fn entries_view(m: NameMap<(String, String)>) -> Map<Seq<char>, Entry> {
    m@.map_values(|e: (String, String)| Entry { version: e.0@, id: e.1@ })
}

/// The packages of an SPDX document; `None` where there are none.
pub fn parse_spdx(doc: &Option<SpdxDocument>) -> (r: Option<PackageMap>)
    ensures
        opt_versions(r) == spdx_answer(*doc),
{
    match doc {
        Some(d) => match &d.packages {
            Some(v) => {
                let mut map: NameMap<(String, String)> = NameMap::new();
                let mut i: usize = 0;
                assert(entries_view(map) =~= spdx_entries(v@.take(0)));
                while i < v.len()
                    invariant
                        i <= v@.len(),
                        entries_view(map) == spdx_entries(v@.take(i as int)),
                    decreases v@.len() - i,
                {
                    let ghost earlier = entries_view(map);
                    let ghost p = v@[i as int];
                    proof {
                        assert(v@.take(i + 1).drop_last() =~= v@.take(i as int));
                        assert(v@.take(i + 1).last() == p);
                    }
                    let version = or_unknown(&v[i].version_info);
                    let id = match &v[i].spdx_id {
                        Some(s) => s.clone(),
                        None => String::new(),
                    };
                    let name = v[i].name.as_str();
                    let take = match map.get(name) {
                        Some(e) => is_newer_version(
                            name,
                            version.as_str(),
                            id.as_str(),
                            e.0.as_str(),
                            e.1.as_str(),
                        ),
                        None => true,
                    };
                    if take {
                        map.insert(name.to_owned(), (version, id));
                        assert(entries_view(map) =~= earlier.insert(p.name@, entry_of(p)));
                    }
                    i += 1;
                }
                assert(v@.take(v@.len() as int) =~= v@);
                unless_empty_map(only_versions(&map))
            },
            None => {
                None
            },
        },
        None => None,
    }
}

/// The versions of the entries.
fn only_versions(map: &NameMap<(String, String)>) -> (r: PackageMap)
    ensures
        versions(r) == entries_view(*map).map_values(|e: Entry| e.version),
{
    let keys = map.keys();
    let ghost ks = text::strs(keys@);
    let ghost whole = entries_view(*map).map_values(|e: Entry| e.version);
    let mut out: PackageMap = NameMap::new();
    let mut i: usize = 0;
    while i < keys.len()
        invariant
            i <= keys@.len(),
            ks == text::strs(keys@),
            whole == entries_view(*map).map_values(|e: Entry| e.version),
            forall|k: Seq<char>| #[trigger] ks.contains(k) <==> map@.dom().contains(k),
            forall|k: Seq<char>| #[trigger]
                versions(out).dom().contains(k) <==> ks.take(i as int).contains(k),
            forall|k: Seq<char>|
                versions(out).dom().contains(k) ==> #[trigger] versions(out)[k] == whole[k],
        decreases keys@.len() - i,
    {
        let ghost earlier = versions(out);
        let ghost key = ks[i as int];
        proof {
            assert(ks.contains(key));
            assert(ks.take(i + 1) =~= ks.take(i as int).push(key));
        }
        match map.get(keys[i]) {
            Some(e) => {
                out.insert(keys[i].to_owned(), e.0.clone());
                proof {
                    assert(versions(out) =~= earlier.insert(key, whole[key]));
                    assert forall|k: Seq<char>| #[trigger]
                        versions(out).dom().contains(k) <==> ks.take(i + 1).contains(k) by {
                        lemma_push_contains(ks.take(i as int), key, k);
                    }
                }
            },
            None => {},
        }
        i += 1;
    }
    proof {
        assert(ks.take(ks.len() as int) =~= ks);
        assert forall|k: Seq<char>| versions(out).dom().contains(k) <==> whole.dom().contains(
            k,
        ) by {
            assert(ks.contains(k) <==> map@.dom().contains(k));
        }
        assert(versions(out) =~= whole);
    }
    out
}

proof fn lemma_push_contains(s: Seq<Seq<char>>, y: Seq<char>, x: Seq<char>)
    ensures
        s.push(y).contains(x) <==> s.contains(x) || x == y,
{
    if s.contains(x) {
        let k = choose|k: int| 0 <= k < s.len() && s[k] == x;
        assert(s.push(y)[k] == x);
    }
    if x == y {
        assert(s.push(y)[s.len() as int] == x);
    }
    if s.push(y).contains(x) && x != y {
        let k = choose|k: int| 0 <= k < s.push(y).len() && s.push(y)[k] == x;
        assert(s[k] == x);
    }
}

/// The packages that a bill of materials lists: as a Syft document, else as an
/// SPDX one. Each is what could be read of it in that shape. `None` where
/// neither shape has any package.
pub fn parse_sbom(syft: &Option<SyftDocument>, spdx: &Option<SpdxDocument>) -> (r: Option<
    PackageMap,
>)
    ensures
        opt_versions(r) == sbom_answer(*syft, *spdx),
{
    match parse_syft(syft) {
        Some(m) => Some(m),
        None => parse_spdx(spdx),
    }
}

// ---------------------------------------------------------------------------
// Differences

/// A package and its versions in two images.
#[derive(Debug, Clone, PartialEq, Eq)]
pub struct PackageDiff {
    pub name: String,
    pub old_version: String,
    pub new_version: String,
}

/// How two images differ in their packages.
#[derive(Debug)]
pub struct SbomDiffResult {
    /// Packages whose version moved forward, or in no direction that can be
    /// told; never one that moved backward.
    pub upgraded: Vec<PackageDiff>,
    /// Packages whose version moved backward.
    pub downgraded: Vec<PackageDiff>,
    pub removed: Vec<String>,
    pub added: Vec<PackageDiff>,
    /// The versions of the components that are shown by name.
    pub stack_info: NameMap<(String, String)>,
}

/// What is installed: versions by name.
pub type Installed = Map<Seq<char>, Seq<char>>;

/// The package is in both, in different versions.
pub open spec fn is_changed(booted: Installed, target: Installed, name: Seq<char>) -> bool {
    booted.dom().contains(name) && target.dom().contains(name) && booted[name] != target[name]
}

/// The package moves backward.
pub open spec fn is_downgraded(booted: Installed, target: Installed, name: Seq<char>) -> bool {
    is_changed(booted, target, name) && version_compare::change(booted[name], target[name])
        is Downgrade
}

/// The package changes, and does not move backward.
pub open spec fn is_upgraded(booted: Installed, target: Installed, name: Seq<char>) -> bool {
    is_changed(booted, target, name) && !(version_compare::change(booted[name], target[name])
        is Downgrade)
}

pub open spec fn is_removed(booted: Installed, target: Installed, name: Seq<char>) -> bool {
    booted.dom().contains(name) && !target.dom().contains(name)
}

pub open spec fn is_added(booted: Installed, target: Installed, name: Seq<char>) -> bool {
    is_removed(target, booted, name)
}

/// The version of a package; empty where it is not there.
pub open spec fn version_in(m: Installed, name: Seq<char>) -> Seq<char> {
    if m.dom().contains(name) {
        m[name]
    } else {
        Seq::empty()
    }
}

/// The names of a list of differences.
pub open spec fn diff_names(list: Seq<PackageDiff>) -> Seq<Seq<char>> {
    Seq::new(list.len(), |i: int| list[i].name@)
}

/// The list tells of exactly the packages `which`, each once, by name, with its
/// versions on both sides.
pub open spec fn tells(
    list: Seq<PackageDiff>,
    booted: Installed,
    target: Installed,
    which: spec_fn(Seq<char>) -> bool,
) -> bool {
    &&& name_map::strictly_ascends(diff_names(list))
    &&& forall|n: Seq<char>| #[trigger] diff_names(list).contains(n) <==> which(n)
    &&& forall|i: int|
        0 <= i < list.len() ==> (#[trigger] list[i]).old_version@ == version_in(
            booted,
            list[i].name@,
        ) && list[i].new_version@ == version_in(target, list[i].name@)
}

/// The components that are shown by name, each with the package it comes from.
pub open spec fn stack_components() -> Seq<(Seq<char>, Seq<char>)> {
    seq![
        ("Kernel"@, "linux"@),
        ("GNOME"@, "gnome-control-center"@),
        ("Mesa"@, "mesa"@),
        ("Podman"@, "podman"@),
        ("Nvidia"@, "NVIDIA-Linux-x86"@),
        ("bootc"@, "bootc"@),
        ("systemd"@, "systemd"@),
        ("pipewire"@, "pipewire"@),
        ("Flatpak"@, "flatpak"@),
    ]
}

/// The versions of the components that are known on one side at least.
pub open spec fn stack_of(
    components: Seq<(Seq<char>, Seq<char>)>,
    booted: Installed,
    target: Installed,
) -> Map<Seq<char>, (Seq<char>, Seq<char>)>
    decreases components.len(),
{
    if components.len() == 0 {
        Map::empty()
    } else {
        let rest = stack_of(components.drop_last(), booted, target);
        let (label, package) = components.last();
        let b = version_in(booted, package);
        let t = version_in(target, package);
        if is_known(b) || is_known(t) {
            rest.insert(label, (b, t))
        } else {
            rest
        }
    }
}

/// Pairs of versions by label, taken by their characters.
pub open spec fn stack_view(m: NameMap<(String, String)>) -> Map<
    Seq<char>,
    (Seq<char>, Seq<char>),
> {
    m@.map_values(|e: (String, String)| (e.0@, e.1@))
}

fn version_or_empty(m: &PackageMap, name: &str) -> (r: String)
    ensures
        r@ == version_in(versions(*m), name@),
{
    match m.get(name) {
        Some(v) => v.clone(),
        None => String::new(),
    }
}

fn known(v: &str) -> (r: bool)
    ensures
        r == is_known(v@),
{
    !v.is_empty() && !text::eq(v, "unknown")
}

/// The versions of the components that are shown by name, for each of which at
/// least one side has a version that says something.
pub fn extract_stack_info(booted_map: &PackageMap, target_map: &PackageMap) -> (r: NameMap<
    (String, String),
>)
    ensures
        stack_view(r) == stack_of(stack_components(), versions(*booted_map), versions(*target_map)),
{
    let components = vec![
        ("Kernel", "linux"),
        ("GNOME", "gnome-control-center"),
        ("Mesa", "mesa"),
        ("Podman", "podman"),
        ("Nvidia", "NVIDIA-Linux-x86"),
        ("bootc", "bootc"),
        ("systemd", "systemd"),
        ("pipewire", "pipewire"),
        ("Flatpak", "flatpak"),
    ];
    let ghost cs = stack_components();
    let ghost b = versions(*booted_map);
    let ghost t = versions(*target_map);
    let mut out: NameMap<(String, String)> = NameMap::new();
    let mut i: usize = 0;
    assert(stack_view(out) =~= stack_of(cs.take(0), b, t));
    while i < components.len()
        invariant
            i <= components@.len(),
            components@.len() == cs.len(),
            forall|k: int|
                0 <= k < cs.len() ==> #[trigger] cs[k] == (components@[k].0@, components@[k].1@),
            b == versions(*booted_map),
            t == versions(*target_map),
            stack_view(out) == stack_of(cs.take(i as int), b, t),
        decreases components@.len() - i,
    {
        let ghost earlier = stack_view(out);
        let (label, package) = components[i];
        proof {
            assert(cs.take(i + 1).drop_last() =~= cs.take(i as int));
            assert(cs.take(i + 1).last() == (label@, package@));
        }
        let booted = version_or_empty(booted_map, package);
        let target = version_or_empty(target_map, package);
        if known(booted.as_str()) || known(target.as_str()) {
            let ghost pair = (booted@, target@);
            out.insert(label.to_owned(), (booted, target));
            assert(stack_view(out) =~= earlier.insert(label@, pair));
        }
        i += 1;
    }
    assert(cs.take(cs.len() as int) =~= cs);
    out
}

/// What is known of a list of differences while the names are gone through in
/// order: it tells of those among the first `i`.
spec fn tells_so_far(
    list: Seq<PackageDiff>,
    booted: Installed,
    target: Installed,
    which: spec_fn(Seq<char>) -> bool,
    ks: Seq<Seq<char>>,
    i: int,
) -> bool {
    &&& tells(list, booted, target, |n: Seq<char>| which(n) && ks.take(i).contains(n))
}

proof fn lemma_tell_next(
    list: Seq<PackageDiff>,
    longer: Seq<PackageDiff>,
    booted: Installed,
    target: Installed,
    which: spec_fn(Seq<char>) -> bool,
    ks: Seq<Seq<char>>,
    i: int,
)
    requires
        name_map::strictly_ascends(ks),
        0 <= i < ks.len(),
        tells_so_far(list, booted, target, which, ks, i),
        which(ks[i]) ==> longer.len() == list.len() + 1 && longer.drop_last() == list
            && longer.last().name@ == ks[i] && longer.last().old_version@ == version_in(
            booted,
            ks[i],
        ) && longer.last().new_version@ == version_in(target, ks[i]),
        !which(ks[i]) ==> longer == list,
    ensures
        tells_so_far(longer, booted, target, which, ks, i + 1),
{
    let now = |n: Seq<char>| which(n) && ks.take(i).contains(n);
    let next = |n: Seq<char>| which(n) && ks.take(i + 1).contains(n);
    assert(ks.take(i + 1) =~= ks.take(i).push(ks[i]));
    let ns = diff_names(list);
    let ls = diff_names(longer);
    assert forall|n: Seq<char>| #[trigger] next(n) <==> now(n) || (n == ks[i] && which(n)) by {
        lemma_push_contains(ks.take(i), ks[i], n);
    }
    if which(ks[i]) {
        assert forall|k: int| 0 <= k < list.len() implies list[k] == longer[k] by {
            assert(longer.drop_last()[k] == longer[k]);
        }
        assert(ls =~= ns.push(ks[i]));
        assert forall|k: int| 0 <= k < ns.len() implies name_map::before(
            #[trigger] ns[k],
            ks[i],
        ) by {
            assert(ns.contains(ns[k]));
            assert(now(ns[k]));
            let j = choose|j: int| 0 <= j < ks.take(i).len() && ks.take(i)[j] == ns[k];
            assert(name_map::before(ks[j], ks[i]));
        }
        assert forall|a: int, b: int| 0 <= a < b < ls.len() implies name_map::before(
            #[trigger] ls[a],
            #[trigger] ls[b],
        ) by {
            assert(ls[a] == ns[a]);
            if b < ns.len() {
                assert(name_map::before(ns[a], ns[b]));
            }
        }
        assert forall|n: Seq<char>| #[trigger] ls.contains(n) <==> next(n) by {
            lemma_push_contains(ns, ks[i], n);
            assert(ns.contains(n) <==> now(n));
            assert(next(n) <==> now(n) || (n == ks[i] && which(n)));
        }
        assert forall|k: int| 0 <= k < longer.len() implies (
        #[trigger] longer[k]).old_version@ == version_in(booted, longer[k].name@)
            && longer[k].new_version@ == version_in(target, longer[k].name@) by {
            if k < list.len() {
                assert(list[k] == longer[k]);
            }
        }
    } else {
        assert forall|n: Seq<char>| #[trigger] ls.contains(n) <==> next(n) by {
            assert(ns.contains(n) <==> now(n));
            assert(next(n) <==> now(n) || (n == ks[i] && which(n)));
        }
    }
}

proof fn lemma_tell_nothing(
    booted: Installed,
    target: Installed,
    which: spec_fn(Seq<char>) -> bool,
    ks: Seq<Seq<char>>,
)
    ensures
        tells_so_far(Seq::empty(), booted, target, which, ks, 0),
{
}

proof fn lemma_tell_all(
    list: Seq<PackageDiff>,
    booted: Installed,
    target: Installed,
    which: spec_fn(Seq<char>) -> bool,
    ks: Seq<Seq<char>>,
)
    requires
        tells_so_far(list, booted, target, which, ks, ks.len() as int),
        forall|n: Seq<char>| #[trigger] which(n) ==> ks.contains(n),
    ensures
        tells(list, booted, target, which),
{
    assert(ks.take(ks.len() as int) =~= ks);
    assert forall|n: Seq<char>| #[trigger] diff_names(list).contains(n) <==> which(n) by {
        let now = |m: Seq<char>| which(m) && ks.take(ks.len() as int).contains(m);
        assert(diff_names(list).contains(n) <==> now(n));
    }
}

fn diff_entry(booted_map: &PackageMap, target_map: &PackageMap, name: &str) -> (r: PackageDiff)
    ensures
        r.name@ == name@,
        r.old_version@ == version_in(versions(*booted_map), name@),
        r.new_version@ == version_in(versions(*target_map), name@),
{
    PackageDiff {
        name: name.to_owned(),
        old_version: version_or_empty(booted_map, name),
        new_version: version_or_empty(target_map, name),
    }
}

/// The packages that change, in the direction asked for.
fn changed_packages(booted_map: &PackageMap, target_map: &PackageMap, backward: bool) -> (r: Vec<
    PackageDiff,
>)
    ensures
        backward ==> tells(
            r@,
            versions(*booted_map),
            versions(*target_map),
            |n: Seq<char>| is_downgraded(versions(*booted_map), versions(*target_map), n),
        ),
        !backward ==> tells(
            r@,
            versions(*booted_map),
            versions(*target_map),
            |n: Seq<char>| is_upgraded(versions(*booted_map), versions(*target_map), n),
        ),
{
    let ghost b = versions(*booted_map);
    let ghost t = versions(*target_map);
    let ghost which = if backward {
        |n: Seq<char>| is_downgraded(b, t, n)
    } else {
        |n: Seq<char>| is_upgraded(b, t, n)
    };
    let keys = booted_map.keys();
    let ghost ks = text::strs(keys@);
    let mut out: Vec<PackageDiff> = Vec::new();
    let mut i: usize = 0;
    proof {
        lemma_tell_nothing(b, t, which, ks);
        assert(out@ =~= Seq::empty());
    }
    while i < keys.len()
        invariant
            i <= keys@.len(),
            ks == text::strs(keys@),
            b == versions(*booted_map),
            t == versions(*target_map),
            which == (if backward {
                |n: Seq<char>| is_downgraded(b, t, n)
            } else {
                |n: Seq<char>| is_upgraded(b, t, n)
            }),
            name_map::strictly_ascends(ks),
            forall|k: Seq<char>| #[trigger] ks.contains(k) <==> booted_map@.dom().contains(k),
            tells_so_far(out@, b, t, which, ks, i as int),
        decreases keys@.len() - i,
    {
        let ghost so_far = out@;
        let name = keys[i];
        assert(ks[i as int] == name@);
        assert(ks.contains(name@));
        let take = match (booted_map.get(name), target_map.get(name)) {
            (Some(bv), Some(tv)) => {
                if text::eq(bv.as_str(), tv.as_str()) {
                    false
                } else {
                    match version_compare::classify(bv.as_str(), tv.as_str()) {
                        VersionChange::Downgrade => backward,
                        _ => !backward,
                    }
                }
            },
            _ => false,
        };
        assert(take == which(name@));
        if take {
            out.push(diff_entry(booted_map, target_map, name));
            assert(out@.drop_last() =~= so_far);
        }
        proof {
            lemma_tell_next(so_far, out@, b, t, which, ks, i as int);
        }
        i += 1;
    }
    proof {
        lemma_tell_all(out@, b, t, which, ks);
    }
    out
}

/// The packages that only the target has.
fn added_packages(booted_map: &PackageMap, target_map: &PackageMap) -> (r: Vec<PackageDiff>)
    ensures
        tells(
            r@,
            versions(*booted_map),
            versions(*target_map),
            |n: Seq<char>| is_added(versions(*booted_map), versions(*target_map), n),
        ),
{
    let ghost b = versions(*booted_map);
    let ghost t = versions(*target_map);
    let ghost which = |n: Seq<char>| is_added(b, t, n);
    let keys = target_map.keys();
    let ghost ks = text::strs(keys@);
    let mut out: Vec<PackageDiff> = Vec::new();
    let mut i: usize = 0;
    proof {
        lemma_tell_nothing(b, t, which, ks);
        assert(out@ =~= Seq::empty());
    }
    while i < keys.len()
        invariant
            i <= keys@.len(),
            ks == text::strs(keys@),
            b == versions(*booted_map),
            t == versions(*target_map),
            which == (|n: Seq<char>| is_added(b, t, n)),
            name_map::strictly_ascends(ks),
            forall|k: Seq<char>| #[trigger] ks.contains(k) <==> target_map@.dom().contains(k),
            tells_so_far(out@, b, t, which, ks, i as int),
        decreases keys@.len() - i,
    {
        let ghost so_far = out@;
        let name = keys[i];
        assert(ks[i as int] == name@);
        assert(ks.contains(name@));
        if !booted_map.contains_key(name) {
            out.push(diff_entry(booted_map, target_map, name));
            assert(out@.drop_last() =~= so_far);
        }
        proof {
            lemma_tell_next(so_far, out@, b, t, which, ks, i as int);
        }
        i += 1;
    }
    proof {
        lemma_tell_all(out@, b, t, which, ks);
    }
    out
}

/// The names of the packages that only the booted image has.
fn removed_packages(booted_map: &PackageMap, target_map: &PackageMap) -> (r: Vec<String>)
    ensures
        name_map::strictly_ascends(text::views(r@)),
        forall|n: Seq<char>| #[trigger]
            text::views(r@).contains(n) <==> is_removed(
                versions(*booted_map),
                versions(*target_map),
                n,
            ),
{
    let mirrored = added_packages(target_map, booted_map);
    let ghost ns = diff_names(mirrored@);
    let mut out: Vec<String> = Vec::new();
    let mut i: usize = 0;
    while i < mirrored.len()
        invariant
            i <= mirrored@.len(),
            ns == diff_names(mirrored@),
            text::views(out@) =~= ns.take(i as int),
        decreases mirrored@.len() - i,
    {
        let ghost so_far = text::views(out@);
        out.push(mirrored[i].name.clone());
        assert(text::views(out@) =~= so_far.push(ns[i as int]));
        i += 1;
    }
    proof {
        assert(text::views(out@) =~= ns);
        let which = |n: Seq<char>| is_added(versions(*target_map), versions(*booted_map), n);
        assert forall|n: Seq<char>| #[trigger] text::views(out@).contains(n) <==> is_removed(
            versions(*booted_map),
            versions(*target_map),
            n,
        ) by {
            assert(ns.contains(n) <==> which(n));
        }
    }
    out
}

/// `r` tells how `target` differs from `booted`.
pub open spec fn is_diff(r: SbomDiffResult, booted: Installed, target: Installed) -> bool {
    &&& tells(r.upgraded@, booted, target, |n: Seq<char>| is_upgraded(booted, target, n))
    &&& tells(r.downgraded@, booted, target, |n: Seq<char>| is_downgraded(booted, target, n))
    &&& tells(r.added@, booted, target, |n: Seq<char>| is_added(booted, target, n))
    &&& name_map::strictly_ascends(text::views(r.removed@))
    &&& forall|n: Seq<char>| #[trigger]
        text::views(r.removed@).contains(n) <==> is_removed(booted, target, n)
    &&& stack_view(r.stack_info) == stack_of(stack_components(), booted, target)
}

/// How two sets of packages differ. Every list is in alphabetical order.
pub fn diff_packages(booted_map: &PackageMap, target_map: &PackageMap) -> (r: SbomDiffResult)
    ensures
        is_diff(r, versions(*booted_map), versions(*target_map)),
{
    SbomDiffResult {
        upgraded: changed_packages(booted_map, target_map, false),
        downgraded: changed_packages(booted_map, target_map, true),
        removed: removed_packages(booted_map, target_map),
        added: added_packages(booted_map, target_map),
        stack_info: extract_stack_info(booted_map, target_map),
    }
}

// ---------------------------------------------------------------------------
// Laws

/// Every package of either image stays as it is or is told of in exactly one
/// list.
pub proof fn law_one_list_for_each(booted: Installed, target: Installed, name: Seq<char>)
    requires
        booted.dom().contains(name) || target.dom().contains(name),
    ensures
        ({
            let same = booted.dom().contains(name) && target.dom().contains(name) && booted[name]
                == target[name];
            let up = is_upgraded(booted, target, name);
            let down = is_downgraded(booted, target, name);
            let gone = is_removed(booted, target, name);
            let new = is_added(booted, target, name);
            &&& same || up || down || gone || new
            &&& same ==> !up && !down && !gone && !new
            &&& up ==> !down && !gone && !new
            &&& down ==> !gone && !new
            &&& gone ==> !new
        }),
{
}

/// An image does not differ from itself.
pub proof fn law_no_difference_from_itself(r: SbomDiffResult, m: Installed)
    requires
        is_diff(r, m, m),
    ensures
        r.upgraded@.len() == 0,
        r.downgraded@.len() == 0,
        r.added@.len() == 0,
        r.removed@.len() == 0,
{
    if r.upgraded@.len() > 0 {
        assert(diff_names(r.upgraded@).contains(diff_names(r.upgraded@)[0]));
    }
    if r.downgraded@.len() > 0 {
        assert(diff_names(r.downgraded@).contains(diff_names(r.downgraded@)[0]));
    }
    if r.added@.len() > 0 {
        assert(diff_names(r.added@).contains(diff_names(r.added@)[0]));
    }
    if r.removed@.len() > 0 {
        assert(text::views(r.removed@).contains(text::views(r.removed@)[0]));
    }
}

/// On the way back, what was added is removed, what was removed is added, and
/// what moved backward moves forward.
pub proof fn law_way_back(booted: Installed, target: Installed, name: Seq<char>)
    ensures
        is_added(booted, target, name) <==> is_removed(target, booted, name),
        is_removed(booted, target, name) <==> is_added(target, booted, name),
        is_changed(booted, target, name) <==> is_changed(target, booted, name),
        is_downgraded(booted, target, name) ==> is_upgraded(target, booted, name),
{
    if is_changed(booted, target, name) {
        version_compare::law_change_reversed(booted[name], target[name]);
    }
}

/// A package whose version is missing on one side is never told to move
/// backward.
pub proof fn law_unknown_is_no_downgrade(booted: Installed, target: Installed, name: Seq<char>)
    requires
        is_changed(booted, target, name),
        version_compare::is_missing(booted[name]) || version_compare::is_missing(target[name]),
    ensures
        is_upgraded(booted, target, name),
{
}

/// Of two entries for a package not each replaces the other.
pub proof fn law_replacing_is_one_way(name: Seq<char>, a: Entry, b: Entry)
    ensures
        !(replaces(name, a, b) && replaces(name, b, a)),
{
}

/// A version that says something is not lost: where an SPDX document gives one
/// for a package, the package has one.
pub proof fn law_known_version_is_kept(packages: Seq<SpdxPackage>, k: int)
    requires
        0 <= k < packages.len(),
        is_known(entry_of(packages[k]).version),
    ensures
        spdx_packages(packages).dom().contains(packages[k].name@),
        is_known(spdx_packages(packages)[packages[k].name@]),
    decreases packages.len(),
{
    let front = packages.drop_last();
    if k < packages.len() - 1 {
        assert(front[k] == packages[k]);
        law_known_version_is_kept(front, k);
    }
}

/// A bill of materials is never answered with an empty map.
pub proof fn law_no_empty_answer(syft: Option<SyftDocument>, spdx: Option<SpdxDocument>)
    ensures
        syft_answer(syft) matches Some(m) ==> m != Map::<Seq<char>, Seq<char>>::empty(),
        spdx_answer(spdx) matches Some(m) ==> m != Map::<Seq<char>, Seq<char>>::empty(),
{
}

/// Where the labels of the components are different, each component has its own
/// entry.
proof fn lemma_stack(
    components: Seq<(Seq<char>, Seq<char>)>,
    booted: Installed,
    target: Installed,
    label: Seq<char>,
)
    requires
        forall|i: int, j: int|
            0 <= i < j < components.len() ==> (#[trigger] components[i]).0 != (
            #[trigger] components[j]).0,
    ensures
        ({
            let m = stack_of(components, booted, target);
            &&& m.dom().contains(label) ==> exists|k: int|
                0 <= k < components.len() && (#[trigger] components[k]).0 == label
            &&& forall|k: int|
                0 <= k < components.len() && (#[trigger] components[k]).0 == label ==> {
                    let b = version_in(booted, components[k].1);
                    let v = version_in(target, components[k].1);
                    &&& m.dom().contains(label) <==> is_known(b) || is_known(v)
                    &&& m.dom().contains(label) ==> m[label] == (b, v)
                }
        }),
    decreases components.len(),
{
    if components.len() > 0 {
        let front = components.drop_last();
        let m = stack_of(components, booted, target);
        let n = components.len() - 1;
        assert forall|i: int, j: int| 0 <= i < j < front.len() implies (#[trigger] front[i]).0 != (
        #[trigger] front[j]).0 by {
            assert(components[i].0 != components[j].0);
        }
        lemma_stack(front, booted, target, label);
        assert(components[n] == components.last());
        if m.dom().contains(label) {
            if components[n].0 != label {
                let k = choose|k: int| 0 <= k < front.len() && (#[trigger] front[k]).0 == label;
                assert(components[k].0 == label);
            }
        }
        assert forall|k: int| 0 <= k < components.len() && (#[trigger] components[k]).0
            == label implies {
            let b = version_in(booted, components[k].1);
            let v = version_in(target, components[k].1);
            &&& m.dom().contains(label) <==> is_known(b) || is_known(v)
            &&& m.dom().contains(label) ==> m[label] == (b, v)
        } by {
            if k < n {
                assert(front[k] == components[k]);
                assert(components[k].0 != components[n].0);
            } else {
                if stack_of(front, booted, target).dom().contains(label) {
                    let j = choose|j: int|
                        0 <= j < front.len() && (#[trigger] front[j]).0 == label;
                    assert(components[j].0 != components[n].0);
                }
            }
        }
    }
}

proof fn lemma_labels_differ()
    ensures
        forall|i: int, j: int|
            0 <= i < j < stack_components().len() ==> (#[trigger] stack_components()[i]).0 != (
            #[trigger] stack_components()[j]).0,
{
    reveal_strlit("Kernel");
    reveal_strlit("GNOME");
    reveal_strlit("Mesa");
    reveal_strlit("Podman");
    reveal_strlit("Nvidia");
    reveal_strlit("bootc");
    reveal_strlit("systemd");
    reveal_strlit("pipewire");
    reveal_strlit("Flatpak");
    assert("Kernel"@.len() == 6
        && "GNOME"@.len() == 5
        && "Mesa"@.len() == 4
        && "Podman"@.len() == 6
        && "Nvidia"@.len() == 6
        && "bootc"@.len() == 5
        && "systemd"@.len() == 7
        && "pipewire"@.len() == 8
        && "Flatpak"@.len() == 7);
    assert("Kernel"@[0] == 'K' && "Podman"@[0] == 'P' && "Nvidia"@[0] == 'N');
    assert("GNOME"@[0] == 'G' && "bootc"@[0] == 'b');
    assert("systemd"@[0] == 's' && "Flatpak"@[0] == 'F');
}

/// What a map of packages says of a package: its version, unless it has none
/// that says something.
pub open spec fn says(m: Installed, name: Seq<char>) -> Option<Seq<char>> {
    if m.dom().contains(name) && m[name].len() > 0 && m[name] != "unknown"@ {
        Some(m[name])
    } else {
        None
    }
}

/// `m` shows under `label` the versions of the package `name` on both sides
/// exactly where one of them says something.
pub open spec fn shows(
    m: Map<Seq<char>, (Seq<char>, Seq<char>)>,
    label: Seq<char>,
    booted: Installed,
    target: Installed,
    name: Seq<char>,
) -> bool {
    &&& m.dom().contains(label) <==> says(booted, name) is Some || says(target, name) is Some
    &&& m.dom().contains(label) ==> {
        &&& booted.dom().contains(name) ==> m[label].0 == booted[name]
        &&& !booted.dom().contains(name) ==> m[label].0.len() == 0
        &&& target.dom().contains(name) ==> m[label].1 == target[name]
        &&& !target.dom().contains(name) ==> m[label].1.len() == 0
    }
}

/// Each component of the stack is shown under its own name, with the versions of
/// the package that it comes from, and nothing else is shown.
pub proof fn law_stack_shows_each_component(
    r: SbomDiffResult,
    booted: Installed,
    target: Installed,
    label: Seq<char>,
)
    requires
        is_diff(r, booted, target),
    ensures
        ({
            let m = stack_view(r.stack_info);
            &&& shows(m, "Kernel"@, booted, target, "linux"@)
            &&& shows(m, "GNOME"@, booted, target, "gnome-control-center"@)
            &&& shows(m, "Mesa"@, booted, target, "mesa"@)
            &&& shows(m, "Podman"@, booted, target, "podman"@)
            &&& shows(m, "Nvidia"@, booted, target, "NVIDIA-Linux-x86"@)
            &&& shows(m, "bootc"@, booted, target, "bootc"@)
            &&& shows(m, "systemd"@, booted, target, "systemd"@)
            &&& shows(m, "pipewire"@, booted, target, "pipewire"@)
            &&& shows(m, "Flatpak"@, booted, target, "flatpak"@)
            &&& m.dom().contains(label) ==> label == "Kernel"@
                || label == "GNOME"@
                || label == "Mesa"@
                || label == "Podman"@
                || label == "Nvidia"@
                || label == "bootc"@
                || label == "systemd"@
                || label == "pipewire"@
                || label == "Flatpak"@
        }),
{
    let cs = stack_components();
    lemma_labels_differ();
    lemma_stack(cs, booted, target, label);
    lemma_stack(cs, booted, target, "Kernel"@);
    assert(cs[0] == ("Kernel"@, "linux"@));
    lemma_stack(cs, booted, target, "GNOME"@);
    assert(cs[1] == ("GNOME"@, "gnome-control-center"@));
    lemma_stack(cs, booted, target, "Mesa"@);
    assert(cs[2] == ("Mesa"@, "mesa"@));
    lemma_stack(cs, booted, target, "Podman"@);
    assert(cs[3] == ("Podman"@, "podman"@));
    lemma_stack(cs, booted, target, "Nvidia"@);
    assert(cs[4] == ("Nvidia"@, "NVIDIA-Linux-x86"@));
    lemma_stack(cs, booted, target, "bootc"@);
    assert(cs[5] == ("bootc"@, "bootc"@));
    lemma_stack(cs, booted, target, "systemd"@);
    assert(cs[6] == ("systemd"@, "systemd"@));
    lemma_stack(cs, booted, target, "pipewire"@);
    assert(cs[7] == ("pipewire"@, "pipewire"@));
    lemma_stack(cs, booted, target, "Flatpak"@);
    assert(cs[8] == ("Flatpak"@, "flatpak"@));
}

/// The same of the versions that are extracted alone.
pub proof fn law_extracted_stack(booted: Installed, target: Installed)
    ensures
        ({
            let m = stack_of(stack_components(), booted, target);
            &&& shows(m, "Kernel"@, booted, target, "linux"@)
            &&& shows(m, "GNOME"@, booted, target, "gnome-control-center"@)
            &&& shows(m, "Mesa"@, booted, target, "mesa"@)
            &&& shows(m, "Podman"@, booted, target, "podman"@)
            &&& shows(m, "Nvidia"@, booted, target, "NVIDIA-Linux-x86"@)
            &&& shows(m, "bootc"@, booted, target, "bootc"@)
            &&& shows(m, "systemd"@, booted, target, "systemd"@)
            &&& shows(m, "pipewire"@, booted, target, "pipewire"@)
            &&& shows(m, "Flatpak"@, booted, target, "flatpak"@)
        }),
{
    let cs = stack_components();
    lemma_labels_differ();
    lemma_stack(cs, booted, target, "Kernel"@);
    assert(cs[0] == ("Kernel"@, "linux"@));
    lemma_stack(cs, booted, target, "GNOME"@);
    assert(cs[1] == ("GNOME"@, "gnome-control-center"@));
    lemma_stack(cs, booted, target, "Mesa"@);
    assert(cs[2] == ("Mesa"@, "mesa"@));
    lemma_stack(cs, booted, target, "Podman"@);
    assert(cs[3] == ("Podman"@, "podman"@));
    lemma_stack(cs, booted, target, "Nvidia"@);
    assert(cs[4] == ("Nvidia"@, "NVIDIA-Linux-x86"@));
    lemma_stack(cs, booted, target, "bootc"@);
    assert(cs[5] == ("bootc"@, "bootc"@));
    lemma_stack(cs, booted, target, "systemd"@);
    assert(cs[6] == ("systemd"@, "systemd"@));
    lemma_stack(cs, booted, target, "pipewire"@);
    assert(cs[7] == ("pipewire"@, "pipewire"@));
    lemma_stack(cs, booted, target, "Flatpak"@);
    assert(cs[8] == ("Flatpak"@, "flatpak"@));
}

/// Each package of either image is told of as it changes: one that both have in
/// different versions as upgraded or downgraded, by the direction of the change;
/// one that only the target has as added; one that only the booted image has as
/// removed. What is told of are its own versions.
pub proof fn law_diff_tells_what_changed(
    r: SbomDiffResult,
    booted: Installed,
    target: Installed,
    name: Seq<char>,
)
    requires
        is_diff(r, booted, target),
    ensures
        ({
            let here = booted.dom().contains(name);
            let there = target.dom().contains(name);
            let differ = here && there && booted[name] != target[name];
            let back = version_compare::change(booted[name], target[name]) is Downgrade;
            &&& (exists|i: int|
                0 <= i < r.upgraded@.len() && (#[trigger] r.upgraded@[i]).name@ == name) <==> differ
                && !back
            &&& (exists|i: int|
                0 <= i < r.downgraded@.len() && (#[trigger] r.downgraded@[i]).name@ == name)
                <==> differ && back
            &&& (exists|i: int|
                0 <= i < r.added@.len() && (#[trigger] r.added@[i]).name@ == name) <==> there
                && !here
            &&& (exists|i: int|
                0 <= i < r.removed@.len() && (#[trigger] r.removed@[i])@ == name) <==> here
                && !there
        }),
        forall|i: int|
            0 <= i < r.upgraded@.len() ==> (#[trigger] r.upgraded@[i]).old_version@
                == booted[r.upgraded@[i].name@] && r.upgraded@[i].new_version@
                == target[r.upgraded@[i].name@],
        forall|i: int|
            0 <= i < r.downgraded@.len() ==> (#[trigger] r.downgraded@[i]).old_version@
                == booted[r.downgraded@[i].name@] && r.downgraded@[i].new_version@
                == target[r.downgraded@[i].name@],
        forall|i: int|
            0 <= i < r.added@.len() ==> (#[trigger] r.added@[i]).old_version@.len() == 0
                && r.added@[i].new_version@ == target[r.added@[i].name@],
{
    let up = |n: Seq<char>| is_upgraded(booted, target, n);
    let down = |n: Seq<char>| is_downgraded(booted, target, n);
    let new = |n: Seq<char>| is_added(booted, target, n);
    lemma_named(r.upgraded@, name);
    lemma_named(r.downgraded@, name);
    lemma_named(r.added@, name);
    assert(diff_names(r.upgraded@).contains(name) <==> up(name));
    assert(diff_names(r.downgraded@).contains(name) <==> down(name));
    assert(diff_names(r.added@).contains(name) <==> new(name));
    let gone = text::views(r.removed@);
    if gone.contains(name) {
        let i = choose|i: int| 0 <= i < gone.len() && gone[i] == name;
        assert(r.removed@[i]@ == name);
    }
    if exists|i: int| 0 <= i < r.removed@.len() && (#[trigger] r.removed@[i])@ == name {
        let i = choose|i: int| 0 <= i < r.removed@.len() && (#[trigger] r.removed@[i])@ == name;
        assert(gone[i] == name);
    }
    assert forall|i: int| 0 <= i < r.upgraded@.len() implies (
    #[trigger] r.upgraded@[i]).old_version@ == booted[r.upgraded@[i].name@]
        && r.upgraded@[i].new_version@ == target[r.upgraded@[i].name@] by {
        assert(diff_names(r.upgraded@)[i] == r.upgraded@[i].name@);
        assert(diff_names(r.upgraded@).contains(r.upgraded@[i].name@));
        assert(up(r.upgraded@[i].name@));
    }
    assert forall|i: int| 0 <= i < r.downgraded@.len() implies (
    #[trigger] r.downgraded@[i]).old_version@ == booted[r.downgraded@[i].name@]
        && r.downgraded@[i].new_version@ == target[r.downgraded@[i].name@] by {
        assert(diff_names(r.downgraded@)[i] == r.downgraded@[i].name@);
        assert(diff_names(r.downgraded@).contains(r.downgraded@[i].name@));
        assert(down(r.downgraded@[i].name@));
    }
    assert forall|i: int| 0 <= i < r.added@.len() implies (
    #[trigger] r.added@[i]).old_version@.len() == 0 && r.added@[i].new_version@
        == target[r.added@[i].name@] by {
        assert(diff_names(r.added@)[i] == r.added@[i].name@);
        assert(diff_names(r.added@).contains(r.added@[i].name@));
        assert(new(r.added@[i].name@));
    }
}

proof fn lemma_named(list: Seq<PackageDiff>, name: Seq<char>)
    ensures
        diff_names(list).contains(name) <==> exists|i: int|
            0 <= i < list.len() && (#[trigger] list[i]).name@ == name,
{
    let ns = diff_names(list);
    if ns.contains(name) {
        let i = choose|i: int| 0 <= i < ns.len() && ns[i] == name;
        assert(list[i].name@ == name);
    }
    if exists|i: int| 0 <= i < list.len() && (#[trigger] list[i]).name@ == name {
        let i = choose|i: int| 0 <= i < list.len() && (#[trigger] list[i]).name@ == name;
        assert(ns[i] == name);
    }
}

/// The lists are in alphabetical order, and no package is told of twice in one.
pub proof fn law_lists_are_alphabetical(
    r: SbomDiffResult,
    booted: Installed,
    target: Installed,
    i: int,
    j: int,
)
    requires
        is_diff(r, booted, target),
        0 <= i < j,
    ensures
        j < r.upgraded@.len() ==> version_compare::comes_before(
            r.upgraded@[i].name@,
            r.upgraded@[j].name@,
        ),
        j < r.downgraded@.len() ==> version_compare::comes_before(
            r.downgraded@[i].name@,
            r.downgraded@[j].name@,
        ),
        j < r.added@.len() ==> version_compare::comes_before(
            r.added@[i].name@,
            r.added@[j].name@,
        ),
        j < r.removed@.len() ==> version_compare::comes_before(r.removed@[i]@, r.removed@[j]@),
{
    if j < r.upgraded@.len() {
        let ns = diff_names(r.upgraded@);
        assert(name_map::before(ns[i], ns[j]));
        version_compare::lemma_before_in_dictionary(ns[i], ns[j]);
    }
    if j < r.downgraded@.len() {
        let ns = diff_names(r.downgraded@);
        assert(name_map::before(ns[i], ns[j]));
        version_compare::lemma_before_in_dictionary(ns[i], ns[j]);
    }
    if j < r.added@.len() {
        let ns = diff_names(r.added@);
        assert(name_map::before(ns[i], ns[j]));
        version_compare::lemma_before_in_dictionary(ns[i], ns[j]);
    }
    if j < r.removed@.len() {
        let ns = text::views(r.removed@);
        assert(name_map::before(ns[i], ns[j]));
        version_compare::lemma_before_in_dictionary(ns[i], ns[j]);
    }
}

/// A Syft document tells of the packages that it names and of no others, each in
/// the version that its last entry gives; one without a version is `unknown`.
pub proof fn law_last_artifact_counts(artifacts: Seq<SyftArtifact>, k: int, name: Seq<char>)
    requires
        0 <= k < artifacts.len(),
        forall|j: int| k < j < artifacts.len() ==> (#[trigger] artifacts[j]).name@
            != artifacts[k].name@,
    ensures
        ({
            let m = syft_packages(artifacts);
            let own = artifacts[k];
            &&& m.dom().contains(own.name@)
            &&& own.version matches Some(v) ==> m[own.name@] == v@
            &&& own.version is None ==> m[own.name@] == "unknown"@
            &&& m.dom().contains(name) ==> exists|j: int|
                0 <= j < artifacts.len() && (#[trigger] artifacts[j]).name@ == name
        }),
    decreases artifacts.len(),
{
    let front = artifacts.drop_last();
    let n = artifacts.len() - 1;
    assert(artifacts[n] == artifacts.last());
    if k < n {
        assert(front[k] == artifacts[k]);
        assert forall|j: int| k < j < front.len() implies (#[trigger] front[j]).name@
            != front[k].name@ by {
            assert(front[j] == artifacts[j]);
        }
        assert(artifacts[n].name@ != artifacts[k].name@);
        law_last_artifact_counts(front, k, name);
        if syft_packages(artifacts).dom().contains(name) && artifacts[n].name@ != name {
            let j = choose|j: int| 0 <= j < front.len() && (#[trigger] front[j]).name@ == name;
            assert(artifacts[j].name@ == name);
        }
    } else {
        if syft_packages(artifacts).dom().contains(name) && artifacts[n].name@ != name {
            lemma_syft_names(front, name);
            let j = choose|j: int| 0 <= j < front.len() && (#[trigger] front[j]).name@ == name;
            assert(artifacts[j].name@ == name);
        }
    }
}

proof fn lemma_syft_names(artifacts: Seq<SyftArtifact>, name: Seq<char>)
    requires
        syft_packages(artifacts).dom().contains(name),
    ensures
        exists|j: int| 0 <= j < artifacts.len() && (#[trigger] artifacts[j]).name@ == name,
    decreases artifacts.len(),
{
    let front = artifacts.drop_last();
    let n = artifacts.len() - 1;
    assert(artifacts[n] == artifacts.last());
    if artifacts[n].name@ != name {
        lemma_syft_names(front, name);
        let j = choose|j: int| 0 <= j < front.len() && (#[trigger] front[j]).name@ == name;
        assert(artifacts[j].name@ == name);
    }
}

/// An SPDX document tells of the packages that it names and of no others, each in
/// a version that one of its entries gives.
pub proof fn law_spdx_tells_of_its_packages(packages: Seq<SpdxPackage>, name: Seq<char>)
    ensures
        ({
            let m = spdx_packages(packages);
            &&& m.dom().contains(name) <==> exists|j: int|
                0 <= j < packages.len() && (#[trigger] packages[j]).name@ == name
            &&& m.dom().contains(name) ==> exists|j: int|
                0 <= j < packages.len() && (#[trigger] packages[j]).name@ == name && m[name] == (
                match packages[j].version_info {
                    Some(v) => v@,
                    None => "unknown"@,
                })
        }),
{
    lemma_spdx_entries(packages, name);
}

proof fn lemma_spdx_entries(packages: Seq<SpdxPackage>, name: Seq<char>)
    ensures
        ({
            let m = spdx_entries(packages);
            &&& m.dom().contains(name) <==> exists|j: int|
                0 <= j < packages.len() && (#[trigger] packages[j]).name@ == name
            &&& m.dom().contains(name) ==> exists|j: int|
                0 <= j < packages.len() && (#[trigger] packages[j]).name@ == name && m[name]
                    == entry_of(packages[j])
        }),
    decreases packages.len(),
{
    if packages.len() > 0 {
        let front = packages.drop_last();
        let n = packages.len() - 1;
        assert(packages[n] == packages.last());
        lemma_spdx_entries(front, name);
        if spdx_entries(front).dom().contains(name) {
            let j = choose|j: int|
                0 <= j < front.len() && (#[trigger] front[j]).name@ == name && spdx_entries(
                    front,
                )[name] == entry_of(front[j]);
            assert(packages[j].name@ == name);
            if packages[n].name@ == name && spdx_entries(packages)[name] == entry_of(packages[n]) {
                assert(packages[n].name@ == name);
            } else {
                assert(spdx_entries(packages)[name] == entry_of(packages[j]));
            }
        }
        if exists|j: int| 0 <= j < packages.len() && (#[trigger] packages[j]).name@ == name {
            let j = choose|j: int| 0 <= j < packages.len() && (#[trigger] packages[j]).name@ == name;
            if j < n {
                assert(front[j].name@ == name);
            }
        }
    }
}

/// A version that is no commit hash is taken before one that is, and is not lost
/// to one, whatever the elements are.
pub proof fn law_no_hash_where_there_is_a_version(packages: Seq<SpdxPackage>, k: int)
    requires
        0 <= k < packages.len(),
        is_known(entry_of(packages[k]).version),
        !is_hash(entry_of(packages[k]).version),
    ensures
        spdx_packages(packages).dom().contains(packages[k].name@),
        !is_hash(spdx_packages(packages)[packages[k].name@]),
    decreases packages.len(),
{
    law_known_version_is_kept(packages, k);
    let front = packages.drop_last();
    if k < packages.len() - 1 {
        assert(front[k] == packages[k]);
        law_no_hash_where_there_is_a_version(front, k);
        law_known_version_is_kept(front, k);
    }
}

/// A hash is thirty-two hexadecimal digits or more, and nothing else.
pub proof fn law_what_is_a_hash(v: Seq<char>, i: int)
    ensures
        is_hash(v) ==> v.len() >= 32,
        is_hash(v) && 0 <= i < v.len() ==> ('0' <= v[i] <= '9' || 'a' <= v[i] <= 'f' || 'A' <= v[i]
            <= 'F'),
        v.len() >= 32 && (forall|k: int|
            0 <= k < v.len() ==> '0' <= #[trigger] v[k] <= '9' || 'a' <= v[k] <= 'f') ==> is_hash(v),
{
    if is_hash(v) && 0 <= i < v.len() {
        assert(is_hex(v[i]));
    }
}

/// `new` names the element and `other` does not.
pub open spec fn names_only(new: Entry, other: Entry, element: Seq<char>) -> bool {
    text::occurs(new.id, element) && !text::occurs(other.id, element)
}

/// Of two entries with versions, both hashes or neither, the one that names the
/// element of the component counts, whichever comes first.
pub proof fn law_element_of_the_component_counts(new: Entry, other: Entry)
    requires
        is_known(new.version),
        is_known(other.version),
        is_hash(new.version) == is_hash(other.version),
    ensures
        names_only(new, other, "components-linux.bst"@) ==> replaces("linux"@, new, other) && !replaces(
            "linux"@,
            other,
            new,
        ),
        names_only(new, other, "gnome-control-center.bst"@) ==> replaces("gnome-control-center"@, new, other) && !replaces(
            "gnome-control-center"@,
            other,
            new,
        ),
        names_only(new, other, "mesa-mesa.bst"@) ==> replaces("mesa"@, new, other) && !replaces(
            "mesa"@,
            other,
            new,
        ),
        names_only(new, other, "podman.bst"@) ==> replaces("podman"@, new, other) && !replaces(
            "podman"@,
            other,
            new,
        ),
        names_only(new, other, "bootc.bst"@) ==> replaces("bootc"@, new, other) && !replaces(
            "bootc"@,
            other,
            new,
        ),
        names_only(new, other, "systemd-base.bst"@) ==> replaces("systemd"@, new, other) && !replaces(
            "systemd"@,
            other,
            new,
        ),
        names_only(new, other, "pipewire-base.bst"@) ==> replaces("pipewire"@, new, other) && !replaces(
            "pipewire"@,
            other,
            new,
        ),
        names_only(new, other, "flatpak.bst"@) ==> replaces("flatpak"@, new, other) && !replaces(
            "flatpak"@,
            other,
            new,
        ),
        names_only(new, other, "mesa.bst"@) && !text::occurs(other.id, "mesa-mesa.bst"@) ==> replaces(
            "mesa"@,
            new,
            other,
        ),
        names_only(new, other, "systemd.bst"@) && !text::occurs(other.id, "systemd-base.bst"@) ==> replaces(
            "systemd"@,
            new,
            other,
        ),
        names_only(new, other, "pipewire.bst"@) && !text::occurs(other.id, "pipewire-base.bst"@) ==> replaces(
            "pipewire"@,
            new,
            other,
        ),
{
    reveal_strlit("linux");
    reveal_strlit("gnome-control-center");
    reveal_strlit("mesa");
    reveal_strlit("podman");
    reveal_strlit("bootc");
    reveal_strlit("systemd");
    reveal_strlit("pipewire");
    reveal_strlit("flatpak");
    assert("linux"@.len() == 5
        && "gnome-control-center"@.len() == 20
        && "mesa"@.len() == 4
        && "podman"@.len() == 6
        && "bootc"@.len() == 5
        && "systemd"@.len() == 7
        && "pipewire"@.len() == 8
        && "flatpak"@.len() == 7);
    assert("linux"@[0] == 'l' && "bootc"@[0] == 'b');
    assert("systemd"@[0] == 's' && "flatpak"@[0] == 'f');
}

/// Where nothing else decides, a version with dots counts before one without,
/// and else the first entry stays.
pub proof fn law_dotted_version_counts(name: Seq<char>, new: Entry, other: Entry)
    requires
        is_known(new.version),
        is_known(other.version),
        is_hash(new.version) == is_hash(other.version),
        new.id == other.id,
    ensures
        replaces(name, new, other) <==> new.version.contains('.') && !other.version.contains('.'),
{
}

/// A version that says nothing replaces none, and is replaced by any that says
/// something.
pub proof fn law_unknown_gives_way(name: Seq<char>, new: Entry, other: Entry)
    ensures
        new.version == "unknown"@ || new.version.len() == 0 ==> !replaces(name, new, other),
        (other.version == "unknown"@ || other.version.len() == 0) && new.version != "unknown"@
            && new.version.len() > 0 ==> replaces(name, new, other),
{
}

/// A document in the Syft shape is read first; the SPDX shape counts only where
/// that has no packages.
pub proof fn law_syft_is_read_first(syft: Option<SyftDocument>, spdx: Option<SpdxDocument>)
    ensures
        syft matches Some(d) ==> (d.artifacts matches Some(v) ==> (v@.len() > 0 ==> sbom_answer(
            syft,
            spdx,
        ) == Some(syft_packages(v@)))),
        syft is None ==> (spdx matches Some(d) ==> (d.packages matches Some(v) ==> (v@.len() > 0
            ==> sbom_answer(syft, spdx) == Some(spdx_packages(v@))))),
        syft is None && spdx is None ==> sbom_answer(syft, spdx) is None,
{
    if let Some(d) = syft {
        if let Some(v) = d.artifacts {
            if v@.len() > 0 {
                assert(syft_packages(v@).dom().contains(v@.last().name@));
            }
        }
    }
    if let Some(d) = spdx {
        if let Some(v) = d.packages {
            if v@.len() > 0 {
                lemma_spdx_entries(v@, v@[0].name@);
                assert(spdx_packages(v@).dom().contains(v@[0].name@));
            }
        }
    }
}

/// `e` names no element that any component is built from.
pub open spec fn names_none(e: Entry) -> bool {
    !text::occurs(e.id, ".bst"@)
}

/// The identifiers decide nothing for a package that is no component, and nothing
/// where neither names an element: a version with dots counts before one without,
/// and else the first entry stays.
pub proof fn law_other_identifiers_do_not_count(name: Seq<char>, new: Entry, other: Entry)
    requires
        is_known(new.version),
        is_known(other.version),
        is_hash(new.version) == is_hash(other.version),
        (names_none(new) && names_none(other)) || (name != "linux"@ && name
            != "gnome-control-center"@ && name != "mesa"@ && name != "podman"@ && name != "bootc"@
            && name != "systemd"@ && name != "pipewire"@ && name != "flatpak"@),
    ensures
        replaces(name, new, other) <==> new.version.contains('.') && !other.version.contains('.'),
{
    if names_none(new) && names_none(other) {
        lemma_no_element(new.id, "components-linux.bst"@);
        lemma_no_element(other.id, "components-linux.bst"@);
        lemma_no_element(new.id, "gnome-control-center.bst"@);
        lemma_no_element(other.id, "gnome-control-center.bst"@);
        lemma_no_element(new.id, "mesa-mesa.bst"@);
        lemma_no_element(other.id, "mesa-mesa.bst"@);
        lemma_no_element(new.id, "mesa.bst"@);
        lemma_no_element(other.id, "mesa.bst"@);
        lemma_no_element(new.id, "podman.bst"@);
        lemma_no_element(other.id, "podman.bst"@);
        lemma_no_element(new.id, "bootc.bst"@);
        lemma_no_element(other.id, "bootc.bst"@);
        lemma_no_element(new.id, "systemd-base.bst"@);
        lemma_no_element(other.id, "systemd-base.bst"@);
        lemma_no_element(new.id, "systemd.bst"@);
        lemma_no_element(other.id, "systemd.bst"@);
        lemma_no_element(new.id, "pipewire-base.bst"@);
        lemma_no_element(other.id, "pipewire-base.bst"@);
        lemma_no_element(new.id, "pipewire.bst"@);
        lemma_no_element(other.id, "pipewire.bst"@);
        lemma_no_element(new.id, "flatpak.bst"@);
        lemma_no_element(other.id, "flatpak.bst"@);
    }
}

proof fn lemma_no_element(id: Seq<char>, element: Seq<char>)
    requires
        !text::occurs(id, ".bst"@),
        element == "components-linux.bst"@ || element == "gnome-control-center.bst"@ || element
            == "mesa-mesa.bst"@ || element == "mesa.bst"@ || element == "podman.bst"@ || element
            == "bootc.bst"@ || element == "systemd-base.bst"@ || element == "systemd.bst"@
            || element == "pipewire-base.bst"@ || element == "pipewire.bst"@ || element
            == "flatpak.bst"@,
    ensures
        !text::occurs(id, element),
{
    let end = ".bst"@;
    reveal_strlit(".bst");
    reveal_strlit("components-linux.bst");
    reveal_strlit("gnome-control-center.bst");
    reveal_strlit("mesa-mesa.bst");
    reveal_strlit("mesa.bst");
    reveal_strlit("podman.bst");
    reveal_strlit("bootc.bst");
    reveal_strlit("systemd-base.bst");
    reveal_strlit("systemd.bst");
    reveal_strlit("pipewire-base.bst");
    reveal_strlit("pipewire.bst");
    reveal_strlit("flatpak.bst");
    let n = element.len() as int;
    assert(n >= 4 && element[n - 4] == '.' && element[n - 3] == 'b' && element[n - 2] == 's'
        && element[n - 1] == 't');
    if text::occurs(id, element) {
        let i = choose|i: int| text::occurs_at(id, element, i);
        let cut = id.subrange(i, i + n);
        assert(cut == element);
        assert(id.subrange(i + n - 4, i + n) =~= end) by {
            assert(id[i + n - 4] == cut[n - 4] && id[i + n - 3] == cut[n - 3] && id[i + n - 2]
                == cut[n - 2] && id[i + n - 1] == cut[n - 1]);
        }
        assert(text::occurs_at(id, end, i + n - 4));
    }
}

/// What is told of packages, and of the stack, is what they hold: of a component
/// first the booted version and then that of the target.
pub proof fn law_packages_hold_what_is_told(
    m: PackageMap,
    s: NameMap<(String, String)>,
    name: Seq<char>,
)
    ensures
        versions(m).dom().contains(name) <==> m@.dom().contains(name),
        m@.dom().contains(name) ==> versions(m)[name] == m@[name]@,
        stack_view(s).dom().contains(name) <==> s@.dom().contains(name),
        s@.dom().contains(name) ==> stack_view(s)[name] == (s@[name].0@, s@[name].1@),
        opt_versions(Some(m)) == Some(versions(m)),
        opt_versions(None) is None,
{
}

} // verus!
