//! Where the bill of materials of an image is found, and where it is kept.
//!
//! A bill of materials is attached to an image: an index under a tag that is
//! made from the digest of the image lists what is attached, and the entry with
//! the right type names the manifest whose first layer is the document.

use vstd::prelude::*;
use crate::paths;
use crate::sbom_diff;
use crate::sbom_diff::{PackageMap, SbomDiffResult};
use crate::text;

verus! {

/// A string that may be missing, taken by its characters.
pub open spec fn maybe(s: Option<String>) -> Option<Seq<char>> {
    match s {
        Some(x) => Some(x@),
        None => None,
    }
}

/// The registry and the repository that an image reference names.
pub uninterp spec fn reference_repository(s: Seq<char>) -> Option<(Seq<char>, Seq<char>)>;

/// `oci_client::Reference::from_str`, and what `registry` and `repository` say
/// of its result: whether `s` is an image reference, and which repository it
/// names, depends on `s` alone.
#[verifier::external_body]
fn reference_from_str(s: &str) -> (r: Option<(String, String)>)
    ensures
        match r {
            Some(p) => reference_repository(s@) == Some((p.0@, p.1@)),
            None => reference_repository(s@) is None,
        },
{
    match s.parse::<oci_client::Reference>() {
        Ok(r) => Some((r.registry().to_string(), r.repository().to_string())),
        Err(_) => None,
    }
}

/// A repository of a registry.
#[derive(Debug)]
pub struct Repository {
    pub registry: String,
    pub name: String,
}

/// The repository that an image reference names.
pub fn repository_of(image_ref: &str) -> (r: Option<Repository>)
    ensures
        match r {
            Some(p) => reference_repository(image_ref@) == Some((p.registry@, p.name@)),
            None => reference_repository(image_ref@) is None,
        },
{
    match reference_from_str(image_ref) {
        Some((registry, name)) => Some(Repository { registry, name }),
        None => None,
    }
}

/// Where the list of what is attached to the image with this digest is.
pub open spec fn referrers_address(
    registry: Seq<char>,
    repository: Seq<char>,
    digest: Seq<char>,
) -> Seq<char> {
    "https://"@ + registry + "/v2/"@ + repository + "/manifests/"@ + text::replaced(
        digest,
        ':',
        '-',
    )
}

/// Where a token that allows pulling from a public repository is handed out.
pub open spec fn anonymous_token_address(repository: Seq<char>) -> Seq<char> {
    "https://ghcr.io/token?service=ghcr.io&scope=repository:"@ + repository + ":pull"@
}

/// Where a token is handed out for a repository of this registry.
pub open spec fn token_from(registry: Seq<char>, repository: Seq<char>) -> Option<Seq<char>> {
    if registry == "ghcr.io"@ {
        Some(anonymous_token_address(repository))
    } else {
        None
    }
}

impl Repository {
    /// Where the list of what is attached to the image with this digest is.
    pub fn referrers_url(&self, digest: &str) -> (r: String)
        ensures
            r@ == referrers_address(self.registry@, self.name@, digest@),
    {
        let tag = text::replace(digest, ':', '-');
        let mut url = "https://".to_owned();
        url.append(self.registry.as_str());
        url.append("/v2/");
        url.append(self.name.as_str());
        url.append("/manifests/");
        url.append(tag.as_str());
        url
    }

    /// Where a token that allows pulling is handed out. Only `ghcr.io` hands
    /// one out to anybody; other registries are asked without.
    pub fn token_url(&self) -> (r: Option<String>)
        ensures
            maybe(r) == token_from(self.registry@, self.name@),
    {
        if !text::eq(self.registry.as_str(), "ghcr.io") {
            return None;
        }
        let mut url = "https://ghcr.io/token?service=ghcr.io&scope=repository:".to_owned();
        url.append(self.name.as_str());
        url.append(":pull");
        Some(url)
    }
}

/// One entry of the list of what is attached to an image.
#[derive(Debug)]
pub struct ReferrerEntry {
    pub digest: String,
    pub artifact_type: Option<String>,
}

/// The type under which a bill of materials is attached.
pub open spec fn is_spdx_entry(e: ReferrerEntry) -> bool {
    e.artifact_type matches Some(t) && t@ == "application/vnd.spdx+json"@
}

/// The digest of the first bill of materials in the list.
pub open spec fn first_spdx(entries: Seq<ReferrerEntry>) -> Option<Seq<char>>
    decreases entries.len(),
{
    if entries.len() == 0 {
        None
    } else {
        match first_spdx(entries.drop_last()) {
            Some(d) => Some(d),
            None => if is_spdx_entry(entries.last()) {
                Some(entries.last().digest@)
            } else {
                None
            },
        }
    }
}

proof fn lemma_first_stays(entries: Seq<ReferrerEntry>, k: int)
    requires
        0 <= k <= entries.len(),
        first_spdx(entries.take(k)) is Some,
    ensures
        first_spdx(entries) == first_spdx(entries.take(k)),
    decreases entries.len() - k,
{
    if k < entries.len() {
        assert(entries.take(k + 1).drop_last() =~= entries.take(k));
        lemma_first_stays(entries, k + 1);
    } else {
        assert(entries.take(k) =~= entries);
    }
}

/// The digest of the bill of materials in the list of what is attached.
pub fn find_spdx_referrer(entries: &Vec<ReferrerEntry>) -> (r: Option<String>)
    ensures
        maybe(r) == first_spdx(entries@),
{
    let mut i: usize = 0;
    while i < entries.len()
        invariant
            i <= entries@.len(),
            first_spdx(entries@.take(i as int)) is None,
        decreases entries@.len() - i,
    {
        proof {
            assert(entries@.take(i + 1).drop_last() =~= entries@.take(i as int));
            assert(entries@.take(i + 1).last() == entries@[i as int]);
        }
        let matches_type = match &entries[i].artifact_type {
            Some(t) => text::eq(t.as_str(), "application/vnd.spdx+json"),
            None => false,
        };
        if matches_type {
            proof {
                lemma_first_stays(entries@, i + 1);
            }
            return Some(entries[i].digest.clone());
        }
        i += 1;
    }
    assert(entries@.take(entries@.len() as int) =~= entries@);
    None
}

/// What the manifest of an attachment is: an image with these layers, or an
/// index of others.
#[derive(Debug)]
pub enum AttachedManifest {
    Image(Vec<String>),
    Index,
}

/// The layer that is the bill of materials.
pub open spec fn document_layer(manifest: AttachedManifest) -> Option<Seq<char>> {
    match manifest {
        AttachedManifest::Image(layers) => if layers@.len() > 0 {
            Some(layers@[0]@)
        } else {
            None
        },
        AttachedManifest::Index => None,
    }
}

/// The layer that is the bill of materials: the first of an image.
pub fn sbom_layer(manifest: &AttachedManifest) -> (r: Option<String>)
    ensures
        maybe(r) == document_layer(*manifest),
{
    match manifest {
        AttachedManifest::Image(layers) => if layers.len() > 0 {
            Some(layers[0].clone())
        } else {
            None
        },
        AttachedManifest::Index => None,
    }
}

// ---------------------------------------------------------------------------
// The cache

/// Where the packages of the bill of materials with this digest are kept.
pub open spec fn kept_at(dir: Seq<char>, digest: Seq<char>) -> Seq<char> {
    paths::joined_path(dir, text::replaced(digest, ':', '_'))
}

/// Where the packages of the bill of materials with this digest are kept.
pub fn cache_path(dir: &str, digest: &str) -> (r: String)
    ensures
        r@ == kept_at(dir@, digest@),
{
    let name = text::replace(digest, ':', '_');
    paths::join_path(dir, name.as_str())
}

/// What was kept counts as an answer only where it holds a package.
pub fn accept_cached(map: PackageMap) -> (r: Option<PackageMap>)
    ensures
        sbom_diff::opt_versions(r) == sbom_diff::unless_empty(sbom_diff::versions(map)),
{
    sbom_diff::unless_empty_map(map)
}

/// `r` is the difference between two images, where the packages of both are known.
pub open spec fn is_known_diff(
    r: Option<SbomDiffResult>,
    booted: Option<sbom_diff::Installed>,
    target: Option<sbom_diff::Installed>,
) -> bool {
    match (booted, target) {
        (Some(b), Some(t)) => r matches Some(d) && sbom_diff::is_diff(d, b, t),
        _ => r is None,
    }
}

/// The difference between two images, where the packages of both are known.
pub fn diff_known(booted: Option<PackageMap>, target: Option<PackageMap>) -> (r: Option<
    SbomDiffResult,
>)
    ensures
        is_known_diff(r, sbom_diff::opt_versions(booted), sbom_diff::opt_versions(target)),
{
    match (booted, target) {
        (Some(b), Some(t)) => Some(sbom_diff::diff_packages(&b, &t)),
        _ => None,
    }
}

/// The file name under which packages are kept holds no colon.
pub proof fn law_cache_name_holds_no_colon(digest: Seq<char>)
    ensures
        !text::replaced(digest, ':', '_').contains(':'),
{
}

/// The digest that is found belongs to an entry of the right type, and one is
/// found wherever there is such an entry.
pub proof fn law_referrer_is_an_spdx_entry(entries: Seq<ReferrerEntry>)
    ensures
        match first_spdx(entries) {
            Some(d) => exists|i: int|
                0 <= i < entries.len() && is_spdx_entry(#[trigger] entries[i])
                    && entries[i].digest@ == d,
            None => forall|i: int|
                0 <= i < entries.len() ==> !is_spdx_entry(#[trigger] entries[i]),
        },
    decreases entries.len(),
{
    if entries.len() > 0 {
        let front = entries.drop_last();
        law_referrer_is_an_spdx_entry(front);
        match first_spdx(front) {
            Some(d) => {
                let i = choose|i: int|
                    0 <= i < front.len() && is_spdx_entry(#[trigger] front[i])
                        && front[i].digest@ == d;
                assert(entries[i] == front[i]);
            },
            None => {
                assert(entries[entries.len() - 1] == entries.last());
                assert forall|i: int| 0 <= i < front.len() implies !is_spdx_entry(
                    #[trigger] entries[i],
                ) by {
                    assert(front[i] == entries[i]);
                }
            },
        }
    }
}

/// Of several bills of materials the first in the list is taken, whatever else is
/// attached.
pub proof fn law_first_bill_is_taken(entries: Seq<ReferrerEntry>, k: int)
    requires
        0 <= k < entries.len(),
        entries[k].artifact_type matches Some(t) && t@ == "application/vnd.spdx+json"@,
        forall|i: int|
            0 <= i < k ==> !((#[trigger] entries[i]).artifact_type matches Some(t) && t@
                == "application/vnd.spdx+json"@),
    ensures
        first_spdx(entries) == Some(entries[k].digest@),
    decreases entries.len(),
{
    let front = entries.drop_last();
    assert(entries[entries.len() - 1] == entries.last());
    if k < entries.len() - 1 {
        assert(front[k] == entries[k]);
        assert forall|i: int| 0 <= i < k implies !((
        #[trigger] front[i]).artifact_type matches Some(t) && t@ == "application/vnd.spdx+json"@) by {
            assert(front[i] == entries[i]);
        }
        law_first_bill_is_taken(front, k);
    } else {
        law_referrer_is_an_spdx_entry(front);
        if first_spdx(front) is Some {
            let i = choose|i: int|
                0 <= i < front.len() && is_spdx_entry(#[trigger] front[i]) && front[i].digest@
                    == first_spdx(front).unwrap();
            assert(is_spdx_entry(entries[i]));
        }
    }
}

/// What is attached to an image is listed in its own repository, under its digest
/// with a hyphen in place of the colon; only `ghcr.io` is asked for a token, for
/// that repository; the document is the first layer of an image.
pub proof fn law_where_bills_are(
    registry: Seq<char>,
    repository: Seq<char>,
    hash: Seq<char>,
    layers: Vec<String>,
)
    requires
        !hash.contains(':'),
    ensures
        referrers_address(registry, repository, "sha256:"@ + hash) == "https://"@ + registry
            + "/v2/"@ + repository + "/manifests/sha256-"@ + hash,
        token_from("ghcr.io"@, repository) matches Some(a) && text::occurs(
            a,
            "repository:"@ + repository + ":pull"@,
        ) && text::begins_with(a, "https://ghcr.io/token?"@),
        registry != "ghcr.io"@ ==> token_from(registry, repository) is None,
        layers@.len() > 0 ==> document_layer(AttachedManifest::Image(layers)) == Some(
            layers@[0]@,
        ),
        layers@.len() == 0 ==> document_layer(AttachedManifest::Image(layers)) is None,
        document_layer(AttachedManifest::Index) is None,
{
    reveal_strlit("sha256:");
    reveal_strlit("/manifests/");
    reveal_strlit("/manifests/sha256-");
    let tag = text::replaced("sha256:"@ + hash, ':', '-');
    assert forall|i: int| 0 <= i < hash.len() implies hash[i] != ':' by {
        assert(hash.contains(hash[i]));
    }
    assert(tag =~= seq!['s', 'h', 'a', '2', '5', '6', '-'] + hash);
    assert("/manifests/sha256-"@ =~= "/manifests/"@ + seq!['s', 'h', 'a', '2', '5', '6', '-']);
    assert(referrers_address(registry, repository, "sha256:"@ + hash) =~= "https://"@ + registry
        + "/v2/"@ + repository + "/manifests/sha256-"@ + hash);
    reveal_strlit("https://ghcr.io/token?service=ghcr.io&scope=repository:");
    reveal_strlit("https://ghcr.io/token?");
    reveal_strlit("repository:");
    let front = "https://ghcr.io/token?service=ghcr.io&scope=repository:"@;
    let a = anonymous_token_address(repository);
    let scope = "repository:"@ + repository + ":pull"@;
    let at = front.len() - "repository:"@.len();
    assert(front.skip(at) =~= "repository:"@);
    assert(a.subrange(at, at + scope.len()) =~= scope);
    assert(text::occurs_at(a, scope, at));
    let start = "https://ghcr.io/token?"@;
    assert(front.take(start.len() as int) =~= start);
    assert(a.subrange(0, start.len() as int) =~= start);
    assert(a.take(start.len() as int) =~= start);
}

/// The packages of different bills of materials are kept in different files of
/// the directory.
pub proof fn law_bills_are_kept_apart(dir: Seq<char>, a: Seq<char>, b: Seq<char>)
    requires
        a != b,
        dir.len() > 0,
        dir.last() != '/',
        a.len() > 0 && a[0] != '/',
        b.len() > 0 && b[0] != '/',
        !a.contains('_') && !b.contains('_'),
    ensures
        kept_at(dir, a) != kept_at(dir, b),
        text::begins_with(kept_at(dir, a), dir + seq!['/']),
{
    let ra = text::replaced(a, ':', '_');
    let rb = text::replaced(b, ':', '_');
    paths::law_paths(dir, ra);
    paths::law_paths(dir, rb);
    let start = dir + seq!['/'];
    assert((start + ra).subrange(0, start.len() as int) =~= start);
    assert((start + ra).take(start.len() as int) =~= start);
    if kept_at(dir, a) == kept_at(dir, b) {
        assert((start + ra).skip(start.len() as int) =~= ra);
        assert((start + rb).skip(start.len() as int) =~= rb);
        assert(ra == rb);
        assert(a.len() == b.len());
        assert forall|i: int| 0 <= i < a.len() implies a[i] == b[i] by {
            assert(ra[i] == rb[i]);
            assert(a.contains(a[i]) && b.contains(b[i]));
        }
        assert(a =~= b);
    }
}

/// Two images are compared where the packages of both are known, the booted one
/// with the target, and not otherwise.
pub proof fn law_known_differences(
    r: Option<SbomDiffResult>,
    b: sbom_diff::Installed,
    t: sbom_diff::Installed,
)
    ensures
        is_known_diff(r, Some(b), Some(t)) ==> (r matches Some(d) && sbom_diff::is_diff(d, b, t)),
        is_known_diff(r, None, Some(t)) ==> r is None,
        is_known_diff(r, Some(b), None) ==> r is None,
        is_known_diff(r, None, None) ==> r is None,
{
}

} // verus!
