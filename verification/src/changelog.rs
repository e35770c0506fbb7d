//! What is new in an image: what is asked of the registry and of GitHub, how
//! the commits are listed, and which two images are compared.

use vstd::prelude::*;
use crate::json;
use crate::json::{Json, JsonModel};
use crate::registry_client::client;
use crate::registry_client::detection;
use crate::registry_client::detection::MockIdentity;
use crate::registry_client::models::{AvailableTag, ImageVersion};
use crate::registry_client::tags;
use crate::service;
use crate::service::ImageRef;
use crate::sort;
use crate::text;
use crate::version_parse;

verus! {

/// How far the comparison of packages has come.
#[derive(Debug, Clone, Copy, PartialEq, Eq, Structural)]
pub enum SbomStatus {
    /// It has not started.
    Pending,
    /// It is under way.
    Loading,
    /// One of the images has no list of packages.
    NotAvailable,
    /// It is there.
    Loaded,
}

/// The status after a comparison came to an end.
pub open spec fn status_after(has_result: bool) -> SbomStatus {
    if has_result {
        SbomStatus::Loaded
    } else {
        SbomStatus::NotAvailable
    }
}

/// The status after a comparison came to an end, with or without a result.
pub fn compared(has_result: bool) -> (r: SbomStatus)
    ensures
        r == status_after(has_result),
{
    if has_result {
        SbomStatus::Loaded
    } else {
        SbomStatus::NotAvailable
    }
}

/// How many versions are asked for.
pub const LISTED_VERSIONS: usize = 8;

/// Where the commits of the parts that all images share are listed.
pub const COMMON_COMMITS_URL: &'static str =
    "https://api.github.com/repos/projectbluefin/common/commits";

/// The image that the registry is asked about: `registry/org/image`, under the
/// stream of the selected tag. `None` where the address has fewer parts.
pub open spec fn asked_image(registry_uri: Seq<char>, tag: Seq<char>) -> Option<
    service::ImageModel,
> {
    let parts = text::pieces(registry_uri, '/');
    if parts.len() >= 3 {
        Some(
            service::ImageModel {
                registry: parts[0],
                org: parts[1],
                image: text::joined(parts.skip(2), "/"@),
                tag: client::stream_or_tag(tag),
                digest: Seq::empty(),
            },
        )
    } else {
        None
    }
}

/// The image that the registry is asked about.
pub fn image_to_ask(registry_uri: &str, selected_tag: &str) -> (r: Option<ImageRef>)
    ensures
        service::opt_image(r) == asked_image(registry_uri@, selected_tag@),
{
    let parts = text::split(registry_uri, '/');
    if parts.len() >= 3 {
        Some(
            ImageRef {
                registry: parts[0].to_owned(),
                org: parts[1].to_owned(),
                image: text::join_from(&parts, 2, "/"),
                tag: client::stream_for_tag(selected_tag),
                digest: String::new(),
            },
        )
    } else {
        None
    }
}

/// Where the commits of a repository are listed.
pub open spec fn commit_list(org: Seq<char>, repo: Seq<char>) -> Seq<char> {
    "https://api.github.com/repos/"@ + org + "/"@ + repo + "/commits"@
}

/// Where the commits of a repository are listed.
pub fn commits_url(org: &str, repo: &str) -> (r: String)
    ensures
        r@ == commit_list(org@, repo@),
{
    let mut s = "https://api.github.com/repos/".to_owned();
    s.append(org);
    s.append("/");
    s.append(repo);
    s.append("/commits");
    s
}

/// Where the commits of an image are listed.
pub open spec fn commits_of_image(registry_uri: Seq<char>) -> Option<Seq<char>> {
    match version_parse::org_repo(registry_uri) {
        Some(p) => Some(commit_list(p.0, p.1)),
        None => None,
    }
}

/// Where the commits of an image are listed; `None` where its address names no
/// repository.
pub fn image_commits_url(registry_uri: &str) -> (r: Option<String>)
    ensures
        match r {
            Some(s) => commits_of_image(registry_uri@) == Some(s@),
            None => commits_of_image(registry_uri@) is None,
        },
{
    match version_parse::parse_org_repo(registry_uri) {
        Some(p) => Some(commits_url(p.0.as_str(), p.1.as_str())),
        None => None,
    }
}

/// The tags to show.
pub open spec fn shown_tags(listed: Option<Vec<AvailableTag>>) -> Option<Vec<AvailableTag>> {
    match listed {
        Some(v) => if v@.len() == 0 {
            None
        } else {
            listed
        },
        None => None,
    }
}

/// The tags to show, where there are any.
pub fn tags_to_show(listed: Option<Vec<AvailableTag>>) -> (r: Option<Vec<AvailableTag>>)
    ensures
        r == shown_tags(listed),
{
    match listed {
        Some(v) => if v.len() == 0 {
            None
        } else {
            Some(v)
        },
        None => None,
    }
}

/// The reference of the newest of versions that are listed with the newest first.
pub open spec fn newest_of(versions: Seq<ImageVersion>) -> Option<Seq<char>> {
    if versions.len() > 0 {
        Some(versions[0].full_ref@)
    } else {
        None
    }
}

/// The reference of the newest version. Versions are listed with the newest
/// first.
pub fn newest_ref(versions: &Vec<ImageVersion>) -> (r: Option<String>)
    ensures
        match r {
            Some(s) => newest_of(versions@) == Some(s@),
            None => newest_of(versions@) is None,
        },
{
    if versions.len() == 0 {
        None
    } else {
        Some(versions[0].full_ref.clone())
    }
}

// ---------------------------------------------------------------------------
// Commits

/// A commit.
#[derive(Debug, Clone, PartialEq, Eq)]
pub struct Commit {
    pub sha: String,
    pub message: String,
    pub author: String,
    pub date: String,
}

/// A commit that brings a feature.
pub open spec fn is_feature(c: Commit) -> bool {
    text::begins_with(c.message@, "feat:"@)
}

/// The commits that bring features.
pub open spec fn features(list: Seq<Commit>) -> Seq<Commit>
    decreases list.len(),
{
    if list.len() == 0 {
        Seq::empty()
    } else if is_feature(list.last()) {
        features(list.drop_last()).push(list.last())
    } else {
        features(list.drop_last())
    }
}

/// Features come before everything else.
pub open spec fn features_first() -> spec_fn(Commit, Commit) -> bool {
    |a: Commit, b: Commit| is_feature(a) || !is_feature(b)
}

/// The commits that a list holds; none where it could not be had.
pub open spec fn had(list: Option<Vec<Commit>>) -> Seq<Commit> {
    match list {
        Some(v) => v@,
        None => Seq::empty(),
    }
}

/// The commits to list.
pub open spec fn listed_commits(image: Seq<Commit>, common: Seq<Commit>) -> Seq<Commit> {
    sort::sorted(image + features(common), features_first())
}

fn feature_or_not(a: &Commit, b: &Commit) -> (r: bool)
    ensures
        r == (is_feature(*a) || !is_feature(*b)),
{
    text::starts_with(a.message.as_str(), "feat:") || !text::starts_with(
        b.message.as_str(),
        "feat:",
    )
}

/// The commits to list: those of the image, and of what all images share those
/// that bring features; the features first.
pub fn commits_to_show(image: Option<Vec<Commit>>, common: Option<Vec<Commit>>) -> (r: Vec<
    Commit,
>)
    ensures
        r@ == listed_commits(had(image), had(common)),
{
    let ghost ours = had(image);
    let ghost shared = had(common);
    let mut all: Vec<Commit> = match image {
        Some(v) => v,
        None => Vec::new(),
    };
    let mut rest: Vec<Commit> = match common {
        Some(v) => v,
        None => Vec::new(),
    };
    let mut picked: Vec<Commit> = Vec::new();
    assert(all@ =~= ours);
    assert(rest@ =~= shared);
    assert(shared.take(shared.len() as int) =~= shared);
    while rest.len() > 0
        invariant
            rest@ == shared.take(rest@.len() as int),
            rest@.len() <= shared.len(),
            features(shared) == features(rest@) + picked@.reverse(),
        decreases rest@.len(),
    {
        let ghost before = rest@;
        let ghost chosen = picked@;
        let last = rest.pop();
        if let Some(c) = last {
            proof {
                assert(before.drop_last() =~= rest@);
                assert(rest@ =~= shared.take(rest@.len() as int));
            }
            if text::starts_with(c.message.as_str(), "feat:") {
                picked.push(c);
                proof {
                    assert(features(before) + chosen.reverse() =~= features(rest@) + picked@.reverse());
                }
            }
        }
    }
    assert(features(shared) =~= picked@.reverse());
    let ghost kept = picked@;
    while picked.len() > 0
        invariant
            picked@ == kept.take(picked@.len() as int),
            picked@.len() <= kept.len(),
            all@ + picked@.reverse() == ours + kept.reverse(),
        decreases picked@.len(),
    {
        let ghost before = picked@;
        let ghost listed = all@;
        if let Some(c) = picked.pop() {
            proof {
                assert(before.drop_last() =~= picked@);
                assert(picked@ =~= kept.take(picked@.len() as int));
            }
            all.push(c);
            assert(all@ + picked@.reverse() =~= listed + before.reverse());
        }
    }
    assert(all@ =~= ours + features(shared));
    sort::sort_by(all, feature_or_not, Ghost(features_first()))
}

// ---------------------------------------------------------------------------
// The images that are compared

/// The image to compare with: the newest version, or what the selected tag
/// names where no version is known.
pub open spec fn compared_with(
    newest: Option<Seq<char>>,
    registry_uri: Seq<char>,
    tag: Seq<char>,
) -> Seq<char> {
    match newest {
        Some(s) => s,
        None => registry_uri + ":"@ + tag,
    }
}

pub fn target_ref(newest: Option<String>, registry_uri: &str, selected_tag: &str) -> (r: String)
    ensures
        r@ == compared_with(
            match newest {
                Some(s) => Some(s@),
                None => None,
            },
            registry_uri@,
            selected_tag@,
        ),
{
    match newest {
        Some(s) => s,
        None => {
            let mut s = registry_uri.to_owned();
            s.append(":");
            s.append(selected_tag);
            s
        },
    }
}

/// The image of a mock identity: by its digest where it has one, else by its
/// tag.
pub open spec fn mock_ref(m: MockIdentity) -> Seq<char> {
    let name = m.registry@ + "/"@ + m.org@ + "/"@ + m.image@;
    match m.digest {
        Some(d) => name + "@"@ + d@,
        None => name + ":"@ + m.tag@,
    }
}

/// Where the digest of the booted image stands in a status document.
pub open spec fn digest_path() -> Seq<Seq<char>> {
    seq!["status"@, "booted"@, "image"@, "imageDigest"@]
}

/// The booted image with its digest, where a status document has both.
pub open spec fn pinned_ref(status: JsonModel) -> Option<Seq<char>> {
    match (
        detection::booted_ref(status),
        json::text_of(json::at_path(status, digest_path())),
    ) {
        (Some(image), Some(digest)) => Some(image + "@"@ + digest),
        _ => None,
    }
}

/// The booted image: by the mock identity where there is one; else as the
/// status document says, with its digest; else by its address and tag.
pub open spec fn booted_image(
    mock: Option<MockIdentity>,
    status: Option<JsonModel>,
    registry_uri: Seq<char>,
    booted_tag: Seq<char>,
) -> Seq<char> {
    match mock {
        Some(m) => mock_ref(m),
        None => match status {
            Some(doc) => match pinned_ref(doc) {
                Some(s) => s,
                None => registry_uri + ":"@ + booted_tag,
            },
            None => registry_uri + ":"@ + booted_tag,
        },
    }
}

fn digest_of<'a>(status: &'a Json) -> (r: Option<&'a str>)
    ensures
        detection::opt_chars(r) == json::text_of(json::at_path(status@, digest_path())),
{
    let path = vec!["status", "booted", "image", "imageDigest"];
    assert(text::strs(path@) =~= digest_path());
    status.text_at(path.as_slice())
}

fn pinned(status: &Json) -> (r: Option<String>)
    ensures
        match r {
            Some(s) => pinned_ref(status@) == Some(s@),
            None => pinned_ref(status@) is None,
        },
{
    match (detection::booted_image_ref(status), digest_of(status)) {
        (Some(image), Some(digest)) => {
            let mut s = image.to_owned();
            s.append("@");
            s.append(digest);
            Some(s)
        },
        _ => None,
    }
}

/// The booted image, as exactly as it is known.
pub fn booted_ref(
    mock: Option<&MockIdentity>,
    status: Option<&Json>,
    registry_uri: &str,
    booted_tag: &str,
) -> (r: String)
    ensures
        r@ == booted_image(
            match mock {
                Some(m) => Some(*m),
                None => None,
            },
            json::opt_ref(status),
            registry_uri@,
            booted_tag@,
        ),
{
    if let Some(m) = mock {
        let mut s = m.registry.clone();
        s.append("/");
        s.append(m.org.as_str());
        s.append("/");
        s.append(m.image.as_str());
        match &m.digest {
            Some(d) => {
                s.append("@");
                s.append(d.as_str());
            },
            None => {
                s.append(":");
                s.append(m.tag.as_str());
            },
        }
        return s;
    }
    let known = match status {
        Some(doc) => pinned(doc),
        None => None,
    };
    match known {
        Some(s) => s,
        None => {
            let mut s = registry_uri.to_owned();
            s.append(":");
            s.append(booted_tag);
            s
        },
    }
}

/// The status of a comparison that is begun.
pub open spec fn comparison(booted: Seq<char>, target: Seq<char>) -> Option<SbomStatus> {
    if booted == target {
        None
    } else {
        Some(SbomStatus::Loading)
    }
}

/// Whether two images are compared: not where both references are the same.
/// The status is then that the comparison is under way.
pub fn start_comparison(booted: &str, target: &str) -> (r: Option<SbomStatus>)
    ensures
        r == comparison(booted@, target@),
{
    if text::eq(booted, target) {
        None
    } else {
        Some(SbomStatus::Loading)
    }
}

// ---------------------------------------------------------------------------
// Laws

/// The commits that are listed are those of the image and the features of what
/// all images share; every feature stands before everything else, and
/// otherwise the order is kept.
pub proof fn law_features_come_first(image: Seq<Commit>, common: Seq<Commit>, k: Commit)
    ensures
        ({
            let all = image + features(common);
            let shown = sort::sorted(all, features_first());
            let like_k = sort::level_with(k, features_first());
            &&& shown.to_multiset() == all.to_multiset()
            &&& forall|i: int, j: int|
                0 <= i <= j < shown.len() && is_feature(#[trigger] shown[j]) ==> is_feature(
                    #[trigger] shown[i],
                )
            &&& shown.filter(like_k) == all.filter(like_k)
        }),
{
    let all = image + features(common);
    let shown = sort::sorted(all, features_first());
    assert(sort::total_preorder(features_first()));
    sort::law_sorted_is_permutation(all, features_first());
    sort::law_sorted_ascends(all, features_first());
    sort::law_sorted_is_stable(all, features_first(), k);
    assert forall|i: int, j: int|
        0 <= i <= j < shown.len() && is_feature(#[trigger] shown[j]) implies is_feature(
        #[trigger] shown[i],
    ) by {
        assert(features_first()(shown[i], shown[j]));
    }
}

/// Of what all images share only features are listed, and all of them.
pub proof fn law_only_shared_features(common: Seq<Commit>, c: Commit)
    ensures
        features(common).contains(c) <==> common.contains(c) && is_feature(c),
    decreases common.len(),
{
    if common.len() > 0 {
        let front = common.drop_last();
        law_only_shared_features(front, c);
        assert(common == front.push(common.last()));
        if features(front).contains(c) {
            let i = choose|i: int| 0 <= i < features(front).len() && features(front)[i] == c;
            assert(features(common)[i] == c);
            let j = choose|j: int| 0 <= j < front.len() && front[j] == c;
            assert(common[j] == c);
        }
        if c == common.last() {
            assert(common[common.len() - 1] == c);
            if is_feature(c) {
                assert(features(common)[features(common).len() - 1] == c);
            }
        }
        if common.contains(c) && c != common.last() {
            let j = choose|j: int| 0 <= j < common.len() && common[j] == c;
            assert(front[j] == c);
        }
        if features(common).contains(c) && !(is_feature(common.last()) && c == common.last()) {
            let i = choose|i: int| 0 <= i < features(common).len() && features(common)[i] == c;
            assert(features(front)[i] == c);
        }
    }
}

/// Every commit of the image is listed, and of what all images share every commit
/// whose message begins with `feat:`, and nothing else; what begins so stands
/// first.
pub proof fn law_listed_commits(image: Seq<Commit>, common: Seq<Commit>, c: Commit, i: int, j: int)
    ensures
        ({
            let shown = listed_commits(image, common);
            let brings = c.message@.len() >= 5 && c.message@.take(5) == seq!['f', 'e', 'a', 't', ':'];
            &&& shown.contains(c) <==> image.contains(c) || (common.contains(c) && brings)
            &&& 0 <= i < j < shown.len() && shown[j] == c && brings ==> shown[i].message@.len() >= 5
                && shown[i].message@.take(5) == seq!['f', 'e', 'a', 't', ':']
        }),
{
    let all = image + features(common);
    let shown = listed_commits(image, common);
    law_features_come_first(image, common, c);
    law_only_shared_features(common, c);
    sort::law_sorted_is_permutation(all, features_first());
    lemma_feat(c);
    if 0 <= i < j < shown.len() {
        lemma_feat(shown[i]);
    }
    assert(shown.contains(c) <==> all.contains(c));
    if image.contains(c) {
        let k = choose|k: int| 0 <= k < image.len() && image[k] == c;
        assert(all[k] == c);
    }
    if features(common).contains(c) {
        let k = choose|k: int| 0 <= k < features(common).len() && features(common)[k] == c;
        assert(all[image.len() + k] == c);
    }
    if all.contains(c) {
        let k = choose|k: int| 0 <= k < all.len() && all[k] == c;
        if k < image.len() {
            assert(image[k] == c);
        } else {
            assert(features(common)[k - image.len()] == c);
        }
    }
}

proof fn lemma_feat(c: Commit)
    ensures
        is_feature(c) <==> c.message@.len() >= 5 && c.message@.take(5) == seq![
            'f',
            'e',
            'a',
            't',
            ':',
        ],
{
    reveal_strlit("feat:");
    assert("feat:"@ =~= seq!['f', 'e', 'a', 't', ':']);
}

/// The images that are compared: the newest version, or the selected tag where no
/// version is known; and the booted image by its digest wherever that is known.
/// They are compared unless they are the same.
pub proof fn law_compared_images(
    versions: Seq<ImageVersion>,
    uri: Seq<char>,
    tag: Seq<char>,
    m: MockIdentity,
    status: JsonModel,
    image: Seq<char>,
    digest: Seq<char>,
)
    ensures
        versions.len() > 0 ==> compared_with(newest_of(versions), uri, tag)
            == versions[0].full_ref@,
        versions.len() == 0 ==> compared_with(newest_of(versions), uri, tag) == uri + ":"@ + tag,
        m.digest matches Some(d) ==> booted_image(Some(m), Some(status), uri, tag) == m.registry@
            + "/"@ + m.org@ + "/"@ + m.image@ + "@"@ + d@,
        m.digest is None ==> booted_image(Some(m), Some(status), uri, tag) == m.registry@ + "/"@
            + m.org@ + "/"@ + m.image@ + ":"@ + m.tag@,
        json::at_path(status, seq!["status"@, "booted"@, "image"@, "image"@, "image"@]) == Some(
            JsonModel::Text(image),
        ) && json::at_path(status, seq!["status"@, "booted"@, "image"@, "imageDigest"@]) == Some(
            JsonModel::Text(digest),
        ) ==> booted_image(None, Some(status), uri, tag) == image + "@"@ + digest,
        json::at_path(status, seq!["status"@, "booted"@, "image"@, "imageDigest"@]) is None
            ==> booted_image(None, Some(status), uri, tag) == uri + ":"@ + tag,
        booted_image(None, None, uri, tag) == uri + ":"@ + tag,
        comparison(uri, uri) is None,
        uri != tag ==> comparison(uri, tag) == Some(SbomStatus::Loading),
        status_after(true) is Loaded,
        status_after(false) is NotAvailable,
{
}

/// The registry is asked about the image at an address, under the stream of the
/// selected tag, and its commits are those of the repository of that name.
pub proof fn law_addresses_of_an_image(
    registry: Seq<char>,
    org: Seq<char>,
    image: Seq<char>,
    tag: Seq<char>,
)
    requires
        !registry.contains('/') && !org.contains('/') && !image.contains('/'),
        !text::occurs(registry + seq!['/'] + (org + seq!['/'] + image), "docker://"@),
    ensures
        ({
            let uri = registry + seq!['/'] + (org + seq!['/'] + image);
            &&& asked_image(uri, tag) matches Some(i) && i.registry == registry && i.org == org
                && i.image == image && i.digest.len() == 0 && (tags::stream_of(tag) is None
                ==> i.tag == tag) && (tags::stream_of(tag) matches Some(s) ==> i.tag == s)
            &&& commits_of_image(uri) == Some(
                "https://api.github.com/repos/"@ + org + "/"@ + image + "/commits"@,
            )
        }),
{
    let slash = seq!['/'];
    let inner = org + slash + image;
    text::lemma_one_piece(registry, '/');
    text::lemma_one_piece(org, '/');
    text::lemma_one_piece(image, '/');
    text::lemma_pieces_append(org, '/', image);
    text::lemma_pieces_append(registry, '/', inner);
    let parts = text::pieces(registry + slash + inner, '/');
    assert(parts =~= seq![registry, org, image]);
    assert(parts.skip(2) =~= seq![image]);
    reveal_with_fuel(text::joined, 2);
    version_parse::law_org_repo_with_registry(registry, org, image);
}

/// Tags are shown as they are listed; an empty list shows none.
pub proof fn law_shown_tags(v: Vec<AvailableTag>)
    ensures
        v@.len() > 0 ==> shown_tags(Some(v)) == Some(v),
        v@.len() == 0 ==> shown_tags(Some(v)) is None,
        shown_tags(None) is None,
{
}

} // verus!
