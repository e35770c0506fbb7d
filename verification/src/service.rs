//! Images, families and their features, as a frontend sees them.

use vstd::prelude::*;
use crate::registry_client::models;
use crate::registry_client::models::{Family, FamilyModel};
use crate::text;

verus! {

/// An image: where it is, under which tag, and which exactly.
#[derive(Debug, Clone, PartialEq, Eq)]
pub struct ImageRef {
    pub registry: String,
    pub org: String,
    pub image: String,
    pub tag: String,
    pub digest: String,
}

/// An image, taken by its characters.
pub struct ImageModel {
    pub registry: Seq<char>,
    pub org: Seq<char>,
    pub image: Seq<char>,
    pub tag: Seq<char>,
    pub digest: Seq<char>,
}

impl View for ImageRef {
    type V = ImageModel;

    open spec fn view(&self) -> ImageModel {
        ImageModel {
            registry: self.registry@,
            org: self.org@,
            image: self.image@,
            tag: self.tag@,
            digest: self.digest@,
        }
    }
}

pub open spec fn opt_image(r: Option<ImageRef>) -> Option<ImageModel> {
    match r {
        Some(x) => Some(x@),
        None => None,
    }
}

pub open spec fn opt_image_ref(r: Option<&ImageRef>) -> Option<ImageModel> {
    match r {
        Some(x) => Some(x@),
        None => None,
    }
}

/// A feature that images of a family can have.
#[derive(Debug, Clone, PartialEq, Eq)]
pub struct FeatureInfo {
    pub id: String,
    pub display_name: String,
}

/// A product family, as a frontend sees it.
#[derive(Debug, Clone, PartialEq, Eq)]
pub struct FamilyInfo {
    pub name: String,
    pub base_image: String,
    pub streams: Vec<String>,
    pub features: Vec<FeatureInfo>,
}

/// `registry/org/image:tag`.
pub open spec fn full_ref_of(i: ImageModel) -> Seq<char> {
    i.registry + "/"@ + i.org + "/"@ + i.image + ":"@ + i.tag
}

impl ImageRef {
    /// The full reference: `registry/org/image:tag`.
    pub fn full_ref(&self) -> (r: String)
        ensures
            r@ == full_ref_of(self@),
    {
        let mut out = self.registry.clone();
        out.append("/");
        out.append(self.org.as_str());
        out.append("/");
        out.append(self.image.as_str());
        out.append(":");
        out.append(self.tag.as_str());
        out
    }
}

/// The first family of that name.
pub open spec fn family_named(all: Seq<FamilyModel>, name: Seq<char>) -> Option<FamilyModel>
    decreases all.len(),
{
    if all.len() == 0 {
        None
    } else {
        match family_named(all.drop_last(), name) {
            Some(f) => Some(f),
            None => if all.last().name == name {
                Some(all.last())
            } else {
                None
            },
        }
    }
}

proof fn lemma_named_stays(all: Seq<FamilyModel>, name: Seq<char>, k: int)
    requires
        0 <= k <= all.len(),
        family_named(all.take(k), name) is Some,
    ensures
        family_named(all, name) == family_named(all.take(k), name),
    decreases all.len() - k,
{
    if k < all.len() {
        assert(all.take(k + 1).drop_last() =~= all.take(k));
        lemma_named_stays(all, name, k + 1);
    } else {
        assert(all.take(k) =~= all);
    }
}

/// The known family of that name.
pub fn find_family(name: &str) -> (r: Option<Family>)
    ensures
        models::opt_model(r) == family_named(models::catalogue(), name@),
{
    let all = models::known_families();
    let ghost cat = models::catalogue();
    let mut i: usize = 0;
    assert(models::models(all@).len() == all@.len());
    while i < all.len()
        invariant
            i <= all@.len(),
            all@.len() == cat.len(),
            models::models(all@) == cat,
            cat == models::catalogue(),
            family_named(cat.take(i as int), name@) is None,
        decreases all@.len() - i,
    {
        let f = all[i];
        proof {
            assert(cat.take(i + 1).drop_last() =~= cat.take(i as int));
            assert(models::models(all@)[i as int] == f@);
        }
        if text::eq(f.name, name) {
            proof {
                lemma_named_stays(cat, name@, i + 1);
            }
            return Some(f);
        }
        i += 1;
    }
    assert(cat.take(cat.len() as int) =~= cat);
    None
}

/// The image of a known family with exactly these features, under `stream`.
pub open spec fn target_of(
    family: Seq<char>,
    features: Seq<Seq<char>>,
    stream: Seq<char>,
) -> Option<ImageModel> {
    match family_named(models::catalogue(), family) {
        Some(f) => match models::image_for(f, features) {
            Some(image) => Some(
                ImageModel {
                    registry: "ghcr.io"@,
                    org: f.org,
                    image,
                    tag: stream,
                    digest: Seq::empty(),
                },
            ),
            None => None,
        },
        None => None,
    }
}

/// The stream that a family is published under by default.
pub open spec fn default_stream(family: Seq<char>) -> Seq<char> {
    match family_named(models::catalogue(), family) {
        Some(f) => if f.streams.len() > 0 {
            f.streams[0]
        } else {
            Seq::empty()
        },
        None => Seq::empty(),
    }
}

fn strs_of<'a>(v: &'a [String]) -> (r: Vec<&'a str>)
    ensures
        text::strs(r@) == text::views(v@),
{
    let mut out: Vec<&'a str> = Vec::new();
    let mut i: usize = 0;
    while i < v.len()
        invariant
            i <= v@.len(),
            text::strs(out@) =~= text::views(v@).take(i as int),
        decreases v@.len() - i,
    {
        let ghost before = text::strs(out@);
        out.push(v[i].as_str());
        assert(text::strs(out@) =~= before.push(text::views(v@)[i as int]));
        i += 1;
    }
    assert(text::strs(out@) =~= text::views(v@));
    out
}

/// The image of the family with exactly these features, under `stream`. `None`
/// where the family is not known or publishes no such image.
pub fn resolve_target_with_stream(family: &FamilyInfo, features: &[String], stream: &str) -> (r:
    Option<ImageRef>)
    ensures
        opt_image(r) == target_of(family.name@, text::views(features@), stream@),
{
    match find_family(family.name.as_str()) {
        Some(f) => {
            let wanted = strs_of(features);
            match f.select_image_for_features(wanted.as_slice()) {
                Some(image) => Some(
                    ImageRef {
                        registry: "ghcr.io".to_owned(),
                        org: f.org.to_owned(),
                        image: image.to_owned(),
                        tag: stream.to_owned(),
                        digest: String::new(),
                    },
                ),
                None => None,
            }
        },
        None => None,
    }
}

/// The image of the family with exactly these features, under the stream that
/// the family is published under by default.
pub fn resolve_target(family: &FamilyInfo, features: &[String]) -> (r: Option<ImageRef>)
    ensures
        opt_image(r) == target_of(
            family.name@,
            text::views(features@),
            default_stream(family.name@),
        ),
{
    match find_family(family.name.as_str()) {
        Some(f) => {
            if f.streams.len() > 0 {
                assert(f@.streams[0] == f.streams@[0]@);
                resolve_target_with_stream(family, features, f.streams[0])
            } else {
                proof {
                    reveal_strlit("");
                    assert(""@ =~= Seq::<char>::empty());
                }
                resolve_target_with_stream(family, features, "")
            }
        },
        None => None,
    }
}

/// A target is an image that a known family publishes, with exactly the
/// features asked for.
pub proof fn law_target_is_published(
    family: Seq<char>,
    features: Seq<Seq<char>>,
    stream: Seq<char>,
)
    ensures
        target_of(family, features, stream) matches Some(t) ==> (family_named(
            models::catalogue(),
            family,
        ) matches Some(f) && models::publishes(f, t.org, t.image) && t.tag == stream && (
        features.len() > 0 ==> models::has_exactly(f, t.image, features))),
{
    match family_named(models::catalogue(), family) {
        Some(f) => {
            models::law_selected_image(f, features);
        },
        None => {},
    }
}

proof fn lemma_names_differ()
    ensures
        forall|i: int, j: int|
            0 <= i < j < models::catalogue().len() ==> (#[trigger] models::catalogue()[i]).name != (
            #[trigger] models::catalogue()[j]).name,
{
    reveal_strlit("Bluefin Stable");
    reveal_strlit("Bluefin LTS");
    reveal_strlit("Aurora");
    reveal_strlit("Bazzite KDE");
    reveal_strlit("Bazzite GNOME");
    reveal_strlit("Bluefin Dakota");
    assert("Bluefin Stable"@.len() == 14
        && "Bluefin LTS"@.len() == 11
        && "Aurora"@.len() == 6
        && "Bazzite KDE"@.len() == 11
        && "Bazzite GNOME"@.len() == 13
        && "Bluefin Dakota"@.len() == 14);
    assert("Bluefin Stable"@[8] == 'S' && "Bluefin Dakota"@[8] == 'D');
    assert("Bluefin LTS"@[1] == 'l' && "Bazzite KDE"@[1] == 'a');
}

proof fn lemma_named_is_first(all: Seq<FamilyModel>, k: int)
    requires
        0 <= k < all.len(),
        forall|i: int, j: int|
            0 <= i < j < all.len() ==> (#[trigger] all[i]).name != (#[trigger] all[j]).name,
    ensures
        family_named(all, all[k].name) == Some(all[k]),
    decreases all.len(),
{
    let front = all.drop_last();
    let n = all.len() - 1;
    assert(all[n] == all.last());
    assert forall|i: int, j: int| 0 <= i < j < front.len() implies (#[trigger] front[i]).name != (
    #[trigger] front[j]).name by {
        assert(all[i].name != all[j].name);
    }
    if k < n {
        assert(front[k] == all[k]);
        lemma_named_is_first(front, k);
    } else {
        lemma_not_named(front, all[k].name);
    }
}

proof fn lemma_not_named(all: Seq<FamilyModel>, name: Seq<char>)
    requires
        forall|i: int| 0 <= i < all.len() ==> (#[trigger] all[i]).name != name,
    ensures
        family_named(all, name) is None,
    decreases all.len(),
{
    if all.len() > 0 {
        let front = all.drop_last();
        assert(all[all.len() - 1].name != name);
        assert forall|i: int| 0 <= i < front.len() implies (#[trigger] front[i]).name != name by {
            assert(all[i].name != name);
        }
        lemma_not_named(front, name);
    }
}

/// A family of the catalogue is found by its name, and nothing is found by a name
/// that none has.
pub proof fn law_family_is_found_by_name(k: int, name: Seq<char>)
    ensures
        0 <= k < models::catalogue().len() ==> family_named(
            models::catalogue(),
            models::catalogue()[k].name,
        ) == Some(models::catalogue()[k]),
        (forall|i: int|
            0 <= i < models::catalogue().len() ==> (#[trigger] models::catalogue()[i]).name != name)
            ==> family_named(models::catalogue(), name) is None,
{
    lemma_names_differ();
    if 0 <= k < models::catalogue().len() {
        lemma_named_is_first(models::catalogue(), k);
    }
    if forall|i: int|
        0 <= i < models::catalogue().len() ==> (#[trigger] models::catalogue()[i]).name != name {
        lemma_not_named(models::catalogue(), name);
    }
}

/// The target of a family of the catalogue is the image that it publishes for the
/// features, at the registry and under the organisation of the family, with the
/// stream that was asked for; there is none where no image is published.
pub proof fn law_target_of_a_family(k: int, features: Seq<Seq<char>>, stream: Seq<char>)
    requires
        0 <= k < models::catalogue().len(),
    ensures
        ({
            let f = models::catalogue()[k];
            match models::image_for(f, features) {
                Some(image) => target_of(f.name, features, stream) matches Some(t) && t.registry
                    == "ghcr.io"@ && t.org == f.org && t.image == image && t.tag == stream
                    && t.digest.len() == 0,
                None => target_of(f.name, features, stream) is None,
            }
        }),
        default_stream(models::catalogue()[k].name) == models::catalogue()[k].streams[0],
{
    law_family_is_found_by_name(k, Seq::empty());
}

/// The organisations, the base images and the default streams of the families,
/// and the streams that they have.
pub proof fn law_families_by_name(stream: Seq<char>)
    ensures
        family_named(models::catalogue(), "Bluefin Stable"@) matches Some(f) && f.org == "ublue-os"@
            && models::base_of(f) == "bluefin"@
            && (f.streams.contains(stream) <==> stream == "latest"@ || stream == "stable"@
                || stream == "stable-daily"@ || stream == "beta"@ || stream == "gts"@),
        family_named(models::catalogue(), "Bluefin LTS"@) matches Some(f) && f.org == "ublue-os"@
            && models::base_of(f) == "bluefin"@
            && (f.streams.contains(stream) <==> stream == "lts"@ || stream == "lts-hwe"@
                || stream == "lts-amd64"@ || stream == "lts-arm64"@ || stream == "gdx"@),
        family_named(models::catalogue(), "Aurora"@) matches Some(f) && f.org == "ublue-os"@
            && models::base_of(f) == "aurora"@
            && (f.streams.contains(stream) <==> stream == "latest"@ || stream == "stable"@
                || stream == "stable-daily"@ || stream == "beta"@),
        family_named(models::catalogue(), "Bazzite KDE"@) matches Some(f) && f.org == "ublue-os"@
            && models::base_of(f) == "bazzite"@
            && (f.streams.contains(stream) <==> stream == "stable"@ || stream == "testing"@
                || stream == "unstable"@ || stream == "latest"@),
        family_named(models::catalogue(), "Bazzite GNOME"@) matches Some(f) && f.org == "ublue-os"@
            && models::base_of(f) == "bazzite-gnome"@
            && (f.streams.contains(stream) <==> stream == "stable"@ || stream == "testing"@
                || stream == "unstable"@ || stream == "latest"@),
        family_named(models::catalogue(), "Bluefin Dakota"@) matches Some(f)
            && f.org == "projectbluefin"@
            && models::base_of(f) == "dakota"@
            && (f.streams.contains(stream) <==> stream == "latest"@ || stream == "testing"@),
        default_stream("Bluefin Stable"@) == "latest"@,
        default_stream("Bluefin LTS"@) == "lts"@,
        default_stream("Aurora"@) == "latest"@,
        default_stream("Bazzite KDE"@) == "stable"@,
        default_stream("Bazzite GNOME"@) == "stable"@,
        default_stream("Bluefin Dakota"@) == "latest"@,
{
    law_family_is_found_by_name(0, stream);
    assert(models::catalogue()[0].name == "Bluefin Stable"@);
    let s0 = models::catalogue()[0].streams;
    assert(s0[0] == "latest"@ && s0[1] == "stable"@ && s0[2] == "stable-daily"@
        && s0[3] == "beta"@ && s0[4] == "gts"@);
    assert(s0.len() == 5);
    if s0.contains(stream) {
        let i = choose|i: int| 0 <= i < s0.len() && s0[i] == stream;
        assert(i == 0 || i == 1 || i == 2 || i == 3 || i == 4);
    }
    law_family_is_found_by_name(1, stream);
    assert(models::catalogue()[1].name == "Bluefin LTS"@);
    let s1 = models::catalogue()[1].streams;
    assert(s1[0] == "lts"@ && s1[1] == "lts-hwe"@ && s1[2] == "lts-amd64"@
        && s1[3] == "lts-arm64"@ && s1[4] == "gdx"@);
    assert(s1.len() == 5);
    if s1.contains(stream) {
        let i = choose|i: int| 0 <= i < s1.len() && s1[i] == stream;
        assert(i == 0 || i == 1 || i == 2 || i == 3 || i == 4);
    }
    law_family_is_found_by_name(2, stream);
    assert(models::catalogue()[2].name == "Aurora"@);
    let s2 = models::catalogue()[2].streams;
    assert(s2[0] == "latest"@ && s2[1] == "stable"@ && s2[2] == "stable-daily"@
        && s2[3] == "beta"@);
    assert(s2.len() == 4);
    if s2.contains(stream) {
        let i = choose|i: int| 0 <= i < s2.len() && s2[i] == stream;
        assert(i == 0 || i == 1 || i == 2 || i == 3);
    }
    law_family_is_found_by_name(3, stream);
    assert(models::catalogue()[3].name == "Bazzite KDE"@);
    let s3 = models::catalogue()[3].streams;
    assert(s3[0] == "stable"@ && s3[1] == "testing"@ && s3[2] == "unstable"@
        && s3[3] == "latest"@);
    assert(s3.len() == 4);
    if s3.contains(stream) {
        let i = choose|i: int| 0 <= i < s3.len() && s3[i] == stream;
        assert(i == 0 || i == 1 || i == 2 || i == 3);
    }
    law_family_is_found_by_name(4, stream);
    assert(models::catalogue()[4].name == "Bazzite GNOME"@);
    let s4 = models::catalogue()[4].streams;
    assert(s4[0] == "stable"@ && s4[1] == "testing"@ && s4[2] == "unstable"@
        && s4[3] == "latest"@);
    assert(s4.len() == 4);
    if s4.contains(stream) {
        let i = choose|i: int| 0 <= i < s4.len() && s4[i] == stream;
        assert(i == 0 || i == 1 || i == 2 || i == 3);
    }
    law_family_is_found_by_name(5, stream);
    assert(models::catalogue()[5].name == "Bluefin Dakota"@);
    let s5 = models::catalogue()[5].streams;
    assert(s5[0] == "latest"@ && s5[1] == "testing"@);
    assert(s5.len() == 2);
    if s5.contains(stream) {
        let i = choose|i: int| 0 <= i < s5.len() && s5[i] == stream;
        assert(i == 0 || i == 1);
    }
}

/// The tag of a full reference stands behind its last colon, and the image behind
/// the last slash before it.
pub proof fn law_parts_of_a_full_reference(i: ImageModel)
    requires
        !i.tag.contains(':'),
        !i.image.contains('/'),
    ensures
        text::rhalves(full_ref_of(i), ":"@) == Some(
            (i.registry + "/"@ + i.org + "/"@ + i.image, i.tag),
        ),
        text::rhalves(i.registry + "/"@ + i.org + "/"@ + i.image, "/"@) == Some(
            (i.registry + "/"@ + i.org, i.image),
        ),
{
    reveal_strlit(":");
    reveal_strlit("/");
    text::law_last_half(i.registry + "/"@ + i.org + "/"@ + i.image, ':', i.tag, ":"@);
    text::law_last_half(i.registry + "/"@ + i.org, '/', i.image, "/"@);
}

/// What is told of an image is what it holds.
pub proof fn law_image_holds_what_is_told(i: ImageRef)
    ensures
        i@.registry == i.registry@ && i@.org == i.org@ && i@.image == i.image@ && i@.tag == i.tag@
            && i@.digest == i.digest@,
        opt_image(Some(i)) == Some(i@),
        opt_image(None) is None,
{
}

} // verus!
