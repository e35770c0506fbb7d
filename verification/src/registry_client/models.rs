//! Registry data: image versions, available tags and image families.

use vstd::prelude::*;
use crate::date::{Date, UtcTime};
use crate::name_map;
use crate::sort;
use crate::text;
use super::variants;

verus! {

/// One dated image build that can be switched to.
#[derive(Debug, Clone)]
pub struct ImageVersion {
    /// The day on which the image was built.
    pub date: Date,
    /// The full image reference, as `bootc switch` takes it.
    pub full_ref: String,
    /// The version that the image states of itself.
    pub version: String,
    /// The version of its kernel.
    pub kernel: String,
    /// The beginning of its commit hash.
    pub revision: String,
    /// The moment at which it was built.
    pub created: UtcTime,
}

/// Why a registry operation came to nothing.
#[derive(Debug, Clone, PartialEq, Eq)]
pub enum RegistryError {
    Network(String),
    NoTags(String),
    NoCurrentImage,
}

/// What a user is told of an error.
pub open spec fn error_text(e: RegistryError) -> Seq<char> {
    match e {
        RegistryError::Network(why) => "Network error: "@ + why@,
        RegistryError::NoTags(stream) => "No dated tags found for stream '"@ + stream@ + "'"@,
        RegistryError::NoCurrentImage => "Unable to detect current image — is bootc installed?"@,
    }
}

impl RegistryError {
    /// What a user is told of the error.
    pub fn message(&self) -> (r: String)
        ensures
            r@ == error_text(*self),
    {
        match self {
            RegistryError::Network(why) => {
                let mut s = "Network error: ".to_owned();
                s.append(why.as_str());
                s
            },
            RegistryError::NoTags(stream) => {
                let mut s = "No dated tags found for stream '".to_owned();
                s.append(stream.as_str());
                s.append("'");
                s
            },
            RegistryError::NoCurrentImage => "Unable to detect current image — is bootc installed?".to_owned(),
        }
    }
}

/// One entry in the list of available tags: the tag that the registry serves,
/// and what a user is shown for it.
#[derive(Debug, Clone, PartialEq, Eq)]
pub struct AvailableTag {
    pub display: String,
    pub raw: String,
}

/// One coherent product family: sibling image names, and the tag streams under
/// which they are published.
///
/// An image can belong to more than one family: Bluefin Stable and Bluefin LTS
/// share the image `ublue-os/bluefin` and are told apart by the stream.
#[derive(Debug, Clone, Copy, PartialEq)]
pub struct Family {
    /// The name for menus.
    pub name: &'static str,
    /// The registry organisation that owns every image of the family.
    pub org: &'static str,
    /// The image names. The first is the base; the others add features to it.
    pub images: &'static [&'static str],
    /// The tag streams. The first is the default.
    pub streams: &'static [&'static str],
}

/// A family, taken by its characters.
pub struct FamilyModel {
    pub name: Seq<char>,
    pub org: Seq<char>,
    pub images: Seq<Seq<char>>,
    pub streams: Seq<Seq<char>>,
}

impl View for Family {
    type V = FamilyModel;

    open spec fn view(&self) -> FamilyModel {
        FamilyModel {
            name: self.name@,
            org: self.org@,
            images: text::strs(self.images@),
            streams: text::strs(self.streams@),
        }
    }
}

/// A sequence of families, each taken by its view.
pub open spec fn models(v: Seq<Family>) -> Seq<FamilyModel> {
    Seq::new(v.len(), |i: int| v[i]@)
}

/// The product families of Universal Blue and Project Bluefin.
pub open spec fn catalogue() -> Seq<FamilyModel> {
    seq![
        FamilyModel {
            name: "Bluefin Stable"@,
            org: "ublue-os"@,
            images: seq![
                "bluefin"@,
                "bluefin-nvidia"@,
                "bluefin-nvidia-open"@,
                "bluefin-dx"@,
                "bluefin-dx-nvidia"@,
                "bluefin-dx-nvidia-open"@,
                "bluefin-asus"@,
                "bluefin-asus-nvidia"@,
                "bluefin-surface"@,
                "bluefin-framework"@,
            ],
            streams: seq!["latest"@, "stable"@, "stable-daily"@, "beta"@, "gts"@],
        },
        FamilyModel {
            name: "Bluefin LTS"@,
            org: "ublue-os"@,
            images: seq![
                "bluefin"@,
                "bluefin-nvidia"@,
                "bluefin-dx"@,
                "bluefin-dx-nvidia"@,
                "bluefin-gdx"@,
            ],
            streams: seq!["lts"@, "lts-hwe"@, "lts-amd64"@, "lts-arm64"@, "gdx"@],
        },
        FamilyModel {
            name: "Aurora"@,
            org: "ublue-os"@,
            images: seq![
                "aurora"@,
                "aurora-nvidia"@,
                "aurora-nvidia-open"@,
                "aurora-dx"@,
                "aurora-dx-nvidia"@,
                "aurora-dx-nvidia-open"@,
            ],
            streams: seq!["latest"@, "stable"@, "stable-daily"@, "beta"@],
        },
        FamilyModel {
            name: "Bazzite KDE"@,
            org: "ublue-os"@,
            images: seq![
                "bazzite"@,
                "bazzite-nvidia"@,
                "bazzite-nvidia-open"@,
                "bazzite-deck"@,
                "bazzite-deck-nvidia"@,
                "bazzite-asus"@,
                "bazzite-framework"@,
            ],
            streams: seq!["stable"@, "testing"@, "unstable"@, "latest"@],
        },
        FamilyModel {
            name: "Bazzite GNOME"@,
            org: "ublue-os"@,
            images: seq!["bazzite-gnome"@, "bazzite-gnome-nvidia"@],
            streams: seq!["stable"@, "testing"@, "unstable"@, "latest"@],
        },
        FamilyModel {
            name: "Bluefin Dakota"@,
            org: "projectbluefin"@,
            images: seq!["dakota"@, "dakota-nvidia"@],
            streams: seq!["latest"@, "testing"@],
        },
    ]
}

/// The product families of Universal Blue and Project Bluefin. A variant that
/// is added here can be selected.
pub fn known_families() -> (r: Vec<Family>)
    ensures
        models(r@) == catalogue(),
{
    let all = vec![
        Family {
            name: "Bluefin Stable",
            org: "ublue-os",
            images: &[
                "bluefin",
                "bluefin-nvidia",
                "bluefin-nvidia-open",
                "bluefin-dx",
                "bluefin-dx-nvidia",
                "bluefin-dx-nvidia-open",
                "bluefin-asus",
                "bluefin-asus-nvidia",
                "bluefin-surface",
                "bluefin-framework",
            ],
            streams: &["latest", "stable", "stable-daily", "beta", "gts"],
        },
        Family {
            name: "Bluefin LTS",
            org: "ublue-os",
            images: &[
                "bluefin",
                "bluefin-nvidia",
                "bluefin-dx",
                "bluefin-dx-nvidia",
                "bluefin-gdx",
            ],
            streams: &["lts", "lts-hwe", "lts-amd64", "lts-arm64", "gdx"],
        },
        Family {
            name: "Aurora",
            org: "ublue-os",
            images: &[
                "aurora",
                "aurora-nvidia",
                "aurora-nvidia-open",
                "aurora-dx",
                "aurora-dx-nvidia",
                "aurora-dx-nvidia-open",
            ],
            streams: &["latest", "stable", "stable-daily", "beta"],
        },
        Family {
            name: "Bazzite KDE",
            org: "ublue-os",
            images: &[
                "bazzite",
                "bazzite-nvidia",
                "bazzite-nvidia-open",
                "bazzite-deck",
                "bazzite-deck-nvidia",
                "bazzite-asus",
                "bazzite-framework",
            ],
            streams: &["stable", "testing", "unstable", "latest"],
        },
        Family {
            name: "Bazzite GNOME",
            org: "ublue-os",
            images: &["bazzite-gnome", "bazzite-gnome-nvidia"],
            streams: &["stable", "testing", "unstable", "latest"],
        },
        Family {
            name: "Bluefin Dakota",
            org: "projectbluefin",
            images: &["dakota", "dakota-nvidia"],
            streams: &["latest", "testing"],
        },
    ];
    proof {
        assert forall|i: int| 0 <= i < 6 implies models(all@)[i] == #[trigger] catalogue()[i] by {
            assert(all@[i].images@.len() == catalogue()[i].images.len());
            assert(all@[i]@.images =~= catalogue()[i].images);
            assert(all@[i]@.streams =~= catalogue()[i].streams);
        }
        assert(models(all@) =~= catalogue());
    }
    all
}

// ---------------------------------------------------------------------------
// Families and images

/// The family publishes `image` under `org`.
pub open spec fn publishes(f: FamilyModel, org: Seq<char>, image: Seq<char>) -> bool {
    f.org == org && f.images.contains(image)
}

/// The families of `all` that publish `image` under `org`, in order.
pub open spec fn publishers(all: Seq<FamilyModel>, org: Seq<char>, image: Seq<char>) -> Seq<
    FamilyModel,
>
    decreases all.len(),
{
    if all.len() == 0 {
        Seq::empty()
    } else {
        let before = publishers(all.drop_last(), org, image);
        if publishes(all.last(), org, image) {
            before.push(all.last())
        } else {
            before
        }
    }
}

/// The first family of `all` that has `stream`.
pub open spec fn first_with_stream(all: Seq<FamilyModel>, stream: Seq<char>) -> Option<FamilyModel>
    decreases all.len(),
{
    if all.len() == 0 {
        None
    } else {
        match first_with_stream(all.drop_last(), stream) {
            Some(f) => Some(f),
            None => if all.last().streams.contains(stream) {
                Some(all.last())
            } else {
                None
            },
        }
    }
}

/// The family that an image belongs to: one of its families that has the
/// stream, else the first of them.
pub open spec fn matching_family(org: Seq<char>, image: Seq<char>, stream: Seq<char>) -> Option<
    FamilyModel,
> {
    let candidates = publishers(catalogue(), org, image);
    match first_with_stream(candidates, stream) {
        Some(f) => Some(f),
        None => if candidates.len() > 0 {
            Some(candidates[0])
        } else {
            None
        },
    }
}

/// A family that may be missing, taken by its view.
pub open spec fn opt_model(f: Option<Family>) -> Option<FamilyModel> {
    match f {
        Some(x) => Some(x@),
        None => None,
    }
}

/// The image that every other image of the family is derived from.
pub open spec fn base_of(f: FamilyModel) -> Seq<char> {
    if f.images.len() > 0 {
        f.images[0]
    } else {
        Seq::empty()
    }
}

/// The features that `image` adds to the base; `None` where it is the base, or
/// not named after it.
pub open spec fn features_of(f: FamilyModel, image: Seq<char>) -> Option<Seq<Seq<char>>> {
    let stem = base_of(f) + "-"@;
    if image != base_of(f) && text::begins_with(image, stem) {
        Some(text::pieces(image.skip(stem.len() as int), '-'))
    } else {
        None
    }
}

/// Some image of the family has the feature.
pub open spec fn is_feature(f: FamilyModel, feature: Seq<char>) -> bool {
    exists|i: int| 0 <= i < f.images.len() && image_has_feature(f, i, feature)
}

pub open spec fn image_has_feature(f: FamilyModel, i: int, feature: Seq<char>) -> bool {
    features_of(f, f.images[i]) matches Some(fs) && fs.contains(feature)
}

/// The image adds exactly the features `wanted`, in whatever order.
pub open spec fn has_exactly(f: FamilyModel, image: Seq<char>, wanted: Seq<Seq<char>>) -> bool {
    features_of(f, image) matches Some(fs) && fs.to_multiset() == wanted.to_multiset()
}

/// The first image of `images` that adds exactly the features `wanted`.
pub open spec fn first_with_features(
    f: FamilyModel,
    images: Seq<Seq<char>>,
    wanted: Seq<Seq<char>>,
) -> Option<Seq<char>>
    decreases images.len(),
{
    if images.len() == 0 {
        None
    } else {
        match first_with_features(f, images.drop_last(), wanted) {
            Some(image) => Some(image),
            None => if has_exactly(f, images.last(), wanted) {
                Some(images.last())
            } else {
                None
            },
        }
    }
}

/// The image for a choice of features: the base for none.
pub open spec fn image_for(f: FamilyModel, wanted: Seq<Seq<char>>) -> Option<Seq<char>> {
    if wanted.len() == 0 {
        if f.images.len() > 0 {
            Some(f.images[0])
        } else {
            None
        }
    } else {
        first_with_features(f, f.images, wanted)
    }
}

/// A string slice that may be missing, taken by its characters.
pub open spec fn opt_str(s: Option<&str>) -> Option<Seq<char>> {
    match s {
        Some(x) => Some(x@),
        None => None,
    }
}

/// Strings in dictionary order are one sequence if they are the same strings.
proof fn lemma_same_strings(a: Seq<Seq<char>>, b: Seq<Seq<char>>)
    ensures
        sort::sorted(a, text::lex()) == sort::sorted(b, text::lex()) <==> a.to_multiset()
            == b.to_multiset(),
{
    let sa = sort::sorted(a, text::lex());
    let sb = sort::sorted(b, text::lex());
    text::lemma_lex_preorder();
    sort::law_sorted_is_permutation(a, text::lex());
    sort::law_sorted_is_permutation(b, text::lex());
    if a.to_multiset() == b.to_multiset() {
        sort::law_sorted_ascends(a, text::lex());
        sort::law_sorted_ascends(b, text::lex());
        assert forall|x: Seq<char>, y: Seq<char>| #[trigger]
            text::lex()(x, y) && #[trigger] text::lex()(y, x) implies x == y by {
            text::lemma_lex_antisymmetric(x, y);
        }
        assert forall|x: Seq<char>| #[trigger] text::lex()(x, x) by {
            text::lemma_lex_reflexive(x);
        }
        assert(vstd::relations::total_ordering(text::lex()));
        assert(vstd::relations::sorted_by(sa, text::lex()));
        assert(vstd::relations::sorted_by(sb, text::lex()));
        vstd::seq_lib::lemma_sorted_unique(sa, sb, text::lex());
    }
}

/// Whether two lists hold the same strings, each as often.
fn same_strings(a: &Vec<&str>, b: &[&str]) -> (r: bool)
    ensures
        r == (text::strs(a@).to_multiset() == text::strs(b@).to_multiset()),
{
    let have = text::sort_strs(copied(a.as_slice()));
    let want = text::sort_strs(copied(b));
    proof {
        lemma_same_strings(text::strs(a@), text::strs(b@));
    }
    let ghost same = text::strs(a@).to_multiset() == text::strs(b@).to_multiset();
    if have.len() != want.len() {
        assert(text::strs(have@).len() != text::strs(want@).len());
        return false;
    }
    let mut i: usize = 0;
    while i < have.len()
        invariant
            i <= have@.len(),
            have@.len() == want@.len(),
            same == (text::strs(have@) == text::strs(want@)),
            same == (text::strs(a@).to_multiset() == text::strs(b@).to_multiset()),
            forall|j: int| 0 <= j < i ==> text::strs(have@)[j] == text::strs(want@)[j],
        decreases have@.len() - i,
    {
        if !text::eq(have[i], want[i]) {
            assert(text::strs(have@)[i as int] != text::strs(want@)[i as int]);
            return false;
        }
        i += 1;
    }
    assert(text::strs(have@) =~= text::strs(want@));
    true
}

fn copied<'a>(v: &[&'a str]) -> (r: Vec<&'a str>)
    ensures
        r@ == v@,
{
    let mut out: Vec<&'a str> = Vec::new();
    let mut i: usize = 0;
    while i < v.len()
        invariant
            i <= v@.len(),
            out@ == v@.take(i as int),
        decreases v@.len() - i,
    {
        out.push(v[i]);
        assert(v@.take(i + 1) =~= v@.take(i as int).push(v@[i as int]));
        i += 1;
    }
    assert(v@.take(v@.len() as int) =~= v@);
    out
}

/// Put `item` into its place in `set`, unless it is there.
fn add_to_set(set: &mut Vec<&'static str>, item: &'static str)
    requires
        name_map::strictly_ascends(text::strs(old(set)@)),
    ensures
        name_map::strictly_ascends(text::strs(final(set)@)),
        forall|x: Seq<char>|
            text::strs(final(set)@).contains(x) <==> x == item@ || text::strs(old(set)@).contains(
                x,
            ),
{
    let ghost before = text::strs(set@);
    let mut k: usize = 0;
    while k < set.len() && text::str_le(set[k], item) && !text::eq(set[k], item)
        invariant
            k <= set@.len(),
            before == text::strs(set@),
            set@ == old(set)@,
            forall|j: int|
                0 <= j < k ==> text::lex_le(#[trigger] before[j], item@) && before[j] != item@,
        decreases set@.len() - k,
    {
        k += 1;
    }
    if k < set.len() && text::eq(set[k], item) {
        assert(before[k as int] == item@);
        assert(before.contains(item@));
        return;
    }
    proof {
        assert forall|j: int| k <= j < before.len() implies text::lex_le(item@, #[trigger] before[j])
            && before[j] != item@ by {
            text::lemma_lex_total(before[k as int], item@);
            if j > k {
                text::lemma_lex_transitive(item@, before[k as int], before[j]);
                if before[j] == item@ {
                    text::lemma_lex_antisymmetric(item@, before[k as int]);
                }
            }
        }
    }
    set.insert(k, item);
    proof {
        let after = text::strs(set@);
        assert(after =~= before.insert(k as int, item@));
        assert forall|x: Seq<char>| after.contains(x) <==> x == item@ || before.contains(x) by {
            if x == item@ {
                assert(after[k as int] == x);
            } else if before.contains(x) {
                let j = choose|j: int| 0 <= j < before.len() && before[j] == x;
                assert(after[if j < k {
                    j
                } else {
                    j + 1
                }] == x);
            }
            if after.contains(x) && x != item@ {
                let j = choose|j: int| 0 <= j < after.len() && after[j] == x;
                assert(before[if j < k {
                    j
                } else {
                    j - 1
                }] == x);
            }
        }
    }
}

impl Family {
    /// Every family that publishes `image` under `org`.
    pub fn all_for_image(org: &str, image: &str) -> (r: Vec<Family>)
        ensures
            models(r@) == publishers(catalogue(), org@, image@),
    {
        let all = known_families();
        let mut out: Vec<Family> = Vec::new();
        let mut i: usize = 0;
        assert(models(out@) =~= publishers(catalogue().take(0), org@, image@));
        while i < all.len()
            invariant
                i <= all@.len(),
                models(all@) == catalogue(),
                models(out@) == publishers(catalogue().take(i as int), org@, image@),
            decreases all@.len() - i,
        {
            let f = all[i];
            let ghost before = models(out@);
            proof {
                assert(catalogue().take(i + 1).drop_last() =~= catalogue().take(i as int));
                assert(catalogue()[i as int] == models(all@)[i as int]);
            }
            if text::eq(f.org, org) && text::one_of(f.images, image) {
                out.push(f);
                assert(models(out@) =~= before.push(f@));
            }
            i += 1;
        }
        assert(catalogue().take(all@.len() as int) =~= catalogue()) by {
            assert(models(all@).len() == all@.len());
        }
        out
    }

    /// The family that best matches an image and a stream: one of the families
    /// of the image that has the stream, else the first of them.
    pub fn best_match(org: &str, image: &str, stream: &str) -> (r: Option<Family>)
        ensures
            opt_model(r) == matching_family(org@, image@, stream@),
    {
        let candidates = Self::all_for_image(org, image);
        let ghost cs = models(candidates@);
        let mut i: usize = 0;
        while i < candidates.len()
            invariant
                i <= candidates@.len(),
                cs == models(candidates@),
                cs == publishers(catalogue(), org@, image@),
                first_with_stream(cs.take(i as int), stream@) is None,
            decreases candidates@.len() - i,
        {
            let f = candidates[i];
            proof {
                assert(cs.take(i + 1).drop_last() =~= cs.take(i as int));
                assert(cs.take(i + 1).last() == f@);
            }
            if text::one_of(f.streams, stream) {
                proof {
                    lemma_first_stays(cs, stream@, i + 1);
                }
                return Some(f);
            }
            i += 1;
        }
        assert(cs.take(cs.len() as int) =~= cs);
        if candidates.len() > 0 {
            Some(candidates[0])
        } else {
            None
        }
    }

    /// The base image: the first, or nothing where there is none.
    pub fn base_image(&self) -> (r: &'static str)
        ensures
            r@ == base_of(self@),
    {
        if self.images.len() > 0 {
            self.images[0]
        } else {
            proof {
                reveal_strlit("");
                assert(""@ =~= Seq::<char>::empty());
            }
            ""
        }
    }

    /// What `image` adds to the base image.
    fn suffix_atoms(&self, image: &'static str) -> (r: Option<Vec<&'static str>>)
        ensures
            match r {
                Some(v) => features_of(self@, image@) == Some(text::strs(v@)),
                None => features_of(self@, image@) is None,
            },
    {
        let base = self.base_image();
        if text::eq(image, base) {
            return None;
        }
        let mut stem = base.to_owned();
        stem.append("-");
        match text::strip_prefix(image, stem.as_str()) {
            Some(suffix) => Some(text::split(suffix, '-')),
            None => None,
        }
    }

    /// The single features of the family, in alphabetical order, each once. Not
    /// every combination of them is published:
    /// [`Family::select_image_for_features`] tells.
    pub fn available_features(&self) -> (r: Vec<&'static str>)
        ensures
            name_map::strictly_ascends(text::strs(r@)),
            forall|x: Seq<char>| #[trigger]
                text::strs(r@).contains(x) <==> is_feature(self@, x),
    {
        let mut set: Vec<&'static str> = Vec::new();
        let mut i: usize = 0;
        while i < self.images.len()
            invariant
                i <= self.images@.len(),
                name_map::strictly_ascends(text::strs(set@)),
                forall|x: Seq<char>| #[trigger]
                    text::strs(set@).contains(x) <==> exists|k: int|
                        0 <= k < i && image_has_feature(self@, k, x),
            decreases self.images@.len() - i,
        {
            let ghost done = text::strs(set@);
            assert forall|x: Seq<char>| #[trigger] done.contains(x) <==> exists|k: int|
                0 <= k < i && image_has_feature(self@, k, x) by {}
            match self.suffix_atoms(self.images[i]) {
                Some(atoms) => {
                    let ghost fs = text::strs(atoms@);
                    let mut j: usize = 0;
                    while j < atoms.len()
                        invariant
                            j <= atoms@.len(),
                            fs == text::strs(atoms@),
                            name_map::strictly_ascends(text::strs(set@)),
                            forall|x: Seq<char>| #[trigger]
                                text::strs(set@).contains(x) <==> done.contains(x) || fs.take(
                                    j as int,
                                ).contains(x),
                        decreases atoms@.len() - j,
                    {
                        add_to_set(&mut set, atoms[j]);
                        proof {
                            assert(fs.take(j + 1) =~= fs.take(j as int).push(fs[j as int]));
                            assert forall|x: Seq<char>| #[trigger]
                                text::strs(set@).contains(x) <==> done.contains(x) || fs.take(
                                    j + 1,
                                ).contains(x) by {
                                lemma_push_contains(fs.take(j as int), fs[j as int], x);
                            }
                        }
                        j += 1;
                    }
                    assert(fs.take(fs.len() as int) =~= fs);
                    assert(features_of(self@, self@.images[i as int]) == Some(fs));
                },
                None => {
                    assert(features_of(self@, self@.images[i as int]) is None);
                },
            }
            proof {
                assert forall|x: Seq<char>| #[trigger]
                    text::strs(set@).contains(x) <==> exists|k: int|
                        0 <= k < i + 1 && image_has_feature(self@, k, x) by {
                    let here = image_has_feature(self@, i as int, x);
                    assert(text::strs(set@).contains(x) <==> done.contains(x) || here);
                    if done.contains(x) {
                        let k = choose|k: int| 0 <= k < i && image_has_feature(self@, k, x);
                        assert(0 <= k < i + 1 && image_has_feature(self@, k, x));
                    }
                }
            }
            i += 1;
        }
        set
    }

    /// The image whose features are exactly `features`, in whatever order: the
    /// base for none. `None` where no image of the family has that combination.
    pub fn select_image_for_features(&self, features: &[&str]) -> (r: Option<&'static str>)
        ensures
            opt_str(r) == image_for(self@, text::strs(features@)),
    {
        if features.len() == 0 {
            return if self.images.len() > 0 {
                Some(self.images[0])
            } else {
                None
            };
        }
        let ghost all = self@.images;
        let ghost wanted = text::strs(features@);
        let mut i: usize = 0;
        while i < self.images.len()
            invariant
                i <= self.images@.len(),
                all == self@.images,
                wanted == text::strs(features@),
                wanted.len() > 0,
                first_with_features(self@, all.take(i as int), wanted) is None,
            decreases self.images@.len() - i,
        {
            let image = self.images[i];
            proof {
                assert(all.take(i + 1).drop_last() =~= all.take(i as int));
                assert(all.take(i + 1).last() == image@);
            }
            match self.suffix_atoms(image) {
                Some(have) => {
                    if same_strings(&have, features) {
                        proof {
                            lemma_first_image_stays(self@, all, wanted, i + 1);
                        }
                        return Some(image);
                    }
                },
                None => {},
            }
            i += 1;
        }
        assert(all.take(all.len() as int) =~= all);
        None
    }
}

proof fn lemma_push_contains(s: Seq<Seq<char>>, y: Seq<char>, x: Seq<char>)
    ensures
        s.push(y).contains(x) <==> s.contains(x) || x == y,
{
    if s.contains(x) {
        let k = choose|k: int| 0 <= k < s.len() && s[k] == x;
        assert(s.push(y)[k] == x);
    }
    if x == y {
        assert(s.push(y)[s.len() as int] == x);
    }
    if s.push(y).contains(x) && x != y {
        let k = choose|k: int| 0 <= k < s.push(y).len() && s.push(y)[k] == x;
        assert(s[k] == x);
    }
}

proof fn lemma_first_stays(all: Seq<FamilyModel>, stream: Seq<char>, k: int)
    requires
        0 <= k <= all.len(),
        first_with_stream(all.take(k), stream) is Some,
    ensures
        first_with_stream(all, stream) == first_with_stream(all.take(k), stream),
    decreases all.len() - k,
{
    if k < all.len() {
        assert(all.take(k + 1).drop_last() =~= all.take(k));
        lemma_first_stays(all, stream, k + 1);
    } else {
        assert(all.take(k) =~= all);
    }
}

proof fn lemma_first_image_stays(
    f: FamilyModel,
    images: Seq<Seq<char>>,
    wanted: Seq<Seq<char>>,
    k: int,
)
    requires
        0 <= k <= images.len(),
        first_with_features(f, images.take(k), wanted) is Some,
    ensures
        first_with_features(f, images, wanted) == first_with_features(f, images.take(k), wanted),
    decreases images.len() - k,
{
    if k < images.len() {
        assert(images.take(k + 1).drop_last() =~= images.take(k));
        lemma_first_image_stays(f, images, wanted, k + 1);
    } else {
        assert(images.take(k) =~= images);
    }
}

// ---------------------------------------------------------------------------
// Laws

proof fn lemma_publishers(all: Seq<FamilyModel>, org: Seq<char>, image: Seq<char>)
    ensures
        forall|i: int|
            0 <= i < publishers(all, org, image).len() ==> publishes(
                #[trigger] publishers(all, org, image)[i],
                org,
                image,
            ) && all.contains(publishers(all, org, image)[i]),
        forall|k: int|
            0 <= k < all.len() && publishes(#[trigger] all[k], org, image) ==> publishers(
                all,
                org,
                image,
            ).contains(all[k]),
    decreases all.len(),
{
    if all.len() > 0 {
        let front = all.drop_last();
        lemma_publishers(front, org, image);
        let r = publishers(all, org, image);
        let p = publishers(front, org, image);
        assert forall|i: int| 0 <= i < r.len() implies publishes(#[trigger] r[i], org, image)
            && all.contains(r[i]) by {
            if i < p.len() {
                assert(p[i] == r[i]);
                let k = choose|k: int| 0 <= k < front.len() && front[k] == p[i];
                assert(all[k] == r[i]);
            } else {
                assert(all[all.len() - 1] == r[i]);
            }
        }
        assert forall|k: int| 0 <= k < all.len() && publishes(#[trigger] all[k], org, image)
            implies r.contains(all[k]) by {
            if k < front.len() {
                assert(front[k] == all[k]);
                let j = choose|j: int| 0 <= j < p.len() && p[j] == all[k];
                assert(r[j] == all[k]);
            } else {
                assert(r[r.len() - 1] == all[k]);
            }
        }
    }
}

proof fn lemma_first_with_stream(all: Seq<FamilyModel>, stream: Seq<char>)
    ensures
        match first_with_stream(all, stream) {
            Some(f) => all.contains(f) && f.streams.contains(stream),
            None => forall|k: int|
                0 <= k < all.len() ==> !(#[trigger] all[k]).streams.contains(stream),
        },
    decreases all.len(),
{
    if all.len() > 0 {
        let front = all.drop_last();
        lemma_first_with_stream(front, stream);
        match first_with_stream(front, stream) {
            Some(f) => {
                let k = choose|k: int| 0 <= k < front.len() && front[k] == f;
                assert(all[k] == f);
            },
            None => {
                assert(all[all.len() - 1] == all.last());
                assert forall|k: int| 0 <= k < front.len() implies !(
                #[trigger] all[k]).streams.contains(stream) by {
                    assert(front[k] == all[k]);
                }
            },
        }
    }
}

/// The best match is a known family that publishes the image; it has the stream
/// wherever some family of the image has; and there is one wherever some family
/// publishes the image.
pub proof fn law_best_match(org: Seq<char>, image: Seq<char>, stream: Seq<char>)
    ensures
        matching_family(org, image, stream) matches Some(f) ==> catalogue().contains(f)
            && publishes(f, org, image),
        forall|k: int|
            0 <= k < catalogue().len() && publishes(#[trigger] catalogue()[k], org, image)
                ==> matching_family(org, image, stream) is Some,
        forall|k: int|
            0 <= k < catalogue().len() && publishes(#[trigger] catalogue()[k], org, image)
                && catalogue()[k].streams.contains(stream) ==> (matching_family(org, image, stream)
                matches Some(f) && f.streams.contains(stream)),
{
    let c = publishers(catalogue(), org, image);
    lemma_publishers(catalogue(), org, image);
    lemma_first_with_stream(c, stream);
    match first_with_stream(c, stream) {
        Some(f) => {
            let k = choose|k: int| 0 <= k < c.len() && c[k] == f;
            assert(publishes(c[k], org, image));
        },
        None => {
            assert forall|k: int|
                0 <= k < catalogue().len() && publishes(#[trigger] catalogue()[k], org, image)
                    implies !catalogue()[k].streams.contains(stream) by {
                let j = choose|j: int| 0 <= j < c.len() && c[j] == catalogue()[k];
                assert(!c[j].streams.contains(stream));
            }
        },
    }
}

proof fn lemma_first_with_features(
    f: FamilyModel,
    images: Seq<Seq<char>>,
    wanted: Seq<Seq<char>>,
)
    ensures
        match first_with_features(f, images, wanted) {
            Some(image) => images.contains(image) && has_exactly(f, image, wanted),
            None => forall|k: int|
                0 <= k < images.len() ==> !has_exactly(f, #[trigger] images[k], wanted),
        },
    decreases images.len(),
{
    if images.len() > 0 {
        let front = images.drop_last();
        lemma_first_with_features(f, front, wanted);
        match first_with_features(f, front, wanted) {
            Some(image) => {
                let k = choose|k: int| 0 <= k < front.len() && front[k] == image;
                assert(images[k] == image);
            },
            None => {
                assert(images[images.len() - 1] == images.last());
                assert forall|k: int| 0 <= k < front.len() implies !has_exactly(
                    f,
                    #[trigger] images[k],
                    wanted,
                ) by {
                    assert(front[k] == images[k]);
                }
            },
        }
    }
}

/// An image that is selected is published by the family and has exactly the
/// features asked for; none is selected only where no image has.
pub proof fn law_selected_image(f: FamilyModel, wanted: Seq<Seq<char>>)
    ensures
        image_for(f, wanted) matches Some(image) ==> f.images.contains(image),
        wanted.len() > 0 ==> (image_for(f, wanted) matches Some(image) ==> has_exactly(
            f,
            image,
            wanted,
        )),
        wanted.len() > 0 && image_for(f, wanted) is None ==> forall|k: int|
            0 <= k < f.images.len() ==> !has_exactly(f, #[trigger] f.images[k], wanted),
        wanted.len() == 0 && f.images.len() > 0 ==> image_for(f, wanted) == Some(base_of(f)),
{
    lemma_first_with_features(f, f.images, wanted);
    if f.images.len() > 0 {
        assert(f.images[0] == base_of(f));
    }
}

/// In which order the features are asked for makes no difference.
pub proof fn law_feature_order(f: FamilyModel, a: Seq<Seq<char>>, b: Seq<Seq<char>>)
    requires
        a.to_multiset() == b.to_multiset(),
    ensures
        image_for(f, a) == image_for(f, b),
{
    vstd::seq_lib::to_multiset_len(a);
    vstd::seq_lib::to_multiset_len(b);
    lemma_same_first(f, f.images, a, b);
}

proof fn lemma_same_first(
    f: FamilyModel,
    images: Seq<Seq<char>>,
    a: Seq<Seq<char>>,
    b: Seq<Seq<char>>,
)
    requires
        a.to_multiset() == b.to_multiset(),
    ensures
        first_with_features(f, images, a) == first_with_features(f, images, b),
    decreases images.len(),
{
    if images.len() > 0 {
        lemma_same_first(f, images.drop_last(), a, b);
    }
}

/// Asking for the features of an image of the family gives an image with those
/// features.
pub proof fn law_features_select_their_like(f: FamilyModel, k: int)
    requires
        0 <= k < f.images.len(),
        features_of(f, f.images[k]) is Some,
    ensures
        ({
            let wanted = features_of(f, f.images[k]).unwrap();
            image_for(f, wanted) matches Some(image) && has_exactly(f, image, wanted)
        }),
{
    let wanted = features_of(f, f.images[k]).unwrap();
    let stem = base_of(f) + "-"@;
    text::lemma_pieces(f.images[k].skip(stem.len() as int), '-');
    lemma_first_with_features(f, f.images, wanted);
    assert(has_exactly(f, f.images[k], wanted));
}

/// In a family of the catalogue each image is reached from its own features, in
/// whatever order they are asked for, and each of them is one of the available
/// features. The base image has none.
pub proof fn law_features_of_image_select(f: FamilyModel, k: int, wanted: Seq<Seq<char>>)
    requires
        catalogue().contains(f),
        0 <= k < f.images.len(),
        wanted.to_multiset() == variants::own_features(f, f.images[k]).to_multiset(),
    ensures
        image_for(f, wanted) == Some(f.images[k]),
        forall|x: Seq<char>| #[trigger] wanted.contains(x) ==> is_feature(f, x),
{
    variants::lemma_own_features_select(f, k, wanted);
    variants::lemma_own_features_are_available(f, k, wanted);
}

proof fn lemma_no_publisher(all: Seq<FamilyModel>, org: Seq<char>, image: Seq<char>)
    requires
        forall|i: int| 0 <= i < all.len() ==> !publishes(#[trigger] all[i], org, image),
    ensures
        publishers(all, org, image).len() == 0,
    decreases all.len(),
{
    if all.len() > 0 {
        let front = all.drop_last();
        assert(all[all.len() - 1] == all.last());
        assert forall|i: int| 0 <= i < front.len() implies !publishes(#[trigger] front[i], org, image) by {
            assert(front[i] == all[i]);
        }
        lemma_no_publisher(front, org, image);
    }
}

proof fn lemma_first_publisher(all: Seq<FamilyModel>, org: Seq<char>, image: Seq<char>, k: int)
    requires
        0 <= k < all.len(),
        publishes(all[k], org, image),
        forall|i: int| 0 <= i < k ==> !publishes(#[trigger] all[i], org, image),
    ensures
        publishers(all, org, image).len() > 0,
        publishers(all, org, image)[0] == all[k],
    decreases all.len(),
{
    let front = all.drop_last();
    assert(all[all.len() - 1] == all.last());
    if k < all.len() - 1 {
        assert(front[k] == all[k]);
        assert forall|i: int| 0 <= i < k implies !publishes(#[trigger] front[i], org, image) by {
            assert(front[i] == all[i]);
        }
        lemma_first_publisher(front, org, image, k);
    } else {
        assert forall|i: int| 0 <= i < front.len() implies !publishes(#[trigger] front[i], org, image) by {
            assert(front[i] == all[i]);
        }
        lemma_no_publisher(front, org, image);
    }
}

/// The family that publishes the image and has the stream.
pub open spec fn publishes_under(
    f: FamilyModel,
    org: Seq<char>,
    image: Seq<char>,
    stream: Seq<char>,
) -> bool {
    publishes(f, org, image) && f.streams.contains(stream)
}

proof fn lemma_no_publisher_under(
    all: Seq<FamilyModel>,
    org: Seq<char>,
    image: Seq<char>,
    stream: Seq<char>,
)
    requires
        forall|i: int|
            0 <= i < all.len() ==> !publishes_under(#[trigger] all[i], org, image, stream),
    ensures
        first_with_stream(publishers(all, org, image), stream) is None,
    decreases all.len(),
{
    if all.len() > 0 {
        let front = all.drop_last();
        assert(all[all.len() - 1] == all.last());
        assert forall|i: int| 0 <= i < front.len() implies !publishes_under(
            #[trigger] front[i],
            org,
            image,
            stream,
        ) by {
            assert(front[i] == all[i]);
        }
        lemma_no_publisher_under(front, org, image, stream);
        assert(!publishes_under(all[all.len() - 1], org, image, stream));
        let before = publishers(front, org, image);
        assert(before.push(all.last()).drop_last() =~= before);
    }
}

proof fn lemma_first_publisher_under(
    all: Seq<FamilyModel>,
    org: Seq<char>,
    image: Seq<char>,
    stream: Seq<char>,
    k: int,
)
    requires
        0 <= k < all.len(),
        publishes_under(all[k], org, image, stream),
        forall|i: int| 0 <= i < k ==> !publishes_under(#[trigger] all[i], org, image, stream),
    ensures
        first_with_stream(publishers(all, org, image), stream) == Some(all[k]),
    decreases all.len(),
{
    let front = all.drop_last();
    assert(all[all.len() - 1] == all.last());
    let before = publishers(front, org, image);
    assert(before.push(all.last()).drop_last() =~= before);
    if k < all.len() - 1 {
        assert(front[k] == all[k]);
        assert forall|i: int| 0 <= i < k implies !publishes_under(
            #[trigger] front[i],
            org,
            image,
            stream,
        ) by {
            assert(front[i] == all[i]);
        }
        lemma_first_publisher_under(front, org, image, stream, k);
    } else {
        assert forall|i: int| 0 <= i < front.len() implies !publishes_under(
            #[trigger] front[i],
            org,
            image,
            stream,
        ) by {
            assert(front[i] == all[i]);
        }
        lemma_no_publisher_under(front, org, image, stream);
    }
}

/// The best match is the first family of the catalogue that publishes the image
/// and has the stream; where none has the stream, the first that publishes the
/// image; and none where none does.
pub proof fn law_best_match_is_the_first(
    org: Seq<char>,
    image: Seq<char>,
    stream: Seq<char>,
    k: int,
)
    ensures
        0 <= k < catalogue().len() && publishes_under(catalogue()[k], org, image, stream) && (
        forall|i: int|
            0 <= i < k ==> !publishes_under(#[trigger] catalogue()[i], org, image, stream))
            ==> matching_family(org, image, stream) == Some(catalogue()[k]),
        0 <= k < catalogue().len() && publishes(catalogue()[k], org, image) && (forall|i: int|
            0 <= i < k ==> !publishes(#[trigger] catalogue()[i], org, image)) && (forall|i: int|
            0 <= i < catalogue().len() ==> !publishes_under(
                #[trigger] catalogue()[i],
                org,
                image,
                stream,
            )) ==> matching_family(org, image, stream) == Some(catalogue()[k]),
        (forall|i: int| 0 <= i < catalogue().len() ==> !publishes(#[trigger] catalogue()[i], org, image))
            ==> matching_family(org, image, stream) is None,
{
    let all = catalogue();
    if 0 <= k < all.len() && publishes_under(all[k], org, image, stream) && (forall|i: int|
        0 <= i < k ==> !publishes_under(#[trigger] all[i], org, image, stream)) {
        lemma_first_publisher_under(all, org, image, stream, k);
    }
    if 0 <= k < all.len() && publishes(all[k], org, image) && (forall|i: int|
        0 <= i < k ==> !publishes(#[trigger] all[i], org, image)) && (forall|i: int|
        0 <= i < all.len() ==> !publishes_under(#[trigger] all[i], org, image, stream)) {
        lemma_first_publisher(all, org, image, k);
        lemma_no_publisher_under(all, org, image, stream);
    }
    if forall|i: int| 0 <= i < all.len() ==> !publishes(#[trigger] all[i], org, image) {
        lemma_no_publisher(all, org, image);
    }
}

/// A family publishes an image under its own organisation alone, and nothing that
/// is not among its images.
pub proof fn law_what_a_family_publishes(f: FamilyModel, org: Seq<char>, k: int, image: Seq<char>)
    ensures
        0 <= k < f.images.len() ==> publishes(f, f.org, f.images[k]),
        org != f.org ==> !publishes(f, org, image),
        (forall|i: int| 0 <= i < f.images.len() ==> #[trigger] f.images[i] != image) ==> !publishes(
            f,
            org,
            image,
        ),
{
}

/// What a user is told of an error names its reason, or the stream.
pub proof fn law_errors_are_told(why: String)
    ensures
        error_text(RegistryError::Network(why)) == "Network error: "@ + why@,
        error_text(RegistryError::NoTags(why)) == "No dated tags found for stream '"@ + why@ + "'"@,
        error_text(RegistryError::NoCurrentImage)
            == "Unable to detect current image — is bootc installed?"@,
{
}

/// The features of an image are the words behind its base; the base has none, and
/// neither has what is not named after it.
pub proof fn law_features_of_a_name(f: FamilyModel, a: Seq<char>, b: Seq<char>, other: Seq<char>)
    requires
        !a.contains('-') && !b.contains('-'),
    ensures
        features_of(f, base_of(f) + seq!['-'] + a) == Some(seq![a]),
        features_of(f, base_of(f) + seq!['-'] + a + seq!['-'] + b) == Some(seq![a, b]),
        features_of(f, base_of(f)) is None,
        other.len() <= base_of(f).len() ==> features_of(f, other) is None,
        other.len() > base_of(f).len() && (other.take(base_of(f).len() as int) != base_of(f)
            || other[base_of(f).len() as int] != '-') ==> features_of(f, other) is None,
{
    reveal_strlit("-");
    assert("-"@ =~= seq!['-']);
    let base = base_of(f);
    let stem = base + "-"@;
    let one = base + seq!['-'] + a;
    let two = base + seq!['-'] + a + seq!['-'] + b;
    text::lemma_one_piece(a, '-');
    text::lemma_one_piece(b, '-');
    text::lemma_pieces_append(a, '-', b);
    assert(one.take(stem.len() as int) =~= stem);
    assert(one.subrange(0, stem.len() as int) =~= stem);
    assert(one.skip(stem.len() as int) =~= a);
    assert(two.take(stem.len() as int) =~= stem);
    assert(two.subrange(0, stem.len() as int) =~= stem);
    assert(two.skip(stem.len() as int) =~= a + seq!['-'] + b);
    assert(seq![a] + seq![b] =~= seq![a, b]);
    if text::begins_with(other, stem) {
        assert(other.take(stem.len() as int)[base.len() as int] == '-');
        assert(other.take(base.len() as int) =~= stem.take(base.len() as int));
        assert(stem.take(base.len() as int) =~= base);
    }
}

/// What is told of a family is what it holds.
pub proof fn law_family_holds_what_is_told(f: Family, k: int)
    ensures
        f@.name == f.name@ && f@.org == f.org@,
        f@.images.len() == f.images@.len() && f@.streams.len() == f.streams@.len(),
        0 <= k < f.images@.len() ==> f@.images[k] == f.images@[k]@,
        0 <= k < f.streams@.len() ==> f@.streams[k] == f.streams@[k]@,
{
}

} // verus!
