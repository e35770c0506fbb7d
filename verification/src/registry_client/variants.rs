//! The images of the catalogue are told apart by their features.

use vstd::prelude::*;
use crate::text;
use super::models;
use super::models::FamilyModel;

verus! {

/// The features of an image of the family; the base has none.
pub open spec fn own_features(f: FamilyModel, image: Seq<char>) -> Seq<Seq<char>> {
    match models::features_of(f, image) {
        Some(fs) => fs,
        None => Seq::empty(),
    }
}

spec fn mark(fs: Seq<Seq<char>>, feature: Seq<char>, weight: int) -> int {
    if fs.contains(feature) {
        weight
    } else {
        0
    }
}

/// A number for a choice of features, from which each of them can be read.
spec fn marks(fs: Seq<Seq<char>>) -> int {
    mark(fs, "nvidia"@, 1)
        + mark(fs, "open"@, 2)
        + mark(fs, "dx"@, 4)
        + mark(fs, "asus"@, 8)
        + mark(fs, "surface"@, 16)
        + mark(fs, "framework"@, 32)
        + mark(fs, "gdx"@, 64)
        + mark(fs, "deck"@, 128)
}

proof fn lemma_same_marks(a: Seq<Seq<char>>, b: Seq<Seq<char>>)
    requires
        a.to_multiset() == b.to_multiset(),
    ensures
        marks(a) == marks(b),
        forall|x: Seq<char>| a.contains(x) <==> b.contains(x),
{
    a.to_multiset_ensures();
    b.to_multiset_ensures();
    assert forall|x: Seq<char>| a.contains(x) <==> b.contains(x) by {
        assert(a.contains(x) <==> a.to_multiset().count(x) > 0);
        assert(b.contains(x) <==> b.to_multiset().count(x) > 0);
    }
}

/// The features are different words, and none holds a hyphen.
proof fn lemma_features()
    ensures
        !"nvidia"@.contains('-'),
        !"open"@.contains('-'),
        !"dx"@.contains('-'),
        !"asus"@.contains('-'),
        !"surface"@.contains('-'),
        !"framework"@.contains('-'),
        !"gdx"@.contains('-'),
        !"deck"@.contains('-'),
        "open"@ != "nvidia"@,
        "dx"@ != "nvidia"@,
        "dx"@ != "open"@,
        "asus"@ != "nvidia"@,
        "asus"@ != "open"@,
        "asus"@ != "dx"@,
        "surface"@ != "nvidia"@,
        "surface"@ != "open"@,
        "surface"@ != "dx"@,
        "surface"@ != "asus"@,
        "framework"@ != "nvidia"@,
        "framework"@ != "open"@,
        "framework"@ != "dx"@,
        "framework"@ != "asus"@,
        "framework"@ != "surface"@,
        "gdx"@ != "nvidia"@,
        "gdx"@ != "open"@,
        "gdx"@ != "dx"@,
        "gdx"@ != "asus"@,
        "gdx"@ != "surface"@,
        "gdx"@ != "framework"@,
        "deck"@ != "nvidia"@,
        "deck"@ != "open"@,
        "deck"@ != "dx"@,
        "deck"@ != "asus"@,
        "deck"@ != "surface"@,
        "deck"@ != "framework"@,
        "deck"@ != "gdx"@,
{
    reveal_strlit("nvidia");
    reveal_strlit("open");
    reveal_strlit("dx");
    reveal_strlit("asus");
    reveal_strlit("surface");
    reveal_strlit("framework");
    reveal_strlit("gdx");
    reveal_strlit("deck");
    assert("nvidia"@.len() == 6
        && "open"@.len() == 4
        && "dx"@.len() == 2
        && "asus"@.len() == 4
        && "surface"@.len() == 7
        && "framework"@.len() == 9
        && "gdx"@.len() == 3
        && "deck"@.len() == 4);
    assert("asus"@[0] != "open"@[0]);
    assert("deck"@[0] != "open"@[0]);
    assert("deck"@[0] != "asus"@[0]);
}

/// What stands behind the base and a hyphen are the features.
proof fn lemma_variant(f: FamilyModel, image: Seq<char>, rest: Seq<char>)
    requires
        image == models::base_of(f) + "-"@ + rest,
    ensures
        models::features_of(f, image) == Some(text::pieces(rest, '-')),
{
    reveal_strlit("-");
    let stem = models::base_of(f) + "-"@;
    assert(image.take(stem.len() as int) =~= stem);
    assert(image.skip(stem.len() as int) =~= rest);
    assert(image.len() > models::base_of(f).len());
}

proof fn lemma_one(f: FamilyModel, image: Seq<char>, a: Seq<char>)
    requires
        image == models::base_of(f) + "-"@ + a,
        !a.contains('-'),
    ensures
        models::features_of(f, image) == Some(seq![a]),
        forall|x: Seq<char>| #[trigger] own_features(f, image).contains(x) <==> x == a,
{
    lemma_variant(f, image, a);
    text::lemma_one_piece(a, '-');
    let fs = seq![a];
    assert(fs[0] == a);
}

proof fn lemma_two(f: FamilyModel, image: Seq<char>, a: Seq<char>, b: Seq<char>)
    requires
        image == models::base_of(f) + "-"@ + (a + "-"@ + b),
        !a.contains('-'),
        !b.contains('-'),
    ensures
        models::features_of(f, image) == Some(seq![a, b]),
        forall|x: Seq<char>| #[trigger]
            own_features(f, image).contains(x) <==> x == a || x == b,
{
    reveal_strlit("-");
    assert("-"@ =~= seq!['-']);
    lemma_variant(f, image, a + "-"@ + b);
    text::lemma_one_piece(a, '-');
    text::lemma_one_piece(b, '-');
    text::lemma_pieces_append(a, '-', b);
    let fs = seq![a, b];
    assert(seq![a] + seq![b] =~= fs);
    assert(fs[0] == a && fs[1] == b);
}

proof fn lemma_three(f: FamilyModel, image: Seq<char>, a: Seq<char>, b: Seq<char>, c: Seq<char>)
    requires
        image == models::base_of(f) + "-"@ + (a + "-"@ + b + "-"@ + c),
        !a.contains('-'),
        !b.contains('-'),
        !c.contains('-'),
    ensures
        models::features_of(f, image) == Some(seq![a, b, c]),
        forall|x: Seq<char>| #[trigger]
            own_features(f, image).contains(x) <==> x == a || x == b || x == c,
{
    reveal_strlit("-");
    assert("-"@ =~= seq!['-']);
    lemma_variant(f, image, a + "-"@ + b + "-"@ + c);
    text::lemma_one_piece(a, '-');
    text::lemma_one_piece(b, '-');
    text::lemma_one_piece(c, '-');
    text::lemma_pieces_append(a, '-', b);
    text::lemma_pieces_append(a + "-"@ + b, '-', c);
    let fs = seq![a, b, c];
    assert(seq![a] + seq![b] + seq![c] =~= fs);
    assert(fs[0] == a && fs[1] == b && fs[2] == c);
}

/// The base comes first, each other image has features, and no two images have
/// the same.
spec fn told_apart(f: FamilyModel) -> bool {
    &&& f.images.len() > 0
    &&& forall|k: int|
        1 <= k < f.images.len() ==> models::features_of(f, #[trigger] f.images[k]) is Some
    &&& forall|i: int, j: int|
        0 <= i < j < f.images.len() ==> marks(own_features(f, #[trigger] f.images[i])) != marks(
            own_features(f, #[trigger] f.images[j]),
        )
}

proof fn lemma_bluefin_stable()
    ensures
        told_apart(models::catalogue()[0]),
{
    let f = models::catalogue()[0];
    lemma_features();
    assert(marks(own_features(f, f.images[0])) == 0);
    assert(f.images[1] =~= models::base_of(f) + "-"@ + "nvidia"@) by {
        reveal_strlit("bluefin");
        reveal_strlit("-");
        reveal_strlit("bluefin-nvidia");
        reveal_strlit("nvidia");
    }
    lemma_one(f, f.images[1], "nvidia"@);
    assert(marks(own_features(f, f.images[1])) == 1);
    assert(f.images[2] =~= models::base_of(f) + "-"@ + ("nvidia"@ + "-"@ + "open"@)) by {
        reveal_strlit("bluefin");
        reveal_strlit("-");
        reveal_strlit("bluefin-nvidia-open");
        reveal_strlit("nvidia");
        reveal_strlit("open");
    }
    lemma_two(f, f.images[2], "nvidia"@, "open"@);
    assert(marks(own_features(f, f.images[2])) == 3);
    assert(f.images[3] =~= models::base_of(f) + "-"@ + "dx"@) by {
        reveal_strlit("bluefin");
        reveal_strlit("-");
        reveal_strlit("bluefin-dx");
        reveal_strlit("dx");
    }
    lemma_one(f, f.images[3], "dx"@);
    assert(marks(own_features(f, f.images[3])) == 4);
    assert(f.images[4] =~= models::base_of(f) + "-"@ + ("dx"@ + "-"@ + "nvidia"@)) by {
        reveal_strlit("bluefin");
        reveal_strlit("-");
        reveal_strlit("bluefin-dx-nvidia");
        reveal_strlit("dx");
        reveal_strlit("nvidia");
    }
    lemma_two(f, f.images[4], "dx"@, "nvidia"@);
    assert(marks(own_features(f, f.images[4])) == 5);
    assert(f.images[5] =~= models::base_of(f) + "-"@ + ("dx"@ + "-"@ + "nvidia"@ + "-"@ + "open"@)) by {
        reveal_strlit("bluefin");
        reveal_strlit("-");
        reveal_strlit("bluefin-dx-nvidia-open");
        reveal_strlit("dx");
        reveal_strlit("nvidia");
        reveal_strlit("open");
    }
    lemma_three(f, f.images[5], "dx"@, "nvidia"@, "open"@);
    assert(marks(own_features(f, f.images[5])) == 7);
    assert(f.images[6] =~= models::base_of(f) + "-"@ + "asus"@) by {
        reveal_strlit("bluefin");
        reveal_strlit("-");
        reveal_strlit("bluefin-asus");
        reveal_strlit("asus");
    }
    lemma_one(f, f.images[6], "asus"@);
    assert(marks(own_features(f, f.images[6])) == 8);
    assert(f.images[7] =~= models::base_of(f) + "-"@ + ("asus"@ + "-"@ + "nvidia"@)) by {
        reveal_strlit("bluefin");
        reveal_strlit("-");
        reveal_strlit("bluefin-asus-nvidia");
        reveal_strlit("asus");
        reveal_strlit("nvidia");
    }
    lemma_two(f, f.images[7], "asus"@, "nvidia"@);
    assert(marks(own_features(f, f.images[7])) == 9);
    assert(f.images[8] =~= models::base_of(f) + "-"@ + "surface"@) by {
        reveal_strlit("bluefin");
        reveal_strlit("-");
        reveal_strlit("bluefin-surface");
        reveal_strlit("surface");
    }
    lemma_one(f, f.images[8], "surface"@);
    assert(marks(own_features(f, f.images[8])) == 16);
    assert(f.images[9] =~= models::base_of(f) + "-"@ + "framework"@) by {
        reveal_strlit("bluefin");
        reveal_strlit("-");
        reveal_strlit("bluefin-framework");
        reveal_strlit("framework");
    }
    lemma_one(f, f.images[9], "framework"@);
    assert(marks(own_features(f, f.images[9])) == 32);
}

proof fn lemma_bluefin_lts()
    ensures
        told_apart(models::catalogue()[1]),
{
    let f = models::catalogue()[1];
    lemma_features();
    assert(marks(own_features(f, f.images[0])) == 0);
    assert(f.images[1] =~= models::base_of(f) + "-"@ + "nvidia"@) by {
        reveal_strlit("bluefin");
        reveal_strlit("-");
        reveal_strlit("bluefin-nvidia");
        reveal_strlit("nvidia");
    }
    lemma_one(f, f.images[1], "nvidia"@);
    assert(marks(own_features(f, f.images[1])) == 1);
    assert(f.images[2] =~= models::base_of(f) + "-"@ + "dx"@) by {
        reveal_strlit("bluefin");
        reveal_strlit("-");
        reveal_strlit("bluefin-dx");
        reveal_strlit("dx");
    }
    lemma_one(f, f.images[2], "dx"@);
    assert(marks(own_features(f, f.images[2])) == 4);
    assert(f.images[3] =~= models::base_of(f) + "-"@ + ("dx"@ + "-"@ + "nvidia"@)) by {
        reveal_strlit("bluefin");
        reveal_strlit("-");
        reveal_strlit("bluefin-dx-nvidia");
        reveal_strlit("dx");
        reveal_strlit("nvidia");
    }
    lemma_two(f, f.images[3], "dx"@, "nvidia"@);
    assert(marks(own_features(f, f.images[3])) == 5);
    assert(f.images[4] =~= models::base_of(f) + "-"@ + "gdx"@) by {
        reveal_strlit("bluefin");
        reveal_strlit("-");
        reveal_strlit("bluefin-gdx");
        reveal_strlit("gdx");
    }
    lemma_one(f, f.images[4], "gdx"@);
    assert(marks(own_features(f, f.images[4])) == 64);
}

proof fn lemma_aurora()
    ensures
        told_apart(models::catalogue()[2]),
{
    let f = models::catalogue()[2];
    lemma_features();
    assert(marks(own_features(f, f.images[0])) == 0);
    assert(f.images[1] =~= models::base_of(f) + "-"@ + "nvidia"@) by {
        reveal_strlit("aurora");
        reveal_strlit("-");
        reveal_strlit("aurora-nvidia");
        reveal_strlit("nvidia");
    }
    lemma_one(f, f.images[1], "nvidia"@);
    assert(marks(own_features(f, f.images[1])) == 1);
    assert(f.images[2] =~= models::base_of(f) + "-"@ + ("nvidia"@ + "-"@ + "open"@)) by {
        reveal_strlit("aurora");
        reveal_strlit("-");
        reveal_strlit("aurora-nvidia-open");
        reveal_strlit("nvidia");
        reveal_strlit("open");
    }
    lemma_two(f, f.images[2], "nvidia"@, "open"@);
    assert(marks(own_features(f, f.images[2])) == 3);
    assert(f.images[3] =~= models::base_of(f) + "-"@ + "dx"@) by {
        reveal_strlit("aurora");
        reveal_strlit("-");
        reveal_strlit("aurora-dx");
        reveal_strlit("dx");
    }
    lemma_one(f, f.images[3], "dx"@);
    assert(marks(own_features(f, f.images[3])) == 4);
    assert(f.images[4] =~= models::base_of(f) + "-"@ + ("dx"@ + "-"@ + "nvidia"@)) by {
        reveal_strlit("aurora");
        reveal_strlit("-");
        reveal_strlit("aurora-dx-nvidia");
        reveal_strlit("dx");
        reveal_strlit("nvidia");
    }
    lemma_two(f, f.images[4], "dx"@, "nvidia"@);
    assert(marks(own_features(f, f.images[4])) == 5);
    assert(f.images[5] =~= models::base_of(f) + "-"@ + ("dx"@ + "-"@ + "nvidia"@ + "-"@ + "open"@)) by {
        reveal_strlit("aurora");
        reveal_strlit("-");
        reveal_strlit("aurora-dx-nvidia-open");
        reveal_strlit("dx");
        reveal_strlit("nvidia");
        reveal_strlit("open");
    }
    lemma_three(f, f.images[5], "dx"@, "nvidia"@, "open"@);
    assert(marks(own_features(f, f.images[5])) == 7);
}

proof fn lemma_bazzite_kde()
    ensures
        told_apart(models::catalogue()[3]),
{
    let f = models::catalogue()[3];
    lemma_features();
    assert(marks(own_features(f, f.images[0])) == 0);
    assert(f.images[1] =~= models::base_of(f) + "-"@ + "nvidia"@) by {
        reveal_strlit("bazzite");
        reveal_strlit("-");
        reveal_strlit("bazzite-nvidia");
        reveal_strlit("nvidia");
    }
    lemma_one(f, f.images[1], "nvidia"@);
    assert(marks(own_features(f, f.images[1])) == 1);
    assert(f.images[2] =~= models::base_of(f) + "-"@ + ("nvidia"@ + "-"@ + "open"@)) by {
        reveal_strlit("bazzite");
        reveal_strlit("-");
        reveal_strlit("bazzite-nvidia-open");
        reveal_strlit("nvidia");
        reveal_strlit("open");
    }
    lemma_two(f, f.images[2], "nvidia"@, "open"@);
    assert(marks(own_features(f, f.images[2])) == 3);
    assert(f.images[3] =~= models::base_of(f) + "-"@ + "deck"@) by {
        reveal_strlit("bazzite");
        reveal_strlit("-");
        reveal_strlit("bazzite-deck");
        reveal_strlit("deck");
    }
    lemma_one(f, f.images[3], "deck"@);
    assert(marks(own_features(f, f.images[3])) == 128);
    assert(f.images[4] =~= models::base_of(f) + "-"@ + ("deck"@ + "-"@ + "nvidia"@)) by {
        reveal_strlit("bazzite");
        reveal_strlit("-");
        reveal_strlit("bazzite-deck-nvidia");
        reveal_strlit("deck");
        reveal_strlit("nvidia");
    }
    lemma_two(f, f.images[4], "deck"@, "nvidia"@);
    assert(marks(own_features(f, f.images[4])) == 129);
    assert(f.images[5] =~= models::base_of(f) + "-"@ + "asus"@) by {
        reveal_strlit("bazzite");
        reveal_strlit("-");
        reveal_strlit("bazzite-asus");
        reveal_strlit("asus");
    }
    lemma_one(f, f.images[5], "asus"@);
    assert(marks(own_features(f, f.images[5])) == 8);
    assert(f.images[6] =~= models::base_of(f) + "-"@ + "framework"@) by {
        reveal_strlit("bazzite");
        reveal_strlit("-");
        reveal_strlit("bazzite-framework");
        reveal_strlit("framework");
    }
    lemma_one(f, f.images[6], "framework"@);
    assert(marks(own_features(f, f.images[6])) == 32);
}

proof fn lemma_bazzite_gnome()
    ensures
        told_apart(models::catalogue()[4]),
{
    let f = models::catalogue()[4];
    lemma_features();
    assert(marks(own_features(f, f.images[0])) == 0);
    assert(f.images[1] =~= models::base_of(f) + "-"@ + "nvidia"@) by {
        reveal_strlit("bazzite-gnome");
        reveal_strlit("-");
        reveal_strlit("bazzite-gnome-nvidia");
        reveal_strlit("nvidia");
    }
    lemma_one(f, f.images[1], "nvidia"@);
    assert(marks(own_features(f, f.images[1])) == 1);
}

proof fn lemma_bluefin_dakota()
    ensures
        told_apart(models::catalogue()[5]),
{
    let f = models::catalogue()[5];
    lemma_features();
    assert(marks(own_features(f, f.images[0])) == 0);
    assert(f.images[1] =~= models::base_of(f) + "-"@ + "nvidia"@) by {
        reveal_strlit("dakota");
        reveal_strlit("-");
        reveal_strlit("dakota-nvidia");
        reveal_strlit("nvidia");
    }
    lemma_one(f, f.images[1], "nvidia"@);
    assert(marks(own_features(f, f.images[1])) == 1);
}

/// In a family of the catalogue, the features of an image, in whatever order,
/// select that image.
pub(crate) proof fn lemma_own_features_select(f: FamilyModel, k: int, wanted: Seq<Seq<char>>)
    requires
        models::catalogue().contains(f),
        0 <= k < f.images.len(),
        wanted.to_multiset() == own_features(f, f.images[k]).to_multiset(),
    ensures
        models::image_for(f, wanted) == Some(f.images[k]),
{
    lemma_bluefin_stable();
    lemma_bluefin_lts();
    lemma_aurora();
    lemma_bazzite_kde();
    lemma_bazzite_gnome();
    lemma_bluefin_dakota();
    assert(told_apart(f));
    let own = own_features(f, f.images[k]);
    vstd::seq_lib::to_multiset_len(wanted);
    vstd::seq_lib::to_multiset_len(own);
    if k == 0 {
        assert(own.len() == 0);
    } else {
        let stem = models::base_of(f) + "-"@;
        text::lemma_pieces(f.images[k].skip(stem.len() as int), '-');
        assert(wanted.len() > 0);
        models::law_selected_image(f, wanted);
        assert(models::has_exactly(f, f.images[k], wanted));
        let image = models::image_for(f, wanted).unwrap();
        let j = choose|j: int| 0 <= j < f.images.len() && f.images[j] == image;
        lemma_same_marks(own_features(f, image), wanted);
        lemma_same_marks(own, wanted);
        assert(marks(own_features(f, f.images[j])) == marks(own_features(f, f.images[k])));
    }
}

/// Features of an image of the family are features of the family.
pub(crate) proof fn lemma_own_features_are_available(
    f: FamilyModel,
    k: int,
    wanted: Seq<Seq<char>>,
)
    requires
        0 <= k < f.images.len(),
        wanted.to_multiset() == own_features(f, f.images[k]).to_multiset(),
    ensures
        forall|x: Seq<char>| #[trigger] wanted.contains(x) ==> models::is_feature(f, x),
{
    lemma_same_marks(wanted, own_features(f, f.images[k]));
    assert forall|x: Seq<char>| #[trigger] wanted.contains(x) implies models::is_feature(f, x) by {
        assert(own_features(f, f.images[k]).contains(x));
        assert(models::image_has_feature(f, k, x));
    }
}

/// What Bluefin Stable publishes: an image for each of these choices of features, asked
/// for in whatever order, and for no others.
#[verifier::rlimit(60)]
pub proof fn law_bluefin_stable_images(wanted: Seq<Seq<char>>)
    ensures
        ({
            let f = models::catalogue()[0];
            &&& f.name == "Bluefin Stable"@
            &&& f.org == "ublue-os"@
            &&& wanted.len() == 0 ==> models::image_for(f, wanted) == Some("bluefin"@)
            &&& wanted.to_multiset() == seq!["nvidia"@].to_multiset()
                ==> models::image_for(f, wanted) == Some("bluefin-nvidia"@)
            &&& wanted.to_multiset() == seq!["nvidia"@, "open"@].to_multiset()
                ==> models::image_for(f, wanted) == Some("bluefin-nvidia-open"@)
            &&& wanted.to_multiset() == seq!["dx"@].to_multiset()
                ==> models::image_for(f, wanted) == Some("bluefin-dx"@)
            &&& wanted.to_multiset() == seq!["dx"@, "nvidia"@].to_multiset()
                ==> models::image_for(f, wanted) == Some("bluefin-dx-nvidia"@)
            &&& wanted.to_multiset() == seq!["dx"@, "nvidia"@, "open"@].to_multiset()
                ==> models::image_for(f, wanted) == Some("bluefin-dx-nvidia-open"@)
            &&& wanted.to_multiset() == seq!["asus"@].to_multiset()
                ==> models::image_for(f, wanted) == Some("bluefin-asus"@)
            &&& wanted.to_multiset() == seq!["asus"@, "nvidia"@].to_multiset()
                ==> models::image_for(f, wanted) == Some("bluefin-asus-nvidia"@)
            &&& wanted.to_multiset() == seq!["surface"@].to_multiset()
                ==> models::image_for(f, wanted) == Some("bluefin-surface"@)
            &&& wanted.to_multiset() == seq!["framework"@].to_multiset()
                ==> models::image_for(f, wanted) == Some("bluefin-framework"@)
            &&& models::image_for(f, wanted) matches Some(image) ==> image == "bluefin"@
                || image == "bluefin-nvidia"@
                || image == "bluefin-nvidia-open"@
                || image == "bluefin-dx"@
                || image == "bluefin-dx-nvidia"@
                || image == "bluefin-dx-nvidia-open"@
                || image == "bluefin-asus"@
                || image == "bluefin-asus-nvidia"@
                || image == "bluefin-surface"@
                || image == "bluefin-framework"@
        }),
{
    let f = models::catalogue()[0];
    lemma_bluefin_stable();
    lemma_features();
    models::law_selected_image(f, wanted);
    assert(f.images[1] =~= models::base_of(f) + "-"@ + "nvidia"@) by {
        reveal_strlit("bluefin");
        reveal_strlit("-");
        reveal_strlit("bluefin-nvidia");
        reveal_strlit("nvidia");
    }
    lemma_one(f, f.images[1], "nvidia"@);
    if wanted.to_multiset() == seq!["nvidia"@].to_multiset() {
        lemma_own_features_select(f, 1, wanted);
    }
    assert(f.images[2] =~= models::base_of(f) + "-"@ + ("nvidia"@ + "-"@ + "open"@)) by {
        reveal_strlit("bluefin");
        reveal_strlit("-");
        reveal_strlit("bluefin-nvidia-open");
        reveal_strlit("nvidia");
        reveal_strlit("open");
    }
    lemma_two(f, f.images[2], "nvidia"@, "open"@);
    if wanted.to_multiset() == seq!["nvidia"@, "open"@].to_multiset() {
        lemma_own_features_select(f, 2, wanted);
    }
    assert(f.images[3] =~= models::base_of(f) + "-"@ + "dx"@) by {
        reveal_strlit("bluefin");
        reveal_strlit("-");
        reveal_strlit("bluefin-dx");
        reveal_strlit("dx");
    }
    lemma_one(f, f.images[3], "dx"@);
    if wanted.to_multiset() == seq!["dx"@].to_multiset() {
        lemma_own_features_select(f, 3, wanted);
    }
    assert(f.images[4] =~= models::base_of(f) + "-"@ + ("dx"@ + "-"@ + "nvidia"@)) by {
        reveal_strlit("bluefin");
        reveal_strlit("-");
        reveal_strlit("bluefin-dx-nvidia");
        reveal_strlit("dx");
        reveal_strlit("nvidia");
    }
    lemma_two(f, f.images[4], "dx"@, "nvidia"@);
    if wanted.to_multiset() == seq!["dx"@, "nvidia"@].to_multiset() {
        lemma_own_features_select(f, 4, wanted);
    }
    assert(f.images[5] =~= models::base_of(f) + "-"@ + ("dx"@ + "-"@ + "nvidia"@ + "-"@ + "open"@)) by {
        reveal_strlit("bluefin");
        reveal_strlit("-");
        reveal_strlit("bluefin-dx-nvidia-open");
        reveal_strlit("dx");
        reveal_strlit("nvidia");
        reveal_strlit("open");
    }
    lemma_three(f, f.images[5], "dx"@, "nvidia"@, "open"@);
    if wanted.to_multiset() == seq!["dx"@, "nvidia"@, "open"@].to_multiset() {
        lemma_own_features_select(f, 5, wanted);
    }
    assert(f.images[6] =~= models::base_of(f) + "-"@ + "asus"@) by {
        reveal_strlit("bluefin");
        reveal_strlit("-");
        reveal_strlit("bluefin-asus");
        reveal_strlit("asus");
    }
    lemma_one(f, f.images[6], "asus"@);
    if wanted.to_multiset() == seq!["asus"@].to_multiset() {
        lemma_own_features_select(f, 6, wanted);
    }
    assert(f.images[7] =~= models::base_of(f) + "-"@ + ("asus"@ + "-"@ + "nvidia"@)) by {
        reveal_strlit("bluefin");
        reveal_strlit("-");
        reveal_strlit("bluefin-asus-nvidia");
        reveal_strlit("asus");
        reveal_strlit("nvidia");
    }
    lemma_two(f, f.images[7], "asus"@, "nvidia"@);
    if wanted.to_multiset() == seq!["asus"@, "nvidia"@].to_multiset() {
        lemma_own_features_select(f, 7, wanted);
    }
    assert(f.images[8] =~= models::base_of(f) + "-"@ + "surface"@) by {
        reveal_strlit("bluefin");
        reveal_strlit("-");
        reveal_strlit("bluefin-surface");
        reveal_strlit("surface");
    }
    lemma_one(f, f.images[8], "surface"@);
    if wanted.to_multiset() == seq!["surface"@].to_multiset() {
        lemma_own_features_select(f, 8, wanted);
    }
    assert(f.images[9] =~= models::base_of(f) + "-"@ + "framework"@) by {
        reveal_strlit("bluefin");
        reveal_strlit("-");
        reveal_strlit("bluefin-framework");
        reveal_strlit("framework");
    }
    lemma_one(f, f.images[9], "framework"@);
    if wanted.to_multiset() == seq!["framework"@].to_multiset() {
        lemma_own_features_select(f, 9, wanted);
    }
    if let Some(image) = models::image_for(f, wanted) {
        let k = choose|k: int| 0 <= k < f.images.len() && f.images[k] == image;
        assert(k == 0 || k == 1 || k == 2 || k == 3 || k == 4 || k == 5 || k == 6 || k == 7 || k == 8 || k == 9);
    }
}

/// What Bluefin LTS publishes: an image for each of these choices of features, asked
/// for in whatever order, and for no others.
pub proof fn law_bluefin_lts_images(wanted: Seq<Seq<char>>)
    ensures
        ({
            let f = models::catalogue()[1];
            &&& f.name == "Bluefin LTS"@
            &&& f.org == "ublue-os"@
            &&& wanted.len() == 0 ==> models::image_for(f, wanted) == Some("bluefin"@)
            &&& wanted.to_multiset() == seq!["nvidia"@].to_multiset()
                ==> models::image_for(f, wanted) == Some("bluefin-nvidia"@)
            &&& wanted.to_multiset() == seq!["dx"@].to_multiset()
                ==> models::image_for(f, wanted) == Some("bluefin-dx"@)
            &&& wanted.to_multiset() == seq!["dx"@, "nvidia"@].to_multiset()
                ==> models::image_for(f, wanted) == Some("bluefin-dx-nvidia"@)
            &&& wanted.to_multiset() == seq!["gdx"@].to_multiset()
                ==> models::image_for(f, wanted) == Some("bluefin-gdx"@)
            &&& models::image_for(f, wanted) matches Some(image) ==> image == "bluefin"@
                || image == "bluefin-nvidia"@
                || image == "bluefin-dx"@
                || image == "bluefin-dx-nvidia"@
                || image == "bluefin-gdx"@
        }),
{
    let f = models::catalogue()[1];
    lemma_bluefin_lts();
    lemma_features();
    models::law_selected_image(f, wanted);
    assert(f.images[1] =~= models::base_of(f) + "-"@ + "nvidia"@) by {
        reveal_strlit("bluefin");
        reveal_strlit("-");
        reveal_strlit("bluefin-nvidia");
        reveal_strlit("nvidia");
    }
    lemma_one(f, f.images[1], "nvidia"@);
    if wanted.to_multiset() == seq!["nvidia"@].to_multiset() {
        lemma_own_features_select(f, 1, wanted);
    }
    assert(f.images[2] =~= models::base_of(f) + "-"@ + "dx"@) by {
        reveal_strlit("bluefin");
        reveal_strlit("-");
        reveal_strlit("bluefin-dx");
        reveal_strlit("dx");
    }
    lemma_one(f, f.images[2], "dx"@);
    if wanted.to_multiset() == seq!["dx"@].to_multiset() {
        lemma_own_features_select(f, 2, wanted);
    }
    assert(f.images[3] =~= models::base_of(f) + "-"@ + ("dx"@ + "-"@ + "nvidia"@)) by {
        reveal_strlit("bluefin");
        reveal_strlit("-");
        reveal_strlit("bluefin-dx-nvidia");
        reveal_strlit("dx");
        reveal_strlit("nvidia");
    }
    lemma_two(f, f.images[3], "dx"@, "nvidia"@);
    if wanted.to_multiset() == seq!["dx"@, "nvidia"@].to_multiset() {
        lemma_own_features_select(f, 3, wanted);
    }
    assert(f.images[4] =~= models::base_of(f) + "-"@ + "gdx"@) by {
        reveal_strlit("bluefin");
        reveal_strlit("-");
        reveal_strlit("bluefin-gdx");
        reveal_strlit("gdx");
    }
    lemma_one(f, f.images[4], "gdx"@);
    if wanted.to_multiset() == seq!["gdx"@].to_multiset() {
        lemma_own_features_select(f, 4, wanted);
    }
    if let Some(image) = models::image_for(f, wanted) {
        let k = choose|k: int| 0 <= k < f.images.len() && f.images[k] == image;
        assert(k == 0 || k == 1 || k == 2 || k == 3 || k == 4);
    }
}

/// What Aurora publishes: an image for each of these choices of features, asked
/// for in whatever order, and for no others.
pub proof fn law_aurora_images(wanted: Seq<Seq<char>>)
    ensures
        ({
            let f = models::catalogue()[2];
            &&& f.name == "Aurora"@
            &&& f.org == "ublue-os"@
            &&& wanted.len() == 0 ==> models::image_for(f, wanted) == Some("aurora"@)
            &&& wanted.to_multiset() == seq!["nvidia"@].to_multiset()
                ==> models::image_for(f, wanted) == Some("aurora-nvidia"@)
            &&& wanted.to_multiset() == seq!["nvidia"@, "open"@].to_multiset()
                ==> models::image_for(f, wanted) == Some("aurora-nvidia-open"@)
            &&& wanted.to_multiset() == seq!["dx"@].to_multiset()
                ==> models::image_for(f, wanted) == Some("aurora-dx"@)
            &&& wanted.to_multiset() == seq!["dx"@, "nvidia"@].to_multiset()
                ==> models::image_for(f, wanted) == Some("aurora-dx-nvidia"@)
            &&& wanted.to_multiset() == seq!["dx"@, "nvidia"@, "open"@].to_multiset()
                ==> models::image_for(f, wanted) == Some("aurora-dx-nvidia-open"@)
            &&& models::image_for(f, wanted) matches Some(image) ==> image == "aurora"@
                || image == "aurora-nvidia"@
                || image == "aurora-nvidia-open"@
                || image == "aurora-dx"@
                || image == "aurora-dx-nvidia"@
                || image == "aurora-dx-nvidia-open"@
        }),
{
    let f = models::catalogue()[2];
    lemma_aurora();
    lemma_features();
    models::law_selected_image(f, wanted);
    assert(f.images[1] =~= models::base_of(f) + "-"@ + "nvidia"@) by {
        reveal_strlit("aurora");
        reveal_strlit("-");
        reveal_strlit("aurora-nvidia");
        reveal_strlit("nvidia");
    }
    lemma_one(f, f.images[1], "nvidia"@);
    if wanted.to_multiset() == seq!["nvidia"@].to_multiset() {
        lemma_own_features_select(f, 1, wanted);
    }
    assert(f.images[2] =~= models::base_of(f) + "-"@ + ("nvidia"@ + "-"@ + "open"@)) by {
        reveal_strlit("aurora");
        reveal_strlit("-");
        reveal_strlit("aurora-nvidia-open");
        reveal_strlit("nvidia");
        reveal_strlit("open");
    }
    lemma_two(f, f.images[2], "nvidia"@, "open"@);
    if wanted.to_multiset() == seq!["nvidia"@, "open"@].to_multiset() {
        lemma_own_features_select(f, 2, wanted);
    }
    assert(f.images[3] =~= models::base_of(f) + "-"@ + "dx"@) by {
        reveal_strlit("aurora");
        reveal_strlit("-");
        reveal_strlit("aurora-dx");
        reveal_strlit("dx");
    }
    lemma_one(f, f.images[3], "dx"@);
    if wanted.to_multiset() == seq!["dx"@].to_multiset() {
        lemma_own_features_select(f, 3, wanted);
    }
    assert(f.images[4] =~= models::base_of(f) + "-"@ + ("dx"@ + "-"@ + "nvidia"@)) by {
        reveal_strlit("aurora");
        reveal_strlit("-");
        reveal_strlit("aurora-dx-nvidia");
        reveal_strlit("dx");
        reveal_strlit("nvidia");
    }
    lemma_two(f, f.images[4], "dx"@, "nvidia"@);
    if wanted.to_multiset() == seq!["dx"@, "nvidia"@].to_multiset() {
        lemma_own_features_select(f, 4, wanted);
    }
    assert(f.images[5] =~= models::base_of(f) + "-"@ + ("dx"@ + "-"@ + "nvidia"@ + "-"@ + "open"@)) by {
        reveal_strlit("aurora");
        reveal_strlit("-");
        reveal_strlit("aurora-dx-nvidia-open");
        reveal_strlit("dx");
        reveal_strlit("nvidia");
        reveal_strlit("open");
    }
    lemma_three(f, f.images[5], "dx"@, "nvidia"@, "open"@);
    if wanted.to_multiset() == seq!["dx"@, "nvidia"@, "open"@].to_multiset() {
        lemma_own_features_select(f, 5, wanted);
    }
    if let Some(image) = models::image_for(f, wanted) {
        let k = choose|k: int| 0 <= k < f.images.len() && f.images[k] == image;
        assert(k == 0 || k == 1 || k == 2 || k == 3 || k == 4 || k == 5);
    }
}

/// What Bazzite KDE publishes: an image for each of these choices of features, asked
/// for in whatever order, and for no others.
pub proof fn law_bazzite_kde_images(wanted: Seq<Seq<char>>)
    ensures
        ({
            let f = models::catalogue()[3];
            &&& f.name == "Bazzite KDE"@
            &&& f.org == "ublue-os"@
            &&& wanted.len() == 0 ==> models::image_for(f, wanted) == Some("bazzite"@)
            &&& wanted.to_multiset() == seq!["nvidia"@].to_multiset()
                ==> models::image_for(f, wanted) == Some("bazzite-nvidia"@)
            &&& wanted.to_multiset() == seq!["nvidia"@, "open"@].to_multiset()
                ==> models::image_for(f, wanted) == Some("bazzite-nvidia-open"@)
            &&& wanted.to_multiset() == seq!["deck"@].to_multiset()
                ==> models::image_for(f, wanted) == Some("bazzite-deck"@)
            &&& wanted.to_multiset() == seq!["deck"@, "nvidia"@].to_multiset()
                ==> models::image_for(f, wanted) == Some("bazzite-deck-nvidia"@)
            &&& wanted.to_multiset() == seq!["asus"@].to_multiset()
                ==> models::image_for(f, wanted) == Some("bazzite-asus"@)
            &&& wanted.to_multiset() == seq!["framework"@].to_multiset()
                ==> models::image_for(f, wanted) == Some("bazzite-framework"@)
            &&& models::image_for(f, wanted) matches Some(image) ==> image == "bazzite"@
                || image == "bazzite-nvidia"@
                || image == "bazzite-nvidia-open"@
                || image == "bazzite-deck"@
                || image == "bazzite-deck-nvidia"@
                || image == "bazzite-asus"@
                || image == "bazzite-framework"@
        }),
{
    let f = models::catalogue()[3];
    lemma_bazzite_kde();
    lemma_features();
    models::law_selected_image(f, wanted);
    assert(f.images[1] =~= models::base_of(f) + "-"@ + "nvidia"@) by {
        reveal_strlit("bazzite");
        reveal_strlit("-");
        reveal_strlit("bazzite-nvidia");
        reveal_strlit("nvidia");
    }
    lemma_one(f, f.images[1], "nvidia"@);
    if wanted.to_multiset() == seq!["nvidia"@].to_multiset() {
        lemma_own_features_select(f, 1, wanted);
    }
    assert(f.images[2] =~= models::base_of(f) + "-"@ + ("nvidia"@ + "-"@ + "open"@)) by {
        reveal_strlit("bazzite");
        reveal_strlit("-");
        reveal_strlit("bazzite-nvidia-open");
        reveal_strlit("nvidia");
        reveal_strlit("open");
    }
    lemma_two(f, f.images[2], "nvidia"@, "open"@);
    if wanted.to_multiset() == seq!["nvidia"@, "open"@].to_multiset() {
        lemma_own_features_select(f, 2, wanted);
    }
    assert(f.images[3] =~= models::base_of(f) + "-"@ + "deck"@) by {
        reveal_strlit("bazzite");
        reveal_strlit("-");
        reveal_strlit("bazzite-deck");
        reveal_strlit("deck");
    }
    lemma_one(f, f.images[3], "deck"@);
    if wanted.to_multiset() == seq!["deck"@].to_multiset() {
        lemma_own_features_select(f, 3, wanted);
    }
    assert(f.images[4] =~= models::base_of(f) + "-"@ + ("deck"@ + "-"@ + "nvidia"@)) by {
        reveal_strlit("bazzite");
        reveal_strlit("-");
        reveal_strlit("bazzite-deck-nvidia");
        reveal_strlit("deck");
        reveal_strlit("nvidia");
    }
    lemma_two(f, f.images[4], "deck"@, "nvidia"@);
    if wanted.to_multiset() == seq!["deck"@, "nvidia"@].to_multiset() {
        lemma_own_features_select(f, 4, wanted);
    }
    assert(f.images[5] =~= models::base_of(f) + "-"@ + "asus"@) by {
        reveal_strlit("bazzite");
        reveal_strlit("-");
        reveal_strlit("bazzite-asus");
        reveal_strlit("asus");
    }
    lemma_one(f, f.images[5], "asus"@);
    if wanted.to_multiset() == seq!["asus"@].to_multiset() {
        lemma_own_features_select(f, 5, wanted);
    }
    assert(f.images[6] =~= models::base_of(f) + "-"@ + "framework"@) by {
        reveal_strlit("bazzite");
        reveal_strlit("-");
        reveal_strlit("bazzite-framework");
        reveal_strlit("framework");
    }
    lemma_one(f, f.images[6], "framework"@);
    if wanted.to_multiset() == seq!["framework"@].to_multiset() {
        lemma_own_features_select(f, 6, wanted);
    }
    if let Some(image) = models::image_for(f, wanted) {
        let k = choose|k: int| 0 <= k < f.images.len() && f.images[k] == image;
        assert(k == 0 || k == 1 || k == 2 || k == 3 || k == 4 || k == 5 || k == 6);
    }
}

/// What Bazzite GNOME publishes: an image for each of these choices of features, asked
/// for in whatever order, and for no others.
pub proof fn law_bazzite_gnome_images(wanted: Seq<Seq<char>>)
    ensures
        ({
            let f = models::catalogue()[4];
            &&& f.name == "Bazzite GNOME"@
            &&& f.org == "ublue-os"@
            &&& wanted.len() == 0 ==> models::image_for(f, wanted) == Some("bazzite-gnome"@)
            &&& wanted.to_multiset() == seq!["nvidia"@].to_multiset()
                ==> models::image_for(f, wanted) == Some("bazzite-gnome-nvidia"@)
            &&& models::image_for(f, wanted) matches Some(image) ==> image == "bazzite-gnome"@
                || image == "bazzite-gnome-nvidia"@
        }),
{
    let f = models::catalogue()[4];
    lemma_bazzite_gnome();
    lemma_features();
    models::law_selected_image(f, wanted);
    assert(f.images[1] =~= models::base_of(f) + "-"@ + "nvidia"@) by {
        reveal_strlit("bazzite-gnome");
        reveal_strlit("-");
        reveal_strlit("bazzite-gnome-nvidia");
        reveal_strlit("nvidia");
    }
    lemma_one(f, f.images[1], "nvidia"@);
    if wanted.to_multiset() == seq!["nvidia"@].to_multiset() {
        lemma_own_features_select(f, 1, wanted);
    }
    if let Some(image) = models::image_for(f, wanted) {
        let k = choose|k: int| 0 <= k < f.images.len() && f.images[k] == image;
        assert(k == 0 || k == 1);
    }
}

/// What Bluefin Dakota publishes: an image for each of these choices of features, asked
/// for in whatever order, and for no others.
pub proof fn law_bluefin_dakota_images(wanted: Seq<Seq<char>>)
    ensures
        ({
            let f = models::catalogue()[5];
            &&& f.name == "Bluefin Dakota"@
            &&& f.org == "projectbluefin"@
            &&& wanted.len() == 0 ==> models::image_for(f, wanted) == Some("dakota"@)
            &&& wanted.to_multiset() == seq!["nvidia"@].to_multiset()
                ==> models::image_for(f, wanted) == Some("dakota-nvidia"@)
            &&& models::image_for(f, wanted) matches Some(image) ==> image == "dakota"@
                || image == "dakota-nvidia"@
        }),
{
    let f = models::catalogue()[5];
    lemma_bluefin_dakota();
    lemma_features();
    models::law_selected_image(f, wanted);
    assert(f.images[1] =~= models::base_of(f) + "-"@ + "nvidia"@) by {
        reveal_strlit("dakota");
        reveal_strlit("-");
        reveal_strlit("dakota-nvidia");
        reveal_strlit("nvidia");
    }
    lemma_one(f, f.images[1], "nvidia"@);
    if wanted.to_multiset() == seq!["nvidia"@].to_multiset() {
        lemma_own_features_select(f, 1, wanted);
    }
    if let Some(image) = models::image_for(f, wanted) {
        let k = choose|k: int| 0 <= k < f.images.len() && f.images[k] == image;
        assert(k == 0 || k == 1);
    }
}

} // verus!
