//! Which image a rebase leads to.

use vstd::prelude::*;
use crate::registry_client::models;
use crate::service;
use crate::service::{FamilyInfo, ImageModel, ImageRef};
use crate::text;

verus! {

// ---------------------------------------------------------------------------
// The switch to a stream

/// What the button of the rebase dialog says and does while no build is chosen:
/// its label, whether it can be pressed, and the reference that it leads to.
pub struct SwitchModel {
    pub label: Seq<char>,
    pub sensitive: bool,
    pub target: Option<Seq<char>>,
}

/// A label, whether it can be pressed, and a reference, taken by characters.
pub open spec fn switch_view(a: (String, bool, Option<String>)) -> SwitchModel {
    SwitchModel {
        label: a.0@,
        sensitive: a.1,
        target: match a.2 {
            Some(s) => Some(s@),
            None => None,
        },
    }
}

/// A button that does nothing, with this label.
pub open spec fn idle_button(label: Seq<char>) -> SwitchModel {
    SwitchModel { label, sensitive: false, target: None }
}

/// What the button says and does: nothing where there is no choice to act on,
/// where it is not known what is booted, where no image is published for the
/// choice, or where the choice is what is booted; else it switches, and names
/// the image where that changes.
pub open spec fn switch_action(
    family: Option<Seq<char>>,
    features: Seq<Seq<char>>,
    stream: Seq<char>,
    booted: Option<ImageModel>,
) -> SwitchModel {
    match (family, booted) {
        (Some(name), Some(b)) => if stream.len() == 0 {
            idle_button("Pin to this build…"@)
        } else {
            match service::target_of(name, features, service::default_stream(name)) {
                None => idle_button("(combination doesn't match a published image)"@),
                Some(t) => if b.image == t.image && b.tag == stream {
                    idle_button("Currently Installed"@)
                } else {
                    SwitchModel {
                        label: if b.image == t.image {
                            "Switch to :"@ + stream
                        } else {
                            "Switch to "@ + t.image + ":"@ + stream
                        },
                        sensitive: true,
                        target: Some(t.registry + "/"@ + t.org + "/"@ + t.image + ":"@ + stream),
                    }
                },
            }
        },
        _ => idle_button("Pin to this build…"@),
    }
}

pub open spec fn family_name(f: Option<&FamilyInfo>) -> Option<Seq<char>> {
    match f {
        Some(x) => Some(x.name@),
        None => None,
    }
}

fn idle(label: &str) -> (r: (String, bool, Option<String>))
    ensures
        switch_view(r) == idle_button(label@),
{
    (label.to_owned(), false, None)
}

/// What the button of the rebase dialog says and does while no build is chosen:
/// its label, whether it can be pressed, and the reference that it leads to.
pub fn compute_stream_switch_action(
    family: Option<&FamilyInfo>,
    selected_features: &[String],
    selected_stream: &str,
    booted: Option<&ImageRef>,
) -> (r: (String, bool, Option<String>))
    ensures
        switch_view(r) == switch_action(
            family_name(family),
            text::views(selected_features@),
            selected_stream@,
            service::opt_image_ref(booted),
        ),
{
    let (family, booted) = match (family, booted) {
        (Some(f), Some(b)) => (f, b),
        _ => {
            return idle("Pin to this build…");
        },
    };
    if selected_stream.is_empty() {
        return idle("Pin to this build…");
    }
    let target = match service::resolve_target(family, selected_features) {
        Some(t) => t,
        None => {
            return idle("(combination doesn't match a published image)");
        },
    };
    let same_image = text::eq(booted.image.as_str(), target.image.as_str());
    if same_image && text::eq(booted.tag.as_str(), selected_stream) {
        return idle("Currently Installed");
    }
    let mut full_ref = target.registry.clone();
    full_ref.append("/");
    full_ref.append(target.org.as_str());
    full_ref.append("/");
    full_ref.append(target.image.as_str());
    full_ref.append(":");
    full_ref.append(selected_stream);
    let mut label = String::new();
    if same_image {
        label.append("Switch to :");
    } else {
        label.append("Switch to ");
        label.append(target.image.as_str());
        label.append(":");
    }
    label.append(selected_stream);
    proof {
        let e = Seq::<char>::empty();
        assert(e + "Switch to :"@ =~= "Switch to :"@);
        assert(e + "Switch to "@ =~= "Switch to "@);
    }
    (label, true, Some(full_ref))
}

/// Where the button can be pressed it leads to an image that a known family
/// publishes, under the chosen stream; and it can be pressed only where it is
/// known what is booted, and not to switch to that.
pub proof fn law_switch_leads_to_published_image(
    family: Option<Seq<char>>,
    features: Seq<Seq<char>>,
    stream: Seq<char>,
    booted: Option<ImageModel>,
)
    ensures
        ({
            let a = switch_action(family, features, stream, booted);
            &&& a.sensitive <==> a.target is Some
            &&& a.sensitive ==> exists|f: models::FamilyModel, image: Seq<char>|
                models::publishes(f, f.org, image) && a.target == Some(
                    "ghcr.io"@ + "/"@ + f.org + "/"@ + image + ":"@ + stream,
                )
            &&& a.sensitive ==> (booted matches Some(b) && !(b.tag == stream && Some(b.image)
                == target_image(family, features)))
        }),
{
    match family {
        Some(name) => {
            service::law_target_is_published(name, features, service::default_stream(name));
            match service::target_of(name, features, service::default_stream(name)) {
                Some(t) => {
                    let f = service::family_named(models::catalogue(), name).unwrap();
                    assert(models::publishes(f, f.org, t.image));
                },
                None => {},
            }
        },
        None => {},
    }
}

/// The image that a choice of family and features leads to.
pub open spec fn target_image(family: Option<Seq<char>>, features: Seq<Seq<char>>) -> Option<
    Seq<char>,
> {
    match family {
        Some(name) => match service::target_of(name, features, service::default_stream(name)) {
            Some(t) => Some(t.image),
            None => None,
        },
        None => None,
    }
}

// ---------------------------------------------------------------------------
// The two switches

/// The features that the switches ask for, with the open driver or without.
pub open spec fn wanted(dx: bool, nvidia: bool, open_driver: bool) -> Seq<Seq<char>> {
    (if dx {
        seq!["dx"@]
    } else {
        Seq::empty()
    }) + (if nvidia {
        seq!["nvidia"@]
    } else {
        Seq::empty()
    }) + (if nvidia && open_driver {
        seq!["open"@]
    } else {
        Seq::empty()
    })
}

/// The features that the switches stand for in a family: with the open driver
/// where the family publishes that, else without.
pub open spec fn chosen(family: Seq<char>, dx: bool, nvidia: bool) -> Seq<Seq<char>> {
    let open_features = wanted(dx, nvidia, true);
    if nvidia && service::target_of(family, open_features, Seq::empty()) is Some {
        open_features
    } else {
        wanted(dx, nvidia, false)
    }
}

fn feature_list(dx: bool, nvidia: bool, open_driver: bool) -> (r: Vec<String>)
    ensures
        text::views(r@) == wanted(dx, nvidia, open_driver),
{
    let mut out: Vec<String> = Vec::new();
    if dx {
        out.push("dx".to_owned());
    }
    if nvidia {
        out.push("nvidia".to_owned());
        if open_driver {
            out.push("open".to_owned());
        }
    }
    assert(text::views(out@) =~= wanted(dx, nvidia, open_driver));
    out
}

proof fn lemma_stream_does_not_decide(
    family: Seq<char>,
    features: Seq<Seq<char>>,
    a: Seq<char>,
    b: Seq<char>,
)
    ensures
        service::target_of(family, features, a) is Some <==> service::target_of(
            family,
            features,
            b,
        ) is Some,
{
}

/// The features and the image that the two switches stand for, under `stream`.
pub fn resolve_dx_nvidia_with_stream(
    family: &FamilyInfo,
    dx_on: bool,
    nvidia_on: bool,
    stream: &str,
) -> (r: (Vec<String>, Option<ImageRef>))
    ensures
        text::views(r.0@) == chosen(family.name@, dx_on, nvidia_on),
        service::opt_image(r.1) == service::target_of(
            family.name@,
            chosen(family.name@, dx_on, nvidia_on),
            stream@,
        ),
{
    if nvidia_on {
        let with_open = feature_list(dx_on, true, true);
        proof {
            lemma_stream_does_not_decide(family.name@, wanted(dx_on, true, true), stream@, Seq::empty());
        }
        match service::resolve_target_with_stream(family, with_open.as_slice(), stream) {
            Some(image) => {
                return (with_open, Some(image));
            },
            None => {},
        }
    }
    let plain = feature_list(dx_on, nvidia_on, false);
    let image = service::resolve_target_with_stream(family, plain.as_slice(), stream);
    (plain, image)
}

/// The features and the image that the two switches stand for, under the stream
/// that the family is published under by default.
pub fn resolve_dx_nvidia(family: &FamilyInfo, dx_on: bool, nvidia_on: bool) -> (r: (
    Vec<String>,
    Option<ImageRef>,
))
    ensures
        text::views(r.0@) == chosen(family.name@, dx_on, nvidia_on),
        service::opt_image(r.1) == service::target_of(
            family.name@,
            chosen(family.name@, dx_on, nvidia_on),
            service::default_stream(family.name@),
        ),
{
    if nvidia_on {
        let with_open = feature_list(dx_on, true, true);
        proof {
            lemma_stream_does_not_decide(
                family.name@,
                wanted(dx_on, true, true),
                service::default_stream(family.name@),
                Seq::empty(),
            );
        }
        match service::resolve_target(family, with_open.as_slice()) {
            Some(image) => {
                return (with_open, Some(image));
            },
            None => {},
        }
    }
    let plain = feature_list(dx_on, nvidia_on, false);
    let image = service::resolve_target(family, plain.as_slice());
    (plain, image)
}

/// What the name of an image says of the two switches. Nothing is on where it
/// is not the name of the base, a hyphen and features.
pub open spec fn toggles(base: Seq<char>, image: Option<Seq<char>>) -> (bool, bool) {
    let stem = base + "-"@;
    match image {
        Some(name) => if text::begins_with(name, stem) {
            let parts = text::pieces(name.skip(stem.len() as int), '-');
            (parts.contains("dx"@), parts.contains("nvidia"@) || parts.contains("open"@))
        } else {
            (false, false)
        },
        None => (false, false),
    }
}

/// The state in which the two switches are shown first, so that they show what
/// is booted.
pub fn derive_initial_toggle_state(family: &FamilyInfo, image: Option<&ImageRef>) -> (r: (
    bool,
    bool,
))
    ensures
        r == toggles(
            family.base_image@,
            match image {
                Some(i) => Some(i.image@),
                None => None,
            },
        ),
{
    let image = match image {
        Some(i) => i,
        None => {
            return (false, false);
        },
    };
    let mut stem = family.base_image.clone();
    stem.append("-");
    match text::strip_prefix(image.image.as_str(), stem.as_str()) {
        Some(suffix) => {
            let parts = text::split(suffix, '-');
            let dx = text::one_of(parts.as_slice(), "dx");
            let nvidia = text::one_of(parts.as_slice(), "nvidia") || text::one_of(
                parts.as_slice(),
                "open",
            );
            (dx, nvidia)
        },
        None => (false, false),
    }
}

proof fn lemma_feature_words()
    ensures
        "dx"@ != "nvidia"@,
        "dx"@ != "open"@,
        "nvidia"@ != "open"@,
{
    reveal_strlit("dx");
    reveal_strlit("nvidia");
    reveal_strlit("open");
    assert("dx"@.len() == 2);
    assert("nvidia"@.len() == 6);
    assert("open"@.len() == 4);
}

proof fn lemma_wanted_contains(dx: bool, nvidia: bool, open_driver: bool)
    ensures
        wanted(dx, nvidia, open_driver).contains("dx"@) <==> dx,
        wanted(dx, nvidia, open_driver).contains("nvidia"@) <==> nvidia,
        wanted(dx, nvidia, open_driver).contains("open"@) <==> nvidia && open_driver,
{
    lemma_feature_words();
    let w = wanted(dx, nvidia, open_driver);
    if dx {
        assert(w[0] == "dx"@);
    }
    if nvidia {
        let k = if dx {
            1int
        } else {
            0int
        };
        assert(w[k] == "nvidia"@);
        if open_driver {
            assert(w[k + 1] == "open"@);
        }
    }
}

/// The switches show what they led to: on the image that the family publishes
/// for a state of the switches, they are in that state again.
pub proof fn law_switches_round_trip(family: Seq<char>, dx: bool, nvidia: bool, stream: Seq<char>)
    requires
        service::target_of(family, chosen(family, dx, nvidia), stream) is Some,
    ensures
        ({
            let f = service::family_named(models::catalogue(), family).unwrap();
            let image = service::target_of(family, chosen(family, dx, nvidia), stream).unwrap().image;
            toggles(models::base_of(f), Some(image)) == (dx, nvidia)
        }),
{
    let f = service::family_named(models::catalogue(), family).unwrap();
    let want = chosen(family, dx, nvidia);
    let image = service::target_of(family, want, stream).unwrap().image;
    models::law_selected_image(f, want);
    lemma_wanted_contains(dx, nvidia, true);
    lemma_wanted_contains(dx, nvidia, false);
    if dx || nvidia {
        assert(want.len() > 0);
        let have = models::features_of(f, image).unwrap();
        assert(have.to_multiset() == want.to_multiset());
        assert forall|x: Seq<char>| have.contains(x) <==> want.contains(x) by {
            vstd::seq_lib::to_multiset_contains(have, x);
            vstd::seq_lib::to_multiset_contains(want, x);
        }
        assert(have.contains("dx"@) <==> want.contains("dx"@));
        assert(have.contains("nvidia"@) <==> want.contains("nvidia"@));
        assert(have.contains("open"@) <==> want.contains("open"@));
    } else {
        assert(want =~= Seq::<Seq<char>>::empty());
        let stem = models::base_of(f) + "-"@;
        reveal_strlit("-");
        assert(image == models::base_of(f));
        assert(!text::begins_with(image, stem));
    }
}

// ---------------------------------------------------------------------------
// Another variant of a build

/// A reference with the image replaced by the one for the features, the tag
/// kept; unchanged where there is no such image, or the reference has no tag or
/// no image name to replace.
pub open spec fn retargeted(
    full_ref: Seq<char>,
    family: Option<Seq<char>>,
    features: Seq<Seq<char>>,
) -> Seq<char> {
    match target_image(family, features) {
        Some(image) => match text::rhalves(full_ref, ":"@) {
            Some(t) => match text::rhalves(t.0, "/"@) {
                Some(n) => n.0 + "/"@ + image + ":"@ + t.1,
                None => full_ref,
            },
            None => full_ref,
        },
        None => full_ref,
    }
}

/// Replace the image in `registry/org/image:tag` by the one for the chosen
/// features. The reference stays as it is where no image is published for them.
pub fn resolve_target_ref(
    full_ref: &str,
    family: Option<&FamilyInfo>,
    selected_features: &[String],
) -> (r: String)
    ensures
        r@ == retargeted(full_ref@, family_name(family), text::views(selected_features@)),
{
    let family = match family {
        Some(f) => f,
        None => {
            return full_ref.to_owned();
        },
    };
    let target = match service::resolve_target(family, selected_features) {
        Some(t) => t,
        None => {
            return full_ref.to_owned();
        },
    };
    match text::rsplit_once(full_ref, ":") {
        Some((before_tag, tag)) => match text::rsplit_once(before_tag, "/") {
            Some((place, _)) => {
                let mut out = place.to_owned();
                out.append("/");
                out.append(target.image.as_str());
                out.append(":");
                out.append(tag);
                out
            },
            None => full_ref.to_owned(),
        },
        None => full_ref.to_owned(),
    }
}

/// In a reference with a place, a name and a tag, the name is replaced by the
/// image that the family publishes for the features, none chosen too, whatever
/// the name was; place and tag stay.
pub proof fn law_retargeted_reference(
    place: Seq<char>,
    name: Seq<char>,
    tag: Seq<char>,
    k: int,
    features: Seq<Seq<char>>,
)
    requires
        !name.contains('/'),
        !tag.contains(':'),
        0 <= k < models::catalogue().len(),
    ensures
        ({
            let f = models::catalogue()[k];
            let full = place + "/"@ + name + ":"@ + tag;
            match models::image_for(f, features) {
                Some(image) => retargeted(full, Some(f.name), features) == place + "/"@ + image
                    + ":"@ + tag,
                None => retargeted(full, Some(f.name), features) == full,
            }
        }),
{
    let f = models::catalogue()[k];
    service::law_target_of_a_family(k, features, service::default_stream(f.name));
    reveal_strlit(":");
    reveal_strlit("/");
    text::law_last_half(place + "/"@ + name, ':', tag, ":"@);
    text::law_last_half(place, '/', name, "/"@);
}

/// Two references that differ in the name of the image alone lead to the same
/// image wherever the family publishes one.
pub proof fn law_booted_image_does_not_decide(
    place: Seq<char>,
    a: Seq<char>,
    b: Seq<char>,
    tag: Seq<char>,
    k: int,
    features: Seq<Seq<char>>,
)
    requires
        !a.contains('/') && !b.contains('/'),
        !tag.contains(':'),
        0 <= k < models::catalogue().len(),
        models::image_for(models::catalogue()[k], features) is Some,
    ensures
        retargeted(
            place + "/"@ + a + ":"@ + tag,
            Some(models::catalogue()[k].name),
            features,
        ) == retargeted(
            place + "/"@ + b + ":"@ + tag,
            Some(models::catalogue()[k].name),
            features,
        ),
{
    law_retargeted_reference(place, a, tag, k, features);
    law_retargeted_reference(place, b, tag, k, features);
}

/// A reference stays as it is where no family is known, or none of that name, and
/// where it has no tag or no name.
pub proof fn law_reference_stays(
    full: Seq<char>,
    family: Option<Seq<char>>,
    features: Seq<Seq<char>>,
)
    requires
        family is None || service::family_named(models::catalogue(), family.unwrap()) is None || (
        !full.contains(':') || !full.contains('/')),
    ensures
        retargeted(full, family, features) == full,
{
    reveal_strlit(":");
    reveal_strlit("/");
    if !full.contains(':') && text::occurs(full, ":"@) {
        let i = choose|i: int| text::occurs_at(full, ":"@, i);
        assert(full.subrange(i, i + 1)[0] == ':');
        assert(full[i] == ':');
    }
    if !full.contains('/') {
        if let Some(t) = text::rhalves(full, ":"@) {
            if text::occurs(t.0, "/"@) {
                let i = choose|i: int| text::occurs_at(t.0, "/"@, i);
                assert(t.0.subrange(i, i + 1)[0] == '/');
                assert(t.0[i] == '/');
                text::lemma_last_exists(full, ":"@);
                assert(full[i] == '/');
            }
        }
    }
}

/// What the button leads to: for a family of the catalogue, a stream and a known
/// image, the image that is published for the features, under the stream; it can
/// be pressed unless that is what is booted, and says where it leads.
pub proof fn law_switch_leads_to_the_choice(
    k: int,
    features: Seq<Seq<char>>,
    stream: Seq<char>,
    booted: ImageModel,
)
    requires
        0 <= k < models::catalogue().len(),
        stream.len() > 0,
    ensures
        ({
            let f = models::catalogue()[k];
            let a = switch_action(Some(f.name), features, stream, Some(booted));
            match models::image_for(f, features) {
                Some(image) => {
                    &&& a.sensitive <==> !(booted.image == image && booted.tag == stream)
                    &&& a.sensitive ==> a.target == Some(
                        "ghcr.io/"@ + f.org + "/"@ + image + ":"@ + stream,
                    )
                    &&& a.sensitive ==> text::ends_in(a.label, ":"@ + stream)
                    &&& a.sensitive && booted.image != image ==> a.label == "Switch to "@ + image
                        + ":"@ + stream
                    &&& a.sensitive && booted.image == image ==> a.label == "Switch to :"@ + stream
                    &&& !a.sensitive ==> a.label == "Currently Installed"@
                },
                None => !a.sensitive && a.target is None && a.label
                    == "(combination doesn't match a published image)"@,
            }
        }),
{
    let f = models::catalogue()[k];
    service::law_target_of_a_family(k, features, service::default_stream(f.name));
    let a = switch_action(Some(f.name), features, stream, Some(booted));
    if let Some(image) = models::image_for(f, features) {
        reveal_strlit("ghcr.io");
        reveal_strlit("/");
        reveal_strlit("ghcr.io/");
        assert("ghcr.io"@ + "/"@ =~= "ghcr.io/"@);
        reveal_strlit("Switch to ");
        reveal_strlit("Switch to :");
        reveal_strlit(":");
        assert("Switch to "@ + ":"@ =~= "Switch to :"@);
        let end = ":"@ + stream;
        if a.sensitive {
            assert(a.label.skip(a.label.len() - end.len()) =~= end);
        }
    }
}

/// Nothing can be switched to where no stream is chosen, or it is not known what
/// is booted, or of which family.
pub proof fn law_no_switch_without_a_choice(
    family: Option<Seq<char>>,
    features: Seq<Seq<char>>,
    stream: Seq<char>,
    booted: Option<ImageModel>,
)
    requires
        stream.len() == 0 || family is None || booted is None,
    ensures
        ({
            let a = switch_action(family, features, stream, booted);
            !a.sensitive && a.target is None && a.label == "Pin to this build…"@
        }),
{
}

/// The switches ask for the features of their names: with the driver switch on,
/// for the open driver where the family publishes that combination, and else for
/// the other one.
pub proof fn law_switches_ask_for_their_features(k: int, dx: bool, nvidia: bool)
    requires
        0 <= k < models::catalogue().len(),
    ensures
        ({
            let f = models::catalogue()[k];
            let c = chosen(f.name, dx, nvidia);
            let open_one = if dx {
                seq!["dx"@, "nvidia"@, "open"@]
            } else {
                seq!["nvidia"@, "open"@]
            };
            &&& !nvidia && !dx ==> c.len() == 0
            &&& !nvidia && dx ==> c == seq!["dx"@]
            &&& nvidia && models::image_for(f, open_one) is Some ==> c == open_one
            &&& nvidia && models::image_for(f, open_one) is None ==> c == (if dx {
                seq!["dx"@, "nvidia"@]
            } else {
                seq!["nvidia"@]
            })
        }),
{
    let f = models::catalogue()[k];
    let open_one = if dx {
        seq!["dx"@, "nvidia"@, "open"@]
    } else {
        seq!["nvidia"@, "open"@]
    };
    if nvidia {
        assert(wanted(dx, nvidia, true) =~= open_one);
        assert(wanted(dx, nvidia, false) =~= (if dx {
            seq!["dx"@, "nvidia"@]
        } else {
            seq!["nvidia"@]
        }));
        service::law_target_of_a_family(k, open_one, Seq::empty());
    } else if dx {
        assert(wanted(dx, nvidia, false) =~= seq!["dx"@]);
    }
}

/// The switches are off where nothing is booted, or an image that is not named
/// after the base with a hyphen and more; and else the driver switch is on for
/// either driver.
pub proof fn law_switches_of_an_image(base: Seq<char>, name: Seq<char>)
    ensures
        toggles(base, None) == (false, false),
        toggles(base, Some(base)) == (false, false),
        toggles(base, Some(base + "-open"@)) == (false, true),
        toggles(base, Some(base + "-nvidia"@)) == (false, true),
        toggles(base, Some(base + "-dx"@)) == (true, false),
        toggles(base, Some(base + "-asus"@)) == (false, false),
        name.len() <= base.len() ==> toggles(base, Some(name)) == (false, false),
        name.len() > base.len() && (name.take(base.len() as int) != base || name[base.len() as int]
            != '-') ==> toggles(base, Some(name)) == (false, false),
{
    reveal_strlit("-");
    let stem = base + "-"@;
    if name.len() > base.len() && text::begins_with(name, stem) {
        assert(name.take(stem.len() as int)[base.len() as int] == '-');
        assert(name.take(base.len() as int) =~= stem.take(base.len() as int));
        assert(stem.take(base.len() as int) =~= base);
    }
    lemma_one_feature(base, "open"@, "-open"@);
    lemma_one_feature(base, "nvidia"@, "-nvidia"@);
    lemma_one_feature(base, "dx"@, "-dx"@);
    lemma_one_feature(base, "asus"@, "-asus"@);
    lemma_feature_words();
    reveal_strlit("asus");
    reveal_strlit("open");
    assert("asus"@[0] == 'a' && "open"@[0] == 'o');
    assert("asus"@.len() == 4 && "dx"@ != "asus"@ && "nvidia"@ != "asus"@) by {
        reveal_strlit("dx");
        reveal_strlit("nvidia");
        assert("dx"@.len() == 2 && "nvidia"@.len() == 6);
    }
}

proof fn lemma_one_feature(base: Seq<char>, feature: Seq<char>, behind: Seq<char>)
    requires
        (feature == "open"@ && behind == "-open"@) || (feature == "nvidia"@ && behind
            == "-nvidia"@) || (feature == "dx"@ && behind == "-dx"@) || (feature == "asus"@
            && behind == "-asus"@),
    ensures
        toggles(base, Some(base + behind)) == (
            feature == "dx"@,
            feature == "nvidia"@ || feature == "open"@,
        ),
{
    reveal_strlit("-");
    reveal_strlit("open");
    reveal_strlit("nvidia");
    reveal_strlit("dx");
    reveal_strlit("asus");
    reveal_strlit("-open");
    reveal_strlit("-nvidia");
    reveal_strlit("-dx");
    reveal_strlit("-asus");
    assert(behind =~= "-"@ + feature);
    let stem = base + "-"@;
    let name = base + behind;
    assert(name =~= stem + feature);
    assert(name.take(stem.len() as int) =~= stem);
    assert(name.skip(stem.len() as int) =~= feature);
    assert(!feature.contains('-'));
    text::lemma_one_piece(feature, '-');
    let parts = seq![feature];
    assert(parts[0] == feature);
    assert(parts.contains("dx"@) <==> feature == "dx"@);
    assert(parts.contains("nvidia"@) <==> feature == "nvidia"@);
    assert(parts.contains("open"@) <==> feature == "open"@);
}

/// What is told of the button is what it is given.
pub proof fn law_button_holds_what_is_told(a: (String, bool, Option<String>))
    ensures
        switch_view(a).label == a.0@,
        switch_view(a).sensitive == a.1,
        a.2 matches Some(s) ==> switch_view(a).target == Some(s@),
        a.2 is None ==> switch_view(a).target is None,
{
}

} // verus!
