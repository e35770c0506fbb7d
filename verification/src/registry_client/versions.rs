//! Which builds of an image stream are offered.
//!
//! The registry lists tags. Those with a date in their name tell when they were
//! built; those that are commit hashes, and the floating tag of the stream
//! itself, have to be asked. What was asked, and what came back, is handed to
//! the functions here, which decide.

use vstd::prelude::*;
use crate::date;
use crate::date::Date;
use crate::sort;
use crate::text;
use super::models::{AvailableTag, ImageVersion, RegistryError};
use super::tags;

verus! {

/// A tag with the date of its build.
pub type Dated = (Date, Seq<char>);

/// Dated tags, each taken by its view.
pub open spec fn dated_views(v: Seq<(Date, String)>) -> Seq<Dated> {
    v.map_values(dated_view())
}

pub open spec fn dated_view() -> spec_fn((Date, String)) -> Dated {
    |x: (Date, String)| (x.0, x.1@)
}

/// Newer builds come first.
pub open spec fn newest_first() -> spec_fn(Dated, Dated) -> bool {
    |a: Dated, b: Dated| date::date_le(b.0, a.0)
}

/// The tags with a date in their name, for a stream.
pub open spec fn dated_of(all: Seq<Seq<char>>, stream: Seq<char>) -> Seq<Dated>
    decreases all.len(),
{
    if all.len() == 0 {
        Seq::empty()
    } else {
        let before = dated_of(all.drop_last(), stream);
        match tags::dated_tag(all.last(), stream) {
            Some(d) => before.push((d, all.last())),
            None => before,
        }
    }
}

/// The tags that are commit hashes.
pub open spec fn hashes_of(all: Seq<Seq<char>>) -> Seq<Seq<char>>
    decreases all.len(),
{
    if all.len() == 0 {
        Seq::empty()
    } else {
        let before = hashes_of(all.drop_last());
        if tags::is_sha(all.last()) {
            before.push(all.last())
        } else {
            before
        }
    }
}

/// How many commit hashes are asked for their date at most.
pub open spec fn probe_cap(max: nat) -> nat {
    if max < 120 {
        120
    } else {
        max
    }
}

/// `cap` of `all`, spread evenly over it, where there are more than that.
pub open spec fn spread(all: Seq<Seq<char>>, cap: nat) -> Seq<Seq<char>> {
    if all.len() > cap && cap > 0 {
        let stride = all.len() / cap;
        Seq::new(cap, |i: int| all[i * stride])
    } else {
        all
    }
}

fn dated_not_newer(a: &(Date, String), b: &(Date, String)) -> (r: bool)
    ensures
        r == date::date_le(b.0, a.0),
{
    date::not_later(&b.0, &a.0)
}

/// Sort dated tags, the newest first.
fn sort_newest_first(v: Vec<(Date, String)>) -> (r: Vec<(Date, String)>)
    ensures
        dated_views(r@) == sort::sorted(dated_views(v@), newest_first()),
{
    let ghost all = v@;
    let ghost le = |a: (Date, String), b: (Date, String)| date::date_le(b.0, a.0);
    let r = sort::sort_by(v, dated_not_newer, Ghost(le));
    proof {
        sort::lemma_sorted_views(all, le, dated_view(), newest_first());
    }
    r
}

/// The tags of `stream` that carry a date in their name, the newest first.
pub fn dated_candidates(all: &Vec<String>, stream: &str) -> (r: Vec<(Date, String)>)
    ensures
        dated_views(r@) == sort::sorted(dated_of(text::views(all@), stream@), newest_first()),
{
    let ghost names = text::views(all@);
    let mut out: Vec<(Date, String)> = Vec::new();
    let mut i: usize = 0;
    assert(dated_views(out@) =~= dated_of(names.take(0), stream@));
    while i < all.len()
        invariant
            i <= all@.len(),
            names == text::views(all@),
            dated_views(out@) == dated_of(names.take(i as int), stream@),
        decreases all@.len() - i,
    {
        let ghost before = dated_views(out@);
        proof {
            assert(names.take(i + 1).drop_last() =~= names.take(i as int));
            assert(names.take(i + 1).last() == all@[i as int]@);
        }
        match tags::parse_dated_tag(all[i].as_str(), stream) {
            Some(d) => {
                out.push((d, all[i].clone()));
                assert(dated_views(out@) =~= before.push((d, all@[i as int]@)));
            },
            None => {},
        }
        i += 1;
    }
    assert(names.take(names.len() as int) =~= names);
    sort_newest_first(out)
}

/// The tags that are commit hashes.
fn hash_tags(all: &Vec<String>) -> (r: Vec<String>)
    ensures
        text::views(r@) == hashes_of(text::views(all@)),
{
    let ghost names = text::views(all@);
    let mut out: Vec<String> = Vec::new();
    let mut i: usize = 0;
    assert(text::views(out@) =~= hashes_of(names.take(0)));
    while i < all.len()
        invariant
            i <= all@.len(),
            names == text::views(all@),
            text::views(out@) == hashes_of(names.take(i as int)),
        decreases all@.len() - i,
    {
        let ghost before = text::views(out@);
        proof {
            assert(names.take(i + 1).drop_last() =~= names.take(i as int));
            assert(names.take(i + 1).last() == all@[i as int]@);
        }
        if tags::is_sha_only_tag(all[i].as_str()) {
            out.push(all[i].clone());
            assert(text::views(out@) =~= before.push(all@[i as int]@));
        }
        i += 1;
    }
    assert(names.take(names.len() as int) =~= names);
    out
}

/// The commit hashes to ask for their date. Where there are too many they are
/// taken evenly from the whole list: the registry sorts it, so its beginning
/// would hold only hashes that begin alike.
pub fn hashes_to_probe(all: &Vec<String>, max: usize) -> (r: Vec<String>)
    ensures
        text::views(r@) == spread(hashes_of(text::views(all@)), probe_cap(max as nat)),
{
    let hashes = hash_tags(all);
    let ghost hs = text::views(hashes@);
    let cap: usize = if max < 120 {
        120
    } else {
        max
    };
    let n: usize = hashes.len();
    if n <= cap {
        return hashes;
    }
    let stride: usize = n / cap;
    let mut out: Vec<String> = Vec::new();
    let mut i: usize = 0;
    let mut pos: usize = 0;
    proof {
        lemma_stride(n as int, cap as int, 0);
        assert(0 * (stride as int) == 0) by (nonlinear_arith);
    }
    while i < cap
        invariant
            i <= cap,
            cap >= 120,
            n == hashes@.len(),
            n > cap,
            stride == n / cap,
            stride >= 1,
            hs == text::views(hashes@),
            i < cap ==> pos == i * stride && pos < n,
            text::views(out@) =~= Seq::new(i as nat, |k: int| hs[k * stride]),
        decreases cap - i,
    {
        let ghost before = text::views(out@);
        out.push(hashes[pos].clone());
        assert(text::views(out@) =~= before.push(hs[pos as int]));
        i += 1;
        proof {
            assert(i * stride == (i - 1) * stride + stride) by (nonlinear_arith);
            if i < cap {
                lemma_stride(n as int, cap as int, i as int);
            }
        }
        if i < cap {
            pos = pos + stride;
        }
    }
    assert(text::views(out@) =~= spread(hs, cap as nat));
    out
}

/// Steps of the stride stay within the list.
proof fn lemma_stride(n: int, cap: int, i: int)
    requires
        0 < cap < n,
        0 <= i < cap,
    ensures
        n / cap >= 1,
        i * (n / cap) < n,
{
    assert(n / cap >= 1) by (nonlinear_arith)
        requires
            0 < cap < n,
    ;
    assert(cap * (n / cap) <= n) by (nonlinear_arith)
        requires
            0 < cap < n,
    ;
    let q = n / cap;
    assert(i * q < n) by (nonlinear_arith)
        requires
            0 <= i < cap,
            q >= 1,
            cap * q <= n,
    ;
}

/// Whether the floating tag of the stream is published, so that it can be asked
/// for its date.
pub fn floating_published(all: &Vec<String>, stream: &str) -> (r: bool)
    ensures
        r == text::views(all@).contains(stream@),
{
    string_in(all, stream)
}

fn string_in(all: &Vec<String>, s: &str) -> (r: bool)
    ensures
        r == text::views(all@).contains(s@),
{
    let mut i: usize = 0;
    while i < all.len()
        invariant
            i <= all@.len(),
            forall|j: int| 0 <= j < i ==> text::views(all@)[j] != s@,
        decreases all@.len() - i,
    {
        if text::eq(all[i].as_str(), s) {
            assert(text::views(all@)[i as int] == s@);
            return true;
        }
        i += 1;
    }
    false
}

/// `d` is later than every date of `list`.
pub open spec fn is_newest(d: Date, list: Seq<Dated>) -> bool {
    forall|i: int| 0 <= i < list.len() ==> !date::date_le(d, (#[trigger] list[i]).0)
}

/// The dated tags, those that were asked for their date, and the floating tag
/// where it is newer than all of them: the newest first.
pub open spec fn merged(
    all: Seq<Seq<char>>,
    stream: Seq<char>,
    probed: Seq<Dated>,
    floating: Option<Date>,
) -> Seq<Dated> {
    let named = sort::sorted(
        sort::sorted(dated_of(all, stream), newest_first()) + probed,
        newest_first(),
    );
    match floating {
        Some(d) => if all.contains(stream) && is_newest(d, named) {
            sort::sorted(named.push((d, stream)), newest_first())
        } else {
            named
        },
        None => named,
    }
}

/// The builds that are offered: the newest of those that there are, and not
/// more than asked for.
pub open spec fn offered(
    all: Seq<Seq<char>>,
    stream: Seq<char>,
    max: nat,
    probed: Seq<Dated>,
    floating: Option<Date>,
) -> Seq<Dated> {
    at_most(merged(all, stream, probed, floating), max as int)
}

/// What to fetch.
#[derive(Debug)]
pub enum VersionPlan {
    /// The manifests of these tags; none where none is asked for.
    Fetch(Vec<(Date, String)>),
    /// No tag has a date: the tag `latest` alone, as of today.
    LatestOnly,
    /// There is nothing to fetch.
    NoTags,
}

/// The plan fits what is offered, how many builds are asked for, and whether the
/// tag `latest` is published.
pub open spec fn fits(r: VersionPlan, list: Seq<Dated>, max: nat, has_latest: bool) -> bool {
    match r {
        VersionPlan::Fetch(v) => dated_views(v@) == list && (list.len() > 0 || max == 0),
        VersionPlan::LatestOnly => list.len() == 0 && max > 0 && has_latest,
        VersionPlan::NoTags => list.len() == 0 && max > 0 && !has_latest,
    }
}

fn later_than_all(d: &Date, list: &Vec<(Date, String)>) -> (r: bool)
    ensures
        r == is_newest(*d, dated_views(list@)),
{
    let ghost views = dated_views(list@);
    let mut i: usize = 0;
    while i < list.len()
        invariant
            i <= list@.len(),
            views == dated_views(list@),
            forall|j: int| 0 <= j < i ==> !date::date_le(*d, (#[trigger] views[j]).0),
        decreases list@.len() - i,
    {
        if date::not_later(d, &list[i].0) {
            assert(date::date_le(*d, views[i as int].0));
            return false;
        }
        i += 1;
    }
    true
}

/// Decide what to fetch for a list of up to `max` builds, from the tags that
/// the registry lists, the dates of the commit hashes that were asked, and the
/// date of the floating tag.
pub fn plan_versions(
    all: &Vec<String>,
    stream: &str,
    max: usize,
    probed: Vec<(Date, String)>,
    floating: Option<Date>,
) -> (r: VersionPlan)
    ensures
        fits(
            r,
            offered(text::views(all@), stream@, max as nat, dated_views(probed@), floating),
            max as nat,
            text::views(all@).contains("latest"@),
        ),
{
    let mut candidates = dated_candidates(all, stream);
    let ghost before = dated_views(candidates@);
    let ghost more = dated_views(probed@);
    let mut probed = probed;
    candidates.append(&mut probed);
    assert(dated_views(candidates@) =~= before + more);
    let mut list = sort_newest_first(candidates);
    match floating {
        Some(d) => {
            if floating_published(all, stream) && later_than_all(&d, &list) {
                let ghost named = dated_views(list@);
                list.push((d, stream.to_owned()));
                assert(dated_views(list@) =~= named.push((d, stream@)));
                list = sort_newest_first(list);
            }
        },
        None => {},
    }
    let ghost whole = dated_views(list@);
    list.truncate(max);
    proof {
        assert(dated_views(list@) =~= at_most(whole, max as int));
        assert(dated_views(list@).len() == list@.len());
    }
    if list.len() > 0 || max == 0 {
        VersionPlan::Fetch(list)
    } else if string_in(all, "latest") {
        VersionPlan::LatestOnly
    } else {
        VersionPlan::NoTags
    }
}

/// Newer builds come first.
pub open spec fn newest_build_first() -> spec_fn(ImageVersion, ImageVersion) -> bool {
    |a: ImageVersion, b: ImageVersion| date::date_le(b.date, a.date)
}

fn version_not_older(a: &ImageVersion, b: &ImageVersion) -> (r: bool)
    ensures
        r == date::date_le(b.date, a.date),
{
    date::not_later(&b.date, &a.date)
}

/// The versions that could be fetched, the newest first.
pub fn order_versions(fetched: Vec<ImageVersion>) -> (r: Vec<ImageVersion>)
    ensures
        r@ == sort::sorted(fetched@, newest_build_first()),
{
    sort::sort_by(fetched, version_not_older, Ghost(newest_build_first()))
}

/// `r` is the answer where only `latest` was there to fetch.
pub open spec fn answers_latest(
    r: Result<Vec<ImageVersion>, RegistryError>,
    fetched: Option<ImageVersion>,
    stream: Seq<char>,
) -> bool {
    match fetched {
        Some(v) => r matches Ok(list) && list@ == seq![v],
        None => r matches Err(RegistryError::NoTags(s)) && s@ == stream,
    }
}

/// The answer where only `latest` was there to fetch.
pub fn latest_only(fetched: Option<ImageVersion>, stream: &str) -> (r: Result<
    Vec<ImageVersion>,
    RegistryError,
>)
    ensures
        answers_latest(r, fetched, stream@),
{
    match fetched {
        Some(v) => {
            let list = vec![v];
            assert(list@ =~= seq![v]);
            Ok(list)
        },
        None => Err(RegistryError::NoTags(stream.to_owned())),
    }
}

// ---------------------------------------------------------------------------
// The list of tags

/// A tag that names a stream or a channel: no digest, no commit hash, no date.
pub open spec fn is_channel(tag: Seq<char>, stream: Seq<char>) -> bool {
    &&& !text::begins_with(tag, "sha256:"@)
    &&& !tags::is_sha(tag)
    &&& tags::dated_tag(tag, stream) is None
    &&& tags::stream_of(tag) is None
}

/// A tag of the stream with a date in its name.
pub open spec fn is_dated_tag(tag: Seq<char>, stream: Seq<char>) -> bool {
    &&& !text::begins_with(tag, "sha256:"@)
    &&& !tags::is_sha(tag)
    &&& tags::dated_tag(tag, stream) is Some
}

/// The tags that name a stream or a channel.
pub open spec fn channels_of(all: Seq<Seq<char>>, stream: Seq<char>) -> Seq<Seq<char>>
    decreases all.len(),
{
    if all.len() == 0 {
        Seq::empty()
    } else {
        let before = channels_of(all.drop_last(), stream);
        if is_channel(all.last(), stream) {
            before.push(all.last())
        } else {
            before
        }
    }
}

/// The tags of the stream with a date in their name.
pub open spec fn listed_dates(all: Seq<Seq<char>>, stream: Seq<char>) -> Seq<Dated>
    decreases all.len(),
{
    if all.len() == 0 {
        Seq::empty()
    } else {
        let before = listed_dates(all.drop_last(), stream);
        if is_dated_tag(all.last(), stream) {
            before.push((tags::dated_tag(all.last(), stream).unwrap(), all.last()))
        } else {
            before
        }
    }
}

/// The commit hashes, but for what begins like a digest.
pub open spec fn listed_hashes(all: Seq<Seq<char>>) -> Seq<Seq<char>>
    decreases all.len(),
{
    if all.len() == 0 {
        Seq::empty()
    } else {
        let before = listed_hashes(all.drop_last());
        if !text::begins_with(all.last(), "sha256:"@) && tags::is_sha(all.last()) {
            before.push(all.last())
        } else {
            before
        }
    }
}

/// The tags of a registry, sorted by what they are.
#[derive(Debug)]
pub struct TagGroups {
    pub channels: Vec<String>,
    pub dated: Vec<(Date, String)>,
    pub hashes: Vec<String>,
}

/// Sort the tags of a registry by what they are. What is none of these is left
/// out: digests, and dated tags of other streams.
pub fn group_tags(all: &Vec<String>, stream: &str) -> (r: TagGroups)
    ensures
        text::views(r.channels@) == channels_of(text::views(all@), stream@),
        dated_views(r.dated@) == listed_dates(text::views(all@), stream@),
        text::views(r.hashes@) == listed_hashes(text::views(all@)),
{
    let ghost names = text::views(all@);
    let mut channels: Vec<String> = Vec::new();
    let mut dated: Vec<(Date, String)> = Vec::new();
    let mut hashes: Vec<String> = Vec::new();
    let mut i: usize = 0;
    proof {
        assert(text::views(channels@) =~= channels_of(names.take(0), stream@));
        assert(dated_views(dated@) =~= listed_dates(names.take(0), stream@));
        assert(text::views(hashes@) =~= listed_hashes(names.take(0)));
    }
    while i < all.len()
        invariant
            i <= all@.len(),
            names == text::views(all@),
            text::views(channels@) == channels_of(names.take(i as int), stream@),
            dated_views(dated@) == listed_dates(names.take(i as int), stream@),
            text::views(hashes@) == listed_hashes(names.take(i as int)),
        decreases all@.len() - i,
    {
        let tag = all[i].as_str();
        let ghost cs = text::views(channels@);
        let ghost ds = dated_views(dated@);
        let ghost hs = text::views(hashes@);
        proof {
            assert(names.take(i + 1).drop_last() =~= names.take(i as int));
            assert(names.take(i + 1).last() == tag@);
        }
        if !text::starts_with(tag, "sha256:") {
            if tags::is_sha_only_tag(tag) {
                hashes.push(tag.to_owned());
                assert(text::views(hashes@) =~= hs.push(tag@));
            } else {
                match tags::parse_dated_tag(tag, stream) {
                    Some(d) => {
                        dated.push((d, tag.to_owned()));
                        assert(dated_views(dated@) =~= ds.push((d, tag@)));
                    },
                    None => {
                        if tags::strip_date_suffix(tag).is_none() {
                            channels.push(tag.to_owned());
                            assert(text::views(channels@) =~= cs.push(tag@));
                        }
                    },
                }
            }
        }
        i += 1;
    }
    assert(names.take(names.len() as int) =~= names);
    TagGroups { channels, dated, hashes }
}

/// How many commit hashes of a list of tags are asked for their date.
pub const TAG_PROBE_CAP: usize = 500;

/// How many entries a list of tags has at most.
pub const TAG_CAP: usize = 30;

/// At most the first `cap` elements.
pub open spec fn at_most<T>(s: Seq<T>, cap: int) -> Seq<T> {
    if s.len() > cap {
        s.take(cap)
    } else {
        s
    }
}

/// The commit hashes to ask for their date, for the list of tags.
pub open spec fn asked_hashes(hashes: Seq<Seq<char>>) -> Seq<Seq<char>> {
    at_most(hashes, 500)
}

/// The commit hashes to ask for their date, for the list of tags.
pub fn tag_hashes_to_probe(groups: &TagGroups) -> (r: Vec<String>)
    ensures
        text::views(r@) == asked_hashes(text::views(groups.hashes@)),
{
    let mut out: Vec<String> = Vec::new();
    let ghost all = text::views(groups.hashes@);
    let n: usize = if groups.hashes.len() > TAG_PROBE_CAP {
        TAG_PROBE_CAP
    } else {
        groups.hashes.len()
    };
    let mut i: usize = 0;
    assert(text::views(out@) =~= all.take(0));
    while i < n
        invariant
            i <= n <= groups.hashes@.len(),
            all == text::views(groups.hashes@),
            text::views(out@) == all.take(i as int),
        decreases n - i,
    {
        let ghost before = text::views(out@);
        out.push(groups.hashes[i].clone());
        proof {
            assert(text::views(out@) =~= before.push(all[i as int]));
            assert(all.take(i + 1) =~= all.take(i as int).push(all[i as int]));
        }
        i += 1;
    }
    assert(text::views(out@) =~= at_most(all, 500));
    out
}

/// What a user is shown for a tag, and the tag.
pub type Entry = (Seq<char>, Seq<char>);

pub open spec fn entry_view() -> spec_fn(AvailableTag) -> Entry {
    |t: AvailableTag| (t.display@, t.raw@)
}

/// Entries, each taken by its view.
pub open spec fn entries(v: Seq<AvailableTag>) -> Seq<Entry> {
    v.map_values(entry_view())
}

/// Tags that are shown as they are.
pub open spec fn shown_plain(s: Seq<Seq<char>>) -> Seq<Entry> {
    Seq::new(s.len(), |i: int| (s[i], s[i]))
}

pub open spec fn tags_of(s: Seq<Dated>) -> Seq<Seq<char>> {
    Seq::new(s.len(), |i: int| s[i].1)
}

/// Commit hashes, shown by the day of the build.
pub open spec fn shown_by_date(s: Seq<Dated>) -> Seq<Entry> {
    Seq::new(s.len(), |i: int| ("Build "@ + date::dashed_text(s[i].0), s[i].1))
}

/// The list of tags: channels in dictionary order, then dated tags, then commit
/// hashes whose date is known, both the newest first; thirty entries at most.
pub open spec fn tag_list(
    channels: Seq<Seq<char>>,
    dated: Seq<Dated>,
    probed: Seq<Dated>,
) -> Seq<Entry> {
    at_most(
        shown_plain(sort::sorted(channels, text::lex())) + shown_plain(
            tags_of(sort::sorted(dated, newest_first())),
        ) + shown_by_date(sort::sorted(probed, newest_first())),
        30,
    )
}

fn push_plain(out: &mut Vec<AvailableTag>, tag: &str)
    ensures
        entries(final(out)@) == entries(old(out)@).push((tag@, tag@)),
{
    out.push(AvailableTag { display: tag.to_owned(), raw: tag.to_owned() });
    assert(entries(out@) =~= entries(old(out)@).push((tag@, tag@)));
}

/// Put the list of tags together, with the commit hashes that were asked for
/// their date.
pub fn list_tags(groups: TagGroups, probed: Vec<(Date, String)>) -> (r: Vec<AvailableTag>)
    requires
        forall|i: int| 0 <= i < probed@.len() ==> (#[trigger] probed@[i]).0.wf(),
    ensures
        entries(r@) == tag_list(
            text::views(groups.channels@),
            dated_views(groups.dated@),
            dated_views(probed@),
        ),
{
    let ghost cs = sort::sorted(text::views(groups.channels@), text::lex());
    let ghost ds = sort::sorted(dated_views(groups.dated@), newest_first());
    let ghost ps = sort::sorted(dated_views(probed@), newest_first());
    let ghost asked = dated_views(probed@);
    let channels = text::sort_strings(groups.channels);
    let dated = sort_newest_first(groups.dated);
    let known = sort_newest_first(probed);
    proof {
        sort::law_sorted_is_permutation(asked, newest_first());
        assert forall|i: int| 0 <= i < known@.len() implies (#[trigger] known@[i]).0.wf() by {
            let x = dated_views(known@)[i];
            assert(ps[i] == x);
            assert(ps.contains(x));
            let k = choose|k: int| 0 <= k < asked.len() && asked[k] == x;
            assert(probed@[k].0.wf());
        }
    }
    let mut out: Vec<AvailableTag> = Vec::new();
    let mut i: usize = 0;
    assert(entries(out@) =~= shown_plain(cs).take(0));
    while i < channels.len()
        invariant
            i <= channels@.len(),
            text::views(channels@) == cs,
            entries(out@) == shown_plain(cs).take(i as int),
        decreases channels@.len() - i,
    {
        push_plain(&mut out, channels[i].as_str());
        proof {
            assert(cs[i as int] == channels@[i as int]@);
            assert(shown_plain(cs).take(i + 1) =~= shown_plain(cs).take(i as int).push(
                shown_plain(cs)[i as int],
            ));
        }
        i += 1;
    }
    assert(shown_plain(cs).take(cs.len() as int) =~= shown_plain(cs));
    let n: usize = dated.len();
    let ghost first = entries(out@);
    let ghost second = shown_plain(tags_of(ds));
    let mut j: usize = 0;
    assert(first + second.take(0) =~= first);
    while j < n
        invariant
            j <= n <= dated@.len(),
            n == ds.len(),
            forall|k: int| 0 <= k < n ==> #[trigger] ds[k] == dated_views(dated@)[k],
            second == shown_plain(tags_of(ds)),
            entries(out@) == first + second.take(j as int),
        decreases n - j,
    {
        push_plain(&mut out, dated[j].1.as_str());
        proof {
            assert(ds[j as int].1 == dated@[j as int].1@);
            assert(second.take(j + 1) =~= second.take(j as int).push(second[j as int]));
            assert((first + second.take(j as int)).push(second[j as int]) =~= first + second.take(
                j + 1,
            ));
        }
        j += 1;
    }
    assert(second.take(n as int) =~= second);
    let ghost both = first + second;
    let ghost third = shown_by_date(ps);
    let shown: usize = known.len();
    let mut k: usize = 0;
    assert(both + third.take(0) =~= both);
    while k < shown
        invariant
            k <= shown <= known@.len(),
            shown == ps.len(),
            forall|m: int| 0 <= m < shown ==> #[trigger] ps[m] == dated_views(known@)[m],
            third == shown_by_date(ps),
            forall|m: int| 0 <= m < known@.len() ==> (#[trigger] known@[m]).0.wf(),
            entries(out@) == both + third.take(k as int),
        decreases shown - k,
    {
        let ghost before = entries(out@);
        let mut display = "Build ".to_owned();
        let day = date::format_dashed(&known[k].0);
        display.append(day.as_str());
        out.push(AvailableTag { display, raw: known[k].1.clone() });
        proof {
            assert(ps[k as int] == dated_views(known@)[k as int]);
            assert(entries(out@) =~= before.push(third[k as int]));
            assert(third.take(k + 1) =~= third.take(k as int).push(third[k as int]));
            assert((both + third.take(k as int)).push(third[k as int]) =~= both + third.take(
                k + 1,
            ));
        }
        k += 1;
    }
    assert(third.take(ps.len() as int) =~= third);
    let ghost whole = entries(out@);
    out.truncate(TAG_CAP);
    assert(entries(out@) =~= at_most(whole, 30));
    out
}

// ---------------------------------------------------------------------------
// Laws

proof fn lemma_newest_preorder()
    ensures
        sort::total_preorder(newest_first()),
{
}

proof fn lemma_dated_of(all: Seq<Seq<char>>, stream: Seq<char>, k: int)
    requires
        0 <= k < all.len(),
        tags::dated_tag(all[k], stream) is Some,
    ensures
        dated_of(all, stream).contains((tags::dated_tag(all[k], stream).unwrap(), all[k])),
    decreases all.len(),
{
    let x = (tags::dated_tag(all[k], stream).unwrap(), all[k]);
    let r = dated_of(all, stream);
    if k < all.len() - 1 {
        let front = all.drop_last();
        lemma_dated_of(front, stream, k);
        let p = dated_of(front, stream);
        let j = choose|j: int| 0 <= j < p.len() && p[j] == x;
        assert(r[j] == x);
    } else {
        assert(r[r.len() - 1] == x);
    }
}

proof fn lemma_merged_holds_dated(
    all: Seq<Seq<char>>,
    stream: Seq<char>,
    probed: Seq<Dated>,
    floating: Option<Date>,
    x: Dated,
)
    requires
        dated_of(all, stream).contains(x) || probed.contains(x),
    ensures
        merged(all, stream, probed, floating).contains(x),
{
    let first = sort::sorted(dated_of(all, stream), newest_first());
    sort::law_sorted_is_permutation(dated_of(all, stream), newest_first());
    sort::law_sorted_is_permutation(first + probed, newest_first());
    let joined = first + probed;
    if dated_of(all, stream).contains(x) {
        assert(first.contains(x));
        let j = choose|j: int| 0 <= j < first.len() && first[j] == x;
        assert(joined[j] == x);
    } else {
        let j = choose|j: int| 0 <= j < probed.len() && probed[j] == x;
        assert(joined[first.len() + j] == x);
    }
    let named = sort::sorted(joined, newest_first());
    assert(joined.contains(x));
    assert(named.contains(x));
    match floating {
        Some(d) => {
            let j = choose|j: int| 0 <= j < named.len() && named[j] == x;
            let more = named.push((d, stream));
            assert(more[j] == x);
            sort::law_sorted_is_permutation(more, newest_first());
            assert(sort::sorted(more, newest_first()).contains(x));
        },
        None => {},
    }
}

proof fn lemma_merged_ascends(
    all: Seq<Seq<char>>,
    stream: Seq<char>,
    probed: Seq<Dated>,
    floating: Option<Date>,
)
    ensures
        sort::ascends(merged(all, stream, probed, floating), newest_first()),
{
    lemma_newest_preorder();
    let first = sort::sorted(dated_of(all, stream), newest_first());
    sort::law_sorted_ascends(first + probed, newest_first());
    let named = sort::sorted(first + probed, newest_first());
    match floating {
        Some(d) => {
            sort::law_sorted_ascends(named.push((d, stream)), newest_first());
        },
        None => {},
    }
}

/// The builds that are offered are not more than asked for, the newest first;
/// and they are the most recent: a build that the names of the tags or the
/// answers tell of is offered, unless the list is full of builds that are not
/// older.
pub proof fn law_offered_are_the_most_recent(
    all: Seq<Seq<char>>,
    stream: Seq<char>,
    max: nat,
    probed: Seq<Dated>,
    floating: Option<Date>,
    x: Dated,
)
    requires
        dated_of(all, stream).contains(x) || probed.contains(x),
    ensures
        ({
            let list = offered(all, stream, max, probed, floating);
            &&& list.len() <= max
            &&& sort::ascends(list, newest_first())
            &&& list.contains(x) || (list.len() == max && forall|i: int|
                0 <= i < list.len() ==> date::date_le(x.0, (#[trigger] list[i]).0))
        }),
{
    let m = merged(all, stream, probed, floating);
    let list = offered(all, stream, max, probed, floating);
    lemma_merged_holds_dated(all, stream, probed, floating, x);
    lemma_merged_ascends(all, stream, probed, floating);
    assert(sort::ascends(list, newest_first())) by {
        assert forall|i: int, j: int| 0 <= i <= j < list.len() implies #[trigger] newest_first()(
            list[i],
            list[j],
        ) by {
            assert(newest_first()(m[i], m[j]));
        }
    }
    let k = choose|k: int| 0 <= k < m.len() && m[k] == x;
    if k < list.len() {
        assert(list[k] == x);
    } else {
        assert forall|i: int| 0 <= i < list.len() implies date::date_le(
            x.0,
            (#[trigger] list[i]).0,
        ) by {
            assert(newest_first()(m[i], m[k]));
        }
    }
}

/// A tag of the stream with a date in its name is among the builds to choose
/// from.
pub proof fn law_dated_tags_are_candidates(all: Seq<Seq<char>>, stream: Seq<char>, k: int)
    requires
        0 <= k < all.len(),
        tags::dated_tag(all[k], stream) is Some,
    ensures
        dated_of(all, stream).contains((tags::dated_tag(all[k], stream).unwrap(), all[k])),
{
    lemma_dated_of(all, stream, k);
}

/// The floating tag is offered where it is newer than everything else, and then
/// first.
pub proof fn law_floating_tag_comes_first(
    all: Seq<Seq<char>>,
    stream: Seq<char>,
    max: nat,
    probed: Seq<Dated>,
    d: Date,
)
    requires
        max > 0,
        all.contains(stream),
        is_newest(d, merged(all, stream, probed, None)),
    ensures
        offered(all, stream, max, probed, Some(d)).len() > 0,
        offered(all, stream, max, probed, Some(d))[0] == (d, stream),
{
    let named = merged(all, stream, probed, None);
    let m = merged(all, stream, probed, Some(d));
    lemma_newest_goes_first(named, (d, stream));
    assert(m[0] == (d, stream));
}

proof fn lemma_newest_goes_first(s: Seq<Dated>, x: Dated)
    requires
        is_newest(x.0, s),
    ensures
        sort::sorted(s.push(x), newest_first()).len() > 0,
        sort::sorted(s.push(x), newest_first())[0] == x,
{
    assert(s.push(x).drop_last() =~= s);
    lemma_insert_newest(sort::sorted(s, newest_first()), x, s);
}

proof fn lemma_insert_newest(t: Seq<Dated>, x: Dated, s: Seq<Dated>)
    requires
        t == sort::sorted(s, newest_first()),
        is_newest(x.0, s),
    ensures
        sort::inserted(t, x, newest_first()).len() > 0,
        sort::inserted(t, x, newest_first())[0] == x,
{
    sort::law_sorted_is_permutation(s, newest_first());
    assert forall|i: int| 0 <= i < t.len() implies !newest_first()(#[trigger] t[i], x) by {
        assert(t.contains(t[i]));
        let k = choose|k: int| 0 <= k < s.len() && s[k] == t[i];
        assert(!date::date_le(x.0, s[k].0));
    }
    lemma_insert_first(t, x);
}

proof fn lemma_insert_first(t: Seq<Dated>, x: Dated)
    requires
        forall|i: int| 0 <= i < t.len() ==> !newest_first()(#[trigger] t[i], x),
    ensures
        sort::inserted(t, x, newest_first()).len() > 0,
        sort::inserted(t, x, newest_first())[0] == x,
    decreases t.len(),
{
    if t.len() > 0 {
        assert(t[t.len() - 1] == t.last());
        let front = t.drop_last();
        assert forall|i: int| 0 <= i < front.len() implies !newest_first()(
            #[trigger] front[i],
            x,
        ) by {
            assert(front[i] == t[i]);
        }
        lemma_insert_first(front, x);
    }
}

/// Every tag is at most one of: a channel, a dated tag, a commit hash.
pub proof fn law_tag_groups_are_disjoint(tag: Seq<char>, stream: Seq<char>)
    ensures
        !(is_channel(tag, stream) && is_dated_tag(tag, stream)),
        tags::is_sha(tag) ==> !is_channel(tag, stream) && !is_dated_tag(tag, stream),
{
}

/// The versions that are handed out are those that were fetched, the newest
/// first.
pub proof fn law_versions_newest_first(fetched: Seq<ImageVersion>)
    ensures
        sort::sorted(fetched, newest_build_first()).to_multiset() == fetched.to_multiset(),
        forall|i: int, j: int|
            0 <= i <= j < fetched.len() ==> date::date_le(
                (#[trigger] sort::sorted(fetched, newest_build_first())[j]).date,
                (#[trigger] sort::sorted(fetched, newest_build_first())[i]).date,
            ),
{
    let list = sort::sorted(fetched, newest_build_first());
    sort::law_sorted_is_permutation(fetched, newest_build_first());
    assert(sort::total_preorder(newest_build_first()));
    sort::law_sorted_ascends(fetched, newest_build_first());
    assert forall|i: int, j: int| 0 <= i <= j < fetched.len() implies date::date_le(
        (#[trigger] list[j]).date,
        (#[trigger] list[i]).date,
    ) by {
        assert(newest_build_first()(list[i], list[j]));
    }
}

/// A list of tags has thirty entries at most. Each is a channel or a dated tag,
/// shown as it is, or a commit hash, shown by the day of its build.
pub proof fn law_list_of_tags(
    channels: Seq<Seq<char>>,
    dated: Seq<Dated>,
    probed: Seq<Dated>,
    i: int,
)
    ensures
        tag_list(channels, dated, probed).len() <= 30,
        0 <= i < tag_list(channels, dated, probed).len() ==> {
            let e = tag_list(channels, dated, probed)[i];
            ||| e.0 == e.1 && (channels.contains(e.1) || exists|d: Dated|
                dated.contains(d) && d.1 == e.1)
            ||| exists|d: Dated| #[trigger]
                probed.contains(d) && d.1 == e.1 && e.0 == "Build "@ + date::dashed_text(d.0)
        },
{
    let cs = sort::sorted(channels, text::lex());
    let ds = sort::sorted(dated, newest_first());
    let ps = sort::sorted(probed, newest_first());
    sort::law_sorted_is_permutation(channels, text::lex());
    sort::law_sorted_is_permutation(dated, newest_first());
    sort::law_sorted_is_permutation(probed, newest_first());
    if 0 <= i < tag_list(channels, dated, probed).len() {
        if i < cs.len() {
            assert(cs.contains(cs[i]));
        } else if i < cs.len() + ds.len() {
            let d = ds[i - cs.len()];
            assert(ds.contains(d));
            assert(dated.contains(d));
        } else {
            let d = ps[i - cs.len() - ds.len()];
            assert(ps.contains(d));
            assert(probed.contains(d));
        }
    }
}

proof fn lemma_channels(all: Seq<Seq<char>>, stream: Seq<char>, tag: Seq<char>)
    ensures
        channels_of(all, stream).contains(tag) <==> all.contains(tag) && is_channel(tag, stream),
    decreases all.len(),
{
    if all.len() > 0 {
        let front = all.drop_last();
        lemma_channels(front, stream, tag);
        lemma_last_or_before(all, tag);
        if is_channel(all.last(), stream) {
            lemma_push_holds(channels_of(front, stream), all.last(), tag);
        }
    }
}

proof fn lemma_last_or_before<T>(all: Seq<T>, x: T)
    requires
        all.len() > 0,
    ensures
        all.contains(x) <==> all.drop_last().contains(x) || all.last() == x,
{
    let front = all.drop_last();
    assert(all =~= front.push(all.last()));
    lemma_push_holds(front, all.last(), x);
}

proof fn lemma_push_holds<T>(s: Seq<T>, y: T, x: T)
    ensures
        s.push(y).contains(x) <==> s.contains(x) || x == y,
{
    let t = s.push(y);
    if s.contains(x) {
        let k = choose|k: int| 0 <= k < s.len() && s[k] == x;
        assert(t[k] == x);
    }
    if x == y {
        assert(t[s.len() as int] == x);
    }
    if t.contains(x) && x != y {
        let k = choose|k: int| 0 <= k < t.len() && t[k] == x;
        assert(s[k] == x);
    }
}

proof fn lemma_listed_dates(all: Seq<Seq<char>>, stream: Seq<char>, x: Dated)
    ensures
        listed_dates(all, stream).contains(x) <==> all.contains(x.1) && is_dated_tag(x.1, stream)
            && tags::dated_tag(x.1, stream) == Some(x.0),
    decreases all.len(),
{
    if all.len() > 0 {
        let front = all.drop_last();
        lemma_listed_dates(front, stream, x);
        lemma_last_or_before(all, x.1);
        if is_dated_tag(all.last(), stream) {
            let y = (tags::dated_tag(all.last(), stream).unwrap(), all.last());
            lemma_push_holds(listed_dates(front, stream), y, x);
        }
    }
}

proof fn lemma_listed_hashes(all: Seq<Seq<char>>, tag: Seq<char>)
    ensures
        listed_hashes(all).contains(tag) <==> all.contains(tag) && !text::begins_with(
            tag,
            "sha256:"@,
        ) && tags::is_sha(tag),
    decreases all.len(),
{
    if all.len() > 0 {
        let front = all.drop_last();
        lemma_listed_hashes(front, tag);
        lemma_last_or_before(all, tag);
        if !text::begins_with(all.last(), "sha256:"@) && tags::is_sha(all.last()) {
            lemma_push_holds(listed_hashes(front), all.last(), tag);
        }
    }
}

/// The tag begins like a digest.
pub open spec fn looks_like_digest(tag: Seq<char>) -> bool {
    tag.len() >= 7 && tag.take(7) == seq!['s', 'h', 'a', '2', '5', '6', ':']
}

proof fn lemma_digest(tag: Seq<char>)
    ensures
        text::begins_with(tag, "sha256:"@) <==> looks_like_digest(tag),
{
    reveal_strlit("sha256:");
    assert("sha256:"@ =~= seq!['s', 'h', 'a', '2', '5', '6', ':']);
}

/// The channels are exactly the listed tags that do not look like a digest, are
/// no commit hash and carry no date; the tag of the stream itself is no
/// exception. What ends in no digit carries no date.
pub proof fn law_channels_are_complete(all: Seq<Seq<char>>, stream: Seq<char>, tag: Seq<char>)
    ensures
        channels_of(all, stream).contains(tag) <==> all.contains(tag) && !looks_like_digest(tag)
            && !tags::is_sha(tag) && tags::dated_tag(tag, stream) is None && tags::stream_of(
            tag,
        ) is None,
        all.contains(tag) && !looks_like_digest(tag) && !tags::is_sha(tag) && tag.len() > 0 && !(
        '0' <= tag.last() <= '9') ==> channels_of(all, stream).contains(tag),
{
    lemma_channels(all, stream, tag);
    lemma_digest(tag);
    if tag.len() > 0 && !('0' <= tag.last() <= '9') {
        tags::law_no_digit_no_date(tag, stream);
    }
}

/// The dated tags are exactly the listed tags that carry a date for the stream,
/// each with that date, and the hashes exactly the listed commit hashes.
pub proof fn law_dated_tags_and_hashes_are_complete(
    all: Seq<Seq<char>>,
    stream: Seq<char>,
    d: Date,
    tag: Seq<char>,
)
    ensures
        listed_dates(all, stream).contains((d, tag)) <==> all.contains(tag) && tags::dated_tag(
            tag,
            stream,
        ) == Some(d) && !looks_like_digest(tag) && !tags::is_sha(tag),
        listed_hashes(all).contains(tag) <==> all.contains(tag) && tags::is_sha(tag),
{
    lemma_listed_dates(all, stream, (d, tag));
    lemma_listed_hashes(all, tag);
    lemma_digest(tag);
    if tags::is_sha(tag) && looks_like_digest(tag) {
        assert(tag.take(7)[0] == tag[0]);
        assert(text::is_lower_hex(tag[0]));
    }
}

/// Every channel, every dated tag of the stream and every commit hash whose date
/// is known stands in the list of tags, unless its thirty entries are full:
/// channels and dated tags as they are, commit hashes by the day of their build.
pub proof fn law_list_of_tags_is_complete(
    all: Seq<Seq<char>>,
    stream: Seq<char>,
    probed: Seq<Dated>,
    tag: Seq<char>,
    d: Date,
)
    ensures
        ({
            let list = tag_list(channels_of(all, stream), listed_dates(all, stream), probed);
            &&& list.len() <= 30
            &&& list.len() < 30 && all.contains(tag) && !looks_like_digest(tag) && !tags::is_sha(
                tag,
            ) && tags::dated_tag(tag, stream) is None && tags::stream_of(tag) is None
                ==> list.contains((tag, tag))
            &&& list.len() < 30 && all.contains(tag) && !looks_like_digest(tag) && !tags::is_sha(
                tag,
            ) && tags::dated_tag(tag, stream) is Some ==> list.contains((tag, tag))
            &&& list.len() < 30 && probed.contains((d, tag)) ==> list.contains(
                ("Build "@ + date::dashed_text(d), tag),
            )
        }),
{
    let channels = channels_of(all, stream);
    let dated = listed_dates(all, stream);
    let cs = sort::sorted(channels, text::lex());
    let ds = sort::sorted(dated, newest_first());
    let ps = sort::sorted(probed, newest_first());
    sort::law_sorted_is_permutation(channels, text::lex());
    sort::law_sorted_is_permutation(dated, newest_first());
    sort::law_sorted_is_permutation(probed, newest_first());
    let list = tag_list(channels, dated, probed);
    lemma_channels(all, stream, tag);
    lemma_digest(tag);
    if list.len() < 30 {
        if channels.contains(tag) {
            assert(cs.contains(tag));
            let k = choose|k: int| 0 <= k < cs.len() && cs[k] == tag;
            assert(list[k] == (tag, tag));
        }
        if let Some(day) = tags::dated_tag(tag, stream) {
            lemma_listed_dates(all, stream, (day, tag));
            if dated.contains((day, tag)) {
                assert(ds.contains((day, tag)));
                let k = choose|k: int| 0 <= k < ds.len() && ds[k] == (day, tag);
                assert(list[cs.len() + k] == (tag, tag));
            }
        }
        if probed.contains((d, tag)) {
            assert(ps.contains((d, tag)));
            let k = choose|k: int| 0 <= k < ps.len() && ps[k] == (d, tag);
            assert(list[cs.len() + ds.len() + k] == ("Build "@ + date::dashed_text(d), tag));
        }
    }
}

/// The list of tags shows the channels first, in dictionary order; then the dated
/// tags and then the commit hashes, both the newest first. It is cut only where
/// there are more than thirty of them.
pub proof fn law_order_of_the_list(
    channels: Seq<Seq<char>>,
    dated: Seq<Dated>,
    probed: Seq<Dated>,
    i: int,
    j: int,
)
    requires
        0 <= i < j < tag_list(channels, dated, probed).len(),
    ensures
        ({
            let list = tag_list(channels, dated, probed);
            let n = channels.len();
            let m = channels.len() + dated.len();
            &&& j < n ==> channels.contains(list[i].1) && text::lex_le(list[i].1, list[j].1)
            &&& n <= i && j < m ==> exists|a: Date, b: Date|
                dated.contains((a, list[i].1)) && #[trigger] dated.contains((b, list[j].1))
                    && #[trigger] date::date_le(b, a)
            &&& m <= i ==> exists|a: Date, b: Date|
                probed.contains((a, list[i].1)) && #[trigger] probed.contains((b, list[j].1))
                    && #[trigger] date::date_le(b, a)
            &&& list.len() == (if m + probed.len() < 30 {
                (m + probed.len()) as int
            } else {
                30
            })
        }),
{
    let list = tag_list(channels, dated, probed);
    let cs = sort::sorted(channels, text::lex());
    let ds = sort::sorted(dated, newest_first());
    let ps = sort::sorted(probed, newest_first());
    sort::law_sorted_is_permutation(channels, text::lex());
    sort::law_sorted_is_permutation(dated, newest_first());
    sort::law_sorted_is_permutation(probed, newest_first());
    text::lemma_lex_preorder();
    lemma_newest_preorder();
    sort::law_sorted_ascends(channels, text::lex());
    sort::law_sorted_ascends(dated, newest_first());
    sort::law_sorted_ascends(probed, newest_first());
    let n = channels.len() as int;
    let m = (channels.len() + dated.len()) as int;
    if j < n {
        assert(cs.contains(cs[i]));
        assert(text::lex()(cs[i], cs[j]));
    }
    if n <= i && j < m {
        let a = ds[i - n];
        let b = ds[j - n];
        assert(ds.contains(a) && ds.contains(b));
        assert(newest_first()(a, b));
        assert(dated.contains((a.0, list[i].1)) && dated.contains((b.0, list[j].1)));
        assert(date::date_le(b.0, a.0));
    }
    if m <= i {
        let a = ps[i - m];
        let b = ps[j - m];
        assert(ps.contains(a) && ps.contains(b));
        assert(newest_first()(a, b));
        assert(probed.contains((a.0, list[i].1)) && probed.contains((b.0, list[j].1)));
        assert(date::date_le(b.0, a.0));
    }
}

proof fn lemma_dated_of_is(all: Seq<Seq<char>>, stream: Seq<char>, x: Dated)
    ensures
        dated_of(all, stream).contains(x) <==> all.contains(x.1) && tags::dated_tag(x.1, stream)
            == Some(x.0),
    decreases all.len(),
{
    if all.len() > 0 {
        let front = all.drop_last();
        lemma_dated_of_is(front, stream, x);
        lemma_last_or_before(all, x.1);
        match tags::dated_tag(all.last(), stream) {
            Some(d) => {
                lemma_push_holds(dated_of(front, stream), (d, all.last()), x);
            },
            None => {},
        }
    }
}

/// A build that is offered is a listed tag with the date that it carries for the
/// stream, one that was asked for its date, or the floating tag of the stream
/// with the date that it told.
pub proof fn law_offered_builds_are_published(
    all: Seq<Seq<char>>,
    stream: Seq<char>,
    max: nat,
    probed: Seq<Dated>,
    floating: Option<Date>,
    x: Dated,
)
    requires
        offered(all, stream, max, probed, floating).contains(x),
    ensures
        (all.contains(x.1) && tags::dated_tag(x.1, stream) == Some(x.0)) || probed.contains(x) || (
        x.1 == stream && all.contains(stream) && floating == Some(x.0)),
{
    let m = merged(all, stream, probed, floating);
    let list = offered(all, stream, max, probed, floating);
    let k = choose|k: int| 0 <= k < list.len() && list[k] == x;
    assert(m[k] == x);
    assert(m.contains(x));
    let first = sort::sorted(dated_of(all, stream), newest_first());
    let both = first + probed;
    let named = sort::sorted(both, newest_first());
    sort::law_sorted_is_permutation(dated_of(all, stream), newest_first());
    sort::law_sorted_is_permutation(both, newest_first());
    lemma_dated_of_is(all, stream, x);
    if let Some(d) = floating {
        sort::law_sorted_is_permutation(named.push((d, stream)), newest_first());
        lemma_push_holds(named, (d, stream), x);
    }
    if named.contains(x) {
        assert(both.contains(x));
        let j = choose|j: int| 0 <= j < both.len() && both[j] == x;
        if j < first.len() {
            assert(first.contains(first[j]));
        } else {
            assert(probed[j - first.len()] == x);
        }
    }
}

/// Every listed tag that carries a date for the stream is offered, unless the
/// list is full of builds that are not older.
pub proof fn law_dated_builds_are_offered(
    all: Seq<Seq<char>>,
    stream: Seq<char>,
    max: nat,
    probed: Seq<Dated>,
    floating: Option<Date>,
    k: int,
)
    requires
        0 <= k < all.len(),
        tags::dated_tag(all[k], stream) is Some,
    ensures
        ({
            let d = tags::dated_tag(all[k], stream).unwrap();
            let list = offered(all, stream, max, probed, floating);
            list.contains((d, all[k])) || (list.len() == max && forall|i: int|
                0 <= i < list.len() ==> date::date_le(d, (#[trigger] list[i]).0))
        }),
{
    let x = (tags::dated_tag(all[k], stream).unwrap(), all[k]);
    assert(all.contains(all[k]));
    lemma_dated_of_is(all, stream, x);
    law_offered_are_the_most_recent(all, stream, max, probed, floating, x);
}

proof fn lemma_hashes(all: Seq<Seq<char>>, tag: Seq<char>)
    ensures
        hashes_of(all).contains(tag) <==> all.contains(tag) && tags::is_sha(tag),
    decreases all.len(),
{
    if all.len() > 0 {
        let front = all.drop_last();
        lemma_hashes(front, tag);
        lemma_last_or_before(all, tag);
        if tags::is_sha(all.last()) {
            lemma_push_holds(hashes_of(front), all.last(), tag);
        }
    }
}

/// The hashes that are asked for their date are listed commit hashes. All of them
/// are asked where there are not more than asked for, or than a hundred and
/// twenty; else as many as that, over the whole of the list.
pub proof fn law_hashes_that_are_asked(all: Seq<Seq<char>>, max: nat, tag: Seq<char>, i: int)
    ensures
        ({
            let hs = hashes_of(all);
            let asked = spread(hs, probe_cap(max));
            &&& asked.contains(tag) ==> all.contains(tag) && tags::is_sha(tag)
            &&& hs.len() <= max || hs.len() <= 120 ==> (asked.contains(tag) <==> all.contains(tag)
                && tags::is_sha(tag))
            &&& hs.len() > max && hs.len() > 120 ==> asked.len() >= max && asked.len() >= 120 && (
            asked.len() == max || asked.len() == 120)
            &&& 0 < i < asked.len() ==> exists|a: int, b: int|
                0 <= a < b < hs.len() && asked[i - 1] == hs[a] && asked[i] == hs[b]
        }),
{
    let hs = hashes_of(all);
    let cap = probe_cap(max);
    let asked = spread(hs, cap);
    lemma_hashes(all, tag);
    if asked.contains(tag) && hs.len() > cap {
        let k = choose|k: int| 0 <= k < asked.len() && asked[k] == tag;
        lemma_stride(hs.len() as int, cap as int, k);
        let stride = hs.len() as int / cap as int;
        assert(0 <= k * stride) by (nonlinear_arith)
            requires
                k >= 0,
                stride >= 1,
        ;
        assert(hs[k * stride] == tag);
        assert(hs.contains(tag));
    }
    if 0 < i < asked.len() {
        if hs.len() > cap {
            lemma_stride(hs.len() as int, cap as int, i);
            lemma_stride(hs.len() as int, cap as int, i - 1);
            let stride = hs.len() as int / cap as int;
            assert(0 <= (i - 1) * stride < i * stride) by (nonlinear_arith)
                requires
                    i >= 1,
                    stride >= 1,
            ;
            assert(asked[i - 1] == hs[(i - 1) * stride] && asked[i] == hs[i * stride]);
        } else {
            assert(asked[i - 1] == hs[i - 1] && asked[i] == hs[i]);
        }
    }
}

/// What is offered is fetched; where nothing is, though something is asked for, the
/// tag `latest` is, and only where there is none there is nothing to fetch.
pub proof fn law_plans(r: VersionPlan, list: Seq<Dated>, max: nat, has_latest: bool)
    requires
        fits(r, list, max, has_latest),
    ensures
        list.len() > 0 ==> (r matches VersionPlan::Fetch(v) && dated_views(v@) == list),
        list.len() == 0 && max > 0 && has_latest ==> r is LatestOnly,
        list.len() == 0 && max > 0 && !has_latest ==> r is NoTags,
        list.len() == 0 && max == 0 ==> (r matches VersionPlan::Fetch(v) && v@.len() == 0),
{
    if let VersionPlan::Fetch(v) = r {
        assert(dated_views(v@).len() == v@.len());
    }
}

/// The one build under `latest` is the answer, and that there is none is told with
/// the stream; for the list of tags every hash is asked, up to five hundred.
pub proof fn law_answers(
    r: Result<Vec<ImageVersion>, RegistryError>,
    fetched: Option<ImageVersion>,
    stream: Seq<char>,
    hashes: Seq<Seq<char>>,
)
    requires
        answers_latest(r, fetched, stream),
    ensures
        fetched matches Some(v) ==> (r matches Ok(list) && list@.len() == 1 && list@[0] == v),
        fetched is None ==> (r matches Err(RegistryError::NoTags(s)) && s@ == stream),
        hashes.len() <= 500 ==> asked_hashes(hashes) == hashes,
        hashes.len() > 500 ==> asked_hashes(hashes).len() == 500 && asked_hashes(hashes)
            == hashes.take(500),
{
}

/// The floating tag is not offered where some build is as new: then the same is
/// offered as without it. And it is not where it is not listed.
pub proof fn law_floating_tag_is_offered_only_where_newest(
    all: Seq<Seq<char>>,
    stream: Seq<char>,
    max: nat,
    probed: Seq<Dated>,
    d: Date,
    x: Dated,
)
    requires
        (((all.contains(x.1) && tags::dated_tag(x.1, stream) == Some(x.0)) || probed.contains(x))
            && date::date_le(d, x.0)) || !all.contains(stream),
    ensures
        offered(all, stream, max, probed, Some(d)) == offered(all, stream, max, probed, None),
{
    let named = merged(all, stream, probed, None);
    if all.contains(stream) {
        lemma_dated_of_is(all, stream, x);
        lemma_merged_holds_dated(all, stream, probed, None, x);
        let k = choose|k: int| 0 <= k < named.len() && named[k] == x;
        assert(date::date_le(d, named[k].0));
    }
}

/// Nothing is offered where nothing is asked for, and what is offered are as many
/// as there are, or as are asked for.
pub proof fn law_how_many_are_offered(
    all: Seq<Seq<char>>,
    stream: Seq<char>,
    max: nat,
    probed: Seq<Dated>,
)
    ensures
        ({
            let there_are = dated_of(all, stream).len() + probed.len();
            offered(all, stream, max, probed, None).len() == (if there_are < max {
                there_are as int
            } else {
                max as int
            })
        }),
{
    let first = sort::sorted(dated_of(all, stream), newest_first());
    sort::law_sorted_is_permutation(dated_of(all, stream), newest_first());
    sort::law_sorted_is_permutation(first + probed, newest_first());
    vstd::seq_lib::to_multiset_len(dated_of(all, stream));
    vstd::seq_lib::to_multiset_len(first);
    vstd::seq_lib::to_multiset_len(first + probed);
    vstd::seq_lib::to_multiset_len(sort::sorted(first + probed, newest_first()));
}

/// What is told of an entry is first what is shown and then the tag; of a dated tag
/// first the day and then the tag.
pub proof fn law_entries_hold_what_is_told(
    v: Seq<AvailableTag>,
    d: Seq<(Date, String)>,
    k: int,
)
    ensures
        entries(v).len() == v.len() && dated_views(d).len() == d.len(),
        0 <= k < v.len() ==> entries(v)[k] == (v[k].display@, v[k].raw@),
        0 <= k < d.len() ==> dated_views(d)[k] == (d[k].0, d[k].1@),
{
}

} // verus!
