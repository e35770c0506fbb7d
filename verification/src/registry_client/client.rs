//! The image stream that a registry is asked about, and the addresses at which
//! it is asked.

use vstd::prelude::*;
use crate::text;
use super::tags;

verus! {

/// One image stream in a registry.
#[derive(Debug)]
pub struct RegistryClient {
    registry: String,
    org: String,
    image: String,
    /// What stands in a tag before the date, e.g. `stable-daily-43`.
    stream: String,
}

/// An image stream, taken by its characters.
pub struct StreamModel {
    pub registry: Seq<char>,
    pub org: Seq<char>,
    pub image: Seq<char>,
    pub stream: Seq<char>,
}

impl View for RegistryClient {
    type V = StreamModel;

    closed spec fn view(&self) -> StreamModel {
        StreamModel {
            registry: self.registry@,
            org: self.org@,
            image: self.image@,
            stream: self.stream@,
        }
    }
}

/// A client that may be missing, taken by its view.
pub open spec fn opt_stream(c: Option<RegistryClient>) -> Option<StreamModel> {
    match c {
        Some(x) => Some(x@),
        None => None,
    }
}

impl RegistryClient {
    /// A client for the given image stream. `stream` is everything in a tag
    /// before the date, e.g. `stable-daily-43`.
    pub fn new(registry: &str, org: &str, image: &str, stream: &str) -> (r: Self)
        ensures
            r@ == (StreamModel {
                registry: registry@,
                org: org@,
                image: image@,
                stream: stream@,
            }),
    {
        RegistryClient {
            registry: registry.to_owned(),
            org: org.to_owned(),
            image: image.to_owned(),
            stream: stream.to_owned(),
        }
    }

    pub fn registry(&self) -> (r: &str)
        ensures
            r@ == self@.registry,
    {
        self.registry.as_str()
    }

    pub fn org(&self) -> (r: &str)
        ensures
            r@ == self@.org,
    {
        self.org.as_str()
    }

    pub fn image(&self) -> (r: &str)
        ensures
            r@ == self@.image,
    {
        self.image.as_str()
    }

    pub fn stream(&self) -> (r: &str)
        ensures
            r@ == self@.stream,
    {
        self.stream.as_str()
    }

    /// Where the list of tags is.
    pub fn tags_url(&self) -> (r: String)
        ensures
            r@ == tags_address(self@),
    {
        let mut url = self.repository();
        url.append("/tags/list?n=1000");
        url
    }

    /// Where the manifest of `tag` is.
    pub fn manifest_url(&self, tag: &str) -> (r: String)
        ensures
            r@ == manifest_address(self@, tag@),
    {
        let mut url = self.repository();
        url.append("/manifests/");
        url.append(tag);
        url
    }

    /// Where the blob `digest` is.
    pub fn blob_url(&self, digest: &str) -> (r: String)
        ensures
            r@ == blob_address(self@, digest@),
    {
        let mut url = self.repository();
        url.append("/blobs/");
        url.append(digest);
        url
    }

    /// Where a token that allows pulling is handed out.
    pub fn token_url(&self) -> (r: String)
        ensures
            r@ == token_address(self@),
    {
        let mut url = "https://".to_owned();
        url.append(self.registry.as_str());
        url.append("/token?scope=repository:");
        url.append(self.org.as_str());
        url.append("/");
        url.append(self.image.as_str());
        url.append(":pull&service=");
        url.append(self.registry.as_str());
        url
    }

    /// The full image reference of `tag`, as `bootc switch` takes it.
    pub fn full_ref(&self, tag: &str) -> (r: String)
        ensures
            r@ == full_reference(self@, tag@),
    {
        let mut out = self.registry.clone();
        out.append("/");
        out.append(self.org.as_str());
        out.append("/");
        out.append(self.image.as_str());
        out.append(":");
        out.append(tag);
        out
    }

    fn repository(&self) -> (r: String)
        ensures
            r@ == repository_url(self@),
    {
        let mut url = "https://".to_owned();
        url.append(self.registry.as_str());
        url.append("/v2/");
        url.append(self.org.as_str());
        url.append("/");
        url.append(self.image.as_str());
        url
    }
}

/// Where the registry keeps what it has of an image.
pub open spec fn repository_url(c: StreamModel) -> Seq<char> {
    "https://"@ + c.registry + "/v2/"@ + c.org + "/"@ + c.image
}

/// Where the manifest of `tag` is.
pub open spec fn manifest_address(c: StreamModel, tag: Seq<char>) -> Seq<char> {
    repository_url(c) + "/manifests/"@ + tag
}

/// Where the list of tags is.
pub open spec fn tags_address(c: StreamModel) -> Seq<char> {
    repository_url(c) + "/tags/list?n=1000"@
}

/// Where the blob `digest` is.
pub open spec fn blob_address(c: StreamModel, digest: Seq<char>) -> Seq<char> {
    repository_url(c) + "/blobs/"@ + digest
}

/// Where a token that allows pulling is handed out.
pub open spec fn token_address(c: StreamModel) -> Seq<char> {
    "https://"@ + c.registry + "/token?scope=repository:"@ + c.org + "/"@ + c.image
        + ":pull&service="@ + c.registry
}

/// The full image reference of `tag`.
pub open spec fn full_reference(c: StreamModel, tag: Seq<char>) -> Seq<char> {
    c.registry + "/"@ + c.org + "/"@ + c.image + ":"@ + tag
}

// ---------------------------------------------------------------------------
// Image references

/// Registry, organisation and image, told apart by the first two slashes.
pub open spec fn three_parts(s: Seq<char>) -> Option<(Seq<char>, Seq<char>, Seq<char>)> {
    match text::halves(s, "/"@) {
        Some(h) => match text::halves(h.1, "/"@) {
            Some(t) => Some((h.0, t.0, t.1)),
            None => None,
        },
        None => None,
    }
}

fn split_three<'a>(s: &'a str) -> (r: Option<(&'a str, &'a str, &'a str)>)
    ensures
        match r {
            Some(p) => three_parts(s@) == Some((p.0@, p.1@, p.2@)),
            None => three_parts(s@) is None,
        },
{
    match text::split_once(s, "/") {
        Some((first, tail)) => match text::split_once(tail, "/") {
            Some((second, third)) => Some((first, second, third)),
            None => None,
        },
        None => None,
    }
}

/// The stream that a tag belongs to: the tag itself where it has no date.
pub open spec fn stream_or_tag(tag: Seq<char>) -> Seq<char> {
    match tags::stream_of(tag) {
        Some(s) => s,
        None => tag,
    }
}

pub fn stream_for_tag(tag: &str) -> (r: String)
    ensures
        r@ == stream_or_tag(tag@),
{
    match tags::strip_date_suffix(tag) {
        Some(s) => s,
        None => tag.to_owned(),
    }
}

/// The image stream that a reference names. The tag stands behind the last
/// colon; it must carry a date unless `undated` allows one that does not.
pub open spec fn referenced(image_ref: Seq<char>, undated: bool) -> Option<StreamModel> {
    match text::rhalves(image_ref, ":"@) {
        Some(h) => match three_parts(h.0) {
            Some(p) => if undated || tags::stream_of(h.1) is Some {
                Some(
                    StreamModel {
                        registry: p.0,
                        org: p.1,
                        image: p.2,
                        stream: stream_or_tag(h.1),
                    },
                )
            } else {
                None
            },
            None => None,
        },
        None => None,
    }
}

/// Parse a full reference like `ghcr.io/ublue-os/bluefin:stable-daily-43.20260222`
/// into the image stream that it belongs to. The tag must carry a date.
pub fn parse_image_ref(image_ref: &str) -> (r: Option<RegistryClient>)
    ensures
        opt_stream(r) == referenced(image_ref@, false),
{
    match text::rsplit_once(image_ref, ":") {
        Some((name, tag)) => match split_three(name) {
            Some((registry, org, image)) => match tags::strip_date_suffix(tag) {
                Some(stream) => Some(RegistryClient::new(registry, org, image, stream.as_str())),
                None => None,
            },
            None => None,
        },
        None => None,
    }
}

/// Parse a full reference whose tag may be any: one without a date is itself
/// the stream.
pub fn parse_override(image_ref: &str) -> (r: Option<RegistryClient>)
    ensures
        opt_stream(r) == referenced(image_ref@, true),
{
    match text::rsplit_once(image_ref, ":") {
        Some((name, tag)) => match split_three(name) {
            Some((registry, org, image)) => {
                let stream = stream_for_tag(tag);
                Some(RegistryClient::new(registry, org, image, stream.as_str()))
            },
            None => None,
        },
        None => None,
    }
}

// ---------------------------------------------------------------------------
// The cache of answers

/// The name of a cache record. It changes when what is kept under it changes
/// its meaning.
pub open spec fn cache_name(c: StreamModel, suffix: Seq<char>) -> Seq<char> {
    text::replaced(
        text::replaced(
            "v4_"@ + c.registry + "_"@ + c.org + "_"@ + c.image + "_"@ + c.stream + "_"@ + suffix,
            '/',
            '_',
        ),
        ':',
        '_',
    )
}

/// The file name under which an answer of the registry is kept.
pub fn cache_key(registry: &str, org: &str, image: &str, stream: &str, suffix: &str) -> (r: String)
    ensures
        r@ == cache_name(
            StreamModel { registry: registry@, org: org@, image: image@, stream: stream@ },
            suffix@,
        ),
{
    let mut key = "v4_".to_owned();
    key.append(registry);
    key.append("_");
    key.append(org);
    key.append("_");
    key.append(image);
    key.append("_");
    key.append(stream);
    key.append("_");
    key.append(suffix);
    let flat = text::replace(key.as_str(), '/', '_');
    text::replace(flat.as_str(), ':', '_')
}

/// For how many seconds a cached answer is taken for current.
pub const CACHE_SECONDS: u64 = 3600;

/// Whether an answer that was kept at `timestamp` is still taken at `now`.
pub open spec fn still_current(now: int, timestamp: int) -> bool {
    timestamp <= now < timestamp + 3600
}

/// Whether an answer that was kept at `timestamp` is still taken at `now`: not
/// one from the future, and none that is an hour old.
pub fn is_fresh(now: u64, timestamp: u64) -> (r: bool)
    ensures
        r == still_current(now as int, timestamp as int),
{
    now >= timestamp && now - timestamp < CACHE_SECONDS
}

/// The name of a cache record is one file name: it holds neither a slash nor a
/// colon, whatever the image stream is called.
pub proof fn law_cache_name_is_flat(c: StreamModel, suffix: Seq<char>)
    ensures
        !cache_name(c, suffix).contains('/'),
        !cache_name(c, suffix).contains(':'),
{
}

/// A reference that is put together from a stream and a date is read back as
/// that stream.
pub proof fn law_reference_round_trip(c: StreamModel, digits: Seq<char>)
    requires
        !c.registry.contains('/'),
        !c.org.contains('/'),
        tags::is_date_shaped(digits),
        !c.stream.contains(':'),
    ensures
        referenced(full_reference(c, c.stream + "."@ + digits), false) == Some(c),
{
    let tag = c.stream + "."@ + digits;
    reveal_strlit("/");
    reveal_strlit(":");
    reveal_strlit(".");
    assert("/"@ =~= seq!['/']);
    assert(":"@ =~= seq![':']);
    assert("."@ =~= seq!['.']);
    let tail = c.org + "/"@ + c.image;
    let name = c.registry + "/"@ + tail;
    assert(full_reference(c, tag) =~= name + ":"@ + tag);
    assert(!tag.contains(':')) by {
        if tag.contains(':') {
            let k = choose|k: int| 0 <= k < tag.len() && tag[k] == ':';
            if k < c.stream.len() {
                assert(c.stream[k] == ':');
            } else if k > c.stream.len() {
                assert(text::is_digit(digits[k - c.stream.len() - 1]));
            }
        }
    }
    tags::lemma_rhalves(name, ':', tag, ":"@);
    tags::law_dotted_tag(c.stream, digits);
    lemma_halves(c.registry, '/', tail, "/"@);
    lemma_halves(c.org, '/', c.image, "/"@);
}

/// The first occurrence of a one-character pattern, behind what does not hold
/// it.
proof fn lemma_halves(head: Seq<char>, c: char, tail: Seq<char>, pat: Seq<char>)
    requires
        pat == seq![c],
        !head.contains(c),
    ensures
        text::halves(head + pat + tail, pat) == Some((head, tail)),
{
    let s = head + pat + tail;
    let i = head.len() as int;
    assert(s.subrange(i, i + 1) =~= pat);
    assert forall|j: int| 0 <= j < i implies !#[trigger] text::occurs_at(s, pat, j) by {
        if text::occurs_at(s, pat, j) {
            assert(s.subrange(j, j + 1)[0] == c);
            assert(head[j] == c);
        }
    }
    text::lemma_first_unique(s, pat, i);
    assert(s.take(i) =~= head);
    assert(s.skip(i + 1) =~= tail);
}

/// An answer is taken from the moment at which it is kept for an hour, and then
/// not any more; one from the future is not taken.
pub proof fn law_answers_last_an_hour(kept: int, passed: int)
    ensures
        0 <= passed < 60 * 60 ==> still_current(kept + passed, kept),
        passed >= 60 * 60 ==> !still_current(kept + passed, kept),
        passed < 0 ==> !still_current(kept + passed, kept),
{
}

/// A reference with a tag that carries no date is read where that is allowed, and
/// then the tag itself is the stream; where it is not allowed, it is not read.
pub proof fn law_undated_references(c: StreamModel, tag: Seq<char>)
    requires
        !c.registry.contains('/'),
        !c.org.contains('/'),
        !tag.contains(':'),
    ensures
        tags::stream_of(tag) is None ==> referenced(full_reference(c, tag), true) == Some(
            StreamModel { stream: tag, ..c },
        ),
        tags::stream_of(tag) is None ==> referenced(full_reference(c, tag), false) is None,
        tags::stream_of(tag) matches Some(s) ==> referenced(full_reference(c, tag), false) == Some(
            StreamModel { stream: s, ..c },
        ) && referenced(full_reference(c, tag), true) == referenced(
            full_reference(c, tag),
            false,
        ),
{
    reveal_strlit("/");
    reveal_strlit(":");
    let tail = c.org + "/"@ + c.image;
    let name = c.registry + "/"@ + tail;
    assert(full_reference(c, tag) =~= name + ":"@ + tag);
    text::law_last_half(name, ':', tag, ":"@);
    text::law_first_half(c.registry, '/', tail, "/"@);
    text::law_first_half(c.org, '/', c.image, "/"@);
}

/// What has no colon, or not two slashes before its last colon, is no reference.
pub proof fn law_what_is_no_reference(s: Seq<char>, a: Seq<char>, tag: Seq<char>, undated: bool)
    requires
        !tag.contains(':'),
    ensures
        !s.contains(':') ==> referenced(s, undated) is None,
        !a.contains('/') ==> referenced(a + ":"@ + tag, undated) is None,
{
    reveal_strlit("/");
    reveal_strlit(":");
    if text::occurs(s, ":"@) {
        let i = choose|i: int| text::occurs_at(s, ":"@, i);
        assert(s.subrange(i, i + 1)[0] == ':');
        assert(s[i] == ':');
    }
    text::law_last_half(a, ':', tag, ":"@);
    if text::occurs(a, "/"@) {
        let i = choose|i: int| text::occurs_at(a, "/"@, i);
        assert(a.subrange(i, i + 1)[0] == '/');
        assert(a[i] == '/');
    }
}

/// Everything of an image is found below its repository: the tags, the manifests
/// by their tag, and the blobs by their digest, over a secure connection to its
/// own registry.
pub proof fn law_addresses(c: StreamModel, tag: Seq<char>, digest: Seq<char>)
    ensures
        ({
            let home = "https://"@ + c.registry + "/v2/"@ + c.org + "/"@ + c.image;
            &&& text::begins_with(tags_address(c), home + "/tags/list"@)
            &&& manifest_address(c, tag) == home + "/manifests/"@ + tag
            &&& blob_address(c, digest) == home + "/blobs/"@ + digest
            &&& text::begins_with(token_address(c), "https://"@ + c.registry + "/token?"@)
            &&& text::occurs(token_address(c), "repository:"@ + c.org + "/"@ + c.image + ":pull"@)
            &&& text::ends_in(token_address(c), "service="@ + c.registry)
            &&& full_reference(c, tag) == c.registry + "/"@ + c.org + "/"@ + c.image + ":"@ + tag
        }),
{
    let home = "https://"@ + c.registry + "/v2/"@ + c.org + "/"@ + c.image;
    let start = home + "/tags/list"@;
    reveal_strlit("/tags/list");
    reveal_strlit("/tags/list?n=1000");
    let t = tags_address(c);
    assert("/tags/list?n=1000"@.take(10) =~= "/tags/list"@);
    assert(t.subrange(0, start.len() as int) =~= start);
    reveal_strlit("/token?");
    reveal_strlit("/token?scope=repository:");
    reveal_strlit("repository:");
    reveal_strlit(":pull");
    reveal_strlit(":pull&service=");
    reveal_strlit("service=");
    let k = token_address(c);
    let first = "https://"@ + c.registry;
    assert("/token?scope=repository:"@ =~= "/token?"@ + seq!['s', 'c', 'o', 'p', 'e', '=']
        + "repository:"@);
    assert(":pull&service="@ =~= ":pull"@ + seq!['&'] + "service="@);
    assert(k.subrange(0, (first + "/token?"@).len() as int) =~= first + "/token?"@);
    let scope = "repository:"@ + c.org + "/"@ + c.image + ":pull"@;
    let at = (first + "/token?"@).len() as int + 6;
    assert(k.subrange(at, at + scope.len()) =~= scope);
    assert(text::occurs_at(k, scope, at));
    let end = "service="@ + c.registry;
    assert(k.subrange(k.len() - end.len(), k.len() as int) =~= end);
    assert(k.skip(k.len() - end.len()) =~= end);
}

proof fn lemma_flat(s: Seq<char>, i: int)
    requires
        0 <= i < s.len(),
    ensures
        ({
            let t = text::replaced(text::replaced(s, '/', '_'), ':', '_');
            t.len() == s.len() && t[i] == (if s[i] == '/' || s[i] == ':' {
                '_'
            } else {
                s[i]
            })
        }),
{
}

/// Different streams of an image, and different kinds of answers, are kept under
/// different names, where their own names hold neither a slash nor a colon.
pub proof fn law_cache_names_differ(
    c: StreamModel,
    a: Seq<char>,
    b: Seq<char>,
    suffix: Seq<char>,
)
    requires
        a != b,
        !a.contains('/') && !a.contains(':'),
        !b.contains('/') && !b.contains(':'),
    ensures
        cache_name(StreamModel { stream: a, ..c }, suffix) != cache_name(
            StreamModel { stream: b, ..c },
            suffix,
        ),
        cache_name(StreamModel { image: a, ..c }, suffix) != cache_name(
            StreamModel { image: b, ..c },
            suffix,
        ),
        cache_name(StreamModel { org: a, ..c }, suffix) != cache_name(
            StreamModel { org: b, ..c },
            suffix,
        ),
        cache_name(c, a) != cache_name(c, b),
{
    let head = "v4_"@ + c.registry + "_"@;
    lemma_middle(head, a, b, "_"@ + c.image + "_"@ + c.stream + "_"@ + suffix);
    lemma_middle(head + c.org + "_"@, a, b, "_"@ + c.stream + "_"@ + suffix);
    lemma_middle(head + c.org + "_"@ + c.image + "_"@, a, b, "_"@ + suffix);
    lemma_middle(head + c.org + "_"@ + c.image + "_"@ + c.stream + "_"@, a, b, Seq::empty());
    assert("v4_"@ + c.registry + "_"@ + a + "_"@ + c.image + "_"@ + c.stream + "_"@ + suffix
        =~= head + a + ("_"@ + c.image + "_"@ + c.stream + "_"@ + suffix));
    assert("v4_"@ + c.registry + "_"@ + b + "_"@ + c.image + "_"@ + c.stream + "_"@ + suffix
        =~= head + b + ("_"@ + c.image + "_"@ + c.stream + "_"@ + suffix));
    let second = head + c.org + "_"@;
    assert("v4_"@ + c.registry + "_"@ + c.org + "_"@ + a + "_"@ + c.stream + "_"@ + suffix
        =~= second + a + ("_"@ + c.stream + "_"@ + suffix));
    assert("v4_"@ + c.registry + "_"@ + c.org + "_"@ + b + "_"@ + c.stream + "_"@ + suffix
        =~= second + b + ("_"@ + c.stream + "_"@ + suffix));
    let third = second + c.image + "_"@;
    assert("v4_"@ + c.registry + "_"@ + c.org + "_"@ + c.image + "_"@ + a + "_"@ + suffix
        =~= third + a + ("_"@ + suffix));
    assert("v4_"@ + c.registry + "_"@ + c.org + "_"@ + c.image + "_"@ + b + "_"@ + suffix
        =~= third + b + ("_"@ + suffix));
    let fourth = third + c.stream + "_"@;
    let e = Seq::<char>::empty();
    assert("v4_"@ + c.registry + "_"@ + c.org + "_"@ + c.image + "_"@ + c.stream + "_"@ + a
        =~= fourth + a + e);
    assert("v4_"@ + c.registry + "_"@ + c.org + "_"@ + c.image + "_"@ + c.stream + "_"@ + b
        =~= fourth + b + e);
}

proof fn lemma_middle(head: Seq<char>, a: Seq<char>, b: Seq<char>, tail: Seq<char>)
    requires
        a != b,
        !a.contains('/') && !a.contains(':'),
        !b.contains('/') && !b.contains(':'),
    ensures
        text::replaced(text::replaced(head + a + tail, '/', '_'), ':', '_') != text::replaced(
            text::replaced(head + b + tail, '/', '_'),
            ':',
            '_',
        ),
{
    let x = head + a + tail;
    let y = head + b + tail;
    let fx = text::replaced(text::replaced(x, '/', '_'), ':', '_');
    let fy = text::replaced(text::replaced(y, '/', '_'), ':', '_');
    if fx == fy {
        assert(fx.len() == x.len() && fy.len() == y.len());
        assert(a.len() == b.len());
        assert forall|i: int| 0 <= i < a.len() implies a[i] == b[i] by {
            lemma_flat(x, head.len() + i);
            lemma_flat(y, head.len() + i);
            assert(x[head.len() + i] == a[i] && y[head.len() + i] == b[i]);
            assert(a.contains(a[i]) && b.contains(b[i]));
        }
        assert(a =~= b);
    }
}

} // verus!
