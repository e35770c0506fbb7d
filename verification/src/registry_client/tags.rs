//! Reading of dated image tags.
//!
//! A dated tag is a stream, a dot or a hyphen, and a date of eight digits, with
//! or without a build sub-revision behind it: `stable-daily-43.20260222`,
//! `lts-hwe-20260224`, `testing-43.20260308.1`. Some images are tagged with the
//! bare date alone.

use vstd::prelude::*;
use crate::date;
use crate::date::Date;
use crate::text;

verus! {

/// A tag that is nothing but a full commit hash.
pub open spec fn is_sha(tag: Seq<char>) -> bool {
    tag.len() == 40 && forall|i: int| 0 <= i < tag.len() ==> text::is_lower_hex(#[trigger] tag[i])
}

/// Whether a tag is 40 lower-case hexadecimal digits.
pub fn is_sha_only_tag(tag: &str) -> (r: bool)
    ensures
        r == is_sha(tag@),
{
    let cs = text::chars_of(tag);
    if cs.len() != 40 {
        return false;
    }
    let mut i: usize = 0;
    while i < cs.len()
        invariant
            cs@ == tag@,
            i <= cs@.len(),
            forall|j: int| 0 <= j < i ==> text::is_lower_hex(#[trigger] tag@[j]),
        decreases cs@.len() - i,
    {
        if !text::lower_hex(cs[i]) {
            assert(!text::is_lower_hex(tag@[i as int]));
            return false;
        }
        i += 1;
    }
    true
}

/// Eight digits.
pub open spec fn is_date_shaped(s: Seq<char>) -> bool {
    s.len() == 8 && text::all_digits(s)
}

/// One to four digits.
pub open spec fn is_revision(s: Seq<char>) -> bool {
    1 <= s.len() <= 4 && text::all_digits(s)
}

/// The last eight characters are digits.
pub open spec fn ends_date_shaped(s: Seq<char>) -> bool {
    s.len() >= 8 && is_date_shaped(s.skip(s.len() - 8))
}

/// `tag` without its build sub-revision. What stands behind the last dot is one
/// only where a date stands before it.
pub open spec fn without_revision(tag: Seq<char>) -> Seq<char> {
    match text::rhalves(tag, "."@) {
        Some(h) => if is_revision(h.1) && ends_date_shaped(h.0) {
            h.0
        } else {
            tag
        },
        None => tag,
    }
}

/// What stands before and behind the last `sep`, where that is a date.
pub open spec fn dated_parts(base: Seq<char>, sep: Seq<char>) -> Option<(Seq<char>, Seq<char>)> {
    match text::rhalves(base, sep) {
        Some(h) => if is_date_shaped(h.1) {
            Some(h)
        } else {
            None
        },
        None => None,
    }
}

/// `prefix` is the stream, or a channel within it: the stream, a dot or a
/// hyphen, and more.
pub open spec fn in_stream(prefix: Seq<char>, stream: Seq<char>) -> bool {
    ||| prefix == stream
    ||| text::begins_with(prefix, stream + "."@)
    ||| text::begins_with(prefix, stream + "-"@)
}

/// A tag that is a date alone, for a stream that takes such tags.
pub open spec fn is_bare(tag: Seq<char>, stream: Seq<char>) -> bool {
    (stream == "latest"@ || stream.len() == 0) && is_date_shaped(tag)
}

/// The date behind the last `sep` of `base`, where what stands before it is in
/// the stream.
pub open spec fn date_behind(base: Seq<char>, sep: Seq<char>, stream: Seq<char>) -> Option<Date> {
    match dated_parts(base, sep) {
        Some(h) => if in_stream(h.0, stream) {
            date::compact_date(h.1)
        } else {
            None
        },
        None => None,
    }
}

/// The date that `tag` carries as a tag of `stream`.
pub open spec fn dated_tag(tag: Seq<char>, stream: Seq<char>) -> Option<Date> {
    if is_bare(tag, stream) {
        date::compact_date(tag)
    } else {
        let base = without_revision(tag);
        match date_behind(base, "."@, stream) {
            Some(d) => Some(d),
            None => date_behind(base, "-"@, stream),
        }
    }
}

/// The fully qualified stream that a dated tag belongs to.
pub open spec fn stream_of(tag: Seq<char>) -> Option<Seq<char>> {
    let base = without_revision(tag);
    match dated_parts(base, "."@) {
        Some(h) => Some(h.0),
        None => match dated_parts(base, "-"@) {
            Some(h) => Some(h.0),
            None => None,
        },
    }
}

fn date_shaped(s: &str) -> (r: bool)
    ensures
        r == is_date_shaped(s@),
{
    text::len(s) == 8 && text::digits_only(s)
}

fn strip_revision<'a>(tag: &'a str) -> (r: &'a str)
    ensures
        r@ == without_revision(tag@),
{
    match text::rsplit_once(tag, ".") {
        Some((head, revision)) => {
            let width: usize = text::len(revision);
            let n: usize = text::len(head);
            if 1 <= width && width <= 4 && text::digits_only(revision) && n >= 8 {
                let tail = text::slice(head, n - 8, n);
                assert(tail@ =~= head@.skip(n - 8));
                if date_shaped(tail) {
                    return head;
                }
            }
            tag
        },
        None => tag,
    }
}

fn split_dated<'a>(base: &'a str, sep: &str) -> (r: Option<(&'a str, &'a str)>)
    ensures
        text::pair_view(r) == dated_parts(base@, sep@),
{
    match text::rsplit_once(base, sep) {
        Some(h) => if date_shaped(h.1) {
            Some(h)
        } else {
            None
        },
        None => None,
    }
}

fn stream_matches(prefix: &str, stream: &str) -> (r: bool)
    ensures
        r == in_stream(prefix@, stream@),
{
    let mut dotted = stream.to_owned();
    dotted.append(".");
    let mut hyphened = stream.to_owned();
    hyphened.append("-");
    text::eq(prefix, stream) || text::starts_with(prefix, dotted.as_str()) || text::starts_with(
        prefix,
        hyphened.as_str(),
    )
}

fn parse_behind(base: &str, sep: &str, stream: &str) -> (r: Option<Date>)
    ensures
        r == date_behind(base@, sep@, stream@),
{
    match split_dated(base, sep) {
        Some((prefix, digits)) => if stream_matches(prefix, stream) {
            date::parse_compact(digits)
        } else {
            None
        },
        None => None,
    }
}

/// The date of a dated tag of `stream`.
///
/// A tag is accepted where what stands before its date is the stream itself or
/// a channel within it (`stable-daily-43` is in `stable`); a trailing build
/// sub-revision of one to four digits is passed over; a bare date is accepted
/// for the streams `latest` and the empty one only. `None` where the tag has
/// none of these shapes, or its digits are no day of the calendar.
pub fn parse_dated_tag(tag: &str, stream: &str) -> (r: Option<Date>)
    ensures
        r == dated_tag(tag@, stream@),
{
    if (text::eq(stream, "latest") || stream.is_empty()) && date_shaped(tag) {
        return date::parse_compact(tag);
    }
    let base = strip_revision(tag);
    match parse_behind(base, ".", stream) {
        Some(d) => Some(d),
        None => parse_behind(base, "-", stream),
    }
}

/// A stream, as a string or as a sequence.
pub open spec fn opt_view(s: Option<String>) -> Option<Seq<char>> {
    match s {
        Some(x) => Some(x@),
        None => None,
    }
}

/// Remove the trailing `.YYYYMMDD[.N]` or `-YYYYMMDD[.N]` from a tag to get the
/// fully qualified stream. `None` where the tag has no date, or nothing but one.
pub fn strip_date_suffix(tag: &str) -> (r: Option<String>)
    ensures
        opt_view(r) == stream_of(tag@),
{
    let base = strip_revision(tag);
    match split_dated(base, ".") {
        Some(h) => Some(h.0.to_owned()),
        None => match split_dated(base, "-") {
            Some(h) => Some(h.0.to_owned()),
            None => None,
        },
    }
}

// ---------------------------------------------------------------------------
// Laws

/// The last occurrence of a one-character pattern, before what does not hold it.
pub proof fn lemma_rhalves(head: Seq<char>, c: char, tail: Seq<char>, pat: Seq<char>)
    requires
        pat == seq![c],
        !tail.contains(c),
    ensures
        text::rhalves(head + pat + tail, pat) == Some((head, tail)),
{
    let s = head + pat + tail;
    let i = head.len() as int;
    assert(s.subrange(i, i + 1) =~= pat);
    assert forall|j: int| j > i implies !#[trigger] text::occurs_at(s, pat, j) by {
        if text::occurs_at(s, pat, j) {
            assert(s.subrange(j, j + 1)[0] == c);
            assert(tail[j - i - 1] == c);
        }
    }
    text::lemma_last_unique(s, pat, i);
    assert(s.take(i) =~= head);
    assert(s.skip(i + 1) =~= tail);
}

/// What the two sides of a one-character pattern say of the sequence.
proof fn lemma_rhalves_shape(s: Seq<char>, c: char, pat: Seq<char>)
    requires
        pat == seq![c],
    ensures
        match text::rhalves(s, pat) {
            Some(h) => s == h.0 + pat + h.1 && !h.1.contains(c),
            None => !s.contains(c),
        },
{
    if text::occurs(s, pat) {
        let i0 = choose|i: int| text::occurs_at(s, pat, i);
        lemma_last_exists(s, pat, i0);
        let i = text::last_index(s, pat);
        assert(text::last_at(s, pat, i));
        assert(s.subrange(i, i + 1)[0] == c);
        let h = (s.take(i), s.skip(i + 1));
        assert(s =~= h.0 + pat + h.1);
        if h.1.contains(c) {
            let k = choose|k: int| 0 <= k < h.1.len() && h.1[k] == c;
            assert(s.subrange(i + 1 + k, i + 2 + k) =~= pat);
            assert(text::occurs_at(s, pat, i + 1 + k));
        }
    } else if s.contains(c) {
        let k = choose|k: int| 0 <= k < s.len() && s[k] == c;
        assert(s.subrange(k, k + 1) =~= pat);
        assert(text::occurs_at(s, pat, k));
    }
}

/// Where a sequence holds a pattern, there is a last place.
proof fn lemma_last_exists(s: Seq<char>, pat: Seq<char>, i: int)
    requires
        text::occurs_at(s, pat, i),
    ensures
        text::last_at(s, pat, text::last_index(s, pat)),
    decreases s.len() - i,
{
    if exists|j: int| j > i && text::occurs_at(s, pat, j) {
        let j = choose|j: int| j > i && text::occurs_at(s, pat, j);
        lemma_last_exists(s, pat, j);
    } else {
        assert(text::last_at(s, pat, i));
        text::lemma_last_unique(s, pat, i);
    }
}

proof fn lemma_digits_hold_no_mark(s: Seq<char>, c: char)
    requires
        text::all_digits(s),
        !text::is_digit(c),
    ensures
        !s.contains(c),
{
    if s.contains(c) {
        let k = choose|k: int| 0 <= k < s.len() && s[k] == c;
        assert(text::is_digit(s[k]));
    }
}

proof fn lemma_marks()
    ensures
        "."@ == seq!['.'],
        "-"@ == seq!['-'],
{
    reveal_strlit(".");
    reveal_strlit("-");
    assert("."@ =~= seq!['.']);
    assert("-"@ =~= seq!['-']);
}

/// A stream, a dot and a date are read as that date and that stream.
pub proof fn law_dotted_tag(stream: Seq<char>, digits: Seq<char>)
    requires
        is_date_shaped(digits),
    ensures
        dated_tag(stream + "."@ + digits, stream) == date::compact_date(digits),
        stream_of(stream + "."@ + digits) == Some(stream),
{
    lemma_marks();
    let tag = stream + "."@ + digits;
    lemma_digits_hold_no_mark(digits, '.');
    lemma_rhalves(stream, '.', digits, "."@);
    assert(tag.len() == stream.len() + 9);
    assert(without_revision(tag) == tag);
    if date::compact_date(digits) is None {
        lemma_one_separator(tag);
    }
}

/// A stream, a hyphen and a date are read as that date and that stream.
pub proof fn law_hyphened_tag(stream: Seq<char>, digits: Seq<char>)
    requires
        is_date_shaped(digits),
    ensures
        dated_tag(stream + "-"@ + digits, stream) == date::compact_date(digits),
        stream_of(stream + "-"@ + digits) == Some(stream),
{
    lemma_marks();
    let tag = stream + "-"@ + digits;
    lemma_digits_hold_no_mark(digits, '-');
    lemma_rhalves(stream, '-', digits, "-"@);
    lemma_rhalves_shape(tag, '.', "."@);
    assert(tag[stream.len() as int] == '-');
    match text::rhalves(tag, "."@) {
        Some(h) => {
            // The last dot, if any, stands before the hyphen.
            let i = h.0.len() as int;
            assert(tag[i] == '.');
            if i > stream.len() {
                assert(text::is_digit(digits[i - stream.len() - 1]));
            }
            assert(h.1[stream.len() - i - 1] == tag[stream.len() as int]);
            assert(!text::all_digits(h.1));
        },
        None => {},
    }
    assert(without_revision(tag) == tag);
}

/// At most one of the two separators has a date behind it.
proof fn lemma_one_separator(base: Seq<char>)
    ensures
        dated_parts(base, "."@) is None || dated_parts(base, "-"@) is None,
{
    lemma_marks();
    lemma_rhalves_shape(base, '.', "."@);
    lemma_rhalves_shape(base, '-', "-"@);
    if dated_parts(base, "."@) is Some && dated_parts(base, "-"@) is Some {
        assert(base[base.len() - 9] == '.');
        assert(base[base.len() - 9] == '-');
    }
}

/// A build sub-revision changes neither the date nor the stream.
pub proof fn law_revision_passed_over(stream: Seq<char>, digits: Seq<char>, revision: Seq<char>)
    requires
        is_date_shaped(digits),
        is_revision(revision),
    ensures
        dated_tag(stream + "."@ + digits + "."@ + revision, stream) == date::compact_date(digits),
        stream_of(stream + "."@ + digits + "."@ + revision) == Some(stream),
{
    lemma_marks();
    let head = stream + "."@ + digits;
    lemma_digits_hold_no_mark(revision, '.');
    lemma_rhalves(head, '.', revision, "."@);
    assert(head.skip(head.len() - 8) =~= digits);
    assert(without_revision(head + "."@ + revision) == head);
    law_dotted_tag(stream, digits);
    assert(without_revision(head) == head) by {
        lemma_digits_hold_no_mark(digits, '.');
        lemma_rhalves(stream, '.', digits, "."@);
    }
    assert(!is_bare(head + "."@ + revision, stream)) by {
        let tag = head + "."@ + revision;
        assert(tag.len() > 8);
    }
}

/// A tag that is accepted for a stream, and is not a bare date, names a fully
/// qualified stream within it.
pub proof fn law_accepted_tag_is_in_stream(tag: Seq<char>, stream: Seq<char>)
    requires
        dated_tag(tag, stream) is Some,
        !is_bare(tag, stream),
    ensures
        stream_of(tag) matches Some(full) && in_stream(full, stream),
{
    lemma_one_separator(without_revision(tag));
}

/// For which stream a tag is read makes no difference to its date.
pub proof fn law_date_does_not_depend_on_stream(tag: Seq<char>, a: Seq<char>, b: Seq<char>)
    requires
        dated_tag(tag, a) is Some,
        dated_tag(tag, b) is Some,
    ensures
        dated_tag(tag, a) == dated_tag(tag, b),
{
    let base = without_revision(tag);
    lemma_one_separator(base);
    lemma_marks();
    if is_date_shaped(tag) {
        lemma_digits_hold_no_mark(tag, '.');
        lemma_digits_hold_no_mark(tag, '-');
        lemma_rhalves_shape(tag, '.', "."@);
        lemma_rhalves_shape(tag, '-', "-"@);
        lemma_no_mark_no_halves(tag, '.', "."@);
        lemma_no_mark_no_halves(tag, '-', "-"@);
    }
}

proof fn lemma_no_mark_no_halves(s: Seq<char>, c: char, pat: Seq<char>)
    requires
        pat == seq![c],
        !s.contains(c),
    ensures
        text::rhalves(s, pat) is None,
{
    if text::occurs(s, pat) {
        let i = choose|i: int| text::occurs_at(s, pat, i);
        assert(s.subrange(i, i + 1)[0] == c);
        assert(s[i] == c);
    }
}

/// A commit hash carries no date, whatever the stream, and names no stream.
pub proof fn law_sha_is_undated(tag: Seq<char>, stream: Seq<char>)
    requires
        is_sha(tag),
    ensures
        dated_tag(tag, stream) is None,
        stream_of(tag) is None,
{
    lemma_marks();
    assert(!tag.contains('.')) by {
        if tag.contains('.') {
            let k = choose|k: int| 0 <= k < tag.len() && tag[k] == '.';
            assert(text::is_lower_hex(tag[k]));
        }
    }
    assert(!tag.contains('-')) by {
        if tag.contains('-') {
            let k = choose|k: int| 0 <= k < tag.len() && tag[k] == '-';
            assert(text::is_lower_hex(tag[k]));
        }
    }
    lemma_no_mark_no_halves(tag, '.', "."@);
    lemma_no_mark_no_halves(tag, '-', "-"@);
}

/// A commit hash is forty lower-case hexadecimal digits.
pub proof fn law_what_is_a_commit_hash(tag: Seq<char>, i: int)
    ensures
        is_sha(tag) ==> tag.len() == 40,
        is_sha(tag) && 0 <= i < tag.len() ==> ('0' <= tag[i] <= '9' || 'a' <= tag[i] <= 'f'),
        tag.len() == 40 && (forall|k: int|
            0 <= k < tag.len() ==> '0' <= #[trigger] tag[k] <= '9' || 'a' <= tag[k] <= 'f')
            ==> is_sha(tag),
{
    if is_sha(tag) && 0 <= i < tag.len() {
        assert(text::is_lower_hex(tag[i]));
    }
}

/// A tag that ends in no digit carries no date, for whatever stream.
pub proof fn law_no_digit_no_date(tag: Seq<char>, stream: Seq<char>)
    requires
        tag.len() > 0 ==> !('0' <= tag.last() <= '9'),
    ensures
        dated_tag(tag, stream) is None,
        stream_of(tag) is None,
{
    lemma_marks();
    lemma_rhalves_shape(tag, '.', "."@);
    lemma_rhalves_shape(tag, '-', "-"@);
    if tag.len() > 0 {
        assert(!is_date_shaped(tag)) by {
            if is_date_shaped(tag) {
                assert(text::is_digit(tag[7]));
            }
        }
        match text::rhalves(tag, "."@) {
            Some(h) => {
                if h.1.len() > 0 {
                    assert(h.1.last() == tag.last());
                    assert(!text::all_digits(h.1)) by {
                        if text::all_digits(h.1) {
                            assert(text::is_digit(h.1[h.1.len() - 1]));
                        }
                    }
                }
            },
            None => {},
        }
        match text::rhalves(tag, "-"@) {
            Some(h) => {
                if h.1.len() > 0 {
                    assert(h.1.last() == tag.last());
                    assert(!text::all_digits(h.1)) by {
                        if text::all_digits(h.1) {
                            assert(text::is_digit(h.1[h.1.len() - 1]));
                        }
                    }
                }
            },
            None => {},
        }
    } else {
        assert(tag =~= Seq::<char>::empty());
    }
}

/// `full` is the stream or goes on behind it with a dot or a hyphen.
pub open spec fn goes_on_from(full: Seq<char>, stream: Seq<char>) -> bool {
    full == stream || (full.len() > stream.len() && full.take(stream.len() as int) == stream && (
    full[stream.len() as int] == '.' || full[stream.len() as int] == '-'))
}

proof fn lemma_goes_on(full: Seq<char>, stream: Seq<char>)
    ensures
        in_stream(full, stream) <==> goes_on_from(full, stream),
{
    lemma_marks();
    let n = stream.len() as int;
    if full.len() > stream.len() {
        assert(full.take(n + 1) =~= full.take(n).push(full[n]));
        if full.take(n) == stream {
            assert(stream.push(full[n]) =~= stream + seq![full[n]]);
        }
    }
    if text::begins_with(full, stream + "."@) {
        assert(full.take(n + 1) == stream + "."@);
        assert(full.take(n + 1)[n] == '.');
        assert(full.take(n) =~= full.take(n + 1).take(n));
        assert((stream + "."@).take(n) =~= stream);
    }
    if text::begins_with(full, stream + "-"@) {
        assert(full.take(n + 1) == stream + "-"@);
        assert(full.take(n + 1)[n] == '-');
        assert(full.take(n) =~= full.take(n + 1).take(n));
        assert((stream + "-"@).take(n) =~= stream);
    }
}

/// The dated tags of a stream, and of the channels within it, are taken with
/// their date; those of other streams are not taken, however they begin.
pub proof fn law_tags_of_a_stream(full: Seq<char>, digits: Seq<char>, stream: Seq<char>)
    requires
        is_date_shaped(digits),
    ensures
        dated_tag(full + "."@ + digits, stream) == (if goes_on_from(full, stream) {
            date::compact_date(digits)
        } else {
            None
        }),
        dated_tag(full + "-"@ + digits, stream) == (if goes_on_from(full, stream) {
            date::compact_date(digits)
        } else {
            None
        }),
{
    lemma_marks();
    lemma_goes_on(full, stream);
    let dotted = full + "."@ + digits;
    let hyphened = full + "-"@ + digits;
    law_dotted_tag(full, digits);
    law_hyphened_tag(full, digits);
    assert(dotted.len() == full.len() + 9 && hyphened.len() == full.len() + 9);
    lemma_digits_hold_no_mark(digits, '.');
    lemma_digits_hold_no_mark(digits, '-');
    lemma_rhalves(full, '.', digits, "."@);
    lemma_rhalves(full, '-', digits, "-"@);
    assert(without_revision(dotted) == dotted);
    lemma_one_separator(dotted);
    assert(without_revision(hyphened) == hyphened) by {
        lemma_hyphened_has_no_revision(full, digits);
    }
    lemma_one_separator(hyphened);
}

proof fn lemma_hyphened_has_no_revision(full: Seq<char>, digits: Seq<char>)
    requires
        is_date_shaped(digits),
    ensures
        without_revision(full + "-"@ + digits) == full + "-"@ + digits,
{
    lemma_marks();
    let tag = full + "-"@ + digits;
    let n = full.len() as int;
    lemma_rhalves_shape(tag, '.', "."@);
    assert(tag[n] == '-');
    if let Some(h) = text::rhalves(tag, "."@) {
        let i = h.0.len() as int;
        assert((h.0 + "."@ + h.1)[i] == '.');
        assert(tag[i] == '.');
        assert(i <= n) by {
            if i > n {
                assert(tag[i] == digits[i - n - 1]);
                assert(text::is_digit(digits[i - n - 1]));
            }
        }
        assert((h.0 + "."@ + h.1)[n] == h.1[n - i - 1]);
        assert(!is_revision(h.1)) by {
            if text::all_digits(h.1) {
                assert(text::is_digit(h.1[n - i - 1]));
            }
        }
    }
}

/// A date alone is a tag of the stream `latest`, and of no stream in particular;
/// for every other stream it carries no date.
pub proof fn law_bare_date(digits: Seq<char>, stream: Seq<char>)
    requires
        is_date_shaped(digits),
    ensures
        dated_tag(digits, "latest"@) == date::compact_date(digits),
        dated_tag(digits, Seq::empty()) == date::compact_date(digits),
        stream.len() > 0 && stream != "latest"@ ==> dated_tag(digits, stream) is None,
        stream_of(digits) is None,
{
    lemma_marks();
    lemma_digits_hold_no_mark(digits, '.');
    lemma_digits_hold_no_mark(digits, '-');
    lemma_no_mark_no_halves(digits, '.', "."@);
    lemma_no_mark_no_halves(digits, '-', "-"@);
}

/// A date is written with eight digits, and a build sub-revision with one to four.
pub proof fn law_shapes(s: Seq<char>)
    ensures
        is_date_shaped(s) <==> s.len() == 8 && forall|i: int|
            0 <= i < s.len() ==> '0' <= #[trigger] s[i] <= '9',
        is_revision(s) <==> (s.len() == 1 || s.len() == 2 || s.len() == 3 || s.len() == 4)
            && forall|i: int| 0 <= i < s.len() ==> '0' <= #[trigger] s[i] <= '9',
{
    if is_date_shaped(s) || is_revision(s) {
        assert forall|i: int| 0 <= i < s.len() implies '0' <= #[trigger] s[i] <= '9' by {
            assert(text::is_digit(s[i]));
        }
    }
    if forall|i: int| 0 <= i < s.len() ==> '0' <= #[trigger] s[i] <= '9' {
        assert forall|i: int| 0 <= i < s.len() implies text::is_digit(#[trigger] s[i]) by {}
    }
}

} // verus!
