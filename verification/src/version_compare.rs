//! RPM version comparison, for telling an upgrade from a downgrade.
//!
//! A target version is shown as an upgrade only where it is one. The order is
//! the one the package manager uses: a version is read as a sequence of tokens,
//! and two versions compare as their token sequences do, token by token. `~`
//! sorts before everything, including the end of the version, which makes a
//! release candidate older than its release; `^` sorts right after the end,
//! which makes a snapshot newer than its release; numbers outrank letters.

use std::cmp::Ordering;
use vstd::prelude::*;
use crate::text;

verus! {

/// One unit of a version.
pub enum Token {
    Tilde,
    Caret,
    Letters(Seq<char>),
    Number(nat),
}

/// Characters that stand for something; every other one only separates.
pub open spec fn is_significant(c: char) -> bool {
    text::is_digit(c) || text::is_alpha(c) || c == '~' || c == '^'
}

/// The class a run is made of: digits or letters.
pub open spec fn in_class(c: char, numeric: bool) -> bool {
    if numeric {
        text::is_digit(c)
    } else {
        text::is_alpha(c)
    }
}

/// The length of the run of one class at the beginning of `s`.
pub open spec fn run_len(s: Seq<char>, numeric: bool) -> nat
    decreases s.len(),
{
    if s.len() > 0 && in_class(s[0], numeric) {
        1 + run_len(s.skip(1), numeric)
    } else {
        0
    }
}

/// The token that a run stands for.
pub open spec fn run_token(run: Seq<char>, numeric: bool) -> Token {
    if numeric {
        Token::Number(text::number(run))
    } else {
        Token::Letters(run)
    }
}

proof fn lemma_run_bound(s: Seq<char>, numeric: bool)
    ensures
        run_len(s, numeric) <= s.len(),
    decreases s.len(),
{
    if s.len() > 0 {
        lemma_run_bound(s.skip(1), numeric);
    }
}

/// The tokens of a version.
pub open spec fn tokens(s: Seq<char>) -> Seq<Token>
    decreases s.len(),
{
    if s.len() == 0 {
        Seq::empty()
    } else if s[0] == '~' {
        seq![Token::Tilde] + tokens(s.skip(1))
    } else if s[0] == '^' {
        seq![Token::Caret] + tokens(s.skip(1))
    } else if text::is_digit(s[0]) {
        let n = run_len(s, true) as int;
        if 0 < n <= s.len() {
            seq![Token::Number(text::number(s.take(n)))] + tokens(s.skip(n))
        } else {
            Seq::empty()
        }
    } else if text::is_alpha(s[0]) {
        let n = run_len(s, false) as int;
        if 0 < n <= s.len() {
            seq![Token::Letters(s.take(n))] + tokens(s.skip(n))
        } else {
            Seq::empty()
        }
    } else {
        tokens(s.skip(1))
    }
}

/// Where a token, or the end of the version, stands among the kinds of token.
pub open spec fn token_rank(t: Option<Token>) -> nat {
    match t {
        Some(Token::Tilde) => 0,
        None => 1,
        Some(Token::Caret) => 2,
        Some(Token::Letters(_)) => 3,
        Some(Token::Number(_)) => 4,
    }
}

pub open spec fn nat_order(a: nat, b: nat) -> Ordering {
    if a < b {
        Ordering::Less
    } else if a == b {
        Ordering::Equal
    } else {
        Ordering::Greater
    }
}

pub open spec fn letters_order(a: Seq<char>, b: Seq<char>) -> Ordering {
    if a == b {
        Ordering::Equal
    } else if text::lex_le(a, b) {
        Ordering::Less
    } else {
        Ordering::Greater
    }
}

/// Two tokens of one kind compare by what they hold, others by their kind.
pub open spec fn token_order(a: Option<Token>, b: Option<Token>) -> Ordering {
    match (a, b) {
        (Some(Token::Letters(x)), Some(Token::Letters(y))) => letters_order(x, y),
        (Some(Token::Number(x)), Some(Token::Number(y))) => nat_order(x, y),
        _ => nat_order(token_rank(a), token_rank(b)),
    }
}

pub open spec fn first_token(s: Seq<Token>) -> Option<Token> {
    if s.len() == 0 {
        None
    } else {
        Some(s[0])
    }
}

/// Token sequences compare at the first place where they differ.
pub open spec fn tokens_order(a: Seq<Token>, b: Seq<Token>) -> Ordering
    decreases a.len(),
{
    let here = token_order(first_token(a), first_token(b));
    if here != Ordering::Equal || a.len() == 0 || b.len() == 0 {
        here
    } else {
        tokens_order(a.skip(1), b.skip(1))
    }
}

/// The order of versions.
pub open spec fn version_order(a: Seq<char>, b: Seq<char>) -> Ordering {
    tokens_order(tokens(a), tokens(b))
}

/// The other way round.
pub open spec fn reversed(o: Ordering) -> Ordering {
    match o {
        Ordering::Less => Ordering::Greater,
        Ordering::Equal => Ordering::Equal,
        Ordering::Greater => Ordering::Less,
    }
}

fn skip_separators(s: &[char]) -> (r: &[char])
    ensures
        tokens(r@) == tokens(s@),
        r@.len() <= s@.len(),
        r@.len() > 0 ==> is_significant(r@[0]),
{
    let mut i: usize = 0;
    let n: usize = s.len();
    assert(s@.skip(0) =~= s@);
    while i < n && !text::digit(s[i]) && !text::alpha(s[i]) && s[i] != '~' && s[i] != '^'
        invariant
            n == s@.len(),
            i <= n,
            tokens(s@) == tokens(s@.skip(i as int)),
        decreases n - i,
    {
        proof {
            assert(s@.skip(i as int).skip(1) =~= s@.skip(i + 1));
        }
        i += 1;
    }
    let r = vstd::slice::slice_subrange(s, i, n);
    assert(r@ =~= s@.skip(i as int));
    r
}

/// Split off a leading run of digits (or letters), returning it and the rest.
fn take_segment(s: &[char], numeric: bool) -> (r: (&[char], &[char]))
    ensures
        run_len(s@, numeric) <= s@.len(),
        r.0@ == s@.take(run_len(s@, numeric) as int),
        r.1@ == s@.skip(run_len(s@, numeric) as int),
        forall|i: int| 0 <= i < r.0@.len() ==> in_class(#[trigger] r.0@[i], numeric),
        r.0@.len() > 0 <==> s@.len() > 0 && in_class(s@[0], numeric),
        r.0@.len() > 0 ==> tokens(s@) == seq![run_token(r.0@, numeric)] + tokens(r.1@),
{
    let mut i: usize = 0;
    let n: usize = s.len();
    assert(s@.skip(0) =~= s@);
    while i < n && ((numeric && text::digit(s[i])) || (!numeric && text::alpha(s[i])))
        invariant
            n == s@.len(),
            i <= n,
            run_len(s@, numeric) == i + run_len(s@.skip(i as int), numeric),
            forall|j: int| 0 <= j < i ==> in_class(#[trigger] s@[j], numeric),
        decreases n - i,
    {
        proof {
            assert(s@.skip(i as int).skip(1) =~= s@.skip(i + 1));
        }
        i += 1;
    }
    let head = vstd::slice::slice_subrange(s, 0, i);
    let tail = vstd::slice::slice_subrange(s, i, n);
    assert(head@ =~= s@.take(i as int));
    assert(tail@ =~= s@.skip(i as int));
    (head, tail)
}

/// Leading zeros do not count, so `007` and `7` are one number.
fn trim_leading_zeros(s: &[char]) -> (r: &[char])
    requires
        text::all_digits(s@),
    ensures
        text::all_digits(r@),
        text::number(r@) == text::number(s@),
        r@.len() <= s@.len(),
        s@.len() > 0 ==> r@.len() > 0,
        r@.len() > 1 ==> r@[0] != '0',
{
    let mut i: usize = 0;
    let n: usize = s.len();
    assert(s@.skip(0) =~= s@);
    while n - i > 1 && s[i] == '0'
        invariant
            n == s@.len(),
            i <= n,
            n > 0 ==> i < n,
            text::all_digits(s@),
            text::number(s@) == text::number(s@.skip(i as int)),
        decreases n - i,
    {
        proof {
            text::lemma_number_front(s@.skip(i as int));
            assert(s@.skip(i as int).skip(1) =~= s@.skip(i + 1));
            assert(0 * text::pow10((n - i - 1) as nat) == 0) by (nonlinear_arith);
        }
        i += 1;
    }
    let r = vstd::slice::slice_subrange(s, i, n);
    assert(r@ =~= s@.skip(i as int));
    r
}

/// Of two runs without leading zeros the longer denotes the larger number.
proof fn lemma_longer_is_larger(a: Seq<char>, b: Seq<char>)
    requires
        text::all_digits(b),
        a.len() < b.len(),
        b.len() > 1,
        b[0] != '0',
    ensures
        text::number(a) < text::number(b),
{
    text::lemma_number_bound(a);
    text::lemma_number_front(b);
    text::lemma_pow10_monotone(a.len(), (b.len() - 1) as nat);
    let d = text::digit_value(b[0]);
    let p = text::pow10((b.len() - 1) as nat);
    assert(text::is_digit(b[0]));
    assert(d >= 1);
    assert(d * p >= p) by (nonlinear_arith)
        requires
            d >= 1,
            p > 0,
    ;
}

/// Runs of one length compare as the numbers that they denote.
proof fn lemma_same_length(a: Seq<char>, b: Seq<char>)
    requires
        text::all_digits(a),
        text::all_digits(b),
        a.len() == b.len(),
    ensures
        text::lex_le(a, b) == (text::number(a) <= text::number(b)),
        text::number(a) == text::number(b) ==> a == b,
    decreases a.len(),
{
    if a.len() == 0 {
        assert(a =~= b);
    } else {
        text::lemma_number_front(a);
        text::lemma_number_front(b);
        assert(text::is_digit(a[0]) && text::is_digit(b[0]));
        let p = text::pow10((a.len() - 1) as nat);
        let da = text::digit_value(a[0]);
        let db = text::digit_value(b[0]);
        let ra = text::number(a.skip(1));
        let rb = text::number(b.skip(1));
        text::lemma_number_bound(a.skip(1));
        text::lemma_number_bound(b.skip(1));
        assert(text::all_digits(a.skip(1)));
        assert(text::all_digits(b.skip(1)));
        if a[0] == b[0] {
            lemma_same_length(a.skip(1), b.skip(1));
            if text::number(a) == text::number(b) {
                assert(a =~= seq![a[0]] + a.skip(1));
                assert(b =~= seq![b[0]] + b.skip(1));
            }
        } else if a[0] < b[0] {
            assert(da + 1 <= db);
            assert(da * p + ra < db * p + rb) by (nonlinear_arith)
                requires
                    da + 1 <= db,
                    ra < p,
                    rb >= 0,
            ;
        } else {
            assert(db + 1 <= da);
            assert(db * p + rb < da * p + ra) by (nonlinear_arith)
                requires
                    db + 1 <= da,
                    rb < p,
                    ra >= 0,
            ;
        }
    }
}

/// Compare two runs of letters.
fn compare_letters(a: &[char], b: &[char]) -> (r: Ordering)
    ensures
        r == letters_order(a@, b@),
{
    proof {
        if text::lex_le(a@, b@) && text::lex_le(b@, a@) {
            text::lemma_lex_antisymmetric(a@, b@);
        }
        text::lemma_lex_reflexive(a@);
    }
    if !text::not_after(a, b) {
        Ordering::Greater
    } else if text::not_after(b, a) {
        Ordering::Equal
    } else {
        Ordering::Less
    }
}

/// Compare two runs of digits as numbers without computing them: strip leading
/// zeros, then longer is larger, then by the digits. No run is too long.
fn compare_numbers(a: &[char], b: &[char]) -> (r: Ordering)
    requires
        text::all_digits(a@),
        text::all_digits(b@),
        a@.len() > 0,
        b@.len() > 0,
    ensures
        r == nat_order(text::number(a@), text::number(b@)),
{
    let ta = trim_leading_zeros(a);
    let tb = trim_leading_zeros(b);
    if ta.len() < tb.len() {
        proof {
            lemma_longer_is_larger(ta@, tb@);
        }
        Ordering::Less
    } else if tb.len() < ta.len() {
        proof {
            lemma_longer_is_larger(tb@, ta@);
        }
        Ordering::Greater
    } else {
        proof {
            lemma_same_length(ta@, tb@);
            lemma_same_length(tb@, ta@);
        }
        compare_letters(ta, tb)
    }
}

/// What remains to compare once a first token is equal on both sides.
proof fn lemma_order_step(t: Token, u: Token, a: Seq<Token>, b: Seq<Token>)
    ensures
        tokens_order(seq![t] + a, seq![u] + b) == (if token_order(Some(t), Some(u))
            == Ordering::Equal {
            tokens_order(a, b)
        } else {
            token_order(Some(t), Some(u))
        }),
{
    assert((seq![t] + a).skip(1) =~= a);
    assert((seq![u] + b).skip(1) =~= b);
}

/// A version that begins with `~` or `^`.
proof fn lemma_mark_tokens(s: Seq<char>)
    requires
        s.len() > 0,
    ensures
        s[0] == '~' ==> tokens(s) == seq![Token::Tilde] + tokens(s.skip(1)),
        s[0] == '^' ==> tokens(s) == seq![Token::Caret] + tokens(s.skip(1)),
{
}

/// The first token of a version that begins with something significant.
proof fn lemma_first_token(s: Seq<char>)
    requires
        s.len() > 0,
        is_significant(s[0]),
    ensures
        tokens(s).len() > 0,
        s[0] == '~' <==> tokens(s)[0] is Tilde,
        s[0] == '^' <==> tokens(s)[0] is Caret,
        text::is_digit(s[0]) <==> tokens(s)[0] is Number,
        text::is_alpha(s[0]) <==> tokens(s)[0] is Letters,
{
    lemma_run_bound(s, true);
    lemma_run_bound(s, false);
}

/// Every but the first character.
fn rest(s: &[char]) -> (r: &[char])
    requires
        s@.len() > 0,
    ensures
        r@ == s@.skip(1),
{
    let r = vstd::slice::slice_subrange(s, 1, s.len());
    assert(r@ =~= s@.skip(1));
    r
}

/// Compare two versions, or two releases, the way RPM does.
///
/// An epoch, and the boundary between version and release, are not known here:
/// [`compare_evr`] is for full `epoch:version-release` strings.
pub fn rpmvercmp(a: &str, b: &str) -> (r: Ordering)
    ensures
        r == version_order(a@, b@),
{
    if text::eq(a, b) {
        proof {
            lemma_tokens_reflexive(tokens(a@));
        }
        return Ordering::Equal;
    }
    let ca = text::chars_of(a);
    let cb = text::chars_of(b);
    let mut x: &[char] = ca.as_slice();
    let mut y: &[char] = cb.as_slice();
    loop
        invariant
            version_order(a@, b@) == version_order(x@, y@),
        decreases x@.len() + y@.len(),
    {
        x = skip_separators(x);
        y = skip_separators(y);
        proof {
            if x@.len() > 0 {
                lemma_first_token(x@);
                lemma_mark_tokens(x@);
            }
            if y@.len() > 0 {
                lemma_first_token(y@);
                lemma_mark_tokens(y@);
            }
        }
        let ghost tx = tokens(x@);
        let ghost ty = tokens(y@);
        // The end of a version sorts after `~` and before everything else.
        if x.len() == 0 || y.len() == 0 {
            return if x.len() == 0 && y.len() == 0 {
                Ordering::Equal
            } else if x.len() == 0 {
                if y[0] == '~' {
                    Ordering::Greater
                } else {
                    Ordering::Less
                }
            } else {
                if x[0] == '~' {
                    Ordering::Less
                } else {
                    Ordering::Greater
                }
            };
        }
        if x[0] == '~' || y[0] == '~' {
            if x[0] != '~' {
                return Ordering::Greater;
            }
            if y[0] != '~' {
                return Ordering::Less;
            }
            x = rest(x);
            y = rest(y);
            proof {
                lemma_order_step(Token::Tilde, Token::Tilde, tokens(x@), tokens(y@));
            }
            continue;
        }
        if x[0] == '^' || y[0] == '^' {
            if x[0] != '^' {
                return Ordering::Greater;
            }
            if y[0] != '^' {
                return Ordering::Less;
            }
            x = rest(x);
            y = rest(y);
            proof {
                lemma_order_step(Token::Caret, Token::Caret, tokens(x@), tokens(y@));
            }
            continue;
        }
        // A run of digits or letters from one side, and of the same class from
        // the other. A number always outranks letters.
        let numeric = text::digit(x[0]);
        let (seg_x, rest_x) = take_segment(x, numeric);
        let (seg_y, rest_y) = take_segment(y, numeric);
        if seg_y.len() == 0 {
            return if numeric {
                Ordering::Greater
            } else {
                Ordering::Less
            };
        }
        proof {
            lemma_order_step(
                run_token(seg_x@, numeric),
                run_token(seg_y@, numeric),
                tokens(rest_x@),
                tokens(rest_y@),
            );
        }
        let here = if numeric {
            compare_numbers(seg_x, seg_y)
        } else {
            compare_letters(seg_x, seg_y)
        };
        match here {
            Ordering::Equal => {},
            _ => {
                return here;
            },
        }
        x = rest_x;
        y = rest_y;
    }
}

proof fn lemma_tokens_reflexive(a: Seq<Token>)
    ensures
        tokens_order(a, a) == Ordering::Equal,
    decreases a.len(),
{
    if a.len() > 0 {
        lemma_tokens_reflexive(a.skip(1));
    }
}

/// The parts of an `epoch:version-release` string.
pub struct Evr {
    pub epoch: Seq<char>,
    pub version: Seq<char>,
    pub release: Seq<char>,
}

/// Whether `s` opens with an epoch: a number before the first colon.
pub open spec fn has_epoch(s: Seq<char>) -> bool {
    match text::halves(s, ":"@) {
        Some(h) => text::all_digits(h.0) && h.0.len() > 0,
        None => false,
    }
}

/// What stands behind the epoch.
pub open spec fn after_epoch(s: Seq<char>) -> Seq<char> {
    if has_epoch(s) {
        text::halves(s, ":"@).unwrap().1
    } else {
        s
    }
}

/// The parts of `s`. A missing epoch is `0`, a missing release is empty; the
/// release begins behind the first hyphen.
pub open spec fn evr(s: Seq<char>) -> Evr {
    let tail = after_epoch(s);
    Evr {
        epoch: if has_epoch(s) {
            text::halves(s, ":"@).unwrap().0
        } else {
            "0"@
        },
        version: match text::halves(tail, "-"@) {
            Some(h) => h.0,
            None => tail,
        },
        release: match text::halves(tail, "-"@) {
            Some(h) => h.1,
            None => Seq::empty(),
        },
    }
}

/// The first of two comparisons decides unless it finds no difference.
pub open spec fn or_else(a: Ordering, b: Ordering) -> Ordering {
    if a == Ordering::Equal {
        b
    } else {
        a
    }
}

/// Epoch first, then version, then release.
pub open spec fn evr_order(a: Seq<char>, b: Seq<char>) -> Ordering {
    or_else(
        version_order(evr(a).epoch, evr(b).epoch),
        or_else(
            version_order(evr(a).version, evr(b).version),
            version_order(evr(a).release, evr(b).release),
        ),
    )
}

/// The epoch, version and release of `s`.
fn split_evr<'a>(s: &'a str) -> (r: (&'a str, &'a str, &'a str))
    ensures
        r.0@ == evr(s@).epoch,
        r.1@ == evr(s@).version,
        r.2@ == evr(s@).release,
{
    let (epoch, tail): (&'a str, &'a str) = match text::split_once(s, ":") {
        Some(h) => if text::digits_only(h.0) && !h.0.is_empty() {
            h
        } else {
            ("0", s)
        },
        None => ("0", s),
    };
    proof {
        reveal_strlit("");
        assert(""@ =~= Seq::<char>::empty());
    }
    match text::split_once(tail, "-") {
        Some(h) => (epoch, h.0, h.1),
        None => (epoch, tail, ""),
    }
}

/// Compare full `epoch:version-release` strings, e.g. `5:5.8.4-1.fc44`.
///
/// The epoch dominates, then the version, then the release. A missing epoch
/// is 0.
pub fn compare_evr(a: &str, b: &str) -> (r: Ordering)
    ensures
        r == evr_order(a@, b@),
{
    let (ea, va, ra) = split_evr(a);
    let (eb, vb, rb) = split_evr(b);
    let by_epoch = rpmvercmp(ea, eb);
    match by_epoch {
        Ordering::Equal => {},
        _ => {
            return by_epoch;
        },
    }
    let by_version = rpmvercmp(va, vb);
    match by_version {
        Ordering::Equal => {},
        _ => {
            return by_version;
        },
    }
    rpmvercmp(ra, rb)
}

/// How a target version relates to the currently booted one.
///
/// `Unknown` is for a side that is missing: no direction is claimed that cannot
/// be established.
#[derive(Debug, Clone, Copy, PartialEq, Eq, Structural)]
pub enum VersionChange {
    Upgrade,
    Downgrade,
    Same,
    Unknown,
}

/// A version that says nothing: blank, or the placeholder dash.
pub open spec fn is_missing(s: Seq<char>) -> bool {
    text::trimmed(s).len() == 0 || text::trimmed(s) == "—"@
}

/// The change from `current` to `target`.
pub open spec fn change(current: Seq<char>, target: Seq<char>) -> VersionChange {
    if is_missing(current) || is_missing(target) {
        VersionChange::Unknown
    } else {
        match evr_order(text::trimmed(target), text::trimmed(current)) {
            Ordering::Greater => VersionChange::Upgrade,
            Ordering::Less => VersionChange::Downgrade,
            Ordering::Equal => VersionChange::Same,
        }
    }
}

pub fn classify(current: &str, target: &str) -> (r: VersionChange)
    ensures
        r == change(current@, target@),
{
    let c = text::trim(current);
    let t = text::trim(target);
    if c.is_empty() || t.is_empty() || text::eq(c, "—") || text::eq(t, "—") {
        return VersionChange::Unknown;
    }
    match compare_evr(t, c) {
        Ordering::Greater => VersionChange::Upgrade,
        Ordering::Less => VersionChange::Downgrade,
        Ordering::Equal => VersionChange::Same,
    }
}

// ---------------------------------------------------------------------------
// Laws of the order

proof fn lemma_letters_laws(a: Seq<char>, b: Seq<char>, c: Seq<char>)
    ensures
        letters_order(b, a) == reversed(letters_order(a, b)),
        letters_order(a, b) != Ordering::Greater && letters_order(b, c) != Ordering::Greater
            ==> letters_order(a, c) != Ordering::Greater,
        letters_order(a, b) != Ordering::Greater && letters_order(b, c) != Ordering::Greater && (
        letters_order(a, b) == Ordering::Less || letters_order(b, c) == Ordering::Less)
            ==> letters_order(a, c) == Ordering::Less,
{
    text::lemma_lex_total(a, b);
    if text::lex_le(a, b) && text::lex_le(b, a) {
        text::lemma_lex_antisymmetric(a, b);
    }
    text::lemma_lex_reflexive(a);
    text::lemma_lex_reflexive(b);
    if text::lex_le(a, b) && text::lex_le(b, c) {
        text::lemma_lex_transitive(a, b, c);
    }
    if a == c && text::lex_le(b, a) && text::lex_le(a, b) {
        text::lemma_lex_antisymmetric(a, b);
    }
}

proof fn lemma_token_laws(a: Option<Token>, b: Option<Token>, c: Option<Token>)
    ensures
        token_order(a, a) == Ordering::Equal,
        token_order(b, a) == reversed(token_order(a, b)),
        token_order(a, b) == Ordering::Equal ==> a == b,
        token_order(a, b) != Ordering::Greater && token_order(b, c) != Ordering::Greater
            ==> token_order(a, c) != Ordering::Greater,
        token_order(a, b) != Ordering::Greater && token_order(b, c) != Ordering::Greater && (
        token_order(a, b) == Ordering::Less || token_order(b, c) == Ordering::Less) ==> token_order(
            a,
            c,
        ) == Ordering::Less,
{
    match (a, b, c) {
        (
            Some(Token::Letters(x)),
            Some(Token::Letters(y)),
            Some(Token::Letters(z)),
        ) => {
            lemma_letters_laws(x, y, z);
        },
        (Some(Token::Letters(x)), Some(Token::Letters(y)), _) => {
            lemma_letters_laws(x, y, x);
        },
        _ => {},
    }
}

proof fn lemma_tokens_reversed(a: Seq<Token>, b: Seq<Token>)
    ensures
        tokens_order(b, a) == reversed(tokens_order(a, b)),
    decreases a.len(),
{
    lemma_token_laws(first_token(a), first_token(b), None);
    if a.len() > 0 && b.len() > 0 {
        lemma_tokens_reversed(a.skip(1), b.skip(1));
    }
}

proof fn lemma_tokens_transitive(a: Seq<Token>, b: Seq<Token>, c: Seq<Token>)
    requires
        tokens_order(a, b) != Ordering::Greater,
        tokens_order(b, c) != Ordering::Greater,
    ensures
        tokens_order(a, c) != Ordering::Greater,
        tokens_order(a, b) == Ordering::Less || tokens_order(b, c) == Ordering::Less
            ==> tokens_order(a, c) == Ordering::Less,
    decreases a.len(),
{
    lemma_token_laws(first_token(a), first_token(b), first_token(c));
    lemma_token_laws(first_token(b), first_token(c), None);
    if a.len() > 0 && b.len() > 0 && c.len() > 0 && token_order(first_token(a), first_token(b))
        == Ordering::Equal && token_order(first_token(b), first_token(c)) == Ordering::Equal {
        lemma_tokens_transitive(a.skip(1), b.skip(1), c.skip(1));
    }
}

/// A version is no different from itself.
pub proof fn law_version_reflexive(a: Seq<char>)
    ensures
        version_order(a, a) == Ordering::Equal,
{
    lemma_tokens_reflexive(tokens(a));
}

/// Exchanging the sides reverses a comparison of versions.
pub proof fn law_version_reversed(a: Seq<char>, b: Seq<char>)
    ensures
        version_order(b, a) == reversed(version_order(a, b)),
{
    lemma_tokens_reversed(tokens(a), tokens(b));
}

/// The order of versions is transitive, and strict where one step is.
pub proof fn law_version_transitive(a: Seq<char>, b: Seq<char>, c: Seq<char>)
    requires
        version_order(a, b) != Ordering::Greater,
        version_order(b, c) != Ordering::Greater,
    ensures
        version_order(a, c) != Ordering::Greater,
        version_order(a, b) == Ordering::Less || version_order(b, c) == Ordering::Less
            ==> version_order(a, c) == Ordering::Less,
{
    lemma_tokens_transitive(tokens(a), tokens(b), tokens(c));
}

/// Exchanging the sides reverses a comparison of full strings, and a full
/// string is no different from itself.
pub proof fn law_evr_reversed(a: Seq<char>, b: Seq<char>)
    ensures
        evr_order(b, a) == reversed(evr_order(a, b)),
        evr_order(a, a) == Ordering::Equal,
{
    law_version_reversed(evr(a).epoch, evr(b).epoch);
    law_version_reversed(evr(a).version, evr(b).version);
    law_version_reversed(evr(a).release, evr(b).release);
    law_version_reflexive(evr(a).epoch);
    law_version_reflexive(evr(a).version);
    law_version_reflexive(evr(a).release);
}

/// What two comparisons of parts say of the third.
proof fn lemma_version_triangle(a: Seq<char>, b: Seq<char>, c: Seq<char>)
    ensures
        version_order(a, b) != Ordering::Greater && version_order(b, c) != Ordering::Greater
            ==> version_order(a, c) != Ordering::Greater,
        version_order(a, b) != Ordering::Greater && version_order(b, c) != Ordering::Greater && (
        version_order(a, b) == Ordering::Less || version_order(b, c) == Ordering::Less)
            ==> version_order(a, c) == Ordering::Less,
        version_order(a, b) == Ordering::Equal && version_order(b, c) == Ordering::Equal
            ==> version_order(a, c) == Ordering::Equal,
{
    if version_order(a, b) != Ordering::Greater && version_order(b, c) != Ordering::Greater {
        law_version_transitive(a, b, c);
    }
    law_version_reversed(a, b);
    law_version_reversed(b, c);
    law_version_reversed(a, c);
    if version_order(a, b) == Ordering::Equal && version_order(b, c) == Ordering::Equal {
        law_version_transitive(c, b, a);
    }
}

/// The order of full strings is transitive, and strict where one step is.
pub proof fn law_evr_transitive(a: Seq<char>, b: Seq<char>, c: Seq<char>)
    requires
        evr_order(a, b) != Ordering::Greater,
        evr_order(b, c) != Ordering::Greater,
    ensures
        evr_order(a, c) != Ordering::Greater,
        evr_order(a, b) == Ordering::Less || evr_order(b, c) == Ordering::Less ==> evr_order(a, c)
            == Ordering::Less,
{
    lemma_version_triangle(evr(a).epoch, evr(b).epoch, evr(c).epoch);
    lemma_version_triangle(evr(a).version, evr(b).version, evr(c).version);
    lemma_version_triangle(evr(a).release, evr(b).release, evr(c).release);
}

/// A change undone is the opposite change: what was an upgrade is a downgrade,
/// and what was unknown, or no change, stays so.
pub proof fn law_change_reversed(current: Seq<char>, target: Seq<char>)
    ensures
        change(current, target) is Upgrade <==> change(target, current) is Downgrade,
        change(current, target) is Same <==> change(target, current) is Same,
        change(current, target) is Unknown <==> change(target, current) is Unknown,
{
    law_evr_reversed(text::trimmed(current), text::trimmed(target));
}

/// No direction is claimed where a side is missing, and one is claimed, or the
/// versions are the same, where both are there.
pub proof fn law_change_known(current: Seq<char>, target: Seq<char>)
    ensures
        change(current, target) is Unknown <==> is_missing(current) || is_missing(target),
{
}

/// No run of digits or letters goes on from `a` into `b`.
pub open spec fn no_run_across(a: Seq<char>, b: Seq<char>) -> bool {
    a.len() > 0 && b.len() > 0 ==> {
        &&& !(text::is_digit(a.last()) && text::is_digit(b[0]))
        &&& !(text::is_alpha(a.last()) && text::is_alpha(b[0]))
    }
}

proof fn lemma_run_append(a: Seq<char>, b: Seq<char>, numeric: bool)
    requires
        no_run_across(a, b),
        a.len() > 0,
    ensures
        run_len(a + b, numeric) == run_len(a, numeric),
        run_len(a, numeric) <= a.len(),
    decreases a.len(),
{
    lemma_run_bound(a, numeric);
    if in_class(a[0], numeric) {
        assert((a + b).skip(1) =~= a.skip(1) + b);
        if a.len() > 1 {
            assert(a.skip(1).last() == a.last());
            lemma_run_append(a.skip(1), b, numeric);
        } else {
            assert(a.skip(1) + b =~= b);
            assert(a.last() == a[0]);
        }
    }
}

/// The tokens of two pieces that no run spans.
proof fn lemma_tokens_append(a: Seq<char>, b: Seq<char>)
    requires
        no_run_across(a, b),
    ensures
        tokens(a + b) == tokens(a) + tokens(b),
    decreases a.len(),
{
    if a.len() == 0 {
        assert(a + b =~= b);
        assert(tokens(a) + tokens(b) =~= tokens(b));
    } else {
        lemma_run_append(a, b, true);
        lemma_run_append(a, b, false);
        let n: int = if text::is_digit(a[0]) {
            run_len(a, true) as int
        } else if text::is_alpha(a[0]) {
            run_len(a, false) as int
        } else {
            1
        };
        assert((a + b).skip(n) =~= a.skip(n) + b);
        assert((a + b).take(n) =~= a.take(n));
        if n < a.len() {
            assert(a.skip(n).last() == a.last());
        }
        lemma_tokens_append(a.skip(n), b);
        assert((a + b)[0] == a[0]);
        if text::is_digit(a[0]) {
            let t = seq![Token::Number(text::number(a.take(n)))];
            assert(t + (tokens(a.skip(n)) + tokens(b)) =~= (t + tokens(a.skip(n))) + tokens(b));
        } else if text::is_alpha(a[0]) {
            let t = seq![Token::Letters(a.take(n))];
            assert(t + (tokens(a.skip(n)) + tokens(b)) =~= (t + tokens(a.skip(n))) + tokens(b));
        } else if a[0] == '~' {
            let t = seq![Token::Tilde];
            assert(t + (tokens(a.skip(n)) + tokens(b)) =~= (t + tokens(a.skip(n))) + tokens(b));
        } else if a[0] == '^' {
            let t = seq![Token::Caret];
            assert(t + (tokens(a.skip(n)) + tokens(b)) =~= (t + tokens(a.skip(n))) + tokens(b));
        }
    }
}

/// A common beginning does not take part in a comparison.
proof fn lemma_common_prefix(p: Seq<Token>, a: Seq<Token>, b: Seq<Token>)
    ensures
        tokens_order(p + a, p + b) == tokens_order(a, b),
    decreases p.len(),
{
    if p.len() == 0 {
        assert(p + a =~= a);
        assert(p + b =~= b);
    } else {
        lemma_common_prefix(p.skip(1), a, b);
        assert((p + a).skip(1) =~= p.skip(1) + a);
        assert((p + b).skip(1) =~= p.skip(1) + b);
        lemma_token_laws(Some(p[0]), Some(p[0]), None);
    }
}

/// A version behind which stand a mark and more is read as the version, the
/// mark and more.
proof fn lemma_marked_tokens(v: Seq<char>, mark: char, more: Seq<char>)
    requires
        mark == '~' || mark == '^',
    ensures
        tokens(v + seq![mark] + more) == tokens(v) + (seq![if mark == '~' {
            Token::Tilde
        } else {
            Token::Caret
        }] + tokens(more)),
{
    let tail = seq![mark] + more;
    assert(v + seq![mark] + more =~= v + tail);
    assert(tail.skip(1) =~= more);
    lemma_tokens_append(v, tail);
}

/// `~` sorts before everything, even the end: a version with a tilde and
/// anything behind it is older than the version itself.
pub proof fn law_tilde_is_older(v: Seq<char>, more: Seq<char>)
    ensures
        version_order(v + seq!['~'] + more, v) == Ordering::Less,
{
    lemma_marked_tokens(v, '~', more);
    let tail = seq![Token::Tilde] + tokens(more);
    assert(tokens(v) + Seq::<Token>::empty() =~= tokens(v));
    lemma_common_prefix(tokens(v), tail, Seq::empty());
}

/// `^` marks a snapshot made after a release: it is newer than the release, and
/// older than the release with a number or letters behind it.
pub proof fn law_caret_is_newer(v: Seq<char>, more: Seq<char>, next: Seq<char>)
    requires
        next.len() > 0,
        text::is_digit(next[0]) || text::is_alpha(next[0]),
        no_run_across(v, next),
    ensures
        version_order(v + seq!['^'] + more, v) == Ordering::Greater,
        version_order(v + seq!['^'] + more, v + next) == Ordering::Less,
{
    lemma_marked_tokens(v, '^', more);
    let tail = seq![Token::Caret] + tokens(more);
    assert(tokens(v) + Seq::<Token>::empty() =~= tokens(v));
    lemma_common_prefix(tokens(v), tail, Seq::empty());
    lemma_tokens_append(v, next);
    lemma_first_token(next);
    lemma_common_prefix(tokens(v), tail, tokens(next));
}

/// `b` is `a` with separators exchanged for others.
pub open spec fn same_but_separators(a: Seq<char>, b: Seq<char>) -> bool {
    &&& a.len() == b.len()
    &&& forall|i: int|
        #![trigger a[i]]
        #![trigger b[i]]
        0 <= i < a.len() ==> a[i] == b[i] || (!is_significant(a[i]) && !is_significant(b[i]))
}

proof fn lemma_same_runs(a: Seq<char>, b: Seq<char>, numeric: bool)
    requires
        same_but_separators(a, b),
    ensures
        run_len(a, numeric) == run_len(b, numeric),
        run_len(a, numeric) <= a.len(),
        a.take(run_len(a, numeric) as int) == b.take(run_len(a, numeric) as int),
    decreases a.len(),
{
    lemma_run_bound(a, numeric);
    if a.len() > 0 {
        assert(a[0] == b[0] || (!is_significant(a[0]) && !is_significant(b[0])));
        if in_class(a[0], numeric) {
            assert(same_but_separators(a.skip(1), b.skip(1)));
            lemma_same_runs(a.skip(1), b.skip(1), numeric);
            let n = run_len(a, numeric) as int;
            let m = run_len(a.skip(1), numeric) as int;
            assert(n == m + 1);
            assert forall|i: int| 0 <= i < n implies a.take(n)[i] == b.take(n)[i] by {
                if i > 0 {
                    assert(a.skip(1).take(m)[i - 1] == b.skip(1).take(m)[i - 1]);
                }
            }
        }
        assert(a.take(run_len(a, numeric) as int) =~= b.take(run_len(a, numeric) as int));
    } else {
        assert(a =~= b);
    }
}

proof fn lemma_same_tokens(a: Seq<char>, b: Seq<char>)
    requires
        same_but_separators(a, b),
    ensures
        tokens(a) == tokens(b),
    decreases a.len(),
{
    if a.len() > 0 {
        lemma_same_runs(a, b, true);
        lemma_same_runs(a, b, false);
        assert(a[0] == b[0] || (!is_significant(a[0]) && !is_significant(b[0])));
        let n: int = if text::is_digit(a[0]) {
            run_len(a, true) as int
        } else if text::is_alpha(a[0]) {
            run_len(a, false) as int
        } else {
            1
        };
        assert(same_but_separators(a.skip(n), b.skip(n)));
        lemma_same_tokens(a.skip(n), b.skip(n));
    }
}

/// Which separators stand in a version makes no difference.
pub proof fn law_separators_are_alike(a: Seq<char>, b: Seq<char>)
    requires
        same_but_separators(a, b),
    ensures
        version_order(a, b) == Ordering::Equal,
{
    lemma_same_tokens(a, b);
    lemma_tokens_reflexive(tokens(a));
}

proof fn lemma_zero_run(s: Seq<char>)
    requires
        s.len() > 0,
        text::is_digit(s[0]),
    ensures
        tokens(seq!['0'] + s) == tokens(s),
{
    let z = seq!['0'] + s;
    assert(z.skip(1) =~= s);
    let n = run_len(s, true) as int;
    lemma_run_bound(s, true);
    assert(run_len(z, true) == n + 1);
    assert(z.skip(n + 1) =~= s.skip(n));
    assert(z.take(n + 1).skip(1) =~= s.take(n));
    text::lemma_number_front(z.take(n + 1));
    assert(0 * text::pow10(n as nat) == 0) by (nonlinear_arith);
}

/// A zero before a number makes no difference.
pub proof fn law_leading_zero(before: Seq<char>, number: Seq<char>)
    requires
        number.len() > 0,
        text::is_digit(number[0]),
        before.len() > 0 ==> !text::is_digit(before.last()),
    ensures
        version_order(before + seq!['0'] + number, before + number) == Ordering::Equal,
{
    assert(before + seq!['0'] + number =~= before + (seq!['0'] + number));
    lemma_tokens_append(before, seq!['0'] + number);
    lemma_tokens_append(before, number);
    lemma_zero_run(number);
    lemma_tokens_reflexive(tokens(before + number));
}

/// A run of digits on its own is read as one number.
proof fn lemma_digits_token(s: Seq<char>)
    requires
        s.len() > 0,
        text::all_digits(s),
    ensures
        tokens(s) == seq![Token::Number(text::number(s))],
{
    lemma_all_run(s);
    reveal_with_fuel(tokens, 2);
    assert(text::is_digit(s[0]));
    assert(s.take(s.len() as int) =~= s);
    assert(s.skip(s.len() as int) =~= Seq::<char>::empty());
    assert(seq![Token::Number(text::number(s))] + Seq::<Token>::empty() =~= seq![
        Token::Number(text::number(s)),
    ]);
}

proof fn lemma_all_run(s: Seq<char>)
    requires
        text::all_digits(s),
    ensures
        run_len(s, true) == s.len(),
    decreases s.len(),
{
    if s.len() > 0 {
        assert(text::is_digit(s[0]));
        assert(text::all_digits(s.skip(1)));
        lemma_all_run(s.skip(1));
    }
}

/// The number that the epoch of `s` denotes.
pub open spec fn epoch_number(s: Seq<char>) -> nat {
    text::number(evr(s).epoch)
}

proof fn lemma_epoch_digits(s: Seq<char>)
    ensures
        evr(s).epoch.len() > 0,
        text::all_digits(evr(s).epoch),
        !has_epoch(s) ==> epoch_number(s) == 0,
{
    reveal_strlit("0");
    reveal_with_fuel(text::number, 2);
    assert("0"@.drop_last() =~= Seq::<char>::empty());
}

/// Where the epochs are different numbers, they alone decide; a missing epoch
/// is zero.
pub proof fn law_epoch_dominates(a: Seq<char>, b: Seq<char>)
    ensures
        epoch_number(a) != epoch_number(b) ==> evr_order(a, b) == nat_order(
            epoch_number(a),
            epoch_number(b),
        ),
        !has_epoch(a) ==> epoch_number(a) == 0,
{
    lemma_epoch_digits(a);
    lemma_epoch_digits(b);
    lemma_digits_token(evr(a).epoch);
    lemma_digits_token(evr(b).epoch);
}

/// A run of letters on its own is read as one token.
proof fn lemma_letters_token(s: Seq<char>)
    requires
        s.len() > 0,
        forall|i: int| 0 <= i < s.len() ==> text::is_alpha(#[trigger] s[i]),
    ensures
        tokens(s) == seq![Token::Letters(s)],
{
    lemma_all_letters_run(s);
    reveal_with_fuel(tokens, 2);
    assert(text::is_alpha(s[0]));
    assert(s.take(s.len() as int) =~= s);
    assert(s.skip(s.len() as int) =~= Seq::<char>::empty());
    assert(seq![Token::Letters(s)] + Seq::<Token>::empty() =~= seq![Token::Letters(s)]);
}

proof fn lemma_all_letters_run(s: Seq<char>)
    requires
        forall|i: int| 0 <= i < s.len() ==> text::is_alpha(#[trigger] s[i]),
    ensures
        run_len(s, false) == s.len(),
    decreases s.len(),
{
    if s.len() > 0 {
        assert(text::is_alpha(s[0]));
        lemma_all_letters_run(s.skip(1));
    }
}

/// `x` comes before `y` in a dictionary: it is a proper beginning of `y`, or it
/// has the smaller character at the first place where they differ.
pub open spec fn comes_before(x: Seq<char>, y: Seq<char>) -> bool {
    exists|k: int|
        #![trigger x.take(k)]
        0 <= k <= x.len() && k < y.len() && x.take(k) == y.take(k) && (k == x.len() || x[k] < y[k])
}

proof fn lemma_dictionary(x: Seq<char>, y: Seq<char>, k: int)
    requires
        0 <= k <= x.len(),
        k < y.len(),
        x.take(k) == y.take(k),
        k == x.len() || x[k] < y[k],
    ensures
        text::lex_le(x, y),
        x != y,
    decreases k,
{
    if k > 0 {
        let tx = x.take(k);
        let ty = y.take(k);
        assert(x[0] == tx[0] && y[0] == ty[0]);
        let u = x.skip(1).take(k - 1);
        let v = y.skip(1).take(k - 1);
        assert forall|i: int| 0 <= i < k - 1 implies #[trigger] u[i] == v[i] by {
            assert(u[i] == x[i + 1] && x[i + 1] == tx[i + 1]);
            assert(v[i] == y[i + 1] && y[i + 1] == ty[i + 1]);
        }
        assert(u =~= v);
        lemma_dictionary(x.skip(1), y.skip(1), k - 1);
    }
}

/// The order of strings is that of a dictionary.
pub proof fn lemma_before_in_dictionary(x: Seq<char>, y: Seq<char>)
    requires
        text::lex_le(x, y),
        x != y,
    ensures
        comes_before(x, y),
    decreases x.len(),
{
    if x.len() == 0 {
        assert(y.len() > 0) by {
            if y.len() == 0 {
                assert(x =~= y);
            }
        }
        assert(x.take(0) =~= y.take(0));
    } else if x[0] != y[0] {
        assert(x.take(0) =~= y.take(0));
    } else {
        assert(x.skip(1) != y.skip(1)) by {
            if x.skip(1) == y.skip(1) {
                assert(x =~= seq![x[0]] + x.skip(1));
                assert(y =~= seq![y[0]] + y.skip(1));
            }
        }
        let u = x.skip(1);
        let v = y.skip(1);
        lemma_before_in_dictionary(u, v);
        let k = choose|k: int|
            #![trigger u.take(k)]
            0 <= k <= u.len() && k < v.len() && u.take(k) == v.take(k) && (k == u.len() || u[k]
                < v[k]);
        assert forall|i: int| 0 <= i < k + 1 implies #[trigger] x.take(k + 1)[i] == y.take(k + 1)[i] by {
            if i > 0 {
                assert(u.take(k)[i - 1] == v.take(k)[i - 1]);
                assert(x[i] == u[i - 1] && y[i] == v[i - 1]);
            }
        }
        assert(x.take(k + 1) =~= y.take(k + 1));
        assert(k < u.len() ==> x[k + 1] == u[k]);
        assert(y[k + 1] == v[k]);
    }
}

/// What stands in front of two runs, and behind them, leaves the comparison to
/// the runs where they differ.
proof fn lemma_runs_decide(
    p: Seq<char>,
    x: Seq<char>,
    s: Seq<char>,
    y: Seq<char>,
    t: Seq<char>,
    a: Token,
    b: Token,
)
    requires
        x.len() > 0,
        y.len() > 0,
        no_run_across(p, x),
        no_run_across(x, s),
        no_run_across(p, y),
        no_run_across(y, t),
        tokens(x) == seq![a],
        tokens(y) == seq![b],
        token_order(Some(a), Some(b)) != Ordering::Equal,
    ensures
        version_order(p + x + s, p + y + t) == token_order(Some(a), Some(b)),
{
    assert((p + x).last() == x.last());
    assert((p + y).last() == y.last());
    lemma_tokens_append(p, x);
    lemma_tokens_append(p + x, s);
    lemma_tokens_append(p, y);
    lemma_tokens_append(p + y, t);
    assert(tokens(p) + seq![a] + tokens(s) =~= tokens(p) + (seq![a] + tokens(s)));
    assert(tokens(p) + seq![b] + tokens(t) =~= tokens(p) + (seq![b] + tokens(t)));
    lemma_common_prefix(tokens(p), seq![a] + tokens(s), seq![b] + tokens(t));
    lemma_order_step(a, b, tokens(s), tokens(t));
}

/// Runs of letters compare in dictionary order, whatever their lengths, and
/// whatever follows them: `alpha` is older than `beta`.
pub proof fn law_letters_in_dictionary_order(
    p: Seq<char>,
    x: Seq<char>,
    s: Seq<char>,
    y: Seq<char>,
    t: Seq<char>,
)
    requires
        x.len() > 0,
        forall|i: int| 0 <= i < x.len() ==> text::is_alpha(#[trigger] x[i]),
        forall|i: int| 0 <= i < y.len() ==> text::is_alpha(#[trigger] y[i]),
        comes_before(x, y),
        no_run_across(p, x),
        no_run_across(x, s),
        no_run_across(p, y),
        no_run_across(y, t),
    ensures
        version_order(p + x + s, p + y + t) == Ordering::Less,
        version_order(p + y + t, p + x + s) == Ordering::Greater,
{
    let k = choose|k: int|
        #![trigger x.take(k)]
        0 <= k <= x.len() && k < y.len() && x.take(k) == y.take(k) && (k == x.len() || x[k] < y[k]);
    lemma_dictionary(x, y, k);
    lemma_letters_token(x);
    lemma_letters_token(y);
    lemma_runs_decide(p, x, s, y, t, Token::Letters(x), Token::Letters(y));
    law_version_reversed(p + x + s, p + y + t);
}

/// Runs of digits compare as numbers, whatever follows them: of two without a
/// leading zero the longer is the larger, and of two of one length the one with
/// the larger digit at the first place where they differ.
pub proof fn law_numbers_by_size(
    p: Seq<char>,
    x: Seq<char>,
    s: Seq<char>,
    y: Seq<char>,
    t: Seq<char>,
)
    requires
        x.len() > 0,
        text::all_digits(x),
        text::all_digits(y),
        x[0] != '0',
        y.len() > 0 && y[0] != '0',
        x.len() < y.len() || (x.len() == y.len() && comes_before(x, y)),
        no_run_across(p, x),
        no_run_across(x, s),
        no_run_across(p, y),
        no_run_across(y, t),
    ensures
        version_order(p + x + s, p + y + t) == Ordering::Less,
        version_order(p + y + t, p + x + s) == Ordering::Greater,
{
    if x.len() < y.len() {
        lemma_longer_is_larger(x, y);
    } else {
        let k = choose|k: int|
            #![trigger x.take(k)]
            0 <= k <= x.len() && k < y.len() && x.take(k) == y.take(k) && (k == x.len() || x[k]
                < y[k]);
        lemma_dictionary(x, y, k);
        lemma_same_length(x, y);
    }
    lemma_digits_token(x);
    lemma_digits_token(y);
    lemma_runs_decide(
        p,
        x,
        s,
        y,
        t,
        Token::Number(text::number(x)),
        Token::Number(text::number(y)),
    );
    law_version_reversed(p + x + s, p + y + t);
}

/// Behind one beginning, a number is newer than letters, and more than nothing:
/// a version with a number or letters behind it is newer than the version.
pub proof fn law_number_outranks_letters(
    p: Seq<char>,
    digits: Seq<char>,
    letters: Seq<char>,
)
    requires
        digits.len() > 0,
        letters.len() > 0,
        text::is_digit(digits[0]),
        text::is_alpha(letters[0]),
        no_run_across(p, digits),
        no_run_across(p, letters),
    ensures
        version_order(p + digits, p + letters) == Ordering::Greater,
        version_order(p + letters, p) == Ordering::Greater,
        version_order(p + digits, p) == Ordering::Greater,
{
    lemma_tokens_append(p, digits);
    lemma_tokens_append(p, letters);
    lemma_first_token(digits);
    lemma_first_token(letters);
    lemma_common_prefix(tokens(p), tokens(digits), tokens(letters));
    assert(tokens(p) + Seq::<Token>::empty() =~= tokens(p));
    lemma_common_prefix(tokens(p), tokens(letters), Seq::empty());
    lemma_common_prefix(tokens(p), tokens(digits), Seq::empty());
}

/// How many separators stand in one place makes no difference, and neither do
/// separators at the end.
pub proof fn law_separators_do_not_count(a: Seq<char>, more: Seq<char>, c: char, b: Seq<char>)
    requires
        forall|i: int| 0 <= i < more.len() ==> !is_significant(#[trigger] more[i]),
        !is_significant(c),
    ensures
        version_order(a + seq![c] + more + b, a + seq![c] + b) == Ordering::Equal,
        version_order(a + seq![c] + more, a) == Ordering::Equal,
{
    let one = seq![c];
    let many = one + more;
    lemma_only_separators(one);
    lemma_only_separators(many);
    assert(a + one + more + b =~= a + many + b);
    assert(a + one + more =~= a + many);
    lemma_tokens_append(a, one);
    lemma_tokens_append(a, many);
    assert((a + one).last() == c);
    assert(!is_significant((a + many).last()));
    lemma_tokens_append(a + one, b);
    lemma_tokens_append(a + many, b);
    assert(tokens(a) + Seq::<Token>::empty() =~= tokens(a));
    lemma_tokens_reflexive(tokens(a));
    lemma_tokens_reflexive(tokens(a) + tokens(b));
}

proof fn lemma_only_separators(s: Seq<char>)
    requires
        forall|i: int| 0 <= i < s.len() ==> !is_significant(#[trigger] s[i]),
    ensures
        tokens(s) == Seq::<Token>::empty(),
    decreases s.len(),
{
    if s.len() > 0 {
        assert(!is_significant(s[0]));
        lemma_only_separators(s.skip(1));
    }
}

/// Letters, digits, `~` and `^` count in a version, and nothing else does.
pub proof fn law_what_counts(c: char)
    ensures
        is_significant(c) <==> ('0' <= c <= '9' || 'a' <= c <= 'z' || 'A' <= c <= 'Z' || c == '~'
            || c == '^'),
{
}

/// Where neither has an epoch, the versions before the first hyphens decide, and
/// the releases behind them where these are no different.
pub proof fn law_version_before_release(
    v: Seq<char>,
    r: Seq<char>,
    w: Seq<char>,
    q: Seq<char>,
)
    requires
        !v.contains('-') && !v.contains(':') && !r.contains(':'),
        !w.contains('-') && !w.contains(':') && !q.contains(':'),
    ensures
        evr_order(v + "-"@ + r, w + "-"@ + q) == (if version_order(v, w) != Ordering::Equal {
            version_order(v, w)
        } else {
            version_order(r, q)
        }),
        evr_order(v, w) == version_order(v, w),
{
    lemma_evr_of(v, r);
    lemma_evr_of(w, q);
    lemma_evr_of_version(v);
    lemma_evr_of_version(w);
    law_version_reflexive("0"@);
    law_version_reflexive(Seq::empty());
}

proof fn lemma_no_colon_no_epoch(s: Seq<char>)
    requires
        !s.contains(':'),
    ensures
        !has_epoch(s),
{
    reveal_strlit(":");
    if text::occurs(s, ":"@) {
        let i = choose|i: int| text::occurs_at(s, ":"@, i);
        assert(s.subrange(i, i + 1)[0] == ':');
        assert(s[i] == ':');
    }
}

proof fn lemma_evr_of_version(v: Seq<char>)
    requires
        !v.contains('-') && !v.contains(':'),
    ensures
        evr(v) == (Evr { epoch: "0"@, version: v, release: Seq::empty() }),
{
    lemma_no_colon_no_epoch(v);
    reveal_strlit("-");
    if text::occurs(v, "-"@) {
        let i = choose|i: int| text::occurs_at(v, "-"@, i);
        assert(v.subrange(i, i + 1)[0] == '-');
        assert(v[i] == '-');
    }
}

proof fn lemma_evr_of(v: Seq<char>, r: Seq<char>)
    requires
        !v.contains('-') && !v.contains(':') && !r.contains(':'),
    ensures
        evr(v + "-"@ + r) == (Evr { epoch: "0"@, version: v, release: r }),
{
    let s = v + "-"@ + r;
    reveal_strlit("-");
    assert(!s.contains(':')) by {
        if s.contains(':') {
            let i = choose|i: int| 0 <= i < s.len() && s[i] == ':';
            if i < v.len() {
                assert(v[i] == ':');
            } else if i > v.len() {
                assert(r[i - v.len() - 1] == ':');
            }
        }
    }
    lemma_no_colon_no_epoch(s);
    text::law_first_half(v, '-', r, "-"@);
}

/// A number and a colon in front are the epoch: behind equal epochs the rest
/// decides as it does without them.
pub proof fn law_equal_epochs_do_not_count(e: Seq<char>, a: Seq<char>, b: Seq<char>)
    requires
        e.len() > 0,
        text::all_digits(e),
        !a.contains(':') && !b.contains(':'),
    ensures
        evr_order(e + ":"@ + a, e + ":"@ + b) == evr_order(a, b),
        epoch_number(e + ":"@ + a) == text::number(e),
{
    reveal_strlit(":");
    assert(!e.contains(':')) by {
        if e.contains(':') {
            let i = choose|i: int| 0 <= i < e.len() && e[i] == ':';
            assert(text::is_digit(e[i]));
        }
    }
    text::law_first_half(e, ':', a, ":"@);
    text::law_first_half(e, ':', b, ":"@);
    lemma_no_colon_no_epoch(a);
    lemma_no_colon_no_epoch(b);
    law_version_reflexive(e);
    law_version_reflexive("0"@);
}

/// A target that is newer is an upgrade, one that is older a downgrade, and one
/// that is no different is the same; blanks around do not count.
pub proof fn law_change_has_the_direction_of_the_order(current: Seq<char>, target: Seq<char>)
    requires
        !is_missing(current),
        !is_missing(target),
    ensures
        ({
            let c = text::trimmed(current);
            let t = text::trimmed(target);
            &&& change(current, target) is Upgrade <==> evr_order(c, t) == Ordering::Less
            &&& change(current, target) is Downgrade <==> evr_order(c, t) == Ordering::Greater
            &&& change(current, target) is Same <==> evr_order(c, t) == Ordering::Equal
        }),
{
    law_evr_reversed(text::trimmed(current), text::trimmed(target));
}

/// A version is missing where there is nothing between the blanks around it, or
/// a lone dash, and only there.
pub proof fn law_what_is_missing(a: Seq<char>, s: Seq<char>, b: Seq<char>)
    requires
        forall|k: int| 0 <= k < a.len() ==> text::is_space(#[trigger] a[k]),
        forall|k: int| 0 <= k < b.len() ==> text::is_space(#[trigger] b[k]),
        s.len() > 0 ==> !text::is_space(s[0]) && !text::is_space(s.last()),
    ensures
        is_missing(a + s + b) <==> s.len() == 0 || s == seq!['—'],
{
    text::law_trim(a, s, b);
    reveal_strlit("—");
    assert("—"@ =~= seq!['—']);
}

} // verus!
