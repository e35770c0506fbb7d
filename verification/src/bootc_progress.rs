//! Progress of `bootc switch`, as far as its output tells.

use vstd::prelude::*;
use crate::text;

verus! {

/// What one line of output tells.
#[derive(Debug, Clone, PartialEq)]
pub enum BootcProgress {
    /// So many of so many layers.
    Fraction { current: u32, total: u32 },
    /// The phase, as it is shown.
    Status(String),
}

/// A progress, taken by its characters.
pub enum ProgressModel {
    Fraction { current: int, total: int },
    Status(Seq<char>),
}

impl View for BootcProgress {
    type V = ProgressModel;

    open spec fn view(&self) -> ProgressModel {
        match self {
            BootcProgress::Fraction { current, total } => ProgressModel::Fraction {
                current: *current as int,
                total: *total as int,
            },
            BootcProgress::Status(s) => ProgressModel::Status(s@),
        }
    }
}

pub open spec fn opt_progress(p: Option<BootcProgress>) -> Option<ProgressModel> {
    match p {
        Some(x) => Some(x@),
        None => None,
    }
}

/// Space, tab, line feed, form feed, carriage return.
pub open spec fn is_blank(c: char) -> bool {
    c == ' ' || c == '\t' || c == '\n' || c == '\u{c}' || c == '\r'
}

fn blank(c: char) -> (r: bool)
    ensures
        r == is_blank(c),
{
    c == ' ' || c == '\t' || c == '\n' || c == '\u{c}' || c == '\r'
}

/// The words of `s`: what stands between blanks.
pub open spec fn words(s: Seq<char>) -> Seq<Seq<char>>
    decreases s.len(),
{
    if s.len() == 0 {
        Seq::empty()
    } else {
        let front = s.drop_last();
        if is_blank(s.last()) {
            words(front)
        } else if front.len() == 0 || is_blank(front.last()) {
            words(front).push(seq![s.last()])
        } else {
            words(front).drop_last().push(words(front).last().push(s.last()))
        }
    }
}

/// `n` of `m` layers, where that makes sense as a fraction of an image.
pub open spec fn ratio(a: Seq<char>, b: Seq<char>) -> Option<ProgressModel> {
    match (count(a), count(b)) {
        (Some(n), Some(m)) => if m > 0 && n <= m && m <= 1000 {
            Some(ProgressModel::Fraction { current: n, total: m })
        } else {
            None
        },
        _ => None,
    }
}

/// A number that counts something.
pub open spec fn count(s: Seq<char>) -> Option<int> {
    match text::integer(s) {
        Some(n) => if s[0] != '-' && n <= u32::MAX {
            Some(n)
        } else {
            None
        },
        None => None,
    }
}

/// A word of the form `n/m`.
pub open spec fn slashed(word: Seq<char>) -> Option<ProgressModel> {
    match text::halves(word, "/"@) {
        Some(h) => ratio(h.0, h.1),
        None => None,
    }
}

/// The words `n of m layers pulled` from `i` on.
pub open spec fn spelled(ws: Seq<Seq<char>>, i: int) -> Option<ProgressModel> {
    if 0 <= i && i + 4 < ws.len() && ws[i + 1] == "of"@ && ws[i + 3] == "layers"@ && ws[i + 4]
        == "pulled"@ {
        ratio(ws[i], ws[i + 2])
    } else {
        None
    }
}

/// The first fraction of the form `n/m` among the words before `k`.
pub open spec fn first_slashed(ws: Seq<Seq<char>>, k: int) -> Option<ProgressModel>
    decreases k,
{
    if k <= 0 {
        None
    } else {
        match first_slashed(ws, k - 1) {
            Some(p) => Some(p),
            None => slashed(ws[k - 1]),
        }
    }
}

/// The first fraction that is spelled out before the word `k`.
pub open spec fn first_spelled(ws: Seq<Seq<char>>, k: int) -> Option<ProgressModel>
    decreases k,
{
    if k <= 0 {
        None
    } else {
        match first_spelled(ws, k - 1) {
            Some(p) => Some(p),
            None => spelled(ws, k - 1),
        }
    }
}

/// Whether a character is a letter of some script.
pub uninterp spec fn is_alphabetic(c: char) -> bool;

/// `char::is_alphabetic`: the Unicode property `Alphabetic`, which among the
/// ASCII characters the letters have.
pub assume_specification[ char::is_alphabetic ](c: char) -> (r: bool)
    ensures
        r == is_alphabetic(c),
        (c as u32) < 128 ==> r == text::is_alpha(c),
;

/// A word without what stands behind its last letter.
pub open spec fn stem(word: Seq<char>) -> Seq<char>
    decreases word.len(),
{
    if word.len() > 0 && !is_alphabetic(word.last()) {
        stem(word.drop_last())
    } else {
        word
    }
}

/// An ASCII capital as a small letter.
pub open spec fn lower(c: char) -> char {
    if 'A' <= c && c <= 'Z' {
        (c as int + 32) as char
    } else {
        c
    }
}

pub open spec fn lowered(s: Seq<char>) -> Seq<char> {
    Seq::new(s.len(), |i: int| lower(s[i]))
}

/// What a phase is shown as.
pub open spec fn phase(word: Seq<char>) -> Option<Seq<char>> {
    if word == "pulling"@ {
        Some("Pulling new image layers…"@)
    } else if word == "fetching"@ {
        Some("Fetching image…"@)
    } else if word == "importing"@ {
        Some("Importing layers…"@)
    } else if word == "staging"@ {
        Some("Staging deployment…"@)
    } else if word == "writing"@ {
        Some("Writing deployment…"@)
    } else if word == "deploying"@ {
        Some("Deploying…"@)
    } else {
        None
    }
}

/// The phase that the words of a line begin with.
pub open spec fn phase_of(ws: Seq<Seq<char>>) -> Option<ProgressModel> {
    if ws.len() == 0 {
        None
    } else {
        match phase(lowered(stem(ws[0]))) {
            Some(s) => Some(ProgressModel::Status(s)),
            None => None,
        }
    }
}

/// What a line tells: a fraction, else a phase, else nothing.
pub open spec fn progress(line: Seq<char>) -> Option<ProgressModel> {
    let ws = words(text::trimmed(line));
    match first_slashed(ws, ws.len() as int) {
        Some(p) => Some(p),
        None => match first_spelled(ws, ws.len() as int) {
            Some(p) => Some(p),
            None => phase_of(ws),
        },
    }
}

fn split_words<'a>(s: &'a str) -> (r: Vec<&'a str>)
    ensures
        text::strs(r@) == words(s@),
{
    let cs = text::chars_of(s);
    let n: usize = cs.len();
    let mut out: Vec<&'a str> = Vec::new();
    let mut start: usize = 0;
    let mut i: usize = 0;
    assert(text::strs(out@) =~= words(s@.take(0)));
    while i < n
        invariant
            n == s@.len(),
            cs@ == s@,
            start <= i <= n,
            forall|j: int| start <= j < i ==> !is_blank(#[trigger] s@[j]),
            start > 0 ==> is_blank(s@[start - 1]),
            text::strs(out@) + (if start < i {
                seq![s@.subrange(start as int, i as int)]
            } else {
                Seq::empty()
            }) == words(s@.take(i as int)),
        decreases n - i,
    {
        let ghost done = text::strs(out@);
        let ghost cur = s@.subrange(start as int, i as int);
        let ghost front = s@.take(i as int);
        proof {
            assert(s@.take(i + 1).drop_last() =~= front);
            assert(s@.take(i + 1).last() == s@[i as int]);
        }
        if blank(cs[i]) {
            if start < i {
                out.push(text::slice(s, start, i));
                assert(text::strs(out@) =~= done + seq![cur]);
            }
            start = i + 1;
            assert(text::strs(out@) + Seq::<Seq<char>>::empty() =~= text::strs(out@));
            assert(done + Seq::<Seq<char>>::empty() =~= done);
        } else {
            proof {
                let longer = s@.subrange(start as int, i + 1);
                assert(longer =~= cur.push(s@[i as int]));
                if start < i {
                    assert(front.last() == s@[i - 1]);
                    assert((done + seq![cur]).drop_last() =~= done);
                    assert(done + seq![longer] =~= done.push(longer));
                } else {
                    assert(cur =~= Seq::<char>::empty());
                    assert(longer =~= seq![s@[i as int]]);
                    assert(done + Seq::<Seq<char>>::empty() =~= done);
                    assert(done + seq![longer] =~= done.push(longer));
                    if i > 0 {
                        assert(front.last() == s@[i - 1]);
                    }
                }
            }
        }
        i += 1;
    }
    assert(s@.take(n as int) =~= s@);
    if start < n {
        let ghost done = text::strs(out@);
        out.push(text::slice(s, start, n));
        assert(text::strs(out@) =~= done + seq![s@.subrange(start as int, n as int)]);
    } else {
        assert(text::strs(out@) + Seq::<Seq<char>>::empty() =~= text::strs(out@));
    }
    out
}

fn parse_count(s: &str) -> (r: Option<u32>)
    ensures
        match r {
            Some(n) => count(s@) == Some(n as int),
            None => count(s@) is None,
        },
{
    text::parse_u32(s)
}

fn parse_ratio(a: &str, b: &str) -> (r: Option<BootcProgress>)
    ensures
        opt_progress(r) == ratio(a@, b@),
{
    match (parse_count(a), parse_count(b)) {
        (Some(current), Some(total)) => if total > 0 && current <= total && total <= 1000 {
            Some(BootcProgress::Fraction { current, total })
        } else {
            None
        },
        _ => None,
    }
}

fn find_slashed(ws: &Vec<&str>) -> (r: Option<BootcProgress>)
    ensures
        opt_progress(r) == first_slashed(text::strs(ws@), ws@.len() as int),
{
    let ghost all = text::strs(ws@);
    let mut i: usize = 0;
    while i < ws.len()
        invariant
            i <= ws@.len(),
            all == text::strs(ws@),
            first_slashed(all, i as int) is None,
        decreases ws@.len() - i,
    {
        assert(all[i as int] == ws@[i as int]@);
        match text::split_once(ws[i], "/") {
            Some((a, b)) => match parse_ratio(a, b) {
                Some(p) => {
                    proof {
                        lemma_slashed_stays(all, i + 1, all.len() as int);
                    }
                    return Some(p);
                },
                None => {},
            },
            None => {},
        }
        i += 1;
    }
    None
}

proof fn lemma_slashed_stays(ws: Seq<Seq<char>>, k: int, n: int)
    requires
        0 <= k <= n,
        first_slashed(ws, k) is Some,
    ensures
        first_slashed(ws, n) == first_slashed(ws, k),
    decreases n - k,
{
    if k < n {
        lemma_slashed_stays(ws, k, n - 1);
    }
}

fn find_spelled(ws: &Vec<&str>) -> (r: Option<BootcProgress>)
    ensures
        opt_progress(r) == first_spelled(text::strs(ws@), ws@.len() as int),
{
    let ghost all = text::strs(ws@);
    let n: usize = ws.len();
    let mut i: usize = 0;
    while i < n
        invariant
            i <= n,
            n == ws@.len(),
            all == text::strs(ws@),
            first_spelled(all, i as int) is None,
        decreases n - i,
    {
        if n - i > 4 {
            proof {
                assert(all[i as int] == ws@[i as int]@);
                assert(all[i + 1] == ws@[i + 1]@);
                assert(all[i + 2] == ws@[i + 2]@);
                assert(all[i + 3] == ws@[i + 3]@);
                assert(all[i + 4] == ws@[i + 4]@);
            }
            if text::eq(ws[i + 1], "of") && text::eq(ws[i + 3], "layers") && text::eq(
                ws[i + 4],
                "pulled",
            ) {
                match parse_ratio(ws[i], ws[i + 2]) {
                    Some(p) => {
                        proof {
                            lemma_spelled_stays(all, i + 1, all.len() as int);
                        }
                        return Some(p);
                    },
                    None => {},
                }
            }
        }
        i += 1;
    }
    None
}

proof fn lemma_spelled_stays(ws: Seq<Seq<char>>, k: int, n: int)
    requires
        0 <= k <= n,
        first_spelled(ws, k) is Some,
    ensures
        first_spelled(ws, n) == first_spelled(ws, k),
    decreases n - k,
{
    if k < n {
        lemma_spelled_stays(ws, k, n - 1);
    }
}

fn to_lower(c: char) -> (r: char)
    ensures
        r == lower(c),
{
    if 'A' <= c && c <= 'Z' {
        (c as u8 + 32) as char
    } else {
        c
    }
}

/// The letters that a word begins with, in small letters.
fn lowered_stem(word: &str) -> (r: String)
    ensures
        r@ == lowered(stem(word@)),
{
    let cs = text::chars_of(word);
    let mut n: usize = cs.len();
    assert(word@.take(n as int) =~= word@);
    while n > 0 && !cs[n - 1].is_alphabetic()
        invariant
            cs@ == word@,
            n <= word@.len(),
            stem(word@) == stem(word@.take(n as int)),
        decreases n,
    {
        proof {
            assert(word@.take(n as int).drop_last() =~= word@.take(n - 1));
            assert(word@.take(n as int).last() == word@[n - 1]);
        }
        n -= 1;
    }
    let ghost kept = word@.take(n as int);
    proof {
        if n > 0 {
            assert(kept.last() == word@[n - 1]);
        }
        assert(stem(word@) == kept);
    }
    let mut out = String::new();
    let mut i: usize = 0;
    assert(out@ =~= lowered(kept).take(0));
    while i < n
        invariant
            i <= n <= word@.len(),
            cs@ == word@,
            kept == word@.take(n as int),
            out@ == lowered(kept).take(i as int),
        decreases n - i,
    {
        out.push(to_lower(cs[i]));
        assert(lowered(kept).take(i + 1) =~= lowered(kept).take(i as int).push(
            lowered(kept)[i as int],
        ));
        i += 1;
    }
    assert(lowered(kept).take(n as int) =~= lowered(kept));
    out
}

fn phase_label(word: &str) -> (r: Option<&'static str>)
    ensures
        match r {
            Some(s) => phase(word@) == Some(s@),
            None => phase(word@) is None,
        },
{
    if text::eq(word, "pulling") {
        Some("Pulling new image layers…")
    } else if text::eq(word, "fetching") {
        Some("Fetching image…")
    } else if text::eq(word, "importing") {
        Some("Importing layers…")
    } else if text::eq(word, "staging") {
        Some("Staging deployment…")
    } else if text::eq(word, "writing") {
        Some("Writing deployment…")
    } else if text::eq(word, "deploying") {
        Some("Deploying…")
    } else {
        None
    }
}

/// Read a line of the output of `bootc switch`.
///
/// There is no stable format, so a fraction is taken wherever a word `n/m`, or
/// the words `n of m layers pulled`, stand; and a line that begins with the
/// name of a phase tells the phase. `None` for every other line: what was
/// known stays.
pub fn parse_bootc_progress(line: &str) -> (r: Option<BootcProgress>)
    ensures
        opt_progress(r) == progress(line@),
{
    let trimmed = text::trim(line);
    let ws = split_words(trimmed);
    match find_slashed(&ws) {
        Some(p) => {
            return Some(p);
        },
        None => {},
    }
    match find_spelled(&ws) {
        Some(p) => {
            return Some(p);
        },
        None => {},
    }
    if ws.len() == 0 {
        return None;
    }
    let word = lowered_stem(ws[0]);
    assert(text::strs(ws@)[0] == ws@[0]@);
    match phase_label(word.as_str()) {
        Some(s) => Some(BootcProgress::Status(s.to_owned())),
        None => None,
    }
}

/// How a switch ended.
#[derive(Debug)]
pub enum SwitchOutcome {
    /// It could not be started, for this reason.
    NotStarted(String),
    /// It could not be waited for, for this reason.
    NotAwaited(String),
    /// It exited, with a code unless a signal ended it.
    Exited(Option<i32>),
}

/// The command that switches to an image.
pub open spec fn command_to_switch(full_ref: Seq<char>, suppressed: bool) -> Option<
    Seq<Seq<char>>,
> {
    if suppressed {
        None
    } else {
        Some(seq!["bootc"@, "switch"@, full_ref])
    }
}

/// The command that switches to an image, where effects on the host are not
/// suppressed. It takes the rights of an administrator.
pub fn switch_command<'a>(full_ref: &'a str, suppressed: bool) -> (r: Option<Vec<&'a str>>)
    ensures
        match r {
            Some(v) => command_to_switch(full_ref@, suppressed) == Some(text::strs(v@)),
            None => command_to_switch(full_ref@, suppressed) is None,
        },
{
    if suppressed {
        return None;
    }
    let out = vec!["bootc", "switch", full_ref];
    assert(text::strs(out@) =~= seq!["bootc"@, "switch"@, full_ref@]);
    Some(out)
}

/// What is shown in place of progress where the switch is only recorded.
pub fn dry_run_status() -> (r: BootcProgress)
    ensures
        r@ == ProgressModel::Status("Dry run — image switch recorded, not performed"@),
{
    BootcProgress::Status("Dry run — image switch recorded, not performed".to_owned())
}

/// Why a switch failed; `None` where it did not.
pub open spec fn switch_failure(outcome: SwitchOutcome) -> Option<Seq<char>> {
    match outcome {
        SwitchOutcome::NotStarted(why) => Some("Failed to spawn bootc switch: "@ + why@),
        SwitchOutcome::NotAwaited(why) => Some("Failed to wait for bootc switch: "@ + why@),
        SwitchOutcome::Exited(code) => if code == Some(0i32) {
            None
        } else {
            Some(
                "bootc switch exited with code "@ + text::integer_text(
                    match code {
                        Some(c) => c as int,
                        None => -1,
                    },
                ),
            )
        },
    }
}

/// What a switch came to.
pub fn switch_result(outcome: SwitchOutcome) -> (r: Result<(), String>)
    ensures
        match r {
            Ok(_) => switch_failure(outcome) is None,
            Err(s) => switch_failure(outcome) == Some(s@),
        },
{
    match outcome {
        SwitchOutcome::NotStarted(why) => {
            let mut s = "Failed to spawn bootc switch: ".to_owned();
            s.append(why.as_str());
            Err(s)
        },
        SwitchOutcome::NotAwaited(why) => {
            let mut s = "Failed to wait for bootc switch: ".to_owned();
            s.append(why.as_str());
            Err(s)
        },
        SwitchOutcome::Exited(code) => {
            let c: i32 = match code {
                Some(c) => c,
                None => -1,
            };
            if c == 0 {
                Ok(())
            } else {
                let mut s = "bootc switch exited with code ".to_owned();
                text::push_integer(&mut s, c);
                Err(s)
            }
        },
    }
}

// ---------------------------------------------------------------------------
// Laws

proof fn lemma_ratio_is_proper(a: Seq<char>, b: Seq<char>)
    ensures
        ratio(a, b) matches Some(p) ==> is_proper(p),
{
    match text::integer(a) {
        Some(n) => {
            if a[0] != '-' {
                assert(n >= 0);
            }
        },
        None => {},
    }
}

/// A fraction of an image: some of at least one and at most a thousand layers.
pub open spec fn is_proper(p: ProgressModel) -> bool {
    p matches ProgressModel::Fraction { current, total } && 0 <= current <= total && 0 < total
        <= 1000
}

proof fn lemma_slashed_is_proper(ws: Seq<Seq<char>>, k: int)
    ensures
        first_slashed(ws, k) matches Some(p) ==> is_proper(p),
    decreases k,
{
    if k > 0 {
        lemma_slashed_is_proper(ws, k - 1);
        match text::halves(ws[k - 1], "/"@) {
            Some(h) => {
                lemma_ratio_is_proper(h.0, h.1);
            },
            None => {},
        }
    }
}

proof fn lemma_spelled_is_proper(ws: Seq<Seq<char>>, k: int)
    ensures
        first_spelled(ws, k) matches Some(p) ==> is_proper(p),
    decreases k,
{
    if k > 0 {
        lemma_spelled_is_proper(ws, k - 1);
        if k + 3 < ws.len() {
            lemma_ratio_is_proper(ws[k - 1], ws[k + 1]);
        }
    }
}

/// A fraction that is told is one: never more than the whole, never of nothing,
/// and never of more layers than an image has.
pub proof fn law_fractions_are_proper(line: Seq<char>)
    ensures
        progress(line) matches Some(ProgressModel::Fraction { current, total }) ==> 0 <= current
            <= total && 0 < total <= 1000,
{
    let ws = words(text::trimmed(line));
    lemma_slashed_is_proper(ws, ws.len() as int);
    lemma_spelled_is_proper(ws, ws.len() as int);
}

/// A fraction is told wherever a word writes one, whatever phase the line
/// begins with.
pub proof fn law_fraction_before_phase(line: Seq<char>, k: int)
    requires
        0 <= k < words(text::trimmed(line)).len(),
        slashed(words(text::trimmed(line))[k]) is Some,
    ensures
        progress(line) matches Some(ProgressModel::Fraction { .. }),
{
    let ws = words(text::trimmed(line));
    lemma_some_slashed(ws, k, ws.len() as int);
    lemma_slashed_is_proper(ws, ws.len() as int);
}

proof fn lemma_some_slashed(ws: Seq<Seq<char>>, k: int, n: int)
    requires
        0 <= k < n <= ws.len(),
        slashed(ws[k]) is Some,
    ensures
        first_slashed(ws, n) is Some,
    decreases n,
{
    if k < n - 1 {
        lemma_some_slashed(ws, k, n - 1);
    }
}

/// A switch has succeeded exactly where it exited with the code nought; else the
/// reason or the code is told. Where effects are suppressed nothing is run, and
/// else exactly the image that was asked for is switched to.
pub proof fn law_switch(outcome: SwitchOutcome, full_ref: Seq<char>)
    ensures
        switch_failure(outcome) is None <==> outcome == SwitchOutcome::Exited(Some(0i32)),
        outcome matches SwitchOutcome::NotStarted(why) ==> (switch_failure(outcome) matches Some(s)
            && text::ends_in(s, why@)),
        outcome matches SwitchOutcome::NotAwaited(why) ==> (switch_failure(outcome) matches Some(s)
            && text::ends_in(s, why@)),
        outcome matches SwitchOutcome::Exited(Some(c)) ==> (switch_failure(outcome) matches Some(s)
            ==> text::ends_in(s, text::integer_text(c as int))),
        command_to_switch(full_ref, true) is None,
        command_to_switch(full_ref, false) matches Some(v) && v.len() == 3 && v[0] == "bootc"@
            && v[1] == "switch"@ && v[2] == full_ref,
{
    if let Some(s) = switch_failure(outcome) {
        match outcome {
            SwitchOutcome::NotStarted(why) => {
                assert(s.skip(s.len() - why@.len()) =~= why@);
                assert(s.subrange(s.len() - why@.len(), s.len() as int) =~= why@);
            },
            SwitchOutcome::NotAwaited(why) => {
                assert(s.skip(s.len() - why@.len()) =~= why@);
                assert(s.subrange(s.len() - why@.len(), s.len() as int) =~= why@);
            },
            SwitchOutcome::Exited(Some(c)) => {
                let t = text::integer_text(c as int);
                assert(s.skip(s.len() - t.len()) =~= t);
                assert(s.subrange(s.len() - t.len(), s.len() as int) =~= t);
            },
            _ => {},
        }
    }
}

/// Words are told apart by blanks, however many: a line is the words before a
/// blank and the words behind it, and what holds no blank is one word.
pub proof fn law_words(a: Seq<char>, blank: char, b: Seq<char>)
    requires
        is_blank(blank),
    ensures
        words(a + seq![blank] + b) == words(a) + words(b),
        a.len() > 0 && (forall|i: int| 0 <= i < a.len() ==> !is_blank(#[trigger] a[i])) ==> words(a)
            == seq![a],
        words(seq![blank]) == Seq::<Seq<char>>::empty(),
{
    lemma_words_append(a, blank, b);
    if a.len() > 0 && (forall|i: int| 0 <= i < a.len() ==> !is_blank(#[trigger] a[i])) {
        lemma_one_word(a);
    }
    reveal_with_fuel(words, 2);
    assert(seq![blank].drop_last() =~= Seq::<char>::empty());
}

proof fn lemma_one_word(a: Seq<char>)
    requires
        a.len() > 0,
        forall|i: int| 0 <= i < a.len() ==> !is_blank(#[trigger] a[i]),
    ensures
        words(a) == seq![a],
    decreases a.len(),
{
    let front = a.drop_last();
    assert(!is_blank(a[a.len() - 1]));
    if front.len() == 0 {
        assert(front =~= Seq::<char>::empty());
        reveal_with_fuel(words, 2);
        assert(a =~= seq![a.last()]);
        assert(words(a) =~= seq![a]);
    } else {
        assert forall|i: int| 0 <= i < front.len() implies !is_blank(#[trigger] front[i]) by {
            assert(!is_blank(a[i]));
        }
        lemma_one_word(front);
        assert(!is_blank(front[front.len() - 1]));
        assert(front.push(a.last()) =~= a);
        assert(words(a) =~= seq![a]);
    }
}

proof fn lemma_words_append(a: Seq<char>, blank: char, b: Seq<char>)
    requires
        is_blank(blank),
    ensures
        words(a + seq![blank] + b) == words(a) + words(b),
        b.len() > 0 && !is_blank(b.last()) ==> words(b).len() > 0,
    decreases b.len(),
{
    let s = a + seq![blank] + b;
    if b.len() == 0 {
        assert(s.drop_last() =~= a);
        assert(words(a) + words(b) =~= words(a));
    } else {
        let front = b.drop_last();
        lemma_words_append(a, blank, front);
        assert(s.drop_last() =~= a + seq![blank] + front);
        assert((a + seq![blank] + front).len() > 0);
        if is_blank(b.last()) {
        } else if front.len() == 0 || is_blank(front.last()) {
            assert((a + seq![blank] + front).last() == (if front.len() == 0 {
                blank
            } else {
                front.last()
            }));
            assert((words(a) + words(front)).push(seq![b.last()]) =~= words(a) + words(front).push(
                seq![b.last()],
            ));
        } else {
            assert((a + seq![blank] + front).last() == front.last());
            let w = words(a) + words(front);
            assert(w.last() == words(front).last());
            assert(w.drop_last().push(w.last().push(b.last())) =~= words(a) + (words(
                front,
            ).drop_last().push(words(front).last().push(b.last()))));
        }
    }
}

/// A word `n/m` is the fraction of `n` in `m`, where that is one of an image, and
/// the same spelled out.
pub proof fn law_fractions_are_read(n: nat, m: nat)
    ensures
        ({
            let word = text::decimal(n) + "/"@ + text::decimal(m);
            let spelled_out = seq![
                text::decimal(n),
                "of"@,
                text::decimal(m),
                "layers"@,
                "pulled"@,
            ];
            &&& n <= m && 0 < m <= 1000 ==> slashed(word) == Some(
                ProgressModel::Fraction { current: n as int, total: m as int },
            )
            &&& n > m || m == 0 || m > 1000 ==> slashed(word) is None
            &&& n <= m && 0 < m <= 1000 ==> spelled(spelled_out, 0) == Some(
                ProgressModel::Fraction { current: n as int, total: m as int },
            )
        }),
{
    text::law_decimal_round_trip(n);
    text::law_decimal_round_trip(m);
    let a = text::decimal(n);
    let b = text::decimal(m);
    assert(text::is_digit(a[0]) && text::is_digit(b[0]));
    reveal_strlit("/");
    assert(!a.contains('/')) by {
        if a.contains('/') {
            let i = choose|i: int| 0 <= i < a.len() && a[i] == '/';
            assert(text::is_digit(a[i]));
        }
    }
    text::law_first_half(a, '/', b, "/"@);
}

/// The first word of a line that writes a fraction decides, whatever else the
/// line says; a fraction that is spelled out decides where no word writes one.
pub proof fn law_first_fraction_decides(line: Seq<char>, k: int)
    ensures
        ({
            let ws = words(text::trimmed(line));
            &&& 0 <= k < ws.len() && slashed(ws[k]) is Some && (forall|i: int|
                0 <= i < k ==> slashed(#[trigger] ws[i]) is None) ==> progress(line) == slashed(
                ws[k],
            )
            &&& (forall|i: int| 0 <= i < ws.len() ==> slashed(#[trigger] ws[i]) is None) && 0 <= k
                < ws.len() && spelled(ws, k) is Some && (forall|i: int|
                0 <= i < k ==> #[trigger] spelled(ws, i) is None) ==> progress(line) == spelled(
                ws,
                k,
            )
        }),
{
    let ws = words(text::trimmed(line));
    if 0 <= k < ws.len() && slashed(ws[k]) is Some && (forall|i: int|
        0 <= i < k ==> slashed(#[trigger] ws[i]) is None) {
        lemma_first_slashed(ws, k, ws.len() as int);
    }
    if (forall|i: int| 0 <= i < ws.len() ==> slashed(#[trigger] ws[i]) is None) && 0 <= k < ws.len()
        && spelled(ws, k) is Some && (forall|i: int| 0 <= i < k ==> #[trigger] spelled(ws, i) is None) {
        lemma_none_slashed(ws, ws.len() as int);
        lemma_first_spelled(ws, k, ws.len() as int);
    }
}

proof fn lemma_none_slashed(ws: Seq<Seq<char>>, n: int)
    requires
        n <= ws.len(),
        forall|i: int| 0 <= i < n ==> slashed(#[trigger] ws[i]) is None,
    ensures
        first_slashed(ws, n) is None,
    decreases n,
{
    if n > 0 {
        lemma_none_slashed(ws, n - 1);
    }
}

proof fn lemma_first_slashed(ws: Seq<Seq<char>>, k: int, n: int)
    requires
        0 <= k < n <= ws.len(),
        slashed(ws[k]) is Some,
        forall|i: int| 0 <= i < k ==> slashed(#[trigger] ws[i]) is None,
    ensures
        first_slashed(ws, n) == slashed(ws[k]),
    decreases n,
{
    if k < n - 1 {
        lemma_first_slashed(ws, k, n - 1);
    } else {
        lemma_none_slashed(ws, n - 1);
    }
}

proof fn lemma_none_spelled(ws: Seq<Seq<char>>, n: int)
    requires
        forall|i: int| 0 <= i < n ==> #[trigger] spelled(ws, i) is None,
    ensures
        first_spelled(ws, n) is None,
    decreases n,
{
    if n > 0 {
        lemma_none_spelled(ws, n - 1);
    }
}

proof fn lemma_first_spelled(ws: Seq<Seq<char>>, k: int, n: int)
    requires
        0 <= k < n,
        spelled(ws, k) is Some,
        forall|i: int| 0 <= i < k ==> #[trigger] spelled(ws, i) is None,
    ensures
        first_spelled(ws, n) == spelled(ws, k),
    decreases n,
{
    if k < n - 1 {
        lemma_first_spelled(ws, k, n - 1);
    } else {
        lemma_none_spelled(ws, n - 1);
    }
}

/// Each phase is shown in its own words; no other word is a phase. Capitals make
/// no difference, and neither does what stands behind the last letter.
pub proof fn law_phases(word: Seq<char>)
    ensures
        phase("pulling"@) == Some("Pulling new image layers…"@),
        phase("fetching"@) == Some("Fetching image…"@),
        phase("importing"@) == Some("Importing layers…"@),
        phase("staging"@) == Some("Staging deployment…"@),
        phase("writing"@) == Some("Writing deployment…"@),
        phase("deploying"@) == Some("Deploying…"@),
        word != "pulling"@ && word != "fetching"@ && word != "importing"@ && word != "staging"@
            && word != "writing"@ && word != "deploying"@ ==> phase(word) is None,
        forall|c: char| 'A' <= c <= 'Z' ==> #[trigger] lower(c) as int == c as int + 32,
        forall|c: char| !('A' <= c <= 'Z') ==> #[trigger] lower(c) == c,
        word.len() > 0 && is_alphabetic(word.last()) ==> stem(word) == word,
        word.len() > 0 && !is_alphabetic(word.last()) ==> stem(word) == stem(word.drop_last()),
{
    reveal_strlit("pulling");
    reveal_strlit("fetching");
    reveal_strlit("importing");
    reveal_strlit("staging");
    reveal_strlit("writing");
    reveal_strlit("deploying");
    assert("pulling"@[0] == 'p' && "fetching"@[0] == 'f' && "importing"@[0] == 'i'
        && "staging"@[0] == 's' && "writing"@[0] == 'w' && "deploying"@[0] == 'd');
}

/// A line without a fraction tells the phase that its first word names, and
/// nothing where that names none.
pub proof fn law_phase_of_a_line(line: Seq<char>)
    requires
        ({
            let ws = words(text::trimmed(line));
            &&& forall|i: int| 0 <= i < ws.len() ==> slashed(#[trigger] ws[i]) is None
            &&& forall|i: int| 0 <= i < ws.len() ==> #[trigger] spelled(ws, i) is None
        }),
    ensures
        ({
            let ws = words(text::trimmed(line));
            &&& ws.len() == 0 ==> progress(line) is None
            &&& ws.len() > 0 ==> (match phase(lowered(stem(ws[0]))) {
                Some(s) => progress(line) == Some(ProgressModel::Status(s)),
                None => progress(line) is None,
            })
        }),
{
    let ws = words(text::trimmed(line));
    lemma_none_slashed(ws, ws.len() as int);
    lemma_none_spelled(ws, ws.len() as int);
}

/// What is told of progress is what it holds.
pub proof fn law_progress_holds_what_is_told(n: u32, m: u32, s: String)
    ensures
        (BootcProgress::Fraction { current: n, total: m })@ == (ProgressModel::Fraction {
            current: n as int,
            total: m as int,
        }),
        BootcProgress::Status(s)@ == ProgressModel::Status(s@),
{
}

} // verus!
