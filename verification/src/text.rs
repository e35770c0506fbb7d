//! Character sequences: the splitting, searching and trimming that the rest of
//! the library is written with.
//!
//! Every function states its result over `Seq<char>`, the view of a string.
//! Positions count characters, not bytes.

use vstd::prelude::*;
use crate::sort;

verus! {

/// `0` to `9`.
pub open spec fn is_digit(c: char) -> bool {
    '0' <= c && c <= '9'
}

/// ASCII letters.
pub open spec fn is_alpha(c: char) -> bool {
    ('a' <= c && c <= 'z') || ('A' <= c && c <= 'Z')
}

/// Lower-case hexadecimal digits.
pub open spec fn is_lower_hex(c: char) -> bool {
    is_digit(c) || ('a' <= c && c <= 'f')
}

/// Every character is an ASCII digit; true of the empty sequence.
pub open spec fn all_digits(s: Seq<char>) -> bool {
    forall|i: int| 0 <= i < s.len() ==> is_digit(#[trigger] s[i])
}

pub fn digit(c: char) -> (r: bool)
    ensures
        r == is_digit(c),
{
    '0' <= c && c <= '9'
}

pub fn alpha(c: char) -> (r: bool)
    ensures
        r == is_alpha(c),
{
    ('a' <= c && c <= 'z') || ('A' <= c && c <= 'Z')
}

pub fn lower_hex(c: char) -> (r: bool)
    ensures
        r == is_lower_hex(c),
{
    digit(c) || ('a' <= c && c <= 'f')
}

/// The characters of `s`, in order.
pub fn chars_of(s: &str) -> (r: Vec<char>)
    ensures
        r@ == s@,
{
    let mut out: Vec<char> = Vec::new();
    for c in it: s.chars()
        invariant
            out@ == s@.take(it.index()),
            it.seq() == s@,
    {
        out.push(c);
        assert(s@.take(it.index() + 1) =~= s@.take(it.index()).push(s@[it.index()]));
    }
    assert(s@.take(s@.len() as int) =~= s@);
    out
}

/// `String::push` appends the character, and changes nothing else.
pub assume_specification[ String::push ](s: &mut String, c: char)
    ensures
        final(s)@ == old(s)@.push(c),
;

/// Whether two texts are the same.
pub fn eq(a: &str, b: &str) -> (r: bool)
    ensures
        r == (a@ == b@),
{
    a.to_owned() == b.to_owned()
}

// ---------------------------------------------------------------------------
// Searching

/// `pat` stands in `s` at position `i`.
pub open spec fn occurs_at(s: Seq<char>, pat: Seq<char>, i: int) -> bool {
    0 <= i && i + pat.len() <= s.len() && s.subrange(i, i + pat.len()) == pat
}

/// `pat` stands somewhere in `s`.
pub open spec fn occurs(s: Seq<char>, pat: Seq<char>) -> bool {
    exists|i: int| occurs_at(s, pat, i)
}

/// `i` is the first place at which `pat` stands in `s`.
pub open spec fn first_at(s: Seq<char>, pat: Seq<char>, i: int) -> bool {
    occurs_at(s, pat, i) && forall|j: int| 0 <= j < i ==> !#[trigger] occurs_at(s, pat, j)
}

/// `i` is the last place at which `pat` stands in `s`.
pub open spec fn last_at(s: Seq<char>, pat: Seq<char>, i: int) -> bool {
    occurs_at(s, pat, i) && forall|j: int| j > i ==> !#[trigger] occurs_at(s, pat, j)
}

/// The first place at which `pat` stands in `s`.
pub open spec fn first_index(s: Seq<char>, pat: Seq<char>) -> int {
    choose|i: int| first_at(s, pat, i)
}

/// The last place at which `pat` stands in `s`.
pub open spec fn last_index(s: Seq<char>, pat: Seq<char>) -> int {
    choose|i: int| last_at(s, pat, i)
}

/// `first_index` is determined by what it satisfies.
pub proof fn lemma_first_unique(s: Seq<char>, pat: Seq<char>, i: int)
    requires
        first_at(s, pat, i),
    ensures
        first_index(s, pat) == i,
        occurs(s, pat),
{
    let k = first_index(s, pat);
    assert(first_at(s, pat, k));
    assert(occurs_at(s, pat, k));
    assert(occurs_at(s, pat, i));
}

/// `last_index` is determined by what it satisfies.
pub proof fn lemma_last_unique(s: Seq<char>, pat: Seq<char>, i: int)
    requires
        last_at(s, pat, i),
    ensures
        last_index(s, pat) == i,
        occurs(s, pat),
{
    let k = last_index(s, pat);
    assert(last_at(s, pat, k));
    assert(occurs_at(s, pat, k));
    assert(occurs_at(s, pat, i));
}

fn matches_at(s: &[char], pat: &[char], i: usize) -> (r: bool)
    requires
        i <= s@.len(),
    ensures
        r == occurs_at(s@, pat@, i as int),
{
    let n: usize = s.len();
    if n - i < pat.len() {
        return false;
    }
    let mut k: usize = 0;
    while k < pat.len()
        invariant
            k <= pat@.len(),
            n == s@.len(),
            i + pat@.len() <= n,
            forall|j: int| 0 <= j < k ==> s@[i + j] == #[trigger] pat@[j],
        decreases pat@.len() - k,
    {
        if s[i + k] != pat[k] {
            proof {
                assert(s@.subrange(i as int, i + pat@.len())[k as int] != pat@[k as int]);
            }
            return false;
        }
        k += 1;
    }
    assert(s@.subrange(i as int, i + pat@.len()) =~= pat@);
    true
}

/// The first position at which `pat` stands in `s`.
pub fn find(s: &str, pat: &str) -> (r: Option<usize>)
    ensures
        match r {
            Some(i) => occurs(s@, pat@) && i == first_index(s@, pat@) && first_at(s@, pat@, i as int),
            None => !occurs(s@, pat@),
        },
{
    let cs = chars_of(s);
    let ps = chars_of(pat);
    let mut i: usize = 0;
    while i < cs.len()
        invariant
            cs@ == s@,
            ps@ == pat@,
            i <= cs@.len(),
            forall|j: int| 0 <= j < i ==> !#[trigger] occurs_at(s@, pat@, j),
        decreases cs@.len() - i,
    {
        if matches_at(cs.as_slice(), ps.as_slice(), i) {
            proof {
                lemma_first_unique(s@, pat@, i as int);
            }
            return Some(i);
        }
        i += 1;
    }
    if matches_at(cs.as_slice(), ps.as_slice(), i) {
        proof {
            lemma_first_unique(s@, pat@, i as int);
        }
        return Some(i);
    }
    None
}

/// The last position at which `pat` stands in `s`.
pub fn rfind(s: &str, pat: &str) -> (r: Option<usize>)
    ensures
        match r {
            Some(i) => occurs(s@, pat@) && i == last_index(s@, pat@) && last_at(s@, pat@, i as int),
            None => !occurs(s@, pat@),
        },
{
    let cs = chars_of(s);
    let ps = chars_of(pat);
    let mut i: usize = cs.len();
    loop
        invariant
            cs@ == s@,
            ps@ == pat@,
            i <= cs@.len(),
            forall|j: int| j > i ==> !#[trigger] occurs_at(s@, pat@, j),
        decreases i,
    {
        if matches_at(cs.as_slice(), ps.as_slice(), i) {
            proof {
                lemma_last_unique(s@, pat@, i as int);
            }
            return Some(i);
        }
        if i == 0 {
            return None;
        }
        i -= 1;
    }
}

/// Whether `pat` stands in `s`.
pub fn contains(s: &str, pat: &str) -> (r: bool)
    ensures
        r == occurs(s@, pat@),
{
    find(s, pat).is_some()
}

/// `s` begins with `pat`.
pub open spec fn begins_with(s: Seq<char>, pat: Seq<char>) -> bool {
    occurs_at(s, pat, 0)
}

/// `s` ends with `pat`.
pub open spec fn ends_in(s: Seq<char>, pat: Seq<char>) -> bool {
    occurs_at(s, pat, s.len() - pat.len())
}

pub fn starts_with(s: &str, pat: &str) -> (r: bool)
    ensures
        r == begins_with(s@, pat@),
{
    let cs = chars_of(s);
    let ps = chars_of(pat);
    matches_at(cs.as_slice(), ps.as_slice(), 0)
}

pub fn ends_with(s: &str, pat: &str) -> (r: bool)
    ensures
        r == ends_in(s@, pat@),
{
    let cs = chars_of(s);
    let ps = chars_of(pat);
    if cs.len() < ps.len() {
        return false;
    }
    matches_at(cs.as_slice(), ps.as_slice(), cs.len() - ps.len())
}

/// The characters of `s` from `from` up to `to`.
pub fn slice<'a>(s: &'a str, from: usize, to: usize) -> (r: &'a str)
    requires
        from <= to <= s@.len(),
    ensures
        r@ == s@.subrange(from as int, to as int),
{
    s.substring_char(from, to)
}

/// The number of characters in `s`.
pub fn len(s: &str) -> (r: usize)
    ensures
        r == s@.len(),
{
    s.unicode_len()
}

/// What stands behind the prefix `pat`, where `s` begins with it.
pub fn strip_prefix<'a>(s: &'a str, pat: &str) -> (r: Option<&'a str>)
    ensures
        match r {
            Some(rest) => begins_with(s@, pat@) && rest@ == s@.skip(pat@.len() as int),
            None => !begins_with(s@, pat@),
        },
{
    if starts_with(s, pat) {
        Some(slice(s, len(pat), len(s)))
    } else {
        None
    }
}

/// What stands before the suffix `pat`, where `s` ends with it.
pub fn strip_suffix<'a>(s: &'a str, pat: &str) -> (r: Option<&'a str>)
    ensures
        match r {
            Some(rest) => ends_in(s@, pat@) && rest@ == s@.take(s@.len() - pat@.len()),
            None => !ends_in(s@, pat@),
        },
{
    if ends_with(s, pat) {
        Some(slice(s, 0, len(s) - len(pat)))
    } else {
        None
    }
}

/// The two sides of the first `pat` in `s`.
pub open spec fn halves(s: Seq<char>, pat: Seq<char>) -> Option<(Seq<char>, Seq<char>)> {
    if occurs(s, pat) {
        let i = first_index(s, pat);
        Some((s.take(i), s.skip(i + pat.len())))
    } else {
        None
    }
}

/// The two sides of the last `pat` in `s`.
pub open spec fn rhalves(s: Seq<char>, pat: Seq<char>) -> Option<(Seq<char>, Seq<char>)> {
    if occurs(s, pat) {
        let i = last_index(s, pat);
        Some((s.take(i), s.skip(i + pat.len())))
    } else {
        None
    }
}

/// A pair of strings, seen as a pair of sequences.
pub open spec fn pair_view(p: Option<(&str, &str)>) -> Option<(Seq<char>, Seq<char>)> {
    match p {
        Some(q) => Some((q.0@, q.1@)),
        None => None,
    }
}

pub fn split_once<'a>(s: &'a str, pat: &str) -> (r: Option<(&'a str, &'a str)>)
    ensures
        pair_view(r) == halves(s@, pat@),
{
    let n: usize = len(s);
    match find(s, pat) {
        Some(i) => Some((slice(s, 0, i), slice(s, i + len(pat), n))),
        None => None,
    }
}

pub fn rsplit_once<'a>(s: &'a str, pat: &str) -> (r: Option<(&'a str, &'a str)>)
    ensures
        pair_view(r) == rhalves(s@, pat@),
{
    let n: usize = len(s);
    match rfind(s, pat) {
        Some(i) => Some((slice(s, 0, i), slice(s, i + len(pat), n))),
        None => None,
    }
}

// ---------------------------------------------------------------------------
// Splitting and joining

/// A sequence of strings, each taken by its characters.
pub open spec fn views(v: Seq<String>) -> Seq<Seq<char>> {
    Seq::new(v.len(), |i: int| v[i]@)
}

/// A sequence of string slices, each taken by its characters.
pub open spec fn strs(v: Seq<&str>) -> Seq<Seq<char>> {
    Seq::new(v.len(), |i: int| v[i]@)
}

/// The pieces between the separators of `s`; there is one more of them than
/// there are separators.
pub open spec fn pieces(s: Seq<char>, sep: char) -> Seq<Seq<char>>
    decreases s.len(),
{
    if s.len() == 0 {
        seq![Seq::empty()]
    } else {
        let before = pieces(s.drop_last(), sep);
        if s.last() == sep {
            before.push(Seq::empty())
        } else {
            before.drop_last().push(before.last().push(s.last()))
        }
    }
}

/// The pieces put together with `sep` between them.
pub open spec fn joined(parts: Seq<Seq<char>>, sep: Seq<char>) -> Seq<char>
    decreases parts.len(),
{
    if parts.len() == 0 {
        Seq::empty()
    } else if parts.len() == 1 {
        parts[0]
    } else {
        joined(parts.drop_last(), sep) + sep + parts.last()
    }
}

/// There is at least one piece, and no piece holds a separator.
pub proof fn lemma_pieces(s: Seq<char>, sep: char)
    ensures
        pieces(s, sep).len() >= 1,
        forall|k: int|
            0 <= k < pieces(s, sep).len() ==> !(#[trigger] pieces(s, sep)[k]).contains(sep),
    decreases s.len(),
{
    if s.len() > 0 {
        lemma_pieces(s.drop_last(), sep);
        let before = pieces(s.drop_last(), sep);
        let all = pieces(s, sep);
        assert forall|k: int| 0 <= k < all.len() implies !(#[trigger] all[k]).contains(sep) by {
            if s.last() != sep && k == all.len() - 1 {
                let last = before[before.len() - 1];
                assert(!last.contains(sep));
                if all[k].contains(sep) {
                    let j = choose|j: int| 0 <= j < all[k].len() && all[k][j] == sep;
                    assert(last[j] == sep);
                }
            } else if k < before.len() {
                assert(all[k] == before[k]);
            }
        }
    }
}

/// Joining undoes splitting.
pub proof fn law_split_join(s: Seq<char>, sep: char)
    ensures
        joined(pieces(s, sep), seq![sep]) == s,
    decreases s.len(),
{
    lemma_pieces(s, sep);
    if s.len() == 0 {
        assert(s =~= Seq::<char>::empty());
    } else {
        law_split_join(s.drop_last(), sep);
        lemma_pieces(s.drop_last(), sep);
        let before = pieces(s.drop_last(), sep);
        let all = pieces(s, sep);
        if s.last() == sep {
            assert(all.drop_last() =~= before);
            assert(joined(all, seq![sep]) =~= s);
        } else {
            assert(all.drop_last() =~= before.drop_last());
            assert(all.last() == before.last().push(s.last()));
            let front = joined(before.drop_last(), seq![sep]) + seq![sep];
            if before.len() > 1 {
                assert(front + before.last().push(s.last()) =~= (front + before.last()).push(
                    s.last(),
                ));
            }
            assert(s.drop_last().push(s.last()) =~= s);
        }
    }
}

/// What has no separator is one piece.
pub proof fn lemma_one_piece(s: Seq<char>, sep: char)
    requires
        !s.contains(sep),
    ensures
        pieces(s, sep) == seq![s],
    decreases s.len(),
{
    if s.len() > 0 {
        assert(s.last() != sep) by {
            assert(s[s.len() - 1] == s.last());
        }
        assert(!s.drop_last().contains(sep)) by {
            assert forall|i: int| 0 <= i < s.drop_last().len() implies s.drop_last()[i]
                != sep by {
                assert(s[i] == s.drop_last()[i]);
            }
        }
        lemma_one_piece(s.drop_last(), sep);
        assert(s.drop_last().push(s.last()) =~= s);
        assert(pieces(s, sep) =~= seq![s]);
    } else {
        assert(s =~= Seq::<char>::empty());
    }
}

/// The pieces of two sequences with a separator between them.
pub proof fn lemma_pieces_append(a: Seq<char>, sep: char, b: Seq<char>)
    ensures
        pieces(a + seq![sep] + b, sep) == pieces(a, sep) + pieces(b, sep),
    decreases b.len(),
{
    let s = a + seq![sep] + b;
    lemma_pieces(b, sep);
    if b.len() == 0 {
        assert(s.drop_last() =~= a);
        assert(pieces(s, sep) =~= pieces(a, sep) + pieces(b, sep));
    } else {
        lemma_pieces_append(a, sep, b.drop_last());
        lemma_pieces(b.drop_last(), sep);
        assert(s.drop_last() =~= a + seq![sep] + b.drop_last());
        assert(pieces(s, sep) =~= pieces(a, sep) + pieces(b, sep));
    }
}

/// The pieces of `s` between the separators `sep`.
pub fn split<'a>(s: &'a str, sep: char) -> (r: Vec<&'a str>)
    ensures
        strs(r@) == pieces(s@, sep),
        r@.len() >= 1,
{
    let cs = chars_of(s);
    let mut out: Vec<&'a str> = Vec::new();
    let mut start: usize = 0;
    let mut i: usize = 0;
    proof {
        assert(s@.subrange(0, 0) =~= Seq::<char>::empty());
        assert(strs(out@).push(s@.subrange(0, 0)) =~= pieces(s@.take(0), sep));
    }
    while i < cs.len()
        invariant
            cs@ == s@,
            start <= i <= cs@.len(),
            strs(out@).push(s@.subrange(start as int, i as int)) == pieces(s@.take(i as int), sep),
        decreases cs@.len() - i,
    {
        let ghost before = strs(out@);
        let ghost cur = s@.subrange(start as int, i as int);
        proof {
            assert(s@.take(i + 1).drop_last() =~= s@.take(i as int));
        }
        if cs[i] == sep {
            out.push(slice(s, start, i));
            start = i + 1;
            proof {
                assert(strs(out@) =~= before.push(cur));
                assert(s@.subrange(i + 1, i + 1) =~= Seq::<char>::empty());
            }
        } else {
            proof {
                assert(before.push(cur).drop_last() =~= before);
                assert(s@.subrange(start as int, i + 1) =~= cur.push(s@[i as int]));
            }
        }
        i += 1;
    }
    let ghost before = strs(out@);
    out.push(slice(s, start, i));
    proof {
        assert(strs(out@) =~= before.push(s@.subrange(start as int, i as int)));
        assert(s@.take(s@.len() as int) =~= s@);
    }
    out
}

/// The strings from `from` on, with `sep` between them.
pub fn join_from(parts: &Vec<&str>, from: usize, sep: &str) -> (r: String)
    requires
        from <= parts@.len(),
    ensures
        r@ == joined(strs(parts@).skip(from as int), sep@),
{
    let ghost all = strs(parts@).skip(from as int);
    let mut out: String = String::new();
    let mut i: usize = from;
    let n: usize = parts.len();
    assert(all.take(0) =~= Seq::<Seq<char>>::empty());
    while i < n
        invariant
            from <= i <= n,
            n == parts@.len(),
            all == strs(parts@).skip(from as int),
            out@ == joined(all.take(i - from), sep@),
        decreases n - i,
    {
        proof {
            assert(all.take(i - from + 1).drop_last() =~= all.take(i - from));
            assert(all.take(i - from + 1).last() == parts@[i as int]@);
        }
        if i > from {
            out.append(sep);
        }
        out.append(parts[i]);
        proof {
            if i == from {
                assert(Seq::<char>::empty() + parts@[i as int]@ =~= parts@[i as int]@);
            }
        }
        i += 1;
    }
    assert(all.take(n - from) =~= all);
    out
}

/// `s` with every `old_char` replaced by `new_char`.
pub open spec fn replaced(s: Seq<char>, old_char: char, new_char: char) -> Seq<char> {
    Seq::new(
        s.len(),
        |i: int|
            if s[i] == old_char {
                new_char
            } else {
                s[i]
            },
    )
}

/// `s` with every `old_char` replaced by `new_char`.
pub fn replace(s: &str, old_char: char, new_char: char) -> (r: String)
    ensures
        r@ == replaced(s@, old_char, new_char),
{
    let cs = chars_of(s);
    let mut out: String = String::new();
    let mut i: usize = 0;
    while i < cs.len()
        invariant
            cs@ == s@,
            i <= cs@.len(),
            out@ == replaced(s@, old_char, new_char).take(i as int),
        decreases cs@.len() - i,
    {
        if cs[i] == old_char {
            out.push(new_char);
        } else {
            out.push(cs[i]);
        }
        proof {
            let full = replaced(s@, old_char, new_char);
            assert(full.take(i + 1) =~= full.take(i as int).push(full[i as int]));
        }
        i += 1;
    }
    proof {
        let full = replaced(s@, old_char, new_char);
        assert(full.take(s@.len() as int) =~= full);
    }
    out
}

/// A line without the carriage return at its end.
pub open spec fn without_cr(line: Seq<char>) -> Seq<char> {
    if line.len() > 0 && line.last() == '\r' {
        line.drop_last()
    } else {
        line
    }
}

/// The lines of `s`: what stands between line feeds, each without a carriage
/// return before its line feed. Behind the last line feed there is a line only
/// where there is something.
pub open spec fn lines_of(s: Seq<char>) -> Seq<Seq<char>> {
    let all = pieces(s, '\n');
    let ended = Seq::new((all.len() - 1) as nat, |i: int| without_cr(all[i]));
    if all.last().len() > 0 {
        ended.push(all.last())
    } else {
        ended
    }
}

/// The lines of `s`.
pub fn lines<'a>(s: &'a str) -> (r: Vec<&'a str>)
    ensures
        strs(r@) == lines_of(s@),
{
    let all = split(s, '\n');
    let ghost parts = pieces(s@, '\n');
    let ghost ended = Seq::new((parts.len() - 1) as nat, |i: int| without_cr(parts[i]));
    let mut out: Vec<&'a str> = Vec::new();
    let n: usize = all.len();
    let mut i: usize = 0;
    while i < n - 1
        invariant
            i <= n - 1,
            n == all@.len(),
            n >= 1,
            parts == strs(all@),
            ended == Seq::new((parts.len() - 1) as nat, |k: int| without_cr(parts[k])),
            strs(out@) =~= ended.take(i as int),
        decreases n - i,
    {
        let line = all[i];
        let width: usize = len(line);
        assert(parts[i as int] == line@);
        if width > 0 && line.get_char(width - 1) == '\r' {
            let kept = slice(line, 0, width - 1);
            assert(kept@ =~= line@.drop_last());
            out.push(kept);
        } else {
            out.push(line);
        }
        assert(ended.take(i + 1) =~= ended.take(i as int).push(ended[i as int]));
        i += 1;
    }
    assert(ended.take(n - 1) =~= ended);
    let last = all[n - 1];
    assert(parts.last() == last@);
    if !last.is_empty() {
        let ghost before = strs(out@);
        out.push(last);
        assert(strs(out@) =~= before.push(last@));
    }
    out
}

/// `s` without the `c` at its beginning.
pub open spec fn without_leading(s: Seq<char>, c: char) -> Seq<char>
    decreases s.len(),
{
    if s.len() > 0 && s[0] == c {
        without_leading(s.skip(1), c)
    } else {
        s
    }
}

/// `s` without the `c` at its end.
pub open spec fn without_trailing(s: Seq<char>, c: char) -> Seq<char>
    decreases s.len(),
{
    if s.len() > 0 && s.last() == c {
        without_trailing(s.drop_last(), c)
    } else {
        s
    }
}

/// `s` without the `c` at either end.
pub fn trim_matches<'a>(s: &'a str, c: char) -> (r: &'a str)
    ensures
        r@ == without_trailing(without_leading(s@, c), c),
{
    let cs = chars_of(s);
    let mut i: usize = 0;
    let n: usize = cs.len();
    assert(s@.skip(0) =~= s@);
    while i < n && cs[i] == c
        invariant
            cs@ == s@,
            n == s@.len(),
            i <= n,
            without_leading(s@, c) == without_leading(s@.skip(i as int), c),
        decreases n - i,
    {
        proof {
            assert(s@.skip(i as int).skip(1) =~= s@.skip(i + 1));
        }
        i += 1;
    }
    let ghost t = s@.skip(i as int);
    let mut j: usize = n;
    assert(t.take(j - i) =~= t);
    while j > i && cs[j - 1] == c
        invariant
            cs@ == s@,
            n == s@.len(),
            i <= j <= n,
            t == s@.skip(i as int),
            without_trailing(t, c) == without_trailing(t.take(j - i), c),
        decreases j,
    {
        proof {
            assert(t.take(j - i).drop_last() =~= t.take(j - i - 1));
        }
        j -= 1;
    }
    proof {
        assert(t.take(j - i) =~= s@.subrange(i as int, j as int));
    }
    slice(s, i, j)
}

// ---------------------------------------------------------------------------
// Numbers

/// The value of a digit.
pub open spec fn digit_value(c: char) -> nat {
    if is_digit(c) {
        (c as int - '0' as int) as nat
    } else {
        0
    }
}

/// The number that a run of digits denotes.
pub open spec fn number(s: Seq<char>) -> nat
    decreases s.len(),
{
    if s.len() == 0 {
        0
    } else {
        number(s.drop_last()) * 10 + digit_value(s.last())
    }
}

/// A power of ten.
pub open spec fn pow10(n: nat) -> nat
    decreases n,
{
    if n == 0 {
        1
    } else {
        10 * pow10((n - 1) as nat)
    }
}

/// The value of a run, read from its first digit.
pub proof fn lemma_number_front(s: Seq<char>)
    requires
        s.len() > 0,
    ensures
        number(s) == digit_value(s[0]) * pow10((s.len() - 1) as nat) + number(s.skip(1)),
    decreases s.len(),
{
    if s.len() == 1 {
        assert(s.drop_last() =~= Seq::<char>::empty());
        assert(s.skip(1) =~= Seq::<char>::empty());
        assert(digit_value(s[0]) * 1 == digit_value(s[0])) by (nonlinear_arith);
    } else {
        let t = s.drop_last();
        lemma_number_front(t);
        assert(t.skip(1) =~= s.skip(1).drop_last());
        let d = digit_value(s[0]);
        let p = pow10((t.len() - 1) as nat);
        let q = number(t.skip(1));
        assert((d * p + q) * 10 == d * (10 * p) + q * 10) by (nonlinear_arith);
    }
}

/// A run of `n` digits denotes less than `10^n`.
pub proof fn lemma_number_bound(s: Seq<char>)
    ensures
        number(s) < pow10(s.len()),
    decreases s.len(),
{
    if s.len() > 0 {
        lemma_number_bound(s.drop_last());
    }
}

pub proof fn lemma_pow10_monotone(a: nat, b: nat)
    requires
        a <= b,
    ensures
        pow10(a) <= pow10(b),
        pow10(a) > 0,
    decreases b,
{
    if b > a {
        lemma_pow10_monotone(a, (b - 1) as nat);
    } else if b > 0 {
        lemma_pow10_monotone((a - 1) as nat, (b - 1) as nat);
    }
}

/// Whether every character is an ASCII digit.
pub fn digits_only(s: &str) -> (r: bool)
    ensures
        r == all_digits(s@),
{
    let cs = chars_of(s);
    let mut i: usize = 0;
    while i < cs.len()
        invariant
            cs@ == s@,
            i <= cs@.len(),
            forall|j: int| 0 <= j < i ==> is_digit(#[trigger] s@[j]),
        decreases cs@.len() - i,
    {
        if !digit(cs[i]) {
            assert(!is_digit(s@[i as int]));
            return false;
        }
        i += 1;
    }
    true
}

/// The digit of a value below ten.
pub open spec fn digit_char(n: nat) -> char {
    ('0' as int + n) as char
}

/// A number in decimal digits, without leading zeros.
pub open spec fn decimal(n: nat) -> Seq<char>
    decreases n,
{
    if n < 10 {
        seq![digit_char(n)]
    } else {
        decimal(n / 10).push(digit_char(n % 10))
    }
}

/// A number below 100 in two digits.
pub open spec fn two_digits(n: nat) -> Seq<char> {
    seq![digit_char(n / 10), digit_char(n % 10)]
}

/// A number below 10,000 in four digits.
pub open spec fn four_digits(n: nat) -> Seq<char> {
    two_digits(n / 100) + two_digits(n % 100)
}

/// An integer in decimal digits, with a minus sign where it is negative.
pub open spec fn integer_text(n: int) -> Seq<char> {
    if n < 0 {
        seq!['-'] + decimal((-n) as nat)
    } else {
        decimal(n as nat)
    }
}

fn to_digit(n: u64) -> (r: char)
    requires
        n < 10,
    ensures
        r == digit_char(n as nat),
{
    match n {
        0 => '0',
        1 => '1',
        2 => '2',
        3 => '3',
        4 => '4',
        5 => '5',
        6 => '6',
        7 => '7',
        8 => '8',
        _ => '9',
    }
}

/// Write a number in decimal digits behind `out`.
pub fn push_decimal(out: &mut String, n: u64)
    ensures
        final(out)@ == old(out)@ + decimal(n as nat),
    decreases n,
{
    if n >= 10 {
        push_decimal(out, n / 10);
    }
    out.push(to_digit(n % 10));
    proof {
        if n < 10 {
            assert(old(out)@ + decimal(n as nat) =~= old(out)@.push(digit_char(n as nat)));
        } else {
            assert(old(out)@ + decimal(n as nat) =~= (old(out)@ + decimal((n / 10) as nat)).push(
                digit_char((n % 10) as nat),
            ));
        }
    }
}

/// Write an integer behind `out`.
pub fn push_integer(out: &mut String, n: i32)
    ensures
        final(out)@ == old(out)@ + integer_text(n as int),
{
    if n < 0 {
        out.push('-');
        push_decimal(out, (-(n as i64)) as u64);
        assert(out@ =~= old(out)@ + integer_text(n as int));
    } else {
        push_decimal(out, n as u64);
    }
}

/// Two digits read as the number.
pub proof fn lemma_two_digits(n: nat)
    requires
        n < 100,
    ensures
        number(two_digits(n)) == n,
        all_digits(two_digits(n)),
{
    let s = two_digits(n);
    reveal_with_fuel(number, 3);
    assert(s.drop_last().drop_last() =~= Seq::<char>::empty());
    assert(s.drop_last().last() == s[0]);
}

/// Four digits read as the number.
pub proof fn lemma_four_digits(n: nat)
    requires
        n < 10_000,
    ensures
        number(four_digits(n)) == n,
        all_digits(four_digits(n)),
{
    let s = four_digits(n);
    lemma_two_digits(n / 100);
    lemma_two_digits(n % 100);
    assert(s.drop_last().drop_last() =~= two_digits(n / 100));
    assert(s.drop_last().last() == s[2]);
    reveal_with_fuel(number, 3);
    let a = two_digits(n / 100);
    let b = two_digits(n % 100);
    assert(b.drop_last().drop_last() =~= Seq::<char>::empty());
    assert(b.drop_last().last() == b[0]);
    assert forall|i: int| 0 <= i < s.len() implies is_digit(#[trigger] s[i]) by {
        if i < 2 {
            assert(is_digit(a[i]));
        } else {
            assert(is_digit(b[i - 2]));
        }
    }
}

/// The integer that `s` writes: an optional sign, and digits.
pub open spec fn integer(s: Seq<char>) -> Option<int> {
    let signed = s.len() > 0 && (s[0] == '+' || s[0] == '-');
    let body = if signed {
        s.skip(1)
    } else {
        s
    };
    if body.len() == 0 || !all_digits(body) {
        None
    } else if signed && s[0] == '-' {
        Some(-number(body))
    } else {
        Some(number(body) as int)
    }
}

/// The part of a number that is read first is not larger than the number.
proof fn lemma_number_prefix(s: Seq<char>, k: int)
    requires
        0 <= k <= s.len(),
    ensures
        number(s.take(k)) <= number(s),
    decreases s.len() - k,
{
    if k < s.len() {
        lemma_number_prefix(s, k + 1);
        assert(s.take(k + 1).drop_last() =~= s.take(k));
    } else {
        assert(s.take(k) =~= s);
    }
}

/// The number that the digits of `cs` from `from` on denote, where it does not
/// exceed `max`.
fn bounded_number(cs: &Vec<char>, from: usize, max: u128) -> (r: Option<u128>)
    requires
        from <= cs@.len(),
        all_digits(cs@.skip(from as int)),
        max <= u64::MAX,
    ensures
        match r {
            Some(n) => n == number(cs@.skip(from as int)) && n <= max,
            None => number(cs@.skip(from as int)) > max,
        },
{
    let ghost body = cs@.skip(from as int);
    let mut acc: u128 = 0;
    let mut i: usize = from;
    let n: usize = cs.len();
    while i < n
        invariant
            from <= i <= n,
            n == cs@.len(),
            body == cs@.skip(from as int),
            all_digits(body),
            acc == number(body.take(i - from)),
            acc <= max,
            max <= u64::MAX,
        decreases n - i,
    {
        let c = cs[i];
        proof {
            assert(c == body[i - from]);
            assert(is_digit(c));
            assert(body.take(i - from + 1).drop_last() =~= body.take(i - from));
        }
        let d: u128 = (c as u32 - '0' as u32) as u128;
        acc = acc * 10 + d;
        if acc > max {
            proof {
                lemma_number_prefix(body, i - from + 1);
            }
            return None;
        }
        i += 1;
    }
    assert(body.take(n - from) =~= body);
    Some(acc)
}

/// Read an `i32`: an optional sign and digits that denote one.
pub fn parse_i32(s: &str) -> (r: Option<i32>)
    ensures
        match r {
            Some(n) => integer(s@) == Some(n as int),
            None => match integer(s@) {
                Some(n) => n < i32::MIN || n > i32::MAX,
                None => true,
            },
        },
{
    let cs = chars_of(s);
    let signed = cs.len() > 0 && (cs[0] == '+' || cs[0] == '-');
    let negative = cs.len() > 0 && cs[0] == '-';
    let from: usize = if signed {
        1
    } else {
        0
    };
    let body = slice(s, from, cs.len());
    assert(body@ =~= cs@.skip(from as int));
    assert(!signed ==> body@ =~= s@);
    if body.is_empty() || !digits_only(body) {
        return None;
    }
    let max: u128 = if negative {
        2_147_483_648
    } else {
        2_147_483_647
    };
    match bounded_number(&cs, from, max) {
        Some(n) => if negative {
            Some((-(n as i64)) as i32)
        } else {
            Some(n as i32)
        },
        None => None,
    }
}

/// Read a `u32`: an optional plus sign and digits that denote one.
pub fn parse_u32(s: &str) -> (r: Option<u32>)
    ensures
        match r {
            Some(n) => integer(s@) == Some(n as int) && s@[0] != '-',
            None => match integer(s@) {
                Some(n) => s@[0] == '-' || n > u32::MAX,
                None => true,
            },
        },
{
    let cs = chars_of(s);
    if cs.len() > 0 && cs[0] == '-' {
        return None;
    }
    let from: usize = if cs.len() > 0 && cs[0] == '+' {
        1
    } else {
        0
    };
    let body = slice(s, from, cs.len());
    assert(body@ =~= cs@.skip(from as int));
    assert(from == 0 ==> body@ =~= s@);
    if body.is_empty() || !digits_only(body) {
        return None;
    }
    match bounded_number(&cs, from, 4_294_967_295) {
        Some(n) => Some(n as u32),
        None => None,
    }
}

/// Read a `usize`: an optional plus sign and digits that denote one.
pub fn parse_usize(s: &str) -> (r: Option<usize>)
    ensures
        match r {
            Some(n) => integer(s@) == Some(n as int) && s@[0] != '-',
            None => match integer(s@) {
                Some(n) => s@[0] == '-' || n > usize::MAX,
                None => true,
            },
        },
{
    let cs = chars_of(s);
    if cs.len() > 0 && cs[0] == '-' {
        return None;
    }
    let from: usize = if cs.len() > 0 && cs[0] == '+' {
        1
    } else {
        0
    };
    let body = slice(s, from, cs.len());
    assert(body@ =~= cs@.skip(from as int));
    assert(from == 0 ==> body@ =~= s@);
    if body.is_empty() || !digits_only(body) {
        return None;
    }
    match bounded_number(&cs, from, usize::MAX as u128) {
        Some(n) => Some(n as usize),
        None => None,
    }
}

// ---------------------------------------------------------------------------
// Bytes

/// How many bytes a character takes in UTF-8.
pub open spec fn width(c: char) -> nat {
    if (c as u32) < 0x80 {
        1
    } else if (c as u32) < 0x800 {
        2
    } else if (c as u32) < 0x10000 {
        3
    } else {
        4
    }
}

/// How many bytes a text takes in UTF-8.
pub open spec fn byte_len(s: Seq<char>) -> nat
    decreases s.len(),
{
    if s.len() == 0 {
        0
    } else {
        byte_len(s.drop_last()) + width(s.last())
    }
}

/// `k` characters of `s` are the most that fit into `n` bytes.
pub open spec fn fits(s: Seq<char>, k: int, n: nat) -> bool {
    &&& 0 <= k <= s.len()
    &&& byte_len(s.take(k)) <= n
    &&& k < s.len() ==> byte_len(s.take(k + 1)) > n
}

/// The longest beginning of `s` that takes at most `n` bytes.
pub open spec fn byte_prefix(s: Seq<char>, n: nat) -> Seq<char> {
    s.take(choose|k: int| fits(s, k, n))
}

proof fn lemma_byte_len_monotone(s: Seq<char>, j: int, k: int)
    requires
        0 <= j <= k <= s.len(),
    ensures
        byte_len(s.take(j)) <= byte_len(s.take(k)),
    decreases k - j,
{
    if j < k {
        lemma_byte_len_monotone(s, j, k - 1);
        assert(s.take(k).drop_last() =~= s.take(k - 1));
    }
}

/// The longest beginning of `s` that takes at most `n` bytes.
pub fn first_bytes<'a>(s: &'a str, n: usize) -> (r: &'a str)
    ensures
        r@ == byte_prefix(s@, n as nat),
{
    let cs = chars_of(s);
    let mut used: usize = 0;
    let mut k: usize = 0;
    let len: usize = cs.len();
    assert(s@.take(0).len() == 0);
    while k < len
        invariant
            k <= len,
            len == cs@.len(),
            cs@ == s@,
            used == byte_len(s@.take(k as int)),
            used <= n,
        decreases len - k,
    {
        let code: u32 = cs[k] as u32;
        let w: usize = if code < 0x80 {
            1
        } else if code < 0x800 {
            2
        } else if code < 0x10000 {
            3
        } else {
            4
        };
        proof {
            assert(s@.take(k + 1).drop_last() =~= s@.take(k as int));
            assert(s@.take(k + 1).last() == s@[k as int]);
        }
        if w > n - used {
            proof {
                assert(fits(s@, k as int, n as nat));
                lemma_fit_unique(s@, k as int, n as nat);
            }
            return slice(s, 0, k);
        }
        used = used + w;
        k += 1;
    }
    proof {
        assert(fits(s@, k as int, n as nat));
        lemma_fit_unique(s@, k as int, n as nat);
        assert(s@.take(len as int) =~= s@);
    }
    s
}

proof fn lemma_fit_unique(s: Seq<char>, k: int, n: nat)
    requires
        fits(s, k, n),
    ensures
        byte_prefix(s, n) == s.take(k),
{
    let other = choose|j: int| fits(s, j, n);
    if other < k {
        lemma_byte_len_monotone(s, other + 1, k);
    } else if k < other {
        lemma_byte_len_monotone(s, k + 1, other);
    }
}

// ---------------------------------------------------------------------------
// White space

/// The characters with the Unicode property `White_Space`.
pub open spec fn is_space(c: char) -> bool {
    ||| '\u{9}' <= c && c <= '\u{d}'
    ||| c == ' '
    ||| c == '\u{85}'
    ||| c == '\u{a0}'
    ||| c == '\u{1680}'
    ||| '\u{2000}' <= c && c <= '\u{200a}'
    ||| c == '\u{2028}'
    ||| c == '\u{2029}'
    ||| c == '\u{202f}'
    ||| c == '\u{205f}'
    ||| c == '\u{3000}'
}

pub fn space(c: char) -> (r: bool)
    ensures
        r == is_space(c),
{
    ('\u{9}' <= c && c <= '\u{d}') || c == ' ' || c == '\u{85}' || c == '\u{a0}' || c == '\u{1680}'
        || ('\u{2000}' <= c && c <= '\u{200a}') || c == '\u{2028}' || c == '\u{2029}' || c
        == '\u{202f}' || c == '\u{205f}' || c == '\u{3000}'
}

/// `s` without the white space at its beginning.
pub open spec fn trimmed_start(s: Seq<char>) -> Seq<char>
    decreases s.len(),
{
    if s.len() > 0 && is_space(s[0]) {
        trimmed_start(s.skip(1))
    } else {
        s
    }
}

/// `s` without the white space at its end.
pub open spec fn trimmed_end(s: Seq<char>) -> Seq<char>
    decreases s.len(),
{
    if s.len() > 0 && is_space(s.last()) {
        trimmed_end(s.drop_last())
    } else {
        s
    }
}

/// `s` without the white space at either end.
pub open spec fn trimmed(s: Seq<char>) -> Seq<char> {
    trimmed_end(trimmed_start(s))
}

/// `s` without the white space at either end.
pub fn trim<'a>(s: &'a str) -> (r: &'a str)
    ensures
        r@ == trimmed(s@),
{
    let cs = chars_of(s);
    let mut i: usize = 0;
    let n: usize = cs.len();
    assert(s@.skip(0) =~= s@);
    while i < n && space(cs[i])
        invariant
            cs@ == s@,
            n == s@.len(),
            i <= n,
            trimmed_start(s@) == trimmed_start(s@.skip(i as int)),
        decreases n - i,
    {
        proof {
            assert(s@.skip(i as int).skip(1) =~= s@.skip(i + 1));
        }
        i += 1;
    }
    let ghost t = s@.skip(i as int);
    let mut j: usize = n;
    assert(t.take(j - i) =~= t);
    while j > i && space(cs[j - 1])
        invariant
            cs@ == s@,
            n == s@.len(),
            i <= j <= n,
            t == s@.skip(i as int),
            trimmed_end(t) == trimmed_end(t.take(j - i)),
        decreases j,
    {
        proof {
            assert(t.take(j - i).drop_last() =~= t.take(j - i - 1));
        }
        j -= 1;
    }
    proof {
        assert(t.take(j - i) =~= s@.subrange(i as int, j as int));
    }
    slice(s, i, j)
}

/// Where a pattern stands somewhere, it stands at a last place.
pub proof fn lemma_last_exists(s: Seq<char>, pat: Seq<char>)
    requires
        occurs(s, pat),
    ensures
        last_at(s, pat, last_index(s, pat)),
{
    let i = choose|i: int| occurs_at(s, pat, i);
    lemma_last_from(s, pat, i);
}

proof fn lemma_last_from(s: Seq<char>, pat: Seq<char>, i: int)
    requires
        occurs_at(s, pat, i),
    ensures
        last_at(s, pat, last_index(s, pat)),
    decreases s.len() - i,
{
    if exists|j: int| j > i && occurs_at(s, pat, j) {
        let j = choose|j: int| j > i && occurs_at(s, pat, j);
        lemma_last_from(s, pat, j);
    } else {
        assert(last_at(s, pat, i));
        lemma_last_unique(s, pat, i);
    }
}

/// What is left of a string without the white space around it begins and ends
/// with something else.
pub proof fn law_trim(a: Seq<char>, s: Seq<char>, b: Seq<char>)
    requires
        forall|k: int| 0 <= k < a.len() ==> is_space(#[trigger] a[k]),
        forall|k: int| 0 <= k < b.len() ==> is_space(#[trigger] b[k]),
        s.len() > 0 ==> !is_space(s[0]) && !is_space(s.last()),
    ensures
        trimmed(a + s + b) == s,
    decreases a.len() + b.len(),
{
    let whole = a + s + b;
    if a.len() > 0 {
        assert(is_space(a[0]));
        assert(whole.skip(1) =~= a.skip(1) + s + b);
        law_trim(a.skip(1), s, b);
    } else if s.len() > 0 {
        assert(trimmed_start(whole) == whole);
        if b.len() > 0 {
            assert(is_space(b[b.len() - 1]));
            assert(whole.drop_last() =~= a + s + b.drop_last());
            assert((a + s + b.drop_last())[0] == s[0]);
            law_trim(a, s, b.drop_last());
        } else {
            assert(whole =~= s);
        }
    } else if b.len() > 0 {
        assert(is_space(b[0]));
        assert(whole.skip(1) =~= a + s + b.skip(1));
        law_trim(a, s, b.skip(1));
    } else {
        assert(whole =~= s);
    }
}

/// A string falls apart at the first mark.
pub proof fn law_first_half(a: Seq<char>, c: char, b: Seq<char>, pat: Seq<char>)
    requires
        pat.len() == 1,
        pat[0] == c,
        !a.contains(c),
    ensures
        halves(a + pat + b, pat) == Some((a, b)),
{
    let s = a + pat + b;
    let i = a.len() as int;
    assert(s.subrange(i, i + 1) =~= pat);
    assert(occurs_at(s, pat, i));
    assert forall|j: int| 0 <= j < i implies !occurs_at(s, pat, j) by {
        if occurs_at(s, pat, j) {
            assert(s.subrange(j, j + 1)[0] == c);
            assert(a[j] == c);
        }
    }
    lemma_first_unique(s, pat, i);
    assert(s.take(i) =~= a);
    assert(s.skip(i + 1) =~= b);
}

/// A string falls apart at the last mark.
pub proof fn law_last_half(a: Seq<char>, c: char, b: Seq<char>, pat: Seq<char>)
    requires
        pat.len() == 1,
        pat[0] == c,
        !b.contains(c),
    ensures
        rhalves(a + pat + b, pat) == Some((a, b)),
{
    let s = a + pat + b;
    let i = a.len() as int;
    assert(s.subrange(i, i + 1) =~= pat);
    assert(occurs_at(s, pat, i));
    assert forall|j: int| i < j implies !occurs_at(s, pat, j) by {
        if occurs_at(s, pat, j) {
            assert(s.subrange(j, j + 1)[0] == c);
            assert(b[j - i - 1] == c);
        }
    }
    lemma_last_unique(s, pat, i);
    assert(s.take(i) =~= a);
    assert(s.skip(i + 1) =~= b);
}

// ---------------------------------------------------------------------------
// Order

/// `a` does not come after `b` in the dictionary order of code points, which is
/// also the order of the UTF-8 encodings.
pub open spec fn lex_le(a: Seq<char>, b: Seq<char>) -> bool
    decreases a.len(),
{
    if a.len() == 0 {
        true
    } else if b.len() == 0 {
        false
    } else if a[0] != b[0] {
        a[0] < b[0]
    } else {
        lex_le(a.skip(1), b.skip(1))
    }
}

pub proof fn lemma_lex_reflexive(a: Seq<char>)
    ensures
        lex_le(a, a),
    decreases a.len(),
{
    if a.len() > 0 {
        lemma_lex_reflexive(a.skip(1));
    }
}

pub proof fn lemma_lex_total(a: Seq<char>, b: Seq<char>)
    ensures
        lex_le(a, b) || lex_le(b, a),
    decreases a.len(),
{
    if a.len() > 0 && b.len() > 0 {
        lemma_lex_total(a.skip(1), b.skip(1));
    }
}

pub proof fn lemma_lex_antisymmetric(a: Seq<char>, b: Seq<char>)
    requires
        lex_le(a, b),
        lex_le(b, a),
    ensures
        a == b,
    decreases a.len(),
{
    if a.len() > 0 && b.len() > 0 {
        lemma_lex_antisymmetric(a.skip(1), b.skip(1));
        assert forall|i: int| 0 <= i < a.len() implies a[i] == b[i] by {
            if i > 0 {
                assert(a[i] == a.skip(1)[i - 1]);
                assert(b[i] == b.skip(1)[i - 1]);
            }
        }
        assert(a.len() == a.skip(1).len() + 1);
    }
    assert(a =~= b);
}

pub proof fn lemma_lex_transitive(a: Seq<char>, b: Seq<char>, c: Seq<char>)
    requires
        lex_le(a, b),
        lex_le(b, c),
    ensures
        lex_le(a, c),
    decreases a.len(),
{
    if a.len() > 0 && b.len() > 0 && c.len() > 0 && a[0] == b[0] && b[0] == c[0] {
        lemma_lex_transitive(a.skip(1), b.skip(1), c.skip(1));
    }
}

/// Whether `a` does not come after `b` in dictionary order.
pub fn not_after(a: &[char], b: &[char]) -> (r: bool)
    ensures
        r == lex_le(a@, b@),
{
    let mut i: usize = 0;
    proof {
        assert(a@.skip(0) =~= a@);
        assert(b@.skip(0) =~= b@);
    }
    while i < a.len() && i < b.len()
        invariant
            i <= a@.len(),
            i <= b@.len(),
            lex_le(a@, b@) == lex_le(a@.skip(i as int), b@.skip(i as int)),
        decreases a@.len() - i,
    {
        if a[i] != b[i] {
            return a[i] < b[i];
        }
        proof {
            assert(a@.skip(i as int).skip(1) =~= a@.skip(i + 1));
            assert(b@.skip(i as int).skip(1) =~= b@.skip(i + 1));
        }
        i += 1;
    }
    i == a.len()
}

/// Dictionary order, as a relation.
pub open spec fn lex() -> spec_fn(Seq<char>, Seq<char>) -> bool {
    |a: Seq<char>, b: Seq<char>| lex_le(a, b)
}

pub proof fn lemma_lex_preorder()
    ensures
        sort::total_preorder(lex()),
{
    assert forall|a: Seq<char>, b: Seq<char>| #[trigger] lex()(a, b) || lex()(b, a) by {
        lemma_lex_total(a, b);
    }
    assert forall|a: Seq<char>, b: Seq<char>, c: Seq<char>| #[trigger]
        lex()(a, b) && #[trigger] lex()(b, c) implies lex()(a, c) by {
        lemma_lex_transitive(a, b, c);
    }
}

/// Whether `a` does not come after `b` in dictionary order.
pub fn str_le(a: &str, b: &str) -> (r: bool)
    ensures
        r == lex_le(a@, b@),
{
    let ca = chars_of(a);
    let cb = chars_of(b);
    not_after(ca.as_slice(), cb.as_slice())
}

fn str_ref_le(a: &&str, b: &&str) -> (r: bool)
    ensures
        r == lex_le(a@, b@),
{
    str_le(a, b)
}

/// The strings of `v` in dictionary order.
pub fn sort_strs<'a>(v: Vec<&'a str>) -> (r: Vec<&'a str>)
    ensures
        strs(r@) == sort::sorted(strs(v@), lex()),
        r@.len() == v@.len(),
{
    let ghost le = |a: &'a str, b: &'a str| lex_le(a@, b@);
    let ghost all = v@;
    let r = sort::sort_by(v, str_ref_le, Ghost(le));
    proof {
        let f = |s: &'a str| s@;
        sort::lemma_sorted_views(all, le, f, lex());
        sort::law_sorted_is_permutation(all, le);
        assert(strs(r@) =~= r@.map_values(f));
        assert(strs(all) =~= all.map_values(f));
    }
    r
}

fn string_le(a: &String, b: &String) -> (r: bool)
    ensures
        r == lex_le(a@, b@),
{
    str_le(a.as_str(), b.as_str())
}

/// The strings of `v` in dictionary order.
pub fn sort_strings(v: Vec<String>) -> (r: Vec<String>)
    ensures
        views(r@) == sort::sorted(views(v@), lex()),
{
    let ghost le = |a: String, b: String| lex_le(a@, b@);
    let ghost all = v@;
    let r = sort::sort_by(v, string_le, Ghost(le));
    proof {
        let f = |s: String| s@;
        sort::lemma_sorted_views(all, le, f, lex());
        assert(views(r@) =~= r@.map_values(f));
        assert(views(all) =~= all.map_values(f));
    }
    r
}

/// Whether `s` is one of `v`.
pub fn one_of(v: &[&str], s: &str) -> (r: bool)
    ensures
        r == strs(v@).contains(s@),
{
    let mut i: usize = 0;
    while i < v.len()
        invariant
            i <= v@.len(),
            forall|j: int| 0 <= j < i ==> strs(v@)[j] != s@,
        decreases v@.len() - i,
    {
        if eq(v[i], s) {
            assert(strs(v@)[i as int] == s@);
            return true;
        }
        i += 1;
    }
    false
}

/// A number that is written in decimal digits reads as that number, and is
/// written without leading zeros.
pub proof fn law_decimal_round_trip(n: nat)
    ensures
        number(decimal(n)) == n,
        all_digits(decimal(n)),
        decimal(n).len() > 0,
        n > 0 ==> decimal(n)[0] != '0',
        n == 0 ==> decimal(n) == seq!['0'],
    decreases n,
{
    let s = decimal(n);
    if n < 10 {
        reveal_with_fuel(number, 2);
        assert(s.drop_last() =~= Seq::<char>::empty());
        assert(s =~= seq![digit_char(n)]);
    } else {
        law_decimal_round_trip(n / 10);
        assert(s.drop_last() =~= decimal(n / 10));
        assert forall|i: int| 0 <= i < s.len() implies is_digit(#[trigger] s[i]) by {
            if i < s.len() - 1 {
                assert(is_digit(decimal(n / 10)[i]));
            }
        }
    }
}

/// An integer that is written reads as that integer.
pub proof fn law_integer_round_trip(n: int)
    ensures
        integer(integer_text(n)) == Some(n),
        forall|i: int|
            0 <= i < integer_text(n).len() ==> is_digit(#[trigger] integer_text(n)[i])
                || integer_text(n)[i] == '-',
{
    if n < 0 {
        law_decimal_round_trip((-n) as nat);
        let d = decimal((-n) as nat);
        assert(integer_text(n).skip(1) =~= d);
    } else {
        law_decimal_round_trip(n as nat);
        assert(is_digit(decimal(n as nat)[0]));
    }
}

/// The beginning of an ASCII text in bytes is its beginning in characters.
pub proof fn law_bytes_of_ascii(s: Seq<char>, n: nat)
    requires
        forall|i: int| 0 <= i < s.len() ==> (#[trigger] s[i] as u32) < 128,
    ensures
        byte_prefix(s, n) == (if s.len() <= n {
            s
        } else {
            s.take(n as int)
        }),
{
    let k: int = if s.len() <= n {
        s.len() as int
    } else {
        n as int
    };
    lemma_ascii_len(s, k);
    if k < s.len() {
        lemma_ascii_len(s, k + 1);
    }
    assert(fits(s, k, n));
    let j = choose|j: int| fits(s, j, n);
    lemma_ascii_len(s, j);
    if j < s.len() {
        lemma_ascii_len(s, j + 1);
    }
    assert(s.take(s.len() as int) =~= s);
}

proof fn lemma_ascii_len(s: Seq<char>, k: int)
    requires
        0 <= k <= s.len(),
        forall|i: int| 0 <= i < s.len() ==> (#[trigger] s[i] as u32) < 128,
    ensures
        byte_len(s.take(k)) == k,
    decreases k,
{
    if k > 0 {
        lemma_ascii_len(s, k - 1);
        assert(s.take(k).drop_last() =~= s.take(k - 1));
        assert(s.take(k).last() == s[k - 1]);
    }
}

/// A text is its first line, up to the first line feed, and the lines behind that;
/// what has no line feed is one line, and nothing is none.
pub proof fn law_lines(a: Seq<char>, b: Seq<char>)
    requires
        !a.contains('\n'),
    ensures
        lines_of(a + seq!['\n'] + b) == seq![without_cr(a)] + lines_of(b),
        a.len() > 0 ==> lines_of(a) == seq![a],
        lines_of(Seq::empty()).len() == 0,
        a.len() > 0 && a.last() != '\r' ==> without_cr(a) == a,
{
    lemma_one_piece(a, '\n');
    lemma_pieces(b, '\n');
    lemma_pieces_append(a, '\n', b);
    let pb = pieces(b, '\n');
    let all = pieces(a + seq!['\n'] + b, '\n');
    assert(all =~= seq![a] + pb);
    assert(all.last() == pb.last());
    let ended = Seq::new((all.len() - 1) as nat, |i: int| without_cr(all[i]));
    let behind = Seq::new((pb.len() - 1) as nat, |i: int| without_cr(pb[i]));
    assert(ended =~= seq![without_cr(a)] + behind);
    assert(lines_of(a + seq!['\n'] + b) =~= seq![without_cr(a)] + lines_of(b));
    if a.len() > 0 {
        assert(lines_of(a) =~= seq![a]);
    }
    let e = Seq::<char>::empty();
    lemma_one_piece(e, '\n');
}

} // verus!
