//! Where cached data is kept.

use vstd::prelude::*;
use crate::text;

verus! {

/// `part` below the directory `base`. A part that is an absolute path stands by
/// itself.
pub open spec fn joined_path(base: Seq<char>, part: Seq<char>) -> Seq<char> {
    if text::begins_with(part, "/"@) {
        part
    } else if base.len() == 0 || text::ends_in(base, "/"@) {
        base + part
    } else {
        base + "/"@ + part
    }
}

/// `part` below the directory `base`.
pub fn join_path(base: &str, part: &str) -> (r: String)
    ensures
        r@ == joined_path(base@, part@),
{
    if text::starts_with(part, "/") {
        return part.to_owned();
    }
    let mut out = base.to_owned();
    if !base.is_empty() && !text::ends_with(base, "/") {
        out.append("/");
    }
    out.append(part);
    out
}

/// The directory for cached data of `kind`: below `XDG_CACHE_HOME`, else below
/// `.cache` in the home directory, which is `/tmp` where there is none.
pub open spec fn cache_directory(
    xdg_cache_home: Option<Seq<char>>,
    home: Option<Seq<char>>,
    kind: Seq<char>,
) -> Seq<char> {
    let base = match xdg_cache_home {
        Some(x) => x,
        None => joined_path(
            match home {
                Some(h) => h,
                None => "/tmp"@,
            },
            ".cache"@,
        ),
    };
    joined_path(joined_path(base, "finupdate"@), kind)
}

/// A string slice that may be missing, taken by its characters.
pub open spec fn opt_chars(s: Option<&str>) -> Option<Seq<char>> {
    match s {
        Some(x) => Some(x@),
        None => None,
    }
}

/// The directory for cached data of `kind`, from the two variables of the
/// environment that decide it.
pub fn cache_dir(xdg_cache_home: Option<&str>, home: Option<&str>, kind: &str) -> (r: String)
    ensures
        r@ == cache_directory(opt_chars(xdg_cache_home), opt_chars(home), kind@),
{
    let base = match xdg_cache_home {
        Some(x) => x.to_owned(),
        None => match home {
            Some(h) => join_path(h, ".cache"),
            None => join_path("/tmp", ".cache"),
        },
    };
    let app = join_path(base.as_str(), "finupdate");
    join_path(app.as_str(), kind)
}

/// A part stands below its directory, with one slash between them; an absolute
/// part stands by itself.
pub proof fn law_paths(base: Seq<char>, part: Seq<char>)
    ensures
        part.len() > 0 && part[0] == '/' ==> joined_path(base, part) == part,
        (part.len() == 0 || part[0] != '/') && base.len() > 0 && base.last() != '/' ==> joined_path(
            base,
            part,
        ) == base + seq!['/'] + part,
        (part.len() == 0 || part[0] != '/') && base.len() > 0 && base.last() == '/' ==> joined_path(
            base,
            part,
        ) == base + part,
{
    reveal_strlit("/");
    assert("/"@ =~= seq!['/']);
    if part.len() > 0 {
        assert(part.subrange(0, 1)[0] == part[0]);
        if part[0] == '/' {
            assert(part.subrange(0, 1) =~= "/"@);
            assert(part.take(1) =~= "/"@);
        }
    }
    if base.len() > 0 {
        assert(base.skip(base.len() - 1)[0] == base.last());
        if base.last() == '/' {
            assert(base.skip(base.len() - 1) =~= "/"@);
            assert(base.subrange(base.len() - 1, base.len() as int) =~= "/"@);
        }
    }
}

/// Cached data stands in a directory of the program's name, by its kind: below
/// the directory that the environment names for such data, else below `.cache` in
/// the home directory, else below `/tmp`.
pub proof fn law_cache_directory(base: Seq<char>, kind: Seq<char>, home: Option<Seq<char>>)
    requires
        base.len() > 0,
        base.last() != '/',
        kind.len() > 0,
        kind[0] != '/',
    ensures
        cache_directory(Some(base), home, kind) == base + "/finupdate/"@ + kind,
        cache_directory(None, Some(base), kind) == base + "/.cache/finupdate/"@ + kind,
        cache_directory(None, None, kind) == "/tmp/.cache/finupdate/"@ + kind,
{
    reveal_strlit("finupdate");
    reveal_strlit(".cache");
    reveal_strlit("/finupdate/");
    reveal_strlit("/.cache/finupdate/");
    reveal_strlit("/tmp/.cache/finupdate/");
    reveal_strlit("/tmp");
    let a = base + seq!['/'] + "finupdate"@;
    law_paths(base, "finupdate"@);
    law_paths(a, kind);
    assert(a.last() == 't' || a.last() == 'e');
    assert(a + seq!['/'] + kind =~= base + "/finupdate/"@ + kind);
    let h = base + seq!['/'] + ".cache"@;
    law_paths(base, ".cache"@);
    law_paths(h, "finupdate"@);
    let b = h + seq!['/'] + "finupdate"@;
    law_paths(b, kind);
    assert(b + seq!['/'] + kind =~= base + "/.cache/finupdate/"@ + kind);
    let t = "/tmp"@ + seq!['/'] + ".cache"@;
    law_paths("/tmp"@, ".cache"@);
    law_paths(t, "finupdate"@);
    let d = t + seq!['/'] + "finupdate"@;
    law_paths(d, kind);
    assert(d + seq!['/'] + kind =~= "/tmp/.cache/finupdate/"@ + kind);
}

} // verus!
