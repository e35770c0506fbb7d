//! Parsing of image and registry references.

use vstd::prelude::*;
use crate::text;

verus! {

/// `uri` from behind its first `docker://` on, where it holds one.
pub open spec fn without_transport(uri: Seq<char>) -> Seq<char> {
    match text::halves(uri, "docker://"@) {
        Some(h) => h.1,
        None => uri,
    }
}

/// The organisation and the repository that `uri` names. With three or more
/// segments the first is the registry; the repository may itself be nested.
pub open spec fn org_repo(uri: Seq<char>) -> Option<(Seq<char>, Seq<char>)> {
    let parts = text::pieces(without_transport(uri), '/');
    if parts.len() >= 3 {
        Some((parts[1], text::joined(parts.skip(2), "/"@)))
    } else if parts.len() == 2 {
        Some((parts[0], parts[1]))
    } else {
        None
    }
}

/// A pair of owned strings, seen as a pair of sequences.
pub open spec fn opt_pair(p: Option<(String, String)>) -> Option<(Seq<char>, Seq<char>)> {
    match p {
        Some(q) => Some((q.0@, q.1@)),
        None => None,
    }
}

/// Split a container image URI into `(org, repo)`. Accepts registry prefixes
/// (`ghcr.io/org/repo`), bare `org/repo`, `docker://` URLs, and nested paths
/// (`org/sub/repo`); returns `None` for single segments.
pub fn parse_org_repo(uri: &str) -> (r: Option<(String, String)>)
    ensures
        opt_pair(r) == org_repo(uri@),
{
    let clean: &str = match text::split_once(uri, "docker://") {
        Some(h) => h.1,
        None => uri,
    };
    let parts = text::split(clean, '/');
    if parts.len() >= 3 {
        Some((parts[1].to_owned(), text::join_from(&parts, 2, "/")))
    } else if parts.len() == 2 {
        Some((parts[0].to_owned(), parts[1].to_owned()))
    } else {
        None
    }
}

/// A reference with a registry, an organisation and a path below it gives the
/// organisation and the path, however deep the path is.
pub proof fn law_org_repo_with_registry(registry: Seq<char>, org: Seq<char>, repo: Seq<char>)
    requires
        !registry.contains('/'),
        !org.contains('/'),
        !text::occurs(registry + seq!['/'] + (org + seq!['/'] + repo), "docker://"@),
    ensures
        org_repo(registry + seq!['/'] + (org + seq!['/'] + repo)) == Some((org, repo)),
{
    let inner = org + seq!['/'] + repo;
    text::lemma_pieces_append(registry, '/', inner);
    text::lemma_pieces_append(org, '/', repo);
    text::lemma_one_piece(registry, '/');
    text::lemma_one_piece(org, '/');
    text::lemma_pieces(repo, '/');
    text::law_split_join(repo, '/');
    let parts = text::pieces(registry + seq!['/'] + inner, '/');
    assert(parts =~= seq![registry, org] + text::pieces(repo, '/'));
    assert(parts.skip(2) =~= text::pieces(repo, '/'));
    reveal_strlit("/");
    assert("/"@ =~= seq!['/']);
}

/// A bare organisation and repository come back as they are.
pub proof fn law_org_repo_bare(org: Seq<char>, repo: Seq<char>)
    requires
        !org.contains('/'),
        !repo.contains('/'),
    ensures
        org_repo(org + seq!['/'] + repo) == Some((org, repo)),
{
    let uri = org + seq!['/'] + repo;
    text::lemma_pieces_append(org, '/', repo);
    text::lemma_one_piece(org, '/');
    text::lemma_one_piece(repo, '/');
    reveal_strlit("docker://");
    let mark = "docker://"@;
    if text::occurs(uri, mark) {
        let i = choose|i: int| text::occurs_at(uri, mark, i);
        let cut = uri.subrange(i, i + mark.len());
        assert(cut[7] == '/' && cut[8] == '/');
        assert(uri[i + 7] == '/' && uri[i + 8] == '/');
        if i + 7 < org.len() {
            assert(org[i + 7] == '/');
        } else if i + 8 > org.len() {
            assert(repo[i + 8 - org.len() - 1] == '/');
        }
    }
}

/// The transport mark before a reference changes nothing.
pub proof fn law_org_repo_transport(uri: Seq<char>)
    requires
        !text::occurs(uri, "docker://"@),
    ensures
        org_repo("docker://"@ + uri) == org_repo(uri),
{
    let mark = "docker://"@;
    let whole = mark + uri;
    assert(whole.subrange(0, mark.len() as int) =~= mark);
    assert(text::first_at(whole, mark, 0));
    text::lemma_first_unique(whole, mark, 0);
    assert(whole.skip(mark.len() as int) =~= uri);
}

} // verus!
