//! Working out which repository we are talking about, from git's own remotes.

use vstd::prelude::*;

use crate::error::Error;
use crate::split::{
    nonempty, segments, split, split_chars, split_once, split_once_chars, lemma_split_len, views,
};
use crate::text::{
    chars_of, eq_chars, lowercased, opt_view, push_str, string_of,
    strip_leading, strip_leading_chars, strip_trailing, strip_trailing_chars, to_lowercase, trim,
    trimmed,
};

verus! {

#[derive(Debug, Clone, PartialEq, Eq)]
pub struct Repo {
    pub host: String,
    pub owner: String,
    pub name: String,
}

/// The view of a [`Repo`].
pub struct RepoView {
    pub host: Seq<char>,
    pub owner: Seq<char>,
    pub name: Seq<char>,
}

impl View for Repo {
    type V = RepoView;

    open spec fn view(&self) -> RepoView {
        RepoView { host: self.host@, owner: self.owner@, name: self.name@ }
    }
}

/// How a repository is named in messages: `owner/name`.
pub open spec fn spec_display(r: RepoView) -> Seq<char> {
    r.owner + seq!['/'] + r.name
}

impl Repo {
    /// `owner/name`.
    pub fn display(&self) -> (s: String)
        ensures
            s@ == spec_display(self@),
    {
        let mut s = self.owner.clone();
        crate::text::push_char(&mut s, '/');
        push_str(&mut s, self.name.as_str());
        s
    }

    fn copy(&self) -> (r: Repo)
        ensures
            r@ == self@,
    {
        Repo { host: self.host.clone(), owner: self.owner.clone(), name: self.name.clone() }
    }
}

/// The remote names that git lists, one per line, trimmed, blank lines dropped.
pub open spec fn spec_remote_names(output: Seq<Seq<char>>) -> Seq<Seq<char>>
    decreases output.len(),
{
    if output.len() == 0 {
        Seq::empty()
    } else if trim(output.last()).len() > 0 {
        spec_remote_names(output.drop_last()).push(trim(output.last()))
    } else {
        spec_remote_names(output.drop_last())
    }
}

/// The remote names in the output of `git remote`.
pub fn remote_names(output: &str) -> (r: Vec<String>)
    ensures
        views_of_strings(r@) == spec_remote_names(crate::split::lines(output@)),
{
    let v = chars_of(output);
    let ls = crate::split::lines_of(v.as_slice());
    let ghost lv = views(ls@);
    let mut r: Vec<String> = Vec::new();
    let mut i: usize = 0;
    assert(lv.take(0) =~= Seq::<Seq<char>>::empty());
    assert(views_of_strings(r@) =~= Seq::<Seq<char>>::empty());
    while i < ls.len()
        invariant
            i <= ls@.len(),
            lv == views(ls@),
            views_of_strings(r@) == spec_remote_names(lv.take(i as int)),
        decreases ls@.len() - i,
    {
        assert(lv.take(i + 1).drop_last() =~= lv.take(i as int));
        assert(lv.take(i + 1).last() == ls@[i as int]@);
        let t = trimmed(ls[i].as_slice());
        if t.len() > 0 {
            let ghost before = views_of_strings(r@);
            r.push(string_of(t.as_slice()));
            assert(views_of_strings(r@) =~= before.push(t@));
        }
        i = i + 1;
    }
    assert(lv.take(lv.len() as int) =~= lv);
    r
}

/// The views of a sequence of strings.
pub open spec fn views_of_strings(ss: Seq<String>) -> Seq<Seq<char>> {
    Seq::new(ss.len(), |i: int| ss[i]@)
}

/// The remote names git prefers, in order: `upstream` first, since in a fork
/// the pull request lives on the canonical repository.
pub open spec fn priority() -> Seq<Seq<char>> {
    seq!["upstream"@, "github"@, "origin"@]
}

/// The order in which remotes are tried: the preferred names that exist, in
/// preference order, then every other remote in the order git lists them.
pub open spec fn spec_order_remotes(rs: Seq<Seq<char>>) -> Seq<Seq<char>> {
    let preferred = Seq::new(3, |i: int| priority()[i]).filter(|p: Seq<char>| rs.contains(p));
    preferred + rs.filter(|r: Seq<char>| !priority().contains(r))
}

/// Whether `name` is one of the names in `rs`.
fn contains_name(rs: &Vec<String>, name: &str) -> (r: bool)
    ensures
        r == views_of_strings(rs@).contains(name@),
{
    let n = chars_of(name);
    let ghost vs = views_of_strings(rs@);
    let mut i: usize = 0;
    while i < rs.len()
        invariant
            i <= rs@.len(),
            vs == views_of_strings(rs@),
            n@ == name@,
            forall|k: int| 0 <= k < i ==> vs[k] != name@,
        decreases rs@.len() - i,
    {
        let c = chars_of(rs[i].as_str());
        if eq_chars(c.as_slice(), n.as_slice()) {
            assert(vs[i as int] == name@);
            return true;
        }
        i = i + 1;
    }
    false
}

/// Whether `name` is one of the preferred remote names.
fn is_preferred(name: &str) -> (r: bool)
    ensures
        r == priority().contains(name@),
{
    let n = chars_of(name);
    let u = chars_of("upstream");
    let g = chars_of("github");
    let o = chars_of("origin");
    let r = eq_chars(n.as_slice(), u.as_slice()) || eq_chars(n.as_slice(), g.as_slice()) || eq_chars(
        n.as_slice(),
        o.as_slice(),
    );
    proof {
        let p = priority();
        if r {
            if n@ == "upstream"@ {
                assert(p[0] == name@);
            } else if n@ == "github"@ {
                assert(p[1] == name@);
            } else {
                assert(p[2] == name@);
            }
        } else {
            assert forall|k: int| 0 <= k < p.len() implies p[k] != name@ by {}
        }
    }
    r
}

/// The remotes in the order they are tried.
pub fn order_remotes(remotes: &Vec<String>) -> (r: Vec<String>)
    ensures
        views_of_strings(r@) == spec_order_remotes(views_of_strings(remotes@)),
{
    let ghost rs = views_of_strings(remotes@);
    let mut r: Vec<String> = Vec::new();
    let names: Vec<&str> = vec!["upstream", "github", "origin"];
    let ghost pr = Seq::new(3, |i: int| priority()[i]);
    let ghost keep = |p: Seq<char>| rs.contains(p);
    reveal_with_fuel(Seq::<Seq<char>>::filter, 4);
    assert(pr.take(0) =~= Seq::<Seq<char>>::empty());
    let mut i: usize = 0;
    while i < 3
        invariant
            i <= 3,
            names@.len() == 3,
            names@[0]@ == "upstream"@,
            names@[1]@ == "github"@,
            names@[2]@ == "origin"@,
            pr == Seq::new(3, |i: int| priority()[i]),
            rs == views_of_strings(remotes@),
            keep == (|p: Seq<char>| rs.contains(p)),
            views_of_strings(r@) == pr.take(i as int).filter(keep),
        decreases 3 - i,
    {
        assert(pr.take(i + 1).drop_last() =~= pr.take(i as int));
        assert(pr[i as int] == names@[i as int]@);
        reveal_with_fuel(Seq::<Seq<char>>::filter, 1);
        if contains_name(remotes, names[i]) {
            let ghost before = views_of_strings(r@);
            r.push(string_of(chars_of(names[i]).as_slice()));
            assert(views_of_strings(r@) =~= before.push(pr[i as int]));
        }
        i = i + 1;
    }
    assert(pr.take(3) =~= pr);
    let ghost head = views_of_strings(r@);
    let ghost other = |x: Seq<char>| !priority().contains(x);
    let mut k: usize = 0;
    assert(rs.take(0) =~= Seq::<Seq<char>>::empty());
    while k < remotes.len()
        invariant
            k <= remotes@.len(),
            rs == views_of_strings(remotes@),
            other == (|x: Seq<char>| !priority().contains(x)),
            views_of_strings(r@) == head + rs.take(k as int).filter(other),
        decreases remotes@.len() - k,
    {
        assert(rs.take(k + 1).drop_last() =~= rs.take(k as int));
        assert(rs.take(k + 1).last() == remotes@[k as int]@);
        reveal_with_fuel(Seq::<Seq<char>>::filter, 1);
        if !is_preferred(remotes[k].as_str()) {
            let ghost before = views_of_strings(r@);
            r.push(remotes[k].clone());
            assert(views_of_strings(r@) =~= before.push(rs[k as int]));
        }
        k = k + 1;
    }
    assert(rs.take(rs.len() as int) =~= rs);
    r
}

// ---------------------------------------------------------------------------
// Remote URLs
// ---------------------------------------------------------------------------

/// The authority and path of a remote URL: after `://` and up to the first
/// `/` for URL syntax, or around the first `:` for scp-like syntax
/// (`git@github.com:owner/repo.git`).
pub open spec fn remote_parts(u: Seq<char>) -> Option<(Seq<char>, Seq<char>)> {
    match split_once(u, "://"@) {
        Some((_, rest)) => split_once(rest, seq!['/']),
        None => split_once(u, seq![':']),
    }
}

/// The host of an authority, before lowercasing: without userinfo
/// (`git@`) and without a port.
pub open spec fn raw_host(authority: Seq<char>) -> Seq<char> {
    split(split(authority, '@').last(), ':')[0]
}

/// The path of a remote without surrounding slashes and a `.git` suffix.
pub open spec fn clean_path(path: Seq<char>) -> Seq<char> {
    let p = strip_trailing(strip_leading(path, '/'), '/');
    if p.len() >= 4 && p.subrange(p.len() - 4, p.len() as int) == ".git"@ {
        p.subrange(0, p.len() - 4)
    } else {
        p
    }
}

/// The repository a lowercased host and a path name: the last two non-empty
/// path segments, so that an instance served under a path prefix still yields
/// the owner and repository.
pub open spec fn spec_assemble(host: Seq<char>, path: Seq<char>) -> Option<RepoView> {
    let segs = nonempty(split(clean_path(path), '/'));
    if host.len() == 0 || segs.len() < 2 {
        None
    } else {
        Some(RepoView { host, owner: segs[segs.len() - 2], name: segs[segs.len() - 1] })
    }
}

/// The repository a remote URL names, for any form git accepts.
pub open spec fn spec_remote_url(url: Seq<char>) -> Option<RepoView> {
    match remote_parts(trim(url)) {
        None => None,
        Some((authority, path)) => spec_assemble(lowercased(raw_host(authority)), path),
    }
}

/// The view of an optional repository.
pub open spec fn opt_repo_view(r: Option<Repo>) -> Option<RepoView> {
    match r {
        Some(r) => Some(r@),
        None => None,
    }
}

/// The repository a lowercased host and a remote path name.
pub fn assemble_remote(host: &str, path: &str) -> (r: Option<Repo>)
    ensures
        opt_repo_view(r) == spec_assemble(host@, path@),
{
    let p = chars_of(path);
    let p = strip_leading_chars(p.as_slice(), '/');
    let p = strip_trailing_chars(p.as_slice(), '/');
    let git = chars_of(".git");
    let n = p.len();
    let p = if n >= 4 && eq_chars(crate::text::slice_chars(p.as_slice(), n - 4, n).as_slice(), git.as_slice()) {
        crate::text::slice_chars(p.as_slice(), 0, n - 4)
    } else {
        p
    };
    let segs = segments(p.as_slice(), '/');
    let ghost sv = views(segs@);
    let h = chars_of(host);
    if h.len() == 0 || segs.len() < 2 {
        return None;
    }
    let m = segs.len();
    assert(sv[m - 2] == segs@[m - 2]@);
    assert(sv[m - 1] == segs@[m - 1]@);
    Some(
        Repo {
            host: string_of(h.as_slice()),
            owner: string_of(segs[m - 2].as_slice()),
            name: string_of(segs[m - 1].as_slice()),
        },
    )
}

/// Extracts host, owner and name from any remote form git accepts; the host
/// is lowercased.
pub fn parse_remote_url(url: &str) -> (r: Option<Repo>)
    ensures
        opt_repo_view(r) == spec_remote_url(url@),
{
    let v = chars_of(url);
    let u = trimmed(v.as_slice());
    let scheme = chars_of("://");
    let slash = vec!['/'];
    let colon = vec![':'];
    assert(slash@ =~= seq!['/']);
    assert(colon@ =~= seq![':']);
    let parts = match split_once_chars(u.as_slice(), scheme.as_slice()) {
        Some((_, rest)) => split_once_chars(rest.as_slice(), slash.as_slice()),
        None => split_once_chars(u.as_slice(), colon.as_slice()),
    };
    let (authority, path) = match parts {
        Some(p) => p,
        None => {
            return None;
        },
    };
    let at = vec!['@'];
    assert(at@ =~= seq!['@']);
    let pieces = split_chars(authority.as_slice(), at.as_slice());
    proof {
        lemma_split_len(authority@, seq!['@']);
        lemma_split_len(views(pieces@).last(), seq![':']);
    }
    let last = pieces.len() - 1;
    assert(views(pieces@).last() == pieces@[last as int]@);
    let host_parts = split_chars(pieces[last].as_slice(), colon.as_slice());
    proof {
        lemma_split_len(pieces@[last as int]@, seq![':']);
    }
    assert(views(host_parts@)[0] == host_parts@[0]@);
    let raw = string_of(host_parts[0].as_slice());
    let host = to_lowercase(raw.as_str());
    let path = string_of(path.as_slice());
    assemble_remote(host.as_str(), path.as_str())
}

/// The first of the remote URLs, in order, that names a repository.
pub open spec fn first_repo(urls: Seq<Option<Seq<char>>>) -> Option<RepoView>
    decreases urls.len(),
{
    if urls.len() == 0 {
        None
    } else {
        match urls[0] {
            Some(u) => match spec_remote_url(u) {
                Some(r) => Some(r),
                None => first_repo(urls.drop_first()),
            },
            None => first_repo(urls.drop_first()),
        }
    }
}

/// The views of a sequence of optional strings.
pub open spec fn opt_views(us: Seq<Option<String>>) -> Seq<Option<Seq<char>>> {
    Seq::new(us.len(), |i: int| opt_view(us[i]))
}

/// The message when no remote names a repository.
pub open spec fn undetected_message() -> Seq<char> {
    "could not determine the repository from the current directory.\nPass -R <owner/repo>, or give a full pull request URL."@
}

/// The message when the current directory is not in a git repository.
pub open spec fn not_a_repository_message() -> Seq<char> {
    "not inside a git repository. Pass -R <owner/repo>, or give a full pull request URL."@
}

/// The failure when the current directory is not inside a git repository.
pub fn not_a_repository() -> (e: Error)
    ensures
        e matches Error::Repo(m) && m@ == not_a_repository_message(),
{
    Error::Repo(
        string_of(
            chars_of(
                "not inside a git repository. Pass -R <owner/repo>, or give a full pull request URL.",
            ).as_slice(),
        ),
    )
}

/// The repository named by the first remote URL that names one, trying the
/// remotes in order (an absent URL is skipped).
pub fn detect(remote_urls: &Vec<Option<String>>) -> (r: Result<Repo, Error>)
    ensures
        r matches Ok(repo) ==> first_repo(opt_views(remote_urls@)) == Some(repo@),
        r is Err <==> first_repo(opt_views(remote_urls@)) is None,
        r matches Err(e) ==> e matches Error::Repo(m) && m@ == undetected_message(),
{
    let ghost us = opt_views(remote_urls@);
    let mut i: usize = 0;
    assert(us.skip(0) =~= us);
    while i < remote_urls.len()
        invariant
            i <= remote_urls@.len(),
            us == opt_views(remote_urls@),
            first_repo(us) == first_repo(us.skip(i as int)),
        decreases remote_urls@.len() - i,
    {
        assert(us.skip(i as int)[0] == opt_view(remote_urls@[i as int]));
        assert(us.skip(i as int).drop_first() =~= us.skip(i + 1));
        match &remote_urls[i] {
            Some(url) => {
                if let Some(repo) = parse_remote_url(url.as_str()) {
                    return Ok(repo);
                }
            },
            None => {},
        }
        i = i + 1;
    }
    assert(us.skip(i as int) =~= Seq::<Option<Seq<char>>>::empty());
    Err(
        Error::Repo(
            string_of(
                chars_of(
                    "could not determine the repository from the current directory.\nPass -R <owner/repo>, or give a full pull request URL.",
                ).as_slice(),
            ),
        ),
    )
}

/// The URL of a remote, from the output of `git remote get-url`: trimmed, and
/// none if blank.
pub fn remote_url_from_output(output: &str) -> (r: Option<String>)
    ensures
        opt_view(r) == (if trim(output@).len() > 0 {
            Some(trim(output@))
        } else {
            None
        }),
{
    let v = chars_of(output);
    let t = trimmed(v.as_slice());
    if t.len() == 0 {
        None
    } else {
        Some(string_of(t.as_slice()))
    }
}

} // verus!
