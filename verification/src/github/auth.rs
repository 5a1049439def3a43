//! Host and credential resolution.
//!
//! A host the user named always wins over one inferred from a git remote,
//! which wins over `GH_HOST`, which wins over github.com. A token is taken from
//! `--token`, then from the environment variables `gh` reads for the host, then
//! from `gh auth token`. The environment and `gh` are read by the caller and
//! handed in as values.

use vstd::prelude::*;

use crate::error::Error;
use crate::text::{
    chars_of, eq_chars, opt_view, push_str, string_of, trim, trimmed,
};

verus! {

pub const DEFAULT_HOST: &'static str = "github.com";

/// A string given as `Option<&str>`, by its view.
pub open spec fn opt_str_view(o: Option<&str>) -> Option<Seq<char>> {
    match o {
        Some(s) => Some(s@),
        None => None,
    }
}

/// Which GitHub instance to talk to: a host the user named, else one
/// inferred from a git remote, else a non-empty `GH_HOST`, else github.com.
pub open spec fn spec_resolve_host(
    explicit: Option<Seq<char>>,
    inferred: Option<Seq<char>>,
    gh_host: Option<Seq<char>>,
) -> Seq<char> {
    match explicit {
        Some(h) => h,
        None => match inferred {
            Some(h) => h,
            None => match gh_host {
                Some(h) => if h.len() > 0 {
                    h
                } else {
                    "github.com"@
                },
                None => "github.com"@,
            },
        },
    }
}

/// Decides which GitHub instance to talk to. `gh_host` is the value of the
/// `GH_HOST` environment variable, if it is set.
pub fn resolve_host(explicit: Option<&str>, inferred: Option<&str>, gh_host: Option<&str>) -> (r:
    String)
    ensures
        r@ == spec_resolve_host(
            opt_str_view(explicit),
            opt_str_view(inferred),
            opt_str_view(gh_host),
        ),
{
    if let Some(h) = explicit {
        return string_of(chars_of(h).as_slice());
    }
    if let Some(h) = inferred {
        return string_of(chars_of(h).as_slice());
    }
    if let Some(h) = gh_host {
        let v = chars_of(h);
        if v.len() > 0 {
            return string_of(v.as_slice());
        }
    }
    string_of(chars_of(DEFAULT_HOST).as_slice())
}

/// Whether `host` is github.com, whose API lives on its own domain.
pub open spec fn spec_is_dotcom(host: Seq<char>) -> bool {
    host == "github.com"@ || host == "api.github.com"@ || host == "www.github.com"@
}

pub fn is_dotcom(host: &str) -> (r: bool)
    ensures
        r == spec_is_dotcom(host@),
{
    let h = chars_of(host);
    eq_chars(h.as_slice(), chars_of(DEFAULT_HOST).as_slice()) || eq_chars(
        h.as_slice(),
        chars_of("api.github.com").as_slice(),
    ) || eq_chars(h.as_slice(), chars_of("www.github.com").as_slice())
}

/// The GraphQL endpoint of a host: github.com serves its API from a separate
/// domain, every enterprise installation from a path on the instance itself.
pub open spec fn spec_graphql_endpoint(host: Seq<char>) -> Seq<char> {
    if spec_is_dotcom(host) {
        "https://api.github.com/graphql"@
    } else {
        "https://"@ + host + "/api/graphql"@
    }
}

pub fn graphql_endpoint(host: &str) -> (r: String)
    ensures
        r@ == spec_graphql_endpoint(host@),
{
    if is_dotcom(host) {
        string_of(chars_of("https://api.github.com/graphql").as_slice())
    } else {
        let mut r = String::new();
        push_str(&mut r, "https://");
        push_str(&mut r, host);
        push_str(&mut r, "/api/graphql");
        r
    }
}

/// The environment variables a token for `host` is read from, in order: `gh`
/// reads the plain names for github.com and the enterprise names for anything
/// else, so that a github.com token is never sent to another host.
pub open spec fn spec_token_vars(host: Seq<char>) -> Seq<Seq<char>> {
    if spec_is_dotcom(host) {
        seq!["GH_TOKEN"@, "GITHUB_TOKEN"@]
    } else {
        seq!["GH_ENTERPRISE_TOKEN"@, "GITHUB_ENTERPRISE_TOKEN"@]
    }
}

/// The views of a sequence of string slices.
pub open spec fn str_views(ss: Seq<&str>) -> Seq<Seq<char>> {
    Seq::new(ss.len(), |i: int| ss[i]@)
}

/// The environment variables to read a token for `host` from.
pub fn token_env_vars(host: &str) -> (r: Vec<&'static str>)
    ensures
        str_views(r@) == spec_token_vars(host@),
{
    let r = if is_dotcom(host) {
        vec!["GH_TOKEN", "GITHUB_TOKEN"]
    } else {
        vec!["GH_ENTERPRISE_TOKEN", "GITHUB_ENTERPRISE_TOKEN"]
    };
    assert(str_views(r@) =~= spec_token_vars(host@));
    r
}

/// A candidate token: trimmed, and nothing if that leaves it empty.
pub open spec fn spec_normalize_token(raw: Seq<char>) -> Option<Seq<char>> {
    if trim(raw).len() > 0 {
        Some(trim(raw))
    } else {
        None
    }
}

pub fn normalize_token(raw: &str) -> (r: Option<String>)
    ensures
        opt_view(r) == spec_normalize_token(raw@),
{
    let t = trimmed(chars_of(raw).as_slice());
    if t.len() > 0 {
        Some(string_of(t.as_slice()))
    } else {
        None
    }
}

/// The first usable value among the candidates.
pub open spec fn first_token(candidates: Seq<Option<Seq<char>>>) -> Option<Seq<char>>
    decreases candidates.len(),
{
    if candidates.len() == 0 {
        None
    } else {
        match candidates[0] {
            Some(raw) => match spec_normalize_token(raw) {
                Some(t) => Some(t),
                None => first_token(candidates.drop_first()),
            },
            None => first_token(candidates.drop_first()),
        }
    }
}

/// Whether a candidate holds a token: it is there and not blank.
pub open spec fn usable(c: Option<Seq<char>>) -> bool {
    c matches Some(v) && trim(v).len() > 0
}

/// The token order: a `--token` that is not blank wins, trimmed, whatever the
/// environment holds. Only when `--token` is absent or blank is the
/// environment read, and then the token is the first of its values, in
/// order, that is not blank, trimmed; there is none only when every value is
/// absent or blank.
pub proof fn lemma_token_order(explicit: Option<Seq<char>>, env: Seq<Option<Seq<char>>>)
    ensures
        usable(explicit) ==> spec_pick_token(explicit, env) == Some(trim(explicit->0)),
        !usable(explicit) ==> (spec_pick_token(explicit, env) matches Some(t) ==> exists|i: int|
            0 <= i < env.len() && #[trigger] usable(env[i]) && t == trim(env[i]->0) && forall|j: int|
                0 <= j < i ==> !usable(env[j])),
        !usable(explicit) ==> (spec_pick_token(explicit, env) is None <==> forall|i: int|
            0 <= i < env.len() ==> !#[trigger] usable(env[i])),
{
    let cs = seq![explicit] + env;
    assert(cs[0] == explicit);
    assert(cs.drop_first() =~= env);
    lemma_first_token(env);
}

/// `first_token` gives the first usable candidate, trimmed.
proof fn lemma_first_token(cs: Seq<Option<Seq<char>>>)
    ensures
        first_token(cs) matches Some(t) ==> exists|i: int|
            0 <= i < cs.len() && #[trigger] usable(cs[i]) && t == trim(cs[i]->0) && forall|j: int|
                0 <= j < i ==> !usable(cs[j]),
        first_token(cs) is None <==> forall|i: int| 0 <= i < cs.len() ==> !#[trigger] usable(cs[i]),
    decreases cs.len(),
{
    if cs.len() > 0 {
        let rest = cs.drop_first();
        lemma_first_token(rest);
        assert forall|i: int| 0 < i < cs.len() implies cs[i] == rest[i - 1] by {}
        if usable(cs[0]) {
            assert(first_token(cs) == Some(trim(cs[0]->0)));
        } else {
            assert(first_token(cs) == first_token(rest));
            if first_token(rest) is Some {
                let i = choose|i: int|
                    0 <= i < rest.len() && #[trigger] usable(rest[i]) && first_token(rest) == Some(
                        trim(rest[i]->0),
                    ) && forall|j: int| 0 <= j < i ==> !usable(rest[j]);
                assert(usable(cs[i + 1]));
                assert forall|j: int| 0 <= j < i + 1 implies !usable(cs[j]) by {
                    if j > 0 {
                        assert(cs[j] == rest[j - 1]);
                    }
                }
            } else {
                assert forall|i: int| 0 <= i < cs.len() implies !#[trigger] usable(cs[i]) by {
                    if i > 0 {
                        assert(cs[i] == rest[i - 1]);
                    }
                }
            }
            if forall|i: int| 0 <= i < cs.len() ==> !#[trigger] usable(cs[i]) {
                assert forall|i: int| 0 <= i < rest.len() implies !#[trigger] usable(rest[i]) by {
                    assert(rest[i] == cs[i + 1]);
                }
            }
        }
    }
}

/// The views of a sequence of optional strings.
pub open spec fn opt_string_views(vs: Seq<Option<String>>) -> Seq<Option<Seq<char>>> {
    Seq::new(vs.len(), |i: int| opt_view(vs[i]))
}

/// The token from `--token` or the environment, before `gh` is asked.
pub open spec fn spec_pick_token(
    explicit: Option<Seq<char>>,
    env_values: Seq<Option<Seq<char>>>,
) -> Option<Seq<char>> {
    first_token(seq![explicit] + env_values)
}

/// The first usable token among `--token` and the values of the variables of
/// [`token_env_vars`], in order.
pub fn pick_token(explicit: Option<&str>, env_values: &Vec<Option<String>>) -> (r: Option<String>)
    ensures
        opt_view(r) == spec_pick_token(opt_str_view(explicit), opt_string_views(env_values@)),
{
    let ghost cands = seq![opt_str_view(explicit)] + opt_string_views(env_values@);
    assert(cands.drop_first() =~= opt_string_views(env_values@));
    if let Some(raw) = explicit {
        if let Some(t) = normalize_token(raw) {
            return Some(t);
        }
    }
    let ghost vs = opt_string_views(env_values@);
    let mut i: usize = 0;
    assert(vs.skip(0) =~= vs);
    while i < env_values.len()
        invariant
            i <= env_values@.len(),
            vs == opt_string_views(env_values@),
            spec_pick_token(opt_str_view(explicit), vs) == first_token(vs.skip(i as int)),
        decreases env_values@.len() - i,
    {
        assert(vs.skip(i as int)[0] == opt_view(env_values@[i as int]));
        assert(vs.skip(i as int).drop_first() =~= vs.skip(i + 1));
        if let Some(raw) = &env_values[i] {
            if let Some(t) = normalize_token(raw.as_str()) {
                return Some(t);
            }
        }
        i = i + 1;
    }
    assert(vs.skip(i as int) =~= Seq::<Option<Seq<char>>>::empty());
    None
}

/// The message when no token is found for `host`.
pub open spec fn no_token_message(host: Seq<char>) -> Seq<char> {
    let vars = spec_token_vars(host);
    "no GitHub token found for "@ + host + ".\nLooked at: --token, $"@ + vars[0] + ", $"@ + vars[1]
        + ", and `gh auth token --hostname "@ + host + "`.\nRun `gh auth login` or set $"@ + vars[0]
        + "."@
}

/// Finds a credential for `host`, in descending order of explicitness:
/// `--token`, then the environment variables of [`token_env_vars`] (whose
/// values are `env_values`, in order), then the output of
/// `gh auth token --hostname <host>` (`gh_output`, if `gh` ran and succeeded).
pub fn resolve_token(
    explicit: Option<&str>,
    host: &str,
    env_values: &Vec<Option<String>>,
    gh_output: Option<&str>,
) -> (r: Result<String, Error>)
    ensures
        ({
            let before = spec_pick_token(opt_str_view(explicit), opt_string_views(env_values@));
            let found = match before {
                Some(t) => Some(t),
                None => match gh_output {
                    Some(o) => spec_normalize_token(o@),
                    None => None,
                },
            };
            &&& r is Ok <==> found is Some
            &&& r matches Ok(t) ==> Some(t@) == found
            &&& r matches Err(e) ==> e matches Error::Auth(m) && m@ == no_token_message(host@)
        }),
{
    if let Some(t) = pick_token(explicit, env_values) {
        return Ok(t);
    }
    if let Some(o) = gh_output {
        if let Some(t) = normalize_token(o) {
            return Ok(t);
        }
    }
    let vars = token_env_vars(host);
    assert(str_views(vars@).len() == 2);
    assert(vars@[0]@ == spec_token_vars(host@)[0]);
    assert(vars@[1]@ == spec_token_vars(host@)[1]);
    let mut m = String::new();
    push_str(&mut m, "no GitHub token found for ");
    push_str(&mut m, host);
    push_str(&mut m, ".\nLooked at: --token, $");
    push_str(&mut m, vars[0]);
    push_str(&mut m, ", $");
    push_str(&mut m, vars[1]);
    push_str(&mut m, ", and `gh auth token --hostname ");
    push_str(&mut m, host);
    push_str(&mut m, "`.\nRun `gh auth login` or set $");
    push_str(&mut m, vars[0]);
    push_str(&mut m, ".");
    assert(m@ =~= no_token_message(host@));
    Err(Error::Auth(m))
}

} // verus!
