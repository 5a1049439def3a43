//! The decisions of a run: which repository and host, and where the output
//! goes. Reading git remotes and the environment is the caller's.

use vstd::prelude::*;

use crate::cli::{Cli, OutputTarget, OutputTargetView, PrTarget, PrTargetView, target_number};
use crate::github::auth::{opt_str_view, resolve_host, spec_resolve_host};
use crate::output::{default_path, spec_default_path};
use crate::repo::{Repo, RepoView};
use crate::text::opt_view;

verus! {

/// The repository the command line names, and the host the user named out
/// loud, if it names one: a URL names both; `-R` names the repository and
/// settles the host (`--hostname`, else the host in `-R`, else `GH_HOST`,
/// else github.com). Nothing means the repository is to be detected from
/// git's remotes, with `--hostname` as the only host named out loud.
pub open spec fn spec_resolve_repo(cli: Cli, gh_host: Option<Seq<char>>) -> Option<(RepoView, Option<Seq<char>>)> {
    match cli.target@ {
        PrTargetView::Url { host, owner, repo, .. } => Some(
            (RepoView { host, owner, name: repo }, Some(host)),
        ),
        PrTargetView::Number(_) => match cli.repo {
            Some(spec) => {
                let explicit = match opt_view(cli.hostname) {
                    Some(h) => Some(h),
                    None => opt_view(spec.host),
                };
                let host = spec_resolve_host(explicit, None, gh_host);
                Some((RepoView { host, owner: spec.owner@, name: spec.name@ }, Some(host)))
            },
            None => None,
        },
    }
}

/// The view of a resolved repository.
pub open spec fn resolved_view(r: Option<(Repo, Option<String>)>) -> Option<(RepoView, Option<Seq<char>>)> {
    match r {
        Some((repo, host)) => Some((repo@, opt_view(host))),
        None => None,
    }
}

/// Works out the repository, and whether the user named its host out loud.
/// `gh_host` is the value of `GH_HOST`, if it is set.
pub fn resolve_repo(cli: &Cli, gh_host: Option<&str>) -> (r: Option<(Repo, Option<String>)>)
    ensures
        resolved_view(r) == spec_resolve_repo(*cli, opt_str_view(gh_host)),
{
    if let PrTarget::Url { host, owner, repo, .. } = &cli.target {
        let repo = Repo { host: host.clone(), owner: owner.clone(), name: repo.clone() };
        return Some((repo, Some(host.clone())));
    }
    match &cli.repo {
        Some(spec) => {
            let explicit: Option<&str> = match &cli.hostname {
                Some(h) => Some(h.as_str()),
                None => match &spec.host {
                    Some(h) => Some(h.as_str()),
                    None => None,
                },
            };
            let host = resolve_host(explicit, None, gh_host);
            let named = host.clone();
            let repo = Repo { host, owner: spec.owner.clone(), name: spec.name.clone() };
            Some((repo, Some(named)))
        },
        None => None,
    }
}

/// The host a run talks to, given the repository git's remotes name
/// (`detected`, used only when the command line names none): the host named
/// out loud, else the repository's own.
pub open spec fn spec_run_host(cli: Cli, gh_host: Option<Seq<char>>, detected: RepoView) -> Seq<char> {
    let (repo, explicit) = match spec_resolve_repo(cli, gh_host) {
        Some(p) => p,
        None => (detected, opt_view(cli.hostname)),
    };
    spec_resolve_host(explicit, Some(repo.host), gh_host)
}

/// The host is resolved from the PR URL if one was given, then `--hostname`,
/// then the host in `-R host/owner/repo`, then, when no repository is named,
/// the git remote's, then a non-empty `GH_HOST`, then github.com.
pub proof fn lemma_host_precedence(cli: Cli, gh_host: Option<Seq<char>>, detected: RepoView)
    ensures
        spec_run_host(cli, gh_host, detected) == match cli.target@ {
            PrTargetView::Url { host, .. } => host,
            PrTargetView::Number(_) => match opt_view(cli.hostname) {
                Some(h) => h,
                None => match cli.repo {
                    Some(spec) => match opt_view(spec.host) {
                        Some(h) => h,
                        None => spec_resolve_host(None, None, gh_host),
                    },
                    None => detected.host,
                },
            },
        },
{
}

/// Where the digest goes: the target the user named, else the default file
/// for the pull request.
pub open spec fn spec_output_target(cli: Cli) -> OutputTargetView {
    match cli.output {
        Some(t) => t@,
        None => OutputTargetView::File(spec_default_path(target_number(cli.target@))),
    }
}

pub fn output_target(cli: &Cli) -> (r: OutputTarget)
    ensures
        r@ == spec_output_target(*cli),
{
    match &cli.output {
        Some(OutputTarget::Stdout) => OutputTarget::Stdout,
        Some(OutputTarget::File(p)) => OutputTarget::File(p.clone()),
        None => OutputTarget::File(default_path(cli.target.number())),
    }
}

/// The command line names the repository: a URL names its host, owner and
/// repository; with a number, `-R` names the owner and repository, whatever
/// host is settled on. Only a number without `-R` leaves the repository to
/// be detected.
pub proof fn lemma_repository_named(cli: Cli, gh_host: Option<Seq<char>>)
    ensures
        cli.target@ is Url ==> (spec_resolve_repo(cli, gh_host) matches Some((r, h)) && r.host
            == cli.target@->host && r.owner == cli.target@->owner && r.name == cli.target@->repo
            && h == Some(r.host)),
        cli.target@ is Number && cli.repo is Some ==> (spec_resolve_repo(cli, gh_host) matches Some(
            (r, h),
        ) && r.owner == cli.repo->0.owner@ && r.name == cli.repo->0.name@ && h == Some(r.host)),
        cli.target@ is Number && cli.repo is None ==> spec_resolve_repo(cli, gh_host) is None,
{
}

/// The digest goes where the user says: to the target `-o` names if there is
/// one, and only otherwise to `pr-<number>-digest.md`.
pub proof fn lemma_output_where_named(cli: Cli)
    ensures
        cli.output matches Some(t) ==> spec_output_target(cli) == t@,
        cli.output is None ==> spec_output_target(cli) == OutputTargetView::File(
            "pr-"@ + crate::number::dec(
                (match cli.target {
                    PrTarget::Number(n) => n,
                    PrTarget::Url { number, .. } => number,
                }) as nat,
            ) + "-digest.md"@,
        ),
{
}

} // verus!
