use gh_pr_digest::cli::{Cli, OutdatedFilter, OutputTarget, PrTarget, StatusFilter};
use gh_pr_digest::output::{default_path, with_suffix};
use gh_pr_digest::run::{output_target, resolve_repo};
use std::path::{Path, PathBuf};

#[test]
fn temporary_file_sits_beside_the_destination() {
    let path = Path::new("out/pr-9-digest.md");
    let temporary = with_suffix("out/pr-9-digest.md", ".tmp-1");
    let temporary = Path::new(&temporary);
    assert_eq!(temporary.parent(), path.parent());
    assert_eq!(temporary.file_name().unwrap(), "pr-9-digest.md.tmp-1");
}

#[test]
fn default_path_is_named_after_the_pull_request() {
    assert_eq!(PathBuf::from(default_path(19)), PathBuf::from("pr-19-digest.md"));
}

fn cli(target: PrTarget) -> Cli {
    Cli {
        target,
        output: None,
        repo: None,
        hostname: None,
        status: StatusFilter::All,
        outdated: OutdatedFilter::Include,
        active_only: false,
        token: None,
    }
}

#[test]
fn the_output_defaults_to_a_file_named_after_the_pull_request() {
    let mut c = cli(PrTarget::Number(7));
    assert_eq!(output_target(&c), OutputTarget::File("pr-7-digest.md".into()));
    c.output = Some(OutputTarget::Stdout);
    assert_eq!(output_target(&c), OutputTarget::Stdout);
}

#[test]
fn the_repository_comes_from_the_url_then_repo_flag() {
    let c = cli("https://ghe/o/r/pull/3".parse().unwrap());
    let (repo, host) = resolve_repo(&c, Some("env")).unwrap();
    assert_eq!((repo.host.as_str(), repo.owner.as_str(), repo.name.as_str()), ("ghe", "o", "r"));
    assert_eq!(host.as_deref(), Some("ghe"));

    let mut c = cli(PrTarget::Number(3));
    assert!(resolve_repo(&c, None).is_none());
    c.repo = Some("o/r".parse().unwrap());
    c.hostname = Some("named".into());
    let (repo, host) = resolve_repo(&c, Some("env")).unwrap();
    assert_eq!(repo.host, "named");
    assert_eq!(host.as_deref(), Some("named"));
    c.repo = Some("h/o/r".parse().unwrap());
    let (repo, _) = resolve_repo(&c, Some("env")).unwrap();
    assert_eq!(repo.host, "named");
    c.hostname = None;
    let (repo, _) = resolve_repo(&c, Some("env")).unwrap();
    assert_eq!(repo.host, "h");
    c.repo = Some("o/r".parse().unwrap());
    let (repo, _) = resolve_repo(&c, Some("env")).unwrap();
    assert_eq!(repo.host, "env");
    let (repo, _) = resolve_repo(&c, None).unwrap();
    assert_eq!(repo.host, "github.com");
}
