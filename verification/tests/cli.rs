use gh_pr_digest::cli::{
    parse_url, Cli, OutdatedFilter, OutputTarget, PrTarget, RepoSpec, StatusFilter,
};
use std::path::PathBuf;

fn pr(s: &str) -> Result<PrTarget, String> {
    s.parse()
}

#[test]
fn parses_bare_numbers() {
    assert_eq!(pr("19").unwrap(), PrTarget::Number(19));
    assert_eq!(pr("#19").unwrap(), PrTarget::Number(19));
}

#[test]
fn rejects_trailing_garbage_after_a_number() {
    assert!(pr("19abc").is_err());
    assert!(pr("").is_err());
    assert!(pr("0").is_err());
}

#[test]
fn parses_pr_urls() {
    assert_eq!(
        pr("https://github.com/owner/repo/pull/19").unwrap(),
        PrTarget::Url {
            host: "github.com".into(),
            owner: "owner".into(),
            repo: "repo".into(),
            number: 19,
        }
    );
}

#[test]
fn parses_urls_with_trailing_segments_and_fragments() {
    let expected = PrTarget::Url {
        host: "github.com".into(),
        owner: "owner".into(),
        repo: "repo".into(),
        number: 19,
    };
    assert_eq!(
        pr("https://github.com/owner/repo/pull/19/files").unwrap(),
        expected
    );
    assert_eq!(
        pr("https://github.com/owner/repo/pull/19#discussion_r123").unwrap(),
        expected
    );
    assert_eq!(pr("github.com/owner/repo/pull/19").unwrap(), expected);
}

#[test]
fn parses_enterprise_urls() {
    assert_eq!(
        pr("https://ghe.corp.example/owner/repo/pull/7").unwrap(),
        PrTarget::Url {
            host: "ghe.corp.example".into(),
            owner: "owner".into(),
            repo: "repo".into(),
            number: 7,
        }
    );
}

#[test]
fn rejects_urls_without_a_pull_segment() {
    assert!(pr("https://github.com/owner/repo/issues/19").is_err());
    assert!(pr("https://github.com/owner/repo").is_err());
}

#[test]
fn repo_spec_requires_both_halves() {
    assert!("owner".parse::<RepoSpec>().is_err());
    assert!("owner/".parse::<RepoSpec>().is_err());
    assert!("/repo".parse::<RepoSpec>().is_err());
    assert_eq!(
        "owner/repo".parse::<RepoSpec>().unwrap(),
        RepoSpec {
            host: None,
            owner: "owner".into(),
            name: "repo".into()
        }
    );
    assert_eq!(
        "ghe.corp/owner/repo".parse::<RepoSpec>().unwrap(),
        RepoSpec {
            host: Some("ghe.corp".into()),
            owner: "owner".into(),
            name: "repo".into()
        }
    );
}

#[test]
fn output_target_treats_dash_as_stdout() {
    assert_eq!("-".parse::<OutputTarget>().unwrap(), OutputTarget::Stdout);
    let parsed = "out.md".parse::<OutputTarget>().unwrap();
    match parsed {
        OutputTarget::File(p) => assert_eq!(PathBuf::from(p), PathBuf::from("out.md")),
        OutputTarget::Stdout => panic!("expected a file"),
    }
}

// Further cases.

#[test]
fn error_messages_name_the_input() {
    assert_eq!(
        pr("19abc").unwrap_err(),
        "expected a PR number or URL, got \"19abc\""
    );
    assert_eq!(pr("0").unwrap_err(), "pull request numbers start at 1");
    assert_eq!(pr("#0").unwrap_err(), "pull request numbers start at 1");
    assert_eq!(
        pr("https://github.com/owner/repo/issues/19").unwrap_err(),
        "no /pull/<number> segment in \"https://github.com/owner/repo/issues/19\""
    );
    assert_eq!(
        pr("https://github.com/repo/pull/19").unwrap_err(),
        "expected HOST/OWNER/REPO/pull/NUMBER, got \"https://github.com/repo/pull/19\""
    );
    assert_eq!(
        pr("https://github.com/owner/repo/pull").unwrap_err(),
        "expected HOST/OWNER/REPO/pull/NUMBER, got \"https://github.com/owner/repo/pull\""
    );
    assert_eq!(
        pr("https://github.com/owner/repo/pull/x9").unwrap_err(),
        "\"x9\" is not a pull request number"
    );
    assert_eq!(
        pr("https://github.com/owner/repo/pull/0").unwrap_err(),
        "pull request numbers start at 1"
    );
}

#[test]
fn numbers_are_trimmed_and_may_carry_a_plus_sign() {
    assert_eq!(pr("  42 \n").unwrap(), PrTarget::Number(42));
    assert_eq!(pr("+7").unwrap(), PrTarget::Number(7));
    assert!(pr("-7").is_err());
    assert!(pr("#").is_err());
    assert!(pr("18446744073709551616").is_err());
    assert_eq!(
        pr("18446744073709551615").unwrap(),
        PrTarget::Number(u64::MAX)
    );
}

#[test]
fn urls_accept_pulls_and_query_strings() {
    assert_eq!(
        pr("https://host/a/b/pulls/3?tab=files").unwrap(),
        PrTarget::Url {
            host: "host".into(),
            owner: "a".into(),
            repo: "b".into(),
            number: 3,
        }
    );
    assert_eq!(
        parse_url("http://x//o//r/pull/5/").unwrap(),
        PrTarget::Url {
            host: "x".into(),
            owner: "o".into(),
            repo: "r".into(),
            number: 5,
        }
    );
}

#[test]
fn number_of_a_target() {
    assert_eq!(PrTarget::Number(3).number(), 3);
    assert_eq!(pr("https://github.com/o/r/pull/12").unwrap().number(), 12);
}

#[test]
fn repo_spec_trims_and_reports() {
    assert_eq!(
        " owner/repo/ ".parse::<RepoSpec>().unwrap(),
        RepoSpec {
            host: None,
            owner: "owner".into(),
            name: "repo".into()
        }
    );
    assert_eq!(
        "owner".parse::<RepoSpec>().unwrap_err(),
        "expected OWNER/REPO or HOST/OWNER/REPO, got \"owner\""
    );
    assert_eq!(
        "/repo".parse::<RepoSpec>().unwrap_err(),
        "owner and repository must both be non-empty, got \"/repo\""
    );
    assert!("a/b/c/d".parse::<RepoSpec>().is_err());
}

#[test]
fn output_target_rejects_an_empty_path() {
    assert_eq!(
        "".parse::<OutputTarget>().unwrap_err(),
        "output path is empty"
    );
}

fn cli(target: PrTarget) -> Cli {
    Cli {
        target,
        output: None,
        repo: None,
        hostname: None,
        status: StatusFilter::All,
        outdated: OutdatedFilter::Include,
        active_only: false,
        token: None,
    }
}

#[test]
fn active_only_expands_to_open_and_current() {
    let mut c = cli(PrTarget::Number(1));
    assert_eq!(c.filters(), (StatusFilter::All, OutdatedFilter::Include));
    c.status = StatusFilter::Resolved;
    c.outdated = OutdatedFilter::Only;
    assert_eq!(c.filters(), (StatusFilter::Resolved, OutdatedFilter::Only));
    c.active_only = true;
    assert_eq!(c.filters(), (StatusFilter::Open, OutdatedFilter::Hide));
}

#[test]
fn a_url_target_cannot_take_repo_or_hostname() {
    let url = pr("https://github.com/o/r/pull/1").unwrap();
    let mut c = cli(url.clone());
    assert!(c.validate().is_ok());
    c.hostname = Some("ghe".into());
    assert_eq!(
        c.validate().unwrap_err(),
        "--hostname cannot be combined with a full PR URL; the URL already names the host"
    );
    c.repo = Some("o/r".parse().unwrap());
    assert_eq!(
        c.validate().unwrap_err(),
        "--repo cannot be combined with a full PR URL; the URL already names the repository"
    );
    let mut n = cli(PrTarget::Number(1));
    n.repo = Some("o/r".parse().unwrap());
    n.hostname = Some("ghe".into());
    assert!(n.validate().is_ok());
}
