use gh_pr_digest::repo::{detect, order_remotes, parse_remote_url, remote_names, Repo};

fn repo(host: &str, owner: &str, name: &str) -> Option<Repo> {
    Some(Repo {
        host: host.into(),
        owner: owner.into(),
        name: name.into(),
    })
}

#[test]
fn parses_every_remote_form_git_accepts() {
    let expected = repo("github.com", "owner", "repo");
    for url in [
        "git@github.com:owner/repo.git",
        "git@github.com:owner/repo",
        "ssh://git@github.com/owner/repo.git",
        "https://github.com/owner/repo.git",
        "https://github.com/owner/repo",
        "https://user@github.com/owner/repo.git",
        "git://github.com/owner/repo.git",
    ] {
        assert_eq!(parse_remote_url(url), expected, "failed on {url}");
    }
}

#[test]
fn keeps_the_enterprise_host_and_drops_the_port() {
    assert_eq!(
        parse_remote_url("ssh://git@ghe.corp:2222/owner/repo.git"),
        repo("ghe.corp", "owner", "repo")
    );
}

#[test]
fn normalises_host_case() {
    assert_eq!(
        parse_remote_url("git@GitHub.com:owner/repo.git"),
        repo("github.com", "owner", "repo")
    );
}

#[test]
fn rejects_paths_without_an_owner() {
    assert_eq!(parse_remote_url("https://github.com/repo"), None);
    assert_eq!(parse_remote_url("not-a-url"), None);
}

#[test]
fn takes_the_last_two_segments_under_a_prefix() {
    assert_eq!(
        parse_remote_url("  https://host/prefix/owner/repo.git/ \n"),
        repo("host", "owner", "repo")
    );
    assert_eq!(parse_remote_url("https://host"), None);
    assert_eq!(parse_remote_url(":owner/repo"), None);
}

#[test]
fn remotes_are_tried_in_preference_order() {
    let names = remote_names("origin\n  fork \n\nupstream\r\n");
    assert_eq!(names, vec!["origin", "fork", "upstream"]);
    assert_eq!(order_remotes(&names), vec!["upstream", "origin", "fork"]);
    let names: Vec<String> = vec!["b".into(), "github".into(), "a".into()];
    assert_eq!(order_remotes(&names), vec!["github", "b", "a"]);
}

#[test]
fn detection_takes_the_first_remote_that_names_a_repository() {
    let urls = vec![None, Some("nonsense".to_string()), Some("git@h:o/r.git".to_string())];
    assert_eq!(detect(&urls).ok(), repo("h", "o", "r"));
    let e = detect(&vec![None]).unwrap_err();
    assert_eq!(e.exit_code(), 3);
    assert_eq!(
        e.message(),
        "could not determine the repository from the current directory.\nPass -R <owner/repo>, or give a full pull request URL."
    );
    let shown = Repo { host: "h".into(), owner: "o".into(), name: "r".into() }.display();
    assert_eq!(shown, "o/r");
}
