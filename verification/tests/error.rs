use gh_pr_digest::error::Error;

#[test]
fn each_failure_has_its_exit_code() {
    let cases = [
        (Error::Repo("r".into()), 3),
        (Error::Auth("a".into()), 4),
        (Error::NotFound("n".into()), 5),
        (Error::Network("w".into()), 6),
        (Error::Api("p".into()), 1),
        (Error::Io("i".into()), 1),
    ];
    for (error, code) in cases {
        assert_eq!(error.exit_code(), code);
        assert_ne!(error.exit_code(), 0);
        assert_ne!(error.exit_code(), 2);
    }
}

#[test]
fn an_error_shows_its_message() {
    assert_eq!(Error::NotFound("pull request #7 not found in o/r".into()).message(), "pull request #7 not found in o/r");
    assert_eq!(Error::Io("could not write x".into()).message(), "could not write x");
}
