use gh_pr_digest::error::Error;
use gh_pr_digest::github::auth::{
    graphql_endpoint, normalize_token, pick_token, resolve_host, resolve_token, token_env_vars,
    DEFAULT_HOST,
};
use gh_pr_digest::github::client::{
    interpret_envelope, interpret_status, retry_delay, unparsable_response, GraphQlError,
    MAX_ATTEMPTS,
};
use gh_pr_digest::github::fetch::{absorb_page, found_pull_request, next_cursor, unwrap_pr};
use gh_pr_digest::github::model::{Connection, PageInfo};
use gh_pr_digest::github::query::{
    comments_page, head, review_threads_page, reviews_page, thread_comments_page, thread_fields,
    COMMENT_FIELDS, PAGE_SIZE, PR_FIELDS, REVIEW_FIELDS, THREAD_COMMENT_FIELDS,
};
use gh_pr_digest::repo::Repo;

#[test]
fn an_explicit_host_outranks_an_inferred_one() {
    assert_eq!(resolve_host(Some("ghe.corp"), Some("other"), None), "ghe.corp");
    assert_eq!(resolve_host(None, Some("ghe.corp"), None), "ghe.corp");
}

#[test]
fn the_environment_host_comes_after_both() {
    assert_eq!(resolve_host(None, None, Some("env.host")), "env.host");
    assert_eq!(resolve_host(None, None, Some("")), "github.com");
    assert_eq!(resolve_host(None, None, None), DEFAULT_HOST);
    assert_eq!(resolve_host(None, Some("inf"), Some("env")), "inf");
}

#[test]
fn dotcom_uses_the_api_subdomain_and_enterprise_uses_a_path() {
    assert_eq!(
        graphql_endpoint("github.com"),
        "https://api.github.com/graphql"
    );
    assert_eq!(graphql_endpoint("ghe.corp"), "https://ghe.corp/api/graphql");
    assert_eq!(
        graphql_endpoint("www.github.com"),
        "https://api.github.com/graphql"
    );
}

#[test]
fn explicit_token_wins() {
    assert_eq!(resolve_token(Some("abc"), DEFAULT_HOST, &vec![], None).unwrap(), "abc");
}

#[test]
fn tokens_come_from_the_environment_then_gh() {
    assert_eq!(token_env_vars("github.com"), vec!["GH_TOKEN", "GITHUB_TOKEN"]);
    assert_eq!(
        token_env_vars("ghe.corp"),
        vec!["GH_ENTERPRISE_TOKEN", "GITHUB_ENTERPRISE_TOKEN"]
    );
    let env = vec![Some("  ".to_string()), Some(" t2 \n".to_string())];
    assert_eq!(pick_token(Some(" "), &env).as_deref(), Some("t2"));
    assert_eq!(resolve_token(None, "github.com", &env, Some("gh")).unwrap(), "t2");
    assert_eq!(
        resolve_token(None, "github.com", &vec![None, None], Some(" gh-tok\n")).unwrap(),
        "gh-tok"
    );
    assert_eq!(normalize_token("\t"), None);
}

#[test]
fn a_missing_token_is_an_auth_error() {
    match resolve_token(None, "ghe.corp", &vec![None, None], Some("  ")) {
        Err(e @ Error::Auth(_)) => {
            assert_eq!(e.exit_code(), 4);
            assert_eq!(
                e.message(),
                "no GitHub token found for ghe.corp.\nLooked at: --token, $GH_ENTERPRISE_TOKEN, $GITHUB_ENTERPRISE_TOKEN, and `gh auth token --hostname ghe.corp`.\nRun `gh auth login` or set $GH_ENTERPRISE_TOKEN."
            );
        }
        other => panic!("unexpected {other:?}"),
    }
}

#[test]
fn retries_server_errors_until_the_attempt_budget_runs_out() {
    assert!(retry_delay(502, 1).is_some());
    assert!(retry_delay(502, 2).is_some());
    assert!(retry_delay(502, MAX_ATTEMPTS).is_none());
}

#[test]
fn does_not_retry_client_errors() {
    assert!(retry_delay(401, 1).is_none());
    assert!(retry_delay(404, 1).is_none());
    assert!(retry_delay(200, 1).is_none());
}

#[test]
fn backoff_doubles() {
    assert_eq!(retry_delay(500, 1), Some(1));
    assert_eq!(retry_delay(429, 2), Some(2));
}

#[test]
fn status_codes_map_to_errors() {
    let e = interpret_status(401, "", "E").unwrap_err();
    assert_eq!(e.exit_code(), 4);
    let e = interpret_status(403, "{\"message\":\"Resource not accessible\"}", "E").unwrap_err();
    assert_eq!(e.exit_code(), 4);
    assert_eq!(
        e.message(),
        "GitHub refused the request (403). The token may lack `repo` scope, or SSO authorization for this organization.\nResource not accessible"
    );
    let e = interpret_status(403, "not json", "E").unwrap_err();
    assert!(e.message().ends_with("organization.\n"));
    let e = interpret_status(404, "", "https://h/api/graphql").unwrap_err();
    assert_eq!(e.exit_code(), 5);
    assert_eq!(
        e.message(),
        "no GraphQL endpoint at https://h/api/graphql (404). Check --hostname."
    );
    let e = interpret_status(429, "", "E").unwrap_err();
    assert_eq!(e.exit_code(), 6);
    let e = interpret_status(503, "", "E").unwrap_err();
    assert_eq!(e.exit_code(), 6);
    assert_eq!(e.message(), "GitHub returned 503 after 3 attempts");
    assert!(interpret_status(200, "", "E").is_ok());
    assert!(interpret_status(302, "", "E").is_ok());
}

fn gq(message: &str, kind: Option<&str>) -> GraphQlError {
    GraphQlError {
        message: message.into(),
        kind: kind.map(|k| k.to_string()),
    }
}

#[test]
fn graphql_errors_win_over_data() {
    let e = interpret_envelope(Some(1), vec![gq("a", None), gq("b", Some("NOT_FOUND"))]).unwrap_err();
    assert_eq!(e.exit_code(), 5);
    assert!(matches!(e, Error::NotFound(_)));
    assert_eq!(e.message(), "a; b");
    let e = interpret_envelope(Some(1), vec![gq("a", Some("X")), gq("b", None)]).unwrap_err();
    assert_eq!(e.exit_code(), 1);
    assert!(matches!(e, Error::Api(_)));
    assert_eq!(e.message(), "GraphQL error: a; b");
    let e = interpret_envelope::<u8>(None, vec![]).unwrap_err();
    assert!(matches!(e, Error::Api(_)));
    assert_eq!(e.message(), "GraphQL response carried no data");
    let e = unparsable_response("expected value at line 1 column 1");
    assert!(matches!(e, Error::Api(_)));
    assert_eq!(e.message(), "could not parse the GraphQL response: expected value at line 1 column 1");
    assert_eq!(interpret_envelope(Some(7), vec![]).unwrap(), 7);
}

#[test]
fn pagination_follows_the_cursor_not_the_flag() {
    let mut c = Connection {
        page_info: PageInfo { has_next_page: true, end_cursor: None },
        nodes: vec![1, 2],
    };
    assert_eq!(next_cursor(&c), None);
    c.page_info.end_cursor = Some("k".into());
    assert_eq!(next_cursor(&c).as_deref(), Some("k"));
    absorb_page(
        &mut c,
        Connection {
            page_info: PageInfo { has_next_page: false, end_cursor: Some("z".into()) },
            nodes: vec![3],
        },
    );
    assert_eq!(c.nodes, vec![1, 2, 3]);
    assert_eq!(next_cursor(&c), None);
}

#[test]
fn missing_pull_requests_are_not_found() {
    let repo = Repo { host: "h".into(), owner: "o".into(), name: "r".into() };
    let e = found_pull_request::<u8>(None, 19, &repo).unwrap_err();
    assert_eq!(e.exit_code(), 5);
    assert_eq!(e.message(), "pull request #19 not found in o/r");
    let e = unwrap_pr::<u8>(None, 19, &repo).unwrap_err();
    assert_eq!(e.message(), "pull request #19 in o/r disappeared mid-pagination");
    assert_eq!(unwrap_pr(Some(3), 19, &repo).unwrap(), 3);
}

fn reference_thread_fields() -> String {
    format!(
        r"
      pageInfo {{ hasNextPage endCursor }}
      nodes {{
        id
        isResolved
        isOutdated
        resolvedBy {{ login }}
        path
        line
        originalLine
        comments(first: {PAGE_SIZE}) {{ {THREAD_COMMENT_FIELDS} }}
      }}
"
    )
}

#[test]
fn the_graphql_documents() {
    assert_eq!(thread_fields(), reference_thread_fields());
    assert_eq!(
        head(),
        format!(
            r"query($owner: String!, $name: String!, $number: Int!) {{
  repository(owner: $owner, name: $name) {{
    pullRequest(number: $number) {{
      {PR_FIELDS}
      reviews(first: {PAGE_SIZE}) {{ {REVIEW_FIELDS} }}
      comments(first: {PAGE_SIZE}) {{ {COMMENT_FIELDS} }}
      reviewThreads(first: {PAGE_SIZE}) {{ {thread_fields} }}
    }}
  }}
}}",
            thread_fields = reference_thread_fields()
        )
    );
    assert_eq!(
        reviews_page(),
        format!(
            r"query($owner: String!, $name: String!, $number: Int!, $cursor: String) {{
  repository(owner: $owner, name: $name) {{
    pullRequest(number: $number) {{
      reviews(first: {PAGE_SIZE}, after: $cursor) {{ {REVIEW_FIELDS} }}
    }}
  }}
}}"
        )
    );
    assert_eq!(
        comments_page(),
        format!(
            r"query($owner: String!, $name: String!, $number: Int!, $cursor: String) {{
  repository(owner: $owner, name: $name) {{
    pullRequest(number: $number) {{
      comments(first: {PAGE_SIZE}, after: $cursor) {{ {COMMENT_FIELDS} }}
    }}
  }}
}}"
        )
    );
    assert_eq!(
        review_threads_page(),
        format!(
            r"query($owner: String!, $name: String!, $number: Int!, $cursor: String) {{
  repository(owner: $owner, name: $name) {{
    pullRequest(number: $number) {{
      reviewThreads(first: {PAGE_SIZE}, after: $cursor) {{ {thread_fields} }}
    }}
  }}
}}",
            thread_fields = reference_thread_fields()
        )
    );
    assert_eq!(
        thread_comments_page(),
        format!(
            r"query($threadId: ID!, $cursor: String) {{
  node(id: $threadId) {{
    ... on PullRequestReviewThread {{
      comments(first: {PAGE_SIZE}, after: $cursor) {{ {THREAD_COMMENT_FIELDS} }}
    }}
  }}
}}"
        )
    );
    assert!(PR_FIELDS.contains("isDraft"));
}

#[test]
fn every_query_selects_the_fields_the_wire_types_need() {
    let comment_nodes = "nodes { author { login } createdAt body url }";
    assert!(COMMENT_FIELDS.contains(comment_nodes));
    assert!(head().contains(comment_nodes));
    assert!(comments_page().contains(comment_nodes));
    assert!(REVIEW_FIELDS.contains("nodes { author { login } state submittedAt body }"));
    assert!(THREAD_COMMENT_FIELDS.contains("nodes { author { login } createdAt body diffHunk url }"));
}

#[test]
fn draining_keeps_every_page_in_order() {
    let mut c = Connection {
        page_info: PageInfo { has_next_page: true, end_cursor: Some("a".into()) },
        nodes: vec![1],
    };
    let mut pages = vec![
        Connection { page_info: PageInfo { has_next_page: false, end_cursor: None }, nodes: vec![4] },
        Connection {
            page_info: PageInfo { has_next_page: true, end_cursor: Some("b".into()) },
            nodes: vec![2, 3],
        },
    ];
    let mut asked = Vec::new();
    while let Some(cursor) = next_cursor(&c) {
        asked.push(cursor);
        absorb_page(&mut c, pages.pop().unwrap());
    }
    assert_eq!(asked, vec!["a".to_string(), "b".to_string()]);
    assert_eq!(c.nodes, vec![1, 2, 3, 4]);
    assert!(pages.is_empty());
}
