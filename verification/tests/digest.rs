use gh_pr_digest::digest::{Digest, Location, Review, ThreadStatus};
use gh_pr_digest::github::model::{
    Actor, Connection, IssueComment, PageInfo, PullRequest, Review as WireReview, ReviewThread,
    ThreadComment,
};

#[test]
fn status_ordering_puts_actionable_threads_first() {
    let mut statuses = vec![
        ThreadStatus::ResolvedOutdated,
        ThreadStatus::OpenOutdated,
        ThreadStatus::ResolvedActive,
        ThreadStatus::OpenActive,
    ];
    statuses.sort();
    assert_eq!(
        statuses,
        vec![
            ThreadStatus::OpenActive,
            ThreadStatus::OpenOutdated,
            ThreadStatus::ResolvedActive,
            ThreadStatus::ResolvedOutdated,
        ]
    );
}

#[test]
fn status_predicates_agree_with_the_flags_they_came_from() {
    for resolved in [true, false] {
        for outdated in [true, false] {
            let status = ThreadStatus::new(resolved, outdated);
            assert_eq!(status.is_resolved(), resolved);
            assert_eq!(status.is_outdated(), outdated);
        }
    }
}

#[test]
fn empty_commented_reviews_are_not_substantive() {
    let review = |state: &str, body: &str| Review {
        author: "a".into(),
        state: state.into(),
        submitted_at: None,
        body: body.into(),
    };
    assert!(!review("COMMENTED", "   ").is_substantive());
    assert!(review("COMMENTED", "looks good").is_substantive());
    assert!(review("APPROVED", "").is_substantive());
    assert!(review("CHANGES_REQUESTED", "").is_substantive());
}

fn page<T>(nodes: Vec<T>) -> Connection<T> {
    Connection {
        page_info: PageInfo {
            has_next_page: false,
            end_cursor: None,
        },
        nodes,
    }
}

fn actor(login: &str) -> Option<Actor> {
    Some(Actor {
        login: login.into(),
    })
}

fn comment(author: Option<Actor>, body: &str, hunk: Option<&str>) -> ThreadComment {
    ThreadComment {
        author,
        created_at: "2024-01-01".into(),
        body: body.into(),
        diff_hunk: hunk.map(|h| h.to_string()),
        url: format!("https://example/{body}"),
    }
}

fn thread(
    id: &str,
    resolved: bool,
    outdated: bool,
    line: Option<u64>,
    original: Option<u64>,
    comments: Vec<ThreadComment>,
) -> ReviewThread {
    ReviewThread {
        id: id.into(),
        is_resolved: resolved,
        is_outdated: outdated,
        resolved_by: if resolved { actor("fixer") } else { None },
        path: format!("src/{id}.rs"),
        line,
        original_line: original,
        comments: page(comments),
    }
}

pub fn sample() -> PullRequest {
    PullRequest {
        title: "Add things".into(),
        number: 19,
        url: "https://github.com/o/r/pull/19".into(),
        state: "OPEN".into(),
        is_draft: false,
        author: None,
        head_ref_name: "feature".into(),
        base_ref_name: "main".into(),
        created_at: "2024-01-01".into(),
        updated_at: "2024-01-02".into(),
        body: "Body".into(),
        reviews: page(vec![WireReview {
            author: actor("rev"),
            state: "APPROVED".into(),
            submitted_at: None,
            body: "".into(),
        }]),
        comments: page(vec![IssueComment {
            author: None,
            created_at: "2024-01-03".into(),
            body: "hello".into(),
            url: "https://example/c1".into(),
        }]),
        review_threads: page(vec![
            thread("a", true, true, None, Some(4), vec![]),
            thread("b", false, true, None, None, vec![]),
            thread(
                "c",
                false,
                false,
                Some(7),
                Some(6),
                vec![
                    comment(actor("x"), "first", None),
                    comment(None, "second", Some("@@ -1 +1 @@\n+x  \n\n")),
                ],
            ),
            thread("d", true, false, Some(1), None, vec![]),
            thread("e", false, false, Some(2), None, vec![comment(None, "only", Some("  "))]),
        ]),
    }
}

#[test]
fn from_wire_sorts_stably_numbers_and_counts() {
    let d = Digest::from_wire(sample());
    let order: Vec<&str> = d.threads.iter().map(|t| t.path.as_str()).collect();
    assert_eq!(
        order,
        vec!["src/c.rs", "src/e.rs", "src/b.rs", "src/d.rs", "src/a.rs"]
    );
    let indices: Vec<usize> = d.threads.iter().map(|t| t.index).collect();
    assert_eq!(indices, vec![1, 2, 3, 4, 5]);
    assert_eq!(d.counts.open_active, 2);
    assert_eq!(d.counts.open_outdated, 1);
    assert_eq!(d.counts.resolved_active, 1);
    assert_eq!(d.counts.resolved_outdated, 1);
    assert_eq!(d.counts.total(), 5);
}

#[test]
fn from_wire_converts_threads() {
    let d = Digest::from_wire(sample());
    let c = &d.threads[0];
    assert_eq!(c.status, ThreadStatus::OpenActive);
    assert_eq!(c.location, Location::Line(7));
    assert_eq!(c.url.as_deref(), Some("https://example/first"));
    assert_eq!(c.diff_hunk.as_deref(), Some("@@ -1 +1 @@\n+x"));
    assert_eq!(c.comments.len(), 2);
    assert_eq!(c.comments[0].author, "x");
    assert_eq!(c.comments[1].author, "ghost");
    assert_eq!(c.resolved_by, None);
    let e = &d.threads[1];
    assert_eq!(e.diff_hunk, None);
    let b = &d.threads[2];
    assert_eq!(b.location, Location::File);
    assert_eq!(b.url, None);
    let a = &d.threads[4];
    assert_eq!(a.location, Location::OriginalLine(4));
    assert_eq!(a.resolved_by.as_deref(), Some("fixer"));
}

#[test]
fn from_wire_names_missing_authors_ghost() {
    let d = Digest::from_wire(sample());
    assert_eq!(d.author, "ghost");
    assert_eq!(d.reviews[0].author, "rev");
    assert_eq!(d.comments[0].author, "ghost");
    assert_eq!(d.comments[0].url.as_deref(), Some("https://example/c1"));
    assert_eq!(d.number, 19);
    assert_eq!(d.head_ref, "feature");
}
