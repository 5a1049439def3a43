//! GraphQL documents.
//!
//! One "head" operation fetches the pull request plus the first page of each
//! connection; three narrow operations drain whatever is left, and one more
//! drains a single thread's comments.

use vstd::prelude::*;

use crate::number::{dec, push_decimal};
use crate::text::push_str;

verus! {

/// Page size: GitHub's per-connection maximum.
pub const PAGE_SIZE: u32 = 100;

pub const PR_FIELDS: &'static str = "\n      title\n      number\n      url\n      state\n      isDraft\n      author { login }\n      headRefName\n      baseRefName\n      createdAt\n      updatedAt\n      body\n";

pub const REVIEW_FIELDS: &'static str = "\n      pageInfo { hasNextPage endCursor }\n      nodes { author { login } state submittedAt body }\n";

pub const COMMENT_FIELDS: &'static str = "\n      pageInfo { hasNextPage endCursor }\n      nodes { author { login } createdAt body url }\n";

pub const THREAD_COMMENT_FIELDS: &'static str = "\n      pageInfo { hasNextPage endCursor }\n      nodes { author { login } createdAt body diffHunk url }\n";

/// The fields of a review thread, with the first page of its comments. A
/// function rather than a constant because the nested comment connection has to
/// use the same page size.
pub open spec fn spec_thread_fields() -> Seq<char> {
    "\n      pageInfo { hasNextPage endCursor }\n      nodes {\n        id\n        isResolved\n        isOutdated\n        resolvedBy { login }\n        path\n        line\n        originalLine\n        comments(first: "@ + dec(PAGE_SIZE as nat) + ") { "@ + THREAD_COMMENT_FIELDS@ + " }\n      }\n"@
}

pub fn thread_fields() -> (r: String)
    ensures
        r@ == spec_thread_fields(),
{
    let mut r = String::new();
    push_str(&mut r, "\n      pageInfo { hasNextPage endCursor }\n      nodes {\n        id\n        isResolved\n        isOutdated\n        resolvedBy { login }\n        path\n        line\n        originalLine\n        comments(first: ");
    let ghost acc = "\n      pageInfo { hasNextPage endCursor }\n      nodes {\n        id\n        isResolved\n        isOutdated\n        resolvedBy { login }\n        path\n        line\n        originalLine\n        comments(first: "@;
    assert(r@ =~= acc);
    push_decimal(&mut r, PAGE_SIZE as u64);
    let ghost acc = acc + dec(PAGE_SIZE as nat);
    assert(r@ =~= acc);
    push_str(&mut r, ") { ");
    let ghost acc = acc + ") { "@;
    assert(r@ =~= acc);
    push_str(&mut r, THREAD_COMMENT_FIELDS);
    let ghost acc = acc + THREAD_COMMENT_FIELDS@;
    assert(r@ =~= acc);
    push_str(&mut r, " }\n      }\n");
    let ghost acc = acc + " }\n      }\n"@;
    assert(r@ =~= acc);
    r
}

/// The operation that fetches the pull request with the first page of each
/// connection.
pub open spec fn spec_head() -> Seq<char> {
    "query($owner: String!, $name: String!, $number: Int!) {\n  repository(owner: $owner, name: $name) {\n    pullRequest(number: $number) {\n      "@ + PR_FIELDS@ + "\n      reviews(first: "@ + dec(PAGE_SIZE as nat) + ") { "@ + REVIEW_FIELDS@ + " }\n      comments(first: "@ + dec(PAGE_SIZE as nat) + ") { "@ + COMMENT_FIELDS@ + " }\n      reviewThreads(first: "@ + dec(PAGE_SIZE as nat) + ") { "@ + spec_thread_fields() + " }\n    }\n  }\n}"@
}

pub fn head() -> (r: String)
    ensures
        r@ == spec_head(),
{
    let mut r = String::new();
    push_str(&mut r, "query($owner: String!, $name: String!, $number: Int!) {\n  repository(owner: $owner, name: $name) {\n    pullRequest(number: $number) {\n      ");
    let ghost acc = "query($owner: String!, $name: String!, $number: Int!) {\n  repository(owner: $owner, name: $name) {\n    pullRequest(number: $number) {\n      "@;
    assert(r@ =~= acc);
    push_str(&mut r, PR_FIELDS);
    let ghost acc = acc + PR_FIELDS@;
    assert(r@ =~= acc);
    push_str(&mut r, "\n      reviews(first: ");
    let ghost acc = acc + "\n      reviews(first: "@;
    assert(r@ =~= acc);
    push_decimal(&mut r, PAGE_SIZE as u64);
    let ghost acc = acc + dec(PAGE_SIZE as nat);
    assert(r@ =~= acc);
    push_str(&mut r, ") { ");
    let ghost acc = acc + ") { "@;
    assert(r@ =~= acc);
    push_str(&mut r, REVIEW_FIELDS);
    let ghost acc = acc + REVIEW_FIELDS@;
    assert(r@ =~= acc);
    push_str(&mut r, " }\n      comments(first: ");
    let ghost acc = acc + " }\n      comments(first: "@;
    assert(r@ =~= acc);
    push_decimal(&mut r, PAGE_SIZE as u64);
    let ghost acc = acc + dec(PAGE_SIZE as nat);
    assert(r@ =~= acc);
    push_str(&mut r, ") { ");
    let ghost acc = acc + ") { "@;
    assert(r@ =~= acc);
    push_str(&mut r, COMMENT_FIELDS);
    let ghost acc = acc + COMMENT_FIELDS@;
    assert(r@ =~= acc);
    push_str(&mut r, " }\n      reviewThreads(first: ");
    let ghost acc = acc + " }\n      reviewThreads(first: "@;
    assert(r@ =~= acc);
    push_decimal(&mut r, PAGE_SIZE as u64);
    let ghost acc = acc + dec(PAGE_SIZE as nat);
    assert(r@ =~= acc);
    push_str(&mut r, ") { ");
    let ghost acc = acc + ") { "@;
    assert(r@ =~= acc);
    let fields = thread_fields();
    push_str(&mut r, fields.as_str());
    let ghost acc = acc + spec_thread_fields();
    assert(r@ =~= acc);
    push_str(&mut r, " }\n    }\n  }\n}");
    let ghost acc = acc + " }\n    }\n  }\n}"@;
    assert(r@ =~= acc);
    r
}

/// The operation that fetches a later page of reviews.
pub open spec fn spec_reviews_page() -> Seq<char> {
    "query($owner: String!, $name: String!, $number: Int!, $cursor: String) {\n  repository(owner: $owner, name: $name) {\n    pullRequest(number: $number) {\n      reviews(first: "@ + dec(PAGE_SIZE as nat) + ", after: $cursor) { "@ + REVIEW_FIELDS@ + " }\n    }\n  }\n}"@
}

pub fn reviews_page() -> (r: String)
    ensures
        r@ == spec_reviews_page(),
{
    let mut r = String::new();
    push_str(&mut r, "query($owner: String!, $name: String!, $number: Int!, $cursor: String) {\n  repository(owner: $owner, name: $name) {\n    pullRequest(number: $number) {\n      reviews(first: ");
    let ghost acc = "query($owner: String!, $name: String!, $number: Int!, $cursor: String) {\n  repository(owner: $owner, name: $name) {\n    pullRequest(number: $number) {\n      reviews(first: "@;
    assert(r@ =~= acc);
    push_decimal(&mut r, PAGE_SIZE as u64);
    let ghost acc = acc + dec(PAGE_SIZE as nat);
    assert(r@ =~= acc);
    push_str(&mut r, ", after: $cursor) { ");
    let ghost acc = acc + ", after: $cursor) { "@;
    assert(r@ =~= acc);
    push_str(&mut r, REVIEW_FIELDS);
    let ghost acc = acc + REVIEW_FIELDS@;
    assert(r@ =~= acc);
    push_str(&mut r, " }\n    }\n  }\n}");
    let ghost acc = acc + " }\n    }\n  }\n}"@;
    assert(r@ =~= acc);
    r
}

/// The operation that fetches a later page of conversation comments.
pub open spec fn spec_comments_page() -> Seq<char> {
    "query($owner: String!, $name: String!, $number: Int!, $cursor: String) {\n  repository(owner: $owner, name: $name) {\n    pullRequest(number: $number) {\n      comments(first: "@ + dec(PAGE_SIZE as nat) + ", after: $cursor) { "@ + COMMENT_FIELDS@ + " }\n    }\n  }\n}"@
}

pub fn comments_page() -> (r: String)
    ensures
        r@ == spec_comments_page(),
{
    let mut r = String::new();
    push_str(&mut r, "query($owner: String!, $name: String!, $number: Int!, $cursor: String) {\n  repository(owner: $owner, name: $name) {\n    pullRequest(number: $number) {\n      comments(first: ");
    let ghost acc = "query($owner: String!, $name: String!, $number: Int!, $cursor: String) {\n  repository(owner: $owner, name: $name) {\n    pullRequest(number: $number) {\n      comments(first: "@;
    assert(r@ =~= acc);
    push_decimal(&mut r, PAGE_SIZE as u64);
    let ghost acc = acc + dec(PAGE_SIZE as nat);
    assert(r@ =~= acc);
    push_str(&mut r, ", after: $cursor) { ");
    let ghost acc = acc + ", after: $cursor) { "@;
    assert(r@ =~= acc);
    push_str(&mut r, COMMENT_FIELDS);
    let ghost acc = acc + COMMENT_FIELDS@;
    assert(r@ =~= acc);
    push_str(&mut r, " }\n    }\n  }\n}");
    let ghost acc = acc + " }\n    }\n  }\n}"@;
    assert(r@ =~= acc);
    r
}

/// The operation that fetches a later page of review threads.
pub open spec fn spec_review_threads_page() -> Seq<char> {
    "query($owner: String!, $name: String!, $number: Int!, $cursor: String) {\n  repository(owner: $owner, name: $name) {\n    pullRequest(number: $number) {\n      reviewThreads(first: "@ + dec(PAGE_SIZE as nat) + ", after: $cursor) { "@ + spec_thread_fields() + " }\n    }\n  }\n}"@
}

pub fn review_threads_page() -> (r: String)
    ensures
        r@ == spec_review_threads_page(),
{
    let mut r = String::new();
    push_str(&mut r, "query($owner: String!, $name: String!, $number: Int!, $cursor: String) {\n  repository(owner: $owner, name: $name) {\n    pullRequest(number: $number) {\n      reviewThreads(first: ");
    let ghost acc = "query($owner: String!, $name: String!, $number: Int!, $cursor: String) {\n  repository(owner: $owner, name: $name) {\n    pullRequest(number: $number) {\n      reviewThreads(first: "@;
    assert(r@ =~= acc);
    push_decimal(&mut r, PAGE_SIZE as u64);
    let ghost acc = acc + dec(PAGE_SIZE as nat);
    assert(r@ =~= acc);
    push_str(&mut r, ", after: $cursor) { ");
    let ghost acc = acc + ", after: $cursor) { "@;
    assert(r@ =~= acc);
    let fields = thread_fields();
    push_str(&mut r, fields.as_str());
    let ghost acc = acc + spec_thread_fields();
    assert(r@ =~= acc);
    push_str(&mut r, " }\n    }\n  }\n}");
    let ghost acc = acc + " }\n    }\n  }\n}"@;
    assert(r@ =~= acc);
    r
}

/// The operation that fetches a later page of one thread's comments,
/// addressed by node id, since a thread's position is no stable handle.
pub open spec fn spec_thread_comments_page() -> Seq<char> {
    "query($threadId: ID!, $cursor: String) {\n  node(id: $threadId) {\n    ... on PullRequestReviewThread {\n      comments(first: "@ + dec(PAGE_SIZE as nat) + ", after: $cursor) { "@ + THREAD_COMMENT_FIELDS@ + " }\n    }\n  }\n}"@
}

pub fn thread_comments_page() -> (r: String)
    ensures
        r@ == spec_thread_comments_page(),
{
    let mut r = String::new();
    push_str(&mut r, "query($threadId: ID!, $cursor: String) {\n  node(id: $threadId) {\n    ... on PullRequestReviewThread {\n      comments(first: ");
    let ghost acc = "query($threadId: ID!, $cursor: String) {\n  node(id: $threadId) {\n    ... on PullRequestReviewThread {\n      comments(first: "@;
    assert(r@ =~= acc);
    push_decimal(&mut r, PAGE_SIZE as u64);
    let ghost acc = acc + dec(PAGE_SIZE as nat);
    assert(r@ =~= acc);
    push_str(&mut r, ", after: $cursor) { ");
    let ghost acc = acc + ", after: $cursor) { "@;
    assert(r@ =~= acc);
    push_str(&mut r, THREAD_COMMENT_FIELDS);
    let ghost acc = acc + THREAD_COMMENT_FIELDS@;
    assert(r@ =~= acc);
    push_str(&mut r, " }\n    }\n  }\n}");
    let ghost acc = acc + " }\n    }\n  }\n}"@;
    assert(r@ =~= acc);
    r
}

} // verus!
