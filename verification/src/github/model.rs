//! Wire types: the shape GitHub's GraphQL API returns, as plain values.
//!
//! Kept separate from the domain model in [`crate::digest`] so that rendering
//! never has to reason about nullable authors or cursors.

use vstd::prelude::*;

verus! {

#[derive(Debug)]
pub struct Actor {
    pub login: String,
}

#[derive(Debug)]
pub struct PageInfo {
    pub has_next_page: bool,
    pub end_cursor: Option<String>,
}

/// One page of a paginated list.
#[derive(Debug)]
pub struct Connection<T> {
    pub page_info: PageInfo,
    pub nodes: Vec<T>,
}

#[derive(Debug)]
pub struct PullRequest {
    pub title: String,
    pub number: u64,
    pub url: String,
    pub state: String,
    pub is_draft: bool,
    pub author: Option<Actor>,
    pub head_ref_name: String,
    pub base_ref_name: String,
    pub created_at: String,
    pub updated_at: String,
    pub body: String,
    pub reviews: Connection<Review>,
    pub comments: Connection<IssueComment>,
    pub review_threads: Connection<ReviewThread>,
}

#[derive(Debug)]
pub struct Review {
    pub author: Option<Actor>,
    pub state: String,
    /// Absent for a review that is still pending submission.
    pub submitted_at: Option<String>,
    pub body: String,
}

#[derive(Debug)]
pub struct IssueComment {
    pub author: Option<Actor>,
    pub created_at: String,
    pub body: String,
    pub url: String,
}

#[derive(Debug)]
pub struct ReviewThread {
    pub id: String,
    pub is_resolved: bool,
    pub is_outdated: bool,
    pub resolved_by: Option<Actor>,
    pub path: String,
    /// Absent once the line no longer exists in the head commit.
    pub line: Option<u64>,
    /// The line as it stood when the comment was written.
    pub original_line: Option<u64>,
    pub comments: Connection<ThreadComment>,
}

#[derive(Debug)]
pub struct ThreadComment {
    pub author: Option<Actor>,
    pub created_at: String,
    pub body: String,
    pub diff_hunk: Option<String>,
    pub url: String,
}

} // verus!
