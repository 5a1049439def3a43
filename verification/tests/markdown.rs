use gh_pr_digest::cli::{OutdatedFilter, StatusFilter};
use gh_pr_digest::digest::{Comment, Digest, Location, Review, Thread, ThreadCounts, ThreadStatus};
use gh_pr_digest::filter::Filter;
use gh_pr_digest::render::markdown::{fence_for, quote, render};

#[test]
fn plain_content_gets_a_three_backtick_fence() {
    assert_eq!(fence_for("fn main() {}"), "```");
    assert_eq!(fence_for("a ` b `` c"), "```");
}

#[test]
fn fences_outgrow_backticks_in_the_content() {
    assert_eq!(fence_for("+```rust\n+fn main() {}\n+```"), "````");
    assert_eq!(fence_for("+````\n+nested\n+````"), "`````");
}

#[test]
fn quoting_keeps_blank_lines_as_bare_markers() {
    assert_eq!(quote("first\n\nsecond"), "> first\n>\n> second");
}

#[test]
fn quoting_contains_headings_from_embedded_bodies() {
    assert_eq!(quote("## Walkthrough\ntext"), "> ## Walkthrough\n> text");
}

#[test]
fn quoting_trims_and_handles_crlf() {
    assert_eq!(quote("  \n a\r\n  \r\nb\n\n"), "> a\n>\n> b");
    assert_eq!(quote("   "), "");
    assert_eq!(quote(""), "");
}

fn c(author: &str, created: &str, body: &str, url: Option<&str>) -> Comment {
    Comment {
        author: author.into(),
        created_at: created.into(),
        body: body.into(),
        url: url.map(|u| u.to_string()),
    }
}

fn sample() -> Digest {
    Digest {
        number: 19,
        title: "T".into(),
        url: "U".into(),
        state: "OPEN".into(),
        is_draft: true,
        author: "me".into(),
        head_ref: "h".into(),
        base_ref: "b".into(),
        created_at: "c1".into(),
        updated_at: "u1".into(),
        body: "## Walkthrough\n\ntext\n".into(),
        reviews: vec![
            Review {
                author: "skip".into(),
                state: "COMMENTED".into(),
                submitted_at: Some("t0".into()),
                body: " ".into(),
            },
            Review {
                author: "rv".into(),
                state: "APPROVED".into(),
                submitted_at: Some("t1".into()),
                body: "".into(),
            },
            Review {
                author: "rv2".into(),
                state: "COMMENTED".into(),
                submitted_at: None,
                body: "nice".into(),
            },
        ],
        comments: vec![c("x", "t2", "hi", Some("L"))],
        threads: vec![
            Thread {
                index: 1,
                status: ThreadStatus::OpenActive,
                resolved_by: None,
                path: "p.rs".into(),
                location: Location::Line(3),
                url: Some("TL".into()),
                diff_hunk: Some("+```\nx".into()),
                comments: vec![c("r", "t3", "fix", Some("TL"))],
            },
            Thread {
                index: 2,
                status: ThreadStatus::ResolvedOutdated,
                resolved_by: Some("z".into()),
                path: "q.rs".into(),
                location: Location::File,
                url: None,
                diff_hunk: None,
                comments: vec![],
            },
        ],
        counts: ThreadCounts {
            open_active: 1,
            open_outdated: 0,
            resolved_active: 0,
            resolved_outdated: 1,
        },
    }
}

const HEAD: &str = "# PR #19: T

- **URL**: U
- **Author**: @me
- **State**: `OPEN` (Draft)
- **Branches**: `h` -> `b`
- **Created**: c1
- **Updated**: u1

## Description

> ## Walkthrough
>
> text

## Top-Level Reviews

### @rv - `APPROVED` (t1)

_No review summary body provided._

### @rv2 - `COMMENTED` (pending)

> nice

## Conversation Comments

### Comment #1 by @x (t2)

[Link](L)

> hi

## Inline Review Threads

### Thread Status Overview

| Status | Count | Notes |
| :--- | :---: | :--- |
| 🔴 **Open (Active)** | **1** | Actionable items on the latest commit |
| 🟡 **Open (Outdated)** | **0** | Open, but later commits moved the lines |
| 🟢 **Resolved (Active)** | **0** | Addressed and resolved |
| ⚪ **Resolved (Outdated)** | **1** | Historical resolved discussions |
";

const THREAD_ONE: &str = "### Thread #1: `p.rs:3` - 🔴 `[OPEN · ACTIVE]`

[Link](TL)

````diff
+```
x
````

> **@r** (t3):
>
> fix

---

";

const THREAD_TWO: &str = "### Thread #2: `q.rs (file-level)` - ⚪ `[RESOLVED by @z · OUTDATED]`

---

";

#[test]
fn renders_the_whole_document() {
    let out = render(
        &sample(),
        Filter::new(StatusFilter::All, OutdatedFilter::Include),
    );
    let expected = format!(
        "{HEAD}| **Total** | **2** | Showing 2 in this document |\n\n{THREAD_ONE}{THREAD_TWO}"
    );
    assert_eq!(out, expected);
}

#[test]
fn a_filtered_document_says_so_and_keeps_numbers_and_counts() {
    let out = render(&sample(), Filter::new(StatusFilter::Resolved, OutdatedFilter::Include));
    let expected = format!(
        "{HEAD}| **Total** | **2** | Showing 1 in this document |\n\n> Filtered view: `--status resolved`, `--outdated include`. Thread numbers refer to positions in the full, unfiltered list.\n\n{THREAD_TWO}"
    );
    assert_eq!(out, expected);
}

#[test]
fn an_empty_selection_says_nothing_matches() {
    let out = render(&sample(), Filter::new(StatusFilter::Resolved, OutdatedFilter::Hide));
    let expected = format!(
        "{HEAD}| **Total** | **2** | Showing 0 in this document |\n\n> Filtered view: `--status resolved`, `--outdated hide`. Thread numbers refer to positions in the full, unfiltered list.\n\n_No inline review threads match the selected criteria._\n\n"
    );
    assert_eq!(out, expected);
}

#[test]
fn empty_sections_are_left_out() {
    let mut d = sample();
    d.body = " \n".into();
    d.reviews.truncate(1);
    d.comments.clear();
    d.is_draft = false;
    d.threads[1].location = Location::OriginalLine(8);
    d.threads[1].status = ThreadStatus::ResolvedActive;
    d.threads[1].resolved_by = None;
    let out = render(&d, Filter::new(StatusFilter::Resolved, OutdatedFilter::Only));
    assert!(out.starts_with("# PR #19: T\n\n- **URL**: U\n- **Author**: @me\n- **State**: `OPEN`\n"));
    assert!(!out.contains("## Description"));
    assert!(!out.contains("## Top-Level Reviews"));
    assert!(!out.contains("## Conversation Comments"));
    let out = render(&d, Filter::new(StatusFilter::Resolved, OutdatedFilter::Hide));
    assert!(out.ends_with(
        "### Thread #2: `q.rs:8 (outdated diff)` - 🟢 `[RESOLVED]`\n\n---\n\n"
    ));
}
