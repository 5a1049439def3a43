//! Markdown rendering.
//!
//! Every text quoted from GitHub is blockquoted, so that headings inside it
//! cannot collide with the document's own, and diff fences are sized to
//! outlast any run of backticks in the hunk they hold.

use vstd::prelude::*;

use crate::cli::{OutdatedFilter, StatusFilter};
use crate::digest::{
    digest_from, spec_is_substantive, spec_total, Comment, Digest, Location, Review, Thread,
    ThreadCounts, ThreadStatus,
};
use crate::filter::{derefs, lemma_selected_subsequence, selected, spec_is_permissive, Filter};
use crate::github::model;
use crate::number::{dec, push_decimal};
use crate::split::{lemma_lines_exclude_newline, lines, lines_of, views};
use crate::text::{chars_of, is_blank, lemma_extend, push_char, push_chars, push_str, trim, trimmed};

verus! {

// ---------------------------------------------------------------------------
// Quoting
// ---------------------------------------------------------------------------

/// One quoted line: a bare marker for a blank line, otherwise `> ` and the line.
pub open spec fn quote_line(l: Seq<char>) -> Seq<char> {
    if trim(l).len() == 0 {
        seq!['>']
    } else {
        seq!['>', ' '] + l
    }
}

/// The lines `ls` joined by newlines.
pub open spec fn join_lines(ls: Seq<Seq<char>>) -> Seq<char>
    decreases ls.len(),
{
    if ls.len() == 0 {
        Seq::empty()
    } else if ls.len() == 1 {
        ls[0]
    } else {
        join_lines(ls.drop_last()) + seq!['\n'] + ls.last()
    }
}

/// A body we did not write, blockquoted: trimmed, then every line quoted.
pub open spec fn spec_quote(body: Seq<char>) -> Seq<char> {
    let ls = lines(trim(body));
    join_lines(Seq::new(ls.len(), |i: int| quote_line(ls[i])))
}

/// Appends `body` blockquoted.
fn push_quote(out: &mut String, body: &str)
    ensures
        final(out)@ == old(out)@ + spec_quote(body@),
{
    let v = chars_of(body);
    let t = trimmed(v.as_slice());
    let ls = lines_of(t.as_slice());
    let ghost lv = views(ls@);
    let ghost q = Seq::new(lv.len(), |i: int| quote_line(lv[i]));
    let ghost start = out@;
    let mut i: usize = 0;
    assert(q.take(0) =~= Seq::<Seq<char>>::empty());
    while i < ls.len()
        invariant
            i <= ls@.len(),
            lv == views(ls@),
            q == Seq::new(lv.len(), |i: int| quote_line(lv[i])),
            out@ == start + join_lines(q.take(i as int)),
        decreases ls@.len() - i,
    {
        let ghost before = out@;
        if i > 0 {
            push_char(out, '\n');
        }
        assert(lv[i as int] == ls@[i as int]@);
        if is_blank(ls[i].as_slice()) {
            push_char(out, '>');
        } else {
            push_char(out, '>');
            push_char(out, ' ');
            push_chars(out, ls[i].as_slice());
        }
        assert(q.take(i + 1).drop_last() =~= q.take(i as int));
        if i > 0 {
            assert(out@ =~= before + seq!['\n'] + q[i as int]);
        } else {
            assert(out@ =~= before + q[i as int]);
            assert(q.take(1) =~= seq![q[0]]);
        }
        i = i + 1;
    }
    assert(q.take(q.len() as int) =~= q);
}

/// `body` blockquoted, as a new string.
pub fn quote(body: &str) -> (r: String)
    ensures
        r@ == spec_quote(body@),
{
    let mut r = String::new();
    push_quote(&mut r, body);
    r
}

/// Everything quoted from GitHub is blockquoted: the quote of a body begins
/// with `>`, and every newline in it is followed by `>`, so that no line of it
/// can pass for a heading of the document.
pub proof fn lemma_quote_marks_every_line(body: Seq<char>)
    ensures
        spec_quote(body).len() > 0 ==> spec_quote(body)[0] == '>',
        forall|i: int|
            0 <= i < spec_quote(body).len() - 1 && #[trigger] spec_quote(body)[i] == '\n'
                ==> spec_quote(body)[i + 1] == '>',
{
    let ls = lines(trim(body));
    let q = Seq::new(ls.len(), |i: int| quote_line(ls[i]));
    lemma_lines_exclude_newline(trim(body));
    assert forall|k: int| 0 <= k < q.len() implies #[trigger] q[k].len() > 0 && q[k][0] == '>' by {}
    assert forall|k: int, j: int| 0 <= k < q.len() && 0 <= j < q[k].len() implies #[trigger] q[k][j]
        != '\n' by {
        if trim(ls[k]).len() != 0 && j >= 2 {
            assert(q[k][j] == ls[k][j - 2]);
        }
    }
    lemma_join_marked(q);
}

/// Lines that each start with `>` and hold no newline, joined: the result
/// starts with `>`, does not end with a newline, and every newline in it is
/// followed by `>`.
proof fn lemma_join_marked(q: Seq<Seq<char>>)
    requires
        forall|k: int| 0 <= k < q.len() ==> #[trigger] q[k].len() > 0 && q[k][0] == '>',
        forall|k: int, j: int| 0 <= k < q.len() && 0 <= j < q[k].len() ==> #[trigger] q[k][j] != '\n',
    ensures
        join_lines(q).len() > 0 ==> join_lines(q)[0] == '>',
        q.len() > 0 ==> join_lines(q).len() > 0 && join_lines(q).last() != '\n',
        forall|i: int|
            0 <= i < join_lines(q).len() - 1 && #[trigger] join_lines(q)[i] == '\n' ==> join_lines(
                q,
            )[i + 1] == '>',
    decreases q.len(),
{
    if q.len() == 1 {
        assert(q[0].len() > 0);
        assert(q[0][q[0].len() - 1] != '\n');
    } else if q.len() > 1 {
        let p = q.drop_last();
        assert forall|k: int| 0 <= k < p.len() implies #[trigger] p[k].len() > 0 && p[k][0] == '>' by {
            assert(p[k] == q[k]);
        }
        assert forall|k: int, j: int| 0 <= k < p.len() && 0 <= j < p[k].len() implies #[trigger] p[k][j]
            != '\n' by {
            assert(p[k] == q[k]);
        }
        lemma_join_marked(p);
        let jp = join_lines(p);
        let t = q.last();
        assert(t == q[q.len() - 1]);
        assert(t.len() > 0 && t[0] == '>');
        let jq = join_lines(q);
        assert(jq == jp + seq!['\n'] + t);
        assert(jq[0] == jp[0]);
        assert(t[t.len() - 1] != '\n');
        assert(jq.last() == t[t.len() - 1]);
        assert forall|i: int| 0 <= i < jq.len() - 1 && #[trigger] jq[i] == '\n' implies jq[i + 1]
            == '>' by {
            if i < jp.len() - 1 {
                assert(jq[i] == jp[i]);
                assert(jq[i + 1] == jp[i + 1]);
            } else if i == jp.len() - 1 {
                assert(jq[i] == jp.last());
            } else if i == jp.len() {
                assert(jq[i + 1] == t[0]);
            } else {
                assert(jq[i] == t[i - jp.len() - 1]);
            }
        }
    }
}

// ---------------------------------------------------------------------------
// Fences
// ---------------------------------------------------------------------------

/// The number of backticks that end `s`.
pub open spec fn trailing_run(s: Seq<char>) -> nat
    decreases s.len(),
{
    if s.len() > 0 && s.last() == '`' {
        trailing_run(s.drop_last()) + 1
    } else {
        0
    }
}

/// The length of the longest run of consecutive backticks in `s`.
pub open spec fn longest_run(s: Seq<char>) -> nat
    decreases s.len(),
{
    if s.len() == 0 {
        0
    } else {
        let m = longest_run(s.drop_last());
        let t = trailing_run(s);
        if t > m {
            t
        } else {
            m
        }
    }
}

/// The fence for `content`: one backtick more than its longest run of
/// backticks, and never fewer than three.
pub open spec fn spec_fence(content: Seq<char>) -> Seq<char> {
    let l = longest_run(content);
    let n = if l > 2 {
        l
    } else {
        2
    };
    Seq::new(n + 1, |i: int| '`')
}

/// Picks a fence long enough to survive whatever backticks the content holds.
pub fn fence_for(content: &str) -> (r: String)
    ensures
        r@ == spec_fence(content@),
{
    let v = chars_of(content);
    let mut longest: usize = 0;
    let mut run: usize = 0;
    let mut i: usize = 0;
    assert(v@.take(0) =~= Seq::<char>::empty());
    while i < v.len()
        invariant
            i <= v@.len(),
            run <= i,
            longest <= i,
            run == trailing_run(v@.take(i as int)),
            longest == longest_run(v@.take(i as int)),
        decreases v@.len() - i,
    {
        assert(v@.take(i + 1).drop_last() =~= v@.take(i as int));
        if v[i] == '`' {
            run = run + 1;
        } else {
            run = 0;
        }
        if run > longest {
            longest = run;
        }
        i = i + 1;
    }
    assert(v@.take(v@.len() as int) =~= v@);
    let n = if longest > 2 {
        longest
    } else {
        2
    };
    let mut r = String::new();
    let mut k: usize = 0;
    while k < n
        invariant
            k <= n,
            r@ == Seq::new(k as nat, |i: int| '`'),
        decreases n - k,
    {
        push_char(&mut r, '`');
        k = k + 1;
        assert(r@ =~= Seq::new(k as nat, |i: int| '`'));
    }
    push_char(&mut r, '`');
    assert(r@ =~= Seq::new((n + 1) as nat, |i: int| '`'));
    r
}

/// Every run of backticks in `s` is at most the longest one.
proof fn lemma_runs_bounded(s: Seq<char>, i: int, j: int)
    requires
        0 <= i <= j <= s.len(),
        forall|k: int| i <= k < j ==> s[k] == '`',
    ensures
        j - i <= longest_run(s),
    decreases s.len(),
{
    if j < s.len() {
        let d = s.drop_last();
        assert forall|k: int| i <= k < j implies d[k] == '`' by {
            assert(d[k] == s[k]);
        }
        lemma_runs_bounded(d, i, j);
    } else if s.len() > 0 {
        lemma_trailing_run_at_least(s, i);
    }
}

proof fn lemma_trailing_run_at_least(s: Seq<char>, i: int)
    requires
        0 <= i <= s.len(),
        forall|k: int| i <= k < s.len() ==> s[k] == '`',
    ensures
        s.len() - i <= trailing_run(s),
        trailing_run(s) <= longest_run(s),
    decreases s.len(),
{
    if s.len() > 0 {
        let d = s.drop_last();
        if i < s.len() {
            assert forall|k: int| i <= k < d.len() implies d[k] == '`' by {
                assert(d[k] == s[k]);
            }
            lemma_trailing_run_at_least(d, i);
        } else {
            lemma_trailing_run_at_least(d, d.len() as int);
        }
    }
}

/// A fence outlasts the content it holds: it is at least three backticks, and
/// no run of backticks in the content is as long as the fence.
pub proof fn lemma_fence_outlasts_content(content: Seq<char>, i: int, j: int)
    requires
        0 <= i <= j <= content.len(),
        forall|k: int| i <= k < j ==> content[k] == '`',
    ensures
        spec_fence(content).len() >= 3,
        forall|k: int| 0 <= k < spec_fence(content).len() ==> spec_fence(content)[k] == '`',
        j - i < spec_fence(content).len(),
{
    lemma_runs_bounded(content, i, j);
}

// ---------------------------------------------------------------------------
// The document
// ---------------------------------------------------------------------------

/// A line of the document: the text and a newline.
pub open spec fn ln(s: Seq<char>) -> Seq<char> {
    s + seq!['\n']
}

/// The newline that ends a line, or an empty line on its own.
pub open spec fn nl() -> Seq<char> {
    seq!['\n']
}

/// The title block: number, title, link, author, state, branches and dates.
pub open spec fn spec_header(d: Digest) -> Seq<char> {
    let draft = if d.is_draft {
        " (Draft)"@
    } else {
        Seq::empty()
    };
    ln("# PR #"@ + dec(d.number as nat) + ": "@ + d.title@) + nl() + ln("- **URL**: "@ + d.url@)
        + ln("- **Author**: @"@ + d.author@) + ln("- **State**: `"@ + d.state@ + "`"@ + draft)
        + ln("- **Branches**: `"@ + d.head_ref@ + "` -> `"@ + d.base_ref@ + "`"@) + ln(
        "- **Created**: "@ + d.created_at@,
    ) + ln("- **Updated**: "@ + d.updated_at@) + nl()
}

/// The description, quoted; nothing when it is blank.
pub open spec fn spec_description(d: Digest) -> Seq<char> {
    if trim(d.body@).len() == 0 {
        Seq::empty()
    } else {
        ln("## Description"@) + nl() + ln(spec_quote(d.body@)) + nl()
    }
}

/// The reviews that say something of their own, in order.
pub open spec fn substantive(rs: Seq<Review>) -> Seq<Review>
    decreases rs.len(),
{
    if rs.len() == 0 {
        Seq::empty()
    } else if spec_is_substantive(rs.last()) {
        substantive(rs.drop_last()).push(rs.last())
    } else {
        substantive(rs.drop_last())
    }
}

/// One top-level review.
pub open spec fn spec_review_entry(r: Review) -> Seq<char> {
    let when = match r.submitted_at {
        Some(t) => t@,
        None => "pending"@,
    };
    let body = if trim(r.body@).len() == 0 {
        ln("_No review summary body provided._"@)
    } else {
        ln(spec_quote(r.body@))
    };
    ln("### @"@ + r.author@ + " - `"@ + r.state@ + "` ("@ + when + ")"@) + nl() + body + nl()
}

/// The entries of the reviews `rs`, one after the other.
pub open spec fn review_entries(rs: Seq<Review>) -> Seq<char>
    decreases rs.len(),
{
    if rs.len() == 0 {
        Seq::empty()
    } else {
        review_entries(rs.drop_last()) + spec_review_entry(rs.last())
    }
}

/// The top-level reviews worth showing; nothing when there are none.
pub open spec fn spec_reviews(d: Digest) -> Seq<char> {
    let subs = substantive(d.reviews@);
    if subs.len() == 0 {
        Seq::empty()
    } else {
        ln("## Top-Level Reviews"@) + nl() + review_entries(subs)
    }
}

/// One conversation comment, numbered `n`.
pub open spec fn spec_comment_entry(c: Comment, n: nat) -> Seq<char> {
    let link = match c.url {
        Some(u) => ln("[Link]("@ + u@ + ")"@) + nl(),
        None => Seq::empty(),
    };
    ln("### Comment #"@ + dec(n) + " by @"@ + c.author@ + " ("@ + c.created_at@ + ")"@) + nl()
        + link + ln(spec_quote(c.body@)) + nl()
}

/// The conversation comments `cs`, numbered from 1.
pub open spec fn comment_entries(cs: Seq<Comment>) -> Seq<char>
    decreases cs.len(),
{
    if cs.len() == 0 {
        Seq::empty()
    } else {
        comment_entries(cs.drop_last()) + spec_comment_entry(cs.last(), cs.len())
    }
}

/// The conversation; nothing when there are no comments.
pub open spec fn spec_conversation(d: Digest) -> Seq<char> {
    if d.comments@.len() == 0 {
        Seq::empty()
    } else {
        ln("## Conversation Comments"@) + nl() + comment_entries(d.comments@)
    }
}

/// The rows of the overview table that count threads by status, with its
/// heading. They describe the whole pull request, whatever the filter.
pub open spec fn spec_counts_table(c: ThreadCounts) -> Seq<char> {
    ln("### Thread Status Overview"@) + nl() + ln("| Status | Count | Notes |"@) + ln(
        "| :--- | :---: | :--- |"@,
    ) + ln(
        "| 🔴 **Open (Active)** | **"@ + dec(c.open_active as nat)
            + "** | Actionable items on the latest commit |"@,
    ) + ln(
        "| 🟡 **Open (Outdated)** | **"@ + dec(c.open_outdated as nat)
            + "** | Open, but later commits moved the lines |"@,
    ) + ln(
        "| 🟢 **Resolved (Active)** | **"@ + dec(c.resolved_active as nat)
            + "** | Addressed and resolved |"@,
    ) + ln(
        "| ⚪ **Resolved (Outdated)** | **"@ + dec(c.resolved_outdated as nat)
            + "** | Historical resolved discussions |"@,
    )
}

/// The name of a status filter, as on the command line.
pub open spec fn spec_status_name(f: Filter) -> Seq<char> {
    match f.status {
        StatusFilter::Open => "open"@,
        StatusFilter::Resolved => "resolved"@,
        StatusFilter::All => "all"@,
    }
}

/// The name of an outdated filter, as on the command line.
pub open spec fn spec_outdated_name(f: Filter) -> Seq<char> {
    match f.outdated {
        OutdatedFilter::Include => "include"@,
        OutdatedFilter::Hide => "hide"@,
        OutdatedFilter::Only => "only"@,
    }
}

/// The overview: the counts, the total and how many threads are shown, and a
/// note when the document shows a subset.
pub open spec fn spec_overview(c: ThreadCounts, shown: nat, f: Filter) -> Seq<char> {
    spec_counts_table(c) + ln(
        "| **Total** | **"@ + dec(spec_total(c) as nat) + "** | Showing "@ + dec(shown)
            + " in this document |"@,
    ) + nl() + filter_note(f)
}

/// The note under the overview of a document that shows a subset of the
/// threads; nothing for the default filter.
pub open spec fn filter_note(f: Filter) -> Seq<char> {
    if spec_is_permissive(f) {
        Seq::empty()
    } else {
        ln(
            "> Filtered view: `--status "@ + spec_status_name(f) + "`, `--outdated "@
                + spec_outdated_name(f)
                + "`. Thread numbers refer to positions in the full, unfiltered list."@,
        ) + nl()
    }
}

/// Where a thread is anchored, after its path.
pub open spec fn spec_location(t: Thread) -> Seq<char> {
    match t.location {
        Location::Line(l) => t.path@ + ":"@ + dec(l as nat),
        Location::OriginalLine(l) => t.path@ + ":"@ + dec(l as nat) + " (outdated diff)"@,
        Location::File => t.path@ + " (file-level)"@,
    }
}

/// A thread's status badge, naming who resolved it.
pub open spec fn spec_badge(t: Thread) -> Seq<char> {
    let resolver = match t.resolved_by {
        Some(who) => " by @"@ + who@,
        None => Seq::empty(),
    };
    match t.status {
        ThreadStatus::OpenActive => "🔴 `[OPEN · ACTIVE]`"@,
        ThreadStatus::OpenOutdated => "🟡 `[OPEN · OUTDATED]`"@,
        ThreadStatus::ResolvedActive => "🟢 `[RESOLVED"@ + resolver + "]`"@,
        ThreadStatus::ResolvedOutdated => "⚪ `[RESOLVED"@ + resolver + " · OUTDATED]`"@,
    }
}

/// One comment of a review thread.
pub open spec fn spec_thread_comment(c: Comment) -> Seq<char> {
    ln("> **@"@ + c.author@ + "** ("@ + c.created_at@ + "):"@) + ln(">"@) + ln(spec_quote(c.body@))
        + nl()
}

/// The comments of a review thread, one after the other.
pub open spec fn thread_comments(cs: Seq<Comment>) -> Seq<char>
    decreases cs.len(),
{
    if cs.len() == 0 {
        Seq::empty()
    } else {
        thread_comments(cs.drop_last()) + spec_thread_comment(cs.last())
    }
}

/// A review thread: its number, location and badge, link, hunk in a fence
/// that outlasts it, and comments.
pub open spec fn spec_thread_section(t: Thread) -> Seq<char> {
    let link = match t.url {
        Some(u) => ln("[Link]("@ + u@ + ")"@) + nl(),
        None => Seq::empty(),
    };
    let hunk = match t.diff_hunk {
        Some(h) => ln(spec_fence(h@) + "diff"@) + ln(h@) + ln(spec_fence(h@)) + nl(),
        None => Seq::empty(),
    };
    ln("### Thread #"@ + dec(t.index as nat) + ": `"@ + spec_location(t) + "` - "@ + spec_badge(t))
        + nl() + link + hunk + thread_comments(t.comments@) + ln("---"@) + nl()
}

/// The sections of the threads `ts`, one after the other.
pub open spec fn thread_sections(ts: Seq<Thread>) -> Seq<char>
    decreases ts.len(),
{
    if ts.len() == 0 {
        Seq::empty()
    } else {
        thread_sections(ts.drop_last()) + spec_thread_section(ts.last())
    }
}

/// The review threads part: the overview, then the selected threads, or a
/// note that none matches.
pub open spec fn spec_threads(d: Digest, f: Filter) -> Seq<char> {
    let sel = selected(f, d.threads@);
    ln("## Inline Review Threads"@) + nl() + spec_overview(d.counts, sel.len(), f) + threads_body(
        sel,
    )
}

/// The sections of the selected threads, or a line saying that none match.
pub open spec fn threads_body(sel: Seq<Thread>) -> Seq<char> {
    if sel.len() == 0 {
        ln("_No inline review threads match the selected criteria._"@) + nl()
    } else {
        thread_sections(sel)
    }
}

/// The whole document.
pub open spec fn spec_render(d: Digest, f: Filter) -> Seq<char> {
    spec_header(d) + spec_description(d) + spec_reviews(d) + spec_conversation(d) + spec_threads(
        d,
        f,
    )
}

/// Whether a digest's counts can be summed in a machine word.
pub open spec fn counts_fit(d: Digest) -> bool {
    spec_total(d.counts) <= usize::MAX
}

/// Appends `s` and a newline.
fn push_line(out: &mut String, s: &str)
    ensures
        final(out)@ == old(out)@ + ln(s@),
{
    push_str(out, s);
    push_char(out, '\n');
    assert(final(out)@ =~= old(out)@ + ln(s@));
}

/// Appends a newline.
fn push_nl(out: &mut String)
    ensures
        final(out)@ == old(out)@ + nl(),
{
    push_char(out, '\n');
}

/// Appends `label`, `value` and a newline.
fn push_field(out: &mut String, label: &str, value: &str)
    ensures
        final(out)@ == old(out)@ + ln(label@ + value@),
{
    push_str(out, label);
    push_str(out, value);
    push_char(out, '\n');
    assert(final(out)@ =~= old(out)@ + ln(label@ + value@));
}

fn push_title_line(out: &mut String, digest: &Digest)
    ensures
        final(out)@ == old(out)@ + ln("# PR #"@ + dec(digest.number as nat) + ": "@ + digest.title@),
{
    let ghost s0 = out@;
    push_str(out, "# PR #");
    push_decimal(out, digest.number);
    push_str(out, ": ");
    push_line(out, digest.title.as_str());
    assert(out@ =~= s0 + ln("# PR #"@ + dec(digest.number as nat) + ": "@ + digest.title@));
}

fn push_state_line(out: &mut String, digest: &Digest)
    ensures
        final(out)@ == old(out)@ + ln(
            "- **State**: `"@ + digest.state@ + "`"@ + (if digest.is_draft {
                " (Draft)"@
            } else {
                Seq::empty()
            }),
        ),
{
    let ghost s0 = out@;
    push_str(out, "- **State**: `");
    push_str(out, digest.state.as_str());
    push_str(out, "`");
    if digest.is_draft {
        push_str(out, " (Draft)");
    }
    push_nl(out);
    assert(out@ =~= s0 + ln(
        "- **State**: `"@ + digest.state@ + "`"@ + (if digest.is_draft {
            " (Draft)"@
        } else {
            Seq::empty()
        }),
    ));
}

fn push_branches_line(out: &mut String, digest: &Digest)
    ensures
        final(out)@ == old(out)@ + ln(
            "- **Branches**: `"@ + digest.head_ref@ + "` -> `"@ + digest.base_ref@ + "`"@,
        ),
{
    let ghost s0 = out@;
    push_str(out, "- **Branches**: `");
    push_str(out, digest.head_ref.as_str());
    push_str(out, "` -> `");
    push_str(out, digest.base_ref.as_str());
    push_line(out, "`");
    assert(out@ =~= s0 + ln(
        "- **Branches**: `"@ + digest.head_ref@ + "` -> `"@ + digest.base_ref@ + "`"@,
    ));
}

fn header(out: &mut String, digest: &Digest)
    ensures
        final(out)@ == old(out)@ + spec_header(*digest),
{
    let ghost s0 = out@;
    let ghost d = *digest;
    push_title_line(out, digest);
    let ghost acc = ln("# PR #"@ + dec(d.number as nat) + ": "@ + d.title@);
    push_nl(out);
    proof {
        lemma_extend(s0, acc, nl());
        acc = acc + nl();
    }
    push_field(out, "- **URL**: ", digest.url.as_str());
    proof {
        lemma_extend(s0, acc, ln("- **URL**: "@ + d.url@));
        acc = acc + ln("- **URL**: "@ + d.url@);
    }
    push_field(out, "- **Author**: @", digest.author.as_str());
    proof {
        lemma_extend(s0, acc, ln("- **Author**: @"@ + d.author@));
        acc = acc + ln("- **Author**: @"@ + d.author@);
    }
    push_state_line(out, digest);
    proof {
        let draft = if d.is_draft {
            " (Draft)"@
        } else {
            Seq::empty()
        };
        lemma_extend(s0, acc, ln("- **State**: `"@ + d.state@ + "`"@ + draft));
        acc = acc + ln("- **State**: `"@ + d.state@ + "`"@ + draft);
    }
    push_branches_line(out, digest);
    proof {
        let l = ln("- **Branches**: `"@ + d.head_ref@ + "` -> `"@ + d.base_ref@ + "`"@);
        lemma_extend(s0, acc, l);
        acc = acc + l;
    }
    push_field(out, "- **Created**: ", digest.created_at.as_str());
    proof {
        lemma_extend(s0, acc, ln("- **Created**: "@ + d.created_at@));
        acc = acc + ln("- **Created**: "@ + d.created_at@);
    }
    push_field(out, "- **Updated**: ", digest.updated_at.as_str());
    proof {
        lemma_extend(s0, acc, ln("- **Updated**: "@ + d.updated_at@));
        acc = acc + ln("- **Updated**: "@ + d.updated_at@);
    }
    push_nl(out);
    proof {
        lemma_extend(s0, acc, nl());
        acc = acc + nl();
        assert(acc == spec_header(d));
    }
}

fn description(out: &mut String, digest: &Digest)
    ensures
        final(out)@ == old(out)@ + spec_description(*digest),
{
    let body = chars_of(digest.body.as_str());
    if is_blank(body.as_slice()) {
        assert(spec_description(*digest) =~= Seq::<char>::empty());
        return;
    }
    let ghost start = out@;
    push_line(out, "## Description");
    push_nl(out);
    push_quote(out, digest.body.as_str());
    push_nl(out);
    push_nl(out);
    assert(out@ =~= start + spec_description(*digest));
}

/// The reviews a sequence of references points at.
pub open spec fn review_derefs(rs: Seq<&Review>) -> Seq<Review> {
    Seq::new(rs.len(), |i: int| *rs[i])
}

/// The substantive reviews, in order.
fn substantive_reviews<'a>(rs: &'a Vec<Review>) -> (r: Vec<&'a Review>)
    ensures
        review_derefs(r@) == substantive(rs@),
{
    let mut r: Vec<&'a Review> = Vec::new();
    let mut i: usize = 0;
    assert(rs@.take(0) =~= Seq::<Review>::empty());
    assert(review_derefs(r@) =~= Seq::<Review>::empty());
    while i < rs.len()
        invariant
            i <= rs@.len(),
            review_derefs(r@) == substantive(rs@.take(i as int)),
        decreases rs@.len() - i,
    {
        let x = &rs[i];
        assert(rs@.take(i + 1).drop_last() =~= rs@.take(i as int));
        assert(rs@.take(i + 1).last() == *x);
        if x.is_substantive() {
            let ghost before = review_derefs(r@);
            r.push(x);
            assert(review_derefs(r@) =~= before.push(*x));
        }
        i = i + 1;
    }
    assert(rs@.take(rs@.len() as int) =~= rs@);
    r
}

fn review_entry(out: &mut String, review: &Review)
    ensures
        final(out)@ == old(out)@ + spec_review_entry(*review),
{
    let ghost s0 = out@;
    let ghost r = *review;
    let ghost when = match r.submitted_at {
        Some(t) => t@,
        None => "pending"@,
    };
    push_str(out, "### @");
    push_str(out, review.author.as_str());
    push_str(out, " - `");
    push_str(out, review.state.as_str());
    push_str(out, "` (");
    match &review.submitted_at {
        Some(t) => push_str(out, t.as_str()),
        None => push_str(out, "pending"),
    }
    push_line(out, ")");
    let ghost l1 = ln("### @"@ + r.author@ + " - `"@ + r.state@ + "` ("@ + when + ")"@);
    assert(out@ =~= s0 + l1);
    push_nl(out);
    proof {
        lemma_extend(s0, l1, nl());
    }
    let ghost acc = l1 + nl();
    let ghost body = if trim(r.body@).len() == 0 {
        ln("_No review summary body provided._"@)
    } else {
        ln(spec_quote(r.body@))
    };
    let b = chars_of(review.body.as_str());
    if is_blank(b.as_slice()) {
        push_line(out, "_No review summary body provided._");
    } else {
        push_quote(out, review.body.as_str());
        push_nl(out);
    }
    proof {
        lemma_extend(s0, acc, body);
    }
    let ghost acc = acc + body;
    push_nl(out);
    proof {
        lemma_extend(s0, acc, nl());
    }
}

fn reviews(out: &mut String, digest: &Digest)
    ensures
        final(out)@ == old(out)@ + spec_reviews(*digest),
{
    let subs = substantive_reviews(&digest.reviews);
    let ghost sv = review_derefs(subs@);
    if subs.len() == 0 {
        assert(spec_reviews(*digest) =~= Seq::<char>::empty());
        return;
    }
    let ghost s0 = out@;
    push_line(out, "## Top-Level Reviews");
    push_nl(out);
    let ghost head = ln("## Top-Level Reviews"@) + nl();
    assert(out@ =~= s0 + head);
    let mut i: usize = 0;
    assert(sv.take(0) =~= Seq::<Review>::empty());
    while i < subs.len()
        invariant
            i <= subs@.len(),
            sv == review_derefs(subs@),
            out@ == s0 + (head + review_entries(sv.take(i as int))),
        decreases subs@.len() - i,
    {
        review_entry(out, subs[i]);
        proof {
            assert(sv.take(i + 1).drop_last() =~= sv.take(i as int));
            assert(sv.take(i + 1).last() == *subs@[i as int]);
            lemma_extend(s0, head + review_entries(sv.take(i as int)), spec_review_entry(sv[i as int]));
            lemma_extend(head, review_entries(sv.take(i as int)), spec_review_entry(sv[i as int]));
        }
        i = i + 1;
    }
    assert(sv.take(sv.len() as int) =~= sv);
}

fn comment_entry(out: &mut String, comment: &Comment, n: usize)
    ensures
        final(out)@ == old(out)@ + spec_comment_entry(*comment, n as nat),
{
    let ghost s0 = out@;
    let ghost c = *comment;
    push_str(out, "### Comment #");
    push_decimal(out, n as u64);
    push_str(out, " by @");
    push_str(out, comment.author.as_str());
    push_str(out, " (");
    push_str(out, comment.created_at.as_str());
    push_line(out, ")");
    let ghost l1 = ln("### Comment #"@ + dec(n as nat) + " by @"@ + c.author@ + " ("@ + c.created_at@ + ")"@);
    assert(out@ =~= s0 + l1);
    push_nl(out);
    proof {
        lemma_extend(s0, l1, nl());
    }
    let ghost acc = l1 + nl();
    let ghost link = match c.url {
        Some(u) => ln("[Link]("@ + u@ + ")"@) + nl(),
        None => Seq::empty(),
    };
    match &comment.url {
        Some(u) => {
            let ghost s1 = out@;
            push_str(out, "[Link](");
            push_str(out, u.as_str());
            push_line(out, ")");
            push_nl(out);
            assert(out@ =~= s1 + link);
        },
        None => {
            assert(out@ =~= out@ + link);
        },
    }
    proof {
        lemma_extend(s0, acc, link);
    }
    let ghost acc = acc + link;
    push_quote(out, comment.body.as_str());
    push_nl(out);
    proof {
        lemma_extend(s0, acc, ln(spec_quote(c.body@)));
    }
    let ghost acc = acc + ln(spec_quote(c.body@));
    push_nl(out);
    proof {
        lemma_extend(s0, acc, nl());
    }
}

fn conversation(out: &mut String, digest: &Digest)
    ensures
        final(out)@ == old(out)@ + spec_conversation(*digest),
{
    let ghost cs = digest.comments@;
    if digest.comments.len() == 0 {
        assert(spec_conversation(*digest) =~= Seq::<char>::empty());
        return;
    }
    let ghost s0 = out@;
    push_line(out, "## Conversation Comments");
    push_nl(out);
    let ghost head = ln("## Conversation Comments"@) + nl();
    assert(out@ =~= s0 + head);
    let mut i: usize = 0;
    assert(cs.take(0) =~= Seq::<Comment>::empty());
    while i < digest.comments.len()
        invariant
            i <= cs.len(),
            cs == digest.comments@,
            out@ == s0 + (head + comment_entries(cs.take(i as int))),
        decreases cs.len() - i,
    {
        comment_entry(out, &digest.comments[i], i + 1);
        proof {
            assert(cs.take(i + 1).drop_last() =~= cs.take(i as int));
            assert(cs.take(i + 1).last() == cs[i as int]);
            lemma_extend(s0, head + comment_entries(cs.take(i as int)), spec_comment_entry(cs[i as int], (i + 1) as nat));
            lemma_extend(head, comment_entries(cs.take(i as int)), spec_comment_entry(cs[i as int], (i + 1) as nat));
        }
        i = i + 1;
    }
    assert(cs.take(cs.len() as int) =~= cs);
}

/// Appends `pre`, the decimal `n`, `post` and a newline.
fn push_number_line(out: &mut String, pre: &str, n: usize, post: &str)
    ensures
        final(out)@ == old(out)@ + ln(pre@ + dec(n as nat) + post@),
{
    let ghost s0 = out@;
    push_str(out, pre);
    push_decimal(out, n as u64);
    push_line(out, post);
    assert(out@ =~= s0 + ln(pre@ + dec(n as nat) + post@));
}

fn counts_table(out: &mut String, c: &ThreadCounts)
    ensures
        final(out)@ == old(out)@ + spec_counts_table(*c),
{
    let ghost s0 = out@;
    push_line(out, "### Thread Status Overview");
    let ghost acc = ln("### Thread Status Overview"@);
    push_nl(out);
    proof {
        lemma_extend(s0, acc, nl());
    }
    let ghost acc = acc + nl();
    push_line(out, "| Status | Count | Notes |");
    proof {
        lemma_extend(s0, acc, ln("| Status | Count | Notes |"@));
    }
    let ghost acc = acc + ln("| Status | Count | Notes |"@);
    push_line(out, "| :--- | :---: | :--- |");
    proof {
        lemma_extend(s0, acc, ln("| :--- | :---: | :--- |"@));
    }
    let ghost acc = acc + ln("| :--- | :---: | :--- |"@);
    push_number_line(
        out,
        "| 🔴 **Open (Active)** | **",
        c.open_active,
        "** | Actionable items on the latest commit |",
    );
    let ghost l = ln(
        "| 🔴 **Open (Active)** | **"@ + dec(c.open_active as nat)
            + "** | Actionable items on the latest commit |"@,
    );
    proof {
        lemma_extend(s0, acc, l);
    }
    let ghost acc = acc + l;
    push_number_line(
        out,
        "| 🟡 **Open (Outdated)** | **",
        c.open_outdated,
        "** | Open, but later commits moved the lines |",
    );
    let ghost l = ln(
        "| 🟡 **Open (Outdated)** | **"@ + dec(c.open_outdated as nat)
            + "** | Open, but later commits moved the lines |"@,
    );
    proof {
        lemma_extend(s0, acc, l);
    }
    let ghost acc = acc + l;
    push_number_line(
        out,
        "| 🟢 **Resolved (Active)** | **",
        c.resolved_active,
        "** | Addressed and resolved |",
    );
    let ghost l = ln(
        "| 🟢 **Resolved (Active)** | **"@ + dec(c.resolved_active as nat)
            + "** | Addressed and resolved |"@,
    );
    proof {
        lemma_extend(s0, acc, l);
    }
    let ghost acc = acc + l;
    push_number_line(
        out,
        "| ⚪ **Resolved (Outdated)** | **",
        c.resolved_outdated,
        "** | Historical resolved discussions |",
    );
    let ghost l = ln(
        "| ⚪ **Resolved (Outdated)** | **"@ + dec(c.resolved_outdated as nat)
            + "** | Historical resolved discussions |"@,
    );
    proof {
        lemma_extend(s0, acc, l);
    }
}

fn status_name(filter: Filter) -> (r: &'static str)
    ensures
        r@ == spec_status_name(filter),
{
    match filter.status {
        StatusFilter::Open => "open",
        StatusFilter::Resolved => "resolved",
        StatusFilter::All => "all",
    }
}

fn outdated_name(filter: Filter) -> (r: &'static str)
    ensures
        r@ == spec_outdated_name(filter),
{
    match filter.outdated {
        OutdatedFilter::Include => "include",
        OutdatedFilter::Hide => "hide",
        OutdatedFilter::Only => "only",
    }
}

fn overview(out: &mut String, digest: &Digest, shown: usize, filter: Filter)
    requires
        counts_fit(*digest),
    ensures
        final(out)@ == old(out)@ + spec_overview(digest.counts, shown as nat, filter),
{
    let ghost s0 = out@;
    let ghost c = digest.counts;
    counts_table(out, &digest.counts);
    let ghost acc = spec_counts_table(c);
    let ghost s1 = out@;
    push_str(out, "| **Total** | **");
    push_decimal(out, digest.counts.total() as u64);
    push_str(out, "** | Showing ");
    push_decimal(out, shown as u64);
    push_line(out, " in this document |");
    let ghost l = ln(
        "| **Total** | **"@ + dec(spec_total(c) as nat) + "** | Showing "@ + dec(shown as nat)
            + " in this document |"@,
    );
    assert(out@ =~= s1 + l);
    proof {
        lemma_extend(s0, acc, l);
    }
    let ghost acc = acc + l;
    push_nl(out);
    proof {
        lemma_extend(s0, acc, nl());
    }
    let ghost acc = acc + nl();
    let ghost note = if spec_is_permissive(filter) {
        Seq::empty()
    } else {
        ln(
            "> Filtered view: `--status "@ + spec_status_name(filter) + "`, `--outdated "@
                + spec_outdated_name(filter)
                + "`. Thread numbers refer to positions in the full, unfiltered list."@,
        ) + nl()
    };
    if !filter.is_permissive() {
        let ghost s2 = out@;
        push_str(out, "> Filtered view: `--status ");
        push_str(out, status_name(filter));
        push_str(out, "`, `--outdated ");
        push_str(out, outdated_name(filter));
        push_line(
            out,
            "`. Thread numbers refer to positions in the full, unfiltered list.",
        );
        push_nl(out);
        assert(out@ =~= s2 + note);
    } else {
        assert(out@ =~= out@ + note);
    }
    proof {
        lemma_extend(s0, acc, note);
    }
}

fn push_location(out: &mut String, thread: &Thread)
    ensures
        final(out)@ == old(out)@ + spec_location(*thread),
{
    let ghost s0 = out@;
    push_str(out, thread.path.as_str());
    match thread.location {
        Location::Line(line) => {
            push_str(out, ":");
            push_decimal(out, line);
        },
        Location::OriginalLine(line) => {
            push_str(out, ":");
            push_decimal(out, line);
            push_str(out, " (outdated diff)");
        },
        Location::File => {
            push_str(out, " (file-level)");
        },
    }
    assert(out@ =~= s0 + spec_location(*thread));
}

fn push_badge(out: &mut String, thread: &Thread)
    ensures
        final(out)@ == old(out)@ + spec_badge(*thread),
{
    let ghost s0 = out@;
    match thread.status {
        ThreadStatus::OpenActive => push_str(out, "🔴 `[OPEN · ACTIVE]`"),
        ThreadStatus::OpenOutdated => push_str(out, "🟡 `[OPEN · OUTDATED]`"),
        ThreadStatus::ResolvedActive => {
            push_str(out, "🟢 `[RESOLVED");
            push_resolver(out, thread);
            push_str(out, "]`");
        },
        ThreadStatus::ResolvedOutdated => {
            push_str(out, "⚪ `[RESOLVED");
            push_resolver(out, thread);
            push_str(out, " · OUTDATED]`");
        },
    }
    assert(out@ =~= s0 + spec_badge(*thread));
}

fn push_resolver(out: &mut String, thread: &Thread)
    ensures
        final(out)@ == old(out)@ + match thread.resolved_by {
            Some(who) => " by @"@ + who@,
            None => Seq::empty(),
        },
{
    match &thread.resolved_by {
        Some(who) => {
            push_str(out, " by @");
            push_str(out, who.as_str());
            assert(final(out)@ =~= old(out)@ + (" by @"@ + who@));
        },
        None => {
            assert(out@ =~= out@ + Seq::<char>::empty());
        },
    }
}

fn thread_comment(out: &mut String, comment: &Comment)
    ensures
        final(out)@ == old(out)@ + spec_thread_comment(*comment),
{
    let ghost s0 = out@;
    let ghost c = *comment;
    push_str(out, "> **@");
    push_str(out, comment.author.as_str());
    push_str(out, "** (");
    push_str(out, comment.created_at.as_str());
    push_line(out, "):");
    let ghost l1 = ln("> **@"@ + c.author@ + "** ("@ + c.created_at@ + "):"@);
    assert(out@ =~= s0 + l1);
    push_line(out, ">");
    proof {
        lemma_extend(s0, l1, ln(">"@));
    }
    let ghost acc = l1 + ln(">"@);
    push_quote(out, comment.body.as_str());
    push_nl(out);
    proof {
        lemma_extend(s0, acc, ln(spec_quote(c.body@)));
    }
    let ghost acc = acc + ln(spec_quote(c.body@));
    push_nl(out);
    proof {
        lemma_extend(s0, acc, nl());
    }
}

fn push_hunk(out: &mut String, thread: &Thread)
    ensures
        final(out)@ == old(out)@ + match thread.diff_hunk {
            Some(h) => ln(spec_fence(h@) + "diff"@) + ln(h@) + ln(spec_fence(h@)) + nl(),
            None => Seq::empty(),
        },
{
    match &thread.diff_hunk {
        Some(hunk) => {
            let ghost s0 = out@;
            let fence = fence_for(hunk.as_str());
            push_str(out, fence.as_str());
            push_line(out, "diff");
            push_line(out, hunk.as_str());
            push_line(out, fence.as_str());
            push_nl(out);
            assert(out@ =~= s0 + (ln(spec_fence(hunk@) + "diff"@) + ln(hunk@) + ln(
                spec_fence(hunk@),
            ) + nl()));
        },
        None => {
            assert(out@ =~= out@ + Seq::<char>::empty());
        },
    }
}

fn thread_section(out: &mut String, thread: &Thread)
    ensures
        final(out)@ == old(out)@ + spec_thread_section(*thread),
{
    let ghost s0 = out@;
    let ghost t = *thread;
    push_str(out, "### Thread #");
    push_decimal(out, thread.index as u64);
    push_str(out, ": `");
    push_location(out, thread);
    push_str(out, "` - ");
    push_badge(out, thread);
    push_nl(out);
    let ghost l1 = ln(
        "### Thread #"@ + dec(t.index as nat) + ": `"@ + spec_location(t) + "` - "@ + spec_badge(
            t,
        ),
    );
    assert(out@ =~= s0 + l1);
    push_nl(out);
    proof {
        lemma_extend(s0, l1, nl());
    }
    let ghost acc = l1 + nl();
    let ghost link = match t.url {
        Some(u) => ln("[Link]("@ + u@ + ")"@) + nl(),
        None => Seq::empty(),
    };
    match &thread.url {
        Some(u) => {
            let ghost s1 = out@;
            push_str(out, "[Link](");
            push_str(out, u.as_str());
            push_line(out, ")");
            push_nl(out);
            assert(out@ =~= s1 + link);
        },
        None => {
            assert(out@ =~= out@ + link);
        },
    }
    proof {
        lemma_extend(s0, acc, link);
    }
    let ghost acc = acc + link;
    let ghost hunk = match t.diff_hunk {
        Some(h) => ln(spec_fence(h@) + "diff"@) + ln(h@) + ln(spec_fence(h@)) + nl(),
        None => Seq::empty(),
    };
    push_hunk(out, thread);
    proof {
        lemma_extend(s0, acc, hunk);
    }
    let ghost acc = acc + hunk;
    let ghost cs = thread.comments@;
    let ghost s1 = out@;
    let mut i: usize = 0;
    assert(cs.take(0) =~= Seq::<Comment>::empty());
    assert(out@ =~= s1 + thread_comments(cs.take(0)));
    while i < thread.comments.len()
        invariant
            i <= cs.len(),
            cs == thread.comments@,
            out@ == s1 + thread_comments(cs.take(i as int)),
        decreases cs.len() - i,
    {
        thread_comment(out, &thread.comments[i]);
        proof {
            assert(cs.take(i + 1).drop_last() =~= cs.take(i as int));
            assert(cs.take(i + 1).last() == cs[i as int]);
            lemma_extend(s1, thread_comments(cs.take(i as int)), spec_thread_comment(cs[i as int]));
        }
        i = i + 1;
    }
    assert(cs.take(cs.len() as int) =~= cs);
    proof {
        lemma_extend(s0, acc, thread_comments(cs));
    }
    let ghost acc = acc + thread_comments(cs);
    push_line(out, "---");
    proof {
        lemma_extend(s0, acc, ln("---"@));
    }
    let ghost acc = acc + ln("---"@);
    push_nl(out);
    proof {
        lemma_extend(s0, acc, nl());
    }
}

fn threads(out: &mut String, digest: &Digest, filter: Filter)
    requires
        counts_fit(*digest),
    ensures
        final(out)@ == old(out)@ + spec_threads(*digest, filter),
{
    let sel = filter.apply(digest.threads.as_slice());
    let ghost sv = derefs(sel@);
    let ghost s0 = out@;
    push_line(out, "## Inline Review Threads");
    push_nl(out);
    let ghost head = ln("## Inline Review Threads"@) + nl();
    assert(out@ =~= s0 + head);
    overview(out, digest, sel.len(), filter);
    proof {
        lemma_extend(s0, head, spec_overview(digest.counts, sv.len(), filter));
    }
    let ghost acc = head + spec_overview(digest.counts, sv.len(), filter);
    if sel.len() == 0 {
        push_line(out, "_No inline review threads match the selected criteria._");
        push_nl(out);
        proof {
            let b = ln("_No inline review threads match the selected criteria._"@) + nl();
            assert(out@ =~= (s0 + acc) + b);
            lemma_extend(s0, acc, b);
        }
        return;
    }
    let ghost s1 = out@;
    let mut i: usize = 0;
    assert(sv.take(0) =~= Seq::<Thread>::empty());
    assert(out@ =~= s1 + thread_sections(sv.take(0)));
    while i < sel.len()
        invariant
            i <= sel@.len(),
            sv == derefs(sel@),
            out@ == s1 + thread_sections(sv.take(i as int)),
        decreases sel@.len() - i,
    {
        thread_section(out, sel[i]);
        proof {
            assert(sv.take(i + 1).drop_last() =~= sv.take(i as int));
            assert(sv.take(i + 1).last() == *sel@[i as int]);
            lemma_extend(s1, thread_sections(sv.take(i as int)), spec_thread_section(sv[i as int]));
        }
        i = i + 1;
    }
    assert(sv.take(sv.len() as int) =~= sv);
    proof {
        lemma_extend(s0, acc, thread_sections(sv));
    }
}

/// The Markdown document for `digest`, showing the threads `filter` selects.
pub fn render(digest: &Digest, filter: Filter) -> (r: String)
    requires
        counts_fit(*digest),
    ensures
        r@ == spec_render(*digest, filter),
{
    let mut out = String::new();
    header(&mut out, digest);
    let ghost acc = spec_header(*digest);
    assert(out@ =~= acc);
    description(&mut out, digest);
    let ghost acc = acc + spec_description(*digest);
    reviews(&mut out, digest);
    let ghost acc = acc + spec_reviews(*digest);
    conversation(&mut out, digest);
    let ghost acc = acc + spec_conversation(*digest);
    threads(&mut out, digest, filter);
    out
}

// ---------------------------------------------------------------------------
// What filtering leaves alone
// ---------------------------------------------------------------------------

/// The part of a document that no filter touches: everything before the
/// threads, the threads heading, the table of counts by status, and the
/// total up to the number of threads shown.
pub open spec fn unfiltered_part(d: Digest) -> Seq<char> {
    spec_header(d) + spec_description(d) + spec_reviews(d) + spec_conversation(d) + ln(
        "## Inline Review Threads"@,
    ) + nl() + spec_counts_table(d.counts) + "| **Total** | **"@ + dec(spec_total(d.counts) as nat)
        + "** | Showing "@
}

/// What follows the unfiltered part and comes before the thread sections:
/// how many threads are shown, and the filter note.
pub open spec fn shown_head(shown: nat, f: Filter) -> Seq<char> {
    dec(shown) + " in this document |"@ + nl() + nl() + filter_note(f)
}

/// The part of a document that depends on the filter.
pub open spec fn shown_part(d: Digest, f: Filter) -> Seq<char> {
    let sel = selected(f, d.threads@);
    shown_head(sel.len(), f) + threads_body(sel)
}

/// A thread's badge names its status. An open thread is red, or yellow once
/// later commits moved its lines; a resolved one is green, or white once
/// outdated, and says who resolved it when that is known. Only outdated
/// threads are marked OUTDATED, and threads of different statuses never get
/// the same badge: the colour alone tells them apart.
pub proof fn lemma_badge_names_status(t: Thread, u: Thread)
    ensures
        t.status == ThreadStatus::OpenActive ==> spec_badge(t) == "🔴 `[OPEN · ACTIVE]`"@,
        t.status == ThreadStatus::OpenOutdated ==> spec_badge(t) == "🟡 `[OPEN · OUTDATED]`"@,
        t.status == ThreadStatus::ResolvedActive ==> spec_badge(t) == "🟢 `[RESOLVED"@ + (
        match t.resolved_by {
            Some(who) => " by @"@ + who@,
            None => Seq::empty(),
        }) + "]`"@,
        t.status == ThreadStatus::ResolvedOutdated ==> spec_badge(t) == "⚪ `[RESOLVED"@ + (
        match t.resolved_by {
            Some(who) => " by @"@ + who@,
            None => Seq::empty(),
        }) + " · OUTDATED]`"@,
        spec_badge(t).len() > 0,
        spec_badge(t)[0] == '🔴' <==> t.status == ThreadStatus::OpenActive,
        spec_badge(t)[0] == '🟡' <==> t.status == ThreadStatus::OpenOutdated,
        spec_badge(t)[0] == '🟢' <==> t.status == ThreadStatus::ResolvedActive,
        spec_badge(t)[0] == '⚪' <==> t.status == ThreadStatus::ResolvedOutdated,
        t.status != u.status ==> spec_badge(t) != spec_badge(u),
{
    reveal_strlit("🔴 `[OPEN · ACTIVE]`");
    reveal_strlit("🟡 `[OPEN · OUTDATED]`");
    reveal_strlit("🟢 `[RESOLVED");
    reveal_strlit("⚪ `[RESOLVED");
    lemma_badge_colour(t);
    lemma_badge_colour(u);
    if t.status != u.status {
        assert(spec_badge(t)[0] != spec_badge(u)[0]);
    }
}

proof fn lemma_badge_colour(t: Thread)
    ensures
        spec_badge(t).len() > 0,
        spec_badge(t)[0] == (match t.status {
            ThreadStatus::OpenActive => '🔴',
            ThreadStatus::OpenOutdated => '🟡',
            ThreadStatus::ResolvedActive => '🟢',
            ThreadStatus::ResolvedOutdated => '⚪',
        }),
{
    reveal_strlit("🔴 `[OPEN · ACTIVE]`");
    reveal_strlit("🟡 `[OPEN · OUTDATED]`");
    reveal_strlit("🟢 `[RESOLVED");
    reveal_strlit("⚪ `[RESOLVED");
}

/// The opening of a thread's section, with its number.
pub open spec fn thread_heading(t: Thread) -> Seq<char> {
    "### Thread #"@ + dec(t.index as nat) + ": `"@
}

/// A document is its unfiltered part followed by the part the filter decides.
pub proof fn lemma_render_layout(d: Digest, f: Filter)
    ensures
        spec_render(d, f) == unfiltered_part(d) + shown_part(d, f),
{
    let c = d.counts;
    let sel = selected(f, d.threads@);
    lemma_regroup(
        spec_header(d),
        spec_description(d),
        spec_reviews(d),
        spec_conversation(d),
        ln("## Inline Review Threads"@),
        nl(),
        spec_counts_table(c),
        "| **Total** | **"@,
        dec(spec_total(c) as nat),
        "** | Showing "@,
        dec(sel.len()),
        " in this document |"@,
        nl(),
        filter_note(f),
        threads_body(sel),
    );
}

/// Filtering never changes the counts in the summary table: whatever the
/// filter, the document begins with the same metadata, description, reviews,
/// conversation, table of counts and total, all of which describe the whole
/// pull request.
pub proof fn lemma_filter_keeps_counts(d: Digest, f1: Filter, f2: Filter)
    ensures
        spec_render(d, f1).take(unfiltered_part(d).len() as int) == unfiltered_part(d),
        spec_render(d, f2).take(unfiltered_part(d).len() as int) == unfiltered_part(d),
{
    lemma_render_layout(d, f1);
    lemma_render_layout(d, f2);
    lemma_prefix(unfiltered_part(d), shown_part(d, f1));
    lemma_prefix(unfiltered_part(d), shown_part(d, f2));
}

/// Filtering never renumbers threads: the thread sections of a filtered
/// document are those of the selected threads, in order, each opening with
/// `### Thread #n` where n is the thread's own number, its position in the
/// full list.
pub proof fn lemma_filtered_sections(d: Digest, f: Filter, i: int)
    requires
        0 <= i < selected(f, d.threads@).len(),
    ensures
        ({
            let sel = selected(f, d.threads@);
            spec_render(d, f) == unfiltered_part(d) + shown_head(sel.len(), f) + thread_sections(
                sel.take(i),
            ) + spec_thread_section(sel[i]) + thread_sections(sel.skip(i + 1))
        }),
        spec_thread_section(selected(f, d.threads@)[i]).take(
            thread_heading(selected(f, d.threads@)[i]).len() as int,
        ) == thread_heading(selected(f, d.threads@)[i]),
{
    let sel = selected(f, d.threads@);
    lemma_render_layout(d, f);
    lemma_sections_at(sel, i);
    assert(threads_body(sel) == thread_sections(sel));
    lemma_assoc(
        unfiltered_part(d),
        shown_head(sel.len(), f),
        thread_sections(sel.take(i)),
        spec_thread_section(sel[i]),
        thread_sections(sel.skip(i + 1)),
    );
    lemma_section_heading(sel[i]);
}

proof fn lemma_assoc(u: Seq<char>, h: Seq<char>, a: Seq<char>, t: Seq<char>, b: Seq<char>)
    ensures
        u + (h + ((a + t) + b)) == u + h + a + t + b,
{
    assert(u + (h + ((a + t) + b)) =~= u + h + a + t + b);
}

/// The section of a thread opens with its heading.
proof fn lemma_section_heading(t: Thread)
    ensures
        spec_thread_section(t).take(thread_heading(t).len() as int) == thread_heading(t),
{
    let link = match t.url {
        Some(u) => ln("[Link]("@ + u@ + ")"@) + nl(),
        None => Seq::empty(),
    };
    let hunk = match t.diff_hunk {
        Some(h) => ln(spec_fence(h@) + "diff"@) + ln(h@) + ln(spec_fence(h@)) + nl(),
        None => Seq::empty(),
    };
    let rest = "`"@ + spec_location(t) + "` - "@ + spec_badge(t);
    let tail = nl() + nl() + link + hunk + thread_comments(t.comments@) + ln("---"@) + nl();
    lemma_section_regroup(
        "### Thread #"@,
        dec(t.index as nat),
        ": `"@,
        spec_location(t),
        "` - "@,
        spec_badge(t),
        nl(),
        nl(),
        link,
        hunk,
        thread_comments(t.comments@),
        ln("---"@),
    );
    lemma_prefix(
        thread_heading(t),
        (((spec_location(t) + "` - "@) + spec_badge(t)) + nl()) + ((((nl() + link) + hunk)
            + thread_comments(t.comments@)) + ln("---"@)) + nl(),
    );
}

/// The opening line of a thread's section: its number, its location, and the
/// badge of its status.
pub proof fn lemma_section_opening(t: Thread)
    ensures
        ({
            let line = thread_heading(t) + spec_location(t) + "` - "@ + spec_badge(t) + nl();
            spec_thread_section(t).take(line.len() as int) == line
        }),
{
    let link = match t.url {
        Some(u) => ln("[Link]("@ + u@ + ")"@) + nl(),
        None => Seq::empty(),
    };
    let hunk = match t.diff_hunk {
        Some(h) => ln(spec_fence(h@) + "diff"@) + ln(h@) + ln(spec_fence(h@)) + nl(),
        None => Seq::empty(),
    };
    lemma_section_regroup(
        "### Thread #"@,
        dec(t.index as nat),
        ": `"@,
        spec_location(t),
        "` - "@,
        spec_badge(t),
        nl(),
        nl(),
        link,
        hunk,
        thread_comments(t.comments@),
        ln("---"@),
    );
    let tail = (((nl() + link) + hunk) + thread_comments(t.comments@)) + ln("---"@) + nl();
    lemma_opening_regroup(thread_heading(t), spec_location(t), "` - "@, spec_badge(t), nl(), tail);
    lemma_prefix(thread_heading(t) + spec_location(t) + "` - "@ + spec_badge(t) + nl(), tail);
}

proof fn lemma_opening_regroup(
    h: Seq<char>,
    loc: Seq<char>,
    r: Seq<char>,
    badge: Seq<char>,
    m: Seq<char>,
    tail: Seq<char>,
)
    ensures
        h + ((((loc + r) + badge) + m) + tail) == ((((h + loc) + r) + badge) + m) + tail,
{
    assert(h + ((((loc + r) + badge) + m) + tail) =~= ((((h + loc) + r) + badge) + m) + tail);
}

proof fn lemma_section_regroup(
    p: Seq<char>,
    n: Seq<char>,
    q: Seq<char>,
    loc: Seq<char>,
    r: Seq<char>,
    badge: Seq<char>,
    m1: Seq<char>,
    m2: Seq<char>,
    link: Seq<char>,
    hunk: Seq<char>,
    comments: Seq<char>,
    rule: Seq<char>,
)
    ensures
        ((((((((((p + n) + q) + loc) + r) + badge) + m1) + m2) + link) + hunk) + comments + rule)
            + m2 == ((p + n) + q) + ((((loc + r) + badge) + m1) + ((((m2 + link) + hunk)
            + comments) + rule) + m2),
{
    assert(((((((((((p + n) + q) + loc) + r) + badge) + m1) + m2) + link) + hunk) + comments
        + rule) + m2 =~= ((p + n) + q) + ((((loc + r) + badge) + m1) + ((((m2 + link) + hunk)
        + comments) + rule) + m2));
}

/// A sequence is the start of itself followed by anything.
proof fn lemma_prefix(p: Seq<char>, q: Seq<char>)
    ensures
        (p + q).take(p.len() as int) == p,
{
    assert((p + q).take(p.len() as int) =~= p);
}

/// The sections of a list of threads, split around its `i`-th thread.
proof fn lemma_sections_at(ts: Seq<Thread>, i: int)
    requires
        0 <= i < ts.len(),
    ensures
        thread_sections(ts) == (thread_sections(ts.take(i)) + spec_thread_section(ts[i]))
            + thread_sections(ts.skip(i + 1)),
{
    let front = ts.take(i + 1);
    let back = ts.skip(i + 1);
    assert(ts =~= front + back);
    lemma_sections_append(front, back);
    assert(front.drop_last() =~= ts.take(i));
    assert(front.last() == ts[i]);
}

/// The sections of two lists one after the other.
proof fn lemma_sections_append(a: Seq<Thread>, b: Seq<Thread>)
    ensures
        thread_sections(a + b) == thread_sections(a) + thread_sections(b),
    decreases b.len(),
{
    if b.len() == 0 {
        assert(a + b =~= a);
        assert(thread_sections(a) + thread_sections(b) =~= thread_sections(a));
    } else {
        lemma_sections_append(a, b.drop_last());
        assert((a + b).drop_last() =~= a + b.drop_last());
        assert((a + b).last() == b.last());
        assert(thread_sections(a + b) =~= thread_sections(a) + thread_sections(b));
    }
}

proof fn lemma_regroup(
    a: Seq<char>,
    b: Seq<char>,
    c: Seq<char>,
    e: Seq<char>,
    h: Seq<char>,
    n: Seq<char>,
    ct: Seq<char>,
    t1: Seq<char>,
    t2: Seq<char>,
    t3: Seq<char>,
    dn: Seq<char>,
    t4: Seq<char>,
    m: Seq<char>,
    note: Seq<char>,
    body: Seq<char>,
)
    ensures
        (((a + b) + c) + e) + (((h + n) + (((ct + (((((t1 + t2) + t3) + dn) + t4) + m)) + m) + note)) + body) == (((((((((a + b) + c) + e) + h) + n) + ct) + t1) + t2) + t3) + (((((dn + t4) + m) + m) + note) + body),
{
    assert((((a + b) + c) + e) + (((h + n) + (((ct + (((((t1 + t2) + t3) + dn) + t4) + m)) + m) + note)) + body) =~= (((((((((a + b) + c) + e) + h) + n) + ct) + t1) + t2) + t3) + (((((dn + t4) + m) + m) + note) + body));
}

/// Filtering never changes thread numbering: every thread a filtered document
/// shows is a thread of the whole pull request, numbered by its position in
/// the full, sorted list.
pub proof fn lemma_numbers_survive_filtering(pr: model::PullRequest, d: Digest, f: Filter)
    requires
        digest_from(pr, d),
    ensures
        forall|k: int|
            0 <= k < selected(f, d.threads@).len() ==> exists|j: int|
                0 <= j < d.threads@.len() && d.threads@[j] == #[trigger] selected(f, d.threads@)[k]
                    && selected(f, d.threads@)[k].index == j + 1,
{
    lemma_selected_subsequence(f, d.threads@);
    assert forall|k: int| 0 <= k < selected(f, d.threads@).len() implies exists|j: int|
        0 <= j < d.threads@.len() && d.threads@[j] == #[trigger] selected(f, d.threads@)[k]
            && selected(f, d.threads@)[k].index == j + 1 by {
        let t = selected(f, d.threads@)[k];
        assert(d.threads@.contains(t));
        let j = choose|j: int| 0 <= j < d.threads@.len() && d.threads@[j] == t;
        assert(d.threads@[j].index == j + 1);
    }
}

} // verus!
