//! The domain model: what a pull request digest contains.
//!
//! Converting the wire types here means the renderer never touches a nullable
//! author, a cursor, or a pair of booleans that have to be re-derived into a
//! status.

use vstd::prelude::*;

use crate::github::model;
use crate::text::{chars_of, eq_chars, is_blank, opt_view, string_of, trim, trim_end, trimmed_end};

verus! {

/// The four states a review thread can be in.
///
/// Declaration order is priority order, so the derived `Ord` is the sort order
/// too: what still needs action comes first.
#[derive(Debug, Clone, Copy, PartialEq, Eq, Structural, PartialOrd, Ord)]
pub enum ThreadStatus {
    /// Open, on lines the head commit still has. Actionable.
    OpenActive,
    /// Open, but later commits moved the lines out from under it.
    OpenOutdated,
    /// Resolved, on current lines.
    ResolvedActive,
    /// Resolved, and superseded. History.
    ResolvedOutdated,
}

/// The status of a thread with the given resolution and outdatedness.
pub open spec fn status_of(resolved: bool, outdated: bool) -> ThreadStatus {
    match (resolved, outdated) {
        (false, false) => ThreadStatus::OpenActive,
        (false, true) => ThreadStatus::OpenOutdated,
        (true, false) => ThreadStatus::ResolvedActive,
        (true, true) => ThreadStatus::ResolvedOutdated,
    }
}

/// Whether someone has resolved a thread in this status.
pub open spec fn spec_is_resolved(s: ThreadStatus) -> bool {
    s == ThreadStatus::ResolvedActive || s == ThreadStatus::ResolvedOutdated
}

/// Whether later commits have outdated a thread in this status.
pub open spec fn spec_is_outdated(s: ThreadStatus) -> bool {
    s == ThreadStatus::OpenOutdated || s == ThreadStatus::ResolvedOutdated
}

/// A status's place in the sort order: what still needs action comes first.
pub open spec fn rank(s: ThreadStatus) -> nat {
    match s {
        ThreadStatus::OpenActive => 0,
        ThreadStatus::OpenOutdated => 1,
        ThreadStatus::ResolvedActive => 2,
        ThreadStatus::ResolvedOutdated => 3,
    }
}

/// A status carries exactly its two flags: building a status from the flags
/// and reading the flags back gives the flags, and every status is built from
/// its own flags.
pub proof fn lemma_status_flags(resolved: bool, outdated: bool, s: ThreadStatus)
    ensures
        spec_is_resolved(status_of(resolved, outdated)) == resolved,
        spec_is_outdated(status_of(resolved, outdated)) == outdated,
        status_of(spec_is_resolved(s), spec_is_outdated(s)) == s,
{
}

impl ThreadStatus {
    pub fn new(resolved: bool, outdated: bool) -> (s: Self)
        ensures
            s == status_of(resolved, outdated),
    {
        match (resolved, outdated) {
            (false, false) => ThreadStatus::OpenActive,
            (false, true) => ThreadStatus::OpenOutdated,
            (true, false) => ThreadStatus::ResolvedActive,
            (true, true) => ThreadStatus::ResolvedOutdated,
        }
    }

    pub fn is_resolved(self) -> (r: bool)
        ensures
            r == spec_is_resolved(self),
    {
        match self {
            ThreadStatus::ResolvedActive | ThreadStatus::ResolvedOutdated => true,
            _ => false,
        }
    }

    pub fn is_outdated(self) -> (r: bool)
        ensures
            r == spec_is_outdated(self),
    {
        match self {
            ThreadStatus::OpenOutdated | ThreadStatus::ResolvedOutdated => true,
            _ => false,
        }
    }
}

/// Where a thread is anchored in the diff.
#[derive(Debug, Clone, Copy, PartialEq, Eq, Structural)]
pub enum Location {
    /// A line that still exists in the head commit.
    Line(u64),
    /// The line the comment was written against, since moved or deleted.
    OriginalLine(u64),
    /// A comment on the file as a whole.
    File,
}

#[derive(Debug, Clone)]
pub struct Comment {
    pub author: String,
    pub created_at: String,
    pub body: String,
    pub url: Option<String>,
}

#[derive(Debug, Clone)]
pub struct Review {
    pub author: String,
    pub state: String,
    pub submitted_at: Option<String>,
    pub body: String,
}

/// Whether a review says anything of its own: a bare `COMMENTED` review with
/// no body is the empty envelope GitHub creates to hold inline comments.
pub open spec fn spec_is_substantive(r: Review) -> bool {
    trim(r.body@).len() > 0 || r.state@ != "COMMENTED"@
}

impl Review {
    pub fn is_substantive(&self) -> (r: bool)
        ensures
            r == spec_is_substantive(*self),
    {
        let body = chars_of(self.body.as_str());
        let state = chars_of(self.state.as_str());
        let commented = chars_of("COMMENTED");
        !is_blank(body.as_slice()) || !eq_chars(state.as_slice(), commented.as_slice())
    }
}

#[derive(Debug, Clone)]
pub struct Thread {
    /// 1-based position in the sorted, *unfiltered* thread list, so that a
    /// thread's number does not depend on which threads a document shows.
    pub index: usize,
    pub status: ThreadStatus,
    pub resolved_by: Option<String>,
    pub path: String,
    pub location: Location,
    pub url: Option<String>,
    pub diff_hunk: Option<String>,
    pub comments: Vec<Comment>,
}

#[derive(Debug, Clone, Copy, PartialEq, Eq, Structural)]
pub struct ThreadCounts {
    pub open_active: usize,
    pub open_outdated: usize,
    pub resolved_active: usize,
    pub resolved_outdated: usize,
}

/// The sum of the four counts.
pub open spec fn spec_total(c: ThreadCounts) -> int {
    c.open_active + c.open_outdated + c.resolved_active + c.resolved_outdated
}

impl ThreadCounts {
    pub fn total(&self) -> (t: usize)
        requires
            spec_total(*self) <= usize::MAX,
        ensures
            t == spec_total(*self),
    {
        self.open_active + self.open_outdated + self.resolved_active + self.resolved_outdated
    }
}

#[derive(Debug, Clone)]
pub struct Digest {
    pub number: u64,
    pub title: String,
    pub url: String,
    pub state: String,
    pub is_draft: bool,
    pub author: String,
    pub head_ref: String,
    pub base_ref: String,
    pub created_at: String,
    pub updated_at: String,
    pub body: String,
    pub reviews: Vec<Review>,
    pub comments: Vec<Comment>,
    /// Every thread, sorted so that actionable ones come first.
    pub threads: Vec<Thread>,
    /// Counted before any filtering, so the summary always describes the whole
    /// pull request even when the document shows a slice of it.
    pub counts: ThreadCounts,
}

// ---------------------------------------------------------------------------
// From the wire
// ---------------------------------------------------------------------------

/// The name shown for a participant: the login, or `ghost` for a deleted
/// account. One fallback everywhere.
pub open spec fn login_of(a: Option<model::Actor>) -> Seq<char> {
    match a {
        Some(a) => a.login@,
        None => "ghost"@,
    }
}

/// The login of an optional participant, without a fallback.
pub open spec fn actor_login(a: Option<model::Actor>) -> Option<Seq<char>> {
    match a {
        Some(a) => Some(a.login@),
        None => None,
    }
}

/// `r` is the review `w` converts to.
pub open spec fn review_from(w: model::Review, r: Review) -> bool {
    &&& r.author@ == login_of(w.author)
    &&& r.state@ == w.state@
    &&& opt_view(r.submitted_at) == opt_view(w.submitted_at)
    &&& r.body@ == w.body@
}

/// `c` is the conversation comment `w` converts to.
pub open spec fn issue_comment_from(w: model::IssueComment, c: Comment) -> bool {
    &&& c.author@ == login_of(w.author)
    &&& c.created_at@ == w.created_at@
    &&& c.body@ == w.body@
    &&& opt_view(c.url) == Some(w.url@)
}

/// `c` is the thread comment `w` converts to.
pub open spec fn thread_comment_from(w: model::ThreadComment, c: Comment) -> bool {
    &&& c.author@ == login_of(w.author)
    &&& c.created_at@ == w.created_at@
    &&& c.body@ == w.body@
    &&& opt_view(c.url) == Some(w.url@)
}

/// Where a thread with these wire lines is anchored.
pub open spec fn location_of(line: Option<u64>, original_line: Option<u64>) -> Location {
    match (line, original_line) {
        (Some(l), _) => Location::Line(l),
        (None, Some(o)) => Location::OriginalLine(o),
        (None, None) => Location::File,
    }
}

/// The first diff hunk any of the comments carries.
pub open spec fn first_hunk(cs: Seq<model::ThreadComment>) -> Option<Seq<char>>
    decreases cs.len(),
{
    if cs.len() == 0 {
        None
    } else {
        match cs[0].diff_hunk {
            Some(h) => Some(h@),
            None => first_hunk(cs.drop_first()),
        }
    }
}

/// The hunk shown for a thread: the first one its comments carry, without
/// trailing whitespace, and none if that leaves it empty.
pub open spec fn hunk_of(cs: Seq<model::ThreadComment>) -> Option<Seq<char>> {
    match first_hunk(cs) {
        Some(h) => if trim_end(h).len() > 0 {
            Some(trim_end(h))
        } else {
            None
        },
        None => None,
    }
}

/// The link of a thread: that of its first comment.
pub open spec fn first_url(cs: Seq<model::ThreadComment>) -> Option<Seq<char>> {
    if cs.len() > 0 {
        Some(cs[0].url@)
    } else {
        None
    }
}

/// The status a wire thread has.
pub open spec fn wire_status(w: model::ReviewThread) -> ThreadStatus {
    status_of(w.is_resolved, w.is_outdated)
}

/// `t` is the thread `w` converts to, whatever its position.
pub open spec fn thread_from(w: model::ReviewThread, t: Thread) -> bool {
    &&& t.status == wire_status(w)
    &&& opt_view(t.resolved_by) == actor_login(w.resolved_by)
    &&& t.path@ == w.path@
    &&& t.location == location_of(w.line, w.original_line)
    &&& opt_view(t.url) == first_url(w.comments.nodes@)
    &&& opt_view(t.diff_hunk) == hunk_of(w.comments.nodes@)
    &&& t.comments@.len() == w.comments.nodes@.len()
    &&& forall|i: int|
        0 <= i < t.comments@.len() ==> thread_comment_from(
            #[trigger] w.comments.nodes@[i],
            t.comments@[i],
        )
}

/// The positions, in order, of the wire threads with status `st`.
pub open spec fn positions_with(ws: Seq<model::ReviewThread>, st: ThreadStatus) -> Seq<int>
    decreases ws.len(),
{
    if ws.len() == 0 {
        Seq::empty()
    } else {
        let p = positions_with(ws.drop_last(), st);
        if wire_status(ws.last()) == st {
            p.push(ws.len() - 1)
        } else {
            p
        }
    }
}

/// The order of the threads in a digest, as positions in the wire list: by
/// status in priority order, and in wire order within a status (a stable
/// sort by status).
pub open spec fn sorted_positions(ws: Seq<model::ReviewThread>) -> Seq<int> {
    positions_with(ws, ThreadStatus::OpenActive) + positions_with(ws, ThreadStatus::OpenOutdated)
        + positions_with(ws, ThreadStatus::ResolvedActive) + positions_with(
        ws,
        ThreadStatus::ResolvedOutdated,
    )
}

/// `c` holds the number of wire threads in each status.
pub open spec fn counts_match(c: ThreadCounts, ws: Seq<model::ReviewThread>) -> bool {
    &&& c.open_active == positions_with(ws, ThreadStatus::OpenActive).len()
    &&& c.open_outdated == positions_with(ws, ThreadStatus::OpenOutdated).len()
    &&& c.resolved_active == positions_with(ws, ThreadStatus::ResolvedActive).len()
    &&& c.resolved_outdated == positions_with(ws, ThreadStatus::ResolvedOutdated).len()
}

/// `d` is the digest of the wire pull request `pr`.
pub open spec fn digest_from(pr: model::PullRequest, d: Digest) -> bool {
    let ws = pr.review_threads.nodes@;
    let order = sorted_positions(ws);
    &&& d.number == pr.number
    &&& d.title@ == pr.title@
    &&& d.url@ == pr.url@
    &&& d.state@ == pr.state@
    &&& d.is_draft == pr.is_draft
    &&& d.author@ == login_of(pr.author)
    &&& d.head_ref@ == pr.head_ref_name@
    &&& d.base_ref@ == pr.base_ref_name@
    &&& d.created_at@ == pr.created_at@
    &&& d.updated_at@ == pr.updated_at@
    &&& d.body@ == pr.body@
    &&& d.reviews@.len() == pr.reviews.nodes@.len()
    &&& forall|i: int|
        0 <= i < d.reviews@.len() ==> review_from(#[trigger] pr.reviews.nodes@[i], d.reviews@[i])
    &&& d.comments@.len() == pr.comments.nodes@.len()
    &&& forall|i: int|
        0 <= i < d.comments@.len() ==> issue_comment_from(
            #[trigger] pr.comments.nodes@[i],
            d.comments@[i],
        )
    &&& d.threads@.len() == order.len()
    &&& forall|k: int|
        0 <= k < d.threads@.len() ==> thread_from(ws[order[k]], #[trigger] d.threads@[k])
            && d.threads@[k].index == k + 1
    &&& counts_match(d.counts, ws)
}

/// Every wire position appears among the positions of its own status, in
/// range, in increasing order.
pub proof fn lemma_positions_with(ws: Seq<model::ReviewThread>, st: ThreadStatus)
    ensures
        positions_with(ws, st).len() <= ws.len(),
        forall|k: int|
            0 <= k < positions_with(ws, st).len() ==> 0 <= #[trigger] positions_with(ws, st)[k]
                < ws.len() && wire_status(ws[positions_with(ws, st)[k]]) == st,
        forall|k1: int, k2: int|
            0 <= k1 < k2 < positions_with(ws, st).len() ==> #[trigger] positions_with(ws, st)[k1]
                < #[trigger] positions_with(ws, st)[k2],
        forall|i: int|
            0 <= i < ws.len() && wire_status(ws[i]) == st ==> #[trigger] positions_with(
                ws,
                st,
            ).contains(i),
    decreases ws.len(),
{
    if ws.len() > 0 {
        let d = ws.drop_last();
        lemma_positions_with(d, st);
        let p = positions_with(d, st);
        assert forall|k: int| 0 <= k < p.len() implies #[trigger] d[p[k]] == ws[p[k]] by {}
        assert forall|i: int| 0 <= i < ws.len() && wire_status(ws[i]) == st implies #[trigger] positions_with(
            ws,
            st,
        ).contains(i) by {
            if i < ws.len() - 1 {
                assert(d[i] == ws[i]);
                assert(p.contains(i));
                let k = choose|k: int| 0 <= k < p.len() && p[k] == i;
                assert(positions_with(ws, st)[k] == i);
            } else {
                assert(positions_with(ws, st)[p.len() as int] == i);
            }
        }
    }
}

/// The four status groups partition the wire list.
pub proof fn lemma_positions_partition(ws: Seq<model::ReviewThread>)
    ensures
        positions_with(ws, ThreadStatus::OpenActive).len() + positions_with(
            ws,
            ThreadStatus::OpenOutdated,
        ).len() + positions_with(ws, ThreadStatus::ResolvedActive).len() + positions_with(
            ws,
            ThreadStatus::ResolvedOutdated,
        ).len() == ws.len(),
    decreases ws.len(),
{
    if ws.len() > 0 {
        lemma_positions_partition(ws.drop_last());
    }
}

/// The digest order is a permutation of the wire list: every wire thread
/// appears exactly once.
pub proof fn lemma_sorted_positions_permutation(ws: Seq<model::ReviewThread>)
    ensures
        sorted_positions(ws).len() == ws.len(),
        forall|k: int|
            0 <= k < ws.len() ==> 0 <= #[trigger] sorted_positions(ws)[k] < ws.len(),
        forall|k1: int, k2: int|
            0 <= k1 < ws.len() && 0 <= k2 < ws.len() && k1 != k2 ==> #[trigger] sorted_positions(
                ws,
            )[k1] != #[trigger] sorted_positions(ws)[k2],
        forall|i: int| 0 <= i < ws.len() ==> #[trigger] sorted_positions(ws).contains(i),
{
    lemma_positions_partition(ws);
    lemma_sorted_positions_layout(ws);
    let order = sorted_positions(ws);
    assert forall|k: int| 0 <= k < ws.len() implies 0 <= #[trigger] order[k] < ws.len() by {
        let st = status_at(ws, k);
    }
    assert forall|k1: int, k2: int|
        0 <= k1 < ws.len() && 0 <= k2 < ws.len() && k1 != k2 implies #[trigger] order[k1]
        != #[trigger] order[k2] by {
        let s1 = status_at(ws, k1);
        let s2 = status_at(ws, k2);
        if s1 == s2 {
            lemma_positions_with(ws, s1);
            let p = positions_with(ws, s1);
            let off = group_offset(ws, s1);
            if k1 < k2 {
                assert(p[k1 - off] < p[k2 - off]);
            } else {
                assert(p[k2 - off] < p[k1 - off]);
            }
        }
    }
    assert forall|i: int| 0 <= i < ws.len() implies #[trigger] order.contains(i) by {
        let st = wire_status(ws[i]);
        lemma_positions_with(ws, st);
        let p = positions_with(ws, st);
        assert(p.contains(i));
        let k = choose|k: int| 0 <= k < p.len() && p[k] == i;
        let off = group_offset(ws, st);
        assert(order[off + k] == i);
    }
}

/// Where each status group starts in the digest order.
pub open spec fn group_offset(ws: Seq<model::ReviewThread>, st: ThreadStatus) -> int {
    let a = positions_with(ws, ThreadStatus::OpenActive).len() as int;
    let b = positions_with(ws, ThreadStatus::OpenOutdated).len() as int;
    let c = positions_with(ws, ThreadStatus::ResolvedActive).len() as int;
    match st {
        ThreadStatus::OpenActive => 0,
        ThreadStatus::OpenOutdated => a,
        ThreadStatus::ResolvedActive => a + b,
        ThreadStatus::ResolvedOutdated => a + b + c,
    }
}

/// The status of the thread at each place in the digest order.
pub open spec fn status_at(ws: Seq<model::ReviewThread>, k: int) -> ThreadStatus {
    let b = group_offset(ws, ThreadStatus::OpenOutdated);
    let c = group_offset(ws, ThreadStatus::ResolvedActive);
    let d = group_offset(ws, ThreadStatus::ResolvedOutdated);
    if k < b {
        ThreadStatus::OpenActive
    } else if k < c {
        ThreadStatus::OpenOutdated
    } else if k < d {
        ThreadStatus::ResolvedActive
    } else {
        ThreadStatus::ResolvedOutdated
    }
}

/// The digest order is the status groups one after the other.
pub proof fn lemma_sorted_positions_layout(ws: Seq<model::ReviewThread>)
    ensures
        forall|k: int|
            0 <= k < sorted_positions(ws).len() ==> {
                let st = #[trigger] status_at(ws, k);
                &&& group_offset(ws, st) <= k
                &&& k - group_offset(ws, st) < positions_with(ws, st).len()
                &&& sorted_positions(ws)[k] == positions_with(ws, st)[k - group_offset(ws, st)]
                &&& wire_status(ws[sorted_positions(ws)[k]]) == st
                &&& 0 <= sorted_positions(ws)[k] < ws.len()
            },
{
    lemma_positions_with(ws, ThreadStatus::OpenActive);
    lemma_positions_with(ws, ThreadStatus::OpenOutdated);
    lemma_positions_with(ws, ThreadStatus::ResolvedActive);
    lemma_positions_with(ws, ThreadStatus::ResolvedOutdated);
    let a = positions_with(ws, ThreadStatus::OpenActive);
    let b = positions_with(ws, ThreadStatus::OpenOutdated);
    let c = positions_with(ws, ThreadStatus::ResolvedActive);
    let d = positions_with(ws, ThreadStatus::ResolvedOutdated);
    assert forall|k: int| 0 <= k < sorted_positions(ws).len() implies {
        let st = #[trigger] status_at(ws, k);
        &&& group_offset(ws, st) <= k
        &&& k - group_offset(ws, st) < positions_with(ws, st).len()
        &&& sorted_positions(ws)[k] == positions_with(ws, st)[k - group_offset(ws, st)]
        &&& wire_status(ws[sorted_positions(ws)[k]]) == st
        &&& 0 <= sorted_positions(ws)[k] < ws.len()
    } by {
        let st = status_at(ws, k);
        let p = positions_with(ws, st);
        let j = k - group_offset(ws, st);
        assert(p[j] == positions_with(ws, st)[j]);
    }
}

/// The digest order puts statuses in priority order, and keeps wire order
/// within a status.
pub proof fn lemma_sorted_positions_ordered(ws: Seq<model::ReviewThread>)
    ensures
        forall|k1: int, k2: int|
            0 <= k1 <= k2 < sorted_positions(ws).len() ==> rank(
                wire_status(ws[#[trigger] sorted_positions(ws)[k1]]),
            ) <= rank(wire_status(ws[#[trigger] sorted_positions(ws)[k2]])),
        forall|k1: int, k2: int|
            0 <= k1 < k2 < sorted_positions(ws).len() && wire_status(
                ws[#[trigger] sorted_positions(ws)[k1]],
            ) == wire_status(ws[#[trigger] sorted_positions(ws)[k2]]) ==> sorted_positions(
                ws,
            )[k1] < sorted_positions(ws)[k2],
{
    lemma_sorted_positions_layout(ws);
    lemma_positions_with(ws, ThreadStatus::OpenActive);
    lemma_positions_with(ws, ThreadStatus::OpenOutdated);
    lemma_positions_with(ws, ThreadStatus::ResolvedActive);
    lemma_positions_with(ws, ThreadStatus::ResolvedOutdated);
    let order = sorted_positions(ws);
    assert forall|k1: int, k2: int| 0 <= k1 <= k2 < order.len() implies rank(
        wire_status(ws[#[trigger] order[k1]]),
    ) <= rank(wire_status(ws[#[trigger] order[k2]])) by {
        let s1 = status_at(ws, k1);
        let s2 = status_at(ws, k2);
    }
    assert forall|k1: int, k2: int|
        0 <= k1 < k2 < order.len() && wire_status(ws[#[trigger] order[k1]]) == wire_status(
            ws[#[trigger] order[k2]],
        ) implies order[k1] < order[k2] by {
        let s1 = status_at(ws, k1);
        let s2 = status_at(ws, k2);
        let p = positions_with(ws, s1);
        let off = group_offset(ws, s1);
        assert(p[k1 - off] < p[k2 - off]);
    }
}

/// Positions in a prefix of the wire list are a prefix of the positions.
proof fn lemma_positions_prefix(ws: Seq<model::ReviewThread>, j: int, st: ThreadStatus)
    requires
        0 <= j <= ws.len(),
    ensures
        positions_with(ws.take(j), st).len() <= positions_with(ws, st).len(),
        forall|m: int|
            0 <= m < positions_with(ws.take(j), st).len() ==> #[trigger] positions_with(
                ws.take(j),
                st,
            )[m] == positions_with(ws, st)[m],
    decreases ws.len(),
{
    if j == ws.len() {
        assert(ws.take(j) =~= ws);
    } else {
        let d = ws.drop_last();
        assert(d.take(j) =~= ws.take(j));
        lemma_positions_prefix(d, j, st);
    }
}

/// One more wire thread adds its own position to its status group.
proof fn lemma_positions_step(ws: Seq<model::ReviewThread>, j: int, st: ThreadStatus)
    requires
        0 <= j < ws.len(),
    ensures
        positions_with(ws.take(j + 1), st) == (if wire_status(ws[j]) == st {
            positions_with(ws.take(j), st).push(j)
        } else {
            positions_with(ws.take(j), st)
        }),
{
    assert(ws.take(j + 1).drop_last() =~= ws.take(j));
    assert(ws.take(j + 1).last() == ws[j]);
}

/// The display name of a participant.
fn login(actor: Option<model::Actor>) -> (s: String)
    ensures
        s@ == login_of(actor),
{
    match actor {
        Some(a) => a.login,
        None => string_of(chars_of("ghost").as_slice()),
    }
}

fn review_from_wire(w: model::Review) -> (r: Review)
    ensures
        review_from(w, r),
{
    Review { author: login(w.author), state: w.state, submitted_at: w.submitted_at, body: w.body }
}

fn issue_comment_from_wire(w: model::IssueComment) -> (c: Comment)
    ensures
        issue_comment_from(w, c),
{
    Comment {
        author: login(w.author),
        created_at: w.created_at,
        body: w.body,
        url: Some(w.url),
    }
}

fn thread_comment_from_wire(w: model::ThreadComment) -> (c: Comment)
    ensures
        thread_comment_from(w, c),
{
    Comment {
        author: login(w.author),
        created_at: w.created_at,
        body: w.body,
        url: Some(w.url),
    }
}

/// The hunk of the first comment that carries one, without trailing
/// whitespace; none if that leaves nothing.
fn hunk_from(cs: &Vec<model::ThreadComment>) -> (r: Option<String>)
    ensures
        opt_view(r) == hunk_of(cs@),
{
    let mut k: usize = 0;
    assert(cs@.skip(0) =~= cs@);
    while k < cs.len()
        invariant
            k <= cs@.len(),
            first_hunk(cs@) == first_hunk(cs@.skip(k as int)),
        decreases cs@.len() - k,
    {
        assert(cs@.skip(k as int)[0] == cs@[k as int]);
        match &cs[k].diff_hunk {
            Some(h) => {
                let v = chars_of(h.as_str());
                let t = trimmed_end(v.as_slice());
                if t.len() > 0 {
                    return Some(string_of(t.as_slice()));
                } else {
                    return None;
                }
            },
            None => {},
        }
        assert(cs@.skip(k as int).drop_first() =~= cs@.skip(k + 1));
        k = k + 1;
    }
    assert(cs@.skip(k as int) =~= Seq::<model::ThreadComment>::empty());
    None
}

/// Converts one wire thread, giving it the number `index`.
fn thread_from_wire(w: model::ReviewThread, index: usize) -> (t: Thread)
    ensures
        thread_from(w, t),
        t.index == index,
{
    let ghost w0 = w;
    let location = match (w.line, w.original_line) {
        (Some(line), _) => Location::Line(line),
        (None, Some(original)) => Location::OriginalLine(original),
        (None, None) => Location::File,
    };
    let diff_hunk = hunk_from(&w.comments.nodes);
    let url = if w.comments.nodes.len() > 0 {
        Some(w.comments.nodes[0].url.clone())
    } else {
        None
    };
    let status = ThreadStatus::new(w.is_resolved, w.is_outdated);
    let resolved_by = match w.resolved_by {
        Some(a) => Some(a.login),
        None => None,
    };
    let ghost cs = w.comments.nodes@;
    let mut comments: Vec<Comment> = Vec::new();
    for c in it: w.comments.nodes
        invariant
            it.seq() == cs,
            comments@.len() == it.index(),
            forall|i: int|
                0 <= i < it.index() ==> thread_comment_from(#[trigger] cs[i], comments@[i]),
    {
        comments.push(thread_comment_from_wire(c));
    }
    Thread { index, status, resolved_by, path: w.path, location, url, diff_hunk, comments }
}

/// The number of wire threads in each status.
fn count_statuses(ws: &Vec<model::ReviewThread>) -> (c: ThreadCounts)
    ensures
        counts_match(c, ws@),
{
    let n = ws.len();
    let mut c = ThreadCounts {
        open_active: 0,
        open_outdated: 0,
        resolved_active: 0,
        resolved_outdated: 0,
    };
    let mut i: usize = 0;
    assert(ws@.take(0) =~= Seq::<model::ReviewThread>::empty());
    while i < n
        invariant
            i <= n == ws@.len(),
            counts_match(c, ws@.take(i as int)),
            spec_total(c) == i,
        decreases n - i,
    {
        proof {
            lemma_positions_partition(ws@.take(i as int));
            lemma_positions_step(ws@, i as int, ThreadStatus::OpenActive);
            lemma_positions_step(ws@, i as int, ThreadStatus::OpenOutdated);
            lemma_positions_step(ws@, i as int, ThreadStatus::ResolvedActive);
            lemma_positions_step(ws@, i as int, ThreadStatus::ResolvedOutdated);
        }
        match ThreadStatus::new(ws[i].is_resolved, ws[i].is_outdated) {
            ThreadStatus::OpenActive => c.open_active = c.open_active + 1,
            ThreadStatus::OpenOutdated => c.open_outdated = c.open_outdated + 1,
            ThreadStatus::ResolvedActive => c.resolved_active = c.resolved_active + 1,
            ThreadStatus::ResolvedOutdated => c.resolved_outdated = c.resolved_outdated + 1,
        }
        i = i + 1;
    }
    assert(ws@.take(n as int) =~= ws@);
    c
}

/// Whether `b` holds, in order and numbered, the converted wire threads with
/// status `st` among the first `j`, the group starting at `off`.
pub open spec fn bucket_ok(
    ws: Seq<model::ReviewThread>,
    j: int,
    st: ThreadStatus,
    b: Seq<Thread>,
    off: int,
) -> bool {
    let p = positions_with(ws.take(j), st);
    &&& b.len() == p.len()
    &&& forall|m: int|
        0 <= m < b.len() ==> thread_from(ws[p[m]], #[trigger] b[m]) && b[m].index == off + m
            + 1
}

/// Files a converted thread into the bucket of its status.
fn file_thread(
    w: model::ReviewThread,
    ghost_ws: Ghost<Seq<model::ReviewThread>>,
    j: Ghost<int>,
    bucket: &mut Vec<Thread>,
    off: usize,
    group_len: usize,
)
    requires
        0 <= j@ < ghost_ws@.len(),
        ghost_ws@[j@] == w,
        bucket_ok(ghost_ws@, j@, wire_status(w), old(bucket)@, off as int),
        positions_with(ghost_ws@, wire_status(w)).len() == group_len,
        off + group_len <= usize::MAX,
    ensures
        bucket_ok(ghost_ws@, j@ + 1, wire_status(w), final(bucket)@, off as int),
{
    let ghost ws = ghost_ws@;
    let ghost st = wire_status(w);
    proof {
        lemma_positions_step(ws, j@, st);
        lemma_positions_prefix(ws, j@ + 1, st);
    }
    let index = off + bucket.len() + 1;
    let t = thread_from_wire(w, index);
    bucket.push(t);
    assert(positions_with(ws.take(j@ + 1), st)[old(bucket)@.len() as int] == j@);
}

impl Digest {
    /// The digest of a wire pull request: participants named, threads
    /// converted, sorted by status (stably, so GitHub's order is kept within a
    /// status) and numbered by position, and the threads counted by status.
    pub fn from_wire(pr: model::PullRequest) -> (d: Digest)
        ensures
            digest_from(pr, d),
            // What a digest promises of its threads, whatever the pull request.
            d.threads@.len() == pr.review_threads.nodes@.len(),
            spec_total(d.counts) == d.threads@.len(),
            forall|k1: int, k2: int|
                0 <= k1 <= k2 < d.threads@.len() ==> rank(#[trigger] d.threads@[k1].status) <= rank(
                    #[trigger] d.threads@[k2].status,
                ),
    {
        let ghost pr0 = pr;
        let ghost ws = pr.review_threads.nodes@;
        let counts = count_statuses(&pr.review_threads.nodes);
        let n = pr.review_threads.nodes.len();
        proof {
            lemma_positions_partition(ws);
        }
        assert(spec_total(counts) == ws.len());
        let off_b = counts.open_active;
        let off_c = off_b + counts.open_outdated;
        let off_d = off_c + counts.resolved_active;
        let mut ba: Vec<Thread> = Vec::new();
        let mut bb: Vec<Thread> = Vec::new();
        let mut bc: Vec<Thread> = Vec::new();
        let mut bd: Vec<Thread> = Vec::new();
        assert(ws.take(0) =~= Seq::<model::ReviewThread>::empty());
        for w in it: pr.review_threads.nodes
            invariant
                it.seq() == ws,
                counts_match(counts, ws),
                spec_total(counts) == ws.len(),
                n == ws.len(),
                off_b == counts.open_active,
                off_c == off_b + counts.open_outdated,
                off_d == off_c + counts.resolved_active,
                bucket_ok(ws, it.index(), ThreadStatus::OpenActive, ba@, 0),
                bucket_ok(ws, it.index(), ThreadStatus::OpenOutdated, bb@, off_b as int),
                bucket_ok(ws, it.index(), ThreadStatus::ResolvedActive, bc@, off_c as int),
                bucket_ok(ws, it.index(), ThreadStatus::ResolvedOutdated, bd@, off_d as int),
        {
            let ghost j = it.index();
            proof {
                lemma_positions_step(ws, j, ThreadStatus::OpenActive);
                lemma_positions_step(ws, j, ThreadStatus::OpenOutdated);
                lemma_positions_step(ws, j, ThreadStatus::ResolvedActive);
                lemma_positions_step(ws, j, ThreadStatus::ResolvedOutdated);
            }
            match ThreadStatus::new(w.is_resolved, w.is_outdated) {
                ThreadStatus::OpenActive => file_thread(
                    w,
                    Ghost(ws),
                    Ghost(j),
                    &mut ba,
                    0,
                    counts.open_active,
                ),
                ThreadStatus::OpenOutdated => file_thread(
                    w,
                    Ghost(ws),
                    Ghost(j),
                    &mut bb,
                    off_b,
                    counts.open_outdated,
                ),
                ThreadStatus::ResolvedActive => file_thread(
                    w,
                    Ghost(ws),
                    Ghost(j),
                    &mut bc,
                    off_c,
                    counts.resolved_active,
                ),
                ThreadStatus::ResolvedOutdated => file_thread(
                    w,
                    Ghost(ws),
                    Ghost(j),
                    &mut bd,
                    off_d,
                    counts.resolved_outdated,
                ),
            }
        }
        assert(ws.take(ws.len() as int) =~= ws);
        let mut threads = ba;
        threads.append(&mut bb);
        threads.append(&mut bc);
        threads.append(&mut bd);
        proof {
            lemma_sorted_positions_layout(ws);
            lemma_sorted_positions_ordered(ws);
            let order = sorted_positions(ws);
            assert forall|k: int| 0 <= k < threads@.len() implies thread_from(
                ws[order[k]],
                #[trigger] threads@[k],
            ) && threads@[k].index == k + 1 by {
                let st = status_at(ws, k);
            }
            assert forall|k1: int, k2: int|
                0 <= k1 <= k2 < threads@.len() implies rank(
                    #[trigger] threads@[k1].status,
                ) <= rank(#[trigger] threads@[k2].status) by {
                assert(threads@[k1].status == wire_status(ws[order[k1]]));
                assert(threads@[k2].status == wire_status(ws[order[k2]]));
            }
        }
        let ghost rs = pr.reviews.nodes@;
        let mut reviews: Vec<Review> = Vec::new();
        for r in it: pr.reviews.nodes
            invariant
                it.seq() == rs,
                reviews@.len() == it.index(),
                forall|i: int| 0 <= i < it.index() ==> review_from(#[trigger] rs[i], reviews@[i]),
        {
            reviews.push(review_from_wire(r));
        }
        let ghost cs = pr.comments.nodes@;
        let mut comments: Vec<Comment> = Vec::new();
        for c in it: pr.comments.nodes
            invariant
                it.seq() == cs,
                comments@.len() == it.index(),
                forall|i: int|
                    0 <= i < it.index() ==> issue_comment_from(#[trigger] cs[i], comments@[i]),
        {
            comments.push(issue_comment_from_wire(c));
        }
        Digest {
            number: pr.number,
            title: pr.title,
            url: pr.url,
            state: pr.state,
            is_draft: pr.is_draft,
            author: login(pr.author),
            head_ref: pr.head_ref_name,
            base_ref: pr.base_ref_name,
            created_at: pr.created_at,
            updated_at: pr.updated_at,
            body: pr.body,
            reviews,
            comments,
            threads,
            counts,
        }
    }
}

// ---------------------------------------------------------------------------
// What the counts count
// ---------------------------------------------------------------------------

/// The threads of `ts` with status `st`.
pub open spec fn with_status(ts: Seq<Thread>, st: ThreadStatus) -> Seq<Thread> {
    ts.filter(|t: Thread| t.status == st)
}

/// Each count of a digest is the number of its threads with the status the
/// count is named after, and also the number of wire threads with the
/// resolved and outdated flags of that status.
pub proof fn lemma_counts_count_threads(pr: model::PullRequest, d: Digest)
    requires
        digest_from(pr, d),
    ensures
        d.counts.open_active == with_status(d.threads@, ThreadStatus::OpenActive).len(),
        d.counts.open_outdated == with_status(d.threads@, ThreadStatus::OpenOutdated).len(),
        d.counts.resolved_active == with_status(d.threads@, ThreadStatus::ResolvedActive).len(),
        d.counts.resolved_outdated == with_status(d.threads@, ThreadStatus::ResolvedOutdated).len(),
        d.counts.open_active == pr.review_threads.nodes@.filter(
            |w: model::ReviewThread| !w.is_resolved && !w.is_outdated,
        ).len(),
        d.counts.open_outdated == pr.review_threads.nodes@.filter(
            |w: model::ReviewThread| !w.is_resolved && w.is_outdated,
        ).len(),
        d.counts.resolved_active == pr.review_threads.nodes@.filter(
            |w: model::ReviewThread| w.is_resolved && !w.is_outdated,
        ).len(),
        d.counts.resolved_outdated == pr.review_threads.nodes@.filter(
            |w: model::ReviewThread| w.is_resolved && w.is_outdated,
        ).len(),
{
    let ws = pr.review_threads.nodes@;
    lemma_status_group(pr, d, ThreadStatus::OpenActive);
    lemma_status_group(pr, d, ThreadStatus::OpenOutdated);
    lemma_status_group(pr, d, ThreadStatus::ResolvedActive);
    lemma_status_group(pr, d, ThreadStatus::ResolvedOutdated);
    lemma_positions_count(ws, ThreadStatus::OpenActive);
    lemma_positions_count(ws, ThreadStatus::OpenOutdated);
    lemma_positions_count(ws, ThreadStatus::ResolvedActive);
    lemma_positions_count(ws, ThreadStatus::ResolvedOutdated);
    assert((|w: model::ReviewThread| wire_status(w) == ThreadStatus::OpenActive) =~= (|
        w: model::ReviewThread,
    | !w.is_resolved && !w.is_outdated));
    assert((|w: model::ReviewThread| wire_status(w) == ThreadStatus::OpenOutdated) =~= (|
        w: model::ReviewThread,
    | !w.is_resolved && w.is_outdated));
    assert((|w: model::ReviewThread| wire_status(w) == ThreadStatus::ResolvedActive) =~= (|
        w: model::ReviewThread,
    | w.is_resolved && !w.is_outdated));
    assert((|w: model::ReviewThread| wire_status(w) == ThreadStatus::ResolvedOutdated) =~= (|
        w: model::ReviewThread,
    | w.is_resolved && w.is_outdated));
}

/// The wire threads of a status, counted by position or by filtering, are as
/// many.
proof fn lemma_positions_count(ws: Seq<model::ReviewThread>, st: ThreadStatus)
    ensures
        positions_with(ws, st).len() == ws.filter(|w: model::ReviewThread| wire_status(w) == st).len(),
    decreases ws.len(),
{
    reveal_with_fuel(Seq::<model::ReviewThread>::filter, 1);
    if ws.len() > 0 {
        lemma_positions_count(ws.drop_last(), st);
    }
}

/// The digest's threads with status `st` are as many as the wire threads
/// with that status.
proof fn lemma_status_group(pr: model::PullRequest, d: Digest, st: ThreadStatus)
    requires
        digest_from(pr, d),
    ensures
        with_status(d.threads@, st).len() == positions_with(pr.review_threads.nodes@, st).len(),
{
    let ws = pr.review_threads.nodes@;
    let ts = d.threads@;
    lemma_sorted_positions_layout(ws);
    lemma_positions_partition(ws);
    let a = group_offset(ws, st);
    let b = a + positions_with(ws, st).len();
    assert forall|k: int| 0 <= k < ts.len() implies ((|t: Thread| t.status == st)(ts[k]) <==> a
        <= k < b) by {
        let s2 = status_at(ws, k);
        assert(ts[k].status == wire_status(ws[sorted_positions(ws)[k]]));
        assert(ts[k].status == s2);
    }
    lemma_count_interval(ts, |t: Thread| t.status == st, a, b);
}

/// A sequence in which exactly the positions from `a` up to `b` satisfy `p`
/// has `b - a` elements that do.
proof fn lemma_count_interval(s: Seq<Thread>, p: spec_fn(Thread) -> bool, a: int, b: int)
    requires
        0 <= a <= b <= s.len(),
        forall|k: int| 0 <= k < s.len() ==> (p(#[trigger] s[k]) <==> a <= k < b),
    ensures
        s.filter(p).len() == b - a,
    decreases s.len(),
{
    reveal_with_fuel(Seq::<Thread>::filter, 1);
    if s.len() > 0 {
        let t = s.drop_last();
        assert forall|k: int| 0 <= k < t.len() implies t[k] == s[k] by {}
        assert(p(s[s.len() - 1]) <==> a <= s.len() - 1 < b);
        if a == b {
            lemma_count_interval(t, p, 0, 0);
        } else if b == s.len() {
            lemma_count_interval(t, p, a, b - 1);
        } else {
            lemma_count_interval(t, p, a, b);
        }
    }
}

} // verus!
