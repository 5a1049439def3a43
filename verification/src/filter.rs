//! Thread selection, kept out of the renderer so that what a document shows
//! can be stated, and tested, without generating a document.

use vstd::prelude::*;

use crate::cli::{OutdatedFilter, StatusFilter};
use crate::digest::{spec_is_outdated, spec_is_resolved, Thread, ThreadStatus};

verus! {

#[derive(Debug, Clone, Copy, PartialEq, Eq, Structural)]
pub struct Filter {
    pub status: StatusFilter,
    pub outdated: OutdatedFilter,
}

/// Whether a status passes the resolution axis of `f`.
pub open spec fn status_ok(f: Filter, s: ThreadStatus) -> bool {
    match f.status {
        StatusFilter::All => true,
        StatusFilter::Open => !spec_is_resolved(s),
        StatusFilter::Resolved => spec_is_resolved(s),
    }
}

/// Whether a status passes the outdatedness axis of `f`.
pub open spec fn outdated_ok(f: Filter, s: ThreadStatus) -> bool {
    match f.outdated {
        OutdatedFilter::Include => true,
        OutdatedFilter::Hide => !spec_is_outdated(s),
        OutdatedFilter::Only => spec_is_outdated(s),
    }
}

/// A thread is selected when it passes both axes.
pub open spec fn spec_matches(f: Filter, s: ThreadStatus) -> bool {
    status_ok(f, s) && outdated_ok(f, s)
}

/// Whether `f` lets every thread through.
pub open spec fn spec_is_permissive(f: Filter) -> bool {
    f.status == StatusFilter::All && f.outdated == OutdatedFilter::Include
}

/// The threads of `ts` that `f` selects, in their order.
pub open spec fn selected(f: Filter, ts: Seq<Thread>) -> Seq<Thread>
    decreases ts.len(),
{
    if ts.len() == 0 {
        Seq::empty()
    } else {
        let r = selected(f, ts.drop_last());
        if spec_matches(f, ts.last().status) {
            r.push(ts.last())
        } else {
            r
        }
    }
}

/// The threads a sequence of references points at.
pub open spec fn derefs(rs: Seq<&Thread>) -> Seq<Thread> {
    Seq::new(rs.len(), |i: int| *rs[i])
}

impl Filter {
    pub fn new(status: StatusFilter, outdated: OutdatedFilter) -> (f: Self)
        ensures
            f.status == status,
            f.outdated == outdated,
    {
        Filter { status, outdated }
    }

    /// The two axes are independent predicates, so a thread has to satisfy
    /// both.
    pub fn matches(&self, thread: &Thread) -> (r: bool)
        ensures
            r == spec_matches(*self, thread.status),
    {
        let status_ok = match self.status {
            StatusFilter::All => true,
            StatusFilter::Open => !thread.status.is_resolved(),
            StatusFilter::Resolved => thread.status.is_resolved(),
        };
        let outdated_ok = match self.outdated {
            OutdatedFilter::Include => true,
            OutdatedFilter::Hide => !thread.status.is_outdated(),
            OutdatedFilter::Only => thread.status.is_outdated(),
        };
        status_ok && outdated_ok
    }

    /// The selected threads, in order.
    pub fn apply<'a>(&self, threads: &'a [Thread]) -> (r: Vec<&'a Thread>)
        ensures
            derefs(r@) == selected(*self, threads@),
    {
        let mut r: Vec<&'a Thread> = Vec::new();
        let mut i: usize = 0;
        assert(threads@.take(0) =~= Seq::<Thread>::empty());
        assert(derefs(r@) =~= Seq::<Thread>::empty());
        while i < threads.len()
            invariant
                i <= threads@.len(),
                derefs(r@) == selected(*self, threads@.take(i as int)),
            decreases threads@.len() - i,
        {
            let t = &threads[i];
            assert(threads@.take(i + 1).drop_last() =~= threads@.take(i as int));
            assert(threads@.take(i + 1).last() == *t);
            if self.matches(t) {
                let ghost before = derefs(r@);
                r.push(t);
                assert(derefs(r@) =~= before.push(*t));
            }
            i = i + 1;
        }
        assert(threads@.take(threads@.len() as int) =~= threads@);
        r
    }

    /// Whether this filter lets everything through, which decides whether the
    /// document has to explain that it shows a subset.
    pub fn is_permissive(&self) -> (r: bool)
        ensures
            r == spec_is_permissive(*self),
    {
        self.status == StatusFilter::All && self.outdated == OutdatedFilter::Include
    }
}

/// A permissive filter selects every thread.
pub proof fn lemma_permissive_selects_all(f: Filter, ts: Seq<Thread>)
    requires
        spec_is_permissive(f),
    ensures
        selected(f, ts) == ts,
    decreases ts.len(),
{
    if ts.len() > 0 {
        lemma_permissive_selects_all(f, ts.drop_last());
        assert(ts.drop_last().push(ts.last()) =~= ts);
    }
}

/// Selection keeps exactly the matching threads, unchanged (numbers
/// included) and in their order: what is selected is a subsequence of the
/// whole, and a thread is kept exactly when it matches.
pub proof fn lemma_selected_subsequence(f: Filter, ts: Seq<Thread>)
    ensures
        selected(f, ts).len() <= ts.len(),
        forall|k: int| 0 <= k < selected(f, ts).len() ==> spec_matches(f, #[trigger] selected(f, ts)[k].status),
        forall|k: int|
            0 <= k < selected(f, ts).len() ==> ts.contains(#[trigger] selected(f, ts)[k]),
        forall|i: int|
            0 <= i < ts.len() && spec_matches(f, ts[i].status) ==> selected(f, ts).contains(
                #[trigger] ts[i],
            ),
    decreases ts.len(),
{
    if ts.len() > 0 {
        let d = ts.drop_last();
        lemma_selected_subsequence(f, d);
        let r = selected(f, d);
        assert forall|k: int| 0 <= k < selected(f, ts).len() implies ts.contains(
            #[trigger] selected(f, ts)[k],
        ) by {
            if k < r.len() {
                assert(d.contains(r[k]));
                let j = choose|j: int| 0 <= j < d.len() && d[j] == r[k];
                assert(ts[j] == r[k]);
            } else {
                assert(ts[ts.len() - 1] == ts.last());
            }
        }
        assert forall|i: int| 0 <= i < ts.len() && spec_matches(f, ts[i].status) implies selected(
            f,
            ts,
        ).contains(#[trigger] ts[i]) by {
            if i < ts.len() - 1 {
                assert(d[i] == ts[i]);
                assert(r.contains(d[i]));
                let k = choose|k: int| 0 <= k < r.len() && r[k] == d[i];
                assert(selected(f, ts)[k] == ts[i]);
            } else {
                assert(selected(f, ts)[r.len() as int] == ts[i]);
            }
        }
    }
}

/// No combination of the two axes is contradictory: every filter selects
/// threads of some status.
pub proof fn lemma_no_filter_is_empty(f: Filter)
    ensures
        exists|s: ThreadStatus| spec_matches(f, s),
{
    let s = match (f.status, f.outdated) {
        (StatusFilter::Resolved, OutdatedFilter::Only) => ThreadStatus::ResolvedOutdated,
        (StatusFilter::Resolved, _) => ThreadStatus::ResolvedActive,
        (_, OutdatedFilter::Only) => ThreadStatus::OpenOutdated,
        (_, _) => ThreadStatus::OpenActive,
    };
    assert(spec_matches(f, s));
}

/// The selection matrix: each axis alone selects a row or a column, and both
/// together select a single cell. `--active-only` is open and current.
pub proof fn lemma_filter_matrix(s: ThreadStatus)
    ensures
        spec_matches(Filter { status: StatusFilter::Open, outdated: OutdatedFilter::Hide }, s)
            <==> s == ThreadStatus::OpenActive,
        spec_matches(Filter { status: StatusFilter::Open, outdated: OutdatedFilter::Only }, s)
            <==> s == ThreadStatus::OpenOutdated,
        spec_matches(Filter { status: StatusFilter::Resolved, outdated: OutdatedFilter::Hide }, s)
            <==> s == ThreadStatus::ResolvedActive,
        spec_matches(Filter { status: StatusFilter::Resolved, outdated: OutdatedFilter::Only }, s)
            <==> s == ThreadStatus::ResolvedOutdated,
        spec_matches(Filter { status: StatusFilter::Open, outdated: OutdatedFilter::Include }, s)
            <==> !spec_is_resolved(s),
        spec_matches(
            Filter { status: StatusFilter::Resolved, outdated: OutdatedFilter::Include },
            s,
        ) <==> spec_is_resolved(s),
        spec_matches(Filter { status: StatusFilter::All, outdated: OutdatedFilter::Hide }, s)
            <==> !spec_is_outdated(s),
        spec_matches(Filter { status: StatusFilter::All, outdated: OutdatedFilter::Only }, s)
            <==> spec_is_outdated(s),
        spec_matches(Filter { status: StatusFilter::All, outdated: OutdatedFilter::Include }, s),
{
}

} // verus!
