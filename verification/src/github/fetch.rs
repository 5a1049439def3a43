//! Draining paginated connections, and the failures of fetching a pull
//! request. The requests themselves are the caller's.

use vstd::prelude::*;

use crate::error::Error;
use crate::github::model::{Connection, PageInfo};
use crate::number::{dec, push_decimal};
use crate::repo::{spec_display, Repo};
use crate::text::{opt_view, push_str};

verus! {

/// The cursor of the next page to request, if any. `hasNextPage` without an
/// `endCursor` would ask for the same page forever, so the cursor, not the
/// flag, decides.
pub open spec fn spec_next_cursor(info: PageInfo) -> Option<Seq<char>> {
    if info.has_next_page {
        opt_view(info.end_cursor)
    } else {
        None
    }
}

/// The cursor of the next page to request for `connection`, if any.
pub fn next_cursor<T>(connection: &Connection<T>) -> (r: Option<String>)
    ensures
        opt_view(r) == spec_next_cursor(connection.page_info),
{
    if connection.page_info.has_next_page {
        match &connection.page_info.end_cursor {
            Some(c) => Some(c.clone()),
            None => None,
        }
    } else {
        None
    }
}

/// Appends a fetched page to `connection`: its nodes after the ones already
/// there, in order, and its page info in place of the old one.
pub fn absorb_page<T>(connection: &mut Connection<T>, page: Connection<T>)
    ensures
        final(connection).nodes@ == old(connection).nodes@ + page.nodes@,
        final(connection).page_info == page.page_info,
{
    let mut page = page;
    connection.nodes.append(&mut page.nodes);
    connection.page_info = page.page_info;
}

/// The nodes of `pages`, one page after another.
pub open spec fn pages_nodes<T>(pages: Seq<Connection<T>>) -> Seq<T>
    decreases pages.len(),
{
    if pages.len() == 0 {
        Seq::empty()
    } else {
        pages_nodes(pages.drop_last()) + pages.last().nodes@
    }
}

/// Whether `nodes` and `infos`, the nodes and page info of a connection
/// before and after each step, record draining it page by page: the `i`-th
/// page is requested at the cursor [`next_cursor`] gives, so only while there
/// is one; it is absorbed as [`absorb_page`] does; and the run ends when no
/// cursor is left.
pub open spec fn drained<T>(
    nodes: Seq<Seq<T>>,
    infos: Seq<PageInfo>,
    cursors: Seq<Seq<char>>,
    pages: Seq<Connection<T>>,
) -> bool {
    &&& nodes.len() == pages.len() + 1
    &&& infos.len() == pages.len() + 1
    &&& cursors.len() == pages.len()
    &&& forall|i: int|
        #![trigger pages[i]]
        0 <= i < pages.len() ==> {
            &&& spec_next_cursor(infos[i]) == Some(cursors[i])
            &&& nodes[i + 1] == nodes[i] + pages[i].nodes@
            &&& infos[i + 1] == pages[i].page_info
        }
    &&& spec_next_cursor(infos.last()) is None
}

/// Draining a connection drops and reorders nothing: at the end the connection holds the nodes it started with
/// followed by every fetched page's nodes, in the order the pages came; it
/// carries the last page's page info; and it has no next cursor left.
pub proof fn lemma_drain<T>(
    nodes: Seq<Seq<T>>,
    infos: Seq<PageInfo>,
    cursors: Seq<Seq<char>>,
    pages: Seq<Connection<T>>,
)
    requires
        drained(nodes, infos, cursors, pages),
    ensures
        nodes.last() == nodes[0] + pages_nodes(pages),
        pages.len() > 0 ==> infos.last() == pages.last().page_info,
        spec_next_cursor(infos.last()) is None,
{
    lemma_absorbed(nodes, pages, pages.len() as int);
    assert(pages.take(pages.len() as int) =~= pages);
    if pages.len() > 0 {
        let k = pages.len() - 1;
        assert(infos[k + 1] == pages[k].page_info);
    }
}

/// After `k` steps of draining, the connection holds its first nodes and the
/// nodes of the first `k` pages.
proof fn lemma_absorbed<T>(nodes: Seq<Seq<T>>, pages: Seq<Connection<T>>, k: int)
    requires
        nodes.len() == pages.len() + 1,
        0 <= k <= pages.len(),
        forall|i: int|
            #![trigger pages[i]]
            0 <= i < pages.len() ==> nodes[i + 1] == nodes[i] + pages[i].nodes@,
    ensures
        nodes[k] == nodes[0] + pages_nodes(pages.take(k)),
    decreases k,
{
    if k == 0 {
        assert(nodes[0] + pages_nodes(pages.take(0)) =~= nodes[0]);
    } else {
        lemma_absorbed(nodes, pages, k - 1);
        assert(pages.take(k).drop_last() =~= pages.take(k - 1));
        assert(pages.take(k).last() == pages[k - 1]);
        assert(nodes[k] == nodes[k - 1] + pages[k - 1].nodes@);
        assert(nodes[k] =~= nodes[0] + pages_nodes(pages.take(k)));
    }
}

/// The message when the pull request does not exist.
pub open spec fn not_found_message(number: u64, repo: crate::repo::RepoView) -> Seq<char> {
    "pull request #"@ + dec(number as nat) + " not found in "@ + spec_display(repo)
}

/// The message when the pull request disappears while its pages are fetched.
pub open spec fn disappeared_message(number: u64, repo: crate::repo::RepoView) -> Seq<char> {
    "pull request #"@ + dec(number as nat) + " in "@ + spec_display(repo)
        + " disappeared mid-pagination"@
}

/// The message when a review thread disappears while its comments are
/// fetched.
pub open spec fn vanished_message(id: Seq<char>) -> Seq<char> {
    "review thread "@ + id + " vanished mid-pagination"@
}

/// The first page of the pull request, or the failure that it does not exist.
pub fn found_pull_request<T>(pull_request: Option<T>, number: u64, repo: &Repo) -> (r: Result<T, Error>)
    ensures
        match (r, pull_request) {
            (Ok(a), Some(b)) => a == b,
            (Err(e), None) => e matches Error::NotFound(m) && m@ == not_found_message(number, repo@),
            _ => false,
        },
{
    match pull_request {
        Some(p) => Ok(p),
        None => {
            let mut m = String::new();
            push_str(&mut m, "pull request #");
            push_decimal(&mut m, number);
            push_str(&mut m, " not found in ");
            let d = repo.display();
            push_str(&mut m, d.as_str());
            Err(Error::NotFound(m))
        },
    }
}

/// A later page of the pull request, or the failure that it disappeared.
pub fn unwrap_pr<T>(pull_request: Option<T>, number: u64, repo: &Repo) -> (r: Result<T, Error>)
    ensures
        match (r, pull_request) {
            (Ok(a), Some(b)) => a == b,
            (Err(e), None) => e matches Error::NotFound(m) && m@ == disappeared_message(number, repo@),
            _ => false,
        },
{
    match pull_request {
        Some(p) => Ok(p),
        None => {
            let mut m = String::new();
            push_str(&mut m, "pull request #");
            push_decimal(&mut m, number);
            push_str(&mut m, " in ");
            let d = repo.display();
            push_str(&mut m, d.as_str());
            push_str(&mut m, " disappeared mid-pagination");
            Err(Error::NotFound(m))
        },
    }
}

/// A later page of a thread's comments, or the failure that it vanished.
pub fn unwrap_thread<T>(node: Option<T>, id: &str) -> (r: Result<T, Error>)
    ensures
        match (r, node) {
            (Ok(a), Some(b)) => a == b,
            (Err(e), None) => e matches Error::Api(m) && m@ == vanished_message(id@),
            _ => false,
        },
{
    match node {
        Some(p) => Ok(p),
        None => {
            let mut m = String::new();
            push_str(&mut m, "review thread ");
            push_str(&mut m, id);
            push_str(&mut m, " vanished mid-pagination");
            Err(Error::Api(m))
        },
    }
}

} // verus!
