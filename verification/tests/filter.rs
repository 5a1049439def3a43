use gh_pr_digest::cli::{OutdatedFilter, StatusFilter};
use gh_pr_digest::digest::{Location, Thread, ThreadStatus};
use gh_pr_digest::filter::Filter;

fn thread(status: ThreadStatus) -> Thread {
    Thread {
        index: 1,
        status,
        resolved_by: None,
        path: "src/main.rs".into(),
        location: Location::Line(1),
        url: None,
        diff_hunk: None,
        comments: Vec::new(),
    }
}

fn all() -> Vec<Thread> {
    vec![
        thread(ThreadStatus::OpenActive),
        thread(ThreadStatus::OpenOutdated),
        thread(ThreadStatus::ResolvedActive),
        thread(ThreadStatus::ResolvedOutdated),
    ]
}

fn selected(status: StatusFilter, outdated: OutdatedFilter) -> Vec<ThreadStatus> {
    let threads = all();
    Filter::new(status, outdated)
        .apply(&threads)
        .iter()
        .map(|t| t.status)
        .collect()
}

#[test]
fn default_filter_selects_everything() {
    assert_eq!(selected(StatusFilter::All, OutdatedFilter::Include).len(), 4);
}

#[test]
fn the_two_axes_compose_into_every_cell_of_the_matrix() {
    assert_eq!(
        selected(StatusFilter::Open, OutdatedFilter::Hide),
        vec![ThreadStatus::OpenActive]
    );
    assert_eq!(
        selected(StatusFilter::Open, OutdatedFilter::Only),
        vec![ThreadStatus::OpenOutdated]
    );
    assert_eq!(
        selected(StatusFilter::Resolved, OutdatedFilter::Hide),
        vec![ThreadStatus::ResolvedActive]
    );
    assert_eq!(
        selected(StatusFilter::Resolved, OutdatedFilter::Only),
        vec![ThreadStatus::ResolvedOutdated]
    );
}

#[test]
fn each_axis_alone_selects_a_row_or_a_column() {
    assert_eq!(
        selected(StatusFilter::Open, OutdatedFilter::Include),
        vec![ThreadStatus::OpenActive, ThreadStatus::OpenOutdated]
    );
    assert_eq!(
        selected(StatusFilter::All, OutdatedFilter::Only),
        vec![ThreadStatus::OpenOutdated, ThreadStatus::ResolvedOutdated]
    );
}

#[test]
fn only_the_default_filter_is_permissive() {
    for s in [StatusFilter::Open, StatusFilter::Resolved, StatusFilter::All] {
        for o in [OutdatedFilter::Include, OutdatedFilter::Hide, OutdatedFilter::Only] {
            let f = Filter::new(s, o);
            assert_eq!(
                f.is_permissive(),
                s == StatusFilter::All && o == OutdatedFilter::Include
            );
            assert!(!selected(s, o).is_empty());
        }
    }
}

#[test]
fn selection_keeps_thread_numbers() {
    let mut threads = all();
    for (i, t) in threads.iter_mut().enumerate() {
        t.index = i + 1;
    }
    let f = Filter::new(StatusFilter::Resolved, OutdatedFilter::Include);
    let picked: Vec<usize> = f.apply(&threads).iter().map(|t| t.index).collect();
    assert_eq!(picked, vec![3, 4]);
    assert!(f.matches(&threads[2]));
    assert!(!f.matches(&threads[0]));
}
