//! Changes of the chat's file that come from outside.

use vstd::prelude::*;

use crate::app::input_state::{extension, find_extension};
use crate::text::{str_eq, views};

verus! {

/// What the watcher of a file reports.
#[derive(Debug)]
pub enum WatchReport {
    /// Files were modified.
    Modified(Vec<String>),
    /// Something else happened.
    Other,
    /// Watching failed.
    Failed(String),
}

pub enum ReportView {
    Modified(Seq<Seq<char>>),
    Other,
    Failed(Seq<char>),
}

impl View for WatchReport {
    type V = ReportView;

    open spec fn view(&self) -> ReportView {
        match *self {
            WatchReport::Modified(paths) => ReportView::Modified(views(paths@)),
            WatchReport::Other => ReportView::Other,
            WatchReport::Failed(e) => ReportView::Failed(e@),
        }
    }
}

/// The views of reports.
pub open spec fn report_views(v: Seq<WatchReport>) -> Seq<ReportView> {
    v.map_values(|r: WatchReport| r@)
}

/// A change of the file that is watched.
#[derive(Debug, PartialEq, Eq)]
pub enum FileChangeEvent {
    /// The file was modified from outside.
    Modified(String),
    /// Watching failed.
    Error(String),
}

pub enum ChangeView {
    Modified(Seq<char>),
    Error(Seq<char>),
}

impl View for FileChangeEvent {
    type V = ChangeView;

    open spec fn view(&self) -> ChangeView {
        match *self {
            FileChangeEvent::Modified(p) => ChangeView::Modified(p@),
            FileChangeEvent::Error(e) => ChangeView::Error(e@),
        }
    }
}

/// A file that is only there while another one is written.
pub open spec fn is_temporary(path: Seq<char>) -> bool {
    extension(path) == Some("tmp"@)
}

/// The last of some paths that is no temporary file, or the one before them.
pub open spec fn last_solid(paths: Seq<Seq<char>>, before: Option<Seq<char>>) -> Option<Seq<char>>
    decreases paths.len(),
{
    if paths.len() == 0 {
        before
    } else if is_temporary(paths.last()) {
        last_solid(paths.drop_last(), before)
    } else {
        Some(paths.last())
    }
}

/// What some reports come to, from the file that was modified last before them:
/// the first failure, or the file that was modified last.
pub open spec fn change_from(reports: Seq<ReportView>, before: Option<Seq<char>>) -> Option<
    ChangeView,
>
    decreases reports.len(),
{
    if reports.len() == 0 {
        match before {
            Some(p) => Some(ChangeView::Modified(p)),
            None => None,
        }
    } else {
        match reports[0] {
            ReportView::Failed(e) => Some(ChangeView::Error(e)),
            ReportView::Modified(paths) => change_from(reports.skip(1), last_solid(paths, before)),
            ReportView::Other => change_from(reports.skip(1), before),
        }
    }
}

fn temporary(path: &str) -> (r: bool)
    ensures
        r == is_temporary(path@),
{
    match find_extension(path) {
        Some(e) => str_eq(e.as_str(), "tmp"),
        None => false,
    }
}

fn find_last_solid(paths: &Vec<String>) -> (r: Option<usize>)
    ensures
        match r {
            Some(i) => i < paths@.len() && forall|b: Option<Seq<char>>| #[trigger]
                last_solid(views(paths@), b) == Some(paths@[i as int]@),
            None => forall|b: Option<Seq<char>>| #[trigger] last_solid(views(paths@), b) == b,
        },
{
    let ghost all = views(paths@);
    let mut n: usize = paths.len();
    assert(all.take(n as int) =~= all);
    while n > 0
        invariant
            all == views(paths@),
            n <= paths@.len(),
            forall|b: Option<Seq<char>>| #[trigger]
                last_solid(all, b) == last_solid(all.take(n as int), b),
        decreases n,
    {
        proof {
            assert(all.take(n as int).last() == paths@[n - 1]@);
            assert(all.take(n as int).drop_last() =~= all.take(n - 1));
        }
        if !temporary(paths[n - 1].as_str()) {
            return Some(n - 1);
        }
        n -= 1;
    }
    None
}

/// What the reports since the last time come to: the first failure, or the file
/// that was modified last. Temporary files do not count.
pub fn check_for_changes(reports: &Vec<WatchReport>) -> (r: Option<FileChangeEvent>)
    ensures
        change_from(report_views(reports@), None) == (match r {
            Some(c) => Some(c@),
            None => None,
        }),
{
    let ghost all = report_views(reports@);
    let mut latest: Option<String> = None;
    let mut i: usize = 0;
    assert(all.skip(0) =~= all);
    while i < reports.len()
        invariant
            all == report_views(reports@),
            i <= reports@.len(),
            change_from(all, None) == change_from(
                all.skip(i as int),
                crate::commands::completion::opt_string_view(latest),
            ),
        decreases reports.len() - i,
    {
        proof {
            assert(all.skip(i as int)[0] == reports@[i as int]@);
            assert(all.skip(i as int).skip(1) =~= all.skip(i + 1));
        }
        match &reports[i] {
            WatchReport::Failed(e) => {
                return Some(FileChangeEvent::Error(e.clone()));
            },
            WatchReport::Modified(paths) => {
                if let Some(k) = find_last_solid(paths) {
                    latest = Some(paths[k].clone());
                }
            },
            WatchReport::Other => {},
        }
        i += 1;
    }
    match latest {
        Some(p) => Some(FileChangeEvent::Modified(p)),
        None => None,
    }
}

/// A temporary file is never reported as a change.
pub proof fn law_temporary_files_do_not_count(reports: Seq<ReportView>, before: Option<Seq<char>>)
    requires
        before matches Some(p) ==> !is_temporary(p),
    ensures
        change_from(reports, before) matches Some(ChangeView::Modified(p)) ==> !is_temporary(p),
    decreases reports.len(),
{
    if reports.len() > 0 {
        match reports[0] {
            ReportView::Failed(_) => {},
            ReportView::Modified(paths) => {
                lemma_last_solid(paths, before);
                law_temporary_files_do_not_count(reports.skip(1), last_solid(paths, before));
            },
            ReportView::Other => law_temporary_files_do_not_count(reports.skip(1), before),
        }
    }
}

proof fn lemma_last_solid(paths: Seq<Seq<char>>, before: Option<Seq<char>>)
    requires
        before matches Some(p) ==> !is_temporary(p),
    ensures
        last_solid(paths, before) matches Some(p) ==> !is_temporary(p),
    decreases paths.len(),
{
    if paths.len() > 0 {
        lemma_last_solid(paths.drop_last(), before);
    }
}

} // verus!
