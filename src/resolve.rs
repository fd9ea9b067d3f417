//! Change-set resolution from a webhook's commit list or from a comparison
//! of two refs.

use vstd::prelude::*;
use crate::changeset::{in_scope, ChangeSet, ChangeSetView, PathSet};
use crate::text::{has_prefix, same_text, starts_with};

verus! {

/// One commit of a push notification: the paths it adds, modifies and removes.
#[derive(Debug, Clone)]
pub struct Commit {
    pub added: Vec<String>,
    pub modified: Vec<String>,
    pub removed: Vec<String>,
}

pub ghost struct CommitView {
    pub added: Seq<Seq<char>>,
    pub modified: Seq<Seq<char>>,
    pub removed: Seq<Seq<char>>,
}

impl View for Commit {
    type V = CommitView;

    open spec fn view(&self) -> CommitView {
        CommitView {
            added: self.added.deep_view(),
            modified: self.modified.deep_view(),
            removed: self.removed.deep_view(),
        }
    }
}

pub open spec fn commit_views(commits: Seq<Commit>) -> Seq<CommitView> {
    commits.map_values(|c: Commit| c@)
}

/// The change set of a commit list: per kind, the union over the commits of
/// their paths under `prefix`.
pub open spec fn webhook_changes(commits: Seq<CommitView>, prefix: Seq<char>) -> ChangeSetView
    decreases commits.len(),
{
    if commits.len() == 0 {
        ChangeSetView::empty()
    } else {
        let before = webhook_changes(commits.drop_last(), prefix);
        let c = commits.last();
        ChangeSetView {
            added: before.added + in_scope(c.added, prefix),
            modified: before.modified + in_scope(c.modified, prefix),
            removed: before.removed + in_scope(c.removed, prefix),
        }
    }
}

/// Builds the change set of a push notification's commits, in the order
/// delivered, keeping only paths under `prefix`.
pub fn changes_from_commits(commits: &Vec<Commit>, prefix: &str) -> (r: ChangeSet)
    ensures
        r.wf(),
        r@ == webhook_changes(commit_views(commits@), prefix@),
{
    let mut changes = ChangeSet::new();
    let mut i: usize = 0;
    while i < commits.len()
        invariant
            i <= commits@.len(),
            changes.wf(),
            changes@ == webhook_changes(commit_views(commits@.subrange(0, i as int)), prefix@),
        decreases commits@.len() - i,
    {
        let c = &commits[i];
        changes.added.insert_in_scope(&c.added, prefix);
        changes.modified.insert_in_scope(&c.modified, prefix);
        changes.removed.insert_in_scope(&c.removed, prefix);
        proof {
            let next = commit_views(commits@.subrange(0, i as int + 1));
            assert(next.drop_last() =~= commit_views(commits@.subrange(0, i as int)));
            assert(next.last() == commits@[i as int]@);
        }
        i = i + 1;
    }
    assert(commits@.subrange(0, commits@.len() as int) =~= commits@);
    changes
}

/// No path outside `prefix` reaches the change set of a commit list, whatever
/// the commits name.
pub proof fn lemma_webhook_changes_within(commits: Seq<CommitView>, prefix: Seq<char>)
    ensures
        webhook_changes(commits, prefix).within(prefix),
    decreases commits.len(),
{
    if commits.len() > 0 {
        lemma_webhook_changes_within(commits.drop_last(), prefix);
    }
}

/// One entry of a comparison's file list.
#[derive(Debug, Clone)]
pub struct ComparedFile {
    pub filename: Option<String>,
    pub status: Option<String>,
}

pub ghost struct ComparedFileView {
    pub filename: Option<Seq<char>>,
    pub status: Option<Seq<char>>,
}

pub open spec fn opt_text(s: Option<String>) -> Option<Seq<char>> {
    match s {
        Some(t) => Some(t@),
        None => None,
    }
}

impl View for ComparedFile {
    type V = ComparedFileView;

    open spec fn view(&self) -> ComparedFileView {
        ComparedFileView { filename: opt_text(self.filename), status: opt_text(self.status) }
    }
}

pub open spec fn compared_views(files: Seq<ComparedFile>) -> Seq<ComparedFileView> {
    files.map_values(|f: ComparedFile| f@)
}

/// The change set of a comparison's file list: each file under `prefix` with
/// a status goes to `added` for "added", to `removed` for "removed" and to
/// `modified` for any other status.
pub open spec fn compare_changes(files: Seq<ComparedFileView>, prefix: Seq<char>) -> ChangeSetView
    decreases files.len(),
{
    if files.len() == 0 {
        ChangeSetView::empty()
    } else {
        let before = compare_changes(files.drop_last(), prefix);
        let f = files.last();
        match (f.filename, f.status) {
            (Some(name), Some(status)) => if !has_prefix(name, prefix) {
                before
            } else if status == "added"@ {
                ChangeSetView { added: before.added.insert(name), ..before }
            } else if status == "removed"@ {
                ChangeSetView { removed: before.removed.insert(name), ..before }
            } else {
                ChangeSetView { modified: before.modified.insert(name), ..before }
            },
            _ => before,
        }
    }
}

/// Classifies a comparison's file list into a change set, keeping only paths
/// under `prefix`.
pub fn changes_from_files(files: &Vec<ComparedFile>, prefix: &str) -> (r: ChangeSet)
    ensures
        r.wf(),
        r@ == compare_changes(compared_views(files@), prefix@),
{
    let mut changes = ChangeSet::new();
    let mut i: usize = 0;
    while i < files.len()
        invariant
            i <= files@.len(),
            changes.wf(),
            changes@ == compare_changes(compared_views(files@.subrange(0, i as int)), prefix@),
        decreases files@.len() - i,
    {
        proof {
            let next = compared_views(files@.subrange(0, i as int + 1));
            assert(next.drop_last() =~= compared_views(files@.subrange(0, i as int)));
            assert(next.last() == files@[i as int]@);
        }
        let f = &files[i];
        match (&f.filename, &f.status) {
            (Some(name), Some(status)) => {
                if starts_with(name.as_str(), prefix) {
                    if same_text(status.as_str(), "added") {
                        changes.added.insert(name.clone());
                    } else if same_text(status.as_str(), "removed") {
                        changes.removed.insert(name.clone());
                    } else {
                        changes.modified.insert(name.clone());
                    }
                }
            },
            _ => {},
        }
        i = i + 1;
    }
    assert(files@.subrange(0, files@.len() as int) =~= files@);
    changes
}

/// No path outside `prefix` reaches the change set of a comparison.
pub proof fn lemma_compare_changes_within(files: Seq<ComparedFileView>, prefix: Seq<char>)
    ensures
        compare_changes(files, prefix).within(prefix),
    decreases files.len(),
{
    if files.len() > 0 {
        lemma_compare_changes_within(files.drop_last(), prefix);
    }
}

/// Largest number of commits between the release tag and the branch that a
/// sweep synchronises; a repository further ahead is left for a manual update.
pub const MAX_COMPARE_COMMITS: u64 = 250;

/// The fields of a ref-to-ref comparison that the resolver reads; `None`
/// where the comparison lacks the field.
#[derive(Debug, Clone)]
pub struct CompareReport {
    pub status: Option<String>,
    pub total_commits: Option<u64>,
    pub files: Option<Vec<ComparedFile>>,
}

pub ghost struct CompareReportView {
    pub status: Option<Seq<char>>,
    pub total_commits: Option<u64>,
    pub files: Option<Seq<ComparedFileView>>,
}

impl View for CompareReport {
    type V = CompareReportView;

    open spec fn view(&self) -> CompareReportView {
        CompareReportView {
            status: opt_text(self.status),
            total_commits: self.total_commits,
            files: match self.files {
                Some(f) => Some(compared_views(f@)),
                None => None,
            },
        }
    }
}

/// Why a repository is skipped in a sweep.
#[derive(Debug, Clone, Copy, PartialEq, Eq, Structural)]
pub enum CompareSkip {
    /// The comparison has no status.
    StatusMissing,
    /// The branch is not ahead of the release tag.
    NotAhead,
    /// The comparison has no commit count.
    CommitCountMissing,
    /// More commits than the sweep takes on.
    TooManyCommits,
}

/// The change set a comparison asks for, or why the repository is skipped.
pub open spec fn compare_outcome(report: CompareReportView, prefix: Seq<char>) -> Result<ChangeSetView, CompareSkip> {
    match report.status {
        None => Err(CompareSkip::StatusMissing),
        Some(status) => if status != "ahead"@ {
            Err(CompareSkip::NotAhead)
        } else {
            match report.total_commits {
                None => Err(CompareSkip::CommitCountMissing),
                Some(total) => if total > MAX_COMPARE_COMMITS {
                    Err(CompareSkip::TooManyCommits)
                } else {
                    match report.files {
                        None => Ok(ChangeSetView::empty()),
                        Some(files) => Ok(compare_changes(files, prefix)),
                    }
                },
            }
        },
    }
}

pub open spec fn changes_result_view(r: Result<ChangeSet, CompareSkip>) -> Result<ChangeSetView, CompareSkip> {
    match r {
        Ok(c) => Ok(c@),
        Err(e) => Err(e),
    }
}

/// Resolves a comparison into a change set under `prefix`, or says why the
/// repository is skipped.
pub fn changes_from_compare(report: &CompareReport, prefix: &str) -> (r: Result<ChangeSet, CompareSkip>)
    ensures
        changes_result_view(r) == compare_outcome(report@, prefix@),
        r matches Ok(c) ==> c.wf(),
{
    let status = match &report.status {
        None => return Err(CompareSkip::StatusMissing),
        Some(s) => s,
    };
    if !same_text(status.as_str(), "ahead") {
        return Err(CompareSkip::NotAhead);
    }
    let total = match report.total_commits {
        None => return Err(CompareSkip::CommitCountMissing),
        Some(t) => t,
    };
    if total > MAX_COMPARE_COMMITS {
        return Err(CompareSkip::TooManyCommits);
    }
    match &report.files {
        None => Ok(ChangeSet::new()),
        Some(files) => Ok(changes_from_files(files, prefix)),
    }
}

} // verus!
