//! The compare sweep over the whole catalog, as a state machine: each step
//! takes the outcome of the last outside request and names the next one.

use vstd::prelude::*;
use crate::catalog::{CatalogError, CatalogView};
use crate::changeset::ChangeSetView;
use crate::resolve::{
    changes_from_compare, compare_outcome, opt_text, CompareReport, CompareReportView, CompareSkip,
    MAX_COMPARE_COMMITS,
};
use crate::webhook::{SyncConfig, SyncJob};

verus! {

/// One entry of a repository's tag list, newest first.
#[derive(Debug, Clone)]
pub struct TagInfo {
    pub name: Option<String>,
}

pub open spec fn tag_views(tags: Seq<TagInfo>) -> Seq<Option<Seq<char>>> {
    tags.map_values(|t: TagInfo| opt_text(t.name))
}

/// The name of the newest tag: the first entry's, if it has one.
pub open spec fn latest_tag_of(tags: Seq<Option<Seq<char>>>) -> Option<Seq<char>> {
    if tags.len() > 0 {
        tags[0]
    } else {
        None
    }
}

/// The name of the newest tag of a tag list.
pub fn latest_tag(tags: &Vec<TagInfo>) -> (r: Option<String>)
    ensures
        opt_text(r) == latest_tag_of(tag_views(tags@)),
{
    if tags.len() == 0 {
        return None;
    }
    match &tags[0].name {
        Some(n) => Some(n.clone()),
        None => None,
    }
}

/// Where the sweep stands for its current repository.
#[derive(Debug, Clone, Copy, PartialEq, Eq, Structural)]
pub enum Phase {
    /// Waiting for the repository's tag list.
    Tags,
    /// Waiting for the comparison of the newest tag with the branch.
    Compare,
    /// Waiting for the repository's synchronisation to finish.
    Sync,
    /// Every repository has been seen.
    Done,
}

/// What the outside world reports back to the sweep.
pub enum SweepEvent {
    /// The tag list, or `None` where it could not be fetched or read.
    TagsFetched(Option<Vec<TagInfo>>),
    /// The comparison, or `None` where it could not be fetched or read.
    Compared(Option<CompareReport>),
    /// The synchronisation asked for has run.
    Synchronized,
}

pub ghost enum SweepEventView {
    TagsFetched(Option<Seq<Option<Seq<char>>>>),
    Compared(Option<CompareReportView>),
    Synchronized,
}

impl View for SweepEvent {
    type V = SweepEventView;

    open spec fn view(&self) -> SweepEventView {
        match self {
            SweepEvent::TagsFetched(None) => SweepEventView::TagsFetched(None),
            SweepEvent::TagsFetched(Some(t)) => SweepEventView::TagsFetched(Some(tag_views(t@))),
            SweepEvent::Compared(None) => SweepEventView::Compared(None),
            SweepEvent::Compared(Some(c)) => SweepEventView::Compared(Some(c@)),
            SweepEvent::Synchronized => SweepEventView::Synchronized,
        }
    }
}

/// What the sweep asks the outside world to do next.
pub enum SweepAction {
    /// List the repository's tags.
    FetchTags { repository: String },
    /// Compare the ref `base` of the repository with `head`.
    FetchCompare { repository: String, base: String, head: String },
    /// Synchronise a repository.
    Synchronize(SyncJob),
    /// The sweep is over.
    Finish,
}

pub ghost enum SweepActionView {
    FetchTags { repository: Seq<char> },
    FetchCompare { repository: Seq<char>, base: Seq<char>, head: Seq<char> },
    Synchronize { repository: Seq<char>, prefix: Seq<char>, dest: Seq<char>, changes: ChangeSetView },
    Finish,
}

impl View for SweepAction {
    type V = SweepActionView;

    open spec fn view(&self) -> SweepActionView {
        match self {
            SweepAction::FetchTags { repository } => SweepActionView::FetchTags { repository: repository@ },
            SweepAction::FetchCompare { repository, base, head } => SweepActionView::FetchCompare {
                repository: repository@,
                base: base@,
                head: head@,
            },
            SweepAction::Synchronize(job) => SweepActionView::Synchronize {
                repository: job.repository@,
                prefix: job.mapping.source_prefix@,
                dest: job.mapping.dest_subfolder@,
                changes: job.changes@,
            },
            SweepAction::Finish => SweepActionView::Finish,
        }
    }
}

/// Why a repository was passed over; for the server's log.
#[derive(Debug, Clone, Copy, PartialEq, Eq, Structural)]
pub enum SweepNotice {
    /// The tag list could not be fetched or read.
    TagsUnavailable,
    /// The repository has no tag to compare from.
    NoTag,
    /// The comparison could not be fetched or read.
    CompareUnavailable,
    /// The comparison gives nothing to synchronise, or too much.
    Skipped(CompareSkip),
    /// The repository is not fully described by the catalog.
    Catalog(CatalogError),
    /// The event does not answer the action last asked for.
    UnexpectedEvent,
}

/// The next action, and a notice where a repository was passed over.
pub struct SweepStep {
    pub action: SweepAction,
    pub notice: Option<SweepNotice>,
}

/// A sweep in progress over the catalog's repositories.
pub struct Sweep {
    repositories: Vec<String>,
    index: usize,
    phase: Phase,
}

pub ghost struct SweepView {
    pub repositories: Seq<Seq<char>>,
    pub index: int,
    pub phase: Phase,
}

impl View for Sweep {
    type V = SweepView;

    closed spec fn view(&self) -> SweepView {
        SweepView { repositories: self.repositories.deep_view(), index: self.index as int, phase: self.phase }
    }
}

impl SweepView {
    pub open spec fn wf(self) -> bool {
        &&& 0 <= self.index <= self.repositories.len()
        &&& self.phase != Phase::Done ==> self.index < self.repositories.len()
    }

    /// On to the next repository, or the end of the sweep.
    pub open spec fn advance(self) -> (SweepView, SweepActionView) {
        if self.index + 1 < self.repositories.len() {
            (
                SweepView { index: self.index + 1, phase: Phase::Tags, ..self },
                SweepActionView::FetchTags { repository: self.repositories[self.index + 1] },
            )
        } else {
            (
                SweepView { index: self.repositories.len() as int, phase: Phase::Done, ..self },
                SweepActionView::Finish,
            )
        }
    }

    /// One step of the sweep: the next state, the next action, and a notice
    /// where the current repository is passed over.
    pub open spec fn next(self, catalog: CatalogView, branch: Seq<char>, event: SweepEventView) -> (
        SweepView,
        SweepActionView,
        Option<SweepNotice>,
    ) {
        let name = self.repositories[self.index];
        let skip = |n: SweepNotice| (self.advance().0, self.advance().1, Some(n));
        match (self.phase, event) {
            (Phase::Done, _) => (self, SweepActionView::Finish, None),
            (Phase::Tags, SweepEventView::TagsFetched(None)) => skip(SweepNotice::TagsUnavailable),
            (Phase::Tags, SweepEventView::TagsFetched(Some(tags))) => match latest_tag_of(tags) {
                None => skip(SweepNotice::NoTag),
                Some(tag) => (
                    SweepView { phase: Phase::Compare, ..self },
                    SweepActionView::FetchCompare { repository: name, base: tag, head: branch },
                    None,
                ),
            },
            (Phase::Compare, SweepEventView::Compared(None)) => skip(SweepNotice::CompareUnavailable),
            (Phase::Compare, SweepEventView::Compared(Some(report))) => match catalog.lookup(name) {
                Err(e) => skip(SweepNotice::Catalog(e)),
                Ok((prefix, dest)) => match compare_outcome(report, prefix) {
                    Err(k) => skip(SweepNotice::Skipped(k)),
                    Ok(changes) => (
                        SweepView { phase: Phase::Sync, ..self },
                        SweepActionView::Synchronize { repository: name, prefix, dest, changes },
                        None,
                    ),
                },
            },
            (Phase::Sync, SweepEventView::Synchronized) => (self.advance().0, self.advance().1, None),
            _ => skip(SweepNotice::UnexpectedEvent),
        }
    }
}

pub open spec fn action_wf(a: SweepAction) -> bool {
    match a {
        SweepAction::Synchronize(job) => job.changes.wf(),
        _ => true,
    }
}

impl Sweep {
    pub closed spec fn wf(&self) -> bool {
        self@.wf()
    }

    fn advance(&mut self) -> (r: SweepAction)
        requires
            old(self).wf(),
            old(self)@.phase != Phase::Done,
        ensures
            final(self).wf(),
            (final(self)@, r@) == old(self)@.advance(),
            final(self)@.repositories == old(self)@.repositories,
    {
        assert(self.repositories.deep_view().len() == self.repositories@.len());
        let n = self.repositories.len();
        if self.index + 1 < n {
            self.index = self.index + 1;
            self.phase = Phase::Tags;
            SweepAction::FetchTags { repository: self.repositories[self.index].clone() }
        } else {
            self.index = self.repositories.len();
            self.phase = Phase::Done;
            SweepAction::Finish
        }
    }

    /// Starts a sweep over the repositories of the catalog, in the order of
    /// their first entry.
    pub fn start(config: &SyncConfig) -> (r: (Sweep, SweepAction))
        ensures
            r.0.wf(),
            r.0@.repositories.no_duplicates(),
            r.0@.repositories.to_set() == config.catalog@.prefixes.dom(),
            r.0@.index == 0,
            r.0@.repositories.len() == 0 ==> r.0@.phase == Phase::Done && r.1@ == SweepActionView::Finish,
            r.0@.repositories.len() > 0 ==> r.0@.phase == Phase::Tags && r.1@ == (SweepActionView::FetchTags {
                repository: r.0@.repositories[0],
            }),
    {
        let repositories = config.catalog.repositories();
        if repositories.len() == 0 {
            (Sweep { repositories, index: 0, phase: Phase::Done }, SweepAction::Finish)
        } else {
            let first = repositories[0].clone();
            (Sweep { repositories, index: 0, phase: Phase::Tags }, SweepAction::FetchTags { repository: first })
        }
    }

    /// Takes the outcome of the last action and returns the next one.
    pub fn step(&mut self, config: &SyncConfig, event: SweepEvent) -> (r: SweepStep)
        requires
            old(self).wf(),
        ensures
            final(self).wf(),
            (final(self)@, r.action@, r.notice) == old(self)@.next(config.catalog@, config.branch@, event@),
            action_wf(r.action),
    {
        if self.phase == Phase::Done {
            return SweepStep { action: SweepAction::Finish, notice: None };
        }
        let ghost start = self@;
        match event {
            SweepEvent::TagsFetched(tags) => {
                if self.phase != Phase::Tags {
                    let action = self.advance();
                    return SweepStep { action, notice: Some(SweepNotice::UnexpectedEvent) };
                }
                let tags = match tags {
                    None => {
                        let action = self.advance();
                        return SweepStep { action, notice: Some(SweepNotice::TagsUnavailable) };
                    },
                    Some(t) => t,
                };
                match latest_tag(&tags) {
                    None => {
                        let action = self.advance();
                        SweepStep { action, notice: Some(SweepNotice::NoTag) }
                    },
                    Some(tag) => {
                        self.phase = Phase::Compare;
                        let repository = self.repositories[self.index].clone();
                        SweepStep {
                            action: SweepAction::FetchCompare { repository, base: tag, head: config.branch.clone() },
                            notice: None,
                        }
                    },
                }
            },
            SweepEvent::Compared(report) => {
                if self.phase != Phase::Compare {
                    let action = self.advance();
                    return SweepStep { action, notice: Some(SweepNotice::UnexpectedEvent) };
                }
                let report = match report {
                    None => {
                        let action = self.advance();
                        return SweepStep { action, notice: Some(SweepNotice::CompareUnavailable) };
                    },
                    Some(c) => c,
                };
                let mapping = match config.catalog.lookup(self.repositories[self.index].as_str()) {
                    Err(e) => {
                        let action = self.advance();
                        return SweepStep { action, notice: Some(SweepNotice::Catalog(e)) };
                    },
                    Ok(m) => m,
                };
                match changes_from_compare(&report, mapping.source_prefix.as_str()) {
                    Err(k) => {
                        let action = self.advance();
                        SweepStep { action, notice: Some(SweepNotice::Skipped(k)) }
                    },
                    Ok(changes) => {
                        self.phase = Phase::Sync;
                        let repository = self.repositories[self.index].clone();
                        SweepStep {
                            action: SweepAction::Synchronize(SyncJob { repository, mapping, changes }),
                            notice: None,
                        }
                    },
                }
            },
            SweepEvent::Synchronized => {
                if self.phase != Phase::Sync {
                    let action = self.advance();
                    return SweepStep { action, notice: Some(SweepNotice::UnexpectedEvent) };
                }
                let action = self.advance();
                SweepStep { action, notice: None }
            },
        }
    }
}

/// A repository whose comparison reports more commits than the sweep takes
/// on is passed over with a notice and nothing to synchronise, and the sweep
/// goes on to the next repository.
pub proof fn lemma_too_many_commits_skipped(
    catalog: CatalogView,
    branch: Seq<char>,
    state: SweepView,
    report: CompareReportView,
)
    requires
        state.wf(),
        state.phase == Phase::Compare,
        catalog.lookup(state.repositories[state.index]) is Ok,
        report.status == Some("ahead"@),
        report.total_commits is Some,
        report.total_commits->Some_0 > MAX_COMPARE_COMMITS,
    ensures
        state.next(catalog, branch, SweepEventView::Compared(Some(report))) == (
            state.advance().0,
            state.advance().1,
            Some(SweepNotice::Skipped(CompareSkip::TooManyCommits)),
        ),
        state.index + 1 < state.repositories.len() ==> state.advance().1 == (SweepActionView::FetchTags {
            repository: state.repositories[state.index + 1],
        }),
{
}

} // verus!
