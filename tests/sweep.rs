use site_sync::catalog::{Catalog, CatalogError};
use site_sync::remote::{compare_url, raw_content_url, tags_url};
use site_sync::resolve::{CompareReport, CompareSkip, ComparedFile};
use site_sync::sweep::{latest_tag, Sweep, SweepAction, SweepEvent, SweepNotice, TagInfo};
use site_sync::webhook::SyncConfig;

fn config() -> SyncConfig {
    SyncConfig {
        secret: b"s".to_vec(),
        bearer: b"b".to_vec(),
        branch: "main".to_string(),
        catalog: Catalog::from_tables("org/big;static/|org/small;public/|org/lost;x/", "org/big;big|org/small;small"),
    }
}

fn tags(name: &str) -> SweepEvent {
    SweepEvent::TagsFetched(Some(vec![TagInfo { name: Some(name.to_string()) }, TagInfo { name: Some("old".to_string()) }]))
}

fn compared(total: u64) -> SweepEvent {
    SweepEvent::Compared(Some(CompareReport {
        status: Some("ahead".to_string()),
        total_commits: Some(total),
        files: Some(vec![ComparedFile { filename: Some("public/a.html".to_string()), status: Some("added".to_string()) }]),
    }))
}

fn expect_fetch_tags(a: &SweepAction, repo: &str) {
    match a {
        SweepAction::FetchTags { repository } => assert_eq!(repository, repo),
        _ => panic!("expected a tag listing"),
    }
}

#[test]
fn too_many_commits_skips_repository_and_continues() {
    let cfg = config();
    let (mut sweep, first) = Sweep::start(&cfg);
    expect_fetch_tags(&first, "org/big");
    let s = sweep.step(&cfg, tags("v1.0"));
    match &s.action {
        SweepAction::FetchCompare { repository, base, head } => {
            assert_eq!(repository, "org/big");
            assert_eq!(base, "v1.0");
            assert_eq!(head, "main");
        },
        _ => panic!("expected a comparison"),
    }
    let s = sweep.step(&cfg, compared(400));
    assert_eq!(s.notice, Some(SweepNotice::Skipped(CompareSkip::TooManyCommits)));
    expect_fetch_tags(&s.action, "org/small");

    sweep.step(&cfg, tags("v2"));
    let s = sweep.step(&cfg, compared(3));
    assert_eq!(s.notice, None);
    match &s.action {
        SweepAction::Synchronize(job) => {
            assert_eq!(job.repository, "org/small");
            assert_eq!(job.changes.added.to_vec(), vec!["public/a.html".to_string()]);
        },
        _ => panic!("expected a synchronisation"),
    }
    let s = sweep.step(&cfg, SweepEvent::Synchronized);
    expect_fetch_tags(&s.action, "org/lost");
    sweep.step(&cfg, tags("v3"));
    let s = sweep.step(&cfg, compared(1));
    assert_eq!(s.notice, Some(SweepNotice::Catalog(CatalogError::NoDestination)));
    assert!(matches!(s.action, SweepAction::Finish));
    let s = sweep.step(&cfg, SweepEvent::Synchronized);
    assert!(matches!(s.action, SweepAction::Finish));
}

#[test]
fn failed_requests_skip_repository() {
    let cfg = config();
    let (mut sweep, _) = Sweep::start(&cfg);
    let s = sweep.step(&cfg, SweepEvent::TagsFetched(None));
    assert_eq!(s.notice, Some(SweepNotice::TagsUnavailable));
    expect_fetch_tags(&s.action, "org/small");
    let s = sweep.step(&cfg, SweepEvent::TagsFetched(Some(vec![])));
    assert_eq!(s.notice, Some(SweepNotice::NoTag));
    expect_fetch_tags(&s.action, "org/lost");
    sweep.step(&cfg, tags("v1"));
    let s = sweep.step(&cfg, SweepEvent::Compared(None));
    assert_eq!(s.notice, Some(SweepNotice::CompareUnavailable));
    assert!(matches!(s.action, SweepAction::Finish));
}

#[test]
fn unexpected_event_moves_on() {
    let cfg = config();
    let (mut sweep, _) = Sweep::start(&cfg);
    let s = sweep.step(&cfg, SweepEvent::Synchronized);
    assert_eq!(s.notice, Some(SweepNotice::UnexpectedEvent));
    expect_fetch_tags(&s.action, "org/small");
}

#[test]
fn not_ahead_is_skipped() {
    let cfg = config();
    let (mut sweep, _) = Sweep::start(&cfg);
    sweep.step(&cfg, tags("v1"));
    let s = sweep.step(
        &cfg,
        SweepEvent::Compared(Some(CompareReport { status: Some("identical".to_string()), total_commits: Some(0), files: None })),
    );
    assert_eq!(s.notice, Some(SweepNotice::Skipped(CompareSkip::NotAhead)));
    expect_fetch_tags(&s.action, "org/small");
}

#[test]
fn empty_catalog_finishes_at_once() {
    let cfg = SyncConfig { secret: vec![], bearer: vec![], branch: "main".to_string(), catalog: Catalog::from_tables("", "") };
    let (_, a) = Sweep::start(&cfg);
    assert!(matches!(a, SweepAction::Finish));
}

#[test]
fn latest_tag_is_first_entry() {
    assert_eq!(latest_tag(&vec![TagInfo { name: Some("v9".to_string()) }, TagInfo { name: Some("v8".to_string()) }]), Some("v9".to_string()));
    assert_eq!(latest_tag(&vec![TagInfo { name: None }, TagInfo { name: Some("v8".to_string()) }]), None);
    assert_eq!(latest_tag(&vec![]), None);
}

#[test]
fn remote_addresses() {
    assert_eq!(raw_content_url("org/repo", "main", "static/a.png"), "https://raw.githubusercontent.com/org/repo/main/static/a.png");
    assert_eq!(tags_url("org/repo"), "https://api.github.com/repos/org/repo/tags");
    assert_eq!(compare_url("org/repo", "v1.0", "main"), "https://api.github.com/repos/org/repo/compare/v1.0...main");
}
