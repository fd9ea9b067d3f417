use site_sync::changeset::{ChangeSet, PathSet};
use site_sync::resolve::{
    changes_from_commits, changes_from_compare, changes_from_files, Commit, CompareReport, CompareSkip,
    ComparedFile,
};

fn strings(v: &[&str]) -> Vec<String> {
    v.iter().map(|s| s.to_string()).collect()
}

fn sorted(p: &PathSet) -> Vec<String> {
    let mut v = p.to_vec();
    v.sort();
    v
}

fn commit(added: &[&str], modified: &[&str], removed: &[&str]) -> Commit {
    Commit { added: strings(added), modified: strings(modified), removed: strings(removed) }
}

fn file(name: &str, status: &str) -> ComparedFile {
    ComparedFile { filename: Some(name.to_string()), status: Some(status.to_string()) }
}

#[test]
fn commits_filtered_by_prefix() {
    let commits = vec![commit(&["static/a.png", "src/main.rs"], &["README.md"], &["static/old.png", "other/x"])];
    let c = changes_from_commits(&commits, "static/");
    assert_eq!(sorted(&c.added), strings(&["static/a.png"]));
    assert!(sorted(&c.modified).is_empty());
    assert_eq!(sorted(&c.removed), strings(&["static/old.png"]));
}

#[test]
fn commits_union_in_order() {
    let commits = vec![
        commit(&["static/a"], &[], &[]),
        commit(&["static/a", "static/b"], &["static/c"], &["static/a"]),
    ];
    let c = changes_from_commits(&commits, "static/");
    assert_eq!(sorted(&c.added), strings(&["static/a", "static/b"]));
    assert_eq!(sorted(&c.modified), strings(&["static/c"]));
    assert_eq!(sorted(&c.removed), strings(&["static/a"]));
    assert_eq!(c.added.len(), 2);
}

#[test]
fn empty_commit_list() {
    let c = changes_from_commits(&vec![], "static/");
    assert_eq!(c.counts(), (0, 0));
}

#[test]
fn modified_in_both_lists() {
    let mut c = ChangeSet::new();
    c.added.insert("static/n".to_string());
    c.modified.insert("static/m".to_string());
    c.removed.insert("static/r".to_string());
    let mut d = c.deletion_list();
    d.sort();
    let mut a = c.addition_list();
    a.sort();
    assert_eq!(d, strings(&["static/m", "static/r"]));
    assert_eq!(a, strings(&["static/m", "static/n"]));
    assert_eq!(c.counts(), (2, 2));
}

#[test]
fn compare_files_classified() {
    let files = vec![
        file("static/a", "added"),
        file("static/r", "removed"),
        file("static/m", "modified"),
        file("static/n", "renamed"),
        file("lib/x", "added"),
        ComparedFile { filename: Some("static/s".to_string()), status: None },
        ComparedFile { filename: None, status: Some("added".to_string()) },
    ];
    let c = changes_from_files(&files, "static/");
    assert_eq!(sorted(&c.added), strings(&["static/a"]));
    assert_eq!(sorted(&c.removed), strings(&["static/r"]));
    assert_eq!(sorted(&c.modified), strings(&["static/m", "static/n"]));
}

fn report(status: Option<&str>, total: Option<u64>, files: Option<Vec<ComparedFile>>) -> CompareReport {
    CompareReport { status: status.map(|s| s.to_string()), total_commits: total, files }
}

#[test]
fn compare_skips() {
    let r = changes_from_compare(&report(None, Some(1), None), "static/");
    assert_eq!(r.err(), Some(CompareSkip::StatusMissing));
    let r = changes_from_compare(&report(Some("identical"), Some(0), None), "static/");
    assert_eq!(r.err(), Some(CompareSkip::NotAhead));
    let r = changes_from_compare(&report(Some("behind"), Some(3), None), "static/");
    assert_eq!(r.err(), Some(CompareSkip::NotAhead));
    let r = changes_from_compare(&report(Some("ahead"), None, None), "static/");
    assert_eq!(r.err(), Some(CompareSkip::CommitCountMissing));
}

#[test]
fn compare_commit_ceiling() {
    let files = Some(vec![file("static/a", "added")]);
    let r = changes_from_compare(&report(Some("ahead"), Some(400), files.clone()), "static/");
    assert_eq!(r.err(), Some(CompareSkip::TooManyCommits));
    let r = changes_from_compare(&report(Some("ahead"), Some(251), files.clone()), "static/");
    assert_eq!(r.err(), Some(CompareSkip::TooManyCommits));
    let c = changes_from_compare(&report(Some("ahead"), Some(250), files.clone()), "static/").ok().unwrap();
    assert_eq!(sorted(&c.added), strings(&["static/a"]));
}

#[test]
fn compare_without_file_list_is_empty() {
    let c = changes_from_compare(&report(Some("ahead"), Some(2), None), "static/").ok().unwrap();
    assert_eq!(c.counts(), (0, 0));
}
