use site_sync::catalog::RepoMapping;
use site_sync::changeset::{ChangeSet, PathSet};
use site_sync::promote::{plan_promotion, summarize, PassReport};

fn mapping() -> RepoMapping {
    RepoMapping { source_prefix: "static/".to_string(), dest_subfolder: "site".to_string() }
}

#[test]
fn failed_fetch_is_not_promoted() {
    let mut c = ChangeSet::new();
    c.added.insert("static/one.png".to_string());
    c.added.insert("static/two.png".to_string());
    c.added.insert("static/missing.png".to_string());
    let mut staged = PathSet::new();
    staged.insert("static/one.png".to_string());
    staged.insert("static/two.png".to_string());
    let plan = plan_promotion(&c, &mapping(), &staged);
    let mut moved: Vec<(String, String)> = plan.moves.iter().map(|m| (m.staged.clone(), m.target.clone())).collect();
    moved.sort();
    assert_eq!(
        moved,
        vec![
            ("static/one.png".to_string(), "site/one.png".to_string()),
            ("static/two.png".to_string(), "site/two.png".to_string())
        ]
    );
    assert!(plan.deletions.is_empty());
}

#[test]
fn modified_file_is_deleted_then_promoted() {
    let mut c = ChangeSet::new();
    c.modified.insert("static/css/site.css".to_string());
    c.removed.insert("static/gone.js".to_string());
    let mut staged = PathSet::new();
    staged.insert("static/css/site.css".to_string());
    let plan = plan_promotion(&c, &mapping(), &staged);
    let mut del = plan.deletions.clone();
    del.sort();
    assert_eq!(del, vec!["site/css/site.css".to_string(), "site/gone.js".to_string()]);
    assert_eq!(plan.moves.len(), 1);
    assert_eq!(plan.moves[0].target, "site/css/site.css");
}

#[test]
fn round_trip_into_destination() {
    let mut c = ChangeSet::new();
    c.added.insert("static/img/logo.svg".to_string());
    let mut staged = PathSet::new();
    staged.insert("static/img/logo.svg".to_string());
    let plan = plan_promotion(&c, &mapping(), &staged);
    assert_eq!(plan.moves[0].target, "site/img/logo.svg");
}

#[test]
fn summary_counts_successes() {
    assert_eq!(summarize(&vec![true, false, true], &vec![true]), PassReport { removed: 2, promoted: 1 });
    assert_eq!(summarize(&vec![], &vec![false, false]), PassReport { removed: 0, promoted: 0 });
}
