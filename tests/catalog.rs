use site_sync::catalog::{parse_table, Catalog, CatalogError};

#[test]
fn parse_table_pairs() {
    let t = parse_table("org/repo;static/|org/other;public/");
    let pairs: Vec<(String, String)> = t.into_iter().map(|e| (e.key, e.value)).collect();
    assert_eq!(
        pairs,
        vec![
            ("org/repo".to_string(), "static/".to_string()),
            ("org/other".to_string(), "public/".to_string())
        ]
    );
}

#[test]
fn parse_table_skips_pieces_without_separator() {
    let t = parse_table("junk||a;b;c|");
    assert_eq!(t.len(), 1);
    assert_eq!(t[0].key, "a");
    assert_eq!(t[0].value, "b;c");
    assert!(parse_table("").is_empty());
}

#[test]
fn later_entry_wins() {
    let c = Catalog::from_tables("r;one/|r;two/", "r;site");
    let m = c.lookup("r").ok().unwrap();
    assert_eq!(m.source_prefix, "two/");
    assert_eq!(m.dest_subfolder, "site");
}

#[test]
fn lookup_errors() {
    let c = Catalog::from_tables("org/repo;static/|org/nodest;x/", "org/repo;site");
    assert_eq!(c.lookup("org/unknown").err(), Some(CatalogError::UnknownRepository));
    assert_eq!(c.lookup("org/nodest").err(), Some(CatalogError::NoDestination));
    assert!(c.lookup("org/repo").is_ok());
}

#[test]
fn repositories_listed_once_in_order() {
    let c = Catalog::from_tables("b;1|a;2|b;3", "");
    assert_eq!(c.repositories(), vec!["b".to_string(), "a".to_string()]);
}
