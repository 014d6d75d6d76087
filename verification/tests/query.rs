use keepassrx::rx::keepass_query;
use keepassrx::rx::kpxc_search;
use keepassrx::rx::rx_db::{RxDatabase, RxMetadata};
use keepassrx::rx::source::{KeePassEntry, KeePassField, KeePassGroup, KeePassValue};

fn field(name: &str, value: &str) -> KeePassField {
    KeePassField { name: name.to_string(), value: KeePassValue::Unprotected(value.to_string()) }
}

fn entry(uuid: u128, fields: Vec<KeePassField>) -> KeePassEntry {
    KeePassEntry {
        uuid,
        fields,
        custom_data: vec![],
        tags: vec![],
        icon_id: None,
        custom_icon: None,
        is_expired: false,
        password_is_weak: false,
        attachments: vec![],
    }
}

fn group(uuid: u128, name: &str, groups: Vec<KeePassGroup>, entries: Vec<KeePassEntry>) -> KeePassGroup {
    KeePassGroup { uuid, name: name.to_string(), icon_id: None, has_custom_icon: false, groups, entries }
}

fn metadata() -> RxMetadata {
    RxMetadata { color: None, name: None, icon: None, recycle_bin_uuid: None }
}

fn test_db() -> RxDatabase {
    let entry1 = entry(11, vec![field("Title", "Gmail"), field("UserName", "alice"), field("URL", "gmail.com")]);
    let entry2 = entry(12, vec![field("Title", "GitLab"), field("UserName", "bob")]);
    let child = group(2, "Email", vec![], vec![entry1]);
    let root = group(1, "Root", vec![child], vec![entry2]);
    RxDatabase::new(&root, metadata())
}

#[test]
fn keepass_query_field_query_matches_expected_entry() {
    let db = test_db();
    let results = keepass_query::evaluate_saved_search(&db, "title:Gmail user:alice");
    assert_eq!(results.len(), 1);
}

#[test]
fn keepass_query_negated_query_filters_entries() {
    let db = test_db();
    let results = keepass_query::evaluate_saved_search(&db, "title:Git -user:bob");
    assert_eq!(results.len(), 0);
}

#[test]
fn kpxc_search_field_query_matches_expected_entry() {
    let db = test_db();
    let results = kpxc_search::evaluate_saved_search(&db, "title:Gmail user:alice");
    assert_eq!(results.len(), 1);
}

#[test]
fn kpxc_search_negated_query_filters_entries() {
    let db = test_db();
    let results = kpxc_search::evaluate_saved_search(&db, "title:Git -user:bob");
    assert_eq!(results.len(), 0);
}

#[test]
fn query_results_follow_database_order() {
    let db = test_db();
    // Entries are stored below-first: the Email group's entry, then the root's.
    let results = keepass_query::evaluate_saved_search(&db, "g");
    assert_eq!(results, vec![11, 12]);
}

#[test]
fn empty_query_finds_nothing() {
    let db = test_db();
    assert!(keepass_query::evaluate_saved_search(&db, "   ").is_empty());
    assert!(kpxc_search::evaluate_saved_search(&db, "").is_empty());
}

#[test]
fn group_operator_matches_group_name() {
    let db = test_db();
    assert_eq!(keepass_query::evaluate_saved_search(&db, "group:email"), vec![11]);
    assert_eq!(kpxc_search::evaluate_saved_search(&db, "g:ROOT"), vec![12]);
}

#[test]
fn regex_terms_match_case_insensitively() {
    let db = test_db();
    assert_eq!(keepass_query::evaluate_saved_search(&db, "*title:^git"), vec![12]);
    // A pattern that does not compile matches nothing.
    assert!(keepass_query::evaluate_saved_search(&db, "*title:(").is_empty());
}

#[test]
fn uuid_field_uses_hyphenated_form() {
    let db = test_db();
    let q = "uuid:00000000-0000-0000-0000-00000000000b";
    assert_eq!(keepass_query::evaluate_saved_search(&db, q), vec![11]);
}

#[test]
fn tokenize_handles_quotes_and_escapes() {
    let toks = keepass_query::tokenize(r#"title:"two words" \"x\" a\b "#);
    assert_eq!(toks, vec!["title:two words".to_string(), "\"x\"".to_string(), "a\\b".to_string()]);
}

#[test]
fn parse_token_reads_modifiers_and_fields() {
    let t = keepass_query::parse_token("-*Title:abc").expect("parses");
    assert_eq!(t.field.as_deref(), Some("title"));
    assert_eq!(t.term, "abc");
    assert!(t.is_regex && t.is_negated);
    let t = keepass_query::parse_token(":abc").expect("parses");
    assert_eq!(t.field, None);
    assert_eq!(t.term, ":abc");
    assert!(keepass_query::parse_token("+-").is_none());
    assert!(keepass_query::parse_token("title:").is_none());
}
