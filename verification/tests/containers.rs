use std::rc::Rc;
use keepassrx::rx::into_container::finite_below_check;
use keepassrx::rx::rx_container::{sort_contained_refs, RxContainedRef, RxContainer};
use keepassrx::rx::rx_db::{RxDatabase, RxMetadata};
use keepassrx::rx::rx_group::RxSavedSearch;
use keepassrx::rx::search::RxSearchType;
use keepassrx::rx::source::{KeePassEntry, KeePassField, KeePassGroup, KeePassValue};
use keepassrx::rx::virtual_hierarchy::{AllTags, AllTemplates, DefaultView, RxViewFeature, TotpEntries};

fn field(name: &str, value: &str) -> KeePassField {
    KeePassField { name: name.to_string(), value: KeePassValue::Unprotected(value.to_string()) }
}

fn entry(uuid: u128, fields: Vec<KeePassField>) -> KeePassEntry {
    KeePassEntry {
        uuid,
        fields,
        custom_data: vec![],
        tags: vec![],
        icon_id: None,
        custom_icon: None,
        is_expired: false,
        password_is_weak: false,
        attachments: vec![],
    }
}

fn group(uuid: u128, name: &str, groups: Vec<KeePassGroup>, entries: Vec<KeePassEntry>) -> KeePassGroup {
    KeePassGroup { uuid, name: name.to_string(), icon_id: None, has_custom_icon: false, groups, entries }
}

fn metadata() -> RxMetadata {
    RxMetadata { color: None, name: None, icon: None, recycle_bin_uuid: None }
}

fn uuid_of(s: &str) -> u128 {
    uuid::Uuid::parse_str(s).expect("bad uuid").as_u128()
}

fn default_view(db: &RxDatabase) -> DefaultView {
    let root = db.root_group();
    assert!(finite_below_check(db, &root, db.all_groups().len() + 1));
    DefaultView::new(db)
}

fn title_for(item: &RxContainedRef) -> String {
    item.name()
}

#[test]
fn default_view_orders_groups_before_entries_and_names_case_insensitively() {
    let root = group(
        1,
        "Root",
        vec![group(2, "bravo", vec![], vec![]), group(3, "charlie", vec![], vec![])],
        vec![entry(10, vec![field("Title", "zebra")]), entry(11, vec![field("Title", "Alpha")])],
    );
    let rx_db = RxDatabase::new(&root, metadata());
    let view = default_view(&rx_db);
    let results = view.search(RxSearchType::CaseInsensitive, view.root().uuid(), None);
    let names: Vec<_> = results.iter().map(title_for).collect();

    assert_eq!(names, vec!["bravo", "charlie", "Alpha", "zebra"]);
}

#[test]
fn default_view_uses_uuid_tiebreaker_for_duplicate_names() {
    let first = RxContainedRef::SavedSearch(Rc::new(RxSavedSearch::new(
        "same".into(),
        "query-b".into(),
        vec![],
    )));
    let second = RxContainedRef::SavedSearch(Rc::new(RxSavedSearch::new(
        "same".into(),
        "query-a".into(),
        vec![],
    )));

    let mut items = vec![first, second];
    sort_contained_refs(&mut items);
    let uuids: Vec<_> = items.iter().map(RxContainedRef::uuid).collect();

    assert!(uuids[0] < uuids[1]);
}

#[test]
fn loads_recursively() {
    let group_id = 100;
    let subgroup_id = 101;
    let entry_id = 200;
    let sub_entry_id = 201;
    let subgroup = group(
        subgroup_id,
        "subgroupname",
        vec![],
        vec![entry(sub_entry_id, vec![field("SubTite", "sub entry")])],
    );
    let root = group(
        group_id,
        "groupname",
        vec![subgroup],
        vec![entry(entry_id, vec![field("Tite", "top-level entry")])],
    );

    let rx_db = RxDatabase::new(&root, metadata());
    let rx_root = rx_db.root_group();

    assert_eq!(rx_db.all_groups().len(), 2);
    assert_eq!(rx_db.all_entries().len(), 2);

    assert_eq!(rx_root.entries.len(), 1);
    assert_eq!(rx_root.entries, vec![entry_id]);
    assert_eq!(rx_root.subgroups.len(), 1);
    assert_eq!(rx_root.uuid, group_id);
    assert_eq!(rx_root.subgroups, vec![subgroup_id]);

    let rx_subgroup = rx_db.get_group(subgroup_id).expect("Could not find subgroup in DB");

    assert_eq!(rx_subgroup.uuid, subgroup_id);
    assert_eq!(rx_subgroup.entries, vec![sub_entry_id]);
}

fn template_db() -> (RxDatabase, u128) {
    let template_uuid = uuid_of("8e4ff17c-a985-4e50-abde-e641783464ca");
    let e = entry(5, vec![field("_etm_template_uuid", "8e4ff17c-a985-4e50-abde-e641783464ca")]);
    let g = group(1, "groupname", vec![], vec![e]);
    (RxDatabase::new(&g, metadata()), template_uuid)
}

#[test]
fn rx_db_finds_templates() {
    let (db, template_uuid) = template_db();
    assert_eq!(db.all_templates().len(), 1);
    assert!(db.get_template(template_uuid).is_some());
}

#[test]
fn rx_loader_finds_templates() {
    let (db, template_uuid) = template_db();
    assert_eq!(db.all_templates().len(), 1);
    assert!(db.all_templates().iter().any(|t| t.uuid == template_uuid));
}

#[test]
fn finds_entries_in_group() {
    let group_uuid = uuid_of("133b7912-7705-4967-bc6e-807761ba9479");
    let entry_uuid = uuid_of("d7e5dcb1-1e36-4b2a-9468-74f699809c1d");
    let g = group(group_uuid, "asdf", vec![], vec![entry(entry_uuid, vec![])]);
    let db = RxDatabase::new(&g, metadata());

    let entries = db.get_entries(group_uuid, None);
    assert!(entries.len() > 0);
    assert_eq!(entries[0].uuid, entry_uuid);
}

#[test]
fn search_entries_in_root_group() {
    let group_uuid = uuid_of("133b7912-7705-4967-bc6e-807761ba9479");
    let entry_uuid1 = uuid_of("d7e5dcb1-1e36-4b2a-9468-74f699809c1d");
    let entry_uuid2 = uuid_of("3c79f95c-842a-4e70-aed9-6cb7d128b01e");
    let g = group(
        group_uuid,
        "asdf",
        vec![],
        vec![
            entry(entry_uuid1, vec![field("Title", "test title")]),
            entry(entry_uuid2, vec![field("Title", "should not show up")]),
        ],
    );
    let db = RxDatabase::new(&g, metadata());

    let entries = db.get_entries(group_uuid, Some("test"));

    assert!(entries.len() == 1, "expected 1 entry, but got {}", entries.len());
    assert_eq!(entries[0].uuid, entry_uuid1);
}

fn sample_db() -> RxDatabase {
    let mut work = entry(20, vec![field("Title", "Work Mail"), field("UserName", "Alice")]);
    work.tags = vec!["work".to_string(), "mail".to_string()];
    let mut bank = entry(21, vec![field("Title", "Bank"), field("otp", "otpauth://totp/x?secret=ABC")]);
    bank.tags = vec!["work".to_string()];
    let home = entry(22, vec![field("Title", "home router")]);
    let inner = group(3, "Inner", vec![], vec![home]);
    let sub = group(2, "Sub", vec![inner], vec![bank]);
    let root = group(1, "Root", vec![sub], vec![work]);
    RxDatabase::new(&root, metadata())
}

#[test]
fn default_view_search_is_case_insensitive_and_filters() {
    let db = sample_db();
    let view = default_view(&db);
    let hits = view.search(RxSearchType::CaseInsensitive, view.root().uuid(), Some("ALICE"));
    let names: Vec<_> = hits.iter().map(title_for).collect();
    assert_eq!(names, vec!["Work Mail"]);
    let none = view.search(RxSearchType::CaseInsensitive, 999, None);
    assert!(none.is_empty());
}

#[test]
fn default_view_finds_nested_containers() {
    let db = sample_db();
    let view = default_view(&db);
    let inner = view.root().get_container(3).expect("inner group");
    assert_eq!(inner.uuid(), 3);
    let inside: Vec<_> = view
        .search(RxSearchType::Fuzzy, 3, None)
        .iter()
        .map(title_for)
        .collect();
    assert_eq!(inside, vec!["home router"]);
    let below: Vec<u128> = view.root().root_container.child_uuids_recursive().into_iter().collect();
    assert_eq!(below, vec![2, 3, 22, 21, 20]);
}

#[test]
fn recursive_search_lists_everything_below() {
    let db = sample_db();
    let view = default_view(&db);
    let all: Vec<_> = view
        .root()
        .root_container
        .search_children_recursive(RxSearchType::CaseInsensitive, 1, None)
        .iter()
        .map(title_for)
        .collect();
    assert_eq!(all, vec!["Inner", "Sub", "Bank", "home router", "Work Mail"]);
    let found: Vec<_> = view
        .root()
        .root_container
        .search_children_recursive(RxSearchType::CaseInsensitive, 1, Some("ROUTER"))
        .iter()
        .map(title_for)
        .collect();
    assert_eq!(found, vec!["home router"]);
}

#[test]
fn totp_view_lists_entries_with_codes() {
    let db = sample_db();
    let view = TotpEntries::new(&db);
    assert!(matches!(view.feature(), RxViewFeature::DisplayTwoFactorAuth));
    let names: Vec<_> = view
        .search(RxSearchType::CaseInsensitive, view.root().uuid(), None)
        .iter()
        .map(title_for)
        .collect();
    assert_eq!(names, vec!["Bank"]);
}

#[test]
fn tags_view_groups_entries_by_tag() {
    let db = sample_db();
    let view = AllTags::new(&db);
    let tags: Vec<_> = view
        .search(RxSearchType::CaseInsensitive, view.root().uuid(), None)
        .iter()
        .map(title_for)
        .collect();
    assert_eq!(tags, vec!["mail", "work"]);
    let work = view
        .search(RxSearchType::CaseInsensitive, view.root().uuid(), Some("work"))
        .remove(0);
    let in_work: Vec<_> = view
        .search(RxSearchType::CaseInsensitive, work.uuid(), None)
        .iter()
        .map(title_for)
        .collect();
    assert_eq!(in_work, vec!["Bank", "Work Mail"]);
}

#[test]
fn templates_view_lists_templates() {
    let (db, template_uuid) = template_db();
    let view = AllTemplates::new(&db);
    let names: Vec<_> = view
        .search(RxSearchType::CaseInsensitive, view.root().uuid(), None)
        .iter()
        .map(RxContainedRef::uuid)
        .collect();
    assert_eq!(names, vec![template_uuid]);
}

#[test]
fn group_filter_keeps_matching_subgroups() {
    let db = sample_db();
    let g = db.get_group_filter_subgroups(1, Some("sub")).expect("group");
    assert_eq!(g.subgroups, vec![2]);
    let g = db.get_group_filter_subgroups(1, Some("nothing")).expect("group");
    assert!(g.subgroups.is_empty());
    assert!(db.get_group_filter_subgroups(77, None).is_none());
}

#[test]
fn cyclic_groups_are_detected() {
    let db = sample_db();
    let root = db.root_group();
    assert!(!finite_below_check(&db, &root, 2));
    assert!(finite_below_check(&db, &root, 3));
    let c = RxContainer::from_entry(db.all_entries()[0].clone());
    assert!(c.children().is_empty());
}
