use keepassrx::rx::entropy::{zxcvbn_input, PasswordQuality};
use keepassrx::gui::database::{
    companion_key_file_name, last_db_candidate, KeyFileAction, LastDbAction, RxUiDatabaseState, SessionKeys,
};
use keepassrx::gui::migration::{doubled_data_dir, entry_move, old_db_move, DestState};
use std::rc::Rc;
use keepassrx::gui::colors::{ColorPacket, ColorType};
use keepassrx::gui::container_stack::RxUiContainerStack;
use keepassrx::gui::icons::{decimal_string, to_builtin_icon as gui_builtin_icon};
use keepassrx::gui::list_item::{entry_count_len, RxItemType, RxListItem};
use keepassrx::gui::models::RxUiFeature;
use keepassrx::gui::utils::{app_data_path_under, db_path_under, join_path};
use keepassrx::gui::{
    database_listing, entries_search_term, import_destination, ImportError, RxDbType, RxGuiState, RxViewMode,
};
use keepassrx::rx::icons::to_builtin_icon as kpxc_builtin_icon;
use keepassrx::rx::into_container::finite_below_check;
use keepassrx::rx::rx_container::RxContainedRef;
use keepassrx::rx::rx_db::{RxDatabase, RxMetadata};
use keepassrx::rx::rx_entry::{RxEntry, RxIcon};
use keepassrx::rx::rx_group::RxGroup;
use keepassrx::rx::source::{KeePassEntry, KeePassField, KeePassGroup, KeePassValue};
use keepassrx::rx::virtual_hierarchy::{DefaultView, RxViewFeature};

fn field(name: &str, value: &str) -> KeePassField {
    KeePassField { name: name.to_string(), value: KeePassValue::Unprotected(value.to_string()) }
}

fn entry(uuid: u128, fields: Vec<KeePassField>) -> KeePassEntry {
    KeePassEntry {
        uuid,
        fields,
        custom_data: vec![],
        tags: vec![],
        icon_id: None,
        custom_icon: None,
        is_expired: false,
        password_is_weak: false,
        attachments: vec![],
    }
}

fn group(uuid: u128, name: &str, groups: Vec<KeePassGroup>, entries: Vec<KeePassEntry>) -> KeePassGroup {
    KeePassGroup { uuid, name: name.to_string(), icon_id: None, has_custom_icon: false, groups, entries }
}

fn metadata() -> RxMetadata {
    RxMetadata { color: None, name: None, icon: None, recycle_bin_uuid: None }
}

#[test]
fn db_type_names_round_trip() {
    for t in [RxDbType::Imported, RxDbType::Synced] {
        assert_eq!(RxDbType::from_str(t.to_string().as_str()).ok(), Some(t));
    }
    assert_eq!(RxDbType::Imported.to_string(), "Imported");
    let err = RxDbType::from_str("Elsewhere").unwrap_err();
    assert_eq!(err.value, "Elsewhere");
}

#[test]
fn state_and_mode_names_round_trip() {
    for s in [RxGuiState::NotOpen, RxGuiState::Open, RxGuiState::Locked] {
        assert_eq!(RxGuiState::from_name(s.to_name().as_str()), s);
    }
    for m in [RxViewMode::All, RxViewMode::Templates, RxViewMode::Totp, RxViewMode::Tags] {
        assert_eq!(RxViewMode::from_name(m.to_name().as_str()), m);
    }
    for t in [RxItemType::Entry, RxItemType::Group, RxItemType::Template, RxItemType::Tag] {
        assert_eq!(RxItemType::from_name(t.to_name().as_str()), t);
    }
    assert_eq!(RxViewMode::Totp.to_name(), "Totp");
    assert_eq!(RxUiFeature::from_name(RxUiFeature::DisplayTwoFactorAuth.to_string().as_str()), RxUiFeature::DisplayTwoFactorAuth);
    assert_eq!(ColorType::from_name(ColorType::Light.to_string().as_str()), ColorType::Light);
    assert_eq!(RxViewFeature::DisplayTwoFactorAuth.to_string(), "DisplayTwoFactorAuth");
}

#[test]
fn listing_keeps_database_files_sorted_by_folded_name() {
    let imported = vec!["zeta.kdbx".to_string(), "notes.txt".to_string(), "Alpha.kdb".to_string()];
    let synced = vec!["beta.KDBX".to_string(), "gamma.kdbx".to_string()];
    let listing = database_listing(&imported, &synced);
    let names: Vec<(String, RxDbType)> = listing.into_iter().map(|d| (d.name, d.db_type)).collect();
    assert_eq!(
        names,
        vec![
            ("Alpha.kdb".to_string(), RxDbType::Imported),
            ("gamma.kdbx".to_string(), RxDbType::Synced),
            ("zeta.kdbx".to_string(), RxDbType::Imported),
        ]
    );
}

#[test]
fn listing_keeps_order_of_equal_folded_names() {
    let imported = vec!["Same.kdbx".to_string()];
    let synced = vec!["same.kdbx".to_string()];
    let listing = database_listing(&imported, &synced);
    assert_eq!(listing.len(), 2);
    assert_eq!(listing[0].db_type, RxDbType::Imported);
    assert_eq!(listing[1].db_type, RxDbType::Synced);
}

#[test]
fn import_destination_joins_file_name() {
    let (name, dest) = import_destination("/home/user/Downloads/pw.kdbx", "/data/imported").unwrap();
    assert_eq!(name, "pw.kdbx");
    assert_eq!(dest, "/data/imported/pw.kdbx");
}

#[test]
fn import_destination_errors() {
    assert_eq!(import_destination("/", "/data/imported").unwrap_err(), ImportError::NoFileName);
    assert_eq!(import_destination("/data/imported/pw.kdbx", "/data/imported").unwrap_err(), ImportError::SameFile);
}

#[test]
fn blank_search_terms_are_dropped() {
    assert_eq!(entries_search_term("   "), None);
    assert_eq!(entries_search_term(""), None);
    assert_eq!(entries_search_term(" mail"), Some(" mail".to_string()));
}

#[test]
fn data_paths_under_a_directory() {
    assert_eq!(join_path("/a/b", "c"), "/a/b/c");
    assert_eq!(join_path("/a/b/", "c"), "/a/b/c");
    assert_eq!(join_path("/a/b", "/c"), "/c");
    assert_eq!(app_data_path_under("/home/u/.local/share"), "/home/u/.local/share/keepassrx.projectmoon");
    assert_eq!(
        db_path_under("/home/u/.local/share", RxDbType::Imported),
        "/home/u/.local/share/keepassrx.projectmoon/imported"
    );
    assert_eq!(
        db_path_under("/home/u/.local/share", RxDbType::Synced),
        "/home/u/.local/share/keepassrx.projectmoon/synced"
    );
}

#[test]
fn decimal_text_of_numbers() {
    assert_eq!(decimal_string(0), "0");
    assert_eq!(decimal_string(58), "58");
    assert_eq!(decimal_string(1234567), "1234567");
}

#[test]
fn builtin_icon_files() {
    let files = ["C00_Password.svg", "C01_Package_Network.svg", "C12_Exit.svg", "C1_Other.svg"];
    assert_eq!(gui_builtin_icon(12, &files), Some("C12_Exit.svg".to_string()));
    assert_eq!(gui_builtin_icon(1, &files), Some("C12_Exit.svg".to_string()));
    assert_eq!(gui_builtin_icon(7, &files), None);

    let table: Vec<String> = (0..70).map(|i| format!("icon{i}.svg")).collect();
    let refs: Vec<&str> = table.iter().map(|s| s.as_str()).collect();
    assert_eq!(kpxc_builtin_icon(3, &refs), Some("icon3.svg".to_string()));
    assert_eq!(kpxc_builtin_icon(58, &refs), Some("icon58.svg".to_string()));
    assert_eq!(kpxc_builtin_icon(59, &refs), Some("icon60.svg".to_string()));
    assert_eq!(kpxc_builtin_icon(69, &refs), None);
}

#[test]
fn color_packet_keeps_its_values() {
    let p = ColorPacket::new("#ff0000".to_string(), ColorType::Dark);
    assert_eq!(p.get_background_color(), "#ff0000");
    assert_eq!(p.get_text_color_type(), ColorType::Dark);
}

#[test]
fn entry_count_starts_with_the_number() {
    let text = entry_count_len(12);
    assert!(text.starts_with("12 "));
    assert!(text.len() > 3);
}

#[test]
fn entry_rows_show_title_user_and_masked_password() {
    let e = entry(
        11,
        vec![field("Title", "Gmail"), field("UserName", "alice"), field("Password", "pw"), field("URL", "gmail.com")],
    );
    let rx = RxEntry::new(&e, 1);
    let item = RxListItem::init_from(&RxContainedRef::Entry(Rc::new(rx)), &[]);
    assert_eq!(item.item_type, RxItemType::Entry);
    assert_eq!(item.title, "Gmail");
    assert_eq!(item.subtitle, "alice");
    assert_eq!(item.url, "gmail.com");
    assert_eq!(item.description, "••••••");
    assert_eq!(item.entry_uuid, "00000000-0000-0000-0000-00000000000b");
    assert_eq!(item.parent_uuid, "00000000-0000-0000-0000-000000000001");
    assert!(item.has_username && item.has_password && item.has_url && !item.has_totp);
    assert_eq!(item.feature, RxViewFeature::NoFeature);

    let bare = RxEntry::new(&entry(12, vec![field("otp", "otpauth://totp/x?secret=JBSWY3DPEHPK3PXP")]), 1);
    let item = RxListItem::init_from(&RxContainedRef::Entry(Rc::new(bare)), &[]);
    assert_eq!(item.title, "(Untitled)");
    assert_eq!(item.subtitle, "");
    assert_eq!(item.description, "");
    assert!(item.has_totp);
    assert_eq!(item.feature, RxViewFeature::DisplayTwoFactorAuth);
}

#[test]
fn refilled_rows_report_exactly_the_changed_fields() {
    let first = RxEntry::new(&entry(11, vec![field("Title", "Gmail"), field("URL", "gmail.com")]), 1);
    let second = RxEntry::new(&entry(11, vec![field("Title", "Mail"), field("URL", "gmail.com")]), 1);
    let mut item = RxListItem::for_virtual_root(&"Root".to_string());
    let changes = item.update_from(&RxContainedRef::Entry(Rc::new(first)), &[]);
    assert!(changes.item_type && changes.entry_uuid && changes.title && changes.url && changes.has_url);
    assert!(!changes.has_password && !changes.feature && !changes.description);
    let changes = item.update_from(&RxContainedRef::Entry(Rc::new(second)), &[]);
    assert!(changes.title);
    assert!(!changes.item_type && !changes.entry_uuid && !changes.url && !changes.subtitle && !changes.has_url);
    assert_eq!(item.title, "Mail");
    let tag_like = RxGroup {
        uuid: 2,
        parent: None,
        name: "Mail".to_string(),
        icon: RxIcon::NoIcon,
        subgroups: vec![],
        entries: vec![],
    };
    let changes = item.update_from(&RxContainedRef::Group(Rc::new(tag_like)), &[]);
    assert!(changes.item_type && changes.entry_uuid && changes.subtitle && !changes.title && !changes.url);
    assert_eq!(item.url, "gmail.com");
}

#[test]
fn group_rows_count_entries_and_subgroups() {
    let g = RxGroup {
        uuid: 2,
        parent: Some(1),
        name: "Email".to_string(),
        icon: RxIcon::Builtin(3),
        subgroups: vec![5],
        entries: vec![11, 12],
    };
    let files = ["zero.svg", "one.svg", "two.svg", "three.svg"];
    let item = RxListItem::init_from(&RxContainedRef::Group(Rc::new(g)), &files);
    assert_eq!(item.item_type, RxItemType::Group);
    assert_eq!(item.title, "Email");
    assert_eq!(item.subtitle, "Group");
    assert!(item.description.starts_with("3 "));
    assert_eq!(item.icon_path, "three.svg");
    assert!(item.icon_builtin);
}

#[test]
fn virtual_root_row_and_feature_restriction() {
    let mut item = RxListItem::for_virtual_root(&"Root".to_string());
    assert_eq!(item.title, "Root");
    assert_eq!(item.entry_uuid, "00000000-0000-0000-0000-000000000000");
    assert_eq!(item.description, "");
    item.feature = RxViewFeature::DisplayTwoFactorAuth;
    assert!(item.restrict_feature(RxViewFeature::NoFeature));
    assert_eq!(item.feature, RxViewFeature::NoFeature);
    assert!(!item.restrict_feature(RxViewFeature::NoFeature));
}

#[test]
fn opening_and_closing_a_container_restores_the_stack() {
    let root = group(1, "Root", vec![group(2, "Email", vec![], vec![])], vec![]);
    let db = RxDatabase::new(&root, metadata());
    let root_group = db.root_group();
    assert!(finite_below_check(&db, &root_group, db.all_groups().len() + 1));
    let view = DefaultView::new(&db);
    let mut stack = RxUiContainerStack::new();
    stack.init_from_view(view.root(), RxViewFeature::NoFeature);
    assert_eq!(stack.container_name, "Root");
    assert!(stack.is_at_root(view.root().uuid()));

    let ev = stack.push_container(view.root(), RxViewFeature::NoFeature, 2);
    assert_eq!(ev.container_changed, Some(2));
    assert!(ev.name_changed);
    assert!(ev.at_root_changed);
    assert_eq!(stack.container_name, "Email");
    assert_eq!(stack.get_current_container(), "00000000-0000-0000-0000-000000000002");

    let ev = stack.pop_container(view.root(), RxViewFeature::NoFeature);
    assert_eq!(ev.container_changed, Some(1));
    assert_eq!(stack.container_name, "Root");
    assert!(stack.container_stack.is_empty());
    assert!(ev.at_root_changed);

    let ev = stack.push_container(view.root(), RxViewFeature::NoFeature, 99);
    assert_eq!(ev.container_changed, None);
    assert!(stack.container_stack.is_empty());
    let ev = stack.pop_container(view.root(), RxViewFeature::NoFeature);
    assert_eq!(ev.container_changed, None);
}

#[test]
fn view_mode_changes_are_reported() {
    let mut stack = RxUiContainerStack::new();
    assert_eq!(stack.get_view_mode(), RxViewMode::All);
    assert!(stack.set_view_mode(RxViewMode::Tags));
    assert!(!stack.set_view_mode(RxViewMode::Tags));
    assert_eq!(stack.get_view_mode(), RxViewMode::Tags);
}

#[test]
fn companion_key_files_of_databases() {
    assert_eq!(companion_key_file_name("passwords.kdbx"), Some("passwords.key".to_string()));
    assert_eq!(companion_key_file_name("a.kdbx.kdbx"), Some("a.key".to_string()));
    assert_eq!(companion_key_file_name("plain"), Some("plain.key".to_string()));
    assert_eq!(companion_key_file_name(".kdbx"), None);
    assert_eq!(companion_key_file_name(""), None);
}

#[test]
fn last_database_candidates() {
    assert!(matches!(last_db_candidate(None, Some("Synced")), Ok(None)));
    let (name, ty) = last_db_candidate(Some("a.kdbx"), None).unwrap().unwrap();
    assert_eq!((name.as_str(), ty), ("a.kdbx", RxDbType::Imported));
    let (_, ty) = last_db_candidate(Some("a.kdbx"), Some("Synced")).unwrap().unwrap();
    assert_eq!(ty, RxDbType::Synced);
    assert_eq!(last_db_candidate(Some("a.kdbx"), Some("Cloud")).unwrap_err().value, "Cloud");
}

#[test]
fn database_chooser_state() {
    let mut st = RxUiDatabaseState::from_last_db(Some("a.kdbx".to_string()), Some("nonsense".to_string()));
    assert_eq!(st.database_name, "a.kdbx");
    assert_eq!(st.database_type, RxDbType::Imported);
    assert!(st.last_db_set);
    assert!(matches!(st.last_db_action(), LastDbAction::Write(n, RxDbType::Imported) if n == "a.kdbx"));
    assert!(!st.update_last_db_set());
    st.database_name = String::new();
    assert!(st.update_last_db_set());
    assert!(!st.last_db_set);
    assert!(matches!(st.last_db_action(), LastDbAction::Clear));
    assert!(st.set_last_db_set(true));
    assert!(!st.set_last_db_set(true));

    st.database_name = "vault.kdbx".to_string();
    assert_eq!(st.key_file_candidate("/sync"), None);
    st.database_type = RxDbType::Synced;
    assert_eq!(st.key_file_candidate("/sync"), Some("/sync/vault.key".to_string()));
    assert!(st.key_file_found());
    assert!(!st.key_file_found());
    assert!(st.key_file_read(true));
    let ev = st.clear_key_file();
    assert!(ev.key_file_set_changed && ev.key_file_detected_changed && !ev.last_db_set_changed);
    assert!(!st.key_file_set && !st.key_file_detected);
    let ev = st.clear_key_file();
    assert!(!ev.key_file_set_changed && !ev.key_file_detected_changed);

    let fresh = RxUiDatabaseState::from_last_db(None, None);
    assert_eq!(fresh.database_name, "");
    assert!(!fresh.last_db_set);
}

#[test]
fn migration_paths() {
    let (from, to) = old_db_move("/home/u/.local/share");
    assert_eq!(from, "/home/u/.local/share/keepassrx.projectmoon/db.kdbx");
    assert_eq!(to, "/home/u/.local/share/keepassrx.projectmoon/imported/db.kdbx");
    assert_eq!(
        doubled_data_dir("/home/u/.local/share"),
        "/home/u/.local/share/keepassrx.projectmoon/keepassrx.projectmoon"
    );
    let m = entry_move("/d", "imported", DestState::Directory);
    assert_eq!(m.dest, "/d/keepassrx.projectmoon/imported");
    assert!(m.remove_dir_first && !m.remove_file_first);
    let m = entry_move("/d", "last-db", DestState::File);
    assert!(!m.remove_dir_first && m.remove_file_first);
    let m = entry_move("/d", "x", DestState::Missing);
    assert!(!m.remove_dir_first && !m.remove_file_first);
}

#[test]
fn entry_details_list_present_fields() {
    let e = RxEntry::new(
        &entry(
            11,
            vec![field("Title", "Gmail"), field("Password", "pw"), field("Extra", "x"), field("otp", "not a url")],
        ),
        1,
    );
    let d = e.details();
    let names: Vec<&str> = d.fields.iter().map(|(n, _)| n.as_str()).collect();
    assert_eq!(names, vec!["uuid", "title", "password"]);
    assert_eq!(d.fields[0].1, "00000000-0000-0000-0000-00000000000b");
    assert_eq!(d.fields[1].1, "Gmail");
    assert_eq!(d.icon_path, "");
    assert!(!d.has_totp);
    assert_eq!(d.custom_fields.len(), 1);
    assert_eq!(d.custom_fields[0].name, "Extra");
    assert_eq!(d.custom_fields[0].value, "x");
    assert!(!d.custom_fields[0].is_hidden_by_default);
    assert!(e.details_with_totp(true).has_totp);
}

#[test]
fn estimator_input_and_quality_words() {
    assert_eq!(zxcvbn_input("test password"), "test password");
    assert_eq!(zxcvbn_input("ab\0cd"), "ab");
    assert_eq!(zxcvbn_input(""), "");
    let long: String = std::iter::repeat('ä').take(300).collect();
    assert_eq!(zxcvbn_input(&long).chars().count(), 256);
    assert_eq!(PasswordQuality::Bad.word(), "Poor");
    assert_eq!(PasswordQuality::Poor.word(), "Poor");
    assert_eq!(PasswordQuality::Excellent.word(), "Excellent");
    assert_eq!(PasswordQuality::Weak.to_string(), "Weak");
}

#[test]
fn companion_key_files_are_loaded_or_all_keys_forgotten() {
    let mut state = RxUiDatabaseState {
        database_name: "vault.kdbx".to_string(),
        database_type: RxDbType::Synced,
        last_db_set: false,
        key_file_set: false,
        key_file_detected: false,
    };
    let mut keys = SessionKeys::new();
    let (action, ev) = state.detect_key_file(&mut keys, Some("/data/synced"), true);
    match action {
        KeyFileAction::Load(p) => assert_eq!(p, "/data/synced/vault.key"),
        KeyFileAction::Cleared => panic!("expected a key file to load"),
    }
    assert!(state.key_file_detected && ev.key_file_detected_changed && !state.key_file_set);
    assert!(state.use_key_file_bytes(&mut keys, Some(vec![1, 2, 3])));
    assert!(state.key_file_set);
    assert_eq!(keys.db_key.as_ref().unwrap().bytes_unencrypted(), Some(vec![1, 2, 3]));

    let (action, ev) = state.detect_key_file(&mut keys, Some("/data/synced"), false);
    assert!(matches!(action, KeyFileAction::Cleared));
    assert!(ev.key_file_set_changed && ev.key_file_detected_changed);
    assert!(!state.key_file_set && !state.key_file_detected);
    assert!(keys.db_key.is_none() && keys.master_key.is_none());

    state.database_type = RxDbType::Imported;
    let (action, _) = state.detect_key_file(&mut keys, Some("/data/imported"), true);
    assert!(matches!(action, KeyFileAction::Cleared));
}

#[test]
fn messages_handed_to_the_translator() {
    let m = PasswordQuality::Good.message();
    assert_eq!(m.context, Some("Password strength"));
    assert_eq!(m.id, "Good");
    let i = keepassrx::gui::instructions::instructions_message(
        &keepassrx::rx::virtual_hierarchy::RxViewFeature::DisplayTwoFactorAuth,
    )
    .unwrap();
    assert_eq!(i.context, None);
    assert_eq!(i.id, keepassrx::gui::instructions::TWO_FACTOR_AUTH_VIEW_INSTRUCTIONS);
    assert!(keepassrx::gui::instructions::instructions_message(
        &keepassrx::rx::virtual_hierarchy::RxViewFeature::NoFeature
    )
    .is_none());
}
