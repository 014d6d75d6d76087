use keepassrx::rx::kdbx::{
    collect_passwords, find_saved_search_text, load_database, read_kdbx, KdbxContents, KdbxEntry, KdbxGroup, LoadError,
};
use keepassrx::rx::rx_entry::RxValue;
use keepassrx::rx::source::{KeePassCustomItem, KeePassField, KeePassValue};

#[test]
fn unreadable_database_bytes_are_refused() {
    assert!(matches!(read_kdbx(b"not a database", Some("pw"), None), Err(LoadError::CannotOpen)));
    assert!(matches!(read_kdbx(&[], None, Some(b"key")), Err(LoadError::CannotOpen)));
}

fn raw_entry(uuid: u128, password: Option<&str>, expires: bool, expiry_time: i64) -> KdbxEntry {
    KdbxEntry {
        uuid,
        fields: password
            .map(|p| vec![KeePassField { name: "Password".to_string(), value: KeePassValue::Protected(p.as_bytes().to_vec()) }])
            .unwrap_or_default(),
        custom_data: vec![],
        tags: vec![],
        icon_id: None,
        custom_icon: None,
        expires,
        expiry_time,
        attachments: vec![],
    }
}

fn contents() -> KdbxContents {
    KdbxContents {
        root: KdbxGroup {
            uuid: 1,
            name: "Root".to_string(),
            icon_id: None,
            has_custom_icon: false,
            groups: vec![KdbxGroup {
                uuid: 2,
                name: "Mail".to_string(),
                icon_id: Some(19),
                has_custom_icon: false,
                groups: vec![],
                entries: vec![raw_entry(11, Some("abc"), true, 100)],
            }],
            entries: vec![raw_entry(12, None, true, 300)],
        },
        public_custom_data: vec![("KPXC_PUBLIC_NAME".to_string(), "String(\"Vault\")".to_string())],
        recycle_bin: Some(7),
        custom_data: vec![KeePassCustomItem {
            key: "KPXC_SavedSearch".to_string(),
            value: Some(KeePassValue::Unprotected(r#"{"Weak":"is:weak"}"#.to_string())),
        }],
    }
}

#[test]
fn loads_contents_with_metadata_saved_searches_and_judgements() {
    let c = contents();
    let mut passwords = Vec::new();
    collect_passwords(&c.root, &mut passwords);
    assert_eq!(passwords, vec![(11, Some("abc".to_string())), (12, None)]);

    let loaded = load_database(c, 200, &vec![11]);
    assert_eq!(loaded.db.all_groups().len(), 2);
    assert_eq!(loaded.db.metadata().name.as_deref(), Some("Vault"));
    assert_eq!(loaded.db.metadata().recycle_bin_uuid, Some(7));
    assert_eq!(loaded.saved_searches.len(), 1);
    assert_eq!(loaded.saved_searches[0].name, "Weak");
    assert_eq!(loaded.saved_searches[0].query, "is:weak");
    let e11 = loaded.db.get_entry(11).unwrap();
    assert!(e11.is_expired() && e11.weak_password);
    let e12 = loaded.db.get_entry(12).unwrap();
    assert!(!e12.is_expired() && !e12.weak_password);
}

#[test]
fn saved_search_text_needs_a_string_value() {
    let items = vec![KeePassCustomItem { key: "KPXC_SavedSearch".to_string(), value: Some(KeePassValue::Bytes(vec![1])) }];
    assert_eq!(find_saved_search_text(&items), None);
    assert_eq!(find_saved_search_text(&vec![]), None);
}

fn is_empty_value(v: &RxValue) -> bool {
    match v {
        RxValue::Protected(b) | RxValue::Sensitive(b) => b.is_empty(),
        RxValue::Unprotected(t) => t.is_empty(),
        RxValue::CurrentTotp(t) => t.code.is_empty() && t.valid_for.is_empty(),
        RxValue::Unsupported => true,
    }
}

#[test]
fn closing_wipes_every_secret() {
    let mut c = contents();
    c.root.entries[0].fields.push(KeePassField { name: "Title".to_string(), value: KeePassValue::Unprotected("Bank".to_string()) });
    let mut loaded = load_database(c, 200, &vec![]);
    let shared = loaded.db.close();
    assert_eq!(shared, 0);
    assert_eq!(loaded.db.all_entries().len(), 2);
    for e in loaded.db.all_entries() {
        assert!(e.title.as_ref().map(is_empty_value).unwrap_or(true));
        assert!(e.password.as_ref().map(is_empty_value).unwrap_or(true));
    }
    for g in loaded.db.all_groups() {
        assert!(g.name.is_empty());
    }
}
