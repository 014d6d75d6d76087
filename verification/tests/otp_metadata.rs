use humanize_duration::prelude::DurationExt;
use keepassrx::rx::metadata::{extract_i32, extract_string, parse_i32, parse_saved_searches};
use keepassrx::rx::otp::OtpError;
use keepassrx::rx::rx_db::{RxDatabase, RxMetadata};
use keepassrx::rx::rx_entry::RxEntry;
use keepassrx::rx::source::{KeePassEntry, KeePassField, KeePassGroup, KeePassValue};

fn field(name: &str, value: &str) -> KeePassField {
    KeePassField { name: name.to_string(), value: KeePassValue::Unprotected(value.to_string()) }
}

fn entry(uuid: u128, fields: Vec<KeePassField>) -> KeePassEntry {
    KeePassEntry {
        uuid,
        fields,
        custom_data: vec![],
        tags: vec![],
        icon_id: None,
        custom_icon: None,
        is_expired: false,
        password_is_weak: false,
        attachments: vec![],
    }
}

fn rx_entry(otp: &str) -> RxEntry {
    RxEntry::new(&entry(11, vec![field("Title", "x"), field("otp", otp)]), 1)
}

fn human(secs: u64) -> String {
    format!("{}", std::time::Duration::from_secs(secs).human(humanize_duration::Truncate::Second))
}

#[test]
fn test_extract_string() {
    let text = String::from(r#"String("value")"#);
    let result = extract_string(text);
    assert!(result.is_some());
    assert_eq!(result, Some(String::from("value")));
}

#[test]
fn extract_string_needs_the_wrapper() {
    assert_eq!(extract_string("value".to_string()), None);
    assert_eq!(extract_string(r#"String("a\"b")"#.to_string()), Some(r#"a\"b"#.to_string()));
}

#[test]
fn extract_i32_reads_signed_numbers() {
    assert_eq!(extract_i32("Int32(42)".to_string()), Some(42));
    assert_eq!(extract_i32("Int32(-7)".to_string()), Some(-7));
    assert_eq!(extract_i32("Int32(x)".to_string()), None);
    assert_eq!(extract_i32("String(\"4\")".to_string()), None);
}

#[test]
fn parse_i32_follows_str_parse() {
    for s in ["0", "+5", "-2147483648", "2147483647", "2147483648", "", "-", "1a", " 1"] {
        assert_eq!(parse_i32(s), s.parse::<i32>().ok(), "{s}");
    }
}

#[test]
fn metadata_from_custom_data() {
    let items = vec![
        ("KPXC_PUBLIC_NAME".to_string(), r#"String("My DB")"#.to_string()),
        ("KPXC_PUBLIC_COLOR".to_string(), r##"String("#ff0000")"##.to_string()),
        ("KPXC_PUBLIC_ICON".to_string(), "Int32(12)".to_string()),
        ("KPXC_PUBLIC_NAME".to_string(), r#"String("Second")"#.to_string()),
    ];
    let m = RxMetadata::from_custom_data(&items, Some(9));
    assert_eq!(m.name, Some("My DB".to_string()));
    assert_eq!(m.color, Some("#ff0000".to_string()));
    assert_eq!(m.icon, Some(12));
    assert_eq!(m.recycle_bin_uuid, Some(9));

    let empty = RxMetadata::from_custom_data(&vec![], None);
    assert_eq!(empty.name, None);
    assert_eq!(empty.icon, None);
}

#[test]
fn saved_searches_keep_string_members() {
    let defs = parse_saved_searches(Some(r#"{"b": "title:x", "n": 3, "a": "user:y"}"#));
    let pairs: Vec<(String, String)> = defs.into_iter().map(|d| (d.name, d.query)).collect();
    assert_eq!(pairs, vec![("a".to_string(), "user:y".to_string()), ("b".to_string(), "title:x".to_string())]);
    assert!(parse_saved_searches(Some("[1, 2]")).is_empty());
    assert!(parse_saved_searches(Some("not json")).is_empty());
    assert!(parse_saved_searches(None).is_empty());
}

#[test]
fn totp_code_at_a_time() {
    let e = rx_entry("otpauth://totp/Test:alice?secret=JBSWY3DPEHPK3PXP&period=30&digits=6&algorithm=SHA1");
    let t = e.totp_at(59).unwrap();
    assert_eq!(t.code, "996554");
    assert_eq!(t.valid_for, human(1));
    let t = e.totp_at(1000).unwrap();
    assert_eq!(t.code, "475209");
    assert_eq!(t.valid_for, human(20));
}

#[test]
fn steam_codes() {
    let e = rx_entry("otpauth://totp/Steam:alice?secret=JBSWY3DPEHPK3PXP&period=30&digits=5&issuer=Steam");
    assert!(e.has_steam_otp());
    assert_eq!(e.steam_otp_digits_at(59), Ok("2YXGV".to_string()));
    assert_eq!(e.totp_at(59).unwrap().code, "2YXGV");

    let plain = rx_entry("otpauth://totp/Test:alice?secret=JBSWY3DPEHPK3PXP");
    assert!(!plain.has_steam_otp());
    assert_eq!(plain.steam_otp_digits_at(59), Err(OtpError::NotSteam));

    let no_secret = rx_entry("otpauth://totp/Steam:alice?issuer=Steam");
    assert_eq!(no_secret.steam_otp_digits_at(59), Err(OtpError::NoSecret));
    let bad_secret = rx_entry("otpauth://totp/Steam:alice?secret=!!!");
    assert_eq!(bad_secret.steam_otp_digits_at(59), Err(OtpError::BadSecret));
    let no_query = rx_entry("otpauth://totp/Steam:alice");
    assert_eq!(no_query.steam_otp_digits_at(59), Err(OtpError::NoQuery));
}

#[test]
fn bad_otp_settings_are_refused() {
    assert!(matches!(rx_entry("not an otp").totp_at(59), Err(OtpError::BadOtp)));
    let none = RxEntry::new(&entry(11, vec![field("Title", "x")]), 1);
    assert!(matches!(none.totp_at(59), Err(OtpError::BadOtp)));
}

#[test]
fn oversized_or_zero_period_totps_are_refused() {
    let wide = rx_entry("otpauth://totp/alice?secret=JBSWY3DPEHPK3PXP&digits=20");
    assert!(matches!(wide.totp(), Err(OtpError::TooManyDigits)));
    let zero = rx_entry("otpauth://totp/alice?secret=JBSWY3DPEHPK3PXP&period=0");
    assert!(matches!(zero.totp(), Err(OtpError::ZeroPeriod)));
    let widest = rx_entry("otpauth://totp/alice?secret=JBSWY3DPEHPK3PXP&digits=19");
    assert_eq!(widest.totp().unwrap().code.len(), 19);
}

#[test]
fn database_totp_lookup_errors() {
    let root = KeePassGroup {
        uuid: 1,
        name: "Root".to_string(),
        icon_id: None,
        has_custom_icon: false,
        groups: vec![],
        entries: vec![entry(11, vec![field("otp", "otpauth://totp/Test:alice?secret=JBSWY3DPEHPK3PXP")])],
    };
    let db = RxDatabase::new(&root, RxMetadata { color: None, name: None, icon: None, recycle_bin_uuid: None });
    assert!(matches!(db.get_totp("not a uuid"), Err(OtpError::BadUuid)));
    assert!(matches!(db.get_totp("00000000-0000-0000-0000-00000000000c"), Err(OtpError::NotFound)));
    let t = db.get_totp("00000000-0000-0000-0000-00000000000b").unwrap();
    assert_eq!(t.code.len(), 8);
}
