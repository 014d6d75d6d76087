use keepassrx::gui::attachments::{
    convert_attachment, convert_attachments, export_plan, is_inside_dir, percent_encode_file_path,
    sanitize_export_file_name, unique_export_path_at, view_attachment, view_type_for_attachment,
    AttachmentViewError, entry_attachments, view_entry_attachment, EntryAttachmentError,
};
use keepassrx::rx::rx_db::{RxDatabase, RxMetadata};
use keepassrx::rx::source::{KeePassAttachment, KeePassEntry, KeePassGroup};

const PNG: [u8; 12] = [0x89, 0x50, 0x4E, 0x47, 0x0D, 0x0A, 0x1A, 0x0A, 0, 0, 0, 13];

#[test]
fn export_names_drop_reserved_and_surrounding_characters() {
    assert_eq!(sanitize_export_file_name("a/b\\c:d*e?f\"g<h>i|j"), "a_b_c_d_e_f_g_h_i_j");
    assert_eq!(sanitize_export_file_name("  ..notes.txt..  "), "notes.txt");
    assert_eq!(sanitize_export_file_name("tab\there"), "tab_here");
    assert_eq!(sanitize_export_file_name("..."), "attachment");
    assert_eq!(sanitize_export_file_name(""), "attachment");
    assert_eq!(sanitize_export_file_name(" \t "), "_");
    let long: String = std::iter::repeat('x').take(200).collect();
    assert_eq!(sanitize_export_file_name(&long).chars().count(), 180);
    assert_eq!(sanitize_export_file_name("ünïcode ✓"), "ünïcode ✓");
}

#[test]
fn file_urls_percent_encode_unsafe_bytes() {
    assert_eq!(percent_encode_file_path(b"/tmp/a-b_c.d~e"), "file:///tmp/a-b_c.d~e");
    assert_eq!(percent_encode_file_path(b"/tmp/my file.txt"), "file:///tmp/my%20file.txt");
    assert_eq!(percent_encode_file_path("/ü".as_bytes()), "file:///%C3%BC");
    assert_eq!(percent_encode_file_path(b""), "file://");
}

#[test]
fn view_types_of_attachment_bytes() {
    assert_eq!(view_type_for_attachment(b"plain words"), "text");
    assert_eq!(view_type_for_attachment(&PNG), "image");
    assert_eq!(view_type_for_attachment(b"<?xml version=\"1.0\"?>"), "text");
    assert_eq!(view_type_for_attachment(&[0xff, 0xfe, 0xfd]), "");
    assert_eq!(view_type_for_attachment(b"%PDF-1.4 xyz"), "");
}

#[test]
fn attachments_as_listed() {
    let a = convert_attachment("notes.txt", Some(b"hello"));
    assert_eq!(a.attachment_name, "notes.txt");
    assert_eq!(a.attachment_size, 5);
    assert_eq!(a.attachment_mime_type, "text/plain");
    assert_eq!(a.attachment_view_type, "text");

    let img = convert_attachment("pic", Some(&PNG));
    assert_eq!(img.attachment_mime_type, "image/png");
    assert_eq!(img.attachment_view_type, "image");

    let bin = convert_attachment("bin", Some(&[0xff, 0xfe]));
    assert_eq!(bin.attachment_mime_type, "unknown");
    assert_eq!(bin.attachment_view_type, "");

    let unreadable = convert_attachment("gone", None);
    assert_eq!(unreadable.attachment_size, 0);
    assert_eq!(unreadable.attachment_mime_type, "unknown");
    assert_eq!(unreadable.attachment_view_type, "");

    let all = convert_attachments(&vec![("b".to_string(), Some(b"x".to_vec())), ("a".to_string(), None)]);
    assert_eq!(all.len(), 2);
    assert_eq!(all[0].attachment_name, "b");
    assert_eq!(all[1].attachment_name, "a");
}

#[test]
fn viewing_attachments() {
    let text = view_attachment("notes.txt", b"hello").unwrap();
    assert!(text.can_view);
    assert_eq!(text.view_type, "text");
    assert_eq!(text.mime_type, "text/plain");
    assert_eq!(text.text, "hello");
    assert_eq!(text.file_name, "notes.txt");

    let img = view_attachment("a/b.png", &PNG).unwrap();
    assert!(img.can_view);
    assert_eq!(img.view_type, "image");
    assert_eq!(img.file_name, "a_b.png");
    assert!(img.data_url.starts_with("data:image/png;base64,iVBORw0KGgo"));
    assert_eq!(img.text, "");

    let pdf = view_attachment("doc.pdf", b"%PDF-1.4 xyz").unwrap();
    assert!(!pdf.can_view);
    assert_eq!(pdf.mime_type, "application/pdf");

    let bin = view_attachment("bin", &[0xff, 0xfe]).unwrap();
    assert!(!bin.can_view);
    assert_eq!(bin.mime_type, "");

    let mut bad_xml = b"<?xml ".to_vec();
    bad_xml.push(0xff);
    assert_eq!(view_attachment("x.xml", &bad_xml).err(), Some(AttachmentViewError::UndecodableText));
}

#[test]
fn export_paths_and_plans() {
    assert_eq!(unique_export_path_at("/data/exports", 1234, "a.txt"), "/data/exports/1234_a.txt");
    let plan = export_plan("/data/exports", "my notes?.txt");
    assert_eq!(plan.file_name, "my notes_.txt");
    assert!(plan.path.starts_with("/data/exports/"));
    assert!(plan.path.ends_with("_my notes_.txt"));
    assert_eq!(plan.url, format!("file://{}", plan.path.replace(' ', "%20")));
}

#[test]
fn paths_inside_the_export_directory() {
    assert!(is_inside_dir("/data/exports/1_a.txt", "/data/exports"));
    assert!(is_inside_dir("/data/exports/", "/data/exports"));
    assert!(!is_inside_dir("/data/exports2/1_a.txt", "/data/exports"));
    assert!(!is_inside_dir("/data", "/data/exports"));
}

fn db_with_attachments() -> RxDatabase {
    let e = KeePassEntry {
        uuid: 11,
        fields: vec![],
        custom_data: vec![],
        tags: vec![],
        icon_id: None,
        custom_icon: None,
        is_expired: false,
        password_is_weak: false,
        attachments: vec![
            KeePassAttachment { name: "notes.txt".to_string(), data: b"hello".to_vec() },
            KeePassAttachment { name: "logo.png".to_string(), data: PNG.to_vec() },
        ],
    };
    let root = KeePassGroup {
        uuid: 1,
        name: "Root".to_string(),
        icon_id: None,
        has_custom_icon: false,
        groups: vec![],
        entries: vec![e],
    };
    RxDatabase::new(&root, RxMetadata { color: None, name: None, icon: None, recycle_bin_uuid: None })
}

#[test]
fn entry_attachments_are_looked_up_by_entry_and_name() {
    let db = db_with_attachments();
    let uuid = "00000000-0000-0000-0000-00000000000b";
    let text = view_entry_attachment(&db, uuid, "notes.txt").expect("view");
    assert!(text.can_view);
    assert_eq!(text.view_type, "text");
    assert_eq!(text.text, "hello");
    let image = view_entry_attachment(&db, uuid, "logo.png").expect("view");
    assert_eq!(image.view_type, "image");
    assert!(matches!(view_entry_attachment(&db, "nope", "notes.txt"), Err(EntryAttachmentError::BadUuid)));
    assert!(matches!(
        view_entry_attachment(&db, "00000000-0000-0000-0000-00000000000c", "notes.txt"),
        Err(EntryAttachmentError::EntryNotFound)
    ));
    assert!(matches!(view_entry_attachment(&db, uuid, "other"), Err(EntryAttachmentError::AttachmentNotFound)));
    let rows = entry_attachments(&db, uuid).expect("rows");
    assert_eq!(rows.len(), 2);
    assert_eq!(rows[0].attachment_name, "notes.txt");
    assert_eq!(rows[0].attachment_size, 5);
    assert!(entry_attachments(&db, "00000000-0000-0000-0000-00000000000c").unwrap().is_empty());
    assert!(entry_attachments(&db, "nope").is_none());
}

#[test]
fn data_url_encodes_in_standard_base64() {
    assert_eq!(keepassrx::rx::icons::data_url_string("text/plain", b"Man"), "data:text/plain;base64,TWFu");
    assert_eq!(keepassrx::rx::icons::data_url_string("text/plain", b"Ma"), "data:text/plain;base64,TWE=");
    assert_eq!(keepassrx::rx::icons::data_url_string("text/plain", b"M"), "data:text/plain;base64,TQ==");
    assert_eq!(keepassrx::rx::icons::data_url_string("a/b", &[0xfb, 0xff]), "data:a/b;base64,+/8=");
}
