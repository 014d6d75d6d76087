use keepassrx::mirror::hit_list::{not_found_message, ranked_hits, SourceHits};
use keepassrx::mirror::roots::{ancestor_paths, search_roots};
use keepassrx::mirror::args::{parse_mirror_args_str, MirrorArgsError};
use keepassrx::mirror::expand::{expand, parse_struct_item, use_statements_error};
use keepassrx::mirror::source_file::{struct_fields_in_text, FieldsError};
use keepassrx::mirror::cargo_files::{
    extract_key_from_inline_table, extract_semverish_version, parse_lockfile_package, parse_manifest_dependency,
    text_lines,
};
use keepassrx::mirror::paths::{
    components_of, file_name, file_stem, normalize, package_match_score, path_matches_target_namespace, score_path,
    to_snake_case,
};
use keepassrx::mirror::resolve::{lockfile_package_compatibility, resolve_preferred_package, source_kind, source_specificity};
use keepassrx::mirror::source_hits::{find_struct_fields, is_candidate_file_name, select_source_hit, HitError, SourceItem};
use keepassrx::mirror::PreferredPackage;

fn segs(v: &[&str]) -> Vec<String> {
    v.iter().map(|s| s.to_string()).collect()
}

fn chars(s: &str) -> Vec<char> {
    s.chars().collect()
}

fn text(v: &[char]) -> String {
    v.iter().collect()
}

#[test]
fn scores_expected_paths() {
    let path = "/tmp/vendor/keepass/src/db/types/entry.rs";
    let score = score_path(path, &segs(&["keepass", "db", "Entry"]), "entry", None);

    assert!(score >= 170);
}

#[test]
fn snake_case_handles_camel_case() {
    assert_eq!(to_snake_case("EntryMirror"), "entry_mirror");
    assert_eq!(to_snake_case("URLValue"), "u_r_l_value");
}

#[test]
fn prefers_db_component_over_xml_db_substring_match() {
    let db_path = "/tmp/keepass-0.10.6/src/db/types/entry.rs";
    let xml_db_path = "/tmp/keepass-0.10.6/src/format/xml_db/entry.rs";
    let target = segs(&["keepass", "db", "Entry"]);

    let db_score = score_path(db_path, &target, "entry", None);
    let xml_db_score = score_path(xml_db_path, &target, "entry", None);

    assert!(db_score > xml_db_score);
}

#[test]
fn prefers_selected_registry_version_from_lockfile() {
    let preferred = PreferredPackage {
        name: "keepass".into(),
        version: Some("0.12.4".into()),
        source: Some("registry+https://github.com/rust-lang/crates.io-index".into()),
    };
    let target = segs(&["keepass", "db", "Entry"]);

    let selected = "/tmp/.cargo/registry/src/index.crates.io-xyz/keepass-0.12.4/src/db/types/entry.rs";
    let old = "/tmp/.cargo/registry/src/index.crates.io-xyz/keepass-0.10.6/src/db/types/entry.rs";
    let git = "/tmp/.cargo/git/checkouts/keepass-rs-hash/rev/src/db/types/entry.rs";

    let selected_score = score_path(selected, &target, "entry", Some(&preferred));
    let old_score = score_path(old, &target, "entry", Some(&preferred));
    let git_score = score_path(git, &target, "entry", Some(&preferred));

    assert!(selected_score > old_score);
    assert!(selected_score > git_score);
}

#[test]
fn prefers_locked_git_revision_checkout() {
    let preferred = PreferredPackage {
        name: "keepass".into(),
        version: Some("0.0.0-placeholder-version".into()),
        source: Some(
            "git+https://github.com/sseemayer/keepass-rs?branch=303-kdbx41-support#0e924b43b81878fe310d9c8dd4a7b1779ebadef5"
                .into(),
        ),
    };
    let target = segs(&["keepass", "db", "Entry"]);

    let selected = "/tmp/cargo/git/checkouts/keepass-rs-deb45182a93bbe71/0e924b4/src/db/types/entry.rs";
    let stale = "/tmp/cargo/git/checkouts/keepass-rs-b78f56cfd0c013ed/7528c9d/src/db/types/entry.rs";

    let selected_score = score_path(selected, &target, "entry", Some(&preferred));
    let stale_score = score_path(stale, &target, "entry", Some(&preferred));

    assert!(selected_score > stale_score);
}

#[test]
fn rejects_unrelated_entry_files_early() {
    let preferred = PreferredPackage {
        name: "keepass".into(),
        version: Some("0.12.4".into()),
        source: Some("registry+https://github.com/rust-lang/crates.io-index".into()),
    };
    let target = segs(&["keepass", "db", "Entry"]);

    assert!(path_matches_target_namespace(
        "/tmp/.cargo/registry/src/index.crates.io-xyz/keepass-0.12.4/src/db/types/entry.rs",
        &target,
        Some(&preferred),
    ));
    assert!(!path_matches_target_namespace(
        "/tmp/.cargo/registry/src/index.crates.io-xyz/tar-0.4.45/src/entry.rs",
        &target,
        Some(&preferred),
    ));
    assert!(!path_matches_target_namespace(
        "/tmp/.cargo/registry/src/index.crates.io-xyz/tokio-1.52.2/src/runtime/time_alt/entry.rs",
        &target,
        Some(&preferred),
    ));
}

const LOCKFILE: &str = r#"
[[package]]
name = "other"
version = "1.0.0"
source = "registry+https://example.invalid"

[[package]]
name = "keepass"
version = "0.12.4"
source = "registry+https://github.com/rust-lang/crates.io-index"
"#;

#[test]
fn parses_matching_package_from_lockfile() {
    let package = parse_lockfile_package(LOCKFILE, "keepass").expect("package");
    assert_eq!(package.name, "keepass");
    assert_eq!(package.version.as_deref(), Some("0.12.4"));
    assert_eq!(package.source.as_deref(), Some("registry+https://github.com/rust-lang/crates.io-index"));
    assert!(parse_lockfile_package(LOCKFILE, "missing").is_none());
}

const MANIFEST: &str = r#"
[package]
name = "demo"

[dependencies]
keepass = { version = "0.12.4", features = ["totp"] }
"#;

#[test]
fn parses_manifest_dependency_inline_table() {
    let package = parse_manifest_dependency(MANIFEST, "keepass").expect("package");
    assert_eq!(package.version.as_deref(), Some("0.12.4"));
    assert_eq!(package.source.as_deref(), Some("registry+"));
}

#[test]
fn manifest_dependency_beats_stale_lockfile() {
    let lock = r#"
[[package]]
name = "keepass"
version = "0.8.14"
source = "registry+https://github.com/rust-lang/crates.io-index"
"#;
    let package = resolve_preferred_package(Some(MANIFEST), &vec![lock.to_string()], "keepass").expect("package");
    assert_eq!(package.version.as_deref(), Some("0.12.4"));
    assert_eq!(package.source.as_deref(), Some("registry+https://github.com/rust-lang/crates.io-index"));
}

#[test]
fn merges_manifest_with_more_specific_lockfile_git_source() {
    let manifest = r#"
[package]
name = "demo"

[dependencies]
keepass = { git = "https://github.com/sseemayer/keepass-rs", branch = "303-kdbx41-support" }
"#;
    let lock = r#"
[[package]]
name = "keepass"
version = "0.0.0-placeholder-version"
source = "git+https://github.com/sseemayer/keepass-rs?branch=303-kdbx41-support#0e924b43b81878fe310d9c8dd4a7b1779ebadef5"
"#;
    let package = resolve_preferred_package(Some(manifest), &vec![lock.to_string()], "keepass").expect("package");
    assert_eq!(package.version.as_deref(), Some("0.0.0-placeholder-version"));
    assert_eq!(
        package.source.as_deref(),
        Some("git+https://github.com/sseemayer/keepass-rs?branch=303-kdbx41-support#0e924b43b81878fe310d9c8dd4a7b1779ebadef5")
    );
}

#[test]
fn finds_struct_fields_in_nested_module() {
    let items = vec![SourceItem::Module {
        items: Some(vec![SourceItem::Struct {
            name: "Entry".to_string(),
            named_fields: Some(vec!["alpha".to_string(), "beta".to_string()]),
            field_decls: vec!["pub alpha : String".to_string(), "pub beta : usize".to_string()],
        }]),
    }];
    let fields = find_struct_fields(&items, "Entry").expect("fields");
    assert_eq!(fields, vec!["alpha", "beta"]);
    let tuple_first = vec![
        SourceItem::Struct { name: "Entry".to_string(), named_fields: None, field_decls: vec!["u8".to_string()] },
        SourceItem::Struct {
            name: "Entry".to_string(),
            named_fields: Some(vec!["x".to_string()]),
            field_decls: vec!["x : u8".to_string()],
        },
    ];
    assert!(find_struct_fields(&tuple_first, "Entry").is_none());
}

#[test]
fn path_helpers_follow_std_path() {
    let cs: Vec<String> = components_of("/a//b/./c.rs").iter().map(|c| text(c)).collect();
    assert_eq!(cs, vec!["/", "a", "b", "c.rs"]);
    let rel: Vec<String> = components_of("./x/").iter().map(|c| text(c)).collect();
    assert_eq!(rel, vec![".", "x"]);
    assert_eq!(file_name("/a/b.tar.gz").map(|n| text(&n)), Some("b.tar.gz".to_string()));
    assert_eq!(file_name("/a/.."), None);
    assert_eq!(text(&file_stem(&chars("b.tar.gz"))), "b.tar");
    assert_eq!(text(&file_stem(&chars(".hidden"))), ".hidden");
    assert_eq!(normalize("Foo_Bar\\Baz"), "foo-bar/baz");
}

#[test]
fn package_scores_add_up() {
    let registry = PreferredPackage {
        name: "keepass".into(),
        version: Some("0.12.4".into()),
        source: Some("registry+x".into()),
    };
    assert_eq!(package_match_score("/r/registry/src/i/keepass-0.12.4/src/e.rs", &registry), 10 + 400 + 80);
    assert_eq!(package_match_score("/c/git/checkouts/keepass-1.0/e.rs", &registry), 10 - 80 - 120);
}

#[test]
fn cargo_text_helpers() {
    let lines: Vec<String> = text_lines("a\r\nb\n\nc").iter().map(|l| text(l)).collect();
    assert_eq!(lines, vec!["a", "b", "", "c"]);
    assert!(text_lines("").is_empty());
    assert_eq!(extract_semverish_version(&chars("^v0.12.4-beta")), Some("0.12.4".to_string()));
    assert_eq!(extract_semverish_version(&chars("7")), None);
    let v = extract_key_from_inline_table(&chars("{ git = \"u\", branch = \"b\" }"), "git").map(|v| text(&v));
    assert_eq!(v, Some("u".to_string()));
    let last = extract_key_from_inline_table(&chars("{ version = \"1.2\", git = \"u\" }"), "git");
    assert!(last.is_none());
}

#[test]
fn source_rankings() {
    assert_eq!(source_specificity(""), 0);
    assert_eq!(source_specificity("git+https://x?branch=b#abc"), 5);
    assert_eq!(source_kind(Some(&"path+/x".to_string())), "path");
    assert_eq!(source_kind(None), "");
    let m = PreferredPackage { name: "k".into(), version: Some("1.0".into()), source: Some("registry+".into()) };
    let l = PreferredPackage { name: "k".into(), version: Some("1.0".into()), source: Some("registry+https://i".into()) };
    assert_eq!(lockfile_package_compatibility(Some(&m), &l), 2 + 100 + 50);
}

#[test]
fn best_hit_selection() {
    let paths = vec!["/b/x.rs".to_string(), "/a/x.rs".to_string(), "/c/x.rs".to_string()];
    assert_eq!(select_source_hit(&paths, &vec![10, 30, 20]), Ok(1));
    assert_eq!(select_source_hit(&paths, &vec![30, 30, 20]), Err(HitError::Ambiguous));
    assert_eq!(select_source_hit(&vec![], &vec![]), Err(HitError::NotFound));
    assert!(is_candidate_file_name("entry.rs", "entry"));
    assert!(is_candidate_file_name("mod.rs", "entry"));
    assert!(!is_candidate_file_name("entries.rs", "entry"));
}

#[test]
fn parses_mirror_args() {
    let args = parse_mirror_args_str(
        "keepass::db::Entry, file = \"entry.rs\", root = \"vendor/a\", root = \"vendor/b\", import = \"keepass::db::*\", import = \"std::collections::*\", max_depth = 20",
    )
    .expect("args parse");

    assert_eq!(args.target.last().unwrap(), "Entry");
    assert_eq!(args.file.as_ref().unwrap(), "entry.rs");
    assert_eq!(args.roots.len(), 2);
    assert_eq!(args.imports.len(), 2);
    assert_eq!(args.max_depth, 20);
}

#[test]
fn rejects_unknown_option() {
    let err = parse_mirror_args_str("keepass::db::Entry, nope = \"x\"").unwrap_err();
    assert!(err.to_string().contains("unknown mirror_from option"));
}

#[test]
fn rejects_non_unit_struct_input() {
    let args = parse_mirror_args_str("keepass::db::Entry").expect("args");
    let item = parse_struct_item("struct EntryMirror {}").expect("struct");
    let err = expand(&args, &item).unwrap_err();

    assert!(err.to_string().contains("expects a unit struct"));
}

#[test]
fn mirror_args_defaults_and_errors() {
    let args = parse_mirror_args_str("::keepass::db::Entry,").expect("args");
    assert_eq!(args.target, vec!["keepass", "db", "Entry"]);
    assert_eq!(args.file, None);
    assert!(args.roots.is_empty() && args.imports.is_empty());
    assert_eq!(args.max_depth, 12);

    let args = parse_mirror_args_str("crate::Entry, file = \"a.rs\", file = r\"b\\n.rs\"").expect("args");
    assert_eq!(args.file.as_deref(), Some("b\\n.rs"));
    let args = parse_mirror_args_str("Entry, file = \"a\\tb\"").expect("args");
    assert_eq!(args.file.as_deref(), Some("a\tb"));

    assert!(matches!(parse_mirror_args_str(""), Err(MirrorArgsError::ExpectedPath)));
    assert!(matches!(parse_mirror_args_str("fn::Entry"), Err(MirrorArgsError::ExpectedPath)));
    assert!(matches!(parse_mirror_args_str("Vec<u8>"), Err(MirrorArgsError::GenericArguments)));
    assert!(matches!(parse_mirror_args_str("Entry, file \"x\""), Err(MirrorArgsError::ExpectedEq)));
    assert!(matches!(parse_mirror_args_str("Entry, file = 3"), Err(MirrorArgsError::BadValue)));
    assert!(matches!(parse_mirror_args_str("Entry, max_depth = \"3\""), Err(MirrorArgsError::BadValue)));
    assert!(matches!(parse_mirror_args_str("Entry, max_depth = 99999999999999999999999"), Err(MirrorArgsError::BadValue)));
    assert!(matches!(parse_mirror_args_str("Entry, 3 = 4"), Err(MirrorArgsError::ExpectedIdent)));
    assert!(matches!(parse_mirror_args_str("Entry, fn = 4"), Err(MirrorArgsError::ExpectedIdent)));
    assert!(matches!(parse_mirror_args_str("Entry x"), Err(MirrorArgsError::Unexpected)));
    assert!(matches!(parse_mirror_args_str("Entry, \"unclosed"), Err(MirrorArgsError::Lex)));
    assert_eq!(parse_mirror_args_str("Entry, max_depth = 0x10").expect("hex").max_depth, 16);
}

#[test]
fn expansion_plan_for_a_unit_struct() {
    let args = parse_mirror_args_str("keepass::db::Entry, import = \"keepass::db::*\", file = \"e.rs\"").expect("args");
    let item = parse_struct_item("pub struct EntryMirror;").expect("struct");
    assert_eq!(item.name, "EntryMirror");
    assert!(item.is_unit);
    let plan = expand(&args, &item).expect("plan");
    assert_eq!(plan.mirror_name, "EntryMirror");
    assert_eq!(plan.target_struct, "Entry");
    assert_eq!(plan.target_segments, vec!["keepass", "db", "Entry"]);
    assert_eq!(plan.file.as_deref(), Some("e.rs"));
    assert_eq!(plan.use_statements, vec!["use keepass::db::*;"]);
    assert!(parse_struct_item("fn f() {}").is_none());
}

#[test]
fn search_roots_are_sorted_paths_without_repeats() {
    assert_eq!(ancestor_paths("/a/b/c"), vec!["/a/b/c", "/a/b", "/a", "/"]);
    assert_eq!(ancestor_paths("a/b"), vec!["a/b", "a", ""]);
    assert_eq!(ancestor_paths(""), vec![""]);
    let roots = search_roots(&segs(&["extra", "/abs/dir", "extra/"]), Some("/env/root"), "/w/crate", None, Some("/home/u"));
    let expected = vec![
        "/abs/dir",
        "/crates",
        "/env/root",
        "/home/u/.cargo/git/checkouts",
        "/home/u/.cargo/registry/src",
        "/third_party",
        "/vendor",
        "/w/.cargo",
        "/w/crate",
        "/w/crate/.cargo",
        "/w/crate/crates",
        "/w/crate/extra",
        "/w/crate/third_party",
        "/w/crate/vendor",
        "/w/crates",
        "/w/third_party",
        "/w/vendor",
        "/.cargo",
    ];
    let mut exp_sorted: Vec<std::path::PathBuf> = expected.iter().map(std::path::PathBuf::from).collect();
    exp_sorted.sort();
    let got: Vec<std::path::PathBuf> = roots.iter().map(std::path::PathBuf::from).collect();
    assert_eq!(got, exp_sorted);
    let with_cargo_home = search_roots(&vec![], None, "/w", Some("/ch"), Some("/home/u"));
    assert!(with_cargo_home.contains(&"/ch/git/checkouts".to_string()));
    assert!(!with_cargo_home.iter().any(|r| r.starts_with("/home")));
}

#[test]
fn hits_are_recorded_once_and_ranked() {
    let mut hits = SourceHits::new();
    assert!(hits.record("/v/b/entry.rs", 10));
    assert!(hits.record("/v/a/entry.rs", 10));
    assert!(!hits.record("/v/a//entry.rs", 99));
    assert!(hits.record("/v/c/mod.rs", 50));
    assert!(hits.record("/v/d/lib.rs", -5));
    assert_eq!(hits.paths.len(), 4);
    assert_eq!(hits.scores, vec![10, 10, 50, -5]);
    assert_eq!(ranked_hits(&hits.paths, &hits.scores), vec![2, 1, 0, 3]);
    let msg = hits.ambiguity_message("Entry");
    assert_eq!(
        msg,
        "ambiguous source file for `Entry`; add `file = \"...\"`. Candidates:\n  score   50: /v/c/mod.rs\n  score   10: /v/a/entry.rs\n  score   10: /v/b/entry.rs\n  score   -5: /v/d/lib.rs\n"
    );
}

#[test]
fn ambiguity_lists_at_most_eight() {
    let mut hits = SourceHits::new();
    for i in 0..12 {
        assert!(hits.record(&format!("/v/{i:02}/entry.rs"), 12345));
    }
    let msg = hits.ambiguity_message("Entry");
    assert_eq!(msg.matches("score 12345").count(), 8);
    assert!(msg.contains("/v/00/entry.rs") && msg.contains("/v/07/entry.rs") && !msg.contains("/v/08/"));
}

#[test]
fn not_found_message_names_the_target() {
    assert_eq!(
        not_found_message("Entry", &segs(&["keepass", "db", "Entry"])),
        "could not find source file for `Entry`; try `#[mirror_from(keepass::db::Entry, file = \"path/to/source.rs\")]` or set MIRROR_FROM_ROOT"
    );
}

#[test]
fn reads_field_declarations_from_source_text() {
    let src = "mod outer { pub struct Entry { pub alpha: String, pub beta: usize } }";
    let decls = struct_fields_in_text(src, "Entry").expect("fields");
    assert_eq!(decls.len(), 2);
    assert!(decls[0].contains("alpha") && decls[0].contains("String"));
    assert!(decls[1].contains("beta") && decls[1].contains("usize"));
    assert_eq!(struct_fields_in_text(src, "Other"), Err(FieldsError::NotFound));
    assert_eq!(struct_fields_in_text("struct Entry(u8);", "Entry"), Err(FieldsError::NotFound));
    assert_eq!(struct_fields_in_text("struct {", "Entry"), Err(FieldsError::ParseFailed));
}

#[test]
fn checks_import_statements() {
    assert_eq!(use_statements_error(&vec!["use std::rc::Rc;".to_string()]), None);
    assert!(use_statements_error(&vec!["use std::rc::Rc;".to_string(), "use ;".to_string()]).is_some());
}
