use parser_ai::app_dir_path;
use parser_ai::apply_limit;
use parser_ai::assemble_list;
use parser_ai::builtin_presets;
use parser_ai::content_path;
use parser_ai::delete_preset;
use parser_ai::get_file_detail;
use parser_ai::get_file_preview;
use parser_ai::list_presets;
use parser_ai::make_list_item;
use parser_ai::metadata_path;
use parser_ai::open_in_default_editor;
use parser_ai::open_in_folder;
use parser_ai::parse_at;
use parser_ai::provisional_order;
use parser_ai::record_dir_path;
use parser_ai::records_dir_path;
use parser_ai::save_preset;
use parser_ai::strict_order;
use parser_ai::take_lines;
use parser_ai::tree_path;
use parser_ai::CommandError;
use parser_ai::DirStamp;
use parser_ai::ErrorKind;
use parser_ai::FileRead;
use parser_ai::OpenAction;
use parser_ai::ParsedFileListItem;
use parser_ai::RecordStore;
use parser_ai::SavedPreset;

fn stamp(id: &str, mtime: i64) -> DirStamp {
    DirStamp { id: id.to_string(), mtime }
}

fn item(id: &str, last_modified: i64) -> ParsedFileListItem {
    ParsedFileListItem {
        id: id.to_string(),
        name: id.to_string(),
        directory_path: format!("/records/{}", id),
        file_size: 1,
        files_count: 1,
        total_size: 1,
        created_at: 0,
        last_modified,
    }
}

#[test]
fn provisional_order_is_newest_first() {
    let stamps = vec![stamp("a", 3), stamp("b", 9), stamp("c", 1), stamp("d", 9)];
    let sorted = provisional_order(stamps);
    assert_eq!(sorted.len(), 4);
    assert_eq!(sorted[0].mtime, 9);
    assert_eq!(sorted[1].mtime, 9);
    assert_eq!(sorted[2].mtime, 3);
    assert_eq!(sorted[3].mtime, 1);
    assert_eq!(sorted[2].id, "a");
    assert_eq!(sorted[3].id, "c");
}

#[test]
fn listing_limit_and_corrupt_skip() {
    let stamps = vec![
        stamp("r1", 50),
        stamp("r2", 40),
        stamp("r3", 30),
        stamp("r4", 20),
        stamp("r5", 10),
    ];
    let mut candidates = provisional_order(stamps);
    apply_limit(&mut candidates, Some(2));
    assert_eq!(candidates.len(), 2);
    assert_eq!(candidates[0].id, "r1");
    assert_eq!(candidates[1].id, "r2");

    // r2's metadata document is corrupt: its load yields nothing.
    let loaded = vec![Some(item("r1", 50)), None];
    let rows = assemble_list(&loaded);
    assert_eq!(rows.len(), 1);
    assert_eq!(rows[0].id, "r1");
    for row in &rows {
        assert_ne!(row.id, "r2");
    }
}

#[test]
fn apply_limit_without_limit_keeps_all() {
    let mut v = vec![stamp("a", 1), stamp("b", 2)];
    apply_limit(&mut v, None);
    assert_eq!(v.len(), 2);
    let mut w = vec![stamp("a", 1), stamp("b", 2)];
    apply_limit(&mut w, Some(10));
    assert_eq!(w.len(), 2);
}

#[test]
fn strict_order_sorts_by_updated_at() {
    let rows = vec![item("a", 5), item("b", 50), item("c", 20)];
    let sorted = strict_order(rows);
    assert_eq!(sorted[0].id, "b");
    assert_eq!(sorted[1].id, "c");
    assert_eq!(sorted[2].id, "a");
}

#[test]
fn list_item_carries_updated_at_as_last_modified() {
    let mut store = RecordStore::new();
    let files = vec![FileRead { path: "a".to_string(), content: Some("abc".to_string()) }];
    let meta = parse_at(&mut store, &files, Vec::new(), 7);
    store.update_file(&meta.id, "edited".to_string(), 99).unwrap();
    let meta = store.get_file_metadata(&meta.id).unwrap();
    let row = make_list_item(&meta, "/dir".to_string(), 6);
    assert_eq!(row.last_modified, 99);
    assert_eq!(row.created_at, 7);
    assert_eq!(row.file_size, 6);
    assert_eq!(row.files_count, 1);
    assert_eq!(row.total_size, 3);
    assert_eq!(row.directory_path, "/dir");
}

#[test]
fn take_lines_cuts_before_the_limit_newline() {
    assert_eq!(take_lines("a\nb\nc\nd", 2), "a\nb");
    assert_eq!(take_lines("a\nb", 5), "a\nb");
    assert_eq!(take_lines("", 3), "");
    assert_eq!(take_lines("one\n", 1), "one");
    assert_eq!(take_lines("\n\n\n", 2), "\n");
}

#[test]
fn file_preview_extracts_name_and_truncates() {
    let path = "/home/user/notes.txt".to_string();
    let mut content = String::new();
    for i in 0..30 {
        content.push_str(&format!("line {}\n", i));
    }
    let p = get_file_preview(&path, 123, &content).unwrap();
    assert_eq!(p.name, "notes.txt");
    assert_eq!(p.path, path);
    assert_eq!(p.size, 123);
    assert_eq!(p.preview.lines().count(), 20);
    assert!(p.preview.starts_with("line 0\n"));
    assert!(!p.preview.ends_with('\n'));

    let bad = "/ends/with/slash/".to_string();
    let err = get_file_preview(&bad, 1, &content).unwrap_err();
    assert_eq!(err.kind, ErrorKind::InvalidState);
}

#[test]
fn builtin_presets_are_fixed() {
    let presets = builtin_presets();
    assert_eq!(presets.len(), 6);
    assert_eq!(presets[0].name, "Test");
    assert_eq!(presets[1].name, "Git");
    assert_eq!(presets[1].ignore_patterns, vec![".git", ".gitignore"]);
    assert_eq!(presets[2].name, "JS");
    assert_eq!(presets[3].name, "Java");
    assert_eq!(presets[4].name, "Python");
    assert_eq!(presets[5].name, "Rust");
    assert_eq!(presets[5].ignore_patterns, vec!["Git", "target", "Cargo.lock"]);
}

#[test]
fn save_preset_upserts_and_delete_removes() {
    let mut saved: Vec<SavedPreset> = Vec::new();
    save_preset(&mut saved, "mine".to_string(), vec!["target".to_string()]);
    assert_eq!(saved.len(), 1);
    save_preset(&mut saved, "mine".to_string(), vec!["build".to_string()]);
    assert_eq!(saved.len(), 1);
    assert_eq!(saved[0].ignore_patterns, vec!["build"]);
    save_preset(&mut saved, "other".to_string(), Vec::new());
    assert_eq!(saved.len(), 2);

    let response = list_presets(&saved);
    assert_eq!(response.default.len(), 6);
    assert_eq!(response.saved.len(), 2);
    assert_eq!(response.saved[0].name, "mine");

    delete_preset(&mut saved, &"mine".to_string()).unwrap();
    assert_eq!(saved.len(), 1);
    assert_eq!(saved[0].name, "other");
    let err = delete_preset(&mut saved, &"mine".to_string()).unwrap_err();
    assert_eq!(err.kind, ErrorKind::NotFound);
}

#[test]
fn layout_paths_are_exact() {
    let app = app_dir_path("/home/u");
    assert_eq!(app, "/home/u/parser-ai");
    let records = records_dir_path(&app);
    assert_eq!(records, "/home/u/parser-ai/parsed-files");
    let dir = record_dir_path(&records, "42");
    assert_eq!(dir, "/home/u/parser-ai/parsed-files/42");
    assert_eq!(content_path(&dir), "/home/u/parser-ai/parsed-files/42/content.txt");
    assert_eq!(metadata_path(&dir), "/home/u/parser-ai/parsed-files/42/metadata.json");
    assert_eq!(tree_path(&dir), "/home/u/parser-ai/parsed-files/42/tree.json");
}

#[test]
fn open_actions_resolve_record_paths() {
    let mut store = RecordStore::new();
    let files = vec![FileRead { path: "a".to_string(), content: Some("x".to_string()) }];
    let meta = parse_at(&mut store, &files, Vec::new(), 3);
    match open_in_default_editor(&store, "/records", &meta.id).unwrap() {
        OpenAction::OpenFile(p) => assert_eq!(p, "/records/3/content.txt"),
        _ => panic!("expected an open-file action"),
    }
    match open_in_folder(&store, "/records", &meta.id).unwrap() {
        OpenAction::RevealInFolder(p) => assert_eq!(p, "/records/3"),
        _ => panic!("expected a reveal action"),
    }
    let missing = "nope".to_string();
    assert_eq!(
        open_in_default_editor(&store, "/records", &missing).unwrap_err().kind,
        ErrorKind::NotFound
    );
}

#[test]
fn file_detail_assembles_every_part() {
    let mut store = RecordStore::new();
    let files = vec![FileRead { path: "a".to_string(), content: Some("hi".to_string()) }];
    let meta = parse_at(&mut store, &files, Vec::new(), 11);
    store.rename_file(&meta.id, "label".to_string()).unwrap();
    let detail = get_file_detail(&store, &meta.id).unwrap();
    assert_eq!(detail.id, meta.id);
    assert_eq!(detail.name, "label");
    assert_eq!(detail.content, "===== a =====\nhi\n");
    assert_eq!(detail.metadata.metadata.name, "label");
    assert!(detail.metadata.tree.is_empty());
}

#[test]
fn command_error_constructors_carry_kind_and_message() {
    let e = CommandError::not_found("missing".to_string());
    assert_eq!(e.kind, ErrorKind::NotFound);
    assert_eq!(e.message(), "missing");
    let e = CommandError::io_failure("disk".to_string());
    assert_eq!(e.kind, ErrorKind::IOFailure);
    let e = CommandError::invalid_state("bad".to_string());
    assert_eq!(e.kind, ErrorKind::InvalidState);
}
