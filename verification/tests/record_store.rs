use parser_ai::CommandError;
use parser_ai::ErrorKind;
use parser_ai::ParsedPath;
use parser_ai::RecordStore;

fn sample_tree() -> Vec<ParsedPath> {
    vec![ParsedPath::Directory {
        name: "root".to_string(),
        path: "/root".to_string(),
        children: vec![ParsedPath::File {
            name: "a.txt".to_string(),
            path: "/root/a.txt".to_string(),
        }],
    }]
}

fn kind_of(e: &CommandError) -> ErrorKind {
    e.kind
}

#[test]
fn create_then_read_round_trip() {
    let mut store = RecordStore::new();
    let meta = store.create("artifact".to_string(), 2, 10, sample_tree(), 100);
    assert_eq!(meta.files_count, 2);
    assert_eq!(meta.total_size, 10);
    assert_eq!(meta.created_at, 100);
    assert_eq!(meta.updated_at, 100);
    assert_eq!(meta.name, meta.id);

    let content = store.get_file_content(&meta.id).unwrap();
    assert_eq!(content, "artifact");

    let read_meta = store.get_file_metadata(&meta.id).unwrap();
    assert_eq!(read_meta.id, meta.id);
    assert_eq!(read_meta.files_count, 2);
    assert_eq!(read_meta.total_size, 10);
    assert_eq!(read_meta.created_at, 100);
    assert_eq!(read_meta.updated_at, 100);

    let tree = store.get_file_tree(&meta.id).unwrap();
    assert_eq!(tree.len(), 1);
    match &tree[0] {
        ParsedPath::Directory { name, path, children } => {
            assert_eq!(name, "root");
            assert_eq!(path, "/root");
            assert_eq!(children.len(), 1);
            match &children[0] {
                ParsedPath::File { name, path } => {
                    assert_eq!(name, "a.txt");
                    assert_eq!(path, "/root/a.txt");
                }
                _ => panic!("expected a file node"),
            }
        }
        _ => panic!("expected a directory node"),
    }
}

#[test]
fn update_content_stamps_updated_at_only() {
    let mut store = RecordStore::new();
    let meta = store.create("old".to_string(), 3, 7, Vec::new(), 100);
    store.update_file(&meta.id, "new".to_string(), 200).unwrap();

    let content = store.get_file_content(&meta.id).unwrap();
    assert_eq!(content, "new");

    let read_meta = store.get_file_metadata(&meta.id).unwrap();
    assert!(read_meta.updated_at > meta.updated_at);
    assert_eq!(read_meta.updated_at, 200);
    assert_eq!(read_meta.files_count, 3);
    assert_eq!(read_meta.total_size, 7);
    assert_eq!(read_meta.name, meta.name);
    assert_eq!(read_meta.created_at, 100);
}

#[test]
fn rename_changes_only_name() {
    let mut store = RecordStore::new();
    let meta = store.create("body".to_string(), 1, 4, Vec::new(), 100);
    store.rename_file(&meta.id, "X".to_string()).unwrap();

    let read_meta = store.get_file_metadata(&meta.id).unwrap();
    assert_eq!(read_meta.name, "X");
    assert_eq!(read_meta.updated_at, 100);
    assert_eq!(read_meta.created_at, 100);
    assert_eq!(read_meta.files_count, 1);
    assert_eq!(read_meta.total_size, 4);
    assert_eq!(read_meta.id, meta.id);

    let content = store.get_file_content(&meta.id).unwrap();
    assert_eq!(content, "body");
}

#[test]
fn delete_then_read_fails_not_found() {
    let mut store = RecordStore::new();
    let meta = store.create("gone".to_string(), 1, 4, Vec::new(), 100);
    store.delete_file(&meta.id).unwrap();

    let err = store.get_file_content(&meta.id).unwrap_err();
    assert_eq!(kind_of(&err), ErrorKind::NotFound);
    let err = store.get_file_metadata(&meta.id).unwrap_err();
    assert_eq!(kind_of(&err), ErrorKind::NotFound);
    assert_eq!(store.count(), 0);
}

#[test]
fn missing_record_operations_fail_not_found() {
    let mut store = RecordStore::new();
    let id = "absent".to_string();
    assert_eq!(store.get_file_content(&id).unwrap_err().kind, ErrorKind::NotFound);
    assert_eq!(store.get_file_tree(&id).unwrap_err().kind, ErrorKind::NotFound);
    assert_eq!(store.update_file(&id, "x".to_string(), 1).unwrap_err().kind, ErrorKind::NotFound);
    assert_eq!(store.rename_file(&id, "x".to_string()).unwrap_err().kind, ErrorKind::NotFound);
    assert_eq!(store.delete_file(&id).unwrap_err().kind, ErrorKind::NotFound);
}

#[test]
fn colliding_ids_stay_distinct() {
    let mut store = RecordStore::new();
    let first = store.create("a".to_string(), 0, 0, Vec::new(), 42);
    let second = store.create("b".to_string(), 0, 0, Vec::new(), 42);
    assert_ne!(first.id, second.id);
    assert_eq!(second.id, format!("{}x", first.id));
    assert_eq!(store.count(), 2);
    assert_eq!(store.get_file_content(&first.id).unwrap(), "a");
    assert_eq!(store.get_file_content(&second.id).unwrap(), "b");
}

#[test]
fn rename_and_update_commute_on_fields() {
    let mut a = RecordStore::new();
    let meta_a = a.create("c".to_string(), 1, 1, Vec::new(), 10);
    a.rename_file(&meta_a.id, "label".to_string()).unwrap();
    a.update_file(&meta_a.id, "c2".to_string(), 20).unwrap();

    let mut b = RecordStore::new();
    let meta_b = b.create("c".to_string(), 1, 1, Vec::new(), 10);
    b.update_file(&meta_b.id, "c2".to_string(), 20).unwrap();
    b.rename_file(&meta_b.id, "label".to_string()).unwrap();

    let ra = a.get_file_metadata(&meta_a.id).unwrap();
    let rb = b.get_file_metadata(&meta_b.id).unwrap();
    assert_eq!(ra.name, rb.name);
    assert_eq!(ra.updated_at, rb.updated_at);
    assert_eq!(a.get_file_content(&meta_a.id).unwrap(), b.get_file_content(&meta_b.id).unwrap());
}

#[test]
fn from_string_is_an_io_failure() {
    let e = CommandError::from("oops".to_string());
    assert_eq!(e.kind, ErrorKind::IOFailure);
    assert_eq!(e.message(), "oops");
}
