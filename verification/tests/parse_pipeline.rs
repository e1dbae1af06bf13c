use parser_ai::build_file_tree;
use parser_ai::build_node;
use parser_ai::concatenate;
use parser_ai::contains_substring;
use parser_ai::get_preview_tree;
use parser_ai::id_base;
use parser_ai::included;
use parser_ai::parse;
use parser_ai::parse_at;
use parser_ai::u64_digits;
use parser_ai::ErrorKind;
use parser_ai::FileRead;
use parser_ai::FsNode;
use parser_ai::ParsedPath;
use parser_ai::RecordStore;

fn read(path: &str, content: &str) -> FileRead {
    FileRead { path: path.to_string(), content: Some(content.to_string()) }
}

fn unreadable(path: &str) -> FileRead {
    FileRead { path: path.to_string(), content: None }
}

#[test]
fn substring_matching() {
    assert!(contains_substring("node_modules", "module"));
    assert!(contains_substring("anything", ""));
    assert!(!contains_substring("src", "node"));
    assert!(!contains_substring("ab", "abc"));
}

#[test]
fn included_respects_patterns() {
    let patterns = vec![".git".to_string(), "target".to_string()];
    assert!(!included(".gitignore", &patterns));
    assert!(!included("target", &patterns));
    assert!(included("src", &patterns));
    assert!(included("anything", &Vec::new()));
}

#[test]
fn concatenate_preserves_order() {
    let files = vec![read("a", "1"), read("b", "2"), read("c", "3")];
    let outcome = concatenate(&files);
    assert_eq!(
        outcome.artifact,
        "===== a =====\n1\n===== b =====\n2\n===== c =====\n3\n"
    );
    assert_eq!(outcome.files_count, 3);
    assert_eq!(outcome.total_size, 3);
}

#[test]
fn concatenate_skips_unreadable_file() {
    let files = vec![read("a", "one"), unreadable("b"), read("c", "three")];
    let outcome = concatenate(&files);
    assert_eq!(outcome.artifact, "===== a =====\none\n===== c =====\nthree\n");
    assert_eq!(outcome.files_count, 2);
    assert_eq!(outcome.total_size, 8);
}

#[test]
fn concatenate_empty_input() {
    let outcome = concatenate(&Vec::new());
    assert_eq!(outcome.artifact, "\n");
    assert_eq!(outcome.files_count, 0);
    assert_eq!(outcome.total_size, 0);
}

fn dir(name: &str, path: &str, entries: Vec<FsNode>) -> FsNode {
    FsNode::Dir { name: name.to_string(), path: path.to_string(), entries }
}

fn file(name: &str, path: &str) -> FsNode {
    FsNode::File { name: name.to_string(), path: path.to_string() }
}

fn assert_no_node_named(t: &ParsedPath, needle: &str) {
    match t {
        ParsedPath::File { name, .. } => assert_ne!(name, needle),
        ParsedPath::Directory { name, children, .. } => {
            assert_ne!(name, needle);
            for c in children {
                assert_no_node_named(c, needle);
            }
        }
    }
}

#[test]
fn excluded_directory_is_pruned_with_its_subtree() {
    let snapshot = dir(
        "proj",
        "/proj",
        vec![
            file("main.rs", "/proj/main.rs"),
            dir(
                "node_modules",
                "/proj/node_modules",
                vec![file("dep.js", "/proj/node_modules/dep.js")],
            ),
            dir("src", "/proj/src", vec![file("lib.rs", "/proj/src/lib.rs")]),
        ],
    );
    let patterns = vec!["node_modules".to_string()];
    let built = build_node(&snapshot, &patterns);
    assert_no_node_named(&built, "node_modules");
    assert_no_node_named(&built, "dep.js");
    match &built {
        ParsedPath::Directory { children, .. } => {
            assert_eq!(children.len(), 2);
        }
        _ => panic!("expected a directory"),
    }
}

#[test]
fn empty_directory_is_kept_not_elided() {
    let snapshot = dir("empty", "/empty", Vec::new());
    let built = build_node(&snapshot, &Vec::new());
    match built {
        ParsedPath::Directory { name, children, .. } => {
            assert_eq!(name, "empty");
            assert!(children.is_empty());
        }
        _ => panic!("expected a directory"),
    }
}

#[test]
fn missing_root_fails_not_found() {
    let err = match build_file_tree(None, &Vec::new()) {
        Err(e) => e,
        Ok(_) => panic!("expected a missing-root failure"),
    };
    assert_eq!(err.kind, ErrorKind::NotFound);
}

#[test]
fn preview_tree_skips_missing_roots() {
    let roots = vec![
        Some(file("a", "/a")),
        None,
        Some(file("b", "/b")),
    ];
    let trees = get_preview_tree(&roots, &Vec::new());
    assert_eq!(trees.len(), 2);
    match &trees[0] {
        ParsedPath::File { name, .. } => assert_eq!(name, "a"),
        _ => panic!("expected a file"),
    }
    match &trees[1] {
        ParsedPath::File { name, .. } => assert_eq!(name, "b"),
        _ => panic!("expected a file"),
    }
}

#[test]
fn digits_format_exactly() {
    assert_eq!(u64_digits(0), "0");
    assert_eq!(u64_digits(7), "7");
    assert_eq!(u64_digits(1234567890), "1234567890");
    assert_eq!(id_base(1700000000123), "1700000000123");
    assert_eq!(id_base(-5), "m5");
    assert_eq!(id_base(0), "0");
}

#[test]
fn parse_at_records_the_outcome() {
    let mut store = RecordStore::new();
    let files = vec![read("x.txt", "abcd"), unreadable("y.txt"), read("z.txt", "ef")];
    let meta = parse_at(&mut store, &files, Vec::new(), 555);
    assert_eq!(meta.files_count, 2);
    assert_eq!(meta.total_size, 6);
    assert_eq!(meta.created_at, 555);
    assert_eq!(meta.updated_at, 555);
    assert_eq!(meta.id, "555");
    let content = store.get_file_content(&meta.id).unwrap();
    assert_eq!(content, "===== x.txt =====\nabcd\n===== z.txt =====\nef\n");
}

#[test]
fn parse_stamps_with_the_clock() {
    let mut store = RecordStore::new();
    let files = vec![read("a.txt", "abc")];
    let meta = parse(&mut store, &files, Vec::new());
    assert_eq!(meta.files_count, 1);
    assert_eq!(meta.total_size, 3);
    assert_eq!(meta.created_at, meta.updated_at);
    assert!(meta.created_at > 0);
    let content = store.get_file_content(&meta.id).unwrap();
    assert_eq!(content, "===== a.txt =====\nabc\n");
}
