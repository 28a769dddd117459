use anchor_dev::cases::{discover, FsEntry, TestCase};
use anchor_dev::errors::HarnessError;
use anchor_dev::selector::select;

fn entry(file_name: &[u8], parent: &[u8]) -> FsEntry {
    FsEntry { file_name: file_name.to_vec(), parent: parent.to_vec() }
}

fn names(cases: &[TestCase]) -> Vec<String> {
    let mut out = Vec::new();
    for c in cases {
        out.push(c.name.clone());
    }
    out
}

#[test]
fn discovery_end_to_end() {
    let root = b"/r".to_vec();
    let entries = vec![
        entry(b"Anchor.toml", b"/r/x"),
        entry(b"Anchor.toml", b"/r/y/z"),
        entry(b"readme.txt", b"/r/w"),
    ];
    let cases = discover(&root, &entries, b'/').unwrap();
    assert_eq!(cases.len(), 2);
    assert_eq!(cases[0].name, "x");
    assert_eq!(cases[0].path, "/r/x");
    assert_eq!(cases[1].name, "y-z");
    assert_eq!(cases[1].path, "/r/y/z");

    let filtered = select(cases, &Some(String::from("^y"))).unwrap();
    assert_eq!(filtered.len(), 1);
    assert_eq!(filtered[0].name, "y-z");
}

#[test]
fn discovery_deterministic() {
    let root = b"/base".to_vec();
    let entries = vec![
        entry(b"Anchor.toml", b"/base/beta"),
        entry(b"notes.txt", b"/base/beta"),
        entry(b"Anchor.toml", b"/base/alpha/deep"),
        entry(b"Anchor.toml", b"/base/gamma"),
    ];
    let first = discover(&root, &entries, b'/').unwrap();
    let second = discover(&root, &entries, b'/').unwrap();
    assert_eq!(first.len(), second.len());
    for i in 0..first.len() {
        assert_eq!(first[i].name, second[i].name);
        assert_eq!(first[i].path, second[i].path);
    }
}

#[test]
fn discovery_sorted_by_name() {
    let root = b"/base".to_vec();
    let entries = vec![
        entry(b"Anchor.toml", b"/base/c"),
        entry(b"Anchor.toml", b"/base/a/b"),
        entry(b"Anchor.toml", b"/base/a"),
        entry(b"Anchor.toml", b"/base/b"),
    ];
    let cases = discover(&root, &entries, b'/').unwrap();
    let got = names(&cases);
    assert_eq!(got, vec!["a", "a-b", "b", "c"]);
    for w in cases.windows(2) {
        assert!(w[0].name <= w[1].name);
    }
}

#[test]
fn name_derivation_two_segments() {
    let root = b"/root".to_vec();
    let entries = vec![entry(b"Anchor.toml", b"/root/a/b")];
    let cases = discover(&root, &entries, b'/').unwrap();
    assert_eq!(cases.len(), 1);
    assert_eq!(cases[0].name, "a-b");
}

#[test]
fn name_derivation_other_separator() {
    let root = b"base".to_vec();
    let entries = vec![entry(b"Anchor.toml", b"base\\a\\b")];
    let cases = discover(&root, &entries, b'\\').unwrap();
    assert_eq!(cases.len(), 1);
    assert_eq!(cases[0].name, "a-b");
}

#[test]
fn marker_in_root_gives_empty_name() {
    let root = b"/r".to_vec();
    let entries = vec![entry(b"Anchor.toml", b"/r")];
    let cases = discover(&root, &entries, b'/').unwrap();
    assert_eq!(cases.len(), 1);
    assert_eq!(cases[0].name, "");
    assert_eq!(cases[0].path, "/r");
}

#[test]
fn discovery_rejects_case_outside_root() {
    let root = b"/r".to_vec();
    let entries = vec![entry(b"Anchor.toml", b"/elsewhere/x")];
    let err = discover(&root, &entries, b'/').unwrap_err();
    match &err {
        HarnessError::Naming { path } => assert_eq!(path, b"/elsewhere/x"),
        other => panic!("wrong error: {:?}", other),
    }
    assert_eq!(err.describe(), "invalid test case path: /elsewhere/x");
}

#[test]
fn discovery_rejects_non_text_path() {
    let root = b"/r".to_vec();
    let entries = vec![entry(b"Anchor.toml", b"/r/\xff\xfe")];
    let err = discover(&root, &entries, b'/').unwrap_err();
    match &err {
        HarnessError::Naming { path } => assert_eq!(path.as_slice(), b"/r/\xff\xfe" as &[u8]),
        other => panic!("wrong error: {:?}", other),
    }
    assert_eq!(err.describe(), "invalid test case path");
}

#[test]
fn discovery_of_no_entries_is_empty() {
    let root = b"/r".to_vec();
    let entries: Vec<FsEntry> = Vec::new();
    let cases = discover(&root, &entries, b'/').unwrap();
    assert!(cases.is_empty());
}
