use explorer::format::Stamp;
use explorer::listing::{build_entry, list_dir, retain_shown, sort_entries, Entry, ExplorerError};

fn entry(name: &str, is_dir: bool) -> Entry {
    Entry {
        path: format!("/d/{name}"),
        name: name.to_string(),
        is_dir,
        size: if is_dir { None } else { Some(1) },
        modified: None,
    }
}

fn names(v: &[Entry]) -> Vec<String> {
    v.iter().map(|e| e.name.clone()).collect()
}

#[test]
fn list_dir_puts_directories_first_then_names_ignoring_case() {
    let scanned = vec![
        Ok(entry("b.txt", false)),
        Ok(entry("Zeta", true)),
        Ok(entry("A.txt", false)),
        Err(ExplorerError::Io("denied".to_string())),
        Ok(entry("alpha", true)),
        Ok(entry("c.TXT", false)),
    ];
    let listed = list_dir(scanned).unwrap();
    assert_eq!(names(&listed), vec!["alpha", "Zeta", "A.txt", "b.txt", "c.TXT"]);
}

#[test]
fn sort_entries_is_stable_for_equal_names() {
    let mut a = entry("Same", false);
    a.path = "/first/Same".to_string();
    let mut b = entry("same", false);
    b.path = "/second/same".to_string();
    let c = entry("a", false);
    let sorted = sort_entries(&vec![a, b, c]);
    let paths: Vec<String> = sorted.iter().map(|e| e.path.clone()).collect();
    assert_eq!(paths, vec!["/d/a", "/first/Same", "/second/same"]);
}

#[test]
fn sort_entries_empty() {
    assert!(sort_entries(&vec![]).is_empty());
}

#[test]
fn build_entry_names_and_sizes() {
    let e = build_entry("/tmp/notes.txt".to_string(), false, true, 42, Some(Stamp::Secs(5))).unwrap();
    assert_eq!(e.name, "notes.txt");
    assert_eq!(e.size, Some(42));
    assert_eq!(e.modified, Some(Stamp::Secs(5)));
    let d = build_entry("/tmp/dir".to_string(), true, false, 4096, None).unwrap();
    assert_eq!(d.name, "dir");
    assert!(d.is_dir);
    assert_eq!(d.size, None);
}

#[test]
fn build_entry_without_file_name_fails() {
    match build_entry("/".to_string(), true, false, 0, None) {
        Err(ExplorerError::NoFileName(p)) => assert_eq!(p, "/"),
        other => panic!("unexpected {other:?}"),
    }
}

#[test]
fn error_messages() {
    assert_eq!(ExplorerError::Io("boom".into()).message(), "I/O error: boom");
    assert_eq!(ExplorerError::Walk("w".into()).message(), "WalkDir error: w");
    assert_eq!(ExplorerError::NoFileName("/".into()).message(), "Path has no file name: /");
}

#[test]
fn retain_shown_drops_dot_files() {
    let v = vec![entry(".git", true), entry("src", true), entry(".env", false), entry("a", false)];
    assert_eq!(names(&retain_shown(v.clone(), false)), vec!["src", "a"]);
    assert_eq!(names(&retain_shown(v, true)), vec![".git", "src", ".env", "a"]);
}
