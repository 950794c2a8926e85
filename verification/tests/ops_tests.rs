use explorer::format::Stamp;
use explorer::ops::{properties, rename_target, trim, unique_path};
use explorer::paths::{extension, file_stem};
use std::cell::RefCell;
use std::collections::HashSet;

#[test]
fn trim_removes_outer_white_space_only() {
    assert_eq!(trim("  a b \t\n"), "a b");
    assert_eq!(trim(""), "");
    assert_eq!(trim("   "), "");
    assert_eq!(trim("x"), "x");
    assert_eq!(trim("\u{3000}wide\u{a0}"), "wide");
}

#[test]
fn rename_target_joins_trimmed_name_to_parent() {
    assert_eq!(rename_target("/home/u/a.txt", "  b.txt "), "/home/u/b.txt");
    assert_eq!(rename_target("a.txt", "b.txt"), "b.txt");
    assert_eq!(rename_target("/", "x"), "./x");
}

#[test]
fn unique_path_plain_name_when_free() {
    let asked = RefCell::new(Vec::new());
    let r = unique_path("/tmp/d", "new.txt", |p: String| {
        asked.borrow_mut().push(p);
        false
    });
    assert_eq!(r, "/tmp/d/new.txt");
    assert_eq!(asked.into_inner(), vec!["/tmp/d/new.txt".to_string()]);
}

#[test]
fn unique_path_numbers_taken_names() {
    let taken: HashSet<String> = ["/tmp/d/new.txt", "/tmp/d/new (2).txt", "/tmp/d/new (3).txt"]
        .iter()
        .map(|s| s.to_string())
        .collect();
    let r = unique_path("/tmp/d", "new.txt", |p: String| taken.contains(&p));
    assert_eq!(r, "/tmp/d/new (4).txt");
}

#[test]
fn unique_path_numbers_names_without_extension() {
    let r = unique_path("/tmp/d", "New Folder", |p: String| p == "/tmp/d/New Folder");
    assert_eq!(r, "/tmp/d/New Folder (2)");
    let r = unique_path("/tmp/d", ".bashrc", |p: String| p == "/tmp/d/.bashrc");
    assert_eq!(r, "/tmp/d/.bashrc (2)");
    let r = unique_path("/tmp/d", "a.tar.gz", |p: String| p == "/tmp/d/a.tar.gz");
    assert_eq!(r, "/tmp/d/a.tar (2).gz");
}

#[test]
fn unique_path_gives_up_at_9999() {
    let count = RefCell::new(0usize);
    let r = unique_path("/d", "f", |_p: String| {
        *count.borrow_mut() += 1;
        true
    });
    assert_eq!(r, "/d/f (9999)");
    assert_eq!(count.into_inner(), 9999);
}

#[test]
fn stem_and_extension_follow_path_rules() {
    assert_eq!(extension("a.txt"), Some("txt".to_string()));
    assert_eq!(extension(".bashrc"), None);
    assert_eq!(extension("noext"), None);
    assert_eq!(extension("a.tar.gz"), Some("gz".to_string()));
    assert_eq!(extension("dir/file."), Some("".to_string()));
    assert_eq!(file_stem("a.tar.gz"), Some("a.tar".to_string()));
    assert_eq!(file_stem(".bashrc"), Some(".bashrc".to_string()));
    assert_eq!(file_stem("/x/y.rs"), Some("y".to_string()));
    assert_eq!(file_stem("/"), None);
}

#[test]
fn properties_of_a_file() {
    let p = properties("/home/u/a.txt", false, 2048, Some(3), Some(Stamp::Secs(0)), None, true);
    assert_eq!(p.name, "a.txt");
    assert_eq!(p.full_path, "/home/u/a.txt");
    assert_eq!(p.kind, "File");
    assert_eq!(p.size, "2.0 KB");
    assert_eq!(p.modified, "1970-01-01 00:00");
    assert_eq!(p.created, "\u{2014}");
    assert!(p.readonly);
    assert_eq!(p.item_count, None);
}

#[test]
fn properties_of_a_directory() {
    let p = properties("/", true, 4096, Some(7), Some(Stamp::BeforeEpoch), Some(Stamp::Secs(86400)), false);
    assert_eq!(p.name, "/");
    assert_eq!(p.kind, "Directory");
    assert_eq!(p.size, "");
    assert_eq!(p.item_count, Some(7));
    assert_eq!(p.modified, "1970-01-01 00:00");
    assert_eq!(p.created, "1970-01-02 00:00");
    assert!(!p.readonly);
}

#[test]
fn white_space_is_the_unicode_set() {
    for c in ['\t', '\n', '\u{b}', '\u{c}', '\r', ' ', '\u{85}', '\u{a0}', '\u{1680}', '\u{2000}', '\u{200a}', '\u{2028}', '\u{2029}', '\u{202f}', '\u{205f}', '\u{3000}'] {
        assert!(explorer::paths::is_whitespace(c), "{c:?}");
    }
    for c in ['a', '\u{8}', '\u{e}', '\u{200b}', '\u{feff}', '\u{180e}'] {
        assert!(!explorer::paths::is_whitespace(c), "{c:?}");
    }
    for n in 0u32..0x3100 {
        if let Some(c) = char::from_u32(n) {
            assert_eq!(explorer::paths::is_whitespace(c), c.is_whitespace(), "{n:x}");
        }
    }
}
