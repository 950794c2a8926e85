use explorer::archive::{entries_for_dir, parent_zip_dir, trimmed_dir, zip_entries_for_dir, ZipEntry, ZipRecord};
use std::io::{Cursor, Write};

fn make_zip(files: &[(&str, &[u8])], dirs: &[&str]) -> Vec<u8> {
    let mut w = zip::ZipWriter::new(Cursor::new(Vec::new()));
    let opts = zip::write::SimpleFileOptions::default().compression_method(zip::CompressionMethod::Stored);
    for d in dirs {
        w.add_directory(*d, opts).unwrap();
    }
    for (name, data) in files {
        w.start_file(*name, opts).unwrap();
        w.write_all(data).unwrap();
    }
    w.finish().unwrap().into_inner()
}

fn shape(v: &[ZipEntry]) -> Vec<(String, bool, u64)> {
    v.iter().map(|e| (e.name.clone(), e.is_dir, e.size)).collect()
}

#[test]
fn zip_top_level_lists_dirs_sorted_then_files_in_order() {
    let bytes = make_zip(
        &[("z.txt", b"zz"), ("dir/x.txt", b"x"), ("dir/sub/y.txt", b"yy"), ("a.txt", b"aaa"), ("b/c.txt", b"c")],
        &["dir/"],
    );
    let top = zip_entries_for_dir(bytes.clone(), "").unwrap();
    assert_eq!(
        shape(&top),
        vec![
            ("b".to_string(), true, 0),
            ("dir".to_string(), true, 0),
            ("z.txt".to_string(), false, 2),
            ("a.txt".to_string(), false, 3),
        ]
    );
    let inner = zip_entries_for_dir(bytes, "dir/").unwrap();
    assert_eq!(shape(&inner), vec![("sub".to_string(), true, 0), ("x.txt".to_string(), false, 1)]);
}

#[test]
fn zip_invalid_bytes_fail() {
    assert!(zip_entries_for_dir(b"not a zip".to_vec(), "").is_err());
}

#[test]
fn entries_for_dir_skips_outside_and_unreadable() {
    let rec = |n: &str, s: u64| Some(ZipRecord { name: n.to_string(), size: s, compressed_size: s / 2 });
    let records = vec![rec("docs/", 0), None, rec("docs/readme.md", 10), rec("other/file", 1), rec("docs/img/a.png", 4)];
    let v = entries_for_dir(&records, "docs/");
    assert_eq!(shape(&v), vec![("img".to_string(), true, 0), ("readme.md".to_string(), false, 10)]);
    assert_eq!(v[1].compressed_size, 5);
}

#[test]
fn parent_zip_dir_cases() {
    assert_eq!(parent_zip_dir(""), None);
    assert_eq!(parent_zip_dir("/"), None);
    assert_eq!(parent_zip_dir("a/"), Some(String::new()));
    assert_eq!(parent_zip_dir("a/b/"), Some("a/".to_string()));
    assert_eq!(parent_zip_dir("a/b//"), Some("a/".to_string()));
    assert_eq!(parent_zip_dir("a/b/c"), Some("a/b/".to_string()));
}

#[test]
fn parent_of_child_dir_is_the_dir() {
    for inner in ["", "a/", "a/b/", "x//"] {
        let child = format!("{inner}name/");
        assert_eq!(parent_zip_dir(&child), Some(inner.to_string()));
    }
}

#[test]
fn trimmed_dir_cases() {
    assert_eq!(trimmed_dir("a/b//"), "a/b");
    assert_eq!(trimmed_dir("a"), "a");
    assert_eq!(trimmed_dir("///"), "");
}
