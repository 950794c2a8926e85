use explorer::archive::ZipEntry;
use explorer::constants::{
    COL_DIR, COL_FILE, COL_TEXT, COL_ZIP, ICO_ARCHIVE, ICO_BIN, ICO_CODE, ICO_FILE, ICO_FOLDER, ICO_IMG, ICO_PDF,
    ICO_WARN,
};
use explorer::format::Stamp;
use explorer::listing::Entry;
use explorer::ops::properties;
use explorer::types::PreviewContent;
use explorer::utils::{build_preview, file_icon, file_icon_color, lower_extension, preview_reads_text};
use explorer::view::{
    binary_message, delete_prompt, directory_message, is_error_message, preview_text, props_view, render_row_view,
    selection_label, zip_row_view,
};

#[test]
fn icons_by_extension_ignore_case() {
    assert_eq!(file_icon("photo.PNG"), ICO_IMG);
    assert_eq!(file_icon("a.tar"), ICO_ARCHIVE);
    assert_eq!(file_icon("doc.pdf"), ICO_PDF);
    assert_eq!(file_icon("tool.bin"), ICO_BIN);
    assert_eq!(file_icon("main.rs"), ICO_CODE);
    assert_eq!(file_icon("notes.txt"), ICO_FILE);
    assert_eq!(file_icon("Makefile"), ICO_FILE);
    assert_eq!(file_icon(".zip"), ICO_FILE);
}

#[test]
fn icon_colour_marks_archives() {
    assert_eq!(file_icon_color("x.ZIP"), COL_ZIP);
    assert_eq!(file_icon_color("x.tar"), COL_FILE);
    assert_eq!(lower_extension("A.TxT"), "txt");
    assert_eq!(lower_extension("none"), "");
}

#[test]
fn preview_choice() {
    assert!(preview_reads_text("/a/README.MD"));
    assert!(!preview_reads_text("/a/pic.png"));
    assert!(matches!(
        build_preview("/a", true, Some(4), None, None),
        PreviewContent::Directory { item_count: 4 }
    ));
    assert!(matches!(build_preview("/a", true, None, None, None), PreviewContent::Directory { item_count: 0 }));
    match build_preview("/a/n.txt", false, None, Some("hi".to_string()), Some(2)) {
        PreviewContent::Text(t) => assert_eq!(t, "hi"),
        other => panic!("unexpected {other:?}"),
    }
    assert!(matches!(
        build_preview("/a/n.txt", false, None, None, Some(9)),
        PreviewContent::Binary { size: 9, kind: "File" }
    ));
    assert!(matches!(
        build_preview("/a/p.JPG", false, None, None, Some(10)),
        PreviewContent::Binary { size: 10, kind: "Image" }
    ));
    assert!(matches!(build_preview("/a/m.mkv", false, None, None, None), PreviewContent::Binary { size: 0, kind: "Video" }));
    assert!(matches!(build_preview("/a/s.flac", false, None, None, None), PreviewContent::Binary { kind: "Audio", .. }));
    assert!(matches!(build_preview("/a/s.7z", false, None, None, None), PreviewContent::Binary { kind: "Archive", .. }));
    assert!(matches!(build_preview("/a/s.pdf", false, None, None, None), PreviewContent::Binary { kind: "PDF", .. }));
    assert!(matches!(build_preview("/a/s.dll", false, None, None, None), PreviewContent::Binary { kind: "Binary", .. }));
    assert!(matches!(build_preview("/a/s.bin", false, None, None, None), PreviewContent::Binary { kind: "File", .. }));
}

#[test]
fn selection_labels() {
    assert_eq!(selection_label(1), "1 item selected");
    assert_eq!(selection_label(0), "0 items selected");
    assert_eq!(selection_label(12), "12 items selected");
}

#[test]
fn error_messages_carry_the_warning_icon() {
    assert!(is_error_message(&format!("{ICO_WARN}  oops")));
    assert!(!is_error_message("all good"));
}

#[test]
fn rows_of_the_file_list() {
    let dir = Entry { path: "/d".into(), name: "d".into(), is_dir: true, size: None, modified: Some(Stamp::Secs(0)) };
    let r = render_row_view(&dir);
    assert_eq!(r.icon, ICO_FOLDER);
    assert_eq!((r.icon_color, r.name_color), (COL_DIR, COL_DIR));
    assert!(!r.is_zip);
    assert_eq!(r.size_text, "");
    assert_eq!(r.modified_text, "1970-01-01 00:00");

    let zip = Entry { path: "/a.ZIP".into(), name: "a.ZIP".into(), is_dir: false, size: Some(1536), modified: None };
    let r = render_row_view(&zip);
    assert!(r.is_zip);
    assert_eq!(r.icon, ICO_ARCHIVE);
    assert_eq!((r.icon_color, r.name_color), (COL_ZIP, COL_ZIP));
    assert_eq!(r.size_text, "1.5 KB");
    assert_eq!(r.modified_text, "");

    let txt = Entry { path: "/n.txt".into(), name: "n.txt".into(), is_dir: false, size: Some(5), modified: None };
    let r = render_row_view(&txt);
    assert!(!r.is_zip);
    assert_eq!((r.icon_color, r.name_color), (COL_FILE, COL_TEXT));
    assert_eq!(r.size_text, "5 B");
}

#[test]
fn rows_of_an_archive_listing() {
    let d = ZipEntry { name: "src".into(), is_dir: true, size: 0, compressed_size: 0 };
    let r = zip_row_view(&d);
    assert_eq!(r.icon, ICO_FOLDER);
    assert_eq!(r.icon_color, COL_DIR);
    assert_eq!(r.size_text, "\u{2014}");
    assert_eq!(r.compressed_text, "\u{2014}");
    assert_eq!(r.subdir, "src/");

    let f = ZipEntry { name: "in.zip".into(), is_dir: false, size: 2048, compressed_size: 100 };
    let r = zip_row_view(&f);
    assert_eq!(r.icon, ICO_ARCHIVE);
    assert_eq!(r.icon_color, COL_ZIP);
    assert_eq!(r.size_text, "2.0 KB");
    assert_eq!(r.compressed_text, "100 B");
}

#[test]
fn dialog_and_preview_texts() {
    assert_eq!(delete_prompt(true), "Permanently delete this folder (and all its contents)?");
    assert_eq!(delete_prompt(false), "Permanently delete this file?");
    assert_eq!(binary_message("Image", 2048), "Image file \u{b7} 2.0 KB");
    assert_eq!(directory_message(3), "3 items");
}

#[test]
fn preview_text_cuts_long_text() {
    let short = "x".repeat(4000);
    assert_eq!(preview_text(&short), short);
    let long = "y".repeat(4001);
    let p = preview_text(&long);
    assert_eq!(p, format!("{}\n\u{2026}", "y".repeat(4000)));
}

#[test]
fn properties_window_values() {
    let d = properties("/home/u/docs", true, 0, None, None, None, false);
    let v = props_view(&d);
    assert_eq!(v.icon, ICO_FOLDER);
    assert_eq!(v.icon_color, COL_DIR);
    assert_eq!(v.size, "\u{2014}");
    assert_eq!(v.items, "\u{2014}");
    assert_eq!(v.readonly, "No");

    let d = properties("/home/u/docs", true, 0, Some(12), None, None, true);
    let v = props_view(&d);
    assert_eq!(v.items, "12");
    assert_eq!(v.readonly, "Yes");

    let f = properties("/home/u/main.rs", false, 10, None, None, None, false);
    let v = props_view(&f);
    assert_eq!(v.icon, ICO_CODE);
    assert_eq!(v.icon_color, COL_FILE);
    assert_eq!(v.size, "10 B");
}
