use explorer::archive::ZipEntry;
use explorer::context_menu::{ContextTarget, MenuAction};
use explorer::explorer::{reveal_target, Effect, Explorer, FileOp};
use explorer::listing::{Entry, ExplorerError};
use explorer::types::{MenuBarAction, MenuBarMenu, Modal, PreviewContent, ViewLocation};

fn entry(name: &str, is_dir: bool) -> Entry {
    Entry { path: format!("/home/u/{name}"), name: name.to_string(), is_dir, size: None, modified: None }
}

fn fresh() -> Explorer {
    Explorer::new("/home/u".to_string(), Ok(vec![entry(".hidden", false), entry("docs", true), entry("a.txt", false)]))
}

#[test]
fn new_hides_dot_files() {
    let e = fresh();
    assert_eq!(e.current_dir, "/home/u");
    let names: Vec<_> = e.entries.iter().map(|x| x.name.clone()).collect();
    assert_eq!(names, vec!["docs", "a.txt"]);
    assert!(e.sidebar_open && !e.show_hidden && !e.show_preview);
    assert!(e.history.is_empty());
}

#[test]
fn load_dir_error_sets_status_only() {
    let mut e = fresh();
    e.load_dir("/nope".to_string(), Err(ExplorerError::Io("gone".into())));
    assert_eq!(e.current_dir, "/nope");
    assert_eq!(e.entries.len(), 2);
    let status = e.status.clone().unwrap();
    assert!(status.ends_with("  I/O error: gone"));
    assert!(e.status_is_error());
}

#[test]
fn back_after_into_returns_to_previous_dir() {
    let mut e = fresh();
    let eff = e.navigate_into("/home/u/docs".to_string());
    assert!(matches!(eff, Effect::ListDir(ref p) if p == "/home/u/docs"));
    e.load_dir("/home/u/docs".to_string(), Ok(vec![]));
    assert_eq!(e.current_dir, "/home/u/docs");
    let back = e.navigate_back();
    assert!(matches!(back, Effect::ListDir(ref p) if p == "/home/u"));
    assert!(e.history.is_empty());
    assert!(matches!(e.navigate_back(), Effect::Nothing));
}

#[test]
fn navigate_up_goes_to_parent() {
    let mut e = fresh();
    assert!(matches!(e.navigate_up(), Effect::ListDir(ref p) if p == "/home"));
    assert_eq!(e.history.len(), 1);
    let mut root = Explorer::new("/".to_string(), Ok(vec![]));
    assert!(matches!(root.navigate_up(), Effect::Nothing));
    assert!(root.history.is_empty());
}

#[test]
fn back_after_up_returns_to_previous_dir() {
    let mut e = fresh();
    let eff = e.navigate_up();
    assert!(matches!(eff, Effect::ListDir(ref p) if p == "/home"));
    e.load_dir("/home".to_string(), Ok(vec![]));
    assert!(matches!(e.navigate_back(), Effect::ListDir(ref p) if p == "/home/u"));
    assert!(e.history.is_empty());
}

#[test]
fn select_all_twice_from_some_checked_checks_all() {
    let mut e = fresh();
    e.toggle_multi_select(0);
    e.toggle_select_all();
    assert!(e.multi_selected.is_empty());
    e.toggle_select_all();
    assert_eq!(e.multi_selected.len(), 2);
}

#[test]
fn toggle_multi_select_twice_restores() {
    let mut e = fresh();
    e.toggle_multi_select(1);
    assert!(e.multi_selected.contains(&1));
    assert_eq!(e.selected, Some(1));
    e.toggle_multi_select(1);
    assert!(e.multi_selected.is_empty());
    assert!(!e.clear_multi_select());
}

#[test]
fn select_all_then_none() {
    let mut e = fresh();
    e.toggle_select_all();
    assert_eq!(e.multi_selected.len(), 2);
    assert_eq!(e.entry_count_label(), "2 selected / 2 items");
    e.toggle_select_all();
    assert!(e.multi_selected.is_empty());
    assert_eq!(e.entry_count_label(), "2 items");
}

#[test]
fn select_entry_asks_for_preview_when_open() {
    let mut e = fresh();
    assert!(matches!(e.select_entry(0), Effect::Nothing));
    e.show_preview = true;
    match e.select_entry(1) {
        Effect::Preview(en) => assert_eq!(en.name, "a.txt"),
        other => panic!("{other:?}"),
    }
    assert!(matches!(e.select_entry(9), Effect::Nothing));
    e.set_preview(entry("a.txt", false), PreviewContent::Text("hi".into()));
    assert!(matches!(e.preview_content, Some(PreviewContent::Text(ref t)) if t == "hi"));
}

#[test]
fn context_actions() {
    let mut e = fresh();
    e.open_context_menu(ContextTarget::File("/home/u/a.txt".into()));
    assert!(e.context_menu.is_some());
    let eff = e.execute_action(MenuAction::CopyName, ContextTarget::File("/home/u/a.txt".into()));
    assert!(e.context_menu.is_none());
    assert!(matches!(eff, Effect::CopyText(ref t) if t == "a.txt"));
    assert!(matches!(e.modal, Some(Modal::Toast(ref m)) if m.ends_with("  Copied name: a.txt")));

    let eff = e.execute_action(MenuAction::NewFolder, ContextTarget::File("/home/u/a.txt".into()));
    assert!(matches!(eff, Effect::FocusInput));
    assert!(matches!(e.modal, Some(Modal::NewItem { ref parent, ref name, is_dir: true }) if parent == "/home/u" && name == "New Folder"));

    let eff = e.execute_action(MenuAction::Rename, ContextTarget::File("/home/u/a.txt".into()));
    assert!(matches!(eff, Effect::FocusInput));
    assert!(matches!(e.modal, Some(Modal::Rename { ref path, ref name }) if path == "/home/u/a.txt" && name == "a.txt"));

    let eff = e.execute_action(MenuAction::Refresh, ContextTarget::Background { current_dir: "/home/u".into() });
    assert!(matches!(eff, Effect::ListDir(ref d) if d == "/home/u"));

    let eff = e.execute_action(MenuAction::ExtractHere, ContextTarget::File("/home/u/p.zip".into()));
    assert!(matches!(eff, Effect::Nothing));
    assert!(matches!(e.modal, Some(Modal::ExtractZip { ref zip_path, ref dest }) if zip_path == "/home/u/p.zip" && dest == "/home/u"));

    let eff = e.execute_action(MenuAction::Open, ContextTarget::File("/home/u/p.ZIP".into()));
    assert!(matches!(eff, Effect::ListZip { ref zip_path, ref inner_dir } if zip_path == "/home/u/p.ZIP" && inner_dir.is_empty()));
    assert_eq!(e.history.len(), 1);

    let eff = e.execute_action(MenuAction::Open, ContextTarget::File("/home/u/a.txt".into()));
    assert!(matches!(eff, Effect::OpenDefault(ref p) if p == "/home/u/a.txt"));
    let eff = e.execute_action(MenuAction::Delete, ContextTarget::Directory("/home/u/docs".into()));
    assert!(matches!(eff, Effect::Nothing));
    assert!(matches!(e.modal, Some(Modal::ConfirmDelete { ref path }) if path == "/home/u/docs"));
    assert!(matches!(e.execute_action(MenuAction::Properties, ContextTarget::Drive("/".into())), Effect::Properties(ref p) if p == "/"));
    assert!(matches!(e.execute_action(MenuAction::OpenInExplorer, ContextTarget::Drive("/".into())), Effect::Reveal(ref p) if p == "/"));
}

#[test]
fn menu_bar_actions() {
    let mut e = fresh();
    e.click_menu_bar(MenuBarMenu::View);
    assert_eq!(e.menu_bar_open, Some(MenuBarMenu::View));
    e.click_menu_bar(MenuBarMenu::View);
    assert_eq!(e.menu_bar_open, None);
    e.click_menu_bar(MenuBarMenu::File);
    let eff = e.execute_mb_action(MenuBarAction::ToggleHidden);
    assert!(e.show_hidden);
    assert!(e.menu_bar_open.is_none());
    assert!(matches!(eff, Effect::ListDir(ref d) if d == "/home/u"));
    assert!(matches!(e.execute_mb_action(MenuBarAction::Quit), Effect::Quit));
    assert!(matches!(e.execute_mb_action(MenuBarAction::About), Effect::Nothing));
    assert!(matches!(e.modal, Some(Modal::Toast(ref m)) if m.ends_with("  explorer v0.1.0")));
    e.selected = Some(0);
    assert!(matches!(e.execute_mb_action(MenuBarAction::TogglePreview), Effect::Preview(_)));
    assert!(matches!(e.execute_mb_action(MenuBarAction::TogglePreview), Effect::Nothing));
    let eff = e.execute_mb_action(MenuBarAction::NewFile);
    assert!(matches!(eff, Effect::FocusInput));
    assert!(matches!(e.modal, Some(Modal::NewItem { ref name, is_dir: false, .. }) if name == "New File.txt"));
}

#[test]
fn zip_browsing_round_trip() {
    let mut e = fresh();
    let eff = e.open_zip_browser("/home/u/p.zip".into());
    assert!(matches!(eff, Effect::ListZip { ref inner_dir, .. } if inner_dir.is_empty()));
    let listing = vec![ZipEntry { name: "sub".into(), is_dir: true, size: 0, compressed_size: 0 }];
    e.load_zip_dir("/home/u/p.zip".into(), String::new(), Ok(listing));
    assert_eq!(e.current_dir, "/home/u");
    assert!(e.path_display().ends_with("  p.zip"));
    assert!(!e.has_up());
    let eff = e.zip_navigate_into_dir("sub/");
    assert!(matches!(eff, Effect::ListZip { ref inner_dir, .. } if inner_dir == "sub/"));
    e.load_zip_dir("/home/u/p.zip".into(), "sub/".into(), Ok(vec![]));
    assert!(e.path_display().ends_with("p.zip / sub"));
    assert!(e.has_up());
    let up = e.zip_navigate_back();
    assert!(matches!(up, Effect::ListZip { ref inner_dir, .. } if inner_dir.is_empty()));
    e.load_zip_dir("/home/u/p.zip".into(), String::new(), Ok(vec![]));
    let out = e.zip_navigate_back();
    assert!(matches!(out, Effect::Nothing));
    assert!(e.zip_view.is_none());
}

#[test]
fn zip_error_shows_toast() {
    let mut e = fresh();
    e.load_zip_dir("/home/u/bad.zip".into(), String::new(), Err("invalid".into()));
    assert!(matches!(e.modal, Some(Modal::Toast(ref m)) if m.ends_with("  Cannot open zip: invalid")));
    assert!(e.zip_view.is_none());
}

#[test]
fn file_operations_report() {
    let mut e = fresh();
    e.modal = Some(Modal::ConfirmDelete { path: "/home/u/a.txt".into() });
    assert!(matches!(e.do_delete("/home/u/a.txt".into()), Effect::Delete(ref p) if p == "/home/u/a.txt"));
    assert!(e.modal.is_none());
    assert!(matches!(e.file_op_finished(FileOp::Delete, Ok(())), Effect::ListDir(ref d) if d == "/home/u"));
    assert!(matches!(e.file_op_finished(FileOp::Rename, Err(ExplorerError::Io("x".into()))), Effect::Nothing));
    assert!(matches!(e.modal, Some(Modal::Toast(ref m)) if m.ends_with("  Rename failed: I/O error: x")));
    match e.do_rename("/home/u/a.txt".into(), "  b.txt ".into()) {
        Effect::Rename { from, to } => {
            assert_eq!(from, "/home/u/a.txt");
            assert_eq!(to, "/home/u/b.txt");
        },
        other => panic!("{other:?}"),
    }
    assert!(matches!(e.do_new_item("/home/u".into(), "n".into(), true), Effect::Create { is_dir: true, .. }));
    assert!(matches!(e.do_extract_zip("/z.zip".into(), "/out".into()), Effect::Extract { .. }));
    assert!(matches!(e.extract_finished("/out".into(), Ok(())), Effect::ListDir(_)));
    assert!(matches!(e.modal, Some(Modal::Toast(ref m)) if m.ends_with("  Extracted to /out")));
    assert!(matches!(e.extract_finished("/out".into(), Err("disk full".into())), Effect::Nothing));
    assert!(e.is_toast_error());
    e.properties_failed(ExplorerError::Io("no".into()));
    assert!(matches!(e.modal, Some(Modal::Toast(ref m)) if m.ends_with("  I/O error: no")));
}

#[test]
fn rename_dialog_keys() {
    let mut e = fresh();
    e.modal = Some(Modal::Rename { path: "/home/u/a.txt".into(), name: "a.txt".into() });
    assert!(matches!(e.rename_key("/home/u/a.txt".into(), "backspace"), Effect::Nothing));
    assert!(matches!(e.rename_key("/home/u/a.txt".into(), "backspace"), Effect::Nothing));
    assert!(matches!(e.rename_key("/home/u/a.txt".into(), "m"), Effect::Nothing));
    assert!(matches!(e.rename_key("/home/u/a.txt".into(), "shift"), Effect::Nothing));
    assert!(matches!(e.modal, Some(Modal::Rename { ref name, .. }) if name == "a.tm"));
    match e.rename_key("/home/u/a.txt".into(), "enter") {
        Effect::Rename { to, .. } => assert_eq!(to, "/home/u/a.tm"),
        other => panic!("{other:?}"),
    }
    assert!(e.modal.is_none());
}

#[test]
fn new_item_dialog_keys() {
    let mut e = fresh();
    e.modal = Some(Modal::NewItem { parent: "/home/u".into(), name: "x".into(), is_dir: false });
    e.new_item_key("/home/u".into(), false, "y");
    match e.new_item_key("/home/u".into(), false, "enter") {
        Effect::Create { parent, name, is_dir } => {
            assert_eq!(parent, "/home/u");
            assert_eq!(name, "xy");
            assert!(!is_dir);
        },
        other => panic!("{other:?}"),
    }
    e.modal = Some(Modal::NewItem { parent: "/home/u".into(), name: "x".into(), is_dir: false });
    assert!(matches!(e.new_item_key("/home/u".into(), false, "escape"), Effect::Nothing));
    assert!(e.modal.is_none());
}

#[test]
fn row_clicks() {
    let mut e = fresh();
    assert!(matches!(e.row_clicked(1, "/home/u/a.txt".into(), false, false, true, 1), Effect::Nothing));
    assert!(e.multi_selected.contains(&1));
    assert!(matches!(e.row_clicked(0, "/home/u/docs".into(), true, false, false, 2), Effect::ListDir(ref p) if p == "/home/u/docs"));
    assert!(matches!(e.row_clicked(0, "/home/u/p.zip".into(), false, true, false, 2), Effect::ListZip { .. }));
    assert!(matches!(e.row_clicked(0, "/home/u/a.txt".into(), false, false, false, 2), Effect::OpenDefault(_)));
    assert!(matches!(e.row_clicked(0, "/home/u/a.txt".into(), false, false, false, 3), Effect::Nothing));
}

#[test]
fn sidebar_sections_toggle() {
    let mut e = fresh();
    e.toggle_section("qa-hdr");
    assert!(e.quickaccess_collapsed);
    e.toggle_section("drives-hdr");
    assert!(e.drives_collapsed);
    e.toggle_section("other");
    assert!(e.quickaccess_collapsed && e.drives_collapsed);
}

#[test]
fn extract_all_proposes_archive_folder() {
    let mut e = fresh();
    e.extract_all_clicked("/data/p.zip".into());
    assert!(matches!(e.modal, Some(Modal::ExtractZip { ref dest, .. }) if dest == "/data"));
}

#[test]
fn history_holds_zip_locations() {
    let mut e = fresh();
    e.history.push(ViewLocation::ZipArchive { zip_path: "/p.zip".into(), inner_dir: "a/".into() });
    assert!(matches!(e.navigate_back(), Effect::ListZip { ref inner_dir, .. } if inner_dir == "a/"));
}

#[test]
fn reveal_targets() {
    assert_eq!(reveal_target("/home/u/a.txt", true), "/home/u");
    assert_eq!(reveal_target("/home/u/docs", false), "/home/u/docs");
}

#[test]
fn leaving_archive_root_keeps_everything_else() {
    let mut e = fresh();
    e.open_zip_browser("/home/u/p.zip".into());
    e.load_zip_dir("/home/u/p.zip".into(), String::new(), Ok(vec![]));
    e.toggle_multi_select(0);
    e.set_preview(entry("a.txt", false), PreviewContent::Text("hi".into()));
    e.open_context_menu(ContextTarget::Background { current_dir: "/home/u".into() });
    e.click_menu_bar(MenuBarMenu::Help);
    e.open_context_menu(ContextTarget::Background { current_dir: "/home/u".into() });
    let history_before = e.history.len();
    let out = e.zip_navigate_back();
    assert!(matches!(out, Effect::Nothing));
    assert!(e.zip_view.is_none());
    assert_eq!(e.history.len(), history_before - 1);
    assert!(e.multi_selected.contains(&0));
    assert!(matches!(e.preview_content, Some(PreviewContent::Text(ref t)) if t == "hi"));
    assert!(e.preview_entry.is_some());
    assert!(e.context_menu.is_some());
    assert_eq!(e.current_dir, "/home/u");
}

#[test]
fn toolbar_buttons_route_by_location() {
    let mut e = fresh();
    assert!(matches!(e.up_clicked(), Effect::ListDir(ref p) if p == "/home"));
    e.load_dir("/home".into(), Ok(vec![]));
    assert!(matches!(e.back_clicked(), Effect::ListDir(ref p) if p == "/home/u"));
    e.load_dir("/home/u".into(), Ok(vec![]));
    e.open_zip_browser("/home/u/p.zip".into());
    e.load_zip_dir("/home/u/p.zip".into(), "sub/".into(), Ok(vec![]));
    assert!(matches!(e.up_clicked(), Effect::ListZip { ref inner_dir, .. } if inner_dir.is_empty()));
    e.load_zip_dir("/home/u/p.zip".into(), String::new(), Ok(vec![]));
    assert!(matches!(e.back_clicked(), Effect::Nothing));
    assert!(e.zip_view.is_none());
}

#[test]
fn row_targets_and_danger() {
    assert!(matches!(explorer::view::row_target("/a".into(), true), ContextTarget::Directory(ref p) if p == "/a"));
    assert!(matches!(explorer::view::row_target("/b".into(), false), ContextTarget::File(ref p) if p == "/b"));
    assert!(MenuAction::Delete.is_dangerous());
    assert!(!MenuAction::Rename.is_dangerous());
}
