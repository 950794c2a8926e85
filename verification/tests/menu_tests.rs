use explorer::context_menu::{is_zip_path, items_for, ContextTarget, MenuAction, MenuItem};
use explorer::types::{MenuBarAction, MenuBarMenu, ViewLocation};
use explorer::view::menubar_items;

#[test]
fn file_menu_for_archive_offers_zip_actions() {
    let items = items_for(&ContextTarget::File("/x/pack.ZIP".into()));
    assert_eq!(items.len(), 13);
    assert_eq!(items[3], MenuItem::Action(MenuAction::BrowseZip));
    assert_eq!(items[4], MenuItem::Action(MenuAction::ExtractHere));
    assert_eq!(items[12], MenuItem::Action(MenuAction::Properties));
}

#[test]
fn file_menu_for_plain_file() {
    let items = items_for(&ContextTarget::File("/x/a.txt".into()));
    assert_eq!(
        items,
        vec![
            MenuItem::Action(MenuAction::Open),
            MenuItem::Action(MenuAction::OpenInExplorer),
            MenuItem::Separator,
            MenuItem::Action(MenuAction::CopyPath),
            MenuItem::Action(MenuAction::CopyName),
            MenuItem::Separator,
            MenuItem::Action(MenuAction::Rename),
            MenuItem::Action(MenuAction::Delete),
            MenuItem::Separator,
            MenuItem::Action(MenuAction::Properties),
        ]
    );
}

#[test]
fn other_menus() {
    assert_eq!(items_for(&ContextTarget::Directory("/x".into())).len(), 10);
    assert_eq!(items_for(&ContextTarget::Directory("/x".into()))[0], MenuItem::Action(MenuAction::NavigateTo));
    let bg = items_for(&ContextTarget::Background { current_dir: "/x".into() });
    assert_eq!(bg[0], MenuItem::Action(MenuAction::Refresh));
    assert_eq!(bg.len(), 6);
    let drive = items_for(&ContextTarget::Drive("/".into()));
    assert_eq!(drive.len(), 5);
    assert_eq!(drive[2], MenuItem::Action(MenuAction::Refresh));
}

#[test]
fn zip_detection() {
    assert!(is_zip_path("a.zip"));
    assert!(is_zip_path("/p/A.ZiP"));
    assert!(!is_zip_path("a.zip.txt"));
    assert!(!is_zip_path(".zip"));
    assert!(!is_zip_path("zip"));
}

#[test]
fn labels_and_icons() {
    assert_eq!(MenuAction::OpenInExplorer.label(), "Show in explorer");
    assert_eq!(MenuAction::Delete.label(), "Delete");
    assert_eq!(MenuAction::Open.icon(), "\u{f115} ");
    assert_eq!(MenuAction::Properties.icon(), "\u{f05a} ");
}

#[test]
fn target_paths() {
    assert_eq!(ContextTarget::File("/a".into()).path(), Some(&"/a".to_string()));
    assert_eq!(ContextTarget::Background { current_dir: "/b".into() }.path(), Some(&"/b".to_string()));
}

#[test]
fn view_location_is_zip() {
    assert!(ViewLocation::ZipArchive { zip_path: "a.zip".into(), inner_dir: "".into() }.is_zip());
    assert!(!ViewLocation::FileSystem("/".into()).is_zip());
}

#[test]
fn menubar_view_labels_follow_settings() {
    let v = menubar_items(MenuBarMenu::View, true, false, true);
    assert_eq!(v.len(), 4);
    let (l0, a0) = v[0].clone().unwrap();
    assert!(l0.ends_with("  Hide Hidden Files"));
    assert_eq!(a0, MenuBarAction::ToggleHidden);
    assert!(v[1].is_none());
    assert!(v[2].clone().unwrap().0.ends_with("  Show Sidebar"));
    assert!(v[3].clone().unwrap().0.ends_with("  Hide Preview"));
    let f = menubar_items(MenuBarMenu::File, false, false, false);
    assert_eq!(f.len(), 6);
    assert_eq!(f[5].clone().unwrap().1, MenuBarAction::Quit);
    let h = menubar_items(MenuBarMenu::Help, false, false, false);
    assert_eq!(h.len(), 1);
    assert!(h[0].clone().unwrap().0.ends_with("  About"));
}

#[test]
fn menus_depend_only_on_kind_and_zip_extension() {
    let plain = items_for(&ContextTarget::File("/y/notes.txt".into()));
    let zip = items_for(&ContextTarget::File("/x/pack.zip".into()));
    let mut expected = plain[..2].to_vec();
    expected.extend([
        MenuItem::Separator,
        MenuItem::Action(MenuAction::BrowseZip),
        MenuItem::Action(MenuAction::ExtractHere),
    ]);
    expected.extend_from_slice(&plain[2..]);
    assert_eq!(zip, expected);
    assert_eq!(items_for(&ContextTarget::File("/z/other".into())), plain);
    assert_eq!(
        items_for(&ContextTarget::Directory("/a".into())),
        items_for(&ContextTarget::Directory("/b/c".into()))
    );
    assert_eq!(items_for(&ContextTarget::Drive("/".into())), items_for(&ContextTarget::Drive("/mnt/x".into())));
    assert_eq!(
        items_for(&ContextTarget::Background { current_dir: "/a".into() }),
        items_for(&ContextTarget::Background { current_dir: "/q".into() })
    );
}
