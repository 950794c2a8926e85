use explorer::constants::{ICO_DOWNLOADS, ICO_HOME, ICO_MUSIC};
use explorer::sidebar::{breadcrumb_segments, is_active, mount_candidates, quick_access, root_dirs_from};
use std::cell::RefCell;

const MOUNTS: &str = "sysfs /sys sysfs rw,nosuid 0 0\n\
/dev/sda2 / ext4 rw,relatime 0 0\n\
/dev/sda1 /boot/efi vfat rw 0 0\n\
tmpfs /run tmpfs rw 0 0\n\
/dev/nvme0n1p1 /data ext4 rw 0 0\r\n\
server:/share /mnt/share nfs rw 0 0\n\
/dev/sdb1 /media/u/USB vfat rw 0 0\n\
none\n";

#[test]
fn mount_candidates_keep_disks_and_media() {
    let m = mount_candidates(MOUNTS);
    assert_eq!(m, vec!["/boot/efi", "/data", "/mnt/share", "/media/u/USB"]);
    assert!(mount_candidates("").is_empty());
}

#[test]
fn root_dirs_put_root_first_then_sorted_unique() {
    let r = root_dirs_from(vec!["/mnt/b".to_string(), "/data".to_string(), "/mnt/b/".to_string(), "/".to_string()]);
    assert_eq!(r, vec!["/", "/data", "/mnt/b"]);
    assert_eq!(root_dirs_from(Vec::new()), vec!["/"]);
}

#[test]
fn quick_access_lists_home_and_present_places() {
    let asked = RefCell::new(Vec::new());
    let r = quick_access("/home/u", |p: String| {
        asked.borrow_mut().push(p.clone());
        p.ends_with("Downloads") || p.ends_with("Music")
    });
    assert_eq!(r.len(), 3);
    assert_eq!(r[0], ("Home", ICO_HOME, "/home/u".to_string()));
    assert_eq!(r[1], ("Downloads", ICO_DOWNLOADS, "/home/u/Downloads".to_string()));
    assert_eq!(r[2], ("Music", ICO_MUSIC, "/home/u/Music".to_string()));
    assert_eq!(asked.into_inner().len(), 6);
}

#[test]
fn active_place_covers_its_subtree() {
    assert!(is_active("/home/u", "/home/u"));
    assert!(is_active("/home/u", "/home/u/docs/x"));
    assert!(is_active("/home/u/", "/home/u"));
    assert!(!is_active("/home/u", "/home/user"));
    assert!(!is_active("/home/u/docs", "/home/u"));
}

#[test]
fn breadcrumbs_of_paths() {
    let s = |v: &[(&str, &str)]| v.iter().map(|(a, b)| (a.to_string(), b.to_string())).collect::<Vec<_>>();
    assert_eq!(
        breadcrumb_segments("/home/user"),
        s(&[("/", "/"), ("home", "/home"), ("user", "/home/user")])
    );
    assert_eq!(breadcrumb_segments("/"), s(&[("/", "/")]));
    assert_eq!(breadcrumb_segments("a/./b"), s(&[("a", "a"), ("b", "a/b")]));
    assert_eq!(breadcrumb_segments("/a/../b"), s(&[("/", "/"), ("a", "/a"), ("b", "/a/../b")]));
    assert!(breadcrumb_segments("").is_empty());
}

#[test]
fn root_dirs_hold_the_kept_mounts_in_path_order() {
    let r = root_dirs_from(vec![
        "/run/media/u/B".to_string(),
        "/media/a".to_string(),
        "/data/x".to_string(),
        "/data".to_string(),
        "/media/a/".to_string(),
    ]);
    assert_eq!(r, vec!["/", "/data", "/data/x", "/media/a", "/run/media/u/B"]);
    for w in r[1..].windows(2) {
        assert!(std::path::Path::new(&w[0]) <= std::path::Path::new(&w[1]));
    }
}

#[test]
fn root_dirs_drop_root_and_equal_paths() {
    let r = root_dirs_from(vec!["/".to_string(), "//".to_string(), "/m/".to_string(), "/m".to_string(), "/m/./".to_string()]);
    assert_eq!(r, vec!["/", "/m/"]);
}
