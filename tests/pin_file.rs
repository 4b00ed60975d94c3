use frum::input_version::InputVersion;
use frum::version::Version;
use frum::version_file::{each_dir, find_up, get_user_version_for_directory, version_from_contents, VERSION_FILE};
use std::cell::RefCell;

fn path(parts: &[&str]) -> Vec<String> {
    parts.iter().map(|p| p.to_string()).collect()
}

#[test]
fn each_dir_walks_to_root() {
    let dirs = each_dir(&path(&["a", "b", "c"]));
    assert_eq!(dirs, vec![path(&["a", "b", "c"]), path(&["a", "b"]), path(&["a"]), vec![]]);
}

#[test]
fn find_up_finds_file_in_ancestor() {
    let pin = path(&["a", VERSION_FILE]);
    let found = find_up(&path(&["a", "b", "c"]), VERSION_FILE, |p: &Vec<String>| *p == pin);
    assert_eq!(found, Some(path(&["a", ".ruby-version"])));
}

#[test]
fn find_up_outside_tree_is_none() {
    let pin = path(&["a", VERSION_FILE]);
    let found = find_up(&path(&["x", "y"]), VERSION_FILE, |p: &Vec<String>| *p == pin);
    assert_eq!(found, None);
}

#[test]
fn find_up_asks_nearest_first_and_stops() {
    let asked = RefCell::new(Vec::new());
    let found = find_up(&path(&["a", "b"]), "f", |p: &Vec<String>| {
        asked.borrow_mut().push(p.clone());
        *p == path(&["a", "f"])
    });
    assert_eq!(found, Some(path(&["a", "f"])));
    assert_eq!(*asked.borrow(), vec![path(&["a", "b", "f"]), path(&["a", "f"])]);
}

#[test]
fn find_up_reaches_root() {
    let found = find_up(&path(&["a"]), "f", |p: &Vec<String>| *p == path(&["f"]));
    assert_eq!(found, Some(path(&["f"])));
}

#[test]
fn contents_with_full_version() {
    match version_from_contents(&b"2.7.1\n".to_vec()) {
        Some(InputVersion::Full(Version::Semver(v))) => assert_eq!((v.major, v.minor, v.patch), (2, 7, 1)),
        other => panic!("unexpected {:?}", other),
    }
}

#[test]
fn contents_with_partial_version() {
    assert!(matches!(version_from_contents(&b"  2.7 \r\n".to_vec()), Some(InputVersion::MajorMinor(2, 7))));
    assert!(matches!(version_from_contents(&b"ruby-3\n".to_vec()), None));
}

#[test]
fn contents_that_name_no_version() {
    assert!(version_from_contents(&b"".to_vec()).is_none());
    assert!(version_from_contents(&b"hello".to_vec()).is_none());
}

#[test]
fn contents_that_are_not_utf8() {
    assert!(version_from_contents(&vec![0x80, 0x32, 0x2e, 0x37]).is_none());
}

#[test]
fn contents_in_utf16_with_mark() {
    let mut bytes = vec![0xff, 0xfe];
    for c in "2.6.4".encode_utf16() {
        bytes.extend_from_slice(&c.to_le_bytes());
    }
    match version_from_contents(&bytes) {
        Some(InputVersion::Full(v)) => assert_eq!(v.to_string(), "2.6.4"),
        other => panic!("unexpected {:?}", other),
    }
}

#[test]
fn pin_file_in_ancestor_is_read() {
    let pin = path(&["a", ".ruby-version"]);
    let found = get_user_version_for_directory(
        &path(&["a", "b", "c"]),
        |p: &Vec<String>| *p == pin,
        |p: &Vec<String>| if *p == pin { Some(b"2.7.1\n".to_vec()) } else { None },
    );
    match found {
        Some(InputVersion::Full(v)) => assert_eq!(v.to_string(), "2.7.1"),
        other => panic!("unexpected {:?}", other),
    }
}

#[test]
fn no_pin_file_outside_tree() {
    let pin = path(&["a", ".ruby-version"]);
    let found = get_user_version_for_directory(
        &path(&["x", "y"]),
        |p: &Vec<String>| *p == pin,
        |_: &Vec<String>| Some(b"2.7.1\n".to_vec()),
    );
    assert!(found.is_none());
}

#[test]
fn unreadable_pin_file_names_nothing() {
    let found = get_user_version_for_directory(&path(&["a"]), |_: &Vec<String>| true, |_: &Vec<String>| None);
    assert!(found.is_none());
}
