use frum::alias::{create_alias, link_names_version, replace_symlink, AliasError, StoredAlias};
use frum::config::{default_base_dir, FrumConfig};
use frum::log::LogLevel;
use frum::version::Version;
use std::cell::RefCell;
use std::collections::HashMap;

fn path(parts: &[&str]) -> Vec<String> {
    parts.iter().map(|p| p.to_string()).collect()
}

fn config() -> FrumConfig {
    FrumConfig {
        base_dir: path(&["home", ".frum"]),
        frum_path: Some(path(&["tmp", "frum_7_9"])),
        log_level: LogLevel::Info,
        ruby_build_mirror: "https://cache.ruby-lang.org/pub/ruby".to_string(),
    }
}

/// Links of a pretend file system, by link path.
type Links = RefCell<HashMap<Vec<String>, Vec<String>>>;

fn replace(links: &Links, target: &[String], link: &[String]) -> Result<(), String> {
    replace_symlink(
        || match links.borrow_mut().remove(link) {
            Some(_) => Ok(()),
            None => Err("not found".to_string()),
        },
        || {
            let mut l = links.borrow_mut();
            if l.contains_key(link) {
                return Err("exists".to_string());
            }
            l.insert(link.to_vec(), target.to_vec());
            Ok(())
        },
    )
}

#[test]
fn layout_directories() {
    let c = config();
    assert_eq!(c.versions_dir(), path(&["home", ".frum", "versions"]));
    assert_eq!(c.aliases_dir(), path(&["home", ".frum", "aliases"]));
    assert_eq!(c.default_version_dir(), path(&["home", ".frum", "aliases", "default"]));
    assert_eq!(c.temp_installations_dir(), path(&["home", ".frum", "versions", ".downloads"]));
    assert_eq!(default_base_dir(&path(&["home", "me"])), path(&["home", "me", ".frum"]));
}

#[test]
fn alias_of_installed_version() {
    let c = config();
    let req = create_alias(&c, "default", &Version::parse("2.7.1").unwrap()).unwrap();
    assert_eq!(req.target, path(&["home", ".frum", "versions", "2.7.1"]));
    assert_eq!(req.link, path(&["home", ".frum", "aliases", "default"]));
}

#[test]
fn alias_of_system_is_not_found() {
    let c = config();
    assert_eq!(create_alias(&c, "default", &Version::System).unwrap_err(), AliasError::NotFound);
}

#[test]
fn replace_when_link_is_absent() {
    let links: Links = RefCell::new(HashMap::new());
    let target = path(&["base", "versions", "2.7.1"]);
    let link = path(&["tmp", "frum_1"]);
    assert_eq!(replace(&links, &target, &link), Ok(()));
    assert_eq!(links.borrow().get(&link), Some(&target));
}

#[test]
fn replace_twice_is_idempotent() {
    let links: Links = RefCell::new(HashMap::new());
    let target = path(&["base", "versions", "2.7.1"]);
    let link = path(&["tmp", "frum_1"]);
    assert_eq!(replace(&links, &target, &link), Ok(()));
    let after_first = links.borrow().clone();
    assert_eq!(replace(&links, &target, &link), Ok(()));
    assert_eq!(*links.borrow(), after_first);
}

#[test]
fn replace_repoints_existing_link() {
    let links: Links = RefCell::new(HashMap::new());
    let link = path(&["tmp", "frum_1"]);
    replace(&links, &path(&["v", "2.6.4"]), &link).unwrap();
    replace(&links, &path(&["v", "2.7.1"]), &link).unwrap();
    assert_eq!(links.borrow().get(&link), Some(&path(&["v", "2.7.1"])));
}

#[test]
fn replace_reports_removal_error_first() {
    let r: Result<(), &str> = replace_symlink(|| Err("removal"), || Err("creation"));
    assert_eq!(r, Err("removal"));
    let r: Result<(), &str> = replace_symlink(|| Ok(()), || Err("creation"));
    assert_eq!(r, Err("creation"));
    let r: Result<(), &str> = replace_symlink(|| Err("removal"), || Ok(()));
    assert_eq!(r, Ok(()));
}

#[test]
fn replace_removes_before_creating() {
    let order = RefCell::new(Vec::new());
    let _: Result<(), ()> = replace_symlink(
        || {
            order.borrow_mut().push("remove");
            Ok(())
        },
        || {
            order.borrow_mut().push("create");
            Ok(())
        },
    );
    assert_eq!(*order.borrow(), vec!["remove", "create"]);
}

#[test]
fn link_target_names_version() {
    let v = Version::parse("2.7.1").unwrap();
    assert!(link_names_version(&path(&["base", "versions", "2.7.1"]), &v));
    assert!(!link_names_version(&path(&["base", "versions", "2.7.0"]), &v));
    assert!(!link_names_version(&vec![], &v));
}

#[test]
fn stored_alias_parts() {
    let a = StoredAlias::new(path(&["base", "aliases", "default"]), path(&["base", "versions", "2.7.1"])).unwrap();
    assert_eq!(a.name(), "default");
    assert_eq!(a.s_ver(), "2.7.1");
    assert_eq!(a.path(), &path(&["base", "aliases", "default"]));
    assert!(StoredAlias::new(vec![], path(&["a", "b"])).is_none());
    assert!(StoredAlias::new(path(&["a"]), vec![]).is_none());
    assert_eq!(StoredAlias::new(path(&["a"]), path(&["b"])).unwrap().s_ver(), "b");
}
