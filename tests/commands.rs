use frum::commands::clean::Clean;
use frum::commands::global::{self, Global};
use frum::commands::init::generate_symlink_path;
use frum::commands::install::{archive, package_url, FrumError as InstallError, Install};
use frum::commands::install_list::InstallList;
use frum::commands::local::{FrumError as LocalError, Local, LocalPlan};
use frum::commands::uninstall::{FrumError as UninstallError, Uninstall, UninstallOutcome};
use frum::commands::versions::{is_dotfile, Versions};
use frum::config::FrumConfig;
use frum::input_version::InputVersion;
use frum::log::LogLevel;
use frum::remote_ruby_index::parse_index;
use frum::version::{SemVer, Version};

fn path(parts: &[&str]) -> Vec<String> {
    parts.iter().map(|p| p.to_string()).collect()
}

fn config(pointer: bool) -> FrumConfig {
    FrumConfig {
        base_dir: path(&["b"]),
        frum_path: if pointer { Some(path(&["tmp", "frum_1_2"])) } else { None },
        log_level: LogLevel::Info,
        ruby_build_mirror: "https://cache.ruby-lang.org/pub/ruby".to_string(),
    }
}

fn v(s: &str) -> Version {
    Version::parse(s).unwrap()
}

fn semver(s: &str) -> SemVer {
    match v(s) {
        Version::Semver(x) => x,
        Version::System => panic!("not semantic"),
    }
}

fn installed() -> Vec<Version> {
    vec![v("2.6.4"), v("2.7.1"), v("3.0.0")]
}

#[test]
fn global_sets_default_for_installed_version() {
    let g = Global { version: InputVersion::Full(v("2.6.4")) };
    let req = g.apply(&config(true), &installed()).unwrap();
    assert_eq!(req.target, path(&["b", "versions", "2.6.4"]));
    assert_eq!(req.link, path(&["b", "aliases", "default"]));
}

#[test]
fn global_refuses_missing_version() {
    let g = Global { version: InputVersion::Full(v("2.7.0")) };
    match g.apply(&config(true), &installed()) {
        Err(global::FrumError::VersionNotFound { version }) => assert_eq!(version, "2.7.0"),
        other => panic!("unexpected {:?}", other),
    }
}

#[test]
fn global_resolves_partial_version() {
    let g = Global { version: InputVersion::Major(2) };
    let req = g.apply(&config(true), &installed()).unwrap();
    assert_eq!(req.target, path(&["b", "versions", "2.7.1"]));
    let none = Global { version: InputVersion::MajorMinor(2, 5) };
    match none.apply(&config(true), &installed()) {
        Err(global::FrumError::VersionNotFound { version }) => assert_eq!(version, "2.5.x"),
        other => panic!("unexpected {:?}", other),
    }
}

#[test]
fn global_refuses_system() {
    let g = Global { version: InputVersion::Full(Version::System) };
    assert!(g.apply(&config(true), &vec![Version::System]).is_err());
}

#[test]
fn local_activates_installed_version() {
    let l = Local { version: Some(InputVersion::Full(v("2.6.4"))), quiet: false };
    match l.apply(&config(true), None, &installed()) {
        LocalPlan::Activate(req) => {
            assert_eq!(req.target, path(&["b", "versions", "2.6.4"]));
            assert_eq!(req.link, path(&["tmp", "frum_1_2"]));
        }
        other => panic!("unexpected {:?}", other),
    }
}

#[test]
fn local_resolves_major_to_greatest_installed() {
    let l = Local { version: Some(InputVersion::Major(2)), quiet: false };
    match l.apply(&config(true), None, &installed()) {
        LocalPlan::Activate(req) => assert_eq!(req.target, path(&["b", "versions", "2.7.1"])),
        other => panic!("unexpected {:?}", other),
    }
    let mm = Local { version: Some(InputVersion::MajorMinor(2, 6)), quiet: false };
    match mm.apply(&config(true), None, &installed()) {
        LocalPlan::Activate(req) => assert_eq!(req.target, path(&["b", "versions", "2.6.4"])),
        other => panic!("unexpected {:?}", other),
    }
}

#[test]
fn local_uses_pin_file_version() {
    let l = Local { version: None, quiet: false };
    let from_file = Some(InputVersion::MajorMinor(2, 7));
    match l.apply(&config(true), from_file, &installed()) {
        LocalPlan::Activate(req) => assert_eq!(req.target, path(&["b", "versions", "2.7.1"])),
        other => panic!("unexpected {:?}", other),
    }
}

#[test]
fn local_reports_missing_version() {
    let l = Local { version: Some(InputVersion::Full(v("2.6.4"))), quiet: false };
    match l.apply(&config(true), None, &vec![]) {
        LocalPlan::Fail(LocalError::VersionNotFound { version }) => assert_eq!(version, "2.6.4"),
        other => panic!("unexpected {:?}", other),
    }
    let partial = Local { version: Some(InputVersion::Major(4)), quiet: false };
    match partial.apply(&config(true), None, &installed()) {
        LocalPlan::Fail(LocalError::VersionNotFound { version }) => assert_eq!(version, "4.x.x"),
        other => panic!("unexpected {:?}", other),
    }
}

#[test]
fn local_without_request_falls_back_to_default() {
    let l = Local { version: None, quiet: false };
    match l.apply(&config(true), None, &installed()) {
        LocalPlan::FallBack(req) => {
            assert_eq!(req.target, path(&["b", "aliases", "default"]));
            assert_eq!(req.link, path(&["tmp", "frum_1_2"]));
        }
        other => panic!("unexpected {:?}", other),
    }
}

#[test]
fn local_without_pointer() {
    let l = Local { version: None, quiet: false };
    assert!(matches!(l.apply(&config(false), None, &installed()), LocalPlan::Fail(LocalError::FrumPathNotFound)));
    let quiet = Local { version: None, quiet: true };
    assert!(matches!(quiet.apply(&config(false), None, &installed()), LocalPlan::Nothing));
    let given = Local { version: Some(InputVersion::Full(v("2.6.4"))), quiet: false };
    assert!(matches!(given.apply(&config(false), None, &installed()), LocalPlan::Fail(LocalError::FrumPathNotFound)));
}

#[test]
fn uninstall_removes_links_that_name_the_version() {
    let u = Uninstall { version: InputVersion::Full(v("2.7.1")) };
    let pointer: Result<Vec<String>, String> = Ok(path(&["b", "versions", "2.7.1"]));
    let default: Result<Vec<String>, String> = Ok(path(&["b", "versions", "2.6.4"]));
    match u.apply(&config(true), true, pointer, default) {
        UninstallOutcome::Remove(plan) => {
            assert_eq!(plan.installation_dir, path(&["b", "versions", "2.7.1"]));
            assert!(plan.remove_pointer);
            assert!(!plan.remove_default);
        }
        other => panic!("unexpected {:?}", other),
    }
}

#[test]
fn uninstall_failures_in_order() {
    let u = Uninstall { version: InputVersion::Full(v("2.7.1")) };
    let ok = || -> Result<Vec<String>, String> { Ok(vec![]) };
    match u.apply(&config(true), false, ok(), ok()) {
        UninstallOutcome::Fail(UninstallError::VersionNotFound { version }) => assert_eq!(version, "2.7.1"),
        other => panic!("unexpected {:?}", other),
    }
    assert!(matches!(u.apply(&config(false), true, ok(), ok()), UninstallOutcome::Fail(UninstallError::FrumPathNotFound)));
    match u.apply(&config(true), true, Err("pointer".to_string()), Err("default".to_string())) {
        UninstallOutcome::Io(e) => assert_eq!(e, "pointer"),
        other => panic!("unexpected {:?}", other),
    }
    match u.apply(&config(true), true, ok(), Err("default".to_string())) {
        UninstallOutcome::Io(e) => assert_eq!(e, "default"),
        other => panic!("unexpected {:?}", other),
    }
    let s = Uninstall { version: InputVersion::Full(Version::System) };
    assert!(matches!(s.apply(&config(true), true, ok(), ok()), UninstallOutcome::Fail(UninstallError::NotInstallableVersion)));
}

#[test]
fn install_resolves_requests() {
    let available = vec![v("2.6.4"), v("2.7.1"), v("3.0.0")];
    let full = Install::resolve_version(&InputVersion::Full(v("2.5.0")), &available).unwrap();
    assert_eq!(full.to_string(), "2.5.0");
    let partial = Install::resolve_version(&InputVersion::Major(2), &available).unwrap();
    assert_eq!(partial.to_string(), "2.7.1");
    assert!(matches!(
        Install::resolve_version(&InputVersion::Full(Version::System), &available),
        Err(InstallError::NotInstallableVersion)
    ));
    match Install::resolve_version(&InputVersion::MajorMinor(1, 9), &available) {
        Err(InstallError::VersionNotFound { version }) => assert_eq!(version, "1.9.x"),
        other => panic!("unexpected {:?}", other),
    }
    assert!(!Install::needs_version_list(&InputVersion::Full(v("2.5.0"))));
    assert!(Install::needs_version_list(&InputVersion::Major(2)));
}

#[test]
fn package_url_and_archive() {
    let s = semver("2.7.1");
    assert_eq!(archive(&s), "ruby-2.7.1.tar.xz");
    assert_eq!(
        package_url("https://cache.ruby-lang.org/pub/ruby//", &s),
        "https://cache.ruby-lang.org/pub/ruby/2.7/ruby-2.7.1.tar.xz"
    );
    assert_eq!(package_url("", &semver("3.0.0-preview1")), "/3.0/ruby-3.0.0-preview1.tar.xz");
}

#[test]
fn install_list_sorts_and_removes_repeats() {
    let listed = InstallList::sorted_unique(&vec![v("2.7.1"), v("2.6.4"), v("2.7.1+b"), v("2.7.0-preview1"), v("2.6.4")]);
    let texts: Vec<String> = listed.iter().map(|x| x.to_string()).collect();
    assert_eq!(texts, vec!["2.6.4", "2.7.0-preview1", "2.7.1"]);
    assert!(InstallList::sorted_unique(&vec![]).is_empty());
}

#[test]
fn uninstall_targets_installation() {
    let u = Uninstall { version: InputVersion::Full(v("2.7.1")) };
    assert_eq!(u.installation_dir(&config(true)).unwrap(), path(&["b", "versions", "2.7.1"]));
    let s = Uninstall { version: InputVersion::Full(Version::System) };
    assert!(matches!(s.installation_dir(&config(true)), Err(UninstallError::NotInstallableVersion)));
    let p = Uninstall { version: InputVersion::Major(2) };
    assert!(matches!(p.installation_dir(&config(true)), Err(UninstallError::NotInstallableVersion)));
}

#[test]
fn versions_listing_entries() {
    assert!(is_dotfile(".downloads"));
    assert!(!is_dotfile("2.7.1"));
    assert!(!is_dotfile(""));
    assert!(matches!(Versions::entry(".downloads", None), Ok(None)));
    let current = v("2.7.1");
    let e = Versions::entry("2.7.1", Some(&current)).unwrap().unwrap();
    assert!(e.is_current);
    let e = Versions::entry("2.6.4", Some(&current)).unwrap().unwrap();
    assert!(!e.is_current);
    assert_eq!(e.version.to_string(), "2.6.4");
    assert!(Versions::entry("notes", None).is_err());
}

#[test]
fn clean_and_init_paths() {
    assert_eq!(Clean {}.apply(&config(true)), path(&["b", "versions", ".downloads"]));
    assert_eq!(generate_symlink_path(&path(&["tmp"]), 42, 1700000000123), path(&["tmp", "frum_42_1700000000123"]));
}

#[test]
fn parses_mirror_index() {
    let text = "name\turl\tsha1\tsha256\tsha512\n\
ruby-0.49\thttp://a\tx\ty\tz\n\
ruby-2.7.1\thttps://c/ruby-2.7.1.tar.gz\ts1\ts256\ts512\n\
\n\
ruby-1.8\tu\ta\tb\tc\n\
short\tline\n\
ruby-3.0.0-preview1 u1 a1  b1 c1 extra\n";
    let entries = parse_index(text);
    assert_eq!(entries.len(), 2);
    assert_eq!(entries[0].version.to_string(), "2.7.1");
    assert_eq!(entries[0].url, "https://c/ruby-2.7.1.tar.gz");
    assert_eq!(entries[0].sha1, "s1");
    assert_eq!(entries[0].sha256, "s256");
    assert_eq!(entries[0].sha521, "s512");
    assert_eq!(entries[1].version.to_string(), "3.0.0-preview1");
    assert_eq!(entries[1].sha521, "c1");
    assert!(parse_index("").is_empty());
    assert!(parse_index("ruby-2.7.1 a b c d").is_empty());
}

#[test]
fn listing_without_current_version_marks_none() {
    for name in ["2.6.4", "3.0.0"] {
        let e = Versions::entry(name, None).unwrap().unwrap();
        assert!(!e.is_current);
    }
}
