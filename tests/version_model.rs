use frum::input_version::InputVersion;
use frum::version::{current_version, Error, ParseError, Version};
use frum::config::FrumConfig;
use frum::log::LogLevel;
use std::cmp::Ordering;

fn v(s: &str) -> Version {
    Version::parse(s).unwrap()
}

fn config(pointer: Option<Vec<String>>) -> FrumConfig {
    FrumConfig {
        base_dir: vec!["home".to_string(), ".frum".to_string()],
        frum_path: pointer,
        log_level: LogLevel::Info,
        ruby_build_mirror: "https://cache.ruby-lang.org/pub/ruby".to_string(),
    }
}

#[test]
fn parses_plain_semantic_version() {
    match v("2.7.1") {
        Version::Semver(s) => {
            assert_eq!((s.major, s.minor, s.patch), (2, 7, 1));
            assert!(s.pre.is_empty() && s.build.is_empty());
        }
        Version::System => panic!("expected a semantic version"),
    }
}

#[test]
fn parses_system_in_any_case() {
    assert!(matches!(v("system"), Version::System));
    assert!(matches!(v("SyStEm"), Version::System));
}

#[test]
fn strips_prefixes_and_case() {
    assert_eq!(v("ruby-2.6.4").to_string(), "2.6.4");
    assert_eq!(v("v3.0.0").to_string(), "3.0.0");
    assert_eq!(v("RUBY-3.0.0-PREVIEW1").to_string(), "3.0.0-preview1");
}

#[test]
fn parse_errors_by_kind() {
    assert_eq!(Version::parse("").unwrap_err(), ParseError::Empty);
    assert_eq!(Version::parse("abc").unwrap_err(), ParseError::InvalidStart);
    assert_eq!(Version::parse("ruby-").unwrap_err(), ParseError::InvalidStart);
    assert_eq!(Version::parse("2.7").unwrap_err(), ParseError::Malformed);
    assert_eq!(Version::parse("1.0.01").unwrap_err(), ParseError::Malformed);
    assert_eq!(Version::parse("1.0.0+foo_123").unwrap_err(), ParseError::Malformed);
}

#[test]
fn too_many_hyphens_is_malformed() {
    let text = format!("1.0.0-a{}", "-a".repeat(300));
    assert_eq!(Version::parse(&text).unwrap_err(), ParseError::Malformed);
}

#[test]
fn renders_canonical_text() {
    assert_eq!(v("3.0.0-preview1.2+build.7").to_string(), "3.0.0-preview1.2+build.7");
    assert_eq!(Version::System.to_string(), "system");
}

#[test]
fn round_trip_of_rendered_versions() {
    for text in ["0.0.0", "2.7.1", "10.20.30-rc.1+sha.5114f85", "1.0.0-alpha-beta.0", "1.0.0-01"] {
        let first = v(text);
        let again = v(&first.to_string());
        assert_eq!(again.to_string(), first.to_string());
        assert_eq!(again.compare(&first), Ordering::Equal);
    }
}

#[test]
fn precedence_of_numbers() {
    assert_eq!(v("2.6.4").compare(&v("2.7.1")), Ordering::Less);
    assert_eq!(v("2.10.0").compare(&v("2.9.9")), Ordering::Greater);
    assert_eq!(v("3.0.0").compare(&v("2.99.99")), Ordering::Greater);
    assert_eq!(v("2.7.1").compare(&v("2.7.1")), Ordering::Equal);
}

#[test]
fn precedence_of_prereleases() {
    assert_eq!(v("2.7.0-preview1").compare(&v("2.7.0")), Ordering::Less);
    assert_eq!(v("1.0.0-alpha").compare(&v("1.0.0-alpha.1")), Ordering::Less);
    assert_eq!(v("1.0.0-alpha.1").compare(&v("1.0.0-alpha.beta")), Ordering::Less);
    assert_eq!(v("1.0.0-beta.2").compare(&v("1.0.0-beta.11")), Ordering::Less);
    assert_eq!(v("1.0.0-rc.1").compare(&v("1.0.0-beta.11")), Ordering::Greater);
}

#[test]
fn build_metadata_does_not_count() {
    assert_eq!(v("1.0.0+a").compare(&v("1.0.0+b")), Ordering::Equal);
}

#[test]
fn system_sorts_after_semantic_versions() {
    assert_eq!(Version::System.compare(&v("99.0.0")), Ordering::Greater);
    assert_eq!(v("99.0.0").compare(&Version::System), Ordering::Less);
    assert_eq!(Version::System.compare(&Version::System), Ordering::Equal);
}

#[test]
fn copy_keeps_everything() {
    let version = v("1.2.3-pre.4+b.5");
    assert_eq!(version.copy().to_string(), "1.2.3-pre.4+b.5");
}

#[test]
fn installation_path_of_versions() {
    let c = config(None);
    assert_eq!(
        v("2.7.1").installation_path(&c),
        Some(vec!["home".to_string(), ".frum".to_string(), "versions".to_string(), "2.7.1".to_string()])
    );
    assert_eq!(Version::System.installation_path(&c), None);
}

#[test]
fn current_version_without_pointer() {
    let c = config(None);
    assert!(matches!(current_version(&c, Some("2.7.1")), Err(Error::EnvNotFound)));
}

#[test]
fn current_version_of_dangling_pointer_is_none() {
    let c = config(Some(vec!["tmp".to_string(), "frum_1_2".to_string()]));
    assert!(matches!(current_version(&c, None), Ok(None)));
}

#[test]
fn current_version_of_resolved_pointer() {
    let c = config(Some(vec!["tmp".to_string(), "frum_1_2".to_string()]));
    let found = current_version(&c, Some("2.6.4")).unwrap().unwrap();
    assert_eq!(found.to_string(), "2.6.4");
    assert!(matches!(current_version(&c, Some("default")), Err(Error::SemverError(ParseError::InvalidStart))));
}

#[test]
fn input_version_from_str_forms() {
    assert!(matches!(InputVersion::from_str("2"), Ok(InputVersion::Major(2))));
    assert!(matches!(InputVersion::from_str("2.7"), Ok(InputVersion::MajorMinor(2, 7))));
    assert!(matches!(InputVersion::from_str(" 2.7 "), Ok(InputVersion::MajorMinor(2, 7))));
    assert!(matches!(InputVersion::from_str("2.x"), Ok(InputVersion::Major(2))));
    assert!(matches!(InputVersion::from_str("+3"), Ok(InputVersion::Major(3))));
    assert!(matches!(InputVersion::from_str("2.7.1"), Ok(InputVersion::Full(Version::Semver(_)))));
    assert!(matches!(InputVersion::from_str("system"), Ok(InputVersion::Full(Version::System))));
    assert_eq!(InputVersion::from_str("abc").unwrap_err(), ParseError::InvalidStart);
    assert_eq!(InputVersion::from_str("x.2").unwrap_err(), ParseError::InvalidStart);
    assert_eq!(InputVersion::from_str("99999999999999999999").unwrap_err(), ParseError::Malformed);
}

#[test]
fn input_version_text() {
    assert_eq!(InputVersion::Major(2).to_string(), "2.x.x");
    assert_eq!(InputVersion::MajorMinor(2, 7).to_string(), "2.7.x");
    assert_eq!(InputVersion::Full(v("2.7.1")).to_string(), "2.7.1");
}

#[test]
fn input_version_matching() {
    assert!(InputVersion::Major(2).matches(&v("2.6.4")));
    assert!(!InputVersion::Major(2).matches(&v("3.0.0")));
    assert!(InputVersion::MajorMinor(2, 7).matches(&v("2.7.0")));
    assert!(!InputVersion::MajorMinor(2, 7).matches(&v("2.6.0")));
    assert!(!InputVersion::Major(2).matches(&Version::System));
    assert!(InputVersion::Full(Version::System).matches(&Version::System));
    assert!(InputVersion::Full(v("2.7.1")).matches(&v("2.7.1+build")));
}

#[test]
fn resolve_major_takes_greatest() {
    let candidates = vec![v("2.6.4"), v("2.7.1"), v("3.0.0")];
    let found = InputVersion::Major(2).to_version(&candidates).unwrap();
    assert_eq!(found.to_string(), "2.7.1");
}

#[test]
fn resolve_major_minor_takes_greatest() {
    let candidates = vec![v("2.7.1"), v("2.7.0"), v("3.0.0")];
    let found = InputVersion::MajorMinor(2, 7).to_version(&candidates).unwrap();
    assert_eq!(found.to_string(), "2.7.1");
}

#[test]
fn resolve_full_without_match_is_none() {
    let candidates = vec![v("2.7.1")];
    assert!(InputVersion::Full(v("2.9.9")).to_version(&candidates).is_none());
}

#[test]
fn resolve_prefers_last_of_equal_precedence() {
    let candidates = vec![v("2.7.1+a"), v("2.7.1+b"), v("2.6.0")];
    let found = InputVersion::Major(2).to_version(&candidates).unwrap();
    assert_eq!(found.to_string(), "2.7.1+b");
}

#[test]
fn resolve_in_empty_list_is_none() {
    assert!(InputVersion::Major(2).to_version(&vec![]).is_none());
}

#[test]
fn resolve_release_over_prerelease() {
    let candidates = vec![v("3.0.0"), v("3.0.0-preview2")];
    let found = InputVersion::Major(3).to_version(&candidates).unwrap();
    assert_eq!(found.to_string(), "3.0.0");
}

#[test]
fn operators_follow_precedence() {
    assert!(v("2.6.4") < v("2.7.1"));
    assert!(v("2.7.0-preview1") < v("2.7.0"));
    assert!(v("1.0.0+a") == v("1.0.0+b"));
    assert!(v("1.0.0") != v("1.0.1"));
    assert!(Version::System > v("99.0.0"));
    assert!(Version::System == Version::System);
}
