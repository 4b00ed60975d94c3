//! Listing the installed versions and marking the current one.
use vstd::prelude::*;
use vstd::string::*;
use crate::version::{parse_spec, version_eq, ParseError, Version, VersionModel};

verus! {

/// Whether a directory entry's name is hidden (starts with a dot), like
/// the download staging area.
pub fn is_dotfile(name: &str) -> (r: bool)
    ensures
        r == (name@.len() > 0 && name@[0] == '.'),
{
    name.unicode_len() > 0 && name.get_char(0) == '.'
}

/// One line of the listing.
#[derive(Debug)]
pub struct VersionEntry {
    pub version: Version,
    /// Whether this is the version that the session's pointer selects.
    pub is_current: bool,
}

/// The listing of installed versions.
#[derive(Debug)]
pub struct Versions {}

impl Versions {
    /// The listing entry of an installation directory named `name`: none for
    /// a hidden entry, the error where the name is not a version.
    pub fn entry(name: &str, current: Option<&Version>) -> (r: Result<Option<VersionEntry>, ParseError>)
        ensures
            name@.len() > 0 && name@[0] == '.' ==> (r matches Ok(None)),
            !(name@.len() > 0 && name@[0] == '.') ==> match parse_spec(name@) {
                Err(e) => r == Err::<Option<VersionEntry>, ParseError>(e),
                Ok(v) => r matches Ok(Some(entry)) && entry.version@ == v && entry.is_current == (
                current matches Some(c) && version_eq(c@, v)),
            },
    {
        if is_dotfile(name) {
            return Ok(None);
        }
        let version = match Version::parse(name) {
            Ok(v) => v,
            Err(e) => return Err(e),
        };
        let is_current = match current {
            Some(c) => matches!(c.compare(&version), std::cmp::Ordering::Equal),
            None => false,
        };
        Ok(Some(VersionEntry { version, is_current }))
    }
}

} // verus!
