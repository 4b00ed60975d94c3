//! Installing a version: which version a request installs, and where its
//! archive is downloaded from.
use vstd::prelude::*;
use vstd::string::*;
use crate::input_version::{input_text, is_resolution, none_matches, versions_view, InputVersion, InputVersionModel};
use crate::text::{append_decimal, decimal_text};
use crate::version::{semver_text, SemVer, SemVerModel, Version, VersionModel};

verus! {

/// Why a version cannot be installed.
#[derive(Debug)]
pub enum FrumError {
    /// No version was asked for and no pin file names one.
    CantInferVersion,
    /// `system` cannot be installed.
    NotInstallableVersion,
    /// No known version answers the request (its text is kept).
    VersionNotFound { version: String },
}

/// A request to install a version, with options for the build.
#[derive(Debug)]
pub struct Install {
    pub version: Option<InputVersion>,
    pub configure_opts: Vec<String>,
}

impl Install {
    /// Whether the request needs the list of versions that can be
    /// downloaded: it does unless it names a full version.
    pub fn needs_version_list(request: &InputVersion) -> (r: bool)
        ensures
            r == !(request@ is Full),
    {
        match request {
            InputVersion::Full(_) => false,
            _ => true,
        }
    }

    /// The version that a request installs: a full semantic version as it
    /// is, a partial one resolved against `available_versions`.
    pub fn resolve_version(request: &InputVersion, available_versions: &Vec<Version>) -> (r: Result<
        Version,
        FrumError,
    >)
        ensures
            request@ matches InputVersionModel::Full(VersionModel::Semver(m)) ==> (r matches Ok(v)
                && v@ == VersionModel::Semver(m)),
            request@ matches InputVersionModel::Full(VersionModel::System) ==> (r matches Err(
                FrumError::NotInstallableVersion,
            )),
            !(request@ is Full) && none_matches(request@, versions_view(available_versions@)) ==> (
            r matches Err(FrumError::VersionNotFound { version }) && version@ == input_text(
                request@,
            )),
            !(request@ is Full) && !none_matches(request@, versions_view(available_versions@)) ==> (
            r matches Ok(v) && exists|k: int|
                is_resolution(request@, versions_view(available_versions@), k) && v@
                    == versions_view(available_versions@)[k]),
    {
        match request {
            InputVersion::Full(Version::Semver(v)) => Ok(Version::Semver(v.copy())),
            InputVersion::Full(Version::System) => Err(FrumError::NotInstallableVersion),
            _ => match request.to_version(available_versions) {
                Some(v) => Ok(v.copy()),
                None => Err(FrumError::VersionNotFound { version: request.to_string() }),
            },
        }
    }
}

/// `s` without its trailing slashes, as `str::trim_end_matches('/')` gives
/// it.
pub open spec fn without_trailing_slashes(s: Seq<char>) -> Seq<char>
    decreases s.len(),
{
    if s.len() > 0 && s.last() == '/' {
        without_trailing_slashes(s.drop_last())
    } else {
        s
    }
}

/// `ruby-<version>.tar.xz`
pub open spec fn archive_text(v: SemVerModel) -> Seq<char> {
    "ruby-"@ + semver_text(v) + ".tar.xz"@
}

/// `<mirror>/<major>.<minor>/ruby-<version>.tar.xz`
pub open spec fn package_url_text(mirror: Seq<char>, v: SemVerModel) -> Seq<char> {
    without_trailing_slashes(mirror) + "/"@ + decimal_text(v.major as nat) + "."@ + decimal_text(
        v.minor as nat,
    ) + "/"@ + archive_text(v)
}

/// The name of a version's source archive.
pub fn archive(version: &SemVer) -> (r: String)
    ensures
        r@ == archive_text(version@),
{
    let mut out = String::from_str("ruby-");
    let v = version.to_string();
    out.append(v.as_str());
    out.append(".tar.xz");
    out
}

/// Where a version's source archive is downloaded from.
pub fn package_url(mirror_url: &str, version: &SemVer) -> (r: String)
    ensures
        r@ == package_url_text(mirror_url@, version@),
{
    let n = mirror_url.unicode_len();
    let mut end: usize = n;
    assert(mirror_url@.subrange(0, n as int) =~= mirror_url@);
    while end > 0 && mirror_url.get_char(end - 1) == '/'
        invariant
            end <= n,
            n == mirror_url@.len(),
            without_trailing_slashes(mirror_url@) == without_trailing_slashes(
                mirror_url@.subrange(0, end as int),
            ),
        decreases end,
    {
        assert(mirror_url@.subrange(0, end as int).drop_last() =~= mirror_url@.subrange(
            0,
            end - 1,
        ));
        end -= 1;
    }
    let mut out = String::from_str(mirror_url.substring_char(0, end));
    out.append("/");
    append_decimal(&mut out, version.major);
    out.append(".");
    append_decimal(&mut out, version.minor);
    out.append("/");
    let a = archive(version);
    out.append(a.as_str());
    assert(out@ =~= package_url_text(mirror_url@, version@));
    out
}

} // verus!
