//! Removing an installed version.
use vstd::prelude::*;
use vstd::string::*;
use crate::config::{join, path_view, FrumConfig};
use crate::input_version::{input_text, InputVersion, InputVersionModel};
use crate::alias::link_names_version;
use crate::version::{version_text, Version, VersionModel};

verus! {

/// Why a version cannot be removed.
#[derive(Debug)]
pub enum FrumError {
    /// The version is not installed (its text is kept).
    VersionNotFound { version: String },
    /// Only a full semantic version has an installation to remove.
    NotInstallableVersion,
    /// No multishell pointer is configured.
    FrumPathNotFound,
}

/// A request to remove an installed version.
#[derive(Debug)]
pub struct Uninstall {
    pub version: InputVersion,
}

impl Uninstall {
    /// The installation directory to remove: `<base>/versions/<version>`
    /// for a full semantic version; `system` and partial requests name no
    /// installation.
    pub fn installation_dir(&self, config: &FrumConfig) -> (r: Result<Vec<String>, FrumError>)
        ensures
            self.version@ matches InputVersionModel::Full(VersionModel::Semver(_)) ==> (r matches Ok(
                d,
            ) && path_view(d@) == config.versions_dir_spec().push(input_text(self.version@))),
            !(self.version@ matches InputVersionModel::Full(VersionModel::Semver(_))) ==> (r matches Err(
                FrumError::NotInstallableVersion,
            )),
    {
        match &self.version {
            InputVersion::Full(Version::Semver(_)) => {
                let name = self.version.to_string();
                Ok(join(&config.versions_dir(), name.as_str()))
            },
            _ => Err(FrumError::NotInstallableVersion),
        }
    }
}

/// What an uninstall removes.
#[derive(Debug)]
pub struct UninstallPlan {
    /// The installation directory, removed with all it holds.
    pub installation_dir: Vec<String>,
    /// Whether the multishell pointer selects this version, so that it is
    /// removed too.
    pub remove_pointer: bool,
    /// Whether the default alias selects this version, so that it is
    /// removed too.
    pub remove_default: bool,
}

/// The decision of an uninstall.
#[derive(Debug)]
pub enum UninstallOutcome<E> {
    Remove(UninstallPlan),
    Fail(FrumError),
    /// A link could not be read.
    Io(E),
}

/// A link target names the installation of `v`: its last component is
/// `v`'s text.
pub open spec fn names_version(target: Seq<String>, v: VersionModel) -> bool {
    target.len() > 0 && target.last()@ == version_text(v)
}

/// The request names a semantic version in full.
pub open spec fn is_full_semver(i: InputVersionModel) -> bool {
    i matches InputVersionModel::Full(VersionModel::Semver(_))
}

impl Uninstall {
    /// Decides an uninstall. `installed` tells whether the installation
    /// directory exists; `pointer_target` and `default_target` are what the
    /// multishell pointer and the default alias link to (or why they could
    /// not be read). The checks come in this order: a full semantic version,
    /// an existing installation, a configured pointer, the pointer's target,
    /// the default alias's target. A link is removed where it names the
    /// version.
    pub fn apply<E>(
        &self,
        config: &FrumConfig,
        installed: bool,
        pointer_target: Result<Vec<String>, E>,
        default_target: Result<Vec<String>, E>,
    ) -> (r: UninstallOutcome<E>)
        ensures
            !is_full_semver(self.version@) ==> (r matches UninstallOutcome::Fail(
                FrumError::NotInstallableVersion,
            )),
            is_full_semver(self.version@) && !installed ==> (r matches UninstallOutcome::Fail(
                FrumError::VersionNotFound { version },
            ) && version@ == input_text(self.version@)),
            is_full_semver(self.version@) && installed && config.frum_path is None ==> (r matches UninstallOutcome::Fail(
                FrumError::FrumPathNotFound,
            )),
            is_full_semver(self.version@) && installed && config.frum_path is Some
                && pointer_target is Err ==> (r matches UninstallOutcome::Io(e) && pointer_target
                == Err::<Vec<String>, E>(e)),
            is_full_semver(self.version@) && installed && config.frum_path is Some
                && pointer_target is Ok && default_target is Err ==> (r matches UninstallOutcome::Io(e)
                && default_target == Err::<Vec<String>, E>(e)),
            is_full_semver(self.version@) && installed && config.frum_path is Some
                && pointer_target is Ok && default_target is Ok ==> (r matches UninstallOutcome::Remove(
                plan,
            ) && path_view(plan.installation_dir@) == config.versions_dir_spec().push(
                input_text(self.version@),
            ) && plan.remove_pointer == names_version(
                pointer_target->Ok_0@,
                self.version@->Full_0,
            ) && plan.remove_default == names_version(
                default_target->Ok_0@,
                self.version@->Full_0,
            )),
    {
        let dir = match self.installation_dir(config) {
            Ok(d) => d,
            Err(e) => return UninstallOutcome::Fail(e),
        };
        let version = match &self.version {
            InputVersion::Full(v) => v,
            _ => return UninstallOutcome::Fail(FrumError::NotInstallableVersion),
        };
        if !installed {
            return UninstallOutcome::Fail(FrumError::VersionNotFound { version: self.version.to_string() });
        }
        if config.frum_path.is_none() {
            return UninstallOutcome::Fail(FrumError::FrumPathNotFound);
        }
        let remove_pointer = match pointer_target {
            Err(e) => return UninstallOutcome::Io(e),
            Ok(t) => link_names_version(&t, version),
        };
        let remove_default = match default_target {
            Err(e) => return UninstallOutcome::Io(e),
            Ok(t) => link_names_version(&t, version),
        };
        UninstallOutcome::Remove(UninstallPlan { installation_dir: dir, remove_pointer, remove_default })
    }
}

} // verus!
