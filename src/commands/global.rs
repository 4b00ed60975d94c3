//! Making an installed version the global default.
use vstd::prelude::*;
use vstd::string::*;
use crate::alias::{create_alias, SymlinkRequest};
use crate::config::{default_name, path_view, FrumConfig};
use crate::input_version::{
    input_text, is_resolution, none_matches, versions_view, InputVersion, InputVersionModel,
};
use crate::version::{version_text, Version, VersionModel};

verus! {

/// Why the default cannot be set.
#[derive(Debug)]
pub enum FrumError {
    /// No installed semantic version answers the request (its text is kept).
    VersionNotFound { version: String },
}

/// A request to make a version the global default.
#[derive(Debug)]
pub struct Global {
    pub version: InputVersion,
}

/// `<base>/versions/<text of v>`: where the installed version `v` lives.
pub open spec fn installed_dir(config: FrumConfig, v: VersionModel) -> Seq<Seq<char>> {
    config.versions_dir_spec().push(version_text(v))
}

/// What `Global::apply` gives once the request resolved to `v`: the default
/// alias pointing at `v`'s installation, or, for `system` (which has no
/// installation), that the request is not installed.
pub open spec fn global_outcome(
    config: FrumConfig,
    request: InputVersionModel,
    v: VersionModel,
    r: Result<SymlinkRequest, FrumError>,
) -> bool {
    if v is Semver {
        r matches Ok(l) && path_view(l.target@) == installed_dir(config, v) && path_view(l.link@)
            == config.aliases_dir_spec().push(default_name())
    } else {
        r matches Err(FrumError::VersionNotFound { version }) && version@ == input_text(request)
    }
}

impl Global {
    /// The link that makes the requested version the default alias. The
    /// request is resolved against the installed versions: the greatest
    /// installed version that answers it.
    pub fn apply(&self, config: &FrumConfig, installed: &Vec<Version>) -> (r: Result<
        SymlinkRequest,
        FrumError,
    >)
        ensures
            none_matches(self.version@, versions_view(installed@)) ==> (r matches Err(
                FrumError::VersionNotFound { version },
            ) && version@ == input_text(self.version@)),
            !none_matches(self.version@, versions_view(installed@)) ==> exists|k: int|
                is_resolution(self.version@, versions_view(installed@), k) && global_outcome(
                    *config,
                    self.version@,
                    versions_view(installed@)[k],
                    r,
                ),
    {
        proof {
            reveal_strlit("default");
        }
        assert("default"@ =~= default_name());
        match self.version.to_version(installed) {
            None => Err(FrumError::VersionNotFound { version: self.version.to_string() }),
            Some(v) => match create_alias(config, "default", v) {
                Ok(req) => Ok(req),
                Err(_) => Err(FrumError::VersionNotFound { version: self.version.to_string() }),
            },
        }
    }
}

} // verus!
