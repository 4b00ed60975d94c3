//! Selecting the version of the current shell session.
use vstd::prelude::*;
use vstd::string::*;
use crate::alias::SymlinkRequest;
use crate::commands::global::installed_dir;
use crate::config::{copy_path, default_name, join, path_view, FrumConfig};
use crate::input_version::{
    input_text, is_resolution, none_matches, versions_view, InputVersion, InputVersionModel,
};
use crate::version::{Version, VersionModel};

verus! {

/// Why the session's version cannot be selected.
#[derive(Debug)]
pub enum FrumError {
    /// No multishell pointer is configured.
    FrumPathNotFound,
    /// No installed version answers the request (its text is kept).
    VersionNotFound { version: String },
    /// No version was asked for and no pin file names one.
    CantInferVersion,
}

/// A request to select a version for this shell session, or the version of
/// the pin file where none is given.
#[derive(Debug)]
pub struct Local {
    pub version: Option<InputVersion>,
    /// Report nothing where no version can be inferred.
    pub quiet: bool,
}

/// What to do to the multishell pointer.
#[derive(Debug)]
pub enum LocalPlan {
    /// Point the pointer (`link`) at the installation (`target`); a failure
    /// to do so is the command's error.
    Activate(SymlinkRequest),
    /// No version is known: point the pointer at the default alias, then
    /// report `CantInferVersion`, or nothing when quiet (also where the link
    /// cannot be made).
    FallBack(SymlinkRequest),
    /// Nothing to do or report.
    Nothing,
    /// Stop with this error.
    Fail(FrumError),
}

pub open spec fn chosen_request(
    given: Option<InputVersionModel>,
    from_file: Option<InputVersionModel>,
) -> Option<InputVersionModel> {
    match given {
        Some(v) => Some(v),
        None => from_file,
    }
}

pub open spec fn input_opt_view(v: Option<InputVersion>) -> Option<InputVersionModel> {
    match v {
        Some(x) => Some(x@),
        None => None,
    }
}

/// What `Local::apply` gives once the request resolved to `v`: the pointer
/// activating `v`'s installation, where a pointer is configured.
pub open spec fn local_outcome(config: FrumConfig, v: VersionModel, r: LocalPlan) -> bool {
    match config.frum_path {
        None => r matches LocalPlan::Fail(FrumError::FrumPathNotFound),
        Some(pointer) => r matches LocalPlan::Activate(l) && path_view(l.target@) == installed_dir(
            config,
            v,
        ) && path_view(l.link@) == path_view(pointer@),
    }
}

impl Local {
    /// Decides what happens to the pointer. The request is the given
    /// version, else `file_version` (what the pin file of the working
    /// directory names); it is resolved against `installed`, the installed
    /// versions, to the greatest one that answers it.
    pub fn apply(&self, config: &FrumConfig, file_version: Option<InputVersion>, installed: &Vec<Version>) -> (r:
        LocalPlan)
        ensures
            ({
                let req = chosen_request(input_opt_view(self.version), input_opt_view(file_version));
                let vs = versions_view(installed@);
                &&& req is None && config.frum_path is None ==> (if self.quiet {
                    r is Nothing
                } else {
                    r matches LocalPlan::Fail(FrumError::FrumPathNotFound)
                })
                &&& req is None && config.frum_path is Some ==> (r matches LocalPlan::FallBack(l)
                    && path_view(l.target@) == config.aliases_dir_spec().push(default_name())
                    && path_view(l.link@) == path_view(config.frum_path->Some_0@))
                &&& req is Some && none_matches(req->Some_0, vs) ==> (r matches LocalPlan::Fail(
                    FrumError::VersionNotFound { version },
                ) && version@ == input_text(req->Some_0))
                &&& req is Some && !none_matches(req->Some_0, vs) ==> exists|k: int|
                    is_resolution(req->Some_0, vs, k) && local_outcome(*config, vs[k], r)
            }),
    {
        let request = match &self.version {
            Some(v) => Some(v.copy()),
            None => file_version,
        };
        match request {
            None => match &config.frum_path {
                None => if self.quiet {
                    LocalPlan::Nothing
                } else {
                    LocalPlan::Fail(FrumError::FrumPathNotFound)
                },
                Some(pointer) => {
                    LocalPlan::FallBack(
                        SymlinkRequest { target: config.default_version_dir(), link: copy_path(pointer) },
                    )
                },
            },
            Some(current_version) => match current_version.to_version(installed) {
                None => LocalPlan::Fail(FrumError::VersionNotFound { version: current_version.to_string() }),
                Some(v) => {
                    let name = v.to_string();
                    let dir = join(&config.versions_dir(), name.as_str());
                    match &config.frum_path {
                        None => LocalPlan::Fail(FrumError::FrumPathNotFound),
                        Some(pointer) => LocalPlan::Activate(
                            SymlinkRequest { target: dir, link: copy_path(pointer) },
                        ),
                    }
                },
            },
        }
    }
}

} // verus!
