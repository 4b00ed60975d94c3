//! Clearing the download staging area.
use vstd::prelude::*;
use crate::config::{downloads_name, path_view, FrumConfig};

verus! {

/// A request to remove old downloads.
#[derive(Debug)]
pub struct Clean {}

impl Clean {
    /// The directory whose contents are removed: `<base>/versions/.downloads`.
    pub fn apply(&self, config: &FrumConfig) -> (r: Vec<String>)
        ensures
            path_view(r@) == config.versions_dir_spec().push(downloads_name()),
    {
        config.temp_installations_dir()
    }
}

} // verus!
