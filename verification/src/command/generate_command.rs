//! Generating a release under its former name: the same move of the
//! fragments of no release into the directory of the new version.

use vstd::prelude::*;
use crate::cli::VersionSpec;
use crate::command::common::find_version_string;
use crate::command::common::is_release_version;
use crate::error::Error;

verus! {

/// The command that generates a release.
#[derive(Debug)]
pub struct GenerateCommand {
    pub version: VersionSpec,
}

impl GenerateCommand {
    /// The version of the release, which names its directory. `versions`
    /// holds the versions of the packages of the workspace.
    pub fn version_string(&self, versions: &Vec<String>) -> (r: Result<String, Error>)
        ensures
            is_release_version(self.version, versions@, r),
    {
        find_version_string(&self.version, versions)
    }
}

} // verus!
