//! Creating a release: the fragments of no release move into the directory
//! of the new version.

use vstd::prelude::*;
use crate::cli::VersionSpec;
use crate::command::common::find_version_string;
use crate::command::common::is_release_version;
use crate::error::Error;

verus! {

/// The command that creates a release.
#[derive(Debug)]
pub struct CreateReleaseCommand {
    pub version: VersionSpec,
}

impl CreateReleaseCommand {
    /// The names to append to the working directory for the directory of the
    /// release: the fragment directory, then the version of the release.
    /// `versions` holds the versions of the packages of the workspace.
    pub fn release_dir(&self, fragment_dir: &str, versions: &Vec<String>) -> (r: Result<
        Vec<String>,
        Error,
    >)
        ensures
            match r {
                Ok(segments) => segments@.len() == 2 && segments@[0]@ == fragment_dir@
                    && is_release_version(
                    self.version,
                    versions@,
                    Ok::<String, Error>(segments@[1]),
                ),
                Err(e) => is_release_version(self.version, versions@, Err::<String, Error>(e)),
            },
    {
        match find_version_string(&self.version, versions) {
            Ok(version) => {
                let mut segments: Vec<String> = Vec::new();
                segments.push(fragment_dir.to_owned());
                segments.push(version);
                Ok(segments)
            },
            Err(e) => Err(e),
        }
    }
}

} // verus!
