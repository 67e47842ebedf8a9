//! What several commands share.

use vstd::prelude::*;
use crate::cli::VersionSpec;
use crate::error::Error;
use crate::fragment::texts_of;
use crate::path::PathPart;
use crate::path::PathPartModel;
use crate::path::ends_with_name;
use crate::path::last_is;
use crate::path::parts_of;

verus! {

/// Whether every text at or after `from` equals `first`.
pub open spec fn all_equal(versions: Seq<Seq<char>>, first: Seq<char>, from: int) -> bool
    decreases versions.len() - from,
{
    if from < 0 || from >= versions.len() {
        true
    } else {
        versions[from] == first && all_equal(versions, first, from + 1)
    }
}

/// What the version of a release is. Released is the version that the caller
/// gave, or else the version that all packages of the workspace share.
pub open spec fn is_release_version(
    version: VersionSpec,
    versions: Seq<String>,
    r: Result<String, Error>,
) -> bool {
    match version {
        VersionSpec::Custom { custom } => r matches Ok(v) && v@ == custom@,
        _ => if versions.len() == 0 {
            r matches Err(Error::NoVersionInCargoToml)
        } else if !all_equal(texts_of(versions), versions[0]@, 0) {
            r matches Err(Error::WorkspaceVersionsNotEqual)
        } else {
            r matches Ok(v) && v@ == versions[0]@
        },
    }
}

/// Whether the version of a release must be read from the packages of the
/// workspace: it must, unless the caller gave one.
pub fn needs_workspace_versions(version: &VersionSpec) -> (r: bool)
    ensures
        r == !(version is Custom),
{
    match version {
        VersionSpec::Custom { .. } => false,
        _ => true,
    }
}

/// The version of a release: the one that the caller gave, or else the
/// version that all packages of the workspace share. `versions` holds the
/// versions of those packages. A workspace without packages has no version,
/// and one whose packages differ in version has no single one.
#[verifier::loop_isolation(false)]
pub fn find_version_string(version: &VersionSpec, versions: &Vec<String>) -> (r: Result<
    String,
    Error,
>)
    ensures
        is_release_version(*version, versions@, r),
{
    match version {
        VersionSpec::Custom { custom } => Ok(custom.clone()),
        _ => {
            if versions.len() == 0 {
                return Err(Error::NoVersionInCargoToml);
            }
            let ghost texts = texts_of(versions@);
            let mut i: usize = versions.len();
            while i > 0
                invariant
                    i <= versions.len(),
                    versions.len() > 0,
                    texts == texts_of(versions@),
                    all_equal(texts, versions@[0]@, i as int),
                decreases i,
            {
                i -= 1;
                assert(texts[i as int] == versions@[i as int]@);
                if versions[i] != versions[0] {
                    proof {
                        lemma_not_all_equal(texts, versions@[0]@, 0, i as int);
                    }
                    return Err(Error::WorkspaceVersionsNotEqual);
                }
            }
            Ok(versions[0].clone())
        },
    }
}

/// A text that differs from `first` at place `at` shows from every place up
/// to there.
pub proof fn lemma_not_all_equal(versions: Seq<Seq<char>>, first: Seq<char>, from: int, at: int)
    requires
        0 <= from <= at < versions.len(),
        versions[at] != first,
    ensures
        !all_equal(versions, first, from),
    decreases at - from,
{
    if from < at {
        lemma_not_all_equal(versions, first, from + 1, at);
    }
}

/// The last component of a path, where it is the name of a directory or of
/// a file.
pub open spec fn file_name_of(parts: Seq<PathPartModel>) -> Option<Seq<char>> {
    if parts.len() > 0 && parts.last() is Normal {
        Some(parts.last()->Normal_0)
    } else {
        None
    }
}

/// What moving the fragments of no release into a release does with one
/// entry of their directory: the placeholder file stays where it is, and
/// anything else moves under its own name. `None` stands for staying; an
/// entry without a name is a failure.
pub fn plan_move(path: &str, parts: &Vec<PathPart>) -> (r: Result<Option<String>, Error>)
    ensures
        if ends_with_name(parts_of(parts@), ".gitkeep"@) {
            r matches Ok(None)
        } else {
            match file_name_of(parts_of(parts@)) {
                Some(name) => r matches Ok(Some(n)) && n@ == name,
                None => r matches Err(Error::NotAFile(p)) && p@ == path@,
            }
        },
{
    if last_is(parts, ".gitkeep") {
        return Ok(None);
    }
    if parts.len() == 0 {
        return Err(Error::NotAFile(path.to_owned()));
    }
    assert(parts_of(parts@).last() == parts@[parts.len() - 1]@);
    match &parts[parts.len() - 1] {
        PathPart::Normal(name) => Ok(Some(name.clone())),
        _ => Err(Error::NotAFile(path.to_owned())),
    }
}

/// What the environment holds under a name.
#[derive(Debug)]
pub enum EnvLookup {
    Present(String),
    NotPresent,
    NotUnicode,
}

/// The editor to open a fragment with: what `EDITOR` holds, or else what
/// `VISUAL` holds. `editor` and `visual` are what the environment holds
/// under the two names.
pub fn get_editor_command(editor: EnvLookup, visual: EnvLookup) -> (r: Result<String, Error>)
    ensures
        match editor {
            EnvLookup::Present(e) => r matches Ok(c) && c@ == e@,
            EnvLookup::NotUnicode => r matches Err(Error::EnvNotUnicode(n)) && n@ == "EDITOR"@,
            EnvLookup::NotPresent => match visual {
                EnvLookup::Present(v) => r matches Ok(c) && c@ == v@,
                EnvLookup::NotUnicode => r matches Err(Error::EnvNotUnicode(n)) && n@ == "VISUAL"@,
                EnvLookup::NotPresent => r matches Err(Error::EditorEnvNotSet),
            },
        },
{
    match editor {
        EnvLookup::Present(e) => Ok(e),
        EnvLookup::NotUnicode => Err(Error::EnvNotUnicode("EDITOR".to_owned())),
        EnvLookup::NotPresent => match visual {
            EnvLookup::Present(v) => Ok(v),
            EnvLookup::NotUnicode => Err(Error::EnvNotUnicode("VISUAL".to_owned())),
            EnvLookup::NotPresent => Err(Error::EditorEnvNotSet),
        },
    }
}

} // verus!
