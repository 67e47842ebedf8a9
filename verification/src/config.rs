//! The configuration of a project.

use vstd::prelude::*;
use indexmap::IndexMap;
use crate::error::Error;
use crate::fragment::FragmentDataDesc;
use crate::text::push_str;
use crate::text::str_eq;
use crate::text::string_of;

verus! {

/// The name under which a new configuration file is written.
pub fn config_file_default_name() -> (r: &'static str)
    ensures
        r@ == "changelog.toml"@,
{
    "changelog.toml"
}

/// The name of the configuration file that is looked for first.
pub fn config_file_hidden_name() -> (r: &'static str)
    ensures
        r@ == ".changelog.toml"@,
{
    ".changelog.toml"
}

/// The directory that holds the fragments, where the configuration names
/// none.
pub fn fragment_dir_default() -> (r: String)
    ensures
        r@ == ".changelogs"@,
{
    ".changelogs".to_owned()
}

/// The path of the template inside the fragment directory, where the
/// configuration names none.
pub fn template_path_default() -> (r: String)
    ensures
        r@ == "template.md"@,
{
    "template.md".to_owned()
}

/// The path of the changelog file, where the configuration names none.
pub fn changelog_default() -> (r: String)
    ensures
        r@ == "CHANGELOG.md"@,
{
    "CHANGELOG.md".to_owned()
}

/// The format in which header data is edited.
#[derive(Clone, Copy, Debug, PartialEq, Eq)]
pub enum EditFormat {
    Toml,
}

impl EditFormat {
    /// Reads the name of an edit format: `toml` is the only one.
    pub fn from_str(s: &str) -> (r: Result<EditFormat, String>)
        ensures
            match r {
                Ok(f) => s@ == "toml"@ && f == EditFormat::Toml,
                Err(m) => s@ != "toml"@ && m@ == "Unknown edit format "@ + s@,
            },
    {
        if str_eq(s, "toml") {
            Ok(EditFormat::Toml)
        } else {
            let mut m: Vec<char> = Vec::new();
            push_str(&mut m, "Unknown edit format ");
            push_str(&mut m, s);
            Err(string_of(&m))
        }
    }
}

/// What to do with git once a fragment is written.
#[derive(Clone, Copy, Debug, PartialEq, Eq)]
pub enum GitSetting {
    /// Stage the new file.
    Add,
    /// Stage and commit the new file.
    Commit,
}

/// The setting for git that counts: the one of the command line, else the
/// one of the configuration.
pub fn effective_git(cli: Option<GitSetting>, config: Option<GitSetting>) -> (r: Option<GitSetting>)
    ensures
        r == (match cli {
            Some(g) => Some(g),
            None => config,
        }),
{
    match cli {
        Some(g) => Some(g),
        None => config,
    }
}

/// Which configuration file to load: the hidden one where it exists, else
/// the plain one where that exists. `hidden_exists` and `plain_exists` say
/// what the working directory holds.
pub fn choose_config_file(hidden_exists: bool, plain_exists: bool) -> (r: Result<
    &'static str,
    Error,
>)
    ensures
        match r {
            Ok(name) => if hidden_exists {
                name@ == ".changelog.toml"@
            } else {
                plain_exists && name@ == "changelog.toml"@
            },
            Err(e) => !hidden_exists && !plain_exists && e is ConfigDoesNotExist,
        },
{
    if hidden_exists {
        Ok(config_file_hidden_name())
    } else if plain_exists {
        Ok(config_file_default_name())
    } else {
        Err(Error::ConfigDoesNotExist)
    }
}

/// The configuration of a project.
pub struct Configuration {
    pub add_version_date: bool,
    /// The directory that holds the fragments.
    pub fragment_dir: String,
    /// The path of the template inside the fragment directory.
    pub template_path: String,
    /// The path of the changelog file.
    pub changelog: String,
    /// Whether the data of a fragment is edited in the editor.
    pub edit_data: bool,
    pub edit_format: EditFormat,
    /// What to do with git once a fragment is written.
    pub git: Option<GitSetting>,
    /// The message of the commit, where git is to commit.
    pub git_commit_message: Option<String>,
    /// Whether the commit is signed off.
    pub git_commit_signoff: bool,
    /// The schema.
    pub header_fields: IndexMap<String, FragmentDataDesc>,
}

impl Configuration {
    /// The directory that holds the fragments.
    pub fn fragment_dir(&self) -> (r: &String)
        ensures
            r == &self.fragment_dir,
    {
        &self.fragment_dir
    }

    /// The path of the template inside the fragment directory.
    pub fn template_path(&self) -> (r: &String)
        ensures
            r == &self.template_path,
    {
        &self.template_path
    }

    /// The path of the changelog file.
    pub fn changelog(&self) -> (r: &String)
        ensures
            r == &self.changelog,
    {
        &self.changelog
    }

    /// What to do with git once a fragment is written.
    pub fn git(&self) -> (r: &Option<GitSetting>)
        ensures
            r == &self.git,
    {
        &self.git
    }

    /// The message of the commit.
    pub fn git_commit_message(&self) -> (r: &Option<String>)
        ensures
            r == &self.git_commit_message,
    {
        &self.git_commit_message
    }

    /// Whether the commit is signed off.
    pub fn git_commit_signoff(&self) -> (r: bool)
        ensures
            r == self.git_commit_signoff,
    {
        self.git_commit_signoff
    }

    /// The schema.
    pub fn header_fields(&self) -> (r: &IndexMap<String, FragmentDataDesc>)
        ensures
            r == &self.header_fields,
    {
        &self.header_fields
    }
}

} // verus!
