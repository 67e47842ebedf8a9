//! The errors that the library reports.

use vstd::prelude::*;
use crate::fragment::FieldType;
use crate::fragment::FragmentData;
use crate::fragment::FragmentDataType;
use crate::fragment::FragmentValue;
use crate::fragment::texts_of;
use crate::validate::Violation;
use crate::validate::ViolationModel;
use crate::validate::violations_of;


verus! {

/// A failure while a value is asked of the user.
#[derive(Debug)]
pub enum InteractiveError {
    /// The user broke the session off.
    Interrupted,
    /// A default value does not have the type of its field.
    TypeError(FragmentDataType, FragmentData),
    /// The user picked an entry that the list of permitted values lacks:
    /// the index picked, then the length of the list.
    IndexError(usize, usize),
}

/// The mathematical model of a failure of the interactive session.
pub ghost enum InteractiveErrorModel {
    Interrupted,
    TypeError(FieldType, FragmentValue),
    IndexError(usize, usize),
}

impl View for InteractiveError {
    type V = InteractiveErrorModel;

    open spec fn view(&self) -> InteractiveErrorModel {
        match self {
            InteractiveError::Interrupted => InteractiveErrorModel::Interrupted,
            InteractiveError::TypeError(t, d) => InteractiveErrorModel::TypeError(t@, d@),
            InteractiveError::IndexError(i, n) => InteractiveErrorModel::IndexError(*i, *n),
        }
    }
}

/// A failure while a fragment is read, written or built.
#[derive(Debug)]
pub enum FragmentError {
    /// The first line is not one of the two separators; it is carried along.
    ExpectedSeperator(String),
    /// The text has no first line.
    HeaderSeperatorMissing,
    /// The header could not be written as TOML.
    TomlSer(String),
    /// The header block is not a TOML document of the expected shape.
    TomlDe(String),
    /// The header could not be written as YAML.
    YamlSer(String),
    /// The header block is not a YAML document of the expected shape.
    YamlDe(String),
    /// A header field holds what is no header value, such as a negative
    /// number; the name of the field is carried along.
    HeaderValue(String),
    /// A value does not have the type that the schema gives its field.
    DataType { exp: String, recv: String, field_name: String },
    /// The interactive session failed.
    Interactive(InteractiveError),
    /// A required field has no value.
    RequiredValueMissing(String),
    /// The command line of a field's crawler names no program.
    NoValidCommand { command: String, field_name: String },
    /// The crawler of a field did not exit successfully.
    CommandNoSuccess { command: String, field_name: String },
    /// The output of a field's crawler is not UTF-8.
    NoUtf8Output { command: String, field_name: String },
}

/// The mathematical model of a failure to read, write or build a fragment.
pub ghost enum FragmentErrorModel {
    ExpectedSeperator(Seq<char>),
    HeaderSeperatorMissing,
    TomlSer(Seq<char>),
    TomlDe(Seq<char>),
    YamlSer(Seq<char>),
    YamlDe(Seq<char>),
    HeaderValue(Seq<char>),
    DataType { exp: Seq<char>, recv: Seq<char>, field_name: Seq<char> },
    Interactive(InteractiveErrorModel),
    RequiredValueMissing(Seq<char>),
    NoValidCommand { command: Seq<char>, field_name: Seq<char> },
    CommandNoSuccess { command: Seq<char>, field_name: Seq<char> },
    NoUtf8Output { command: Seq<char>, field_name: Seq<char> },
}

impl View for FragmentError {
    type V = FragmentErrorModel;

    open spec fn view(&self) -> FragmentErrorModel {
        match self {
            FragmentError::ExpectedSeperator(s) => FragmentErrorModel::ExpectedSeperator(s@),
            FragmentError::HeaderSeperatorMissing => FragmentErrorModel::HeaderSeperatorMissing,
            FragmentError::TomlSer(s) => FragmentErrorModel::TomlSer(s@),
            FragmentError::TomlDe(s) => FragmentErrorModel::TomlDe(s@),
            FragmentError::YamlSer(s) => FragmentErrorModel::YamlSer(s@),
            FragmentError::YamlDe(s) => FragmentErrorModel::YamlDe(s@),
            FragmentError::HeaderValue(s) => FragmentErrorModel::HeaderValue(s@),
            FragmentError::DataType { exp, recv, field_name } => FragmentErrorModel::DataType {
                exp: exp@,
                recv: recv@,
                field_name: field_name@,
            },
            FragmentError::Interactive(e) => FragmentErrorModel::Interactive(e@),
            FragmentError::RequiredValueMissing(s) => FragmentErrorModel::RequiredValueMissing(s@),
            FragmentError::NoValidCommand { command, field_name } => FragmentErrorModel::NoValidCommand {
                command: command@,
                field_name: field_name@,
            },
            FragmentError::CommandNoSuccess {
                command,
                field_name,
            } => FragmentErrorModel::CommandNoSuccess { command: command@, field_name: field_name@ },
            FragmentError::NoUtf8Output { command, field_name } => FragmentErrorModel::NoUtf8Output {
                command: command@,
                field_name: field_name@,
            },
        }
    }
}

/// A path from which no version can be read.
#[derive(Debug)]
pub enum VersionError {
    /// The path has a component that is not UTF-8.
    Utf8(String),
}

/// A failure while the text of a fragment is fetched.
#[derive(Debug)]
pub enum TextProviderError {
    /// Reading failed; the message is carried along.
    Io(String),
    /// What was read is not UTF-8.
    Utf8(String),
}


/// What is wrong with the fragments of a project.
#[derive(Debug)]
pub enum VerificationError {
    /// A path from which no version can be read.
    Version(VersionError),
    /// A file that is no fragment: its path and the reason.
    FragmentParsing(String, FragmentError),
    /// An entry of the fragment directory could not be read.
    WalkDir(String),
    /// A fragment whose header breaks the schema: its path and everything
    /// that is wrong with the header.
    Multiple { fragment_path: String, multiple: Vec<Violation> },
    /// Two fragments whose headers do not have the same fields: the path and
    /// the field names of the one, then those of the other.
    Inconsistent {
        first_path: String,
        first_keys: Vec<String>,
        other_path: String,
        other_keys: Vec<String>,
    },
}

/// The mathematical model of a finding about the fragments of a project.
pub ghost enum VerificationErrorModel {
    Version(Seq<char>),
    FragmentParsing(Seq<char>, FragmentErrorModel),
    WalkDir(Seq<char>),
    Multiple { fragment_path: Seq<char>, multiple: Seq<ViolationModel> },
    Inconsistent {
        first_path: Seq<char>,
        first_keys: Seq<Seq<char>>,
        other_path: Seq<char>,
        other_keys: Seq<Seq<char>>,
    },
}

impl View for VerificationError {
    type V = VerificationErrorModel;

    open spec fn view(&self) -> VerificationErrorModel {
        match self {
            VerificationError::Version(VersionError::Utf8(p)) => VerificationErrorModel::Version(p@),
            VerificationError::FragmentParsing(p, e) => VerificationErrorModel::FragmentParsing(
                p@,
                e@,
            ),
            VerificationError::WalkDir(m) => VerificationErrorModel::WalkDir(m@),
            VerificationError::Multiple { fragment_path, multiple } => VerificationErrorModel::Multiple {
                fragment_path: fragment_path@,
                multiple: violations_of(multiple@),
            },
            VerificationError::Inconsistent {
                first_path,
                first_keys,
                other_path,
                other_keys,
            } => VerificationErrorModel::Inconsistent {
                first_path: first_path@,
                first_keys: texts_of(first_keys@),
                other_path: other_path@,
                other_keys: texts_of(other_keys@),
            },
        }
    }
}

/// The models of a vector of findings.
pub open spec fn findings_of(v: Seq<VerificationError>) -> Seq<VerificationErrorModel> {
    Seq::new(v.len(), |i: int| v[i]@)
}

/// A failure of a command.
#[derive(Debug)]
pub enum Error {
    /// A text is no semantic version; the reason is carried along.
    SemVer(String),
    /// A fragment could not be read, written or built; the path of its file
    /// is carried along.
    Fragment(FragmentError, String),
    /// A path from which no version can be read.
    Version(VersionError),
    /// The text of a fragment could not be fetched.
    TextProvider(TextProviderError),
    /// An entry of the fragment directory could not be read.
    WalkDir(String),
    /// The fragments of the project are not in order.
    Verification(Vec<VerificationError>),
    /// The directory of the version asked for does not exist.
    ExactVersionDoesNotExist { version: String },
    /// The workspace has no package, so no version.
    NoVersionInCargoToml,
    /// The packages of the workspace do not all have the same version.
    WorkspaceVersionsNotEqual,
    /// Neither of the two variables that name an editor is set.
    EditorEnvNotSet,
    /// The named environment variable is not unicode.
    EnvNotUnicode(String),
    /// A path without a file name.
    NotAFile(String),
    /// No configuration file was found.
    ConfigDoesNotExist,
    /// The repository has changes that are not committed.
    GitRepoDirty,
    /// Several failures, reported together.
    Multiple { errors: Vec<Error> },
}

} // verus!
