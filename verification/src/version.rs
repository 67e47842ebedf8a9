//! Semantic versions: reading them, writing them and ordering them.

use vstd::prelude::*;
use std::cmp::Ordering;
use crate::error::Error;
use crate::error::VersionError;
use crate::path::PathPart;
use crate::path::PathPartModel;
use crate::path::parts_of;
use crate::text::decimal_digits;
use crate::text::format_u64;
use crate::text::push_all;
use crate::text::push_str;
use crate::text::string_of;

verus! {

/// A semantic version: three numbers, a pre-release tag and build metadata,
/// the last two empty where the version has none.
#[derive(Debug)]
pub struct Version {
    pub major: u64,
    pub minor: u64,
    pub patch: u64,
    pub pre: String,
    pub build: String,
}

/// The mathematical model of a version.
pub ghost struct VersionModel {
    pub major: u64,
    pub minor: u64,
    pub patch: u64,
    pub pre: Seq<char>,
    pub build: Seq<char>,
}

impl View for Version {
    type V = VersionModel;

    open spec fn view(&self) -> VersionModel {
        VersionModel {
            major: self.major,
            minor: self.minor,
            patch: self.patch,
            pre: self.pre@,
            build: self.build@,
        }
    }
}

impl Clone for Version {
    fn clone(&self) -> (r: Self)
        ensures
            r@ == self@,
    {
        Version {
            major: self.major,
            minor: self.minor,
            patch: self.patch,
            pre: self.pre.clone(),
            build: self.build.clone(),
        }
    }
}

/// How one version stands to another in precedence.
#[derive(Clone, Copy, Debug, PartialEq, Eq)]
pub enum Precedence {
    Lower,
    Same,
    Higher,
}

/// What `semver::Version::parse` makes of a text: the version it reads, or
/// the message of its error.
pub uninterp spec fn semver_parsed(text: Seq<char>) -> Result<VersionModel, Seq<char>>;

/// How `semver::Version::cmp` orders two versions; `None` where a pre-release
/// tag or the build metadata of one of them is not what `semver` accepts.
pub uninterp spec fn semver_order(a: VersionModel, b: VersionModel) -> Option<Precedence>;

/// Whether the three numbers of `a` come before those of `b`, the major
/// number counting first and the patch number last.
pub open spec fn core_before(a: VersionModel, b: VersionModel) -> bool {
    a.major < b.major || (a.major == b.major && (a.minor < b.minor || (a.minor == b.minor && a.patch
        < b.patch)))
}

/// Whether `a` precedes `b`. Versions whose numbers differ go by their
/// numbers; no version precedes itself; between two different versions with
/// the same numbers `semver` decides.
pub open spec fn version_precedes(a: VersionModel, b: VersionModel) -> bool {
    core_before(a, b) || (!core_before(b, a) && a != b && semver_order(a, b) == Some(
        Precedence::Lower,
    ))
}

/// Precedence is strict where the numbers decide: no version precedes
/// itself, and of two versions whose numbers differ exactly the one with the
/// lower numbers precedes the other.
pub proof fn lemma_precedence_is_strict(a: VersionModel, b: VersionModel)
    ensures
        !version_precedes(a, a),
        core_before(a, b) ==> version_precedes(a, b) && !version_precedes(b, a),
        version_precedes(a, b) ==> !core_before(b, a),
{
}

/// The text of a version: the three numbers with dots between, then a hyphen
/// and the pre-release tag where there is one, then a plus sign and the build
/// metadata where there is any.
pub open spec fn version_text(v: VersionModel) -> Seq<char> {
    decimal_digits(v.major as nat) + seq!['.'] + decimal_digits(v.minor as nat) + seq!['.']
        + decimal_digits(v.patch as nat) + (if v.pre.len() > 0 {
        seq!['-'] + v.pre
    } else {
        Seq::empty()
    }) + (if v.build.len() > 0 {
        seq!['+'] + v.build
    } else {
        Seq::empty()
    })
}

/// Calls `semver::Version::parse` and hands out the fields of the version it
/// returns, or the text of its error. The result is the one that
/// `semver_parsed` names.
#[verifier::external_body]
fn semver_parse(text: &str) -> (r: Result<Version, String>)
    ensures
        match r {
            Ok(v) => semver_parsed(text@) == Ok::<VersionModel, Seq<char>>(v@),
            Err(e) => semver_parsed(text@) == Err::<VersionModel, Seq<char>>(e@),
        },
{
    match semver::Version::parse(text) {
        Ok(v) => Ok(
            Version {
                major: v.major,
                minor: v.minor,
                patch: v.patch,
                pre: v.pre.as_str().to_string(),
                build: v.build.as_str().to_string(),
            },
        ),
        Err(e) => Err(e.to_string()),
    }
}

/// Builds two `semver::Version` values out of the fields given and compares
/// them with `semver::Version::cmp`; `None` where `semver::Prerelease::new` or
/// `semver::BuildMetadata::new` refuses a tag. The result is the one that
/// `semver_order` names.
#[verifier::external_body]
fn semver_compare(a: &Version, b: &Version) -> (r: Option<Precedence>)
    ensures
        r == semver_order(a@, b@),
{
    let pa = semver::Prerelease::new(&a.pre).ok()?;
    let ba = semver::BuildMetadata::new(&a.build).ok()?;
    let pb = semver::Prerelease::new(&b.pre).ok()?;
    let bb = semver::BuildMetadata::new(&b.build).ok()?;
    let x = semver::Version { major: a.major, minor: a.minor, patch: a.patch, pre: pa, build: ba };
    let y = semver::Version { major: b.major, minor: b.minor, patch: b.patch, pre: pb, build: bb };
    Some(
        match x.cmp(&y) {
            Ordering::Less => Precedence::Lower,
            Ordering::Equal => Precedence::Same,
            Ordering::Greater => Precedence::Higher,
        },
    )
}

impl Version {
    /// A version of three numbers, without pre-release tag or build metadata.
    pub fn new(major: u64, minor: u64, patch: u64) -> (r: Version)
        ensures
            r@ == (VersionModel { major, minor, patch, pre: Seq::empty(), build: Seq::empty() }),
    {
        Version { major, minor, patch, pre: String::new(), build: String::new() }
    }

    /// Reads a version. A text that is no semantic version gives
    /// `Error::SemVer` with the reason.
    pub fn parse(text: &str) -> (r: Result<Version, Error>)
        ensures
            match r {
                Ok(v) => semver_parsed(text@) == Ok::<VersionModel, Seq<char>>(v@),
                Err(e) => (e matches Error::SemVer(m) && semver_parsed(text@) == Err::<
                    VersionModel,
                    Seq<char>,
                >(m@)),
            },
    {
        match semver_parse(text) {
            Ok(v) => Ok(v),
            Err(m) => Err(Error::SemVer(m)),
        }
    }

    /// Writes the version.
    pub fn to_text(&self) -> (r: String)
        ensures
            r@ == version_text(self@),
    {
        let mut out: Vec<char> = format_u64(self.major);
        out.push('.');
        let minor = format_u64(self.minor);
        push_all(&mut out, &minor);
        out.push('.');
        let patch = format_u64(self.patch);
        push_all(&mut out, &patch);
        if self.pre.as_str().unicode_len() > 0 {
            out.push('-');
            push_str(&mut out, self.pre.as_str());
        }
        if self.build.as_str().unicode_len() > 0 {
            out.push('+');
            push_str(&mut out, self.build.as_str());
        }
        proof {
            assert(out@ =~= version_text(self@));
        }
        string_of(&out)
    }

    /// Whether this version precedes `other`, given how `semver` orders the
    /// two: versions whose numbers differ go by their numbers, no version
    /// precedes itself, and `tie` decides between two different versions
    /// with the same numbers.
    pub fn precedes_given(&self, other: &Version, tie: Option<Precedence>) -> (r: bool)
        ensures
            r == (core_before(self@, other@) || (!core_before(other@, self@) && self@ != other@
                && tie == Some(Precedence::Lower))),
    {
        if self.numbers_before(other) {
            true
        } else if other.numbers_before(self) {
            false
        } else if self.pre == other.pre && self.build == other.build {
            false
        } else {
            match tie {
                Some(Precedence::Lower) => true,
                _ => false,
            }
        }
    }

    /// Whether this version precedes `other`.
    pub fn precedes(&self, other: &Version) -> (r: bool)
        ensures
            r == version_precedes(self@, other@),
    {
        self.precedes_given(other, semver_compare(self, other))
    }

    /// Whether the three numbers of this version come before those of `other`.
    pub fn numbers_before(&self, other: &Version) -> (r: bool)
        ensures
            r == core_before(self@, other@),
    {
        self.major < other.major || (self.major == other.major && (self.minor < other.minor || (
        self.minor == other.minor && self.patch < other.patch)))
    }
}

/// What a component of a path reads as.
#[derive(Debug)]
pub enum PartReading {
    /// A name that is a version.
    Version(Version),
    /// A name that is no version.
    Name,
    /// A name that is not UTF-8.
    NotUtf8,
    /// A root, a prefix, or a reference to the current or the parent
    /// directory.
    Special,
}

/// The mathematical model of the reading of a component.
pub ghost enum PartReadingModel {
    Version(VersionModel),
    Name,
    NotUtf8,
    Special,
}

impl View for PartReading {
    type V = PartReadingModel;

    open spec fn view(&self) -> PartReadingModel {
        match self {
            PartReading::Version(v) => PartReadingModel::Version(v@),
            PartReading::Name => PartReadingModel::Name,
            PartReading::NotUtf8 => PartReadingModel::NotUtf8,
            PartReading::Special => PartReadingModel::Special,
        }
    }
}

/// The models of the readings of the components of a path.
pub open spec fn readings_of(readings: Seq<PartReading>) -> Seq<PartReadingModel> {
    Seq::new(readings.len(), |i: int| readings[i]@)
}

/// What a component reads as: a name is a version where `semver` reads it
/// as one.
pub open spec fn reading(part: PathPartModel) -> PartReadingModel {
    match part {
        PathPartModel::Normal(name) => match semver_parsed(name) {
            Ok(v) => PartReadingModel::Version(v),
            Err(_) => PartReadingModel::Name,
        },
        PathPartModel::NotUtf8 => PartReadingModel::NotUtf8,
        PathPartModel::Special => PartReadingModel::Special,
    }
}

/// The readings of the components of a path.
pub open spec fn readings(parts: Seq<PathPartModel>) -> Seq<PartReadingModel> {
    Seq::new(parts.len(), |i: int| reading(parts[i]))
}

/// The first version among the readings from `from` on. A name that is not
/// UTF-8 and stands before any version makes the path unreadable.
pub open spec fn first_version(readings: Seq<PartReadingModel>, from: int) -> Result<
    Option<VersionModel>,
    (),
>
    decreases readings.len() - from,
{
    if from < 0 || from >= readings.len() {
        Ok(None)
    } else {
        match readings[from] {
            PartReadingModel::Version(v) => Ok(Some(v)),
            PartReadingModel::NotUtf8 => Err(()),
            _ => first_version(readings, from + 1),
        }
    }
}

/// The version of the first part from `from` on that is a directory or file
/// name and reads as a version. A name that is not UTF-8 and stands before
/// any version makes the path unreadable.
pub open spec fn version_in_parts(parts: Seq<PathPartModel>, from: int) -> Result<
    Option<VersionModel>,
    (),
> {
    first_version(readings(parts), from)
}

/// Reads the components of a path.
pub fn read_parts(parts: &Vec<PathPart>) -> (r: Vec<PartReading>)
    ensures
        readings_of(r@) == readings(parts_of(parts@)),
{
    let mut out: Vec<PartReading> = Vec::new();
    let mut i: usize = 0;
    while i < parts.len()
        invariant
            i <= parts.len(),
            out.len() == i,
            forall|k: int| 0 <= k < i ==> out@[k]@ == reading(parts@[k]@),
        decreases parts.len() - i,
    {
        let item = match &parts[i] {
            PathPart::Normal(name) => match semver_parse(name.as_str()) {
                Ok(v) => PartReading::Version(v),
                Err(_) => PartReading::Name,
            },
            PathPart::NotUtf8 => PartReading::NotUtf8,
            PathPart::Special => PartReading::Special,
        };
        out.push(item);
        i += 1;
    }
    assert(readings_of(out@) =~= readings(parts_of(parts@)));
    out
}

/// Picks the version of a path out of the readings of its components: the
/// first version counts. `path` is the path as text, for the error.
pub fn pick_version(path: &str, readings: Vec<PartReading>) -> (r: Result<
    Option<Version>,
    VersionError,
>)
    ensures
        match r {
            Ok(Some(v)) => first_version(readings_of(readings@), 0) == Ok::<
                Option<VersionModel>,
                (),
            >(Some(v@)),
            Ok(None) => first_version(readings_of(readings@), 0) == Ok::<Option<VersionModel>, ()>(
                None,
            ),
            Err(e) => first_version(readings_of(readings@), 0) is Err && (
            e matches VersionError::Utf8(p) && p@ == path@),
        },
{
    let ghost model = readings_of(readings@);
    for item in it: readings
        invariant
            it.seq() == readings@,
            model == readings_of(readings@),
            first_version(model, 0) == first_version(model, it.index() as int),
    {
        assert(model[it.index() as int] == item@);
        match item {
            PartReading::Version(v) => {
                return Ok(Some(v));
            },
            PartReading::NotUtf8 => {
                return Err(VersionError::Utf8(path.to_owned()));
            },
            _ => {},
        }
    }
    Ok(None)
}

/// The version that a path belongs to: that of its first component that
/// reads as a version. `path` is the path as text, for the error.
pub fn get_version_from_path(path: &str, parts: &Vec<PathPart>) -> (r: Result<
    Option<Version>,
    VersionError,
>)
    ensures
        match r {
            Ok(Some(v)) => version_in_parts(parts_of(parts@), 0) == Ok::<Option<VersionModel>, ()>(
                Some(v@),
            ),
            Ok(None) => version_in_parts(parts_of(parts@), 0) == Ok::<Option<VersionModel>, ()>(
                None,
            ),
            Err(e) => version_in_parts(parts_of(parts@), 0) is Err && (e matches VersionError::Utf8(
                p,
            ) && p@ == path@),
        },
{
    pick_version(path, read_parts(parts))
}

} // verus!
