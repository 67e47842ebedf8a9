//! Checking every fragment of a project: each file is read and held against
//! the schema, and what is wrong is collected, not stopped at.

use vstd::prelude::*;
use indexmap::IndexMap;
use crate::error::Error;
use crate::error::VerificationError;
use crate::error::VerificationErrorModel;
use crate::error::findings_of;
use crate::fragment::FieldSchema;
use crate::fragment::Fragment;
use crate::fragment::FragmentDataDesc;
use crate::fragment::FragmentModel;
use crate::fragment::FragmentValue;
use crate::fragment::read_fragment;
use crate::fragment::texts_of;
use crate::header::Header;
use crate::header::has_key;
use crate::header::keys_of;
use crate::path::PathPart;
use crate::path::parts_of;
use crate::schema::schema_fields;
use crate::validate::violations;
use crate::version::get_version_from_path;
use crate::version::version_in_parts;

verus! {

/// The command that checks the fragments of a project.
#[derive(Debug)]
pub struct VerifyMetadataCommand {}

/// What is wrong with the file at `path` that holds `text`, if anything: it
/// is no fragment, or its header breaks the schema.
pub open spec fn finding(
    path: Seq<char>,
    text: Seq<char>,
    fields: Seq<(Seq<char>, FieldSchema)>,
) -> Option<VerificationErrorModel> {
    match read_fragment(text) {
        Err(e) => Some(VerificationErrorModel::FragmentParsing(path, e)),
        Ok(f) => {
            let list = violations(fields, f.header, fields.len() as int);
            if list.len() > 0 {
                Some(VerificationErrorModel::Multiple { fragment_path: path, multiple: list })
            } else {
                None
            }
        },
    }
}

/// What is wrong with the first `n` files, in their order. A file that is in
/// order adds nothing; a file that is not adds its finding, whatever the
/// files before it were like.
pub open spec fn findings(
    files: Seq<(Seq<char>, Seq<char>)>,
    fields: Seq<(Seq<char>, FieldSchema)>,
    n: int,
) -> Seq<VerificationErrorModel>
    decreases n,
{
    if n <= 0 || n > files.len() {
        Seq::empty()
    } else {
        let before = findings(files, fields, n - 1);
        match finding(files[n - 1].0, files[n - 1].1, fields) {
            Some(f) => before.push(f),
            None => before,
        }
    }
}

/// The paths and texts of a vector of files.
pub open spec fn files_of(files: Seq<(String, String)>) -> Seq<(Seq<char>, Seq<char>)> {
    Seq::new(files.len(), |i: int| (files[i].0@, files[i].1@))
}

/// Whether every field name of `a` is a field name of `b`.
pub open spec fn keys_within(
    a: Seq<(Seq<char>, FragmentValue)>,
    b: Seq<(Seq<char>, FragmentValue)>,
    n: int,
) -> bool
    decreases n,
{
    if n <= 0 || n > a.len() {
        true
    } else {
        keys_within(a, b, n - 1) && has_key(b, a[n - 1].0)
    }
}

/// Whether two headers have the same field names.
pub open spec fn same_fields(
    a: Seq<(Seq<char>, FragmentValue)>,
    b: Seq<(Seq<char>, FragmentValue)>,
) -> bool {
    keys_within(a, b, a.len() as int) && keys_within(b, a, b.len() as int)
}

/// The place of the first fragment at or after `from` whose header does not
/// have the field names of the first fragment, or the number of fragments
/// where there is none.
pub open spec fn first_odd_one(fragments: Seq<(String, Fragment)>, from: int) -> int
    decreases fragments.len() - from,
{
    if from < 1 || from >= fragments.len() {
        fragments.len() as int
    } else if !same_fields(fragments[0].1@.header, fragments[from].1@.header) {
        from
    } else {
        first_odd_one(fragments, from + 1)
    }
}

fn header_keys(header: &Header) -> (r: Vec<String>)
    ensures
        texts_of(r@) == keys_of(header@),
{
    let mut out: Vec<String> = Vec::new();
    let mut i: usize = 0;
    while i < header.len()
        invariant
            i <= header@.len(),
            out.len() == i,
            forall|k: int| 0 <= k < i ==> out@[k]@ == header@[k].0,
        decreases header@.len() - i,
    {
        if let Some((name, _)) = header.entry_at(i) {
            out.push(name.clone());
        }
        i += 1;
    }
    assert(texts_of(out@) =~= keys_of(header@));
    out
}

fn within(a: &Header, b: &Header) -> (r: bool)
    ensures
        r == keys_within(a@, b@, a@.len() as int),
{
    let mut i: usize = 0;
    while i < a.len()
        invariant
            i <= a@.len(),
            keys_within(a@, b@, i as int),
        decreases a@.len() - i,
    {
        if let Some((name, _)) = a.entry_at(i) {
            if !b.contains_key(name.as_str()) {
                proof {
                    lemma_keys_within_stays_false(a@, b@, i + 1, a@.len() as int);
                }
                return false;
            }
        }
        i += 1;
    }
    true
}

/// A name that is missing stays missing when more names are looked at.
pub proof fn lemma_keys_within_stays_false(
    a: Seq<(Seq<char>, FragmentValue)>,
    b: Seq<(Seq<char>, FragmentValue)>,
    n: int,
    m: int,
)
    requires
        0 <= n <= m <= a.len(),
        !keys_within(a, b, n),
    ensures
        !keys_within(a, b, m),
    decreases m - n,
{
    if n < m {
        lemma_keys_within_stays_false(a, b, n, m - 1);
    }
}

impl VerifyMetadataCommand {
    /// Whether the file at a path is to be checked: the fragments of the
    /// releases are, and they lie below a directory named by a version.
    pub fn wants(path: &str, parts: &Vec<PathPart>) -> (r: Result<bool, VerificationError>)
        ensures
            match r {
                Ok(wanted) => version_in_parts(parts_of(parts@), 0) matches Ok(found) && wanted
                    == found is Some,
                Err(e) => version_in_parts(parts_of(parts@), 0) is Err && e@
                    == VerificationErrorModel::Version(path@),
            },
    {
        match get_version_from_path(path, parts) {
            Ok(Some(_)) => Ok(true),
            Ok(None) => Ok(false),
            Err(e) => Err(VerificationError::Version(e)),
        }
    }

    /// Checks one file: it must be a fragment, and its header must be in
    /// order by the schema.
    pub fn check(path: &str, text: &str, schema: &IndexMap<String, FragmentDataDesc>) -> (r: Result<
        Fragment,
        VerificationError,
    >)
        ensures
            match r {
                Ok(f) => finding(path@, text@, schema_fields(*schema)) is None && read_fragment(
                    text@,
                ) == Ok::<FragmentModel, crate::error::FragmentErrorModel>(f@),
                Err(e) => finding(path@, text@, schema_fields(*schema)) == Some(e@),
            },
    {
        match Fragment::from_reader(text) {
            Err(e) => Err(VerificationError::FragmentParsing(path.to_owned(), e)),
            Ok(fragment) => match fragment.header_matches_config(schema) {
                Ok(()) => Ok(fragment),
                Err(multiple) => Err(
                    VerificationError::Multiple { fragment_path: path.to_owned(), multiple },
                ),
            },
        }
    }

    /// Checks every file, each given by its path and its text, and collects
    /// what is wrong. No finding hides another: each file that is not in
    /// order has its finding in the list, in the order of the files.
    pub fn check_all(files: &Vec<(String, String)>, schema: &IndexMap<String, FragmentDataDesc>) -> (r:
        Vec<VerificationError>)
        ensures
            findings_of(r@) == findings(
                files_of(files@),
                schema_fields(*schema),
                files@.len() as int,
            ),
    {
        let mut out: Vec<VerificationError> = Vec::new();
        let ghost model = files_of(files@);
        let mut i: usize = 0;
        assert(findings_of(out@) =~= findings(model, schema_fields(*schema), 0));
        while i < files.len()
            invariant
                i <= files.len(),
                model == files_of(files@),
                findings_of(out@) == findings(model, schema_fields(*schema), i as int),
            decreases files.len() - i,
        {
            assert(model[i as int] == (files@[i as int].0@, files@[i as int].1@));
            let ghost before = findings_of(out@);
            match Self::check(files[i].0.as_str(), files[i].1.as_str(), schema) {
                Ok(_) => {},
                Err(e) => {
                    out.push(e);
                    assert(findings_of(out@) =~= before.push(e@));
                },
            }
            i += 1;
        }
        out
    }

    /// Checks that all fragments, each given with its path, have the same
    /// header fields as the first. The first fragment that has not is
    /// reported together with the first, with the field names of both.
    pub fn check_consistency(fragments: &Vec<(String, Fragment)>) -> (r: Option<VerificationError>)
        ensures
            match r {
                None => first_odd_one(fragments@, 1) == fragments@.len(),
                Some(e) => {
                    let i = first_odd_one(fragments@, 1);
                    &&& 1 <= i < fragments@.len()
                    &&& e@ == (VerificationErrorModel::Inconsistent {
                        first_path: fragments@[0].0@,
                        first_keys: keys_of(fragments@[0].1@.header),
                        other_path: fragments@[i].0@,
                        other_keys: keys_of(fragments@[i].1@.header),
                    })
                },
            },
    {
        if fragments.len() == 0 {
            return None;
        }
        let first = fragments[0].1.header();
        let mut i: usize = 1;
        while i < fragments.len()
            invariant
                1 <= i <= fragments.len(),
                first@ == fragments@[0].1@.header,
                first_odd_one(fragments@, 1) == first_odd_one(fragments@, i as int),
            decreases fragments.len() - i,
        {
            let other = fragments[i].1.header();
            if !(within(first, other) && within(other, first)) {
                return Some(
                    VerificationError::Inconsistent {
                        first_path: fragments[0].0.clone(),
                        first_keys: header_keys(first),
                        other_path: fragments[i].0.clone(),
                        other_keys: header_keys(other),
                    },
                );
            }
            i += 1;
        }
        None
    }

    /// Ends a check: no finding is success, any finding a failure that
    /// carries them all.
    pub fn conclude(found: Vec<VerificationError>) -> (r: Result<(), Error>)
        ensures
            match r {
                Ok(()) => found@.len() == 0,
                Err(e) => found@.len() > 0 && e == Error::Verification(found),
            },
    {
        if found.len() == 0 {
            Ok(())
        } else {
            Err(Error::Verification(found))
        }
    }
}


/// No finding hides another: whatever is wrong with a file is among the
/// findings of every run over files that include it, however many of the
/// other files are wrong too.
pub proof fn lemma_no_finding_is_hidden(
    files: Seq<(Seq<char>, Seq<char>)>,
    fields: Seq<(Seq<char>, FieldSchema)>,
    i: int,
    n: int,
)
    requires
        0 <= i < n <= files.len(),
        finding(files[i].0, files[i].1, fields) is Some,
    ensures
        findings(files, fields, n).contains(finding(files[i].0, files[i].1, fields)->0),
    decreases n,
{
    let wanted = finding(files[i].0, files[i].1, fields)->0;
    if i == n - 1 {
        let all = findings(files, fields, n);
        assert(all[all.len() - 1] == wanted);
    } else {
        lemma_no_finding_is_hidden(files, fields, i, n - 1);
        let before = findings(files, fields, n - 1);
        let k = choose|k: int| 0 <= k < before.len() && before[k] == wanted;
        assert(findings(files, fields, n)[k] == wanted);
    }
}

} // verus!
