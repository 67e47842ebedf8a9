//! Checking the header of a fragment against the schema.

use vstd::prelude::*;
use indexmap::IndexMap;
use crate::fragment::FieldSchema;
use crate::fragment::FieldType;
use crate::fragment::Fragment;
use crate::fragment::FragmentData;
use crate::fragment::FragmentDataDesc;
use crate::fragment::FragmentDataType;
use crate::fragment::FragmentValue;
use crate::fragment::clone_texts;
use crate::fragment::texts_of;
use crate::fragment::type_matches;
use crate::header::Header;
use crate::header::lemma_put_lookup;
use crate::header::lookup;
use crate::header::put;
use crate::schema::field_at;
use crate::schema::field_count;
use crate::schema::schema_fields;

verus! {

/// One way in which a header breaks the schema.
#[derive(Debug)]
pub enum Violation {
    /// A required field is missing; its name.
    RequiredFieldMissing(String),
    /// A field holds a value of another type: the name of the field, the type
    /// that the schema gives it, and the value found.
    TypeMismatch(String, FragmentDataType, FragmentData),
    /// A field holds a text that is not among the permitted ones: the name of
    /// the field, the permitted texts, and the text found.
    NotInPermittedSet(String, Vec<String>, String),
}

/// The mathematical model of a violation.
pub ghost enum ViolationModel {
    RequiredFieldMissing(Seq<char>),
    TypeMismatch(Seq<char>, FieldType, FragmentValue),
    NotInPermittedSet(Seq<char>, Seq<Seq<char>>, Seq<char>),
}

impl View for Violation {
    type V = ViolationModel;

    open spec fn view(&self) -> ViolationModel {
        match self {
            Violation::RequiredFieldMissing(name) => ViolationModel::RequiredFieldMissing(name@),
            Violation::TypeMismatch(name, expected, actual) => ViolationModel::TypeMismatch(
                name@,
                expected@,
                actual@,
            ),
            Violation::NotInPermittedSet(name, permitted, actual) => ViolationModel::NotInPermittedSet(
                name@,
                texts_of(permitted@),
                actual@,
            ),
        }
    }
}

/// The models of a vector of violations.
pub open spec fn violations_of(v: Seq<Violation>) -> Seq<ViolationModel> {
    Seq::new(v.len(), |i: int| v[i]@)
}

/// What is wrong with a value of the field `name`, if anything: a text that
/// is not among the permitted ones, or a value of another type.
pub open spec fn value_violation(name: Seq<char>, field_type: FieldType, value: FragmentValue) -> Option<
    ViolationModel,
> {
    if type_matches(field_type, value) {
        None
    } else {
        match (field_type, value) {
            (FieldType::OneOf(permitted), FragmentValue::Text(s)) => Some(
                ViolationModel::NotInPermittedSet(name, permitted, s),
            ),
            _ => Some(ViolationModel::TypeMismatch(name, field_type, value)),
        }
    }
}

/// What is wrong with the field `name` in a header, if anything. A field
/// that the header lacks is wrong where the schema requires it.
pub open spec fn field_violation(
    name: Seq<char>,
    desc: FieldSchema,
    header: Seq<(Seq<char>, FragmentValue)>,
) -> Option<ViolationModel> {
    match lookup(header, name) {
        Some(value) => value_violation(name, desc.field_type, value),
        None => if desc.required {
            Some(ViolationModel::RequiredFieldMissing(name))
        } else {
            None
        },
    }
}

/// The violations of the first `n` fields of a schema in a header, in the
/// order of the schema. Fields of the header that the schema does not
/// declare play no part.
pub open spec fn violations(
    fields: Seq<(Seq<char>, FieldSchema)>,
    header: Seq<(Seq<char>, FragmentValue)>,
    n: int,
) -> Seq<ViolationModel>
    decreases n,
{
    if n <= 0 || n > fields.len() {
        Seq::empty()
    } else {
        let before = violations(fields, header, n - 1);
        match field_violation(fields[n - 1].0, fields[n - 1].1, header) {
            Some(v) => before.push(v),
            None => before,
        }
    }
}

/// Checks one field of a header.
pub fn check_field(name: &String, desc: &FragmentDataDesc, header: &Header) -> (r: Option<Violation>)
    ensures
        match r {
            Some(v) => field_violation(name@, desc@, header@) == Some(v@),
            None => field_violation(name@, desc@, header@) is None,
        },
{
    match header.get(name.as_str()) {
        Some(value) => {
            if desc.fragment_type.matches(value) {
                None
            } else {
                match &desc.fragment_type {
                    FragmentDataType::OneOf(permitted) => match value {
                        FragmentData::Str(s) => Some(
                            Violation::NotInPermittedSet(
                                name.clone(),
                                clone_texts(permitted),
                                s.clone(),
                            ),
                        ),
                        _ => Some(
                            Violation::TypeMismatch(
                                name.clone(),
                                desc.fragment_type.clone(),
                                value.clone(),
                            ),
                        ),
                    },
                    _ => Some(
                        Violation::TypeMismatch(
                            name.clone(),
                            desc.fragment_type.clone(),
                            value.clone(),
                        ),
                    ),
                }
            }
        },
        None => {
            if desc.required {
                Some(Violation::RequiredFieldMissing(name.clone()))
            } else {
                None
            }
        },
    }
}

/// Checks the header of a fragment against a schema and lists everything
/// that is wrong, field by field in the order of the schema. The call never
/// fails; an empty list says that the header is in order.
pub fn validate(fragment: &Fragment, schema: &IndexMap<String, FragmentDataDesc>) -> (r: Vec<
    Violation,
>)
    ensures
        violations_of(r@) == violations(
            schema_fields(*schema),
            fragment@.header,
            schema_fields(*schema).len() as int,
        ),
{
    let mut out: Vec<Violation> = Vec::new();
    let n = field_count(schema);
    let header = fragment.header();
    let mut i: usize = 0;
    assert(violations_of(out@) =~= violations(schema_fields(*schema), header@, 0));
    while i < n
        invariant
            i <= n,
            n == schema_fields(*schema).len(),
            header@ == fragment@.header,
            violations_of(out@) == violations(schema_fields(*schema), header@, i as int),
        decreases n - i,
    {
        let ghost before = violations_of(out@);
        if let Some((name, desc)) = field_at(schema, i) {
            match check_field(name, desc, header) {
                Some(v) => {
                    out.push(v);
                    assert(violations_of(out@) =~= before.push(v@));
                },
                None => {},
            }
        }
        i += 1;
    }
    out
}

impl Fragment {
    /// Whether the header is in order by a schema; if it is not, everything
    /// that is wrong with it.
    pub fn header_matches_config(&self, schema: &IndexMap<String, FragmentDataDesc>) -> (r: Result<
        (),
        Vec<Violation>,
    >)
        ensures
            match r {
                Ok(()) => violations(
                    schema_fields(*schema),
                    self@.header,
                    schema_fields(*schema).len() as int,
                ).len() == 0,
                Err(list) => list@.len() > 0 && violations_of(list@) == violations(
                    schema_fields(*schema),
                    self@.header,
                    schema_fields(*schema).len() as int,
                ),
            },
    {
        let list = validate(self, schema);
        if list.len() == 0 {
            Ok(())
        } else {
            Err(list)
        }
    }
}


/// Whether the schema declares no field with the name `name` among its first
/// `n` fields.
pub open spec fn undeclared(fields: Seq<(Seq<char>, FieldSchema)>, name: Seq<char>, n: int) -> bool {
    forall|i: int| 0 <= i < n && i < fields.len() ==> (#[trigger] fields[i]).0 != name
}

/// A field that the schema does not declare plays no part: whatever value a
/// header gives it, the violations are the same.
pub proof fn lemma_undeclared_fields_are_ignored(
    fields: Seq<(Seq<char>, FieldSchema)>,
    header: Seq<(Seq<char>, FragmentValue)>,
    name: Seq<char>,
    value: FragmentValue,
    n: int,
)
    requires
        0 <= n <= fields.len(),
        undeclared(fields, name, n),
    ensures
        violations(fields, put(header, name, value), n) == violations(fields, header, n),
    decreases n,
{
    if n > 0 {
        lemma_undeclared_fields_are_ignored(fields, header, name, value, n - 1);
        assert(fields[n - 1].0 != name);
        lemma_put_lookup(header, name, value, fields[n - 1].0);
    }
}

} // verus!
