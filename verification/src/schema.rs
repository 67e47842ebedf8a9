//! The schema: the header fields that a project declares, in the order of the
//! configuration file.

use vstd::prelude::*;
use indexmap::IndexMap;
use crate::error::FragmentError;
use crate::error::FragmentErrorModel;
use crate::fragment::FieldSchema;
use crate::fragment::FragmentDataDesc;
use crate::fragment::field_type_name;
use crate::fragment::value_type_name;
use crate::header::lookup;
use crate::header::put;

verus! {

#[verifier::external_type_specification]
#[verifier::external_body]
#[verifier::reject_recursive_types(K)]
#[verifier::reject_recursive_types(V)]
#[verifier::reject_recursive_types(S)]
pub struct ExIndexMap<K, V, S>(IndexMap<K, V, S>);

/// The fields that a schema holds, each with its name, in the order in which
/// they were first declared.
pub uninterp spec fn schema_fields(schema: IndexMap<String, FragmentDataDesc>) -> Seq<
    (Seq<char>, FieldSchema),
>;

/// `IndexMap::new`: a map without entries.
#[verifier::external_body]
fn index_map_new() -> (r: IndexMap<String, FragmentDataDesc>)
    ensures
        schema_fields(r) == Seq::<(Seq<char>, FieldSchema)>::empty(),
{
    IndexMap::new()
}

/// `IndexMap::len`: the number of entries.
#[verifier::external_body]
fn index_map_len(schema: &IndexMap<String, FragmentDataDesc>) -> (r: usize)
    ensures
        r == schema_fields(*schema).len(),
{
    schema.len()
}

/// `IndexMap::get_index`: the entry at place `i` of the order, for every `i`
/// below the number of entries, and nothing from there on.
#[verifier::external_body]
fn index_map_get_index(schema: &IndexMap<String, FragmentDataDesc>, i: usize) -> (r: Option<
    (&String, &FragmentDataDesc),
>)
    ensures
        match r {
            Some((name, desc)) => i < schema_fields(*schema).len() && name@ == schema_fields(
                *schema,
            )[i as int].0 && desc@ == schema_fields(*schema)[i as int].1,
            None => i >= schema_fields(*schema).len(),
        },
{
    schema.get_index(i)
}

/// `IndexMap::insert`: where the map has the key, the entry keeps its place,
/// gets the new value and the old one is returned; otherwise the new entry
/// comes last and nothing is returned.
#[verifier::external_body]
fn index_map_insert(
    schema: &mut IndexMap<String, FragmentDataDesc>,
    name: String,
    desc: FragmentDataDesc,
) -> (r: Option<FragmentDataDesc>)
    ensures
        schema_fields(*final(schema)) == put(schema_fields(*old(schema)), name@, desc@),
        match r {
            Some(d) => lookup(schema_fields(*old(schema)), name@) == Some(d@),
            None => lookup(schema_fields(*old(schema)), name@) is None,
        },
{
    schema.insert(name, desc)
}

/// A schema without fields.
pub fn empty_schema() -> (r: IndexMap<String, FragmentDataDesc>)
    ensures
        schema_fields(r) == Seq::<(Seq<char>, FieldSchema)>::empty(),
{
    index_map_new()
}

/// Declares the field `name`. A field that the schema has keeps its place,
/// and its former description is returned; a new field comes last.
pub fn declare_field(
    schema: &mut IndexMap<String, FragmentDataDesc>,
    name: String,
    desc: FragmentDataDesc,
) -> (r: Option<FragmentDataDesc>)
    ensures
        schema_fields(*final(schema)) == put(schema_fields(*old(schema)), name@, desc@),
        match r {
            Some(d) => lookup(schema_fields(*old(schema)), name@) == Some(d@),
            None => lookup(schema_fields(*old(schema)), name@) is None,
        },
{
    index_map_insert(schema, name, desc)
}

/// The number of fields of a schema.
pub fn field_count(schema: &IndexMap<String, FragmentDataDesc>) -> (r: usize)
    ensures
        r == schema_fields(*schema).len(),
{
    index_map_len(schema)
}

/// The name and the description of the field at place `i` of a schema, for
/// every place below the number of fields, and nothing from there on.
pub fn field_at(schema: &IndexMap<String, FragmentDataDesc>, i: usize) -> (r: Option<
    (&String, &FragmentDataDesc),
>)
    ensures
        match r {
            Some((name, desc)) => i < schema_fields(*schema).len() && name@ == schema_fields(
                *schema,
            )[i as int].0 && desc@ == schema_fields(*schema)[i as int].1,
            None => i >= schema_fields(*schema).len(),
        },
{
    index_map_get_index(schema, i)
}

/// The place of the first field from `from` on whose default value does not
/// have the field's type, or the number of fields where every default is
/// typed.
pub open spec fn first_untyped_default(fields: Seq<(Seq<char>, FieldSchema)>, from: int) -> int
    decreases fields.len() - from,
{
    if from < 0 || from >= fields.len() {
        fields.len() as int
    } else if !FragmentDataDesc::default_is_typed(fields[from].1) {
        from
    } else {
        first_untyped_default(fields, from + 1)
    }
}

/// Checks a schema as it is loaded: the default value of every field must
/// have the type of its field. The first field whose default does not is
/// reported.
pub fn check_schema(schema: &IndexMap<String, FragmentDataDesc>) -> (r: Result<(), FragmentError>)
    ensures
        match r {
            Ok(()) => first_untyped_default(schema_fields(*schema), 0) == schema_fields(
                *schema,
            ).len(),
            Err(e) => {
                let i = first_untyped_default(schema_fields(*schema), 0);
                let field = schema_fields(*schema)[i];
                &&& i < schema_fields(*schema).len()
                &&& e@ == (FragmentErrorModel::DataType {
                    exp: field_type_name(field.1.field_type),
                    recv: value_type_name(field.1.default_value->0),
                    field_name: field.0,
                })
            },
        },
{
    let n = field_count(schema);
    let mut i: usize = 0;
    while i < n
        invariant
            i <= n,
            n == schema_fields(*schema).len(),
            first_untyped_default(schema_fields(*schema), 0) == first_untyped_default(
                schema_fields(*schema),
                i as int,
            ),
        decreases n - i,
    {
        if let Some((name, desc)) = field_at(schema, i) {
            match desc.check_default(name.as_str()) {
                Ok(()) => {},
                Err(e) => {
                    return Err(e);
                },
            }
        }
        i += 1;
    }
    Ok(())
}

} // verus!
