//! Headers as TOML and YAML text. The two encodings are the work of the
//! `toml` and `serde_yaml` crates; what they read is checked and turned into
//! a header here.

use vstd::prelude::*;
use serde_json::Value;
use crate::error::FragmentError;
use crate::error::FragmentErrorModel;
use crate::format::Format;
use crate::fragment::FragmentData;
use crate::fragment::FragmentValue;
use crate::header::Header;
use crate::header::distinct_keys;
use crate::header::first_index;
use crate::header::lemma_first_index;
use crate::header::lemma_put_distinct;
use crate::header::put;

verus! {

/// A value as a header document holds it, before it is known to be a header
/// value.
#[derive(Debug)]
pub enum RawValue {
    /// Nothing.
    Null,
    Bool(bool),
    /// A number from zero up.
    UInt(u64),
    /// A number below zero.
    Int(i64),
    /// A number that is no integer; its text.
    Float(String),
    Text(String),
    List(Vec<RawValue>),
    Table(Vec<(String, RawValue)>),
}

/// The mathematical model of a document value.
pub ghost enum RawModel {
    Null,
    Bool(bool),
    UInt(u64),
    Int(i64),
    Float(Seq<char>),
    Text(Seq<char>),
    List(Seq<RawModel>),
    Table(Seq<(Seq<char>, RawModel)>),
}

/// The document value that `r` stands for.
pub open spec fn raw_of(r: RawValue) -> RawModel
    decreases r,
{
    match r {
        RawValue::Null => RawModel::Null,
        RawValue::Bool(b) => RawModel::Bool(b),
        RawValue::UInt(u) => RawModel::UInt(u),
        RawValue::Int(i) => RawModel::Int(i),
        RawValue::Float(f) => RawModel::Float(f@),
        RawValue::Text(s) => RawModel::Text(s@),
        RawValue::List(v) => RawModel::List(
            Seq::new(
                v.len() as nat,
                |i: int|
                    if 0 <= i < v.len() {
                        raw_of(v[i])
                    } else {
                        RawModel::Null
                    },
            ),
        ),
        RawValue::Table(m) => RawModel::Table(
            Seq::new(
                m.len() as nat,
                |i: int|
                    if 0 <= i < m.len() {
                        (m[i].0@, raw_of(m[i].1))
                    } else {
                        (Seq::empty(), RawModel::Null)
                    },
            ),
        ),
    }
}

impl View for RawValue {
    type V = RawModel;

    open spec fn view(&self) -> RawModel {
        raw_of(*self)
    }
}

/// The entries of a document.
pub open spec fn raw_entries(entries: Seq<(String, RawValue)>) -> Seq<(Seq<char>, RawModel)> {
    Seq::new(entries.len(), |i: int| (entries[i].0@, entries[i].1@))
}

/// Whether a document value is a header value: a boolean, a number from zero
/// up, a text, or a list or a table of header values.
pub open spec fn is_header_value(r: RawModel) -> bool
    decreases r,
{
    match r {
        RawModel::Bool(_) => true,
        RawModel::UInt(_) => true,
        RawModel::Text(_) => true,
        RawModel::List(items) => forall|i: int|
            0 <= i < items.len() ==> is_header_value(#[trigger] items[i]),
        RawModel::Table(entries) => forall|i: int|
            0 <= i < entries.len() ==> is_header_value((#[trigger] entries[i]).1),
        _ => false,
    }
}

/// The header value that a document value is.
pub open spec fn value_from_raw(r: RawModel) -> FragmentValue
    decreases r,
{
    match r {
        RawModel::Bool(b) => FragmentValue::Bool(b),
        RawModel::UInt(u) => FragmentValue::Int(u),
        RawModel::Text(s) => FragmentValue::Text(s),
        RawModel::List(items) => FragmentValue::List(
            Seq::new(
                items.len(),
                |i: int|
                    if 0 <= i < items.len() {
                        value_from_raw(items[i])
                    } else {
                        FragmentValue::Bool(false)
                    },
            ),
        ),
        RawModel::Table(entries) => FragmentValue::Mapping(
            Seq::new(
                entries.len(),
                |i: int|
                    if 0 <= i < entries.len() {
                        (entries[i].0, value_from_raw(entries[i].1))
                    } else {
                        (Seq::empty(), FragmentValue::Bool(false))
                    },
            ),
        ),
        _ => FragmentValue::Bool(false),
    }
}

/// The header that the first `n` entries of a document make, or the name of
/// the first field among them whose value is no header value.
pub open spec fn header_from_entries(entries: Seq<(Seq<char>, RawModel)>, n: int) -> Result<
    Seq<(Seq<char>, FragmentValue)>,
    Seq<char>,
>
    decreases n,
{
    if n <= 0 || n > entries.len() {
        Ok(Seq::empty())
    } else {
        match header_from_entries(entries, n - 1) {
            Err(name) => Err(name),
            Ok(h) => if is_header_value(entries[n - 1].1) {
                Ok(put(h, entries[n - 1].0, value_from_raw(entries[n - 1].1)))
            } else {
                Err(entries[n - 1].0)
            },
        }
    }
}

/// Turns a document value into a header value, where it is one.
#[verifier::loop_isolation(false)]
pub fn data_from_raw(raw: &RawValue) -> (r: Option<FragmentData>)
    ensures
        match r {
            Some(d) => is_header_value(raw@) && d@ == value_from_raw(raw@),
            None => !is_header_value(raw@),
        },
    decreases raw,
{
    match raw {
        RawValue::Bool(b) => Some(FragmentData::Bool(*b)),
        RawValue::UInt(u) => Some(FragmentData::Int(*u)),
        RawValue::Text(s) => Some(FragmentData::Str(s.clone())),
        RawValue::List(v) => {
            let ghost items = raw@->List_0;
            assert(items.len() == v.len());
            assert(forall|k: int| 0 <= k < v.len() ==> items[k] == v[k]@);
            let mut out: Vec<FragmentData> = Vec::new();
            let mut i: usize = 0;
            while i < v.len()
                invariant
                    i <= v.len(),
                    out.len() == i,
                    forall|k: int| 0 <= k < i ==> is_header_value(#[trigger] items[k]),
                    forall|k: int| 0 <= k < i ==> out@[k]@ == value_from_raw(items[k]),
                decreases v.len() - i,
            {
                match data_from_raw(&v[i]) {
                    Some(d) => {
                        out.push(d);
                    },
                    None => {
                        assert(!is_header_value(items[i as int]));
                        return None;
                    },
                }
                i += 1;
            }
            let r = FragmentData::List(out);
            assert(r@->List_0 =~= value_from_raw(raw@)->List_0);
            Some(r)
        },
        RawValue::Table(m) => {
            let ghost entries = raw@->Table_0;
            assert(entries.len() == m.len());
            assert(forall|k: int| 0 <= k < m.len() ==> entries[k] == (m[k].0@, m[k].1@));
            let mut out: Vec<(String, FragmentData)> = Vec::new();
            let mut i: usize = 0;
            while i < m.len()
                invariant
                    i <= m.len(),
                    out.len() == i,
                    forall|k: int| 0 <= k < i ==> is_header_value((#[trigger] entries[k]).1),
                    forall|k: int|
                        0 <= k < i ==> out@[k].0@ == entries[k].0 && out@[k].1@ == value_from_raw(
                            entries[k].1,
                        ),
                decreases m.len() - i,
            {
                match data_from_raw(&m[i].1) {
                    Some(d) => {
                        out.push((m[i].0.clone(), d));
                    },
                    None => {
                        assert(!is_header_value(entries[i as int].1));
                        return None;
                    },
                }
                i += 1;
            }
            let r = FragmentData::Mapping(out);
            assert(r@->Mapping_0 =~= value_from_raw(raw@)->Mapping_0);
            Some(r)
        },
        _ => None,
    }
}

/// Makes a header out of the entries of a document. Every value must be a
/// header value; the first field whose value is none is reported.
pub fn header_from_raw(entries: &Vec<(String, RawValue)>) -> (r: Result<Header, FragmentError>)
    ensures
        match r {
            Ok(h) => header_from_entries(raw_entries(entries@), entries.len() as int) == Ok::<
                Seq<(Seq<char>, FragmentValue)>,
                Seq<char>,
            >(h@),
            Err(e) => (e matches FragmentError::HeaderValue(name) && header_from_entries(
                raw_entries(entries@),
                entries.len() as int,
            ) == Err::<Seq<(Seq<char>, FragmentValue)>, Seq<char>>(name@)),
        },
{
    let mut header = Header::new();
    let mut i: usize = 0;
    let ghost model = raw_entries(entries@);
    while i < entries.len()
        invariant
            i <= entries.len(),
            model == raw_entries(entries@),
            header_from_entries(model, i as int) == Ok::<Seq<(Seq<char>, FragmentValue)>, Seq<char>>(
                header@,
            ),
        decreases entries.len() - i,
    {
        assert(model[i as int] == (entries@[i as int].0@, entries@[i as int].1@));
        match data_from_raw(&entries[i].1) {
            Some(d) => {
                header.insert(entries[i].0.clone(), d);
            },
            None => {
                proof {
                    lemma_header_error_stays(model, i + 1, entries.len() as int);
                }
                return Err(FragmentError::HeaderValue(entries[i].0.clone()));
            },
        }
        i += 1;
    }
    Ok(header)
}

/// Once a field is reported, further entries change nothing.
pub proof fn lemma_header_error_stays(entries: Seq<(Seq<char>, RawModel)>, n: int, m: int)
    requires
        0 <= n <= m <= entries.len(),
        header_from_entries(entries, n) is Err,
    ensures
        header_from_entries(entries, m) == header_from_entries(entries, n),
    decreases m - n,
{
    if n < m {
        lemma_header_error_stays(entries, n, m - 1);
    }
}


/// The document value that a header value is.
pub open spec fn raw_from_value(v: FragmentValue) -> RawModel
    decreases v,
{
    match v {
        FragmentValue::Bool(b) => RawModel::Bool(b),
        FragmentValue::Int(u) => RawModel::UInt(u),
        FragmentValue::Text(s) => RawModel::Text(s),
        FragmentValue::List(items) => RawModel::List(
            Seq::new(
                items.len(),
                |i: int|
                    if 0 <= i < items.len() {
                        raw_from_value(items[i])
                    } else {
                        RawModel::Null
                    },
            ),
        ),
        FragmentValue::Mapping(entries) => RawModel::Table(
            Seq::new(
                entries.len(),
                |i: int|
                    if 0 <= i < entries.len() {
                        (entries[i].0, raw_from_value(entries[i].1))
                    } else {
                        (Seq::empty(), RawModel::Null)
                    },
            ),
        ),
    }
}

/// The document that a header is: every field with its value as a document
/// value.
pub open spec fn raw_header(header: Seq<(Seq<char>, FragmentValue)>) -> Seq<(Seq<char>, RawModel)> {
    Seq::new(header.len(), |i: int| (header[i].0, raw_from_value(header[i].1)))
}

/// Every header value is a document value that is a header value, and the
/// same one.
pub proof fn lemma_raw_from_value(v: FragmentValue)
    ensures
        is_header_value(raw_from_value(v)),
        value_from_raw(raw_from_value(v)) == v,
    decreases v,
{
    match v {
        FragmentValue::List(items) => {
            let raw = raw_from_value(v)->List_0;
            assert forall|i: int| 0 <= i < raw.len() implies is_header_value(#[trigger] raw[i])
                && value_from_raw(raw[i]) == items[i] by {
                lemma_raw_from_value(items[i]);
            }
            assert(value_from_raw(raw_from_value(v))->List_0 =~= items);
        },
        FragmentValue::Mapping(entries) => {
            let raw = raw_from_value(v)->Table_0;
            assert forall|i: int| 0 <= i < raw.len() implies is_header_value(
                (#[trigger] raw[i]).1,
            ) && value_from_raw(raw[i].1) == entries[i].1 by {
                lemma_raw_from_value(entries[i].1);
            }
            assert(value_from_raw(raw_from_value(v))->Mapping_0 =~= entries);
        },
        _ => {},
    }
}

/// The header that a document makes has no field name twice.
pub proof fn lemma_header_has_distinct_names(entries: Seq<(Seq<char>, RawModel)>, n: int)
    ensures
        header_from_entries(entries, n) matches Ok(h) ==> distinct_keys(h),
    decreases n,
{
    if 0 < n <= entries.len() {
        lemma_header_has_distinct_names(entries, n - 1);
        match header_from_entries(entries, n - 1) {
            Ok(h) => {
                lemma_put_distinct(h, entries[n - 1].0, value_from_raw(entries[n - 1].1));
            },
            Err(_) => {},
        }
    }
}

/// A header whose field names are distinct comes back out of the document
/// that it is: field by field, in the same order.
pub proof fn lemma_header_reads_back(header: Seq<(Seq<char>, FragmentValue)>, n: int)
    requires
        distinct_keys(header),
        0 <= n <= header.len(),
    ensures
        header_from_entries(raw_header(header), n) == Ok::<
            Seq<(Seq<char>, FragmentValue)>,
            Seq<char>,
        >(header.take(n)),
    decreases n,
{
    if n == 0 {
        assert(header.take(0) =~= Seq::<(Seq<char>, FragmentValue)>::empty());
    } else {
        lemma_header_reads_back(header, n - 1);
        lemma_raw_from_value(header[n - 1].1);
        let before = header.take(n - 1);
        let key = header[n - 1].0;
        lemma_first_index(before, key, 0);
        let at = first_index(before, key, 0);
        if at < before.len() {
            assert(before[at] == header[at]);
            assert(header[at].0 != header[n - 1].0);
        }
        assert(put(before, key, header[n - 1].1) =~= header.take(n));
    }
}

#[verifier::external_type_specification]
#[verifier::external_body]
pub struct ExJsonValue(Value);

/// What a `serde_json::Value` holds, variant by variant: nothing, a boolean,
/// a number, a text, the values of an array or the entries of an object. A
/// number that `Number::as_u64` gives is one from zero up, another that
/// `Number::as_i64` gives is one below zero, and any other goes by its text.
pub uninterp spec fn json_content(v: Value) -> RawModel;

/// What `toml::from_str` reads out of a header block as a table with text
/// keys: the entries of the table, or the message of its error.
pub uninterp spec fn toml_decoded(block: Seq<char>) -> Result<
    Seq<(Seq<char>, RawModel)>,
    Seq<char>,
>;

/// What `serde_yaml::from_str` reads out of a header block as a mapping with
/// text keys: the entries of the mapping, or the message of its error.
pub uninterp spec fn yaml_decoded(block: Seq<char>) -> Result<
    Seq<(Seq<char>, RawModel)>,
    Seq<char>,
>;

/// What `toml::to_string` writes for the entries of a table, or the message
/// of its error.
pub uninterp spec fn toml_encoded(entries: Seq<(Seq<char>, RawModel)>) -> Result<
    Seq<char>,
    Seq<char>,
>;

/// What `serde_yaml::to_string` writes for the entries of a mapping, or the
/// message of its error.
pub uninterp spec fn yaml_encoded(entries: Seq<(Seq<char>, RawModel)>) -> Result<
    Seq<char>,
    Seq<char>,
>;

/// What the `serde_json::Value` holds that is built for a header value: a
/// boolean, a number or a text for a scalar, an array of the values built
/// for the items of a list, and an object of the values built for the
/// entries of a mapping, in which `serde_json` keeps one value for each key.
pub uninterp spec fn json_built(v: FragmentValue) -> RawModel;

/// The document that is built for a header: every field with the value
/// built for its value.
pub open spec fn built_header(header: Seq<(Seq<char>, FragmentValue)>) -> Seq<
    (Seq<char>, RawModel),
> {
    Seq::new(header.len(), |i: int| (header[i].0, json_built(header[i].1)))
}

/// The entries of a document whose values are JSON values.
pub open spec fn json_entries(entries: Seq<(String, Value)>) -> Seq<
    (Seq<char>, RawModel),
> {
    Seq::new(entries.len(), |i: int| (entries[i].0@, json_content(entries[i].1)))
}

/// Takes a `serde_json::Value` apart, variant by variant, down to its
/// leaves. The result holds what `json_content` names.
#[verifier::external_body]
fn raw_of_json(v: &Value) -> (r: RawValue)
    ensures
        r@ == json_content(*v),
{
    match v {
        Value::Null => RawValue::Null,
        Value::Bool(b) => RawValue::Bool(*b),
        Value::Number(n) => match (n.as_u64(), n.as_i64()) {
            (Some(u), _) => RawValue::UInt(u),
            (None, Some(i)) => RawValue::Int(i),
            (None, None) => RawValue::Float(n.to_string()),
        },
        Value::String(s) => RawValue::Text(s.clone()),
        Value::Array(a) => RawValue::List(a.iter().map(raw_of_json).collect()),
        Value::Object(o) => RawValue::Table(
            o.iter().map(|(k, v)| (k.clone(), raw_of_json(v))).collect(),
        ),
    }
}

/// Builds the `serde_json::Value` for a header value, variant by variant,
/// down to its leaves. The result holds what `json_built` names.
#[verifier::external_body]
fn json_of_data(d: &FragmentData) -> (r: Value)
    ensures
        json_content(r) == json_built(d@),
{
    match d {
        FragmentData::Bool(b) => Value::Bool(*b),
        FragmentData::Int(i) => Value::Number((*i).into()),
        FragmentData::Str(s) => Value::String(s.clone()),
        FragmentData::List(l) => Value::Array(l.iter().map(json_of_data).collect()),
        FragmentData::Mapping(m) => Value::Object(
            m.iter().map(|(k, v)| (k.clone(), json_of_data(v))).collect(),
        ),
    }
}

/// Calls `toml::from_str` for a table with text keys and hands out its
/// entries, or the text of the error. The result is the one that
/// `toml_decoded` names.
#[verifier::external_body]
fn toml_decode(block: &str) -> (r: Result<Vec<(String, Value)>, String>)
    ensures
        match r {
            Ok(entries) => toml_decoded(block@) == Ok::<Seq<(Seq<char>, RawModel)>, Seq<char>>(
                json_entries(entries@),
            ),
            Err(m) => toml_decoded(block@) == Err::<Seq<(Seq<char>, RawModel)>, Seq<char>>(m@),
        },
{
    match toml::from_str::<serde_json::Map<String, Value>>(block) {
        Ok(table) => Ok(table.into_iter().collect()),
        Err(e) => Err(e.to_string()),
    }
}

/// Calls `serde_yaml::from_str` for a mapping with text keys and hands out
/// its entries, or the text of the error. The result is the one that
/// `yaml_decoded` names.
#[verifier::external_body]
fn yaml_decode(block: &str) -> (r: Result<Vec<(String, Value)>, String>)
    ensures
        match r {
            Ok(entries) => yaml_decoded(block@) == Ok::<Seq<(Seq<char>, RawModel)>, Seq<char>>(
                json_entries(entries@),
            ),
            Err(m) => yaml_decoded(block@) == Err::<Seq<(Seq<char>, RawModel)>, Seq<char>>(m@),
        },
{
    match serde_yaml::from_str::<serde_json::Map<String, Value>>(block) {
        Ok(mapping) => Ok(mapping.into_iter().collect()),
        Err(e) => Err(e.to_string()),
    }
}

/// Calls `toml::to_string` on a table with the entries given and hands out
/// what it wrote, or the text of its error. The result is the one that
/// `toml_encoded` names.
#[verifier::external_body]
fn toml_encode(entries: Vec<(String, Value)>) -> (r: Result<String, String>)
    ensures
        match r {
            Ok(t) => toml_encoded(json_entries(entries@)) == Ok::<Seq<char>, Seq<char>>(t@),
            Err(m) => toml_encoded(json_entries(entries@)) == Err::<Seq<char>, Seq<char>>(m@),
        },
{
    let table: serde_json::Map<String, Value> = entries.into_iter().collect();
    toml::to_string(&table).map_err(|e| e.to_string())
}

/// Calls `serde_yaml::to_string` on a mapping with the entries given and
/// hands out what it wrote, or the text of its error. The result is the one
/// that `yaml_encoded` names.
#[verifier::external_body]
fn yaml_encode(entries: Vec<(String, Value)>) -> (r: Result<String, String>)
    ensures
        match r {
            Ok(t) => yaml_encoded(json_entries(entries@)) == Ok::<Seq<char>, Seq<char>>(t@),
            Err(m) => yaml_encoded(json_entries(entries@)) == Err::<Seq<char>, Seq<char>>(m@),
        },
{
    let mapping: serde_json::Map<String, Value> = entries.into_iter().collect();
    serde_yaml::to_string(&mapping).map_err(|e| e.to_string())
}

/// The entries that a header block holds in an encoding, or the message of
/// the failure to read it.
pub open spec fn decoded_document(format: Format, block: Seq<char>) -> Result<
    Seq<(Seq<char>, RawModel)>,
    Seq<char>,
> {
    match format {
        Format::Yaml => yaml_decoded(block),
        Format::Toml => toml_decoded(block),
    }
}

/// The text of a header in an encoding, or the message of the failure to
/// write it.
pub open spec fn encoded_header(format: Format, header: Seq<(Seq<char>, FragmentValue)>) -> Result<
    Seq<char>,
    Seq<char>,
> {
    match format {
        Format::Yaml => yaml_encoded(built_header(header)),
        Format::Toml => toml_encoded(built_header(header)),
    }
}

fn raw_entries_of(entries: &Vec<(String, Value)>) -> (r: Vec<(String, RawValue)>)
    ensures
        raw_entries(r@) == json_entries(entries@),
{
    let mut out: Vec<(String, RawValue)> = Vec::new();
    let mut i: usize = 0;
    while i < entries.len()
        invariant
            i <= entries.len(),
            out.len() == i,
            forall|k: int|
                0 <= k < i ==> out@[k].0@ == entries@[k].0@ && out@[k].1@ == json_content(
                    entries@[k].1,
                ),
        decreases entries.len() - i,
    {
        let raw = raw_of_json(&entries[i].1);
        out.push((entries[i].0.clone(), raw));
        i += 1;
    }
    assert(raw_entries(out@) =~= json_entries(entries@));
    out
}

fn json_entries_of(header: &Header) -> (r: Vec<(String, Value)>)
    ensures
        json_entries(r@) == built_header(header@),
{
    let mut out: Vec<(String, Value)> = Vec::new();
    let mut i: usize = 0;
    while i < header.len()
        invariant
            i <= header@.len(),
            out.len() == i,
            forall|k: int|
                0 <= k < i ==> out@[k].0@ == header@[k].0 && json_content(out@[k].1) == json_built(
                    header@[k].1,
                ),
        decreases header@.len() - i,
    {
        if let Some((name, value)) = header.entry_at(i) {
            out.push((name.clone(), json_of_data(value)));
        }
        i += 1;
    }
    assert(json_entries(out@) =~= built_header(header@));
    out
}

/// The failure to read a block in `format`, with the message `m`.
pub open spec fn decode_error(format: Format, m: Seq<char>) -> FragmentErrorModel {
    match format {
        Format::Yaml => FragmentErrorModel::YamlDe(m),
        Format::Toml => FragmentErrorModel::TomlDe(m),
    }
}

/// The failure to write a header in `format`, with the message `m`.
pub open spec fn encode_error(format: Format, m: Seq<char>) -> FragmentErrorModel {
    match format {
        Format::Yaml => FragmentErrorModel::YamlSer(m),
        Format::Toml => FragmentErrorModel::TomlSer(m),
    }
}

/// The header that a block holds in an encoding, or why it holds none: the
/// block is no document of that encoding, or a field has a value that is no
/// header value.
pub open spec fn decoded_header(format: Format, block: Seq<char>) -> Result<
    Seq<(Seq<char>, FragmentValue)>,
    FragmentErrorModel,
> {
    match decoded_document(format, block) {
        Err(m) => Err(decode_error(format, m)),
        Ok(entries) => match header_from_entries(entries, entries.len() as int) {
            Ok(h) => Ok(h),
            Err(name) => Err(FragmentErrorModel::HeaderValue(name)),
        },
    }
}

/// The block that a header makes in an encoding, or the failure to write it.
pub open spec fn encoded_block(format: Format, header: Seq<(Seq<char>, FragmentValue)>) -> Result<
    Seq<char>,
    FragmentErrorModel,
> {
    match encoded_header(format, header) {
        Ok(t) => Ok(t),
        Err(m) => Err(encode_error(format, m)),
    }
}

impl Format {
    /// Reads a header block in this encoding. The block must be a mapping
    /// from names to header values.
    pub fn decode_header(&self, block: &str) -> (r: Result<Header, FragmentError>)
        ensures
            match r {
                Ok(h) => decoded_header(*self, block@) == Ok::<
                    Seq<(Seq<char>, FragmentValue)>,
                    FragmentErrorModel,
                >(h@),
                Err(e) => decoded_header(*self, block@) == Err::<
                    Seq<(Seq<char>, FragmentValue)>,
                    FragmentErrorModel,
                >(e@),
            },
    {
        let decoded = match self {
            Format::Yaml => yaml_decode(block),
            Format::Toml => toml_decode(block),
        };
        match decoded {
            Ok(entries) => header_from_raw(&raw_entries_of(&entries)),
            Err(m) => match self {
                Format::Yaml => Err(FragmentError::YamlDe(m)),
                Format::Toml => Err(FragmentError::TomlDe(m)),
            },
        }
    }

    /// Writes a header in this encoding.
    pub fn encode_header(&self, header: &Header) -> (r: Result<String, FragmentError>)
        ensures
            match r {
                Ok(t) => encoded_block(*self, header@) == Ok::<Seq<char>, FragmentErrorModel>(t@),
                Err(e) => encoded_block(*self, header@) == Err::<Seq<char>, FragmentErrorModel>(e@),
            },
    {
        let entries = json_entries_of(header);
        match self {
            Format::Yaml => match yaml_encode(entries) {
                Ok(t) => Ok(t),
                Err(m) => Err(FragmentError::YamlSer(m)),
            },
            Format::Toml => match toml_encode(entries) {
                Ok(t) => Ok(t),
                Err(m) => Err(FragmentError::TomlSer(m)),
            },
        }
    }
}

} // verus!
