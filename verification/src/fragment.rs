//! The typed value model: header values, field types, field descriptions and
//! fragments.

use vstd::prelude::*;
use crate::codec::decoded_document;
use crate::codec::decoded_header;
use crate::codec::encoded_header;
use crate::codec::lemma_header_reads_back;
use crate::codec::raw_header;
use crate::codec::RawModel;
use crate::codec::encoded_block;
use crate::document::frame_document;
use crate::document::lemma_frame_round_trip;
use crate::document::no_separator;
use crate::document::frame_text;
use crate::document::parse_frame;
use crate::document::split_document;
use crate::error::FragmentError;
use crate::error::FragmentErrorModel;
use crate::format::Format;
use crate::header::Header;
use crate::header::distinct_keys;
use crate::header::lookup;
use crate::text::chars_of;
use crate::text::lines;
use crate::text::no_return;
use crate::text::slice_chars;
use crate::text::string_of;
use crate::text::parse_u64;
use crate::text::parsed_u64;
use crate::text::push_str;
use crate::text::push_all;
use crate::text::format_u64;
use crate::text::decimal_digits;

verus! {

/// A header value.
#[derive(Debug)]
pub enum FragmentData {
    Bool(bool),
    Int(u64),
    Str(String),
    List(Vec<FragmentData>),
    Mapping(Vec<(String, FragmentData)>),
}

/// The mathematical model of a header value.
pub ghost enum FragmentValue {
    Bool(bool),
    Int(u64),
    Text(Seq<char>),
    List(Seq<FragmentValue>),
    Mapping(Seq<(Seq<char>, FragmentValue)>),
}

/// The value that `d` stands for.
pub open spec fn value_of(d: FragmentData) -> FragmentValue
    decreases d,
{
    match d {
        FragmentData::Bool(b) => FragmentValue::Bool(b),
        FragmentData::Int(i) => FragmentValue::Int(i),
        FragmentData::Str(s) => FragmentValue::Text(s@),
        FragmentData::List(v) => FragmentValue::List(
            Seq::new(
                v.len() as nat,
                |i: int|
                    if 0 <= i < v.len() {
                        value_of(v[i])
                    } else {
                        FragmentValue::Bool(false)
                    },
            ),
        ),
        FragmentData::Mapping(m) => FragmentValue::Mapping(
            Seq::new(
                m.len() as nat,
                |i: int|
                    if 0 <= i < m.len() {
                        (m[i].0@, value_of(m[i].1))
                    } else {
                        (Seq::empty(), FragmentValue::Bool(false))
                    },
            ),
        ),
    }
}

impl View for FragmentData {
    type V = FragmentValue;

    open spec fn view(&self) -> FragmentValue {
        value_of(*self)
    }
}

impl Clone for FragmentData {
    #[verifier::loop_isolation(false)]
    fn clone(&self) -> (r: Self)
        ensures
            r@ == self@,
        decreases self,
    {
        match self {
            FragmentData::Bool(b) => FragmentData::Bool(*b),
            FragmentData::Int(i) => FragmentData::Int(*i),
            FragmentData::Str(s) => FragmentData::Str(s.clone()),
            FragmentData::List(v) => {
                let mut out: Vec<FragmentData> = Vec::new();
                let mut i: usize = 0;
                while i < v.len()
                    invariant
                        i <= v.len(),
                        out.len() == i,
                        forall|k: int| 0 <= k < i ==> out@[k]@ == v@[k]@,
                    decreases v.len() - i,
                {
                    out.push(v[i].clone());
                    i += 1;
                }
                let r = FragmentData::List(out);
                assert(r@->List_0 =~= self@->List_0);
                r
            },
            FragmentData::Mapping(m) => {
                let mut out: Vec<(String, FragmentData)> = Vec::new();
                let mut i: usize = 0;
                while i < m.len()
                    invariant
                        i <= m.len(),
                        out.len() == i,
                        forall|k: int|
                            0 <= k < i ==> out@[k].0@ == m@[k].0@ && out@[k].1@ == m@[k].1@,
                    decreases m.len() - i,
                {
                    out.push((m[i].0.clone(), m[i].1.clone()));
                    i += 1;
                }
                let r = FragmentData::Mapping(out);
                assert(r@->Mapping_0 =~= self@->Mapping_0);
                r
            },
        }
    }
}

/// Whether `s` spells `true`, in any mix of upper and lower case.
pub open spec fn is_true_literal(s: Seq<char>) -> bool {
    &&& s.len() == 4
    &&& (s[0] == 't' || s[0] == 'T')
    &&& (s[1] == 'r' || s[1] == 'R')
    &&& (s[2] == 'u' || s[2] == 'U')
    &&& (s[3] == 'e' || s[3] == 'E')
}

/// Whether `s` spells `false`, in lower case.
pub open spec fn is_false_literal(s: Seq<char>) -> bool {
    s =~= seq!['f', 'a', 'l', 's', 'e']
}

/// What a text without list structure denotes: a boolean literal, else an
/// unsigned integer, else the text itself.
pub open spec fn parse_scalar(s: Seq<char>) -> FragmentValue {
    if is_true_literal(s) {
        FragmentValue::Bool(true)
    } else if is_false_literal(s) {
        FragmentValue::Bool(false)
    } else if parsed_u64(s) is Some {
        FragmentValue::Int(parsed_u64(s)->0)
    } else {
        FragmentValue::Text(s)
    }
}

/// The place of the first comma at or after `i` that no backslash escapes, or
/// the length of `s` where there is none. A backslash escapes the character
/// that follows it.
pub open spec fn next_comma(s: Seq<char>, i: int) -> int
    decreases s.len() - i,
{
    if i < 0 || i >= s.len() {
        s.len() as int
    } else if s[i] == ',' {
        i
    } else if s[i] == '\\' && i + 1 < s.len() {
        next_comma(s, i + 2)
    } else {
        next_comma(s, i + 1)
    }
}

/// The pieces of `s` from `i` on, cut at the unescaped commas.
pub open spec fn split_from(s: Seq<char>, i: int) -> Seq<Seq<char>>
    decreases s.len() - i,
{
    let j = next_comma(s, i);
    if i < 0 || j < i || j >= s.len() {
        seq![s.subrange(i, s.len() as int)]
    } else {
        seq![s.subrange(i, j)] + split_from(s, j + 1)
    }
}

/// What a text denotes as a header value. A text with an unescaped comma is a
/// list of the values of its pieces; any other text is a scalar.
pub open spec fn parse_text(s: Seq<char>) -> FragmentValue {
    if next_comma(s, 0) < s.len() {
        FragmentValue::List(split_from(s, 0).map_values(|p: Seq<char>| parse_scalar(p)))
    } else {
        parse_scalar(s)
    }
}

/// The name of the kind of a value, as error messages give it.
pub open spec fn value_type_name(v: FragmentValue) -> Seq<char> {
    match v {
        FragmentValue::Bool(_) => "bool"@,
        FragmentValue::Int(_) => "int"@,
        FragmentValue::Text(_) => "string"@,
        FragmentValue::List(_) => "list"@,
        FragmentValue::Mapping(_) => "map"@,
    }
}

/// The items of a list, written one after the other with commas between.
pub open spec fn display_items(items: Seq<FragmentValue>, n: int) -> Seq<char>
    decreases items, n,
{
    if n <= 0 || n > items.len() {
        Seq::empty()
    } else if n == 1 {
        display_text(items[0])
    } else {
        display_items(items, n - 1) + seq![','] + display_text(items[n - 1])
    }
}

/// The entries of a mapping, each as key, colon, space and value, with a comma
/// and a space between.
pub open spec fn display_entries(entries: Seq<(Seq<char>, FragmentValue)>, n: int) -> Seq<char>
    decreases entries, n,
{
    if n <= 0 || n > entries.len() {
        Seq::empty()
    } else if n == 1 {
        entries[0].0 + seq![':', ' '] + display_text(entries[0].1)
    } else {
        display_entries(entries, n - 1) + seq![',', ' '] + entries[n - 1].0 + seq![':', ' ']
            + display_text(entries[n - 1].1)
    }
}

/// How a value is shown to a reader.
pub open spec fn display_text(v: FragmentValue) -> Seq<char>
    decreases v,
{
    match v {
        FragmentValue::Bool(b) => if b {
            "true"@
        } else {
            "false"@
        },
        FragmentValue::Int(i) => decimal_digits(i as nat),
        FragmentValue::Text(s) => s,
        FragmentValue::List(items) => display_items(items, items.len() as int),
        FragmentValue::Mapping(entries) => seq!['{'] + display_entries(
            entries,
            entries.len() as int,
        ) + seq!['}'],
    }
}


/// Finds the first unescaped comma at or after `from`.
fn find_comma(s: &Vec<char>, from: usize) -> (j: usize)
    requires
        from <= s.len(),
    ensures
        j == next_comma(s@, from as int),
        from <= j <= s.len(),
{
    let mut i: usize = from;
    while i < s.len()
        invariant
            from <= i <= s.len(),
            next_comma(s@, from as int) == next_comma(s@, i as int),
        decreases s.len() - i,
    {
        if s[i] == ',' {
            return i;
        }
        if s[i] == '\\' && i + 1 < s.len() {
            i += 2;
        } else {
            i += 1;
        }
    }
    i
}

fn scalar_of(s: &Vec<char>) -> (r: FragmentData)
    ensures
        r@ == parse_scalar(s@),
{
    if s.len() == 4 && (s[0] == 't' || s[0] == 'T') && (s[1] == 'r' || s[1] == 'R') && (s[2] == 'u'
        || s[2] == 'U') && (s[3] == 'e' || s[3] == 'E') {
        return FragmentData::Bool(true);
    }
    if s.len() == 5 && s[0] == 'f' && s[1] == 'a' && s[2] == 'l' && s[3] == 's' && s[4] == 'e' {
        assert(is_false_literal(s@));
        return FragmentData::Bool(false);
    }
    match parse_u64(s) {
        Some(n) => FragmentData::Int(n),
        None => FragmentData::Str(string_of(s)),
    }
}

impl FragmentData {
    /// Reads a header value from text. Every text is a value: the call never
    /// fails.
    pub fn parse(s: &str) -> (r: Result<FragmentData, FragmentError>)
        ensures
            r matches Ok(d) && d@ == parse_text(s@),
    {
        let chars = chars_of(s);
        let first = find_comma(&chars, 0);
        if first >= chars.len() {
            return Ok(scalar_of(&chars));
        }
        let mut items: Vec<FragmentData> = Vec::new();
        let mut start: usize = 0;
        let ghost pieces = split_from(chars@, 0);
        let ghost mut done: Seq<Seq<char>> = Seq::empty();
        loop
            invariant_except_break
                pieces == done + split_from(chars@, start as int),
            invariant
                start <= chars.len(),
                items.len() == done.len(),
                forall|k: int| 0 <= k < done.len() ==> items@[k]@ == parse_scalar(#[trigger] done[k]),
            ensures
                pieces == done,
                items.len() == done.len(),
                forall|k: int| 0 <= k < done.len() ==> items@[k]@ == parse_scalar(#[trigger] done[k]),
            decreases chars.len() - start,
        {
            let j = find_comma(&chars, start);
            if j >= chars.len() {
                let piece = slice_chars(&chars, start, chars.len());
                items.push(scalar_of(&piece));
                proof {
                    done = done.push(piece@);
                    assert(pieces =~= done);
                }
                break ;
            }
            let piece = slice_chars(&chars, start, j);
            items.push(scalar_of(&piece));
            proof {
                let before = done;
                done = done.push(piece@);
                assert(before + (seq![piece@] + split_from(chars@, j + 1)) =~= done + split_from(
                    chars@,
                    j + 1,
                ));
            }
            start = j + 1;
        }
        let r = FragmentData::List(items);
        assert(r@->List_0 =~= parse_text(s@)->List_0);
        Ok(r)
    }

    /// The name of the kind of this value.
    pub fn type_label(&self) -> (r: &'static str)
        ensures
            r@ == value_type_name(self@),
    {
        match self {
            FragmentData::Bool(_) => "bool",
            FragmentData::Int(_) => "int",
            FragmentData::Str(_) => "string",
            FragmentData::List(_) => "list",
            FragmentData::Mapping(_) => "map",
        }
    }

    /// A handle that shows this value to a reader.
    pub fn display(&self) -> (r: FragmentDataDisplay<'_>)
        ensures
            r.0@ == self@,
    {
        FragmentDataDisplay(self)
    }

    #[verifier::loop_isolation(false)]
    fn write_display(&self, out: &mut Vec<char>)
        ensures
            final(out)@ == old(out)@ + display_text(self@),
        decreases self,
    {
        match self {
            FragmentData::Bool(b) => {
                if *b {
                    push_str(out, "true");
                } else {
                    push_str(out, "false");
                }
            },
            FragmentData::Int(i) => {
                let d = format_u64(*i);
                push_all(out, &d);
            },
            FragmentData::Str(s) => {
                push_str(out, s.as_str());
            },
            FragmentData::List(v) => {
                let ghost items = self@->List_0;
                assert(items.len() == v.len());
                assert(forall|k: int| 0 <= k < v.len() ==> items[k] == v[k]@);
                let mut i: usize = 0;
                while i < v.len()
                    invariant
                        i <= v.len(),
                        items.len() == v.len(),
                        forall|k: int| 0 <= k < v.len() ==> items[k] == v[k]@,
                        out@ == old(out)@ + display_items(items, i as int),
                    decreases v.len() - i,
                {
                    if i > 0 {
                        out.push(',');
                    }
                    v[i].write_display(out);
                    proof {
                        assert(items[i as int] == v[i as int]@);
                        if i > 0 {
                            assert(out@ =~= old(out)@ + (display_items(items, i as int) + seq![',']
                                + display_text(items[i as int])));
                        } else {
                            assert(out@ =~= old(out)@ + display_text(items[0]));
                        }
                    }
                    i += 1;
                }
            },
            FragmentData::Mapping(m) => {
                let ghost entries = self@->Mapping_0;
                assert(entries.len() == m.len());
                assert(forall|k: int| 0 <= k < m.len() ==> entries[k] == (m[k].0@, m[k].1@));
                out.push('{');
                let mut i: usize = 0;
                while i < m.len()
                    invariant
                        i <= m.len(),
                        entries.len() == m.len(),
                        forall|k: int| 0 <= k < m.len() ==> entries[k] == (m[k].0@, m[k].1@),
                        out@ == old(out)@ + seq!['{'] + display_entries(entries, i as int),
                    decreases m.len() - i,
                {
                    if i > 0 {
                        out.push(',');
                        out.push(' ');
                    }
                    push_str(out, m[i].0.as_str());
                    out.push(':');
                    out.push(' ');
                    m[i].1.write_display(out);
                    proof {
                        assert(entries[i as int] == (m[i as int].0@, m[i as int].1@));
                        if i > 0 {
                            assert(out@ =~= old(out)@ + seq!['{'] + (display_entries(
                                entries,
                                i as int,
                            ) + seq![',', ' '] + entries[i as int].0 + seq![':', ' ']
                                + display_text(entries[i as int].1)));
                        } else {
                            assert(out@ =~= old(out)@ + seq!['{'] + (entries[0].0 + seq![':', ' ']
                                + display_text(entries[0].1)));
                        }
                    }
                    i += 1;
                }
                out.push('}');
            },
        }
    }
}

/// Shows a header value to a reader.
pub struct FragmentDataDisplay<'a>(pub &'a FragmentData);

impl<'a> FragmentDataDisplay<'a> {
    /// The text that stands for the value.
    pub fn to_text(&self) -> (r: String)
        ensures
            r@ == display_text(self.0@),
    {
        let mut out: Vec<char> = Vec::new();
        self.0.write_display(&mut out);
        string_of(&out)
    }
}


/// The three primitive types of a field.
#[derive(Clone, Copy, Debug, PartialEq, Eq)]
pub enum FragmentDataTypeDefinite {
    Bool,
    Int,
    Str,
}

/// The type of a field: a primitive type, or a closed set of permitted texts.
#[derive(Debug)]
pub enum FragmentDataType {
    Ty(FragmentDataTypeDefinite),
    OneOf(Vec<String>),
}

/// The mathematical model of a field type.
pub ghost enum FieldType {
    Bool,
    Int,
    Text,
    OneOf(Seq<Seq<char>>),
}

/// The texts that a vector of strings holds.
pub open spec fn texts_of(v: Seq<String>) -> Seq<Seq<char>> {
    Seq::new(v.len(), |i: int| v[i]@)
}

impl View for FragmentDataType {
    type V = FieldType;

    open spec fn view(&self) -> FieldType {
        match self {
            FragmentDataType::Ty(FragmentDataTypeDefinite::Bool) => FieldType::Bool,
            FragmentDataType::Ty(FragmentDataTypeDefinite::Int) => FieldType::Int,
            FragmentDataType::Ty(FragmentDataTypeDefinite::Str) => FieldType::Text,
            FragmentDataType::OneOf(v) => FieldType::OneOf(texts_of(v@)),
        }
    }
}

/// Copies a vector of strings.
pub fn clone_texts(v: &Vec<String>) -> (r: Vec<String>)
    ensures
        texts_of(r@) == texts_of(v@),
{
    let mut r: Vec<String> = Vec::new();
    let mut i: usize = 0;
    while i < v.len()
        invariant
            i <= v.len(),
            r.len() == i,
            forall|k: int| 0 <= k < i ==> r@[k]@ == v@[k]@,
        decreases v.len() - i,
    {
        r.push(v[i].clone());
        i += 1;
    }
    assert(texts_of(r@) =~= texts_of(v@));
    r
}

impl Clone for FragmentDataType {
    fn clone(&self) -> (r: Self)
        ensures
            r@ == self@,
    {
        match self {
            FragmentDataType::Ty(t) => FragmentDataType::Ty(*t),
            FragmentDataType::OneOf(v) => FragmentDataType::OneOf(clone_texts(v)),
        }
    }
}

/// A text between single quotes.
pub open spec fn quoted(s: Seq<char>) -> Seq<char> {
    seq!['\''] + s + seq!['\'']
}

/// The first `n` of `values`, each between single quotes, with a comma and a
/// space between.
pub open spec fn quoted_list(values: Seq<Seq<char>>, n: int) -> Seq<char>
    decreases n,
{
    if n <= 0 || n > values.len() {
        Seq::empty()
    } else if n == 1 {
        quoted(values[0])
    } else {
        quoted_list(values, n - 1) + seq![',', ' '] + quoted(values[n - 1])
    }
}

/// The name of a field type, as error messages and crawlers get it.
pub open spec fn field_type_name(t: FieldType) -> Seq<char> {
    match t {
        FieldType::Bool => "bool"@,
        FieldType::Int => "int"@,
        FieldType::Text => "string"@,
        FieldType::OneOf(values) => "one of: "@ + quoted_list(values, values.len() as int),
    }
}

/// Whether a value has a field type. A primitive type takes the values of its
/// own variant; a set of permitted texts takes the texts it holds; lists and
/// mappings have no field type.
pub open spec fn type_matches(t: FieldType, v: FragmentValue) -> bool {
    match (t, v) {
        (FieldType::Bool, FragmentValue::Bool(_)) => true,
        (FieldType::Int, FragmentValue::Int(_)) => true,
        (FieldType::Text, FragmentValue::Text(_)) => true,
        (FieldType::OneOf(values), FragmentValue::Text(s)) => values.contains(s),
        _ => false,
    }
}

/// The table of types and values: a value has a primitive type exactly if
/// it is of that type's variant, it has a set of permitted texts exactly if
/// it is one of those texts, and a list or a mapping has no type at all.
pub proof fn lemma_type_match_table(t: FieldType, v: FragmentValue)
    ensures
        type_matches(t, v) <==> ((t is Bool && v is Bool) || (t is Int && v is Int) || (t is Text
            && v is Text) || (t is OneOf && v is Text && t->OneOf_0.contains(v->Text_0))),
        v is List || v is Mapping ==> !type_matches(t, v),
{
}

/// Whether `list` holds the text `s`.
pub fn contains_text(list: &Vec<String>, s: &String) -> (r: bool)
    ensures
        r == texts_of(list@).contains(s@),
{
    let mut i: usize = 0;
    while i < list.len()
        invariant
            i <= list.len(),
            forall|k: int| 0 <= k < i ==> list@[k]@ != s@,
        decreases list.len() - i,
    {
        if list[i] == *s {
            assert(texts_of(list@)[i as int] == s@);
            return true;
        }
        i += 1;
    }
    false
}

impl FragmentDataType {
    /// The name of this type.
    pub fn type_label(&self) -> (r: String)
        ensures
            r@ == field_type_name(self@),
    {
        let mut out: Vec<char> = Vec::new();
        match self {
            FragmentDataType::Ty(FragmentDataTypeDefinite::Bool) => {
                push_str(&mut out, "bool");
            },
            FragmentDataType::Ty(FragmentDataTypeDefinite::Int) => {
                push_str(&mut out, "int");
            },
            FragmentDataType::Ty(FragmentDataTypeDefinite::Str) => {
                push_str(&mut out, "string");
            },
            FragmentDataType::OneOf(list) => {
                push_str(&mut out, "one of: ");
                let ghost values = texts_of(list@);
                let mut i: usize = 0;
                while i < list.len()
                    invariant
                        i <= list.len(),
                        values == texts_of(list@),
                        out@ == "one of: "@ + quoted_list(values, i as int),
                    decreases list.len() - i,
                {
                    if i > 0 {
                        out.push(',');
                        out.push(' ');
                    }
                    out.push('\'');
                    push_str(&mut out, list[i].as_str());
                    out.push('\'');
                    proof {
                        assert(values[i as int] == list@[i as int]@);
                        if i > 0 {
                            assert(out@ =~= "one of: "@ + (quoted_list(values, i as int) + seq![
                                ',',
                                ' ',
                            ] + quoted(values[i as int])));
                        } else {
                            assert(out@ =~= "one of: "@ + quoted(values[0]));
                        }
                    }
                    i += 1;
                }
            },
        }
        string_of(&out)
    }

    /// Whether `data` has this type.
    pub fn matches(&self, data: &FragmentData) -> (r: bool)
        ensures
            r == type_matches(self@, data@),
    {
        match self {
            FragmentDataType::Ty(FragmentDataTypeDefinite::Bool) => match data {
                FragmentData::Bool(_) => true,
                _ => false,
            },
            FragmentDataType::Ty(FragmentDataTypeDefinite::Int) => match data {
                FragmentData::Int(_) => true,
                _ => false,
            },
            FragmentDataType::Ty(FragmentDataTypeDefinite::Str) => match data {
                FragmentData::Str(_) => true,
                _ => false,
            },
            FragmentDataType::OneOf(possible_values) => match data {
                FragmentData::Str(s) => contains_text(possible_values, s),
                _ => false,
            },
        }
    }
}

/// How the value of a field is computed by a program.
#[derive(Debug)]
pub enum Crawler {
    /// The path of an executable, relative to the working directory.
    Path(String),
    /// A command line.
    Command(String),
}

/// The mathematical model of a crawler.
pub ghost enum CrawlerModel {
    Path(Seq<char>),
    Command(Seq<char>),
}

impl View for Crawler {
    type V = CrawlerModel;

    open spec fn view(&self) -> CrawlerModel {
        match self {
            Crawler::Path(p) => CrawlerModel::Path(p@),
            Crawler::Command(c) => CrawlerModel::Command(c@),
        }
    }
}

impl Clone for Crawler {
    fn clone(&self) -> (r: Self)
        ensures
            r@ == self@,
    {
        match self {
            Crawler::Path(p) => Crawler::Path(p.clone()),
            Crawler::Command(c) => Crawler::Command(c.clone()),
        }
    }
}

/// The description of one header field.
#[derive(Debug)]
pub struct FragmentDataDesc {
    pub fragment_type: FragmentDataType,
    pub default_value: Option<FragmentData>,
    pub required: bool,
    pub crawler: Option<Crawler>,
}

/// The mathematical model of a field description.
pub ghost struct FieldSchema {
    pub field_type: FieldType,
    pub default_value: Option<FragmentValue>,
    pub required: bool,
    pub crawler: Option<CrawlerModel>,
}

impl View for FragmentDataDesc {
    type V = FieldSchema;

    open spec fn view(&self) -> FieldSchema {
        FieldSchema {
            field_type: self.fragment_type@,
            default_value: match self.default_value {
                Some(d) => Some(d@),
                None => None,
            },
            required: self.required,
            crawler: match self.crawler {
                Some(c) => Some(c@),
                None => None,
            },
        }
    }
}

impl Clone for FragmentDataDesc {
    fn clone(&self) -> (r: Self)
        ensures
            r@ == self@,
    {
        FragmentDataDesc {
            fragment_type: self.fragment_type.clone(),
            default_value: match &self.default_value {
                Some(d) => Some(d.clone()),
                None => None,
            },
            required: self.required,
            crawler: match &self.crawler {
                Some(c) => Some(c.clone()),
                None => None,
            },
        }
    }
}

impl FragmentDataDesc {
    /// A field description out of its four parts.
    pub fn new(
        fragment_type: FragmentDataType,
        default_value: Option<FragmentData>,
        required: bool,
        crawler: Option<Crawler>,
    ) -> (r: FragmentDataDesc)
        ensures
            r.fragment_type == fragment_type,
            r.default_value == default_value,
            r.required == required,
            r.crawler == crawler,
    {
        FragmentDataDesc { fragment_type, default_value, required, crawler }
    }

    /// The type of the field.
    pub fn fragment_type(&self) -> (r: &FragmentDataType)
        ensures
            r == &self.fragment_type,
    {
        &self.fragment_type
    }

    /// The value that the field has where nothing else gives one.
    pub fn default_value(&self) -> (r: &Option<FragmentData>)
        ensures
            r == &self.default_value,
    {
        &self.default_value
    }

    /// Whether a fragment must have the field.
    pub fn required(&self) -> (r: bool)
        ensures
            r == self.required,
    {
        self.required
    }

    /// The program that computes the field's value, if there is one.
    pub fn crawler(&self) -> (r: &Option<Crawler>)
        ensures
            r == &self.crawler,
    {
        &self.crawler
    }

    /// Whether the default value, if there is one, has the field's type.
    pub open spec fn default_is_typed(desc: FieldSchema) -> bool {
        desc.default_value matches Some(d) ==> type_matches(desc.field_type, d)
    }

    /// Checks that the default value has the field's type, as is done once
    /// when the schema is loaded.
    pub fn check_default(&self, field_name: &str) -> (r: Result<(), FragmentError>)
        ensures
            Self::default_is_typed(self@) <==> r is Ok,
            r matches Err(e) ==> e@ == (FragmentErrorModel::DataType {
                exp: field_type_name(self@.field_type),
                recv: value_type_name(self@.default_value->0),
                field_name: field_name@,
            }),
    {
        match &self.default_value {
            Some(d) => {
                if self.fragment_type.matches(d) {
                    Ok(())
                } else {
                    Err(data_type_error(&self.fragment_type, d, field_name))
                }
            },
            None => Ok(()),
        }
    }
}

/// The error for a value that does not have the type of its field.
pub fn data_type_error(expected: &FragmentDataType, received: &FragmentData, field_name: &str) -> (e:
    FragmentError)
    ensures
        e@ == (FragmentErrorModel::DataType {
            exp: field_type_name(expected@),
            recv: value_type_name(received@),
            field_name: field_name@,
        }),
{
    FragmentError::DataType {
        exp: expected.type_label(),
        recv: received.type_label().to_owned(),
        field_name: field_name.to_owned(),
    }
}


/// One unit of changelog content: a typed header and a free-text body.
#[derive(Debug)]
pub struct Fragment {
    header: Header,
    text: String,
}

/// The mathematical model of a fragment.
pub ghost struct FragmentModel {
    pub header: Seq<(Seq<char>, FragmentValue)>,
    pub text: Seq<char>,
}

impl View for Fragment {
    type V = FragmentModel;

    closed spec fn view(&self) -> FragmentModel {
        FragmentModel { header: self.header@, text: self.text@ }
    }
}

impl Clone for Fragment {
    fn clone(&self) -> (r: Self)
        ensures
            r@ == self@,
    {
        Fragment { header: self.header.clone(), text: self.text.clone() }
    }
}

/// The fragment that a file holds, or why it holds none.
pub open spec fn read_fragment(text: Seq<char>) -> Result<FragmentModel, FragmentErrorModel> {
    match parse_frame(text) {
        Err(e) => Err(e),
        Ok(frame) => match decoded_header(frame.format, frame.header) {
            Err(e) => Err(e),
            Ok(header) => Ok(FragmentModel { header, text: frame.body }),
        },
    }
}

/// The file that a fragment makes with its header in `format`, or the
/// failure to write the header.
pub open spec fn written_fragment(fragment: FragmentModel, format: Format) -> Result<
    Seq<char>,
    FragmentErrorModel,
> {
    match encoded_block(format, fragment.header) {
        Ok(block) => Ok(frame_text(format, block, fragment.text)),
        Err(e) => Err(e),
    }
}

impl Fragment {
    /// A fragment without header fields and without text.
    pub fn empty() -> (r: Fragment)
        ensures
            r@.header == Seq::<(Seq<char>, FragmentValue)>::empty(),
            r@.text == Seq::<char>::empty(),
    {
        Fragment { header: Header::new(), text: String::new() }
    }

    /// A fragment out of its header and its text.
    pub fn new(header: Header, text: String) -> (r: Fragment)
        ensures
            r@.header == header@,
            r@.text == text@,
    {
        Fragment { header, text }
    }

    /// Replaces the text.
    pub fn set_text(&mut self, text: String)
        ensures
            final(self)@.text == text@,
            final(self)@.header == old(self)@.header,
    {
        self.text = text;
    }

    /// Replaces the header.
    pub fn set_header(&mut self, header: Header)
        ensures
            final(self)@.header == header@,
            final(self)@.text == old(self)@.text,
    {
        self.header = header;
    }

    /// The header.
    pub fn header(&self) -> (r: &Header)
        ensures
            r@ == self@.header,
    {
        &self.header
    }

    /// The text.
    pub fn text(&self) -> (r: &String)
        ensures
            r@ == self@.text,
    {
        &self.text
    }

    /// Reads a fragment out of the text of its file. The first line must be
    /// a separator and says in which encoding the header is; the header
    /// block must be a mapping from names to header values; the lines behind
    /// the closing separator, joined by line feeds, make the text.
    pub fn from_reader(text: &str) -> (r: Result<Fragment, FragmentError>)
        ensures
            match r {
                Ok(f) => read_fragment(text@) == Ok::<FragmentModel, FragmentErrorModel>(f@),
                Err(e) => read_fragment(text@) == Err::<FragmentModel, FragmentErrorModel>(e@),
            },
    {
        match split_document(text) {
            Err(e) => Err(e),
            Ok((format, block, body)) => {
                match format.decode_header(block.as_str()) {
                    Ok(header) => Ok(Fragment { header, text: body }),
                    Err(e) => Err(e),
                }
            },
        }
    }

    /// Writes the fragment as the text of a file, with the header in
    /// `format`.
    pub fn write_to(&self, format: Format) -> (r: Result<String, FragmentError>)
        ensures
            match r {
                Ok(s) => written_fragment(self@, format) == Ok::<Seq<char>, FragmentErrorModel>(s@),
                Err(e) => written_fragment(self@, format) == Err::<Seq<char>, FragmentErrorModel>(
                    e@,
                ),
            },
    {
        match format.encode_header(&self.header) {
            Ok(block) => Ok(frame_document(format, block.as_str(), self.text.as_str())),
            Err(e) => Err(e),
        }
    }
}


/// Whether two headers give every field name the same value.
pub open spec fn same_mapping(
    a: Seq<(Seq<char>, FragmentValue)>,
    b: Seq<(Seq<char>, FragmentValue)>,
) -> bool {
    forall|key: Seq<char>| lookup(a, key) == lookup(b, key)
}

/// A fragment that is written reads back. This holds of a fragment whose
/// text has no carriage return, and of an encoding that reads its own block
/// back: the block that it writes for the header has no carriage return and
/// no line that is a separator, and what it reads out of that block gives
/// every field the value that the header gives it.
pub proof fn lemma_round_trip(
    fragment: FragmentModel,
    format: Format,
    block: Seq<char>,
    back: Seq<(Seq<char>, FragmentValue)>,
)
    requires
        encoded_block(format, fragment.header) == Ok::<Seq<char>, FragmentErrorModel>(block),
        decoded_header(format, block) == Ok::<Seq<(Seq<char>, FragmentValue)>, FragmentErrorModel>(
            back,
        ),
        same_mapping(back, fragment.header),
        no_return(block),
        no_separator(lines(block + seq!['\n'])),
        no_return(fragment.text),
    ensures
        written_fragment(fragment, format) is Ok,
        read_fragment(written_fragment(fragment, format)->Ok_0) is Ok,
        read_fragment(written_fragment(fragment, format)->Ok_0)->Ok_0.text == fragment.text,
        same_mapping(
            read_fragment(written_fragment(fragment, format)->Ok_0)->Ok_0.header,
            fragment.header,
        ),
{
    lemma_frame_round_trip(format, block, fragment.text);
}


/// A fragment that is written reads back as it was, field by field. This
/// holds of a fragment whose field names are distinct and whose text has no
/// carriage return, and of an encoding that reads its own block back: the
/// block that it writes for the header has no carriage return and no line
/// that is a separator, and it reads out of that block the fields that it
/// was given.
pub proof fn lemma_exact_round_trip(fragment: FragmentModel, format: Format, block: Seq<char>)
    requires
        distinct_keys(fragment.header),
        encoded_header(format, fragment.header) == Ok::<Seq<char>, Seq<char>>(block),
        decoded_document(format, block) == Ok::<Seq<(Seq<char>, RawModel)>, Seq<char>>(
            raw_header(fragment.header),
        ),
        no_return(block),
        no_separator(lines(block + seq!['\n'])),
        no_return(fragment.text),
    ensures
        written_fragment(fragment, format) is Ok,
        read_fragment(written_fragment(fragment, format)->Ok_0) == Ok::<
            FragmentModel,
            FragmentErrorModel,
        >(fragment),
{
    lemma_frame_round_trip(format, block, fragment.text);
    lemma_header_reads_back(fragment.header, fragment.header.len() as int);
    assert(fragment.header.take(fragment.header.len() as int) =~= fragment.header);
    assert(raw_header(fragment.header).len() == fragment.header.len());
}

} // verus!
