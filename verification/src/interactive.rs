//! The interactive session: what to ask the user for a field, and what the
//! answer means. Showing the question and reading the answer is the caller's
//! part.

use vstd::prelude::*;
use crate::error::InteractiveError;
use crate::error::InteractiveErrorModel;
use crate::fragment::FieldSchema;
use crate::fragment::FieldType;
use crate::fragment::FragmentData;
use crate::fragment::FragmentDataDesc;
use crate::fragment::FragmentDataType;
use crate::fragment::FragmentDataTypeDefinite;
use crate::fragment::FragmentValue;
use crate::fragment::clone_texts;
use crate::fragment::display_text;
use crate::fragment::texts_of;
use crate::fragment::value_type_name;
use crate::text::push_str;
use crate::text::string_of;

verus! {

/// A question to the user.
#[derive(Debug)]
pub enum Prompt {
    /// Whether a value that is at hand is to stay; yes if the user just
    /// confirms.
    Confirm { text: String },
    /// Yes or no, for a boolean field. `optional` says that the user may
    /// leave the question open.
    Bool { text: String, default_answer: Option<bool>, optional: bool },
    /// A number.
    Number { text: String, default_number: Option<u64>, optional: bool },
    /// A text.
    Text { text: String, default_text: Option<String>, optional: bool },
    /// One of the items; `default_place` is the place of the item selected
    /// at first.
    Select { text: String, items: Vec<String>, default_place: Option<usize>, optional: bool },
}

/// The mathematical model of a question.
pub ghost enum PromptModel {
    Confirm { text: Seq<char> },
    Bool { text: Seq<char>, default_answer: Option<bool>, optional: bool },
    Number { text: Seq<char>, default_number: Option<u64>, optional: bool },
    Text { text: Seq<char>, default_text: Option<Seq<char>>, optional: bool },
    Select {
        text: Seq<char>,
        items: Seq<Seq<char>>,
        default_place: Option<usize>,
        optional: bool,
    },
}

impl View for Prompt {
    type V = PromptModel;

    open spec fn view(&self) -> PromptModel {
        match self {
            Prompt::Confirm { text } => PromptModel::Confirm { text: text@ },
            Prompt::Bool { text, default_answer, optional } => PromptModel::Bool {
                text: text@,
                default_answer: *default_answer,
                optional: *optional,
            },
            Prompt::Number { text, default_number, optional } => PromptModel::Number {
                text: text@,
                default_number: *default_number,
                optional: *optional,
            },
            Prompt::Text { text, default_text, optional } => PromptModel::Text {
                text: text@,
                default_text: match default_text {
                    Some(d) => Some(d@),
                    None => None,
                },
                optional: *optional,
            },
            Prompt::Select { text, items, default_place, optional } => PromptModel::Select {
                text: text@,
                items: texts_of(items@),
                default_place: *default_place,
                optional: *optional,
            },
        }
    }
}

/// The answer of the user.
#[derive(Debug)]
pub enum Reply {
    /// The user broke the session off.
    Interrupted,
    /// The user left the question open.
    Skipped,
    Yes,
    No,
    Number(u64),
    Text(String),
    /// The place of the item chosen.
    Choice(usize),
}

/// The mathematical model of an answer.
pub ghost enum ReplyModel {
    Interrupted,
    Skipped,
    Yes,
    No,
    Number(u64),
    Text(Seq<char>),
    Choice(usize),
}

impl View for Reply {
    type V = ReplyModel;

    open spec fn view(&self) -> ReplyModel {
        match self {
            Reply::Interrupted => ReplyModel::Interrupted,
            Reply::Skipped => ReplyModel::Skipped,
            Reply::Yes => ReplyModel::Yes,
            Reply::No => ReplyModel::No,
            Reply::Number(n) => ReplyModel::Number(*n),
            Reply::Text(s) => ReplyModel::Text(s@),
            Reply::Choice(i) => ReplyModel::Choice(*i),
        }
    }
}

/// The question whether the value of a field is to stay.
pub open spec fn edit_question(key: Seq<char>, value: FragmentValue) -> Seq<char> {
    "Edit '"@ + key + "' = '"@ + display_text(value) + "' ("@ + value_type_name(value) + ")?"@
}

/// The place of the first text at or after `from` that equals `s`, or the
/// number of texts where there is none.
pub open spec fn first_text(values: Seq<Seq<char>>, s: Seq<char>, from: int) -> int
    decreases values.len() - from,
{
    if from < 0 || from >= values.len() {
        values.len() as int
    } else if values[from] == s {
        from
    } else {
        first_text(values, s, from + 1)
    }
}

/// The question that asks for the value of a field. The default value of
/// the field is offered to the user; one that does not have the kind of the
/// field's type is a failure.
pub open spec fn provide_question(key: Seq<char>, desc: FieldSchema) -> Result<
    PromptModel,
    InteractiveErrorModel,
> {
    match desc.field_type {
        FieldType::Bool => match desc.default_value {
            Some(FragmentValue::Bool(b)) => Ok(
                PromptModel::Bool {
                    text: "'"@ + key + "'?"@,
                    default_answer: Some(b),
                    optional: !desc.required,
                },
            ),
            Some(other) => Err(InteractiveErrorModel::TypeError(desc.field_type, other)),
            None => Ok(
                PromptModel::Bool {
                    text: "'"@ + key + "'?"@,
                    default_answer: None,
                    optional: !desc.required,
                },
            ),
        },
        FieldType::Int => match desc.default_value {
            Some(FragmentValue::Int(i)) => Ok(
                PromptModel::Number {
                    text: "Enter a number for '"@ + key + "'"@,
                    default_number: Some(i),
                    optional: !desc.required,
                },
            ),
            Some(other) => Err(InteractiveErrorModel::TypeError(desc.field_type, other)),
            None => Ok(
                PromptModel::Number {
                    text: "Enter a number for '"@ + key + "'"@,
                    default_number: None,
                    optional: !desc.required,
                },
            ),
        },
        FieldType::Text => match desc.default_value {
            Some(FragmentValue::Text(s)) => Ok(
                PromptModel::Text {
                    text: "Enter a text for '"@ + key + "'"@,
                    default_text: Some(s),
                    optional: !desc.required,
                },
            ),
            Some(other) => Err(InteractiveErrorModel::TypeError(desc.field_type, other)),
            None => Ok(
                PromptModel::Text {
                    text: "Enter a text for '"@ + key + "'"@,
                    default_text: None,
                    optional: !desc.required,
                },
            ),
        },
        FieldType::OneOf(values) => match desc.default_value {
            Some(FragmentValue::Text(s)) => Ok(
                PromptModel::Select {
                    text: "Select one"@,
                    items: values,
                    default_place: if first_text(values, s, 0) < values.len() {
                        Some(first_text(values, s, 0) as usize)
                    } else {
                        None
                    },
                    optional: !desc.required,
                },
            ),
            Some(other) => Err(InteractiveErrorModel::TypeError(desc.field_type, other)),
            None => Ok(
                PromptModel::Select {
                    text: "Select one"@,
                    items: values,
                    default_place: None,
                    optional: !desc.required,
                },
            ),
        },
    }
}

/// The value that an answer gives a field, or nothing where the user left
/// an optional field open. A required field cannot be left open, and an
/// answer that does not answer the question of the field counts as breaking
/// off.
pub open spec fn provided_value(desc: FieldSchema, reply: ReplyModel) -> Result<
    Option<FragmentValue>,
    InteractiveErrorModel,
> {
    match (desc.field_type, reply) {
        (_, ReplyModel::Skipped) => if desc.required {
            Err(InteractiveErrorModel::Interrupted)
        } else {
            Ok(None)
        },
        (FieldType::Bool, ReplyModel::Yes) => Ok(Some(FragmentValue::Bool(true))),
        (FieldType::Bool, ReplyModel::No) => Ok(Some(FragmentValue::Bool(false))),
        (FieldType::Int, ReplyModel::Number(n)) => Ok(Some(FragmentValue::Int(n))),
        (FieldType::Text, ReplyModel::Text(s)) => Ok(Some(FragmentValue::Text(s))),
        (FieldType::OneOf(values), ReplyModel::Choice(i)) => if i < values.len() {
            Ok(Some(FragmentValue::Text(values[i as int])))
        } else {
            Err(InteractiveErrorModel::IndexError(i, values.len() as usize))
        },
        _ => Err(InteractiveErrorModel::Interrupted),
    }
}

/// What the answer to the question whether a value is to stay means: the
/// value stays, or another is to be asked for; `None` stands for the latter.
pub open spec fn edited_value(value: FragmentValue, reply: ReplyModel) -> Result<
    Option<FragmentValue>,
    InteractiveErrorModel,
> {
    match reply {
        ReplyModel::Yes => Ok(Some(value)),
        ReplyModel::No => Ok(None),
        _ => Err(InteractiveErrorModel::Interrupted),
    }
}

/// Asks whether the value of a field is to stay.
pub fn interactive_edit(key: &str, value: &FragmentData) -> (r: Prompt)
    ensures
        r@ == (PromptModel::Confirm { text: edit_question(key@, value@) }),
{
    let mut text: Vec<char> = Vec::new();
    push_str(&mut text, "Edit '");
    push_str(&mut text, key);
    push_str(&mut text, "' = '");
    let shown = value.display().to_text();
    push_str(&mut text, shown.as_str());
    push_str(&mut text, "' (");
    push_str(&mut text, value.type_label());
    push_str(&mut text, ")?");
    assert(text@ =~= edit_question(key@, value@));
    Prompt::Confirm { text: string_of(&text) }
}

fn question(before: &str, key: &str, after: &str) -> (r: String)
    ensures
        r@ == before@ + key@ + after@,
{
    let mut text: Vec<char> = Vec::new();
    push_str(&mut text, before);
    push_str(&mut text, key);
    push_str(&mut text, after);
    string_of(&text)
}

fn position_of(values: &Vec<String>, s: &String) -> (r: Option<usize>)
    ensures
        match r {
            Some(i) => i < values@.len() && i == first_text(texts_of(values@), s@, 0),
            None => first_text(texts_of(values@), s@, 0) == values@.len(),
        },
{
    let mut i: usize = 0;
    while i < values.len()
        invariant
            i <= values.len(),
            first_text(texts_of(values@), s@, 0) == first_text(texts_of(values@), s@, i as int),
        decreases values.len() - i,
    {
        assert(texts_of(values@)[i as int] == values@[i as int]@);
        if values[i] == *s {
            return Some(i);
        }
        i += 1;
    }
    None
}

/// Makes the question that asks the user for the value of a field.
pub fn interactive_provide(key: &str, desc: &FragmentDataDesc) -> (r: Result<
    Prompt,
    InteractiveError,
>)
    ensures
        match r {
            Ok(p) => provide_question(key@, desc@) == Ok::<PromptModel, InteractiveErrorModel>(p@),
            Err(e) => provide_question(key@, desc@) == Err::<PromptModel, InteractiveErrorModel>(
                e@,
            ),
        },
{
    match &desc.fragment_type {
        FragmentDataType::Ty(FragmentDataTypeDefinite::Bool) => {
            let default = match &desc.default_value {
                Some(FragmentData::Bool(b)) => Some(*b),
                Some(other) => {
                    return Err(
                        InteractiveError::TypeError(desc.fragment_type.clone(), other.clone()),
                    );
                },
                None => None,
            };
            Ok(
                Prompt::Bool {
                    text: question("'", key, "'?"),
                    default_answer: default,
                    optional: !desc.required,
                },
            )
        },
        FragmentDataType::Ty(FragmentDataTypeDefinite::Int) => {
            let default = match &desc.default_value {
                Some(FragmentData::Int(i)) => Some(*i),
                Some(other) => {
                    return Err(
                        InteractiveError::TypeError(desc.fragment_type.clone(), other.clone()),
                    );
                },
                None => None,
            };
            Ok(
                Prompt::Number {
                    text: question("Enter a number for '", key, "'"),
                    default_number: default,
                    optional: !desc.required,
                },
            )
        },
        FragmentDataType::Ty(FragmentDataTypeDefinite::Str) => {
            let default = match &desc.default_value {
                Some(FragmentData::Str(s)) => Some(s.clone()),
                Some(other) => {
                    return Err(
                        InteractiveError::TypeError(desc.fragment_type.clone(), other.clone()),
                    );
                },
                None => None,
            };
            Ok(
                Prompt::Text {
                    text: question("Enter a text for '", key, "'"),
                    default_text: default,
                    optional: !desc.required,
                },
            )
        },
        FragmentDataType::OneOf(possible_values) => {
            let default = match &desc.default_value {
                Some(FragmentData::Str(s)) => position_of(possible_values, s),
                Some(other) => {
                    return Err(
                        InteractiveError::TypeError(desc.fragment_type.clone(), other.clone()),
                    );
                },
                None => None,
            };
            Ok(
                Prompt::Select {
                    text: "Select one".to_owned(),
                    items: clone_texts(possible_values),
                    default_place: default,
                    optional: !desc.required,
                },
            )
        },
    }
}

/// Reads the answer to the question that asked for the value of a field.
pub fn accept_provided(desc: &FragmentDataDesc, reply: Reply) -> (r: Result<
    Option<FragmentData>,
    InteractiveError,
>)
    ensures
        match r {
            Ok(Some(d)) => provided_value(desc@, reply@) == Ok::<
                Option<FragmentValue>,
                InteractiveErrorModel,
            >(Some(d@)),
            Ok(None) => provided_value(desc@, reply@) == Ok::<
                Option<FragmentValue>,
                InteractiveErrorModel,
            >(None),
            Err(e) => provided_value(desc@, reply@) == Err::<
                Option<FragmentValue>,
                InteractiveErrorModel,
            >(e@),
        },
{
    if let Reply::Skipped = reply {
        return if desc.required {
            Err(InteractiveError::Interrupted)
        } else {
            Ok(None)
        };
    }
    match &desc.fragment_type {
        FragmentDataType::Ty(FragmentDataTypeDefinite::Bool) => match reply {
            Reply::Yes => Ok(Some(FragmentData::Bool(true))),
            Reply::No => Ok(Some(FragmentData::Bool(false))),
            _ => Err(InteractiveError::Interrupted),
        },
        FragmentDataType::Ty(FragmentDataTypeDefinite::Int) => match reply {
            Reply::Number(n) => Ok(Some(FragmentData::Int(n))),
            _ => Err(InteractiveError::Interrupted),
        },
        FragmentDataType::Ty(FragmentDataTypeDefinite::Str) => match reply {
            Reply::Text(s) => Ok(Some(FragmentData::Str(s))),
            _ => Err(InteractiveError::Interrupted),
        },
        FragmentDataType::OneOf(possible_values) => match reply {
            Reply::Choice(i) => {
                if i < possible_values.len() {
                    assert(texts_of(possible_values@)[i as int] == possible_values@[i as int]@);
                    Ok(Some(FragmentData::Str(possible_values[i].clone())))
                } else {
                    Err(InteractiveError::IndexError(i, possible_values.len()))
                }
            },
            _ => Err(InteractiveError::Interrupted),
        },
    }
}

/// Reads the answer to the question whether a value is to stay: the value,
/// or nothing where another is to be asked for.
pub fn accept_edit(value: FragmentData, reply: Reply) -> (r: Result<
    Option<FragmentData>,
    InteractiveError,
>)
    ensures
        match r {
            Ok(Some(d)) => edited_value(value@, reply@) == Ok::<
                Option<FragmentValue>,
                InteractiveErrorModel,
            >(Some(d@)),
            Ok(None) => edited_value(value@, reply@) == Ok::<
                Option<FragmentValue>,
                InteractiveErrorModel,
            >(None),
            Err(e) => edited_value(value@, reply@) == Err::<
                Option<FragmentValue>,
                InteractiveErrorModel,
            >(e@),
        },
{
    match reply {
        Reply::Yes => Ok(Some(value)),
        Reply::No => Ok(None),
        _ => Err(InteractiveError::Interrupted),
    }
}

} // verus!
