//! Creating a fragment: the header of a new fragment is built field by field
//! from the schema. Each field takes the first of: the value set by the
//! caller, the default of the schema, the output of the field's crawler, the
//! answer of the user. Every value is held against the type of its field
//! before it is taken, and the first field that fails ends the whole.

use vstd::prelude::*;
use indexmap::IndexMap;
use crate::cli::TextProvider;
use crate::cli::KV;
use crate::config::GitSetting;
use crate::crawler::CrawlRequest;
use crate::crawler::CrawlRequestModel;
use crate::crawler::crawl_request;
use crate::crawler::crawled_value;
use crate::crawler::judge_crawl;
use crate::crawler::plan_crawl;
use crate::crawler::trimmed;
use crate::error::FragmentError;
use crate::error::FragmentErrorModel;
use crate::format::Format;
use crate::fragment::FieldSchema;
use crate::fragment::FieldType;
use crate::fragment::FragmentData;
use crate::fragment::FragmentDataDesc;
use crate::fragment::FragmentValue;
use crate::fragment::data_type_error;
use crate::fragment::field_type_name;
use crate::fragment::parse_text;
use crate::fragment::type_matches;
use crate::fragment::value_type_name;
use crate::header::Header;
use crate::header::first_index;
use crate::header::lookup;
use crate::header::put;
use crate::interactive::Prompt;
use crate::interactive::PromptModel;
use crate::interactive::Reply;
use crate::interactive::ReplyModel;
use crate::interactive::accept_edit;
use crate::interactive::accept_provided;
use crate::interactive::edit_question;
use crate::interactive::edited_value;
use crate::interactive::interactive_edit;
use crate::interactive::interactive_provide;
use crate::interactive::provide_question;
use crate::interactive::provided_value;
use crate::schema::field_at;
use crate::schema::field_count;
use crate::schema::schema_fields;
use crate::text::str_eq;

verus! {

/// The command that creates a fragment.
#[derive(Debug)]
pub struct NewCommand {
    /// Whether the user is asked.
    pub interactive: bool,
    /// Whether the new file is opened in an editor.
    pub edit: bool,
    /// The encoding of the header.
    pub format: Format,
    /// The header fields that the caller sets.
    pub set: Vec<KV>,
    /// Where the text comes from.
    pub text: Option<TextProvider>,
    /// What to do with git once the file is written.
    pub git: Option<GitSetting>,
}

/// The fields that a caller sets, each with the text of its value.
pub open spec fn overrides_of(set: Seq<KV>) -> Seq<(Seq<char>, Seq<char>)> {
    Seq::new(set.len(), |i: int| (set[i].key@, set[i].value@))
}

/// What a question to the user is about.
#[derive(Debug)]
pub enum Pending {
    /// Whether this value is to stay.
    Edit(FragmentData),
    /// The value of the field.
    Provide,
}

/// The mathematical model of what a question is about.
pub ghost enum PendingModel {
    Edit(FragmentValue),
    Provide,
}

impl View for Pending {
    type V = PendingModel;

    open spec fn view(&self) -> PendingModel {
        match self {
            Pending::Edit(v) => PendingModel::Edit(v@),
            Pending::Provide => PendingModel::Provide,
        }
    }
}

/// Where the resolution of one field stands.
#[derive(Debug)]
pub enum Step {
    /// The field is resolved: it has this value, or it is left out.
    Done(Option<FragmentData>),
    /// The crawler of the field must run.
    Crawl(CrawlRequest),
    /// The user must be asked.
    Ask(Prompt, Pending),
}

/// The mathematical model of a step.
pub ghost enum StepModel {
    Done(Option<FragmentValue>),
    Crawl(CrawlRequestModel),
    Ask(PromptModel, PendingModel),
}

impl View for Step {
    type V = StepModel;

    open spec fn view(&self) -> StepModel {
        match self {
            Step::Done(Some(v)) => StepModel::Done(Some(v@)),
            Step::Done(None) => StepModel::Done(None),
            Step::Crawl(r) => StepModel::Crawl(r@),
            Step::Ask(p, w) => StepModel::Ask(p@, w@),
        }
    }
}

/// A value, held against the type of its field.
pub open spec fn typed(name: Seq<char>, field_type: FieldType, value: FragmentValue) -> Result<
    FragmentValue,
    FragmentErrorModel,
> {
    if type_matches(field_type, value) {
        Ok(value)
    } else {
        Err(
            FragmentErrorModel::DataType {
                exp: field_type_name(field_type),
                recv: value_type_name(value),
                field_name: name,
            },
        )
    }
}

/// What a value that is at hand leads to: with a user to ask, the question
/// whether it is to stay; without, the value itself.
pub open spec fn offer(interactive: bool, name: Seq<char>, value: FragmentValue) -> StepModel {
    if interactive {
        StepModel::Ask(
            PromptModel::Confirm { text: edit_question(name, value) },
            PendingModel::Edit(value),
        )
    } else {
        StepModel::Done(Some(value))
    }
}

/// The first step for a field. The value that the caller set counts first,
/// then the default of the schema, then the crawler. Where there is none of
/// them, a required field is asked of the user, or fails where nobody can be
/// asked, and an optional field is left out.
pub open spec fn first_step(
    interactive: bool,
    set: Seq<(Seq<char>, Seq<char>)>,
    name: Seq<char>,
    desc: FieldSchema,
) -> Result<StepModel, FragmentErrorModel> {
    match lookup(set, name) {
        Some(text) => match typed(name, desc.field_type, parse_text(text)) {
            Ok(v) => Ok(offer(interactive, name, v)),
            Err(e) => Err(e),
        },
        None => match desc.default_value {
            Some(d) => match typed(name, desc.field_type, d) {
                Ok(v) => Ok(offer(interactive, name, v)),
                Err(e) => Err(e),
            },
            None => match desc.crawler {
                Some(c) => match crawl_request(c, name, desc.field_type) {
                    Ok(request) => Ok(StepModel::Crawl(request)),
                    Err(e) => Err(e),
                },
                None => if desc.required {
                    if interactive {
                        match provide_question(name, desc) {
                            Ok(p) => Ok(StepModel::Ask(p, PendingModel::Provide)),
                            Err(e) => Err(FragmentErrorModel::Interactive(e)),
                        }
                    } else {
                        Err(FragmentErrorModel::RequiredValueMissing(name))
                    }
                } else {
                    Ok(StepModel::Done(None))
                },
            },
        },
    }
}

/// The step after the crawler of a field ran.
pub open spec fn step_after_crawl(
    name: Seq<char>,
    desc: FieldSchema,
    command: Seq<char>,
    success: bool,
    output: Option<Seq<char>>,
) -> Result<StepModel, FragmentErrorModel> {
    match crawled_value(
        name,
        desc.field_type,
        command,
        success,
        match output {
            Some(o) => Some(trimmed(o)),
            None => None,
        },
    ) {
        Ok(v) => Ok(StepModel::Done(Some(v))),
        Err(e) => Err(e),
    }
}

/// The step after the user answered.
pub open spec fn step_after_reply(
    name: Seq<char>,
    desc: FieldSchema,
    pending: PendingModel,
    reply: ReplyModel,
) -> Result<StepModel, FragmentErrorModel> {
    match pending {
        PendingModel::Edit(value) => match edited_value(value, reply) {
            Ok(Some(v)) => Ok(StepModel::Done(Some(v))),
            Ok(None) => match provide_question(name, desc) {
                Ok(p) => Ok(StepModel::Ask(p, PendingModel::Provide)),
                Err(e) => Err(FragmentErrorModel::Interactive(e)),
            },
            Err(e) => Err(FragmentErrorModel::Interactive(e)),
        },
        PendingModel::Provide => match provided_value(desc, reply) {
            Ok(v) => Ok(StepModel::Done(v)),
            Err(e) => Err(FragmentErrorModel::Interactive(e)),
        },
    }
}

/// The outside work that the building of a header waits for, if any.
#[derive(Debug)]
pub enum Action {
    /// Every field is resolved.
    Finished,
    /// The crawler of the current field must run.
    Crawl(CrawlRequest),
    /// The user must be asked about the current field.
    Ask(Prompt, Pending),
}

/// The mathematical model of an action.
pub ghost enum ActionModel {
    Finished,
    Crawl(CrawlRequestModel),
    Ask(PromptModel, PendingModel),
}

impl View for Action {
    type V = ActionModel;

    open spec fn view(&self) -> ActionModel {
        match self {
            Action::Finished => ActionModel::Finished,
            Action::Crawl(r) => ActionModel::Crawl(r@),
            Action::Ask(p, w) => ActionModel::Ask(p@, w@),
        }
    }
}

/// A header that is being built: the fields resolved so far, and the place
/// in the schema of the field that comes next.
#[derive(Debug)]
pub struct HeaderBuilder {
    pub next: usize,
    pub header: Header,
}

/// Where the building of a header stands: the place of the current field,
/// the header so far, and what is waited for.
pub ghost struct Progress {
    pub next: int,
    pub header: Seq<(Seq<char>, FragmentValue)>,
    pub action: ActionModel,
}

/// Builds on from the field at place `next`: fields are resolved one after
/// the other, in the order of the schema, until one needs outside work or
/// fails, or none is left.
pub open spec fn build_from(
    interactive: bool,
    set: Seq<(Seq<char>, Seq<char>)>,
    fields: Seq<(Seq<char>, FieldSchema)>,
    next: int,
    header: Seq<(Seq<char>, FragmentValue)>,
) -> Result<Progress, FragmentErrorModel>
    decreases fields.len() - next,
{
    if next < 0 || next >= fields.len() {
        Ok(Progress { next: fields.len() as int, header, action: ActionModel::Finished })
    } else {
        match first_step(interactive, set, fields[next].0, fields[next].1) {
            Err(e) => Err(e),
            Ok(StepModel::Done(Some(v))) => build_from(
                interactive,
                set,
                fields,
                next + 1,
                put(header, fields[next].0, v),
            ),
            Ok(StepModel::Done(None)) => build_from(interactive, set, fields, next + 1, header),
            Ok(StepModel::Crawl(request)) => Ok(
                Progress { next, header, action: ActionModel::Crawl(request) },
            ),
            Ok(StepModel::Ask(p, w)) => Ok(Progress { next, header, action: ActionModel::Ask(p, w) }),
        }
    }
}

/// Builds on after the current field took the step `step`. Behind the last
/// field there is nothing to build on.
pub open spec fn build_after(
    interactive: bool,
    set: Seq<(Seq<char>, Seq<char>)>,
    fields: Seq<(Seq<char>, FieldSchema)>,
    next: int,
    header: Seq<(Seq<char>, FragmentValue)>,
    step: StepModel,
) -> Result<Progress, FragmentErrorModel> {
    if next < 0 || next >= fields.len() {
        Ok(Progress { next: fields.len() as int, header, action: ActionModel::Finished })
    } else {
        build_step(interactive, set, fields, next, header, step)
    }
}

/// Builds on after the field at place `next` took the step `step`.
pub open spec fn build_step(
    interactive: bool,
    set: Seq<(Seq<char>, Seq<char>)>,
    fields: Seq<(Seq<char>, FieldSchema)>,
    next: int,
    header: Seq<(Seq<char>, FragmentValue)>,
    step: StepModel,
) -> Result<Progress, FragmentErrorModel> {
    match step {
        StepModel::Done(Some(v)) => build_from(
            interactive,
            set,
            fields,
            next + 1,
            put(header, fields[next].0, v),
        ),
        StepModel::Done(None) => build_from(interactive, set, fields, next + 1, header),
        StepModel::Crawl(request) => Ok(
            Progress { next, header, action: ActionModel::Crawl(request) },
        ),
        StepModel::Ask(p, w) => Ok(Progress { next, header, action: ActionModel::Ask(p, w) }),
    }
}

impl NewCommand {
    fn find_override(&self, name: &str) -> (r: Option<&String>)
        ensures
            match r {
                Some(text) => lookup(overrides_of(self.set@), name@) == Some(text@),
                None => lookup(overrides_of(self.set@), name@) is None,
            },
    {
        let ghost set = overrides_of(self.set@);
        let mut i: usize = 0;
        while i < self.set.len()
            invariant
                i <= self.set.len(),
                set == overrides_of(self.set@),
                first_index(set, name@, 0) == first_index(set, name@, i as int),
            decreases self.set.len() - i,
        {
            assert(set[i as int] == (self.set@[i as int].key@, self.set@[i as int].value@));
            if str_eq(self.set[i].key.as_str(), name) {
                return Some(&self.set[i].value);
            }
            i += 1;
        }
        None
    }

    fn offer(&self, name: &str, value: FragmentData) -> (r: Step)
        ensures
            r@ == offer(self.interactive, name@, value@),
    {
        if self.interactive {
            let prompt = interactive_edit(name, &value);
            Step::Ask(prompt, Pending::Edit(value))
        } else {
            Step::Done(Some(value))
        }
    }

    /// Takes the first step for a field of the schema.
    pub fn start_field(&self, name: &str, desc: &FragmentDataDesc) -> (r: Result<
        Step,
        FragmentError,
    >)
        ensures
            match r {
                Ok(step) => first_step(self.interactive, overrides_of(self.set@), name@, desc@)
                    == Ok::<StepModel, FragmentErrorModel>(step@),
                Err(e) => first_step(self.interactive, overrides_of(self.set@), name@, desc@)
                    == Err::<StepModel, FragmentErrorModel>(e@),
            },
    {
        match self.find_override(name) {
            Some(text) => {
                let value = match FragmentData::parse(text.as_str()) {
                    Ok(v) => v,
                    Err(e) => {
                        return Err(e);
                    },
                };
                if !desc.fragment_type.matches(&value) {
                    return Err(data_type_error(&desc.fragment_type, &value, name));
                }
                Ok(self.offer(name, value))
            },
            None => match &desc.default_value {
                Some(default) => {
                    if !desc.fragment_type.matches(default) {
                        return Err(data_type_error(&desc.fragment_type, default, name));
                    }
                    Ok(self.offer(name, default.clone()))
                },
                None => match &desc.crawler {
                    Some(crawler) => match plan_crawl(crawler, name, &desc.fragment_type) {
                        Ok(request) => Ok(Step::Crawl(request)),
                        Err(e) => Err(e),
                    },
                    None => {
                        if desc.required {
                            if self.interactive {
                                match interactive_provide(name, desc) {
                                    Ok(prompt) => Ok(Step::Ask(prompt, Pending::Provide)),
                                    Err(e) => Err(FragmentError::Interactive(e)),
                                }
                            } else {
                                Err(FragmentError::RequiredValueMissing(name.to_owned()))
                            }
                        } else {
                            Ok(Step::Done(None))
                        }
                    },
                },
            },
        }
    }

    /// Takes the step after the crawler of a field ran. `command` names the
    /// crawler as its request did, `success` says whether the run exited
    /// successfully, and `output` is what it wrote, or nothing where that is
    /// not UTF-8.
    pub fn crawled(
        name: &str,
        desc: &FragmentDataDesc,
        command: &str,
        success: bool,
        output: Option<String>,
    ) -> (r: Result<Step, FragmentError>)
        ensures
            match r {
                Ok(step) => step_after_crawl(
                    name@,
                    desc@,
                    command@,
                    success,
                    match output {
                        Some(o) => Some(o@),
                        None => None,
                    },
                ) == Ok::<StepModel, FragmentErrorModel>(step@),
                Err(e) => step_after_crawl(
                    name@,
                    desc@,
                    command@,
                    success,
                    match output {
                        Some(o) => Some(o@),
                        None => None,
                    },
                ) == Err::<StepModel, FragmentErrorModel>(e@),
            },
    {
        match judge_crawl(name, &desc.fragment_type, command, success, output) {
            Ok(value) => Ok(Step::Done(Some(value))),
            Err(e) => Err(e),
        }
    }

    /// Takes the step after the user answered a question about a field.
    pub fn answered(name: &str, desc: &FragmentDataDesc, pending: Pending, reply: Reply) -> (r:
        Result<Step, FragmentError>)
        ensures
            match r {
                Ok(step) => step_after_reply(name@, desc@, pending@, reply@) == Ok::<
                    StepModel,
                    FragmentErrorModel,
                >(step@),
                Err(e) => step_after_reply(name@, desc@, pending@, reply@) == Err::<
                    StepModel,
                    FragmentErrorModel,
                >(e@),
            },
    {
        match pending {
            Pending::Edit(value) => match accept_edit(value, reply) {
                Ok(Some(v)) => Ok(Step::Done(Some(v))),
                Ok(None) => match interactive_provide(name, desc) {
                    Ok(prompt) => Ok(Step::Ask(prompt, Pending::Provide)),
                    Err(e) => Err(FragmentError::Interactive(e)),
                },
                Err(e) => Err(FragmentError::Interactive(e)),
            },
            Pending::Provide => match accept_provided(desc, reply) {
                Ok(v) => Ok(Step::Done(v)),
                Err(e) => Err(FragmentError::Interactive(e)),
            },
        }
    }

    /// A header with no field resolved yet.
    pub fn begin() -> (r: HeaderBuilder)
        ensures
            r.next == 0,
            r.header@ == Seq::<(Seq<char>, FragmentValue)>::empty(),
    {
        HeaderBuilder { next: 0, header: Header::new() }
    }

    /// Builds the header on from the current field until outside work is
    /// needed, a field fails or every field is resolved.
    pub fn advance(&self, schema: &IndexMap<String, FragmentDataDesc>, builder: &mut HeaderBuilder) -> (r:
        Result<Action, FragmentError>)
        ensures
            match r {
                Ok(action) => build_from(
                    self.interactive,
                    overrides_of(self.set@),
                    schema_fields(*schema),
                    old(builder).next as int,
                    old(builder).header@,
                ) == Ok::<Progress, FragmentErrorModel>(
                    Progress {
                        next: final(builder).next as int,
                        header: final(builder).header@,
                        action: action@,
                    },
                ),
                Err(e) => build_from(
                    self.interactive,
                    overrides_of(self.set@),
                    schema_fields(*schema),
                    old(builder).next as int,
                    old(builder).header@,
                ) == Err::<Progress, FragmentErrorModel>(e@),
            },
    {
        let n = field_count(schema);
        let ghost set = overrides_of(self.set@);
        let ghost fields = schema_fields(*schema);
        let ghost goal = build_from(
            self.interactive,
            set,
            fields,
            builder.next as int,
            builder.header@,
        );
        while builder.next < n
            invariant
                n == fields.len(),
                set == overrides_of(self.set@),
                fields == schema_fields(*schema),
                goal == build_from(
                    self.interactive,
                    set,
                    fields,
                    old(builder).next as int,
                    old(builder).header@,
                ),
                goal == build_from(
                    self.interactive,
                    set,
                    fields,
                    builder.next as int,
                    builder.header@,
                ),
            decreases n - builder.next,
        {
            let (name, desc) = match field_at(schema, builder.next) {
                Some(field) => field,
                None => {
                    return Ok(Action::Finished);
                },
            };
            match self.start_field(name.as_str(), desc) {
                Err(e) => {
                    return Err(e);
                },
                Ok(Step::Done(Some(value))) => {
                    builder.header.insert(name.clone(), value);
                    builder.next = builder.next + 1;
                },
                Ok(Step::Done(None)) => {
                    builder.next = builder.next + 1;
                },
                Ok(Step::Crawl(request)) => {
                    return Ok(Action::Crawl(request));
                },
                Ok(Step::Ask(prompt, pending)) => {
                    return Ok(Action::Ask(prompt, pending));
                },
            }
        }
        builder.next = n;
        Ok(Action::Finished)
    }

    /// Builds the header on after the current field took the step `step`,
    /// which `crawled` or `answered` gave: a field that is done goes into the
    /// header and the next ones follow; a step that needs outside work is
    /// handed back.
    pub fn proceed(
        &self,
        schema: &IndexMap<String, FragmentDataDesc>,
        builder: &mut HeaderBuilder,
        step: Step,
    ) -> (r: Result<Action, FragmentError>)
        ensures
            match r {
                Ok(action) => build_after(
                    self.interactive,
                    overrides_of(self.set@),
                    schema_fields(*schema),
                    old(builder).next as int,
                    old(builder).header@,
                    step@,
                ) == Ok::<Progress, FragmentErrorModel>(
                    Progress {
                        next: final(builder).next as int,
                        header: final(builder).header@,
                        action: action@,
                    },
                ),
                Err(e) => build_after(
                    self.interactive,
                    overrides_of(self.set@),
                    schema_fields(*schema),
                    old(builder).next as int,
                    old(builder).header@,
                    step@,
                ) == Err::<Progress, FragmentErrorModel>(e@),
            },
    {
        let n = field_count(schema);
        if builder.next >= n {
            builder.next = n;
            return Ok(Action::Finished);
        }
        match step {
            Step::Done(Some(value)) => {
                if let Some((name, _)) = field_at(schema, builder.next) {
                    builder.header.insert(name.clone(), value);
                }
                builder.next = builder.next + 1;
                self.advance(schema, builder)
            },
            Step::Done(None) => {
                builder.next = builder.next + 1;
                self.advance(schema, builder)
            },
            Step::Crawl(request) => Ok(Action::Crawl(request)),
            Step::Ask(prompt, pending) => Ok(Action::Ask(prompt, pending)),
        }
    }
}


/// The order in which the sources of a value count, for a run that asks
/// nobody. A value that the caller set and that has the field's type is
/// taken, whatever default and crawler there are. Without such a value, a
/// default of the field's type is taken, whatever crawler there is. Without
/// either, the crawler of the field runs, and output of the field's type is
/// taken. Without any of the three a required field fails as missing and an
/// optional field is left out.
pub proof fn lemma_precedence(
    set: Seq<(Seq<char>, Seq<char>)>,
    name: Seq<char>,
    desc: FieldSchema,
    command: Seq<char>,
    output: Seq<char>,
)
    ensures
        lookup(set, name) is Some && type_matches(
            desc.field_type,
            parse_text(lookup(set, name)->0),
        ) ==> first_step(false, set, name, desc) == Ok::<StepModel, FragmentErrorModel>(
            StepModel::Done(Some(parse_text(lookup(set, name)->0))),
        ),
        lookup(set, name) is None && desc.default_value is Some && type_matches(
            desc.field_type,
            desc.default_value->0,
        ) ==> first_step(false, set, name, desc) == Ok::<StepModel, FragmentErrorModel>(
            StepModel::Done(desc.default_value),
        ),
        lookup(set, name) is None && desc.default_value is None && desc.crawler is Some
            && crawl_request(desc.crawler->0, name, desc.field_type) is Ok ==> first_step(false, set, name, desc) == Ok::<StepModel, FragmentErrorModel>(
            StepModel::Crawl(crawl_request(desc.crawler->0, name, desc.field_type)->Ok_0),
        ),
        type_matches(desc.field_type, parse_text(trimmed(output))) ==> step_after_crawl(
            name,
            desc,
            command,
            true,
            Some(output),
        ) == Ok::<StepModel, FragmentErrorModel>(
            StepModel::Done(Some(parse_text(trimmed(output)))),
        ),
        lookup(set, name) is None && desc.default_value is None && desc.crawler is None
            && desc.required ==> first_step(false, set, name, desc) == Err::<
            StepModel,
            FragmentErrorModel,
        >(FragmentErrorModel::RequiredValueMissing(name)),
        lookup(set, name) is None && desc.default_value is None && desc.crawler is None
            && !desc.required ==> first_step(false, set, name, desc) == Ok::<
            StepModel,
            FragmentErrorModel,
        >(StepModel::Done(None)),
{
}

/// No value is taken that does not have the type of its field: whatever a
/// field's first step or its step after a crawl resolves it to has the
/// field's type.
pub proof fn lemma_resolved_values_are_typed(
    interactive: bool,
    set: Seq<(Seq<char>, Seq<char>)>,
    name: Seq<char>,
    desc: FieldSchema,
    command: Seq<char>,
    success: bool,
    output: Option<Seq<char>>,
)
    ensures
        first_step(interactive, set, name, desc) matches Ok(StepModel::Done(Some(v)))
            ==> type_matches(desc.field_type, v),
        first_step(interactive, set, name, desc) matches Ok(
            StepModel::Ask(_, PendingModel::Edit(v)),
        ) ==> type_matches(desc.field_type, v),
        step_after_crawl(name, desc, command, success, output) matches Ok(
            StepModel::Done(Some(v)),
        ) ==> type_matches(desc.field_type, v),
{
}

} // verus!
