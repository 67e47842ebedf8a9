//! Crawlers: programs that compute the value of a header field. The library
//! says what to run and judges what came back; running is the caller's part.

use vstd::prelude::*;
use crate::error::FragmentError;
use crate::error::FragmentErrorModel;
use crate::fragment::Crawler;
use crate::fragment::CrawlerModel;
use crate::fragment::FieldType;
use crate::fragment::FragmentData;
use crate::fragment::FragmentDataType;
use crate::fragment::FragmentValue;
use crate::fragment::data_type_error;
use crate::fragment::field_type_name;
use crate::fragment::parse_text;
use crate::fragment::texts_of;
use crate::fragment::type_matches;
use crate::fragment::value_type_name;

verus! {

/// The program of a crawler.
#[derive(Debug)]
pub enum CrawlProgram {
    /// An executable at a path below the working directory.
    InWorkdir(String),
    /// A program that the system finds by its name.
    Named(String),
}

/// The mathematical model of a crawler's program.
pub ghost enum CrawlProgramModel {
    InWorkdir(Seq<char>),
    Named(Seq<char>),
}

/// What to run for a crawler: the program, its arguments, the two values
/// that it finds in its environment, and the text that names the crawler in
/// messages.
#[derive(Debug)]
pub struct CrawlRequest {
    pub program: CrawlProgram,
    pub args: Vec<String>,
    /// The value of the variable that tells the crawler the field's name.
    pub field_name: String,
    /// The value of the variable that tells the crawler the field's type.
    pub field_type: String,
    pub command: String,
}

/// The mathematical model of a request to run a crawler.
pub ghost struct CrawlRequestModel {
    pub program: CrawlProgramModel,
    pub args: Seq<Seq<char>>,
    pub field_name: Seq<char>,
    pub field_type: Seq<char>,
    pub command: Seq<char>,
}

impl View for CrawlRequest {
    type V = CrawlRequestModel;

    open spec fn view(&self) -> CrawlRequestModel {
        CrawlRequestModel {
            program: match self.program {
                CrawlProgram::InWorkdir(p) => CrawlProgramModel::InWorkdir(p@),
                CrawlProgram::Named(n) => CrawlProgramModel::Named(n@),
            },
            args: texts_of(self.args@),
            field_name: self.field_name@,
            field_type: self.field_type@,
            command: self.command@,
        }
    }
}

/// The name of the environment variable that tells a crawler the name of the
/// field.
pub fn field_name_variable() -> (r: &'static str)
    ensures
        r@ == "CARGO_CHANGELOG_CRAWLER_FIELD_NAME"@,
{
    "CARGO_CHANGELOG_CRAWLER_FIELD_NAME"
}

/// The name of the environment variable that tells a crawler the type of the
/// field.
pub fn field_type_variable() -> (r: &'static str)
    ensures
        r@ == "CARGO_CHANGELOG_CRAWLER_FIELD_TYPE"@,
{
    "CARGO_CHANGELOG_CRAWLER_FIELD_TYPE"
}

/// The tokens that `comma::parse_command` cuts a command line into, or
/// nothing where it refuses the line.
pub uninterp spec fn command_tokens(line: Seq<char>) -> Option<Seq<Seq<char>>>;

/// What `str::trim` leaves of a text: the text without the white space at
/// its two ends.
pub uninterp spec fn trimmed(text: Seq<char>) -> Seq<char>;

/// Calls `comma::parse_command`. The result is the one that
/// `command_tokens` names.
#[verifier::external_body]
fn parse_command(line: &str) -> (r: Option<Vec<String>>)
    ensures
        match r {
            Some(tokens) => command_tokens(line@) == Some(texts_of(tokens@)),
            None => command_tokens(line@) is None,
        },
{
    comma::parse_command(line)
}

/// Calls `str::trim`. The result is the one that `trimmed` names.
#[verifier::external_body]
fn trim(text: &str) -> (r: String)
    ensures
        r@ == trimmed(text@),
{
    text.trim().to_string()
}

/// What to run for a command line that was cut into `tokens`: the first
/// token is the program and the others are its arguments. A line that could
/// not be cut, or that holds no token, is no command.
pub open spec fn command_request(
    line: Seq<char>,
    tokens: Option<Seq<Seq<char>>>,
    field_name: Seq<char>,
    field_type: FieldType,
) -> Result<CrawlRequestModel, FragmentErrorModel> {
    match tokens {
        Some(t) => if t.len() > 0 {
            Ok(
                CrawlRequestModel {
                    program: CrawlProgramModel::Named(t[0]),
                    args: t.subrange(1, t.len() as int),
                    field_name,
                    field_type: field_type_name(field_type),
                    command: line,
                },
            )
        } else {
            Err(FragmentErrorModel::NoValidCommand { command: line, field_name })
        },
        None => Err(FragmentErrorModel::NoValidCommand { command: line, field_name }),
    }
}

/// What to run for a crawler.
pub open spec fn crawl_request(crawler: CrawlerModel, field_name: Seq<char>, field_type: FieldType) -> Result<
    CrawlRequestModel,
    FragmentErrorModel,
> {
    match crawler {
        CrawlerModel::Path(p) => Ok(
            CrawlRequestModel {
                program: CrawlProgramModel::InWorkdir(p),
                args: Seq::empty(),
                field_name,
                field_type: field_type_name(field_type),
                command: p,
            },
        ),
        CrawlerModel::Command(line) => command_request(
            line,
            command_tokens(line),
            field_name,
            field_type,
        ),
    }
}

/// Makes the request for a command line out of its tokens.
pub fn request_from_tokens(
    line: &str,
    tokens: Option<Vec<String>>,
    field_name: &str,
    expected_type: &FragmentDataType,
) -> (r: Result<CrawlRequest, FragmentError>)
    ensures
        match r {
            Ok(req) => command_request(
                line@,
                match tokens {
                    Some(t) => Some(texts_of(t@)),
                    None => None,
                },
                field_name@,
                expected_type@,
            ) == Ok::<CrawlRequestModel, FragmentErrorModel>(req@),
            Err(e) => command_request(
                line@,
                match tokens {
                    Some(t) => Some(texts_of(t@)),
                    None => None,
                },
                field_name@,
                expected_type@,
            ) == Err::<CrawlRequestModel, FragmentErrorModel>(e@),
        },
{
    match tokens {
        Some(mut t) => {
            if t.len() == 0 {
                return Err(
                    FragmentError::NoValidCommand {
                        command: line.to_owned(),
                        field_name: field_name.to_owned(),
                    },
                );
            }
            let ghost all = texts_of(t@);
            let program = t.remove(0);
            assert(texts_of(t@) =~= all.subrange(1, all.len() as int));
            Ok(
                CrawlRequest {
                    program: CrawlProgram::Named(program),
                    args: t,
                    field_name: field_name.to_owned(),
                    field_type: expected_type.type_label(),
                    command: line.to_owned(),
                },
            )
        },
        None => Err(
            FragmentError::NoValidCommand {
                command: line.to_owned(),
                field_name: field_name.to_owned(),
            },
        ),
    }
}

/// Says what to run for a crawler: the executable at its path, or the
/// program and the arguments of its command line.
pub fn plan_crawl(crawler: &Crawler, field_name: &str, expected_type: &FragmentDataType) -> (r: Result<
    CrawlRequest,
    FragmentError,
>)
    ensures
        match r {
            Ok(req) => crawl_request(crawler@, field_name@, expected_type@) == Ok::<
                CrawlRequestModel,
                FragmentErrorModel,
            >(req@),
            Err(e) => crawl_request(crawler@, field_name@, expected_type@) == Err::<
                CrawlRequestModel,
                FragmentErrorModel,
            >(e@),
        },
{
    match crawler {
        Crawler::Path(path) => {
            let args: Vec<String> = Vec::new();
            assert(texts_of(args@) =~= Seq::<Seq<char>>::empty());
            Ok(
                CrawlRequest {
                    program: CrawlProgram::InWorkdir(path.clone()),
                    args,
                    field_name: field_name.to_owned(),
                    field_type: expected_type.type_label(),
                    command: path.clone(),
                },
            )
        },
        Crawler::Command(line) => {
            let tokens = parse_command(line.as_str());
            request_from_tokens(line.as_str(), tokens, field_name, expected_type)
        },
    }
}

/// The value that a crawler's run gives, once its output is trimmed: the
/// run must have succeeded, its output must be text, and what the output
/// denotes must have the field's type.
pub open spec fn crawled_value(
    field_name: Seq<char>,
    field_type: FieldType,
    command: Seq<char>,
    success: bool,
    output: Option<Seq<char>>,
) -> Result<FragmentValue, FragmentErrorModel> {
    if !success {
        Err(FragmentErrorModel::CommandNoSuccess { command, field_name })
    } else {
        match output {
            None => Err(FragmentErrorModel::NoUtf8Output { command, field_name }),
            Some(out) => {
                let value = parse_text(out);
                if type_matches(field_type, value) {
                    Ok(value)
                } else {
                    Err(
                        FragmentErrorModel::DataType {
                            exp: field_type_name(field_type),
                            recv: value_type_name(value),
                            field_name,
                        },
                    )
                }
            },
        }
    }
}

/// Judges the output of a crawler that is already trimmed.
pub fn judge_output(
    field_name: &str,
    expected_type: &FragmentDataType,
    command: &str,
    success: bool,
    output: Option<String>,
) -> (r: Result<FragmentData, FragmentError>)
    ensures
        match r {
            Ok(d) => crawled_value(
                field_name@,
                expected_type@,
                command@,
                success,
                match output {
                    Some(o) => Some(o@),
                    None => None,
                },
            ) == Ok::<FragmentValue, FragmentErrorModel>(d@),
            Err(e) => crawled_value(
                field_name@,
                expected_type@,
                command@,
                success,
                match output {
                    Some(o) => Some(o@),
                    None => None,
                },
            ) == Err::<FragmentValue, FragmentErrorModel>(e@),
        },
{
    if !success {
        return Err(
            FragmentError::CommandNoSuccess {
                command: command.to_owned(),
                field_name: field_name.to_owned(),
            },
        );
    }
    match output {
        None => Err(
            FragmentError::NoUtf8Output {
                command: command.to_owned(),
                field_name: field_name.to_owned(),
            },
        ),
        Some(out) => {
            match FragmentData::parse(out.as_str()) {
                Ok(data) => {
                    if expected_type.matches(&data) {
                        Ok(data)
                    } else {
                        Err(data_type_error(expected_type, &data, field_name))
                    }
                },
                Err(e) => Err(e),
            }
        },
    }
}

/// Judges the run of a crawler: `success` says whether it exited
/// successfully, `output` is what it wrote, or nothing where that is not
/// UTF-8. The output counts without the white space at its ends.
pub fn judge_crawl(
    field_name: &str,
    expected_type: &FragmentDataType,
    command: &str,
    success: bool,
    output: Option<String>,
) -> (r: Result<FragmentData, FragmentError>)
    ensures
        match r {
            Ok(d) => crawled_value(
                field_name@,
                expected_type@,
                command@,
                success,
                match output {
                    Some(o) => Some(trimmed(o@)),
                    None => None,
                },
            ) == Ok::<FragmentValue, FragmentErrorModel>(d@),
            Err(e) => crawled_value(
                field_name@,
                expected_type@,
                command@,
                success,
                match output {
                    Some(o) => Some(trimmed(o@)),
                    None => None,
                },
            ) == Err::<FragmentValue, FragmentErrorModel>(e@),
        },
{
    let clean = match &output {
        Some(o) => Some(trim(o.as_str())),
        None => None,
    };
    judge_output(field_name, expected_type, command, success, clean)
}

} // verus!
